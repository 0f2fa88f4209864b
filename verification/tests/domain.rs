use tickets::appointment::{
    normalize_ids, Appointment, AppointmentFormat, DBAppointment, NewAppointment,
};
use tickets::config::Environment;
use tickets::email::{dedup_emails, Email};
use tickets::error::CustomError;
use tickets::invitation::{DBInvitation, Invitation};
use tickets::uri::Uri;

#[test]
fn email_empty_string_is_rejected() {
    let email = "".to_string();
    assert!(Email::parse(email).is_err());
}

#[test]
fn email_missing_at_symbol_is_rejected() {
    let email = "somedomain.com".to_string();
    assert!(Email::parse(email).is_err());
}

#[test]
fn email_missing_subject_is_rejected() {
    let email = "@somedomain.com".to_string();
    assert!(Email::parse(email).is_err());
}

#[test]
fn email_ordinary_address_is_accepted() {
    let email = Email::parse("test@gmail.com".to_string()).unwrap();
    assert_eq!(email.as_str(), "test@gmail.com");
}

#[test]
fn email_error_carries_the_text() {
    let err = Email::parse("nonsense".to_string()).unwrap_err();
    assert_eq!(err, "nonsense is not a valid email string.");
}

#[test]
fn uri_empty_string_is_rejected() {
    let uri = "".to_string();
    assert!(Uri::parse(uri).is_err());
}

#[test]
fn invalid_scheme_is_rejected() {
    let uri = "htp://www.example.com".to_string();
    let result = Uri::parse(uri);
    assert!(result.is_err(), "Expected error, but got: {:?}", result.map(|u| u.into_inner()));
}

#[test]
fn missing_domain_is_rejected() {
    let uri = "https://".to_string();
    assert!(Uri::parse(uri).is_err());
}

#[test]
fn uri_ordinary_url_is_accepted() {
    let uri = Uri::parse("https://example.com/shorturl".to_string()).unwrap();
    assert_eq!(uri.as_str(), "https://example.com/shorturl");
}

#[test]
fn uri_error_carries_the_text() {
    let err = Uri::parse("ftp://example.com".to_string()).unwrap_err();
    assert_eq!(err, "ftp://example.com is not a valid URI.");
}

#[test]
fn dedup_keeps_first_occurrences() {
    let a = Email::parse("a@example.com".to_string()).unwrap();
    let b = Email::parse("b@example.com".to_string()).unwrap();
    let a2 = Email::parse("a@example.com".to_string()).unwrap();
    let unique = dedup_emails(vec![a, b, a2]);
    assert_eq!(unique.len(), 2);
    assert_eq!(unique[0].as_str(), "a@example.com");
    assert_eq!(unique[1].as_str(), "b@example.com");
}

#[test]
fn normalize_sorts_and_drops_repeats() {
    let ids = normalize_ids(vec![9, 3, 9, 1, 3]);
    assert_eq!(ids, vec![1, 3, 9]);
}

#[test]
fn environment_names_round() {
    assert_eq!(Environment::try_from("DEVELOPMENT".to_string()).unwrap().as_str(), "development");
    assert_eq!(Environment::try_from("production".to_string()).unwrap().as_str(), "production");
    assert_eq!(Environment::try_from("Local".to_string()).unwrap().as_str(), "local");
    let err = Environment::try_from("staging".to_string()).unwrap_err();
    assert_eq!(
        err,
        "staging is not a supported environment. Use either `development` or `production`."
    );
}

#[test]
fn status_codes_match_the_kinds() {
    assert_eq!(CustomError::ParseInputDataError("x".to_string()).status_code(), 400);
    assert_eq!(CustomError::InternalError.status_code(), 500);
    assert_eq!(CustomError::Storage("x".to_string()).status_code(), 500);
    assert_eq!(CustomError::UpstreamUnavailable("x".to_string()).status_code(), 500);
    assert_eq!(CustomError::InvalidCredentials("x".to_string()).status_code(), 401);
    assert_eq!(CustomError::Duplicate("x".to_string()).status_code(), 409);
    assert_eq!(CustomError::Forbidden("x".to_string()).status_code(), 403);
    assert_eq!(CustomError::NotFound("x".to_string()).status_code(), 404);
}

#[test]
fn checked_appointment_wants_matching_fields() {
    let link = Uri::parse("https://meet.example.com/room".to_string()).unwrap();
    let online = NewAppointment::checked(
        "Title".to_string(),
        "Description".to_string(),
        AppointmentFormat::ONLINE,
        None,
        Some(link),
        1_728_554_400_000_000,
        3600,
    );
    assert!(online.is_ok());

    let offline_missing_address = NewAppointment::checked(
        "Title".to_string(),
        "Description".to_string(),
        AppointmentFormat::OFFLINE,
        None,
        None,
        1_728_554_400_000_000,
        3600,
    );
    match offline_missing_address {
        Err(CustomError::ParseInputDataError(_)) => {},
        other => panic!("expected an input error, got {:?}", other.is_ok()),
    }
}

#[test]
fn appointment_rebuilds_from_its_row() {
    let row = DBAppointment {
        id: 7,
        title: "Title".to_string(),
        description: "Description".to_string(),
        format: AppointmentFormat::ONLINE,
        address: None,
        link: Some("https://meet.example.com/room".to_string()),
        date: 1_728_554_400_000_000,
        duration: 3600,
    };
    let appointment: Appointment = Appointment::from_db(row).unwrap();
    assert_eq!(appointment.id, 7);
    assert_eq!(appointment.duration, 3600);
    assert_eq!(appointment.link.unwrap().as_str(), "https://meet.example.com/room");

    let bad = DBAppointment {
        id: 8,
        title: "Title".to_string(),
        description: "Description".to_string(),
        format: AppointmentFormat::ONLINE,
        address: None,
        link: Some("not a url".to_string()),
        date: 0,
        duration: 0,
    };
    assert!(Appointment::from_db(bad).is_err());
}

#[test]
fn invitation_rebuilds_from_its_row() {
    let row = DBInvitation {
        id: 11,
        appointment_id: 7,
        used: false,
        short_url: "https://s.example.com/h".to_string(),
    };
    let invitation: Invitation = Invitation::from_db(row).unwrap();
    assert_eq!(invitation.id, 11);
    assert_eq!(invitation.appointment_id, 7);
    assert!(!invitation.used);
    assert_eq!(invitation.short_url.as_str(), "https://s.example.com/h");
}
