use tickets::appointment::{AppointmentFormat, NewAppointment};
use tickets::error::CustomError;
use tickets::generator::add_invitation_core;
use tickets::redemption::{
    compute_yesterday_midnight, redeem, redeem_now, rejection_error, RedemptionOutcome,
    RejectionReason,
};
use tickets::store::Store;
use tickets::uri::Uri;

const APPOINTMENT_START: i64 = 1_728_554_400_000_000; // 2024-10-10T10:00:00Z
const HOUR_BEFORE: i64 = 1_728_550_800_000_000; // 2024-10-10T09:00:00Z
const YESTERDAY_MIDNIGHT: i64 = 1_728_432_000_000_000; // 2024-10-09T00:00:00Z

fn url(text: &str) -> Uri {
    Uri::parse(text.to_string()).unwrap()
}

fn store_with_invitation(format: AppointmentFormat, date: i64) -> Store {
    let mut store = Store::new();
    let (address, link) = match format {
        AppointmentFormat::OFFLINE => (Some("123 Main St".to_string()), None),
        AppointmentFormat::ONLINE => (None, Some(url("https://meet.example.com/room"))),
    };
    let request = NewAppointment::checked(
        "Checkup".to_string(),
        "Yearly checkup".to_string(),
        format,
        address,
        link,
        date,
        3600,
    )
    .unwrap();
    let appointment_id = store.add_appointment(request, 77).unwrap();
    let ids: Vec<u128> = vec![11];
    let results: Vec<Result<Uri, CustomError>> = vec![Ok(url("https://s.example.com/h"))];
    add_invitation_core(&mut store, appointment_id, &ids, &results).unwrap();
    store
}

#[test]
fn an_offline_attempt_is_displayed_and_consumed() {
    let mut store = store_with_invitation(AppointmentFormat::OFFLINE, APPOINTMENT_START);
    match redeem(&mut store, 11, HOUR_BEFORE) {
        RedemptionOutcome::Display(snapshot) => {
            assert_eq!(snapshot.id, 11);
            assert_eq!(snapshot.appointment_id, 77);
            assert!(!snapshot.used);
            assert_eq!(snapshot.address.as_deref(), Some("123 Main St"));
        },
        _ => panic!("expected the snapshot"),
    }
    assert!(store.find_invitation(11).unwrap().used);
}

#[test]
fn an_online_attempt_redirects_to_the_link() {
    let mut store = store_with_invitation(AppointmentFormat::ONLINE, APPOINTMENT_START);
    match redeem(&mut store, 11, HOUR_BEFORE) {
        RedemptionOutcome::Redirect(link) => {
            assert_eq!(link.as_str(), "https://meet.example.com/room");
        },
        _ => panic!("expected the redirect"),
    }
    assert!(store.find_invitation(11).unwrap().used);
}

#[test]
fn the_second_attempt_is_forbidden() {
    let mut store = store_with_invitation(AppointmentFormat::OFFLINE, APPOINTMENT_START);
    assert!(matches!(
        redeem(&mut store, 11, HOUR_BEFORE),
        RedemptionOutcome::Display(_)
    ));
    // the race resolved: exactly one attempt succeeds, the next is turned away
    match redeem(&mut store, 11, HOUR_BEFORE) {
        RedemptionOutcome::Rejected(RejectionReason::AlreadyUsed) => {},
        _ => panic!("expected the already-used rejection"),
    }
    assert!(store.find_invitation(11).unwrap().used);
}

#[test]
fn a_used_invitation_stays_rejected() {
    let mut store = store_with_invitation(AppointmentFormat::OFFLINE, APPOINTMENT_START);
    redeem(&mut store, 11, HOUR_BEFORE);
    for _ in 0..3 {
        match redeem(&mut store, 11, HOUR_BEFORE) {
            RedemptionOutcome::Rejected(RejectionReason::AlreadyUsed) => {},
            _ => panic!("a used invitation must stay rejected"),
        }
        assert!(store.find_invitation(11).unwrap().used);
    }
}

#[test]
fn an_unknown_id_is_not_found() {
    let mut store = store_with_invitation(AppointmentFormat::OFFLINE, APPOINTMENT_START);
    match redeem(&mut store, 999, HOUR_BEFORE) {
        RedemptionOutcome::Rejected(RejectionReason::NotFound) => {},
        _ => panic!("expected not found"),
    }
}

#[test]
fn the_window_boundary_is_inclusive() {
    // dated exactly at yesterday's midnight: accepted
    let mut store = store_with_invitation(AppointmentFormat::OFFLINE, YESTERDAY_MIDNIGHT);
    assert!(matches!(
        redeem(&mut store, 11, HOUR_BEFORE),
        RedemptionOutcome::Display(_)
    ));

    // one microsecond earlier: outdated, and nothing changes
    let mut store = store_with_invitation(AppointmentFormat::OFFLINE, YESTERDAY_MIDNIGHT - 1);
    match redeem(&mut store, 11, HOUR_BEFORE) {
        RedemptionOutcome::Rejected(RejectionReason::Outdated) => {},
        _ => panic!("expected the outdated rejection"),
    }
    assert!(!store.find_invitation(11).unwrap().used);
}

#[test]
fn the_clock_backed_attempt_consumes_once() {
    // an appointment so far ahead that any sane clock accepts it
    let mut store = store_with_invitation(AppointmentFormat::OFFLINE, i64::MAX);
    assert!(matches!(redeem_now(&mut store, 11), RedemptionOutcome::Display(_)));
    assert!(matches!(
        redeem_now(&mut store, 11),
        RedemptionOutcome::Rejected(RejectionReason::AlreadyUsed)
    ));
}

#[test]
fn rejections_answer_as_the_endpoint_words_them() {
    match rejection_error(RejectionReason::AlreadyUsed) {
        CustomError::Forbidden(msg) => assert_eq!(msg, "invitation has already been used"),
        _ => panic!("expected forbidden"),
    }
    match rejection_error(RejectionReason::Outdated) {
        CustomError::Forbidden(msg) => assert_eq!(msg, "The invitation date is outdated."),
        _ => panic!("expected forbidden"),
    }
    let not_found = rejection_error(RejectionReason::NotFound);
    assert_eq!(not_found.status_code(), 404);
    assert_eq!(rejection_error(RejectionReason::AlreadyUsed).status_code(), 403);
}

#[test]
fn yesterday_midnight_lands_on_the_day_grid() {
    // 2024-10-10T09:00:00Z falls on 2024-10-10, so the boundary is
    // 2024-10-09T00:00:00Z
    assert_eq!(compute_yesterday_midnight(HOUR_BEFORE), YESTERDAY_MIDNIGHT as i128);
    // exactly at a midnight, the boundary is the previous midnight
    let day: i64 = 86_400_000_000;
    assert_eq!(compute_yesterday_midnight(YESTERDAY_MIDNIGHT), (YESTERDAY_MIDNIGHT - day) as i128);
    // before the epoch the grid still floors toward earlier days
    assert_eq!(compute_yesterday_midnight(-1), -2 * day as i128);
    assert_eq!(compute_yesterday_midnight(0), -(day as i128));
}
