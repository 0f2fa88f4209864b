use tickets::appointment::{AppointmentFormat, NewAppointment};
use tickets::email::Email;
use tickets::error::CustomError;
use tickets::generator::{
    add_invitation_core, assemble_batch, derive_count, fresh_ids, pair_recipients,
};
use tickets::shortlink::{long_url_for_token, ShortUrlResponse};
use tickets::store::Store;
use tickets::uri::Uri;

fn url(text: &str) -> Uri {
    Uri::parse(text.to_string()).unwrap()
}

fn offline_appointment() -> NewAppointment {
    NewAppointment::checked(
        "Checkup".to_string(),
        "Yearly checkup".to_string(),
        AppointmentFormat::OFFLINE,
        Some("123 Main St".to_string()),
        None,
        1_728_554_400_000_000,
        3600,
    )
    .unwrap()
}

#[test]
fn count_comes_from_the_email_list_first() {
    let emails = Some(vec![
        Email::parse("a@example.com".to_string()).unwrap(),
        Email::parse("b@example.com".to_string()).unwrap(),
    ]);
    assert_eq!(derive_count(&emails, Some(5)), 2);
    assert_eq!(derive_count(&None, Some(5)), 5);
    assert_eq!(derive_count(&None, Some(-3)), 0);
    assert_eq!(derive_count(&None, None), 1);
}

#[test]
fn fresh_ids_come_one_per_draft() {
    assert_eq!(fresh_ids(4).len(), 4);
    assert_eq!(fresh_ids(0).len(), 0);
}

#[test]
fn a_successful_batch_pairs_positions() {
    let ids: Vec<u128> = vec![101, 102, 103];
    let results: Vec<Result<Uri, CustomError>> = vec![
        Ok(url("https://s.example.com/a")),
        Ok(url("https://s.example.com/b")),
        Ok(url("https://s.example.com/c")),
    ];
    let batch = assemble_batch(77, &ids, &results).unwrap();
    assert_eq!(batch.len(), 3);
    for (i, draft) in batch.iter().enumerate() {
        assert_eq!(draft.id, ids[i]);
        assert_eq!(draft.appointment_id, 77);
    }
    assert_eq!(batch[0].short_url.as_str(), "https://s.example.com/a");
    assert_eq!(batch[1].short_url.as_str(), "https://s.example.com/b");
    assert_eq!(batch[2].short_url.as_str(), "https://s.example.com/c");
    // unique ids and unique short URLs
    assert!(batch[0].id != batch[1].id && batch[1].id != batch[2].id && batch[0].id != batch[2].id);
    assert!(batch[0].short_url.as_str() != batch[1].short_url.as_str());
}

#[test]
fn one_failed_call_fails_the_batch_with_its_error() {
    let ids: Vec<u128> = vec![101, 102];
    let results: Vec<Result<Uri, CustomError>> = vec![
        Ok(url("https://s.example.com/a")),
        Err(CustomError::UpstreamUnavailable("the service timed out".to_string())),
    ];
    match assemble_batch(77, &ids, &results) {
        Err(CustomError::UpstreamUnavailable(msg)) => {
            assert_eq!(msg, "the service timed out");
        },
        _ => panic!("expected the upstream failure to surface"),
    }
}

#[test]
fn a_failed_call_persists_nothing() {
    let mut store = Store::new();
    let appointment_id = store.add_appointment(offline_appointment(), 77).unwrap();
    let ids: Vec<u128> = vec![101, 102];
    let results: Vec<Result<Uri, CustomError>> = vec![
        Ok(url("https://s.example.com/a")),
        Err(CustomError::UpstreamUnavailable("the service timed out".to_string())),
    ];
    let before = store.find_invitations(None).len();
    assert!(add_invitation_core(&mut store, appointment_id, &ids, &results).is_err());
    let after = store.find_invitations(None).len();
    assert_eq!(before, 0);
    assert_eq!(after, 0);
}

#[test]
fn a_successful_generation_is_persisted_whole() {
    let mut store = Store::new();
    let appointment_id = store.add_appointment(offline_appointment(), 77).unwrap();
    let ids: Vec<u128> = vec![101, 102, 103];
    let results: Vec<Result<Uri, CustomError>> = vec![
        Ok(url("https://s.example.com/a")),
        Ok(url("https://s.example.com/b")),
        Ok(url("https://s.example.com/c")),
    ];
    let batch = add_invitation_core(&mut store, appointment_id, &ids, &results).unwrap();
    assert_eq!(batch.len(), 3);
    let stored = store.find_invitations(None);
    assert_eq!(stored.len(), 3);
    for (i, row) in stored.iter().enumerate() {
        assert_eq!(row.id, ids[i]);
        assert_eq!(row.appointment_id, appointment_id);
        assert!(!row.used);
    }
}

#[test]
fn persisting_then_fetching_round_trips() {
    let mut store = Store::new();
    let appointment_id = store.add_appointment(offline_appointment(), 77).unwrap();
    let ids: Vec<u128> = vec![55];
    let results: Vec<Result<Uri, CustomError>> = vec![Ok(url("https://s.example.com/x"))];
    add_invitation_core(&mut store, appointment_id, &ids, &results).unwrap();
    let fetched = store.find_invitation(55).unwrap();
    assert_eq!(fetched.id, 55);
    assert_eq!(fetched.appointment_id, appointment_id);
    assert!(!fetched.used);
    assert_eq!(fetched.short_url.as_str(), "https://s.example.com/x");
}

#[test]
fn a_repeated_draft_id_is_a_duplicate() {
    let mut store = Store::new();
    let appointment_id = store.add_appointment(offline_appointment(), 77).unwrap();
    let ids: Vec<u128> = vec![1, 1];
    let results: Vec<Result<Uri, CustomError>> = vec![
        Ok(url("https://s.example.com/a")),
        Ok(url("https://s.example.com/b")),
    ];
    match add_invitation_core(&mut store, appointment_id, &ids, &results) {
        Err(CustomError::Duplicate(_)) => {},
        _ => panic!("expected a duplicate error"),
    }
    assert_eq!(store.find_invitations(None).len(), 0);
}

#[test]
fn a_draft_for_an_unknown_appointment_is_refused() {
    let mut store = Store::new();
    let ids: Vec<u128> = vec![1];
    let results: Vec<Result<Uri, CustomError>> = vec![Ok(url("https://s.example.com/a"))];
    match add_invitation_core(&mut store, 999, &ids, &results) {
        Err(CustomError::Storage(_)) => {},
        _ => panic!("expected a storage error"),
    }
    assert_eq!(store.find_invitations(None).len(), 0);
}

#[test]
fn recipients_pair_by_position() {
    let emails = vec![
        Email::parse("a@example.com".to_string()).unwrap(),
        Email::parse("b@example.com".to_string()).unwrap(),
    ];
    let ids: Vec<u128> = vec![101, 102];
    let results: Vec<Result<Uri, CustomError>> = vec![
        Ok(url("https://s.example.com/a")),
        Ok(url("https://s.example.com/b")),
    ];
    let batch = assemble_batch(77, &ids, &results).unwrap();
    let pairs = pair_recipients(&emails, &batch);
    assert_eq!(pairs.len(), 2);
    assert_eq!(pairs[0].0.as_str(), "a@example.com");
    assert_eq!(pairs[0].1.as_str(), "https://s.example.com/a");
    assert_eq!(pairs[1].0.as_str(), "b@example.com");
    assert_eq!(pairs[1].1.as_str(), "https://s.example.com/b");
}

#[test]
fn the_long_url_joins_base_and_token() {
    let base = url("https://c443.example.com/api/validations");
    let long = long_url_for_token(&base, "6ba7b810-9dad-11d1-80b4-00c04fd430c8");
    assert_eq!(
        long,
        "https://c443.example.com/api/validations/6ba7b810-9dad-11d1-80b4-00c04fd430c8"
    );
}

#[test]
fn a_gateway_answer_must_carry_valid_urls() {
    let ok = ShortUrlResponse::from_raw(
        "testhash".to_string(),
        "https://mocked.url/testhash".to_string(),
        "https://www.example.com".to_string(),
    )
    .unwrap();
    assert_eq!(ok.hash, "testhash");
    assert_eq!(ok.short_url.as_str(), "https://mocked.url/testhash");
    assert_eq!(ok.long_url.as_str(), "https://www.example.com");

    match ShortUrlResponse::from_raw(
        "testhash".to_string(),
        "nonsense".to_string(),
        "https://www.example.com".to_string(),
    ) {
        Err(CustomError::UpstreamUnavailable(_)) => {},
        _ => panic!("expected a malformed-answer error"),
    }
}

#[test]
fn deleting_an_appointment_cascades() {
    let mut store = Store::new();
    let appointment_id = store.add_appointment(offline_appointment(), 77).unwrap();
    let ids: Vec<u128> = vec![1, 2];
    let results: Vec<Result<Uri, CustomError>> = vec![
        Ok(url("https://s.example.com/a")),
        Ok(url("https://s.example.com/b")),
    ];
    add_invitation_core(&mut store, appointment_id, &ids, &results).unwrap();
    assert!(store.delete_appointment(appointment_id));
    assert_eq!(store.find_appointments(None).len(), 0);
    assert_eq!(store.find_invitations(None).len(), 0);
    assert!(!store.delete_appointment(appointment_id));
}

#[test]
fn the_batch_is_found_under_its_appointment() {
    let mut store = Store::new();
    let appointment_id = store.add_appointment(offline_appointment(), 77).unwrap();
    let ids: Vec<u128> = vec![1, 2];
    let results: Vec<Result<Uri, CustomError>> = vec![
        Ok(url("https://s.example.com/a")),
        Ok(url("https://s.example.com/b")),
    ];
    add_invitation_core(&mut store, appointment_id, &ids, &results).unwrap();
    let minted = store.find_for_appointment(appointment_id);
    assert_eq!(minted.len(), 2);
    assert!(minted.iter().all(|v| v.appointment_id == appointment_id));
    assert!(store.find_for_appointment(12345).is_empty());
}
