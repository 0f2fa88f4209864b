use tickets::appointment::{AppointmentFormat, NewAppointment};
use tickets::error::CustomError;
use tickets::generator::add_invitation_core;
use tickets::qr::{generate_qr_code_base64, generate_qr_code_png, invitation_qr_page, replace_marker};
use tickets::redemption::{redeem, RedemptionOutcome, RejectionReason};
use tickets::store::Store;
use tickets::uri::Uri;

fn url(text: &str) -> Uri {
    Uri::parse(text.to_string()).unwrap()
}

#[test]
fn test_generate_qr_code_base64() {
    let result = generate_qr_code_base64(&url("https://google.com.ua"));
    assert!(result.is_ok());
    let payload = result.ok().unwrap();
    // a PNG starts with its fixed signature, so its base64 text starts so too
    assert!(payload.starts_with("iVBORw0KGgo"));
    assert!(!payload.contains("https://google.com.ua"));
}

#[test]
fn a_url_too_long_for_a_qr_symbol_is_turned_down() {
    // the largest QR symbol holds just under three thousand bytes
    let text = format!("https://example.com/{}", "a".repeat(4000));
    let uri = Uri::parse(text).unwrap();
    assert!(generate_qr_code_base64(&uri).is_err());
    assert!(generate_qr_code_png(&uri).is_err());
}

#[test]
fn qr_png_bytes_carry_the_png_signature() {
    let bytes = generate_qr_code_png(&url("https://google.com.ua")).ok().unwrap();
    assert_eq!(&bytes[..8], &[0x89, 0x50, 0x4e, 0x47, 0x0d, 0x0a, 0x1a, 0x0a]);
}

#[test]
fn the_marker_is_replaced_everywhere() {
    let template = b"<p>{X}</p><p>{X}</p>".to_vec();
    let marker = b"{X}".to_vec();
    let value = b"hello".to_vec();
    let out = replace_marker(&template, &marker, &value);
    assert_eq!(out, b"<p>hello</p><p>hello</p>".to_vec());
}

#[test]
fn an_absent_marker_changes_nothing() {
    let template = b"<p>text</p>".to_vec();
    let marker = b"{IMAGE_STRING}".to_vec();
    let value = b"hello".to_vec();
    assert_eq!(replace_marker(&template, &marker, &value), template);
}

#[test]
fn an_empty_marker_changes_nothing() {
    let template = b"<p>text</p>".to_vec();
    let marker = Vec::new();
    let value = b"hello".to_vec();
    assert_eq!(replace_marker(&template, &marker, &value), template);
}

#[test]
fn overlapping_candidates_scan_left_to_right() {
    let template = b"aaa".to_vec();
    let marker = b"aa".to_vec();
    let value = b"b".to_vec();
    assert_eq!(replace_marker(&template, &marker, &value), b"ba".to_vec());
}

#[test]
fn the_qr_page_embeds_the_payload() {
    let mut store = Store::new();
    let request = NewAppointment::checked(
        "Checkup".to_string(),
        "Yearly checkup".to_string(),
        AppointmentFormat::OFFLINE,
        Some("123 Main St".to_string()),
        None,
        1_728_554_400_000_000,
        3600,
    )
    .unwrap();
    let appointment_id = store.add_appointment(request, 77).unwrap();
    let ids: Vec<u128> = vec![11];
    let results: Vec<Result<Uri, CustomError>> = vec![Ok(url("https://s.example.com/h"))];
    add_invitation_core(&mut store, appointment_id, &ids, &results).unwrap();

    let template = b"<html><img src=\"data:image/png;base64,{IMAGE_STRING}\"/></html>".to_vec();
    let page = invitation_qr_page(&store, 11, &template).unwrap();
    let page_text = String::from_utf8(page).unwrap();
    assert!(page_text.contains("data:image/png;base64,iVBORw0KGgo"));

    match invitation_qr_page(&store, 999, &template) {
        Err(CustomError::NotFound(_)) => {},
        _ => panic!("expected not found"),
    }
}

// The full walk: an offline appointment is created, one invitation is
// generated without recipients, its QR page is rendered with the base64
// payload embedded, an attempt an hour before the start is accepted, and
// the same id attempted again is forbidden.
#[test]
fn an_invitation_walks_from_creation_to_rejection() {
    let mut store = Store::new();
    let request = NewAppointment::checked(
        "Checkup".to_string(),
        "Yearly checkup".to_string(),
        AppointmentFormat::OFFLINE,
        Some("123 Main St".to_string()),
        None,
        1_728_554_400_000_000, // 2024-10-10T10:00:00Z
        3600,
    )
    .unwrap();
    let appointment_id = store.add_appointment(request, 77).unwrap();

    let ids: Vec<u128> = vec![11];
    let results: Vec<Result<Uri, CustomError>> = vec![Ok(url("https://s.example.com/h"))];
    let batch = add_invitation_core(&mut store, appointment_id, &ids, &results).unwrap();
    assert_eq!(batch.len(), 1);

    let stored = store.find_invitation(11).unwrap();
    let payload = generate_qr_code_base64(&stored.short_url).ok().unwrap();
    let template = b"<html><img src=\"data:image/png;base64,{IMAGE_STRING}\"/></html>".to_vec();
    let page = replace_marker(&template, &b"{IMAGE_STRING}".to_vec(), &payload.clone().into_bytes());
    let page_text = String::from_utf8(page).unwrap();
    assert!(page_text.contains("data:image/png;base64,iVBORw0KGgo"));
    assert!(!page_text.contains("{IMAGE_STRING}"));

    let hour_before: i64 = 1_728_550_800_000_000; // 2024-10-10T09:00:00Z
    match redeem(&mut store, 11, hour_before) {
        RedemptionOutcome::Display(snapshot) => {
            assert_eq!(snapshot.appointment_id, appointment_id);
            assert_eq!(snapshot.address.as_deref(), Some("123 Main St"));
        },
        _ => panic!("expected the snapshot"),
    }
    match redeem(&mut store, 11, hour_before) {
        RedemptionOutcome::Rejected(RejectionReason::AlreadyUsed) => {},
        _ => panic!("expected the already-used rejection"),
    }
}
