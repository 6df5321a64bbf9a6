use hmac::{Hmac, Mac};
use sha2::Sha256;
use software_should_work::stripe::{
    check_webhook_signature, parse_signature, signature_header_value, WebhookError,
};

const SECRET: &str = "whsec_test";
const PAYLOAD: &str = "{\"type\":\"checkout.session.expired\"}";
// HMAC-SHA256 of "1700000000.{PAYLOAD}" under SECRET.
const TAG: &str = "57813f8f843d95d324cb0b0c1cc7ef662e901b207658e237d037c3f21770d8ff";

fn header(t: i64, tag: &str) -> String {
    format!("t={},v1={}", t, tag)
}

#[test]
fn parse_signature_reads_timestamp_and_signature() {
    let sig = parse_signature("t=1700000000,v1=abc123").unwrap();
    assert_eq!(sig.t, 1700000000);
    assert_eq!(sig.v1, "abc123");
}

#[test]
fn parse_signature_keeps_text_after_first_equals_sign() {
    let sig = parse_signature("t=-5,v1=a=b,v0=zzz").unwrap();
    assert_eq!(sig.t, -5);
    assert_eq!(sig.v1, "a=b");
}

#[test]
fn parse_signature_last_value_wins_and_plus_sign_is_accepted() {
    let sig = parse_signature("v1=first,t=1,t=+42,v1=second").unwrap();
    assert_eq!(sig.t, 42);
    assert_eq!(sig.v1, "second");
}

#[test]
fn parse_signature_piece_without_equals_is_bad_signature() {
    assert!(matches!(parse_signature("t=1,v1=abc,junk"), Err(WebhookError::BadSignature)));
    assert!(matches!(parse_signature(""), Err(WebhookError::BadSignature)));
}

#[test]
fn parse_signature_missing_field_is_bad_signature() {
    assert!(matches!(parse_signature("t=1"), Err(WebhookError::BadSignature)));
    assert!(matches!(parse_signature("v1=abc"), Err(WebhookError::BadSignature)));
}

#[test]
fn parse_signature_bad_timestamp_is_bad_header() {
    assert!(matches!(parse_signature("t=abc,v1=abc"), Err(WebhookError::BadHeader(_))));
    assert!(matches!(parse_signature("t=,v1=abc"), Err(WebhookError::BadHeader(_))));
    assert!(matches!(parse_signature("t= 1,v1=abc"), Err(WebhookError::BadHeader(_))));
    assert!(matches!(
        parse_signature("t=99999999999999999999,v1=abc"),
        Err(WebhookError::BadHeader(_))
    ));
    assert!(matches!(parse_signature("t=-,v1=abc"), Err(WebhookError::BadHeader(_))));
}

#[test]
fn parse_signature_first_failure_decides() {
    // The piece without '=' comes before the bad timestamp.
    assert!(matches!(parse_signature("x,t=abc"), Err(WebhookError::BadSignature)));
    assert!(matches!(parse_signature("t=abc,x"), Err(WebhookError::BadHeader(_))));
}

#[test]
fn genuine_signature_within_tolerance_is_accepted() {
    let h = header(1700000000, TAG);
    assert!(check_webhook_signature(SECRET, PAYLOAD, &h, 1700000000).is_ok());
    assert!(check_webhook_signature(SECRET, PAYLOAD, &h, 1700000300).is_ok());
    assert!(check_webhook_signature(SECRET, PAYLOAD, &h, 1699999700).is_ok());
}

#[test]
fn upper_case_hex_signature_is_accepted() {
    let h = header(1700000000, &TAG.to_uppercase());
    assert!(check_webhook_signature(SECRET, PAYLOAD, &h, 1700000000).is_ok());
}

#[test]
fn genuine_signature_outside_tolerance_is_stale() {
    let h = header(1700000000, TAG);
    assert!(matches!(
        check_webhook_signature(SECRET, PAYLOAD, &h, 1700000301),
        Err(WebhookError::BadTimestamp(1700000000))
    ));
    assert!(matches!(
        check_webhook_signature(SECRET, PAYLOAD, &h, 1699999699),
        Err(WebhookError::BadTimestamp(1700000000))
    ));
}

#[test]
fn extreme_timestamps_do_not_overflow() {
    let h = header(i64::MIN, TAG);
    assert!(matches!(
        check_webhook_signature(SECRET, PAYLOAD, &h, i64::MAX),
        Err(WebhookError::BadSignature)
    ));
}

#[test]
fn tampered_payload_is_bad_signature() {
    let h = header(1700000000, TAG);
    assert!(matches!(
        check_webhook_signature(SECRET, "{\"type\":\"other\"}", &h, 1700000000),
        Err(WebhookError::BadSignature)
    ));
}

#[test]
fn wrong_secret_is_bad_signature() {
    let h = header(1700000000, TAG);
    assert!(matches!(
        check_webhook_signature("whsec_other", PAYLOAD, &h, 1700000000),
        Err(WebhookError::BadSignature)
    ));
}

#[test]
fn wrong_timestamp_in_header_is_bad_signature() {
    let h = header(1700000001, TAG);
    assert!(matches!(
        check_webhook_signature(SECRET, PAYLOAD, &h, 1700000000),
        Err(WebhookError::BadSignature)
    ));
}

#[test]
fn non_hex_or_odd_signature_is_bad_signature() {
    let odd = &TAG[1..];
    assert!(matches!(
        check_webhook_signature(SECRET, PAYLOAD, &header(1700000000, odd), 1700000000),
        Err(WebhookError::BadSignature)
    ));
    let bad = format!("zz{}", &TAG[2..]);
    assert!(matches!(
        check_webhook_signature(SECRET, PAYLOAD, &header(1700000000, &bad), 1700000000),
        Err(WebhookError::BadSignature)
    ));
    // A short signature is not the tag.
    assert!(matches!(
        check_webhook_signature(SECRET, PAYLOAD, &header(1700000000, &TAG[..62]), 1700000000),
        Err(WebhookError::BadSignature)
    ));
}

#[test]
fn negative_timestamp_is_signed_with_its_sign() {
    // HMAC-SHA256 of "-5.x" under SECRET.
    let tag = "3a9206593b1016e210c7b826ca71c495d86b2614aca093f544ebcada9c4d0349";
    assert!(check_webhook_signature(SECRET, "x", &header(-5, tag), 0).is_ok());
}

#[test]
fn signature_computed_by_the_hmac_crate_is_accepted() {
    let t = 1234567890i64;
    let payload = "{\"id\":\"evt_1\"}";
    let mut mac = Hmac::<Sha256>::new_from_slice(SECRET.as_bytes()).unwrap();
    mac.update(format!("{}.{}", t, payload).as_bytes());
    let tag = hex::encode(mac.finalize().into_bytes());
    assert!(check_webhook_signature(SECRET, payload, &header(t, &tag), t + 10).is_ok());
}

#[test]
fn missing_signature_header_is_reported() {
    assert!(matches!(signature_header_value(None), Err(WebhookError::MissingSignature)));
}

#[test]
fn signature_header_of_visible_ascii_is_read_as_text() {
    let raw = b"t=1700000000,\tv1=ab~ ";
    assert_eq!(signature_header_value(Some(&raw[..])).unwrap(), "t=1700000000,\tv1=ab~ ");
    assert_eq!(signature_header_value(Some(&b""[..])).unwrap(), "");
}

#[test]
fn signature_header_with_other_bytes_is_bad_signature() {
    for raw in [&b"t=1,v1=\x7f"[..], &b"t=1\n"[..], &b"\xc3\xa9"[..], &b"\x00"[..]] {
        assert!(matches!(signature_header_value(Some(raw)), Err(WebhookError::BadSignature)));
    }
}

#[test]
fn secrets_longer_than_a_block_are_hashed_first() {
    let secret = "k".repeat(100);
    let t = 42i64;
    let payload = "{}";
    let mut mac = Hmac::<Sha256>::new_from_slice(secret.as_bytes()).unwrap();
    mac.update(format!("{}.{}", t, payload).as_bytes());
    let tag = hex::encode(mac.finalize().into_bytes());
    assert!(check_webhook_signature(&secret, payload, &header(t, &tag), t).is_ok());
    assert!(matches!(
        check_webhook_signature(&secret[..99], payload, &header(t, &tag), t),
        Err(WebhookError::BadSignature)
    ));
}
