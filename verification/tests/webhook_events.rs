use hmac::{Hmac, Mac};
use sha2::Sha256;
use software_should_work::site::AppError;
use software_should_work::stripe::{
    check_webhook_signature, checkout_session_completed, webhook_event, CheckoutSessionCompletedPayload,
    CheckoutSessionExpired, CustomField, CustomerDetails, Discount, DropdownValue, Stripe,
    StripeEvent, StripeEventPayload, TShirtSize, TextValue, WebhookError,
};

fn json_error() -> serde_json::Error {
    serde_json::from_str::<u8>("not json").unwrap_err()
}

fn dropdown(key: &str, size: TShirtSize) -> CustomField {
    CustomField::Dropdown { key: key.to_string(), dropdown: DropdownValue { value: size } }
}

fn text(key: &str, value: Option<&str>) -> CustomField {
    CustomField::Text {
        key: key.to_string(),
        text: TextValue { value: value.map(|v| v.to_string()) },
    }
}

fn completed_payload(fields: Vec<CustomField>, discounts: Vec<&str>) -> CheckoutSessionCompletedPayload {
    CheckoutSessionCompletedPayload {
        id: "cs_test_1".to_string(),
        customer_details: CustomerDetails {
            email: "ada@example.com".to_string(),
            name: "Ada Lovelace".to_string(),
        },
        custom_fields: fields,
        discounts: discounts
            .into_iter()
            .map(|d| Discount { promotion_code: d.to_string() })
            .collect(),
        amount_subtotal: 15000,
        amount_total: 12000,
    }
}

fn assertion_message<T>(res: Result<T, AppError>) -> String {
    match res {
        Err(AppError::AssertionFailure(m)) => m,
        _ => panic!("expected an assertion failure"),
    }
}

#[test]
fn completed_checkout_is_recorded() {
    let payload = completed_payload(
        vec![
            dropdown("tshirt_size", TShirtSize::TwoXLarge),
            text("traveling_from", Some("Chicago")),
            text("workplace", None),
        ],
        vec!["promo_123"],
    );
    let c = match checkout_session_completed(payload) {
        Ok(c) => c,
        Err(_) => panic!("expected a recorded sale"),
    };
    assert_eq!(c.id, "cs_test_1");
    assert_eq!(c.name, "Ada Lovelace");
    assert_eq!(c.email, "ada@example.com");
    assert_eq!(c.tshirt_size, "TwoXLarge");
    assert_eq!(c.traveling_from.as_deref(), Some("Chicago"));
    assert_eq!(c.workplace, None);
    assert_eq!(c.subtotal, 15000);
    assert_eq!(c.total, 12000);
    assert_eq!(c.promo_code_id.as_deref(), Some("promo_123"));
}

#[test]
fn completed_checkout_without_discount_has_no_promo_code() {
    let payload = completed_payload(vec![dropdown("tshirt_size", TShirtSize::Small)], vec![]);
    let c = match checkout_session_completed(payload) {
        Ok(c) => c,
        Err(_) => panic!("expected a recorded sale"),
    };
    assert_eq!(c.tshirt_size, "Small");
    assert_eq!(c.traveling_from, None);
    assert_eq!(c.workplace, None);
    assert_eq!(c.promo_code_id, None);
}

#[test]
fn later_answers_replace_earlier_ones() {
    let payload = completed_payload(
        vec![
            text("workplace", Some("Acme")),
            dropdown("tshirt_size", TShirtSize::Small),
            text("workplace", Some("Initech")),
            dropdown("tshirt_size", TShirtSize::Large),
        ],
        vec![],
    );
    let c = match checkout_session_completed(payload) {
        Ok(c) => c,
        Err(_) => panic!("expected a recorded sale"),
    };
    assert_eq!(c.tshirt_size, "Large");
    assert_eq!(c.workplace.as_deref(), Some("Initech"));
}

#[test]
fn amounts_beyond_i64_wrap_as_the_cast_does() {
    let mut payload = completed_payload(vec![dropdown("tshirt_size", TShirtSize::Medium)], vec![]);
    payload.amount_subtotal = u64::MAX;
    let c = match checkout_session_completed(payload) {
        Ok(c) => c,
        Err(_) => panic!("expected a recorded sale"),
    };
    assert_eq!(c.subtotal, -1);
}

#[test]
fn unknown_field_is_refused() {
    let payload = completed_payload(
        vec![dropdown("tshirt_size", TShirtSize::Small), text("favorite_color", Some("red"))],
        vec![],
    );
    assert_eq!(
        assertion_message(checkout_session_completed(payload)),
        "Unsupported field type in checkout session completed payload"
    );
}

#[test]
fn text_field_named_tshirt_size_is_refused() {
    let payload = completed_payload(vec![text("tshirt_size", Some("Small"))], vec![]);
    assert_eq!(
        assertion_message(checkout_session_completed(payload)),
        "Unsupported field type in checkout session completed payload"
    );
}

#[test]
fn missing_tshirt_size_is_refused() {
    let payload = completed_payload(vec![text("traveling_from", Some("Paris"))], vec![]);
    assert_eq!(
        assertion_message(checkout_session_completed(payload)),
        "Tshirt size is a required field"
    );
}

#[test]
fn two_discounts_are_refused() {
    let payload =
        completed_payload(vec![dropdown("tshirt_size", TShirtSize::XLarge)], vec!["a", "b"]);
    assert_eq!(
        assertion_message(checkout_session_completed(payload)),
        "More than one discount codes found"
    );
}

fn envelope(event_type: &str) -> StripeEventPayload {
    StripeEventPayload {
        event_type: event_type.to_string(),
        completed: Ok(completed_payload(vec![dropdown("tshirt_size", TShirtSize::Small)], vec![])),
        expired: Ok(CheckoutSessionExpired { id: "cs_expired".to_string() }),
    }
}

#[test]
fn completed_event_is_decoded() {
    match webhook_event(Ok(envelope("checkout.session.completed"))) {
        Ok(StripeEvent::CheckoutSessionCompleted(c)) => assert_eq!(c.id, "cs_test_1"),
        _ => panic!("expected a completed checkout"),
    }
}

#[test]
fn expired_event_is_decoded() {
    match webhook_event(Ok(envelope("checkout.session.expired"))) {
        Ok(StripeEvent::CheckoutSessionExpired(e)) => assert_eq!(e.id, "cs_expired"),
        _ => panic!("expected an expired checkout"),
    }
}

#[test]
fn unknown_event_type_is_refused_with_its_name() {
    assert_eq!(
        assertion_message(webhook_event(Ok(envelope("invoice.paid")))),
        "Unsupported event type received! invoice.paid"
    );
}

#[test]
fn undecodable_body_is_a_serde_error() {
    assert!(matches!(webhook_event(Err(json_error())), Err(AppError::Serde(_))));
    let mut p = envelope("checkout.session.completed");
    p.completed = Err(json_error());
    assert!(matches!(webhook_event(Ok(p)), Err(AppError::Serde(_))));
    let mut p = envelope("checkout.session.expired");
    p.expired = Err(json_error());
    assert!(matches!(webhook_event(Ok(p)), Err(AppError::Serde(_))));
    // An object that does not decode as the other kind does not matter.
    let mut p = envelope("checkout.session.expired");
    p.completed = Err(json_error());
    assert!(matches!(webhook_event(Ok(p)), Ok(StripeEvent::CheckoutSessionExpired(_))));
}

fn stripe() -> Stripe {
    Stripe {
        api_key: "sk_test".to_string(),
        webhook_secret: "whsec_live".to_string(),
        early_bird_price_id: "price_early".to_string(),
        standard_price_id: "price_standard".to_string(),
        base_url: "https://example.com".to_string(),
        client: reqwest::Client::new(),
    }
}

fn now() -> i64 {
    std::time::SystemTime::now()
        .duration_since(std::time::UNIX_EPOCH)
        .unwrap()
        .as_secs() as i64
}

fn signed_header(secret: &str, t: i64, payload: &str) -> String {
    let mut mac = Hmac::<Sha256>::new_from_slice(secret.as_bytes()).unwrap();
    mac.update(format!("{}.{}", t, payload).as_bytes());
    format!("t={},v1={}", t, hex::encode(mac.finalize().into_bytes()))
}

#[test]
fn parse_webhook_accepts_a_fresh_genuine_event() {
    let body = "{\"type\":\"checkout.session.expired\"}";
    let header = signed_header("whsec_live", now(), body);
    match stripe().parse_webhook(body, &header, Ok(envelope("checkout.session.expired"))) {
        Ok(StripeEvent::CheckoutSessionExpired(e)) => assert_eq!(e.id, "cs_expired"),
        _ => panic!("expected an expired checkout"),
    }
    assert!(stripe().validate_signature(body, &header).is_ok());
}

#[test]
fn parse_webhook_checks_the_signature_before_the_body() {
    let body = "{}";
    let header = signed_header("whsec_other", now(), body);
    assert!(matches!(
        stripe().parse_webhook(body, &header, Err(json_error())),
        Err(AppError::Webhook(WebhookError::BadSignature))
    ));
    let stale = signed_header("whsec_live", now() - 3600, body);
    assert!(matches!(
        stripe().parse_webhook(body, &stale, Err(json_error())),
        Err(AppError::Webhook(WebhookError::BadTimestamp(_)))
    ));
    assert!(matches!(
        stripe().validate_signature(body, &stale),
        Err(WebhookError::BadTimestamp(_))
    ));
}

#[test]
fn cloned_stripe_keeps_its_settings() {
    let s = stripe().clone();
    assert_eq!(s.webhook_secret, "whsec_live");
    assert_eq!(s.base_url, "https://example.com");
}

#[test]
fn parse_webhook_at_a_given_time_agrees_with_the_signature_check() {
    let body = "{\"type\":\"checkout.session.expired\"}";
    let header = signed_header("whsec_live", 1_700_000_000, body);
    for now in [1_700_000_000 - 301, 1_700_000_000 - 300, 1_700_000_000, 1_700_000_300, 1_700_000_301] {
        let checked = check_webhook_signature("whsec_live", body, &header, now);
        let parsed =
            stripe().parse_webhook_at(body, &header, Ok(envelope("checkout.session.expired")), now);
        match checked {
            Ok(()) => assert!(matches!(parsed, Ok(StripeEvent::CheckoutSessionExpired(_)))),
            Err(WebhookError::BadTimestamp(t)) => {
                assert_eq!(t, 1_700_000_000);
                assert!(matches!(
                    parsed,
                    Err(AppError::Webhook(WebhookError::BadTimestamp(1_700_000_000)))
                ));
            }
            Err(_) => panic!("only the time can be wrong here"),
        }
    }
    // A forged signature is refused before the body is looked at.
    let forged = signed_header("whsec_other", 1_700_000_000, body);
    assert!(matches!(
        stripe().parse_webhook_at(body, &forged, Err(json_error()), 1_700_000_000),
        Err(AppError::Webhook(WebhookError::BadSignature))
    ));
    // A genuine one with a body that does not decode is a serde error.
    assert!(matches!(
        stripe().parse_webhook_at(body, &header, Err(json_error()), 1_700_000_000),
        Err(AppError::Serde(_))
    ));
}
