use software_should_work::stripe::{Stripe, TShirtSize};

fn stripe() -> Stripe {
    Stripe {
        api_key: "sk_test".to_string(),
        webhook_secret: "whsec".to_string(),
        early_bird_price_id: "price_early".to_string(),
        standard_price_id: "price_standard".to_string(),
        base_url: "https://softwareshould.work".to_string(),
        client: reqwest::Client::new(),
    }
}

fn pairs(v: &[(String, String)]) -> Vec<(&str, &str)> {
    v.iter().map(|(k, v)| (k.as_str(), v.as_str())).collect()
}

#[test]
fn checkout_form_lists_every_parameter_in_order() {
    let params = stripe().checkout_session_params(true, 1767225600);
    let expected: Vec<(&str, &str)> = vec![
        ("success_url", "https://softwareshould.work/success"),
        ("mode", "payment"),
        ("expires_at", "1767225600"),
        ("allow_promotion_codes", "true"),
        ("line_items[0][price]", "price_early"),
        ("line_items[0][quantity]", "1"),
        ("custom_fields[0][key]", "tshirt_size"),
        ("custom_fields[0][label][type]", "custom"),
        ("custom_fields[0][label][custom]", "T-shirt size"),
        ("custom_fields[0][type]", "dropdown"),
        ("custom_fields[0][optional]", "false"),
        ("custom_fields[0][dropdown][options][0][label]", "Small"),
        ("custom_fields[0][dropdown][options][0][value]", "Small"),
        ("custom_fields[0][dropdown][options][1][label]", "Medium"),
        ("custom_fields[0][dropdown][options][1][value]", "Medium"),
        ("custom_fields[0][dropdown][options][2][label]", "Large"),
        ("custom_fields[0][dropdown][options][2][value]", "Large"),
        ("custom_fields[0][dropdown][options][3][label]", "X-Large"),
        ("custom_fields[0][dropdown][options][3][value]", "XLarge"),
        ("custom_fields[0][dropdown][options][4][label]", "2X-Large"),
        ("custom_fields[0][dropdown][options][4][value]", "TwoXLarge"),
        ("custom_fields[1][key]", "traveling_from"),
        ("custom_fields[1][label][type]", "custom"),
        ("custom_fields[1][label][custom]", "Where are you traveling from?"),
        ("custom_fields[1][type]", "text"),
        ("custom_fields[1][optional]", "true"),
        ("custom_fields[2][key]", "workplace"),
        ("custom_fields[2][label][type]", "custom"),
        ("custom_fields[2][label][custom]", "Where do you work?"),
        ("custom_fields[2][type]", "text"),
        ("custom_fields[2][optional]", "true"),
        ("name_collection[individual][enabled]", "true"),
        ("name_collection[individual][optional]", "false"),
    ];
    assert_eq!(pairs(&params), expected);
}

#[test]
fn standard_price_after_early_bird() {
    let params = stripe().checkout_session_params(false, -42);
    assert_eq!(params[2], ("expires_at".to_string(), "-42".to_string()));
    assert_eq!(params[4], ("line_items[0][price]".to_string(), "price_standard".to_string()));
}

#[test]
fn checkout_form_expires_thirty_one_minutes_from_now() {
    let before = std::time::SystemTime::now()
        .duration_since(std::time::UNIX_EPOCH)
        .unwrap()
        .as_secs() as i64;
    let params = stripe().checkout_session_form(true);
    let after = std::time::SystemTime::now()
        .duration_since(std::time::UNIX_EPOCH)
        .unwrap()
        .as_secs() as i64;
    let expires: i64 = params[2].1.parse().unwrap();
    assert!(before + 1860 <= expires && expires <= after + 1860);
    assert_eq!(params.len(), 33);
}

#[test]
fn tshirt_sizes_in_order_with_names() {
    let sizes = TShirtSize::all();
    assert_eq!(
        sizes,
        vec![
            TShirtSize::Small,
            TShirtSize::Medium,
            TShirtSize::Large,
            TShirtSize::XLarge,
            TShirtSize::TwoXLarge
        ]
    );
    let shown: Vec<&str> = sizes.iter().map(|s| s.external_display_name()).collect();
    assert_eq!(shown, vec!["Small", "Medium", "Large", "X-Large", "2X-Large"]);
    let names: Vec<&str> = sizes.iter().map(|s| s.as_str()).collect();
    assert_eq!(names, vec!["Small", "Medium", "Large", "XLarge", "TwoXLarge"]);
}

#[test]
fn checkout_form_at_a_given_time_expires_thirty_one_minutes_later() {
    let params = stripe().checkout_session_form_at(false, 1000).unwrap();
    assert_eq!(params[2], ("expires_at".to_string(), "2860".to_string()));
    assert_eq!(params[4], ("line_items[0][price]".to_string(), "price_standard".to_string()));
    assert_eq!(params, stripe().checkout_session_params(false, 2860));
}

#[test]
fn checkout_form_at_the_end_of_time_has_no_expiry() {
    assert!(stripe().checkout_session_form_at(true, i64::MAX).is_none());
    assert!(stripe().checkout_session_form_at(true, i64::MAX - 1859).is_none());
    let last = stripe().checkout_session_form_at(true, i64::MAX - 1860).unwrap();
    assert_eq!(last[2].1, i64::MAX.to_string());
}
