use software_should_work::clock::CalendarDate;
use software_should_work::site::{
    assert_that, check_tickets_on_sale, is_early_bird, is_early_bird_on, is_sold_out,
    next_checkout_action, next_checkout_action_on, pending_ticket_for_session, CheckoutAction,
    CheckoutEvent,
    tickets_on_sale_on,
    AppError, ValidationError,
};
use software_should_work::stripe::{StripeSessionResponse, WebhookError};

fn date(year: i32, month: u32, day: u32) -> CalendarDate {
    CalendarDate { year, month, day }
}

#[test]
fn early_bird_until_march_thirteenth_and_a_hundred_tickets() {
    assert!(is_early_bird_on(date(2026, 3, 13), 100));
    assert!(is_early_bird_on(date(2025, 12, 31), 0));
    assert!(is_early_bird_on(date(2026, 2, 28), 57));
    assert!(!is_early_bird_on(date(2026, 3, 14), 0));
    assert!(!is_early_bird_on(date(2026, 4, 1), 0));
    assert!(!is_early_bird_on(date(2027, 1, 1), 0));
    assert!(!is_early_bird_on(date(2026, 3, 1), 101));
}

#[test]
fn early_bird_never_beyond_the_ticket_limit() {
    assert!(!is_early_bird(101));
    assert!(!is_early_bird(i64::MAX));
}

#[test]
fn sales_end_after_july_fifteenth() {
    assert!(tickets_on_sale_on(date(2026, 7, 15)));
    assert!(tickets_on_sale_on(date(2026, 6, 30)));
    assert!(tickets_on_sale_on(date(2025, 8, 1)));
    assert!(!tickets_on_sale_on(date(2026, 7, 16)));
    assert!(!tickets_on_sale_on(date(2026, 8, 1)));
    assert!(!tickets_on_sale_on(date(2027, 1, 1)));
}

#[test]
fn sale_window_check_answers_with_the_validation_error() {
    match check_tickets_on_sale() {
        Ok(()) => {}
        Err(AppError::Validation(ValidationError::TicketsNoLongerOnSale)) => {}
        Err(_) => panic!("unexpected error"),
    }
}

#[test]
fn assertions_fail_with_their_message() {
    assert!(assert_that(true, "never shown").is_ok());
    match assert_that(false, "A single ticket should be marked sold") {
        Err(AppError::AssertionFailure(m)) => assert_eq!(m, "A single ticket should be marked sold"),
        _ => panic!("expected an assertion failure"),
    }
}

fn parts(e: AppError) -> (u16, String) {
    e.response_parts()
}

#[test]
fn webhook_and_validation_errors_are_bad_requests() {
    assert_eq!(
        parts(AppError::Webhook(WebhookError::MissingSignature)),
        (400, "Invalid webhook signature".to_string())
    );
    assert_eq!(
        parts(AppError::Webhook(WebhookError::BadTimestamp(7))),
        (400, "Invalid webhook signature".to_string())
    );
    assert_eq!(
        parts(AppError::Validation(ValidationError::TicketsNoLongerOnSale)),
        (400, "Bad request: Tickets are no longer on sale".to_string())
    );
    assert_eq!(ValidationError::TicketsNoLongerOnSale.as_str(), "TicketsNoLongerOnSale");
}

#[test]
fn internal_errors_reveal_nothing() {
    let internal = (500, "Internal server error".to_string());
    assert_eq!(parts(AppError::AssertionFailure("secret detail".to_string())), internal);
    assert_eq!(parts(AppError::Serde(serde_json::from_str::<u8>("x").unwrap_err())), internal);
    assert_eq!(parts(AppError::DbError(sqlx::Error::RowNotFound)), internal);
    assert_eq!(parts(AppError::TemplateError(askama::Error::Fmt)), internal);
    let request_error = reqwest::Client::new().get("not a url").build().unwrap_err();
    assert_eq!(parts(AppError::Reqwest(request_error)), internal);
}

#[test]
fn errors_convert_into_app_errors() {
    assert!(matches!(AppError::from(WebhookError::BadKey), AppError::Webhook(WebhookError::BadKey)));
    assert!(matches!(AppError::from(sqlx::Error::RowNotFound), AppError::DbError(_)));
    assert!(matches!(
        AppError::from(serde_json::from_str::<u8>("x").unwrap_err()),
        AppError::Serde(_)
    ));
    assert!(matches!(AppError::from(askama::Error::Fmt), AppError::TemplateError(_)));
}

#[test]
fn completed_session_needs_its_pending_ticket() {
    assert!(matches!(pending_ticket_for_session("cs_1", Some(7)), Ok(7)));
    match pending_ticket_for_session("cs_1", None) {
        Err(AppError::AssertionFailure(m)) => assert_eq!(m, "No ticket found with id cs_1"),
        _ => panic!("expected an assertion failure"),
    }
}

#[test]
fn sold_out_only_after_early_bird_with_nothing_available() {
    assert!(is_sold_out(false, true));
    assert!(!is_sold_out(false, false));
    assert!(!is_sold_out(true, true));
    assert!(!is_sold_out(true, false));
}

#[test]
fn checkout_steps_follow_each_event() {
    let day = date(2026, 3, 13);
    assert!(matches!(
        next_checkout_action_on(day, CheckoutEvent::NoTicketFree),
        CheckoutAction::RedirectToSoldOut
    ));
    assert!(matches!(
        next_checkout_action_on(day, CheckoutEvent::Reserved { ticket_id: 7, claimed: 100 }),
        CheckoutAction::OpenSession { ticket_id: 7, is_early_bird: true }
    ));
    assert!(matches!(
        next_checkout_action_on(day, CheckoutEvent::Reserved { ticket_id: 7, claimed: 101 }),
        CheckoutAction::OpenSession { ticket_id: 7, is_early_bird: false }
    ));
    assert!(matches!(
        next_checkout_action_on(
            date(2026, 3, 14),
            CheckoutEvent::Reserved { ticket_id: 8, claimed: 3 }
        ),
        CheckoutAction::OpenSession { ticket_id: 8, is_early_bird: false }
    ));
    let session = StripeSessionResponse {
        id: "cs_9".to_string(),
        url: "https://checkout.stripe.com/c/cs_9".to_string(),
    };
    match next_checkout_action_on(day, CheckoutEvent::SessionOpened { ticket_id: 9, session }) {
        CheckoutAction::RecordSession { ticket_id, session } => {
            assert_eq!(ticket_id, 9);
            assert_eq!(session.id, "cs_9");
            assert_eq!(session.url, "https://checkout.stripe.com/c/cs_9");
        }
        _ => panic!("an opened session is recorded"),
    }
    let error = AppError::AssertionFailure("stripe down".to_string());
    match next_checkout_action(CheckoutEvent::SessionRefused { ticket_id: 10, error }) {
        CheckoutAction::ReleaseTicket { ticket_id, error: AppError::AssertionFailure(m) } => {
            assert_eq!(ticket_id, 10);
            assert_eq!(m, "stripe down");
        }
        _ => panic!("a refused session releases the ticket"),
    }
    assert!(matches!(
        next_checkout_action(CheckoutEvent::Reserved { ticket_id: 11, claimed: 101 }),
        CheckoutAction::OpenSession { ticket_id: 11, is_early_bird: false }
    ));
}
