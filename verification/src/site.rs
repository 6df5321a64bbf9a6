//! The site's error type, how each error is answered, and the rules for when
//! tickets are on sale and when the early-bird price applies.

use crate::clock::{chicago_today, date_on_or_before, utc_today, CalendarDate};
use crate::stripe::{StripeSessionResponse, WebhookError};
use vstd::prelude::*;
use vstd::std_specs::convert::FromSpecImpl;

verus! {

/// A request that the site refuses for a reason the visitor can act on.
#[derive(Debug)]
pub enum ValidationError {
    TicketsNoLongerOnSale,
}

impl ValidationError {
    /// The variant's name, as its `Display` renders it.
    pub fn as_str(&self) -> (s: &'static str)
        ensures
            s@ == "TicketsNoLongerOnSale"@,
    {
        match self {
            ValidationError::TicketsNoLongerOnSale => "TicketsNoLongerOnSale",
        }
    }
}

#[verifier::external_type_specification]
#[verifier::external_body]
pub struct ExReqwestError(reqwest::Error);

#[verifier::external_type_specification]
#[verifier::external_body]
pub struct ExSerdeJsonError(serde_json::Error);

#[verifier::external_type_specification]
#[verifier::external_body]
pub struct ExSqlxError(sqlx::Error);

#[verifier::external_type_specification]
#[verifier::external_body]
pub struct ExAskamaError(askama::Error);

/// Everything that can go wrong while answering a request.
pub enum AppError {
    Reqwest(reqwest::Error),
    Serde(serde_json::Error),
    Webhook(WebhookError),
    DbError(sqlx::Error),
    Validation(ValidationError),
    AssertionFailure(String),
    TemplateError(askama::Error),
}

pub type AppResult<T> = Result<T, AppError>;

impl From<reqwest::Error> for AppError {
    fn from(e: reqwest::Error) -> (res: Self) {
        AppError::Reqwest(e)
    }
}

impl FromSpecImpl<reqwest::Error> for AppError {
    open spec fn obeys_from_spec() -> bool {
        true
    }

    open spec fn from_spec(e: reqwest::Error) -> Self {
        AppError::Reqwest(e)
    }
}

impl From<serde_json::Error> for AppError {
    fn from(e: serde_json::Error) -> (res: Self) {
        AppError::Serde(e)
    }
}

impl FromSpecImpl<serde_json::Error> for AppError {
    open spec fn obeys_from_spec() -> bool {
        true
    }

    open spec fn from_spec(e: serde_json::Error) -> Self {
        AppError::Serde(e)
    }
}

impl From<WebhookError> for AppError {
    fn from(e: WebhookError) -> (res: Self) {
        AppError::Webhook(e)
    }
}

impl FromSpecImpl<WebhookError> for AppError {
    open spec fn obeys_from_spec() -> bool {
        true
    }

    open spec fn from_spec(e: WebhookError) -> Self {
        AppError::Webhook(e)
    }
}

impl From<sqlx::Error> for AppError {
    fn from(e: sqlx::Error) -> (res: Self) {
        AppError::DbError(e)
    }
}

impl FromSpecImpl<sqlx::Error> for AppError {
    open spec fn obeys_from_spec() -> bool {
        true
    }

    open spec fn from_spec(e: sqlx::Error) -> Self {
        AppError::DbError(e)
    }
}

impl From<askama::Error> for AppError {
    fn from(e: askama::Error) -> (res: Self) {
        AppError::TemplateError(e)
    }
}

impl FromSpecImpl<askama::Error> for AppError {
    open spec fn obeys_from_spec() -> bool {
        true
    }

    open spec fn from_spec(e: askama::Error) -> Self {
        AppError::TemplateError(e)
    }
}

/// The HTTP status and the message that the visitor sees for an error.
pub open spec fn error_response(err: AppError) -> (u16, Seq<char>) {
    match err {
        AppError::Webhook(_) => (400, "Invalid webhook signature"@),
        AppError::Validation(ValidationError::TicketsNoLongerOnSale) => (
            400,
            "Bad request: "@ + "Tickets are no longer on sale"@,
        ),
        _ => (500, "Internal server error"@),
    }
}

impl AppError {
    /// The status code and message with which the site answers this error.
    pub fn response_parts(&self) -> (res: (u16, String))
        ensures
            (res.0, res.1@) == error_response(*self),
    {
        match self {
            AppError::Webhook(_) => (400, "Invalid webhook signature".to_owned()),
            AppError::Validation(err) => {
                let message = match err {
                    ValidationError::TicketsNoLongerOnSale => "Tickets are no longer on sale",
                };
                let mut text = "Bad request: ".to_owned();
                text.append(message);
                (400, text)
            },
            _ => (500, "Internal server error".to_owned()),
        }
    }
}

/// How the site answers each error: every webhook error, whatever its kind,
/// is a bad request (400) saying the signature is invalid; a validation error
/// is a bad request naming its reason; every other error is an internal
/// server error (500) that reveals nothing; and only those are 500s.
pub proof fn law_error_answers(err: AppError, status: u16, message: Seq<char>)
    requires
        (status, message) == error_response(err),
    ensures
        err is Webhook ==> status == 400 && message == "Invalid webhook signature"@,
        err is Validation ==> status == 400 && message
            == "Bad request: Tickets are no longer on sale"@,
        !(err is Webhook) && !(err is Validation) ==> status == 500 && message
            == "Internal server error"@,
        (status == 500) == !(err is Webhook || err is Validation),
{
    reveal_strlit("Bad request: ");
    reveal_strlit("Tickets are no longer on sale");
    reveal_strlit("Bad request: Tickets are no longer on sale");
    assert("Bad request: "@ + "Tickets are no longer on sale"@
        =~= "Bad request: Tickets are no longer on sale"@);
}

/// Fails with an assertion failure carrying `message` unless `condition` holds.
pub fn assert_that(condition: bool, message: &str) -> (res: AppResult<()>)
    ensures
        res is Ok <==> condition,
        !condition ==> (res matches Err(AppError::AssertionFailure(m)) && m@ == message@),
{
    if !condition {
        Err(AppError::AssertionFailure(message.to_owned()))
    } else {
        Ok(())
    }
}

/// Whether `res` is the assertion failure with message `message`.
pub open spec fn is_assertion_failure<T>(res: AppResult<T>, message: Seq<char>) -> bool {
    res matches Err(AppError::AssertionFailure(m)) && m@ == message
}

/// The ticket held by a completed checkout session: the lookup of the pending
/// ticket with that session must have found one.
pub fn pending_ticket_for_session(session_id: &str, ticket_id: Option<i64>) -> (res: AppResult<i64>)
    ensures
        match ticket_id {
            Some(t) => res matches Ok(r) && r == t,
            None => is_assertion_failure(res, "No ticket found with id "@ + session_id@),
        },
{
    match ticket_id {
        Some(t) => Ok(t),
        None => {
            let mut message = "No ticket found with id ".to_owned();
            message.append(session_id);
            Err(AppError::AssertionFailure(message))
        },
    }
}

/// The last day of the early-bird price.
pub open spec fn early_bird_last_day() -> CalendarDate {
    CalendarDate { year: 2026, month: 3, day: 13 }
}

/// The most tickets that may be claimed while the early-bird price applies.
pub open spec fn early_bird_ticket_limit() -> int {
    100
}

/// The last day on which tickets are sold.
pub open spec fn last_sale_day() -> CalendarDate {
    CalendarDate { year: 2026, month: 7, day: 15 }
}

/// Whether the early-bird price applies on `today` with `claimed` tickets
/// already claimed.
pub fn is_early_bird_on(today: CalendarDate, claimed: i64) -> (res: bool)
    ensures
        res == (date_on_or_before(today, early_bird_last_day()) && claimed
            <= early_bird_ticket_limit()),
{
    let last = CalendarDate { year: 2026, month: 3, day: 13 };
    let on_or_before = today.year < last.year || (today.year == last.year && today.month
        < last.month) || (today.year == last.year && today.month == last.month && today.day
        <= last.day);
    on_or_before && claimed <= 100
}

/// Whether the early-bird price applies today (in Chicago) with `claimed`
/// tickets already claimed.
pub fn is_early_bird(claimed: i64) -> (res: bool)
    ensures
        exists|today: CalendarDate|
            res == (date_on_or_before(today, early_bird_last_day()) && claimed
                <= early_bird_ticket_limit()),
        res ==> claimed <= early_bird_ticket_limit(),
{
    let today = chicago_today();
    is_early_bird_on(today, claimed)
}

/// Whether the site shows itself sold out: not at the early-bird price, and
/// no ticket left available.
pub fn is_sold_out(is_early_bird: bool, none_available: bool) -> (res: bool)
    ensures
        res == (!is_early_bird && none_available),
{
    !is_early_bird && none_available
}

/// What happened in a checkout, as the handler reports it after each step.
pub enum CheckoutEvent {
    /// No free ticket could be reserved.
    NoTicketFree,
    /// Ticket `ticket_id` was reserved, and `claimed` tickets are now pending
    /// or sold.
    Reserved { ticket_id: i64, claimed: i64 },
    /// Stripe opened `session` for the reserved ticket.
    SessionOpened { ticket_id: i64, session: StripeSessionResponse },
    /// Stripe could not open a session for the reserved ticket.
    SessionRefused { ticket_id: i64, error: AppError },
}

/// What the checkout handler does next.
pub enum CheckoutAction {
    /// Send the buyer to the sold-out page.
    RedirectToSoldOut,
    /// Open a checkout session for the ticket, at the early-bird or the
    /// standard price.
    OpenSession { ticket_id: i64, is_early_bird: bool },
    /// Make the ticket available again, then answer with `error`.
    ReleaseTicket { ticket_id: i64, error: AppError },
    /// Record `session` on the ticket, then send the buyer to its page.
    RecordSession { ticket_id: i64, session: StripeSessionResponse },
}

/// The step that follows `event` on `today` (in Chicago).
pub open spec fn checkout_action(today: CalendarDate, event: CheckoutEvent) -> CheckoutAction {
    match event {
        CheckoutEvent::NoTicketFree => CheckoutAction::RedirectToSoldOut,
        CheckoutEvent::Reserved { ticket_id, claimed } => CheckoutAction::OpenSession {
            ticket_id,
            is_early_bird: date_on_or_before(today, early_bird_last_day()) && claimed
                <= early_bird_ticket_limit(),
        },
        CheckoutEvent::SessionOpened { ticket_id, session } => CheckoutAction::RecordSession {
            ticket_id,
            session,
        },
        CheckoutEvent::SessionRefused { ticket_id, error } => CheckoutAction::ReleaseTicket {
            ticket_id,
            error,
        },
    }
}

/// The step of a checkout that follows `event`, on `today` (in Chicago).
pub fn next_checkout_action_on(today: CalendarDate, event: CheckoutEvent) -> (res: CheckoutAction)
    ensures
        res == checkout_action(today, event),
{
    match event {
        CheckoutEvent::NoTicketFree => CheckoutAction::RedirectToSoldOut,
        CheckoutEvent::Reserved { ticket_id, claimed } => CheckoutAction::OpenSession {
            ticket_id,
            is_early_bird: is_early_bird_on(today, claimed),
        },
        CheckoutEvent::SessionOpened { ticket_id, session } => CheckoutAction::RecordSession {
            ticket_id,
            session,
        },
        CheckoutEvent::SessionRefused { ticket_id, error } => CheckoutAction::ReleaseTicket {
            ticket_id,
            error,
        },
    }
}

/// The step of a checkout that follows `event`, as `next_checkout_action_on`
/// gives it for today's date in Chicago.
pub fn next_checkout_action(event: CheckoutEvent) -> (res: CheckoutAction)
    ensures
        exists|today: CalendarDate| res == #[trigger] checkout_action(today, event),
{
    let today = chicago_today();
    next_checkout_action_on(today, event)
}

/// The early-bird price never comes back: if a reservation is offered it on
/// some day, then so is any reservation made on an earlier (or the same) day
/// with no more tickets claimed; and after 13 March 2026, or beyond the ticket
/// limit, no reservation gets it.
pub proof fn law_early_bird_never_returns(
    earlier: CalendarDate,
    later: CalendarDate,
    first_ticket: i64,
    first_claimed: i64,
    second_ticket: i64,
    second_claimed: i64,
)
    requires
        date_on_or_before(earlier, later),
        first_claimed <= second_claimed,
    ensures
        ({
            let first = checkout_action(
                earlier,
                CheckoutEvent::Reserved { ticket_id: first_ticket, claimed: first_claimed },
            );
            let second = checkout_action(
                later,
                CheckoutEvent::Reserved { ticket_id: second_ticket, claimed: second_claimed },
            );
            &&& (first matches CheckoutAction::OpenSession { ticket_id, .. } && ticket_id
                == first_ticket)
            &&& (second matches CheckoutAction::OpenSession { is_early_bird: true, .. })
                ==> (first matches CheckoutAction::OpenSession { is_early_bird: true, .. })
            &&& !date_on_or_before(later, CalendarDate { year: 2026, month: 3, day: 13 })
                ==> (second matches CheckoutAction::OpenSession { is_early_bird: false, .. })
            &&& second_claimed > 100 ==> (second matches CheckoutAction::OpenSession {
                is_early_bird: false,
                ..
            })
        }),
{
}

/// Once the sale has ended it stays ended: a day on which tickets are sold is
/// preceded only by days on which they are sold, and no day after 15 July 2026
/// is one.
pub proof fn law_sale_window_closes_once(earlier: CalendarDate, later: CalendarDate)
    requires
        date_on_or_before(earlier, later),
    ensures
        date_on_or_before(later, last_sale_day()) ==> date_on_or_before(earlier, last_sale_day()),
        !date_on_or_before(later, CalendarDate { year: 2026, month: 7, day: 15 })
            ==> !date_on_or_before(later, last_sale_day()),
{
}

/// Whether tickets are still sold on `today`.
pub fn tickets_on_sale_on(today: CalendarDate) -> (res: bool)
    ensures
        res == date_on_or_before(today, last_sale_day()),
{
    today.year < 2026 || (today.year == 2026 && today.month < 7) || (today.year == 2026
        && today.month == 7 && today.day <= 15)
}

/// Refuses a checkout once the sale has ended (by today's date in UTC).
pub fn check_tickets_on_sale() -> (res: AppResult<()>)
    ensures
        res is Ok || res matches Err(AppError::Validation(ValidationError::TicketsNoLongerOnSale)),
        exists|today: CalendarDate| (res is Ok) == date_on_or_before(today, last_sale_day()),
{
    let today = utc_today();
    if !tickets_on_sale_on(today) {
        return Err(AppError::Validation(ValidationError::TicketsNoLongerOnSale));
    }
    Ok(())
}

} // verus!
