//! Stripe: the checkout-session form, webhook signature verification and the
//! decoding of webhook events into what the site records.

use crate::crypto::{
    hex_decode, hex_decode_bytes, hex_lower, hmac_sha256, hmac_sha256_verify, lemma_hex_lower_chars,
    lemma_hex_roundtrip,
};
use crate::clock::{latest_unix_seconds, now_unix_seconds};
use crate::site::{is_assertion_failure, AppError, AppResult};
use crate::text::{
    chars_of, decimal_digits, i64_from_decimal, int_decimal, lemma_first_index_of,
    lemma_i64_decimal_roundtrip, lemma_int_decimal_chars, lemma_split_on_join, lemma_split_on_len,
    lemma_split_on_no_sep, lemma_split_on_step, parse_i64, push_char, push_decimal,
    push_i64_decimal, split_on, split_once_at, text_eq,
};
use vstd::prelude::*;
use vstd::utf8::encode_utf8;

verus! {

/// Why a webhook's signature was rejected.
#[derive(Debug)]
pub enum WebhookError {
    BadKey,
    MissingSignature,
    BadSignature,
    BadHeader(std::num::ParseIntError),
    BadTimestamp(i64),
}

/// The timestamp and `v1` signature of a `Stripe-Signature` header.
pub struct Signature<'r> {
    pub t: i64,
    pub v1: &'r str,
}

/// The fields gathered while reading the `key=value` pieces of a signature header.
pub enum HeaderScan {
    Fields { t: Option<i64>, v1: Option<Seq<char>> },
    BadSignature,
    BadHeader,
}

/// Reads one `key=value` piece: a piece without `=` is a bad signature, a `t`
/// whose value is not an `i64` is a bad header, `t` and `v1` are recorded
/// (the last one wins) and other keys are ignored. A failure stays a failure.
pub open spec fn scan_header_piece(state: HeaderScan, piece: Seq<char>) -> HeaderScan {
    match state {
        HeaderScan::Fields { t, v1 } => match split_once_at(piece, '=') {
            None => HeaderScan::BadSignature,
            Some((key, value)) => if key == seq!['t'] {
                match i64_from_decimal(value) {
                    Some(n) => HeaderScan::Fields { t: Some(n as i64), v1 },
                    None => HeaderScan::BadHeader,
                }
            } else if key == seq!['v', '1'] {
                HeaderScan::Fields { t, v1: Some(value) }
            } else {
                HeaderScan::Fields { t, v1 }
            },
        },
        _ => state,
    }
}

pub open spec fn scan_header_pieces(pieces: Seq<Seq<char>>) -> HeaderScan
    decreases pieces.len(),
{
    if pieces.len() == 0 {
        HeaderScan::Fields { t: None, v1: None }
    } else {
        scan_header_piece(scan_header_pieces(pieces.drop_last()), pieces.last())
    }
}

/// What a `Stripe-Signature` header says.
pub enum SignatureHeader {
    Parsed { t: i64, v1: Seq<char> },
    BadSignature,
    BadHeader,
}

/// The header is split on `,` into `key=value` pieces; it must carry both a
/// `t` and a `v1`.
pub open spec fn signature_header(raw: Seq<char>) -> SignatureHeader {
    match scan_header_pieces(split_on(raw, ',')) {
        HeaderScan::Fields { t: Some(t), v1: Some(v1) } => SignatureHeader::Parsed { t, v1 },
        HeaderScan::Fields { .. } => SignatureHeader::BadSignature,
        HeaderScan::BadSignature => SignatureHeader::BadSignature,
        HeaderScan::BadHeader => SignatureHeader::BadHeader,
    }
}

/// The spec-level summary of the exec state of `parse_signature`.
spec fn scan_state_matches<'r>(
    scan: HeaderScan,
    t: Option<i64>,
    v1: Option<&'r str>,
    failed: Option<WebhookError>,
) -> bool {
    match scan {
        HeaderScan::Fields { t: st, v1: sv1 } => {
            &&& failed is None
            &&& t == st
            &&& match (v1, sv1) {
                (Some(a), Some(b)) => a@ == b,
                (None, None) => true,
                _ => false,
            }
        },
        HeaderScan::BadSignature => failed matches Some(WebhookError::BadSignature),
        HeaderScan::BadHeader => failed matches Some(WebhookError::BadHeader(_)),
    }
}

/// Whether a header byte is visible ASCII or a tab: the bytes that a header
/// value may hold to be read as text (`http::HeaderValue::to_str`).
pub open spec fn visible_header_byte(b: u8) -> bool {
    (32 <= b && b < 127) || b == 9
}

/// Whether every byte of a header value is visible ASCII or a tab.
pub open spec fn all_visible_header_bytes(bytes: Seq<u8>) -> bool {
    forall|k: int| 0 <= k < bytes.len() ==> visible_header_byte(#[trigger] bytes[k])
}

/// The text of a request's `Stripe-Signature` header, given its raw bytes if
/// the request has one: `MissingSignature` without the header, `BadSignature`
/// when one of its bytes is neither visible ASCII nor a tab.
pub fn signature_header_value(value: Option<&[u8]>) -> (res: Result<String, WebhookError>)
    ensures
        match value {
            None => res matches Err(WebhookError::MissingSignature),
            Some(bytes) => if all_visible_header_bytes(bytes@) {
                res matches Ok(text) && text@ == Seq::new(
                    bytes@.len(),
                    |k: int| bytes@[k] as char,
                )
            } else {
                res matches Err(WebhookError::BadSignature)
            },
        },
{
    let bytes = match value {
        None => return Err(WebhookError::MissingSignature),
        Some(bytes) => bytes,
    };
    let mut text = String::new();
    let mut i: usize = 0;
    while i < bytes.len()
        invariant
            value == Some(bytes),
            i <= bytes@.len(),
            forall|k: int| 0 <= k < i ==> visible_header_byte(#[trigger] bytes@[k]),
            text@ == Seq::new(i as nat, |k: int| bytes@[k] as char),
        decreases bytes@.len() - i,
    {
        let b = bytes[i];
        if !((32 <= b && b < 127) || b == 9) {
            assert(!visible_header_byte(bytes@[i as int]));
            return Err(WebhookError::BadSignature);
        }
        push_char(&mut text, b as char);
        assert(text@ =~= Seq::new((i + 1) as nat, |k: int| bytes@[k] as char));
        i = i + 1;
    }
    Ok(text)
}

/// Parses a `Stripe-Signature` header of the form `t=<timestamp>,v1=<signature>`.
pub fn parse_signature<'r>(raw: &'r str) -> (res: Result<Signature<'r>, WebhookError>)
    ensures
        match res {
            Ok(sig) => signature_header(raw@) == (SignatureHeader::Parsed { t: sig.t, v1: sig.v1@ }),
            Err(WebhookError::BadSignature) => signature_header(raw@) == SignatureHeader::BadSignature,
            Err(WebhookError::BadHeader(_)) => signature_header(raw@) == SignatureHeader::BadHeader,
            Err(_) => false,
        },
{
    let chars = chars_of(raw);
    let n: usize = chars.len();
    let ghost s = raw@;
    let mut t: Option<i64> = None;
    let mut v1: Option<&'r str> = None;
    let mut failed: Option<WebhookError> = None;
    let mut start: usize = 0;
    let mut i: usize = 0;
    proof {
        assert(s.take(0) =~= Seq::<char>::empty());
        assert(s.subrange(0, 0) =~= Seq::<char>::empty());
    }
    while i < n
        invariant
            chars@ == s,
            s == raw@,
            n == s.len(),
            start <= i <= n,
            split_on(s.take(i as int), ',').len() >= 1,
            split_on(s.take(i as int), ',').last() == s.subrange(start as int, i as int),
            scan_state_matches(
                scan_header_pieces(split_on(s.take(i as int), ',').drop_last()),
                t,
                v1,
                failed,
            ),
        decreases n - i,
    {
        proof {
            lemma_split_on_step(s, ',', i as int);
            lemma_split_on_len(s.take(i as int), ',');
        }
        if chars[i] == ',' {
            let ghost prev = split_on(s.take(i as int), ',');
            scan_piece(raw, &chars, start, i, &mut t, &mut v1, &mut failed);
            proof {
                let next = split_on(s.take(i + 1), ',');
                assert(next.drop_last() =~= prev);
                assert(prev =~= prev.drop_last().push(prev.last()));
                assert(next.last() =~= s.subrange(i + 1, i + 1));
            }
            start = i + 1;
        } else {
            proof {
                let prev = split_on(s.take(i as int), ',');
                let next = split_on(s.take(i + 1), ',');
                assert(next.drop_last() =~= prev.drop_last());
                assert(next.last() =~= s.subrange(start as int, i + 1));
            }
        }
        i = i + 1;
    }
    proof {
        assert(s.take(n as int) =~= s);
        lemma_split_on_len(s, ',');
        let all = split_on(s, ',');
        assert(all =~= all.drop_last().push(all.last()));
    }
    scan_piece(raw, &chars, start, n, &mut t, &mut v1, &mut failed);
    match failed {
        Some(e) => Err(e),
        None => match (t, v1) {
            (Some(t), Some(v1)) => Ok(Signature { t, v1 }),
            _ => Err(WebhookError::BadSignature),
        },
    }
}

/// Reads the piece `raw[start..end]` unless an earlier piece failed.
fn scan_piece<'r>(
    raw: &'r str,
    chars: &Vec<char>,
    start: usize,
    end: usize,
    t: &mut Option<i64>,
    v1: &mut Option<&'r str>,
    failed: &mut Option<WebhookError>,
)
    requires
        chars@ == raw@,
        start <= end <= chars@.len(),
    ensures
        forall|scan: HeaderScan|
            #![trigger scan_header_piece(scan, raw@.subrange(start as int, end as int))]
            scan_state_matches(scan, *old(t), *old(v1), *old(failed)) ==> scan_state_matches(
                scan_header_piece(scan, raw@.subrange(start as int, end as int)),
                *final(t),
                *final(v1),
                *final(failed),
            ),
{
    let ghost piece = raw@.subrange(start as int, end as int);
    if failed.is_some() {
        return ;
    }
    let mut k: usize = start;
    while k < end && chars[k] != '='
        invariant
            start <= k <= end <= chars@.len(),
            forall|j: int| start <= j < k ==> chars@[j] != '=',
        decreases end - k,
    {
        k = k + 1;
    }
    proof {
        lemma_first_index_of(piece, '=', k - start);
    }
    if k == end {
        *failed = Some(WebhookError::BadSignature);
        return ;
    }
    let ghost key = piece.take(k - start);
    let ghost value = piece.skip(k - start + 1);
    assert(value =~= raw@.subrange(k + 1, end as int));
    if k - start == 1 && chars[start] == 't' {
        assert(key =~= seq!['t']);
        let text = raw.substring_char(k + 1, end);
        match parse_i64(text) {
            Ok(n) => {
                *t = Some(n);
            },
            Err(e) => {
                *failed = Some(WebhookError::BadHeader(e));
            },
        }
    } else if k - start == 2 && chars[start] == 'v' && chars[start + 1] == '1' {
        assert(key =~= seq!['v', '1']);
        *v1 = Some(raw.substring_char(k + 1, end));
    } else {
        assert(key != seq!['t']) by {
            if key == seq!['t'] {
                assert(key.len() == 1);
                assert(key[0] == chars@[start as int]);
            }
        }
        assert(key != seq!['v', '1']) by {
            if key == seq!['v', '1'] {
                assert(key.len() == 2);
                assert(key[0] == chars@[start as int]);
                assert(key[1] == chars@[start + 1]);
            }
        }
    }
}


/// The text that Stripe signs: the timestamp, a dot, and the payload.
pub open spec fn signed_payload(t: i64, payload: Seq<char>) -> Seq<char> {
    int_decimal(t as int) + seq!['.'] + payload
}

/// The outcome of checking a webhook signature.
pub enum SignatureCheck {
    Valid,
    BadSignature,
    BadHeader,
    BadTimestamp(i64),
}

/// How far, in seconds, a signature's timestamp may lie from the current time.
pub open spec fn timestamp_tolerance() -> int {
    300
}

/// A webhook is genuine when its header parses, its `v1` is hexadecimal, the
/// bytes it denotes are the HMAC-SHA256 tag of the signed payload under the
/// webhook secret, and its timestamp lies within five minutes of `now`.
pub open spec fn webhook_signature_check(
    secret: Seq<char>,
    payload: Seq<char>,
    header: Seq<char>,
    now: i64,
) -> SignatureCheck {
    match signature_header(header) {
        SignatureHeader::BadSignature => SignatureCheck::BadSignature,
        SignatureHeader::BadHeader => SignatureCheck::BadHeader,
        SignatureHeader::Parsed { t, v1 } => match hex_decode_bytes(encode_utf8(v1)) {
            None => SignatureCheck::BadSignature,
            Some(tag) => if tag != hmac_sha256(
                encode_utf8(secret),
                encode_utf8(signed_payload(t, payload)),
            ) {
                SignatureCheck::BadSignature
            } else if now - t > timestamp_tolerance() || t - now > timestamp_tolerance() {
                SignatureCheck::BadTimestamp(t)
            } else {
                SignatureCheck::Valid
            },
        },
    }
}

/// Whether a signature-check result is the one that `check` calls for.
pub open spec fn signature_result_is(res: Result<(), WebhookError>, check: SignatureCheck) -> bool {
    match check {
        SignatureCheck::Valid => res is Ok,
        SignatureCheck::BadSignature => res matches Err(WebhookError::BadSignature),
        SignatureCheck::BadHeader => res matches Err(WebhookError::BadHeader(_)),
        SignatureCheck::BadTimestamp(t) => res matches Err(WebhookError::BadTimestamp(u)) && u == t,
    }
}

/// Checks a webhook's `Stripe-Signature` header against its payload, the
/// webhook secret and the current time `now` (Unix seconds).
pub fn check_webhook_signature(secret: &str, payload: &str, header: &str, now: i64) -> (res: Result<
    (),
    WebhookError,
>)
    ensures
        signature_result_is(res, webhook_signature_check(secret@, payload@, header@, now)),
{
    let signature = match parse_signature(header) {
        Ok(signature) => signature,
        Err(e) => {
            return Err(e);
        },
    };
    let mut signed = String::new();
    push_i64_decimal(&mut signed, signature.t);
    push_char(&mut signed, '.');
    signed.append(payload);
    assert(signed@ =~= signed_payload(signature.t, payload@));
    let tag = match hex_decode(signature.v1) {
        Some(tag) => tag,
        None => {
            return Err(WebhookError::BadSignature);
        },
    };
    match hmac_sha256_verify(secret.as_bytes(), signed.as_str().as_bytes(), tag.as_slice()) {
        Some(true) => {},
        Some(false) => {
            return Err(WebhookError::BadSignature);
        },
        None => {
            return Err(WebhookError::BadKey);
        },
    }
    let difference: i128 = now as i128 - signature.t as i128;
    if difference > 300 || difference < -300 {
        return Err(WebhookError::BadTimestamp(signature.t));
    }
    Ok(())
}


/// The `Stripe-Signature` header that Stripe sends for a tag:
/// `t=<timestamp>,v1=<tag in lower-case hexadecimal>`.
pub open spec fn stripe_signature_header(t: i64, tag: Seq<u8>) -> Seq<char> {
    seq!['t', '='] + int_decimal(t as int) + seq![','] + (seq!['v', '1', '='] + hex_lower(tag))
}

/// The tag that Stripe computes for a payload sent at time `t`.
pub open spec fn stripe_tag(secret: Seq<char>, payload: Seq<char>, t: i64) -> Seq<u8> {
    hmac_sha256(encode_utf8(secret), encode_utf8(signed_payload(t, payload)))
}

/// A header that Stripe builds parses back to its timestamp and hexadecimal tag.
pub proof fn lemma_stripe_header_parses(t: i64, tag: Seq<u8>)
    ensures
        signature_header(stripe_signature_header(t, tag)) == (SignatureHeader::Parsed {
            t,
            v1: hex_lower(tag),
        }),
{
    let d = int_decimal(t as int);
    let h = hex_lower(tag);
    let p1 = seq!['t', '='] + d;
    let p2 = seq!['v', '1', '='] + h;
    assert(stripe_signature_header(t, tag) =~= p1 + seq![','] + p2);
    lemma_split_on_join(p1, p2, ',');
    lemma_int_decimal_chars(t as int);
    lemma_hex_lower_chars(tag);
    assert forall|k: int| 0 <= k < p1.len() implies p1[k] != ',' by {
        if k >= 2 {
            assert(p1[k] == d[k - 2]);
        }
    }
    assert forall|k: int| 0 <= k < p2.len() implies p2[k] != ',' by {
        if k >= 3 {
            assert(p2[k] == h[k - 3]);
        }
    }
    lemma_split_on_no_sep(p1, ',');
    lemma_split_on_no_sep(p2, ',');
    let pieces = split_on(stripe_signature_header(t, tag), ',');
    assert(pieces =~= seq![p1, p2]);
    lemma_first_index_of(p1, '=', 1);
    lemma_first_index_of(p2, '=', 2);
    assert(p1.take(1) =~= seq!['t']);
    assert(p1.skip(2) =~= d);
    assert(p2.take(2) =~= seq!['v', '1']);
    assert(p2.skip(3) =~= h);
    lemma_i64_decimal_roundtrip(t);
    assert(pieces.drop_last() =~= seq![p1]);
    assert(seq![p1].drop_last() =~= Seq::<Seq<char>>::empty());
    let s0 = HeaderScan::Fields { t: None, v1: None };
    assert(split_once_at(p1, '=') == Some((seq!['t'], d)));
    assert(split_once_at(p2, '=') == Some((seq!['v', '1'], h)));
    let s1 = HeaderScan::Fields { t: Some(t), v1: None };
    assert(scan_header_piece(s0, p1) == s1);
    assert(scan_header_pieces(Seq::<Seq<char>>::empty()) == s0);
    assert(seq![p1].last() == p1);
    assert(scan_header_pieces(seq![p1]) == scan_header_piece(
        scan_header_pieces(seq![p1].drop_last()),
        p1,
    ));
    assert(scan_header_pieces(seq![p1]) == s1);
    assert(scan_header_piece(s1, p2) == (HeaderScan::Fields { t: Some(t), v1: Some(h) }));
    assert(scan_header_pieces(pieces) == (HeaderScan::Fields { t: Some(t), v1: Some(h) }));
}

/// A webhook that carries the header Stripe builds for it, with the tag of its
/// signed payload under the webhook secret, is accepted whenever its timestamp
/// lies within five minutes of the current time.
pub proof fn law_signed_webhook_accepted(secret: Seq<char>, payload: Seq<char>, t: i64, now: i64)
    requires
        -timestamp_tolerance() <= now - t <= timestamp_tolerance(),
    ensures
        webhook_signature_check(
            secret,
            payload,
            stripe_signature_header(t, stripe_tag(secret, payload, t)),
            now,
        ) == SignatureCheck::Valid,
{
    let tag = stripe_tag(secret, payload, t);
    lemma_stripe_header_parses(t, tag);
    lemma_hex_roundtrip(tag);
}

/// The same genuine header is refused as stale, naming its timestamp, once the
/// current time lies more than five minutes away from it.
pub proof fn law_stale_webhook_refused(secret: Seq<char>, payload: Seq<char>, t: i64, now: i64)
    requires
        now - t > timestamp_tolerance() || t - now > timestamp_tolerance(),
    ensures
        webhook_signature_check(
            secret,
            payload,
            stripe_signature_header(t, stripe_tag(secret, payload, t)),
            now,
        ) == SignatureCheck::BadTimestamp(t),
{
    let tag = stripe_tag(secret, payload, t);
    lemma_stripe_header_parses(t, tag);
    lemma_hex_roundtrip(tag);
}


#[verifier::external_type_specification]
#[verifier::external_body]
pub struct ExClient(reqwest::Client);

/// `<reqwest::Client as Clone>::clone`, which the derived `Clone` of `Stripe`
/// calls: a handle to the same connection pool. Nothing is claimed of it.
pub assume_specification[ <reqwest::Client as Clone>::clone ](client: &reqwest::Client) -> reqwest::Client;

/// The site's Stripe account: API key, webhook secret, the two ticket prices,
/// the site's base URL and the HTTP client used to reach Stripe.
#[derive(Clone)]
pub struct Stripe {
    pub api_key: String,
    pub webhook_secret: String,
    pub early_bird_price_id: String,
    pub standard_price_id: String,
    pub base_url: String,
    pub client: reqwest::Client,
}

/// What Stripe answers when a checkout session is created.
pub struct StripeSessionResponse {
    pub id: String,
    pub url: String,
}

/// A webhook event that the site acts on.
pub enum StripeEvent {
    CheckoutSessionCompleted(CheckoutSessionCompleted),
    CheckoutSessionExpired(CheckoutSessionExpired),
}

/// The `object` of a `checkout.session.expired` event.
#[derive(Debug)]
pub struct CheckoutSessionExpired {
    pub id: String,
}

/// What the site records of a completed checkout session.
pub struct CheckoutSessionCompleted {
    pub id: String,
    pub name: String,
    pub email: String,
    pub tshirt_size: String,
    pub traveling_from: Option<String>,
    pub workplace: Option<String>,
    pub subtotal: i64,
    pub total: i64,
    pub promo_code_id: Option<String>,
}

/// The `object` of a `checkout.session.completed` event.
#[derive(Debug)]
pub struct CheckoutSessionCompletedPayload {
    pub id: String,
    pub customer_details: CustomerDetails,
    pub custom_fields: Vec<CustomField>,
    pub discounts: Vec<Discount>,
    pub amount_subtotal: u64,
    pub amount_total: u64,
}

#[derive(Debug)]
pub struct Discount {
    pub promotion_code: String,
}

/// A custom field of the checkout form, as Stripe reports it.
#[derive(Debug)]
pub enum CustomField {
    Dropdown { key: String, dropdown: DropdownValue },
    Text { key: String, text: TextValue },
}

/// The T-shirt sizes offered at checkout.
#[derive(Debug, Clone, Copy, PartialEq, Eq, Structural)]
pub enum TShirtSize {
    Small,
    Medium,
    Large,
    XLarge,
    TwoXLarge,
}

#[derive(Debug)]
pub struct DropdownValue {
    pub value: TShirtSize,
}

#[derive(Debug)]
pub struct TextValue {
    pub value: Option<String>,
}

#[derive(Debug)]
pub struct CustomerDetails {
    pub email: String,
    pub name: String,
}

/// A webhook body, decoded: the event's type and its `object` read as each of
/// the two object kinds the site handles.
pub struct StripeEventPayload {
    pub event_type: String,
    pub completed: Result<CheckoutSessionCompletedPayload, serde_json::Error>,
    pub expired: Result<CheckoutSessionExpired, serde_json::Error>,
}

/// Every T-shirt size, in the order the checkout form offers them.
pub open spec fn all_sizes() -> Seq<TShirtSize> {
    seq![
        TShirtSize::Small,
        TShirtSize::Medium,
        TShirtSize::Large,
        TShirtSize::XLarge,
        TShirtSize::TwoXLarge,
    ]
}

impl TShirtSize {
    /// The size's name as visitors read it on the checkout form.
    pub open spec fn shown_name(self) -> Seq<char> {
        match self {
            TShirtSize::Small => "Small"@,
            TShirtSize::Medium => "Medium"@,
            TShirtSize::Large => "Large"@,
            TShirtSize::XLarge => "X-Large"@,
            TShirtSize::TwoXLarge => "2X-Large"@,
        }
    }

    /// The variant's name: the form's option value, and what is recorded.
    pub open spec fn variant_name(self) -> Seq<char> {
        match self {
            TShirtSize::Small => "Small"@,
            TShirtSize::Medium => "Medium"@,
            TShirtSize::Large => "Large"@,
            TShirtSize::XLarge => "XLarge"@,
            TShirtSize::TwoXLarge => "TwoXLarge"@,
        }
    }

    pub fn external_display_name(&self) -> (res: &'static str)
        ensures
            res@ == self.shown_name(),
    {
        match self {
            TShirtSize::Small => "Small",
            TShirtSize::Medium => "Medium",
            TShirtSize::Large => "Large",
            TShirtSize::XLarge => "X-Large",
            TShirtSize::TwoXLarge => "2X-Large",
        }
    }

    /// The variant's name, as its `Display` renders it.
    pub fn as_str(&self) -> (res: &'static str)
        ensures
            res@ == self.variant_name(),
    {
        match self {
            TShirtSize::Small => "Small",
            TShirtSize::Medium => "Medium",
            TShirtSize::Large => "Large",
            TShirtSize::XLarge => "XLarge",
            TShirtSize::TwoXLarge => "TwoXLarge",
        }
    }

    /// Every size, each once, in declaration order.
    pub fn all() -> (res: Vec<TShirtSize>)
        ensures
            res@ == all_sizes(),
    {
        let mut sizes = Vec::new();
        sizes.push(TShirtSize::Small);
        sizes.push(TShirtSize::Medium);
        sizes.push(TShirtSize::Large);
        sizes.push(TShirtSize::XLarge);
        sizes.push(TShirtSize::TwoXLarge);
        assert(sizes@ =~= all_sizes());
        sizes
    }
}

/// The answers gathered from the custom fields of a completed checkout.
pub struct FieldAnswers {
    pub tshirt_size: Option<TShirtSize>,
    pub traveling_from: Option<String>,
    pub workplace: Option<String>,
}

/// Reads one custom field: the `tshirt_size` dropdown and the `traveling_from`
/// and `workplace` text fields are recorded (the last one wins); any other
/// field makes the whole payload unsupported.
pub open spec fn read_custom_field(answers: Option<FieldAnswers>, field: CustomField) -> Option<
    FieldAnswers,
> {
    match answers {
        None => None,
        Some(a) => match field {
            CustomField::Dropdown { key, dropdown } => if key@ == "tshirt_size"@ {
                Some(
                    FieldAnswers {
                        tshirt_size: Some(dropdown.value),
                        traveling_from: a.traveling_from,
                        workplace: a.workplace,
                    },
                )
            } else {
                None
            },
            CustomField::Text { key, text } => if key@ == "traveling_from"@ {
                Some(
                    FieldAnswers {
                        tshirt_size: a.tshirt_size,
                        traveling_from: text.value,
                        workplace: a.workplace,
                    },
                )
            } else if key@ == "workplace"@ {
                Some(
                    FieldAnswers {
                        tshirt_size: a.tshirt_size,
                        traveling_from: a.traveling_from,
                        workplace: text.value,
                    },
                )
            } else {
                None
            },
        },
    }
}

pub open spec fn read_custom_fields(fields: Seq<CustomField>) -> Option<FieldAnswers>
    decreases fields.len(),
{
    if fields.len() == 0 {
        Some(FieldAnswers { tshirt_size: None, traveling_from: None, workplace: None })
    } else {
        read_custom_field(read_custom_fields(fields.drop_last()), fields.last())
    }
}

/// What `checkout_session_completed` makes of a payload.
pub open spec fn completed_outcome(
    event: CheckoutSessionCompletedPayload,
    res: AppResult<CheckoutSessionCompleted>,
) -> bool {
    match read_custom_fields(event.custom_fields@) {
        None => is_assertion_failure(
            res,
            "Unsupported field type in checkout session completed payload"@,
        ),
        Some(answers) => match answers.tshirt_size {
            None => is_assertion_failure(res, "Tshirt size is a required field"@),
            Some(size) => if event.discounts@.len() > 1 {
                is_assertion_failure(res, "More than one discount codes found"@)
            } else {
                res matches Ok(c) && {
                    &&& c.id == event.id
                    &&& c.name == event.customer_details.name
                    &&& c.email == event.customer_details.email
                    &&& c.tshirt_size@ == size.variant_name()
                    &&& c.traveling_from == answers.traveling_from
                    &&& c.workplace == answers.workplace
                    &&& c.subtotal == event.amount_subtotal as i64
                    &&& c.total == event.amount_total as i64
                    &&& c.promo_code_id == (if event.discounts@.len() == 0 {
                        None
                    } else {
                        Some(event.discounts@[0].promotion_code)
                    })
                }
            },
        },
    }
}

/// The answer a field gives to the text question `key`: `Some` of its value
/// when it is a text field with that key, `None` for any other field.
pub open spec fn text_answer(field: CustomField, key: Seq<char>) -> Option<Option<String>> {
    match field {
        CustomField::Text { key: k, text } => if k@ == key {
            Some(text.value)
        } else {
            None
        },
        CustomField::Dropdown { .. } => None,
    }
}

/// The T-shirt size a field gives: `Some` for the `tshirt_size` dropdown.
pub open spec fn size_answer(field: CustomField) -> Option<TShirtSize> {
    match field {
        CustomField::Dropdown { key, dropdown } => if key@ == "tshirt_size"@ {
            Some(dropdown.value)
        } else {
            None
        },
        CustomField::Text { .. } => None,
    }
}

/// Whether the site knows what to do with a field: the `tshirt_size`
/// dropdown, or the `traveling_from` or `workplace` text question.
pub open spec fn known_field(field: CustomField) -> bool {
    ||| size_answer(field) is Some
    ||| text_answer(field, "traveling_from"@) is Some
    ||| text_answer(field, "workplace"@) is Some
}

/// Whether `v` is the answer to text question `key` among `fields`: the value
/// of the last text field with that key, or no answer when no field has it.
pub open spec fn last_text_answer_is(fields: Seq<CustomField>, key: Seq<char>, v: Option<String>) -> bool {
    if exists|i: int| 0 <= i < fields.len() && (#[trigger] text_answer(fields[i], key)) is Some {
        exists|i: int|
            0 <= i < fields.len() && #[trigger] text_answer(fields[i], key) == Some(v) && forall|
                j: int,
            |
                i < j < fields.len() ==> (#[trigger] text_answer(fields[j], key)) is None
    } else {
        v is None
    }
}

/// Whether `v` is the T-shirt size chosen among `fields`: the value of the
/// last `tshirt_size` dropdown, or none when no field is one.
pub open spec fn last_size_is(fields: Seq<CustomField>, v: Option<TShirtSize>) -> bool {
    if exists|i: int| 0 <= i < fields.len() && (#[trigger] size_answer(fields[i])) is Some {
        exists|i: int|
            0 <= i < fields.len() && #[trigger] size_answer(fields[i]) == v && v is Some && forall|
                j: int,
            |
                i < j < fields.len() ==> (#[trigger] size_answer(fields[j])) is None
    } else {
        v is None
    }
}

proof fn lemma_last_text_answer_push(
    fields: Seq<CustomField>,
    field: CustomField,
    key: Seq<char>,
    v: Option<String>,
)
    requires
        last_text_answer_is(fields, key, v),
    ensures
        text_answer(field, key) is None ==> last_text_answer_is(fields.push(field), key, v),
        text_answer(field, key) matches Some(x) ==> last_text_answer_is(fields.push(field), key, x),
{
    let all = fields.push(field);
    let n = fields.len() as int;
    assert forall|i: int| 0 <= i < n implies all[i] == fields[i] by {}
    assert(all[n] == field);
    if text_answer(field, key) is Some {
        assert(text_answer(all[n], key) is Some);
    } else if exists|i: int| 0 <= i < n && (#[trigger] text_answer(fields[i], key)) is Some {
        let i = choose|i: int|
            0 <= i < n && #[trigger] text_answer(fields[i], key) == Some(v) && forall|j: int|
                i < j < n ==> (#[trigger] text_answer(fields[j], key)) is None;
        assert(text_answer(all[i], key) is Some);
        assert forall|j: int| i < j < all.len() implies (#[trigger] text_answer(all[j], key)) is None by {
            if j < n {
                assert(text_answer(fields[j], key) is None);
            }
        }
    } else {
        assert forall|i: int| 0 <= i < all.len() implies (#[trigger] text_answer(all[i], key)) is None by {
            if i < n {
                assert(all[i] == fields[i]);
                assert(!(text_answer(fields[i], key) is Some));
            }
        }
    }
}

proof fn lemma_last_size_push(fields: Seq<CustomField>, field: CustomField, v: Option<TShirtSize>)
    requires
        last_size_is(fields, v),
    ensures
        size_answer(field) is None ==> last_size_is(fields.push(field), v),
        size_answer(field) is Some ==> last_size_is(fields.push(field), size_answer(field)),
{
    let all = fields.push(field);
    let n = fields.len() as int;
    assert forall|i: int| 0 <= i < n implies all[i] == fields[i] by {}
    assert(all[n] == field);
    if size_answer(field) is Some {
        assert(size_answer(all[n]) is Some);
    } else if exists|i: int| 0 <= i < n && (#[trigger] size_answer(fields[i])) is Some {
        let i = choose|i: int|
            0 <= i < n && #[trigger] size_answer(fields[i]) == v && v is Some && forall|j: int|
                i < j < n ==> (#[trigger] size_answer(fields[j])) is None;
        assert(size_answer(all[i]) is Some);
        assert forall|j: int| i < j < all.len() implies (#[trigger] size_answer(all[j])) is None by {
            if j < n {
                assert(size_answer(fields[j]) is None);
            }
        }
    } else {
        assert forall|i: int| 0 <= i < all.len() implies (#[trigger] size_answer(all[i])) is None by {
            if i < n {
                assert(all[i] == fields[i]);
                assert(!(size_answer(fields[i]) is Some));
            }
        }
    }
}

/// The custom fields of a checkout are read field by field, each answer only
/// under its own key: the fields are accepted exactly when every one of them
/// is known, and then the T-shirt size is that of the last `tshirt_size`
/// dropdown and each text answer that of the last text field with its key.
pub proof fn law_each_answer_comes_from_its_own_field(fields: Seq<CustomField>)
    ensures
        (read_custom_fields(fields) is Some) == (forall|i: int|
            0 <= i < fields.len() ==> known_field(#[trigger] fields[i])),
        read_custom_fields(fields) matches Some(a) ==> {
            &&& last_size_is(fields, a.tshirt_size)
            &&& last_text_answer_is(fields, "traveling_from"@, a.traveling_from)
            &&& last_text_answer_is(fields, "workplace"@, a.workplace)
        },
    decreases fields.len(),
{
    reveal_strlit("traveling_from");
    reveal_strlit("workplace");
    reveal_strlit("tshirt_size");
    assert("traveling_from"@.len() != "workplace"@.len());
    if fields.len() == 0 {
        assert(!exists|i: int| 0 <= i < fields.len() && (#[trigger] size_answer(fields[i])) is Some);
        assert(!exists|i: int|
            0 <= i < fields.len() && (#[trigger] text_answer(fields[i], "traveling_from"@)) is Some);
        assert(!exists|i: int|
            0 <= i < fields.len() && (#[trigger] text_answer(fields[i], "workplace"@)) is Some);
    } else {
        let prefix = fields.drop_last();
        let field = fields.last();
        law_each_answer_comes_from_its_own_field(prefix);
        assert(prefix.push(field) =~= fields);
        assert forall|i: int| 0 <= i < prefix.len() implies prefix[i] == fields[i] by {}
        if read_custom_fields(prefix) is Some && known_field(field) {
            assert(forall|i: int| 0 <= i < prefix.len() ==> known_field(#[trigger] prefix[i]));
            assert forall|i: int| 0 <= i < fields.len() implies known_field(#[trigger] fields[i]) by {
                if i < prefix.len() {
                    assert(known_field(prefix[i]));
                }
            }
            let a = read_custom_fields(prefix).unwrap();
            lemma_last_size_push(prefix, field, a.tshirt_size);
            lemma_last_text_answer_push(prefix, field, "traveling_from"@, a.traveling_from);
            lemma_last_text_answer_push(prefix, field, "workplace"@, a.workplace);
            assert(read_custom_fields(fields) == read_custom_field(Some(a), field));
            let b = read_custom_fields(fields).unwrap();
            match field {
                CustomField::Dropdown { key, dropdown } => {
                    assert(size_answer(field) == Some(dropdown.value));
                    assert(text_answer(field, "traveling_from"@) is None);
                    assert(text_answer(field, "workplace"@) is None);
                    assert(b.tshirt_size == Some(dropdown.value));
                },
                CustomField::Text { key, text } => {
                    assert(size_answer(field) is None);
                    if key@ == "traveling_from"@ {
                        assert(text_answer(field, "workplace"@) is None);
                        assert(b.traveling_from == text.value);
                    } else {
                        assert(text_answer(field, "traveling_from"@) is None);
                        assert(b.workplace == text.value);
                    }
                },
            }
        } else if !known_field(field) {
            assert(!known_field(fields[fields.len() - 1]));
        } else {
            let i = choose|i: int| 0 <= i < prefix.len() && !known_field(#[trigger] prefix[i]);
            assert(!known_field(fields[i]));
        }
    }
}

/// A field answers only its own question: appending a field that is not a
/// `traveling_from` text field leaves that answer as it was, and likewise for
/// `workplace` and for the T-shirt size.
pub proof fn law_other_fields_leave_an_answer_alone(fields: Seq<CustomField>, field: CustomField)
    requires
        read_custom_fields(fields.push(field)) is Some,
    ensures
        read_custom_fields(fields) is Some,
        text_answer(field, "traveling_from"@) is None ==> read_custom_fields(
            fields.push(field),
        ).unwrap().traveling_from == read_custom_fields(fields).unwrap().traveling_from,
        text_answer(field, "workplace"@) is None ==> read_custom_fields(
            fields.push(field),
        ).unwrap().workplace == read_custom_fields(fields).unwrap().workplace,
        size_answer(field) is None ==> read_custom_fields(fields.push(field)).unwrap().tshirt_size
            == read_custom_fields(fields).unwrap().tshirt_size,
{
    reveal_strlit("traveling_from");
    reveal_strlit("workplace");
    reveal_strlit("tshirt_size");
    assert(fields.push(field).drop_last() =~= fields);
    assert(fields.push(field).last() == field);
}

/// A recorded sale carries, as its T-shirt size, traveling-from and workplace
/// answers, those of the last field with each key.
pub proof fn law_recorded_sale_answers(
    event: CheckoutSessionCompletedPayload,
    res: AppResult<CheckoutSessionCompleted>,
)
    requires
        completed_outcome(event, res),
        res is Ok,
    ensures
        res matches Ok(c) && {
            &&& exists|size: TShirtSize|
                last_size_is(event.custom_fields@, Some(size)) && c.tshirt_size@
                    == size.variant_name()
            &&& last_text_answer_is(event.custom_fields@, "traveling_from"@, c.traveling_from)
            &&& last_text_answer_is(event.custom_fields@, "workplace"@, c.workplace)
        },
{
    law_each_answer_comes_from_its_own_field(event.custom_fields@);
    let a = read_custom_fields(event.custom_fields@).unwrap();
    let size = a.tshirt_size.unwrap();
    assert(last_size_is(event.custom_fields@, Some(size)));
}

/// Turns the object of a `checkout.session.completed` event into what the
/// site records of the sale.
pub fn checkout_session_completed(event: CheckoutSessionCompletedPayload) -> (res: AppResult<
    CheckoutSessionCompleted,
>)
    ensures
        completed_outcome(event, res),
{
    let ghost input = event;
    let CheckoutSessionCompletedPayload {
        id,
        customer_details,
        custom_fields,
        discounts,
        amount_subtotal,
        amount_total,
    } = event;
    let mut supported = true;
    let mut traveling_from: Option<String> = None;
    let mut workplace: Option<String> = None;
    let mut tshirt_size_optional: Option<TShirtSize> = None;
    let ghost fields = custom_fields@;
    proof {
        assert(fields.take(0) =~= Seq::<CustomField>::empty());
    }
    for field in it: custom_fields
        invariant
            fields == input.custom_fields@,
            it.seq() == fields,
            match read_custom_fields(fields.take(it.index() as int)) {
                None => !supported,
                Some(a) => supported && a.tshirt_size == tshirt_size_optional && a.traveling_from
                    == traveling_from && a.workplace == workplace,
            },
    {
        proof {
            assert(fields.take(it.index() + 1).drop_last() =~= fields.take(it.index() as int));
        }
        if supported {
            match field {
                CustomField::Dropdown { key, dropdown } => {
                    if text_eq(key.as_str(), "tshirt_size") {
                        tshirt_size_optional = Some(dropdown.value);
                    } else {
                        supported = false;
                    }
                },
                CustomField::Text { key, text } => {
                    if text_eq(key.as_str(), "traveling_from") {
                        traveling_from = text.value;
                    } else if text_eq(key.as_str(), "workplace") {
                        workplace = text.value;
                    } else {
                        supported = false;
                    }
                },
            }
        }
    }
    proof {
        assert(fields.take(fields.len() as int) =~= fields);
    }
    if !supported {
        return Err(
            AppError::AssertionFailure(
                "Unsupported field type in checkout session completed payload".to_owned(),
            ),
        );
    }
    let tshirt_size = match tshirt_size_optional {
        Some(size) => size.as_str().to_owned(),
        None => {
            return Err(AppError::AssertionFailure("Tshirt size is a required field".to_owned()));
        },
    };
    let mut discounts = discounts;
    let promo_code_id: Option<String> = if discounts.len() == 0 {
        None
    } else if discounts.len() == 1 {
        let discount = discounts.pop().unwrap();
        Some(discount.promotion_code)
    } else {
        return Err(AppError::AssertionFailure("More than one discount codes found".to_owned()));
    };
    Ok(
        CheckoutSessionCompleted {
            id,
            name: customer_details.name,
            email: customer_details.email,
            tshirt_size,
            traveling_from,
            workplace,
            subtotal: amount_subtotal as i64,
            total: amount_total as i64,
            promo_code_id,
        },
    )
}


/// The message with which an event of an unknown type is refused.
pub open spec fn unsupported_event_message(event_type: Seq<char>) -> Seq<char> {
    "Unsupported event type received! "@ + event_type
}

/// What `webhook_event` makes of a decoded webhook body.
pub open spec fn event_outcome(
    decoded: Result<StripeEventPayload, serde_json::Error>,
    res: AppResult<StripeEvent>,
) -> bool {
    match decoded {
        Err(e) => res matches Err(AppError::Serde(r)) && r == e,
        Ok(p) => if p.event_type@ == "checkout.session.completed"@ {
            match p.completed {
                Err(e) => res matches Err(AppError::Serde(r)) && r == e,
                Ok(object) => match res {
                    Ok(StripeEvent::CheckoutSessionCompleted(c)) => completed_outcome(object, Ok(c)),
                    Ok(_) => false,
                    Err(e) => completed_outcome(object, Err(e)),
                },
            }
        } else if p.event_type@ == "checkout.session.expired"@ {
            match p.expired {
                Err(e) => res matches Err(AppError::Serde(r)) && r == e,
                Ok(object) => res == Ok::<StripeEvent, AppError>(
                    StripeEvent::CheckoutSessionExpired(object),
                ),
            }
        } else {
            is_assertion_failure(res, unsupported_event_message(p.event_type@))
        },
    }
}

/// Turns a decoded webhook body into the event the site acts on.
pub fn webhook_event(decoded: Result<StripeEventPayload, serde_json::Error>) -> (res: AppResult<
    StripeEvent,
>)
    ensures
        event_outcome(decoded, res),
{
    let payload = match decoded {
        Ok(payload) => payload,
        Err(e) => {
            return Err(AppError::Serde(e));
        },
    };
    if text_eq(payload.event_type.as_str(), "checkout.session.completed") {
        match payload.completed {
            Ok(object) => match checkout_session_completed(object) {
                Ok(completed) => Ok(StripeEvent::CheckoutSessionCompleted(completed)),
                Err(e) => Err(e),
            },
            Err(e) => Err(AppError::Serde(e)),
        }
    } else if text_eq(payload.event_type.as_str(), "checkout.session.expired") {
        match payload.expired {
            Ok(object) => Ok(StripeEvent::CheckoutSessionExpired(object)),
            Err(e) => Err(AppError::Serde(e)),
        }
    } else {
        let mut message = "Unsupported event type received! ".to_owned();
        message.append(payload.event_type.as_str());
        Err(AppError::AssertionFailure(message))
    }
}

impl Stripe {
    /// Checks a webhook's `Stripe-Signature` header against the current time.
    pub fn validate_signature(&self, payload: &str, sig: &str) -> (res: Result<(), WebhookError>)
        ensures
            exists|now: i64|
                signature_result_is(
                    res,
                    #[trigger] webhook_signature_check(self.webhook_secret@, payload@, sig@, now),
                ),
    {
        let now: i64 = now_unix_seconds();
        let res = check_webhook_signature(self.webhook_secret.as_str(), payload, sig, now);
        assert(signature_result_is(
            res,
            webhook_signature_check(self.webhook_secret@, payload@, sig@, now),
        ));
        res
    }

    /// Verifies a webhook against the time `now` (Unix seconds) and turns its
    /// decoded body into the event the site acts on; the body counts only once
    /// the signature holds.
    pub fn parse_webhook_at(
        &self,
        payload: &str,
        signature: &str,
        decoded: Result<StripeEventPayload, serde_json::Error>,
        now: i64,
    ) -> (res: AppResult<StripeEvent>)
        ensures
            webhook_outcome(
                webhook_signature_check(self.webhook_secret@, payload@, signature@, now),
                decoded,
                res,
            ),
    {
        match check_webhook_signature(self.webhook_secret.as_str(), payload, signature, now) {
            Ok(()) => {},
            Err(e) => {
                return Err(AppError::Webhook(e));
            },
        }
        webhook_event(decoded)
    }

    /// Verifies a webhook against the current time and turns its decoded body
    /// into the event the site acts on, as `parse_webhook_at` does for the
    /// clock reading it makes.
    pub fn parse_webhook(
        &self,
        payload: &str,
        signature: &str,
        decoded: Result<StripeEventPayload, serde_json::Error>,
    ) -> (res: AppResult<StripeEvent>)
        ensures
            exists|now: i64|
                webhook_outcome(
                    #[trigger] webhook_signature_check(
                        self.webhook_secret@,
                        payload@,
                        signature@,
                        now,
                    ),
                    decoded,
                    res,
                ),
    {
        let now: i64 = now_unix_seconds();
        let res = self.parse_webhook_at(payload, signature, decoded, now);
        assert(webhook_outcome(
            webhook_signature_check(self.webhook_secret@, payload@, signature@, now),
            decoded,
            res,
        ));
        res
    }
}

/// What a webhook gives once its signature check has come out as `check`: the
/// event its body decodes to when the signature holds, else the signature's
/// error.
pub open spec fn webhook_outcome(
    check: SignatureCheck,
    decoded: Result<StripeEventPayload, serde_json::Error>,
    res: AppResult<StripeEvent>,
) -> bool {
    if check is Valid {
        event_outcome(decoded, res)
    } else {
        res matches Err(AppError::Webhook(e)) && signature_result_is(Err(e), check)
    }
}

/// Two webhook errors of the same kind, with the same timestamp where they
/// carry one.
pub open spec fn same_webhook_error(a: WebhookError, b: WebhookError) -> bool {
    match (a, b) {
        (WebhookError::BadKey, WebhookError::BadKey) => true,
        (WebhookError::MissingSignature, WebhookError::MissingSignature) => true,
        (WebhookError::BadSignature, WebhookError::BadSignature) => true,
        (WebhookError::BadHeader(_), WebhookError::BadHeader(_)) => true,
        (WebhookError::BadTimestamp(t), WebhookError::BadTimestamp(u)) => t == u,
        _ => false,
    }
}

/// Parsing a webhook and checking its signature at the same time agree: a
/// webhook whose signature check fails is answered with that failure whatever
/// its body holds, and only one whose signature holds yields an event or a
/// decoding error.
pub proof fn law_unsigned_webhook_is_never_read(
    secret: Seq<char>,
    payload: Seq<char>,
    header: Seq<char>,
    now: i64,
    decoded: Result<StripeEventPayload, serde_json::Error>,
    checked: Result<(), WebhookError>,
    parsed: AppResult<StripeEvent>,
)
    requires
        signature_result_is(checked, webhook_signature_check(secret, payload, header, now)),
        webhook_outcome(webhook_signature_check(secret, payload, header, now), decoded, parsed),
    ensures
        checked matches Err(w) ==> parsed matches Err(AppError::Webhook(e)) && same_webhook_error(
            e,
            w,
        ),
        parsed is Ok ==> checked is Ok,
        parsed matches Err(AppError::Serde(_)) ==> checked is Ok,
{
    let check = webhook_signature_check(secret, payload, header, now);
    if !(check is Valid) {
        assert(parsed matches Err(AppError::Webhook(_)));
    }
}

/// The text views of a list of form parameters.
pub open spec fn pair_views(v: Seq<(String, String)>) -> Seq<(Seq<char>, Seq<char>)> {
    Seq::new(v.len(), |k: int| (v[k].0@, v[k].1@))
}

/// The form key of field `field` of the `i`-th T-shirt option.
pub open spec fn option_key(i: nat, field: Seq<char>) -> Seq<char> {
    "custom_fields[0][dropdown][options]["@ + decimal_digits(i) + "]["@ + field + "]"@
}

/// The dropdown options for the sizes: a label and a value for each.
pub open spec fn size_options(sizes: Seq<TShirtSize>) -> Seq<(Seq<char>, Seq<char>)>
    decreases sizes.len(),
{
    if sizes.len() == 0 {
        Seq::empty()
    } else {
        let i: nat = (sizes.len() - 1) as nat;
        size_options(sizes.drop_last()) + seq![
            (option_key(i, "label"@), sizes.last().shown_name()),
            (option_key(i, "value"@), sizes.last().variant_name()),
        ]
    }
}

/// The form parameters before the T-shirt options.
pub open spec fn checkout_form_head(base_url: Seq<char>, price_id: Seq<char>, expires_at: i64) -> Seq<
    (Seq<char>, Seq<char>),
> {
    seq![
        ("success_url"@, base_url + "/success"@),
        ("mode"@, "payment"@),
        ("expires_at"@, int_decimal(expires_at as int)),
        ("allow_promotion_codes"@, "true"@),
        ("line_items[0][price]"@, price_id),
        ("line_items[0][quantity]"@, "1"@),
        ("custom_fields[0][key]"@, "tshirt_size"@),
        ("custom_fields[0][label][type]"@, "custom"@),
        ("custom_fields[0][label][custom]"@, "T-shirt size"@),
        ("custom_fields[0][type]"@, "dropdown"@),
        ("custom_fields[0][optional]"@, "false"@),
    ]
}

/// The form parameters after the T-shirt options.
pub open spec fn checkout_form_tail() -> Seq<(Seq<char>, Seq<char>)> {
    seq![
        ("custom_fields[1][key]"@, "traveling_from"@),
        ("custom_fields[1][label][type]"@, "custom"@),
        ("custom_fields[1][label][custom]"@, "Where are you traveling from?"@),
        ("custom_fields[1][type]"@, "text"@),
        ("custom_fields[1][optional]"@, "true"@),
        ("custom_fields[2][key]"@, "workplace"@),
        ("custom_fields[2][label][type]"@, "custom"@),
        ("custom_fields[2][label][custom]"@, "Where do you work?"@),
        ("custom_fields[2][type]"@, "text"@),
        ("custom_fields[2][optional]"@, "true"@),
        ("name_collection[individual][enabled]"@, "true"@),
        ("name_collection[individual][optional]"@, "false"@),
    ]
}

/// The form with which a checkout session is created.
pub open spec fn checkout_form(base_url: Seq<char>, price_id: Seq<char>, expires_at: i64) -> Seq<
    (Seq<char>, Seq<char>),
> {
    checkout_form_head(base_url, price_id, expires_at) + size_options(all_sizes())
        + checkout_form_tail()
}

/// How long, in seconds, a checkout session stays open.
pub open spec fn checkout_session_lifetime() -> int {
    1860
}

fn push_param(params: &mut Vec<(String, String)>, key: String, value: String)
    ensures
        pair_views(final(params)@) == pair_views(old(params)@).push((key@, value@)),
{
    params.push((key, value));
    assert(pair_views(final(params)@) =~= pair_views(old(params)@).push((key@, value@)));
}

fn push_text_param(params: &mut Vec<(String, String)>, key: &str, value: &str)
    ensures
        pair_views(final(params)@) == pair_views(old(params)@).push((key@, value@)),
{
    push_param(params, key.to_owned(), value.to_owned());
}

fn option_key_text(i: usize, field: &str) -> (res: String)
    ensures
        res@ == option_key(i as nat, field@),
{
    let mut key = "custom_fields[0][dropdown][options][".to_owned();
    push_decimal(&mut key, i as u64);
    key.append("][");
    key.append(field);
    key.append("]");
    key
}

/// The form of a checkout session opened at `now` (Unix seconds), if its
/// expiry time fits an `i64` timestamp.
pub open spec fn form_opened_at(base_url: Seq<char>, price_id: Seq<char>, now: i64) -> Option<
    Seq<(Seq<char>, Seq<char>)>,
> {
    if now + checkout_session_lifetime() <= i64::MAX {
        Some(checkout_form(base_url, price_id, (now + checkout_session_lifetime()) as i64))
    } else {
        None
    }
}

impl Stripe {
    /// The price charged at the early-bird or at the standard price.
    pub open spec fn price_id(self, is_early_bird: bool) -> Seq<char> {
        if is_early_bird {
            self.early_bird_price_id@
        } else {
            self.standard_price_id@
        }
    }

    /// The form parameters for a checkout session that expires at `expires_at`
    /// (Unix seconds), at the early-bird or the standard price.
    pub fn checkout_session_params(&self, is_early_bird: bool, expires_at: i64) -> (res: Vec<
        (String, String),
    >)
        ensures
            pair_views(res@) == checkout_form(
                self.base_url@,
                if is_early_bird {
                    self.early_bird_price_id@
                } else {
                    self.standard_price_id@
                },
                expires_at,
            ),
    {
        let price_id = if is_early_bird {
            &self.early_bird_price_id
        } else {
            &self.standard_price_id
        };
        let mut params: Vec<(String, String)> = Vec::new();
        let mut success_url = self.base_url.clone();
        success_url.append("/success");
        push_param(&mut params, "success_url".to_owned(), success_url);
        push_text_param(&mut params, "mode", "payment");
        let mut expires = String::new();
        push_i64_decimal(&mut expires, expires_at);
        push_param(&mut params, "expires_at".to_owned(), expires);
        push_text_param(&mut params, "allow_promotion_codes", "true");
        push_param(&mut params, "line_items[0][price]".to_owned(), price_id.clone());
        push_text_param(&mut params, "line_items[0][quantity]", "1");
        push_text_param(&mut params, "custom_fields[0][key]", "tshirt_size");
        push_text_param(&mut params, "custom_fields[0][label][type]", "custom");
        push_text_param(&mut params, "custom_fields[0][label][custom]", "T-shirt size");
        push_text_param(&mut params, "custom_fields[0][type]", "dropdown");
        push_text_param(&mut params, "custom_fields[0][optional]", "false");
        let ghost head = checkout_form_head(self.base_url@, price_id@, expires_at);
        assert(pair_views(params@) =~= head);
        let sizes = TShirtSize::all();
        let mut i: usize = 0;
        proof {
            assert(sizes@.take(0) =~= Seq::<TShirtSize>::empty());
            assert(head + size_options(Seq::empty()) =~= head);
        }
        while i < sizes.len()
            invariant
                sizes@ == all_sizes(),
                i <= sizes@.len(),
                pair_views(params@) == head + size_options(sizes@.take(i as int)),
            decreases sizes@.len() - i,
        {
            let size = sizes[i];
            let label = option_key_text(i, "label");
            push_param(&mut params, label, size.external_display_name().to_owned());
            let value = option_key_text(i, "value");
            push_param(&mut params, value, size.as_str().to_owned());
            proof {
                let taken = sizes@.take(i + 1);
                assert(taken.drop_last() =~= sizes@.take(i as int));
                assert(taken.last() == size);
                assert(pair_views(params@) =~= head + size_options(taken));
            }
            i = i + 1;
        }
        proof {
            assert(sizes@.take(sizes@.len() as int) =~= all_sizes());
        }
        let ghost middle = pair_views(params@);
        push_text_param(&mut params, "custom_fields[1][key]", "traveling_from");
        push_text_param(&mut params, "custom_fields[1][label][type]", "custom");
        push_text_param(&mut params, "custom_fields[1][label][custom]", "Where are you traveling from?");
        push_text_param(&mut params, "custom_fields[1][type]", "text");
        push_text_param(&mut params, "custom_fields[1][optional]", "true");
        push_text_param(&mut params, "custom_fields[2][key]", "workplace");
        push_text_param(&mut params, "custom_fields[2][label][type]", "custom");
        push_text_param(&mut params, "custom_fields[2][label][custom]", "Where do you work?");
        push_text_param(&mut params, "custom_fields[2][type]", "text");
        push_text_param(&mut params, "custom_fields[2][optional]", "true");
        push_text_param(&mut params, "name_collection[individual][enabled]", "true");
        push_text_param(&mut params, "name_collection[individual][optional]", "false");
        assert(pair_views(params@) =~= middle + checkout_form_tail());
        params
    }

    /// The form parameters for a checkout session opened at `now` (Unix
    /// seconds), which expires 31 minutes later; `None` when that expiry time
    /// does not fit an `i64` timestamp.
    pub fn checkout_session_form_at(&self, is_early_bird: bool, now: i64) -> (res: Option<
        Vec<(String, String)>,
    >)
        ensures
            form_opened_at(self.base_url@, self.price_id(is_early_bird), now) == (match res {
                Some(params) => Some(pair_views(params@)),
                None => None,
            }),
    {
        if now > i64::MAX - 1860 {
            return None;
        }
        let params = self.checkout_session_params(is_early_bird, now + 1860);
        Some(params)
    }

    /// The form parameters for a checkout session that expires 31 minutes
    /// from the current time, as `checkout_session_form_at` gives them for the
    /// clock reading it makes (which always leaves room for the expiry time).
    pub fn checkout_session_form(&self, is_early_bird: bool) -> (res: Vec<(String, String)>)
        ensures
            exists|now: i64|
                now <= latest_unix_seconds() && #[trigger] form_opened_at(
                    self.base_url@,
                    self.price_id(is_early_bird),
                    now,
                ) == Some(pair_views(res@)),
    {
        let now: i64 = now_unix_seconds();
        let params = self.checkout_session_params(is_early_bird, now + 1860);
        assert(form_opened_at(self.base_url@, self.price_id(is_early_bird), now) == Some(
            pair_views(params@),
        ));
        params
    }
}


/// The checkout form offers every T-shirt size, in declaration order, under its
/// display name, with the variant name as the option's value, which is the
/// name a completed checkout records for that size; no two sizes share a value.
pub proof fn law_form_offers_each_size_by_recorded_name(
    base_url: Seq<char>,
    price_id: Seq<char>,
    expires_at: i64,
    i: int,
)
    requires
        0 <= i < all_sizes().len(),
    ensures
        checkout_form(base_url, price_id, expires_at)[11 + 2 * i] == (
            option_key(i as nat, "label"@),
            all_sizes()[i].shown_name(),
        ),
        checkout_form(base_url, price_id, expires_at)[12 + 2 * i] == (
            option_key(i as nat, "value"@),
            all_sizes()[i].variant_name(),
        ),
        forall|j: int|
            0 <= j < all_sizes().len() && j != i ==> all_sizes()[j].variant_name()
                != all_sizes()[i].variant_name(),
{
    reveal_with_fuel(size_options, 6);
    let sizes = all_sizes();
    let options = size_options(sizes);
    assert(sizes.drop_last().drop_last().drop_last().drop_last().drop_last() =~= Seq::<
        TShirtSize,
    >::empty());
    assert(options.len() == 10);
    let form = checkout_form(base_url, price_id, expires_at);
    let head = checkout_form_head(base_url, price_id, expires_at);
    assert(head.len() == 11);
    assert(form[11 + 2 * i] == options[2 * i]);
    assert(form[12 + 2 * i] == options[2 * i + 1]);
    reveal_strlit("Small");
    reveal_strlit("Medium");
    reveal_strlit("Large");
    reveal_strlit("XLarge");
    reveal_strlit("TwoXLarge");
    assert(TShirtSize::Small.variant_name()[0] == 'S');
    assert(TShirtSize::Medium.variant_name()[0] == 'M');
    assert(TShirtSize::Large.variant_name()[0] == 'L');
    assert(TShirtSize::XLarge.variant_name()[0] == 'X');
    assert(TShirtSize::TwoXLarge.variant_name()[0] == 'T');
    assert forall|j: int|
        0 <= j < sizes.len() && j != i implies sizes[j].variant_name()
            != sizes[i].variant_name() by {
        assert(sizes[j].variant_name()[0] != sizes[i].variant_name()[0]);
    }
}

} // verus!
