//! LinkedIn conversion reporting: the event the site reports for a completed
//! checkout, with the buyer's hashed e-mail address and split name.

use crate::clock::now_unix_millis;
use crate::crypto::{hex_encode, hex_lower, lemma_hex_lower_chars, sha256, sha256_digest};
use crate::text::{
    all_digits, char_is_whitespace, char_to_lowercase, chars_of, digit, digit_char, digit_value,
    digits_value, int_decimal, join_words, lemma_first_index_of, lemma_int_decimal_chars,
    lemma_int_decimal_value, lemma_join_words_first, push_char, push_decimal, push_str_piece,
    signed_decimal_value, split_once_at, unicode_lowercase, unicode_whitespace, word_scan, words,
};
use vstd::prelude::*;
use vstd::utf8::encode_utf8;

verus! {

/// A completed checkout, as reported to LinkedIn.
pub struct CheckoutConversion {
    pub checkout_session_id: String,
    pub name: String,
    pub email: String,
    pub total: i64,
    pub ip_address: Option<String>,
}

/// The body of a LinkedIn conversion event.
pub struct ConversionEventPayload {
    pub conversion: String,
    pub conversion_happened_at: i64,
    pub conversion_value: ConversionValue,
    pub user: ConversionEventUser,
    pub event_id: String,
}

pub struct ConversionValue {
    pub currency_code: &'static str,
    pub amount: String,
}

pub struct ConversionEventUser {
    pub user_ids: Vec<UserId>,
    pub user_info: Option<UserInfo>,
}

pub struct UserId {
    pub id_type: &'static str,
    pub id_value: String,
}

pub struct UserInfo {
    pub first_name: String,
    pub last_name: String,
}

/// An e-mail address as LinkedIn matches it: whitespace removed and every
/// other character replaced by its lower-case mapping.
pub open spec fn normalized_email(email: Seq<char>) -> Seq<char>
    decreases email.len(),
{
    if email.len() == 0 {
        Seq::empty()
    } else {
        normalized_email(email.drop_last()) + if unicode_whitespace(email.last()) {
            Seq::empty()
        } else {
            unicode_lowercase(email.last())
        }
    }
}

/// The lower-case hexadecimal SHA-256 digest of the UTF-8 bytes of the
/// normalized address.
pub open spec fn email_hash(email: Seq<char>) -> Seq<char> {
    hex_lower(sha256(encode_utf8(normalized_email(email))))
}

/// Hashes an e-mail address the way LinkedIn expects it: 64 lower-case
/// hexadecimal digits.
pub fn sha256_email(email: &str) -> (res: String)
    ensures
        res@ == email_hash(email@),
        res@.len() == 64,
        forall|k: int|
            0 <= k < res@.len() ==> {
                let c = #[trigger] res@[k];
                ('0' <= c <= '9') || ('a' <= c <= 'f')
            },
{
    let chars = chars_of(email);
    let mut normalized = String::new();
    let mut i: usize = 0;
    while i < chars.len()
        invariant
            chars@ == email@,
            i <= chars@.len(),
            normalized@ == normalized_email(email@.take(i as int)),
        decreases chars@.len() - i,
    {
        let c = chars[i];
        if !char_is_whitespace(c) {
            let lower = char_to_lowercase(c);
            push_str_piece(&mut normalized, &lower);
        }
        proof {
            assert(email@.take(i + 1).drop_last() =~= email@.take(i as int));
        }
        i = i + 1;
    }
    proof {
        assert(email@.take(chars@.len() as int) =~= email@);
    }
    let digest = sha256_digest(normalized.as_str().as_bytes());
    proof {
        lemma_hex_lower_chars(digest@);
    }
    hex_encode(digest.as_slice())
}

/// The whole part of `cents / 100`, rounded toward zero (Rust's `/`).
pub open spec fn truncated_hundreds(cents: int) -> int {
    if cents >= 0 {
        cents / 100
    } else {
        -((-cents) / 100)
    }
}

pub open spec fn abs_int(x: int) -> int {
    if x >= 0 {
        x
    } else {
        -x
    }
}

/// `format!("{}.{:02}", cents / 100, cents.abs() % 100)`.
pub open spec fn amount_text(cents: int) -> Seq<char> {
    int_decimal(truncated_hundreds(cents)) + seq!['.'] + seq![
        digit_char((abs_int(cents) % 100 / 10) as nat),
        digit_char((abs_int(cents) % 10) as nat),
    ]
}

/// Renders an amount in cents as a decimal number of dollars.
pub fn cents_to_decimal_string(cents: i64) -> (res: String)
    requires
        cents != i64::MIN,
    ensures
        res@ == amount_text(cents as int),
{
    let magnitude: u64 = if cents < 0 {
        (-cents) as u64
    } else {
        cents as u64
    };
    let whole: u64 = magnitude / 100;
    let fraction: u64 = magnitude % 100;
    let mut out = String::new();
    if cents < 0 && whole > 0 {
        push_char(&mut out, '-');
    }
    push_decimal(&mut out, whole);
    push_char(&mut out, '.');
    push_char(&mut out, digit(fraction / 10));
    push_char(&mut out, digit(fraction % 10));
    assert(abs_int(cents as int) == magnitude);
    assert((magnitude % 100) % 10 == magnitude % 10) by (nonlinear_arith);
    assert(out@ =~= amount_text(cents as int));
    out
}

/// The text views of a list of strings.
pub open spec fn string_views(v: Seq<String>) -> Seq<Seq<char>> {
    Seq::new(v.len(), |k: int| v[k]@)
}

/// What `split_name` yields for a name: the first word and the remaining
/// words joined with single spaces, or nothing for fewer than two words.
pub open spec fn name_parts(name: Seq<char>, res: (Option<String>, Option<String>)) -> bool {
    let w = words(name);
    if w.len() < 2 {
        res.0 is None && res.1 is None
    } else {
        &&& res.0 matches Some(first) && first@ == w[0]
        &&& res.1 matches Some(last) && last@ == join_words(w.drop_first())
    }
}

/// Splits a full name into a first name and the rest.
pub fn split_name(name: &str) -> (res: (Option<String>, Option<String>))
    ensures
        name_parts(name@, res),
{
    let chars = chars_of(name);
    let mut done: Vec<String> = Vec::new();
    let mut current: Option<String> = None;
    let mut i: usize = 0;
    while i < chars.len()
        invariant
            chars@ == name@,
            i <= chars@.len(),
            string_views(done@) == word_scan(name@.take(i as int)).0,
            match (word_scan(name@.take(i as int)).1, current) {
                (Some(w), Some(c)) => c@ == w,
                (None, None) => true,
                _ => false,
            },
        decreases chars@.len() - i,
    {
        let c = chars[i];
        proof {
            assert(name@.take(i + 1).drop_last() =~= name@.take(i as int));
        }
        if char_is_whitespace(c) {
            current = match current {
                Some(w) => {
                    done.push(w);
                    None
                },
                None => None,
            };
        } else {
            current = match current {
                Some(w) => {
                    let mut w = w;
                    push_char(&mut w, c);
                    Some(w)
                },
                None => {
                    let mut w = String::new();
                    push_char(&mut w, c);
                    Some(w)
                },
            };
        }
        proof {
            assert(string_views(done@) =~= word_scan(name@.take(i + 1)).0);
        }
        i = i + 1;
    }
    proof {
        assert(name@.take(chars@.len() as int) =~= name@);
    }
    match current {
        Some(w) => {
            done.push(w);
        },
        None => {},
    }
    let ghost w = words(name@);
    assert(string_views(done@) =~= w);
    if done.len() < 2 {
        return (None, None);
    }
    let first = done[0].clone();
    let mut rest = done[1].clone();
    let mut j: usize = 2;
    proof {
        assert(w.subrange(1, 2).len() == 1);
    }
    while j < done.len()
        invariant
            string_views(done@) == w,
            2 <= j <= done@.len(),
            rest@ == join_words(w.subrange(1, j as int)),
        decreases done@.len() - j,
    {
        push_char(&mut rest, ' ');
        rest.append(done[j].as_str());
        proof {
            let next = w.subrange(1, j + 1);
            assert(next.drop_last() =~= w.subrange(1, j as int));
            assert(next.last() == done@[j as int]@);
        }
        j = j + 1;
    }
    proof {
        assert(w.subrange(1, done@.len() as int) =~= w.drop_first());
    }
    (Some(first), Some(rest))
}

/// The conversion that the site reports to LinkedIn.
pub open spec fn conversion_urn() -> Seq<char> {
    "urn:lla:llaPartnerConversion:25908476"@
}

/// Whether `info` carries the first name and the rest of `name`, and is
/// present exactly when the name has at least two words.
pub open spec fn user_info_for(info: Option<UserInfo>, name: Seq<char>) -> bool {
    let w = words(name);
    if w.len() < 2 {
        info is None
    } else {
        info matches Some(u) && u.first_name@ == w[0] && u.last_name@ == join_words(w.drop_first())
    }
}

/// Whether a conversion event reports checkout `c` (its time aside).
pub open spec fn reports_conversion(p: ConversionEventPayload, c: CheckoutConversion) -> bool {
    &&& p.conversion@ == conversion_urn()
    &&& p.conversion_value.currency_code@ == "USD"@
    &&& p.conversion_value.amount@ == amount_text(c.total as int)
    &&& p.event_id == c.checkout_session_id
    &&& p.user.user_ids@.len() == (if c.ip_address is Some { 2int } else { 1int })
    &&& p.user.user_ids@[0].id_type@ == "SHA256_EMAIL"@
    &&& p.user.user_ids@[0].id_value@ == email_hash(c.email@)
    &&& (c.ip_address matches Some(ip) ==> p.user.user_ids@[1].id_type@ == "PLAINTEXT_IP_ADDRESS"@
        && p.user.user_ids@[1].id_value == ip)
    &&& user_info_for(p.user.user_info, c.name@)
}

/// The conversion event for checkout `conversion`, which happened at
/// `happened_at` (Unix milliseconds).
pub fn conversion_event_payload(conversion: CheckoutConversion, happened_at: i64) -> (res:
    ConversionEventPayload)
    requires
        conversion.total != i64::MIN,
    ensures
        reports_conversion(res, conversion),
        res.conversion_happened_at == happened_at,
{
    let CheckoutConversion { checkout_session_id, name, email, total, ip_address } = conversion;
    let (first_name, last_name) = split_name(name.as_str());
    let user_info = match (first_name, last_name) {
        (Some(first_name), Some(last_name)) => Some(UserInfo { first_name, last_name }),
        _ => None,
    };
    let mut user_ids: Vec<UserId> = Vec::new();
    user_ids.push(UserId { id_type: "SHA256_EMAIL", id_value: sha256_email(email.as_str()) });
    match ip_address {
        Some(ip_address) => {
            user_ids.push(UserId { id_type: "PLAINTEXT_IP_ADDRESS", id_value: ip_address });
        },
        None => {},
    }
    ConversionEventPayload {
        conversion: "urn:lla:llaPartnerConversion:25908476".to_owned(),
        conversion_happened_at: happened_at,
        conversion_value: ConversionValue {
            currency_code: "USD",
            amount: cents_to_decimal_string(total),
        },
        user: ConversionEventUser { user_ids, user_info },
        event_id: checkout_session_id,
    }
}

/// The conversion event for checkout `conversion`, stamped with the current
/// time.
pub fn checkout_conversion_payload(conversion: CheckoutConversion) -> (res: ConversionEventPayload)
    requires
        conversion.total != i64::MIN,
    ensures
        reports_conversion(res, conversion),
{
    let now: i64 = now_unix_millis();
    conversion_event_payload(conversion, now)
}


/// The amount in cents that a text `[-]<dollars>.<two digits>` denotes, the
/// sign applying to the whole amount.
pub open spec fn decimal_amount_cents(text: Seq<char>) -> Option<int> {
    match split_once_at(text, '.') {
        None => None,
        Some((whole, fraction)) => match signed_decimal_value(whole) {
            None => None,
            Some(dollars) => if fraction.len() == 2 && all_digits(fraction) {
                let f = digits_value(fraction);
                Some(if whole[0] == '-' { dollars * 100 - f } else { dollars * 100 + f })
            } else {
                None
            },
        },
    }
}

/// The amount reported for a conversion denotes the amount paid, for every
/// amount outside the open interval between minus one dollar and zero (where
/// the minus sign is lost: -50 cents reads "0.50").
pub proof fn law_amount_text_denotes_cents(cents: i64)
    requires
        cents != i64::MIN,
        cents >= 0 || cents <= -100,
    ensures
        decimal_amount_cents(amount_text(cents as int)) == Some(cents as int),
{
    let c: int = cents as int;
    let q: int = truncated_hundreds(c);
    let a: int = abs_int(c);
    let whole = int_decimal(q);
    let text = amount_text(c);
    lemma_int_decimal_chars(q);
    lemma_int_decimal_value(q);
    assert forall|k: int| 0 <= k < whole.len() implies text[k] != '.' by {
        assert(text[k] == whole[k]);
    }
    assert(text[whole.len() as int] == '.');
    lemma_first_index_of(text, '.', whole.len() as int);
    assert(text.take(whole.len() as int) =~= whole);
    let fraction = text.skip((whole.len() + 1) as int);
    let d1: int = a % 100 / 10;
    let d2: int = a % 10;
    assert(digit_value(digit_char(d1 as nat)) == d1);
    assert(digit_value(digit_char(d2 as nat)) == d2);
    assert(fraction =~= seq![digit_char(d1 as nat), digit_char(d2 as nat)]);
    assert(fraction.drop_last() =~= seq![digit_char(d1 as nat)]);
    assert(seq![digit_char(d1 as nat)].drop_last() =~= Seq::<char>::empty());
    let f1 = seq![digit_char(d1 as nat)];
    assert(digits_value(Seq::<char>::empty()) == 0);
    assert(digits_value(f1) == digits_value(f1.drop_last()) * 10 + digit_value(f1.last()));
    assert(digits_value(f1) == d1);
    assert(fraction.last() == digit_char(d2 as nat));
    assert(digits_value(fraction) == digits_value(fraction.drop_last()) * 10 + digit_value(
        fraction.last(),
    ));
    assert(digits_value(fraction) == d1 * 10 + d2);
    assert(d1 * 10 + d2 == a % 100) by (nonlinear_arith)
        requires
            d1 == a % 100 / 10,
            d2 == a % 10,
            a >= 0,
    ;
    if c >= 0 {
        assert(q * 100 + a % 100 == c) by (nonlinear_arith)
            requires
                q == c / 100,
                a == c,
                c >= 0,
        ;
    } else {
        assert(q < 0) by (nonlinear_arith)
            requires
                q == -((-c) / 100),
                c <= -100,
        ;
        assert(q * 100 - a % 100 == c) by (nonlinear_arith)
            requires
                q == -((-c) / 100),
                a == -c,
                c < 0,
        ;
    }
}

/// Splitting a name loses none of its words: the first name, a space and the
/// last name give the name's words joined by single spaces.
pub proof fn law_split_name_keeps_words(name: Seq<char>, res: (Option<String>, Option<String>))
    requires
        name_parts(name, res),
        words(name).len() >= 2,
    ensures
        res.0.unwrap()@ + seq![' '] + res.1.unwrap()@ == join_words(words(name)),
{
    lemma_join_words_first(words(name));
}

/// Two optional texts that are both absent or both present with the same
/// characters.
pub open spec fn same_optional_text(a: Option<String>, b: Option<String>) -> bool {
    match (a, b) {
        (None, None) => true,
        (Some(x), Some(y)) => x@ == y@,
        _ => false,
    }
}

/// Two conversion events that send the same request body: every field holds
/// the same text or number.
pub open spec fn same_report(p1: ConversionEventPayload, p2: ConversionEventPayload) -> bool {
    &&& p1.conversion@ == p2.conversion@
    &&& p1.conversion_happened_at == p2.conversion_happened_at
    &&& p1.conversion_value.currency_code@ == p2.conversion_value.currency_code@
    &&& p1.conversion_value.amount@ == p2.conversion_value.amount@
    &&& p1.event_id@ == p2.event_id@
    &&& p1.user.user_ids@.len() == p2.user.user_ids@.len()
    &&& forall|k: int|
        0 <= k < p1.user.user_ids@.len() ==> (#[trigger] p1.user.user_ids@[k]).id_type@
            == p2.user.user_ids@[k].id_type@ && p1.user.user_ids@[k].id_value@
            == p2.user.user_ids@[k].id_value@
    &&& match (p1.user.user_info, p2.user.user_info) {
        (None, None) => true,
        (Some(u1), Some(u2)) => u1.first_name@ == u2.first_name@ && u1.last_name@
            == u2.last_name@,
        _ => false,
    }
}

/// Addresses that differ only in whitespace and letter case hash alike.
pub proof fn law_email_hash_ignores_spacing_and_case(a: Seq<char>, b: Seq<char>)
    requires
        normalized_email(a) == normalized_email(b),
    ensures
        email_hash(a) == email_hash(b),
{
}

/// The plain e-mail address never reaches the report: two checkouts that
/// differ only in addresses that normalize alike, reported at the same time,
/// give the same event.
pub proof fn law_report_depends_on_normalized_email_only(
    p1: ConversionEventPayload,
    c1: CheckoutConversion,
    p2: ConversionEventPayload,
    c2: CheckoutConversion,
)
    requires
        reports_conversion(p1, c1),
        reports_conversion(p2, c2),
        p1.conversion_happened_at == p2.conversion_happened_at,
        c1.checkout_session_id@ == c2.checkout_session_id@,
        c1.name@ == c2.name@,
        c1.total == c2.total,
        same_optional_text(c1.ip_address, c2.ip_address),
        normalized_email(c1.email@) == normalized_email(c2.email@),
    ensures
        same_report(p1, p2),
{
    assert forall|k: int| 0 <= k < p1.user.user_ids@.len() implies (
    #[trigger] p1.user.user_ids@[k]).id_type@ == p2.user.user_ids@[k].id_type@
        && p1.user.user_ids@[k].id_value@ == p2.user.user_ids@[k].id_value@ by {
        if k == 1 {
            match (c1.ip_address, c2.ip_address) {
                (Some(i1), Some(i2)) => {
                    assert(p1.user.user_ids@[1].id_value == i1);
                    assert(p2.user.user_ids@[1].id_value == i2);
                },
                _ => {},
            }
        }
    }
}

/// Whether `w` is a word: at least one character, none of them whitespace.
pub open spec fn is_word(w: Seq<char>) -> bool {
    w.len() > 0 && forall|k: int| 0 <= k < w.len() ==> !unicode_whitespace(#[trigger] w[k])
}

proof fn lemma_word_scan_words(s: Seq<char>)
    ensures
        forall|i: int| 0 <= i < word_scan(s).0.len() ==> is_word(#[trigger] word_scan(s).0[i]),
        word_scan(s).1 matches Some(w) ==> is_word(w),
    decreases s.len(),
{
    if s.len() > 0 {
        lemma_word_scan_words(s.drop_last());
        let (done, current) = word_scan(s.drop_last());
        let c = s.last();
        if unicode_whitespace(c) {
            match current {
                Some(w) => {
                    assert forall|i: int| 0 <= i < done.push(w).len() implies is_word(
                        #[trigger] done.push(w)[i],
                    ) by {
                        if i < done.len() {
                            assert(done.push(w)[i] == done[i]);
                        }
                    }
                },
                None => {},
            }
        } else {
            match current {
                Some(w) => {
                    assert forall|k: int| 0 <= k < w.push(c).len() implies !unicode_whitespace(
                        #[trigger] w.push(c)[k],
                    ) by {
                        if k < w.len() {
                            assert(w.push(c)[k] == w[k]);
                        }
                    }
                },
                None => {
                    assert(seq![c][0] == c);
                },
            }
        }
    }
}

/// Every word of a text has at least one character and no whitespace.
pub proof fn law_words_are_whitespace_free(s: Seq<char>)
    ensures
        forall|i: int| 0 <= i < words(s).len() ==> is_word(#[trigger] words(s)[i]),
{
    lemma_word_scan_words(s);
    let (done, current) = word_scan(s);
    match current {
        Some(w) => {
            assert forall|i: int| 0 <= i < done.push(w).len() implies is_word(
                #[trigger] done.push(w)[i],
            ) by {
                if i < done.len() {
                    assert(done.push(w)[i] == done[i]);
                }
            }
        },
        None => {},
    }
}

/// A name splits after its first word: with two or more words, the first name
/// is the first word, a run of non-whitespace characters, and the last name the
/// other words in order, joined by single spaces; with fewer, there are no
/// parts at all.
pub proof fn law_first_name_is_the_first_word(name: Seq<char>, res: (Option<String>, Option<String>))
    requires
        name_parts(name, res),
    ensures
        words(name).len() >= 2 ==> {
            &&& res.0 matches Some(first) && first@ == words(name)[0] && is_word(first@)
            &&& res.1 matches Some(last) && last@ == join_words(words(name).subrange(
                1,
                words(name).len() as int,
            ))
        },
        words(name).len() < 2 ==> res.0 is None && res.1 is None,
{
    law_words_are_whitespace_free(name);
    let w = words(name);
    if w.len() >= 2 {
        assert(is_word(w[0]));
        assert(w.subrange(1, w.len() as int) =~= w.drop_first());
    }
}

/// The conversion event names the buyer by the first word of the checkout's
/// name and the rest of its words, and carries no name for a name of fewer
/// than two words.
pub proof fn law_report_names_the_buyer_by_first_word(p: ConversionEventPayload, c: CheckoutConversion)
    requires
        reports_conversion(p, c),
    ensures
        words(c.name@).len() >= 2 ==> (p.user.user_info matches Some(u) && u.first_name@ == words(
            c.name@,
        )[0] && u.last_name@ == join_words(words(c.name@).subrange(1, words(c.name@).len() as int))),
        words(c.name@).len() < 2 ==> p.user.user_info is None,
{
    let w = words(c.name@);
    if w.len() >= 2 {
        assert(w.subrange(1, w.len() as int) =~= w.drop_first());
    }
}

} // verus!
