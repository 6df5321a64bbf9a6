//! SHA-256, HMAC-SHA256 and hexadecimal coding, as the `sha2`, `hmac` and `hex`
//! crates provide them.

use hmac::{Hmac, Mac};
use sha2::{Digest, Sha256};
use vstd::prelude::*;
use vstd::utf8::{encode_utf8, is_ascii_chars, is_ascii_chars_encode_utf8};

verus! {

/// The SHA-256 digest of a byte string.
pub uninterp spec fn sha256(data: Seq<u8>) -> Seq<u8>;

/// The 64-byte key block of HMAC over SHA-256: the key itself when it has at
/// most 64 bytes, else its SHA-256 digest, padded with zero bytes.
pub open spec fn hmac_key_block(key: Seq<u8>) -> Seq<u8> {
    let k = if key.len() <= 64 {
        key
    } else {
        sha256(key)
    };
    Seq::new(64, |i: int| if i < k.len() { k[i] } else { 0u8 })
}

/// Each byte of `block` combined by exclusive or with `pad`.
pub open spec fn xor_with(block: Seq<u8>, pad: u8) -> Seq<u8> {
    Seq::new(block.len(), |i: int| block[i] ^ pad)
}

/// The HMAC-SHA256 tag of `message` under `key` (RFC 2104): the digest of the
/// key block masked with 0x5c, followed by the digest of the key block masked
/// with 0x36 and the message.
pub open spec fn hmac_sha256(key: Seq<u8>, message: Seq<u8>) -> Seq<u8> {
    let k = hmac_key_block(key);
    sha256(xor_with(k, 0x5cu8) + sha256(xor_with(k, 0x36u8) + message))
}

/// `sha2::Sha256::digest`: the result is the SHA-256 digest of `data`, which
/// the crate's output size fixes at 32 bytes.
#[verifier::external_body]
pub(crate) fn sha256_digest(data: &[u8]) -> (res: Vec<u8>)
    ensures
        res@ == sha256(data@),
        res@.len() == 32,
{
    Sha256::digest(data).to_vec()
}

/// `hmac::Hmac::<Sha256>` used through its `Mac` interface: `new_from_slice`
/// with `key`, `update` with `message`, then `verify_slice` against `tag` (the
/// crate's constant-time comparison). The contract claims that the result is
/// `Some` (the crate's `HmacCore::new_from_slice` accepts keys of every length)
/// and that it holds whether `tag` equals the HMAC-SHA256 tag of `message`, as
/// `hmac_sha256` defines it over the SHA-256 digest (the crate's `get_der_key`
/// builds the key block, `IPAD` and `OPAD` are 0x36 and 0x5c).
#[verifier::external_body]
pub(crate) fn hmac_sha256_verify(key: &[u8], message: &[u8], tag: &[u8]) -> (res: Option<bool>)
    ensures
        res is Some,
        res matches Some(valid) ==> valid == (tag@ == hmac_sha256(key@, message@)),
{
    let mut mac = Hmac::<Sha256>::new_from_slice(key).ok()?;
    mac.update(message);
    Some(mac.verify_slice(tag).is_ok())
}

/// The value of one hexadecimal digit byte, upper or lower case.
pub open spec fn hex_digit_value(b: u8) -> Option<int> {
    if 48 <= b <= 57 {
        Some(b - 48)
    } else if 97 <= b <= 102 {
        Some(b - 97 + 10)
    } else if 65 <= b <= 70 {
        Some(b - 65 + 10)
    } else {
        None
    }
}

/// The bytes that a hexadecimal text denotes, two digits per byte, high digit
/// first; `None` when the length is odd or a byte is not a hex digit.
pub open spec fn hex_decode_bytes(text: Seq<u8>) -> Option<Seq<u8>>
    decreases text.len(),
{
    if text.len() % 2 == 1 {
        None
    } else if text.len() == 0 {
        Some(Seq::empty())
    } else {
        match (hex_digit_value(text[0]), hex_digit_value(text[1]), hex_decode_bytes(text.skip(2))) {
            (Some(high), Some(low), Some(rest)) => Some(seq![(high * 16 + low) as u8] + rest),
            _ => None,
        }
    }
}

/// The lower-case hexadecimal digit for a value below sixteen.
pub open spec fn hex_char(v: int) -> char {
    if v < 10 {
        ((48 + v) as u8) as char
    } else {
        ((87 + v) as u8) as char
    }
}

/// Lower-case hexadecimal text of a byte string, two digits per byte.
pub open spec fn hex_lower(data: Seq<u8>) -> Seq<char>
    decreases data.len(),
{
    if data.len() == 0 {
        Seq::empty()
    } else {
        seq![hex_char((data[0] / 16) as int), hex_char((data[0] % 16) as int)] + hex_lower(
            data.drop_first(),
        )
    }
}

/// Each character of `hex_lower(data)` is a lower-case hexadecimal digit, and
/// the text holds two of them per byte.
pub proof fn lemma_hex_lower_chars(data: Seq<u8>)
    ensures
        hex_lower(data).len() == 2 * data.len(),
        forall|k: int|
            0 <= k < hex_lower(data).len() ==> {
                let c = #[trigger] hex_lower(data)[k];
                ('0' <= c <= '9') || ('a' <= c <= 'f')
            },
    decreases data.len(),
{
    if data.len() > 0 {
        lemma_hex_lower_chars(data.drop_first());
        let h = hex_lower(data);
        let rest = hex_lower(data.drop_first());
        assert forall|k: int| 0 <= k < h.len() implies {
            let c = #[trigger] h[k];
            ('0' <= c <= '9') || ('a' <= c <= 'f')
        } by {
            if k >= 2 {
                assert(h[k] == rest[k - 2]);
            }
        }
    }
}

/// Decoding the UTF-8 bytes of `hex_lower(data)` gives `data` back.
pub proof fn lemma_hex_roundtrip(data: Seq<u8>)
    ensures
        hex_decode_bytes(encode_utf8(hex_lower(data))) == Some(data),
    decreases data.len(),
{
    let h = hex_lower(data);
    lemma_hex_lower_chars(data);
    assert(is_ascii_chars(h));
    is_ascii_chars_encode_utf8(h);
    let bytes = encode_utf8(h);
    if data.len() > 0 {
        let rest = hex_lower(data.drop_first());
        lemma_hex_lower_chars(data.drop_first());
        assert(is_ascii_chars(rest));
        is_ascii_chars_encode_utf8(rest);
        lemma_hex_roundtrip(data.drop_first());
        assert(bytes.skip(2) =~= encode_utf8(rest)) by {
            assert forall|k: int| 0 <= k < bytes.skip(2).len() implies bytes.skip(2)[k] == encode_utf8(
                rest,
            )[k] by {
                assert(h[k + 2] == rest[k]);
            }
        }
        let b: u8 = data[0];
        let high: int = (b / 16) as int;
        let low: int = (b % 16) as int;
        assert(bytes[0] == h[0] as u8);
        assert(bytes[1] == h[1] as u8);
        assert(hex_digit_value(bytes[0]) == Some(high));
        assert(hex_digit_value(bytes[1]) == Some(low));
        assert((high * 16 + low) as u8 == b);
        assert(seq![b] + data.drop_first() =~= data);
    } else {
        assert(bytes.len() == 0);
    }
}

/// `hex::decode` of the UTF-8 bytes of `text`: the crate rejects odd lengths and
/// bytes outside `0-9a-fA-F`, and otherwise pairs digits into bytes. The
/// contract states exactly that, over `hex_decode_bytes`.
#[verifier::external_body]
pub(crate) fn hex_decode(text: &str) -> (res: Option<Vec<u8>>)
    ensures
        match res {
            Some(bytes) => hex_decode_bytes(encode_utf8(text@)) == Some(bytes@),
            None => hex_decode_bytes(encode_utf8(text@)) is None,
        },
{
    hex::decode(text).ok()
}

/// `hex::encode`: lower-case hexadecimal text, two digits per byte, high digit
/// first (the crate's `HEX_CHARS_LOWER` table).
#[verifier::external_body]
pub(crate) fn hex_encode(data: &[u8]) -> (res: String)
    ensures
        res@ == hex_lower(data@),
{
    hex::encode(data)
}

} // verus!
