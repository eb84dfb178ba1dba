//! The two headers that a transfer deals in: the byte range that it asks
//! for, and the length that the server declares.

use vstd::prelude::*;
use vstd::string::StringExecFns;
use vstd::string::StringSliceAdditionalSpecFns;
use vstd::utf8::encode_utf8;
use vstd::utf8::is_ascii_chars;
use vstd::utf8::is_ascii_chars_encode_utf8;
use reqwest::header::HeaderValue;
use reqwest::header::InvalidHeaderValue;
use reqwest::header::ToStrError;
use crate::decimal::append_decimal;
use crate::decimal::decimal;
use crate::decimal::parse_decimal;
use crate::decimal::parsed;
use crate::errors::Error;

verus! {

/// The value of an HTTP header, as the `http` crate holds it.
#[verifier::external_type_specification]
#[verifier::external_body]
pub struct ExHeaderValue(HeaderValue);

/// What `HeaderValue::to_str` returns for a value that is not text.
#[verifier::external_type_specification]
#[verifier::external_body]
pub struct ExToStrError(ToStrError);

/// The bytes that a header value holds.
pub uninterp spec fn header_bytes(value: HeaderValue) -> Seq<u8>;

/// The bytes that a header value may hold: anything but control characters,
/// the tab excepted.
pub open spec fn is_header_byte(b: u8) -> bool {
    (b >= 32 && b != 127) || b == 9
}

/// The bytes that a header value shows as text: printable ASCII and the tab.
pub open spec fn is_visible_ascii(b: u8) -> bool {
    (32 <= b < 127) || b == 9
}

/// `HeaderValue::from_str` copies the text's bytes into a header value, and
/// refuses the text exactly where one of its bytes is no header byte.
pub assume_specification[ HeaderValue::from_str ](src: &str) -> (res: Result<
    HeaderValue,
    InvalidHeaderValue,
>)
    ensures
        res is Ok <==> forall|i: int|
            0 <= i < src.spec_bytes().len() ==> is_header_byte(#[trigger] src.spec_bytes()[i]),
        res is Ok ==> header_bytes(res->Ok_0) == src.spec_bytes(),
;

/// `HeaderValue::to_str` hands the value's bytes out as text, and refuses
/// exactly where one of them is not visible ASCII.
pub assume_specification<'a>[ HeaderValue::to_str ](value: &'a HeaderValue) -> (res: Result<
    &'a str,
    ToStrError,
>)
    ensures
        res is Ok <==> forall|i: int|
            0 <= i < header_bytes(*value).len() ==> is_visible_ascii(
                #[trigger] header_bytes(*value)[i],
            ),
        res is Ok ==> res->Ok_0.spec_bytes() == header_bytes(*value),
;

/// The text of a byte range that starts at `offset` and has no end.
pub open spec fn range_text(offset: u64) -> Seq<char> {
    seq!['b', 'y', 't', 'e', 's', '='] + decimal(offset as nat) + seq!['-']
}

/// A decimal numeral is ASCII, and each of its bytes is a header byte.
pub proof fn lemma_decimal_ascii(n: nat)
    ensures
        is_ascii_chars(decimal(n)),
        forall|i: int| 0 <= i < decimal(n).len() ==> is_header_byte(#[trigger] decimal(n)[i] as u8),
    decreases n,
{
    if n >= 10 {
        lemma_decimal_ascii(n / 10);
    }
}

/// The `Range` header for everything from `offset` on: `bytes=<offset>-`.
/// No offset gives text that a header refuses, so this never fails.
pub fn range_header(offset: u64) -> (res: Result<HeaderValue, Error>)
    ensures
        res is Ok,
        header_bytes(res->Ok_0) == encode_utf8(range_text(offset)),
{
    proof {
        reveal_strlit("bytes=");
        reveal_strlit("-");
    }
    let mut text = String::from_str("bytes=");
    append_decimal(&mut text, offset as u128);
    text.append("-");
    proof {
        assert(text@ =~= range_text(offset));
        lemma_decimal_ascii(offset as nat);
        assert(is_ascii_chars(text@));
        is_ascii_chars_encode_utf8(text@);
        assert forall|i: int| 0 <= i < encode_utf8(text@).len() implies is_header_byte(
            #[trigger] encode_utf8(text@)[i],
        ) by {
            assert(encode_utf8(text@)[i] == text@[i] as u8);
            if 6 <= i < 6 + decimal(offset as nat).len() {
                assert(text@[i] == decimal(offset as nat)[i - 6]);
            }
        }
    }
    match HeaderValue::from_str(text.as_str()) {
        Ok(value) => Ok(value),
        Err(e) => Err(Error::InvalidHeaderValue(e)),
    }
}

/// The length that a `Content-Length` header declares: its number where its
/// bytes are a decimal numeral that fits 64 bits, and 0 otherwise.
pub open spec fn declared_length(bytes: Seq<u8>) -> u64 {
    match parsed(bytes) {
        Some(n) => n,
        None => 0,
    }
}

/// The size that a response declares for its body, read from its
/// `Content-Length` header: 0 where the header is absent, is not text, or is
/// no number of 64 bits.
pub fn get_file_size(content_length: Option<&HeaderValue>) -> (size: u64)
    ensures
        size == match content_length {
            Some(value) => declared_length(header_bytes(*value)),
            None => 0,
        },
{
    match content_length {
        None => 0,
        Some(value) => match value.to_str() {
            Ok(text) => match parse_decimal(text.as_bytes()) {
                Some(n) => n,
                None => 0,
            },
            Err(_) => {
                proof {
                    if parsed(header_bytes(*value)) is Some {
                        lemma_numeral_is_visible(header_bytes(*value));
                    }
                }
                0
            },
        },
    }
}

/// Bytes that write a number are all visible ASCII.
pub proof fn lemma_numeral_is_visible(bytes: Seq<u8>)
    requires
        parsed(bytes) is Some,
    ensures
        forall|i: int| 0 <= i < bytes.len() ==> is_visible_ascii(#[trigger] bytes[i]),
{
    let d = crate::decimal::unsigned_part(bytes);
    assert forall|i: int| 0 <= i < bytes.len() implies is_visible_ascii(#[trigger] bytes[i]) by {
        if bytes[0] == 43 {
            if i > 0 {
                assert(bytes[i] == d[i - 1]);
            }
        } else {
            assert(bytes[i] == d[i]);
        }
    }
}

} // verus!
