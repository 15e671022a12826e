//! Checks on the texts that go into a request, made by the HTTP client
//! library itself, so that what is accepted here is what it will accept.

use vstd::prelude::*;
use vstd::utf8::{decode_utf8, encode_utf8, valid_utf8};

verus! {

/// Whether a text parses as an absolute URL.
pub uninterp spec fn url_parses(text: Seq<char>) -> bool;

/// Whether a text can be the name of an HTTP header.
pub uninterp spec fn header_name_parses(name: Seq<char>) -> bool;

/// Whether a byte may occur in the value of an HTTP header: anything but the
/// control characters, of which only the tab is let through.
pub open spec fn header_value_byte(byte: u8) -> bool {
    (byte >= 32 && byte != 127) || byte == 9
}

/// Whether a text can be the value of an HTTP header: each of its bytes may
/// occur there.
pub open spec fn header_value_parses(value: Seq<char>) -> bool {
    forall|i: int|
        0 <= i < encode_utf8(value).len() ==> header_value_byte(#[trigger] encode_utf8(value)[i])
}

/// Calls `reqwest::Url::parse` and reports whether it accepted the text.
/// Trusted: that the answer depends on the text alone.
#[verifier::external_body]
pub(crate) fn uri_is_valid(text: &str) -> (valid: bool)
    ensures
        valid == url_parses(text@),
{
    reqwest::Url::parse(text).is_ok()
}

/// Calls `reqwest::header::HeaderName::from_bytes` on the bytes of the text
/// and reports whether it accepted them. Trusted: that the answer depends on
/// the text alone.
#[verifier::external_body]
pub(crate) fn header_name_is_valid(name: &str) -> (valid: bool)
    ensures
        valid == header_name_parses(name@),
{
    reqwest::header::HeaderName::from_bytes(name.as_bytes()).is_ok()
}

/// Calls `reqwest::header::HeaderValue::from_str` and reports whether it
/// accepted the text. Trusted: that it accepts a text exactly when none of
/// its bytes is a control character other than the tab.
#[verifier::external_body]
pub(crate) fn header_value_is_valid(value: &str) -> (valid: bool)
    ensures
        valid == header_value_parses(value@),
{
    reqwest::header::HeaderValue::from_str(value).is_ok()
}

/// Calls `std::str::from_utf8`. Trusted: that it gives a text exactly when
/// the bytes are valid UTF-8, and that the text is then what the bytes
/// encode.
#[verifier::external_body]
pub(crate) fn utf8_text(bytes: &[u8]) -> (text: Option<&str>)
    ensures
        match text {
            Some(text) => valid_utf8(bytes@) && text@ == decode_utf8(bytes@),
            None => !valid_utf8(bytes@),
        },
{
    std::str::from_utf8(bytes).ok()
}

} // verus!
