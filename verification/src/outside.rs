//! The calls that the library makes into outside crates, each behind the contract it relies on.

use vstd::prelude::*;
use vstd::string::*;
use vstd::utf8::encode_utf8;

use crate::text::digit_char;

verus! {

/// Whether `serde_json` accepts `text` as one JSON value.
pub uninterp spec fn json_text_parses(text: Seq<char>) -> bool;

/// Calls `serde_json::from_str::<serde_json::Value>` and tells whether it succeeded.
/// Whether a text parses depends on the text alone; which texts do (JSON as RFC 8259
/// defines it, nested at most 128 levels deep) is left to the name `json_text_parses`.
#[verifier::external_body]
pub(crate) fn json_parses(text: &str) -> (r: bool)
    ensures
        r == json_text_parses(text@),
{
    serde_json::from_str::<serde_json::Value>(text).is_ok()
}

/// The bytes that `urlencoding` leaves as they are: ASCII letters and digits, `-`, `.`,
/// `_` and `~`.
pub open spec fn is_unreserved_byte(b: u8) -> bool {
    ||| 0x30 <= b <= 0x39
    ||| 0x41 <= b <= 0x5A
    ||| 0x61 <= b <= 0x7A
    ||| b == 0x2D
    ||| b == 0x2E
    ||| b == 0x5F
    ||| b == 0x7E
}

/// The upper-case hexadecimal digit for `d < 16`.
pub open spec fn hex_digit_upper(d: u8) -> char {
    if d < 10 {
        digit_char(d as nat)
    } else if d == 10 {
        'A'
    } else if d == 11 {
        'B'
    } else if d == 12 {
        'C'
    } else if d == 13 {
        'D'
    } else if d == 14 {
        'E'
    } else {
        'F'
    }
}

/// Percent-encoding of a byte sequence: an unreserved byte stands for itself, any other
/// byte becomes `%` and its two upper-case hexadecimal digits.
pub open spec fn percent_encoded(bytes: Seq<u8>) -> Seq<char>
    decreases bytes.len(),
{
    if bytes.len() == 0 {
        Seq::empty()
    } else {
        let b = bytes[0];
        (if is_unreserved_byte(b) {
            seq![b as char]
        } else {
            seq!['%', hex_digit_upper(b / 16), hex_digit_upper(b % 16)]
        }) + percent_encoded(bytes.drop_first())
    }
}

/// Calls `urlencoding::encode`, which percent-encodes the UTF-8 bytes of `s`, every byte
/// but the unreserved ones.
#[verifier::external_body]
pub(crate) fn url_encode(s: &str) -> (r: String)
    ensures
        r@ == percent_encoded(s.spec_bytes()),
{
    urlencoding::encode(s).into_owned()
}

/// What `url::Url::parse` gives for `input`: the serialization of the URL, or the text of
/// the parse error.
pub uninterp spec fn url_parse_outcome(input: Seq<char>) -> Result<Seq<char>, Seq<char>>;

/// Calls `url::Url::parse`, and hands back the URL's serialization (`as_str`) or the
/// error's text (`to_string`). Both depend on `input` alone; the URL standard that decides
/// them is left to the name `url_parse_outcome`.
#[verifier::external_body]
pub(crate) fn url_parse(input: &str) -> (r: Result<String, String>)
    ensures
        match r {
            Ok(u) => url_parse_outcome(input@) == Ok::<Seq<char>, Seq<char>>(u@),
            Err(e) => url_parse_outcome(input@) == Err::<Seq<char>, Seq<char>>(e@),
        },
{
    match url::Url::parse(input) {
        Ok(u) => Ok(u.as_str().to_string()),
        Err(e) => Err(e.to_string()),
    }
}

/// The serialization of the URL that `url::Url::parse(input)` gives, after
/// `url::Url::set_path(path)`.
pub uninterp spec fn url_with_path(input: Seq<char>, path: Seq<char>) -> Seq<char>;

/// Parses `input` (known to parse) with `url::Url::parse`, calls `url::Url::set_path`
/// on it, and hands back the serialization. The query and fragment stay; how the new path
/// is normalized and escaped is left to the name `url_with_path`. `set_path` panics when
/// the serialization up to the new path reaches 2^32 bytes; each character of the path
/// takes at most 12 bytes and a `/` may be added, so the bound below rules that out.
#[verifier::external_body]
pub(crate) fn url_set_path(input: &str, path: &str) -> (r: String)
    requires
        url_parse_outcome(input@) matches Ok(u) && encode_utf8(u).len() + 12 * path@.len() + 1
            < 0x1_0000_0000,
    ensures
        r@ == url_with_path(input@, path@),
{
    let mut u = url::Url::parse(input).unwrap();
    u.set_path(path);
    u.as_str().to_string()
}

} // verus!
