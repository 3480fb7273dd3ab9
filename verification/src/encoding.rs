//! Text encodings that outside crates compute: percent-encoding, Base64 and
//! the query string of a URL.
use vstd::prelude::*;
use vstd::string::StringSliceAdditionalSpecFns;
use crate::text::pair_views;

verus! {

/// The longest text, in characters, that is handed to an encoder: the
/// encoded form of a few such texts then has a length that fits 32 bits.
pub const MAX_ENCODED_CHARS: usize = 0x1000000;

/// Whether a byte stands for itself in percent-encoding: a letter or a
/// digit of ASCII, or one of `-`, `.`, `_` and `~`.
pub open spec fn is_unreserved(b: u8) -> bool {
    ||| 0x30 <= b <= 0x39
    ||| 0x41 <= b <= 0x5a
    ||| 0x61 <= b <= 0x7a
    ||| b == 0x2d
    ||| b == 0x2e
    ||| b == 0x5f
    ||| b == 0x7e
}

/// The hexadecimal digit for a value below 16, in upper case.
pub open spec fn hex_digit(d: u8) -> char {
    if d < 10 {
        (0x30 + d) as char
    } else {
        (0x37 + d) as char
    }
}

/// The percent-encoding of bytes: an unreserved byte as itself, any other
/// as `%` and its two hexadecimal digits.
pub open spec fn percent_encoded(bytes: Seq<u8>) -> Seq<char>
    decreases bytes.len(),
{
    if bytes.len() == 0 {
        Seq::empty()
    } else {
        let b = bytes.last();
        percent_encoded(bytes.drop_last()) + (if is_unreserved(b) {
            seq![b as char]
        } else {
            seq!['%', hex_digit(b / 16), hex_digit(b % 16)]
        })
    }
}

/// Percent-encodes the UTF-8 bytes of a text with `urlencoding::encode`.
///
/// Trusted: the crate keeps letters and digits of ASCII and `-`, `.`, `_`,
/// `~`, and writes every other byte as `%` and two upper-case hexadecimal
/// digits.
#[verifier::external_body]
pub(crate) fn url_encode(text: &str) -> (r: String)
    ensures
        r@ == percent_encoded(text.spec_bytes()),
{
    urlencoding::encode(text).into_owned()
}

/// What the standard Base64 engine of the `base64` crate, with padding,
/// returns for bytes.
pub uninterp spec fn base64_standard(bytes: Seq<u8>) -> Seq<char>;

/// Encodes the UTF-8 bytes of a text with
/// `base64::engine::general_purpose::STANDARD.encode`.
///
/// Trusted: the result is the crate's encoding of those bytes. The bound
/// keeps the length of the result within `usize`, beyond which the crate
/// panics.
#[verifier::external_body]
pub(crate) fn base64_encode(text: &str) -> (r: String)
    requires
        text@.len() <= MAX_ENCODED_CHARS,
    ensures
        r@ == base64_standard(text.spec_bytes()),
{
    base64::Engine::encode(&base64::engine::general_purpose::STANDARD, text)
}

/// The error of `url::Url::parse`.
#[verifier::external_type_specification]
#[verifier::external_body]
pub struct ExUrlParseError(url::ParseError);

/// The most pairs that are added to the query of a URL at once.
pub const MAX_QUERY_PAIRS: usize = 8;

/// What `url::Url::parse_with_params` gives for a text and pairs of names
/// and values, as text: the URL with the pairs added to its query, or
/// `None` where the text does not parse as an absolute URL.
pub uninterp spec fn url_with_params(url: Seq<char>, pairs: Seq<(Seq<char>, Seq<char>)>) -> Option<
    Seq<char>,
>;

/// Whether a URL and pairs are short enough to be handed to the `url`
/// crate: at most `MAX_QUERY_PAIRS` pairs, and no text longer than
/// `MAX_ENCODED_CHARS`.
pub open spec fn query_fits(url: Seq<char>, pairs: Seq<(Seq<char>, Seq<char>)>) -> bool {
    &&& url.len() <= MAX_ENCODED_CHARS
    &&& pairs.len() <= MAX_QUERY_PAIRS
    &&& forall|i: int|
        0 <= i < pairs.len() ==> (#[trigger] pairs[i]).0.len() <= MAX_ENCODED_CHARS
            && pairs[i].1.len() <= MAX_ENCODED_CHARS
}

/// Parses `url` and adds the pairs to its query with
/// `url::Url::parse_with_params`, and returns the URL as text.
///
/// Trusted: the call fails exactly where the crate rejects `url`, and
/// otherwise returns the text of the URL that the crate builds. The bounds
/// keep every position within 32 bits, beyond which the crate panics.
#[verifier::external_body]
pub(crate) fn parse_with_params(url: &str, pairs: &Vec<(String, String)>) -> (r: Result<
    String,
    url::ParseError,
>)
    requires
        query_fits(url@, pair_views(pairs@)),
    ensures
        match r {
            Ok(text) => url_with_params(url@, pair_views(pairs@)) == Some(text@),
            Err(_) => url_with_params(url@, pair_views(pairs@)) is None,
        },
{
    Ok(String::from(url::Url::parse_with_params(url, pairs)?))
}

} // verus!
