//! Absolute URLs taken apart.

use vstd::prelude::*;

verus! {

/// Makes `url::ParseError` known: why a text is no absolute URL.
#[verifier::external_type_specification]
#[verifier::external_body]
pub struct ExParseError(::url::ParseError);

/// The parts of an absolute URL that requests are signed over.
pub struct UrlParts {
    /// The path, percent-encoded, starting with `/` for URLs with a host.
    pub path: String,
    /// The query string without its `?`, if the URL has one.
    pub query: Option<String>,
    /// The host, if the URL has one.
    pub host: Option<String>,
    /// The port, if the URL names one that is not its scheme's default.
    pub port: Option<u16>,
}

/// The mathematical value of [`UrlParts`].
pub struct Parts {
    pub path: Seq<char>,
    pub query: Option<Seq<char>>,
    pub host: Option<Seq<char>>,
    pub port: Option<u16>,
}

impl View for UrlParts {
    type V = Parts;

    open spec fn view(&self) -> Parts {
        Parts {
            path: self.path@,
            query: match self.query {
                Some(q) => Some(q@),
                None => None,
            },
            host: match self.host {
                Some(h) => Some(h@),
                None => None,
            },
            port: self.port,
        }
    }
}

/// The parts of the absolute URL that `text` is, if it is one.
pub uninterp spec fn url_parts(text: Seq<char>) -> Option<Parts>;

/// Whether `text` is an absolute URL.
pub open spec fn is_url(text: Seq<char>) -> bool {
    url_parts(text) is Some
}

/// Calls `Url::parse` of the `url` crate and copies out what `Url::path`,
/// `Url::query`, `Url::host_str` and `Url::port` give. What a text parses to
/// is named [`url_parts`].
#[verifier::external_body]
pub(crate) fn parse(text: &str) -> (r: Result<UrlParts, ::url::ParseError>)
    ensures
        match r {
            Ok(parts) => url_parts(text@) == Some(parts@),
            Err(_) => url_parts(text@) is None,
        },
{
    let url = ::url::Url::parse(text)?;
    Ok(
        UrlParts {
            path: url.path().to_owned(),
            query: url.query().map(str::to_owned),
            host: url.host_str().map(str::to_owned),
            port: url.port(),
        },
    )
}

/// Whether a byte stands for itself in the `application/x-www-form-urlencoded`
/// form: a letter, a digit, `*`, `-`, `.` or `_`.
pub open spec fn stands_for_itself(byte: u8) -> bool {
    ||| byte == 0x2a
    ||| byte == 0x2d
    ||| byte == 0x2e
    ||| byte == 0x5f
    ||| 0x30 <= byte <= 0x39
    ||| 0x41 <= byte <= 0x5a
    ||| 0x61 <= byte <= 0x7a
}

/// The hexadecimal digit for a number below sixteen, in upper case.
pub open spec fn hex_digit(n: u8) -> char {
    if n < 10 {
        (0x30 + n) as u8 as char
    } else {
        (0x37 + n) as u8 as char
    }
}

/// The `application/x-www-form-urlencoded` form of one byte: itself where
/// it stands for itself, `+` for a space, and otherwise `%` and its two
/// hexadecimal digits.
pub open spec fn form_encoded_byte(byte: u8) -> Seq<char> {
    if stands_for_itself(byte) {
        seq![byte as char]
    } else if byte == 0x20 {
        seq!['+']
    } else {
        seq!['%', hex_digit(byte / 16), hex_digit(byte % 16)]
    }
}

/// The `application/x-www-form-urlencoded` form of `text`: the forms of
/// its bytes in order.
pub open spec fn form_encoded(text: Seq<u8>) -> Seq<char>
    decreases text.len(),
{
    if text.len() == 0 {
        Seq::empty()
    } else {
        form_encoded(text.drop_last()) + form_encoded_byte(text.last())
    }
}

/// Calls `form_urlencoded::byte_serialize` of the `url` crate and joins
/// what it yields: the form of each byte in order, as [`form_encoded`]
/// says.
#[verifier::external_body]
pub(crate) fn form_encode(text: &[u8]) -> (r: String)
    ensures
        r@ == form_encoded(text@),
{
    ::url::form_urlencoded::byte_serialize(text).collect()
}

/// Why a text was turned down: it is no absolute URL.
#[derive(Debug)]
pub struct UrlParseError {
    /// The text.
    pub text: String,
}

/// Takes an absolute URL apart; `None` when `text` is not one.
pub fn split(text: &str) -> (r: Option<UrlParts>)
    ensures
        match r {
            Some(parts) => url_parts(text@) == Some(parts@),
            None => !is_url(text@),
        },
{
    match parse(text) {
        Ok(parts) => Some(parts),
        Err(_) => None,
    }
}

} // verus!
