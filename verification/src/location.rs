//! Locations: URL texts, read and normalised by the `url` crate.

use vstd::prelude::*;

verus! {

/// The error of the `url` crate's parser. Nothing is known of a value of it
/// here; it is carried to the caller as it came.
#[verifier::external_type_specification]
#[verifier::external_body]
pub struct ExParseError(url::ParseError);

/// What `url::Url::parse` makes of `input`: the serialisation of the URL it
/// returns, or `None` where it returns an error.
pub uninterp spec fn url_parse(input: Seq<char>) -> Option<Seq<char>>;

/// Calls `url::Url::parse` and hands back the URL's serialisation (the text
/// that `Url::as_str` shows). The contract only gives that result its name,
/// `url_parse`: an absolute URL's text where the parser accepts `input`, its
/// error where it does not.
#[verifier::external_body]
pub(crate) fn parse_url(input: &str) -> (res: Result<String, url::ParseError>)
    ensures
        url_parse(input@) == (match res {
            Ok(text) => Some(text@),
            Err(_) => None,
        }),
{
    url::Url::parse(input).map(String::from)
}

/// What `form_urlencoded::byte_serialize` makes of the UTF-8 bytes of
/// `text`, its pieces put together: `text` in the syntax
/// `application/x-www-form-urlencoded`.
pub uninterp spec fn form_encoded(text: Seq<char>) -> Seq<char>;

/// Calls `url::form_urlencoded::byte_serialize` on the bytes of `text` and
/// collects the pieces that it hands out into one string. The contract only
/// gives that string its name, `form_encoded`.
#[verifier::external_body]
pub(crate) fn form_encode(text: &str) -> (res: String)
    ensures
        res@ == form_encoded(text@),
{
    url::form_urlencoded::byte_serialize(text.as_bytes()).collect()
}

} // verus!
