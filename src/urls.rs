use vstd::prelude::*;

verus! {

#[verifier::external_type_specification]
#[verifier::external_body]
pub struct ExParseError(url::ParseError);

/// What the URL parser makes of a text: `None` where it refuses it, else the
/// explicit port the URL names (if any) and the URL's serialization.
pub uninterp spec fn parsed_url(s: Seq<char>) -> Option<(Option<u16>, Seq<char>)>;

/// Relies on `url::Url::parse`; of the parsed URL it reads `Url::port` (the
/// explicit port, `None` for none or for the scheme's default) and its
/// serialization (`String::from`).
#[verifier::external_body]
pub(crate) fn parse_url(s: &str) -> (r: Result<(Option<u16>, String), url::ParseError>)
    ensures
        match r {
            Ok((port, text)) => parsed_url(s@) == Some((port, text@)),
            Err(_) => parsed_url(s@) is None,
        },
{
    url::Url::parse(s).map(|u| (u.port(), String::from(u)))
}

} // verus!
