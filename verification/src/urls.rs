use vstd::prelude::*;

verus! {

/// What parsing a string as an absolute URL yields: `Some` of the canonical
/// serialization when the string parses, `None` when it does not. The
/// outcome is a function of the input characters alone.
pub uninterp spec fn canon_url(s: Seq<char>) -> Option<Seq<char>>;

/// Relies on `url::Url::parse`: it parses an absolute URL from a string, or
/// fails; and on `url::Url::as_str`, which returns the parsed URL's
/// canonical serialization. Both depend on the input string alone.
#[verifier::external_body]
pub fn parse_url(s: &str) -> (r: Option<String>)
    ensures
        r.deep_view() == canon_url(s@),
{
    match url::Url::parse(s) {
        Ok(u) => Some(String::from(u.as_str())),
        Err(_) => None,
    }
}

} // verus!
