//! Addresses of web services, built with `reqwest`'s URL type.
use vstd::prelude::*;

verus! {

/// Name for the text of the address that `reqwest::Url::parse_with_params`
/// builds from `base` and the query `pairs` (in the order given), or none
/// when `base` is not an absolute URL.
pub uninterp spec fn url_with_params(base: Seq<char>, pairs: Seq<(Seq<char>, Seq<char>)>) -> Option<
    Seq<char>,
>;

/// `reqwest::Url::parse_with_params(base, pairs)` (the `url` crate's), read
/// back with `Url::as_str`. The contract claims only that the outcome is a
/// function of `base` and `pairs`, named by `url_with_params`; the
/// percent-encoding and normalisation it performs are not stated.
#[verifier::external_body]
pub(crate) fn parse_with_params(base: &str, pairs: &Vec<(String, String)>) -> (r: Option<String>)
    ensures
        match r {
            Some(u) => url_with_params(base@, pairs.deep_view()) == Some(u@),
            None => url_with_params(base@, pairs.deep_view()) is None,
        },
{
    match reqwest::Url::parse_with_params(base, pairs.iter()) {
        Ok(u) => Some(u.as_str().to_string()),
        Err(_) => None,
    }
}

} // verus!
