//! URLs: parsing, resolving a reference against a base, and dropping the
//! query. All of it is the work of `reqwest::Url`.

use reqwest::Url;
use vstd::prelude::*;

verus! {

/// A parsed absolute URL, which the library only hands to the functions
/// below.
#[verifier::external_type_specification]
#[verifier::external_body]
pub struct ExUrl(Url);

/// The serialisation of a URL. Two URLs are the same where their
/// serialisations are.
pub uninterp spec fn url_text(url: Url) -> Seq<char>;

/// The serialisation of the absolute URL that `input` parses to, or `None`
/// where it is none.
pub uninterp spec fn parsed_url(input: Seq<char>) -> Option<Seq<char>>;

/// The serialisation of `reference` resolved against the URL serialised as
/// `base`, or `None` where the reference does not resolve.
pub uninterp spec fn joined_url(base: Seq<char>, reference: Seq<char>) -> Option<Seq<char>>;

/// The serialisation of the URL serialised as `url`, without its query.
pub uninterp spec fn url_sans_query(url: Seq<char>) -> Seq<char>;

/// Parses and normalises an absolute URL.
///
/// Trusted: this is `reqwest::Url::parse`. The result depends on the input
/// alone.
#[verifier::external_body]
pub(crate) fn parse_url(input: &str) -> (url: Option<Url>)
    ensures
        match url {
            Some(u) => parsed_url(input@) == Some(url_text(u)),
            None => parsed_url(input@) is None,
        },
{
    Url::parse(input).ok()
}

/// Resolves `reference` against `base`.
///
/// Trusted: this is `reqwest::Url::join`. The result depends on the base's
/// serialisation and the reference alone.
#[verifier::external_body]
pub(crate) fn join_url(base: &Url, reference: &str) -> (url: Option<Url>)
    ensures
        match url {
            Some(u) => joined_url(url_text(*base), reference@) == Some(url_text(u)),
            None => joined_url(url_text(*base), reference@) is None,
        },
{
    base.join(reference).ok()
}

/// Drops the query parameters of `url`, so that links to one page that
/// differ in them count as one.
///
/// Trusted: this is `reqwest::Url::set_query` with no query. The result
/// depends on the URL's serialisation alone.
#[verifier::external_body]
pub(crate) fn drop_get_parameters(url: Url) -> (stripped: Url)
    ensures
        url_text(stripped) == url_sans_query(url_text(url)),
{
    let mut url = url;
    url.set_query(None);
    url
}

/// The serialisation of `url`.
///
/// Trusted: this is the conversion of a `reqwest::Url` into a `String`,
/// which hands out its serialisation.
#[verifier::external_body]
pub(crate) fn url_string(url: Url) -> (text: String)
    ensures
        text@ == url_text(url),
{
    String::from(url)
}

} // verus!
