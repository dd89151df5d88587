//! URLs, held as text: parsing, joining and path segments are the `url`
//! crate's, everything built on them is proved here.

use crate::text::texts;
use vstd::prelude::*;

verus! {

broadcast use vstd::string::group_string_axioms;

/// What `url::Url::parse` makes of `input`: the URL's normalised text, or
/// the parser's words for why `input` is no absolute URL.
pub uninterp spec fn url_parsed(input: Seq<char>) -> Result<Seq<char>, Seq<char>>;

/// What `url::Url::join` makes of `reference` against the URL that `base`
/// parses to: the resulting URL's text, or the parser's words for the
/// failure (that of parsing `base`, where `base` is no URL).
pub uninterp spec fn url_joined(base: Seq<char>, reference: Seq<char>) -> Result<
    Seq<char>,
    Seq<char>,
>;

/// What `url::Url::path_segments` gives for the URL that `input` parses to:
/// the segments of its path between slashes, or nothing where `input` is no
/// URL or a URL that cannot be a base.
pub uninterp spec fn url_path_segments(input: Seq<char>) -> Option<Seq<Seq<char>>>;

/// The views of a result that is text either way.
pub open spec fn text_result(r: Result<String, String>) -> Result<Seq<char>, Seq<char>> {
    match r {
        Ok(text) => Ok(text@),
        Err(text) => Err(text@),
    }
}

/// Calls `url::Url::parse` and hands back the URL's serialization, or the
/// error's display text. The contract only gives that outcome its name.
#[verifier::external_body]
pub(crate) fn parse_url(input: &str) -> (r: Result<String, String>)
    ensures
        text_result(r) == url_parsed(input@),
{
    match url::Url::parse(input) {
        Ok(url) => Ok(String::from(url)),
        Err(e) => Err(e.to_string()),
    }
}

/// Parses `base` with `url::Url::parse`, calls `url::Url::join` on it with
/// `reference`, and hands back the new URL's serialization, or the display
/// text of whichever error came. The contract only gives that outcome its
/// name.
#[verifier::external_body]
pub(crate) fn join_url(base: &str, reference: &str) -> (r: Result<String, String>)
    ensures
        text_result(r) == url_joined(base@, reference@),
{
    match url::Url::parse(base) {
        Ok(base) => match base.join(reference) {
            Ok(url) => Ok(String::from(url)),
            Err(e) => Err(e.to_string()),
        },
        Err(e) => Err(e.to_string()),
    }
}

/// Parses `input` with `url::Url::parse` and collects what
/// `url::Url::path_segments` yields, each segment as an owned string. The
/// contract only gives that outcome its name.
#[verifier::external_body]
pub(crate) fn path_segments(input: &str) -> (r: Option<Vec<String>>)
    ensures
        match r {
            Some(segments) => url_path_segments(input@) == Some(texts(segments@)),
            None => url_path_segments(input@) is None,
        },
{
    let url = url::Url::parse(input).ok()?;
    Some(url.path_segments()?.map(|segment| segment.to_string()).collect())
}

} // verus!
