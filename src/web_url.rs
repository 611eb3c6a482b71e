//! Absolute URLs, held as the `url` crate's parsed value together with its
//! serialisation, which is what contracts speak of.

use vstd::prelude::*;

verus! {

#[verifier::external_type_specification]
#[verifier::external_body]
pub struct ExUrl(url::Url);

/// Why a text could not be read as a URL.
#[derive(Clone, Copy, Debug, PartialEq, Eq, Structural)]
pub enum UrlError {
    /// The text is a relative reference: it names no scheme, so it needs a base.
    RelativeUrlWithoutBase,
    /// Any other reason: the text is no URL, relative or absolute.
    Invalid,
}

/// The serialisation that `Url::parse` gives for a text, or the kind of its error.
pub uninterp spec fn parsed_url(s: Seq<char>) -> Result<Seq<char>, UrlError>;

/// The serialisation that `Url::join` gives for a text on the URL serialised as
/// `base`, or the kind of its error.
pub uninterp spec fn joined_url(base: Seq<char>, s: Seq<char>) -> Result<Seq<char>, UrlError>;

/// The serialisation of the URL serialised as `u` after `Url::set_path(path)`.
pub uninterp spec fn url_with_path(u: Seq<char>, path: Seq<char>) -> Seq<char>;

/// The serialisation of the URL serialised as `u` after `Url::set_query(query)`.
pub uninterp spec fn url_with_query(u: Seq<char>, query: Option<Seq<char>>) -> Seq<char>;

/// An absolute URL.
#[derive(Debug)]
pub struct WebUrl {
    parsed: url::Url,
    text: String,
}

impl View for WebUrl {
    type V = Seq<char>;

    /// The URL's serialisation.
    closed spec fn view(&self) -> Seq<char> {
        self.text@
    }
}

/// The serialisation of a successfully parsed URL, or the kind of error.
pub open spec fn url_result_view(r: Result<WebUrl, UrlError>) -> Result<Seq<char>, UrlError> {
    match r {
        Ok(u) => Ok(u@),
        Err(e) => Err(e),
    }
}

pub open spec fn option_view(q: Option<&str>) -> Option<Seq<char>> {
    match q {
        Some(s) => Some(s@),
        None => None,
    }
}

/// Relies on `Url::clone` (derived): the copy equals the original.
pub assume_specification[ <url::Url as Clone>::clone ](u: &url::Url) -> (r: url::Url)
    ensures
        r == *u,
;

/// Relies on `Url::parse`: a parsed URL with its serialisation, or the error,
/// `RelativeUrlWithoutBase` told apart from the others.
#[verifier::external_body]
pub(crate) fn parse_url(s: &str) -> (r: Result<WebUrl, UrlError>)
    ensures
        url_result_view(r) == parsed_url(s@),
{
    match url::Url::parse(s) {
        Ok(u) => Ok(WebUrl { text: u.as_str().to_string(), parsed: u }),
        Err(url::ParseError::RelativeUrlWithoutBase) => Err(UrlError::RelativeUrlWithoutBase),
        Err(_) => Err(UrlError::Invalid),
    }
}

/// Relies on `Url::join`: the text resolved against `base`, or the error,
/// `RelativeUrlWithoutBase` told apart from the others.
#[verifier::external_body]
pub(crate) fn join_url(base: &WebUrl, s: &str) -> (r: Result<WebUrl, UrlError>)
    ensures
        url_result_view(r) == joined_url(base@, s@),
{
    match base.parsed.join(s) {
        Ok(u) => Ok(WebUrl { text: u.as_str().to_string(), parsed: u }),
        Err(url::ParseError::RelativeUrlWithoutBase) => Err(UrlError::RelativeUrlWithoutBase),
        Err(_) => Err(UrlError::Invalid),
    }
}

/// Relies on `Url::set_path`: the URL with its path replaced.
#[verifier::external_body]
fn set_path(u: &mut WebUrl, path: &str)
    ensures
        final(u)@ == url_with_path(old(u)@, path@),
{
    u.parsed.set_path(path);
    u.text = u.parsed.as_str().to_string();
}

/// Relies on `Url::set_query`: the URL with its query replaced, or removed.
#[verifier::external_body]
fn set_query(u: &mut WebUrl, query: Option<&str>)
    ensures
        final(u)@ == url_with_query(old(u)@, option_view(query)),
{
    u.parsed.set_query(query);
    u.text = u.parsed.as_str().to_string();
}

/// The URL of the origin of `base`: its path emptied and its query removed.
pub open spec fn origin_of(base: Seq<char>) -> Seq<char> {
    url_with_query(url_with_path(base, Seq::empty()), None)
}

impl WebUrl {
    /// Parses an absolute URL.
    pub fn parse(s: &str) -> (r: Result<WebUrl, UrlError>)
        ensures
            url_result_view(r) == parsed_url(s@),
    {
        parse_url(s)
    }

    /// The serialisation of this URL.
    pub fn as_str(&self) -> (r: &str)
        ensures
            r@ == self@,
    {
        self.text.as_str()
    }

    /// The `url` crate's value of this URL.
    pub fn as_url(&self) -> &url::Url {
        &self.parsed
    }

    /// A copy of this URL.
    pub fn duplicate(&self) -> (r: WebUrl)
        ensures
            r@ == self@,
    {
        WebUrl { parsed: self.parsed.clone(), text: self.text.clone() }
    }

    /// This URL's origin: the same URL with its path emptied and its query removed.
    pub fn origin(&self) -> (r: WebUrl)
        ensures
            r@ == origin_of(self@),
    {
        let empty: &str = "";
        proof {
            reveal_strlit("");
        }
        assert(empty@ =~= Seq::<char>::empty());
        let mut o = self.duplicate();
        set_path(&mut o, empty);
        set_query(&mut o, None);
        o
    }
}

} // verus!
