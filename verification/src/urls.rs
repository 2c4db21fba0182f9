//! The base URL of a run and the links resolved against it. Parsing and
//! resolution are the `url` crate's; the library speaks of them through the
//! serializations they produce.

use vstd::prelude::*;

verus! {

#[verifier::external_type_specification]
#[verifier::external_body]
pub struct ExUrl(url::Url);

/// What `url::Url::parse` makes of a string: `None` when the string is not
/// a well-formed absolute URL, otherwise the parsed URL's serialization.
pub uninterp spec fn parsed_url(s: Seq<char>) -> Option<Seq<char>>;

/// What `url::Url::join` makes of a reference `href` resolved against the
/// base URL whose serialization is `base`: `None` when `href` cannot be
/// resolved, otherwise the resolved absolute URL's serialization.
pub uninterp spec fn resolved_url(base: Seq<char>, href: Seq<char>) -> Option<Seq<char>>;

/// An absolute, well-formed URL: the resolution context for relative
/// links. It holds the parsed `url::Url` beside its exact serialization;
/// the only constructor keeps the two in step, so resolution against it is
/// a function of the serialization alone.
pub struct BaseUrl {
    url: url::Url,
    text: String,
}

impl View for BaseUrl {
    type V = Seq<char>;

    closed spec fn view(&self) -> Seq<char> {
        self.text@
    }
}

impl BaseUrl {
    /// Relies on `url::Url::parse`: it deterministically accepts exactly
    /// the well-formed absolute URL strings, and `Url::as_str` returns the
    /// parsed URL's serialization.
    #[verifier::external_body]
    pub fn parse(s: &str) -> (r: Option<BaseUrl>)
        ensures
            r is Some <==> parsed_url(s@) is Some,
            r matches Some(b) ==> parsed_url(s@) == Some(b@),
    {
        match url::Url::parse(s) {
            Ok(url) => {
                let text = url.as_str().to_owned();
                Some(BaseUrl { url, text })
            },
            Err(_) => None,
        }
    }

    /// The serialization of the base URL.
    pub fn as_str(&self) -> (r: &str)
        ensures
            r@ == self@,
    {
        self.text.as_str()
    }

    /// Relies on `url::Url::join`: standard URL resolution of a reference
    /// against a base, deterministic in the base's serialization and the
    /// reference; relative paths, relative queries and already-absolute
    /// references all resolve by those rules.
    #[verifier::external_body]
    pub fn join(&self, href: &str) -> (r: Option<String>)
        ensures
            r is Some <==> resolved_url(self@, href@) is Some,
            r matches Some(u) ==> resolved_url(self@, href@) == Some(u@),
    {
        self.url.join(href).ok().map(String::from)
    }
}

/// An absolute URL that extraction identified as pointing at a
/// downloadable file.
#[derive(Debug, Clone)]
pub struct DownloadLink {
    text: String,
}

impl View for DownloadLink {
    type V = Seq<char>;

    closed spec fn view(&self) -> Seq<char> {
        self.text@
    }
}

impl DownloadLink {
    pub(crate) fn new(text: String) -> (r: DownloadLink)
        ensures
            r@ == text@,
    {
        DownloadLink { text }
    }

    /// The link's serialization.
    pub fn as_str(&self) -> (r: &str)
        ensures
            r@ == self@,
    {
        self.text.as_str()
    }

    /// Hands the link's serialization over.
    pub fn into_string(self) -> (r: String)
        ensures
            r@ == self@,
    {
        self.text
    }
}

} // verus!
