//! The announce URL of a torrent, told apart by its scheme.

use crate::error::TrackerError;
use reqwest::Url;
use vstd::prelude::*;
use vstd::string::*;

verus! {

/// The URL of a tracker that is asked over UDP.
#[derive(Clone, Debug, PartialEq, Eq)]
pub struct UdpUrl(pub String);

/// The URL of a tracker that is asked over HTTP.
#[derive(Clone, Debug, PartialEq, Eq)]
pub struct HttpUrl(pub String);

/// The URL of a tracker.
#[derive(Debug, Clone, PartialEq, Eq)]
pub enum TrackerUrl {
    Http(HttpUrl),
    Udp(UdpUrl),
}

impl HttpUrl {
    /// The URL as text.
    pub fn into_inner(self) -> (url: String)
        ensures
            url == self.0,
    {
        self.0
    }

    pub fn as_str(&self) -> (url: &str)
        ensures
            url@ == self.0@,
    {
        self.0.as_str()
    }
}

impl UdpUrl {
    /// The URL as text.
    pub fn into_inner(self) -> (url: String)
        ensures
            url == self.0,
    {
        self.0
    }

    pub fn as_str(&self) -> (url: &str)
        ensures
            url@ == self.0@,
    {
        self.0.as_str()
    }
}

/// What parsing a text as a URL gives: nothing where it is no URL, else its
/// scheme and whether it names a host.
pub uninterp spec fn url_parts(url: Seq<char>) -> Option<(Seq<char>, bool)>;

/// What a parsing result says, with the scheme as a sequence.
pub open spec fn parts_view(parts: Option<(String, bool)>) -> Option<(Seq<char>, bool)> {
    match parts {
        Some((scheme, has_host)) => Some((scheme@, has_host)),
        None => None,
    }
}

/// `Url::parse`, and of its result `Url::scheme` and `Url::has_host`. The
/// outcome depends on the text alone.
#[verifier::external_body]
fn parse_url(url: &str) -> (parts: Option<(String, bool)>)
    ensures
        parts_view(parts) == url_parts(url@),
{
    Url::parse(url).ok().map(|parsed| (parsed.scheme().to_owned(), parsed.has_host()))
}

/// Which tracker URL a text is, given what parsing it gave. A text that is
/// no URL or names no host is invalid; the schemes `http` and `udp` are
/// supported and no other.
pub open spec fn classified(url: Seq<char>, parts: Option<(Seq<char>, bool)>) -> Result<
    (bool, Seq<char>),
    Option<Seq<char>>,
> {
    match parts {
        None => Err(None),
        Some((scheme, has_host)) => if !has_host {
            Err(None)
        } else if scheme == "http"@ {
            Ok((true, url))
        } else if scheme == "udp"@ {
            Ok((false, url))
        } else {
            Err(Some(scheme))
        },
    }
}

/// What a result of `TrackerUrl::new` says: on success whether the tracker
/// is asked over HTTP and the URL, on failure the unsupported scheme, if
/// that was the reason.
pub open spec fn tracker_url_view(result: Result<TrackerUrl, TrackerError>) -> Result<
    (bool, Seq<char>),
    Option<Seq<char>>,
> {
    match result {
        Ok(TrackerUrl::Http(url)) => Ok((true, url.0@)),
        Ok(TrackerUrl::Udp(url)) => Ok((false, url.0@)),
        Err(TrackerError::UnsupportedScheme(scheme)) => Err(Some(scheme@)),
        Err(_) => Err(None),
    }
}

impl TrackerUrl {
    /// Reads an announce URL: see `classified`.
    pub fn new(url: &str) -> (result: Result<Self, TrackerError>)
        ensures
            tracker_url_view(result) == classified(url@, url_parts(url@)),
            result is Err ==> result.unwrap_err() is InvalidUrl || result.unwrap_err()
                is UnsupportedScheme,
    {
        let parts = parse_url(url);
        TrackerUrl::with_parts(url, parts)
    }

    /// Tells the kind of an announce URL from what parsing it gave: see
    /// `classified`.
    pub fn with_parts(url: &str, parts: Option<(String, bool)>) -> (result: Result<
        Self,
        TrackerError,
    >)
        ensures
            tracker_url_view(result) == classified(url@, parts_view(parts)),
            result is Err ==> result.unwrap_err() is InvalidUrl || result.unwrap_err()
                is UnsupportedScheme,
    {
        match parts {
            None => Err(TrackerError::InvalidUrl),
            Some((scheme, has_host)) => {
                if !has_host {
                    Err(TrackerError::InvalidUrl)
                } else if scheme == String::from_str("http") {
                    Ok(TrackerUrl::Http(HttpUrl(url.to_owned())))
                } else if scheme == String::from_str("udp") {
                    Ok(TrackerUrl::Udp(UdpUrl(url.to_owned())))
                } else {
                    Err(TrackerError::UnsupportedScheme(scheme))
                }
            },
        }
    }
}

} // verus!
