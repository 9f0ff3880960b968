//! Link keys: the four columns under which the daemon indexes a URL
//! (whether it is served over https, its host, its path and its query),
//! derived from the parts that `url::Url::parse` finds in it, and the URL
//! that a stored link key stands for.

use vstd::prelude::*;
use vstd::string::*;
use crate::error::{Failure, FailureView};
use crate::statement::{ends_with, starts_with};

verus! {

/// The parts of a parsed URL, as plain text.
pub struct UrlView {
    pub scheme: Seq<char>,
    pub host: Option<Seq<char>>,
    pub path: Seq<char>,
    pub query: Option<Seq<char>>,
}

/// The parts of a URL that `url::Url::parse` accepted: its scheme
/// (lower case, without `:`), its host if it has one, its path, and its
/// query (after `?`) if it has one.
pub struct ParsedUrl {
    pub scheme: String,
    pub host: Option<String>,
    pub path: String,
    pub query: Option<String>,
}

pub open spec fn opt_text(o: Option<String>) -> Option<Seq<char>> {
    match o {
        Some(s) => Some(s@),
        None => None,
    }
}

impl View for ParsedUrl {
    type V = UrlView;

    open spec fn view(&self) -> UrlView {
        UrlView {
            scheme: self.scheme@,
            host: opt_text(self.host),
            path: self.path@,
            query: opt_text(self.query),
        }
    }
}

/// What `url::Url::parse` makes of `input`: the parts of the URL, or the
/// text of the error it reports.
pub uninterp spec fn url_parse_outcome(input: Seq<char>) -> Result<UrlView, Seq<char>>;

/// Calls `url::Url::parse` on `input` and hands out, as plain text, the
/// `scheme()`, `host_str()`, `path()` and `query()` of the URL it returns,
/// or the `Display` text of the `url::ParseError` it returns. The contract
/// claims only that the outcome is a function of `input` alone, named
/// `url_parse_outcome`; nothing is claimed of what that function is.
#[verifier::external_body]
fn parse_url(input: &str) -> (res: Result<ParsedUrl, String>)
    ensures
        match res {
            Ok(p) => url_parse_outcome(input@) == Ok::<UrlView, Seq<char>>(p@),
            Err(e) => url_parse_outcome(input@) == Err::<UrlView, Seq<char>>(e@),
        },
{
    match url::Url::parse(input) {
        Ok(u) => Ok(ParsedUrl {
            scheme: u.scheme().to_string(),
            host: u.host_str().map(str::to_string),
            path: u.path().to_string(),
            query: u.query().map(str::to_string),
        }),
        Err(e) => Err(e.to_string()),
    }
}

/// Parses `input` as an absolute URL.
pub fn parse(input: &str) -> (res: Result<ParsedUrl, Failure>)
    ensures
        match url_parse_outcome(input@) {
            Ok(v) => res matches Ok(p) && p@ == v,
            Err(t) => res matches Err(Failure::InvalidUrl(m)) && m@ == t,
        },
{
    match parse_url(input) {
        Ok(p) => Ok(p),
        Err(e) => Err(Failure::InvalidUrl(e)),
    }
}

/// The columns under which a link is indexed.
pub struct LinkKeyView {
    pub https: bool,
    pub host: Seq<char>,
    pub path: Seq<char>,
    pub query: Seq<char>,
}

/// The columns under which the link index stores a URL: whether its scheme
/// is `https`, its host, its path and its query (empty where it has none).
pub struct LinkKey {
    pub https: bool,
    pub host: String,
    pub path: String,
    pub query: String,
}

impl View for LinkKey {
    type V = LinkKeyView;

    open spec fn view(&self) -> LinkKeyView {
        LinkKeyView { https: self.https, host: self.host@, path: self.path@, query: self.query@ }
    }
}

/// The link key of a parsed URL, with `host` standing for its host.
pub open spec fn key_with_host(u: UrlView, host: Seq<char>) -> LinkKeyView {
    LinkKeyView {
        https: u.scheme == "https"@,
        host: host,
        path: u.path,
        query: match u.query {
            Some(q) => q,
            None => Seq::empty(),
        },
    }
}

/// The link key of a parsed URL, an empty host standing for a missing one.
pub open spec fn lenient_key(u: UrlView) -> LinkKeyView {
    key_with_host(u, match u.host { Some(h) => h, None => Seq::empty() })
}

/// The link key of `input`, an empty host standing for a missing one, or
/// the failure to parse it.
pub open spec fn lenient_key_of(input: Seq<char>) -> Result<LinkKeyView, FailureView> {
    match url_parse_outcome(input) {
        Ok(v) => Ok(lenient_key(v)),
        Err(t) => Err(FailureView::InvalidUrl(t)),
    }
}

/// The link key of `input`, or why there is none: it does not parse, or it
/// has no host.
pub open spec fn key_of(input: Seq<char>) -> Result<LinkKeyView, FailureView> {
    match url_parse_outcome(input) {
        Ok(v) => match v.host {
            Some(h) => Ok(key_with_host(v, h)),
            None => Err(FailureView::MissingHost),
        },
        Err(t) => Err(FailureView::InvalidUrl(t)),
    }
}

/// The link key of `input` where it may be added to the index, or why it may
/// not: it does not parse, its scheme is neither `http` nor `https`, or it
/// has no host.
pub open spec fn shareable_key_of(input: Seq<char>) -> Result<LinkKeyView, FailureView> {
    match url_parse_outcome(input) {
        Ok(v) => if v.scheme != "https"@ && v.scheme != "http"@ {
            Err(FailureView::UnsupportedScheme(v.scheme))
        } else {
            match v.host {
                Some(h) => Ok(key_with_host(v, h)),
                None => Err(FailureView::MissingHost),
            }
        },
        Err(t) => Err(FailureView::InvalidUrl(t)),
    }
}

/// Whether `res` is what `expected` says: `Ok` of a key with that view, or
/// `Err` of a failure with that view.
pub open spec fn key_outcome(res: Result<LinkKey, Failure>, expected: Result<LinkKeyView, FailureView>) -> bool {
    match expected {
        Ok(kv) => res matches Ok(k) && k@ == kv,
        Err(fv) => res matches Err(f) && f@ == fv,
    }
}

/// The text of a URL that a link key stands for:
/// `http://` or `https://`, the host, the path, and `?` and the query where
/// the query is not empty.
pub open spec fn link_url(k: LinkKeyView) -> Seq<char> {
    (if k.https { "https://"@ } else { "http://"@ }) + k.host + k.path
        + (if k.query.len() == 0 { Seq::empty() } else { "?"@ + k.query })
}

fn same_text(a: &String, b: &str) -> (res: bool)
    ensures
        res == (a@ == b@),
{
    *a == b.to_owned()
}

fn copy_or_empty(o: &Option<String>) -> (s: String)
    ensures
        s@ == match opt_text(*o) { Some(t) => t, None => Seq::<char>::empty() },
{
    match o {
        Some(t) => t.clone(),
        None => String::new(),
    }
}

impl LinkKey {
    /// The link key of `url`, an empty host standing for a missing one.
    pub fn of_url_lenient(url: &ParsedUrl) -> (k: LinkKey)
        ensures
            k@ == lenient_key(url@),
    {
        LinkKey {
            https: same_text(&url.scheme, "https"),
            host: copy_or_empty(&url.host),
            path: url.path.clone(),
            query: copy_or_empty(&url.query),
        }
    }

    /// The link key of `url`, or `None` where the URL has no host.
    pub fn of_url(url: &ParsedUrl) -> (k: Option<LinkKey>)
        ensures
            match url@.host {
                Some(h) => k matches Some(key) && key@ == key_with_host(url@, h),
                None => k is None,
            },
    {
        match &url.host {
            Some(h) => Some(LinkKey {
                https: same_text(&url.scheme, "https"),
                host: h.clone(),
                path: url.path.clone(),
                query: copy_or_empty(&url.query),
            }),
            None => None,
        }
    }

    /// Parses `input` and takes its link key, an empty host standing for a
    /// missing one.
    pub fn parse_lenient(input: &str) -> (res: Result<LinkKey, Failure>)
        ensures
            key_outcome(res, lenient_key_of(input@)),
    {
        let url = parse(input)?;
        Ok(LinkKey::of_url_lenient(&url))
    }

    /// Parses `input` and takes its link key; fails where the URL has no host.
    pub fn parse(input: &str) -> (res: Result<LinkKey, Failure>)
        ensures
            key_outcome(res, key_of(input@)),
    {
        let url = parse(input)?;
        match LinkKey::of_url(&url) {
            Some(k) => Ok(k),
            None => Err(Failure::MissingHost),
        }
    }

    /// Parses `input` as a URL that may be added to the index: its scheme
    /// must be `http` or `https`, and it must have a host.
    pub fn parse_shareable(input: &str) -> (res: Result<LinkKey, Failure>)
        ensures
            key_outcome(res, shareable_key_of(input@)),
    {
        let url = parse(input)?;
        if !same_text(&url.scheme, "https") && !same_text(&url.scheme, "http") {
            return Err(Failure::UnsupportedScheme(url.scheme));
        }
        match LinkKey::of_url(&url) {
            Some(k) => Ok(k),
            None => Err(Failure::MissingHost),
        }
    }

    /// A copy of this link key.
    pub fn copy(&self) -> (c: LinkKey)
        ensures
            c@ == self@,
    {
        LinkKey { https: self.https, host: self.host.clone(), path: self.path.clone(), query: self.query.clone() }
    }

    /// The URL this link key stands for.
    pub fn url(&self) -> (s: String)
        ensures
            s@ == link_url(self@),
    {
        compose_url(self.https, self.host.as_str(), self.path.as_str(), self.query.as_str())
    }
}

/// The URL of a link stored as (`https`, `host`, `path`, `query`).
pub fn compose_url(https: bool, host: &str, path: &str, query: &str) -> (s: String)
    ensures
        s@ == link_url(LinkKeyView { https, host: host@, path: path@, query: query@ }),
{
    let mut s = if https { "https://".to_owned() } else { "http://".to_owned() };
    s.append(host);
    s.append(path);
    if !query.is_empty() {
        s.append("?");
        s.append(query);
    }
    proof {
        let k = LinkKeyView { https, host: host@, path: path@, query: query@ };
        assert(s@ =~= link_url(k));
    }
    s
}

/// The link key of a URL is https exactly when the URL's scheme is
/// `https` (an `http` URL, or one of any other scheme, gets `https ==
/// false`), and its host, path and query are the URL's (a missing query
/// taken as empty, and for indexing a missing host too): so for the key
/// under which a URL is indexed, looked up, or checked before it is shared.
pub proof fn lemma_key_follows_url(input: Seq<char>)
    ensures
        lenient_key_of(input) is Ok <==> url_parse_outcome(input) is Ok,
        lenient_key_of(input) is Ok ==> {
            let u = url_parse_outcome(input)->Ok_0;
            let k = lenient_key_of(input)->Ok_0;
            &&& k.https <==> u.scheme == "https"@
            &&& k.path == u.path
            &&& k.host == (match u.host { Some(h) => h, None => Seq::<char>::empty() })
            &&& k.query == (match u.query { Some(q) => q, None => Seq::<char>::empty() })
        },
        key_of(input) is Ok ==> {
            let u = url_parse_outcome(input)->Ok_0;
            let k = key_of(input)->Ok_0;
            &&& u.host is Some
            &&& k.https <==> u.scheme == "https"@
            &&& k.host == u.host->Some_0
            &&& k.path == u.path
            &&& k.query == (match u.query { Some(q) => q, None => Seq::<char>::empty() })
        },
        key_of(input) is Err <==> (url_parse_outcome(input) is Err || url_parse_outcome(input)->Ok_0.host is None),
        shareable_key_of(input) is Ok ==> {
            let u = url_parse_outcome(input)->Ok_0;
            let k = shareable_key_of(input)->Ok_0;
            &&& u.scheme == "https"@ || u.scheme == "http"@
            &&& u.host is Some
            &&& k.https <==> u.scheme == "https"@
            &&& k.host == u.host->Some_0
            &&& k.path == u.path
            &&& k.query == (match u.query { Some(q) => q, None => Seq::<char>::empty() })
        },
        key_of(input) is Err <==> (url_parse_outcome(input) is Err || url_parse_outcome(input)->Ok_0.host is None),
        shareable_key_of(input) is Ok ==> shareable_key_of(input) == key_of(input),
{
}

/// The URL of a link key begins with `https://` for an https key and with
/// `http://` otherwise, followed by the key's host and path; it ends with `?`
/// and the query where the query is not empty, and has nothing else.
pub proof fn lemma_link_url_parts(k: LinkKeyView)
    ensures
        k.https ==> starts_with(link_url(k), "https://"@ + k.host + k.path),
        !k.https ==> starts_with(link_url(k), "http://"@ + k.host + k.path),
        k.query.len() > 0 ==> ends_with(link_url(k), "?"@ + k.query),
        link_url(k).len() == (if k.https { 8int } else { 7int }) + k.host.len() + k.path.len()
            + (if k.query.len() == 0 { 0int } else { 1 + k.query.len() as int }),
{
    reveal_strlit("https://");
    reveal_strlit("http://");
    reveal_strlit("?");
    let head = (if k.https { "https://"@ } else { "http://"@ }) + k.host + k.path;
    let tail = if k.query.len() == 0 { Seq::<char>::empty() } else { "?"@ + k.query };
    assert(link_url(k) == head + tail);
    assert((head + tail).subrange(0, head.len() as int) =~= head);
    assert((head + tail).subrange(head.len() as int, (head + tail).len() as int) =~= tail);
}

} // verus!
