//! The scrapper's side: the daemon URIs it talks to, and the report it
//! sends back about a page it visited.

use vstd::prelude::*;
use vstd::string::*;
use crate::keywords::KeywordCounts;
use crate::pubkey::{encode_pubkey, hex_encoding, hex_decoding, lemma_hex_roundtrip};

verus! {

/// What a scrapper reports about a page: its URL, keyword counts and the
/// links found on it.
pub struct ScrapResult {
    pub url: String,
    pub keywords: KeywordCounts,
    pub links: Vec<String>,
}

/// The URI at which the daemon at `api` hands out work to the scrapper
/// with the public key `public`.
pub open spec fn next_work_uri_text(api: Seq<char>, public: Seq<u8>) -> Seq<char> {
    api + "/next-work/"@ + hex_encoding(public)
}

/// `{api}/next-work/{public key in hexadecimal}`.
pub fn next_work_uri(api: &str, public: &[u8]) -> (s: String)
    ensures
        s@ == next_work_uri_text(api@, public@),
{
    let mut s = api.to_owned();
    s.append("/next-work/");
    let key = encode_pubkey(public);
    s.append(key.as_str());
    s
}

/// `{api}/scrap-result`.
pub fn scrap_result_uri(api: &str) -> (s: String)
    ensures
        s@ == api@ + "/scrap-result"@,
{
    let mut s = api.to_owned();
    s.append("/scrap-result");
    s
}

/// The segment that follows `/next-work/` in the URI a scrapper asks for
/// work at decodes to the scrapper's own key.
pub proof fn lemma_next_work_uri_carries_key(api: Seq<char>, public: Seq<u8>)
    ensures
        next_work_uri_text(api, public) == api + "/next-work/"@ + hex_encoding(public),
        hex_decoding(hex_encoding(public)) == Some(public),
{
    lemma_hex_roundtrip(public);
}

/// The links of a page: the `href` of each anchor that has one, in order.
pub open spec fn present(hrefs: Seq<Option<String>>) -> Seq<String>
    decreases hrefs.len(),
{
    if hrefs.len() == 0 {
        Seq::empty()
    } else {
        let rest = present(hrefs.drop_last());
        match hrefs.last() {
            Some(h) => rest.push(h),
            None => rest,
        }
    }
}

/// Keeps the `href`s that anchors have, in order.
pub fn collect_links(hrefs: Vec<Option<String>>) -> (links: Vec<String>)
    ensures
        links@ == present(hrefs@),
{
    let mut links: Vec<String> = Vec::new();
    let n = hrefs.len();
    let mut i: usize = 0;
    while i < n
        invariant
            n == hrefs@.len(),
            i <= n,
            links@ == present(hrefs@.take(i as int)),
        decreases n - i,
    {
        assert(hrefs@.take(i as int + 1).drop_last() =~= hrefs@.take(i as int));
        match &hrefs[i] {
            Some(h) => links.push(h.clone()),
            None => {},
        }
        i = i + 1;
    }
    assert(hrefs@.take(n as int) =~= hrefs@);
    links
}

/// The report about the page at `url` with the given `hrefs`: no keywords
/// are counted, and the links are those the anchors have.
pub fn scrap_report(url: String, hrefs: Vec<Option<String>>) -> (r: ScrapResult)
    ensures
        r.url == url,
        r.keywords@.len() == 0,
        r.links@ == present(hrefs@),
{
    ScrapResult { url, keywords: KeywordCounts::new(), links: collect_links(hrefs) }
}

} // verus!
