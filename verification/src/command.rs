//! The commands that daemons share with each other through the blocks of
//! their peer network.

use vstd::prelude::*;
use crate::pubkey::PubKeyBytes;
use crate::jobs::scrap::links_view;
use crate::keywords::KeywordCounts;

verus! {

/// A command shared through the peer network.
pub enum Command {
    /// Index a URL.
    AddUrl { url: String },
    /// A scrapper with this key asks for work; `oid` names the request.
    NextWork { pubkey: PubKeyBytes, oid: String },
    /// The URL handed out for the request `oid` of the scrapper with this key.
    ClaimWork { pubkey: PubKeyBytes, oid: String, url: String },
    /// What a scrapper found at a URL: keyword counts and outgoing links.
    ScrapResult { url: String, keywords: KeywordCounts, links: Vec<String> },
}

pub enum CommandView {
    AddUrl { url: Seq<char> },
    NextWork { pubkey: Seq<u8>, oid: Seq<char> },
    ClaimWork { pubkey: Seq<u8>, oid: Seq<char>, url: Seq<char> },
    ScrapResult { url: Seq<char>, keywords: Seq<(Seq<char>, u32)>, links: Seq<Seq<char>> },
}

impl View for Command {
    type V = CommandView;

    open spec fn view(&self) -> CommandView {
        match self {
            Command::AddUrl { url } => CommandView::AddUrl { url: url@ },
            Command::NextWork { pubkey, oid } => CommandView::NextWork { pubkey: pubkey@, oid: oid@ },
            Command::ClaimWork { pubkey, oid, url } =>
                CommandView::ClaimWork { pubkey: pubkey@, oid: oid@, url: url@ },
            Command::ScrapResult { url, keywords, links } => CommandView::ScrapResult {
                url: url@,
                keywords: keywords@,
                links: links_view(links@),
            },
        }
    }
}

impl Command {
    /// The request for work in this command, if it is one: the scrapper's key
    /// and the name of the request. Such a command is answered when a block
    /// is made, not applied when one arrives.
    pub fn work_request(&self) -> (res: Option<(PubKeyBytes, String)>)
        ensures
            match self@ {
                CommandView::NextWork { pubkey, oid } => res matches Some(r) && r.0@ == pubkey && r.1@ == oid,
                _ => res is None,
            },
    {
        match self {
            Command::NextWork { pubkey, oid } => Some((*pubkey, oid.clone())),
            _ => None,
        }
    }

    /// The claim in this command, if it is one: the name of the request it
    /// answers and the URL handed out, which goes to whoever waits on that
    /// request once the claim is applied.
    pub fn claim(&self) -> (res: Option<(String, String)>)
        ensures
            match self@ {
                CommandView::ClaimWork { oid, url, .. } => res matches Some(r) && r.0@ == oid && r.1@ == url,
                _ => res is None,
            },
    {
        match self {
            Command::ClaimWork { oid, url, .. } => Some((oid.clone(), url.clone())),
            _ => None,
        }
    }
}

/// The requests for work among `cmds`, in order: each scrapper's key and
/// the request's name.
pub open spec fn requests_in(cmds: Seq<CommandView>) -> Seq<(Seq<u8>, Seq<char>)>
    decreases cmds.len(),
{
    if cmds.len() == 0 {
        Seq::empty()
    } else {
        let rest = requests_in(cmds.drop_last());
        match cmds.last() {
            CommandView::NextWork { pubkey, oid } => rest.push((pubkey, oid)),
            _ => rest,
        }
    }
}

/// The requests for work among the commands of a block being made, each of
/// which the block is to answer with a claim.
pub fn work_requests(cmds: &Vec<Command>) -> (res: Vec<(PubKeyBytes, String)>)
    ensures
        res@.map_values(|r: (PubKeyBytes, String)| (r.0@, r.1@)) == requests_in(cmds@.map_values(|c: Command| c@)),
{
    let mut res: Vec<(PubKeyBytes, String)> = Vec::new();
    let n = cmds.len();
    let mut i: usize = 0;
    while i < n
        invariant
            n == cmds@.len(),
            i <= n,
            res@.map_values(|r: (PubKeyBytes, String)| (r.0@, r.1@))
                == requests_in(cmds@.map_values(|c: Command| c@).take(i as int)),
        decreases n - i,
    {
        let ghost views = cmds@.map_values(|c: Command| c@);
        assert(views.take(i as int + 1).drop_last() =~= views.take(i as int));
        assert(views.take(i as int + 1).last() == cmds@[i as int]@);
        let ghost before = res@;
        match cmds[i].work_request() {
            Some(r) => {
                res.push(r);
                assert(res@.map_values(|r: (PubKeyBytes, String)| (r.0@, r.1@))
                    =~= before.map_values(|r: (PubKeyBytes, String)| (r.0@, r.1@)).push((r.0@, r.1@)));
            },
            None => {},
        }
        i = i + 1;
    }
    assert(cmds@.map_values(|c: Command| c@).take(n as int) =~= cmds@.map_values(|c: Command| c@));
    res
}

} // verus!
