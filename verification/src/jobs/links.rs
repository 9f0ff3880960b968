//! The daemon's procedures that index, look up and mark single links:
//! indexing a URL that arrived in a block, checking whether a submitted URL
//! is new, marking a claimed link as checked, and finding (or adding) the
//! link that a URL stands for.

use vstd::prelude::*;
use crate::error::{Failure, FailureView};
use crate::link::{LinkKey, LinkKeyView, UrlView, key_of, lenient_key_of, shareable_key_of, url_parse_outcome};
use crate::statement::{Statement, StatementView};
use crate::jobs::step::{Reply, ReplyView, Step, StepView};
use crate::jobs::select_or_insert::find_statement;
use crate::jobs::parts::{PartIds, PartIdsView, host_target, parts_advance, parts_begin, parts_pending, lemma_parts_pending};

verus! {

// ---------------------------------------------------------------------------
// Indexing a URL.

/// Where the indexing of a URL stands.
pub enum IndexStage {
    Parts(PartIds),
    Linking,
    Finished,
}

pub enum IndexStageView {
    Parts(PartIdsView),
    Linking,
    Finished,
}

impl View for IndexStage {
    type V = IndexStageView;

    open spec fn view(&self) -> IndexStageView {
        match self {
            IndexStage::Parts(p) => IndexStageView::Parts(p@),
            IndexStage::Linking => IndexStageView::Linking,
            IndexStage::Finished => IndexStageView::Finished,
        }
    }
}

/// Whether the indexing waits for a reply.
pub open spec fn index_pending(s: IndexStageView) -> bool {
    match s {
        IndexStageView::Parts(p) => parts_pending(p),
        IndexStageView::Linking => true,
        IndexStageView::Finished => false,
    }
}

/// How indexing `url` begins: it takes the URL's link key (an empty host
/// standing for a missing one) and finds the ids of its parts; a URL that
/// does not parse ends it.
pub open spec fn index_begin(url: Seq<char>) -> (IndexStageView, StepView<()>) {
    match lenient_key_of(url) {
        Ok(k) => (IndexStageView::Parts(parts_begin(k).0), StepView::Run(find_statement(host_target(k)))),
        Err(f) => (IndexStageView::Finished, StepView::Finish(Err(f))),
    }
}

/// How indexing goes on after a reply: once the three part ids are known it
/// adds the link (unless it is there already), and then it is done.
pub open spec fn index_advance(s: IndexStageView, r: ReplyView) -> (IndexStageView, StepView<()>)
    recommends
        index_pending(s),
{
    match s {
        IndexStageView::Parts(p) => {
            let (p2, st) = parts_advance(p, r);
            match st {
                StepView::Run(q) => (IndexStageView::Parts(p2), StepView::Run(q)),
                StepView::Finish(Err(e)) => (IndexStageView::Finished, StepView::Finish(Err(e))),
                StepView::Finish(Ok((h, pa, q))) => (
                    IndexStageView::Linking,
                    StepView::Run(StatementView::AddLink { host_id: h, path_id: pa, query_id: q }),
                ),
            }
        },
        IndexStageView::Linking => (IndexStageView::Finished, match r {
            ReplyView::Failed(t) => StepView::Finish(Err(FailureView::Store(t))),
            _ => StepView::Finish(Ok(())),
        }),
        IndexStageView::Finished => (IndexStageView::Finished, StepView::Finish(Err(FailureView::MissingRow))),
    }
}

/// The indexing of a URL under way.
pub struct IndexUrl {
    stage: IndexStage,
}

impl View for IndexUrl {
    type V = IndexStageView;

    closed spec fn view(&self) -> IndexStageView {
        self.stage@
    }
}

/// Begins indexing `url`: finding or adding its host, path and query, and
/// adding the link they make.
pub fn handle_add_url(url: &str) -> (res: (IndexUrl, Step<()>))
    ensures
        (res.0@, res.1@) == index_begin(url@),
{
    match LinkKey::parse_lenient(url) {
        Ok(k) => {
            let (p, st) = PartIds::start(&k);
            (IndexUrl { stage: IndexStage::Parts(p) }, crate::jobs::step::rerun(st))
        },
        Err(f) => (IndexUrl { stage: IndexStage::Finished }, Step::Finish(Err(f))),
    }
}

impl IndexUrl {
    /// Whether the job waits for a reply.
    pub fn is_pending(&self) -> (b: bool)
        ensures
            b == index_pending(self@),
    {
        match &self.stage {
            IndexStage::Parts(p) => p.is_pending(),
            IndexStage::Linking => true,
            IndexStage::Finished => false,
        }
    }

    /// Goes on with the reply to the statement it last handed out.
    pub fn resume(&mut self, reply: Reply) -> (step: Step<()>)
        requires
            index_pending(old(self)@),
        ensures
            (final(self)@, step@) == index_advance(old(self)@, reply@),
    {
        let mut stage = IndexStage::Finished;
        core::mem::swap(&mut stage, &mut self.stage);
        match stage {
            IndexStage::Parts(mut p) => {
                let st = p.resume(reply);
                match st {
                    Step::Run(q) => {
                        self.stage = IndexStage::Parts(p);
                        Step::Run(q)
                    },
                    Step::Finish(Err(e)) => Step::Finish(Err(e)),
                    Step::Finish(Ok((h, pa, q))) => {
                        self.stage = IndexStage::Linking;
                        Step::Run(Statement::AddLink { host_id: h, path_id: pa, query_id: q })
                    },
                }
            },
            IndexStage::Linking => match reply {
                Reply::Failed(t) => Step::Finish(Err(Failure::Store(t))),
                _ => Step::Finish(Ok(())),
            },
            IndexStage::Finished => Step::Finish(Err(Failure::MissingRow)),
        }
    }
}

// ---------------------------------------------------------------------------
// Jobs of a single statement.

/// The outcome of a statement run for its effect alone.
pub open spec fn effect_outcome(r: ReplyView) -> StepView<()> {
    match r {
        ReplyView::Failed(t) => StepView::Finish(Err(FailureView::Store(t))),
        _ => StepView::Finish(Ok(())),
    }
}

/// How checking whether a submitted URL is new begins: the URL must be an
/// `http` or `https` URL with a host, and its link is looked up.
pub open spec fn share_begin(url: Seq<char>) -> (bool, StepView<bool>) {
    match shareable_key_of(url) {
        Ok(k) => (true, StepView::Run(StatementView::FindLink { key: k })),
        Err(f) => (false, StepView::Finish(Err(f))),
    }
}

/// The outcome of the lookup: `true` (the URL is new and is to be shared
/// with the network) where the link was not found, `false` where it was.
pub open spec fn share_advance(r: ReplyView) -> (bool, StepView<bool>) {
    (false, match r {
        ReplyView::Failed(t) => StepView::Finish(Err(FailureView::Store(t))),
        ReplyView::Row(_) => StepView::Finish(Ok(false)),
        ReplyView::NoRow => StepView::Finish(Ok(true)),
    })
}

/// Checking whether a submitted URL is new.
pub struct ShareUrl {
    pending: bool,
}

impl View for ShareUrl {
    type V = bool;

    closed spec fn view(&self) -> bool {
        self.pending
    }
}

/// Begins checking whether the submitted `url` is new to the index (and is
/// then to be shared with the network as an `AddUrl` command).
pub fn add_url(url: &str) -> (res: (ShareUrl, Step<bool>))
    ensures
        (res.0@, res.1@) == share_begin(url@),
{
    match LinkKey::parse_shareable(url) {
        Ok(k) => (ShareUrl { pending: true }, Step::Run(Statement::FindLink { key: k })),
        Err(f) => (ShareUrl { pending: false }, Step::Finish(Err(f))),
    }
}

impl ShareUrl {
    /// Whether the job waits for a reply.
    pub fn is_pending(&self) -> (b: bool)
        ensures
            b == self@,
    {
        self.pending
    }

    /// Goes on with the reply to the lookup.
    pub fn resume(&mut self, reply: Reply) -> (step: Step<bool>)
        requires
            old(self)@,
        ensures
            (final(self)@, step@) == share_advance(reply@),
    {
        self.pending = false;
        match reply {
            Reply::Failed(t) => Step::Finish(Err(Failure::Store(t))),
            Reply::Row(_) => Step::Finish(Ok(false)),
            Reply::NoRow => Step::Finish(Ok(true)),
        }
    }
}

/// How marking a claimed link begins: the link with the URL's key is
/// marked as checked now; a URL without a key ends it.
pub open spec fn claim_begin(url: Seq<char>) -> (bool, StepView<()>) {
    match key_of(url) {
        Ok(k) => (true, StepView::Run(StatementView::TouchLinkByKey { key: k })),
        Err(f) => (false, StepView::Finish(Err(f))),
    }
}

/// Marking a claimed link as checked.
pub struct ClaimWork {
    pending: bool,
}

impl View for ClaimWork {
    type V = bool;

    closed spec fn view(&self) -> bool {
        self.pending
    }
}

/// Begins marking the link of the claimed `url` as checked now.
pub fn handle_claim_work(url: &str) -> (res: (ClaimWork, Step<()>))
    ensures
        (res.0@, res.1@) == claim_begin(url@),
{
    match LinkKey::parse(url) {
        Ok(k) => (ClaimWork { pending: true }, Step::Run(Statement::TouchLinkByKey { key: k })),
        Err(f) => (ClaimWork { pending: false }, Step::Finish(Err(f))),
    }
}

fn effect_step(reply: Reply) -> (step: Step<()>)
    ensures
        step@ == effect_outcome(reply@),
{
    match reply {
        Reply::Failed(t) => Step::Finish(Err(Failure::Store(t))),
        _ => Step::Finish(Ok(())),
    }
}

impl ClaimWork {
    /// Whether the job waits for a reply.
    pub fn is_pending(&self) -> (b: bool)
        ensures
            b == self@,
    {
        self.pending
    }

    /// Goes on with the reply to the update.
    pub fn resume(&mut self, reply: Reply) -> (step: Step<()>)
        requires
            old(self)@,
        ensures
            !final(self)@,
            step@ == effect_outcome(reply@),
    {
        self.pending = false;
        effect_step(reply)
    }
}

/// How looking up the link of a URL begins.
pub open spec fn lookup_begin(url: Seq<char>) -> (bool, StepView<i64>) {
    match key_of(url) {
        Ok(k) => (true, StepView::Run(StatementView::LinkId { key: k })),
        Err(f) => (false, StepView::Finish(Err(f))),
    }
}

/// The id of a link that must be there.
pub open spec fn required_id(r: ReplyView) -> StepView<i64> {
    match r {
        ReplyView::Failed(t) => StepView::Finish(Err(FailureView::Store(t))),
        ReplyView::Row(id) => StepView::Finish(Ok(id)),
        ReplyView::NoRow => StepView::Finish(Err(FailureView::MissingRow)),
    }
}

fn required_id_step(reply: Reply) -> (step: Step<i64>)
    ensures
        step@ == required_id(reply@),
{
    match reply {
        Reply::Failed(t) => Step::Finish(Err(Failure::Store(t))),
        Reply::Row(id) => Step::Finish(Ok(id)),
        Reply::NoRow => Step::Finish(Err(Failure::MissingRow)),
    }
}

/// Looking up the id of the link of a URL, which must be indexed.
pub struct LinkLookup {
    pending: bool,
}

impl View for LinkLookup {
    type V = bool;

    closed spec fn view(&self) -> bool {
        self.pending
    }
}

/// Begins looking up the id of the link of `url`.
pub fn get_link_id(url: &str) -> (res: (LinkLookup, Step<i64>))
    ensures
        (res.0@, res.1@) == lookup_begin(url@),
{
    match LinkKey::parse(url) {
        Ok(k) => (LinkLookup { pending: true }, Step::Run(Statement::LinkId { key: k })),
        Err(f) => (LinkLookup { pending: false }, Step::Finish(Err(f))),
    }
}

impl LinkLookup {
    /// Whether the job waits for a reply.
    pub fn is_pending(&self) -> (b: bool)
        ensures
            b == self@,
    {
        self.pending
    }

    /// Goes on with the reply to the lookup.
    pub fn resume(&mut self, reply: Reply) -> (step: Step<i64>)
        requires
            old(self)@,
        ensures
            !final(self)@,
            step@ == required_id(reply@),
    {
        self.pending = false;
        required_id_step(reply)
    }
}

// ---------------------------------------------------------------------------
// Finding or adding the link of a URL.

/// Where finding or adding the link of a URL stands.
pub enum LinkOrInsertStage {
    Lookup(LinkKey),
    Parts(PartIds),
    Inserting,
    Finished,
}

pub enum LinkOrInsertView {
    Lookup(LinkKeyView),
    Parts(PartIdsView),
    Inserting,
    Finished,
}

impl View for LinkOrInsertStage {
    type V = LinkOrInsertView;

    open spec fn view(&self) -> LinkOrInsertView {
        match self {
            LinkOrInsertStage::Lookup(k) => LinkOrInsertView::Lookup(k@),
            LinkOrInsertStage::Parts(p) => LinkOrInsertView::Parts(p@),
            LinkOrInsertStage::Inserting => LinkOrInsertView::Inserting,
            LinkOrInsertStage::Finished => LinkOrInsertView::Finished,
        }
    }
}

/// Whether finding or adding a link waits for a reply.
pub open spec fn loi_pending(s: LinkOrInsertView) -> bool {
    match s {
        LinkOrInsertView::Parts(p) => parts_pending(p),
        LinkOrInsertView::Finished => false,
        _ => true,
    }
}

/// How finding or adding the link of `url` begins: it looks the link up.
pub open spec fn loi_begin(url: Seq<char>) -> (LinkOrInsertView, StepView<i64>) {
    match key_of(url) {
        Ok(k) => (LinkOrInsertView::Lookup(k), StepView::Run(StatementView::LinkId { key: k })),
        Err(f) => (LinkOrInsertView::Finished, StepView::Finish(Err(f))),
    }
}

/// How it goes on: a link found is the outcome; otherwise the ids of its
/// parts are found (or added), the link is added, and its new id is the
/// outcome.
pub open spec fn loi_advance(s: LinkOrInsertView, r: ReplyView) -> (LinkOrInsertView, StepView<i64>)
    recommends
        loi_pending(s),
{
    match s {
        LinkOrInsertView::Lookup(k) => match r {
            ReplyView::Failed(t) => (LinkOrInsertView::Finished, StepView::Finish(Err(FailureView::Store(t)))),
            ReplyView::Row(id) => (LinkOrInsertView::Finished, StepView::Finish(Ok(id))),
            ReplyView::NoRow => (
                LinkOrInsertView::Parts(parts_begin(k).0),
                StepView::Run(find_statement(host_target(k))),
            ),
        },
        LinkOrInsertView::Parts(p) => {
            let (p2, st) = parts_advance(p, r);
            match st {
                StepView::Run(q) => (LinkOrInsertView::Parts(p2), StepView::Run(q)),
                StepView::Finish(Err(e)) => (LinkOrInsertView::Finished, StepView::Finish(Err(e))),
                StepView::Finish(Ok((h, pa, q))) => (
                    LinkOrInsertView::Inserting,
                    StepView::Run(StatementView::InsertLink { host_id: h, path_id: pa, query_id: q }),
                ),
            }
        },
        LinkOrInsertView::Inserting => (LinkOrInsertView::Finished, required_id(r)),
        LinkOrInsertView::Finished => (LinkOrInsertView::Finished, StepView::Finish(Err(FailureView::MissingRow))),
    }
}

/// Finding or adding the link of a URL.
pub struct LinkOrInsert {
    stage: LinkOrInsertStage,
}

impl View for LinkOrInsert {
    type V = LinkOrInsertView;

    closed spec fn view(&self) -> LinkOrInsertView {
        self.stage@
    }
}

/// Begins finding the id of the link of `url`, adding the link (and its
/// host, path and query) where it is missing.
pub fn get_link_id_or_insert(url: &str) -> (res: (LinkOrInsert, Step<i64>))
    ensures
        (res.0@, res.1@) == loi_begin(url@),
{
    match LinkKey::parse(url) {
        Ok(k) => {
            let st = Statement::LinkId { key: k.copy() };
            (LinkOrInsert { stage: LinkOrInsertStage::Lookup(k) }, Step::Run(st))
        },
        Err(f) => (LinkOrInsert { stage: LinkOrInsertStage::Finished }, Step::Finish(Err(f))),
    }
}

impl LinkOrInsert {
    /// Whether the job waits for a reply.
    pub fn is_pending(&self) -> (b: bool)
        ensures
            b == loi_pending(self@),
    {
        match &self.stage {
            LinkOrInsertStage::Parts(p) => p.is_pending(),
            LinkOrInsertStage::Finished => false,
            _ => true,
        }
    }

    /// Goes on with the reply to the statement it last handed out.
    pub fn resume(&mut self, reply: Reply) -> (step: Step<i64>)
        requires
            loi_pending(old(self)@),
        ensures
            (final(self)@, step@) == loi_advance(old(self)@, reply@),
    {
        let mut stage = LinkOrInsertStage::Finished;
        core::mem::swap(&mut stage, &mut self.stage);
        match stage {
            LinkOrInsertStage::Lookup(k) => match reply {
                Reply::Failed(t) => Step::Finish(Err(Failure::Store(t))),
                Reply::Row(id) => Step::Finish(Ok(id)),
                Reply::NoRow => {
                    let (p, st) = PartIds::start(&k);
                    self.stage = LinkOrInsertStage::Parts(p);
                    crate::jobs::step::rerun(st)
                },
            },
            LinkOrInsertStage::Parts(mut p) => {
                let st = p.resume(reply);
                match st {
                    Step::Run(q) => {
                        self.stage = LinkOrInsertStage::Parts(p);
                        Step::Run(q)
                    },
                    Step::Finish(Err(e)) => Step::Finish(Err(e)),
                    Step::Finish(Ok((h, pa, q))) => {
                        self.stage = LinkOrInsertStage::Inserting;
                        Step::Run(Statement::InsertLink { host_id: h, path_id: pa, query_id: q })
                    },
                }
            },
            LinkOrInsertStage::Inserting => required_id_step(reply),
            LinkOrInsertStage::Finished => Step::Finish(Err(Failure::MissingRow)),
        }
    }
}

// ---------------------------------------------------------------------------
// Laws.

/// Indexing a URL hands out a statement exactly while it waits for a reply.
pub proof fn lemma_index_pending(url: Seq<char>, s: IndexStageView, r: ReplyView)
    ensures
        (index_begin(url).1 is Run) == index_pending(index_begin(url).0),
        index_pending(s) ==> ((index_advance(s, r).1 is Run) == index_pending(index_advance(s, r).0)),
{
    if let Ok(k) = lenient_key_of(url) {
        lemma_parts_pending(parts_begin(k).0, r);
    }
    if let IndexStageView::Parts(p) = s {
        if parts_pending(p) {
            lemma_parts_pending(p, r);
        }
    }
}

/// Finding or adding a link hands out a statement exactly while it waits
/// for a reply.
pub proof fn lemma_loi_pending(url: Seq<char>, s: LinkOrInsertView, r: ReplyView)
    ensures
        (loi_begin(url).1 is Run) == loi_pending(loi_begin(url).0),
        loi_pending(s) ==> ((loi_advance(s, r).1 is Run) == loi_pending(loi_advance(s, r).0)),
{
    match s {
        LinkOrInsertView::Lookup(k) => {
            lemma_parts_pending(parts_begin(k).0, r);
        },
        LinkOrInsertView::Parts(p) => {
            if parts_pending(p) {
                lemma_parts_pending(p, r);
            }
        },
        _ => {},
    }
}

/// A URL that arrives to be added is shared with the network exactly when
/// it is an `http` or `https` URL with a host and the index holds no link
/// with its key.
pub proof fn lemma_share_only_new_links(url: Seq<char>, r: ReplyView)
    ensures
        share_begin(url).1 is Run <==> shareable_key_of(url) is Ok,
        shareable_key_of(url) matches Ok(k) ==> share_begin(url).1 == StepView::<bool>::Run(StatementView::FindLink { key: k }),
        share_advance(r).1 == StepView::<bool>::Finish(Ok(true)) <==> r is NoRow,
        share_advance(r).1 == StepView::<bool>::Finish(Ok(false)) <==> r is Row,
{
}

/// Indexing a URL whose host, path and query the index already holds
/// (with ids `h`, `p` and `q`) looks up the host, the path and the query in
/// turn, then adds the link made of their ids, and succeeds.
pub proof fn lemma_index_url_run(url: Seq<char>, h: i64, p: i64, q: i64)
    requires
        lenient_key_of(url) is Ok,
    ensures
        ({
            let k = lenient_key_of(url)->Ok_0;
            let (s0, st0) = index_begin(url);
            let (s1, st1) = index_advance(s0, ReplyView::Row(h));
            let (s2, st2) = index_advance(s1, ReplyView::Row(p));
            let (s3, st3) = index_advance(s2, ReplyView::Row(q));
            &&& st0 == StepView::<()>::Run(StatementView::FindHost { https: k.https, name: k.host })
            &&& st1 == StepView::<()>::Run(StatementView::FindValue { table: "path"@, column: "path"@, value: k.path })
            &&& st2 == StepView::<()>::Run(StatementView::FindValue { table: "query"@, column: "query"@, value: k.query })
            &&& st3 == StepView::<()>::Run(StatementView::AddLink { host_id: h, path_id: p, query_id: q })
            &&& index_advance(s3, ReplyView::NoRow).1 == StepView::<()>::Finish(Ok(()))
        }),
{
}

/// Finding the link of a URL that the index holds gives its id after one
/// lookup. Where the index lacks the link but holds its host, path and
/// query (with ids `h`, `p` and `q`), the parts are looked up, the link is
/// added, and the id the insert yields is the outcome.
pub proof fn lemma_link_or_insert_run(url: Seq<char>, found: i64, h: i64, p: i64, q: i64, new_id: i64)
    requires
        key_of(url) is Ok,
    ensures
        ({
            let k = key_of(url)->Ok_0;
            let (s0, st0) = loi_begin(url);
            &&& st0 == StepView::<i64>::Run(StatementView::LinkId { key: k })
            &&& loi_advance(s0, ReplyView::Row(found)).1 == StepView::<i64>::Finish(Ok(found))
            &&& ({
                let (s1, st1) = loi_advance(s0, ReplyView::NoRow);
                let (s2, st2) = loi_advance(s1, ReplyView::Row(h));
                let (s3, st3) = loi_advance(s2, ReplyView::Row(p));
                let (s4, st4) = loi_advance(s3, ReplyView::Row(q));
                &&& st1 == StepView::<i64>::Run(StatementView::FindHost { https: k.https, name: k.host })
                &&& st2 == StepView::<i64>::Run(StatementView::FindValue { table: "path"@, column: "path"@, value: k.path })
                &&& st3 == StepView::<i64>::Run(StatementView::FindValue { table: "query"@, column: "query"@, value: k.query })
                &&& st4 == StepView::<i64>::Run(StatementView::InsertLink { host_id: h, path_id: p, query_id: q })
                &&& loi_advance(s4, ReplyView::Row(new_id)).1 == StepView::<i64>::Finish(Ok(new_id))
            })
        }),
{
}

/// Whether `key` stands for the parsed URL `u`: https exactly when its
/// scheme is `https`, with its path, and its host and query where it has them.
pub open spec fn stands_for(key: LinkKeyView, u: UrlView) -> bool {
    &&& key.https == (u.scheme == "https"@)
    &&& key.path == u.path
    &&& (u.host is Some ==> key.host == u.host->Some_0)
    &&& (u.query is Some ==> key.query == u.query->Some_0)
}

/// Each procedure on a URL begins with the statement about the link the URL
/// stands for, or refuses it: indexing looks up its host (an `http` URL's
/// as not https, an empty name for a missing host); looking its link up,
/// finding (or adding) it and marking it as claimed go by its key where it
/// has a host; checking a submission goes by its key where it is an `http`
/// or `https` URL with a host. A URL that does not parse is refused with the
/// parser's report, and one without a host by all but indexing.
pub proof fn lemma_procedures_begin_with_the_url(url: Seq<char>)
    ensures
        match url_parse_outcome(url) {
            Ok(u) => {
                &&& (index_begin(url).1 matches StepView::Run(StatementView::FindHost { https, name })
                    && https == (u.scheme == "https"@)
                    && name == (match u.host { Some(h) => h, None => Seq::<char>::empty() }))
                &&& u.host is Some ==> {
                    &&& (lookup_begin(url).1 matches StepView::Run(StatementView::LinkId { key }) && stands_for(key, u))
                    &&& (loi_begin(url).1 matches StepView::Run(StatementView::LinkId { key }) && stands_for(key, u))
                    &&& (claim_begin(url).1 matches StepView::Run(StatementView::TouchLinkByKey { key }) && stands_for(key, u))
                }
                &&& u.host is None ==> {
                    &&& lookup_begin(url).1 == StepView::<i64>::Finish(Err(FailureView::MissingHost))
                    &&& loi_begin(url).1 == StepView::<i64>::Finish(Err(FailureView::MissingHost))
                    &&& claim_begin(url).1 == StepView::<()>::Finish(Err(FailureView::MissingHost))
                }
                &&& (u.scheme == "https"@ || u.scheme == "http"@) && u.host is Some
                    ==> (share_begin(url).1 matches StepView::Run(StatementView::FindLink { key }) && stands_for(key, u))
                &&& !(u.scheme == "https"@ || u.scheme == "http"@)
                    ==> share_begin(url).1 == StepView::<bool>::Finish(Err(FailureView::UnsupportedScheme(u.scheme)))
            },
            Err(t) => {
                &&& index_begin(url).1 == StepView::<()>::Finish(Err(FailureView::InvalidUrl(t)))
                &&& lookup_begin(url).1 == StepView::<i64>::Finish(Err(FailureView::InvalidUrl(t)))
                &&& loi_begin(url).1 == StepView::<i64>::Finish(Err(FailureView::InvalidUrl(t)))
                &&& claim_begin(url).1 == StepView::<()>::Finish(Err(FailureView::InvalidUrl(t)))
                &&& share_begin(url).1 == StepView::<bool>::Finish(Err(FailureView::InvalidUrl(t)))
            },
        },
{
}

} // verus!
