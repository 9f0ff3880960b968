//! Recording what a scrapper found at a link: how often each keyword occurs
//! there, and which links it points to.

use vstd::prelude::*;
use crate::error::{Failure, FailureView};
use crate::link::{LinkKey, LinkKeyView, key_of};
use crate::keywords::KeywordCounts;
use crate::statement::{Statement, StatementView};
use crate::jobs::step::{Reply, ReplyView, Step, StepView, rerun};
use crate::jobs::select_or_insert::{
    insert_statement, Phase, SelectOrInsert, SelectOrInsertView, TargetView, find_statement, select_or_insert, soi_advance,
    soi_begin,
};
use crate::jobs::parts::{PartIdsView, parts_advance};
use crate::jobs::links::{
    LinkOrInsert, LinkOrInsertView, get_link_id_or_insert, lemma_loi_pending, loi_advance, loi_begin, loi_pending,
};

verus! {

/// A keyword, as a select-or-insert target.
pub open spec fn keyword_target(name: Seq<char>) -> TargetView {
    TargetView::Value { table: "keyword"@, column: "name"@, value: name }
}

/// The links, as plain text.
pub open spec fn links_view(v: Seq<String>) -> Seq<Seq<char>> {
    v.map_values(|s: String| s@)
}

/// Where recording a scrap result stands.
#[allow(inconsistent_fields)]
pub enum ScrapStage {
    FindingLink,
    Keyword { index: usize, sub: SelectOrInsert },
    Counting { index: usize },
    Link { index: usize, sub: LinkOrInsert },
    Linking { index: usize },
    Finished,
}

#[allow(inconsistent_fields)]
pub enum ScrapStageView {
    FindingLink,
    Keyword { index: int, sub: SelectOrInsertView },
    Counting { index: int },
    Link { index: int, sub: LinkOrInsertView },
    Linking { index: int },
    Finished,
}

impl View for ScrapStage {
    type V = ScrapStageView;

    open spec fn view(&self) -> ScrapStageView {
        match self {
            ScrapStage::FindingLink => ScrapStageView::FindingLink,
            ScrapStage::Keyword { index, sub } => ScrapStageView::Keyword { index: *index as int, sub: sub@ },
            ScrapStage::Counting { index } => ScrapStageView::Counting { index: *index as int },
            ScrapStage::Link { index, sub } => ScrapStageView::Link { index: *index as int, sub: sub@ },
            ScrapStage::Linking { index } => ScrapStageView::Linking { index: *index as int },
            ScrapStage::Finished => ScrapStageView::Finished,
        }
    }
}

pub struct ScrapView {
    pub link_id: i64,
    pub keywords: Seq<(Seq<char>, u32)>,
    pub links: Seq<Seq<char>>,
    pub stage: ScrapStageView,
}

/// Whether recording a scrap result waits for a reply.
pub open spec fn scrap_pending(s: ScrapView) -> bool {
    match s.stage {
        ScrapStageView::FindingLink => true,
        ScrapStageView::Keyword { index, sub } => 0 <= index < s.keywords.len() && sub.phase != Phase::Finished,
        ScrapStageView::Counting { index } => 0 <= index < s.keywords.len(),
        ScrapStageView::Link { index, sub } => 0 <= index < s.links.len() && loi_pending(sub),
        ScrapStageView::Linking { index } => 0 <= index < s.links.len(),
        ScrapStageView::Finished => false,
    }
}

/// Moves on to the keyword at `i`, or past the last keyword to the links.
pub open spec fn enter_keyword(s: ScrapView, i: int) -> (ScrapView, StepView<()>) {
    if i < s.keywords.len() {
        let t = keyword_target(s.keywords[i].0);
        (ScrapView { stage: ScrapStageView::Keyword { index: i, sub: soi_begin(t).0 }, ..s }, StepView::Run(find_statement(t)))
    } else {
        enter_link(s, 0)
    }
}

/// Goes on with the link at `j` after its job took the step `st`.
pub open spec fn link_step(s: ScrapView, j: int, sub: LinkOrInsertView, st: StepView<i64>) -> (ScrapView, StepView<()>) {
    match st {
        StepView::Run(q) => (ScrapView { stage: ScrapStageView::Link { index: j, sub }, ..s }, StepView::Run(q)),
        StepView::Finish(Err(e)) => (ScrapView { stage: ScrapStageView::Finished, ..s }, StepView::Finish(Err(e))),
        StepView::Finish(Ok(to)) => (
            ScrapView { stage: ScrapStageView::Linking { index: j }, ..s },
            StepView::Run(StatementView::AddLinkTo { link_id: s.link_id, to_id: to }),
        ),
    }
}

/// Moves on to the link at `j`, or past the last link to the end.
pub open spec fn enter_link(s: ScrapView, j: int) -> (ScrapView, StepView<()>) {
    if j < s.links.len() {
        let (sub, st) = loi_begin(s.links[j]);
        link_step(s, j, sub, st)
    } else {
        (ScrapView { stage: ScrapStageView::Finished, ..s }, StepView::Finish(Ok(())))
    }
}

/// How recording a scrap result for `url` begins: the link of the URL must
/// be indexed, and is looked up.
pub open spec fn scrap_begin(url: Seq<char>, keywords: Seq<(Seq<char>, u32)>, links: Seq<Seq<char>>) -> (ScrapView, StepView<()>) {
    let s = ScrapView { link_id: 0, keywords, links, stage: ScrapStageView::FindingLink };
    match key_of(url) {
        Ok(k) => (s, StepView::Run(StatementView::LinkId { key: k })),
        Err(f) => (ScrapView { stage: ScrapStageView::Finished, ..s }, StepView::Finish(Err(f))),
    }
}

/// How recording a scrap result goes on after a reply: once the link's id
/// is known, each keyword in turn is found (or added) and its count at the
/// link set; then each link it points to is found (or added) and recorded
/// as pointed to. The first failure ends it.
pub open spec fn scrap_advance(s: ScrapView, r: ReplyView) -> (ScrapView, StepView<()>)
    recommends
        scrap_pending(s),
{
    let finished = ScrapView { stage: ScrapStageView::Finished, ..s };
    match s.stage {
        ScrapStageView::FindingLink => match r {
            ReplyView::Failed(t) => (finished, StepView::Finish(Err(FailureView::Store(t)))),
            ReplyView::NoRow => (finished, StepView::Finish(Err(FailureView::MissingRow))),
            ReplyView::Row(id) => enter_keyword(ScrapView { link_id: id, ..s }, 0),
        },
        ScrapStageView::Keyword { index, sub } => {
            let (sub2, st) = soi_advance(sub, r);
            match st {
                StepView::Run(q) => (ScrapView { stage: ScrapStageView::Keyword { index, sub: sub2 }, ..s }, StepView::Run(q)),
                StepView::Finish(Err(e)) => (finished, StepView::Finish(Err(e))),
                StepView::Finish(Ok(kid)) => (
                    ScrapView { stage: ScrapStageView::Counting { index }, ..s },
                    StepView::Run(StatementView::SetKeywordCount {
                        link_id: s.link_id,
                        keyword_id: kid,
                        count: s.keywords[index].1,
                    }),
                ),
            }
        },
        ScrapStageView::Counting { index } => match r {
            ReplyView::Failed(t) => (finished, StepView::Finish(Err(FailureView::Store(t)))),
            _ => enter_keyword(s, index + 1),
        },
        ScrapStageView::Link { index, sub } => {
            let (sub2, st) = loi_advance(sub, r);
            link_step(s, index, sub2, st)
        },
        ScrapStageView::Linking { index } => match r {
            ReplyView::Failed(t) => (finished, StepView::Finish(Err(FailureView::Store(t)))),
            _ => enter_link(s, index + 1),
        },
        ScrapStageView::Finished => (s, StepView::Finish(Err(FailureView::MissingRow))),
    }
}

/// Recording a scrap result under way.
pub struct Scrap {
    link_id: i64,
    keywords: KeywordCounts,
    links: Vec<String>,
    stage: ScrapStage,
}

impl View for Scrap {
    type V = ScrapView;

    closed spec fn view(&self) -> ScrapView {
        ScrapView {
            link_id: self.link_id,
            keywords: self.keywords@,
            links: links_view(self.links@),
            stage: self.stage@,
        }
    }
}

/// Begins recording what a scrapper found at `url`: the count of each of
/// `keywords` there, and the `links` it points to.
pub fn handle_scrap_result(url: &str, keywords: KeywordCounts, links: Vec<String>) -> (res: (Scrap, Step<()>))
    ensures
        (res.0@, res.1@) == scrap_begin(url@, keywords@, links_view(links@)),
{
    match LinkKey::parse(url) {
        Ok(k) => (
            Scrap { link_id: 0, keywords, links, stage: ScrapStage::FindingLink },
            Step::Run(Statement::LinkId { key: k }),
        ),
        Err(f) => (Scrap { link_id: 0, keywords, links, stage: ScrapStage::Finished }, Step::Finish(Err(f))),
    }
}

impl Scrap {
    /// Whether the job waits for a reply.
    pub fn is_pending(&self) -> (b: bool)
        ensures
            b == scrap_pending(self@),
    {
        match &self.stage {
            ScrapStage::FindingLink => true,
            ScrapStage::Keyword { index, sub } => *index < self.keywords.len() && !sub.is_finished(),
            ScrapStage::Counting { index } => *index < self.keywords.len(),
            ScrapStage::Link { index, sub } => *index < self.links.len() && sub.is_pending(),
            ScrapStage::Linking { index } => *index < self.links.len(),
            ScrapStage::Finished => false,
        }
    }

    fn enter_link(&mut self, j: usize) -> (step: Step<()>)
        requires
            j <= old(self).links@.len(),
        ensures
            (final(self)@, step@) == enter_link(old(self)@, j as int),
    {
        if j < self.links.len() {
            let (sub, st) = get_link_id_or_insert(self.links[j].as_str());
            self.link_step(j, sub, st)
        } else {
            self.stage = ScrapStage::Finished;
            Step::Finish(Ok(()))
        }
    }

    fn link_step(&mut self, j: usize, sub: LinkOrInsert, st: Step<i64>) -> (step: Step<()>)
        ensures
            (final(self)@, step@) == link_step(old(self)@, j as int, sub@, st@),
    {
        match st {
            Step::Run(q) => {
                self.stage = ScrapStage::Link { index: j, sub };
                Step::Run(q)
            },
            Step::Finish(Err(e)) => {
                self.stage = ScrapStage::Finished;
                Step::Finish(Err(e))
            },
            Step::Finish(Ok(to)) => {
                self.stage = ScrapStage::Linking { index: j };
                Step::Run(Statement::AddLinkTo { link_id: self.link_id, to_id: to })
            },
        }
    }

    fn enter_keyword(&mut self, i: usize) -> (step: Step<()>)
        requires
            i <= old(self).keywords@.len(),
        ensures
            (final(self)@, step@) == enter_keyword(old(self)@, i as int),
    {
        if i < self.keywords.len() {
            let (sub, st) = select_or_insert("keyword", "name", self.keywords.name(i).as_str());
            self.stage = ScrapStage::Keyword { index: i, sub };
            rerun(st)
        } else {
            self.enter_link(0)
        }
    }

    /// Goes on with the reply to the statement it last handed out.
    pub fn resume(&mut self, reply: Reply) -> (step: Step<()>)
        requires
            scrap_pending(old(self)@),
        ensures
            (final(self)@, step@) == scrap_advance(old(self)@, reply@),
    {
        assert(links_view(self.links@).len() == self.links@.len());
        let mut stage = ScrapStage::Finished;
        core::mem::swap(&mut stage, &mut self.stage);
        match stage {
            ScrapStage::FindingLink => match reply {
                Reply::Failed(t) => Step::Finish(Err(Failure::Store(t))),
                Reply::NoRow => Step::Finish(Err(Failure::MissingRow)),
                Reply::Row(id) => {
                    self.link_id = id;
                    self.enter_keyword(0)
                },
            },
            ScrapStage::Keyword { index, mut sub } => {
                let st = sub.resume(reply);
                match st {
                    Step::Run(q) => {
                        self.stage = ScrapStage::Keyword { index, sub };
                        Step::Run(q)
                    },
                    Step::Finish(Err(e)) => Step::Finish(Err(e)),
                    Step::Finish(Ok(kid)) => {
                        self.stage = ScrapStage::Counting { index };
                        Step::Run(Statement::SetKeywordCount {
                            link_id: self.link_id,
                            keyword_id: kid,
                            count: self.keywords.count(index),
                        })
                    },
                }
            },
            ScrapStage::Counting { index } => {
                let n = self.keywords.len();
                assert(index < n);
                match reply {
                    Reply::Failed(t) => Step::Finish(Err(Failure::Store(t))),
                    _ => self.enter_keyword(index + 1),
                }
            },
            ScrapStage::Link { index, mut sub } => {
                let st = sub.resume(reply);
                self.link_step(index, sub, st)
            },
            ScrapStage::Linking { index } => {
                let n = self.links.len();
                assert(index < n);
                match reply {
                    Reply::Failed(t) => Step::Finish(Err(Failure::Store(t))),
                    _ => self.enter_link(index + 1),
                }
            },
            ScrapStage::Finished => Step::Finish(Err(Failure::MissingRow)),
        }
    }
}

proof fn lemma_enter_link_pending(s: ScrapView, j: int, r: ReplyView)
    requires
        0 <= j,
    ensures
        (enter_link(s, j).1 is Run) == scrap_pending(enter_link(s, j).0),
{
    if j < s.links.len() {
        lemma_loi_pending(s.links[j], LinkOrInsertView::Finished, r);
    }
}

proof fn lemma_enter_keyword_pending(s: ScrapView, i: int, r: ReplyView)
    requires
        0 <= i,
    ensures
        (enter_keyword(s, i).1 is Run) == scrap_pending(enter_keyword(s, i).0),
{
    if i >= s.keywords.len() {
        lemma_enter_link_pending(s, 0, r);
    }
}

/// Recording a scrap result hands out a statement exactly while it waits
/// for a reply.
pub proof fn lemma_scrap_pending(
    url: Seq<char>,
    keywords: Seq<(Seq<char>, u32)>,
    links: Seq<Seq<char>>,
    s: ScrapView,
    r: ReplyView,
)
    ensures
        (scrap_begin(url, keywords, links).1 is Run) == scrap_pending(scrap_begin(url, keywords, links).0),
        scrap_pending(s) ==> ((scrap_advance(s, r).1 is Run) == scrap_pending(scrap_advance(s, r).0)),
{
    if scrap_pending(s) {
        match s.stage {
            ScrapStageView::FindingLink => {
                if let ReplyView::Row(id) = r {
                    lemma_enter_keyword_pending(ScrapView { link_id: id, ..s }, 0, r);
                }
            },
            ScrapStageView::Counting { index } => {
                lemma_enter_keyword_pending(s, index + 1, r);
            },
            ScrapStageView::Link { index, sub } => {
                lemma_loi_pending(s.links[index], sub, r);
            },
            ScrapStageView::Linking { index } => {
                lemma_enter_link_pending(s, index + 1, r);
            },
            _ => {},
        }
    }
}

// ---------------------------------------------------------------------------
// Whole runs.

/// The statements a scrap job hands out from `s` on as it is given `replies`
/// one by one, and its outcome if it finishes within them.
pub open spec fn scrap_run(s: ScrapView, replies: Seq<ReplyView>) -> (Seq<StatementView>, Option<Result<(), FailureView>>)
    decreases replies.len(),
{
    if replies.len() == 0 || !scrap_pending(s) {
        (Seq::empty(), None)
    } else {
        let (s2, st) = scrap_advance(s, replies[0]);
        match st {
            StepView::Run(q) => {
                let (qs, out) = scrap_run(s2, replies.drop_first());
                (seq![q] + qs, out)
            },
            StepView::Finish(o) => (Seq::empty(), Some(o)),
        }
    }
}

/// Replies of an index that holds the keywords from `i` on, with ids `kids`:
/// each lookup yields the id, each count set yields nothing.
pub open spec fn keyword_replies(kids: Seq<i64>, i: int) -> Seq<ReplyView>
    decreases kids.len() - i,
{
    if i < 0 || i >= kids.len() {
        Seq::empty()
    } else {
        seq![ReplyView::Row(kids[i]), ReplyView::NoRow] + keyword_replies(kids, i + 1)
    }
}

/// Replies of an index that holds the linked URLs from `j` on, with ids
/// `tos`: each lookup yields the id, each link recorded yields nothing.
pub open spec fn link_replies(tos: Seq<i64>, j: int) -> Seq<ReplyView>
    decreases tos.len() - j,
{
    if j < 0 || j >= tos.len() {
        Seq::empty()
    } else {
        seq![ReplyView::Row(tos[j]), ReplyView::NoRow] + link_replies(tos, j + 1)
    }
}

/// For each keyword from `i` on: its lookup, and the setting of its count at
/// the link.
pub open spec fn keyword_statements(s: ScrapView, kids: Seq<i64>, i: int) -> Seq<StatementView>
    decreases kids.len() - i,
{
    if i < 0 || i >= kids.len() {
        Seq::empty()
    } else {
        seq![
            find_statement(keyword_target(s.keywords[i].0)),
            StatementView::SetKeywordCount { link_id: s.link_id, keyword_id: kids[i], count: s.keywords[i].1 },
        ] + keyword_statements(s, kids, i + 1)
    }
}

/// The key of the linked URL at `j`.
pub open spec fn linked_key(s: ScrapView, j: int) -> LinkKeyView {
    match key_of(s.links[j]) {
        Ok(k) => k,
        Err(_) => arbitrary(),
    }
}

/// For each linked URL from `j` on: its lookup, and the record that the
/// link points to it.
pub open spec fn link_statements(s: ScrapView, tos: Seq<i64>, j: int) -> Seq<StatementView>
    decreases tos.len() - j,
{
    if j < 0 || j >= tos.len() {
        Seq::empty()
    } else {
        seq![
            StatementView::LinkId { key: linked_key(s, j) },
            StatementView::AddLinkTo { link_id: s.link_id, to_id: tos[j] },
        ] + link_statements(s, tos, j + 1)
    }
}

/// Whether every linked URL of `s` has a link key.
pub open spec fn links_have_keys(s: ScrapView) -> bool {
    forall|j: int| 0 <= j < s.links.len() ==> (#[trigger] key_of(s.links[j])) is Ok
}

proof fn lemma_links_run(base: ScrapView, tos: Seq<i64>, j: int)
    requires
        0 <= j < base.links.len(),
        tos.len() == base.links.len(),
        links_have_keys(base),
    ensures
        enter_link(base, j).1 == StepView::<()>::Run(link_statements(base, tos, j)[0]),
        scrap_run(enter_link(base, j).0, link_replies(tos, j))
            == (link_statements(base, tos, j).drop_first(), Some(Ok::<(), FailureView>(()))),
    decreases base.links.len() - j,
{
    assert(key_of(base.links[j]) is Ok);
    let k = linked_key(base, j);
    let t = enter_link(base, j).0;
    let lid = base.link_id;
    let rs = link_replies(tos, j);
    let rest = link_replies(tos, j + 1);
    assert(rs == seq![ReplyView::Row(tos[j]), ReplyView::NoRow] + rest);
    assert(rs[0] == ReplyView::Row(tos[j]));
    assert(rs.drop_first() =~= seq![ReplyView::NoRow] + rest);
    let (t2, st2) = scrap_advance(t, rs[0]);
    assert(st2 == StepView::<()>::Run(StatementView::AddLinkTo { link_id: lid, to_id: tos[j] }));
    assert(t2 == ScrapView { stage: ScrapStageView::Linking { index: j }, ..base });
    let rs2 = rs.drop_first();
    assert(rs2[0] == ReplyView::NoRow);
    assert(rs2.drop_first() =~= rest);
    let next = enter_link(t2, j + 1);
    assert(next == enter_link(base, j + 1));
    let stmts = link_statements(base, tos, j);
    let more = link_statements(base, tos, j + 1);
    assert(stmts == seq![
        StatementView::LinkId { key: k },
        StatementView::AddLinkTo { link_id: lid, to_id: tos[j] },
    ] + more);
    assert(scrap_pending(t));
    assert(scrap_pending(t2));
    let add = StatementView::AddLinkTo { link_id: lid, to_id: tos[j] };
    if j + 1 < base.links.len() {
        lemma_links_run(base, tos, j + 1);
        assert(scrap_run(t2, rs2) == (seq![more[0]] + more.drop_first(), Some(Ok::<(), FailureView>(()))));
        assert(scrap_run(t, rs) == (seq![add] + (seq![more[0]] + more.drop_first()), Some(Ok::<(), FailureView>(()))));
        assert(stmts.drop_first() =~= seq![add] + (seq![more[0]] + more.drop_first()));
    } else {
        assert(more =~= Seq::<StatementView>::empty());
        assert(next.1 == StepView::<()>::Finish(Ok(())));
        assert(scrap_run(t2, rs2) == (Seq::<StatementView>::empty(), Some(Ok::<(), FailureView>(()))));
        assert(scrap_run(t, rs) == (seq![add] + Seq::<StatementView>::empty(), Some(Ok::<(), FailureView>(()))));
        assert(stmts.drop_first() =~= seq![add] + Seq::<StatementView>::empty());
    }
}

proof fn lemma_keywords_run(base: ScrapView, kids: Seq<i64>, tos: Seq<i64>, i: int)
    requires
        0 <= i < base.keywords.len(),
        kids.len() == base.keywords.len(),
        tos.len() == base.links.len(),
        links_have_keys(base),
    ensures
        enter_keyword(base, i).1 == StepView::<()>::Run(keyword_statements(base, kids, i)[0]),
        scrap_run(enter_keyword(base, i).0, keyword_replies(kids, i) + link_replies(tos, 0)) == (
            keyword_statements(base, kids, i).drop_first() + link_statements(base, tos, 0),
            Some(Ok::<(), FailureView>(())),
        ),
    decreases base.keywords.len() - i,
{
    let lid = base.link_id;
    let t = enter_keyword(base, i).0;
    let lr = link_replies(tos, 0);
    let ls = link_statements(base, tos, 0);
    let rs = keyword_replies(kids, i) + lr;
    let rest = keyword_replies(kids, i + 1) + lr;
    assert(keyword_replies(kids, i) == seq![ReplyView::Row(kids[i]), ReplyView::NoRow] + keyword_replies(kids, i + 1));
    assert(rs =~= seq![ReplyView::Row(kids[i]), ReplyView::NoRow] + rest);
    assert(rs[0] == ReplyView::Row(kids[i]));
    let count = StatementView::SetKeywordCount { link_id: lid, keyword_id: kids[i], count: base.keywords[i].1 };
    let (t2, st2) = scrap_advance(t, rs[0]);
    assert(st2 == StepView::<()>::Run(count));
    assert(t2 == ScrapView { stage: ScrapStageView::Counting { index: i }, ..base });
    let rs2 = rs.drop_first();
    assert(rs2 =~= seq![ReplyView::NoRow] + rest);
    assert(rs2[0] == ReplyView::NoRow);
    assert(rs2.drop_first() =~= rest);
    let next = enter_keyword(t2, i + 1);
    assert(next == enter_keyword(base, i + 1));
    assert(scrap_pending(t));
    assert(scrap_pending(t2));
    let ks = keyword_statements(base, kids, i);
    let more = keyword_statements(base, kids, i + 1);
    assert(ks == seq![find_statement(keyword_target(base.keywords[i].0)), count] + more);
    if i + 1 < base.keywords.len() {
        lemma_keywords_run(base, kids, tos, i + 1);
        assert(scrap_run(t2, rs2) == (seq![more[0]] + (more.drop_first() + ls), Some(Ok::<(), FailureView>(()))));
        assert(scrap_run(t, rs) == (seq![count] + (seq![more[0]] + (more.drop_first() + ls)), Some(Ok::<(), FailureView>(()))));
        assert(ks.drop_first() + ls =~= seq![count] + (seq![more[0]] + (more.drop_first() + ls)));
    } else {
        assert(more =~= Seq::<StatementView>::empty());
        assert(keyword_replies(kids, i + 1) =~= Seq::<ReplyView>::empty());
        assert(rest =~= lr);
        assert(next == enter_link(base, 0));
        if base.links.len() > 0 {
            lemma_links_run(base, tos, 0);
            assert(scrap_run(t2, rs2) == (seq![ls[0]] + ls.drop_first(), Some(Ok::<(), FailureView>(()))));
            assert(ls =~= seq![ls[0]] + ls.drop_first());
        } else {
            assert(ls =~= Seq::<StatementView>::empty());
            assert(scrap_run(t2, rs2) == (Seq::<StatementView>::empty(), Some(Ok::<(), FailureView>(()))));
        }
        assert(scrap_run(t, rs) == (seq![count] + ls, Some(Ok::<(), FailureView>(()))));
        assert(ks.drop_first() + ls =~= seq![count] + ls);
    }
}

/// When the index holds the scraped link, every keyword (with ids `kids`)
/// and every linked URL (with ids `tos`) already, recording a scrap result
/// looks up the link, then for each keyword in order looks it up and sets
/// its count at the link, then for each linked URL in order looks it up and
/// records that the link points to it, and succeeds.
pub proof fn lemma_scrap_full_run(
    url: Seq<char>,
    keywords: Seq<(Seq<char>, u32)>,
    links: Seq<Seq<char>>,
    link_id: i64,
    kids: Seq<i64>,
    tos: Seq<i64>,
)
    requires
        key_of(url) is Ok,
        forall|j: int| 0 <= j < links.len() ==> (#[trigger] key_of(links[j])) is Ok,
        kids.len() == keywords.len(),
        tos.len() == links.len(),
    ensures
        ({
            let (s, st) = scrap_begin(url, keywords, links);
            let found = ScrapView { link_id, ..s };
            &&& st == StepView::<()>::Run(StatementView::LinkId { key: key_of(url)->Ok_0 })
            &&& scrap_run(s, seq![ReplyView::Row(link_id)] + keyword_replies(kids, 0) + link_replies(tos, 0)) == (
                keyword_statements(found, kids, 0) + link_statements(found, tos, 0),
                Some(Ok::<(), FailureView>(())),
            )
        }),
{
    let (s, st) = scrap_begin(url, keywords, links);
    let b = ScrapView { link_id, ..s };
    assert(links_have_keys(b));
    let kr = keyword_replies(kids, 0);
    let lr = link_replies(tos, 0);
    let ks = keyword_statements(b, kids, 0);
    let ls = link_statements(b, tos, 0);
    let rs = seq![ReplyView::Row(link_id)] + kr + lr;
    assert(rs[0] == ReplyView::Row(link_id));
    assert(rs.drop_first() =~= kr + lr);
    assert(scrap_pending(s));
    let (s1, st1) = scrap_advance(s, rs[0]);
    assert((s1, st1) == enter_keyword(b, 0));
    if keywords.len() > 0 {
        lemma_keywords_run(b, kids, tos, 0);
        assert(ks =~= seq![ks[0]] + ks.drop_first());
        assert(ks + ls =~= seq![ks[0]] + (ks.drop_first() + ls));
    } else {
        assert(kr =~= Seq::<ReplyView>::empty());
        assert(ks =~= Seq::<StatementView>::empty());
        assert(kr + lr =~= lr);
        assert(ks + ls =~= ls);
        if links.len() > 0 {
            lemma_links_run(b, tos, 0);
            assert(ls =~= seq![ls[0]] + ls.drop_first());
        } else {
            assert(ls =~= Seq::<StatementView>::empty());
        }
    }
}

// ---------------------------------------------------------------------------
// What a successful run has done.

/// A change that recording a scrap result makes to the index: a keyword's
/// count set at a link, or a link recorded as pointing to another.
pub enum Effect {
    Count { link_id: i64, count: u32 },
    Points { link_id: i64 },
}

/// The change a statement makes, if it is one of those.
pub open spec fn effect_of(q: StatementView) -> Option<Effect> {
    match q {
        StatementView::SetKeywordCount { link_id, count, .. } => Some(Effect::Count { link_id, count }),
        StatementView::AddLinkTo { link_id, .. } => Some(Effect::Points { link_id }),
        _ => None,
    }
}

/// The changes that statements make, in order.
pub open spec fn effects(qs: Seq<StatementView>) -> Seq<Effect>
    decreases qs.len(),
{
    if qs.len() == 0 {
        Seq::empty()
    } else {
        let rest = effects(qs.drop_first());
        match effect_of(qs[0]) {
            Some(e) => seq![e] + rest,
            None => rest,
        }
    }
}

/// The counts at link `lid` of the keywords from `i` on.
pub open spec fn counts_from(lid: i64, keywords: Seq<(Seq<char>, u32)>, i: int) -> Seq<Effect>
    decreases keywords.len() - i,
{
    if i < 0 || i >= keywords.len() {
        Seq::empty()
    } else {
        seq![Effect::Count { link_id: lid, count: keywords[i].1 }] + counts_from(lid, keywords, i + 1)
    }
}

/// One link from `lid` for each linked URL from `j` on, of `m`.
pub open spec fn points_from(lid: i64, m: int, j: int) -> Seq<Effect>
    decreases m - j,
{
    if j < 0 || j >= m {
        Seq::empty()
    } else {
        seq![Effect::Points { link_id: lid }] + points_from(lid, m, j + 1)
    }
}

/// The changes still to be made from a state on.
pub open spec fn effects_to_come(s: ScrapView) -> Seq<Effect> {
    let m = s.links.len() as int;
    match s.stage {
        ScrapStageView::Keyword { index, .. } =>
            counts_from(s.link_id, s.keywords, index) + points_from(s.link_id, m, 0),
        ScrapStageView::Counting { index } =>
            counts_from(s.link_id, s.keywords, index + 1) + points_from(s.link_id, m, 0),
        ScrapStageView::Link { index, .. } => points_from(s.link_id, m, index),
        ScrapStageView::Linking { index } => points_from(s.link_id, m, index + 1),
        _ => Seq::empty(),
    }
}

proof fn lemma_effects_cons(q: StatementView, qs: Seq<StatementView>)
    ensures
        effects(seq![q] + qs) == match effect_of(q) {
            Some(e) => seq![e] + effects(qs),
            None => effects(qs),
        },
{
    let all = seq![q] + qs;
    assert(all[0] == q);
    assert(all.drop_first() =~= qs);
}

proof fn lemma_soi_statements(s: SelectOrInsertView, r: ReplyView)
    ensures
        soi_advance(s, r).1 matches StepView::Run(q) ==> q == insert_statement(s.target),
{
}

proof fn lemma_parts_statements(p: PartIdsView, r: ReplyView)
    ensures
        parts_advance(p, r).1 matches StepView::Run(q) ==> effect_of(q) is None,
{
    lemma_soi_statements(p.sub, r);
}

proof fn lemma_loi_statements(s: LinkOrInsertView, r: ReplyView, url: Seq<char>)
    ensures
        loi_advance(s, r).1 matches StepView::Run(q) ==> effect_of(q) is None,
        loi_begin(url).1 matches StepView::Run(q) ==> effect_of(q) is None,
{
    if let LinkOrInsertView::Parts(p) = s {
        lemma_parts_statements(p, r);
    }
}

proof fn lemma_counts_unfold(lid: i64, keywords: Seq<(Seq<char>, u32)>, i: int)
    requires
        0 <= i < keywords.len(),
    ensures
        counts_from(lid, keywords, i) == seq![Effect::Count { link_id: lid, count: keywords[i].1 }] + counts_from(lid, keywords, i + 1),
{
}

proof fn lemma_effects_of_run(s: ScrapView, replies: Seq<ReplyView>)
    requires
        scrap_pending(s),
        !(s.stage is FindingLink),
        scrap_run(s, replies).1 == Some(Ok::<(), FailureView>(())),
    ensures
        effects(scrap_run(s, replies).0) == effects_to_come(s),
    decreases replies.len(),
{
    let r = replies[0];
    let (s2, st) = scrap_advance(s, r);
    let lid = s.link_id;
    let m = s.links.len() as int;
    lemma_scrap_pending(Seq::empty(), Seq::empty(), Seq::empty(), s, r);
    match st {
        StepView::Run(q) => {
            let rest = scrap_run(s2, replies.drop_first());
            assert(scrap_run(s, replies) == (seq![q] + rest.0, rest.1));
            assert(scrap_pending(s2));
            assert(!(s2.stage is FindingLink)) by {
                match s.stage {
                    ScrapStageView::Counting { index } => {
                        if index + 1 >= s.keywords.len() && s.links.len() > 0 {
                            lemma_loi_statements(LinkOrInsertView::Finished, r, s.links[0]);
                        }
                    },
                    _ => {},
                }
            }
            lemma_effects_of_run(s2, replies.drop_first());
            lemma_effects_cons(q, rest.0);
            match s.stage {
                ScrapStageView::Keyword { index, sub } => {
                    lemma_soi_statements(sub, r);
                    lemma_counts_unfold(lid, s.keywords, index);
                    if effect_of(q) is Some {
                        assert(effects_to_come(s) =~= seq![Effect::Count { link_id: lid, count: s.keywords[index].1 }]
                            + effects_to_come(s2));
                    }
                },
                ScrapStageView::Counting { index } => {
                    if index + 1 >= s.keywords.len() {
                        lemma_loi_statements(LinkOrInsertView::Finished, r, s.links[0]);
                        assert(counts_from(lid, s.keywords, index + 1) =~= Seq::<Effect>::empty());
                        assert(effects_to_come(s) =~= points_from(lid, m, 0));
                    }
                },
                ScrapStageView::Link { index, sub } => {
                    lemma_loi_statements(sub, r, s.links[index]);
                },
                ScrapStageView::Linking { index } => {
                    if index + 1 < m {
                        lemma_loi_statements(LinkOrInsertView::Finished, r, s.links[index + 1]);
                    }
                },
                _ => {},
            }
        },
        StepView::Finish(o) => {
            assert(scrap_run(s, replies) == (Seq::<StatementView>::empty(), Some(o)));
            match s.stage {
                ScrapStageView::Counting { index } => {
                    assert(counts_from(lid, s.keywords, index + 1) =~= Seq::<Effect>::empty());
                    assert(points_from(lid, m, 0) =~= Seq::<Effect>::empty());
                },
                ScrapStageView::Linking { index } => {
                    assert(points_from(lid, m, index + 1) =~= Seq::<Effect>::empty());
                },
                _ => {},
            }
            assert(effects_to_come(s) =~= Seq::<Effect>::empty());
        },
    }
}

/// A scrap result is recorded only in full: whatever the index replies,
/// when recording succeeds its first reply gave the link's id, and it has
/// set the count of every keyword at that link, in order, and then recorded
/// one link from it for every linked URL, and made no other such change.
pub proof fn lemma_scrap_success_is_complete(
    url: Seq<char>,
    keywords: Seq<(Seq<char>, u32)>,
    links: Seq<Seq<char>>,
    replies: Seq<ReplyView>,
)
    requires
        scrap_run(scrap_begin(url, keywords, links).0, replies).1 == Some(Ok::<(), FailureView>(())),
    ensures
        replies.len() > 0,
        replies[0] is Row,
        effects(scrap_run(scrap_begin(url, keywords, links).0, replies).0)
            == counts_from(replies[0]->Row_0, keywords, 0) + points_from(replies[0]->Row_0, links.len() as int, 0),
{
    let s = scrap_begin(url, keywords, links).0;
    assert(scrap_pending(s));
    let r = replies[0];
    let (s1, st1) = scrap_advance(s, r);
    let lid = r->Row_0;
    let b = ScrapView { link_id: lid, ..s };
    lemma_scrap_pending(url, keywords, links, s, r);
    match st1 {
        StepView::Run(q) => {
            let rest = scrap_run(s1, replies.drop_first());
            assert(scrap_run(s, replies) == (seq![q] + rest.0, rest.1));
            if keywords.len() == 0 && links.len() > 0 {
                lemma_loi_statements(LinkOrInsertView::Finished, r, links[0]);
            }
            assert(!(s1.stage is FindingLink));
            lemma_effects_of_run(s1, replies.drop_first());
            lemma_effects_cons(q, rest.0);
            if keywords.len() == 0 {
                assert(counts_from(lid, keywords, 0) =~= Seq::<Effect>::empty());
                assert(effects_to_come(s1) =~= counts_from(lid, keywords, 0) + points_from(lid, links.len() as int, 0));
            }
        },
        StepView::Finish(o) => {
            assert(counts_from(lid, keywords, 0) =~= Seq::<Effect>::empty());
            assert(points_from(lid, links.len() as int, 0) =~= Seq::<Effect>::empty());
        },
    }
}

} // verus!
