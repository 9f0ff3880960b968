//! Finding (or adding) the ids of the host, path and query of a link key.

use vstd::prelude::*;
use crate::error::{Failure, FailureView};
use crate::link::{LinkKey, LinkKeyView};
use crate::jobs::step::{Reply, ReplyView, Step, StepView, rerun};
use crate::jobs::select_or_insert::{
    Phase, SelectOrInsert, SelectOrInsertView, TargetView, find_statement, select_or_insert,
    select_or_insert_host, soi_advance, soi_begin,
};

verus! {

/// The host of a link key, as a select-or-insert target.
pub open spec fn host_target(k: LinkKeyView) -> TargetView {
    TargetView::Host { https: k.https, name: k.host }
}

/// The path of a link key, as a select-or-insert target.
pub open spec fn path_target(k: LinkKeyView) -> TargetView {
    TargetView::Value { table: "path"@, column: "path"@, value: k.path }
}

/// The query of a link key, as a select-or-insert target.
pub open spec fn query_target(k: LinkKeyView) -> TargetView {
    TargetView::Value { table: "query"@, column: "query"@, value: k.query }
}

/// Which part's id is being found, and the ids found before it.
#[derive(PartialEq, Eq, Structural, Clone, Copy)]
pub enum PartStage {
    Host,
    Path { host_id: i64 },
    Query { host_id: i64, path_id: i64 },
    Finished,
}

pub struct PartIdsView {
    pub key: LinkKeyView,
    pub stage: PartStage,
    pub sub: SelectOrInsertView,
}

/// Whether the job waits for a reply.
pub open spec fn parts_pending(s: PartIdsView) -> bool {
    s.stage != PartStage::Finished && s.sub.phase != Phase::Finished
}

/// How finding the part ids of `k` begins: with the host's select-or-insert.
pub open spec fn parts_begin(k: LinkKeyView) -> (PartIdsView, StepView<(i64, i64, i64)>) {
    (
        PartIdsView { key: k, stage: PartStage::Host, sub: soi_begin(host_target(k)).0 },
        StepView::Run(find_statement(host_target(k))),
    )
}

/// How finding the part ids goes on after a reply: the host's, then the
/// path's, then the query's select-or-insert; the three ids are the outcome,
/// and the first failure ends it.
pub open spec fn parts_advance(s: PartIdsView, r: ReplyView) -> (PartIdsView, StepView<(i64, i64, i64)>)
    recommends
        parts_pending(s),
{
    let (sub, st) = soi_advance(s.sub, r);
    match st {
        StepView::Run(q) => (PartIdsView { sub, ..s }, StepView::Run(q)),
        StepView::Finish(Err(e)) => (PartIdsView { stage: PartStage::Finished, sub, ..s }, StepView::Finish(Err(e))),
        StepView::Finish(Ok(id)) => match s.stage {
            PartStage::Host => (
                PartIdsView { stage: PartStage::Path { host_id: id }, sub: soi_begin(path_target(s.key)).0, ..s },
                StepView::Run(find_statement(path_target(s.key))),
            ),
            PartStage::Path { host_id } => (
                PartIdsView {
                    stage: PartStage::Query { host_id, path_id: id },
                    sub: soi_begin(query_target(s.key)).0,
                    ..s
                },
                StepView::Run(find_statement(query_target(s.key))),
            ),
            PartStage::Query { host_id, path_id } => (
                PartIdsView { stage: PartStage::Finished, sub, ..s },
                StepView::Finish(Ok((host_id, path_id, id))),
            ),
            PartStage::Finished => (PartIdsView { sub, ..s }, StepView::Finish(Err(FailureView::MissingRow))),
        },
    }
}

/// A job finding the ids of the host, path and query of a link key.
pub struct PartIds {
    key: LinkKey,
    stage: PartStage,
    sub: SelectOrInsert,
}

impl View for PartIds {
    type V = PartIdsView;

    closed spec fn view(&self) -> PartIdsView {
        PartIdsView { key: self.key@, stage: self.stage, sub: self.sub@ }
    }
}

/// A step of finding the part ids runs a statement exactly while the job
/// waits for a reply.
pub proof fn lemma_parts_pending(s: PartIdsView, r: ReplyView)
    requires
        parts_pending(s),
    ensures
        parts_pending(parts_begin(s.key).0),
        parts_advance(s, r).1 is Run <==> parts_pending(parts_advance(s, r).0),
        parts_advance(s, r).0.key == s.key,
{
}

impl PartIds {
    /// Begins finding the part ids of `key`.
    pub fn start(key: &LinkKey) -> (res: (PartIds, Step<(i64, i64, i64)>))
        ensures
            (res.0@, res.1@) == parts_begin(key@),
    {
        let (sub, st) = select_or_insert_host(key.host.as_str(), key.https);
        (PartIds { key: key.copy(), stage: PartStage::Host, sub }, rerun(st))
    }

    /// Whether the job waits for a reply.
    pub fn is_pending(&self) -> (b: bool)
        ensures
            b == parts_pending(self@),
    {
        self.stage != PartStage::Finished && !self.sub.is_finished()
    }

    /// Goes on with the reply to the statement it last handed out.
    pub fn resume(&mut self, reply: Reply) -> (step: Step<(i64, i64, i64)>)
        requires
            parts_pending(old(self)@),
        ensures
            (final(self)@, step@) == parts_advance(old(self)@, reply@),
    {
        let st = self.sub.resume(reply);
        match st {
            Step::Run(q) => Step::Run(q),
            Step::Finish(Err(e)) => {
                self.stage = PartStage::Finished;
                Step::Finish(Err(e))
            },
            Step::Finish(Ok(id)) => match self.stage {
                PartStage::Host => {
                    let (sub, st2) = select_or_insert("path", "path", self.key.path.as_str());
                    self.sub = sub;
                    self.stage = PartStage::Path { host_id: id };
                    rerun(st2)
                },
                PartStage::Path { host_id } => {
                    let (sub, st2) = select_or_insert("query", "query", self.key.query.as_str());
                    self.sub = sub;
                    self.stage = PartStage::Query { host_id, path_id: id };
                    rerun(st2)
                },
                PartStage::Query { host_id, path_id } => {
                    self.stage = PartStage::Finished;
                    Step::Finish(Ok((host_id, path_id, id)))
                },
                PartStage::Finished => Step::Finish(Err(Failure::MissingRow)),
            },
        }
    }
}

} // verus!
