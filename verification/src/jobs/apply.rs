//! Applying a command that arrived in a block to the link index.

use vstd::prelude::*;
use crate::command::{Command, CommandView};
use crate::error::{Failure, FailureView};
use crate::jobs::step::{Reply, ReplyView, Step, StepView};
use crate::jobs::links::{
    lemma_index_pending, ClaimWork, IndexUrl, IndexStageView, claim_begin, effect_outcome, handle_add_url, handle_claim_work,
    index_advance, index_begin, index_pending,
};
use crate::jobs::scrap::{lemma_scrap_pending, Scrap, ScrapView, handle_scrap_result, scrap_advance, scrap_begin, scrap_pending};

verus! {

/// Applying a command under way.
pub enum Apply {
    Index(IndexUrl),
    Claim(ClaimWork),
    Scrap(Scrap),
    Nothing,
}

pub enum ApplyView {
    Index(IndexStageView),
    Claim(bool),
    Scrap(ScrapView),
    Nothing,
}

impl View for Apply {
    type V = ApplyView;

    open spec fn view(&self) -> ApplyView {
        match self {
            Apply::Index(j) => ApplyView::Index(j@),
            Apply::Claim(j) => ApplyView::Claim(j@),
            Apply::Scrap(j) => ApplyView::Scrap(j@),
            Apply::Nothing => ApplyView::Nothing,
        }
    }
}

/// Whether applying a command waits for a reply.
pub open spec fn apply_pending(a: ApplyView) -> bool {
    match a {
        ApplyView::Index(j) => index_pending(j),
        ApplyView::Claim(b) => b,
        ApplyView::Scrap(s) => scrap_pending(s),
        ApplyView::Nothing => false,
    }
}

/// How applying a command begins: `AddUrl` indexes its URL, `ClaimWork`
/// marks the claimed link as checked, `ScrapResult` records what was found,
/// and `NextWork` (answered when a block is made) changes nothing.
pub open spec fn apply_begin(c: CommandView) -> (ApplyView, StepView<()>) {
    match c {
        CommandView::AddUrl { url } => {
            let (j, st) = index_begin(url);
            (ApplyView::Index(j), st)
        },
        CommandView::NextWork { .. } => (ApplyView::Nothing, StepView::Finish(Ok(()))),
        CommandView::ClaimWork { url, .. } => {
            let (j, st) = claim_begin(url);
            (ApplyView::Claim(j), st)
        },
        CommandView::ScrapResult { url, keywords, links } => {
            let (j, st) = scrap_begin(url, keywords, links);
            (ApplyView::Scrap(j), st)
        },
    }
}

/// How applying a command goes on: as the job it began.
pub open spec fn apply_advance(a: ApplyView, r: ReplyView) -> (ApplyView, StepView<()>) {
    match a {
        ApplyView::Index(j) => {
            let (j2, st) = index_advance(j, r);
            (ApplyView::Index(j2), st)
        },
        ApplyView::Claim(_) => (ApplyView::Claim(false), effect_outcome(r)),
        ApplyView::Scrap(j) => {
            let (j2, st) = scrap_advance(j, r);
            (ApplyView::Scrap(j2), st)
        },
        ApplyView::Nothing => (ApplyView::Nothing, StepView::Finish(Err(FailureView::MissingRow))),
    }
}

/// Begins applying `cmd`, which arrived in a block, to the link index.
pub fn apply_command(cmd: Command) -> (res: (Apply, Step<()>))
    ensures
        (res.0@, res.1@) == apply_begin(cmd@),
{
    match cmd {
        Command::AddUrl { url } => {
            let (j, st) = handle_add_url(url.as_str());
            (Apply::Index(j), st)
        },
        Command::NextWork { .. } => (Apply::Nothing, Step::Finish(Ok(()))),
        Command::ClaimWork { url, .. } => {
            let (j, st) = handle_claim_work(url.as_str());
            (Apply::Claim(j), st)
        },
        Command::ScrapResult { url, keywords, links } => {
            let (j, st) = handle_scrap_result(url.as_str(), keywords, links);
            (Apply::Scrap(j), st)
        },
    }
}

impl Apply {
    /// Whether the job waits for a reply.
    pub fn is_pending(&self) -> (b: bool)
        ensures
            b == apply_pending(self@),
    {
        match self {
            Apply::Index(j) => j.is_pending(),
            Apply::Claim(j) => j.is_pending(),
            Apply::Scrap(j) => j.is_pending(),
            Apply::Nothing => false,
        }
    }

    /// Goes on with the reply to the statement it last handed out.
    pub fn resume(&mut self, reply: Reply) -> (step: Step<()>)
        requires
            apply_pending(old(self)@),
        ensures
            (final(self)@, step@) == apply_advance(old(self)@, reply@),
    {
        match self {
            Apply::Index(j) => j.resume(reply),
            Apply::Claim(j) => j.resume(reply),
            Apply::Scrap(j) => j.resume(reply),
            Apply::Nothing => Step::Finish(Err(Failure::MissingRow)),
        }
    }
}

/// Applying a command hands out a statement exactly while it waits for a
/// reply, so a caller that runs each statement handed out and stops at the
/// outcome always meets the demands of `Apply::resume`.
pub proof fn lemma_apply_pending(c: CommandView, a: ApplyView, r: ReplyView)
    ensures
        (apply_begin(c).1 is Run) == apply_pending(apply_begin(c).0),
        apply_pending(a) ==> ((apply_advance(a, r).1 is Run) == apply_pending(apply_advance(a, r).0)),
{
    match c {
        CommandView::AddUrl { url } => lemma_index_pending(url, IndexStageView::Finished, r),
        CommandView::ScrapResult { url, keywords, links } => {
            let s = scrap_begin(url, keywords, links).0;
            lemma_scrap_pending(url, keywords, links, s, r);
        },
        _ => {},
    }
    match a {
        ApplyView::Index(j) => lemma_index_pending(Seq::empty(), j, r),
        ApplyView::Scrap(j) => lemma_scrap_pending(Seq::empty(), Seq::empty(), Seq::empty(), j, r),
        _ => {},
    }
}

/// A command asking for work changes nothing in the index when it arrives
/// in a block: it is answered when a block is made.
pub proof fn lemma_work_request_applies_nothing(pubkey: Seq<u8>, oid: Seq<char>)
    ensures
        apply_begin(CommandView::NextWork { pubkey, oid }) == (ApplyView::Nothing, StepView::<()>::Finish(Ok(()))),
{
}

} // verus!
