//! Handing out work: the link checked least recently is marked as checked
//! now, and its URL is claimed for the scrapper that asked.

use vstd::prelude::*;
use crate::error::{Failure, FailureView};
use crate::link::{LinkKeyView, compose_url, link_url};
use crate::pubkey::PubKeyBytes;
use crate::command::{Command, CommandView};
use crate::statement::{Statement, StatementView};
use crate::jobs::step::{Reply, ReplyView, Step, StepView};

verus! {

/// The row of a link: its id, its https flag (1 for https), host, path and query.
pub struct LinkRow {
    pub id: i64,
    pub https: i64,
    pub host: String,
    pub path: String,
    pub query: String,
}

pub struct LinkRowView {
    pub id: i64,
    pub https: i64,
    pub host: Seq<char>,
    pub path: Seq<char>,
    pub query: Seq<char>,
}

impl View for LinkRow {
    type V = LinkRowView;

    open spec fn view(&self) -> LinkRowView {
        LinkRowView { id: self.id, https: self.https, host: self.host@, path: self.path@, query: self.query@ }
    }
}

/// The URL of a link row.
pub open spec fn row_url(r: LinkRowView) -> Seq<char> {
    link_url(LinkKeyView { https: r.https == 1, host: r.host, path: r.path, query: r.query })
}

/// What the lookup of the oldest link gave back: a row, no row, or an error.
pub enum OldestReplyView {
    Row(LinkRowView),
    NoRow,
    Failed(Seq<char>),
}

pub open spec fn oldest_reply_view(r: Result<Option<LinkRow>, String>) -> OldestReplyView {
    match r {
        Ok(Some(row)) => OldestReplyView::Row(row@),
        Ok(None) => OldestReplyView::NoRow,
        Err(t) => OldestReplyView::Failed(t@),
    }
}

/// Where handing out work stands.
pub enum NextWorkStage {
    Oldest,
    Touching { url: String },
    Finished,
}

pub enum NextWorkStageView {
    Oldest,
    Touching { url: Seq<char> },
    Finished,
}

impl View for NextWorkStage {
    type V = NextWorkStageView;

    open spec fn view(&self) -> NextWorkStageView {
        match self {
            NextWorkStage::Oldest => NextWorkStageView::Oldest,
            NextWorkStage::Touching { url } => NextWorkStageView::Touching { url: url@ },
            NextWorkStage::Finished => NextWorkStageView::Finished,
        }
    }
}

pub struct NextWorkView {
    pub pubkey: Seq<u8>,
    pub oid: Seq<char>,
    pub stage: NextWorkStageView,
}

/// How the oldest link is taken: the link row marks it as checked now, and
/// its URL is kept for the claim; no link at all, or an error, ends the job.
pub open spec fn next_work_row(s: NextWorkView, r: OldestReplyView) -> (NextWorkView, StepView<CommandView>) {
    match r {
        OldestReplyView::Row(row) => (
            NextWorkView { stage: NextWorkStageView::Touching { url: row_url(row) }, ..s },
            StepView::Run(StatementView::TouchLink { link_id: row.id }),
        ),
        OldestReplyView::NoRow => (
            NextWorkView { stage: NextWorkStageView::Finished, ..s },
            StepView::Finish(Err(FailureView::MissingRow)),
        ),
        OldestReplyView::Failed(t) => (
            NextWorkView { stage: NextWorkStageView::Finished, ..s },
            StepView::Finish(Err(FailureView::Store(t))),
        ),
    }
}

/// Once the link is marked, the outcome is the claim of its URL for the
/// request `oid` of the scrapper with key `pubkey`.
pub open spec fn next_work_advance(s: NextWorkView, r: ReplyView) -> (NextWorkView, StepView<CommandView>) {
    let done = NextWorkView { stage: NextWorkStageView::Finished, ..s };
    match r {
        ReplyView::Failed(t) => (done, StepView::Finish(Err(FailureView::Store(t)))),
        _ => (done, StepView::Finish(Ok(CommandView::ClaimWork {
            pubkey: s.pubkey,
            oid: s.oid,
            url: match s.stage {
                NextWorkStageView::Touching { url } => url,
                _ => Seq::empty(),
            },
        }))),
    }
}

/// Handing out work under way.
pub struct NextWorkJob {
    pubkey: PubKeyBytes,
    oid: String,
    stage: NextWorkStage,
}

impl View for NextWorkJob {
    type V = NextWorkView;

    closed spec fn view(&self) -> NextWorkView {
        NextWorkView { pubkey: self.pubkey@, oid: self.oid@, stage: self.stage@ }
    }
}

/// Begins handing out work for the request `oid` of the scrapper with key
/// `pubkey`: the link checked least recently is looked up.
pub fn handle_next_work(pubkey: PubKeyBytes, oid: String) -> (res: (NextWorkJob, Statement))
    ensures
        res.0@ == (NextWorkView { pubkey: pubkey@, oid: oid@, stage: NextWorkStageView::Oldest }),
        res.1@ == StatementView::OldestLink,
{
    (NextWorkJob { pubkey, oid, stage: NextWorkStage::Oldest }, Statement::OldestLink)
}

impl NextWorkJob {
    /// Whether the job waits for the row of the oldest link.
    pub fn awaits_row(&self) -> (b: bool)
        ensures
            b == (self@.stage is Oldest),
    {
        match self.stage {
            NextWorkStage::Oldest => true,
            _ => false,
        }
    }

    /// Whether the job waits for the reply to marking the link.
    pub fn awaits_touch(&self) -> (b: bool)
        ensures
            b == (self@.stage is Touching),
    {
        match self.stage {
            NextWorkStage::Touching { .. } => true,
            _ => false,
        }
    }

    /// Goes on with the row of the oldest link.
    pub fn take_row(&mut self, row: Result<Option<LinkRow>, String>) -> (step: Step<Command>)
        requires
            old(self)@.stage is Oldest,
        ensures
            (final(self)@, step@) == next_work_row(old(self)@, oldest_reply_view(row)),
    {
        match row {
            Ok(Some(r)) => {
                let url = compose_url(r.https == 1, r.host.as_str(), r.path.as_str(), r.query.as_str());
                self.stage = NextWorkStage::Touching { url };
                Step::Run(Statement::TouchLink { link_id: r.id })
            },
            Ok(None) => {
                self.stage = NextWorkStage::Finished;
                Step::Finish(Err(Failure::MissingRow))
            },
            Err(t) => {
                self.stage = NextWorkStage::Finished;
                Step::Finish(Err(Failure::Store(t)))
            },
        }
    }

    /// Goes on with the reply to marking the link.
    pub fn resume(&mut self, reply: Reply) -> (step: Step<Command>)
        requires
            old(self)@.stage is Touching,
        ensures
            (final(self)@, step@) == next_work_advance(old(self)@, reply@),
    {
        let mut stage = NextWorkStage::Finished;
        core::mem::swap(&mut stage, &mut self.stage);
        let url = match stage {
            NextWorkStage::Touching { url } => url,
            _ => String::new(),
        };
        match reply {
            Reply::Failed(t) => Step::Finish(Err(Failure::Store(t))),
            _ => Step::Finish(Ok(Command::ClaimWork { pubkey: self.pubkey, oid: self.oid.clone(), url })),
        }
    }
}

/// Work handed out answers the request it was made for: once the oldest
/// link is found and marked, the outcome is a claim of that link's URL
/// with the scrapper's key and the request's name; a missing link, or an
/// error of the index, ends the job without a claim.
pub proof fn lemma_claim_answers_request(pubkey: Seq<u8>, oid: Seq<char>, row: OldestReplyView, r: ReplyView)
    ensures
        ({
            let s0 = NextWorkView { pubkey, oid, stage: NextWorkStageView::Oldest };
            let (s1, st1) = next_work_row(s0, row);
            &&& (st1 is Run <==> row is Row)
            &&& (row matches OldestReplyView::Row(lr) ==> {
                &&& st1 == StepView::<CommandView>::Run(StatementView::TouchLink { link_id: lr.id })
                &&& (r !is Failed ==> next_work_advance(s1, r).1 == StepView::<CommandView>::Finish(
                    Ok(CommandView::ClaimWork { pubkey, oid, url: row_url(lr) }),
                ))
            })
        }),
{
}

} // verus!
