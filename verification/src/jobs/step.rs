//! Replies to statements and the steps that jobs take.

use vstd::prelude::*;
use crate::error::{Failure, FailureView};
use crate::statement::{Statement, StatementView};

verus! {

/// What running a statement gave back: the first column of the row it
/// yielded, no row (which is also the reply to a statement that yields
/// nothing), or the index's report of an error.
pub enum Reply {
    Row(i64),
    NoRow,
    Failed(String),
}

pub enum ReplyView {
    Row(i64),
    NoRow,
    Failed(Seq<char>),
}

impl View for Reply {
    type V = ReplyView;

    open spec fn view(&self) -> ReplyView {
        match self {
            Reply::Row(id) => ReplyView::Row(*id),
            Reply::NoRow => ReplyView::NoRow,
            Reply::Failed(t) => ReplyView::Failed(t@),
        }
    }
}

/// The next step of a job: run a statement, or finish with an outcome.
pub enum Step<T> {
    Run(Statement),
    Finish(Result<T, Failure>),
}

pub enum StepView<T> {
    Run(StatementView),
    Finish(Result<T, FailureView>),
}

impl<T: View> View for Step<T> {
    type V = StepView<T::V>;

    open spec fn view(&self) -> StepView<T::V> {
        match self {
            Step::Run(s) => StepView::Run(s@),
            Step::Finish(Ok(t)) => StepView::Finish(Ok(t@)),
            Step::Finish(Err(f)) => StepView::Finish(Err(f@)),
        }
    }
}

/// Carries a `Run` step of one job over as a step of another.
pub fn rerun<T: View, U: View>(st: Step<T>) -> (r: Step<U>)
    requires
        st is Run,
    ensures
        r@ == StepView::<U::V>::Run(st->Run_0@),
{
    match st {
        Step::Run(q) => Step::Run(q),
        Step::Finish(_) => Step::Run(Statement::OldestLink),
    }
}

} // verus!
