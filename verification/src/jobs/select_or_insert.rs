//! Looking up the id of a host, path, query or keyword, and adding it where
//! it is missing.

use vstd::prelude::*;
use crate::error::{Failure, FailureView};
use crate::statement::{Statement, StatementView};
use crate::jobs::step::{Reply, ReplyView, Step, StepView};

verus! {

/// What a select-or-insert is about: a host (by its https flag and name),
/// or the row of `table` whose `column` holds `value`.
pub enum Target {
    Host { https: bool, name: String },
    Value { table: String, column: String, value: String },
}

pub enum TargetView {
    Host { https: bool, name: Seq<char> },
    Value { table: Seq<char>, column: Seq<char>, value: Seq<char> },
}

impl View for Target {
    type V = TargetView;

    open spec fn view(&self) -> TargetView {
        match self {
            Target::Host { https, name } => TargetView::Host { https: *https, name: name@ },
            Target::Value { table, column, value } =>
                TargetView::Value { table: table@, column: column@, value: value@ },
        }
    }
}

/// The statement that looks a target up.
pub open spec fn find_statement(t: TargetView) -> StatementView {
    match t {
        TargetView::Host { https, name } => StatementView::FindHost { https, name },
        TargetView::Value { table, column, value } => StatementView::FindValue { table, column, value },
    }
}

/// The statement that adds a target.
pub open spec fn insert_statement(t: TargetView) -> StatementView {
    match t {
        TargetView::Host { https, name } => StatementView::InsertHost { https, name },
        TargetView::Value { table, column, value } => StatementView::InsertValue { table, column, value },
    }
}

/// Where a select-or-insert stands.
#[derive(PartialEq, Eq, Structural, Clone, Copy)]
pub enum Phase {
    Finding,
    Inserting,
    Finished,
}

pub struct SelectOrInsertView {
    pub target: TargetView,
    pub phase: Phase,
}

/// How a select-or-insert begins: it looks its target up.
pub open spec fn soi_begin(t: TargetView) -> (SelectOrInsertView, StepView<i64>) {
    (SelectOrInsertView { target: t, phase: Phase::Finding }, StepView::Run(find_statement(t)))
}

/// How a select-or-insert goes on after a reply: a found id is its outcome;
/// where the lookup found nothing it adds the target, whose new id is then
/// its outcome; an insert that yields no row, or an error of the index, ends it.
pub open spec fn soi_advance(s: SelectOrInsertView, r: ReplyView) -> (SelectOrInsertView, StepView<i64>)
    recommends
        s.phase != Phase::Finished,
{
    let done = SelectOrInsertView { phase: Phase::Finished, ..s };
    match r {
        ReplyView::Failed(t) => (done, StepView::Finish(Err(FailureView::Store(t)))),
        ReplyView::Row(id) => (done, StepView::Finish(Ok(id))),
        ReplyView::NoRow => if s.phase == Phase::Finding {
            (SelectOrInsertView { phase: Phase::Inserting, ..s }, StepView::Run(insert_statement(s.target)))
        } else {
            (done, StepView::Finish(Err(FailureView::MissingRow)))
        },
    }
}

/// A select-or-insert under way.
pub struct SelectOrInsert {
    target: Target,
    phase: Phase,
}

impl View for SelectOrInsert {
    type V = SelectOrInsertView;

    closed spec fn view(&self) -> SelectOrInsertView {
        SelectOrInsertView { target: self.target@, phase: self.phase }
    }
}

fn find_of(t: &Target) -> (s: Statement)
    ensures
        s@ == find_statement(t@),
{
    match t {
        Target::Host { https, name } => Statement::FindHost { https: *https, name: name.clone() },
        Target::Value { table, column, value } =>
            Statement::FindValue { table: table.clone(), column: column.clone(), value: value.clone() },
    }
}

fn insert_of(t: &Target) -> (s: Statement)
    ensures
        s@ == insert_statement(t@),
{
    match t {
        Target::Host { https, name } => Statement::InsertHost { https: *https, name: name.clone() },
        Target::Value { table, column, value } =>
            Statement::InsertValue { table: table.clone(), column: column.clone(), value: value.clone() },
    }
}

impl SelectOrInsert {
    /// Whether this select-or-insert has finished.
    pub fn is_finished(&self) -> (b: bool)
        ensures
            b == (self@.phase == Phase::Finished),
    {
        self.phase == Phase::Finished
    }

    /// Begins a select-or-insert of `target`.
    pub fn start(target: Target) -> (res: (SelectOrInsert, Step<i64>))
        ensures
            (res.0@, res.1@) == soi_begin(target@),
    {
        let st = find_of(&target);
        (SelectOrInsert { target, phase: Phase::Finding }, Step::Run(st))
    }

    /// Goes on with the reply to the statement it last handed out.
    pub fn resume(&mut self, reply: Reply) -> (step: Step<i64>)
        requires
            old(self)@.phase != Phase::Finished,
        ensures
            (final(self)@, step@) == soi_advance(old(self)@, reply@),
    {
        match reply {
            Reply::Failed(t) => {
                self.phase = Phase::Finished;
                Step::Finish(Err(Failure::Store(t)))
            },
            Reply::Row(id) => {
                self.phase = Phase::Finished;
                Step::Finish(Ok(id))
            },
            Reply::NoRow => {
                if self.phase == Phase::Finding {
                    self.phase = Phase::Inserting;
                    Step::Run(insert_of(&self.target))
                } else {
                    self.phase = Phase::Finished;
                    Step::Finish(Err(Failure::MissingRow))
                }
            },
        }
    }
}

/// Begins looking up the id of the row of table `name` whose column `col`
/// holds `val`, adding the row where there is none.
pub fn select_or_insert(name: &str, col: &str, val: &str) -> (res: (SelectOrInsert, Step<i64>))
    ensures
        (res.0@, res.1@) == soi_begin(TargetView::Value { table: name@, column: col@, value: val@ }),
{
    SelectOrInsert::start(Target::Value { table: name.to_owned(), column: col.to_owned(), value: val.to_owned() })
}

/// Begins looking up the id of the host `val` (served over https or not),
/// adding the host where it is missing.
pub fn select_or_insert_host(val: &str, https: bool) -> (res: (SelectOrInsert, Step<i64>))
    ensures
        (res.0@, res.1@) == soi_begin(TargetView::Host { https, name: val@ }),
{
    SelectOrInsert::start(Target::Host { https, name: val.to_owned() })
}

/// A select-or-insert looks its target up first. Where the lookup yields a
/// row, that id is the outcome and nothing is added. Where it yields none,
/// the target is added, and the id the insert yields is the outcome. An
/// error of the index ends it with that error.
pub proof fn lemma_select_or_insert(t: TargetView, first: ReplyView, second: ReplyView)
    ensures
        soi_begin(t).1 == StepView::<i64>::Run(find_statement(t)),
        ({
            let (s1, step1) = soi_advance(soi_begin(t).0, first);
            &&& (first matches ReplyView::Row(id) ==> step1 == StepView::<i64>::Finish(Ok(id)))
            &&& (first matches ReplyView::Failed(e) ==> step1 == StepView::<i64>::Finish(Err(FailureView::Store(e))))
            &&& (first is NoRow ==> {
                let (s2, step2) = soi_advance(s1, second);
                &&& step1 == StepView::<i64>::Run(insert_statement(t))
                &&& s1.phase != Phase::Finished
                &&& s2.phase == Phase::Finished
                &&& (second matches ReplyView::Row(id) ==> step2 == StepView::<i64>::Finish(Ok(id)))
                &&& (second is NoRow ==> step2 == StepView::<i64>::Finish(Err(FailureView::MissingRow)))
                &&& (second matches ReplyView::Failed(e) ==> step2 == StepView::<i64>::Finish(Err(FailureView::Store(e))))
            })
        }),
{
}

} // verus!
