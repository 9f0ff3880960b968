//! Step machines for the daemon's procedures on its link index. Each job
//! hands out one statement at a time; the caller runs it against the
//! index and hands the reply back, until the job finishes with its outcome.

pub mod step;
pub mod select_or_insert;
pub mod parts;
pub mod links;
pub mod scrap;
pub mod apply;
pub mod next_work;
pub mod model;
