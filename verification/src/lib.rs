//! The verified core of the Tarantula search engine daemon and scrapper:
//! error reports, link keys derived from URLs, the statements the daemon
//! issues against its link index, the step machines that order them, the
//! commands shared over the peer network, and the messages of its APIs.

pub mod error;
pub mod keywords;
pub mod link;
pub mod pubkey;
pub mod statement;
pub mod jobs;
pub mod command;
pub mod messages;
pub mod scrapper;
pub mod faq;
