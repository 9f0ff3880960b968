//! The messages of the daemon's websocket and HTTP APIs, and what the
//! daemon does with each.

use vstd::prelude::*;
use crate::error::Failure;
use crate::pubkey::{PubKeyBytes, decode_pubkey, hex_decoding};
use crate::command::{Command, CommandView};
use crate::jobs::scrap::links_view;
use crate::keywords::KeywordCounts;

verus! {

/// A message on the daemon's websocket, told apart by its `kind`.
pub enum TarantulaMessage {
    /// Add a URL to the index.
    AddUrl { url: String },
    /// A scrapper, identified by its public key in hexadecimal, asks for work.
    NextWork { pubkey: String },
    /// The URL handed out to a scrapper that asked for work.
    NextWorkAnswer { url: String },
    /// What a scrapper found at a URL.
    ScrapResult { url: String, keywords: KeywordCounts, links: Vec<String> },
}

/// What the daemon does with a websocket message.
pub enum MessageAction {
    /// Checks whether the URL is new, and shares it if so.
    AddUrl(String),
    /// Hands out work to the scrapper with this key, answering with a
    /// `NextWorkAnswer`.
    NextWork(PubKeyBytes),
    /// Reports a message that only the daemon sends.
    Unexpected,
    /// Nothing.
    Ignore,
}

/// Decides what to do with a websocket message: a request for work must
/// carry a valid key.
pub fn handle_message(msg: TarantulaMessage) -> (res: Result<MessageAction, Failure>)
    ensures
        match msg {
            TarantulaMessage::AddUrl { url } => res matches Ok(MessageAction::AddUrl(u)) && u@ == url@,
            TarantulaMessage::NextWork { pubkey } => match hex_decoding(pubkey@) {
                Some(b) => if b.len() == 33 {
                    res matches Ok(MessageAction::NextWork(k)) && k@ == b
                } else {
                    res matches Err(Failure::InvalidPubKey)
                },
                None => res matches Err(Failure::InvalidPubKey),
            },
            TarantulaMessage::NextWorkAnswer { .. } => res matches Ok(MessageAction::Unexpected),
            TarantulaMessage::ScrapResult { .. } => res matches Ok(MessageAction::Ignore),
        },
{
    match msg {
        TarantulaMessage::AddUrl { url } => Ok(MessageAction::AddUrl(url)),
        TarantulaMessage::NextWork { pubkey } => {
            let key = decode_pubkey(pubkey.as_str())?;
            Ok(MessageAction::NextWork(key))
        },
        TarantulaMessage::NextWorkAnswer { .. } => Ok(MessageAction::Unexpected),
        TarantulaMessage::ScrapResult { .. } => Ok(MessageAction::Ignore),
    }
}

/// The answer to a request for work.
pub fn next_work_answer(url: String) -> (m: TarantulaMessage)
    ensures
        m matches TarantulaMessage::NextWorkAnswer { url: u } && u == url,
{
    TarantulaMessage::NextWorkAnswer { url }
}

/// The body of `POST /api/add-url`.
pub struct AddUrl {
    pub url: String,
}

/// The answer to `POST /api/next-work/{pubkey}`.
pub struct NextWork {
    pub url: String,
}

/// The body of `POST /api/scrap-result`.
pub struct ScrapResult {
    pub url: String,
    pub keywords: KeywordCounts,
    pub links: Vec<String>,
}

/// The form of the search page.
pub struct SearchForm {
    pub query: String,
}

/// The form of the page that adds a URL.
pub struct AddUrlForm {
    pub url: String,
}

/// The key in the path of `POST /api/next-work/{pubkey}`.
pub fn next_work_key(pubkey: &str) -> (res: Result<PubKeyBytes, Failure>)
    ensures
        match hex_decoding(pubkey@) {
            Some(b) => if b.len() == 33 {
                res matches Ok(k) && k@ == b
            } else {
                res matches Err(Failure::InvalidPubKey)
            },
            None => res matches Err(Failure::InvalidPubKey),
        },
{
    decode_pubkey(pubkey)
}

/// The answer to a request for work over HTTP.
pub fn next_work(url: String) -> (res: NextWork)
    ensures
        res.url == url,
{
    NextWork { url }
}

impl ScrapResult {
    /// The command that shares this scrap result with the network.
    pub fn into_command(self) -> (c: Command)
        ensures
            c@ == (CommandView::ScrapResult {
                url: self.url@,
                keywords: self.keywords@,
                links: links_view(self.links@),
            }),
    {
        Command::ScrapResult { url: self.url, keywords: self.keywords, links: self.links }
    }
}

/// The command that asks the network for work for the scrapper with key
/// `pubkey`, naming the request `oid`.
pub fn work_request(pubkey: PubKeyBytes, oid: String) -> (c: Command)
    ensures
        c@ == (CommandView::NextWork { pubkey: pubkey@, oid: oid@ }),
{
    Command::NextWork { pubkey, oid }
}

/// The command that shares a new URL with the network.
pub fn share_url(url: String) -> (c: Command)
    ensures
        c@ == (CommandView::AddUrl { url: url@ }),
{
    Command::AddUrl { url }
}

} // verus!
