use tarantula::command::{work_requests, Command};
use tarantula::error::Failure;
use tarantula::jobs::apply::{apply_command, Apply};
use tarantula::jobs::links::{
    add_url, get_link_id, get_link_id_or_insert, handle_add_url, handle_claim_work, ClaimWork, IndexUrl,
    LinkLookup, LinkOrInsert, ShareUrl,
};
use tarantula::jobs::next_work::{handle_next_work, LinkRow};
use tarantula::jobs::parts::PartIds;
use tarantula::jobs::scrap::{handle_scrap_result, Scrap};
use tarantula::jobs::select_or_insert::{select_or_insert, select_or_insert_host, SelectOrInsert};
use tarantula::jobs::step::{Reply, Step};
use tarantula::keywords::KeywordCounts;

fn kw(pairs: &[(&str, u32)]) -> KeywordCounts {
    let mut k = KeywordCounts::new();
    for (name, count) in pairs {
        k.set(name.to_string(), *count);
    }
    k
}
use tarantula::link::LinkKey;
use tarantula::statement::{Param, Statement, Yield};

trait Job<T> {
    fn pending(&self) -> bool;
    fn next(&mut self, reply: Reply) -> Step<T>;
}

impl Job<i64> for SelectOrInsert {
    fn pending(&self) -> bool {
        !self.is_finished()
    }
    fn next(&mut self, reply: Reply) -> Step<i64> {
        self.resume(reply)
    }
}

impl Job<(i64, i64, i64)> for PartIds {
    fn pending(&self) -> bool {
        self.is_pending()
    }
    fn next(&mut self, reply: Reply) -> Step<(i64, i64, i64)> {
        self.resume(reply)
    }
}

impl Job<()> for IndexUrl {
    fn pending(&self) -> bool {
        self.is_pending()
    }
    fn next(&mut self, reply: Reply) -> Step<()> {
        self.resume(reply)
    }
}

impl Job<bool> for ShareUrl {
    fn pending(&self) -> bool {
        self.is_pending()
    }
    fn next(&mut self, reply: Reply) -> Step<bool> {
        self.resume(reply)
    }
}

impl Job<()> for ClaimWork {
    fn pending(&self) -> bool {
        self.is_pending()
    }
    fn next(&mut self, reply: Reply) -> Step<()> {
        self.resume(reply)
    }
}

impl Job<i64> for LinkLookup {
    fn pending(&self) -> bool {
        self.is_pending()
    }
    fn next(&mut self, reply: Reply) -> Step<i64> {
        self.resume(reply)
    }
}

impl Job<i64> for LinkOrInsert {
    fn pending(&self) -> bool {
        self.is_pending()
    }
    fn next(&mut self, reply: Reply) -> Step<i64> {
        self.resume(reply)
    }
}

impl Job<()> for Scrap {
    fn pending(&self) -> bool {
        self.is_pending()
    }
    fn next(&mut self, reply: Reply) -> Step<()> {
        self.resume(reply)
    }
}

impl Job<()> for Apply {
    fn pending(&self) -> bool {
        self.is_pending()
    }
    fn next(&mut self, reply: Reply) -> Step<()> {
        self.resume(reply)
    }
}

/// Runs a job, answering the statements it hands out with `replies` in
/// order; returns the SQL of each statement handed out and the outcome.
fn run<T, J: Job<T>>(start: (J, Step<T>), replies: Vec<Reply>) -> (Vec<Statement>, Result<T, Failure>) {
    let (mut job, mut step) = start;
    let mut issued = Vec::new();
    let mut replies = replies.into_iter();
    loop {
        match step {
            Step::Run(s) => {
                assert!(job.pending());
                issued.push(s);
                let r = replies.next().expect("a reply for every statement");
                step = job.next(r);
            }
            Step::Finish(out) => {
                assert!(!job.pending());
                assert!(replies.next().is_none(), "all replies used");
                return (issued, out);
            }
        }
    }
}

fn sqls(v: &[Statement]) -> Vec<String> {
    v.iter().map(|s| s.sql()).collect()
}

fn row(id: i64) -> Reply {
    Reply::Row(id)
}

#[test]
fn select_or_insert_found() {
    let (issued, out) = run(select_or_insert("path", "path", "/a"), vec![row(7)]);
    assert_eq!(sqls(&issued), vec!["SELECT id FROM path WHERE path = $1"]);
    assert_eq!(out.ok(), Some(7));
}

#[test]
fn select_or_insert_missing_inserts() {
    let (issued, out) = run(select_or_insert("query", "query", "x=1"), vec![Reply::NoRow, row(12)]);
    assert_eq!(
        sqls(&issued),
        vec!["SELECT id FROM query WHERE query = $1", "INSERT INTO query(query) VALUES($1) RETURNING id"]
    );
    assert!(matches!(&issued[1].params()[..], [Param::Text(v)] if v == "x=1"));
    assert_eq!(out.ok(), Some(12));
}

#[test]
fn select_or_insert_failures() {
    let (_, out) = run(select_or_insert("path", "path", "/a"), vec![Reply::Failed("locked".to_string())]);
    assert!(matches!(out, Err(Failure::Store(m)) if m == "locked"));
    let (_, out) = run(select_or_insert("path", "path", "/a"), vec![Reply::NoRow, Reply::NoRow]);
    assert!(matches!(out, Err(Failure::MissingRow)));
}

#[test]
fn select_or_insert_host_statements() {
    let (issued, out) = run(select_or_insert_host("example.com", true), vec![Reply::NoRow, row(3)]);
    assert_eq!(
        sqls(&issued),
        vec![
            "SELECT id FROM host WHERE https = $1 AND name = $2",
            "INSERT INTO host(https, name) VALUES($1, $2) RETURNING id"
        ]
    );
    assert!(matches!(&issued[0].params()[..], [Param::Flag(true), Param::Text(n)] if n == "example.com"));
    assert_eq!(out.ok(), Some(3));
}

#[test]
fn part_ids_of_a_key() {
    let k = LinkKey::parse("https://example.com/p?q").ok().unwrap();
    let (issued, out) = run(PartIds::start(&k), vec![row(1), Reply::NoRow, row(2), row(3)]);
    assert_eq!(issued.len(), 4);
    assert!(matches!(&issued[2], Statement::InsertValue { table, value, .. } if table == "path" && value == "/p"));
    assert!(matches!(&issued[3], Statement::FindValue { table, value, .. } if table == "query" && value == "q"));
    assert_eq!(out.ok(), Some((1, 2, 3)));
}

#[test]
fn index_url_adds_link() {
    let (issued, out) = run(handle_add_url("https://example.com/p"), vec![row(1), row(2), row(3), Reply::NoRow]);
    assert_eq!(issued.len(), 4);
    assert!(matches!(&issued[2], Statement::FindValue { table, value, .. } if table == "query" && value == ""));
    assert!(matches!(issued[3], Statement::AddLink { host_id: 1, path_id: 2, query_id: 3 }));
    assert_eq!(issued[3].yields(), Yield::Nothing);
    assert!(out.is_ok());
}

#[test]
fn index_url_refuses_bad_url() {
    let (issued, out) = run(handle_add_url("no url"), vec![]);
    assert!(issued.is_empty());
    assert!(matches!(out, Err(Failure::InvalidUrl(_))));
}

#[test]
fn index_url_stops_at_first_error() {
    let (issued, out) = run(handle_add_url("https://example.com/"), vec![row(1), Reply::Failed("io".to_string())]);
    assert_eq!(issued.len(), 2);
    assert!(matches!(out, Err(Failure::Store(m)) if m == "io"));
}

#[test]
fn add_url_shares_only_new_links() {
    let (issued, out) = run(add_url("https://example.com/new"), vec![Reply::NoRow]);
    assert!(matches!(&issued[0], Statement::FindLink { key } if key.path == "/new"));
    assert_eq!(out.ok(), Some(true));
    let (_, out) = run(add_url("https://example.com/old"), vec![row(5)]);
    assert_eq!(out.ok(), Some(false));
    let (issued, out) = run(add_url("gopher://example.com/"), vec![]);
    assert!(issued.is_empty());
    assert!(matches!(out, Err(Failure::UnsupportedScheme(s)) if s == "gopher"));
}

#[test]
fn claim_marks_link() {
    let (issued, out) = run(handle_claim_work("http://example.com/a?b"), vec![Reply::NoRow]);
    assert!(matches!(&issued[0], Statement::TouchLinkByKey { key } if !key.https && key.query == "b"));
    assert!(issued[0].sql().starts_with("UPDATE link SET last_check = current_timestamp WHERE host_id ="));
    assert!(out.is_ok());
    let (_, out) = run(handle_claim_work("data:text/plain,x"), vec![]);
    assert!(matches!(out, Err(Failure::MissingHost)));
}

#[test]
fn link_lookup_requires_row() {
    let (_, out) = run(get_link_id("https://example.com/"), vec![row(9)]);
    assert_eq!(out.ok(), Some(9));
    let (_, out) = run(get_link_id("https://example.com/"), vec![Reply::NoRow]);
    assert!(matches!(out, Err(Failure::MissingRow)));
}

#[test]
fn link_or_insert_paths() {
    let (issued, out) = run(get_link_id_or_insert("https://example.com/x"), vec![row(4)]);
    assert_eq!(issued.len(), 1);
    assert_eq!(out.ok(), Some(4));
    let (issued, out) =
        run(get_link_id_or_insert("https://example.com/x"), vec![Reply::NoRow, row(1), row(2), row(3), row(10)]);
    assert_eq!(issued.len(), 5);
    assert!(matches!(issued[4], Statement::InsertLink { host_id: 1, path_id: 2, query_id: 3 }));
    assert_eq!(out.ok(), Some(10));
    let (_, out) =
        run(get_link_id_or_insert("https://example.com/x"), vec![Reply::NoRow, row(1), row(2), row(3), Reply::NoRow]);
    assert!(matches!(out, Err(Failure::MissingRow)));
}

#[test]
fn scrap_records_keywords_and_links() {
    let keywords = kw(&[("rust", 3), ("verus", 5)]);
    let links = vec!["https://a.org/".to_string(), "https://b.org/x".to_string()];
    let replies = vec![
        row(100),
        row(1),
        Reply::NoRow,
        Reply::NoRow,
        row(2),
        Reply::NoRow,
        row(200),
        Reply::NoRow,
        Reply::NoRow,
        row(11),
        row(12),
        row(13),
        row(201),
        Reply::NoRow,
    ];
    let (issued, out) = run(handle_scrap_result("https://example.com/", keywords, links), replies);
    assert!(out.is_ok());
    assert!(matches!(&issued[0], Statement::LinkId { .. }));
    assert!(matches!(&issued[1], Statement::FindValue { table, column, value } if table == "keyword" && column == "name" && value == "rust"));
    assert!(matches!(issued[2], Statement::SetKeywordCount { link_id: 100, keyword_id: 1, count: 3 }));
    assert!(matches!(&issued[3], Statement::FindValue { value, .. } if value == "verus"));
    assert!(matches!(&issued[4], Statement::InsertValue { value, .. } if value == "verus"));
    assert!(matches!(issued[5], Statement::SetKeywordCount { link_id: 100, keyword_id: 2, count: 5 }));
    assert!(matches!(&issued[6], Statement::LinkId { key } if key.host == "a.org"));
    assert!(matches!(issued[7], Statement::AddLinkTo { link_id: 100, to_id: 200 }));
    assert!(matches!(&issued[8], Statement::LinkId { key } if key.path == "/x"));
    assert!(matches!(issued[12], Statement::InsertLink { host_id: 11, path_id: 12, query_id: 13 }));
    assert!(matches!(issued[13], Statement::AddLinkTo { link_id: 100, to_id: 201 }));
    assert_eq!(issued.len(), 14);
}

#[test]
fn scrap_needs_indexed_link() {
    let (_, out) = run(handle_scrap_result("https://example.com/", KeywordCounts::new(), vec![]), vec![Reply::NoRow]);
    assert!(matches!(out, Err(Failure::MissingRow)));
    let (issued, out) = run(handle_scrap_result("https://example.com/", KeywordCounts::new(), vec![]), vec![row(1)]);
    assert_eq!(issued.len(), 1);
    assert!(out.is_ok());
}

#[test]
fn scrap_stops_at_bad_link() {
    let (issued, out) =
        run(handle_scrap_result("https://example.com/", KeywordCounts::new(), vec!["not a url".to_string()]), vec![row(1)]);
    assert_eq!(issued.len(), 1);
    assert!(matches!(out, Err(Failure::InvalidUrl(_))));
}

#[test]
fn apply_commands_from_blocks() {
    let (issued, out) = run(apply_command(Command::AddUrl { url: "https://e.com/".to_string() }), vec![row(1), row(2), row(3), Reply::NoRow]);
    assert_eq!(issued.len(), 4);
    assert!(out.is_ok());
    let (issued, out) = run(apply_command(Command::NextWork { pubkey: [2; 33], oid: "o".to_string() }), vec![]);
    assert!(issued.is_empty());
    assert!(out.is_ok());
    let claim = Command::ClaimWork { pubkey: [2; 33], oid: "o".to_string(), url: "https://e.com/".to_string() };
    assert_eq!(claim.claim(), Some(("o".to_string(), "https://e.com/".to_string())));
    let (issued, out) = run(apply_command(claim), vec![Reply::NoRow]);
    assert!(matches!(&issued[0], Statement::TouchLinkByKey { .. }));
    assert!(out.is_ok());
}

#[test]
fn next_work_claims_oldest_link() {
    let (mut job, st) = handle_next_work([7; 33], "req1".to_string());
    assert!(matches!(st, Statement::OldestLink));
    assert_eq!(st.yields(), Yield::LinkRow);
    assert!(job.awaits_row());
    let row = LinkRow { id: 5, https: 1, host: "example.com".to_string(), path: "/p".to_string(), query: "a=b".to_string() };
    let step = job.take_row(Ok(Some(row)));
    assert!(matches!(step, Step::Run(Statement::TouchLink { link_id: 5 })));
    assert!(job.awaits_touch());
    match job.resume(Reply::NoRow) {
        Step::Finish(Ok(Command::ClaimWork { pubkey, oid, url })) => {
            assert_eq!(pubkey, [7; 33]);
            assert_eq!(oid, "req1");
            assert_eq!(url, "https://example.com/p?a=b");
        }
        _ => panic!("expected a claim"),
    }
}

#[test]
fn next_work_without_links() {
    let (mut job, _) = handle_next_work([7; 33], "r".to_string());
    assert!(matches!(job.take_row(Ok(None)), Step::Finish(Err(Failure::MissingRow))));
    let (mut job, _) = handle_next_work([7; 33], "r".to_string());
    let row = LinkRow { id: 1, https: 0, host: "h".to_string(), path: "/".to_string(), query: "".to_string() };
    let _ = job.take_row(Ok(Some(row)));
    assert!(matches!(job.resume(Reply::Failed("x".to_string())), Step::Finish(Err(Failure::Store(_)))));
}

#[test]
fn block_work_requests() {
    let cmds = vec![
        Command::AddUrl { url: "u".to_string() },
        Command::NextWork { pubkey: [1; 33], oid: "a".to_string() },
        Command::ClaimWork { pubkey: [1; 33], oid: "z".to_string(), url: "u".to_string() },
        Command::NextWork { pubkey: [2; 33], oid: "b".to_string() },
    ];
    let reqs = work_requests(&cmds);
    assert_eq!(reqs, vec![([1; 33], "a".to_string()), ([2; 33], "b".to_string())]);
    assert_eq!(cmds[0].work_request(), None);
}
