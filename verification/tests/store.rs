use sqlx::{sqlite::SqlitePoolOptions, Executor, Row, SqlitePool};
use tarantula::command::Command;
use tarantula::error::Failure;
use tarantula::jobs::apply::{apply_command, Apply};
use tarantula::jobs::links::{add_url, get_link_id, get_link_id_or_insert, LinkLookup, LinkOrInsert, ShareUrl};
use tarantula::jobs::next_work::{handle_next_work, LinkRow};
use tarantula::jobs::step::{Reply, Step};
use tarantula::keywords::KeywordCounts;
use tarantula::statement::{Param, Statement, Yield, SCHEMA};

fn kw(pairs: &[(&str, u32)]) -> KeywordCounts {
    let mut k = KeywordCounts::new();
    for (name, count) in pairs {
        k.set(name.to_string(), *count);
    }
    k
}

trait Job<T> {
    fn next(&mut self, reply: Reply) -> Step<T>;
}

impl Job<()> for Apply {
    fn next(&mut self, reply: Reply) -> Step<()> {
        self.resume(reply)
    }
}

impl Job<i64> for LinkOrInsert {
    fn next(&mut self, reply: Reply) -> Step<i64> {
        self.resume(reply)
    }
}

impl Job<i64> for LinkLookup {
    fn next(&mut self, reply: Reply) -> Step<i64> {
        self.resume(reply)
    }
}

impl Job<bool> for ShareUrl {
    fn next(&mut self, reply: Reply) -> Step<bool> {
        self.resume(reply)
    }
}

async fn execute(pool: &SqlitePool, st: &Statement) -> Reply {
    let sql = st.sql();
    let mut query = sqlx::query(&sql);
    for p in st.params() {
        query = match p {
            Param::Flag(b) => query.bind(b),
            Param::Int(i) => query.bind(i),
            Param::Text(t) => query.bind(t),
            Param::Count(c) => query.bind(c),
        };
    }
    match st.yields() {
        Yield::Id => match query.fetch_optional(pool).await {
            Ok(Some(row)) => Reply::Row(row.get(0)),
            Ok(None) => Reply::NoRow,
            Err(e) => Reply::Failed(e.to_string()),
        },
        _ => match query.execute(pool).await {
            Ok(_) => Reply::NoRow,
            Err(e) => Reply::Failed(e.to_string()),
        },
    }
}

async fn run<T, J: Job<T>>(pool: &SqlitePool, start: (J, Step<T>)) -> Result<T, Failure> {
    let (mut job, mut step) = start;
    loop {
        match step {
            Step::Run(st) => {
                let reply = execute(pool, &st).await;
                step = job.next(reply);
            }
            Step::Finish(out) => return out,
        }
    }
}

async fn count(pool: &SqlitePool, table: &str) -> i64 {
    sqlx::query(&format!("SELECT COUNT(*) FROM {}", table)).fetch_one(pool).await.unwrap().get(0)
}

async fn index_session() {
    let pool = SqlitePoolOptions::new().max_connections(1).connect("sqlite::memory:").await.unwrap();
    pool.execute(SCHEMA).await.unwrap();

    // A new URL is to be shared; once indexed, it is no longer new.
    assert_eq!(run(&pool, add_url("https://example.com/a?x=1")).await.ok(), Some(true));
    let add = Command::AddUrl { url: "https://example.com/a?x=1".to_string() };
    assert!(run(&pool, apply_command(add)).await.is_ok());
    assert_eq!(run(&pool, add_url("https://example.com/a?x=1")).await.ok(), Some(false));

    // Indexing it again adds nothing.
    let add = Command::AddUrl { url: "https://example.com/a?x=1".to_string() };
    assert!(run(&pool, apply_command(add)).await.is_ok());
    assert_eq!(count(&pool, "link").await, 1);
    assert_eq!(count(&pool, "host").await, 1);

    // Recording a scrap result counts keywords and links pages.
    let scrap = Command::ScrapResult {
        url: "https://example.com/a?x=1".to_string(),
        keywords: kw(&[("rust", 3), ("verus", 2)]),
        links: vec!["https://example.com/b".to_string(), "http://other.org/".to_string()],
    };
    assert!(run(&pool, apply_command(scrap)).await.is_ok());
    assert_eq!(count(&pool, "keyword").await, 2);
    assert_eq!(count(&pool, "link_keyword").await, 2);
    assert_eq!(count(&pool, "link").await, 3);
    assert_eq!(count(&pool, "link_to").await, 2);
    assert_eq!(count(&pool, "host").await, 2);

    // A second report updates the count in place.
    let scrap = Command::ScrapResult {
        url: "https://example.com/a?x=1".to_string(),
        keywords: kw(&[("rust", 7)]),
        links: vec!["https://example.com/b".to_string()],
    };
    assert!(run(&pool, apply_command(scrap)).await.is_ok());
    assert_eq!(count(&pool, "link_keyword").await, 2);
    assert_eq!(count(&pool, "link_to").await, 2);
    let c: i64 = sqlx::query(
        "SELECT lk.count FROM link_keyword lk JOIN keyword k ON k.id = lk.keyword_id WHERE k.name = 'rust'",
    )
    .fetch_one(&pool)
    .await
    .unwrap()
    .get(0);
    assert_eq!(c, 7);

    // A scrap result for an unknown link fails.
    let scrap = Command::ScrapResult { url: "https://nowhere.net/".to_string(), keywords: KeywordCounts::new(), links: vec![] };
    assert!(matches!(run(&pool, apply_command(scrap)).await, Err(Failure::MissingRow)));

    // Work is handed out as the URL of a link, which is then marked.
    let (mut job, st) = handle_next_work([3; 33], "r1".to_string());
    let row = sqlx::query(&st.sql()).fetch_optional(&pool).await.unwrap().map(|r| LinkRow {
        id: r.get(0),
        https: r.get(1),
        host: r.get(2),
        path: r.get(3),
        query: r.get(4),
    });
    let touch = match job.take_row(Ok(row)) {
        Step::Run(t) => t,
        Step::Finish(_) => panic!("there are links"),
    };
    let reply = execute(&pool, &touch).await;
    match job.resume(reply) {
        Step::Finish(Ok(Command::ClaimWork { oid, url, .. })) => {
            assert_eq!(oid, "r1");
            assert!(["https://example.com/a?x=1", "https://example.com/b", "http://other.org/"].contains(&url.as_str()));
            let claim = Command::ClaimWork { pubkey: [3; 33], oid, url };
            assert!(run(&pool, apply_command(claim)).await.is_ok());
        }
        _ => panic!("expected a claim"),
    }
}

#[test]
fn link_index_in_sqlite() {
    tokio::runtime::Builder::new_current_thread().enable_all().build().unwrap().block_on(index_session());
}

async fn repeat_session() {
    let pool = SqlitePoolOptions::new().max_connections(1).connect("sqlite::memory:").await.unwrap();
    pool.execute(SCHEMA).await.unwrap();

    // Finding (or adding) a link gives the same id again, and a lookup gives it too.
    let id = match run(&pool, get_link_id_or_insert("https://example.com/p?q=1")).await {
        Ok(id) => id,
        Err(_) => panic!("the link is added"),
    };
    assert_eq!(run(&pool, get_link_id("https://example.com/p?q=1")).await.ok(), Some(id));
    assert_eq!(run(&pool, get_link_id_or_insert("https://example.com/p?q=1")).await.ok(), Some(id));
    assert_eq!(count(&pool, "link").await, 1);
    assert_eq!(count(&pool, "host").await, 1);

    // Recording the same scrap result twice leaves the index as the first left it.
    let scrap = || Command::ScrapResult {
        url: "https://example.com/p?q=1".to_string(),
        keywords: kw(&[("spider", 4), ("web", 1)]),
        links: vec!["https://example.com/".to_string(), "https://other.net/x".to_string()],
    };
    assert!(run(&pool, apply_command(scrap())).await.is_ok());
    let tables = ["host", "path", "query", "link", "keyword", "link_keyword", "link_to"];
    let mut before = Vec::new();
    for t in tables {
        before.push(count(&pool, t).await);
    }
    assert_eq!(before, vec![2, 3, 2, 3, 2, 2, 2]);
    assert!(run(&pool, apply_command(scrap())).await.is_ok());
    let mut after = Vec::new();
    for t in tables {
        after.push(count(&pool, t).await);
    }
    assert_eq!(before, after);
    let c: i64 = sqlx::query(
        "SELECT lk.count FROM link_keyword lk JOIN keyword k ON k.id = lk.keyword_id WHERE k.name = 'spider'",
    )
    .fetch_one(&pool)
    .await
    .unwrap()
    .get(0);
    assert_eq!(c, 4);
}

#[test]
fn repeated_requests_in_sqlite() {
    tokio::runtime::Builder::new_current_thread().enable_all().build().unwrap().block_on(repeat_session());
}
