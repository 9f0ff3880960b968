//! The statements that the daemon issues against its link index (an SQL
//! database of hosts, paths, queries, links, keywords and the relations
//! between them), with the SQL text and the parameters of each, and the
//! replies that the step machines of `jobs` take back.

use vstd::prelude::*;
use vstd::string::*;
use crate::link::{LinkKey, LinkKeyView};

verus! {

/// The tables of the link index: hosts, paths and queries (each stored
/// once), links made of one of each (each stored once) with the time they
/// were last checked, keywords, how often each keyword occurs in each link,
/// and which links point to which.
pub const SCHEMA: &'static str = "CREATE TABLE host (id INTEGER PRIMARY KEY, https BOOLEAN NOT NULL, name TEXT NOT NULL, UNIQUE (https, name));
CREATE TABLE path (id INTEGER PRIMARY KEY, path TEXT NOT NULL UNIQUE);
CREATE TABLE query (id INTEGER PRIMARY KEY, query TEXT NOT NULL UNIQUE);
CREATE TABLE link (id INTEGER PRIMARY KEY, host_id INTEGER NOT NULL REFERENCES host(id), path_id INTEGER NOT NULL REFERENCES path(id), query_id INTEGER NOT NULL REFERENCES query(id), last_check TIMESTAMP NOT NULL DEFAULT 0, UNIQUE (host_id, path_id, query_id));
CREATE TABLE keyword (id INTEGER PRIMARY KEY, name TEXT NOT NULL UNIQUE, count INTEGER NOT NULL DEFAULT 1);
CREATE TABLE link_keyword (link_id INTEGER NOT NULL REFERENCES link(id), keyword_id INTEGER NOT NULL REFERENCES keyword(id), count INTEGER NOT NULL, PRIMARY KEY (link_id, keyword_id));
CREATE TABLE link_to (link_id INTEGER NOT NULL REFERENCES link(id), to_id INTEGER NOT NULL REFERENCES link(id), PRIMARY KEY (link_id, to_id));
";

/// A parameter bound to a statement, in the order `$1`, `$2`, ...
pub enum Param {
    Flag(bool),
    Int(i64),
    Text(String),
    Count(u32),
}

pub enum ParamView {
    Flag(bool),
    Int(i64),
    Text(Seq<char>),
    Count(u32),
}

impl View for Param {
    type V = ParamView;

    open spec fn view(&self) -> ParamView {
        match self {
            Param::Flag(b) => ParamView::Flag(*b),
            Param::Int(i) => ParamView::Int(*i),
            Param::Text(t) => ParamView::Text(t@),
            Param::Count(c) => ParamView::Count(*c),
        }
    }
}

/// What running a statement yields.
#[derive(PartialEq, Eq, Structural, Clone, Copy, Debug)]
pub enum Yield {
    /// Nothing: it only changes the index.
    Nothing,
    /// At most one row whose first column is an `id`.
    Id,
    /// At most one row: a link's id, its https flag (0 or 1), host, path and query.
    LinkRow,
    /// Rows of search results.
    SearchRows,
}

/// A statement against the link index.
pub enum Statement {
    /// Looks up the id of a host.
    FindHost { https: bool, name: String },
    /// Adds a host and returns its id.
    InsertHost { https: bool, name: String },
    /// Looks up the id of the row of `table` whose `column` holds `value`.
    FindValue { table: String, column: String, value: String },
    /// Adds a row to `table` with `value` in `column`, and returns its id.
    InsertValue { table: String, column: String, value: String },
    /// Adds a link, unless one with these ids is there already.
    AddLink { host_id: i64, path_id: i64, query_id: i64 },
    /// Adds a link and returns its id; yields no row where it is there already.
    InsertLink { host_id: i64, path_id: i64, query_id: i64 },
    /// Looks up the id of the link with this key, joining all four tables.
    FindLink { key: LinkKey },
    /// Looks up the id of the link with this key through the ids of its parts.
    LinkId { key: LinkKey },
    /// Marks the link with this key as checked now.
    TouchLinkByKey { key: LinkKey },
    /// The link checked least recently.
    OldestLink,
    /// Marks the link with this id as checked now.
    TouchLink { link_id: i64 },
    /// Sets how often a keyword occurs in a link.
    SetKeywordCount { link_id: i64, keyword_id: i64, count: u32 },
    /// Records that a link points to another.
    AddLinkTo { link_id: i64, to_id: i64 },
    /// The links that hold a keyword, heaviest first.
    Search { keyword: String },
}

pub enum StatementView {
    FindHost { https: bool, name: Seq<char> },
    InsertHost { https: bool, name: Seq<char> },
    FindValue { table: Seq<char>, column: Seq<char>, value: Seq<char> },
    InsertValue { table: Seq<char>, column: Seq<char>, value: Seq<char> },
    AddLink { host_id: i64, path_id: i64, query_id: i64 },
    InsertLink { host_id: i64, path_id: i64, query_id: i64 },
    FindLink { key: LinkKeyView },
    LinkId { key: LinkKeyView },
    TouchLinkByKey { key: LinkKeyView },
    OldestLink,
    TouchLink { link_id: i64 },
    SetKeywordCount { link_id: i64, keyword_id: i64, count: u32 },
    AddLinkTo { link_id: i64, to_id: i64 },
    Search { keyword: Seq<char> },
}

impl View for Statement {
    type V = StatementView;

    open spec fn view(&self) -> StatementView {
        match self {
            Statement::FindHost { https, name } => StatementView::FindHost { https: *https, name: name@ },
            Statement::InsertHost { https, name } => StatementView::InsertHost { https: *https, name: name@ },
            Statement::FindValue { table, column, value } =>
                StatementView::FindValue { table: table@, column: column@, value: value@ },
            Statement::InsertValue { table, column, value } =>
                StatementView::InsertValue { table: table@, column: column@, value: value@ },
            Statement::AddLink { host_id, path_id, query_id } =>
                StatementView::AddLink { host_id: *host_id, path_id: *path_id, query_id: *query_id },
            Statement::InsertLink { host_id, path_id, query_id } =>
                StatementView::InsertLink { host_id: *host_id, path_id: *path_id, query_id: *query_id },
            Statement::FindLink { key } => StatementView::FindLink { key: key@ },
            Statement::LinkId { key } => StatementView::LinkId { key: key@ },
            Statement::TouchLinkByKey { key } => StatementView::TouchLinkByKey { key: key@ },
            Statement::OldestLink => StatementView::OldestLink,
            Statement::TouchLink { link_id } => StatementView::TouchLink { link_id: *link_id },
            Statement::SetKeywordCount { link_id, keyword_id, count } =>
                StatementView::SetKeywordCount { link_id: *link_id, keyword_id: *keyword_id, count: *count },
            Statement::AddLinkTo { link_id, to_id } => StatementView::AddLinkTo { link_id: *link_id, to_id: *to_id },
            Statement::Search { keyword } => StatementView::Search { keyword: keyword@ },
        }
    }
}

/// The SQL that selects the id of a link by its key through the ids of its parts.
pub open spec fn link_by_parts_sql() -> Seq<char> {
    "WHERE host_id = (SELECT id FROM host WHERE https = $1 AND name = $2) AND path_id = (SELECT id FROM path WHERE path = $3) AND query_id = (SELECT id FROM query WHERE query = $4)"@
}

/// The SQL text of a statement.
pub open spec fn sql_text(s: StatementView) -> Seq<char> {
    match s {
        StatementView::FindHost { .. } => "SELECT id FROM host WHERE https = $1 AND name = $2"@,
        StatementView::InsertHost { .. } => "INSERT INTO host(https, name) VALUES($1, $2) RETURNING id"@,
        StatementView::FindValue { table, column, .. } =>
            "SELECT id FROM "@ + table + " WHERE "@ + column + " = $1"@,
        StatementView::InsertValue { table, column, .. } =>
            "INSERT INTO "@ + table + "("@ + column + ") VALUES($1) RETURNING id"@,
        StatementView::AddLink { .. } =>
            "INSERT INTO link(host_id, path_id, query_id) VALUES($1, $2, $3) ON CONFLICT (host_id, path_id, query_id) DO NOTHING"@,
        StatementView::InsertLink { .. } =>
            "INSERT INTO link(host_id, path_id, query_id) VALUES($1, $2, $3) ON CONFLICT (host_id, path_id, query_id) DO NOTHING RETURNING id"@,
        StatementView::FindLink { .. } =>
            "SELECT l.id FROM host h, path p, query f, link l WHERE l.host_id = h.id AND l.path_id = p.id AND l.query_id = f.id AND h.https = $1 AND h.name = $2 AND p.path = $3 AND f.query = $4"@,
        StatementView::LinkId { .. } => "SELECT id FROM link "@ + link_by_parts_sql(),
        StatementView::TouchLinkByKey { .. } => "UPDATE link SET last_check = current_timestamp "@ + link_by_parts_sql(),
        StatementView::OldestLink =>
            "SELECT l.id, h.https, h.name, p.path, q.query FROM link l LEFT JOIN host h ON l.host_id = h.id LEFT JOIN path p ON l.path_id = p.id LEFT JOIN query q ON l.query_id = q.id ORDER BY l.last_check LIMIT 1"@,
        StatementView::TouchLink { .. } => "UPDATE link SET last_check = current_timestamp WHERE id = $1"@,
        StatementView::SetKeywordCount { .. } =>
            "INSERT INTO link_keyword(link_id, keyword_id, count) VALUES($1, $2, $3) ON CONFLICT DO UPDATE SET count = $3"@,
        StatementView::AddLinkTo { .. } =>
            "INSERT INTO link_to(link_id, to_id) VALUES($1, $2) ON CONFLICT DO NOTHING"@,
        StatementView::Search { .. } =>
            "SELECT h.https, h.name, p.path, q.query, lk.link_id, SUM(lk.count / k.count) as weight, GROUP_CONCAT(k.name) FROM link_keyword lk LEFT JOIN link l ON l.id = lk.link_id LEFT JOIN keyword k ON k.id = lk.keyword_id LEFT JOIN host h ON h.id = l.host_id LEFT JOIN path p ON p.id = l.path_id LEFT JOIN query q ON q.id = l.query_id WHERE lk.keyword_id = k.id AND k.name = $1 GROUP BY lk.link_id ORDER BY weight DESC"@,
    }
}

pub open spec fn key_params(k: LinkKeyView) -> Seq<ParamView> {
    seq![ParamView::Flag(k.https), ParamView::Text(k.host), ParamView::Text(k.path), ParamView::Text(k.query)]
}

/// The parameters of a statement.
pub open spec fn params_of(s: StatementView) -> Seq<ParamView> {
    match s {
        StatementView::FindHost { https, name } => seq![ParamView::Flag(https), ParamView::Text(name)],
        StatementView::InsertHost { https, name } => seq![ParamView::Flag(https), ParamView::Text(name)],
        StatementView::FindValue { value, .. } => seq![ParamView::Text(value)],
        StatementView::InsertValue { value, .. } => seq![ParamView::Text(value)],
        StatementView::AddLink { host_id, path_id, query_id } =>
            seq![ParamView::Int(host_id), ParamView::Int(path_id), ParamView::Int(query_id)],
        StatementView::InsertLink { host_id, path_id, query_id } =>
            seq![ParamView::Int(host_id), ParamView::Int(path_id), ParamView::Int(query_id)],
        StatementView::FindLink { key } => key_params(key),
        StatementView::LinkId { key } => key_params(key),
        StatementView::TouchLinkByKey { key } => key_params(key),
        StatementView::OldestLink => Seq::empty(),
        StatementView::TouchLink { link_id } => seq![ParamView::Int(link_id)],
        StatementView::SetKeywordCount { link_id, keyword_id, count } =>
            seq![ParamView::Int(link_id), ParamView::Int(keyword_id), ParamView::Count(count)],
        StatementView::AddLinkTo { link_id, to_id } => seq![ParamView::Int(link_id), ParamView::Int(to_id)],
        StatementView::Search { keyword } => seq![ParamView::Text(keyword)],
    }
}

/// What a statement yields.
pub open spec fn yield_of(s: StatementView) -> Yield {
    match s {
        StatementView::FindHost { .. } => Yield::Id,
        StatementView::InsertHost { .. } => Yield::Id,
        StatementView::FindValue { .. } => Yield::Id,
        StatementView::InsertValue { .. } => Yield::Id,
        StatementView::InsertLink { .. } => Yield::Id,
        StatementView::FindLink { .. } => Yield::Id,
        StatementView::LinkId { .. } => Yield::Id,
        StatementView::OldestLink => Yield::LinkRow,
        StatementView::Search { .. } => Yield::SearchRows,
        _ => Yield::Nothing,
    }
}

fn text_param(s: &String) -> (p: Param)
    ensures
        p@ == ParamView::Text(s@),
{
    Param::Text(s.clone())
}

fn key_param_vec(k: &LinkKey) -> (v: Vec<Param>)
    ensures
        v@.map_values(|p: Param| p@) == key_params(k@),
{
    let v = vec![Param::Flag(k.https), text_param(&k.host), text_param(&k.path), text_param(&k.query)];
    assert(v@.map_values(|p: Param| p@) =~= key_params(k@));
    v
}

impl Statement {
    /// The SQL text of this statement.
    pub fn sql(&self) -> (s: String)
        ensures
            s@ == sql_text(self@),
    {
        match self {
            Statement::FindHost { .. } => "SELECT id FROM host WHERE https = $1 AND name = $2".to_owned(),
            Statement::InsertHost { .. } => "INSERT INTO host(https, name) VALUES($1, $2) RETURNING id".to_owned(),
            Statement::FindValue { table, column, .. } => {
                let mut s = "SELECT id FROM ".to_owned();
                s.append(table.as_str());
                s.append(" WHERE ");
                s.append(column.as_str());
                s.append(" = $1");
                s
            },
            Statement::InsertValue { table, column, .. } => {
                let mut s = "INSERT INTO ".to_owned();
                s.append(table.as_str());
                s.append("(");
                s.append(column.as_str());
                s.append(") VALUES($1) RETURNING id");
                s
            },
            Statement::AddLink { .. } =>
                "INSERT INTO link(host_id, path_id, query_id) VALUES($1, $2, $3) ON CONFLICT (host_id, path_id, query_id) DO NOTHING".to_owned(),
            Statement::InsertLink { .. } =>
                "INSERT INTO link(host_id, path_id, query_id) VALUES($1, $2, $3) ON CONFLICT (host_id, path_id, query_id) DO NOTHING RETURNING id".to_owned(),
            Statement::FindLink { .. } =>
                "SELECT l.id FROM host h, path p, query f, link l WHERE l.host_id = h.id AND l.path_id = p.id AND l.query_id = f.id AND h.https = $1 AND h.name = $2 AND p.path = $3 AND f.query = $4".to_owned(),
            Statement::LinkId { .. } => {
                let mut s = "SELECT id FROM link ".to_owned();
                s.append("WHERE host_id = (SELECT id FROM host WHERE https = $1 AND name = $2) AND path_id = (SELECT id FROM path WHERE path = $3) AND query_id = (SELECT id FROM query WHERE query = $4)");
                s
            },
            Statement::TouchLinkByKey { .. } => {
                let mut s = "UPDATE link SET last_check = current_timestamp ".to_owned();
                s.append("WHERE host_id = (SELECT id FROM host WHERE https = $1 AND name = $2) AND path_id = (SELECT id FROM path WHERE path = $3) AND query_id = (SELECT id FROM query WHERE query = $4)");
                s
            },
            Statement::OldestLink =>
                "SELECT l.id, h.https, h.name, p.path, q.query FROM link l LEFT JOIN host h ON l.host_id = h.id LEFT JOIN path p ON l.path_id = p.id LEFT JOIN query q ON l.query_id = q.id ORDER BY l.last_check LIMIT 1".to_owned(),
            Statement::TouchLink { .. } => "UPDATE link SET last_check = current_timestamp WHERE id = $1".to_owned(),
            Statement::SetKeywordCount { .. } =>
                "INSERT INTO link_keyword(link_id, keyword_id, count) VALUES($1, $2, $3) ON CONFLICT DO UPDATE SET count = $3".to_owned(),
            Statement::AddLinkTo { .. } =>
                "INSERT INTO link_to(link_id, to_id) VALUES($1, $2) ON CONFLICT DO NOTHING".to_owned(),
            Statement::Search { .. } =>
                "SELECT h.https, h.name, p.path, q.query, lk.link_id, SUM(lk.count / k.count) as weight, GROUP_CONCAT(k.name) FROM link_keyword lk LEFT JOIN link l ON l.id = lk.link_id LEFT JOIN keyword k ON k.id = lk.keyword_id LEFT JOIN host h ON h.id = l.host_id LEFT JOIN path p ON p.id = l.path_id LEFT JOIN query q ON q.id = l.query_id WHERE lk.keyword_id = k.id AND k.name = $1 GROUP BY lk.link_id ORDER BY weight DESC".to_owned(),
        }
    }

    /// The parameters of this statement, in the order `$1`, `$2`, ...
    pub fn params(&self) -> (v: Vec<Param>)
        ensures
            v@.map_values(|p: Param| p@) == params_of(self@),
    {
        let v = match self {
            Statement::FindHost { https, name } => vec![Param::Flag(*https), text_param(name)],
            Statement::InsertHost { https, name } => vec![Param::Flag(*https), text_param(name)],
            Statement::FindValue { value, .. } => vec![text_param(value)],
            Statement::InsertValue { value, .. } => vec![text_param(value)],
            Statement::AddLink { host_id, path_id, query_id } =>
                vec![Param::Int(*host_id), Param::Int(*path_id), Param::Int(*query_id)],
            Statement::InsertLink { host_id, path_id, query_id } =>
                vec![Param::Int(*host_id), Param::Int(*path_id), Param::Int(*query_id)],
            Statement::FindLink { key } => key_param_vec(key),
            Statement::LinkId { key } => key_param_vec(key),
            Statement::TouchLinkByKey { key } => key_param_vec(key),
            Statement::OldestLink => Vec::new(),
            Statement::TouchLink { link_id } => vec![Param::Int(*link_id)],
            Statement::SetKeywordCount { link_id, keyword_id, count } =>
                vec![Param::Int(*link_id), Param::Int(*keyword_id), Param::Count(*count)],
            Statement::AddLinkTo { link_id, to_id } => vec![Param::Int(*link_id), Param::Int(*to_id)],
            Statement::Search { keyword } => vec![text_param(keyword)],
        };
        assert(v@.map_values(|p: Param| p@) =~= params_of(self@));
        v
    }

    /// What running this statement yields.
    pub fn yields(&self) -> (y: Yield)
        ensures
            y == yield_of(self@),
    {
        match self {
            Statement::FindHost { .. } => Yield::Id,
            Statement::InsertHost { .. } => Yield::Id,
            Statement::FindValue { .. } => Yield::Id,
            Statement::InsertValue { .. } => Yield::Id,
            Statement::InsertLink { .. } => Yield::Id,
            Statement::FindLink { .. } => Yield::Id,
            Statement::LinkId { .. } => Yield::Id,
            Statement::OldestLink => Yield::LinkRow,
            Statement::Search { .. } => Yield::SearchRows,
            _ => Yield::Nothing,
        }
    }
}

// ---------------------------------------------------------------------------
// What the SQL says.

/// Whether `s` ends with `t`.
pub open spec fn ends_with(s: Seq<char>, t: Seq<char>) -> bool {
    t.len() <= s.len() && s.subrange(s.len() - t.len(), s.len() as int) == t
}

/// Whether `s` begins with `t`.
pub open spec fn starts_with(s: Seq<char>, t: Seq<char>) -> bool {
    t.len() <= s.len() && s.subrange(0, t.len() as int) == t
}

/// How a query orders its rows by `column`, by the ORDER BY clause that
/// ends it (or comes just before a LIMIT of one row): `Some(true)` for
/// ascending (SQL's default, or ASC), `Some(false)` for descending (DESC),
/// `None` where it is not ordered by that column.
pub open spec fn order_by(sql: Seq<char>, column: Seq<char>) -> Option<bool> {
    let clause = " ORDER BY "@ + column;
    if ends_with(sql, clause + " DESC"@) || ends_with(sql, clause + " DESC LIMIT 1"@) {
        Some(false)
    } else if ends_with(sql, clause) || ends_with(sql, clause + " ASC"@) || ends_with(sql, clause + " LIMIT 1"@)
        || ends_with(sql, clause + " ASC LIMIT 1"@) {
        Some(true)
    } else {
        None
    }
}

/// Whether the rows of a query can come with the values `keys` of `column`,
/// in this order: in ascending or descending order as the query orders its
/// rows by the column, in any order where it does not.
pub open spec fn rows_in_order(sql: Seq<char>, column: Seq<char>, keys: Seq<int>) -> bool {
    match order_by(sql, column) {
        Some(true) => forall|i: int, j: int| 0 <= i < j < keys.len() ==> keys[i] <= keys[j],
        Some(false) => forall|i: int, j: int| 0 <= i < j < keys.len() ==> keys[i] >= keys[j],
        None => true,
    }
}

/// Whether a query yields its first row only.
pub open spec fn first_row_only(sql: Seq<char>) -> bool {
    ends_with(sql, " LIMIT 1"@)
}

proof fn lemma_not_ends_with(s: Seq<char>, t: Seq<char>, i: int)
    requires
        0 <= i < t.len() <= s.len(),
        s[s.len() - 1 - i] != t[t.len() - 1 - i],
    ensures
        !ends_with(s, t),
{
    if ends_with(s, t) {
        assert(s.subrange(s.len() - t.len(), s.len() as int)[t.len() - 1 - i] == t[t.len() - 1 - i]);
    }
}

/// The work handed out is the link checked least recently: the statement
/// that looks it up yields one row, the first of the links ordered by the
/// time they were last checked, earliest first; so whatever those times are,
/// the link it yields was checked no later than any other.
pub proof fn lemma_work_is_least_recently_checked(checks: Seq<int>)
    ensures
        first_row_only(sql_text(StatementView::OldestLink)),
        rows_in_order(sql_text(StatementView::OldestLink), "l.last_check"@, checks)
            ==> forall|i: int| 0 <= i < checks.len() ==> checks[0] <= #[trigger] checks[i],
{
    let sql = sql_text(StatementView::OldestLink);
    reveal_strlit("SELECT l.id, h.https, h.name, p.path, q.query FROM link l LEFT JOIN host h ON l.host_id = h.id LEFT JOIN path p ON l.path_id = p.id LEFT JOIN query q ON l.query_id = q.id ORDER BY l.last_check LIMIT 1");
    reveal_strlit(" ORDER BY ");
    reveal_strlit("l.last_check");
    reveal_strlit(" DESC");
    reveal_strlit(" DESC LIMIT 1");
    reveal_strlit(" LIMIT 1");
    let clause = " ORDER BY "@ + "l.last_check"@;
    lemma_not_ends_with(sql, clause + " DESC"@, 0);
    lemma_not_ends_with(sql, clause + " DESC LIMIT 1"@, 8);
    let t = clause + " LIMIT 1"@;
    assert(sql.subrange(sql.len() - t.len(), sql.len() as int) =~= t);
    assert(order_by(sql, "l.last_check"@) == Some(true));
    let l = " LIMIT 1"@;
    assert(sql.subrange(sql.len() - l.len(), sql.len() as int) =~= l);
    if rows_in_order(sql, "l.last_check"@, checks) {
        assert forall|i: int| 0 <= i < checks.len() implies checks[0] <= #[trigger] checks[i] by {
            if i > 0 {
                assert(checks[0] <= checks[i]);
            }
        }
    }
}

/// Search results come heaviest first: whatever the weights of the links
/// found, each result weighs at least as much as every result after it.
pub proof fn lemma_search_heaviest_first(keyword: Seq<char>, weights: Seq<int>)
    ensures
        rows_in_order(sql_text(StatementView::Search { keyword }), "weight"@, weights)
            ==> forall|i: int, j: int| 0 <= i < j < weights.len() ==> weights[i] >= weights[j],
{
    let sql = sql_text(StatementView::Search { keyword });
    reveal_strlit("SELECT h.https, h.name, p.path, q.query, lk.link_id, SUM(lk.count / k.count) as weight, GROUP_CONCAT(k.name) FROM link_keyword lk LEFT JOIN link l ON l.id = lk.link_id LEFT JOIN keyword k ON k.id = lk.keyword_id LEFT JOIN host h ON h.id = l.host_id LEFT JOIN path p ON p.id = l.path_id LEFT JOIN query q ON q.id = l.query_id WHERE lk.keyword_id = k.id AND k.name = $1 GROUP BY lk.link_id ORDER BY weight DESC");
    reveal_strlit(" ORDER BY ");
    reveal_strlit("weight");
    reveal_strlit(" DESC");
    let t = " ORDER BY "@ + "weight"@ + " DESC"@;
    assert(sql.subrange(sql.len() - t.len(), sql.len() as int) =~= t);
    assert(order_by(sql, "weight"@) == Some(false));
}

/// The texts, separated by `", "`.
pub open spec fn comma_list(items: Seq<Seq<char>>) -> Seq<char>
    decreases items.len(),
{
    if items.len() == 0 {
        Seq::empty()
    } else if items.len() == 1 {
        items[0]
    } else {
        comma_list(items.drop_last()) + ", "@ + items.last()
    }
}

/// The first `n` placeholders of parameters, `$1`, `$2`, ... (up to nine).
pub open spec fn placeholders(n: int) -> Seq<Seq<char>> {
    seq!["$1"@, "$2"@, "$3"@, "$4"@, "$5"@, "$6"@, "$7"@, "$8"@, "$9"@].take(n)
}

/// The placeholder of the parameter at `i` (from 0): `$1`, `$2`, ...
pub open spec fn placeholder(i: int) -> Seq<char> {
    placeholders(9)[i]
}

/// Whether `sql` inserts into `table` a row whose `columns`, in order, get
/// the parameters `$1`, `$2`, ...
pub open spec fn inserts_into(sql: Seq<char>, table: Seq<char>, columns: Seq<Seq<char>>) -> bool {
    &&& 0 < columns.len() <= 9
    &&& starts_with(
        sql,
        "INSERT INTO "@ + table + "("@ + comma_list(columns) + ") VALUES("@ + comma_list(placeholders(columns.len() as int))
            + ")"@,
    )
}

/// The parameter that goes to `column`: the one at the column's place.
pub open spec fn value_for(columns: Seq<Seq<char>>, params: Seq<ParamView>, column: Seq<char>) -> Option<ParamView>
    decreases columns.len(),
{
    if columns.len() == 0 || params.len() == 0 {
        None
    } else if columns[0] == column {
        Some(params[0])
    } else {
        value_for(columns.drop_first(), params.drop_first(), column)
    }
}

/// The value that running `q` stores in `column`, where `q` inserts into
/// `table` a row of these `columns` with as many parameters.
pub open spec fn stored_value(q: StatementView, table: Seq<char>, columns: Seq<Seq<char>>, column: Seq<char>) -> Option<ParamView> {
    if inserts_into(sql_text(q), table, columns) && params_of(q).len() == columns.len() {
        value_for(columns, params_of(q), column)
    } else {
        None
    }
}

/// Recording that link `link_id` points to link `to_id` stores the row of
/// `link_to` whose `link_id` is the pointing link and whose `to_id` is the
/// link pointed to.
pub proof fn lemma_link_to_row(link_id: i64, to_id: i64)
    ensures
        ({
            let q = StatementView::AddLinkTo { link_id, to_id };
            let columns = seq!["link_id"@, "to_id"@];
            &&& stored_value(q, "link_to"@, columns, "link_id"@) == Some(ParamView::Int(link_id))
            &&& stored_value(q, "link_to"@, columns, "to_id"@) == Some(ParamView::Int(to_id))
        }),
{
    let q = StatementView::AddLinkTo { link_id, to_id };
    let columns = seq!["link_id"@, "to_id"@];
    reveal_strlit("INSERT INTO link_to(link_id, to_id) VALUES($1, $2) ON CONFLICT DO NOTHING");
    reveal_strlit("INSERT INTO ");
    reveal_strlit("link_to");
    reveal_strlit("(");
    reveal_strlit(", ");
    reveal_strlit(") VALUES(");
    reveal_strlit(")");
    reveal_strlit("link_id");
    reveal_strlit("to_id");
    reveal_strlit("$1");
    reveal_strlit("$2");
    assert(columns.drop_last() =~= seq!["link_id"@]);
    assert(comma_list(columns.drop_last()) == "link_id"@);
    assert(columns.last() == "to_id"@);
    assert(comma_list(columns) == "link_id"@ + ", "@ + "to_id"@);
    let ph = placeholders(2);
    assert(ph =~= seq!["$1"@, "$2"@]);
    assert(ph.drop_last() =~= seq!["$1"@]);
    assert(comma_list(ph.drop_last()) == "$1"@);
    assert(ph.last() == "$2"@);
    assert(comma_list(ph) == "$1"@ + ", "@ + "$2"@);
    let prefix = "INSERT INTO "@ + "link_to"@ + "("@ + comma_list(columns) + ") VALUES("@ + comma_list(ph) + ")"@;
    let sql = sql_text(q);
    assert(sql.subrange(0, prefix.len() as int) =~= prefix);
    assert(inserts_into(sql, "link_to"@, columns));
    assert("link_id"@ != "to_id"@) by {
        assert("link_id"@.len() != "to_id"@.len());
    }
    assert(columns.drop_first() =~= seq!["to_id"@]);
    assert(params_of(q).drop_first() =~= seq![ParamView::Int(to_id)]);
    assert(value_for(columns.drop_first(), params_of(q).drop_first(), "to_id"@) == Some(ParamView::Int(to_id)));
    assert(value_for(columns, params_of(q), "to_id"@) == Some(ParamView::Int(to_id)));
    assert(value_for(columns, params_of(q), "link_id"@) == Some(ParamView::Int(link_id)));
}

proof fn lemma_comma_lists(a: Seq<char>, b: Seq<char>, c: Seq<char>)
    ensures
        comma_list(seq![a]) == a,
        comma_list(seq![a, b]) == a + ", "@ + b,
        comma_list(seq![a, b, c]) == a + ", "@ + b + ", "@ + c,
        comma_list(placeholders(1)) == "$1"@,
        comma_list(placeholders(2)) == "$1"@ + ", "@ + "$2"@,
        comma_list(placeholders(3)) == "$1"@ + ", "@ + "$2"@ + ", "@ + "$3"@,
{
    assert(comma_list(seq![a]) == a);
    assert(seq![a, b].drop_last() =~= seq![a]);
    assert(seq![a, b].last() == b);
    assert(seq![a, b, c].drop_last() =~= seq![a, b]);
    assert(seq![a, b, c].last() == c);
    assert(comma_list(seq![a, b]) == a + ", "@ + b);
    assert(placeholders(1) =~= seq!["$1"@]);
    assert(placeholders(2) =~= seq!["$1"@, "$2"@]);
    assert(placeholders(3) =~= seq!["$1"@, "$2"@, "$3"@]);
    assert(placeholders(2).drop_last() =~= seq!["$1"@]);
    assert(placeholders(3).drop_last() =~= seq!["$1"@, "$2"@]);
    assert(comma_list(seq!["$1"@, "$2"@]) == "$1"@ + ", "@ + "$2"@) by {
        assert(seq!["$1"@, "$2"@].drop_last() =~= seq!["$1"@]);
        assert(comma_list(seq!["$1"@]) == "$1"@);
    }
}

/// Adding a host stores the row of `host` whose https flag and name are the host's.
pub proof fn lemma_host_row(https: bool, name: Seq<char>)
    ensures
        ({
            let q = StatementView::InsertHost { https, name };
            let columns = seq!["https"@, "name"@];
            &&& stored_value(q, "host"@, columns, "https"@) == Some(ParamView::Flag(https))
            &&& stored_value(q, "host"@, columns, "name"@) == Some(ParamView::Text(name))
        }),
{
    let q = StatementView::InsertHost { https, name };
    let columns = seq!["https"@, "name"@];
    reveal_strlit("INSERT INTO host(https, name) VALUES($1, $2) RETURNING id");
    reveal_strlit("INSERT INTO ");
    reveal_strlit("host");
    reveal_strlit("(");
    reveal_strlit(", ");
    reveal_strlit(") VALUES(");
    reveal_strlit(")");
    reveal_strlit("https");
    reveal_strlit("name");
    reveal_strlit("$1");
    reveal_strlit("$2");
    lemma_comma_lists("https"@, "name"@, "name"@);
    let prefix = "INSERT INTO "@ + "host"@ + "("@ + comma_list(columns) + ") VALUES("@ + comma_list(placeholders(2)) + ")"@;
    let sql = sql_text(q);
    assert(sql.subrange(0, prefix.len() as int) =~= prefix);
    assert("https"@ != "name"@) by {
        assert("https"@.len() != "name"@.len());
    }
    assert(columns.drop_first() =~= seq!["name"@]);
    assert(params_of(q).drop_first() =~= seq![ParamView::Text(name)]);
    assert(value_for(columns.drop_first(), params_of(q).drop_first(), "name"@) == Some(ParamView::Text(name)));
}

/// Whether running `q` stores the row of `link` whose host, path and query
/// ids are the given ones.
pub open spec fn stores_link_row(q: StatementView, host_id: i64, path_id: i64, query_id: i64) -> bool {
    let columns = seq!["host_id"@, "path_id"@, "query_id"@];
    &&& stored_value(q, "link"@, columns, "host_id"@) == Some(ParamView::Int(host_id))
    &&& stored_value(q, "link"@, columns, "path_id"@) == Some(ParamView::Int(path_id))
    &&& stored_value(q, "link"@, columns, "query_id"@) == Some(ParamView::Int(query_id))
}

proof fn lemma_link_row_of(q: StatementView, host_id: i64, path_id: i64, query_id: i64)
    requires
        q == (StatementView::AddLink { host_id, path_id, query_id })
            || q == (StatementView::InsertLink { host_id, path_id, query_id }),
    ensures
        stores_link_row(q, host_id, path_id, query_id),
{
    let columns = seq!["host_id"@, "path_id"@, "query_id"@];
    reveal_strlit("INSERT INTO link(host_id, path_id, query_id) VALUES($1, $2, $3) ON CONFLICT (host_id, path_id, query_id) DO NOTHING");
    reveal_strlit("INSERT INTO link(host_id, path_id, query_id) VALUES($1, $2, $3) ON CONFLICT (host_id, path_id, query_id) DO NOTHING RETURNING id");
    reveal_strlit("INSERT INTO ");
    reveal_strlit("link");
    reveal_strlit("(");
    reveal_strlit(", ");
    reveal_strlit(") VALUES(");
    reveal_strlit(")");
    reveal_strlit("host_id");
    reveal_strlit("path_id");
    reveal_strlit("query_id");
    reveal_strlit("$1");
    reveal_strlit("$2");
    reveal_strlit("$3");
    lemma_comma_lists("host_id"@, "path_id"@, "query_id"@);
    let prefix = "INSERT INTO "@ + "link"@ + "("@ + comma_list(columns) + ") VALUES("@ + comma_list(placeholders(3)) + ")"@;
    assert("host_id"@ != "path_id"@) by {
        assert("host_id"@[0] != "path_id"@[0]);
    }
    assert("host_id"@ != "query_id"@) by {
        assert("host_id"@.len() != "query_id"@.len());
    }
    assert("path_id"@ != "query_id"@) by {
        assert("path_id"@.len() != "query_id"@.len());
    }
    assert(columns.drop_first() =~= seq!["path_id"@, "query_id"@]);
    assert(columns.drop_first().drop_first() =~= seq!["query_id"@]);
    let sql = sql_text(q);
    assert(sql.subrange(0, prefix.len() as int) =~= prefix);
    let ps = params_of(q);
    assert(ps.drop_first() =~= seq![ParamView::Int(path_id), ParamView::Int(query_id)]);
    assert(ps.drop_first().drop_first() =~= seq![ParamView::Int(query_id)]);
    assert(value_for(columns.drop_first().drop_first(), ps.drop_first().drop_first(), "query_id"@) == Some(ParamView::Int(query_id)));
    assert(value_for(columns.drop_first(), ps.drop_first(), "query_id"@) == Some(ParamView::Int(query_id)));
    assert(value_for(columns.drop_first(), ps.drop_first(), "path_id"@) == Some(ParamView::Int(path_id)));
}

/// Adding a link (in either form) stores the row of `link` whose host, path
/// and query ids are the given ones.
pub proof fn lemma_link_row(host_id: i64, path_id: i64, query_id: i64)
    ensures
        stores_link_row(StatementView::AddLink { host_id, path_id, query_id }, host_id, path_id, query_id),
        stores_link_row(StatementView::InsertLink { host_id, path_id, query_id }, host_id, path_id, query_id),
{
    lemma_link_row_of(StatementView::AddLink { host_id, path_id, query_id }, host_id, path_id, query_id);
    lemma_link_row_of(StatementView::InsertLink { host_id, path_id, query_id }, host_id, path_id, query_id);
}

/// Setting how often a keyword occurs in a link stores the row of
/// `link_keyword` whose link, keyword and count are the given ones.
pub proof fn lemma_keyword_count_row(link_id: i64, keyword_id: i64, count: u32)
    ensures
        ({
            let q = StatementView::SetKeywordCount { link_id, keyword_id, count };
            let columns = seq!["link_id"@, "keyword_id"@, "count"@];
            &&& stored_value(q, "link_keyword"@, columns, "link_id"@) == Some(ParamView::Int(link_id))
            &&& stored_value(q, "link_keyword"@, columns, "keyword_id"@) == Some(ParamView::Int(keyword_id))
            &&& stored_value(q, "link_keyword"@, columns, "count"@) == Some(ParamView::Count(count))
        }),
{
    let q = StatementView::SetKeywordCount { link_id, keyword_id, count };
    let columns = seq!["link_id"@, "keyword_id"@, "count"@];
    reveal_strlit("INSERT INTO link_keyword(link_id, keyword_id, count) VALUES($1, $2, $3) ON CONFLICT DO UPDATE SET count = $3");
    reveal_strlit("INSERT INTO ");
    reveal_strlit("link_keyword");
    reveal_strlit("(");
    reveal_strlit(", ");
    reveal_strlit(") VALUES(");
    reveal_strlit(")");
    reveal_strlit("link_id");
    reveal_strlit("keyword_id");
    reveal_strlit("count");
    reveal_strlit("$1");
    reveal_strlit("$2");
    reveal_strlit("$3");
    lemma_comma_lists("link_id"@, "keyword_id"@, "count"@);
    let prefix = "INSERT INTO "@ + "link_keyword"@ + "("@ + comma_list(columns) + ") VALUES("@ + comma_list(placeholders(3)) + ")"@;
    let sql = sql_text(q);
    assert(sql.subrange(0, prefix.len() as int) =~= prefix);
    assert("link_id"@ != "keyword_id"@) by {
        assert("link_id"@.len() != "keyword_id"@.len());
    }
    assert("link_id"@ != "count"@) by {
        assert("link_id"@.len() != "count"@.len());
    }
    assert("keyword_id"@ != "count"@) by {
        assert("keyword_id"@.len() != "count"@.len());
    }
    let ps = params_of(q);
    assert(columns.drop_first() =~= seq!["keyword_id"@, "count"@]);
    assert(columns.drop_first().drop_first() =~= seq!["count"@]);
    assert(ps.drop_first() =~= seq![ParamView::Int(keyword_id), ParamView::Count(count)]);
    assert(ps.drop_first().drop_first() =~= seq![ParamView::Count(count)]);
    assert(value_for(columns.drop_first().drop_first(), ps.drop_first().drop_first(), "count"@) == Some(ParamView::Count(count)));
    assert(value_for(columns.drop_first(), ps.drop_first(), "count"@) == Some(ParamView::Count(count)));
    assert(value_for(columns.drop_first(), ps.drop_first(), "keyword_id"@) == Some(ParamView::Int(keyword_id)));
}

/// Adding a path, query or keyword stores the row of its table whose column holds the value.
pub proof fn lemma_value_row(table: Seq<char>, column: Seq<char>, value: Seq<char>)
    ensures
        stored_value(StatementView::InsertValue { table, column, value }, table, seq![column], column)
            == Some(ParamView::Text(value)),
{
    let q = StatementView::InsertValue { table, column, value };
    reveal_strlit("$1");
    lemma_comma_lists(column, column, column);
    let prefix = "INSERT INTO "@ + table + "("@ + comma_list(seq![column]) + ") VALUES("@ + comma_list(placeholders(1)) + ")"@;
    let sql = sql_text(q);
    reveal_strlit(") VALUES(");
    reveal_strlit(") VALUES($1) RETURNING id");
    reveal_strlit(" RETURNING id");
    reveal_strlit(")");
    assert(") VALUES($1) RETURNING id"@ =~= ") VALUES("@ + "$1"@ + ")"@ + " RETURNING id"@);
    assert(sql =~= prefix + " RETURNING id"@);
    assert(sql.subrange(0, prefix.len() as int) =~= prefix);
}

/// Whether the text `column = $i+1` stands in `sql` at `p`, after a space or
/// a dot (a table's alias): the statement compares the column with its
/// parameter at `i`.
pub open spec fn compares_at(sql: Seq<char>, column: Seq<char>, i: int, p: int) -> bool {
    let t = column + " = "@ + placeholder(i);
    &&& 0 <= i < 9
    &&& 0 < p
    &&& p + t.len() <= sql.len()
    &&& (sql[p - 1] == ' ' || sql[p - 1] == '.')
    &&& sql.subrange(p, p + t.len()) == t
}

/// Whether running `q` compares `column` with the value `v`: its SQL
/// compares the column with a parameter, and `v` is bound to that parameter.
pub open spec fn binds(q: StatementView, column: Seq<char>, v: ParamView) -> bool {
    exists|i: int, p: int| #[trigger] compares_at(sql_text(q), column, i, p) && i < params_of(q).len() && params_of(q)[i] == v
}

/// Whether running `q` compares the https flag and name of a host, a path
/// and a query with those of `key`.
pub open spec fn binds_key(q: StatementView, key: LinkKeyView) -> bool {
    &&& binds(q, "https"@, ParamView::Flag(key.https))
    &&& binds(q, "name"@, ParamView::Text(key.host))
    &&& binds(q, "path"@, ParamView::Text(key.path))
    &&& binds(q, "query"@, ParamView::Text(key.query))
}

/// Looking up a host compares the https flag and the name of the hosts
/// stored with the ones looked up.
pub proof fn lemma_find_host_binds(https: bool, name: Seq<char>)
    ensures
        binds(StatementView::FindHost { https, name }, "https"@, ParamView::Flag(https)),
        binds(StatementView::FindHost { https, name }, "name"@, ParamView::Text(name)),
{
    let q = StatementView::FindHost { https, name };
    let sql = sql_text(q);
    reveal_strlit("SELECT id FROM host WHERE https = $1 AND name = $2");
    reveal_strlit("https");
    reveal_strlit("name");
    reveal_strlit(" = ");
    reveal_strlit("$1");
    reveal_strlit("$2");
    assert(placeholder(0) == "$1"@);
    assert(placeholder(1) == "$2"@);
    assert(sql.subrange(26, 26int + ("https"@ + " = "@ + placeholder(0)).len()) =~= "https"@ + " = "@ + placeholder(0));
    assert(compares_at(sql, "https"@, 0, 26));
    assert(sql.subrange(41, 41int + ("name"@ + " = "@ + placeholder(1)).len()) =~= "name"@ + " = "@ + placeholder(1));
    assert(compares_at(sql, "name"@, 1, 41));
}

/// Marking a link by its id compares the ids of the links stored with it.
pub proof fn lemma_touch_link_binds(link_id: i64)
    ensures
        binds(StatementView::TouchLink { link_id }, "id"@, ParamView::Int(link_id)),
{
    let q = StatementView::TouchLink { link_id };
    let sql = sql_text(q);
    reveal_strlit("UPDATE link SET last_check = current_timestamp WHERE id = $1");
    reveal_strlit("id");
    reveal_strlit(" = ");
    reveal_strlit("$1");
    assert(placeholder(0) == "$1"@);
    assert(sql.subrange(53, 53int + ("id"@ + " = "@ + placeholder(0)).len()) =~= "id"@ + " = "@ + placeholder(0));
    assert(compares_at(sql, "id"@, 0, 53));
}

/// Looking up a path, query or keyword compares its table's column with the value.
pub proof fn lemma_find_value_binds(table: Seq<char>, column: Seq<char>, value: Seq<char>)
    ensures
        binds(StatementView::FindValue { table, column, value }, column, ParamView::Text(value)),
{
    let q = StatementView::FindValue { table, column, value };
    let sql = sql_text(q);
    reveal_strlit(" WHERE ");
    reveal_strlit(" = $1");
    reveal_strlit(" = ");
    reveal_strlit("$1");
    assert(placeholder(0) == "$1"@);
    let head = "SELECT id FROM "@ + table + " WHERE "@;
    let t = column + " = "@ + placeholder(0);
    assert(" = $1"@ =~= " = "@ + "$1"@);
    assert(sql =~= head + t);
    let p = head.len() as int;
    assert(sql[p - 1] == ' ');
    assert(sql.subrange(p, p + t.len()) =~= t);
    assert(compares_at(sql, column, 0, p));
}

proof fn lemma_key_binds_at(q: StatementView, key: LinkKeyView, sql: Seq<char>, ph: int, pn: int, pp: int, pq: int)
    requires
        sql == sql_text(q),
        params_of(q) == key_params(key),
        compares_at(sql, "https"@, 0, ph),
        compares_at(sql, "name"@, 1, pn),
        compares_at(sql, "path"@, 2, pp),
        compares_at(sql, "query"@, 3, pq),
    ensures
        binds_key(q, key),
{
}

/// Looking up a link by its key (joining the tables, or through the ids of
/// its parts), and marking a link by its key, compare the https flag and
/// name of its host, its path and its query with those of the key.
pub proof fn lemma_key_statements_bind(key: LinkKeyView)
    ensures
        binds_key(StatementView::FindLink { key }, key),
        binds_key(StatementView::LinkId { key }, key),
        binds_key(StatementView::TouchLinkByKey { key }, key),
{
    reveal_strlit("https");
    reveal_strlit("name");
    reveal_strlit("path");
    reveal_strlit("query");
    reveal_strlit(" = ");
    reveal_strlit("$1");
    reveal_strlit("$2");
    reveal_strlit("$3");
    reveal_strlit("$4");
    assert(placeholder(0) == "$1"@);
    assert(placeholder(1) == "$2"@);
    assert(placeholder(2) == "$3"@);
    assert(placeholder(3) == "$4"@);
    let th = "https"@ + " = "@ + placeholder(0);
    let tn = "name"@ + " = "@ + placeholder(1);
    let tp = "path"@ + " = "@ + placeholder(2);
    let tq = "query"@ + " = "@ + placeholder(3);
    reveal_strlit("SELECT l.id FROM host h, path p, query f, link l WHERE l.host_id = h.id AND l.path_id = p.id AND l.query_id = f.id AND h.https = $1 AND h.name = $2 AND p.path = $3 AND f.query = $4");
    let q1 = StatementView::FindLink { key };
    let s1 = sql_text(q1);
    assert(s1.subrange(121, 121int + th.len()) =~= th);
    assert(s1.subrange(138, 138int + tn.len()) =~= tn);
    assert(s1.subrange(154, 154int + tp.len()) =~= tp);
    assert(s1.subrange(170, 170int + tq.len()) =~= tq);
    lemma_key_binds_at(q1, key, s1, 121, 138, 154, 170);
    reveal_strlit("WHERE host_id = (SELECT id FROM host WHERE https = $1 AND name = $2) AND path_id = (SELECT id FROM path WHERE path = $3) AND query_id = (SELECT id FROM query WHERE query = $4)");
    reveal_strlit("SELECT id FROM link ");
    let q2 = StatementView::LinkId { key };
    let s2 = sql_text(q2);
    assert(s2.subrange(63, 63int + th.len()) =~= th);
    assert(s2.subrange(78, 78int + tn.len()) =~= tn);
    assert(s2.subrange(130, 130int + tp.len()) =~= tp);
    assert(s2.subrange(184, 184int + tq.len()) =~= tq);
    lemma_key_binds_at(q2, key, s2, 63, 78, 130, 184);
    reveal_strlit("UPDATE link SET last_check = current_timestamp ");
    let q3 = StatementView::TouchLinkByKey { key };
    let s3 = sql_text(q3);
    assert(s3.subrange(90, 90int + th.len()) =~= th);
    assert(s3.subrange(105, 105int + tn.len()) =~= tn);
    assert(s3.subrange(157, 157int + tp.len()) =~= tp);
    assert(s3.subrange(211, 211int + tq.len()) =~= tq);
    lemma_key_binds_at(q3, key, s3, 90, 105, 157, 211);
}

/// Searching compares the names of the keywords stored with the keyword searched for.
pub proof fn lemma_search_binds(keyword: Seq<char>)
    ensures
        binds(StatementView::Search { keyword }, "name"@, ParamView::Text(keyword)),
{
    let q = StatementView::Search { keyword };
    let sql = sql_text(q);
    reveal_strlit("SELECT h.https, h.name, p.path, q.query, lk.link_id, SUM(lk.count / k.count) as weight, GROUP_CONCAT(k.name) FROM link_keyword lk LEFT JOIN link l ON l.id = lk.link_id LEFT JOIN keyword k ON k.id = lk.keyword_id LEFT JOIN host h ON h.id = l.host_id LEFT JOIN path p ON p.id = l.path_id LEFT JOIN query q ON q.id = l.query_id WHERE lk.keyword_id = k.id AND k.name = $1 GROUP BY lk.link_id ORDER BY weight DESC");
    reveal_strlit("name");
    reveal_strlit(" = ");
    reveal_strlit("$1");
    assert(placeholder(0) == "$1"@);
    assert(sql.subrange(358, 358int + ("name"@ + " = "@ + placeholder(0)).len()) =~= "name"@ + " = "@ + placeholder(0));
    assert(compares_at(sql, "name"@, 0, 358));
}

/// Marking a link as checked (by its id or by its key) sets the time it was
/// last checked to now.
pub proof fn lemma_marking_sets_now(link_id: i64, key: LinkKeyView)
    ensures
        starts_with(sql_text(StatementView::TouchLink { link_id }), "UPDATE link SET last_check = current_timestamp "@),
        starts_with(sql_text(StatementView::TouchLinkByKey { key }), "UPDATE link SET last_check = current_timestamp "@),
{
    let t = "UPDATE link SET last_check = current_timestamp "@;
    reveal_strlit("UPDATE link SET last_check = current_timestamp ");
    reveal_strlit("UPDATE link SET last_check = current_timestamp WHERE id = $1");
    let s1 = sql_text(StatementView::TouchLink { link_id });
    assert(s1.subrange(0, t.len() as int) =~= t);
    let s2 = sql_text(StatementView::TouchLinkByKey { key });
    assert(s2.subrange(0, t.len() as int) =~= t);
}

} // verus!
