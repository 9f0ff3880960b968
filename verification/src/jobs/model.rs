//! A model of the link index: the tables the statements work on, what each
//! statement does to them and replies, and the runs of jobs against it.
//! Over this model the daemon's procedures are shown to be idempotent.

use vstd::prelude::*;
use crate::error::FailureView;
use crate::link::{LinkKeyView, lenient_key_of, key_of};
use crate::statement::StatementView;
use crate::jobs::step::{ReplyView, StepView};
use crate::jobs::select_or_insert::{Phase, TargetView, find_statement, insert_statement};
use crate::jobs::parts::{PartIdsView, PartStage, host_target, path_target, query_target, parts_advance};
use crate::jobs::links::{
    IndexStageView, LinkOrInsertView, index_advance, index_begin, loi_advance, loi_begin, lookup_begin,
    required_id,
};
use crate::jobs::scrap::{ScrapStageView, ScrapView, enter_keyword, enter_link, keyword_target, scrap_advance, scrap_begin};

verus! {

/// The tables of the link index: the id of each host (by https flag and
/// name), of each value of the one-column tables (by table, column and
/// value: paths, queries, keywords), of each link (by the ids of its host,
/// path and query); the count of each keyword at each link; which links
/// point to which; the links marked as checked, in order; and the next id
/// to hand out.
pub struct IndexModel {
    pub hosts: Map<(bool, Seq<char>), i64>,
    pub values: Map<(Seq<char>, Seq<char>, Seq<char>), i64>,
    pub links: Map<(i64, i64, i64), i64>,
    pub counts: Map<(i64, i64), u32>,
    pub pointers: Set<(i64, i64)>,
    pub checked: Seq<i64>,
    pub next_id: nat,
}

/// The id the next insert gets.
pub open spec fn fresh(m: IndexModel) -> i64 {
    m.next_id as i64
}

/// The report of an insert that would store a row twice (the model fixes
/// one wording; the laws below hold whatever the index reports).
pub open spec fn duplicate_row() -> Seq<char> {
    "UNIQUE constraint failed"@
}

/// The reply of a lookup.
pub open spec fn found(id: Option<i64>) -> ReplyView {
    match id {
        Some(i) => ReplyView::Row(i),
        None => ReplyView::NoRow,
    }
}

/// The id of a host, path, query or keyword.
pub open spec fn lookup(m: IndexModel, t: TargetView) -> Option<i64> {
    match t {
        TargetView::Host { https, name } =>
            if m.hosts.contains_key((https, name)) { Some(m.hosts[(https, name)]) } else { None },
        TargetView::Value { table, column, value } =>
            if m.values.contains_key((table, column, value)) { Some(m.values[(table, column, value)]) } else { None },
    }
}

/// The ids of the host, path and query of a link key, where all three are stored.
pub open spec fn part_ids(m: IndexModel, k: LinkKeyView) -> Option<(i64, i64, i64)> {
    match (lookup(m, host_target(k)), lookup(m, path_target(k)), lookup(m, query_target(k))) {
        (Some(h), Some(p), Some(q)) => Some((h, p, q)),
        _ => None,
    }
}

/// The id of the link with a key, where it is stored.
pub open spec fn link_id_of(m: IndexModel, k: LinkKeyView) -> Option<i64> {
    match part_ids(m, k) {
        Some(t) => if m.links.contains_key(t) { Some(m.links[t]) } else { None },
        None => None,
    }
}

/// Adds a host, path, query or keyword with the next id.
pub open spec fn add_target(m: IndexModel, t: TargetView) -> IndexModel {
    let id = fresh(m);
    match t {
        TargetView::Host { https, name } =>
            IndexModel { hosts: m.hosts.insert((https, name), id), next_id: m.next_id + 1, ..m },
        TargetView::Value { table, column, value } =>
            IndexModel { values: m.values.insert((table, column, value), id), next_id: m.next_id + 1, ..m },
    }
}

/// Inserting a host, path, query or keyword: refused where it is stored.
pub open spec fn insert_target(m: IndexModel, t: TargetView) -> (IndexModel, ReplyView) {
    if lookup(m, t) is Some {
        (m, ReplyView::Failed(duplicate_row()))
    } else {
        (add_target(m, t), ReplyView::Row(fresh(m)))
    }
}

/// Adds a link with the next id.
pub open spec fn add_link(m: IndexModel, t: (i64, i64, i64)) -> IndexModel {
    IndexModel { links: m.links.insert(t, fresh(m)), next_id: m.next_id + 1, ..m }
}

/// Marks the link with this id as checked, where it is stored.
pub open spec fn mark(m: IndexModel, id: Option<i64>) -> IndexModel {
    match id {
        Some(i) => if exists|t: (i64, i64, i64)| m.links.contains_key(t) && m.links[t] == i {
            IndexModel { checked: m.checked.push(i), ..m }
        } else {
            m
        },
        None => m,
    }
}

/// What running a statement does to the index, and what it replies.
/// Statements that yield rows of several columns change nothing here and
/// reply no row: their rows are not part of the model.
pub open spec fn execute(m: IndexModel, q: StatementView) -> (IndexModel, ReplyView) {
    match q {
        StatementView::FindHost { https, name } => (m, found(lookup(m, TargetView::Host { https, name }))),
        StatementView::InsertHost { https, name } => insert_target(m, TargetView::Host { https, name }),
        StatementView::FindValue { table, column, value } =>
            (m, found(lookup(m, TargetView::Value { table, column, value }))),
        StatementView::InsertValue { table, column, value } =>
            insert_target(m, TargetView::Value { table, column, value }),
        StatementView::AddLink { host_id, path_id, query_id } => {
            let t = (host_id, path_id, query_id);
            (if m.links.contains_key(t) { m } else { add_link(m, t) }, ReplyView::NoRow)
        },
        StatementView::InsertLink { host_id, path_id, query_id } => {
            let t = (host_id, path_id, query_id);
            if m.links.contains_key(t) { (m, ReplyView::NoRow) } else { (add_link(m, t), ReplyView::Row(fresh(m))) }
        },
        StatementView::FindLink { key } => (m, found(link_id_of(m, key))),
        StatementView::LinkId { key } => (m, found(link_id_of(m, key))),
        StatementView::TouchLinkByKey { key } => (mark(m, link_id_of(m, key)), ReplyView::NoRow),
        StatementView::TouchLink { link_id } => (mark(m, Some(link_id)), ReplyView::NoRow),
        StatementView::SetKeywordCount { link_id, keyword_id, count } =>
            (IndexModel { counts: m.counts.insert((link_id, keyword_id), count), ..m }, ReplyView::NoRow),
        StatementView::AddLinkTo { link_id, to_id } =>
            (IndexModel { pointers: m.pointers.insert((link_id, to_id)), ..m }, ReplyView::NoRow),
        StatementView::OldestLink => (m, ReplyView::NoRow),
        StatementView::Search { .. } => (m, ReplyView::NoRow),
    }
}

/// Runs a job against the index for at most `fuel` statements: each
/// statement it hands out is executed and the reply handed back. The final
/// index, and the job's outcome if it finished.
pub open spec fn drive<S, T>(
    adv: spec_fn(S, ReplyView) -> (S, StepView<T>),
    m: IndexModel,
    s: S,
    st: StepView<T>,
    fuel: nat,
) -> (IndexModel, Option<Result<T, FailureView>>)
    decreases fuel,
{
    match st {
        StepView::Finish(o) => (m, Some(o)),
        StepView::Run(q) => if fuel == 0 {
            (m, None)
        } else {
            let (m2, r) = execute(m, q);
            let (s2, st2) = adv(s, r);
            drive(adv, m2, s2, st2, (fuel - 1) as nat)
        },
    }
}

/// Whether `m2` keeps every host, value and link of `m` under the same id,
/// and every pointer between links.
pub open spec fn keeps(m: IndexModel, m2: IndexModel) -> bool {
    &&& m.hosts.submap_of(m2.hosts)
    &&& m.values.submap_of(m2.values)
    &&& m.links.submap_of(m2.links)
    &&& m.pointers.subset_of(m2.pointers)
}

// ---------------------------------------------------------------------------
// Finding (or adding) the ids of the parts of a key.

/// The part whose id a part-ids job is finding.
pub open spec fn stage_target(p: PartIdsView) -> TargetView {
    match p.stage {
        PartStage::Path { .. } => path_target(p.key),
        PartStage::Query { .. } => query_target(p.key),
        _ => host_target(p.key),
    }
}

/// What holds while a part-ids job for key `k` waits for the reply to `q`
/// against index `m`: the statement is about the part under way, and the
/// ids found so far are those stored.
pub open spec fn parts_inv(k: LinkKeyView, m: IndexModel, p: PartIdsView, q: StatementView) -> bool {
    &&& p.key == k
    &&& p.stage != PartStage::Finished
    &&& p.sub.target == stage_target(p)
    &&& p.sub.phase != Phase::Finished
    &&& (p.sub.phase == Phase::Finding ==> q == find_statement(stage_target(p)))
    &&& (p.sub.phase == Phase::Inserting ==> q == insert_statement(stage_target(p)))
    &&& match p.stage {
        PartStage::Path { host_id } => lookup(m, host_target(k)) == Some(host_id),
        PartStage::Query { host_id, path_id } =>
            lookup(m, host_target(k)) == Some(host_id) && lookup(m, path_target(k)) == Some(path_id),
        _ => true,
    }
}

proof fn lemma_lookup_after_insert(m: IndexModel, t: TargetView, u: TargetView)
    requires
        lookup(m, t) is None,
        lookup(m, u) is Some,
    ensures
        lookup(add_target(m, t), u) == lookup(m, u),
        lookup(add_target(m, t), t) == Some(fresh(m)),
        keeps(m, add_target(m, t)),
{
    assert(m.hosts.submap_of(add_target(m, t).hosts));
    assert(m.values.submap_of(add_target(m, t).values));
}

/// One step of a part-ids job against the index keeps what was stored, and
/// either goes on as `parts_inv` says or finishes with the stored ids.
pub proof fn lemma_parts_step(k: LinkKeyView, m: IndexModel, p: PartIdsView, q: StatementView)
    requires
        parts_inv(k, m, p, q),
    ensures
        ({
            let (m2, r) = execute(m, q);
            let (p2, st2) = parts_advance(p, r);
            &&& keeps(m, m2)
            &&& m2.counts == m.counts
            &&& match st2 {
                StepView::Run(q2) => parts_inv(k, m2, p2, q2),
                StepView::Finish(Ok((h, pa, qq))) => part_ids(m2, k) == Some((h, pa, qq)),
                StepView::Finish(Err(_)) => true,
            }
        }),
{
    let t = stage_target(p);
    let (m2, r) = execute(m, q);
    if p.sub.phase == Phase::Inserting && lookup(m, t) is None {
        assert(m2 == add_target(m, t));
        match p.stage {
            PartStage::Path { host_id } => lemma_lookup_after_insert(m, t, host_target(k)),
            PartStage::Query { host_id, path_id } => {
                lemma_lookup_after_insert(m, t, host_target(k));
                lemma_lookup_after_insert(m, t, path_target(k));
            },
            _ => {
                assert(m.hosts.submap_of(m2.hosts));
                assert(m.values.submap_of(m2.values));
            },
        }
    } else {
        assert(m2 == m);
    }
}

// ---------------------------------------------------------------------------
// Indexing a URL.

/// The step of indexing a URL, as a function.
pub open spec fn index_adv() -> spec_fn(IndexStageView, ReplyView) -> (IndexStageView, StepView<()>) {
    |s: IndexStageView, r: ReplyView| index_advance(s, r)
}

/// Indexing `url` against index `m`, for at most `fuel` statements.
pub open spec fn index_on(m: IndexModel, url: Seq<char>, fuel: nat) -> (IndexModel, Option<Result<(), FailureView>>) {
    drive(index_adv(), m, index_begin(url).0, index_begin(url).1, fuel)
}

/// What holds while indexing the URL with key `k` runs against index `m`.
pub open spec fn index_inv(k: LinkKeyView, m: IndexModel, s: IndexStageView, st: StepView<()>) -> bool {
    match s {
        IndexStageView::Parts(p) => st matches StepView::Run(q) && parts_inv(k, m, p, q),
        IndexStageView::Linking => st matches StepView::Run(StatementView::AddLink { host_id, path_id, query_id })
            && part_ids(m, k) == Some((host_id, path_id, query_id)),
        IndexStageView::Finished => st is Finish && (st matches StepView::Finish(Ok(_)) ==> link_id_of(m, k) is Some),
    }
}

/// `keeps` is reflexive.
pub proof fn lemma_keeps_refl(m: IndexModel)
    ensures
        keeps(m, m),
{
    assert(m.hosts.submap_of(m.hosts));
    assert(m.values.submap_of(m.values));
    assert(m.links.submap_of(m.links));
    assert(m.pointers.subset_of(m.pointers));
}

/// `keeps` is transitive.
pub proof fn lemma_keeps_trans(a: IndexModel, b: IndexModel, c: IndexModel)
    requires
        keeps(a, b),
        keeps(b, c),
    ensures
        keeps(a, c),
{
    vstd::map_lib::lemma_submap_of_trans(a.hosts, b.hosts, c.hosts);
    vstd::map_lib::lemma_submap_of_trans(a.values, b.values, c.values);
    vstd::map_lib::lemma_submap_of_trans(a.links, b.links, c.links);
    assert forall|x| #[trigger] a.pointers.contains(x) implies c.pointers.contains(x) by {
        assert(b.pointers.contains(x));
    }
}

/// Where `m2` keeps what `m` stored, a link stored in `m` has the same id in `m2`.
pub proof fn lemma_keeps_link_id(m: IndexModel, m2: IndexModel, k: LinkKeyView)
    requires
        keeps(m, m2),
        link_id_of(m, k) is Some,
    ensures
        part_ids(m2, k) == part_ids(m, k),
        link_id_of(m2, k) == link_id_of(m, k),
{
    assert(m2.hosts.contains_key((k.https, k.host)));
    assert(m2.values.contains_key(("path"@, "path"@, k.path)));
    assert(m2.values.contains_key(("query"@, "query"@, k.query)));
    assert(m2.links.contains_key(part_ids(m, k)->Some_0));
}

proof fn lemma_index_drive(k: LinkKeyView, m: IndexModel, s: IndexStageView, st: StepView<()>, fuel: nat)
    requires
        index_inv(k, m, s, st),
        drive(index_adv(), m, s, st, fuel).1 == Some(Ok::<(), FailureView>(())),
    ensures
        keeps(m, drive(index_adv(), m, s, st, fuel).0),
        link_id_of(drive(index_adv(), m, s, st, fuel).0, k) is Some,
    decreases fuel,
{
    match st {
        StepView::Finish(_) => {
            lemma_keeps_refl(m);
        },
        StepView::Run(q) => {
            let adv = index_adv();
            let (m2, r) = execute(m, q);
            let (s2, st2) = index_advance(s, r);
            assert(fuel > 0);
            assert(adv(s, r) == (s2, st2));
            assert(drive(adv, m, s, st, fuel) == drive(adv, m2, s2, st2, (fuel - 1) as nat));
            match s {
                IndexStageView::Parts(p) => {
                    lemma_parts_step(k, m, p, q);
                },
                IndexStageView::Linking => {
                    let t = part_ids(m, k)->Some_0;
                    if !m.links.contains_key(t) {
                        assert(m.links.submap_of(m2.links));
                    } else {
                        assert(m2 == m);
                    }
                    assert(m.hosts == m2.hosts);
                    assert(m.values == m2.values);
                    assert(m.pointers == m2.pointers);
                    lemma_keeps_refl(m);
                    assert(part_ids(m2, k) == part_ids(m, k));
                },
                _ => {},
            }
            lemma_index_drive(k, m2, s2, st2, (fuel - 1) as nat);
            lemma_keeps_trans(m, m2, drive(adv, m2, s2, st2, (fuel - 1) as nat).0);
        },
    }
}

/// Indexing a URL is idempotent: where indexing `url` (its link key taken
/// with an empty host for a missing one) succeeds, the index afterwards
/// holds exactly one link with that key (the same one where it was stored
/// before), every host, path, query, link and pointer that was stored stays
/// stored under the same id, and indexing the same URL again (given the four
/// statements it takes) succeeds and changes nothing.
pub proof fn lemma_index_url_idempotent(m: IndexModel, url: Seq<char>, fuel: nat, again: nat)
    requires
        index_on(m, url, fuel).1 == Some(Ok::<(), FailureView>(())),
        again >= 4,
    ensures
        lenient_key_of(url) is Ok,
        link_id_of(index_on(m, url, fuel).0, lenient_key_of(url)->Ok_0) is Some,
        link_id_of(m, lenient_key_of(url)->Ok_0) is Some
            ==> link_id_of(index_on(m, url, fuel).0, lenient_key_of(url)->Ok_0) == link_id_of(m, lenient_key_of(url)->Ok_0),
        keeps(m, index_on(m, url, fuel).0),
        index_on(index_on(m, url, fuel).0, url, again) == (index_on(m, url, fuel).0, Some(Ok::<(), FailureView>(()))),
{
    let (s0, st0) = index_begin(url);
    let k = lenient_key_of(url)->Ok_0;
    let m1 = index_on(m, url, fuel).0;
    lemma_index_drive(k, m, s0, st0, fuel);
    if link_id_of(m, k) is Some {
        lemma_keeps_link_id(m, m1, k);
    }
    // The second run finds every part and the link.
    let (h, p, q) = part_ids(m1, k)->Some_0;
    let adv = index_adv();
    let s1 = index_advance(s0, ReplyView::Row(h));
    let s2 = index_advance(s1.0, ReplyView::Row(p));
    let s3 = index_advance(s2.0, ReplyView::Row(q));
    assert(execute(m1, find_statement(host_target(k))) == (m1, ReplyView::Row(h)));
    assert(execute(m1, find_statement(path_target(k))) == (m1, ReplyView::Row(p)));
    assert(execute(m1, find_statement(query_target(k))) == (m1, ReplyView::Row(q)));
    assert(s3.1 == StepView::<()>::Run(StatementView::AddLink { host_id: h, path_id: p, query_id: q }));
    assert(execute(m1, StatementView::AddLink { host_id: h, path_id: p, query_id: q }) == (m1, ReplyView::NoRow));
    assert(s3.0 == IndexStageView::Linking);
    assert(adv(IndexStageView::Linking, ReplyView::NoRow)
        == (IndexStageView::Finished, StepView::<()>::Finish(Ok(()))));
    assert(drive(adv, m1, IndexStageView::Finished, StepView::<()>::Finish(Ok(())), (again - 4) as nat)
        == (m1, Some(Ok::<(), FailureView>(()))));
    assert(drive(adv, m1, s3.0, s3.1, (again - 3) as nat) == (m1, Some(Ok::<(), FailureView>(()))));
    assert(adv(s2.0, ReplyView::Row(q)) == s3);
    assert(drive(adv, m1, s2.0, s2.1, (again - 2) as nat) == (m1, Some(Ok::<(), FailureView>(()))));
    assert(adv(s1.0, ReplyView::Row(p)) == s2);
    assert(drive(adv, m1, s1.0, s1.1, (again - 1) as nat) == (m1, Some(Ok::<(), FailureView>(()))));
    assert(adv(s0, ReplyView::Row(h)) == s1);
}

// ---------------------------------------------------------------------------
// Finding (or adding) the link of a URL.

/// The step of finding (or adding) a link, as a function.
pub open spec fn loi_adv() -> spec_fn(LinkOrInsertView, ReplyView) -> (LinkOrInsertView, StepView<i64>) {
    |s: LinkOrInsertView, r: ReplyView| loi_advance(s, r)
}

/// The step of looking a link up, as a function.
pub open spec fn lookup_adv() -> spec_fn(bool, ReplyView) -> (bool, StepView<i64>) {
    |s: bool, r: ReplyView| (false, required_id(r))
}

/// Finding (or adding) the link of `url` against index `m`, for at most `fuel` statements.
pub open spec fn link_or_insert_on(m: IndexModel, url: Seq<char>, fuel: nat) -> (IndexModel, Option<Result<i64, FailureView>>) {
    drive(loi_adv(), m, loi_begin(url).0, loi_begin(url).1, fuel)
}

/// Looking up the link of `url` against index `m`, for at most `fuel` statements.
pub open spec fn link_lookup_on(m: IndexModel, url: Seq<char>, fuel: nat) -> (IndexModel, Option<Result<i64, FailureView>>) {
    drive(lookup_adv(), m, lookup_begin(url).0, lookup_begin(url).1, fuel)
}

/// What holds while finding (or adding) the link with key `k` runs against index `m`.
pub open spec fn loi_inv(k: LinkKeyView, m: IndexModel, s: LinkOrInsertView, st: StepView<i64>) -> bool {
    match s {
        LinkOrInsertView::Lookup(k2) => k2 == k && st == StepView::<i64>::Run(StatementView::LinkId { key: k }),
        LinkOrInsertView::Parts(p) => st matches StepView::Run(q) && parts_inv(k, m, p, q),
        LinkOrInsertView::Inserting => st matches StepView::Run(StatementView::InsertLink { host_id, path_id, query_id })
            && part_ids(m, k) == Some((host_id, path_id, query_id)),
        LinkOrInsertView::Finished => st is Finish && (st matches StepView::Finish(Ok(id)) ==> link_id_of(m, k) == Some(id)),
    }
}

/// One step of finding (or adding) the link of key `k` against the index
/// keeps what was stored and the counts, and keeps `loi_inv`.
pub proof fn lemma_loi_step(k: LinkKeyView, m: IndexModel, s: LinkOrInsertView, q: StatementView)
    requires
        loi_inv(k, m, s, StepView::Run(q)),
    ensures
        ({
            let (m2, r) = execute(m, q);
            let (s2, st2) = loi_advance(s, r);
            &&& keeps(m, m2)
            &&& m2.counts == m.counts
            &&& loi_inv(k, m2, s2, st2)
        }),
{
    let (m2, r) = execute(m, q);
    match s {
        LinkOrInsertView::Lookup(_) => {
            assert(m2 == m);
            lemma_keeps_refl(m);
        },
        LinkOrInsertView::Parts(p) => {
            lemma_parts_step(k, m, p, q);
        },
        LinkOrInsertView::Inserting => {
            let t = part_ids(m, k)->Some_0;
            if !m.links.contains_key(t) {
                assert(m.links.submap_of(m2.links));
            } else {
                assert(m2 == m);
            }
            assert(m.hosts == m2.hosts);
            assert(m.values == m2.values);
            assert(m.pointers == m2.pointers);
            lemma_keeps_refl(m);
            assert(part_ids(m2, k) == part_ids(m, k));
        },
        _ => {},
    }
}

proof fn lemma_loi_drive(k: LinkKeyView, m: IndexModel, s: LinkOrInsertView, st: StepView<i64>, fuel: nat, id: i64)
    requires
        loi_inv(k, m, s, st),
        drive(loi_adv(), m, s, st, fuel).1 == Some(Ok::<i64, FailureView>(id)),
    ensures
        keeps(m, drive(loi_adv(), m, s, st, fuel).0),
        link_id_of(drive(loi_adv(), m, s, st, fuel).0, k) == Some(id),
    decreases fuel,
{
    match st {
        StepView::Finish(_) => {
            lemma_keeps_refl(m);
        },
        StepView::Run(q) => {
            let adv = loi_adv();
            let (m2, r) = execute(m, q);
            let (s2, st2) = loi_advance(s, r);
            assert(fuel > 0);
            assert(adv(s, r) == (s2, st2));
            assert(drive(adv, m, s, st, fuel) == drive(adv, m2, s2, st2, (fuel - 1) as nat));
            lemma_loi_step(k, m, s, q);
            lemma_loi_drive(k, m2, s2, st2, (fuel - 1) as nat, id);
            lemma_keeps_trans(m, m2, drive(adv, m2, s2, st2, (fuel - 1) as nat).0);
        },
    }
}

/// Finding (or adding) the link of a URL is stable: where it gives `id`,
/// the index afterwards holds the link of the URL under `id` and keeps every
/// host, path, query, link and pointer it stored; a later lookup of the URL
/// gives `id`, and finding (or adding) it again gives `id` and changes
/// nothing (each takes one statement).
pub proof fn lemma_link_or_insert_stable(m: IndexModel, url: Seq<char>, fuel: nat, id: i64, again: nat)
    requires
        link_or_insert_on(m, url, fuel).1 == Some(Ok::<i64, FailureView>(id)),
        again >= 1,
    ensures
        key_of(url) is Ok,
        link_id_of(link_or_insert_on(m, url, fuel).0, key_of(url)->Ok_0) == Some(id),
        keeps(m, link_or_insert_on(m, url, fuel).0),
        link_lookup_on(link_or_insert_on(m, url, fuel).0, url, again)
            == (link_or_insert_on(m, url, fuel).0, Some(Ok::<i64, FailureView>(id))),
        link_or_insert_on(link_or_insert_on(m, url, fuel).0, url, again)
            == (link_or_insert_on(m, url, fuel).0, Some(Ok::<i64, FailureView>(id))),
{
    let (s0, st0) = loi_begin(url);
    let k = key_of(url)->Ok_0;
    let m1 = link_or_insert_on(m, url, fuel).0;
    lemma_loi_drive(k, m, s0, st0, fuel, id);
    let q = StatementView::LinkId { key: k };
    assert(execute(m1, q) == (m1, ReplyView::Row(id)));
    let ladv = lookup_adv();
    assert(ladv(true, ReplyView::Row(id)) == (false, StepView::<i64>::Finish(Ok(id))));
    assert(drive(ladv, m1, false, StepView::<i64>::Finish(Ok(id)), (again - 1) as nat)
        == (m1, Some(Ok::<i64, FailureView>(id))));
    let adv = loi_adv();
    assert(adv(s0, ReplyView::Row(id)) == (LinkOrInsertView::Finished, StepView::<i64>::Finish(Ok(id))));
    assert(drive(adv, m1, LinkOrInsertView::Finished, StepView::<i64>::Finish(Ok(id)), (again - 1) as nat)
        == (m1, Some(Ok::<i64, FailureView>(id))));
}

// ---------------------------------------------------------------------------
// Recording a scrap result.

/// The step of recording a scrap result, as a function.
pub open spec fn scrap_adv() -> spec_fn(ScrapView, ReplyView) -> (ScrapView, StepView<()>) {
    |s: ScrapView, r: ReplyView| scrap_advance(s, r)
}

/// Recording what was found at `url` against index `m`, for at most `fuel` statements.
pub open spec fn scrap_on(
    m: IndexModel,
    url: Seq<char>,
    keywords: Seq<(Seq<char>, u32)>,
    links: Seq<Seq<char>>,
    fuel: nat,
) -> (IndexModel, Option<Result<(), FailureView>>) {
    drive(scrap_adv(), m, scrap_begin(url, keywords, links).0, scrap_begin(url, keywords, links).1, fuel)
}

/// The counts after each write in `w`, in order.
pub open spec fn write_counts(c: Map<(i64, i64), u32>, w: Seq<((i64, i64), u32)>) -> Map<(i64, i64), u32>
    decreases w.len(),
{
    if w.len() == 0 {
        c
    } else {
        write_counts(c.insert(w[0].0, w[0].1), w.drop_first())
    }
}

/// The id of the keyword at `i` in index `m`.
pub open spec fn keyword_id(m: IndexModel, keywords: Seq<(Seq<char>, u32)>, i: int) -> i64 {
    lookup(m, keyword_target(keywords[i].0))->Some_0
}

/// The writes of the counts of the keywords from `i` on at link `lid`,
/// with the keywords' ids in `m`.
pub open spec fn count_writes(m: IndexModel, lid: i64, keywords: Seq<(Seq<char>, u32)>, i: int) -> Seq<((i64, i64), u32)>
    decreases keywords.len() - i,
{
    if i < 0 || i >= keywords.len() {
        Seq::empty()
    } else {
        seq![((lid, keyword_id(m, keywords, i)), keywords[i].1)] + count_writes(m, lid, keywords, i + 1)
    }
}

/// Whether the first `n` keywords are stored.
pub open spec fn keywords_known(m: IndexModel, keywords: Seq<(Seq<char>, u32)>, n: int) -> bool {
    forall|i: int| 0 <= i < n ==> #[trigger] lookup(m, keyword_target(keywords[i].0)) is Some
}

/// Whether the linked URL at `j` has a key, its link is stored, and `lid` points to it.
pub open spec fn link_known(m: IndexModel, lid: i64, links: Seq<Seq<char>>, j: int) -> bool {
    &&& key_of(links[j]) is Ok
    &&& link_id_of(m, key_of(links[j])->Ok_0) is Some
    &&& m.pointers.contains((lid, link_id_of(m, key_of(links[j])->Ok_0)->Some_0))
}

/// Whether the first `n` linked URLs are known.
pub open spec fn links_known(m: IndexModel, lid: i64, links: Seq<Seq<char>>, n: int) -> bool {
    forall|j: int| 0 <= j < n ==> #[trigger] link_known(m, lid, links, j)
}

/// The keyword whose count is written next.
pub open spec fn next_count(s: ScrapView) -> int {
    match s.stage {
        ScrapStageView::Keyword { index, .. } => index,
        ScrapStageView::Counting { index } => index,
        _ => s.keywords.len() as int,
    }
}

/// What holds while recording a scrap result for the link with key `k`
/// runs against index `m`, once the link's id is known.
pub open spec fn scrap_inv(k: LinkKeyView, m: IndexModel, s: ScrapView, st: StepView<()>) -> bool {
    let n = s.keywords.len() as int;
    let l = s.links.len() as int;
    &&& link_id_of(m, k) == Some(s.link_id)
    &&& match s.stage {
        ScrapStageView::FindingLink => false,
        ScrapStageView::Keyword { index, sub } => {
            &&& 0 <= index < n
            &&& keywords_known(m, s.keywords, index)
            &&& sub.target == keyword_target(s.keywords[index].0)
            &&& sub.phase != Phase::Finished
            &&& (sub.phase == Phase::Finding ==> st == StepView::<()>::Run(find_statement(sub.target)))
            &&& (sub.phase == Phase::Inserting ==> st == StepView::<()>::Run(insert_statement(sub.target)))
        },
        ScrapStageView::Counting { index } => {
            &&& 0 <= index < n
            &&& keywords_known(m, s.keywords, index + 1)
            &&& st == StepView::<()>::Run(StatementView::SetKeywordCount {
                link_id: s.link_id,
                keyword_id: keyword_id(m, s.keywords, index),
                count: s.keywords[index].1,
            })
        },
        ScrapStageView::Link { index, sub } => {
            &&& 0 <= index < l
            &&& keywords_known(m, s.keywords, n)
            &&& links_known(m, s.link_id, s.links, index)
            &&& key_of(s.links[index]) is Ok
            &&& !(sub is Finished)
            &&& st matches StepView::Run(q) && loi_inv(key_of(s.links[index])->Ok_0, m, sub, StepView::<i64>::Run(q))
        },
        ScrapStageView::Linking { index } => {
            &&& 0 <= index < l
            &&& keywords_known(m, s.keywords, n)
            &&& links_known(m, s.link_id, s.links, index)
            &&& key_of(s.links[index]) is Ok
            &&& link_id_of(m, key_of(s.links[index])->Ok_0) is Some
            &&& st == StepView::<()>::Run(StatementView::AddLinkTo {
                link_id: s.link_id,
                to_id: link_id_of(m, key_of(s.links[index])->Ok_0)->Some_0,
            })
        },
        ScrapStageView::Finished => {
            &&& st is Finish
            &&& (st matches StepView::Finish(Ok(_)) ==> keywords_known(m, s.keywords, n) && links_known(m, s.link_id, s.links, l))
        },
    }
}

proof fn lemma_keeps_lookup(m: IndexModel, m2: IndexModel, t: TargetView)
    requires
        keeps(m, m2),
        lookup(m, t) is Some,
    ensures
        lookup(m2, t) == lookup(m, t),
{
    match t {
        TargetView::Host { https, name } => assert(m2.hosts.contains_key((https, name))),
        TargetView::Value { table, column, value } => assert(m2.values.contains_key((table, column, value))),
    }
}

proof fn lemma_keeps_known(m: IndexModel, m2: IndexModel, keywords: Seq<(Seq<char>, u32)>, lid: i64, links: Seq<Seq<char>>, a: int, b: int)
    requires
        keeps(m, m2),
        keywords_known(m, keywords, a),
        links_known(m, lid, links, b),
    ensures
        keywords_known(m2, keywords, a),
        links_known(m2, lid, links, b),
        forall|i: int| 0 <= i < a ==> keyword_id(m2, keywords, i) == #[trigger] keyword_id(m, keywords, i),
{
    assert forall|i: int| 0 <= i < a implies #[trigger] lookup(m2, keyword_target(keywords[i].0)) == lookup(m, keyword_target(keywords[i].0)) by {
        lemma_keeps_lookup(m, m2, keyword_target(keywords[i].0));
    }
    assert forall|j: int| 0 <= j < b implies #[trigger] link_known(m2, lid, links, j) by {
        assert(link_known(m, lid, links, j));
        lemma_keeps_link_id(m, m2, key_of(links[j])->Ok_0);
    }
}

/// Entering the linked URL at `j` against index `m`: it fails, or `scrap_inv` holds.
proof fn lemma_enter_link(k: LinkKeyView, m: IndexModel, s: ScrapView, j: int)
    requires
        link_id_of(m, k) == Some(s.link_id),
        0 <= j <= s.links.len(),
        keywords_known(m, s.keywords, s.keywords.len() as int),
        links_known(m, s.link_id, s.links, j),
    ensures
        enter_link(s, j).1 matches StepView::Finish(Err(_)) || scrap_inv(k, m, enter_link(s, j).0, enter_link(s, j).1),
        enter_link(s, j).0.link_id == s.link_id,
        enter_link(s, j).0.keywords == s.keywords,
        enter_link(s, j).0.links == s.links,
        !(enter_link(s, j).0.stage is Keyword),
        !(enter_link(s, j).0.stage is Counting),
{
}

/// Entering the keyword at `i` against index `m`: it fails, or `scrap_inv` holds.
proof fn lemma_enter_keyword(k: LinkKeyView, m: IndexModel, s: ScrapView, i: int)
    requires
        link_id_of(m, k) == Some(s.link_id),
        0 <= i <= s.keywords.len(),
        keywords_known(m, s.keywords, i),
    ensures
        enter_keyword(s, i).1 matches StepView::Finish(Err(_)) || scrap_inv(k, m, enter_keyword(s, i).0, enter_keyword(s, i).1),
        enter_keyword(s, i).0.link_id == s.link_id,
        enter_keyword(s, i).0.keywords == s.keywords,
        enter_keyword(s, i).0.links == s.links,
        next_count(enter_keyword(s, i).0) == i,
{
    if i >= s.keywords.len() {
        lemma_enter_link(k, m, s, 0);
    }
}

proof fn lemma_add_target(m: IndexModel, t: TargetView)
    requires
        lookup(m, t) is None,
    ensures
        lookup(add_target(m, t), t) == Some(fresh(m)),
        keeps(m, add_target(m, t)),
        add_target(m, t).counts == m.counts,
{
    assert(m.hosts.submap_of(add_target(m, t).hosts));
    assert(m.values.submap_of(add_target(m, t).values));
    lemma_keeps_refl(m);
}

/// What one step of recording a scrap result does, in the terms of `scrap_inv`.
pub open spec fn scrap_step_ok(k: LinkKeyView, m: IndexModel, s: ScrapView, q: StatementView) -> bool {
    let (m2, r) = execute(m, q);
    let (s2, st2) = scrap_advance(s, r);
    &&& keeps(m, m2)
    &&& s2.link_id == s.link_id
    &&& s2.keywords == s.keywords
    &&& s2.links == s.links
    &&& (st2 matches StepView::Finish(Err(_)) || {
        &&& scrap_inv(k, m2, s2, st2)
        &&& if s.stage is Counting {
            &&& m2.counts == m.counts.insert(
                (s.link_id, keyword_id(m, s.keywords, next_count(s))),
                s.keywords[next_count(s)].1,
            )
            &&& next_count(s2) == next_count(s) + 1
        } else {
            &&& m2.counts == m.counts
            &&& next_count(s2) == next_count(s)
        }
    })
}

proof fn lemma_keyword_step(k: LinkKeyView, m: IndexModel, s: ScrapView, q: StatementView)
    requires
        scrap_inv(k, m, s, StepView::Run(q)),
        s.stage is Keyword,
    ensures
        scrap_step_ok(k, m, s, q),
{
    let i = next_count(s);
    let t = keyword_target(s.keywords[i].0);
    let (m2, r) = execute(m, q);
    if s.stage->Keyword_sub.phase == Phase::Inserting && lookup(m, t) is None {
        lemma_add_target(m, t);
        assert(m2 == add_target(m, t));
        lemma_keeps_known(m, m2, s.keywords, s.link_id, s.links, i, 0);
        lemma_keeps_link_id(m, m2, k);
        assert(keywords_known(m2, s.keywords, i + 1));
    } else {
        assert(m2 == m);
        lemma_keeps_refl(m);
        assert(keywords_known(m2, s.keywords, i + 1) || !(scrap_advance(s, r).0.stage is Counting));
    }
}

proof fn lemma_counting_step(k: LinkKeyView, m: IndexModel, s: ScrapView, q: StatementView)
    requires
        scrap_inv(k, m, s, StepView::Run(q)),
        s.stage is Counting,
    ensures
        scrap_step_ok(k, m, s, q),
{
    let i = next_count(s);
    let (m2, r) = execute(m, q);
    assert(m2.hosts == m.hosts && m2.values == m.values && m2.links == m.links && m2.pointers == m.pointers);
    lemma_keeps_refl(m);
    assert forall|x: int| 0 <= x < i + 1 implies #[trigger] lookup(m2, keyword_target(s.keywords[x].0)) is Some by {
        assert(lookup(m, keyword_target(s.keywords[x].0)) is Some);
    }
    assert(link_id_of(m2, k) == link_id_of(m, k));
    if i + 1 >= s.keywords.len() {
        assert(links_known(m2, s.link_id, s.links, 0));
    }
    lemma_enter_keyword(k, m2, s, i + 1);
}

proof fn lemma_link_stage_step(k: LinkKeyView, m: IndexModel, s: ScrapView, q: StatementView)
    requires
        scrap_inv(k, m, s, StepView::Run(q)),
        s.stage is Link,
    ensures
        scrap_step_ok(k, m, s, q),
{
    let j = s.stage->Link_index;
    let sub = s.stage->Link_sub;
    let kj = key_of(s.links[j])->Ok_0;
    let (m2, r) = execute(m, q);
    lemma_loi_step(kj, m, sub, q);
    lemma_keeps_known(m, m2, s.keywords, s.link_id, s.links, s.keywords.len() as int, j);
    lemma_keeps_link_id(m, m2, k);
}

proof fn lemma_linking_step(k: LinkKeyView, m: IndexModel, s: ScrapView, q: StatementView)
    requires
        scrap_inv(k, m, s, StepView::Run(q)),
        s.stage is Linking,
    ensures
        scrap_step_ok(k, m, s, q),
{
    let j = s.stage->Linking_index;
    let kj = key_of(s.links[j])->Ok_0;
    let (m2, r) = execute(m, q);
    assert(m2.hosts == m.hosts && m2.values == m.values && m2.links == m.links && m2.counts == m.counts);
    assert(keeps(m, m2)) by {
        lemma_keeps_refl(m);
    }
    lemma_keeps_known(m, m2, s.keywords, s.link_id, s.links, s.keywords.len() as int, j);
    lemma_keeps_link_id(m, m2, k);
    lemma_keeps_link_id(m, m2, kj);
    assert(link_known(m2, s.link_id, s.links, j));
    assert(links_known(m2, s.link_id, s.links, j + 1));
    lemma_enter_link(k, m2, s, j + 1);
}

/// One step of recording a scrap result keeps `scrap_inv`, unless it fails.
pub proof fn lemma_scrap_step(k: LinkKeyView, m: IndexModel, s: ScrapView, q: StatementView)
    requires
        scrap_inv(k, m, s, StepView::Run(q)),
    ensures
        scrap_step_ok(k, m, s, q),
{
    match s.stage {
        ScrapStageView::Keyword { .. } => lemma_keyword_step(k, m, s, q),
        ScrapStageView::Counting { .. } => lemma_counting_step(k, m, s, q),
        ScrapStageView::Link { .. } => lemma_link_stage_step(k, m, s, q),
        ScrapStageView::Linking { .. } => lemma_linking_step(k, m, s, q),
        _ => {},
    }
}

proof fn lemma_count_writes_unfold(m: IndexModel, lid: i64, keywords: Seq<(Seq<char>, u32)>, i: int, c: Map<(i64, i64), u32>)
    requires
        0 <= i < keywords.len(),
    ensures
        write_counts(c, count_writes(m, lid, keywords, i))
            == write_counts(c.insert((lid, keyword_id(m, keywords, i)), keywords[i].1), count_writes(m, lid, keywords, i + 1)),
{
    let w = count_writes(m, lid, keywords, i);
    assert(w[0] == ((lid, keyword_id(m, keywords, i)), keywords[i].1));
    assert(w.drop_first() =~= count_writes(m, lid, keywords, i + 1));
}

proof fn lemma_count_writes_past(m: IndexModel, lid: i64, keywords: Seq<(Seq<char>, u32)>, c: Map<(i64, i64), u32>)
    ensures
        write_counts(c, count_writes(m, lid, keywords, keywords.len() as int)) == c,
{
    assert(count_writes(m, lid, keywords, keywords.len() as int) =~= Seq::<((i64, i64), u32)>::empty());
}

proof fn lemma_scrap_drive(k: LinkKeyView, m: IndexModel, s: ScrapView, st: StepView<()>, fuel: nat)
    requires
        scrap_inv(k, m, s, st),
        drive(scrap_adv(), m, s, st, fuel).1 == Some(Ok::<(), FailureView>(())),
    ensures
        ({
            let mf = drive(scrap_adv(), m, s, st, fuel).0;
            &&& keeps(m, mf)
            &&& link_id_of(mf, k) == Some(s.link_id)
            &&& keywords_known(mf, s.keywords, s.keywords.len() as int)
            &&& links_known(mf, s.link_id, s.links, s.links.len() as int)
            &&& mf.counts == write_counts(m.counts, count_writes(mf, s.link_id, s.keywords, next_count(s)))
        }),
    decreases fuel,
{
    match st {
        StepView::Finish(_) => {
            lemma_keeps_refl(m);
            lemma_count_writes_past(m, s.link_id, s.keywords, m.counts);
        },
        StepView::Run(q) => {
            let adv = scrap_adv();
            let (m2, r) = execute(m, q);
            let (s2, st2) = scrap_advance(s, r);
            assert(fuel > 0);
            assert(adv(s, r) == (s2, st2));
            assert(drive(adv, m, s, st, fuel) == drive(adv, m2, s2, st2, (fuel - 1) as nat));
            lemma_scrap_step(k, m, s, q);
            lemma_scrap_drive(k, m2, s2, st2, (fuel - 1) as nat);
            let mf = drive(adv, m2, s2, st2, (fuel - 1) as nat).0;
            lemma_keeps_trans(m, m2, mf);
            if s.stage is Counting {
                let i = next_count(s);
                lemma_keeps_lookup(m, mf, keyword_target(s.keywords[i].0));
                lemma_count_writes_unfold(mf, s.link_id, s.keywords, i, m.counts);
            }
        },
    }
}

proof fn lemma_write_counts_union(c: Map<(i64, i64), u32>, w: Seq<((i64, i64), u32)>)
    ensures
        write_counts(c, w) == c.union_prefer_right(write_counts(Map::empty(), w)),
    decreases w.len(),
{
    if w.len() > 0 {
        let (a, b) = w[0];
        lemma_write_counts_union(c.insert(a, b), w.drop_first());
        lemma_write_counts_union(Map::<(i64, i64), u32>::empty().insert(a, b), w.drop_first());
        let e1 = write_counts(Map::empty(), w.drop_first());
        assert(c.insert(a, b).union_prefer_right(e1)
            =~= c.union_prefer_right(Map::<(i64, i64), u32>::empty().insert(a, b).union_prefer_right(e1)));
    } else {
        assert(c.union_prefer_right(Map::<(i64, i64), u32>::empty()) =~= c);
    }
}

/// Writing the same counts twice leaves what writing them once left.
pub proof fn lemma_write_counts_twice(c: Map<(i64, i64), u32>, w: Seq<((i64, i64), u32)>)
    ensures
        write_counts(write_counts(c, w), w) == write_counts(c, w),
{
    lemma_write_counts_union(c, w);
    lemma_write_counts_union(write_counts(c, w), w);
    let e = write_counts(Map::empty(), w);
    assert(c.union_prefer_right(e).union_prefer_right(e) =~= c.union_prefer_right(e));
}

/// Index `m` with its counts replaced by `c`.
pub open spec fn with_counts(m: IndexModel, c: Map<(i64, i64), u32>) -> IndexModel {
    IndexModel { counts: c, ..m }
}

proof fn lemma_second_links(m1: IndexModel, s: ScrapView, c: Map<(i64, i64), u32>, j: int, fuel: nat)
    requires
        0 <= j <= s.links.len(),
        links_known(m1, s.link_id, s.links, s.links.len() as int),
        fuel >= 2 * (s.links.len() - j),
    ensures
        drive(scrap_adv(), with_counts(m1, c), enter_link(s, j).0, enter_link(s, j).1, fuel)
            == (with_counts(m1, c), Some(Ok::<(), FailureView>(()))),
    decreases s.links.len() - j,
{
    let mc = with_counts(m1, c);
    let adv = scrap_adv();
    if j < s.links.len() {
        assert(link_known(m1, s.link_id, s.links, j));
        let kj = key_of(s.links[j])->Ok_0;
        let to = link_id_of(m1, kj)->Some_0;
        assert(link_id_of(mc, kj) == Some(to));
        let (s1, st1) = enter_link(s, j);
        assert(st1 == StepView::<()>::Run(StatementView::LinkId { key: kj }));
        assert(execute(mc, StatementView::LinkId { key: kj }) == (mc, ReplyView::Row(to)));
        let (s2, st2) = scrap_advance(s1, ReplyView::Row(to));
        assert(adv(s1, ReplyView::Row(to)) == (s2, st2));
        let q2 = StatementView::AddLinkTo { link_id: s.link_id, to_id: to };
        assert(st2 == StepView::<()>::Run(q2));
        assert(mc.pointers.insert((s.link_id, to)) =~= mc.pointers);
        assert(execute(mc, q2) == (mc, ReplyView::NoRow));
        let (s3, st3) = scrap_advance(s2, ReplyView::NoRow);
        assert((s3, st3) == enter_link(s2, j + 1));
        assert(adv(s2, ReplyView::NoRow) == (s3, st3));
        lemma_second_links(m1, s2, c, j + 1, (fuel - 2) as nat);
        assert(drive(adv, mc, s2, st2, (fuel - 1) as nat) == drive(adv, mc, s3, st3, (fuel - 2) as nat));
        assert(drive(adv, mc, s1, st1, fuel) == drive(adv, mc, s2, st2, (fuel - 1) as nat));
    }
}

proof fn lemma_second_keywords(m1: IndexModel, s: ScrapView, c: Map<(i64, i64), u32>, i: int, fuel: nat)
    requires
        0 <= i <= s.keywords.len(),
        keywords_known(m1, s.keywords, s.keywords.len() as int),
        links_known(m1, s.link_id, s.links, s.links.len() as int),
        fuel >= 2 * (s.keywords.len() - i) + 2 * s.links.len(),
    ensures
        drive(scrap_adv(), with_counts(m1, c), enter_keyword(s, i).0, enter_keyword(s, i).1, fuel) == (
            with_counts(m1, write_counts(c, count_writes(m1, s.link_id, s.keywords, i))),
            Some(Ok::<(), FailureView>(())),
        ),
    decreases s.keywords.len() - i,
{
    let mc = with_counts(m1, c);
    let adv = scrap_adv();
    if i < s.keywords.len() {
        let t = keyword_target(s.keywords[i].0);
        assert(lookup(m1, t) is Some);
        let kid = keyword_id(m1, s.keywords, i);
        assert(lookup(mc, t) == Some(kid));
        let (s1, st1) = enter_keyword(s, i);
        assert(st1 == StepView::<()>::Run(find_statement(t)));
        assert(execute(mc, find_statement(t)) == (mc, ReplyView::Row(kid)));
        let (s2, st2) = scrap_advance(s1, ReplyView::Row(kid));
        assert(adv(s1, ReplyView::Row(kid)) == (s2, st2));
        let q2 = StatementView::SetKeywordCount { link_id: s.link_id, keyword_id: kid, count: s.keywords[i].1 };
        assert(st2 == StepView::<()>::Run(q2));
        let c2 = c.insert((s.link_id, kid), s.keywords[i].1);
        assert(execute(mc, q2) == (with_counts(m1, c2), ReplyView::NoRow));
        let (s3, st3) = scrap_advance(s2, ReplyView::NoRow);
        assert((s3, st3) == enter_keyword(s2, i + 1));
        assert(adv(s2, ReplyView::NoRow) == (s3, st3));
        lemma_second_keywords(m1, s2, c2, i + 1, (fuel - 2) as nat);
        lemma_count_writes_unfold(m1, s.link_id, s.keywords, i, c);
        assert(drive(adv, mc, s2, st2, (fuel - 1) as nat) == drive(adv, with_counts(m1, c2), s3, st3, (fuel - 2) as nat));
        assert(drive(adv, mc, s1, st1, fuel) == drive(adv, mc, s2, st2, (fuel - 1) as nat));
    } else {
        lemma_second_links(m1, s, c, 0, fuel);
        lemma_count_writes_past(m1, s.link_id, s.keywords, c);
    }
}

/// Recording a scrap result is idempotent: where recording what was found
/// at `url` (its keyword counts and the URLs it links to) succeeds, the link
/// of the URL was stored; afterwards everything that was stored stays stored
/// under the same id, every keyword and every linked URL is stored, and the
/// link points to each linked URL; and recording the same result again
/// (given the statement that looks its link up, and two per keyword and per linked URL,
/// that it takes) succeeds and changes nothing: no host, path, query,
/// keyword, link, count or pointer is added or changed.
pub proof fn lemma_scrap_result_idempotent(
    m: IndexModel,
    url: Seq<char>,
    keywords: Seq<(Seq<char>, u32)>,
    links: Seq<Seq<char>>,
    fuel: nat,
    again: nat,
)
    requires
        scrap_on(m, url, keywords, links, fuel).1 == Some(Ok::<(), FailureView>(())),
        again >= 1 + 2 * keywords.len() + 2 * links.len(),
    ensures
        key_of(url) is Ok,
        link_id_of(m, key_of(url)->Ok_0) is Some,
        keeps(m, scrap_on(m, url, keywords, links, fuel).0),
        keywords_known(scrap_on(m, url, keywords, links, fuel).0, keywords, keywords.len() as int),
        links_known(
            scrap_on(m, url, keywords, links, fuel).0,
            link_id_of(m, key_of(url)->Ok_0)->Some_0,
            links,
            links.len() as int,
        ),
        scrap_on(scrap_on(m, url, keywords, links, fuel).0, url, keywords, links, again)
            == (scrap_on(m, url, keywords, links, fuel).0, Some(Ok::<(), FailureView>(()))),
{
    let adv = scrap_adv();
    let (s0, st0) = scrap_begin(url, keywords, links);
    let k = key_of(url)->Ok_0;
    let q0 = StatementView::LinkId { key: k };
    assert(st0 == StepView::<()>::Run(q0));
    assert(fuel > 0);
    let r0 = execute(m, q0).1;
    assert(adv(s0, r0) == scrap_advance(s0, r0));
    assert(drive(adv, m, s0, st0, fuel) == drive(adv, m, scrap_advance(s0, r0).0, scrap_advance(s0, r0).1, (fuel - 1) as nat));
    assert(link_id_of(m, k) is Some);
    let lid = link_id_of(m, k)->Some_0;
    let b = ScrapView { link_id: lid, ..s0 };
    let (s1, st1) = enter_keyword(b, 0);
    assert(scrap_advance(s0, r0) == (s1, st1));
    lemma_enter_keyword(k, m, b, 0);
    lemma_scrap_drive(k, m, s1, st1, (fuel - 1) as nat);
    let m1 = scrap_on(m, url, keywords, links, fuel).0;
    let w = count_writes(m1, lid, keywords, 0);
    assert(m1.counts == write_counts(m.counts, w));
    // Again, against the index it left.
    assert(execute(m1, q0) == (m1, ReplyView::Row(lid)));
    assert(adv(s0, ReplyView::Row(lid)) == (s1, st1));
    assert(drive(adv, m1, s0, st0, again) == drive(adv, m1, s1, st1, (again - 1) as nat));
    lemma_second_keywords(m1, b, m1.counts, 0, (again - 1) as nat);
    assert(with_counts(m1, m1.counts) == m1);
    lemma_write_counts_twice(m.counts, w);
    assert(with_counts(m1, write_counts(m1.counts, w)) == m1);
}

} // verus!
