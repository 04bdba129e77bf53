//! The summary of a lakehouse load: per dataset, in dataset-ID order, its
//! title and how many files, typed tables and rows it has.
use vstd::prelude::*;
use crate::agent::canonical::{key_less, key_lt};
use crate::json::{member, object, Json, JsonValue};
use crate::lakehouse::types::{LakehouseDatasetReport, LakehouseFileReport, LakehouseReport};
use crate::text::str_eq;

verus! {

/// `BTreeMap::insert` on a key-ordered list of entries: the entry with the
/// same key is replaced, or the new entry goes where its key orders.
pub open spec fn map_insert<T>(s: Seq<(Seq<char>, T)>, e: (Seq<char>, T)) -> Seq<(Seq<char>, T)>
    decreases s.len(),
{
    if s.len() == 0 {
        seq![e]
    } else if s.last().0 == e.0 {
        s.drop_last().push(e)
    } else if key_lt(e.0, s.last().0) {
        map_insert(s.drop_last(), e).push(s.last())
    } else {
        s.push(e)
    }
}

/// The entries of a `BTreeMap` built by inserting the pairs in order: one
/// entry per key, in key order, holding the last value inserted under it.
pub open spec fn map_from<T>(pairs: Seq<(Seq<char>, T)>) -> Seq<(Seq<char>, T)>
    decreases pairs.len(),
{
    if pairs.len() == 0 {
        Seq::empty()
    } else {
        map_insert(map_from(pairs.drop_last()), pairs.last())
    }
}

/// The number of files loaded as typed tables.
pub open spec fn typed_count(fs: Seq<LakehouseFileReport>) -> nat
    decreases fs.len(),
{
    if fs.len() == 0 {
        0
    } else {
        typed_count(fs.drop_last()) + if fs.last().table is Some {
            1nat
        } else {
            0nat
        }
    }
}

/// The sum of the recorded row counts.
pub open spec fn rows_total(fs: Seq<LakehouseFileReport>) -> int
    decreases fs.len(),
{
    if fs.len() == 0 {
        0
    } else {
        rows_total(fs.drop_last()) + match fs.last().rows {
            Some(n) => n as int,
            None => 0,
        }
    }
}

/// Every partial sum of the recorded row counts fits in `i64`.
pub open spec fn rows_fit(fs: Seq<LakehouseFileReport>) -> bool {
    forall|k: int| 0 <= k <= fs.len() ==> i64::MIN <= #[trigger] rows_total(fs.take(k)) <= i64::MAX
}

/// The summary of one dataset.
pub open spec fn dataset_summary(d: LakehouseDatasetReport) -> Json {
    Json::Object(
        seq![
            ("title"@, Json::Str(d.title@)),
            ("files"@, Json::Int(d.files@.len() as int)),
            ("typedTables"@, Json::Int(typed_count(d.files@) as int)),
            ("rows"@, Json::Int(rows_total(d.files@))),
        ],
    )
}

/// The summaries of datasets keyed by dataset ID.
pub open spec fn summary_pairs(ds: Seq<LakehouseDatasetReport>) -> Seq<(Seq<char>, Json)> {
    ds.map_values(|d: LakehouseDatasetReport| (d.id@, dataset_summary(d)))
}

/// The summary of a load: its schema and endpoint, its datasets keyed and
/// ordered by ID (a later dataset replacing an earlier one of the same ID),
/// and its catalog tables.
pub open spec fn summary_json(r: LakehouseReport) -> Json {
    Json::Object(
        seq![
            ("schema"@, Json::Str(r.schema@)),
            ("endpoint"@, Json::Str(r.endpoint@)),
            ("datasets"@, Json::Object(map_from(summary_pairs(r.datasets@)))),
            ("catalogTables"@, Json::Array(r.catalog_tables@.map_values(|s: String| Json::Str(s@)))),
        ],
    )
}

/// No key orders before itself.
pub proof fn lemma_key_lt_irreflexive(a: Seq<char>)
    ensures
        !key_lt(a, a),
    decreases a.len(),
{
    if a.len() > 0 {
        lemma_key_lt_irreflexive(a.drop_first());
    }
}

/// Inserting at the position found by scanning back over greater keys:
/// the entry before it is replaced where its key is the same, otherwise
/// the new entry goes there.
pub proof fn lemma_map_insert_position<T>(s: Seq<(Seq<char>, T)>, e: (Seq<char>, T), p: int)
    requires
        0 <= p <= s.len(),
        forall|q: int| p <= q < s.len() ==> key_lt(e.0, #[trigger] s[q].0),
        p == 0 || !key_lt(e.0, s[p - 1].0),
    ensures
        p > 0 && s[p - 1].0 == e.0 ==> map_insert(s, e) == s.update(p - 1, e),
        !(p > 0 && s[p - 1].0 == e.0) ==> map_insert(s, e) == s.insert(p, e),
    decreases s.len(),
{
    if s.len() == 0 {
        assert(s.insert(p, e) =~= seq![e]);
    } else if p == s.len() {
        if s.last().0 == e.0 {
            assert(s.drop_last().push(e) =~= s.update(p - 1, e));
        } else {
            assert(s.push(e) =~= s.insert(p, e));
        }
    } else {
        assert(key_lt(e.0, s.last().0));
        lemma_key_lt_irreflexive(e.0);
        assert(s.last().0 != e.0);
        lemma_map_insert_position(s.drop_last(), e, p);
        if p > 0 && s[p - 1].0 == e.0 {
            assert(s.drop_last().update(p - 1, e).push(s.last()) =~= s.update(p - 1, e));
        } else {
            assert(s.drop_last().insert(p, e).push(s.last()) =~= s.insert(p, e));
        }
    }
}

/// The summary of one dataset.
fn dataset_summary_value(d: &LakehouseDatasetReport) -> (r: JsonValue)
    requires
        rows_fit(d.files@),
    ensures
        r.model() == dataset_summary(*d),
{
    let mut typed: u64 = 0;
    let mut rows: i64 = 0;
    for i in 0..d.files.len()
        invariant
            typed == typed_count(d.files@.take(i as int)),
            rows == rows_total(d.files@.take(i as int)),
            rows_fit(d.files@),
            typed <= i,
            i <= d.files@.len(),
    {
        let ghost before = d.files@.take(i as int);
        assert(d.files@.take(i + 1).drop_last() =~= before);
        assert(i64::MIN <= rows_total(d.files@.take(i + 1)) <= i64::MAX);
        if d.files[i].table.is_some() {
            typed = typed + 1;
        }
        match d.files[i].rows {
            Some(n) => {
                rows = rows + n;
            },
            None => {},
        }
    }
    assert(d.files@.take(d.files@.len() as int) =~= d.files@);
    let mut e: Vec<(String, JsonValue)> = Vec::new();
    e.push(member("title", JsonValue::text(d.title.as_str())));
    e.push(member("files", JsonValue::uint(d.files.len() as u64)));
    e.push(member("typedTables", JsonValue::uint(typed)));
    e.push(member("rows", JsonValue::integer(rows)));
    let ghost ev = e@;
    let r = object(e);
    assert(crate::json::members(ev) =~= dataset_summary(*d)->Object_0);
    r
}

/// Whether every dataset's row counts can be summed in `i64`.
pub fn summary_fits(report: &LakehouseReport) -> (r: bool)
    ensures
        r == forall|i: int| 0 <= i < report.datasets@.len() ==> rows_fit(#[trigger] report.datasets@[i].files@),
{
    for i in 0..report.datasets.len()
        invariant
            forall|j: int| 0 <= j < i ==> rows_fit(#[trigger] report.datasets@[j].files@),
    {
        let fs = &report.datasets[i].files;
        let mut total: i64 = 0;
        for k in 0..fs.len()
            invariant
                total == rows_total(fs@.take(k as int)),
                forall|m: int| 0 <= m <= k ==> i64::MIN <= #[trigger] rows_total(fs@.take(m)) <= i64::MAX,
                k <= fs@.len(),
                i < report.datasets@.len(),
                fs@ == report.datasets@[i as int].files@,
        {
            assert(fs@.take(k + 1).drop_last() =~= fs@.take(k as int));
            let add: i64 = match fs[k].rows {
                Some(n) => n,
                None => 0,
            };
            assert(fs@.take(k + 1).last() == fs@[k as int]);
            assert(rows_total(fs@.take(k + 1)) == total + add);
            match total.checked_add(add) {
                Some(t) => {
                    total = t;
                },
                None => {
                    assert(!rows_fit(fs@));
                    assert(!rows_fit(report.datasets@[i as int].files@));
                    return false;
                },
            }
        }
        assert(rows_fit(fs@));
    }
    true
}

/// The summary of a load: schema, endpoint, per-dataset summaries keyed
/// and ordered by dataset ID, and the catalog tables.
pub fn report_summary(report: &LakehouseReport) -> (r: JsonValue)
    requires
        forall|i: int| 0 <= i < report.datasets@.len() ==> rows_fit(#[trigger] report.datasets@[i].files@),
    ensures
        r.model() == summary_json(*report),
{
    let ghost pairs = summary_pairs(report.datasets@);
    let mut entries: Vec<(String, JsonValue)> = Vec::new();
    for i in 0..report.datasets.len()
        invariant
            pairs == summary_pairs(report.datasets@),
            forall|j: int| 0 <= j < report.datasets@.len() ==> rows_fit(#[trigger] report.datasets@[j].files@),
            crate::json::members(entries@) == map_from(pairs.take(i as int)),
    {
        let d = &report.datasets[i];
        let value = dataset_summary_value(d);
        let ghost before = entries@;
        let ghost e = (d.id@, dataset_summary(*d));
        assert(pairs[i as int] == e);
        assert(pairs.take(i + 1).drop_last() =~= pairs.take(i as int));
        let ghost m = crate::json::members(before);
        let mut p = entries.len();
        while p > 0 && key_less(d.id.as_str(), entries[p - 1].0.as_str())
            invariant
                p <= entries@.len(),
                entries@ == before,
                m == crate::json::members(before),
                forall|q: int| p <= q < m.len() ==> key_lt(e.0, #[trigger] m[q].0),
                e.0 == d.id@,
            decreases p,
        {
            assert(m[p - 1].0 == entries@[p - 1].0@);
            p = p - 1;
        }
        proof {
            lemma_map_insert_position(m, e, p as int);
        }
        if p > 0 && str_eq(entries[p - 1].0.as_str(), d.id.as_str()) {
            entries.set(p - 1, (d.id.clone(), value));
            assert(crate::json::members(entries@) =~= m.update(p - 1, e));
        } else {
            entries.insert(p, (d.id.clone(), value));
            assert(crate::json::members(entries@) =~= m.insert(p as int, e));
        }
    }
    assert(pairs.take(report.datasets@.len() as int) =~= pairs);
    let datasets = object(entries);
    let mut e: Vec<(String, JsonValue)> = Vec::new();
    e.push(member("schema", JsonValue::text(report.schema.as_str())));
    e.push(member("endpoint", JsonValue::text(report.endpoint.as_str())));
    e.push(member("datasets", datasets));
    e.push(member("catalogTables", JsonValue::texts(&report.catalog_tables)));
    let ghost ev = e@;
    let r = object(e);
    assert(crate::json::members(ev) =~= summary_json(*report)->Object_0);
    r
}

/// The keys of entries, in order.
pub open spec fn keys_of<T>(s: Seq<(Seq<char>, T)>) -> Seq<Seq<char>> {
    s.map_values(|e: (Seq<char>, T)| e.0)
}

/// Keys in strictly increasing order.
pub open spec fn strictly_ordered<T>(s: Seq<(Seq<char>, T)>) -> bool {
    forall|i: int, j: int| 0 <= i < j < s.len() ==> key_lt(#[trigger] s[i].0, #[trigger] s[j].0)
}

/// The order of keys is transitive.
pub proof fn lemma_key_lt_transitive(a: Seq<char>, b: Seq<char>, c: Seq<char>)
    requires
        key_lt(a, b),
        key_lt(b, c),
    ensures
        key_lt(a, c),
    decreases a.len(),
{
    if a.len() > 0 && b.len() > 0 && c.len() > 0 && a[0] == b[0] && b[0] == c[0] {
        lemma_key_lt_transitive(a.drop_first(), b.drop_first(), c.drop_first());
    }
}

/// Of two different keys, one orders before the other.
pub proof fn lemma_key_lt_total(a: Seq<char>, b: Seq<char>)
    requires
        a != b,
    ensures
        key_lt(a, b) || key_lt(b, a),
    decreases a.len(),
{
    if a.len() > 0 && b.len() > 0 && a[0] == b[0] {
        if a.drop_first() == b.drop_first() {
            assert(a =~= seq![a[0]] + a.drop_first());
            assert(b =~= seq![b[0]] + b.drop_first());
        }
        lemma_key_lt_total(a.drop_first(), b.drop_first());
    } else if a.len() > 0 && b.len() > 0 {
        assert((a[0] as u32) != (b[0] as u32)) by {
            vstd::utf8::char_u32_cast(a[0], a[0] as u32);
            vstd::utf8::char_u32_cast(b[0], b[0] as u32);
        }
    } else if a.len() == 0 && b.len() == 0 {
        assert(a =~= b);
    }
}

/// Inserting keeps the keys strictly ordered, and adds the new key to
/// those present.
pub proof fn lemma_map_insert_ordered<T>(s: Seq<(Seq<char>, T)>, e: (Seq<char>, T))
    requires
        strictly_ordered(s),
    ensures
        strictly_ordered(map_insert(s, e)),
        forall|k: Seq<char>| keys_of(map_insert(s, e)).contains(k) <==> (keys_of(s).contains(k) || k == e.0),
    decreases s.len(),
{
    broadcast use vstd::seq_lib::lemma_seq_contains_after_push;

    let r = map_insert(s, e);
    if s.len() == 0 {
        assert(keys_of(r) =~= seq![e.0]);
    } else {
        let init = s.drop_last();
        assert(strictly_ordered(init));
        assert(keys_of(s) =~= keys_of(init).push(s.last().0));
        if s.last().0 == e.0 {
            assert(keys_of(r) =~= keys_of(init).push(e.0));
            assert forall|i: int, j: int| 0 <= i < j < r.len() implies key_lt(#[trigger] r[i].0, #[trigger] r[j].0) by {
                assert(key_lt(s[i].0, s[j].0));
            }
        } else if key_lt(e.0, s.last().0) {
            lemma_map_insert_ordered(init, e);
            let ri = map_insert(init, e);
            assert(r == ri.push(s.last()));
            assert(keys_of(r) =~= keys_of(ri).push(s.last().0));
            assert forall|i: int, j: int| 0 <= i < j < r.len() implies key_lt(#[trigger] r[i].0, #[trigger] r[j].0) by {
                if j == r.len() - 1 {
                    assert(keys_of(ri)[i] == r[i].0);
                    assert(keys_of(ri).contains(r[i].0));
                    let k = r[i].0;
                    if k == e.0 {
                    } else {
                        assert(keys_of(init).contains(k));
                        let m = choose|m: int| 0 <= m < keys_of(init).len() && keys_of(init)[m] == k;
                        assert(s[m].0 == k);
                        assert(key_lt(s[m].0, s[s.len() - 1].0));
                    }
                } else {
                    assert(ri[i] == r[i] && ri[j] == r[j]);
                }
            }
        } else {
            lemma_key_lt_total(e.0, s.last().0);
            assert(keys_of(r) =~= keys_of(s).push(e.0));
            assert forall|i: int, j: int| 0 <= i < j < r.len() implies key_lt(#[trigger] r[i].0, #[trigger] r[j].0) by {
                if j == r.len() - 1 {
                    if i < s.len() - 1 {
                        assert(key_lt(s[i].0, s[s.len() - 1].0));
                        lemma_key_lt_transitive(s[i].0, s.last().0, e.0);
                    }
                } else {
                    assert(key_lt(s[i].0, s[j].0));
                }
            }
        }
    }
}

/// A `BTreeMap` lists each key inserted exactly once, in increasing key
/// order, and no other key.
pub proof fn law_map_keys_ordered_once<T>(pairs: Seq<(Seq<char>, T)>)
    ensures
        strictly_ordered(map_from(pairs)),
        forall|k: Seq<char>| keys_of(map_from(pairs)).contains(k) <==> keys_of(pairs).contains(k),
    decreases pairs.len(),
{
    broadcast use vstd::seq_lib::lemma_seq_contains_after_push;

    if pairs.len() > 0 {
        law_map_keys_ordered_once(pairs.drop_last());
        lemma_map_insert_ordered(map_from(pairs.drop_last()), pairs.last());
        assert(map_from(pairs) == map_insert(map_from(pairs.drop_last()), pairs.last()));
        assert(keys_of(pairs) =~= keys_of(pairs.drop_last()).push(pairs.last().0));
        let m = map_from(pairs.drop_last());
        let e = pairs.last();
        assert forall|k: Seq<char>| keys_of(map_from(pairs)).contains(k) <==> keys_of(pairs).contains(k) by {
            assert(keys_of(map_insert(m, e)).contains(k) <==> (keys_of(m).contains(k) || k == e.0));
            assert(keys_of(m).contains(k) <==> keys_of(pairs.drop_last()).contains(k));
            assert(keys_of(pairs.drop_last()).push(e.0).contains(k) <==> (e.0 == k
                || keys_of(pairs.drop_last()).contains(k)));
        }
    } else {
        assert(keys_of(map_from(pairs)) =~= Seq::<Seq<char>>::empty());
    }
}

} // verus!
