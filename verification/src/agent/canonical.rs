//! The canonical JSON text that qg-python hashes: Python's
//! `json.dumps(value, sort_keys=True, separators=(",", ":"))` with its default
//! `ensure_ascii` escaping.
use vstd::prelude::*;
use crate::json::{Json, JsonNumber, JsonValue};
use crate::text::{bool_text, char_from_ascii, i64_to_string, join, push_char, push_str, signed_decimal, u64_to_string};
use crate::digest::{hex_digit, hex_digit_char};

verus! {

/// Byte-wise (code point) order of keys, as `str` orders them.
pub open spec fn key_lt(a: Seq<char>, b: Seq<char>) -> bool
    decreases a.len(),
{
    if a.len() == 0 {
        b.len() > 0
    } else if b.len() == 0 {
        false
    } else if a[0] != b[0] {
        (a[0] as u32) < (b[0] as u32)
    } else {
        key_lt(a.drop_first(), b.drop_first())
    }
}

/// Inserts `e` into a key-sorted sequence after every entry whose key is not
/// greater than its own.
pub open spec fn insert_by_key<T>(sorted: Seq<(Seq<char>, T)>, e: (Seq<char>, T)) -> Seq<(Seq<char>, T)>
    decreases sorted.len(),
{
    if sorted.len() == 0 {
        seq![e]
    } else if key_lt(e.0, sorted.last().0) {
        insert_by_key(sorted.drop_last(), e).push(sorted.last())
    } else {
        sorted.push(e)
    }
}

/// A stable sort by key (what `sort_by_key` computes).
pub open spec fn sort_by_key<T>(s: Seq<(Seq<char>, T)>) -> Seq<(Seq<char>, T)>
    decreases s.len(),
{
    if s.len() == 0 {
        s
    } else {
        insert_by_key(sort_by_key(s.drop_last()), s.last())
    }
}

/// Four lowercase hexadecimal digits of `n < 65536`.
pub open spec fn hex4(n: nat) -> Seq<char> {
    seq![
        hex_digit((n / 4096) % 16),
        hex_digit((n / 256) % 16),
        hex_digit((n / 16) % 16),
        hex_digit(n % 16),
    ]
}

/// The escape of one character under `ensure_ascii`: the named escapes, a
/// `\uXXXX` escape for control characters and for non-printable or non-ASCII
/// characters of the basic plane, and a UTF-16 surrogate pair above it.
pub open spec fn py_escape(c: char) -> Seq<char> {
    let u = c as u32;
    if c == '"' {
        seq!['\\', '"']
    } else if c == '\\' {
        seq!['\\', '\\']
    } else if c == '\n' {
        seq!['\\', 'n']
    } else if c == '\r' {
        seq!['\\', 'r']
    } else if c == '\t' {
        seq!['\\', 't']
    } else if u == 0x08 {
        seq!['\\', 'b']
    } else if u == 0x0c {
        seq!['\\', 'f']
    } else if 0x20 <= u && u < 0x7f {
        seq![c]
    } else if u < 0x10000 {
        seq!['\\', 'u'] + hex4(u as nat)
    } else {
        seq!['\\', 'u'] + hex4((0xd800 + (u - 0x10000) / 1024) as nat) + seq!['\\', 'u'] + hex4(
            (0xdc00 + (u - 0x10000) % 1024) as nat,
        )
    }
}

/// The escaped characters of a string.
pub open spec fn py_escaped(s: Seq<char>) -> Seq<char>
    decreases s.len(),
{
    if s.len() == 0 {
        Seq::empty()
    } else {
        py_escaped(s.drop_last()) + py_escape(s.last())
    }
}

/// A string literal as Python renders it.
pub open spec fn py_string(s: Seq<char>) -> Seq<char> {
    seq!['"'] + py_escaped(s) + seq!['"']
}

/// The canonical text of a JSON value.
pub open spec fn py_json(v: Json) -> Seq<char>
    decreases v, 1nat,
{
    match v {
        Json::Null => seq!['n', 'u', 'l', 'l'],
        Json::Bool(b) => bool_text(b),
        Json::Int(n) => signed_decimal(n),
        Json::Float(t) => t,
        Json::Str(s) => py_string(s),
        Json::Array(items) => seq!['['] + join(py_items(items), seq![',']) + seq![']'],
        Json::Object(entries) => seq!['{'] + join(
            sort_by_key(py_members(entries)).map_values(|p: (Seq<char>, Seq<char>)| p.1),
            seq![','],
        ) + seq!['}'],
    }
}

/// The canonical texts of array items, in order.
pub open spec fn py_items(items: Seq<Json>) -> Seq<Seq<char>>
    decreases items, 0nat,
{
    Seq::new(
        items.len(),
        |i: int|
            if 0 <= i < items.len() {
                py_json(items[i])
            } else {
                Seq::empty()
            },
    )
}

/// Each member's key with its canonical text (`"key":value`), in order.
pub open spec fn py_members(entries: Seq<(Seq<char>, Json)>) -> Seq<(Seq<char>, Seq<char>)>
    decreases entries, 0nat,
{
    Seq::new(
        entries.len(),
        |i: int|
            if 0 <= i < entries.len() {
                (entries[i].0, py_string(entries[i].0) + seq![':'] + py_json(entries[i].1))
            } else {
                (Seq::empty(), Seq::empty())
            },
    )
}

/// Sorting commutes with rewriting the payloads.
pub proof fn lemma_insert_map<A, B>(sorted: Seq<(Seq<char>, A)>, e: (Seq<char>, A), f: spec_fn(A) -> B)
    ensures
        insert_by_key(sorted.map_values(|p: (Seq<char>, A)| (p.0, f(p.1))), (e.0, f(e.1)))
            == insert_by_key(sorted, e).map_values(|p: (Seq<char>, A)| (p.0, f(p.1))),
    decreases sorted.len(),
{
    let g = |p: (Seq<char>, A)| (p.0, f(p.1));
    if sorted.len() == 0 {
        assert(insert_by_key(sorted, e).map_values(g) =~= seq![(e.0, f(e.1))]);
    } else {
        let m = sorted.map_values(g);
        assert(m.drop_last() =~= sorted.drop_last().map_values(g));
        assert(m.last() == g(sorted.last()));
        if key_lt(e.0, sorted.last().0) {
            lemma_insert_map(sorted.drop_last(), e, f);
            assert(insert_by_key(sorted, e).map_values(g) =~= insert_by_key(
                sorted.drop_last(),
                e,
            ).map_values(g).push(g(sorted.last())));
        } else {
            assert(insert_by_key(sorted, e).map_values(g) =~= m.push((e.0, f(e.1))));
        }
    }
}

/// Sorting commutes with rewriting the payloads.
pub proof fn lemma_sort_map<A, B>(s: Seq<(Seq<char>, A)>, f: spec_fn(A) -> B)
    ensures
        sort_by_key(s.map_values(|p: (Seq<char>, A)| (p.0, f(p.1))))
            == sort_by_key(s).map_values(|p: (Seq<char>, A)| (p.0, f(p.1))),
    decreases s.len(),
{
    let g = |p: (Seq<char>, A)| (p.0, f(p.1));
    if s.len() > 0 {
        let m = s.map_values(g);
        assert(m.drop_last() =~= s.drop_last().map_values(g));
        lemma_sort_map(s.drop_last(), f);
        lemma_insert_map(sort_by_key(s.drop_last()), s.last(), f);
    }
}

/// Inserting at the position found by scanning from the end.
pub proof fn lemma_insert_position<T>(sorted: Seq<(Seq<char>, T)>, e: (Seq<char>, T), p: int)
    requires
        0 <= p <= sorted.len(),
        forall|q: int| p <= q < sorted.len() ==> key_lt(e.0, #[trigger] sorted[q].0),
        p == 0 || !key_lt(e.0, sorted[p - 1].0),
    ensures
        insert_by_key(sorted, e) == sorted.insert(p, e),
    decreases sorted.len(),
{
    if sorted.len() == 0 {
        assert(sorted.insert(p, e) =~= seq![e]);
    } else if p == sorted.len() {
        assert(sorted.insert(p, e) =~= sorted.push(e));
    } else {
        assert(key_lt(e.0, sorted[sorted.len() - 1].0));
        lemma_insert_position(sorted.drop_last(), e, p);
        assert(sorted.drop_last().insert(p, e).push(sorted.last()) =~= sorted.insert(p, e));
    }
}

/// Whether `a` orders before `b`.
pub fn key_less(a: &str, b: &str) -> (r: bool)
    ensures
        r == key_lt(a@, b@),
{
    let ac = crate::text::chars_of(a);
    let bc = crate::text::chars_of(b);
    let mut i: usize = 0;
    assert(a@.subrange(0, a@.len() as int) =~= a@);
    assert(b@.subrange(0, b@.len() as int) =~= b@);
    while i < ac.len() && i < bc.len() && ac[i] == bc[i]
        invariant
            ac@ == a@,
            bc@ == b@,
            i <= ac@.len(),
            i <= bc@.len(),
            key_lt(a@, b@) == key_lt(a@.subrange(i as int, a@.len() as int), b@.subrange(i as int, b@.len() as int)),
        decreases ac.len() - i,
    {
        assert(a@.subrange(i as int, a@.len() as int).drop_first() =~= a@.subrange(i + 1, a@.len() as int));
        assert(b@.subrange(i as int, b@.len() as int).drop_first() =~= b@.subrange(i + 1, b@.len() as int));
        i = i + 1;
    }
    if i == ac.len() {
        i < bc.len()
    } else if i == bc.len() {
        false
    } else {
        (ac[i] as u32) < (bc[i] as u32)
    }
}

/// The keys of object members, paired with their positions.
pub open spec fn indexed_keys(entries: Seq<(String, JsonValue)>) -> Seq<(Seq<char>, int)> {
    Seq::new(entries.len(), |i: int| (entries[i].0@, i))
}

/// The member positions in key order.
pub fn sorted_order(entries: &Vec<(String, JsonValue)>) -> (order: Vec<usize>)
    ensures
        order@.len() == entries@.len(),
        forall|j: int| 0 <= j < order@.len() ==> #[trigger] order@[j] < entries@.len(),
        order@.map_values(|k: usize| (entries@[k as int].0@, k as int)) == sort_by_key(
            indexed_keys(entries@),
        ),
{
    let ghost idx = indexed_keys(entries@);
    let mut order: Vec<usize> = Vec::new();
    let n = entries.len();
    for i in 0..n
        invariant
            n == entries@.len(),
            idx == indexed_keys(entries@),
            order@.len() == i,
            forall|j: int| 0 <= j < order@.len() ==> #[trigger] order@[j] < n,
            order@.map_values(|k: usize| (entries@[k as int].0@, k as int)) == sort_by_key(
                idx.take(i as int),
            ),
    {
        let ghost before = order@.map_values(|k: usize| (entries@[k as int].0@, k as int));
        let mut p = order.len();
        while p > 0 && key_less(entries[i].0.as_str(), entries[order[p - 1]].0.as_str())
            invariant
                p <= order@.len(),
                i < n,
                n == entries@.len(),
                forall|j: int| 0 <= j < order@.len() ==> #[trigger] order@[j] < n,
                before == order@.map_values(|k: usize| (entries@[k as int].0@, k as int)),
                forall|q: int| p <= q < before.len() ==> key_lt(entries@[i as int].0@, #[trigger] before[q].0),
            decreases p,
        {
            p = p - 1;
        }
        proof {
            lemma_insert_position(before, (entries@[i as int].0@, i as int), p as int);
            assert(idx.take(i + 1).drop_last() =~= idx.take(i as int));
            assert(idx.take(i + 1).last() == (entries@[i as int].0@, i as int));
        }
        order.insert(p, i);
        assert(order@.map_values(|k: usize| (entries@[k as int].0@, k as int)) =~= before.insert(
            p as int,
            (entries@[i as int].0@, i as int),
        ));
    }
    assert(idx.take(n as int) =~= idx);
    order
}

/// Pushes `\uXXXX` for `n < 65536`.
fn push_unicode_escape(out: &mut String, n: u32)
    requires
        n < 0x10000,
    ensures
        final(out)@ == old(out)@ + seq!['\\', 'u'] + hex4(n as nat),
{
    push_char(out, '\\');
    push_char(out, 'u');
    push_char(out, hex_digit_char(((n / 4096) % 16) as u8));
    push_char(out, hex_digit_char(((n / 256) % 16) as u8));
    push_char(out, hex_digit_char(((n / 16) % 16) as u8));
    push_char(out, hex_digit_char((n % 16) as u8));
    assert(final(out)@ =~= old(out)@ + seq!['\\', 'u'] + hex4(n as nat));
}

/// Appends the escape of one character.
fn push_escape(out: &mut String, c: char)
    ensures
        final(out)@ == old(out)@ + py_escape(c),
{
    let u = c as u32;
    if c == '"' {
        push_char(out, '\\');
        push_char(out, '"');
    } else if c == '\\' {
        push_char(out, '\\');
        push_char(out, '\\');
    } else if c == '\n' {
        push_char(out, '\\');
        push_char(out, 'n');
    } else if c == '\r' {
        push_char(out, '\\');
        push_char(out, 'r');
    } else if c == '\t' {
        push_char(out, '\\');
        push_char(out, 't');
    } else if u == 0x08 {
        push_char(out, '\\');
        push_char(out, 'b');
    } else if u == 0x0c {
        push_char(out, '\\');
        push_char(out, 'f');
    } else if 0x20 <= u && u < 0x7f {
        push_char(out, c);
    } else if u < 0x10000 {
        push_unicode_escape(out, u);
    } else {
        assert(u <= 0x10ffff) by {
            vstd::utf8::char_is_scalar(c);
        }
        push_unicode_escape(out, 0xd800 + (u - 0x10000) / 1024);
        push_unicode_escape(out, 0xdc00 + (u - 0x10000) % 1024);
    }
    assert(final(out)@ =~= old(out)@ + py_escape(c));
}

/// Appends a string literal the way Python renders it (`write_python_string`).
pub fn write_python_string(text: &str, out: &mut String)
    ensures
        final(out)@ == old(out)@ + py_string(text@),
{
    let cs = crate::text::chars_of(text);
    let ghost start = out@;
    push_char(out, '"');
    for i in 0..cs.len()
        invariant
            cs@ == text@,
            out@ == start + seq!['"'] + py_escaped(text@.take(i as int)),
    {
        push_escape(out, cs[i]);
        assert(text@.take(i + 1).drop_last() =~= text@.take(i as int));
    }
    assert(text@.take(text@.len() as int) =~= text@);
    push_char(out, '"');
    assert(out@ =~= start + py_string(text@));
}

/// Appends the canonical text of a JSON value (`write_python_json`).
pub fn write_python_json(value: &JsonValue, out: &mut String)
    ensures
        final(out)@ == old(out)@ + py_json(value.model()),
    decreases value, 1nat,
{
    let ghost start = out@;
    match value {
        JsonValue::Null => {
            push_char(out, 'n');
            push_char(out, 'u');
            push_char(out, 'l');
            push_char(out, 'l');
            assert(out@ =~= start + py_json(value.model()));
        },
        JsonValue::Bool(b) => {
            let t = crate::text::bool_to_string(*b);
            push_str(out, t.as_str());
        },
        JsonValue::Number(JsonNumber::PosInt(n)) => {
            let t = u64_to_string(*n);
            push_str(out, t.as_str());
        },
        JsonValue::Number(JsonNumber::NegInt(n)) => {
            let t = i64_to_string(*n);
            push_str(out, t.as_str());
        },
        JsonValue::Number(JsonNumber::Float(t)) => {
            push_str(out, t.as_str());
        },
        JsonValue::String(s) => {
            write_python_string(s.as_str(), out);
        },
        JsonValue::Array(items) => {
            proof {
                crate::json::lemma_array_model(*items);
                assert(decreases_to!(*value => value->Array_0));
            }
            write_python_array(items, out);
        },
        JsonValue::Object(entries) => {
            proof {
                crate::json::lemma_object_model(*entries);
                assert(decreases_to!(*value => value->Object_0));
            }
            write_python_object(entries, out);
        },
    }
}

/// Appends the canonical text of an array.
fn write_python_array(items: &Vec<JsonValue>, out: &mut String)
    ensures
        final(out)@ == old(out)@ + py_json(Json::Array(items@.map_values(|v: JsonValue| v.model()))),
    decreases items, 0nat,
{
    let ghost start = out@;
    let ghost ms = items@.map_values(|v: JsonValue| v.model());
    let ghost texts = py_items(ms);
    push_char(out, '[');
    let mut i: usize = 0;
    while i < items.len()
        invariant
            i <= items@.len(),
            ms == items@.map_values(|v: JsonValue| v.model()),
            texts == py_items(ms),
            out@ == start + seq!['['] + join(texts.take(i as int), seq![',']),
        decreases items.len() - i,
    {
        if i > 0 {
            push_char(out, ',');
        }
        proof {
            assert(decreases_to!(*items => items@));
            assert(decreases_to!(items@ => items@[i as int]));
        }
        write_python_json(&items[i], out);
        proof {
            let t = texts.take(i + 1);
            assert(t.drop_last() =~= texts.take(i as int));
            assert(t.last() == texts[i as int]);
            assert(texts[i as int] == py_json(ms[i as int]));
        }
        i = i + 1;
    }
    push_char(out, ']');
    assert(texts.take(items@.len() as int) =~= texts);
    assert(out@ =~= start + py_json(Json::Array(ms)));
}

/// Appends the canonical text of an object, members in key order.
fn write_python_object(entries: &Vec<(String, JsonValue)>, out: &mut String)
    ensures
        final(out)@ == old(out)@ + py_json(Json::Object(crate::json::members(entries@))),
    decreases entries, 0nat,
{
    let ghost start = out@;
    let ghost m = crate::json::members(entries@);
    let ghost pairs = py_members(m);
    let ghost f = |k: int|
        if 0 <= k < m.len() {
            py_string(m[k].0) + seq![':'] + py_json(m[k].1)
        } else {
            Seq::<char>::empty()
        };
    let order = sorted_order(entries);
    let ghost sorted_idx = sort_by_key(indexed_keys(entries@));
    proof {
        assert(indexed_keys(entries@).map_values(|p: (Seq<char>, int)| (p.0, f(p.1))) =~= pairs);
        lemma_sort_map(indexed_keys(entries@), f);
    }
    let ghost sorted = sort_by_key(pairs);
    let ghost texts = sorted.map_values(|p: (Seq<char>, Seq<char>)| p.1);
    push_char(out, '{');
    let mut j: usize = 0;
    while j < order.len()
        invariant
            j <= order@.len(),
            m == crate::json::members(entries@),
            order@.len() == entries@.len(),
            forall|q: int| 0 <= q < order@.len() ==> #[trigger] order@[q] < entries@.len(),
            order@.map_values(|k: usize| (entries@[k as int].0@, k as int)) == sorted_idx,
            sorted == sorted_idx.map_values(|p: (Seq<char>, int)| (p.0, f(p.1))),
            texts == sorted.map_values(|p: (Seq<char>, Seq<char>)| p.1),
            forall|k: int| 0 <= k < m.len() ==> #[trigger] f(k) == py_string(m[k].0) + seq![':'] + py_json(m[k].1),
            out@ == start + seq!['{'] + join(texts.take(j as int), seq![',']),
        decreases order.len() - j,
    {
        if j > 0 {
            push_char(out, ',');
        }
        let k = order[j];
        proof {
            assert(sorted_idx[j as int] == (entries@[k as int].0@, k as int));
            assert(texts[j as int] == f(k as int));
            assert(m[k as int] == (entries@[k as int].0@, entries@[k as int].1.model()));
        }
        write_python_string(entries[k].0.as_str(), out);
        push_char(out, ':');
        proof {
            assert(decreases_to!(*entries => entries@));
            assert(decreases_to!(entries@ => entries@[k as int]));
            assert(decreases_to!(entries@[k as int] => entries@[k as int].1));
        }
        write_python_json(&entries[k].1, out);
        proof {
            let t = texts.take(j + 1);
            assert(t.drop_last() =~= texts.take(j as int));
            assert(t.last() == texts[j as int]);
        }
        j = j + 1;
    }
    push_char(out, '}');
    assert(texts.take(order@.len() as int) =~= texts);
    assert(out@ =~= start + py_json(Json::Object(m)));
}

/// Every character is ASCII.
pub open spec fn is_ascii_text(s: Seq<char>) -> bool {
    forall|i: int| 0 <= i < s.len() ==> (#[trigger] s[i] as u32) < 0x80
}

/// The decimal text of each fractional number in a value is ASCII.
pub open spec fn floats_ascii(v: Json) -> bool
    decreases v, 1nat,
{
    match v {
        Json::Float(t) => is_ascii_text(t),
        Json::Array(items) => items_floats_ascii(items),
        Json::Object(entries) => members_floats_ascii(entries),
        _ => true,
    }
}

/// Each item's fractional numbers are ASCII.
pub open spec fn items_floats_ascii(items: Seq<Json>) -> bool
    decreases items, 0nat,
{
    if items.len() == 0 {
        true
    } else {
        items_floats_ascii(items.subrange(0, items.len() - 1)) && floats_ascii(items[items.len() - 1])
    }
}

/// Each member's fractional numbers are ASCII.
pub open spec fn members_floats_ascii(entries: Seq<(Seq<char>, Json)>) -> bool
    decreases entries, 0nat,
{
    if entries.len() == 0 {
        true
    } else {
        members_floats_ascii(entries.subrange(0, entries.len() - 1)) && floats_ascii(
            entries[entries.len() - 1].1,
        )
    }
}

proof fn lemma_ascii_concat(a: Seq<char>, b: Seq<char>)
    requires
        is_ascii_text(a),
        is_ascii_text(b),
    ensures
        is_ascii_text(a + b),
{
    assert forall|i: int| 0 <= i < (a + b).len() implies ((#[trigger] (a + b)[i]) as u32) < 0x80 by {
        if i < a.len() {
            assert((a + b)[i] == a[i]);
        } else {
            assert((a + b)[i] == b[i - a.len()]);
        }
    }
}

proof fn lemma_ascii_join(parts: Seq<Seq<char>>, sep: Seq<char>)
    requires
        is_ascii_text(sep),
        forall|i: int| 0 <= i < parts.len() ==> is_ascii_text(#[trigger] parts[i]),
    ensures
        is_ascii_text(join(parts, sep)),
    decreases parts.len(),
{
    if parts.len() == 0 {
    } else if parts.len() == 1 {
        assert(is_ascii_text(parts[0]));
    } else {
        let init = parts.drop_last();
        assert forall|i: int| 0 <= i < init.len() implies is_ascii_text(#[trigger] init[i]) by {
            assert(init[i] == parts[i]);
        }
        lemma_ascii_join(init, sep);
        lemma_ascii_concat(join(init, sep), sep);
        assert(is_ascii_text(parts[parts.len() - 1]));
        lemma_ascii_concat(join(init, sep) + sep, parts.last());
    }
}

proof fn lemma_ascii_decimal(n: nat)
    ensures
        is_ascii_text(crate::text::decimal(n)),
    decreases n,
{
    if n < 10 {
        assert((crate::text::digit_char(n) as u32) == n + 48);
    } else {
        lemma_ascii_decimal(n / 10);
        assert((crate::text::digit_char(n % 10) as u32) == n % 10 + 48);
        assert(is_ascii_text(seq![crate::text::digit_char(n % 10)]));
        lemma_ascii_concat(crate::text::decimal(n / 10), seq![crate::text::digit_char(n % 10)]);
        assert(crate::text::decimal(n) == crate::text::decimal(n / 10) + seq![crate::text::digit_char(n % 10)]);
    }
}

proof fn lemma_ascii_hex4(n: nat)
    ensures
        is_ascii_text(hex4(n)),
{
    assert forall|d: nat| d < 16 implies (hex_digit(d) as u32) < 0x80 by {
        if d < 10 {
            assert((hex_digit(d) as u32) == d + 48);
        } else {
            assert((hex_digit(d) as u32) == d + 87);
        }
    }
    assert((hex_digit((n / 4096) % 16) as u32) < 0x80);
    assert((hex_digit((n / 256) % 16) as u32) < 0x80);
    assert((hex_digit((n / 16) % 16) as u32) < 0x80);
    assert((hex_digit(n % 16) as u32) < 0x80);
}

proof fn lemma_ascii_escape(c: char)
    ensures
        is_ascii_text(py_escape(c)),
{
    let u = c as u32;
    if c == '"' || c == '\\' || c == '\n' || c == '\r' || c == '\t' || u == 0x08 || u == 0x0c || (0x20 <= u
        && u < 0x7f) {
    } else if u < 0x10000 {
        lemma_ascii_hex4(u as nat);
        lemma_ascii_concat(seq!['\\', 'u'], hex4(u as nat));
    } else {
        let hi = hex4((0xd800 + (u - 0x10000) / 1024) as nat);
        let lo = hex4((0xdc00 + (u - 0x10000) % 1024) as nat);
        lemma_ascii_hex4((0xd800 + (u - 0x10000) / 1024) as nat);
        lemma_ascii_hex4((0xdc00 + (u - 0x10000) % 1024) as nat);
        lemma_ascii_concat(seq!['\\', 'u'], hi);
        lemma_ascii_concat(seq!['\\', 'u'] + hi, seq!['\\', 'u']);
        lemma_ascii_concat(seq!['\\', 'u'] + hi + seq!['\\', 'u'], lo);
    }
}

proof fn lemma_ascii_string(s: Seq<char>)
    ensures
        is_ascii_text(py_escaped(s)),
        is_ascii_text(py_string(s)),
    decreases s.len(),
{
    if s.len() > 0 {
        lemma_ascii_string(s.drop_last());
        lemma_ascii_escape(s.last());
        lemma_ascii_concat(py_escaped(s.drop_last()), py_escape(s.last()));
    }
    lemma_ascii_concat(seq!['"'], py_escaped(s));
    lemma_ascii_concat(seq!['"'] + py_escaped(s), seq!['"']);
}

/// Every element of a sorted sequence comes from the sequence sorted.
proof fn lemma_sort_elements<T>(s: Seq<(Seq<char>, T)>, j: int)
    requires
        0 <= j < sort_by_key(s).len(),
    ensures
        sort_by_key(s).len() == s.len(),
        exists|i: int| 0 <= i < s.len() && s[i] == #[trigger] sort_by_key(s)[j],
    decreases s.len(),
{
    lemma_sort_len(s);
    let init = sort_by_key(s.drop_last());
    lemma_sort_len(s.drop_last());
    lemma_insert_elements(init, s.last(), j);
    if sort_by_key(s)[j] == s.last() {
        assert(s[s.len() - 1] == sort_by_key(s)[j]);
    } else {
        let k = choose|k: int| 0 <= k < init.len() && init[k] == sort_by_key(s)[j];
        lemma_sort_elements(s.drop_last(), k);
        let i = choose|i: int| 0 <= i < s.drop_last().len() && s.drop_last()[i] == init[k];
        assert(s[i] == sort_by_key(s)[j]);
    }
}

proof fn lemma_sort_len<T>(s: Seq<(Seq<char>, T)>)
    ensures
        sort_by_key(s).len() == s.len(),
    decreases s.len(),
{
    if s.len() > 0 {
        lemma_sort_len(s.drop_last());
        lemma_insert_len(sort_by_key(s.drop_last()), s.last());
    }
}

proof fn lemma_insert_len<T>(sorted: Seq<(Seq<char>, T)>, e: (Seq<char>, T))
    ensures
        insert_by_key(sorted, e).len() == sorted.len() + 1,
    decreases sorted.len(),
{
    if sorted.len() > 0 && key_lt(e.0, sorted.last().0) {
        lemma_insert_len(sorted.drop_last(), e);
    }
}

proof fn lemma_insert_elements<T>(sorted: Seq<(Seq<char>, T)>, e: (Seq<char>, T), j: int)
    requires
        0 <= j < sorted.len() + 1,
    ensures
        insert_by_key(sorted, e).len() == sorted.len() + 1,
        insert_by_key(sorted, e)[j] == e || exists|k: int| 0 <= k < sorted.len() && sorted[k] == #[trigger] insert_by_key(sorted, e)[j],
    decreases sorted.len(),
{
    lemma_insert_len(sorted, e);
    if sorted.len() == 0 {
    } else if key_lt(e.0, sorted.last().0) {
        let init = sorted.drop_last();
        if j == sorted.len() {
            assert(sorted[sorted.len() - 1] == insert_by_key(sorted, e)[j]);
        } else {
            lemma_insert_elements(init, e, j);
            assert(insert_by_key(sorted, e)[j] == insert_by_key(init, e)[j]);
            if insert_by_key(init, e)[j] != e {
                let k = choose|k: int| 0 <= k < init.len() && init[k] == insert_by_key(init, e)[j];
                assert(sorted[k] == insert_by_key(sorted, e)[j]);
            }
        }
    } else {
        if j < sorted.len() {
            assert(sorted[j] == insert_by_key(sorted, e)[j]);
        }
    }
}

proof fn lemma_ascii_json(v: Json)
    requires
        floats_ascii(v),
    ensures
        is_ascii_text(py_json(v)),
    decreases v, 1nat,
{
    match v {
        Json::Null => {},
        Json::Bool(b) => {},
        Json::Int(n) => {
            if n < 0 {
                lemma_ascii_decimal((-n) as nat);
                lemma_ascii_concat(seq!['-'], crate::text::decimal((-n) as nat));
            } else {
                lemma_ascii_decimal(n as nat);
            }
        },
        Json::Float(t) => {},
        Json::Str(s) => {
            lemma_ascii_string(s);
        },
        Json::Array(items) => {
            lemma_ascii_items(items);
            lemma_ascii_join(py_items(items), seq![',']);
            lemma_ascii_concat(seq!['['], join(py_items(items), seq![',']));
            lemma_ascii_concat(seq!['['] + join(py_items(items), seq![',']), seq![']']);
        },
        Json::Object(entries) => {
            lemma_ascii_members(entries);
            let sorted = sort_by_key(py_members(entries));
            let texts = sorted.map_values(|p: (Seq<char>, Seq<char>)| p.1);
            assert forall|j: int| 0 <= j < texts.len() implies is_ascii_text(#[trigger] texts[j]) by {
                lemma_sort_elements(py_members(entries), j);
                let i = choose|i: int| 0 <= i < py_members(entries).len() && py_members(entries)[i] == sorted[j];
                assert(is_ascii_text(py_members(entries)[i].1));
            }
            lemma_ascii_join(texts, seq![',']);
            lemma_ascii_concat(seq!['{'], join(texts, seq![',']));
            lemma_ascii_concat(seq!['{'] + join(texts, seq![',']), seq!['}']);
        },
    }
}

proof fn lemma_ascii_items(items: Seq<Json>)
    requires
        items_floats_ascii(items),
    ensures
        forall|i: int| 0 <= i < items.len() ==> is_ascii_text(#[trigger] py_items(items)[i]),
    decreases items, 0nat,
{
    if items.len() > 0 {
        let init = items.subrange(0, items.len() - 1);
        lemma_ascii_items(init);
        lemma_ascii_json(items[items.len() - 1]);
        assert forall|i: int| 0 <= i < items.len() implies is_ascii_text(#[trigger] py_items(items)[i]) by {
            if i < items.len() - 1 {
                assert(py_items(init)[i] == py_json(init[i]));
                assert(init[i] == items[i]);
            }
        }
    }
}

proof fn lemma_ascii_members(entries: Seq<(Seq<char>, Json)>)
    requires
        members_floats_ascii(entries),
    ensures
        forall|i: int| 0 <= i < entries.len() ==> is_ascii_text(#[trigger] py_members(entries)[i].1),
    decreases entries, 0nat,
{
    if entries.len() > 0 {
        let init = entries.subrange(0, entries.len() - 1);
        lemma_ascii_members(init);
        let last = entries[entries.len() - 1];
        lemma_ascii_json(last.1);
        assert forall|i: int| 0 <= i < entries.len() implies is_ascii_text(#[trigger] py_members(entries)[i].1) by {
            let e = entries[i];
            if i < entries.len() - 1 {
                assert(init[i] == e);
                assert(py_members(init)[i].1 == py_members(entries)[i].1);
            } else {
                lemma_ascii_json(e.1);
                lemma_ascii_string(e.0);
                lemma_ascii_concat(py_string(e.0), seq![':']);
                lemma_ascii_concat(py_string(e.0) + seq![':'], py_json(e.1));
            }
        }
    }
}

/// The canonical text is pure ASCII: every character outside ASCII is
/// escaped (`ensure_ascii`), given that fractional numbers are kept as
/// ASCII text.
pub proof fn law_canonical_text_is_ascii(v: Json)
    requires
        floats_ascii(v),
    ensures
        is_ascii_text(py_json(v)),
{
    lemma_ascii_json(v);
}

} // verus!
