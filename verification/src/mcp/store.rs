//! Imported semantic models of the stateless revision: immutable documents
//! reached through explicit handles that expire after an hour.
//!
//! Time is the caller's monotonic clock in milliseconds; handles come from
//! the caller too, so that the store itself is deterministic.
use vstd::prelude::*;
use crate::json::{Json, JsonValue};
use crate::mcp::modern::{Error, ErrorModel};
use crate::text::str_eq;

verus! {

/// How long a handle stays valid, in milliseconds (one hour).
pub const HANDLE_TTL_MS: u64 = 3600000;

/// How long a handle stays valid, in seconds.
pub const HANDLE_TTL_SECONDS: u64 = 3600;

/// Most models the store holds, and most handles a request may name.
pub const MAX_MODELS: usize = 128;

/// Most bytes of serialized documents the store holds.
pub const MAX_MODEL_BYTES: u64 = 67108864;

/// One imported model.
pub struct StoredModel {
    pub handle: String,
    pub name: String,
    pub document: JsonValue,
    pub bytes: u64,
    pub created: u64,
}

/// The model of a stored entry.
pub struct EntryModel {
    pub handle: Seq<char>,
    pub name: Seq<char>,
    pub document: Json,
    pub bytes: nat,
    pub created: nat,
}

impl StoredModel {
    pub open spec fn model(&self) -> EntryModel {
        EntryModel {
            handle: self.handle@,
            name: self.name@,
            document: self.document.model(),
            bytes: self.bytes as nat,
            created: self.created as nat,
        }
    }
}

/// The models of stored entries.
pub open spec fn entry_models(v: Seq<StoredModel>) -> Seq<EntryModel> {
    v.map_values(|e: StoredModel| e.model())
}

/// The time since `created`, zero where the clock reads earlier.
pub open spec fn elapsed(now: nat, created: nat) -> nat {
    if now >= created {
        (now - created) as nat
    } else {
        0
    }
}

/// An entry is live until an hour has passed since it was stored.
pub open spec fn live(e: EntryModel, now: nat) -> bool {
    elapsed(now, e.created) < HANDLE_TTL_MS
}

/// The entries still live, in order.
pub open spec fn live_entries(es: Seq<EntryModel>, now: nat) -> Seq<EntryModel>
    decreases es.len(),
{
    if es.len() == 0 {
        Seq::empty()
    } else {
        let rest = live_entries(es.drop_last(), now);
        if live(es.last(), now) {
            rest.push(es.last())
        } else {
            rest
        }
    }
}

/// The bytes the entries hold.
pub open spec fn total_bytes(es: Seq<EntryModel>) -> nat
    decreases es.len(),
{
    if es.len() == 0 {
        0
    } else {
        total_bytes(es.drop_last()) + es.last().bytes
    }
}

/// No two entries share a handle.
pub open spec fn unique_handles(es: Seq<EntryModel>) -> bool {
    forall|i: int, j: int| 0 <= i < j < es.len() ==> es[i].handle != es[j].handle
}

/// The entries other than the one with this handle.
pub open spec fn without_handle(es: Seq<EntryModel>, handle: Seq<char>) -> Seq<EntryModel>
    decreases es.len(),
{
    if es.len() == 0 {
        Seq::empty()
    } else {
        let rest = without_handle(es.drop_last(), handle);
        if es.last().handle == handle {
            rest
        } else {
            rest.push(es.last())
        }
    }
}

/// The entry with this handle, if any.
pub open spec fn find_entry(es: Seq<EntryModel>, handle: Seq<char>) -> Option<EntryModel>
    decreases es.len(),
{
    if es.len() == 0 {
        None
    } else if es.last().handle == handle {
        Some(es.last())
    } else {
        find_entry(es.drop_last(), handle)
    }
}

/// The outcome of storing a model: the live entries are kept; the model is
/// added unless the store then holds its maximum count or would exceed its
/// byte budget.
pub open spec fn insert_spec(
    es: Seq<EntryModel>,
    e: EntryModel,
    now: nat,
) -> (Seq<EntryModel>, Result<(), ErrorModel>) {
    let kept = live_entries(es, now);
    if kept.len() >= MAX_MODELS || e.bytes + total_bytes(kept) > MAX_MODEL_BYTES {
        (kept, Err(ErrorModel { code: -32602, message: "model store capacity exceeded"@, data: None }))
    } else {
        (without_handle(kept, e.handle).push(e), Ok(()))
    }
}

/// An error of `resolve`.
pub open spec fn invalid(message: Seq<char>) -> ErrorModel {
    ErrorModel { code: -32602, message, data: None }
}

/// The strings of a JSON array of strings.
pub open spec fn string_array(v: Json) -> Option<Seq<Seq<char>>> {
    match v {
        Json::Array(items) => if forall|i: int| 0 <= i < items.len() ==> (#[trigger] items[i]).is_string() {
            Some(items.map_values(|j: Json| j.as_str()->Some_0))
        } else {
            None
        },
        _ => None,
    }
}

/// Resolving handles one after another: each must name a live entry, and
/// no two of the selected models may share a name.
pub open spec fn select(es: Seq<EntryModel>, handles: Seq<Seq<char>>, now: nat) -> Result<
    Seq<(Seq<char>, Json)>,
    ErrorModel,
>
    decreases handles.len(),
{
    if handles.len() == 0 {
        Ok(Seq::empty())
    } else {
        match select(es, handles.drop_last(), now) {
            Err(e) => Err(e),
            Ok(sel) => match find_entry(es, handles.last()) {
                Some(entry) => if !live(entry, now) {
                    Err(invalid("unknown or expired model handle"@))
                } else if exists|i: int| 0 <= i < sel.len() && (#[trigger] sel[i]).0 == entry.name {
                    Err(invalid("selected models have duplicate names"@))
                } else {
                    Ok(sel.push((entry.name, entry.document)))
                },
                None => Err(invalid("unknown or expired model handle"@)),
            },
        }
    }
}

/// The models that `model_handles` selects: none where it is absent.
pub open spec fn resolve_spec(es: Seq<EntryModel>, handles: Option<Json>, now: nat) -> Result<
    Seq<(Seq<char>, Json)>,
    ErrorModel,
> {
    let list = match handles {
        None => Some(Seq::<Seq<char>>::empty()),
        Some(v) => string_array(v),
    };
    match list {
        None => Err(invalid("model_handles must be an array of strings"@)),
        Some(hs) => if hs.len() > MAX_MODELS {
            Err(invalid("too many model handles"@))
        } else {
            select(es, hs, now)
        },
    }
}

/// The store of imported models.
pub struct ModelStore {
    entries: Vec<StoredModel>,
}

impl ModelStore {
    /// The entries, in the order they were stored.
    pub closed spec fn view_entries(&self) -> Seq<EntryModel> {
        entry_models(self.entries@)
    }

    /// At most the maximum count and byte budget, and one entry per handle.
    pub open spec fn wf(&self) -> bool {
        &&& self.view_entries().len() <= MAX_MODELS
        &&& total_bytes(self.view_entries()) <= MAX_MODEL_BYTES
        &&& unique_handles(self.view_entries())
    }

    /// An empty store.
    pub fn new() -> (r: ModelStore)
        ensures
            r.wf(),
            r.view_entries() == Seq::<EntryModel>::empty(),
    {
        let r = ModelStore { entries: Vec::new() };
        assert(r.view_entries() =~= Seq::<EntryModel>::empty());
        r
    }
}

/// Filtering live entries keeps their count, bytes and handles in bounds.
pub proof fn lemma_live_entries(es: Seq<EntryModel>, now: nat)
    ensures
        live_entries(es, now).len() <= es.len(),
        total_bytes(live_entries(es, now)) <= total_bytes(es),
        forall|k: int|
            0 <= k < live_entries(es, now).len() ==> exists|j: int|
                0 <= j < es.len() && #[trigger] live_entries(es, now)[k] == es[j],
        unique_handles(es) ==> unique_handles(live_entries(es, now)),
    decreases es.len(),
{
    if es.len() > 0 {
        let d = es.drop_last();
        lemma_live_entries(d, now);
        let rest = live_entries(d, now);
        assert forall|k: int| 0 <= k < live_entries(es, now).len() implies exists|j: int|
            0 <= j < es.len() && #[trigger] live_entries(es, now)[k] == es[j] by {
            if k < rest.len() {
                let j = choose|j: int| 0 <= j < d.len() && rest[k] == d[j];
                assert(es[j] == d[j]);
            } else {
                assert(live_entries(es, now)[k] == es[es.len() - 1]);
            }
        }
        if live(es.last(), now) {
            assert(live_entries(es, now).drop_last() =~= rest);
        }
        if unique_handles(es) {
            assert(unique_handles(d));
            if live(es.last(), now) {
                let l = live_entries(es, now);
                assert forall|i: int, j: int| 0 <= i < j < l.len() implies l[i].handle != l[j].handle by {
                    if j == l.len() - 1 {
                        let jj = choose|jj: int| 0 <= jj < d.len() && rest[i] == d[jj];
                        assert(es[jj] == d[jj]);
                        assert(l[i] == rest[i]);
                    } else {
                        assert(l[i] == rest[i] && l[j] == rest[j]);
                    }
                }
            }
        }
    }
}

/// Dropping a handle keeps count, bytes and handles in bounds, and leaves
/// no entry with that handle.
pub proof fn lemma_without_handle(es: Seq<EntryModel>, handle: Seq<char>)
    ensures
        without_handle(es, handle).len() <= es.len(),
        total_bytes(without_handle(es, handle)) <= total_bytes(es),
        forall|k: int|
            0 <= k < without_handle(es, handle).len() ==> exists|j: int|
                0 <= j < es.len() && #[trigger] without_handle(es, handle)[k] == es[j],
        forall|k: int|
            0 <= k < without_handle(es, handle).len() ==> (#[trigger] without_handle(es, handle)[k]).handle
                != handle,
        unique_handles(es) ==> unique_handles(without_handle(es, handle)),
    decreases es.len(),
{
    if es.len() > 0 {
        let d = es.drop_last();
        lemma_without_handle(d, handle);
        let rest = without_handle(d, handle);
        let w = without_handle(es, handle);
        assert forall|k: int| 0 <= k < w.len() implies exists|j: int|
            0 <= j < es.len() && #[trigger] w[k] == es[j] by {
            if k < rest.len() {
                let j = choose|j: int| 0 <= j < d.len() && rest[k] == d[j];
                assert(es[j] == d[j]);
            } else {
                assert(w[k] == es[es.len() - 1]);
            }
        }
        assert forall|k: int| 0 <= k < w.len() implies (#[trigger] w[k]).handle != handle by {
            if k < rest.len() {
                assert(w[k] == rest[k]);
            }
        }
        if es.last().handle != handle {
            assert(w.drop_last() =~= rest);
        }
        if unique_handles(es) {
            assert(unique_handles(d));
            if es.last().handle != handle {
                assert forall|i: int, j: int| 0 <= i < j < w.len() implies w[i].handle != w[j].handle by {
                    if j == w.len() - 1 {
                        let jj = choose|jj: int| 0 <= jj < d.len() && rest[i] == d[jj];
                        assert(es[jj] == d[jj]);
                        assert(w[i] == rest[i]);
                    } else {
                        assert(w[i] == rest[i] && w[j] == rest[j]);
                    }
                }
            }
        }
    }
}

impl ModelStore {
    /// Stores a model under a fresh handle at time `now`, after dropping the
    /// entries that have expired.
    pub fn insert(
        &mut self,
        handle: String,
        name: String,
        document: JsonValue,
        bytes: u64,
        now: u64,
    ) -> (r: Result<(), Error>)
        requires
            old(self).wf(),
        ensures
            final(self).wf(),
            ({
                let e = EntryModel {
                    handle: handle@,
                    name: name@,
                    document: document.model(),
                    bytes: bytes as nat,
                    created: now as nat,
                };
                let (after, outcome) = insert_spec(old(self).view_entries(), e, now as nat);
                &&& final(self).view_entries() == after
                &&& match r {
                    Ok(_) => outcome is Ok,
                    Err(err) => outcome == Err::<(), ErrorModel>(err.model()),
                }
            }),
    {
        let ghost orig = self.view_entries();
        let ghost e = EntryModel {
            handle: handle@,
            name: name@,
            document: document.model(),
            bytes: bytes as nat,
            created: now as nat,
        };
        let mut old_entries: Vec<StoredModel> = Vec::new();
        std::mem::swap(&mut old_entries, &mut self.entries);
        assert(entry_models(old_entries@) == orig);
        let mut kept: Vec<StoredModel> = Vec::new();
        let mut total: u64 = 0;
        let ghost mut consumed: int = 0;
        proof {
            lemma_live_entries(orig, now as nat);
        }
        while old_entries.len() > 0
            invariant
                0 <= consumed <= orig.len(),
                entry_models(old_entries@) == orig.skip(consumed),
                entry_models(kept@) == live_entries(orig.take(consumed), now as nat),
                total as nat == total_bytes(live_entries(orig.take(consumed), now as nat)),
                total_bytes(orig) <= MAX_MODEL_BYTES,
            decreases old_entries.len(),
        {
            let ghost before = kept@;
            let ghost first = old_entries@[0];
            let ghost old_before = old_entries@;
            assert(entry_models(old_entries@)[0] == first.model());
            assert(orig.skip(consumed).len() > 0);
            assert(orig.skip(consumed)[0] == orig[consumed]);
            let entry = old_entries.remove(0);
            proof {
                assert(entry == first);
                assert(entry.model() == orig[consumed]);
                assert(orig.take(consumed + 1).drop_last() =~= orig.take(consumed));
                assert(orig.take(consumed + 1).last() == orig[consumed]);
                lemma_live_entries(orig.take(consumed + 1), now as nat);
                lemma_prefix_bytes(orig, consumed + 1, now as nat);
                let lp = live_entries(orig.take(consumed), now as nat);
                if live(orig[consumed], now as nat) {
                    assert(live_entries(orig.take(consumed + 1), now as nat) == lp.push(orig[consumed]));
                    assert(lp.push(orig[consumed]).drop_last() =~= lp);
                } else {
                    assert(live_entries(orig.take(consumed + 1), now as nat) == lp);
                }
            }
            let age = if now >= entry.created {
                now - entry.created
            } else {
                0
            };
            if age < HANDLE_TTL_MS {
                total = total + entry.bytes;
                kept.push(entry);
                assert(entry_models(kept@) =~= entry_models(before).push(orig[consumed]));
            }
            proof {
                assert(old_entries@ == old_before.subrange(1, old_before.len() as int));
                assert(entry_models(old_before) == orig.skip(consumed));
                assert forall|i: int| 0 <= i < old_entries@.len() implies #[trigger] entry_models(old_entries@)[i] == orig.skip(consumed + 1)[i] by {
                    assert(entry_models(old_before)[i + 1] == orig.skip(
                        consumed,
                    )[i + 1]);
                }
                assert(entry_models(old_entries@) =~= orig.skip(consumed + 1));
                consumed = consumed + 1;
            }
        }
        assert(orig.take(consumed) =~= orig);
        let ghost kept_view = live_entries(orig, now as nat);
        if kept.len() >= MAX_MODELS || bytes > MAX_MODEL_BYTES - total {
            self.entries = kept;
            return Err(Error::new(-32602, "model store capacity exceeded"));
        }
        let mut out: Vec<StoredModel> = Vec::new();
        let ghost mut seen: int = 0;
        proof {
            lemma_without_handle(kept_view, handle@);
        }
        while kept.len() > 0
            invariant
                0 <= seen <= kept_view.len(),
                entry_models(kept@) == kept_view.skip(seen),
                entry_models(out@) == without_handle(kept_view.take(seen), handle@),
            decreases kept.len(),
        {
            let ghost before = out@;
            let ghost first = kept@[0];
            let ghost kept_before = kept@;
            assert(entry_models(kept@)[0] == first.model());
            assert(kept_view.skip(seen).len() > 0);
            assert(kept_view.skip(seen)[0] == kept_view[seen]);
            let entry = kept.remove(0);
            proof {
                assert(entry == first);
                assert(entry.model() == kept_view[seen]);
                assert(kept_view.take(seen + 1).drop_last() =~= kept_view.take(seen));
                assert(kept_view.take(seen + 1).last() == kept_view[seen]);
            }
            if !str_eq(entry.handle.as_str(), handle.as_str()) {
                out.push(entry);
                assert(entry_models(out@) =~= entry_models(before).push(kept_view[seen]));
            }
            proof {
                assert(kept@ == kept_before.subrange(1, kept_before.len() as int));
                assert(entry_models(kept_before) == kept_view.skip(seen));
                assert forall|i: int| 0 <= i < kept@.len() implies #[trigger] entry_models(kept@)[i] == kept_view.skip(seen + 1)[i] by {
                    assert(entry_models(kept_before)[i + 1] == kept_view.skip(
                        seen,
                    )[i + 1]);
                }
                assert(entry_models(kept@) =~= kept_view.skip(seen + 1));
                seen = seen + 1;
            }
        }
        assert(kept_view.take(seen) =~= kept_view);
        let ghost w = without_handle(kept_view, handle@);
        out.push(StoredModel { handle, name, document, bytes, created: now });
        self.entries = out;
        proof {
            assert(self.view_entries() =~= w.push(e));
            assert(w.push(e).drop_last() =~= w);
            assert(unique_handles(w.push(e))) by {
                let l = w.push(e);
                assert forall|i: int, j: int| 0 <= i < j < l.len() implies l[i].handle != l[j].handle by {
                    if j == l.len() - 1 {
                        assert(l[i] == w[i]);
                    } else {
                        assert(l[i] == w[i] && l[j] == w[j]);
                    }
                }
            }
        }
        Ok(())
    }
}

/// The models of selected (name, document) pairs.
pub open spec fn selected_models(v: Seq<(String, JsonValue)>) -> Seq<(Seq<char>, Json)> {
    v.map_values(|p: (String, JsonValue)| (p.0@, p.1.model()))
}

/// The model of an optional member.
pub open spec fn handles_model(h: Option<&JsonValue>) -> Option<Json> {
    match h {
        Some(v) => Some(v.model()),
        None => None,
    }
}

impl ModelStore {
    /// The position of the entry with a handle, searching from the newest.
    fn position(&self, handle: &str) -> (r: Option<usize>)
        ensures
            match r {
                Some(k) => k < self.view_entries().len() && find_entry(self.view_entries(), handle@)
                    == Some(self.view_entries()[k as int]),
                None => find_entry(self.view_entries(), handle@) is None,
            },
    {
        let ghost es = self.view_entries();
        let mut j = self.entries.len();
        assert(es.take(j as int) =~= es);
        while j > 0
            invariant
                j <= es.len(),
                es == entry_models(self.entries@),
                find_entry(es, handle@) == find_entry(es.take(j as int), handle@),
            decreases j,
        {
            assert(es.take(j as int).last() == es[j - 1]);
            assert(es.take(j as int).drop_last() =~= es.take(j - 1));
            if str_eq(self.entries[j - 1].handle.as_str(), handle) {
                return Some(j - 1);
            }
            j = j - 1;
        }
        None
    }

    /// The models that `model_handles` selects at time `now`: none where it
    /// is absent; an error where it is not an array of strings, names too
    /// many handles, names a handle that is unknown or expired, or selects
    /// two models of the same name.
    pub fn resolve(&self, handles: Option<&JsonValue>, now: u64) -> (r: Result<
        Vec<(String, JsonValue)>,
        Error,
    >)
        ensures
            match r {
                Ok(v) => resolve_spec(self.view_entries(), handles_model(handles), now as nat) == Ok::<
                    Seq<(Seq<char>, Json)>,
                    ErrorModel,
                >(selected_models(v@)),
                Err(e) => resolve_spec(self.view_entries(), handles_model(handles), now as nat) == Err::<
                    Seq<(Seq<char>, Json)>,
                    ErrorModel,
                >(e.model()),
            },
    {
        let ghost es = self.view_entries();
        let empty: Vec<JsonValue> = Vec::new();
        let items: &Vec<JsonValue> = match handles {
            None => &empty,
            Some(v) => match v.as_array() {
                Some(items) => items,
                None => {
                    return Err(Error::new(-32602, "model_handles must be an array of strings"));
                },
            },
        };
        let ghost ims = crate::json::models(items@);
        let mut names: Vec<&str> = Vec::new();
        for i in 0..items.len()
            invariant
                ims == crate::json::models(items@),
                handles is Some ==> handles_model(handles) == Some(Json::Array(ims)),
                handles is None ==> ims.len() == 0,
                names@.len() == i,
                forall|k: int| 0 <= k < i ==> (#[trigger] ims[k]).as_str() == Some(names@[k]@),
        {
            match items[i].as_str() {
                Some(t) => {
                    names.push(t);
                },
                None => {
                    proof {
                        assert(!ims[i as int].is_string());
                        assert(string_array(Json::Array(ims)) is None);
                    }
                    return Err(Error::new(-32602, "model_handles must be an array of strings"));
                },
            }
        }
        let ghost hs = names@.map_values(|t: &str| t@);
        proof {
            match handles {
                None => {
                    assert(hs =~= Seq::<Seq<char>>::empty());
                },
                Some(v) => {
                    assert(v.model() == Json::Array(ims));
                    assert(forall|k: int| 0 <= k < ims.len() ==> (#[trigger] ims[k]).is_string());
                    assert(string_array(v.model()) == Some(hs)) by {
                        assert(ims.map_values(|j: Json| j.as_str()->Some_0) =~= hs);
                    }
                },
            }
        }
        if names.len() > MAX_MODELS {
            return Err(Error::new(-32602, "too many model handles"));
        }
        let mut out: Vec<(String, JsonValue)> = Vec::new();
        assert(hs.take(0) =~= Seq::<Seq<char>>::empty());
        assert(selected_models(out@) =~= Seq::<(Seq<char>, Json)>::empty());
        assert(resolve_spec(es, handles_model(handles), now as nat) == select(es, hs, now as nat));
        for i in 0..names.len()
            invariant
                hs == names@.map_values(|t: &str| t@),
                es == self.view_entries(),
                hs.len() == names@.len(),
                resolve_spec(es, handles_model(handles), now as nat) == select(es, hs, now as nat),
                select(es, hs.take(i as int), now as nat) == Ok::<Seq<(Seq<char>, Json)>, ErrorModel>(
                    selected_models(out@),
                ),
        {
            assert(hs.take(i + 1).drop_last() =~= hs.take(i as int));
            assert(hs.take(i + 1).last() == names@[i as int]@);
            let k = match self.position(names[i]) {
                Some(k) => k,
                None => {
                    proof {
                        lemma_select_error_persists(es, hs, i + 1, now as nat);
                    }
                    return Err(Error::new(-32602, "unknown or expired model handle"));
                },
            };
            let entry = &self.entries[k];
            assert(entry.model() == es[k as int]);
            let age = if now >= entry.created {
                now - entry.created
            } else {
                0
            };
            if age >= HANDLE_TTL_MS {
                proof {
                    lemma_select_error_persists(es, hs, i + 1, now as nat);
                }
                return Err(Error::new(-32602, "unknown or expired model handle"));
            }
            let mut d: usize = 0;
            while d < out.len()
                invariant
                    d <= out@.len(),
                    i < hs.len(),
                    es == self.view_entries(),
                    hs.take(i + 1).drop_last() == hs.take(i as int),
                    hs.take(i + 1).last() == names@[i as int]@,
                    select(es, hs.take(i as int), now as nat) == Ok::<Seq<(Seq<char>, Json)>, ErrorModel>(
                        selected_models(out@),
                    ),
                    find_entry(es, names@[i as int]@) == Some(entry.model()),
                    live(entry.model(), now as nat),
                    resolve_spec(es, handles_model(handles), now as nat) == select(es, hs, now as nat),
                    forall|q: int| 0 <= q < d ==> (#[trigger] selected_models(out@)[q]).0 != entry.name@,
                decreases out.len() - d,
            {
                if str_eq(out[d].0.as_str(), entry.name.as_str()) {
                    assert(selected_models(out@)[d as int].0 == entry.name@);
                    proof {
                        lemma_select_error_persists(es, hs, i + 1, now as nat);
                    }
                    return Err(Error::new(-32602, "selected models have duplicate names"));
                }
                d = d + 1;
            }
            let ghost before = out@;
            out.push((entry.name.clone(), entry.document.deep_clone()));
            assert(selected_models(out@) =~= selected_models(before).push((entry.name@, entry.document.model())));
        }
        assert(hs.take(names@.len() as int) =~= hs);
        Ok(out)
    }
}

/// Once resolving a prefix of the handles fails, resolving all of them
/// fails the same way.
pub proof fn lemma_select_error_persists(es: Seq<EntryModel>, hs: Seq<Seq<char>>, k: int, now: nat)
    requires
        0 <= k <= hs.len(),
        select(es, hs.take(k), now) is Err,
    ensures
        select(es, hs, now) == select(es, hs.take(k), now),
    decreases hs.len() - k,
{
    if k < hs.len() {
        assert(hs.take(k + 1).drop_last() =~= hs.take(k));
        lemma_select_error_persists(es, hs, k + 1, now);
    } else {
        assert(hs.take(k) =~= hs);
    }
}

/// Storing a model and then resolving its handle within the hour gives the
/// model back.
pub proof fn law_resolve_after_insert(es: Seq<EntryModel>, e: EntryModel, now: nat, later: nat)
    requires
        insert_spec(es, e, now).1 is Ok,
        e.created == now,
        now <= later,
        later < now + HANDLE_TTL_MS,
    ensures
        resolve_spec(
            insert_spec(es, e, now).0,
            Some(Json::Array(seq![Json::Str(e.handle)])),
            later,
        ) == Ok::<Seq<(Seq<char>, Json)>, ErrorModel>(seq![(e.name, e.document)]),
{
    let after = insert_spec(es, e, now).0;
    let hs = seq![e.handle];
    let items = seq![Json::Str(e.handle)];
    assert(items.map_values(|j: Json| j.as_str()->Some_0) =~= hs);
    assert(string_array(Json::Array(items)) == Some(hs));
    assert(after.last() == e);
    assert(find_entry(after, e.handle) == Some(e));
    assert(hs.drop_last() =~= Seq::<Seq<char>>::empty());
    assert(select(after, hs.drop_last(), later) == Ok::<Seq<(Seq<char>, Json)>, ErrorModel>(Seq::empty()));
    assert(Seq::<(Seq<char>, Json)>::empty().push((e.name, e.document)) =~= seq![(e.name, e.document)]);
}

/// A handle whose model has expired is refused.
pub proof fn law_expired_refused(es: Seq<EntryModel>, handle: Seq<char>, now: nat)
    requires
        match find_entry(es, handle) {
            Some(entry) => !live(entry, now),
            None => true,
        },
    ensures
        resolve_spec(es, Some(Json::Array(seq![Json::Str(handle)])), now) == Err::<
            Seq<(Seq<char>, Json)>,
            ErrorModel,
        >(invalid("unknown or expired model handle"@)),
{
    let hs = seq![handle];
    let items = seq![Json::Str(handle)];
    assert(items.map_values(|j: Json| j.as_str()->Some_0) =~= hs);
    assert(string_array(Json::Array(items)) == Some(hs));
    assert(hs.drop_last() =~= Seq::<Seq<char>>::empty());
    assert(hs.last() == handle);
    assert(select(es, hs.drop_last(), now) == Ok::<Seq<(Seq<char>, Json)>, ErrorModel>(Seq::empty()));
}

/// The bytes of the live entries of a prefix fit in the bytes of the whole.
pub proof fn lemma_prefix_bytes(es: Seq<EntryModel>, k: int, now: nat)
    requires
        0 <= k <= es.len(),
    ensures
        total_bytes(live_entries(es.take(k), now)) <= total_bytes(es),
    decreases es.len(),
{
    lemma_live_entries(es.take(k), now);
    lemma_take_bytes(es, k);
}

/// A prefix holds at most the bytes of the whole.
pub proof fn lemma_take_bytes(es: Seq<EntryModel>, k: int)
    requires
        0 <= k <= es.len(),
    ensures
        total_bytes(es.take(k)) <= total_bytes(es),
    decreases es.len(),
{
    if k < es.len() {
        lemma_take_bytes(es.drop_last(), k);
        assert(es.drop_last().take(k) =~= es.take(k));
    } else {
        assert(es.take(k) =~= es);
    }
}

} // verus!
