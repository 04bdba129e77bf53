//! Bookkeeping of a stdio transport that runs governed requests
//! concurrently: which request IDs are in flight, at most sixteen at once.
use vstd::prelude::*;
use crate::json::{Json, JsonNumber, JsonValue};
use crate::mcp::modern::Error;
use crate::mcp::session::rpc_failure;

verus! {

/// Most governed requests in flight at once.
pub const MAX_IN_FLIGHT: usize = 16;

/// The requests in flight: each request ID with the task that serves it.
pub struct InFlight {
    entries: Vec<(JsonValue, u64)>,
}

/// What to do with a request.
pub enum Admission {
    /// Answer at once with this response.
    Refuse(JsonValue),
    /// Answer the request in line.
    Answer,
    /// Run the request as a task; register it with `start`.
    Spawn,
}

/// Whether two request IDs are the same.
pub fn same_id(a: &JsonValue, b: &JsonValue) -> (r: bool)
    requires
        a.model().is_id(),
        b.model().is_id(),
    ensures
        r == (a.model() == b.model()),
{
    match (a, b) {
        (JsonValue::String(x), JsonValue::String(y)) => crate::text::str_eq(x.as_str(), y.as_str()),
        (JsonValue::Number(JsonNumber::PosInt(x)), JsonValue::Number(JsonNumber::PosInt(y))) => *x == *y,
        (JsonValue::Number(JsonNumber::NegInt(x)), JsonValue::Number(JsonNumber::NegInt(y))) => *x == *y,
        (JsonValue::Number(JsonNumber::PosInt(x)), JsonValue::Number(JsonNumber::NegInt(y))) => *y >= 0
            && *x == *y as u64,
        (JsonValue::Number(JsonNumber::NegInt(x)), JsonValue::Number(JsonNumber::PosInt(y))) => *x >= 0
            && *x as u64 == *y,
        _ => false,
    }
}

/// The entry of a request ID, if it is in flight.
pub open spec fn holds(entries: Seq<(Json, nat)>, id: Json) -> bool {
    exists|i: int| 0 <= i < entries.len() && (#[trigger] entries[i]).0 == id
}

/// At most sixteen entries, each for a request ID, no ID twice.
pub open spec fn in_flight_wf(entries: Seq<(Json, nat)>) -> bool {
    &&& entries.len() <= MAX_IN_FLIGHT
    &&& forall|i: int| 0 <= i < entries.len() ==> (#[trigger] entries[i]).0.is_id()
    &&& forall|i: int, j: int| 0 <= i < j < entries.len() ==> entries[i].0 != entries[j].0
}

/// What a stateless request gets: refused while its ID is in flight or no
/// slot is free, answered in line unless it is governed, run as a task
/// otherwise.
pub open spec fn admit_stateless_spec(entries: Seq<(Json, nat)>, id: Json, governed: bool) -> Option<Json> {
    if holds(entries, id) || entries.len() >= MAX_IN_FLIGHT {
        Some(
            crate::mcp::modern::error_response(
                crate::mcp::modern::ErrorModel {
                    code: -32600,
                    message: "request ID already in flight or capacity exceeded"@,
                    data: None,
                },
                id,
            ),
        )
    } else {
        None
    }
}

/// What a request of the handshake revisions gets: refused while its ID is
/// in flight; a governed call is refused while no slot is free.
pub open spec fn admit_request_spec(entries: Seq<(Json, nat)>, id: Json, governed: bool) -> Option<Json> {
    if holds(entries, id) {
        Some(crate::mcp::session::failure_model(id, -32600, "request ID is already in flight"@))
    } else if governed && entries.len() >= MAX_IN_FLIGHT {
        Some(crate::mcp::session::failure_model(id, -32000, "too many in-flight governed requests"@))
    } else {
        None
    }
}

impl Admission {
    pub open spec fn refusal(&self) -> Option<Json> {
        match self {
            Admission::Refuse(v) => Some(v.model()),
            _ => None,
        }
    }
}

impl InFlight {
    pub closed spec fn view_entries(&self) -> Seq<(Json, nat)> {
        self.entries@.map_values(|e: (JsonValue, u64)| (e.0.model(), e.1 as nat))
    }

    pub open spec fn wf(&self) -> bool {
        in_flight_wf(self.view_entries())
    }

    /// Nothing in flight.
    pub fn new() -> (r: InFlight)
        ensures
            r.wf(),
            r.view_entries() == Seq::<(Json, nat)>::empty(),
    {
        let r = InFlight { entries: Vec::new() };
        assert(r.view_entries() =~= Seq::<(Json, nat)>::empty());
        r
    }

    /// How many requests are in flight.
    pub fn len(&self) -> (r: usize)
        ensures
            r == self.view_entries().len(),
    {
        self.entries.len()
    }

    /// The position of a request ID among those in flight.
    fn position(&self, id: &JsonValue) -> (r: Option<usize>)
        requires
            self.wf(),
            id.model().is_id(),
        ensures
            match r {
                Some(k) => k < self.view_entries().len() && self.view_entries()[k as int].0 == id.model(),
                None => !holds(self.view_entries(), id.model()),
            },
    {
        let ghost v = self.view_entries();
        let mut i: usize = 0;
        while i < self.entries.len()
            invariant
                i <= self.entries@.len(),
                v == self.view_entries(),
                in_flight_wf(v),
                id.model().is_id(),
                forall|j: int| 0 <= j < i ==> (#[trigger] v[j]).0 != id.model(),
            decreases self.entries.len() - i,
        {
            assert(v[i as int].0 == self.entries@[i as int].0.model());
            assert(v[i as int].0.is_id());
            if same_id(&self.entries[i].0, id) {
                return Some(i);
            }
            i = i + 1;
        }
        None
    }

    /// Whether a request ID is in flight.
    pub fn contains(&self, id: &JsonValue) -> (r: bool)
        requires
            self.wf(),
            id.model().is_id(),
        ensures
            r == holds(self.view_entries(), id.model()),
    {
        self.position(id).is_some()
    }

    /// Decides what a stateless request gets.
    pub fn admit_stateless(&self, id: &JsonValue, governed: bool) -> (r: Admission)
        requires
            self.wf(),
            id.model().is_id(),
        ensures
            r.refusal() == admit_stateless_spec(self.view_entries(), id.model(), governed),
            r.refusal() is None ==> (r is Spawn <==> governed),
    {
        if self.contains(id) || self.entries.len() >= MAX_IN_FLIGHT {
            let e = Error::new(-32600, "request ID already in flight or capacity exceeded");
            return Admission::Refuse(e.response(id.deep_clone()));
        }
        if governed {
            Admission::Spawn
        } else {
            Admission::Answer
        }
    }

    /// Decides what a request of the handshake revisions gets.
    pub fn admit_request(&self, id: &JsonValue, governed: bool) -> (r: Admission)
        requires
            self.wf(),
            id.model().is_id(),
        ensures
            r.refusal() == admit_request_spec(self.view_entries(), id.model(), governed),
            r.refusal() is None ==> (r is Spawn <==> governed),
    {
        if self.contains(id) {
            return Admission::Refuse(rpc_failure(id.deep_clone(), -32600, "request ID is already in flight"));
        }
        if governed {
            if self.entries.len() >= MAX_IN_FLIGHT {
                return Admission::Refuse(
                    rpc_failure(id.deep_clone(), -32000, "too many in-flight governed requests"),
                );
            }
            return Admission::Spawn;
        }
        Admission::Answer
    }

    /// Registers a spawned task for a request ID that is not in flight,
    /// while a slot is free.
    pub fn start(&mut self, id: JsonValue, task: u64)
        requires
            old(self).wf(),
            id.model().is_id(),
            !holds(old(self).view_entries(), id.model()),
            old(self).view_entries().len() < MAX_IN_FLIGHT,
        ensures
            final(self).wf(),
            final(self).view_entries() == old(self).view_entries().push((id.model(), task as nat)),
    {
        let ghost before = self.view_entries();
        let ghost idm = id.model();
        self.entries.push((id, task));
        proof {
            assert(self.view_entries() =~= before.push((idm, task as nat)));
            let after = self.view_entries();
            assert forall|i: int, j: int| 0 <= i < j < after.len() implies after[i].0 != after[j].0 by {
                if j == after.len() - 1 {
                    assert(after[i] == before[i]);
                    assert(!(before[i].0 == idm));
                }
            }
        }
    }

    /// Removes a request ID, giving back the task that served it.
    pub fn cancel(&mut self, id: &JsonValue) -> (r: Option<u64>)
        requires
            old(self).wf(),
            id.model().is_id(),
        ensures
            final(self).wf(),
            !holds(final(self).view_entries(), id.model()),
            match r {
                Some(task) => exists|k: int|
                    0 <= k < old(self).view_entries().len() && old(self).view_entries()[k] == (
                    id.model(),
                    task as nat,
                ) && final(self).view_entries() == old(self).view_entries().remove(k),
                None => !holds(old(self).view_entries(), id.model()) && final(self).view_entries()
                    == old(self).view_entries(),
            },
    {
        match self.position(id) {
            Some(k) => {
                let ghost before = self.view_entries();
                let (_, task) = self.entries.remove(k);
                proof {
                    assert(self.view_entries() =~= before.remove(k as int));
                    lemma_remove_keeps_wf(before, k as int);
                }
                Some(task)
            },
            None => None,
        }
    }

    /// Removes a request ID once its task has finished, where the entry
    /// still belongs to that task.
    pub fn finish(&mut self, id: &JsonValue, task: u64)
        requires
            old(self).wf(),
            id.model().is_id(),
        ensures
            final(self).wf(),
            final(self).view_entries() == finish_spec(old(self).view_entries(), id.model(), task as nat),
    {
        let ghost before = self.view_entries();
        let ghost e = (id.model(), task as nat);
        match self.position(id) {
            Some(k) => {
                assert(self.view_entries()[k as int].1 == self.entries@[k as int].1 as nat);
                if self.entries[k].1 == task {
                    assert(before[k as int] == e);
                    proof {
                        let c = choose|c: int| 0 <= c < before.len() && before[c] == e;
                        if c != k {
                            assert(before[c].0 == before[k as int].0);
                        }
                    }
                    self.entries.remove(k);
                    proof {
                        assert(self.view_entries() =~= before.remove(k as int));
                        lemma_remove_keeps_wf(before, k as int);
                    }
                } else {
                    assert forall|c: int| 0 <= c < before.len() implies before[c] != e by {
                        if c != k && before[c].0 == e.0 {
                            assert(before[c].0 == before[k as int].0);
                        }
                    }
                }
            },
            None => {
                assert forall|c: int| 0 <= c < before.len() implies before[c] != e by {
                    if before[c] == e {
                        assert(holds(before, id.model()));
                    }
                }
            },
        }
    }
}

/// The entries once a task has finished: its request's entry removed where
/// it still names that task, the entries unchanged otherwise.
pub open spec fn finish_spec(entries: Seq<(Json, nat)>, id: Json, task: nat) -> Seq<(Json, nat)> {
    if exists|k: int| 0 <= k < entries.len() && entries[k] == (id, task) {
        entries.remove(choose|k: int| 0 <= k < entries.len() && entries[k] == (id, task))
    } else {
        entries
    }
}

/// Removing an entry keeps the bookkeeping well formed and drops its ID.
pub proof fn lemma_remove_keeps_wf(entries: Seq<(Json, nat)>, k: int)
    requires
        in_flight_wf(entries),
        0 <= k < entries.len(),
    ensures
        in_flight_wf(entries.remove(k)),
        !holds(entries.remove(k), entries[k].0),
{
    let after = entries.remove(k);
    assert forall|i: int| 0 <= i < after.len() implies (#[trigger] after[i]).0.is_id() by {
        if i < k {
            assert(after[i] == entries[i]);
        } else {
            assert(after[i] == entries[i + 1]);
        }
    }
    assert forall|i: int, j: int| 0 <= i < j < after.len() implies after[i].0 != after[j].0 by {
        let ii = if i < k { i } else { i + 1 };
        let jj = if j < k { j } else { j + 1 };
        assert(after[i] == entries[ii]);
        assert(after[j] == entries[jj]);
    }
    if holds(after, entries[k].0) {
        let i = choose|i: int| 0 <= i < after.len() && (#[trigger] after[i]).0 == entries[k].0;
        let ii = if i < k { i } else { i + 1 };
        assert(after[i] == entries[ii]);
    }
}

} // verus!
