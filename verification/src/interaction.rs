//! The unified interaction API: adapter parameters and results, adapter kinds
//! with their preference order, and adapter selection.

use vstd::prelude::*;
use crate::text::{compare_str, lemma_lex_transitive, lemma_lex_trichotomy, lex_lt};

verus! {

/// The task and agent an adapter call belongs to.
#[derive(Clone, Copy, Debug, PartialEq, Eq)]
pub struct TaskInfo {
    pub task_id: u128,
    pub agent_id: u128,
}

impl TaskInfo {
    pub fn new(task_id: u128, agent_id: u128) -> (t: TaskInfo)
        ensures
            t.task_id == task_id,
            t.agent_id == agent_id,
    {
        TaskInfo { task_id, agent_id }
    }
}

/// Mechanism-specific inputs of an adapter call. The arguments of an MCP call
/// are name/value pairs, each name at most once.
#[derive(Clone, Debug)]
pub enum AdapterParams {
    Http { url: String, method: Option<String> },
    Mcp { tool: String, args: Vec<(String, String)> },
    Dom { html: String, selector: String },
    Js { source: String },
    Visual { url: String },
}

impl Default for AdapterParams {
    /// A GET-less HTTP call to the empty URL.
    fn default() -> (p: AdapterParams)
        ensures
            p matches AdapterParams::Http { url, method } && url@.len() == 0 && method is None,
    {
        AdapterParams::Http { url: String::new(), method: None }
    }
}

/// The outcome of an adapter call.
#[derive(Clone, Debug)]
pub enum AdapterResult {
    /// Policy denied the request; no mechanism ran.
    Denied { reason: String, replay_sequence: u64 },
    /// Policy allowed the request and the mechanism succeeded.
    Success { response: String, replay_sequence: u64 },
    /// The mechanism failed (network, parse, ...), as distinct from a denial.
    Error { message: String, replay_sequence: u64 },
}

pub open spec fn result_sequence(r: AdapterResult) -> u64 {
    match r {
        AdapterResult::Denied { replay_sequence, .. } => replay_sequence,
        AdapterResult::Success { replay_sequence, .. } => replay_sequence,
        AdapterResult::Error { replay_sequence, .. } => replay_sequence,
    }
}

impl AdapterResult {
    /// The replay sequence number recorded with the result.
    pub fn replay_sequence(&self) -> (s: u64)
        ensures
            s == result_sequence(*self),
    {
        match self {
            AdapterResult::Denied { replay_sequence, .. } => *replay_sequence,
            AdapterResult::Success { replay_sequence, .. } => *replay_sequence,
            AdapterResult::Error { replay_sequence, .. } => *replay_sequence,
        }
    }

    /// Whether the call was allowed and succeeded.
    pub fn is_success(&self) -> (r: bool)
        ensures
            r == (*self is Success),
    {
        matches!(self, AdapterResult::Success { .. })
    }

    /// Whether policy denied the call.
    pub fn is_denied(&self) -> (r: bool)
        ensures
            r == (*self is Denied),
    {
        matches!(self, AdapterResult::Denied { .. })
    }
}

/// The mechanism an adapter uses.
#[derive(Clone, Copy, Debug, PartialEq, Eq, Structural, Hash)]
pub enum AdapterKind {
    Http,
    Dom,
    Js,
    Mcp,
    Visual,
}

/// Rank of a kind in the preference order (smaller is preferred).
pub open spec fn rank(k: AdapterKind) -> int {
    match k {
        AdapterKind::Http => 0,
        AdapterKind::Dom => 1,
        AdapterKind::Js => 2,
        AdapterKind::Mcp => 3,
        AdapterKind::Visual => 4,
    }
}

impl AdapterKind {
    /// The kinds from most to least preferred: HTTP, DOM, JS, MCP, visual.
    pub fn preference_order() -> (o: [AdapterKind; 5])
        ensures
            forall|i: int| 0 <= i < 5 ==> rank(#[trigger] o@[i]) == i,
    {
        [AdapterKind::Http, AdapterKind::Dom, AdapterKind::Js, AdapterKind::Mcp, AdapterKind::Visual]
    }
}

/// An adapter's kind and the capability names it handles.
#[derive(Clone, Debug)]
pub struct AdapterDescriptor {
    pub kind: AdapterKind,
    pub handles: Vec<String>,
}

/// Whether the descriptor lists the capability `action`.
pub open spec fn handles_spec(d: AdapterDescriptor, action: Seq<char>) -> bool {
    exists|j: int| 0 <= j < d.handles@.len() && #[trigger] d.handles@[j]@ == action
}

/// The index `i` is the adapter that selection picks among `ds` for `action`:
/// it handles the action, no adapter of a more preferred kind does, and no
/// earlier adapter of the same kind does.
pub open spec fn is_selected(ds: Seq<AdapterDescriptor>, action: Seq<char>, i: int) -> bool {
    &&& 0 <= i < ds.len()
    &&& handles_spec(ds[i], action)
    &&& forall|j: int|
        0 <= j < ds.len() && #[trigger] handles_spec(ds[j], action) ==> rank(ds[i].kind) < rank(ds[j].kind) || (
        rank(ds[i].kind) == rank(ds[j].kind) && i <= j)
}

impl AdapterDescriptor {
    /// A descriptor for `kind` handling the capability names `handles`, in order.
    pub fn new(kind: AdapterKind, handles: Vec<&str>) -> (d: AdapterDescriptor)
        ensures
            d.kind == kind,
            d.handles@.len() == handles@.len(),
            forall|i: int| 0 <= i < handles@.len() ==> #[trigger] d.handles@[i]@ == handles@[i]@,
    {
        let mut v: Vec<String> = Vec::new();
        let mut i: usize = 0;
        while i < handles.len()
            invariant
                i <= handles@.len(),
                v@.len() == i,
                forall|k: int| 0 <= k < i ==> #[trigger] v@[k]@ == handles@[k]@,
            decreases handles.len() - i,
        {
            v.push(handles[i].to_owned());
            i += 1;
        }
        AdapterDescriptor { kind, handles: v }
    }

    /// Whether this adapter handles the capability `action`.
    pub fn handles_action(&self, action: &str) -> (r: bool)
        ensures
            r == handles_spec(*self, action@),
    {
        let wanted = action.to_owned();
        let mut i: usize = 0;
        while i < self.handles.len()
            invariant
                i <= self.handles@.len(),
                wanted@ == action@,
                forall|k: int| 0 <= k < i ==> #[trigger] self.handles@[k]@ != action@,
            decreases self.handles.len() - i,
        {
            if self.handles[i] == wanted {
                return true;
            }
            i += 1;
        }
        false
    }
}

/// Registering `new` beside `existing` duplicates an adapter when one of the
/// same kind already handles one of the capabilities that `new` handles.
pub open spec fn duplicates(existing: Seq<AdapterDescriptor>, new: AdapterDescriptor) -> bool {
    exists|i: int, j: int|
        0 <= i < existing.len() && 0 <= j < new.handles@.len() && existing[i].kind == new.kind && #[trigger] handles_spec(
            existing[i],
            #[trigger] new.handles@[j]@,
        )
}

/// The first duplicate that registering `new` beside `existing` would make, in
/// the order of `new`'s capabilities and then of `existing`: the index of the
/// existing adapter of the same kind and the capability that both handle.
/// `None` when registering `new` duplicates nothing.
pub fn duplicate_registration(existing: &[AdapterDescriptor], new: &AdapterDescriptor) -> (dup: Option<(usize, String)>)
    ensures
        dup is None <==> !duplicates(existing@, *new),
        dup matches Some((i, h)) ==> i < existing@.len() && existing@[i as int].kind == new.kind && handles_spec(
            existing@[i as int],
            h@,
        ) && handles_spec(*new, h@),
{
    let mut j: usize = 0;
    while j < new.handles.len()
        invariant
            j <= new.handles@.len(),
            forall|jj: int, i: int|
                0 <= jj < j && 0 <= i < existing@.len() && existing@[i].kind == new.kind ==> !#[trigger] handles_spec(
                    existing@[i],
                    #[trigger] new.handles@[jj]@,
                ),
        decreases new.handles.len() - j,
    {
        let h = new.handles[j].as_str();
        let mut i: usize = 0;
        while i < existing.len()
            invariant
                j < new.handles@.len(),
                h@ == new.handles@[j as int]@,
                i <= existing@.len(),
                forall|ii: int|
                    0 <= ii < i && existing@[ii].kind == new.kind ==> !#[trigger] handles_spec(existing@[ii], h@),
            decreases existing.len() - i,
        {
            if existing[i].kind == new.kind && existing[i].handles_action(h) {
                assert(handles_spec(*new, h@)) by {
                    assert(new.handles@[j as int]@ == h@);
                }
                return Some((i, h.to_owned()));
            }
            i += 1;
        }
        j += 1;
    }
    None
}

/// Selects the adapter for `action`: the first adapter, in order, of the most
/// preferred kind among those that handle it.
pub fn select_adapter(adapters: &[AdapterDescriptor], action: &str) -> (r: Option<usize>)
    ensures
        match r {
            Some(i) => is_selected(adapters@, action@, i as int),
            None => forall|j: int| 0 <= j < adapters@.len() ==> !#[trigger] handles_spec(adapters@[j], action@),
        },
{
    let order = AdapterKind::preference_order();
    let mut k: usize = 0;
    while k < 5
        invariant
            k <= 5,
            forall|i: int| 0 <= i < 5 ==> rank(#[trigger] order@[i]) == i,
            forall|j: int|
                0 <= j < adapters@.len() && #[trigger] handles_spec(adapters@[j], action@) ==> rank(adapters@[j].kind) >= k,
        decreases 5 - k,
    {
        let kind = order[k];
        let mut i: usize = 0;
        while i < adapters.len()
            invariant
                k < 5,
                i <= adapters@.len(),
                rank(kind) == k,
                forall|j: int|
                    0 <= j < adapters@.len() && #[trigger] handles_spec(adapters@[j], action@) ==> rank(adapters@[j].kind) >= k,
                forall|j: int|
                    0 <= j < i && #[trigger] handles_spec(adapters@[j], action@) ==> adapters@[j].kind != kind,
            decreases adapters.len() - i,
        {
            if adapters[i].kind == kind && adapters[i].handles_action(action) {
                proof {
                    assert forall|j: int|
                        0 <= j < adapters@.len() && #[trigger] handles_spec(adapters@[j], action@) implies rank(
                        adapters@[i as int].kind,
                    ) < rank(adapters@[j].kind) || (rank(adapters@[i as int].kind) == rank(adapters@[j].kind) && i <= j) by {
                        if j < i {
                            assert(adapters@[j].kind != kind);
                        }
                        if rank(adapters@[j].kind) == k {
                            assert(adapters@[j].kind == kind);
                        }
                    }
                }
                return Some(i);
            }
            i += 1;
        }
        proof {
            assert forall|j: int|
                0 <= j < adapters@.len() && #[trigger] handles_spec(adapters@[j], action@) implies rank(adapters@[j].kind) >= k + 1 by {
                if rank(adapters@[j].kind) == k {
                    assert(adapters@[j].kind == kind);
                }
            }
        }
        k += 1;
    }
    None
}

/// `v` is strictly increasing in lexicographic order (so holds no duplicates).
pub open spec fn strictly_sorted(v: Seq<String>) -> bool {
    forall|i: int, j: int| 0 <= i < j < v.len() ==> lex_lt(#[trigger] v[i]@, #[trigger] v[j]@)
}

/// The capability names of `v`.
pub open spec fn names(v: Seq<String>) -> Set<Seq<char>> {
    Set::new(|a: Seq<char>| exists|i: int| 0 <= i < v.len() && #[trigger] v[i]@ == a)
}

/// Inserts `s` into the strictly sorted `v` unless it is already there.
fn insert_sorted(v: &mut Vec<String>, s: String)
    requires
        strictly_sorted(old(v)@),
    ensures
        strictly_sorted(final(v)@),
        names(final(v)@) == names(old(v)@).insert(s@),
{
    let ghost old_v = v@;
    let mut i: usize = 0;
    while i < v.len()
        invariant
            i <= v@.len(),
            v@ == old_v,
            strictly_sorted(v@),
            forall|k: int| 0 <= k < i ==> lex_lt(#[trigger] v@[k]@, s@),
        ensures
            i <= v@.len(),
            v@ == old_v,
            strictly_sorted(v@),
            forall|k: int| 0 <= k < i ==> lex_lt(#[trigger] v@[k]@, s@),
            i < v@.len() ==> lex_lt(s@, v@[i as int]@),
        decreases v.len() - i,
    {
        let c = compare_str(v[i].as_str(), s.as_str());
        if c == 0 {
            proof {
                assert(names(v@) =~= names(old_v).insert(s@));
            }
            return;
        }
        if c > 0 {
            break;
        }
        i += 1;
    }
    proof {
        assert forall|k: int| i <= k < v@.len() implies lex_lt(s@, #[trigger] v@[k]@) by {
            lemma_lex_trichotomy(v@[i as int]@, s@);
            if k > i {
                lemma_lex_transitive(s@, v@[i as int]@, v@[k]@);
            }
        }
    }
    v.insert(i, s);
    proof {
        let nv = v@;
        assert forall|a: int, b: int| 0 <= a < b < nv.len() implies lex_lt(#[trigger] nv[a]@, #[trigger] nv[b]@) by {
            if b < i {
                assert(nv[a] == old_v[a] && nv[b] == old_v[b]);
            } else if b == i {
                assert(nv[a] == old_v[a]);
            } else if a == i {
                assert(nv[b] == old_v[b - 1]);
            } else if a < i {
                assert(nv[a] == old_v[a] && nv[b] == old_v[b - 1]);
                lemma_lex_transitive(nv[a]@, s@, nv[b]@);
            } else {
                assert(nv[a] == old_v[a - 1] && nv[b] == old_v[b - 1]);
            }
        }
        assert forall|x: Seq<char>| #[trigger] names(nv).contains(x) == names(old_v).insert(s@).contains(x) by {
            if names(nv).contains(x) {
                let k = choose|k: int| 0 <= k < nv.len() && #[trigger] nv[k]@ == x;
                if k < i {
                    assert(old_v[k]@ == x);
                } else if k > i {
                    assert(old_v[k - 1]@ == x);
                }
            }
            if names(old_v).contains(x) {
                let k = choose|k: int| 0 <= k < old_v.len() && #[trigger] old_v[k]@ == x;
                if k < i {
                    assert(nv[k]@ == x);
                } else {
                    assert(nv[k + 1]@ == x);
                }
            }
            if x == s@ {
                assert(nv[i as int]@ == x);
            }
        }
        assert(names(nv) =~= names(old_v).insert(s@));
    }
}

/// Every capability name handled by some adapter of `ds`.
pub open spec fn all_handles(ds: Seq<AdapterDescriptor>) -> Set<Seq<char>> {
    Set::new(|a: Seq<char>| exists|i: int| 0 <= i < ds.len() && #[trigger] handles_spec(ds[i], a))
}

/// All capability names that the adapters handle, sorted and without duplicates.
pub fn list_capabilities(adapters: &[AdapterDescriptor]) -> (caps: Vec<String>)
    ensures
        strictly_sorted(caps@),
        names(caps@) == all_handles(adapters@),
{
    let mut caps: Vec<String> = Vec::new();
    let mut i: usize = 0;
    assert(names(caps@) =~= Set::<Seq<char>>::empty());
    while i < adapters.len()
        invariant
            i <= adapters@.len(),
            strictly_sorted(caps@),
            names(caps@) == Set::new(
                |a: Seq<char>| exists|k: int| 0 <= k < i && #[trigger] handles_spec(adapters@[k], a),
            ),
        decreases adapters.len() - i,
    {
        let d = &adapters[i];
        let mut j: usize = 0;
        while j < d.handles.len()
            invariant
                i < adapters@.len(),
                *d == adapters@[i as int],
                j <= d.handles@.len(),
                strictly_sorted(caps@),
                names(caps@) == Set::new(
                    |a: Seq<char>|
                        (exists|k: int| 0 <= k < i && #[trigger] handles_spec(adapters@[k], a)) || (exists|m: int|
                            0 <= m < j && #[trigger] d.handles@[m]@ == a),
                ),
            decreases d.handles.len() - j,
        {
            let ghost before = names(caps@);
            insert_sorted(&mut caps, d.handles[j].clone());
            proof {
                let target = Set::new(
                    |a: Seq<char>|
                        (exists|k: int| 0 <= k < i && #[trigger] handles_spec(adapters@[k], a)) || (exists|m: int|
                            0 <= m < j + 1 && #[trigger] d.handles@[m]@ == a),
                );
                assert forall|a: Seq<char>| #[trigger] names(caps@).contains(a) == target.contains(a) by {
                    if a == d.handles@[j as int]@ {
                        assert(target.contains(a));
                    }
                    if target.contains(a) && !(exists|k: int| 0 <= k < i && #[trigger] handles_spec(adapters@[k], a)) {
                        let m = choose|m: int| 0 <= m < j + 1 && #[trigger] d.handles@[m]@ == a;
                        if m < j {
                            assert(before.contains(a));
                        }
                    }
                }
                assert(names(caps@) =~= target);
            }
            j += 1;
        }
        proof {
            let target = Set::new(
                |a: Seq<char>| exists|k: int| 0 <= k < i + 1 && #[trigger] handles_spec(adapters@[k], a),
            );
            assert forall|a: Seq<char>| #[trigger] names(caps@).contains(a) == target.contains(a) by {
                if target.contains(a) {
                    let k = choose|k: int| 0 <= k < i + 1 && #[trigger] handles_spec(adapters@[k], a);
                    if k == i {
                        let m = choose|m: int| 0 <= m < d.handles@.len() && #[trigger] d.handles@[m]@ == a;
                        assert(names(caps@).contains(a));
                    }
                }
                if names(caps@).contains(a) && !(exists|k: int| 0 <= k < i && #[trigger] handles_spec(adapters@[k], a)) {
                    assert(handles_spec(adapters@[i as int], a));
                }
            }
            assert(names(caps@) =~= target);
        }
        i += 1;
    }
    proof {
        assert(names(caps@) =~= all_handles(adapters@));
    }
    caps
}

/// The semantic outcome of an interaction.
#[derive(Clone, Debug)]
pub enum InteractionOutcome {
    Denied { reason: String },
    Success,
    Error { message: String },
}

/// A semantic-level observation of one interaction; `timestamp` is in
/// milliseconds since the Unix epoch.
#[derive(Clone, Debug)]
pub struct InteractionEvent {
    pub task_id: u128,
    pub agent_id: u128,
    pub adapter_kind: AdapterKind,
    pub capability: String,
    pub outcome: InteractionOutcome,
    pub timestamp: i64,
}

} // verus!
