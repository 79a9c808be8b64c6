//! Walks through a DOM arena, and the proof that appending a child the way
//! `DomTree::append_child` does never closes a cycle.

use vstd::prelude::*;
use vstd::set_lib::{lemma_int_range, lemma_len_subset, set_int_range};
use crate::dom::{NodeId, NodeView, children_in_bounds, children_of, is_container, reaches, with_children, without};

verus! {

/// `b` is a child of `a`.
pub open spec fn edge(nodes: Seq<NodeView>, a: NodeId, b: NodeId) -> bool {
    0 <= a < nodes.len() && children_of(nodes[a as int]).contains(b)
}

/// The step from `s[i]` to `s[i + 1]` goes from a parent to one of its children.
pub open spec fn step_ok(nodes: Seq<NodeView>, s: Seq<NodeId>, i: int) -> bool {
    edge(nodes, s[i], s[i + 1])
}

/// `s` is a walk: every step goes from a parent to one of its children.
pub open spec fn is_path(nodes: Seq<NodeView>, s: Seq<NodeId>) -> bool {
    s.len() >= 1 && forall|i: int| 0 <= i < s.len() - 1 ==> #[trigger] step_ok(nodes, s, i)
}

/// No walk of one or more steps leads from a node back to itself.
pub open spec fn acyclic(nodes: Seq<NodeView>) -> bool {
    forall|s: Seq<NodeId>| #[trigger] is_path(nodes, s) && s.len() >= 2 ==> s[0] != s.last()
}

/// The arena after `child` is appended to the children of `parent`.
pub open spec fn appended(nodes: Seq<NodeView>, parent: NodeId, child: NodeId) -> Seq<NodeView> {
    nodes.update(parent as int, with_children(nodes[parent as int], children_of(nodes[parent as int]).push(child)))
}

/// Step `t` of `s` goes from `parent` to `child`.
pub open spec fn uses_edge(s: Seq<NodeId>, t: int, parent: NodeId, child: NodeId) -> bool {
    s[t] == parent && s[t + 1] == child
}

/// A walk of `k` steps is a reach within `k` levels.
proof fn lemma_path_reaches(nodes: Seq<NodeView>, s: Seq<NodeId>)
    requires
        is_path(nodes, s),
    ensures
        reaches(nodes, s[0], s.last(), (s.len() - 1) as nat),
    decreases s.len(),
{
    if s.len() > 1 {
        let t = s.drop_first();
        assert forall|i: int| 0 <= i < t.len() - 1 implies #[trigger] step_ok(nodes, t, i) by {
            assert(step_ok(nodes, s, i + 1));
        }
        lemma_path_reaches(nodes, t);
        assert(step_ok(nodes, s, 0));
        let cs = children_of(nodes[s[0] as int]);
        let k = choose|k: int| 0 <= k < cs.len() && cs[k] == s[1];
        assert(reaches(nodes, cs[k], s.last(), (s.len() - 2) as nat));
    }
}

/// More levels reach at least as far.
proof fn lemma_reaches_mono(nodes: Seq<NodeView>, u: NodeId, v: NodeId, f: nat, g: nat)
    requires
        reaches(nodes, u, v, f),
        f <= g,
    ensures
        reaches(nodes, u, v, g),
    decreases f,
{
    if u != v {
        let cs = children_of(nodes[u as int]);
        let k = choose|k: int| 0 <= k < cs.len() && reaches(nodes, #[trigger] cs[k], v, (f - 1) as nat);
        lemma_reaches_mono(nodes, cs[k], v, (f - 1) as nat, (g - 1) as nat);
        assert(reaches(nodes, cs[k], v, (g - 1) as nat));
    }
}

/// Every node of a walk lies in the arena.
proof fn lemma_path_in_bounds(nodes: Seq<NodeView>, s: Seq<NodeId>, start: NodeId)
    requires
        children_in_bounds(nodes),
        is_path(nodes, s),
        s[0] == start,
        start < nodes.len(),
    ensures
        forall|i: int| 0 <= i < s.len() ==> #[trigger] s[i] < nodes.len(),
{
    assert forall|i: int| 0 <= i < s.len() implies #[trigger] s[i] < nodes.len() by {
        if i > 0 {
            assert(step_ok(nodes, s, i - 1));
            let cs = children_of(nodes[s[i - 1] as int]);
            let k = choose|k: int| 0 <= k < cs.len() && cs[k] == s[i];
            assert(cs[k] < nodes.len());
        }
    }
}

/// In an acyclic arena no walk visits a node twice.
proof fn lemma_path_no_duplicates(nodes: Seq<NodeView>, s: Seq<NodeId>)
    requires
        acyclic(nodes),
        is_path(nodes, s),
    ensures
        s.no_duplicates(),
{
    assert forall|i: int, j: int| 0 <= i < s.len() && 0 <= j < s.len() && i != j implies s[i] != s[j] by {
        let (a, b) = if i < j { (i, j) } else { (j, i) };
        let t = s.subrange(a, b + 1);
        assert forall|m: int| 0 <= m < t.len() - 1 implies #[trigger] step_ok(nodes, t, m) by {
            assert(step_ok(nodes, s, a + m));
        }
        assert(is_path(nodes, t));
        assert(t.len() >= 2);
    }
}

/// A sequence of distinct indices below `n` has at most `n` elements.
proof fn lemma_distinct_bounded(s: Seq<NodeId>, n: nat)
    requires
        s.no_duplicates(),
        forall|i: int| 0 <= i < s.len() ==> #[trigger] s[i] < n,
    ensures
        s.len() <= n,
{
    let t = s.map_values(|x: NodeId| x as int);
    assert(t.no_duplicates()) by {
        assert forall|i: int, j: int| 0 <= i < t.len() && 0 <= j < t.len() && i != j implies t[i] != t[j] by {
            assert(s[i] != s[j]);
        }
    }
    lemma_int_range(0, n as int);
    assert(t.to_set().subset_of(set_int_range(0, n as int))) by {
        assert forall|x: int| t.to_set().contains(x) implies set_int_range(0, n as int).contains(x) by {
            let i = choose|i: int| 0 <= i < t.len() && t[i] == x;
            assert(s[i] < n);
        }
    }
    lemma_len_subset(t.to_set(), set_int_range(0, n as int));
    t.unique_seq_to_set();
}

/// A walk in the arena with the new edge that never leaves `parent` except at
/// its end is a walk of the old arena; its prefix up to the first visit of
/// `parent` is one in any case.
proof fn lemma_prefix_before(
    nodes: Seq<NodeView>,
    parent: NodeId,
    child: NodeId,
    w: Seq<NodeId>,
) -> (u: Seq<NodeId>)
    requires
        parent < nodes.len(),
        is_container(nodes[parent as int]),
        is_path(appended(nodes, parent, child), w),
        w.last() == parent,
    ensures
        is_path(nodes, u),
        u[0] == w[0],
        u.last() == parent,
    decreases w.len(),
{
    let after = appended(nodes, parent, child);
    if w[0] == parent {
        seq![parent]
    } else {
        assert(w.len() >= 2);
        let t = w.drop_first();
        assert forall|i: int| 0 <= i < t.len() - 1 implies #[trigger] step_ok(after, t, i) by {
            assert(step_ok(after, w, i + 1));
        }
        let r = lemma_prefix_before(nodes, parent, child, t);
        assert(step_ok(after, w, 0));
        assert(children_of(after[w[0] as int]) == children_of(nodes[w[0] as int]));
        let u = seq![w[0]] + r;
        assert forall|i: int| 0 <= i < u.len() - 1 implies #[trigger] step_ok(nodes, u, i) by {
            if i > 0 {
                assert(step_ok(nodes, r, i - 1));
            }
        }
        u
    }
}

/// Appending `child` to the children of `parent`, when `child` does not reach
/// `parent` within as many levels as the arena has nodes, keeps an acyclic
/// arena acyclic: the check that `DomTree::append_child` makes is enough to
/// rule out every cycle.
pub proof fn lemma_append_keeps_acyclic(nodes: Seq<NodeView>, parent: NodeId, child: NodeId)
    requires
        children_in_bounds(nodes),
        parent < nodes.len(),
        child < nodes.len(),
        is_container(nodes[parent as int]),
        acyclic(nodes),
        !reaches(nodes, child, parent, nodes.len() as nat),
    ensures
        acyclic(appended(nodes, parent, child)),
{
    let after = appended(nodes, parent, child);
    assert(children_of(after[parent as int]) == children_of(nodes[parent as int]).push(child));
    assert forall|s: Seq<NodeId>| #[trigger] is_path(after, s) && s.len() >= 2 implies s[0] != s.last() by {
        if s[0] == s.last() {
            if exists|t: int| 0 <= t < s.len() - 1 && #[trigger] uses_edge(s, t, parent, child) {
                let t = choose|t: int| 0 <= t < s.len() - 1 && #[trigger] uses_edge(s, t, parent, child);
                let len = s.len() as int;
                let w = s.subrange(t + 1, len) + s.subrange(1, t + 1);
                assert(w.len() == len - 1);
                assert forall|i: int| 0 <= i < w.len() - 1 implies #[trigger] step_ok(after, w, i) by {
                    if i < len - t - 2 {
                        assert(step_ok(after, s, t + 1 + i));
                    } else if i == len - t - 2 {
                        assert(w[i] == s[len - 1]);
                        assert(w[i + 1] == s[1]);
                        assert(step_ok(after, s, 0));
                    } else {
                        let j = 1 + (i - (len - t - 1));
                        assert(w[i] == s[j]);
                        assert(w[i + 1] == s[j + 1]);
                        assert(step_ok(after, s, j));
                    }
                }
                assert(w[0] == child);
                assert(w.last() == parent) by {
                    if t == 0 {
                        assert(w.last() == s[len - 1]);
                    } else {
                        assert(w.last() == s[t]);
                    }
                }
                let u = lemma_prefix_before(nodes, parent, child, w);
                lemma_path_in_bounds(nodes, u, child);
                lemma_path_no_duplicates(nodes, u);
                lemma_distinct_bounded(u, nodes.len() as nat);
                lemma_path_reaches(nodes, u);
                lemma_reaches_mono(nodes, child, parent, (u.len() - 1) as nat, nodes.len() as nat);
            } else {
                assert forall|i: int| 0 <= i < s.len() - 1 implies #[trigger] step_ok(nodes, s, i) by {
                    assert(step_ok(after, s, i));
                    if s[i] == parent {
                        assert(!uses_edge(s, i, parent, child));
                        let cs = children_of(after[parent as int]);
                        let k = choose|k: int| 0 <= k < cs.len() && cs[k] == s[i + 1];
                        assert(k < cs.len() - 1);
                        assert(children_of(nodes[parent as int])[k] == s[i + 1]);
                    } else {
                        assert(children_of(after[s[i] as int]) == children_of(nodes[s[i] as int]));
                    }
                }
                assert(is_path(nodes, s));
            }
        }
    }
}

/// Removing edges (and nothing else) keeps an acyclic arena acyclic.
pub proof fn lemma_fewer_edges_keep_acyclic(before: Seq<NodeView>, after: Seq<NodeView>)
    requires
        acyclic(before),
        forall|a: NodeId, b: NodeId| #[trigger] edge(after, a, b) ==> edge(before, a, b),
    ensures
        acyclic(after),
{
    assert forall|s: Seq<NodeId>| #[trigger] is_path(after, s) && s.len() >= 2 implies s[0] != s.last() by {
        assert forall|i: int| 0 <= i < s.len() - 1 implies #[trigger] step_ok(before, s, i) by {
            assert(step_ok(after, s, i));
        }
        assert(is_path(before, s));
    }
}

/// What remains after removing `x` was there before.
pub proof fn lemma_without_subset(s: Seq<NodeId>, x: NodeId, b: NodeId)
    requires
        without(s, x).contains(b),
    ensures
        s.contains(b),
    decreases s.len(),
{
    if s.len() > 0 {
        let w = without(s.drop_last(), x);
        if s.last() != x && b == s.last() {
            assert(s[s.len() - 1] == b);
        } else {
            if s.last() != x {
                let i = choose|i: int| 0 <= i < w.push(s.last()).len() && w.push(s.last())[i] == b;
                assert(w.contains(b)) by {
                    assert(i < w.len());
                    assert(w[i] == b);
                }
            }
            lemma_without_subset(s.drop_last(), x, b);
            let j = choose|j: int| 0 <= j < s.drop_last().len() && s.drop_last()[j] == b;
            assert(s[j] == b);
        }
    }
}

} // verus!
