//! DOM trees held in an arena: nodes refer to their children by index.

use vstd::prelude::*;
use crate::dom_paths::{acyclic, edge, lemma_append_keeps_acyclic, lemma_fewer_edges_keep_acyclic, lemma_without_subset};

verus! {

/// Errors of DOM operations.
#[derive(Clone, Debug)]
pub enum DomError {
    ParseError(String),
    SelectorError(String),
    MutationError(String),
}

/// The message of a DOM error.
pub open spec fn dom_error_text(e: DomError) -> Seq<char> {
    match e {
        DomError::ParseError(s) => "parse error: "@ + s@,
        DomError::SelectorError(s) => "selector error: "@ + s@,
        DomError::MutationError(s) => "mutation error: "@ + s@,
    }
}

impl DomError {
    /// The error's message.
    pub fn message(&self) -> (m: String)
        ensures
            m@ == dom_error_text(*self),
    {
        let mut v: Vec<char> = Vec::new();
        match self {
            DomError::ParseError(s) => {
                crate::text::push_str(&mut v, "parse error: ");
                crate::text::push_str(&mut v, s.as_str());
            },
            DomError::SelectorError(s) => {
                crate::text::push_str(&mut v, "selector error: ");
                crate::text::push_str(&mut v, s.as_str());
            },
            DomError::MutationError(s) => {
                crate::text::push_str(&mut v, "mutation error: ");
                crate::text::push_str(&mut v, s.as_str());
            },
        }
        crate::text::string_from_chars(v.as_slice())
    }
}

/// The HTML parser (driven by html5ever over `crate::dom_builder::DomBuilder`).
#[derive(Clone, Copy, Debug)]
pub struct HtmlParser;

/// Index of a node in its tree's arena.
pub type NodeId = usize;

/// One node of a document.
#[derive(Debug, Clone)]
pub enum DomNode {
    Document { children: Vec<NodeId> },
    DocumentType { name: String, public_id: String, system_id: String },
    Element { tag: String, attrs: Vec<(String, String)>, children: Vec<NodeId> },
    Text { content: String },
    Comment { content: String },
}

/// A node with its strings as character sequences.
pub enum NodeView {
    Document { children: Seq<NodeId> },
    DocumentType { name: Seq<char>, public_id: Seq<char>, system_id: Seq<char> },
    Element { tag: Seq<char>, attrs: Seq<(Seq<char>, Seq<char>)>, children: Seq<NodeId> },
    Text { content: Seq<char> },
    Comment { content: Seq<char> },
}

pub open spec fn attrs_view(a: Seq<(String, String)>) -> Seq<(Seq<char>, Seq<char>)> {
    a.map_values(|p: (String, String)| (p.0@, p.1@))
}

impl View for DomNode {
    type V = NodeView;

    open spec fn view(&self) -> NodeView {
        match self {
            DomNode::Document { children } => NodeView::Document { children: children@ },
            DomNode::DocumentType { name, public_id, system_id } => NodeView::DocumentType {
                name: name@,
                public_id: public_id@,
                system_id: system_id@,
            },
            DomNode::Element { tag, attrs, children } => NodeView::Element {
                tag: tag@,
                attrs: attrs_view(attrs@),
                children: children@,
            },
            DomNode::Text { content } => NodeView::Text { content: content@ },
            DomNode::Comment { content } => NodeView::Comment { content: content@ },
        }
    }
}

/// The children of a node; only documents and elements have any.
pub open spec fn children_of(n: NodeView) -> Seq<NodeId> {
    match n {
        NodeView::Document { children } => children,
        NodeView::Element { children, .. } => children,
        _ => Seq::empty(),
    }
}

/// Documents and elements can hold children.
pub open spec fn is_container(n: NodeView) -> bool {
    n is Document || n is Element
}

pub open spec fn nodes_view(nodes: Seq<DomNode>) -> Seq<NodeView> {
    nodes.map_values(|n: DomNode| n@)
}

/// Every child index points into the arena.
pub open spec fn children_in_bounds(nodes: Seq<NodeView>) -> bool {
    forall|i: int, j: int|
        0 <= i < nodes.len() && 0 <= j < children_of(nodes[i]).len() ==> #[trigger] children_of(
            nodes[i],
        )[j] < nodes.len()
}

/// A document held in an arena, with the index of its root.
#[derive(Debug)]
pub struct DomTree {
    pub nodes: Vec<DomNode>,
    pub root: NodeId,
}

/// `to` is `from` or lies below it, within `fuel` levels.
pub open spec fn reaches(nodes: Seq<NodeView>, from: NodeId, to: NodeId, fuel: nat) -> bool
    decreases fuel,
{
    from == to || (fuel > 0 && 0 <= from < nodes.len() && exists|k: int|
        0 <= k < children_of(nodes[from as int]).len() && reaches(
            nodes,
            #[trigger] children_of(nodes[from as int])[k],
            to,
            (fuel - 1) as nat,
        ))
}

/// `s` without any occurrence of `x`.
pub open spec fn without(s: Seq<NodeId>, x: NodeId) -> Seq<NodeId>
    decreases s.len(),
{
    if s.len() == 0 {
        s
    } else if s.last() == x {
        without(s.drop_last(), x)
    } else {
        without(s.drop_last(), x).push(s.last())
    }
}

pub proof fn lemma_without_bounded(s: Seq<NodeId>, x: NodeId, n: nat)
    requires
        forall|j: int| 0 <= j < s.len() ==> s[j] < n,
    ensures
        forall|j: int| 0 <= j < without(s, x).len() ==> without(s, x)[j] < n,
    decreases s.len(),
{
    if s.len() > 0 {
        lemma_without_bounded(s.drop_last(), x, n);
        let w = without(s.drop_last(), x);
        if s.last() != x {
            assert(s.last() == s[s.len() - 1]);
            assert forall|j: int| 0 <= j < w.push(s.last()).len() implies w.push(s.last())[j] < n by {
                if j < w.len() {
                    assert(w.push(s.last())[j] == w[j]);
                }
            }
        }
    }
}

/// The node with its children replaced by `c` (unchanged when it holds none).
pub open spec fn with_children(n: NodeView, c: Seq<NodeId>) -> NodeView {
    match n {
        NodeView::Document { .. } => NodeView::Document { children: c },
        NodeView::Element { tag, attrs, .. } => NodeView::Element { tag, attrs, children: c },
        _ => n,
    }
}

impl DomTree {
    pub open spec fn view_nodes(&self) -> Seq<NodeView> {
        nodes_view(self.nodes@)
    }

    /// The root exists and every child index points into the arena.
    pub open spec fn wf(&self) -> bool {
        &&& self.root < self.nodes@.len()
        &&& children_in_bounds(self.view_nodes())
    }

    /// A tree over `nodes` rooted at `root`; `None` when an index is out of bounds.
    pub fn new(nodes: Vec<DomNode>, root: NodeId) -> (r: Option<DomTree>)
        ensures
            match r {
                Some(t) => t.nodes == nodes && t.root == root && t.wf(),
                None => !(root < nodes@.len() && children_in_bounds(nodes_view(nodes@))),
            },
    {
        if root >= nodes.len() {
            return None;
        }
        let n = nodes.len();
        let mut i: usize = 0;
        while i < n
            invariant
                n == nodes@.len(),
                i <= n,
                forall|a: int, b: int|
                    0 <= a < i && 0 <= b < children_of(nodes_view(nodes@)[a]).len()
                        ==> #[trigger] children_of(nodes_view(nodes@)[a])[b] < n,
            decreases n - i,
        {
            let cs = Self::node_children(&nodes[i]);
            let mut j: usize = 0;
            while j < cs.len()
                invariant
                    n == nodes@.len(),
                    i < n,
                    j <= cs@.len(),
                    cs@ == children_of(nodes_view(nodes@)[i as int]),
                    forall|b: int| 0 <= b < j ==> #[trigger] cs@[b] < n,
                decreases cs.len() - j,
            {
                if cs[j] >= n {
                    assert(children_of(nodes_view(nodes@)[i as int])[j as int] >= n);
                    return None;
                }
                j += 1;
            }
            i += 1;
        }
        Some(DomTree { nodes, root })
    }

    /// The children of `n`, empty for nodes that hold none.
    pub fn node_children(n: &DomNode) -> (c: &[NodeId])
        ensures
            c@ == children_of(n@),
    {
        match n {
            DomNode::Document { children } => children.as_slice(),
            DomNode::Element { children, .. } => children.as_slice(),
            _ => &[],
        }
    }

    /// Whether `to` is `from` or a descendant of it (within `fuel` levels).
    fn subtree_contains(&self, from: NodeId, to: NodeId, fuel: usize) -> (r: bool)
        requires
            self.wf(),
            from < self.nodes@.len(),
        ensures
            r == reaches(self.view_nodes(), from, to, fuel as nat),
        decreases fuel,
    {
        if from == to {
            return true;
        }
        if fuel == 0 {
            return false;
        }
        let cs = Self::node_children(&self.nodes[from]);
        let ghost nv = self.view_nodes();
        assert(nv[from as int] == self.nodes@[from as int]@);
        let mut k: usize = 0;
        while k < cs.len()
            invariant
                self.wf(),
                nv == self.view_nodes(),
                from < nv.len(),
                fuel > 0,
                from != to,
                cs@ == children_of(nv[from as int]),
                k <= cs@.len(),
                forall|m: int|
                    0 <= m < k ==> !reaches(nv, #[trigger] cs@[m], to, (fuel - 1) as nat),
            decreases cs.len() - k,
        {
            assert(cs@[k as int] < nv.len());
            if self.subtree_contains(cs[k], to, fuel - 1) {
                assert(reaches(nv, children_of(nv[from as int])[k as int], to, (fuel - 1) as nat));
                return true;
            }
            k += 1;
        }
        assert(!reaches(nv, from, to, fuel as nat)) by {
            if exists|m: int|
                0 <= m < children_of(nv[from as int]).len() && reaches(
                    nv,
                    #[trigger] children_of(nv[from as int])[m],
                    to,
                    (fuel - 1) as nat,
                ) {
                let m = choose|m: int|
                    0 <= m < children_of(nv[from as int]).len() && reaches(
                        nv,
                        #[trigger] children_of(nv[from as int])[m],
                        to,
                        (fuel - 1) as nat,
                    );
                assert(!reaches(nv, cs@[m], to, (fuel - 1) as nat));
            }
        }
        false
    }

    /// Appends `child` to the children of `parent`. Refused (and nothing changes)
    /// when `parent` cannot hold children or when `child` is `parent` itself or one
    /// of its ancestors, since the append would then close a cycle.
    pub fn append_child(&mut self, parent: NodeId, child: NodeId) -> (appended: bool)
        requires
            old(self).wf(),
            parent < old(self).nodes@.len(),
            child < old(self).nodes@.len(),
        ensures
            final(self).wf(),
            final(self).root == old(self).root,
            appended == (is_container(old(self).view_nodes()[parent as int]) && !reaches(
                old(self).view_nodes(),
                child,
                parent,
                old(self).nodes@.len() as nat,
            )),
            appended ==> final(self).view_nodes() == old(self).view_nodes().update(
                parent as int,
                with_children(
                    old(self).view_nodes()[parent as int],
                    children_of(old(self).view_nodes()[parent as int]).push(child),
                ),
            ),
            !appended ==> final(self).view_nodes() == old(self).view_nodes(),
            acyclic(old(self).view_nodes()) ==> acyclic(final(self).view_nodes()),
    {
        let ghost before = self.view_nodes();
        assert(before[parent as int] == self.nodes@[parent as int]@);
        let container = match &self.nodes[parent] {
            DomNode::Document { .. } => true,
            DomNode::Element { .. } => true,
            _ => false,
        };
        if !container {
            return false;
        }
        let n = self.nodes.len();
        if self.subtree_contains(child, parent, n) {
            return false;
        }
        let mut node = self.nodes.remove(parent);
        match &mut node {
            DomNode::Document { children } => children.push(child),
            DomNode::Element { children, .. } => children.push(child),
            _ => {},
        }
        self.nodes.insert(parent, node);
        proof {
            let after = self.view_nodes();
            let expect = before.update(
                parent as int,
                with_children(before[parent as int], children_of(before[parent as int]).push(child)),
            );
            assert(after =~= expect);
            if acyclic(before) {
                lemma_append_keeps_acyclic(before, parent, child);
            }
            assert forall|i: int, j: int|
                0 <= i < after.len() && 0 <= j < children_of(after[i]).len() implies #[trigger] children_of(
                after[i],
            )[j] < after.len() by {
                if i != parent {
                    assert(children_of(after[i]) == children_of(before[i]));
                } else if j < children_of(before[i]).len() {
                    assert(children_of(after[i])[j] == children_of(before[i])[j]);
                }
            }
        }
        true
    }

    /// Removes every occurrence of `child` from the children of `parent`.
    pub fn remove_child(&mut self, parent: NodeId, child: NodeId)
        requires
            old(self).wf(),
            parent < old(self).nodes@.len(),
        ensures
            final(self).wf(),
            final(self).root == old(self).root,
            final(self).view_nodes() == old(self).view_nodes().update(
                parent as int,
                with_children(
                    old(self).view_nodes()[parent as int],
                    without(children_of(old(self).view_nodes()[parent as int]), child),
                ),
            ),
            acyclic(old(self).view_nodes()) ==> acyclic(final(self).view_nodes()),
    {
        let ghost before = self.view_nodes();
        assert(before[parent as int] == self.nodes@[parent as int]@);
        let mut node = self.nodes.remove(parent);
        match &mut node {
            DomNode::Document { children } => {
                let kept = retain_other(children, child);
                *children = kept;
            },
            DomNode::Element { children, .. } => {
                let kept = retain_other(children, child);
                *children = kept;
            },
            _ => {},
        }
        self.nodes.insert(parent, node);
        proof {
            let after = self.view_nodes();
            let expect = before.update(
                parent as int,
                with_children(
                    before[parent as int],
                    without(children_of(before[parent as int]), child),
                ),
            );
            assert(after =~= expect);
            assert forall|i: int, j: int|
                0 <= i < after.len() && 0 <= j < children_of(after[i]).len() implies #[trigger] children_of(
                after[i],
            )[j] < after.len() by {
                if i != parent {
                    assert(children_of(after[i]) == children_of(before[i]));
                } else {
                    let c = children_of(before[i]);
                    assert forall|m: int| 0 <= m < c.len() implies c[m] < after.len() by {
                        assert(children_of(before[i])[m] < before.len());
                    }
                    lemma_without_bounded(c, child, after.len() as nat);
                }
            }
            if acyclic(before) {
                assert forall|a: NodeId, b: NodeId| #[trigger] edge(after, a, b) implies edge(before, a, b) by {
                    if a != parent {
                        assert(children_of(after[a as int]) == children_of(before[a as int]));
                    } else if is_container(before[a as int]) {
                        lemma_without_subset(children_of(before[a as int]), child, b);
                    }
                }
                lemma_fewer_edges_keep_acyclic(before, after);
            }
        }
    }

    /// Replaces the node with a text node holding `text`.
    pub fn set_text(&mut self, node: NodeId, text: &str)
        requires
            old(self).wf(),
            node < old(self).nodes@.len(),
        ensures
            final(self).wf(),
            final(self).root == old(self).root,
            final(self).view_nodes() == old(self).view_nodes().update(
                node as int,
                NodeView::Text { content: text@ },
            ),
            acyclic(old(self).view_nodes()) ==> acyclic(final(self).view_nodes()),
    {
        let ghost before = self.view_nodes();
        self.nodes.set(node, DomNode::Text { content: String::from_str(text) });
        proof {
            let after = self.view_nodes();
            assert(after =~= before.update(node as int, NodeView::Text { content: text@ }));
            assert forall|i: int, j: int|
                0 <= i < after.len() && 0 <= j < children_of(after[i]).len() implies #[trigger] children_of(
                after[i],
            )[j] < after.len() by {
                assert(children_of(after[i]) == children_of(before[i]));
            }
            if acyclic(before) {
                assert forall|a: NodeId, b: NodeId| #[trigger] edge(after, a, b) implies edge(before, a, b) by {
                    assert(a != node);
                    assert(children_of(after[a as int]) == children_of(before[a as int]));
                }
                lemma_fewer_edges_keep_acyclic(before, after);
            }
        }
    }
}

/// `v` without any occurrence of `x`.
pub(crate) fn retain_other(v: &Vec<NodeId>, x: NodeId) -> (r: Vec<NodeId>)
    ensures
        r@ == without(v@, x),
{
    let mut r: Vec<NodeId> = Vec::new();
    let mut i: usize = 0;
    while i < v.len()
        invariant
            i <= v.len(),
            r@ == without(v@.take(i as int), x),
        decreases v.len() - i,
    {
        assert(v@.take(i + 1).drop_last() =~= v@.take(i as int));
        if v[i] != x {
            r.push(v[i]);
        }
        i += 1;
    }
    assert(v@.take(v.len() as int) =~= v@);
    r
}

} // verus!
