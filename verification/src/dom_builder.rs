//! Incremental construction of a document, driven by the callbacks of an HTML
//! tree builder: nodes are created, appended, moved and finally frozen into a
//! `DomTree`.

use vstd::prelude::*;
use crate::dom::{DomNode, DomTree, NodeId, NodeView, nodes_view, children_of, children_in_bounds};

verus! {

/// A node under construction.
#[derive(Debug, Clone)]
pub enum BuildNode {
    Document,
    Element { tag: String, attrs: Vec<(String, String)> },
    Text(String),
    Comment(String),
    Doctype { name: String, public_id: String, system_id: String },
    ProcessingInstruction { target: String, data: String },
}

/// A node with its place in the tree.
#[derive(Debug, Clone)]
pub struct BuildEntry {
    pub node: BuildNode,
    pub children: Vec<NodeId>,
    pub parent: Option<NodeId>,
}

/// What the tree builder appends: an existing node or a piece of text.
#[derive(Debug, Clone)]
pub enum Appendee {
    Node(NodeId),
    Text(String),
}

pub enum BuildNodeView {
    Document,
    Element { tag: Seq<char>, attrs: Seq<(Seq<char>, Seq<char>)> },
    Text(Seq<char>),
    Comment(Seq<char>),
    Doctype { name: Seq<char>, public_id: Seq<char>, system_id: Seq<char> },
    ProcessingInstruction { target: Seq<char>, data: Seq<char> },
}

pub struct EntryView {
    pub node: BuildNodeView,
    pub children: Seq<NodeId>,
    pub parent: Option<NodeId>,
}

impl View for BuildNode {
    type V = BuildNodeView;

    open spec fn view(&self) -> BuildNodeView {
        match self {
            BuildNode::Document => BuildNodeView::Document,
            BuildNode::Element { tag, attrs } => BuildNodeView::Element {
                tag: tag@,
                attrs: crate::dom::attrs_view(attrs@),
            },
            BuildNode::Text(t) => BuildNodeView::Text(t@),
            BuildNode::Comment(t) => BuildNodeView::Comment(t@),
            BuildNode::Doctype { name, public_id, system_id } => BuildNodeView::Doctype {
                name: name@,
                public_id: public_id@,
                system_id: system_id@,
            },
            BuildNode::ProcessingInstruction { target, data } => BuildNodeView::ProcessingInstruction {
                target: target@,
                data: data@,
            },
        }
    }
}

impl View for BuildEntry {
    type V = EntryView;

    open spec fn view(&self) -> EntryView {
        EntryView { node: self.node@, children: self.children@, parent: self.parent }
    }
}

/// The document under construction; the document node is entry 0.
#[derive(Debug)]
pub struct DomBuilder {
    pub entries: Vec<BuildEntry>,
    pub errors: Vec<String>,
}

pub open spec fn entries_view(e: Seq<BuildEntry>) -> Seq<EntryView> {
    e.map_values(|x: BuildEntry| x@)
}

/// `i` is the first index of an attribute named `name`.
pub open spec fn first_named(attrs: Seq<(Seq<char>, Seq<char>)>, name: Seq<char>, i: int) -> bool {
    &&& 0 <= i < attrs.len()
    &&& attrs[i].0 == name
    &&& forall|j: int| 0 <= j < i ==> attrs[j].0 != name
}

/// `attrs` with `(name, value)` set: an existing entry of that name takes the
/// value, otherwise the pair is added at the end.
pub open spec fn attrs_set(attrs: Seq<(Seq<char>, Seq<char>)>, name: Seq<char>, value: Seq<char>) -> Seq<(Seq<char>, Seq<char>)> {
    if exists|i: int| first_named(attrs, name, i) {
        let i = choose|i: int| first_named(attrs, name, i);
        attrs.update(i, (name, value))
    } else {
        attrs.push((name, value))
    }
}

/// The attribute list of a new element: the given pairs in order, a repeated name
/// keeping its first position and taking its last value.
pub open spec fn attrs_from(pairs: Seq<(Seq<char>, Seq<char>)>) -> Seq<(Seq<char>, Seq<char>)>
    decreases pairs.len(),
{
    if pairs.len() == 0 {
        Seq::empty()
    } else {
        attrs_set(attrs_from(pairs.drop_last()), pairs.last().0, pairs.last().1)
    }
}

/// `attrs` with the pairs of `pairs` whose names it lacks added, in order.
pub open spec fn attrs_add_missing(attrs: Seq<(Seq<char>, Seq<char>)>, pairs: Seq<(Seq<char>, Seq<char>)>) -> Seq<(Seq<char>, Seq<char>)>
    decreases pairs.len(),
{
    if pairs.len() == 0 {
        attrs
    } else {
        let a = attrs_add_missing(attrs, pairs.drop_last());
        let p = pairs.last();
        if exists|i: int| 0 <= i < a.len() && a[i].0 == p.0 {
            a
        } else {
            a.push(p)
        }
    }
}

/// `i` is the first index of `x` in `s`.
pub open spec fn first_at(s: Seq<NodeId>, x: NodeId, i: int) -> bool {
    0 <= i < s.len() && s[i] == x && forall|j: int| 0 <= j < i ==> s[j] != x
}

/// The first index of `x` in `s`.
pub open spec fn position_of(s: Seq<NodeId>, x: NodeId) -> Option<int> {
    if exists|i: int| first_at(s, x, i) {
        Some(choose|i: int| first_at(s, x, i))
    } else {
        None
    }
}

/// `s` with `x` inserted before the first occurrence of `before`, or at the end.
pub open spec fn insert_before(s: Seq<NodeId>, before: NodeId, x: NodeId) -> Seq<NodeId> {
    match position_of(s, before) {
        Some(i) => s.insert(i, x),
        None => s.push(x),
    }
}

impl DomBuilder {
    pub open spec fn view_entries(&self) -> Seq<EntryView> {
        entries_view(self.entries@)
    }

    /// Entry 0 is the document, and every child and parent index is in bounds.
    pub open spec fn wf(&self) -> bool {
        let e = self.view_entries();
        &&& e.len() >= 1
        &&& e[0].node is Document
        &&& forall|i: int, j: int|
            0 <= i < e.len() && 0 <= j < e[i].children.len() ==> #[trigger] e[i].children[j] < e.len()
        &&& forall|i: int|
            0 <= i < e.len() ==> (#[trigger] e[i].parent matches Some(p) ==> p < e.len())
    }

    /// A builder holding only the document node.
    pub fn new() -> (b: DomBuilder)
        ensures
            b.wf(),
            b.view_entries().len() == 1,
            b.view_entries()[0].children.len() == 0,
            b.view_entries()[0].parent is None,
            b.errors@.len() == 0,
    {
        let mut entries: Vec<BuildEntry> = Vec::new();
        entries.push(BuildEntry { node: BuildNode::Document, children: Vec::new(), parent: None });
        let b = DomBuilder { entries, errors: Vec::new() };
        assert(b.view_entries()[0] == b.entries@[0]@);
        b
    }

    /// The document node.
    pub fn document(&self) -> (d: NodeId)
        ensures
            d == 0,
    {
        0
    }

    /// The number of nodes created so far (the document included); the handles
    /// this builder hands out are below it.
    pub fn node_count(&self) -> (n: usize)
        ensures
            n == self.view_entries().len(),
    {
        self.entries.len()
    }

    /// Records a parse error.
    pub fn parse_error(&mut self, msg: String)
        ensures
            final(self).entries == old(self).entries,
            final(self).errors@ == old(self).errors@.push(msg),
    {
        self.errors.push(msg);
    }

    fn add_entry(&mut self, node: BuildNode) -> (id: NodeId)
        requires
            old(self).wf(),
        ensures
            final(self).wf(),
            id == old(self).view_entries().len(),
            final(self).view_entries() == old(self).view_entries().push(
                EntryView { node: node@, children: Seq::empty(), parent: None },
            ),
            final(self).errors == old(self).errors,
    {
        let ghost before = self.view_entries();
        let id = self.entries.len();
        self.entries.push(BuildEntry { node, children: Vec::new(), parent: None });
        proof {
            let after = self.view_entries();
            assert(after =~= before.push(EntryView { node: node@, children: Seq::empty(), parent: None }));
            assert forall|i: int, j: int|
                0 <= i < after.len() && 0 <= j < after[i].children.len() implies #[trigger] after[i].children[j] < after.len() by {
                if i < before.len() {
                    assert(after[i] == before[i]);
                }
            }
            assert forall|i: int| 0 <= i < after.len() implies (#[trigger] after[i].parent matches Some(p) ==> p < after.len()) by {
                if i < before.len() {
                    assert(after[i] == before[i]);
                }
            }
        }
        id
    }

    /// A new, unattached element. Attributes keep the order in which their names
    /// first occur; a repeated name takes its last value.
    pub fn create_element(&mut self, tag: String, attrs: Vec<(String, String)>) -> (id: NodeId)
        requires
            old(self).wf(),
        ensures
            final(self).wf(),
            id == old(self).view_entries().len(),
            final(self).view_entries() == old(self).view_entries().push(
                EntryView {
                    node: BuildNodeView::Element {
                        tag: tag@,
                        attrs: attrs_from(crate::dom::attrs_view(attrs@)),
                    },
                    children: Seq::empty(),
                    parent: None,
                },
            ),
            final(self).errors == old(self).errors,
    {
        let mut list: Vec<(String, String)> = Vec::new();
        let mut i: usize = 0;
        let ghost pairs = crate::dom::attrs_view(attrs@);
        while i < attrs.len()
            invariant
                i <= attrs@.len(),
                pairs == crate::dom::attrs_view(attrs@),
                crate::dom::attrs_view(list@) == attrs_from(pairs.take(i as int)),
            decreases attrs.len() - i,
        {
            assert(pairs.take(i + 1).drop_last() =~= pairs.take(i as int));
            let (name, value) = (attrs[i].0.clone(), attrs[i].1.clone());
            set_attr(&mut list, name, value);
            i += 1;
        }
        assert(pairs.take(attrs.len() as int) =~= pairs);
        self.add_entry(BuildNode::Element { tag, attrs: list })
    }

    /// A new, unattached comment.
    pub fn create_comment(&mut self, text: String) -> (id: NodeId)
        requires
            old(self).wf(),
        ensures
            final(self).wf(),
            id == old(self).view_entries().len(),
            final(self).view_entries() == old(self).view_entries().push(
                EntryView { node: BuildNodeView::Comment(text@), children: Seq::empty(), parent: None },
            ),
            final(self).errors == old(self).errors,
    {
        self.add_entry(BuildNode::Comment(text))
    }

    /// A new, unattached processing instruction.
    pub fn create_pi(&mut self, target: String, data: String) -> (id: NodeId)
        requires
            old(self).wf(),
        ensures
            final(self).wf(),
            id == old(self).view_entries().len(),
            final(self).view_entries() == old(self).view_entries().push(
                EntryView {
                    node: BuildNodeView::ProcessingInstruction { target: target@, data: data@ },
                    children: Seq::empty(),
                    parent: None,
                },
            ),
            final(self).errors == old(self).errors,
    {
        self.add_entry(BuildNode::ProcessingInstruction { target, data })
    }

    /// Appends the existing node `child` under `parent`.
    pub fn append_node(&mut self, parent: NodeId, child: NodeId)
        requires
            old(self).wf(),
            parent < old(self).view_entries().len(),
            child < old(self).view_entries().len(),
        ensures
            final(self).wf(),
            final(self).errors == old(self).errors,
            final(self).view_entries() == ({
                let e = old(self).view_entries();
                let e1 = e.update(child as int, EntryView { parent: Some(parent), ..e[child as int] });
                e1.update(parent as int, EntryView { children: e1[parent as int].children.push(child), ..e1[parent as int] })
            }),
    {
        let ghost e = self.view_entries();
        let mut c = self.entries.remove(child);
        c.parent = Some(parent);
        self.entries.insert(child, c);
        let ghost e1 = self.view_entries();
        assert(e1 =~= e.update(child as int, EntryView { parent: Some(parent), ..e[child as int] }));
        let mut p = self.entries.remove(parent);
        p.children.push(child);
        self.entries.insert(parent, p);
        proof {
            let after = self.view_entries();
            assert(after =~= e1.update(parent as int, EntryView { children: e1[parent as int].children.push(child), ..e1[parent as int] }));
            self.lemma_wf_after_update(e, after);
        }
    }

    proof fn lemma_wf_after_update(&self, e: Seq<EntryView>, after: Seq<EntryView>)
        requires
            after == self.view_entries(),
            e.len() == after.len(),
            e.len() >= 1,
            e[0].node is Document,
            after[0].node == e[0].node,
            forall|i: int| 0 <= i < after.len() ==> forall|j: int|
                0 <= j < #[trigger] after[i].children.len() ==> after[i].children[j] < after.len(),
            forall|i: int| 0 <= i < after.len() ==> (#[trigger] after[i].parent matches Some(p) ==> p < after.len()),
        ensures
            self.wf(),
    {
    }
}

/// Sets `name` to `value` in `list`, keeping the position of an existing entry.
fn set_attr(list: &mut Vec<(String, String)>, name: String, value: String)
    ensures
        crate::dom::attrs_view(final(list)@) == attrs_set(crate::dom::attrs_view(old(list)@), name@, value@),
{
    let ghost av = crate::dom::attrs_view(list@);
    let mut i: usize = 0;
    while i < list.len()
        invariant
            i <= list@.len(),
            av == crate::dom::attrs_view(list@),
            av == crate::dom::attrs_view(old(list)@),
            forall|j: int| 0 <= j < i ==> av[j].0 != name@,
        decreases list.len() - i,
    {
        if list[i].0 == name {
            let ghost nv = name@;
            let ghost vv = value@;
            list.set(i, (name, value));
            proof {
                assert(av[i as int].0 == nv);
                assert(first_named(av, nv, i as int));
                let k = choose|k: int| first_named(av, nv, k);
                assert(k == i) by {
                    if k < i {
                        assert(av[k].0 != nv);
                    }
                    if k > i {
                        assert(av[i as int].0 != nv);
                    }
                }
                assert(crate::dom::attrs_view(list@) =~= av.update(i as int, (nv, vv)));
                assert(attrs_set(av, nv, vv) == av.update(i as int, (nv, vv)));
            }
            return;
        }
        i += 1;
    }
    let ghost nv = name@;
    let ghost vv = value@;
    list.push((name, value));
    assert(crate::dom::attrs_view(list@) =~= av.push((nv, vv)));
}


/// The text of `e[i]` if it is a text node.
pub open spec fn is_text_entry(e: Seq<EntryView>, i: int) -> bool {
    0 <= i < e.len() && e[i].node is Text
}

/// Entries after appending the text `t` under `parent`: it joins a text node that
/// is the last child of `parent`, or becomes a new text node appended there.
pub open spec fn after_append_text(e: Seq<EntryView>, parent: NodeId, t: Seq<char>) -> Seq<EntryView> {
    let cs = e[parent as int].children;
    if cs.len() > 0 && is_text_entry(e, cs.last() as int) {
        let last = cs.last() as int;
        e.update(last, EntryView { node: BuildNodeView::Text(e[last].node->Text_0 + t), ..e[last] })
    } else {
        let id = e.len() as NodeId;
        let e1 = e.push(EntryView { node: BuildNodeView::Text(t), children: Seq::empty(), parent: Some(parent) });
        e1.update(parent as int, EntryView { children: e1[parent as int].children.push(id), ..e1[parent as int] })
    }
}

/// Entries after putting `x` (already in bounds) before `sibling` under its parent.
pub open spec fn after_insert_node(e: Seq<EntryView>, p: NodeId, sibling: NodeId, x: NodeId) -> Seq<EntryView> {
    let e1 = e.update(x as int, EntryView { parent: Some(p), ..e[x as int] });
    e1.update(p as int, EntryView { children: insert_before(e1[p as int].children, sibling, x), ..e1[p as int] })
}

/// Entries with the parent of every node of `cs` set to `p`.
pub open spec fn with_parent(e: Seq<EntryView>, cs: Seq<NodeId>, p: NodeId) -> Seq<EntryView> {
    Seq::new(e.len(), |i: int| if cs.contains(i as NodeId) { EntryView { parent: Some(p), ..e[i] } } else { e[i] })
}

/// The frozen form of a node under construction.
pub open spec fn freeze(x: EntryView) -> NodeView {
    match x.node {
        BuildNodeView::Document => NodeView::Document { children: x.children },
        BuildNodeView::Element { tag, attrs } => NodeView::Element { tag, attrs, children: x.children },
        BuildNodeView::Text(t) => NodeView::Text { content: t },
        BuildNodeView::Comment(t) => NodeView::Comment { content: t },
        BuildNodeView::Doctype { name, public_id, system_id } => NodeView::DocumentType { name, public_id, system_id },
        BuildNodeView::ProcessingInstruction { .. } => NodeView::Comment { content: Seq::empty() },
    }
}

impl DomBuilder {
    /// Appends the text `t` under `parent`, joining a trailing text node.
    pub fn append_text(&mut self, parent: NodeId, t: String)
        requires
            old(self).wf(),
            parent < old(self).view_entries().len(),
        ensures
            final(self).wf(),
            final(self).errors == old(self).errors,
            final(self).view_entries() == after_append_text(old(self).view_entries(), parent, t@),
    {
        let ghost e = self.view_entries();
        assert(e[parent as int] == self.entries@[parent as int]@);
        let n = self.entries[parent].children.len();
        if n > 0 {
            let last = self.entries[parent].children[n - 1];
            assert(e[parent as int].children[n - 1] == last);
            assert(last < e.len());
            assert(e[last as int] == self.entries@[last as int]@);
            let is_text = match &self.entries[last].node {
                BuildNode::Text(_) => true,
                _ => false,
            };
            if is_text {
                let mut entry = self.entries.remove(last);
                match &mut entry.node {
                    BuildNode::Text(existing) => {
                        existing.append(t.as_str());
                    },
                    _ => {},
                }
                self.entries.insert(last, entry);
                proof {
                    let after = self.view_entries();
                    assert(after =~= after_append_text(e, parent, t@));
                    self.lemma_wf_after_update(e, after);
                }
                return;
            }
        }
        let ghost tv = t@;
        let id = self.entries.len();
        self.entries.push(BuildEntry { node: BuildNode::Text(t), children: Vec::new(), parent: Some(parent) });
        let ghost e1 = self.view_entries();
        assert(e1 =~= e.push(EntryView { node: BuildNodeView::Text(tv), children: Seq::empty(), parent: Some(parent) }));
        let mut p = self.entries.remove(parent);
        p.children.push(id);
        self.entries.insert(parent, p);
        proof {
            let after = self.view_entries();
            assert(after =~= after_append_text(e, parent, tv));
            assert forall|i: int| 0 <= i < after.len() implies forall|j: int|
                0 <= j < #[trigger] after[i].children.len() ==> after[i].children[j] < after.len() by {
                if i < e.len() && i != parent {
                    assert(after[i] == e[i]);
                }
            }
            self.lemma_wf_after_update(e1, after);
        }
    }

    /// Appends a node or a piece of text under `parent`.
    pub fn append(&mut self, parent: NodeId, child: Appendee)
        requires
            old(self).wf(),
            parent < old(self).view_entries().len(),
            child matches Appendee::Node(n) ==> n < old(self).view_entries().len(),
        ensures
            final(self).wf(),
            final(self).errors == old(self).errors,
            final(self).view_entries() == (match child {
                Appendee::Node(n) => {
                    let e = old(self).view_entries();
                    let e1 = e.update(n as int, EntryView { parent: Some(parent), ..e[n as int] });
                    e1.update(parent as int, EntryView { children: e1[parent as int].children.push(n), ..e1[parent as int] })
                },
                Appendee::Text(t) => after_append_text(old(self).view_entries(), parent, t@),
            }),
    {
        match child {
            Appendee::Node(n) => self.append_node(parent, n),
            Appendee::Text(t) => self.append_text(parent, t),
        }
    }

    /// Appends `child` under `prev_element` when `element` has a parent, else under `element`.
    pub fn append_based_on_parent_node(&mut self, element: NodeId, prev_element: NodeId, child: Appendee)
        requires
            old(self).wf(),
            element < old(self).view_entries().len(),
            prev_element < old(self).view_entries().len(),
            child matches Appendee::Node(n) ==> n < old(self).view_entries().len(),
        ensures
            final(self).wf(),
            final(self).errors == old(self).errors,
            ({
                let e = old(self).view_entries();
                let target = if e[element as int].parent is Some { prev_element } else { element };
                final(self).view_entries() == (match child {
                    Appendee::Node(n) => {
                        let e1 = e.update(n as int, EntryView { parent: Some(target), ..e[n as int] });
                        e1.update(target as int, EntryView { children: e1[target as int].children.push(n), ..e1[target as int] })
                    },
                    Appendee::Text(t) => after_append_text(e, target, t@),
                })
            }),
    {
        assert(self.view_entries()[element as int] == self.entries@[element as int]@);
        if self.entries[element].parent.is_some() {
            self.append(prev_element, child);
        } else {
            self.append(element, child);
        }
    }

    /// Appends a document type node to the document.
    pub fn append_doctype_to_document(&mut self, name: String, public_id: String, system_id: String)
        requires
            old(self).wf(),
        ensures
            final(self).wf(),
            final(self).errors == old(self).errors,
            final(self).view_entries() == ({
                let e = old(self).view_entries();
                let id = e.len() as NodeId;
                let e1 = e.push(EntryView {
                    node: BuildNodeView::Doctype { name: name@, public_id: public_id@, system_id: system_id@ },
                    children: Seq::empty(),
                    parent: Some(0),
                });
                e1.update(0, EntryView { children: e1[0].children.push(id), ..e1[0] })
            }),
    {
        let ghost e = self.view_entries();
        let ghost nv = BuildNodeView::Doctype { name: name@, public_id: public_id@, system_id: system_id@ };
        let id = self.entries.len();
        self.entries.push(BuildEntry {
            node: BuildNode::Doctype { name, public_id, system_id },
            children: Vec::new(),
            parent: Some(0),
        });
        let ghost e1 = self.view_entries();
        assert(e1 =~= e.push(EntryView { node: nv, children: Seq::empty(), parent: Some(0) }));
        let mut d = self.entries.remove(0);
        d.children.push(id);
        self.entries.insert(0, d);
        proof {
            let after = self.view_entries();
            assert(after =~= e1.update(0, EntryView { children: e1[0].children.push(id), ..e1[0] }));
            assert forall|i: int| 0 <= i < after.len() implies forall|j: int|
                0 <= j < #[trigger] after[i].children.len() ==> after[i].children[j] < after.len() by {
                if 0 < i < e.len() {
                    assert(after[i] == e[i]);
                }
            }
            self.lemma_wf_after_update(e1, after);
        }
    }

    /// The contents of a template element: the element itself.
    pub fn get_template_contents(&self, target: NodeId) -> (r: NodeId)
        ensures
            r == target,
    {
        target
    }

    /// Whether two handles name the same node.
    pub fn same_node(&self, x: NodeId, y: NodeId) -> (r: bool)
        ensures
            r == (x == y),
    {
        x == y
    }

    /// The tag of an element; empty for other nodes.
    pub fn elem_name(&self, target: NodeId) -> (r: &str)
        requires
            target < self.view_entries().len(),
        ensures
            match self.view_entries()[target as int].node {
                BuildNodeView::Element { tag, .. } => r@ == tag,
                _ => r@ == Seq::<char>::empty(),
            },
    {
        assert(self.view_entries()[target as int] == self.entries@[target as int]@);
        match &self.entries[target].node {
            BuildNode::Element { tag, .. } => tag.as_str(),
            _ => {
                proof { reveal_strlit(""); }
                ""
            },
        }
    }

    /// Detaches `target` from its parent, if it has one.
    pub fn remove_from_parent(&mut self, target: NodeId)
        requires
            old(self).wf(),
            target < old(self).view_entries().len(),
        ensures
            final(self).wf(),
            final(self).errors == old(self).errors,
            final(self).view_entries() == ({
                let e = old(self).view_entries();
                match e[target as int].parent {
                    Some(p) => {
                        let e1 = e.update(p as int, EntryView { children: crate::dom::without(e[p as int].children, target), ..e[p as int] });
                        e1.update(target as int, EntryView { parent: None, ..e1[target as int] })
                    },
                    None => e,
                }
            }),
    {
        let ghost e = self.view_entries();
        assert(e[target as int] == self.entries@[target as int]@);
        match self.entries[target].parent {
            Some(p) => {
                assert(p < e.len());
                let mut pe = self.entries.remove(p);
                let kept = crate::dom::retain_other(&pe.children, target);
                pe.children = kept;
                self.entries.insert(p, pe);
                let ghost e1 = self.view_entries();
                assert(e1 =~= e.update(p as int, EntryView { children: crate::dom::without(e[p as int].children, target), ..e[p as int] }));
                let mut te = self.entries.remove(target);
                te.parent = None;
                self.entries.insert(target, te);
                proof {
                    let after = self.view_entries();
                    assert(after =~= e1.update(target as int, EntryView { parent: None, ..e1[target as int] }));
                    assert forall|i: int| 0 <= i < after.len() implies forall|j: int|
                        0 <= j < #[trigger] after[i].children.len() ==> after[i].children[j] < after.len() by {
                        if i == p {
                            assert forall|m: int| 0 <= m < e[p as int].children.len() implies e[p as int].children[m] < after.len() by {
                                assert(e[p as int].children[m] < e.len());
                            }
                            crate::dom::lemma_without_bounded(e[p as int].children, target, after.len() as nat);
                        } else {
                            assert(after[i].children == e[i].children);
                        }
                    }
                    self.lemma_wf_after_update(e, after);
                }
            },
            None => {},
        }
    }

    /// Adds to an element the attributes whose names it does not have yet.
    pub fn add_attrs_if_missing(&mut self, target: NodeId, attrs: Vec<(String, String)>)
        requires
            old(self).wf(),
            target < old(self).view_entries().len(),
        ensures
            final(self).wf(),
            final(self).errors == old(self).errors,
            final(self).view_entries() == ({
                let e = old(self).view_entries();
                match e[target as int].node {
                    BuildNodeView::Element { tag, attrs: existing } => e.update(
                        target as int,
                        EntryView {
                            node: BuildNodeView::Element {
                                tag,
                                attrs: attrs_add_missing(existing, crate::dom::attrs_view(attrs@)),
                            },
                            ..e[target as int]
                        },
                    ),
                    _ => e,
                }
            }),
    {
        let ghost e = self.view_entries();
        assert(e[target as int] == self.entries@[target as int]@);
        let mut entry = self.entries.remove(target);
        match &mut entry.node {
            BuildNode::Element { attrs: existing, .. } => {
                let ghost pairs = crate::dom::attrs_view(attrs@);
                let ghost start = crate::dom::attrs_view(existing@);
                let mut i: usize = 0;
                while i < attrs.len()
                    invariant
                        i <= attrs@.len(),
                        pairs == crate::dom::attrs_view(attrs@),
                        crate::dom::attrs_view(existing@) == attrs_add_missing(start, pairs.take(i as int)),
                    decreases attrs.len() - i,
                {
                    assert(pairs.take(i + 1).drop_last() =~= pairs.take(i as int));
                    let ghost cur = crate::dom::attrs_view(existing@);
                    let mut k: usize = 0;
                    let mut found = false;
                    while k < existing.len()
                        invariant
                            i < attrs@.len(),
                            k <= existing@.len(),
                            cur == crate::dom::attrs_view(existing@),
                            found ==> exists|m: int| 0 <= m < cur.len() && cur[m].0 == attrs@[i as int].0@,
                            !found ==> forall|m: int| 0 <= m < k ==> cur[m].0 != attrs@[i as int].0@,
                        decreases existing.len() - k,
                    {
                        if existing[k].0 == attrs[i].0 {
                            assert(cur[k as int].0 == attrs@[i as int].0@);
                            found = true;
                        }
                        k += 1;
                    }
                    if !found {
                        existing.push((attrs[i].0.clone(), attrs[i].1.clone()));
                        assert(crate::dom::attrs_view(existing@) =~= cur.push(pairs[i as int]));
                    }
                    i += 1;
                }
                assert(pairs.take(attrs.len() as int) =~= pairs);
            },
            _ => {},
        }
        self.entries.insert(target, entry);
        proof {
            let after = self.view_entries();
            assert(after =~= (match e[target as int].node {
                BuildNodeView::Element { tag, attrs: existing } => e.update(
                    target as int,
                    EntryView {
                        node: BuildNodeView::Element {
                            tag,
                            attrs: attrs_add_missing(existing, crate::dom::attrs_view(attrs@)),
                        },
                        ..e[target as int]
                    },
                ),
                _ => e,
            }));
            self.lemma_wf_after_update(e, after);
        }
    }

    /// Puts a node or a new text node just before `sibling` among the children of
    /// its parent (at the end when `sibling` is not found there); nothing happens
    /// when `sibling` has no parent.
    pub fn append_before_sibling(&mut self, sibling: NodeId, new_node: Appendee)
        requires
            old(self).wf(),
            sibling < old(self).view_entries().len(),
            new_node matches Appendee::Node(n) ==> n < old(self).view_entries().len(),
        ensures
            final(self).wf(),
            final(self).errors == old(self).errors,
            final(self).view_entries() == ({
                let e = old(self).view_entries();
                match e[sibling as int].parent {
                    None => e,
                    Some(p) => match new_node {
                        Appendee::Node(x) => after_insert_node(e, p, sibling, x),
                        Appendee::Text(t) => after_insert_node(
                            e.push(EntryView { node: BuildNodeView::Text(t@), children: Seq::empty(), parent: None }),
                            p,
                            sibling,
                            e.len() as NodeId,
                        ),
                    },
                }
            }),
    {
        let ghost e = self.view_entries();
        assert(e[sibling as int] == self.entries@[sibling as int]@);
        let p = match self.entries[sibling].parent {
            Some(p) => p,
            None => return,
        };
        assert(p < e.len());
        let x = match new_node {
            Appendee::Node(x) => x,
            Appendee::Text(t) => {
                let ghost tv = t@;
                let id = self.add_entry(BuildNode::Text(t));
                assert(self.view_entries() =~= e.push(EntryView { node: BuildNodeView::Text(tv), children: Seq::empty(), parent: None }));
                id
            },
        };
        self.insert_node_before(p, sibling, x);
    }

    fn insert_node_before(&mut self, p: NodeId, sibling: NodeId, x: NodeId)
        requires
            old(self).wf(),
            p < old(self).view_entries().len(),
            x < old(self).view_entries().len(),
        ensures
            final(self).wf(),
            final(self).errors == old(self).errors,
            final(self).view_entries() == after_insert_node(old(self).view_entries(), p, sibling, x),
    {
        let ghost e = self.view_entries();
        let mut xe = self.entries.remove(x);
        xe.parent = Some(p);
        self.entries.insert(x, xe);
        let ghost e1 = self.view_entries();
        assert(e1 =~= e.update(x as int, EntryView { parent: Some(p), ..e[x as int] }));
        let mut pe = self.entries.remove(p);
        assert(pe@ == e1[p as int]);
        let ghost cs = pe.children@;
        let mut k: usize = 0;
        while k < pe.children.len() && pe.children[k] != sibling
            invariant
                k <= pe.children@.len(),
                pe.children@ == cs,
                forall|m: int| 0 <= m < k ==> cs[m] != sibling,
            decreases pe.children.len() - k,
        {
            k += 1;
        }
        proof {
            if k < cs.len() {
                assert(first_at(cs, sibling, k as int));
                let i = choose|i: int| first_at(cs, sibling, i);
                assert(i == k) by {
                    if i < k {
                        assert(cs[i] != sibling);
                    }
                    if i > k {
                        assert(cs[k as int] != sibling);
                    }
                }
                assert(insert_before(cs, sibling, x) == cs.insert(k as int, x));
            } else {
                assert(!exists|i: int| first_at(cs, sibling, i));
                assert(insert_before(cs, sibling, x) == cs.push(x));
            }
        }
        if k < pe.children.len() {
            pe.children.insert(k, x);
        } else {
            pe.children.push(x);
        }
        self.entries.insert(p, pe);
        proof {
            let after = self.view_entries();
            assert(after =~= after_insert_node(e, p, sibling, x));
            assert forall|i: int| 0 <= i < after.len() implies forall|j: int|
                0 <= j < #[trigger] after[i].children.len() ==> after[i].children[j] < after.len() by {
                if i == p {
                    assert forall|j: int| 0 <= j < after[i].children.len() implies after[i].children[j] < after.len() by {
                        let c = insert_before(cs, sibling, x);
                        assert forall|m: int| 0 <= m < cs.len() implies cs[m] < e.len() by {
                            assert(e[p as int].children[m] == cs[m]);
                        }
                        if k < cs.len() {
                            assert(c == cs.insert(k as int, x));
                            if j < k {
                                assert(c[j] == cs[j]);
                            } else if j > k {
                                assert(c[j] == cs[j - 1]);
                            }
                        } else {
                            assert(c == cs.push(x));
                            if j < cs.len() {
                                assert(c[j] == cs[j]);
                            }
                        }
                    }
                } else {
                    assert(after[i].children == e[i].children);
                }
            }
            self.lemma_wf_after_update(e, after);
        }
    }

    /// Moves all children of `node` to the end of the children of `new_parent`.
    #[verifier::loop_isolation(false)]
    pub fn reparent_children(&mut self, node: NodeId, new_parent: NodeId)
        requires
            old(self).wf(),
            node < old(self).view_entries().len(),
            new_parent < old(self).view_entries().len(),
        ensures
            final(self).wf(),
            final(self).errors == old(self).errors,
            final(self).view_entries() == ({
                let e = old(self).view_entries();
                let cs = e[node as int].children;
                let e1 = with_parent(e.update(node as int, EntryView { children: Seq::empty(), ..e[node as int] }), cs, new_parent);
                e1.update(new_parent as int, EntryView { children: e1[new_parent as int].children + cs, ..e1[new_parent as int] })
            }),
    {
        let ghost e = self.view_entries();
        let mut ne = self.entries.remove(node);
        let cs = ne.children;
        ne.children = Vec::new();
        self.entries.insert(node, ne);
        let ghost e0 = self.view_entries();
        assert(e0 =~= e.update(node as int, EntryView { children: Seq::empty(), ..e[node as int] }));
        assert(cs@ == e[node as int].children);
        assert forall|m: int| 0 <= m < cs@.len() implies cs@[m] < e.len() by {
            assert(e[node as int].children[m] == cs@[m]);
        }
        let n = self.entries.len();
        let mut i: usize = 0;
        while i < n
            invariant
                n == e0.len(),
                self.entries@.len() == n,
                i <= n,
                forall|m: int| 0 <= m < cs@.len() ==> cs@[m] < n,
                forall|k: int| 0 <= k < n ==> #[trigger] self.view_entries()[k] == (if k < i {
                    with_parent(e0, cs@, new_parent)[k]
                } else {
                    e0[k]
                }),
                self.errors == old(self).errors,
            decreases n - i,
        {
            let ghost cur = self.view_entries();
            if contains_id(&cs, i) {
                let mut entry = self.entries.remove(i);
                entry.parent = Some(new_parent);
                self.entries.insert(i, entry);
                assert(self.view_entries() =~= cur.update(i as int, EntryView { parent: Some(new_parent), ..cur[i as int] }));
            } else {
                assert(self.view_entries() =~= cur);
            }
            assert(with_parent(e0, cs@, new_parent)[i as int] == (if cs@.contains(i) { EntryView { parent: Some(new_parent), ..e0[i as int] } } else { e0[i as int] }));
            i += 1;
        }
        let ghost e1 = self.view_entries();
        assert(e1 =~= with_parent(e0, cs@, new_parent));
        let mut pe = self.entries.remove(new_parent);
        let ghost before = pe.children@;
        let ghost e1_pe_node = pe.node;
        assert(pe@ == e1[new_parent as int]);
        let mut j: usize = 0;
        while j < cs.len()
            invariant
                j <= cs@.len(),
                pe.children@ == before + cs@.take(j as int),
                pe.node == e1_pe_node,
                pe.parent == e1[new_parent as int].parent,
            decreases cs.len() - j,
        {
            pe.children.push(cs[j]);
            assert(before + cs@.take(j + 1) =~= (before + cs@.take(j as int)).push(cs@[j as int]));
            j += 1;
        }
        assert(cs@.take(cs.len() as int) =~= cs@);
        self.entries.insert(new_parent, pe);
        proof {
            let after = self.view_entries();
            assert(after =~= e1.update(new_parent as int, EntryView { children: e1[new_parent as int].children + cs@, ..e1[new_parent as int] }));
            assert forall|i: int| 0 <= i < after.len() implies forall|j: int|
                0 <= j < #[trigger] after[i].children.len() ==> after[i].children[j] < after.len() by {
                if i == new_parent {
                    assert forall|j: int| 0 <= j < after[i].children.len() implies after[i].children[j] < after.len() by {
                        if j < before.len() {
                            assert(after[i].children[j] == before[j]);
                            assert(before == e1[i].children);
                            assert(e1[i].children == e0[i].children);
                            if i != node {
                                assert(e0[i].children == e[i].children);
                            }
                        } else {
                            assert(after[i].children[j] == cs@[j - before.len()]);
                        }
                    }
                } else {
                    assert(after[i].children == e1[i].children);
                    assert(e1[i].children == e0[i].children);
                    if i != node {
                        assert(e0[i].children == e[i].children);
                    }
                }
            }
            assert forall|i: int| 0 <= i < after.len() implies (#[trigger] after[i].parent matches Some(q) ==> q < after.len()) by {
                assert(after[i].parent == e1[i].parent);
                if !cs@.contains(i as NodeId) {
                    assert(e1[i].parent == e0[i].parent);
                    assert(e0[i].parent == e[i].parent);
                }
            }
        }
    }

    /// Freezes the document: entry `i` becomes node `i`, processing instructions
    /// becoming empty comments; the document node is the root.
    pub fn finish(self) -> (t: DomTree)
        requires
            self.wf(),
        ensures
            t.wf(),
            t.root == 0,
            t.view_nodes() == self.view_entries().map_values(|x: EntryView| freeze(x)),
    {
        let ghost e = self.view_entries();
        let mut entries = self.entries;
        let n = entries.len();
        // Frozen nodes, last entry first.
        let mut rev: Vec<DomNode> = Vec::new();
        while entries.len() > 0
            invariant
                n == e.len(),
                entries@.len() + rev@.len() == n,
                entries_view(entries@) == e.take(entries@.len() as int),
                forall|k: int| 0 <= k < rev@.len() ==> #[trigger] rev@[k]@ == freeze(e[n - 1 - k]),
            decreases entries.len(),
        {
            let ghost m = entries@.len();
            let ghost old_entries = entries@;
            let entry = entries.pop().unwrap();
            assert(entry@ == e[m - 1]) by {
                assert(old_entries == entries@.push(entry));
                assert(entries_view(old_entries)[m - 1] == old_entries[m - 1]@);
                assert(e.take(m as int)[m - 1] == e[m - 1]);
            }
            assert(entries_view(entries@) =~= e.take(m - 1));
            rev.push(freeze_entry(entry));
        }
        let mut nodes: Vec<DomNode> = Vec::new();
        while rev.len() > 0
            invariant
                n == e.len(),
                nodes@.len() + rev@.len() == n,
                forall|k: int| 0 <= k < rev@.len() ==> #[trigger] rev@[k]@ == freeze(e[n - 1 - k]),
                forall|k: int| 0 <= k < nodes@.len() ==> #[trigger] nodes@[k]@ == freeze(e[k]),
            decreases rev.len(),
        {
            let ghost m = rev@.len();
            let node = rev.pop().unwrap();
            assert(node@ == freeze(e[n - m])) by {
                assert(rev@.push(node)[m - 1] == node);
            }
            nodes.push(node);
        }
        let t = DomTree { nodes, root: 0 };
        proof {
            let fz = e.map_values(|x: EntryView| freeze(x));
            assert(t.view_nodes() =~= fz);
            assert forall|i: int, j: int|
                0 <= i < fz.len() && 0 <= j < children_of(fz[i]).len() implies #[trigger] children_of(
                fz[i],
            )[j] < fz.len() by {
                assert(children_of(fz[i]).len() <= e[i].children.len());
                if children_of(fz[i]).len() > 0 {
                    assert(children_of(fz[i]) == e[i].children);
                    assert(e[i].children[j] < e.len());
                }
            }
        }
        t
    }
}

/// Whether `id` occurs in `v`.
fn contains_id(v: &Vec<NodeId>, id: NodeId) -> (r: bool)
    ensures
        r == v@.contains(id),
{
    let mut k: usize = 0;
    while k < v.len()
        invariant
            k <= v@.len(),
            forall|m: int| 0 <= m < k ==> v@[m] != id,
        decreases v.len() - k,
    {
        if v[k] == id {
            return true;
        }
        k += 1;
    }
    false
}

/// The frozen node of one entry.
fn freeze_entry(entry: BuildEntry) -> (n: DomNode)
    ensures
        n@ == freeze(entry@),
{
    let children = entry.children;
    match entry.node {
        BuildNode::Document => DomNode::Document { children },
        BuildNode::Element { tag, attrs } => DomNode::Element { tag, attrs, children },
        BuildNode::Text(t) => DomNode::Text { content: t },
        BuildNode::Comment(t) => DomNode::Comment { content: t },
        BuildNode::Doctype { name, public_id, system_id } => DomNode::DocumentType { name, public_id, system_id },
        BuildNode::ProcessingInstruction { .. } => {
            let content = String::new();
            DomNode::Comment { content }
        },
    }
}

} // verus!
