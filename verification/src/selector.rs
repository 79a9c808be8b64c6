//! CSS selector subset: parsing and matching against DOM trees.
//!
//! Supported: `tag`, `#id`, `.class`, `[attr]`, `[attr=value]` (value bare or in
//! single or double quotes, whitespace allowed inside the brackets), compounds of
//! these (`div#main.x`), the descendant combinator (whitespace) and the child
//! combinator (`>`).

use vstd::prelude::*;
use crate::dom::{children_of, DomNode, DomTree, NodeId, NodeView, attrs_view};
use crate::text::{chars_of, is_whitespace, is_ws, string_of_range, trim, trim_bounds};

verus! {

/// `[name]` or `[name=value]`.
#[derive(Debug, Clone)]
pub struct AttrSelector {
    pub name: String,
    pub value: Option<String>,
}

/// A sequence of simple selectors that must all match one element.
#[derive(Debug, Clone)]
pub struct CompoundSelector {
    pub tag: Option<String>,
    pub ids: Vec<String>,
    pub classes: Vec<String>,
    pub attrs: Vec<AttrSelector>,
}

/// How two compounds of a selector relate.
#[derive(Debug, Clone, Copy, PartialEq, Eq)]
pub enum Combinator {
    Descendant,
    Child,
}

/// Compounds joined by combinators: `combinators[i]` joins `parts[i]` and `parts[i + 1]`.
#[derive(Debug, Clone)]
pub struct Selector {
    pub parts: Vec<CompoundSelector>,
    pub combinators: Vec<Combinator>,
}

#[verifier::ext_equal]
pub struct AttrView {
    pub name: Seq<char>,
    pub value: Option<Seq<char>>,
}

#[verifier::ext_equal]
pub struct CompoundView {
    pub tag: Option<Seq<char>>,
    pub ids: Seq<Seq<char>>,
    pub classes: Seq<Seq<char>>,
    pub attrs: Seq<AttrView>,
}

#[verifier::ext_equal]
pub struct SelectorView {
    pub parts: Seq<CompoundView>,
    pub combinators: Seq<Combinator>,
}

pub open spec fn opt_str_view(o: Option<String>) -> Option<Seq<char>> {
    match o {
        Some(s) => Some(s@),
        None => None,
    }
}

pub open spec fn strings_view(v: Seq<String>) -> Seq<Seq<char>> {
    v.map_values(|s: String| s@)
}

impl View for AttrSelector {
    type V = AttrView;

    open spec fn view(&self) -> AttrView {
        AttrView { name: self.name@, value: opt_str_view(self.value) }
    }
}

impl View for CompoundSelector {
    type V = CompoundView;

    open spec fn view(&self) -> CompoundView {
        CompoundView {
            tag: opt_str_view(self.tag),
            ids: strings_view(self.ids@),
            classes: strings_view(self.classes@),
            attrs: self.attrs@.map_values(|a: AttrSelector| a@),
        }
    }
}

impl View for Selector {
    type V = SelectorView;

    open spec fn view(&self) -> SelectorView {
        SelectorView {
            parts: self.parts@.map_values(|c: CompoundSelector| c@),
            combinators: self.combinators@,
        }
    }
}

// ---------------------------------------------------------------------------
// Grammar
// ---------------------------------------------------------------------------

/// Characters that end a name.
pub open spec fn is_delim(c: char) -> bool {
    is_ws(c) || c == '#' || c == '.' || c == '[' || c == ']' || c == '>' || c == '=' || c == '"'
        || c == '\''
}

/// First index at or after `i` that is not whitespace.
pub open spec fn skip_ws(s: Seq<char>, i: int) -> int
    decreases s.len() - i,
{
    if 0 <= i < s.len() && is_ws(s[i]) {
        skip_ws(s, i + 1)
    } else {
        i
    }
}

/// First index at or after `i` holding a delimiter (or the end).
pub open spec fn ident_end(s: Seq<char>, i: int) -> int
    decreases s.len() - i,
{
    if 0 <= i < s.len() && !is_delim(s[i]) {
        ident_end(s, i + 1)
    } else {
        i
    }
}

/// First index at or after `i` holding `q` (or the end).
pub open spec fn quote_end(s: Seq<char>, i: int, q: char) -> int
    decreases s.len() - i,
{
    if 0 <= i < s.len() && s[i] != q {
        quote_end(s, i + 1, q)
    } else {
        i
    }
}

pub proof fn lemma_skip_ws(s: Seq<char>, i: int)
    requires
        0 <= i <= s.len(),
    ensures
        i <= skip_ws(s, i) <= s.len(),
        skip_ws(s, i) < s.len() ==> !is_ws(s[skip_ws(s, i)]),
    decreases s.len() - i,
{
    if i < s.len() && is_ws(s[i]) {
        lemma_skip_ws(s, i + 1);
    }
}

pub proof fn lemma_ident_end(s: Seq<char>, i: int)
    requires
        0 <= i <= s.len(),
    ensures
        i <= ident_end(s, i) <= s.len(),
        forall|k: int| i <= k < ident_end(s, i) ==> !is_delim(#[trigger] s[k]),
    decreases s.len() - i,
{
    if i < s.len() && !is_delim(s[i]) {
        lemma_ident_end(s, i + 1);
    }
}

pub proof fn lemma_quote_end(s: Seq<char>, i: int, q: char)
    requires
        0 <= i <= s.len(),
    ensures
        i <= quote_end(s, i, q) <= s.len(),
    decreases s.len() - i,
{
    if i < s.len() && s[i] != q {
        lemma_quote_end(s, i + 1, q);
    }
}

/// `]` at `d` closes an attribute selector.
pub open spec fn close_attr(s: Seq<char>, d: int, a: AttrView) -> Option<(AttrView, int)> {
    if 0 <= d < s.len() && s[d] == ']' {
        Some((a, d + 1))
    } else {
        None
    }
}

/// The value of an attribute selector starting at `c`, quoted or bare.
pub open spec fn parse_attr_value(s: Seq<char>, name: Seq<char>, c: int) -> Option<(AttrView, int)> {
    if 0 <= c < s.len() && (s[c] == '"' || s[c] == '\'') {
        let e = quote_end(s, c + 1, s[c]);
        if e < s.len() {
            close_attr(s, skip_ws(s, e + 1), AttrView { name, value: Some(s.subrange(c + 1, e)) })
        } else {
            None
        }
    } else {
        let e = ident_end(s, c);
        if e > c {
            close_attr(s, skip_ws(s, e), AttrView { name, value: Some(s.subrange(c, e)) })
        } else {
            None
        }
    }
}

/// The attribute selector opened by the `[` at `i`, and the index after its `]`.
pub open spec fn parse_attr(s: Seq<char>, i: int) -> Option<(AttrView, int)> {
    let a = skip_ws(s, i + 1);
    let ne = ident_end(s, a);
    if ne == a {
        None
    } else {
        let name = s.subrange(a, ne);
        let b = skip_ws(s, ne);
        if 0 <= b < s.len() && s[b] == ']' {
            Some((AttrView { name, value: None }, b + 1))
        } else if 0 <= b < s.len() && s[b] == '=' {
            parse_attr_value(s, name, skip_ws(s, b + 1))
        } else {
            None
        }
    }
}

pub proof fn lemma_parse_attr(s: Seq<char>, i: int)
    requires
        0 <= i < s.len(),
    ensures
        parse_attr(s, i) matches Some((a, j)) ==> i < j <= s.len(),
{
    lemma_skip_ws(s, i + 1);
    let a = skip_ws(s, i + 1);
    lemma_ident_end(s, a);
    let ne = ident_end(s, a);
    lemma_skip_ws(s, ne);
    let b = skip_ws(s, ne);
    if 0 <= b < s.len() && s[b] == '=' {
        lemma_skip_ws(s, b + 1);
        let c = skip_ws(s, b + 1);
        if c < s.len() && (s[c] == '"' || s[c] == '\'') {
            lemma_quote_end(s, c + 1, s[c]);
            let e = quote_end(s, c + 1, s[c]);
            if e < s.len() {
                lemma_skip_ws(s, e + 1);
            }
        } else {
            lemma_ident_end(s, c);
            lemma_skip_ws(s, ident_end(s, c));
        }
    }
}

pub open spec fn empty_compound() -> CompoundView {
    CompoundView { tag: None, ids: Seq::empty(), classes: Seq::empty(), attrs: Seq::empty() }
}

/// The compound starting at `i` (its simple selectors added to `acc`) and the index
/// after it. `first` tells that no simple selector has been read yet: a compound holds
/// at least one, and a tag name may only come first.
pub open spec fn parse_compound(s: Seq<char>, i: int, acc: CompoundView, first: bool) -> Option<(CompoundView, int)>
    decreases s.len() - i,
{
    if i < 0 || i > s.len() {
        None
    } else if i == s.len() || is_ws(s[i]) || s[i] == '>' {
        if first {
            None
        } else {
            Some((acc, i))
        }
    } else if s[i] == '#' || s[i] == '.' {
        proof {
            lemma_ident_end(s, i + 1);
        }
        let e = ident_end(s, i + 1);
        if e == i + 1 {
            None
        } else {
            let name = s.subrange(i + 1, e);
            if s[i] == '#' {
                parse_compound(s, e, CompoundView { ids: acc.ids.push(name), ..acc }, false)
            } else {
                parse_compound(s, e, CompoundView { classes: acc.classes.push(name), ..acc }, false)
            }
        }
    } else if s[i] == '[' {
        proof {
            lemma_parse_attr(s, i);
        }
        match parse_attr(s, i) {
            Some((a, j)) => parse_compound(s, j, CompoundView { attrs: acc.attrs.push(a), ..acc }, false),
            None => None,
        }
    } else if is_delim(s[i]) {
        None
    } else if first {
        proof {
            lemma_ident_end(s, i + 1);
        }
        let e = ident_end(s, i + 1);
        parse_compound(s, e, CompoundView { tag: Some(s.subrange(i, e)), ..acc }, false)
    } else {
        None
    }
}

pub proof fn lemma_parse_compound(s: Seq<char>, i: int, acc: CompoundView, first: bool)
    ensures
        parse_compound(s, i, acc, first) matches Some((c, e)) ==> (i <= e <= s.len() && (first ==> i < e)),
    decreases s.len() - i,
{
    if 0 <= i <= s.len() && !(i == s.len() || is_ws(s[i]) || s[i] == '>') {
        if s[i] == '#' || s[i] == '.' {
            lemma_ident_end(s, i + 1);
            let e = ident_end(s, i + 1);
            if e != i + 1 {
                let name = s.subrange(i + 1, e);
                if s[i] == '#' {
                    lemma_parse_compound(s, e, CompoundView { ids: acc.ids.push(name), ..acc }, false);
                } else {
                    lemma_parse_compound(s, e, CompoundView { classes: acc.classes.push(name), ..acc }, false);
                }
            }
        } else if s[i] == '[' {
            lemma_parse_attr(s, i);
            match parse_attr(s, i) {
                Some((a, j)) => {
                    lemma_parse_compound(s, j, CompoundView { attrs: acc.attrs.push(a), ..acc }, false);
                },
                None => {},
            }
        } else if !is_delim(s[i]) && first {
            lemma_ident_end(s, i + 1);
            let e = ident_end(s, i + 1);
            lemma_parse_compound(s, e, CompoundView { tag: Some(s.subrange(i, e)), ..acc }, false);
        }
    }
}

/// The rest of a selector after the compound that ended at `i`.
pub open spec fn parse_rest(s: Seq<char>, i: int, sel: SelectorView) -> Option<SelectorView>
    decreases s.len() - i,
{
    if i < 0 || i > s.len() {
        None
    } else {
        let j = skip_ws(s, i);
        if j >= s.len() {
            Some(sel)
        } else if s[j] == '>' {
            let k = skip_ws(s, j + 1);
            proof {
                lemma_skip_ws(s, i);
                lemma_skip_ws(s, j + 1);
                lemma_parse_compound(s, k, empty_compound(), true);
            }
            match parse_compound(s, k, empty_compound(), true) {
                Some((c, e)) => parse_rest(
                    s,
                    e,
                    SelectorView {
                        parts: sel.parts.push(c),
                        combinators: sel.combinators.push(Combinator::Child),
                    },
                ),
                None => None,
            }
        } else if j > i {
            proof {
                lemma_skip_ws(s, i);
                lemma_parse_compound(s, j, empty_compound(), true);
            }
            match parse_compound(s, j, empty_compound(), true) {
                Some((c, e)) => parse_rest(
                    s,
                    e,
                    SelectorView {
                        parts: sel.parts.push(c),
                        combinators: sel.combinators.push(Combinator::Descendant),
                    },
                ),
                None => None,
            }
        } else {
            None
        }
    }
}

/// The selector that `s` spells, or `None` when `s` is not a valid selector.
pub open spec fn parse_selector(s: Seq<char>) -> Option<SelectorView> {
    match parse_compound(s, skip_ws(s, 0), empty_compound(), true) {
        Some((c, e)) => parse_rest(
            s,
            e,
            SelectorView { parts: seq![c], combinators: Seq::empty() },
        ),
        None => None,
    }
}

/// One combinator between each two compounds, and at least one compound.
pub open spec fn selector_wf(sel: SelectorView) -> bool {
    sel.parts.len() >= 1 && sel.combinators.len() + 1 == sel.parts.len()
}

pub proof fn lemma_parse_rest_wf(s: Seq<char>, i: int, sel: SelectorView)
    requires
        selector_wf(sel),
    ensures
        parse_rest(s, i, sel) matches Some(r) ==> selector_wf(r),
    decreases s.len() - i,
{
    if 0 <= i <= s.len() {
        let j = skip_ws(s, i);
        lemma_skip_ws(s, i);
        if j < s.len() {
            if s[j] == '>' {
                let k = skip_ws(s, j + 1);
                lemma_skip_ws(s, j + 1);
                lemma_parse_compound(s, k, empty_compound(), true);
                match parse_compound(s, k, empty_compound(), true) {
                    Some((c, e)) => lemma_parse_rest_wf(
                        s,
                        e,
                        SelectorView {
                            parts: sel.parts.push(c),
                            combinators: sel.combinators.push(Combinator::Child),
                        },
                    ),
                    None => {},
                }
            } else if j > i {
                lemma_parse_compound(s, j, empty_compound(), true);
                match parse_compound(s, j, empty_compound(), true) {
                    Some((c, e)) => lemma_parse_rest_wf(
                        s,
                        e,
                        SelectorView {
                            parts: sel.parts.push(c),
                            combinators: sel.combinators.push(Combinator::Descendant),
                        },
                    ),
                    None => {},
                }
            }
        }
    }
}

pub proof fn lemma_parse_selector_wf(s: Seq<char>)
    ensures
        parse_selector(s) matches Some(r) ==> selector_wf(r),
{
    match parse_compound(s, skip_ws(s, 0), empty_compound(), true) {
        Some((c, e)) => lemma_parse_rest_wf(
            s,
            e,
            SelectorView { parts: seq![c], combinators: Seq::empty() },
        ),
        None => {},
    }
}

// ---------------------------------------------------------------------------
// Parser
// ---------------------------------------------------------------------------

fn skip_ws_exec(s: &Vec<char>, i: usize) -> (r: usize)
    requires
        i <= s.len(),
    ensures
        r == skip_ws(s@, i as int),
        i <= r <= s.len(),
    decreases s.len() - i,
{
    if i < s.len() && is_whitespace(s[i]) {
        skip_ws_exec(s, i + 1)
    } else {
        i
    }
}

fn is_delim_exec(c: char) -> (r: bool)
    ensures
        r == is_delim(c),
{
    is_whitespace(c) || c == '#' || c == '.' || c == '[' || c == ']' || c == '>' || c == '='
        || c == '"' || c == '\''
}

fn ident_end_exec(s: &Vec<char>, i: usize) -> (r: usize)
    requires
        i <= s.len(),
    ensures
        r == ident_end(s@, i as int),
        i <= r <= s.len(),
    decreases s.len() - i,
{
    if i < s.len() && !is_delim_exec(s[i]) {
        ident_end_exec(s, i + 1)
    } else {
        i
    }
}

fn quote_end_exec(s: &Vec<char>, i: usize, q: char) -> (r: usize)
    requires
        i <= s.len(),
    ensures
        r == quote_end(s@, i as int, q),
        i <= r <= s.len(),
    decreases s.len() - i,
{
    if i < s.len() && s[i] != q {
        quote_end_exec(s, i + 1, q)
    } else {
        i
    }
}

pub open spec fn attr_result_view(r: Option<(AttrSelector, usize)>) -> Option<(AttrView, int)> {
    match r {
        Some((a, j)) => Some((a@, j as int)),
        None => None,
    }
}

fn close_attr_exec(s: &Vec<char>, d: usize, a: AttrSelector) -> (r: Option<(AttrSelector, usize)>)
    requires
        d <= s.len(),
    ensures
        attr_result_view(r) == close_attr(s@, d as int, a@),
        r matches Some((_, j)) ==> j <= s.len(),
{
    if d < s.len() && s[d] == ']' {
        Some((a, d + 1))
    } else {
        None
    }
}

fn parse_attr_value_exec(s: &Vec<char>, name: String, c: usize) -> (r: Option<(AttrSelector, usize)>)
    requires
        c <= s.len(),
    ensures
        attr_result_view(r) == parse_attr_value(s@, name@, c as int),
        r matches Some((_, j)) ==> j <= s.len(),
{
    if c < s.len() && (s[c] == '"' || s[c] == '\'') {
        let e = quote_end_exec(s, c + 1, s[c]);
        if e < s.len() {
            let value = string_of_range(s, c + 1, e);
            let d = skip_ws_exec(s, e + 1);
            close_attr_exec(s, d, AttrSelector { name, value: Some(value) })
        } else {
            None
        }
    } else {
        let e = ident_end_exec(s, c);
        if e > c {
            let value = string_of_range(s, c, e);
            let d = skip_ws_exec(s, e);
            close_attr_exec(s, d, AttrSelector { name, value: Some(value) })
        } else {
            None
        }
    }
}

fn parse_attr_exec(s: &Vec<char>, i: usize) -> (r: Option<(AttrSelector, usize)>)
    requires
        i < s.len(),
    ensures
        attr_result_view(r) == parse_attr(s@, i as int),
        r matches Some((_, j)) ==> i < j <= s.len(),
{
    proof {
        lemma_parse_attr(s@, i as int);
    }
    let a = skip_ws_exec(s, i + 1);
    let ne = ident_end_exec(s, a);
    if ne == a {
        return None;
    }
    let name = string_of_range(s, a, ne);
    let b = skip_ws_exec(s, ne);
    if b < s.len() && s[b] == ']' {
        Some((AttrSelector { name, value: None }, b + 1))
    } else if b < s.len() && s[b] == '=' {
        let c = skip_ws_exec(s, b + 1);
        parse_attr_value_exec(s, name, c)
    } else {
        None
    }
}

pub open spec fn compound_result_view(r: Option<(CompoundSelector, usize)>) -> Option<(CompoundView, int)> {
    match r {
        Some((c, e)) => Some((c@, e as int)),
        None => None,
    }
}

fn parse_compound_exec(s: &Vec<char>, i: usize, acc: CompoundSelector, first: bool) -> (r: Option<(CompoundSelector, usize)>)
    requires
        i <= s.len(),
    ensures
        compound_result_view(r) == parse_compound(s@, i as int, acc@, first),
        r matches Some((_, e)) ==> i <= e <= s.len() && (first ==> i < e),
    decreases s.len() - i,
{
    proof {
        lemma_parse_compound(s@, i as int, acc@, first);
    }
    if i == s.len() || is_whitespace(s[i]) || s[i] == '>' {
        if first {
            None
        } else {
            Some((acc, i))
        }
    } else if s[i] == '#' || s[i] == '.' {
        let e = ident_end_exec(s, i + 1);
        if e == i + 1 {
            None
        } else {
            let name = string_of_range(s, i + 1, e);
            let mut acc = acc;
            let ghost before = acc@;
            if s[i] == '#' {
                acc.ids.push(name);
                assert(acc@ =~= CompoundView { ids: before.ids.push(name@), ..before });
            } else {
                acc.classes.push(name);
                assert(acc@ =~= CompoundView { classes: before.classes.push(name@), ..before });
            }
            parse_compound_exec(s, e, acc, false)
        }
    } else if s[i] == '[' {
        match parse_attr_exec(s, i) {
            Some((a, j)) => {
                let mut acc = acc;
                let ghost before = acc@;
                let ghost av = a@;
                acc.attrs.push(a);
                assert(acc@ =~= CompoundView { attrs: before.attrs.push(av), ..before });
                parse_compound_exec(s, j, acc, false)
            },
            None => None,
        }
    } else if is_delim_exec(s[i]) {
        None
    } else if first {
        let e = ident_end_exec(s, i + 1);
        let tag = string_of_range(s, i, e);
        let mut acc = acc;
        let ghost before = acc@;
        acc.tag = Some(tag);
        assert(acc@ =~= CompoundView { tag: Some(s@.subrange(i as int, e as int)), ..before });
        parse_compound_exec(s, e, acc, false)
    } else {
        None
    }
}

fn new_compound() -> (c: CompoundSelector)
    ensures
        c@ == empty_compound(),
{
    let c = CompoundSelector { tag: None, ids: Vec::new(), classes: Vec::new(), attrs: Vec::new() };
    assert(c@ =~= empty_compound());
    c
}

pub open spec fn selector_opt_view(r: Option<Selector>) -> Option<SelectorView> {
    match r {
        Some(s) => Some(s@),
        None => None,
    }
}

fn parse_rest_exec(s: &Vec<char>, i: usize, sel: Selector) -> (r: Option<Selector>)
    requires
        i <= s.len(),
    ensures
        selector_opt_view(r) == parse_rest(s@, i as int, sel@),
    decreases s.len() - i,
{
    let j = skip_ws_exec(s, i);
    if j >= s.len() {
        Some(sel)
    } else if s[j] == '>' {
        let k = skip_ws_exec(s, j + 1);
        match parse_compound_exec(s, k, new_compound(), true) {
            Some((c, e)) => {
                let mut sel = sel;
                let ghost before = sel@;
                let ghost cv = c@;
                sel.parts.push(c);
                sel.combinators.push(Combinator::Child);
                assert(sel@ =~= SelectorView {
                    parts: before.parts.push(cv),
                    combinators: before.combinators.push(Combinator::Child),
                });
                parse_rest_exec(s, e, sel)
            },
            None => None,
        }
    } else if j > i {
        match parse_compound_exec(s, j, new_compound(), true) {
            Some((c, e)) => {
                let mut sel = sel;
                let ghost before = sel@;
                let ghost cv = c@;
                sel.parts.push(c);
                sel.combinators.push(Combinator::Descendant);
                assert(sel@ =~= SelectorView {
                    parts: before.parts.push(cv),
                    combinators: before.combinators.push(Combinator::Descendant),
                });
                parse_rest_exec(s, e, sel)
            },
            None => None,
        }
    } else {
        None
    }
}

impl Selector {
    /// Parses a selector; `None` when the text is not a supported selector.
    pub fn parse(text: &str) -> (r: Option<Selector>)
        ensures
            selector_opt_view(r) == parse_selector(text@),
            r matches Some(sel) ==> selector_wf(sel@),
    {
        proof {
            lemma_parse_selector_wf(text@);
        }
        let s = chars_of(text);
        let i = skip_ws_exec(&s, 0);
        match parse_compound_exec(&s, i, new_compound(), true) {
            Some((c, e)) => {
                let ghost cv = c@;
                let mut parts: Vec<CompoundSelector> = Vec::new();
                parts.push(c);
                let sel = Selector { parts, combinators: Vec::new() };
                assert(sel@ =~= SelectorView { parts: seq![cv], combinators: Seq::empty() });
                parse_rest_exec(&s, e, sel)
            },
            None => None,
        }
    }
}


// ---------------------------------------------------------------------------
// Matching
// ---------------------------------------------------------------------------

pub open spec fn id_attr() -> Seq<char> {
    seq!['i', 'd']
}

pub open spec fn class_attr() -> Seq<char> {
    seq!['c', 'l', 'a', 's', 's']
}

/// The value of the first attribute named `name`.
pub open spec fn attr_value(attrs: Seq<(Seq<char>, Seq<char>)>, name: Seq<char>) -> Option<Seq<char>>
    decreases attrs.len(),
{
    if attrs.len() == 0 {
        None
    } else if attrs[0].0 == name {
        Some(attrs[0].1)
    } else {
        attr_value(attrs.drop_first(), name)
    }
}

/// `t` occurs in `v` at `i`, delimited by whitespace or the ends of `v`.
pub open spec fn is_token_at(v: Seq<char>, t: Seq<char>, i: int) -> bool {
    &&& 0 <= i
    &&& i + t.len() <= v.len()
    &&& v.subrange(i, i + t.len()) == t
    &&& (i == 0 || is_ws(v[i - 1]))
    &&& (i + t.len() == v.len() || is_ws(v[i + t.len()]))
}

/// `t` is one of the whitespace-separated words of `v`.
pub open spec fn has_token(v: Seq<char>, t: Seq<char>) -> bool {
    &&& t.len() > 0
    &&& forall|k: int| 0 <= k < t.len() ==> !is_ws(#[trigger] t[k])
    &&& exists|i: int| is_token_at(v, t, i)
}

/// The element's `class` attribute lists `cls`.
pub open spec fn class_ok(attrs: Seq<(Seq<char>, Seq<char>)>, cls: Seq<char>) -> bool {
    match attr_value(attrs, class_attr()) {
        Some(v) => has_token(v, cls),
        None => false,
    }
}

pub open spec fn attr_matches(attrs: Seq<(Seq<char>, Seq<char>)>, a: AttrView) -> bool {
    match a.value {
        None => attr_value(attrs, a.name) is Some,
        Some(v) => attr_value(attrs, a.name) == Some(v),
    }
}

/// Every simple selector of `c` matches the node, which must be an element.
pub open spec fn compound_matches(c: CompoundView, n: NodeView) -> bool {
    match n {
        NodeView::Element { tag, attrs, .. } => {
            &&& (match c.tag {
                Some(t) => t == tag,
                None => true,
            })
            &&& forall|i: int|
                0 <= i < c.ids.len() ==> attr_value(attrs, id_attr()) == Some(#[trigger] c.ids[i])
            &&& forall|i: int| 0 <= i < c.classes.len() ==> class_ok(attrs, #[trigger] c.classes[i])
            &&& forall|i: int| 0 <= i < c.attrs.len() ==> attr_matches(attrs, #[trigger] c.attrs[i])
        },
        _ => false,
    }
}

/// Compounds `0..=k` of `sel` match the path of nodes from the root down to its
/// last node, which compound `k` matches.
pub open spec fn matches_path(sel: SelectorView, k: int, path: Seq<NodeView>) -> bool
    decreases path.len(), 0int,
{
    if path.len() == 0 || k < 0 || k >= sel.parts.len() {
        false
    } else if !compound_matches(sel.parts[k], path.last()) {
        false
    } else if k == 0 {
        true
    } else if sel.combinators[k - 1] == Combinator::Child {
        matches_path(sel, k - 1, path.drop_last())
    } else {
        matches_ancestor(sel, k - 1, path.drop_last())
    }
}

/// Compounds `0..=k` match the path to some node of `path` (an ancestor-or-self of its last).
pub open spec fn matches_ancestor(sel: SelectorView, k: int, path: Seq<NodeView>) -> bool
    decreases path.len(), 1int,
{
    if path.len() == 0 {
        false
    } else {
        matches_path(sel, k, path) || matches_ancestor(sel, k, path.drop_last())
    }
}

/// The nodes of `path`, by index into `nodes`.
pub open spec fn path_view(nodes: Seq<NodeView>, path: Seq<NodeId>) -> Seq<NodeView> {
    path.map_values(|i: NodeId| nodes[i as int])
}

/// The nodes under `node` (itself included) that `sel` matches, in document order,
/// looking at most `fuel` levels deep; `path` holds the nodes above `node`.
pub open spec fn query_from(nodes: Seq<NodeView>, sel: SelectorView, node: NodeId, path: Seq<NodeView>, fuel: nat) -> Seq<NodeId>
    decreases fuel, 0int, 0int,
{
    if fuel == 0 || node >= nodes.len() {
        Seq::empty()
    } else {
        let p = path.push(nodes[node as int]);
        let here: Seq<NodeId> = if matches_path(sel, sel.parts.len() - 1, p) {
            seq![node]
        } else {
            Seq::empty()
        };
        here + query_children(nodes, sel, children_of(nodes[node as int]), 0, p, (fuel - 1) as nat)
    }
}

/// `query_from` over the children `cs[k..]`, concatenated.
pub open spec fn query_children(nodes: Seq<NodeView>, sel: SelectorView, cs: Seq<NodeId>, k: int, path: Seq<NodeView>, fuel: nat) -> Seq<NodeId>
    decreases fuel, 1int, cs.len() - k,
{
    if k < 0 || k >= cs.len() {
        Seq::empty()
    } else {
        query_from(nodes, sel, cs[k], path, fuel) + query_children(nodes, sel, cs, k + 1, path, fuel)
    }
}

/// The nodes of the tree that the selector text matches, in document order; none
/// when the text is not a supported selector.
pub open spec fn query_all_spec(nodes: Seq<NodeView>, root: NodeId, selector: Seq<char>) -> Seq<NodeId> {
    match parse_selector(selector) {
        Some(sel) => query_from(nodes, sel, root, Seq::empty(), nodes.len()),
        None => Seq::empty(),
    }
}

/// The trimmed, non-empty texts under `node`, in document order (text nodes and
/// the descendants of elements only), looking at most `fuel` levels deep.
pub open spec fn texts_of(nodes: Seq<NodeView>, node: NodeId, fuel: nat) -> Seq<Seq<char>>
    decreases fuel, 0int, 0int,
{
    if fuel == 0 || node >= nodes.len() {
        Seq::empty()
    } else {
        match nodes[node as int] {
            NodeView::Text { content } => if trim(content).len() > 0 {
                seq![trim(content)]
            } else {
                Seq::empty()
            },
            NodeView::Element { children, .. } => texts_children(nodes, children, 0, (fuel - 1) as nat),
            _ => Seq::empty(),
        }
    }
}

pub open spec fn texts_children(nodes: Seq<NodeView>, cs: Seq<NodeId>, k: int, fuel: nat) -> Seq<Seq<char>>
    decreases fuel, 1int, cs.len() - k,
{
    if k < 0 || k >= cs.len() {
        Seq::empty()
    } else {
        texts_of(nodes, cs[k], fuel) + texts_children(nodes, cs, k + 1, fuel)
    }
}

/// The texts under each node of `ids`, concatenated.
pub open spec fn texts_of_nodes(nodes: Seq<NodeView>, ids: Seq<NodeId>, fuel: nat) -> Seq<Seq<char>>
    decreases ids.len(),
{
    if ids.len() == 0 {
        Seq::empty()
    } else {
        texts_of_nodes(nodes, ids.drop_last(), fuel) + texts_of(nodes, ids.last(), fuel)
    }
}

pub open spec fn string_views(v: Seq<String>) -> Seq<Seq<char>> {
    v.map_values(|s: String| s@)
}

/// Index of the first attribute named `name`.
fn lookup_attr(attrs: &Vec<(String, String)>, name: &String) -> (r: Option<usize>)
    ensures
        match r {
            Some(i) => i < attrs@.len() && attr_value(attrs_view(attrs@), name@) == Some(attrs@[i as int].1@),
            None => attr_value(attrs_view(attrs@), name@) is None,
        },
{
    let ghost av = attrs_view(attrs@);
    assert(av.skip(0) =~= av);
    let mut i: usize = 0;
    while i < attrs.len()
        invariant
            i <= attrs@.len(),
            av == attrs_view(attrs@),
            attr_value(av, name@) == attr_value(av.skip(i as int), name@),
        decreases attrs.len() - i,
    {
        let ghost rest = av.skip(i as int);
        assert(rest[0] == (attrs@[i as int].0@, attrs@[i as int].1@));
        if attrs[i].0 == *name {
            return Some(i);
        }
        assert(rest.drop_first() =~= av.skip(i + 1));
        i += 1;
    }
    assert(av.skip(i as int).len() == 0);
    None
}

/// Whether `t` occurs in `v` at `i` as a whole word.
fn token_at(v: &Vec<char>, t: &Vec<char>, i: usize) -> (r: bool)
    requires
        i + t.len() <= v.len(),
    ensures
        r == is_token_at(v@, t@, i as int),
{
    if i > 0 && !is_whitespace(v[i - 1]) {
        return false;
    }
    if i + t.len() < v.len() && !is_whitespace(v[i + t.len()]) {
        return false;
    }
    let mut k: usize = 0;
    while k < t.len()
        invariant
            i + t.len() <= v.len(),
            k <= t.len(),
            forall|m: int| 0 <= m < k ==> v@[i + m] == t@[m],
        decreases t.len() - k,
    {
        if v[i + k] != t[k] {
            assert(v@.subrange(i as int, i + t.len())[k as int] != t@[k as int]);
            return false;
        }
        k += 1;
    }
    assert(v@.subrange(i as int, i + t.len()) =~= t@);
    true
}

/// Whether `t` is one of the whitespace-separated words of `v`.
#[verifier::loop_isolation(false)]
fn has_token_exec(v: &Vec<char>, t: &Vec<char>) -> (r: bool)
    ensures
        r == has_token(v@, t@),
{
    if t.len() == 0 {
        return false;
    }
    let mut k: usize = 0;
    while k < t.len()
        invariant
            k <= t.len(),
            forall|m: int| 0 <= m < k ==> !is_ws(#[trigger] t@[m]),
        decreases t.len() - k,
    {
        if is_whitespace(t[k]) {
            return false;
        }
        k += 1;
    }
    if t.len() > v.len() {
        assert forall|i: int| !is_token_at(v@, t@, i) by {}
        return false;
    }
    let mut i: usize = 0;
    while i <= v.len() - t.len()
        invariant
            t.len() <= v.len(),
            i <= v.len() - t.len() + 1,
            forall|m: int| 0 <= m < t.len() ==> !is_ws(#[trigger] t@[m]),
            forall|j: int| 0 <= j < i ==> !is_token_at(v@, t@, j),
        decreases v.len() - i,
    {
        if token_at(v, t, i) {
            assert(is_token_at(v@, t@, i as int));
            return true;
        }
        i += 1;
    }
    assert forall|j: int| !is_token_at(v@, t@, j) by {
        if 0 <= j < i {
        }
    }
    false
}

fn attr_selector_matches(attrs: &Vec<(String, String)>, a: &AttrSelector) -> (r: bool)
    ensures
        r == attr_matches(attrs_view(attrs@), a@),
{
    match lookup_attr(attrs, &a.name) {
        None => false,
        Some(i) => match &a.value {
            None => true,
            Some(v) => attrs[i].1 == *v,
        },
    }
}

/// Whether every simple selector of `c` matches `n`.
#[verifier::loop_isolation(false)]
fn compound_matches_exec(c: &CompoundSelector, n: &DomNode) -> (r: bool)
    ensures
        r == compound_matches(c@, n@),
{
    match n {
        DomNode::Element { tag, attrs, .. } => {
            match &c.tag {
                Some(t) => {
                    if !(*t == *tag) {
                        return false;
                    }
                },
                None => {},
            }
            let ghost av = attrs_view(attrs@);
            proof { reveal_strlit("id"); reveal_strlit("class"); }
            let id_name = String::from_str("id");
            let class_name = String::from_str("class");
            assert(id_name@ =~= id_attr());
            assert(class_name@ =~= class_attr());
            let mut i: usize = 0;
            while i < c.ids.len()
                invariant
                    i <= c.ids@.len(),
                    av == attrs_view(attrs@),
                    id_name@ == id_attr(),
                    forall|j: int|
                        0 <= j < i ==> attr_value(av, id_attr()) == Some(#[trigger] c@.ids[j]),
                decreases c.ids.len() - i,
            {
                match lookup_attr(attrs, &id_name) {
                    None => {
                        assert(c@.ids[i as int] == c.ids@[i as int]@);
                        return false;
                    },
                    Some(k) => {
                        if !(attrs[k].1 == c.ids[i]) {
                            assert(c@.ids[i as int] == c.ids@[i as int]@);
                            return false;
                        }
                    },
                }
                i += 1;
            }
            let mut i: usize = 0;
            while i < c.classes.len()
                invariant
                    i <= c.classes@.len(),
                    av == attrs_view(attrs@),
                    class_name@ == class_attr(),
                    forall|j: int| 0 <= j < i ==> class_ok(av, #[trigger] c@.classes[j]),
                decreases c.classes.len() - i,
            {
                match lookup_attr(attrs, &class_name) {
                    None => {
                        assert(c@.classes[i as int] == c.classes@[i as int]@);
                        return false;
                    },
                    Some(k) => {
                        let value = chars_of(attrs[k].1.as_str());
                        let wanted = chars_of(c.classes[i].as_str());
                        assert(c@.classes[i as int] == c.classes@[i as int]@);
                        if !has_token_exec(&value, &wanted) {
                            return false;
                        }
                        assert(class_ok(av, c@.classes[i as int]));
                    },
                }
                i += 1;
            }
            let mut i: usize = 0;
            while i < c.attrs.len()
                invariant
                    i <= c.attrs@.len(),
                    av == attrs_view(attrs@),
                    forall|j: int| 0 <= j < i ==> attr_matches(av, #[trigger] c@.attrs[j]),
                decreases c.attrs.len() - i,
            {
                if !attr_selector_matches(attrs, &c.attrs[i]) {
                    assert(c@.attrs[i as int] == c.attrs@[i as int]@);
                    return false;
                }
                i += 1;
            }
            true
        },
        _ => false,
    }
}

impl DomTree {
    /// All path entries point into the arena.
    pub open spec fn path_ok(&self, path: Seq<NodeId>) -> bool {
        forall|i: int| 0 <= i < path.len() ==> #[trigger] path[i] < self.nodes@.len()
    }

    fn matches_selector(&self, sel: &Selector, k: usize, path: &Vec<NodeId>, len: usize) -> (r: bool)
        requires
            self.wf(),
            selector_wf(sel@),
            k < sel.parts@.len(),
            len <= path@.len(),
            self.path_ok(path@),
        ensures
            r == matches_path(sel@, k as int, path_view(self.view_nodes(), path@.take(len as int))),
        decreases len, 0int,
    {
        let ghost nv = self.view_nodes();
        let ghost p = path_view(nv, path@.take(len as int));
        if len == 0 {
            return false;
        }
        assert(p.last() == self.nodes@[path@[len - 1] as int]@);
        assert(sel@.parts[k as int] == sel.parts@[k as int]@);
        if !compound_matches_exec(&sel.parts[k], &self.nodes[path[len - 1]]) {
            return false;
        }
        if k == 0 {
            return true;
        }
        assert(p.drop_last() =~= path_view(nv, path@.take(len - 1)));
        match sel.combinators[k - 1] {
            Combinator::Child => self.matches_selector(sel, k - 1, path, len - 1),
            Combinator::Descendant => self.matches_ancestor_at(sel, k - 1, path, len - 1),
        }
    }

    fn matches_ancestor_at(&self, sel: &Selector, k: usize, path: &Vec<NodeId>, len: usize) -> (r: bool)
        requires
            self.wf(),
            selector_wf(sel@),
            k < sel.parts@.len(),
            len <= path@.len(),
            self.path_ok(path@),
        ensures
            r == matches_ancestor(sel@, k as int, path_view(self.view_nodes(), path@.take(len as int))),
        decreases len, 1int,
    {
        if len == 0 {
            return false;
        }
        let ghost nv = self.view_nodes();
        assert(path_view(nv, path@.take(len as int)).drop_last() =~= path_view(nv, path@.take(len - 1)));
        if self.matches_selector(sel, k, path, len) {
            return true;
        }
        self.matches_ancestor_at(sel, k, path, len - 1)
    }

    fn collect_matches(&self, sel: &Selector, node: NodeId, path: &mut Vec<NodeId>, fuel: usize, out: &mut Vec<NodeId>)
        requires
            self.wf(),
            selector_wf(sel@),
            self.path_ok(old(path)@),
        ensures
            final(path)@ == old(path)@,
            final(out)@ == old(out)@ + query_from(
                self.view_nodes(),
                sel@,
                node,
                path_view(self.view_nodes(), old(path)@),
                fuel as nat,
            ),
        decreases fuel, 0int, 0int,
    {
        let ghost nv = self.view_nodes();
        let ghost start = out@;
        let ghost pv0 = path_view(nv, path@);
        if fuel == 0 || node >= self.nodes.len() {
            assert(out@ =~= start + Seq::<NodeId>::empty());
            return;
        }
        let ghost p0 = path@;
        path.push(node);
        let len = path.len();
        let ghost pv = pv0.push(nv[node as int]);
        assert(path_view(nv, path@) =~= pv);
        assert(path@.take(len as int) =~= path@);
        let last = sel.parts.len() - 1;
        let hit = self.matches_selector(sel, last, path, len);
        if hit {
            out.push(node);
        }
        let ghost here: Seq<NodeId> = if hit { seq![node] } else { Seq::empty() };
        assert(out@ =~= start + here);
        let cs = Self::node_children(&self.nodes[node]);
        assert(cs@ == children_of(nv[node as int]));
        let ghost target = start + here + query_children(nv, sel@, cs@, 0, pv, (fuel - 1) as nat);
        let mut k: usize = 0;
        while k < cs.len()
            invariant
                self.wf(),
                selector_wf(sel@),
                nv == self.view_nodes(),
                node < nv.len(),
                fuel > 0,
                cs@ == children_of(nv[node as int]),
                k <= cs@.len(),
                self.path_ok(path@),
                path@ == p0.push(node),
                path_view(nv, path@) == pv,
                out@ + query_children(nv, sel@, cs@, k as int, pv, (fuel - 1) as nat) == target,
            decreases cs.len() - k,
        {
            let ghost before = out@;
            self.collect_matches(sel, cs[k], path, fuel - 1, out);
            proof {
                let a = query_from(nv, sel@, cs@[k as int], pv, (fuel - 1) as nat);
                let b = query_children(nv, sel@, cs@, k + 1, pv, (fuel - 1) as nat);
                assert(query_children(nv, sel@, cs@, k as int, pv, (fuel - 1) as nat) == a + b);
                assert(before + (a + b) =~= (before + a) + b);
            }
            k += 1;
        }
        assert(out@ =~= target);
        path.pop();
        assert(path@ =~= old(path)@);
        assert(start + here + query_children(nv, sel@, cs@, 0, pv, (fuel - 1) as nat) =~= start + (here
            + query_children(nv, sel@, cs@, 0, pv, (fuel - 1) as nat)));
    }

    /// Nodes matching `selector`, in document order; empty for an unsupported selector.
    pub fn query_all(&self, selector: &str) -> (r: Vec<NodeId>)
        requires
            self.wf(),
        ensures
            r@ == query_all_spec(self.view_nodes(), self.root, selector@),
    {
        let mut out: Vec<NodeId> = Vec::new();
        match Selector::parse(selector) {
            Some(sel) => {
                let mut path: Vec<NodeId> = Vec::new();
                assert(path_view(self.view_nodes(), path@) =~= Seq::<NodeView>::empty());
                self.collect_matches(&sel, self.root, &mut path, self.nodes.len(), &mut out);
                assert(out@ =~= Seq::<NodeId>::empty() + query_from(
                    self.view_nodes(),
                    sel@,
                    self.root,
                    Seq::empty(),
                    self.nodes@.len() as nat,
                ));
            },
            None => {},
        }
        out
    }

    /// The first node matching `selector`, in document order.
    pub fn query(&self, selector: &str) -> (r: Option<NodeId>)
        requires
            self.wf(),
        ensures
            ({
                let all = query_all_spec(self.view_nodes(), self.root, selector@);
                match r {
                    Some(n) => all.len() > 0 && n == all[0],
                    None => all.len() == 0,
                }
            }),
    {
        let all = self.query_all(selector);
        if all.len() > 0 {
            Some(all[0])
        } else {
            None
        }
    }

    fn texts_exec(&self, node: NodeId, fuel: usize, out: &mut Vec<String>)
        requires
            self.wf(),
        ensures
            string_views(final(out)@) == string_views(old(out)@) + texts_of(self.view_nodes(), node, fuel as nat),
        decreases fuel, 0int, 0int,
    {
        let ghost nv = self.view_nodes();
        let ghost start = string_views(out@);
        if fuel == 0 || node >= self.nodes.len() {
            assert(string_views(out@) =~= start + Seq::<Seq<char>>::empty());
            return;
        }
        assert(nv[node as int] == self.nodes@[node as int]@);
        match &self.nodes[node] {
            DomNode::Text { content } => {
                let v = chars_of(content.as_str());
                let (a, b) = trim_bounds(&v, 0, v.len());
                assert(v@.subrange(0, v.len() as int) =~= v@);
                if a < b {
                    let t = string_of_range(&v, a, b);
                    out.push(t);
                    assert(string_views(out@) =~= start + seq![trim(content@)]);
                } else {
                    assert(string_views(out@) =~= start + Seq::<Seq<char>>::empty());
                }
            },
            DomNode::Element { children, .. } => {
                let ghost target = start + texts_children(nv, children@, 0, (fuel - 1) as nat);
                let mut k: usize = 0;
                while k < children.len()
                    invariant
                        self.wf(),
                        nv == self.view_nodes(),
                        fuel > 0,
                        k <= children@.len(),
                        string_views(out@) + texts_children(nv, children@, k as int, (fuel - 1) as nat)
                            == target,
                    decreases children.len() - k,
                {
                    let ghost before = string_views(out@);
                    self.texts_exec(children[k], fuel - 1, out);
                    proof {
                        let a = texts_of(nv, children@[k as int], (fuel - 1) as nat);
                        let b = texts_children(nv, children@, k + 1, (fuel - 1) as nat);
                        assert(before + (a + b) =~= (before + a) + b);
                    }
                    k += 1;
                }
                assert(string_views(out@) =~= target);
            },
            _ => {
                assert(string_views(out@) =~= start + Seq::<Seq<char>>::empty());
            },
        }
    }

    /// Appends the trimmed, non-empty texts under `node` to `out`, in document order.
    pub fn collect_all_text(&self, node: NodeId, out: &mut Vec<String>)
        requires
            self.wf(),
        ensures
            string_views(final(out)@) == string_views(old(out)@) + texts_of(
                self.view_nodes(),
                node,
                self.nodes@.len() as nat,
            ),
    {
        self.texts_exec(node, self.nodes.len(), out);
    }
}

/// The texts under every node that `selector` matches, node after node.
pub fn select_from_node(tree: &DomTree, selector: &str) -> (r: Vec<String>)
    requires
        tree.wf(),
    ensures
        string_views(r@) == texts_of_nodes(
            tree.view_nodes(),
            query_all_spec(tree.view_nodes(), tree.root, selector@),
            tree.nodes@.len() as nat,
        ),
{
    let ids = tree.query_all(selector);
    let mut out: Vec<String> = Vec::new();
    let mut i: usize = 0;
    while i < ids.len()
        invariant
            tree.wf(),
            i <= ids@.len(),
            string_views(out@) == texts_of_nodes(tree.view_nodes(), ids@.take(i as int), tree.nodes@.len() as nat),
        decreases ids.len() - i,
    {
        assert(ids@.take(i + 1).drop_last() =~= ids@.take(i as int));
        tree.collect_all_text(ids[i], &mut out);
        i += 1;
    }
    assert(ids@.take(ids.len() as int) =~= ids@);
    out
}


// ─── Document order ──────────────────────────────────────────────────────────

/// The nodes under `node` (itself included) in document (pre-order) order,
/// each with the nodes on its path from the top, looking at most `fuel`
/// levels deep; `path` holds the nodes above `node`.
pub open spec fn walk(nodes: Seq<NodeView>, node: NodeId, path: Seq<NodeView>, fuel: nat) -> Seq<(NodeId, Seq<NodeView>)>
    decreases fuel, 0int, 0int,
{
    if fuel == 0 || node >= nodes.len() {
        Seq::empty()
    } else {
        let p = path.push(nodes[node as int]);
        seq![(node, p)] + walk_children(nodes, children_of(nodes[node as int]), 0, p, (fuel - 1) as nat)
    }
}

/// `walk` over the children `cs[k..]`, concatenated.
pub open spec fn walk_children(nodes: Seq<NodeView>, cs: Seq<NodeId>, k: int, path: Seq<NodeView>, fuel: nat) -> Seq<
    (NodeId, Seq<NodeView>),
>
    decreases fuel, 1int, cs.len() - k,
{
    if k < 0 || k >= cs.len() {
        Seq::empty()
    } else {
        walk(nodes, cs[k], path, fuel) + walk_children(nodes, cs, k + 1, path, fuel)
    }
}

/// The nodes of the walk `w` that `sel` matches (at their place in the walk), in order.
pub open spec fn selected(sel: SelectorView, w: Seq<(NodeId, Seq<NodeView>)>) -> Seq<NodeId>
    decreases w.len(),
{
    if w.len() == 0 {
        Seq::empty()
    } else {
        selected(sel, w.drop_last()) + if matches_path(sel, sel.parts.len() - 1, w.last().1) {
            seq![w.last().0]
        } else {
            Seq::<NodeId>::empty()
        }
    }
}

proof fn lemma_selected_add(sel: SelectorView, a: Seq<(NodeId, Seq<NodeView>)>, b: Seq<(NodeId, Seq<NodeView>)>)
    ensures
        selected(sel, a + b) == selected(sel, a) + selected(sel, b),
    decreases b.len(),
{
    if b.len() == 0 {
        assert(a + b =~= a);
        assert(selected(sel, a) + selected(sel, b) =~= selected(sel, a));
    } else {
        assert((a + b).drop_last() =~= a + b.drop_last());
        lemma_selected_add(sel, a, b.drop_last());
        assert((a + b).last() == b.last());
        assert(selected(sel, a + b) =~= selected(sel, a) + selected(sel, b));
    }
}

proof fn lemma_query_walk(nodes: Seq<NodeView>, sel: SelectorView, node: NodeId, path: Seq<NodeView>, fuel: nat)
    ensures
        query_from(nodes, sel, node, path, fuel) == selected(sel, walk(nodes, node, path, fuel)),
    decreases fuel, 0int, 0int,
{
    if fuel == 0 || node >= nodes.len() {
    } else {
        let p = path.push(nodes[node as int]);
        let cs = children_of(nodes[node as int]);
        lemma_children_walk(nodes, sel, cs, 0, p, (fuel - 1) as nat);
        let first: Seq<(NodeId, Seq<NodeView>)> = seq![(node, p)];
        lemma_selected_add(sel, first, walk_children(nodes, cs, 0, p, (fuel - 1) as nat));
        assert(first.drop_last() =~= Seq::<(NodeId, Seq<NodeView>)>::empty());
        assert(selected(sel, first.drop_last()) == Seq::<NodeId>::empty());
        assert(first.last() == (node, p));
        assert(selected(sel, first) =~= (if matches_path(sel, sel.parts.len() - 1, p) {
            seq![node]
        } else {
            Seq::<NodeId>::empty()
        }));
    }
}

proof fn lemma_children_walk(nodes: Seq<NodeView>, sel: SelectorView, cs: Seq<NodeId>, k: int, path: Seq<NodeView>, fuel: nat)
    ensures
        query_children(nodes, sel, cs, k, path, fuel) == selected(sel, walk_children(nodes, cs, k, path, fuel)),
    decreases fuel, 1int, cs.len() - k,
{
    if k < 0 || k >= cs.len() {
    } else {
        lemma_query_walk(nodes, sel, cs[k], path, fuel);
        lemma_children_walk(nodes, sel, cs, k + 1, path, fuel);
        lemma_selected_add(sel, walk(nodes, cs[k], path, fuel), walk_children(nodes, cs, k + 1, path, fuel));
    }
}

/// The node of each step of a walk.
pub open spec fn walk_nodes(w: Seq<(NodeId, Seq<NodeView>)>) -> Seq<NodeId> {
    w.map_values(|x: (NodeId, Seq<NodeView>)| x.0)
}

proof fn lemma_selected_within(sel: SelectorView, w: Seq<(NodeId, Seq<NodeView>)>, x: NodeId)
    ensures
        selected(sel, w).contains(x) ==> walk_nodes(w).contains(x),
    decreases w.len(),
{
    if w.len() > 0 {
        lemma_selected_within(sel, w.drop_last(), x);
        if selected(sel, w).contains(x) {
            let i = choose|i: int| 0 <= i < selected(sel, w).len() && selected(sel, w)[i] == x;
            if i < selected(sel, w.drop_last()).len() {
                assert(selected(sel, w.drop_last())[i] == x);
                let j = choose|j: int| 0 <= j < walk_nodes(w.drop_last()).len() && walk_nodes(w.drop_last())[j] == x;
                assert(walk_nodes(w)[j] == x);
            } else {
                assert(walk_nodes(w)[w.len() - 1] == x);
            }
        }
    }
}

proof fn lemma_selected_once(sel: SelectorView, w: Seq<(NodeId, Seq<NodeView>)>)
    requires
        walk_nodes(w).no_duplicates(),
    ensures
        selected(sel, w).no_duplicates(),
    decreases w.len(),
{
    if w.len() > 0 {
        let d = w.drop_last();
        assert(walk_nodes(d) =~= walk_nodes(w).drop_last());
        lemma_selected_once(sel, d);
        lemma_selected_within(sel, d, w.last().0);
        if walk_nodes(d).contains(w.last().0) {
            let j = choose|j: int| 0 <= j < walk_nodes(d).len() && walk_nodes(d)[j] == w.last().0;
            assert(walk_nodes(w)[j] == walk_nodes(w)[w.len() - 1]);
        }
        let s = selected(sel, w);
        let sd = selected(sel, d);
        assert forall|a: int, b: int| 0 <= a < b < s.len() implies s[a] != s[b] by {
            if b >= sd.len() {
                assert(s[b] == w.last().0);
                assert(s[a] == sd[a]);
                assert(sd.contains(sd[a]));
            } else {
                assert(s[a] == sd[a] && s[b] == sd[b]);
            }
        }
    }
}

/// `query_all` picks the nodes in document order: exactly the nodes of the
/// pre-order walk from the root that the selector matches, in walk order (none
/// for an unsupported selector). Where no node appears twice in the walk (a
/// tree in which no node is shared), each matching node is picked once.
pub proof fn lemma_query_all_in_document_order(nodes: Seq<NodeView>, root: NodeId, selector: Seq<char>)
    ensures
        query_all_spec(nodes, root, selector) == match parse_selector(selector) {
            Some(sel) => selected(sel, walk(nodes, root, Seq::empty(), nodes.len())),
            None => Seq::<NodeId>::empty(),
        },
        walk_nodes(walk(nodes, root, Seq::empty(), nodes.len())).no_duplicates() ==> query_all_spec(
            nodes,
            root,
            selector,
        ).no_duplicates(),
{
    match parse_selector(selector) {
        Some(sel) => {
            lemma_query_walk(nodes, sel, root, Seq::empty(), nodes.len());
            if walk_nodes(walk(nodes, root, Seq::empty(), nodes.len())).no_duplicates() {
                lemma_selected_once(sel, walk(nodes, root, Seq::empty(), nodes.len()));
            }
        },
        None => {},
    }
}

// ─── Class words ─────────────────────────────────────────────────────────────

/// `w` is a word: non-empty, without whitespace.
pub open spec fn is_word(w: Seq<char>) -> bool {
    w.len() > 0 && forall|k: int| 0 <= k < w.len() ==> !is_ws(#[trigger] w[k])
}

/// A class value that is a single word lists exactly that word: `.c` matches
/// it only when `c` is the whole value ("btn-primary" never lists "btn").
pub proof fn lemma_single_class_word(v: Seq<char>, c: Seq<char>)
    requires
        is_word(v),
    ensures
        has_token(v, c) <==> c == v,
{
    if has_token(v, c) {
        let i = choose|i: int| is_token_at(v, c, i);
        if i > 0 {
            assert(is_ws(v[i - 1]));
        }
        if i + c.len() < v.len() {
            assert(is_ws(v[i + c.len()]));
        }
        assert(c =~= v);
    }
    if c == v {
        assert(v.subrange(0, v.len() as int) =~= v);
        assert(is_token_at(v, c, 0));
    }
}

/// A class value of two words separated by a space lists exactly those two
/// words: `.c` matches it when `c` is one of them, and no other text does
/// (not a part of a word, not the two words together).
pub proof fn lemma_two_class_words(w1: Seq<char>, w2: Seq<char>, c: Seq<char>)
    requires
        is_word(w1),
        is_word(w2),
    ensures
        has_token(w1 + seq![' '] + w2, c) <==> (c == w1 || c == w2),
{
    let v = w1 + seq![' '] + w2;
    let n = w1.len() as int;
    assert(v[n] == ' ');
    assert(is_ws(' '));
    assert forall|j: int| 0 <= j < v.len() && j != n implies !is_ws(#[trigger] v[j]) by {
        if j < n {
            assert(v[j] == w1[j]);
        } else {
            assert(v[j] == w2[j - n - 1]);
        }
    }
    if has_token(v, c) {
        let i = choose|i: int| is_token_at(v, c, i);
        assert(i == 0 || i == n + 1) by {
            if i > 0 {
                assert(is_ws(v[i - 1]));
            }
        }
        assert(i + c.len() == n || i + c.len() == v.len()) by {
            if i + c.len() < v.len() {
                assert(is_ws(v[i + c.len()]));
            }
        }
        if i == 0 && i + c.len() == v.len() {
            assert(c[n] == v[n]);
            assert(!is_ws(c[n]));
        }
        if i == n + 1 && i + c.len() == n {
            assert(false);
        }
        if i == 0 && i + c.len() == n {
            assert(c =~= w1) by {
                assert forall|k: int| 0 <= k < c.len() implies c[k] == w1[k] by {
                    assert(c[k] == v.subrange(0, n)[k]);
                }
            }
        }
        if i == n + 1 {
            assert(c =~= w2) by {
                assert forall|k: int| 0 <= k < c.len() implies c[k] == w2[k] by {
                    assert(c[k] == v.subrange(n + 1, v.len() as int)[k]);
                }
            }
        }
    }
    if c == w1 {
        assert(v.subrange(0, n) =~= w1);
        assert(is_token_at(v, c, 0));
    }
    if c == w2 {
        assert(v.subrange(n + 1, v.len() as int) =~= w2);
        assert(is_token_at(v, c, n + 1));
    }
}

// ─── Combinators ─────────────────────────────────────────────────────────────

/// `w` is a tag name: non-empty, without delimiters (whitespace, `#`, `.`,
/// `[`, `]`, `>`, `=` and quotes).
pub open spec fn is_name(w: Seq<char>) -> bool {
    w.len() > 0 && forall|k: int| 0 <= k < w.len() ==> !is_delim(#[trigger] w[k])
}

/// The compound that is just the tag `t`.
pub open spec fn tag_compound(t: Seq<char>) -> CompoundView {
    CompoundView { tag: Some(t), ..empty_compound() }
}

/// The selector `a <combinator> b` of two tag names.
pub open spec fn two_tags(a: Seq<char>, comb: Combinator, b: Seq<char>) -> SelectorView {
    SelectorView { parts: seq![tag_compound(a), tag_compound(b)], combinators: seq![comb] }
}

proof fn lemma_ident_run(s: Seq<char>, i: int, e: int)
    requires
        0 <= i <= e <= s.len(),
        forall|j: int| i <= j < e ==> !is_delim(s[j]),
        e == s.len() || is_delim(s[e]),
    ensures
        ident_end(s, i) == e,
    decreases e - i,
{
    if i < e {
        lemma_ident_run(s, i + 1, e);
    }
}

proof fn lemma_tag_compound(s: Seq<char>, i: int, e: int)
    requires
        0 <= i < e <= s.len(),
        forall|j: int| i <= j < e ==> !is_delim(s[j]),
        e == s.len() || is_ws(s[e]) || s[e] == '>',
    ensures
        parse_compound(s, i, empty_compound(), true) == Some((tag_compound(s.subrange(i, e)), e)),
        skip_ws(s, i) == i,
{
    assert(!is_delim(s[i]));
    lemma_ident_run(s, i + 1, e);
    let acc = CompoundView { tag: Some(s.subrange(i, e)), ..empty_compound() };
    assert(parse_compound(s, e, acc, false) == Some((acc, e)));
}

/// `a > b` (with or without spaces around `>`) joins the two compounds with
/// the child combinator, and `a b` with the descendant one.
pub proof fn lemma_combinators_parse(a: Seq<char>, b: Seq<char>)
    requires
        is_name(a),
        is_name(b),
    ensures
        parse_selector(a + seq!['>'] + b) == Some(two_tags(a, Combinator::Child, b)),
        parse_selector(a + seq![' ', '>', ' '] + b) == Some(two_tags(a, Combinator::Child, b)),
        parse_selector(a + seq![' '] + b) == Some(two_tags(a, Combinator::Descendant, b)),
{
    let n = a.len() as int;
    let m = b.len() as int;
    let one = SelectorView { parts: seq![tag_compound(a)], combinators: Seq::empty() };
    // a>b
    let s = a + seq!['>'] + b;
    assert forall|j: int| 0 <= j < n implies !is_delim(s[j]) by {
        assert(s[j] == a[j]);
    }
    assert forall|j: int| n + 1 <= j < n + 1 + m implies !is_delim(s[j]) by {
        assert(s[j] == b[j - n - 1]);
    }
    lemma_tag_compound(s, 0, n);
    lemma_tag_compound(s, n + 1, n + 1 + m);
    assert(s.subrange(0, n) =~= a);
    assert(s.subrange(n + 1, n + 1 + m) =~= b);
    assert(skip_ws(s, n) == n);
    assert(skip_ws(s, s.len() as int) == s.len());
    assert(parse_rest(s, s.len() as int, two_tags(a, Combinator::Child, b)) == Some(two_tags(a, Combinator::Child, b)));
    assert(one.parts.push(tag_compound(b)) =~= two_tags(a, Combinator::Child, b).parts);
    assert(one.combinators.push(Combinator::Child) =~= two_tags(a, Combinator::Child, b).combinators);
    assert(parse_rest(s, n, one) == Some(two_tags(a, Combinator::Child, b)));
    // a > b
    let t = a + seq![' ', '>', ' '] + b;
    assert forall|j: int| 0 <= j < n implies !is_delim(t[j]) by {
        assert(t[j] == a[j]);
    }
    assert forall|j: int| n + 3 <= j < n + 3 + m implies !is_delim(t[j]) by {
        assert(t[j] == b[j - n - 3]);
    }
    assert(is_ws(' '));
    lemma_tag_compound(t, 0, n);
    lemma_tag_compound(t, n + 3, n + 3 + m);
    assert(t.subrange(0, n) =~= a);
    assert(t.subrange(n + 3, n + 3 + m) =~= b);
    assert(t[n] == ' ' && t[n + 1] == '>' && t[n + 2] == ' ');
    assert(skip_ws(t, n + 1) == n + 1);
    assert(skip_ws(t, n) == n + 1);
    assert(skip_ws(t, n + 3) == n + 3);
    assert(skip_ws(t, n + 2) == n + 3);
    assert(skip_ws(t, t.len() as int) == t.len());
    assert(parse_rest(t, t.len() as int, two_tags(a, Combinator::Child, b)) == Some(two_tags(a, Combinator::Child, b)));
    assert(parse_rest(t, n, one) == Some(two_tags(a, Combinator::Child, b)));
    // a b
    let u = a + seq![' '] + b;
    assert forall|j: int| 0 <= j < n implies !is_delim(u[j]) by {
        assert(u[j] == a[j]);
    }
    assert forall|j: int| n + 1 <= j < n + 1 + m implies !is_delim(u[j]) by {
        assert(u[j] == b[j - n - 1]);
    }
    lemma_tag_compound(u, 0, n);
    lemma_tag_compound(u, n + 1, n + 1 + m);
    assert(u.subrange(0, n) =~= a);
    assert(u.subrange(n + 1, n + 1 + m) =~= b);
    assert(u[n] == ' ');
    assert(u[n + 1] == b[0]);
    assert(skip_ws(u, n + 1) == n + 1);
    assert(skip_ws(u, n) == n + 1);
    assert(skip_ws(u, u.len() as int) == u.len());
    assert(one.combinators.push(Combinator::Descendant) =~= two_tags(a, Combinator::Descendant, b).combinators);
    assert(parse_rest(u, u.len() as int, two_tags(a, Combinator::Descendant, b)) == Some(
        two_tags(a, Combinator::Descendant, b),
    ));
    assert(parse_rest(u, n, one) == Some(two_tags(a, Combinator::Descendant, b)));
}

/// A selector `x > y` matches a node exactly when `y` matches it and `x`
/// matches its parent; a farther ancestor does not count.
pub proof fn lemma_child_matches_parent(sel: SelectorView, path: Seq<NodeView>)
    requires
        sel.parts.len() == 2,
        sel.combinators == seq![Combinator::Child],
    ensures
        matches_path(sel, 1, path) <==> (path.len() >= 2 && compound_matches(sel.parts[1], path.last())
            && compound_matches(sel.parts[0], path[path.len() - 2])),
{
    assert(sel.combinators[0] == Combinator::Child);
    if path.len() >= 1 {
        let d = path.drop_last();
        assert(d.len() == path.len() - 1);
        if path.len() >= 2 {
            assert(d.last() == path[path.len() - 2]);
            assert(matches_path(sel, 0, d) == compound_matches(sel.parts[0], d.last()));
        } else {
            assert(!matches_path(sel, 0, d));
        }
    }
}

proof fn lemma_first_compound_on_path(sel: SelectorView, p: Seq<NodeView>)
    requires
        sel.parts.len() >= 1,
    ensures
        matches_ancestor(sel, 0, p) <==> exists|i: int| 0 <= i < p.len() && #[trigger] compound_matches(sel.parts[0], p[i]),
    decreases p.len(),
{
    if p.len() > 0 {
        let d = p.drop_last();
        lemma_first_compound_on_path(sel, d);
        assert(matches_path(sel, 0, p) == compound_matches(sel.parts[0], p.last()));
        if exists|i: int| 0 <= i < p.len() && #[trigger] compound_matches(sel.parts[0], p[i]) {
            let i = choose|i: int| 0 <= i < p.len() && #[trigger] compound_matches(sel.parts[0], p[i]);
            if i < p.len() - 1 {
                assert(d[i] == p[i]);
            }
        }
        if exists|i: int| 0 <= i < d.len() && #[trigger] compound_matches(sel.parts[0], d[i]) {
            let i = choose|i: int| 0 <= i < d.len() && #[trigger] compound_matches(sel.parts[0], d[i]);
            assert(d[i] == p[i]);
        }
    }
}

/// A selector `x y` matches a node exactly when `y` matches it and `x`
/// matches one of its ancestors (its parent or any node above).
pub proof fn lemma_descendant_matches_ancestor(sel: SelectorView, path: Seq<NodeView>)
    requires
        sel.parts.len() == 2,
        sel.combinators == seq![Combinator::Descendant],
    ensures
        matches_path(sel, 1, path) <==> (path.len() >= 1 && compound_matches(sel.parts[1], path.last()) && exists|
            i: int,
        | 0 <= i < path.len() - 1 && #[trigger] compound_matches(sel.parts[0], path[i])),
{
    assert(sel.combinators[0] == Combinator::Descendant);
    if path.len() >= 1 {
        let d = path.drop_last();
        lemma_first_compound_on_path(sel, d);
        if exists|i: int| 0 <= i < path.len() - 1 && #[trigger] compound_matches(sel.parts[0], path[i]) {
            let i = choose|i: int| 0 <= i < path.len() - 1 && #[trigger] compound_matches(sel.parts[0], path[i]);
            assert(d[i] == path[i]);
        }
        if exists|i: int| 0 <= i < d.len() && #[trigger] compound_matches(sel.parts[0], d[i]) {
            let i = choose|i: int| 0 <= i < d.len() && #[trigger] compound_matches(sel.parts[0], d[i]);
            assert(d[i] == path[i]);
        }
    }
}

} // verus!
