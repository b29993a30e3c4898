//! Syntax trees, and the entries of a code skeleton that is drawn from them.
use vstd::prelude::*;

use crate::text;

verus! {

/// A node of a syntax tree.
#[derive(Debug)]
pub struct SyntaxNode {
    pub kind: String,
    /// The field of the parent that the node is, where it is one.
    pub field: Option<String>,
    /// The source text that the node spans.
    pub text: String,
    pub start_row: usize,
    pub end_row: usize,
    /// All children, tokens among them.
    pub children: Vec<SyntaxNode>,
}

/// The part of a skeleton that an entry belongs to.
#[derive(Clone, Copy, Debug, PartialEq, Eq, Structural)]
pub enum Section {
    Import,
    Constant,
    Type,
    Function,
}

/// How the children of an entry are shown.
#[derive(Clone, Copy, Debug, PartialEq, Eq, Structural)]
pub enum ChildKind {
    /// Each on a line of its own.
    Detailed,
    /// All on one line.
    Brief,
}

/// An entry of a skeleton.
#[derive(Debug)]
pub struct SkeletonEntry {
    pub section: Section,
    pub start_row: usize,
    pub end_row: usize,
    pub text: String,
    pub child_kind: ChildKind,
    pub children: Vec<String>,
    /// The paths that an import brings in, each by its parts.
    pub imports: Vec<Vec<String>>,
}

/// The contents of a [`SkeletonEntry`].
pub struct EntryView {
    pub section: Section,
    pub start_row: usize,
    pub end_row: usize,
    pub text: Seq<char>,
    pub child_kind: ChildKind,
    pub children: Seq<Seq<char>>,
    pub imports: Seq<Seq<Seq<char>>>,
}

/// The contents of a list of paths.
pub open spec fn path_views(paths: Seq<Vec<String>>) -> Seq<Seq<Seq<char>>> {
    paths.map_values(|p: Vec<String>| text::contents(p@))
}

impl View for SkeletonEntry {
    type V = EntryView;

    open spec fn view(&self) -> EntryView {
        EntryView {
            section: self.section,
            start_row: self.start_row,
            end_row: self.end_row,
            text: self.text@,
            child_kind: self.child_kind,
            children: text::contents(self.children@),
            imports: path_views(self.imports@),
        }
    }
}

/// The first node of a kind.
pub open spec fn first_of_kind(nodes: Seq<SyntaxNode>, kind: Seq<char>) -> Option<SyntaxNode>
    decreases nodes.len(),
{
    if nodes.len() == 0 {
        None
    } else if nodes[0].kind@ == kind {
        Some(nodes[0])
    } else {
        first_of_kind(nodes.drop_first(), kind)
    }
}

/// The first node that is a field of its parent.
pub open spec fn first_of_field(nodes: Seq<SyntaxNode>, field: Seq<char>) -> Option<SyntaxNode>
    decreases nodes.len(),
{
    if nodes.len() == 0 {
        None
    } else if text::opt_text(nodes[0].field) == Some(field) {
        Some(nodes[0])
    } else {
        first_of_field(nodes.drop_first(), field)
    }
}

/// Whether one of the nodes is of a kind.
pub open spec fn has_kind(nodes: Seq<SyntaxNode>, kind: Seq<char>) -> bool {
    exists|i: int| 0 <= i < nodes.len() && (#[trigger] nodes[i]).kind@ == kind
}

/// One more node adds its own kind.
pub proof fn has_kind_grows(nodes: Seq<SyntaxNode>, n: int, kind: Seq<char>)
    requires
        0 <= n < nodes.len(),
    ensures
        has_kind(nodes.take(n + 1), kind) == (has_kind(nodes.take(n), kind) || nodes[n].kind@
            == kind),
{
    let longer = nodes.take(n + 1);
    let shorter = nodes.take(n);
    if has_kind(longer, kind) {
        let i = choose|i: int| 0 <= i < longer.len() && (#[trigger] longer[i]).kind@ == kind;
        if i < n {
            assert(shorter[i] == longer[i]);
        }
    }
    if has_kind(shorter, kind) {
        let i = choose|i: int| 0 <= i < shorter.len() && (#[trigger] shorter[i]).kind@ == kind;
        assert(longer[i] == shorter[i]);
    }
    assert(longer[n] == nodes[n]);
}

/// The first child of a kind.
pub fn find_child<'a>(node: &'a SyntaxNode, kind: &str) -> (r: Option<&'a SyntaxNode>)
    ensures
        match r {
            Some(child) => first_of_kind(node.children@, kind@) == Some(*child),
            None => first_of_kind(node.children@, kind@) is None,
        },
{
    let ghost all = node.children@;
    let mut i: usize = 0;
    assert(all.skip(0) =~= all);
    while i < node.children.len()
        invariant
            i <= node.children@.len(),
            all == node.children@,
            first_of_kind(all, kind@) == first_of_kind(all.skip(i as int), kind@),
        decreases node.children@.len() - i,
    {
        assert(all.skip(i as int)[0] == node.children@[i as int]);
        if text::str_eq(node.children[i].kind.as_str(), kind) {
            return Some(&node.children[i]);
        }
        assert(all.skip(i as int).drop_first() =~= all.skip(i + 1));
        i = i + 1;
    }
    None
}

/// The first child that is a field of the node.
pub fn child_by_field_name<'a>(node: &'a SyntaxNode, field: &str) -> (r: Option<&'a SyntaxNode>)
    ensures
        match r {
            Some(child) => first_of_field(node.children@, field@) == Some(*child),
            None => first_of_field(node.children@, field@) is None,
        },
{
    let ghost all = node.children@;
    let mut i: usize = 0;
    assert(all.skip(0) =~= all);
    while i < node.children.len()
        invariant
            i <= node.children@.len(),
            all == node.children@,
            first_of_field(all, field@) == first_of_field(all.skip(i as int), field@),
        decreases node.children@.len() - i,
    {
        assert(all.skip(i as int)[0] == node.children@[i as int]);
        if let Some(name) = &node.children[i].field {
            if text::str_eq(name.as_str(), field) {
                return Some(&node.children[i]);
            }
        }
        assert(all.skip(i as int).drop_first() =~= all.skip(i + 1));
        i = i + 1;
    }
    None
}

/// The first node of a kind is the one before which no node is of that kind.
pub proof fn the_first_of_a_kind_is_found(nodes: Seq<SyntaxNode>, kind: Seq<char>, k: int)
    requires
        0 <= k <= nodes.len(),
        forall|i: int| 0 <= i < k ==> (#[trigger] nodes[i]).kind@ != kind,
        k < nodes.len() ==> nodes[k].kind@ == kind,
    ensures
        k < nodes.len() ==> first_of_kind(nodes, kind) == Some(nodes[k]),
        k == nodes.len() ==> first_of_kind(nodes, kind) is None,
        has_kind(nodes, kind) <==> k < nodes.len(),
    decreases nodes.len(),
{
    if nodes.len() > 0 && k > 0 {
        let rest = nodes.drop_first();
        assert(nodes[0].kind@ != kind);
        assert forall|i: int| 0 <= i < k - 1 implies (#[trigger] rest[i]).kind@ != kind by {
            assert(rest[i] == nodes[i + 1]);
        }
        the_first_of_a_kind_is_found(rest, kind, k - 1);
    }
}

/// The first node that is a field is the one before which no node is that field.
pub proof fn the_first_of_a_field_is_found(nodes: Seq<SyntaxNode>, field: Seq<char>, k: int)
    requires
        0 <= k <= nodes.len(),
        forall|i: int|
            0 <= i < k ==> !((#[trigger] nodes[i]).field matches Some(name) && name@ == field),
        k < nodes.len() ==> (nodes[k].field matches Some(name) && name@ == field),
    ensures
        k < nodes.len() ==> first_of_field(nodes, field) == Some(nodes[k]),
        k == nodes.len() ==> first_of_field(nodes, field) is None,
    decreases nodes.len(),
{
    if nodes.len() > 0 && k > 0 {
        let rest = nodes.drop_first();
        assert(!(nodes[0].field matches Some(name) && name@ == field));
        assert forall|i: int| 0 <= i < k - 1 implies !((
        #[trigger] rest[i]).field matches Some(name) && name@ == field) by {
            assert(rest[i] == nodes[i + 1]);
        }
        the_first_of_a_field_is_found(rest, field, k - 1);
    }
}

/// The contents of an entry are those of its parts.
pub proof fn entries_are_what_they_hold(entry: SkeletonEntry, paths: Seq<Vec<String>>)
    ensures
        entry@.section == entry.section,
        entry@.start_row == entry.start_row,
        entry@.end_row == entry.end_row,
        entry@.text == entry.text@,
        entry@.child_kind == entry.child_kind,
        entry@.children == text::contents(entry.children@),
        entry@.imports == path_views(entry.imports@),
        path_views(paths).len() == paths.len(),
        forall|i: int|
            0 <= i < paths.len() ==> #[trigger] path_views(paths)[i] == text::contents(paths[i]@),
{
}

} // verus!
