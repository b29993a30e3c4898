//! The skeleton of Zig source.
use vstd::prelude::*;
use vstd::string::*;

use crate::syntax;
use crate::syntax::{ChildKind, EntryView, Section, SkeletonEntry, SyntaxNode};
use crate::text;

verus! {

/// Whether a kind of node is a type that a declaration can name.
pub open spec fn names_type(kind: Seq<char>) -> bool {
    kind == "struct_declaration"@ || kind == "enum_declaration"@ || kind == "union_declaration"@
        || kind == "opaque_declaration"@
}

/// Whether a kind of node is a type that a declaration can name.
pub fn is_type_value_kind(kind: &str) -> (r: bool)
    ensures
        r == names_type(kind@),
{
    text::str_eq(kind, "struct_declaration") || text::str_eq(kind, "enum_declaration")
        || text::str_eq(kind, "union_declaration") || text::str_eq(kind, "opaque_declaration")
}

/// Draws the skeleton of Zig source.
#[derive(Clone, Copy, Debug)]
pub struct ZigExtractor;

/// The source text that names what an import brings in: the string among the arguments of the
/// call, or nothing.
pub open spec fn import_text(call: SyntaxNode) -> Seq<char> {
    match syntax::first_of_kind(call.children@, "arguments"@) {
        Some(arguments) => match syntax::first_of_kind(arguments.children@, "string"@) {
            Some(string) => string.text@,
            None => seq![],
        },
        None => seq![],
    }
}

/// What an import brings in: without quotes, and without the suffix of Zig files.
pub open spec fn import_name(call: SyntaxNode) -> Seq<char> {
    text::without_suffix(text::trim_matches(import_text(call), '"'), ".zig"@)
}

/// The parts of the path of an import.
pub open spec fn import_parts(call: SyntaxNode) -> Seq<Seq<char>> {
    text::split(import_name(call), '/')
}

/// Whether a node is a call of the builtin that imports.
pub open spec fn is_import(node: SyntaxNode) -> bool {
    node.kind@ == "builtin_function"@ && (match syntax::first_of_kind(
        node.children@,
        "builtin_identifier"@,
    ) {
        Some(builtin) => builtin.text@ == "@import"@,
        None => false,
    })
}

/// The last import among some nodes.
pub open spec fn last_import(nodes: Seq<SyntaxNode>) -> Option<SyntaxNode>
    decreases nodes.len(),
{
    if nodes.len() == 0 {
        None
    } else if is_import(nodes.last()) {
        Some(nodes.last())
    } else {
        last_import(nodes.drop_last())
    }
}

/// The first type among some nodes.
pub open spec fn first_type(nodes: Seq<SyntaxNode>) -> Option<SyntaxNode>
    decreases nodes.len(),
{
    if nodes.len() == 0 {
        None
    } else if names_type(nodes[0].kind@) {
        Some(nodes[0])
    } else {
        first_type(nodes.drop_first())
    }
}

/// The text of a field of a node, behind a prefix, or nothing where the node has no such field.
pub open spec fn field_text(node: SyntaxNode, field: Seq<char>, prefix: Seq<char>) -> Seq<char> {
    match syntax::first_of_field(node.children@, field) {
        Some(child) => prefix + child.text@,
        None => seq![],
    }
}

/// A field of a type: its name, and its type except in an enum.
pub open spec fn shown_field(field: SyntaxNode, in_enum: bool) -> Seq<char> {
    let name = match syntax::first_of_field(field.children@, "name"@) {
        Some(child) => child.text@,
        None => "_"@,
    };
    if in_enum {
        name
    } else {
        name + field_text(field, "type"@, ": "@)
    }
}

/// The fields among some nodes, in order.
pub open spec fn shown_fields(nodes: Seq<SyntaxNode>, in_enum: bool) -> Seq<Seq<char>>
    decreases nodes.len(),
{
    if nodes.len() == 0 {
        seq![]
    } else if nodes.last().kind@ == "container_field"@ {
        shown_fields(nodes.drop_last(), in_enum).push(shown_field(nodes.last(), in_enum))
    } else {
        shown_fields(nodes.drop_last(), in_enum)
    }
}

/// An entry that has only text.
pub open spec fn plain_entry(section: Section, node: SyntaxNode, text: Seq<char>) -> EntryView {
    EntryView {
        section,
        start_row: node.start_row,
        end_row: node.end_row,
        text,
        child_kind: ChildKind::Detailed,
        children: seq![],
        imports: seq![],
    }
}

/// The first of some texts, at most as many as a limit says.
pub open spec fn cut(list: Seq<Seq<char>>, limit: usize) -> Seq<Seq<char>> {
    if list.len() <= limit {
        list
    } else {
        list.take(limit as int)
    }
}

/// The entry of a type that a declaration names. It shows at most as many fields as the limit
/// says.
pub open spec fn type_entry(
    node: SyntaxNode,
    container: SyntaxNode,
    field_limit: usize,
    vis: Seq<char>,
    name: Seq<char>,
) -> EntryView {
    let in_enum = container.kind@ == "enum_declaration"@;
    EntryView {
        child_kind: if in_enum {
            ChildKind::Brief
        } else {
            ChildKind::Detailed
        },
        children: cut(shown_fields(container.children@, in_enum), field_limit),
        ..plain_entry(
            Section::Type,
            node,
            vis + text::without_suffix(container.kind@, "_declaration"@) + " "@ + name,
        )
    }
}

/// The entry of a variable declaration: of an import where it makes one, else of a type where it
/// names one, else of a constant or variable. One without a name has none.
pub open spec fn var_entry(node: SyntaxNode, field_limit: usize) -> Option<EntryView> {
    let nodes = node.children@;
    let vis = if syntax::has_kind(nodes, "pub"@) {
        "pub "@
    } else {
        ""@
    };
    let keyword = if syntax::has_kind(nodes, "const"@) {
        "const"@
    } else {
        "var"@
    };
    match syntax::first_of_kind(nodes, "identifier"@) {
        None => None,
        Some(identifier) => match (last_import(nodes), first_type(nodes)) {
            (Some(call), _) => Some(
                EntryView {
                    imports: seq![import_parts(call)],
                    ..plain_entry(Section::Import, node, seq![])
                },
            ),
            (None, Some(container)) => Some(
                type_entry(node, container, field_limit, vis, identifier.text@),
            ),
            (None, None) => Some(
                plain_entry(
                    Section::Constant,
                    node,
                    vis + keyword + " "@ + identifier.text@ + field_text(node, "type"@, ": "@),
                ),
            ),
        },
    }
}

/// Whether a kind of node is a modifier of a function.
pub open spec fn is_modifier(kind: Seq<char>) -> bool {
    kind == "pub"@ || kind == "inline"@ || kind == "noinline"@ || kind == "extern"@ || kind
        == "export"@
}

/// The modifiers among some nodes, in order.
pub open spec fn modifiers(nodes: Seq<SyntaxNode>) -> Seq<Seq<char>>
    decreases nodes.len(),
{
    if nodes.len() == 0 {
        seq![]
    } else if is_modifier(nodes.last().kind@) {
        modifiers(nodes.drop_last()).push(nodes.last().kind@)
    } else {
        modifiers(nodes.drop_last())
    }
}

/// The entry of a function: its modifiers, name, parameters and return type on one line. One
/// without a name has none.
pub open spec fn fn_entry(node: SyntaxNode) -> Option<EntryView> {
    match syntax::first_of_field(node.children@, "name"@) {
        None => None,
        Some(name) => {
            let words = modifiers(node.children@);
            let vis = if words.len() == 0 {
                seq![]
            } else {
                text::join(words, " "@) + " "@
            };
            let params = match syntax::first_of_kind(node.children@, "parameters"@) {
                Some(child) => child.text@,
                None => "()"@,
            };
            Some(
                plain_entry(
                    Section::Function,
                    node,
                    text::compact(
                        vis + "fn "@ + name.text@ + params + field_text(node, "type"@, " "@),
                    ),
                ),
            )
        },
    }
}

/// The entry of a node, if it has one.
pub open spec fn entry_of(node: SyntaxNode, field_limit: usize) -> Option<EntryView> {
    if node.kind@ == "function_declaration"@ {
        fn_entry(node)
    } else if node.kind@ == "variable_declaration"@ {
        var_entry(node, field_limit)
    } else {
        None
    }
}

pub open spec fn opt_entry(entry: Option<SkeletonEntry>) -> Option<EntryView> {
    match entry {
        Some(e) => Some(e@),
        None => None,
    }
}

fn new_entry(section: Section, node: &SyntaxNode, text: String) -> (r: SkeletonEntry)
    ensures
        r@ == plain_entry(section, *node, text@),
{
    let r = SkeletonEntry {
        section,
        start_row: node.start_row,
        end_row: node.end_row,
        text,
        child_kind: ChildKind::Detailed,
        children: Vec::new(),
        imports: Vec::new(),
    };
    assert(r@.children =~= seq![]);
    assert(r@.imports =~= seq![]);
    r
}

fn write_field_text(node: &SyntaxNode, field: &str, prefix: &str) -> (r: String)
    ensures
        r@ == field_text(*node, field@, prefix@),
{
    match syntax::child_by_field_name(node, field) {
        Some(child) => prefix.to_owned().concat(child.text.as_str()),
        None => String::new(),
    }
}

fn write_field(field: &SyntaxNode, in_enum: bool) -> (r: String)
    ensures
        r@ == shown_field(*field, in_enum),
{
    let name = match syntax::child_by_field_name(field, "name") {
        Some(child) => child.text.as_str(),
        None => "_",
    };
    if in_enum {
        name.to_owned()
    } else {
        name.to_owned().concat(write_field_text(field, "type", ": ").as_str())
    }
}

/// The fields of a type, at most as many as a limit says.
fn extract_fields_truncated(container: &SyntaxNode, in_enum: bool, field_limit: usize) -> (r: Vec<
    String,
>)
    ensures
        text::contents(r@) == cut(shown_fields(container.children@, in_enum), field_limit),
{
    let ghost all = container.children@;
    let mut out: Vec<String> = Vec::new();
    let mut i: usize = 0;
    assert(text::contents(out@) =~= cut(shown_fields(all.take(0), in_enum), field_limit));
    while i < container.children.len()
        invariant
            i <= container.children@.len(),
            all == container.children@,
            text::contents(out@) == cut(shown_fields(all.take(i as int), in_enum), field_limit),
        decreases container.children@.len() - i,
    {
        let ghost before = text::contents(out@);
        let ghost shown = shown_fields(all.take(i as int), in_enum);
        let child = &container.children[i];
        assert(all.take(i + 1).drop_last() =~= all.take(i as int));
        assert(all.take(i + 1).last() == *child);
        if text::str_eq(child.kind.as_str(), "container_field") {
            if out.len() < field_limit {
                out.push(write_field(child, in_enum));
                assert(text::contents(out@) =~= before.push(shown_field(*child, in_enum)));
            }
            assert(text::contents(out@) =~= cut(
                shown.push(shown_field(*child, in_enum)),
                field_limit,
            ));
        }
        i = i + 1;
    }
    assert(all.take(i as int) =~= all);
    out
}

fn is_import_call(node: &SyntaxNode) -> (r: bool)
    ensures
        r == is_import(*node),
{
    if !text::str_eq(node.kind.as_str(), "builtin_function") {
        return false;
    }
    match syntax::find_child(node, "builtin_identifier") {
        Some(builtin) => text::str_eq(builtin.text.as_str(), "@import"),
        None => false,
    }
}

impl ZigExtractor {
    /// The parts of the path that an import brings in.
    pub fn import_path(call: &SyntaxNode) -> (r: Vec<String>)
        ensures
            text::contents(r@) == import_parts(*call),
    {
        let found = match syntax::find_child(call, "arguments") {
            Some(arguments) => syntax::find_child(arguments, "string"),
            None => None,
        };
        let quoted = match found {
            Some(string) => string.text.clone(),
            None => String::new(),
        };
        let inner = text::trimmed(quoted.as_str(), '"');
        let clean = text::strip_suffix(inner.as_str(), ".zig");
        text::split_at_char(clean.as_str(), '/')
    }

    /// The type that a declaration names.
    pub fn find_container(node: &SyntaxNode) -> (r: Option<&SyntaxNode>)
        ensures
            match r {
                Some(container) => first_type(node.children@) == Some(*container),
                None => first_type(node.children@) is None,
            },
    {
        let ghost all = node.children@;
        let mut i: usize = 0;
        assert(all.skip(0) =~= all);
        while i < node.children.len()
            invariant
                i <= node.children@.len(),
                all == node.children@,
                first_type(all) == first_type(all.skip(i as int)),
            decreases node.children@.len() - i,
        {
            assert(all.skip(i as int)[0] == node.children@[i as int]);
            if is_type_value_kind(node.children[i].kind.as_str()) {
                return Some(&node.children[i]);
            }
            assert(all.skip(i as int).drop_first() =~= all.skip(i + 1));
            i = i + 1;
        }
        None
    }

    /// The entry of a variable declaration. That of a type shows at most `field_limit` fields.
    pub fn extract_var_decl(&self, node: &SyntaxNode, field_limit: usize) -> (r: Option<
        SkeletonEntry,
    >)
        ensures
            opt_entry(r) == var_entry(*node, field_limit),
    {
        let ghost all = node.children@;
        let mut has_pub = false;
        let mut is_const = false;
        let mut import_node: Option<&SyntaxNode> = None;
        let mut i: usize = 0;
        while i < node.children.len()
            invariant
                i <= node.children@.len(),
                all == node.children@,
                has_pub == syntax::has_kind(all.take(i as int), "pub"@),
                is_const == syntax::has_kind(all.take(i as int), "const"@),
                match import_node {
                    Some(call) => last_import(all.take(i as int)) == Some(*call),
                    None => last_import(all.take(i as int)) is None,
                },
            decreases node.children@.len() - i,
        {
            let child = &node.children[i];
            proof {
                assert(all.take(i + 1).drop_last() =~= all.take(i as int));
                assert(all.take(i + 1).last() == *child);
                syntax::has_kind_grows(all, i as int, "pub"@);
                syntax::has_kind_grows(all, i as int, "const"@);
            }
            if text::str_eq(child.kind.as_str(), "pub") {
                has_pub = true;
            }
            if text::str_eq(child.kind.as_str(), "const") {
                is_const = true;
            }
            if is_import_call(child) {
                import_node = Some(child);
            }
            i = i + 1;
        }
        assert(all.take(i as int) =~= all);
        let name = match syntax::find_child(node, "identifier") {
            Some(identifier) => identifier.text.as_str(),
            None => {
                return None;
            },
        };
        if let Some(call) = import_node {
            let mut entry = new_entry(Section::Import, node, String::new());
            let path = Self::import_path(call);
            entry.imports.push(path);
            assert(entry@.imports =~= seq![import_parts(*call)]);
            return Some(entry);
        }
        let vis = if has_pub {
            "pub "
        } else {
            ""
        };
        match Self::find_container(node) {
            Some(container) => {
                let in_enum = text::str_eq(container.kind.as_str(), "enum_declaration");
                let keyword = text::strip_suffix(container.kind.as_str(), "_declaration");
                let mut entry = new_entry(
                    Section::Type,
                    node,
                    vis.to_owned().concat(keyword.as_str()).concat(" ").concat(name),
                );
                if in_enum {
                    entry.child_kind = ChildKind::Brief;
                }
                entry.children = extract_fields_truncated(container, in_enum, field_limit);
                Some(entry)
            },
            None => {
                let keyword = if is_const {
                    "const"
                } else {
                    "var"
                };
                let text = vis.to_owned().concat(keyword).concat(" ").concat(name).concat(
                    write_field_text(node, "type", ": ").as_str(),
                );
                Some(new_entry(Section::Constant, node, text))
            },
        }
    }

    /// The entry of a function.
    pub fn extract_fn(&self, node: &SyntaxNode) -> (r: Option<SkeletonEntry>)
        ensures
            opt_entry(r) == fn_entry(*node),
    {
        let name = match syntax::child_by_field_name(node, "name") {
            Some(child) => child.text.as_str(),
            None => {
                return None;
            },
        };
        let params = match syntax::find_child(node, "parameters") {
            Some(child) => child.text.as_str(),
            None => "()",
        };
        let ret = write_field_text(node, "type", " ");
        let ghost all = node.children@;
        let mut words: Vec<&str> = Vec::new();
        let mut i: usize = 0;
        assert(text::str_contents(words@) =~= modifiers(all.take(0)));
        while i < node.children.len()
            invariant
                i <= node.children@.len(),
                all == node.children@,
                text::str_contents(words@) == modifiers(all.take(i as int)),
            decreases node.children@.len() - i,
        {
            let ghost before = text::str_contents(words@);
            let kind = node.children[i].kind.as_str();
            assert(all.take(i + 1).drop_last() =~= all.take(i as int));
            assert(all.take(i + 1).last() == node.children@[i as int]);
            if text::str_eq(kind, "pub") || text::str_eq(kind, "inline") || text::str_eq(
                kind,
                "noinline",
            ) || text::str_eq(kind, "extern") || text::str_eq(kind, "export") {
                words.push(kind);
                assert(text::str_contents(words@) =~= before.push(kind@));
            }
            i = i + 1;
        }
        assert(all.take(i as int) =~= all);
        let vis = if words.len() == 0 {
            String::new()
        } else {
            text::join_strs(&words, " ").concat(" ")
        };
        assert(words@.len() == modifiers(all).len());
        let signature = vis.concat("fn ").concat(name).concat(params).concat(ret.as_str());
        Some(new_entry(Section::Function, node, text::compact_ws(signature.as_str())))
    }

    /// The entry of a node, if it has one. That of a type shows at most `field_limit` fields.
    pub fn extract_nodes(&self, node: &SyntaxNode, field_limit: usize) -> (r: Vec<SkeletonEntry>)
        ensures
            match entry_of(*node, field_limit) {
                Some(entry) => r@.len() == 1 && r@[0]@ == entry,
                None => r@.len() == 0,
            },
    {
        let entry = if text::str_eq(node.kind.as_str(), "function_declaration") {
            self.extract_fn(node)
        } else if text::str_eq(node.kind.as_str(), "variable_declaration") {
            self.extract_var_decl(node, field_limit)
        } else {
            None
        };
        let mut out: Vec<SkeletonEntry> = Vec::new();
        if let Some(e) = entry {
            out.push(e);
        }
        out
    }

    /// Whether a node is a comment that documents what follows it.
    pub fn is_doc_comment(&self, node: &SyntaxNode) -> (r: bool)
        ensures
            r == documents_next(*node),
    {
        text::str_eq(node.kind.as_str(), "comment") && text::starts_with(node.text.as_str(), "///")
            && !text::starts_with(node.text.as_str(), "////")
    }

    /// Whether a node is a comment that documents the file.
    pub fn is_module_doc(&self, node: &SyntaxNode) -> (r: bool)
        ensures
            r == documents_file(*node),
    {
        text::str_eq(node.kind.as_str(), "comment") && text::starts_with(node.text.as_str(), "//!")
    }

    /// Whether a node is a test.
    pub fn is_test_node(&self, node: &SyntaxNode) -> (r: bool)
        ensures
            r == (node.kind@ == "test_declaration"@),
    {
        text::str_eq(node.kind.as_str(), "test_declaration")
    }

    /// What stands between the parts of an import path.
    pub fn import_separator(&self) -> (r: &'static str)
        ensures
            r@ == "/"@,
    {
        "/"
    }
}

/// Whether a node is a comment that documents what follows it: one with exactly three slashes.
pub open spec fn documents_next(node: SyntaxNode) -> bool {
    node.kind@ == "comment"@ && "///"@.is_prefix_of(node.text@) && !"////"@.is_prefix_of(node.text@)
}

/// Whether a node is a comment that documents the file.
pub open spec fn documents_file(node: SyntaxNode) -> bool {
    node.kind@ == "comment"@ && "//!"@.is_prefix_of(node.text@)
}

/// The parts of an import path with the separator between them are what the import names.
pub proof fn import_parts_spell_the_name(call: SyntaxNode)
    ensures
        text::join(import_parts(call), "/"@) == import_name(call),
{
    reveal_strlit("/");
    assert("/"@ =~= seq!['/']);
    text::join_undoes_split(import_name(call), '/');
}

/// A declaration names a type exactly where one of its children is of the kind of a type.
pub proof fn types_are_found(nodes: Seq<SyntaxNode>)
    ensures
        first_type(nodes) is Some <==> exists|i: int|
            0 <= i < nodes.len() && names_type((#[trigger] nodes[i]).kind@),
        first_type(nodes) matches Some(container) ==> names_type(container.kind@),
    decreases nodes.len(),
{
    if nodes.len() > 0 && !names_type(nodes[0].kind@) {
        let rest = nodes.drop_first();
        types_are_found(rest);
        if exists|i: int| 0 <= i < nodes.len() && names_type((#[trigger] nodes[i]).kind@) {
            let i = choose|i: int| 0 <= i < nodes.len() && names_type((#[trigger] nodes[i]).kind@);
            assert(rest[i - 1] == nodes[i]);
        }
        if exists|i: int| 0 <= i < rest.len() && names_type((#[trigger] rest[i]).kind@) {
            let i = choose|i: int| 0 <= i < rest.len() && names_type((#[trigger] rest[i]).kind@);
            assert(nodes[i + 1] == rest[i]);
        }
    }
}

/// A comment documents what follows it or the file, and never both.
pub proof fn comments_document_one_thing(node: SyntaxNode)
    ensures
        !(documents_next(node) && documents_file(node)),
{
    reveal_strlit("///");
    reveal_strlit("//!");
    if documents_next(node) && documents_file(node) {
        assert("///"@[2] == node.text@[2]);
        assert("//!"@[2] == node.text@[2]);
    }
}

/// Functions and variables are declared by the nodes of two kinds, and no other node has an entry.
/// A declaration without a name has none either, and every entry is where its node is.
pub proof fn declarations_have_entries(node: SyntaxNode, field_limit: usize)
    ensures
        entry_of(node, field_limit) is Some <==> {
            ||| node.kind@ == "function_declaration"@ && syntax::first_of_field(
                node.children@,
                "name"@,
            ) is Some
            ||| node.kind@ == "variable_declaration"@ && syntax::first_of_kind(
                node.children@,
                "identifier"@,
            ) is Some
        },
        entry_of(node, field_limit) matches Some(entry) ==> entry.start_row == node.start_row
            && entry.end_row == node.end_row,
        node.kind@ == "function_declaration"@ ==> entry_of(node, field_limit) == fn_entry(node),
        node.kind@ == "variable_declaration"@ ==> entry_of(node, field_limit) == var_entry(
            node,
            field_limit,
        ),
{
    reveal_strlit("function_declaration");
    reveal_strlit("variable_declaration");
    assert("function_declaration"@[0] != "variable_declaration"@[0]);
}

/// Each of the words that can stand before a function, one after the other, and nothing else.
pub proof fn modifiers_are_kept_in_order(first: Seq<SyntaxNode>, rest: Seq<SyntaxNode>)
    ensures
        modifiers(first + rest) == modifiers(first) + modifiers(rest),
        first.len() == 0 ==> modifiers(first).len() == 0,
        first.len() == 1 ==> modifiers(first) == if first[0].kind@ == "pub"@ || first[0].kind@
            == "inline"@ || first[0].kind@ == "noinline"@ || first[0].kind@ == "extern"@
            || first[0].kind@ == "export"@ {
            seq![first[0].kind@]
        } else {
            seq![]
        },
    decreases rest.len(),
{
    if first.len() == 1 {
        assert(first.drop_last() =~= seq![]);
        assert(modifiers(first.drop_last()) =~= seq![]);
        if is_modifier(first[0].kind@) {
            assert(modifiers(first) =~= seq![first[0].kind@]);
        }
    }
    if rest.len() == 0 {
        assert(first + rest =~= first);
    } else {
        modifiers_are_kept_in_order(first, rest.drop_last());
        assert((first + rest).drop_last() =~= first + rest.drop_last());
    }
    assert(modifiers(first + rest) =~= modifiers(first) + modifiers(rest));
}

spec fn is_word(s: Seq<char>) -> bool {
    s.len() > 0 && forall|i: int| 0 <= i < s.len() ==> !text::is_blank(#[trigger] s[i])
}

proof fn lemma_modifier_is_word(kind: Seq<char>)
    requires
        is_modifier(kind),
    ensures
        is_word(kind),
{
    reveal_strlit("pub");
    reveal_strlit("inline");
    reveal_strlit("noinline");
    reveal_strlit("extern");
    reveal_strlit("export");
}

proof fn lemma_modifiers_are_words(nodes: Seq<SyntaxNode>)
    ensures
        forall|i: int| 0 <= i < modifiers(nodes).len() ==> is_word(#[trigger] modifiers(nodes)[i]),
    decreases nodes.len(),
{
    if nodes.len() > 0 {
        let earlier = modifiers(nodes.drop_last());
        lemma_modifiers_are_words(nodes.drop_last());
        if is_modifier(nodes.last().kind@) {
            lemma_modifier_is_word(nodes.last().kind@);
            assert forall|i: int| 0 <= i < modifiers(nodes).len() implies is_word(
                #[trigger] modifiers(nodes)[i],
            ) by {
                if i < earlier.len() {
                    assert(modifiers(nodes)[i] == earlier[i]);
                }
            }
        }
    }
}

proof fn lemma_compact_word(word: Seq<char>)
    requires
        is_word(word),
    ensures
        text::compact(word) == word,
{
    assert forall|i: int| 0 <= i < word.len() implies #[trigger] word[i] != ' ' && word[i] != '\t'
        && word[i] != '\n' && word[i] != '\r' by {
        assert(!text::is_blank(word[i]));
    }
    text::compacting_is_by_stretches(word, seq![]);
}

proof fn lemma_compact_then_space(s: Seq<char>)
    requires
        s.len() > 0,
        !text::is_blank(s.last()),
        text::compact(s) == s,
    ensures
        text::compact(s + " "@) == s + " "@,
{
    reveal_strlit(" ");
    assert(" "@ =~= seq![' ']);
    text::compacting_is_by_stretches(" "@, seq![]);
    text::compacting_is_by_stretches(s, " "@);
}

proof fn lemma_compact_joined_words(words: Seq<Seq<char>>)
    requires
        words.len() > 0,
        forall|i: int| 0 <= i < words.len() ==> is_word(#[trigger] words[i]),
    ensures
        text::join(words, " "@).len() > 0,
        !text::is_blank(text::join(words, " "@).last()),
        text::compact(text::join(words, " "@)) == text::join(words, " "@),
    decreases words.len(),
{
    let last = words.last();
    assert(is_word(words[words.len() - 1]));
    assert(!text::is_blank(last[last.len() - 1]));
    lemma_compact_word(last);
    if words.len() > 1 {
        let init = words.drop_last();
        assert forall|i: int| 0 <= i < init.len() implies is_word(#[trigger] init[i]) by {
            assert(init[i] == words[i]);
        }
        lemma_compact_joined_words(init);
        let front = text::join(init, " "@);
        lemma_compact_then_space(front);
        reveal_strlit(" ");
        assert(!text::is_blank(last[0]));
        text::compacting_is_by_stretches(front + " "@, last);
    }
}

/// A function is shown by its modifiers, each with a space behind it, and then, whatever these are, by its name, its parameters
/// and its return type, with the blanks in these compacted. Parameters that are missing are shown
/// as empty ones, and a return type that is missing is not shown.
pub proof fn functions_are_shown_in_full(node: SyntaxNode, name: SyntaxNode)
    requires
        syntax::first_of_field(node.children@, "name"@) == Some(name),
    ensures
        ({
            let listed = match syntax::first_of_kind(node.children@, "parameters"@) {
                Some(child) => child.text@,
                None => "()"@,
            };
            let signature = match syntax::first_of_field(node.children@, "type"@) {
                Some(child) => "fn "@ + name.text@ + listed + (" "@ + child.text@),
                None => "fn "@ + name.text@ + listed,
            };
            &&& fn_entry(node) matches Some(entry)
            &&& entry.section == Section::Function
            &&& entry.start_row == node.start_row && entry.end_row == node.end_row
            &&& entry.children.len() == 0 && entry.imports.len() == 0
            &&& entry.child_kind == ChildKind::Detailed
            &&& modifiers(node.children@).len() == 0 ==> entry.text == text::compact(signature)
            &&& modifiers(node.children@).len() > 0 ==> entry.text == text::join(
                modifiers(node.children@),
                " "@,
            ) + " "@ + text::compact(signature)
        }),
{
    let words = modifiers(node.children@);
    let listed = match syntax::first_of_kind(node.children@, "parameters"@) {
        Some(child) => child.text@,
        None => "()"@,
    };
    let signature = match syntax::first_of_field(node.children@, "type"@) {
        Some(child) => "fn "@ + name.text@ + listed + (" "@ + child.text@),
        None => "fn "@ + name.text@ + listed,
    };
    let vis = if words.len() == 0 {
        seq![]
    } else {
        text::join(words, " "@) + " "@
    };
    let whole = vis + "fn "@ + name.text@ + listed + field_text(node, "type"@, " "@);
    assert(whole =~= vis + signature);
    reveal_strlit("fn ");
    reveal_strlit(" ");
    assert(signature[0] == 'f');
    if words.len() > 0 {
        lemma_modifiers_are_words(node.children@);
        lemma_compact_joined_words(words);
        lemma_compact_then_space(text::join(words, " "@));
        text::compacting_is_by_stretches(vis, signature);
    } else {
        assert(vis + signature =~= signature);
        assert(vis + text::compact(signature) =~= text::compact(signature));
    }
}

/// The text of a function that has a return type ends with a space and that type, with the blanks
/// in it compacted.
pub proof fn return_types_end_the_text(node: SyntaxNode, name: SyntaxNode, ty: SyntaxNode)
    requires
        syntax::first_of_field(node.children@, "name"@) == Some(name),
        syntax::first_of_field(node.children@, "type"@) == Some(ty),
    ensures
        fn_entry(node) matches Some(entry) && exists|front: Seq<char>|
            entry.text == #[trigger] (front + text::compact(" "@ + ty.text@)),
{
    functions_are_shown_in_full(node, name);
    let listed = match syntax::first_of_kind(node.children@, "parameters"@) {
        Some(child) => child.text@,
        None => "()"@,
    };
    let front = "fn "@ + name.text@ + listed;
    let back = " "@ + ty.text@;
    reveal_strlit(" ");
    assert(back[0] == ' ');
    text::what_begins_with_a_blank_stays_at_the_end(front, back);
    let kept = choose|kept: Seq<char>|
        text::compact(front + back) == #[trigger] (kept + text::compact(back));
    let words = modifiers(node.children@);
    let vis = if words.len() == 0 {
        seq![]
    } else {
        text::join(words, " "@) + " "@
    };
    assert(vis + text::compact(front + back) =~= fn_entry(node)->0.text);
    assert(vis + (kept + text::compact(back)) =~= (vis + kept) + text::compact(back));
}

/// Two functions of the same name, parameters and return type are shown the same from the word
/// `fn` on, whatever their modifiers are.
pub proof fn modifiers_change_only_what_stands_before(a: SyntaxNode, b: SyntaxNode)
    requires
        syntax::first_of_field(a.children@, "name"@) is Some,
        syntax::first_of_field(a.children@, "name"@) == syntax::first_of_field(
            b.children@,
            "name"@,
        ),
        syntax::first_of_kind(a.children@, "parameters"@) == syntax::first_of_kind(
            b.children@,
            "parameters"@,
        ),
        syntax::first_of_field(a.children@, "type"@) == syntax::first_of_field(
            b.children@,
            "type"@,
        ),
    ensures
        fn_entry(a) is Some && fn_entry(b) is Some,
        modifiers(a.children@).len() == 0 && modifiers(b.children@).len() == 0 ==> fn_entry(
            a,
        )->0.text == fn_entry(b)->0.text,
        modifiers(a.children@).len() == 0 && modifiers(b.children@).len() > 0 ==> fn_entry(
            b,
        )->0.text == text::join(modifiers(b.children@), " "@) + " "@ + fn_entry(a)->0.text,
        modifiers(a.children@).len() > 0 && modifiers(b.children@).len() > 0 ==> exists|
            tail: Seq<char>,
        |
            {
                &&& fn_entry(a)->0.text == #[trigger] (text::join(modifiers(a.children@), " "@)
                    + " "@ + tail)
                &&& fn_entry(b)->0.text == text::join(modifiers(b.children@), " "@) + " "@ + tail
            },
{
    let name = syntax::first_of_field(a.children@, "name"@)->0;
    functions_are_shown_in_full(a, name);
    functions_are_shown_in_full(b, name);
    let listed = match syntax::first_of_kind(a.children@, "parameters"@) {
        Some(child) => child.text@,
        None => "()"@,
    };
    let signature = match syntax::first_of_field(a.children@, "type"@) {
        Some(child) => "fn "@ + name.text@ + listed + (" "@ + child.text@),
        None => "fn "@ + name.text@ + listed,
    };
    let tail = text::compact(signature);
    if modifiers(a.children@).len() > 0 && modifiers(b.children@).len() > 0 {
        assert(fn_entry(a)->0.text == text::join(modifiers(a.children@), " "@) + " "@ + tail);
    }
}

/// A node is an import exactly where it is the call of a builtin whose first identifier is
/// `@import`. The last import and the first type among some nodes are those.
pub proof fn imports_and_types_are_found(nodes: Seq<SyntaxNode>, import: int, ty: int)
    requires
        -1 <= import < nodes.len(),
        import >= 0 ==> is_import(nodes[import]),
        forall|i: int| import < i < nodes.len() ==> !is_import(#[trigger] nodes[i]),
        0 <= ty <= nodes.len(),
        forall|i: int|
            0 <= i < ty ==> (#[trigger] nodes[i]).kind@ != "struct_declaration"@ && nodes[i].kind@
                != "enum_declaration"@ && nodes[i].kind@ != "union_declaration"@ && nodes[i].kind@
                != "opaque_declaration"@,
        ty < nodes.len() ==> nodes[ty].kind@ == "struct_declaration"@ || nodes[ty].kind@
            == "enum_declaration"@ || nodes[ty].kind@ == "union_declaration"@ || nodes[ty].kind@
            == "opaque_declaration"@,
    ensures
        last_import(nodes) == if import >= 0 {
            Some(nodes[import])
        } else {
            None
        },
        first_type(nodes) == if ty < nodes.len() {
            Some(nodes[ty])
        } else {
            None
        },
        forall|node: SyntaxNode| #[trigger]
            is_import(node) <==> node.kind@ == "builtin_function"@ && (syntax::first_of_kind(
                node.children@,
                "builtin_identifier"@,
            ) matches Some(builtin) && builtin.text@ == "@import"@),
{
    lemma_last_import(nodes, import);
    lemma_first_type(nodes, ty);
}

proof fn lemma_last_import(nodes: Seq<SyntaxNode>, k: int)
    requires
        -1 <= k < nodes.len(),
        k >= 0 ==> is_import(nodes[k]),
        forall|i: int| k < i < nodes.len() ==> !is_import(#[trigger] nodes[i]),
    ensures
        last_import(nodes) == if k >= 0 {
            Some(nodes[k])
        } else {
            None
        },
    decreases nodes.len(),
{
    if nodes.len() > 0 && k < nodes.len() - 1 {
        let init = nodes.drop_last();
        assert(!is_import(nodes[nodes.len() - 1]));
        assert forall|i: int| k < i < init.len() implies !is_import(#[trigger] init[i]) by {
            assert(init[i] == nodes[i]);
        }
        lemma_last_import(init, k);
    }
}

proof fn lemma_first_type(nodes: Seq<SyntaxNode>, k: int)
    requires
        0 <= k <= nodes.len(),
        k < nodes.len() ==> names_type(nodes[k].kind@),
        forall|i: int| 0 <= i < k ==> !names_type((#[trigger] nodes[i]).kind@),
    ensures
        first_type(nodes) == if k < nodes.len() {
            Some(nodes[k])
        } else {
            None
        },
    decreases nodes.len(),
{
    if nodes.len() > 0 && k > 0 {
        let rest = nodes.drop_first();
        assert(!names_type(nodes[0].kind@));
        assert forall|i: int| 0 <= i < k - 1 implies !names_type((#[trigger] rest[i]).kind@) by {
            assert(rest[i] == nodes[i + 1]);
        }
        lemma_first_type(rest, k - 1);
    }
}

/// The text of an import is that of the first string among its arguments. Of a path in quotes the
/// import names the path, without the suffix of Zig files where it has it.
pub proof fn imports_name_the_quoted_path(
    call: SyntaxNode,
    arguments: SyntaxNode,
    string: SyntaxNode,
    path: Seq<char>,
)
    requires
        syntax::first_of_kind(call.children@, "arguments"@) == Some(arguments),
        syntax::first_of_kind(arguments.children@, "string"@) == Some(string),
        string.text@ == seq!['"'] + path + seq!['"'],
        path.len() > 0 ==> path[0] != '"' && path[path.len() - 1] != '"',
    ensures
        forall|stem: Seq<char>| path == #[trigger] (stem + ".zig"@) ==> import_name(call) == stem,
        (forall|stem: Seq<char>| path != #[trigger] (stem + ".zig"@)) ==> import_name(call) == path,
        forall|i: int|
            0 <= i < import_parts(call).len() ==> !(#[trigger] import_parts(call)[i]).contains('/'),
        import_parts(call).len() > 0,
        text::join(import_parts(call), seq!['/']) == import_name(call),
{
    let s = string.text@;
    let inner = text::trim_matches(s, '"');
    text::trimming_takes_only_the_ends(s, '"');
    let (from, to) = choose|from: int, to: int|
        {
            &&& 0 <= from <= to <= s.len()
            &&& inner == #[trigger] s.subrange(from, to)
            &&& forall|i: int| 0 <= i < from || to <= i < s.len() ==> #[trigger] s[i] == '"'
        };
    if path.len() > 0 {
        assert(s[1] == path[0]);
        assert(s[s.len() - 2] == path[path.len() - 1]);
        assert(from <= 1);
        assert(to >= s.len() - 1);
        if from == 0 {
            assert(inner[0] == s[0]);
        }
        if to == s.len() {
            assert(inner.last() == s[s.len() - 1]);
        }
        assert(inner =~= path);
    } else {
        if inner.len() > 0 {
            assert(inner[0] == s[from]);
        }
        assert(inner =~= path);
    }
    assert forall|stem: Seq<char>| path == #[trigger] (stem + ".zig"@) implies import_name(call)
        == stem by {
        text::an_ending_is_taken_off_once(stem, ".zig"@);
    }
    text::an_ending_is_taken_off_once(path, ".zig"@);
    text::join_undoes_split(import_name(call), '/');
    assert forall|i: int| 0 <= i < import_parts(call).len() implies !(
    #[trigger] import_parts(call)[i]).contains('/') by {
        text::pieces_hold_no_separator(import_name(call), '/', i);
    }
    if import_parts(call).len() == 0 {
        text::splitting_gives_one_piece_more(import_name(call), '/');
        lemma_split_has_a_piece(import_name(call));
    }
}

proof fn lemma_split_has_a_piece(s: Seq<char>)
    ensures
        text::split(s, '/').len() > 0,
    decreases s.len(),
{
    if s.len() > 0 {
        lemma_split_has_a_piece(s.drop_last());
        text::splitting_gives_one_piece_more(s.drop_last(), '/');
        assert(s.drop_last().push(s.last()) =~= s);
    } else {
        assert(s =~= seq![]);
        text::splitting_gives_one_piece_more(s, '/');
    }
}

/// What an import names is the first string among its arguments without the quotes at its ends and
/// without one suffix of Zig files; without such a string it names nothing.
pub proof fn imports_name_the_first_string(call: SyntaxNode)
    ensures
        import_text(call) == match syntax::first_of_kind(call.children@, "arguments"@) {
            Some(arguments) => match syntax::first_of_kind(arguments.children@, "string"@) {
                Some(string) => string.text@,
                None => ""@,
            },
            None => ""@,
        },
        import_name(call) == text::without_suffix(
            text::trim_matches(import_text(call), '"'),
            ".zig"@,
        ),
        import_parts(call) == text::split(import_name(call), '/'),
{
    reveal_strlit("");
    assert(""@ =~= seq![]);
}

/// A declaration has an entry exactly where it has a name, and an entry is what it holds.
pub proof fn only_what_is_named_has_an_entry(
    node: SyntaxNode,
    field_limit: usize,
    entry: Option<SkeletonEntry>,
)
    ensures
        var_entry(node, field_limit) is Some <==> syntax::first_of_kind(
            node.children@,
            "identifier"@,
        ) is Some,
        fn_entry(node) is Some <==> syntax::first_of_field(node.children@, "name"@) is Some,
        opt_entry(entry) is Some <==> entry is Some,
        entry matches Some(e) ==> opt_entry(entry) == Some(e@),
{
}

/// The field of a node is shown behind a prefix, and a field that the node does not have is not.
/// A field of a type is shown by its name, or as `_`, and except in an enum by its type.
pub proof fn fields_are_shown_with_their_types(node: SyntaxNode, field: Seq<char>, prefix: Seq<char>)
    ensures
        syntax::first_of_field(node.children@, field) matches Some(child) ==> field_text(
            node,
            field,
            prefix,
        ) == prefix + child.text@,
        syntax::first_of_field(node.children@, field) is None ==> field_text(
            node,
            field,
            prefix,
        ).len() == 0,
        syntax::first_of_field(node.children@, "name"@) matches Some(name) ==> shown_field(
            node,
            true,
        ) == name.text@,
        syntax::first_of_field(node.children@, "name"@) is None ==> shown_field(node, true)
            == "_"@,
        shown_field(node, false) == shown_field(node, true) + field_text(
            node,
            "type"@,
            ": "@,
        ),
{
}

/// The fields of a type are shown one after the other, at most as many as the limit says, and
/// those that are shown are the first.
pub proof fn fields_are_shown_in_order(
    first: Seq<SyntaxNode>,
    rest: Seq<SyntaxNode>,
    in_enum: bool,
    list: Seq<Seq<char>>,
    limit: usize,
)
    ensures
        shown_fields(first + rest, in_enum) == shown_fields(first, in_enum) + shown_fields(
            rest,
            in_enum,
        ),
        first.len() == 0 ==> shown_fields(first, in_enum).len() == 0,
        first.len() == 1 ==> shown_fields(first, in_enum) == if first[0].kind@
            == "container_field"@ {
            seq![shown_field(first[0], in_enum)]
        } else {
            seq![]
        },
        cut(list, limit).len() == if list.len() < limit {
            list.len()
        } else {
            limit as nat
        },
        forall|i: int| 0 <= i < cut(list, limit).len() ==> #[trigger] cut(list, limit)[i] == list[i],
    decreases rest.len(),
{
    if first.len() == 1 {
        assert(first.drop_last() =~= seq![]);
        assert(shown_fields(first.drop_last(), in_enum) =~= seq![]);
        if first[0].kind@ == "container_field"@ {
            assert(shown_fields(first, in_enum) =~= seq![shown_field(first[0], in_enum)]);
        }
    }
    if rest.len() == 0 {
        assert(first + rest =~= first);
    } else {
        fields_are_shown_in_order(first, rest.drop_last(), in_enum, list, limit);
        assert((first + rest).drop_last() =~= first + rest.drop_last());
    }
    assert(shown_fields(first + rest, in_enum) =~= shown_fields(first, in_enum) + shown_fields(
        rest,
        in_enum,
    ));
}

/// A declaration is shown as an import where it makes one, and then by the parts of its path
/// alone. Otherwise it is shown by whether it is public, by what it declares and by its name: a
/// type with its fields, and else a constant or a variable with its type.
pub proof fn variables_are_shown_as_what_they_declare(
    node: SyntaxNode,
    name: SyntaxNode,
    field_limit: usize,
)
    requires
        syntax::first_of_kind(node.children@, "identifier"@) == Some(name),
    ensures
        ({
            let nodes = node.children@;
            let public = exists|i: int|
                0 <= i < nodes.len() && (#[trigger] nodes[i]).kind@ == "pub"@;
            let constant = exists|i: int|
                0 <= i < nodes.len() && (#[trigger] nodes[i]).kind@ == "const"@;
            let vis = if public {
                "pub "@
            } else {
                ""@
            };
            let keyword = if constant {
                "const "@
            } else {
                "var "@
            };
            &&& var_entry(node, field_limit) matches Some(entry)
            &&& entry.start_row == node.start_row && entry.end_row == node.end_row
            &&& match (last_import(nodes), first_type(nodes)) {
                (Some(call), _) => {
                    &&& entry.section == Section::Import
                    &&& entry.imports == seq![import_parts(call)]
                    &&& entry.text.len() == 0 && entry.children.len() == 0
                    &&& entry.child_kind == ChildKind::Detailed
                },
                (None, Some(container)) => {
                    let in_enum = container.kind@ == "enum_declaration"@;
                    &&& entry.section == Section::Type
                    &&& entry.imports.len() == 0
                    &&& entry.child_kind == ChildKind::Brief <==> in_enum
                    &&& entry.children == cut(
                        shown_fields(container.children@, in_enum),
                        field_limit,
                    )
                    &&& container.kind@ == "struct_declaration"@ ==> entry.text == vis + "struct "@
                        + name.text@
                    &&& container.kind@ == "enum_declaration"@ ==> entry.text == vis + "enum "@
                        + name.text@
                    &&& container.kind@ == "union_declaration"@ ==> entry.text == vis + "union "@
                        + name.text@
                    &&& container.kind@ == "opaque_declaration"@ ==> entry.text == vis + "opaque "@
                        + name.text@
                },
                (None, None) => {
                    &&& entry.section == Section::Constant
                    &&& entry.imports.len() == 0 && entry.children.len() == 0
                    &&& entry.child_kind == ChildKind::Detailed
                    &&& entry.text == vis + keyword + name.text@ + field_text(
                        node,
                        "type"@,
                        ": "@,
                    )
                },
            }
        }),
{
    let nodes = node.children@;
    let vis = if syntax::has_kind(nodes, "pub"@) {
        "pub "@
    } else {
        ""@
    };
    reveal_strlit(" ");
    reveal_strlit("const");
    reveal_strlit("const ");
    reveal_strlit("var");
    reveal_strlit("var ");
    assert("const "@ =~= "const"@ + " "@);
    assert("var "@ =~= "var"@ + " "@);
    match (last_import(nodes), first_type(nodes)) {
        (None, None) => {
            assert(vis + "const"@ + " "@ =~= vis + "const "@);
            assert(vis + "var"@ + " "@ =~= vis + "var "@);
        },
        (None, Some(container)) => {
            lemma_type_keyword(vis, container.kind@);
        },
        _ => {},
    }
}

proof fn lemma_type_keyword(vis: Seq<char>, kind: Seq<char>)
    ensures
        kind == "struct_declaration"@ ==> vis + text::without_suffix(kind, "_declaration"@) + " "@
            == vis + "struct "@,
        kind == "enum_declaration"@ ==> vis + text::without_suffix(kind, "_declaration"@) + " "@
            == vis + "enum "@,
        kind == "union_declaration"@ ==> vis + text::without_suffix(kind, "_declaration"@) + " "@
            == vis + "union "@,
        kind == "opaque_declaration"@ ==> vis + text::without_suffix(kind, "_declaration"@) + " "@
            == vis + "opaque "@,
{
    reveal_strlit(" ");
    reveal_strlit("_declaration");
    reveal_strlit("struct_declaration");
    reveal_strlit("enum_declaration");
    reveal_strlit("union_declaration");
    reveal_strlit("opaque_declaration");
    reveal_strlit("struct");
    reveal_strlit("enum");
    reveal_strlit("union");
    reveal_strlit("opaque");
    reveal_strlit("struct ");
    reveal_strlit("enum ");
    reveal_strlit("union ");
    reveal_strlit("opaque ");
    assert("struct_declaration"@ =~= "struct"@ + "_declaration"@);
    assert("enum_declaration"@ =~= "enum"@ + "_declaration"@);
    assert("union_declaration"@ =~= "union"@ + "_declaration"@);
    assert("opaque_declaration"@ =~= "opaque"@ + "_declaration"@);
    text::an_ending_is_taken_off_once("struct"@, "_declaration"@);
    text::an_ending_is_taken_off_once("enum"@, "_declaration"@);
    text::an_ending_is_taken_off_once("union"@, "_declaration"@);
    text::an_ending_is_taken_off_once("opaque"@, "_declaration"@);
    assert(vis + "struct"@ + " "@ =~= vis + "struct "@);
    assert(vis + "enum"@ + " "@ =~= vis + "enum "@);
    assert(vis + "union"@ + " "@ =~= vis + "union "@);
    assert(vis + "opaque"@ + " "@ =~= vis + "opaque "@);
}

/// A comment documents what follows where it begins with three slashes and not with four, and the
/// file where it begins with two slashes and an exclamation mark.
pub proof fn comments_document_by_their_beginning(node: SyntaxNode)
    ensures
        ({
            let s = node.text@;
            let slashes = s.len() >= 3 && s[0] == '/' && s[1] == '/' && s[2] == '/';
            &&& documents_next(node) <==> node.kind@ == "comment"@ && slashes && !(s.len() >= 4
                && s[3] == '/')
            &&& documents_file(node) <==> node.kind@ == "comment"@ && s.len() >= 3 && s[0] == '/'
                && s[1] == '/' && s[2] == '!'
        }),
{
    let s = node.text@;
    reveal_strlit("///");
    reveal_strlit("////");
    reveal_strlit("//!");
    if s.len() >= 3 {
        let front = s.subrange(0, 3);
        assert(front[0] == s[0] && front[1] == s[1] && front[2] == s[2]);
        if s[0] == '/' && s[1] == '/' && s[2] == '/' {
            assert("///"@ =~= front);
        }
        if s[0] == '/' && s[1] == '/' && s[2] == '!' {
            assert("//!"@ =~= front);
        }
    }
    if s.len() >= 4 {
        let front = s.subrange(0, 4);
        assert(front[0] == s[0] && front[1] == s[1] && front[2] == s[2] && front[3] == s[3]);
        if s[0] == '/' && s[1] == '/' && s[2] == '/' && s[3] == '/' {
            assert("////"@ =~= front);
        }
    }
}

} // verus!
