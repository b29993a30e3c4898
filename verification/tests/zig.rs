use maki_acp::syntax::{child_by_field_name, find_child, ChildKind, Section, SyntaxNode};
use maki_acp::text::{compact_ws, split_at_char, strip_suffix, trimmed};
use maki_acp::zig::{is_type_value_kind, ZigExtractor};

fn leaf(kind: &str, text: &str) -> SyntaxNode {
    SyntaxNode {
        kind: kind.to_string(),
        field: None,
        text: text.to_string(),
        start_row: 0,
        end_row: 0,
        children: vec![],
    }
}

fn token(kind: &str) -> SyntaxNode {
    leaf(kind, kind)
}

fn field(name: &str, node: SyntaxNode) -> SyntaxNode {
    SyntaxNode { field: Some(name.to_string()), ..node }
}

fn tree(kind: &str, children: Vec<SyntaxNode>) -> SyntaxNode {
    SyntaxNode { start_row: 3, end_row: 7, children, ..leaf(kind, "") }
}

fn import_call(path: &str) -> SyntaxNode {
    tree(
        "builtin_function",
        vec![
            leaf("builtin_identifier", "@import"),
            tree("arguments", vec![token("("), leaf("string", path), token(")")]),
        ],
    )
}

#[test]
fn four_kinds_name_types() {
    for kind in
        ["struct_declaration", "enum_declaration", "union_declaration", "opaque_declaration"]
    {
        assert!(is_type_value_kind(kind));
    }
    assert!(!is_type_value_kind("function_declaration"));
    assert!(!is_type_value_kind("struct"));
    assert!(!is_type_value_kind(""));
}

#[test]
fn imports_are_split_into_parts() {
    for (quoted, parts) in [
        ("\"std\"", vec!["std"]),
        ("\"foo/bar.zig\"", vec!["foo", "bar"]),
        ("\"./a//b.zig\"", vec![".", "a", "", "b"]),
        ("\"x.zig.zig\"", vec!["x.zig"]),
        ("\"\"", vec![""]),
        ("\"\"\"q\"\"", vec!["q"]),
    ] {
        let found = ZigExtractor::import_path(&import_call(quoted));
        assert_eq!(found, parts);
        assert_eq!(found.join(ZigExtractor.import_separator()) + "", parts.join("/"));
    }
    assert_eq!(ZigExtractor::import_path(&tree("builtin_function", vec![])), vec![""]);
}

#[test]
fn declarations_that_import() {
    let node = tree(
        "variable_declaration",
        vec![token("const"), leaf("identifier", "std"), token("="), import_call("\"std\"")],
    );
    let entries = ZigExtractor.extract_nodes(&node, 20);
    assert_eq!(entries.len(), 1);
    assert_eq!(entries[0].section, Section::Import);
    assert_eq!(entries[0].imports, vec![vec!["std".to_string()]]);
    assert_eq!((entries[0].start_row, entries[0].end_row), (3, 7));
}

#[test]
fn the_last_import_counts() {
    let node = tree(
        "variable_declaration",
        vec![leaf("identifier", "x"), import_call("\"a\""), import_call("\"b\""), tree("builtin_function", vec![leaf("builtin_identifier", "@This")])],
    );
    let entries = ZigExtractor.extract_nodes(&node, 20);
    assert_eq!(entries[0].imports, vec![vec!["b".to_string()]]);
}

fn container_field(name: Option<&str>, ty: Option<&str>) -> SyntaxNode {
    let mut children = vec![];
    if let Some(n) = name {
        children.push(field("name", leaf("identifier", n)));
    }
    if let Some(t) = ty {
        children.push(token(":"));
        children.push(field("type", leaf("builtin_type", t)));
    }
    tree("container_field", children)
}

#[test]
fn declarations_of_structs_show_their_fields() {
    let container = tree(
        "struct_declaration",
        vec![
            token("struct"),
            container_field(Some("x"), Some("u32")),
            token(","),
            container_field(Some("y"), None),
            container_field(None, Some("f64")),
            leaf("comment", "// z"),
        ],
    );
    let node = tree(
        "variable_declaration",
        vec![token("pub"), token("const"), leaf("identifier", "Point"), token("="), container],
    );
    let entries = ZigExtractor.extract_nodes(&node, 20);
    assert_eq!(entries.len(), 1);
    assert_eq!(entries[0].section, Section::Type);
    assert_eq!(entries[0].text, "pub struct Point");
    assert_eq!(entries[0].children, vec!["x: u32", "y", "_: f64"]);
    assert_eq!(entries[0].child_kind, ChildKind::Detailed);
    assert!(ZigExtractor::find_container(&node).is_some());
}

#[test]
fn declarations_of_enums_are_brief() {
    let container = tree(
        "enum_declaration",
        vec![container_field(Some("red"), Some("u8")), container_field(Some("blue"), None)],
    );
    let node = tree("variable_declaration", vec![token("const"), leaf("identifier", "C"), container]);
    let entries = ZigExtractor.extract_nodes(&node, 20);
    assert_eq!(entries[0].text, "enum C");
    assert_eq!(entries[0].children, vec!["red", "blue"]);
    assert_eq!(entries[0].child_kind, ChildKind::Brief);
}

#[test]
fn fields_are_cut_at_the_limit() {
    let fields = vec![
        token("struct"),
        container_field(Some("a"), Some("u8")),
        container_field(Some("b"), Some("u16")),
        token(","),
        container_field(Some("c"), None),
    ];
    let node = tree(
        "variable_declaration",
        vec![token("const"), leaf("identifier", "S"), tree("struct_declaration", fields)],
    );
    let shown = |limit: usize| ZigExtractor.extract_var_decl(&node, limit).unwrap().children;
    assert_eq!(shown(0), Vec::<String>::new());
    assert_eq!(shown(2), vec!["a: u8", "b: u16"]);
    assert_eq!(shown(3), vec!["a: u8", "b: u16", "c"]);
    assert_eq!(shown(4), shown(3));
}

#[test]
fn declarations_of_values() {
    let typed = tree(
        "variable_declaration",
        vec![
            token("pub"),
            token("const"),
            leaf("identifier", "max"),
            token(":"),
            field("type", leaf("builtin_type", "usize")),
            token("="),
            leaf("identifier", "other"),
        ],
    );
    let entry = ZigExtractor.extract_var_decl(&typed, 20).unwrap();
    assert_eq!(entry.section, Section::Constant);
    assert_eq!(entry.text, "pub const max: usize");
    let plain = tree("variable_declaration", vec![token("var"), leaf("identifier", "n")]);
    assert_eq!(ZigExtractor.extract_var_decl(&plain, 20).unwrap().text, "var n");
    assert!(ZigExtractor::find_container(&plain).is_none());
}

#[test]
fn declarations_without_a_name_have_no_entry() {
    let node = tree("variable_declaration", vec![token("const"), import_call("\"std\"")]);
    assert!(ZigExtractor.extract_nodes(&node, 20).is_empty());
    let node = tree("function_declaration", vec![token("fn")]);
    assert!(ZigExtractor.extract_nodes(&node, 20).is_empty());
}

#[test]
fn functions_are_shown_on_one_line() {
    let node = tree(
        "function_declaration",
        vec![
            token("pub"),
            token("extern"),
            token("inline"),
            token("fn"),
            field("name", leaf("identifier", "f")),
            leaf("parameters", "(\n    a: u8,\n\tb:  u8,\r\n)"),
            field("type", leaf("builtin_type", "!void")),
        ],
    );
    let entries = ZigExtractor.extract_nodes(&node, 20);
    assert_eq!(entries[0].section, Section::Function);
    assert_eq!(entries[0].text, "pub extern inline fn f( a: u8, b: u8, ) !void");
    let bare = tree(
        "function_declaration",
        vec![token("fn"), field("name", leaf("identifier", "g"))],
    );
    assert_eq!(ZigExtractor.extract_fn(&bare).unwrap().text, "fn g()");
}

#[test]
fn other_nodes_have_no_entry() {
    assert!(ZigExtractor.extract_nodes(&token("test_declaration"), 20).is_empty());
    assert!(ZigExtractor.is_test_node(&token("test_declaration")));
    assert!(!ZigExtractor.is_test_node(&token("function_declaration")));
}

#[test]
fn comments_that_document() {
    let doc = |text: &str| ZigExtractor.is_doc_comment(&leaf("comment", text));
    let module = |text: &str| ZigExtractor.is_module_doc(&leaf("comment", text));
    assert!(doc("/// yes"));
    assert!(doc("///"));
    assert!(!doc("//// no"));
    assert!(!doc("// no"));
    assert!(!doc("//! no"));
    assert!(module("//! yes"));
    assert!(!module("/// no"));
    assert!(!ZigExtractor.is_doc_comment(&leaf("string", "/// no")));
    assert!(!ZigExtractor.is_module_doc(&leaf("string", "//! no")));
}

#[test]
fn children_are_found_by_kind_and_by_field() {
    let node = tree(
        "x",
        vec![leaf("a", "1"), field("name", leaf("b", "2")), leaf("a", "3"), field("name", leaf("b", "4"))],
    );
    assert_eq!(find_child(&node, "a").unwrap().text, "1");
    assert_eq!(child_by_field_name(&node, "name").unwrap().text, "2");
    assert!(find_child(&node, "c").is_none());
    assert!(child_by_field_name(&node, "type").is_none());
}

#[test]
fn text_is_trimmed_stripped_and_split_as_the_standard_library_does() {
    for s in ["", "a", "\"a\"", "\"\"", "\"", "a\"b", "é/✓", "/", "//", "a/b/", ".zig", "zig", "a.zig"] {
        assert_eq!(trimmed(s, '"'), s.trim_matches('"'));
        assert_eq!(strip_suffix(s, ".zig"), s.strip_suffix(".zig").unwrap_or(s));
        assert_eq!(split_at_char(s, '/'), s.split('/').collect::<Vec<_>>());
    }
}

#[test]
fn blanks_are_compacted() {
    assert_eq!(compact_ws("a  b\n\t c"), "a b c");
    assert_eq!(compact_ws(" a "), " a ");
    assert_eq!(compact_ws(""), "");
}
