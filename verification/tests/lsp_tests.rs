use grease::grease::parse_program;
use grease::lsp_workspace::{
    extract_document_symbols, get_hover_text, get_word_at_position, CompletionItemKind, Document, Position, SymbolKind, Workspace,
};

fn at(line: u32, character: u32) -> Position {
    Position { line, character }
}

#[test]
fn documents_are_opened_parsed_and_replaced() {
    let mut ws = Workspace::new();
    let d = ws.upsert_document("file:///a.grease".to_string(), "x = 1\nprint(x)".to_string(), "grease".to_string());
    assert_eq!(d.version, 0);
    assert!(d.ast.is_some());
    assert!(d.diagnostics.is_empty());
    let d2 = ws.upsert_document("file:///a.grease".to_string(), "x = 2".to_string(), "grease".to_string());
    assert_eq!(d2.version, 1);
    assert_eq!(ws.documents.len(), 1);
    assert_eq!(ws.get_document("file:///a.grease").unwrap().text, "x = 2");
    assert!(ws.get_document("file:///b.grease").is_none());
}

#[test]
fn parse_errors_become_diagnostics() {
    let mut doc = Document::new("u".to_string(), "x = (".to_string(), "grease".to_string());
    let r = doc.parse();
    assert!(r.is_err());
    assert!(doc.ast.is_none());
    assert_eq!(doc.diagnostics.len(), 1);
    assert_eq!(doc.get_diagnostics()[0].source, Some("grease-lsp".to_string()));
    assert_eq!(doc.diagnostics[0].message, r.unwrap_err());
}

#[test]
fn lexing_errors_leave_no_diagnostic() {
    let mut doc = Document::new("u".to_string(), "x = \"open".to_string(), "grease".to_string());
    assert!(doc.parse().is_err());
    assert!(doc.diagnostics.is_empty());
}

#[test]
fn update_and_remove() {
    let mut ws = Workspace::new();
    ws.upsert_document("u".to_string(), "x = 1".to_string(), "grease".to_string());
    let d = ws.update_document("u", "y = 2".to_string(), 7).unwrap();
    assert_eq!(d.version, 7);
    assert_eq!(d.text, "y = 2");
    assert!(ws.update_document("v", "z".to_string(), 1).is_none());
    assert!(ws.remove_document("u").is_some());
    assert!(ws.remove_document("u").is_none());
}

#[test]
fn symbols_definitions_and_completions() {
    let mut ws = Workspace::new();
    ws.upsert_document(
        "u".to_string(),
        "count = 1\ndef add(a, b):\n    total = a + b\n    return total\n".to_string(),
        "grease".to_string(),
    );
    ws.find_symbols_in_document("u");
    let symbols = &ws.symbols[0].1;
    let names: Vec<&str> = symbols.iter().map(|s| s.name.as_str()).collect();
    assert_eq!(names, vec!["count", "add", "a", "b", "total"]);
    assert_eq!(symbols[1].kind, SymbolKind::Function);
    assert_eq!(symbols[2].container_name, Some("add".to_string()));
    assert_eq!(symbols[0].location.range.start.line, 0);
    assert_eq!(symbols[4].location.range.start.line, 2);
    assert_eq!(symbols[4].location.range.end.character, 100);

    let defs = ws.find_definitions("total", "u", at(0, 0));
    assert_eq!(defs.len(), 1);
    assert_eq!(defs[0].uri, "u");
    assert!(ws.find_references("total", "u", at(0, 0)).is_empty());

    let items = ws.get_completions("u", at(0, 0));
    assert_eq!(items.len(), 20 + 5);
    assert_eq!(items[0].label, "def");
    assert_eq!(items[0].kind, CompletionItemKind::Keyword);
    assert_eq!(items[0].detail, "def keyword");
    assert_eq!(items[0].documentation, Some("Grease keyword: def".to_string()));
    assert_eq!(items[21].label, "add");
    assert_eq!(items[21].kind, CompletionItemKind::Function);
    assert_eq!(items[21].detail, "add (function)");
    assert_eq!(items[22].detail, "a (variable)");
    assert_eq!(ws.get_completions("other", at(0, 0)).len(), 20);
}

#[test]
fn class_methods_are_children() {
    let mut ws = Workspace::new();
    ws.upsert_document(
        "c".to_string(),
        "class Point:\n    def norm(self):\n        return 1\n".to_string(),
        "grease".to_string(),
    );
    ws.find_symbols_in_document("c");
    let symbols = &ws.symbols[0].1;
    assert_eq!(symbols.len(), 1);
    assert_eq!(symbols[0].kind, SymbolKind::Class);
    assert_eq!(symbols[0].children.len(), 1);
    assert_eq!(symbols[0].children[0].name, "norm");
    assert_eq!(symbols[0].children[0].kind, SymbolKind::Method);
    let items = ws.get_completions("c", at(0, 0));
    assert_eq!(items[20].detail, "Point (symbol)");
    assert_eq!(items[20].kind, CompletionItemKind::Variable);
}

#[test]
fn document_outline() {
    let program = parse_program("limit = 3\ndef f(x):\n    y = x\n").unwrap();
    let outline = extract_document_symbols(&program, "u");
    assert_eq!(outline.len(), 2);
    assert_eq!(outline[0].name, "limit");
    assert_eq!(outline[1].name, "f");
    assert_eq!(outline[1].detail, Some("function(1)".to_string()));
    let children = outline[1].children.as_ref().unwrap();
    assert_eq!(children.len(), 2);
    assert_eq!(children[0].detail, Some("parameter".to_string()));
    assert_eq!(children[1].name, "y");
}

#[test]
fn hover_texts() {
    assert!(get_hover_text("def").unwrap().starts_with("def - Define a function"));
    assert_eq!(get_hover_text("and"), Some("and - Boolean operator".to_string()));
    assert_eq!(get_hover_text("true"), Some("true - Boolean literal".to_string()));
    assert_eq!(get_hover_text("null"), Some("null - Null value".to_string()));
    assert_eq!(get_hover_text("banana"), None);
}

#[test]
fn word_at_position_finds_identifier() {
    let text = "let x = foo_bar + 1";
    let w = get_word_at_position(text, Position { line: 0, character: 10 });
    assert_eq!(w, Some("foo_bar".to_string()));
}

#[test]
fn word_at_position_on_later_line_and_line_break() {
    assert_eq!(get_word_at_position("one\ntwo", Position { line: 1, character: 1 }), Some("two".to_string()));
    assert_eq!(get_word_at_position("ab\ncd", Position { line: 0, character: 2 }), Some("ab".to_string()));
    assert_eq!(get_word_at_position("a b", Position { line: 0, character: 1 }), Some("a".to_string()));
}

#[test]
fn word_at_position_outside_text() {
    assert_eq!(get_word_at_position("abc", Position { line: 1, character: 0 }), None);
    assert_eq!(get_word_at_position("abc", Position { line: 0, character: 3 }), None);
    assert_eq!(get_word_at_position("+ -", Position { line: 0, character: 1 }), None);
    assert_eq!(get_word_at_position("abc\n", Position { line: 1, character: 0 }), None);
}
