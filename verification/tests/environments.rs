use satysfi_language_server::completion::{CompletionItem, CompletionResourceItem, InsertTextFormat};
use satysfi_language_server::documents::environments::{Environments, VariableKind};
use satysfi_language_server::documents::{DocumentData, Packages, ProgramText};
use satysfi_language_server::parser::{SatysfiParser, Span};
use satysfi_language_server::position::Position;
use satysfi_language_server::util::ConvertPosition;

fn document(text: &str) -> DocumentData {
    DocumentData::new(text, "file:///work/doc.saty", None, &Packages { home: None, files: vec![] })
}

fn summary(table: &Environments) -> Vec<(VariableKind, String, String)> {
    table
        .variable
        .iter()
        .map(|v| (v.kind, v.name.clone(), v.definition.url.clone()))
        .collect()
}

const TEXT: &str = "let x = 1
let (a, b) = (1, 2)
let-inline \\plain it = it
let-inline ctx \\with it = it
let-block +plain it = '<>
let-block ctx +with it = '<>
let-math \\m = ${x}
module M = struct
  let inner = 1
end
";

#[test]
fn the_table_lists_what_a_document_defines() {
    let mut table = Environments::new();
    table.update("a", &document(TEXT));
    let entry = |kind, name: &str| (kind, name.to_string(), "a".to_string());
    assert_eq!(
        summary(&table),
        vec![
            entry(VariableKind::InlineCmd, "\\with"),
            entry(VariableKind::InlineCmd, "\\plain"),
            entry(VariableKind::BlockCmd, "+with"),
            entry(VariableKind::BlockCmd, "+plain"),
            entry(VariableKind::MathCmd, "\\m"),
            entry(VariableKind::Variable, "x"),
            entry(VariableKind::Variable, "inner"),
        ]
    );
    // An entry holds the statement that defines it.
    assert_eq!(table.variable[5].definition.span, Span { start: 0, end: 9 });
    // Neither a module nor a declaration is recorded.
    assert!(table.variable.iter().all(|v| v.mod_name.is_none() && v.declaration.is_none()));
}

#[test]
fn the_table_is_brought_up_to_date() {
    let mut table = Environments::new();
    table.update("a", &document("let x = 1"));
    table.update("b", &document("let y = 1\nlet z = 2"));
    table.update("a", &document("let w = 1"));
    let names: Vec<(String, String)> =
        table.variable.iter().map(|v| (v.definition.url.clone(), v.name.clone())).collect();
    let pair = |url: &str, name: &str| (url.to_string(), name.to_string());
    assert_eq!(names, vec![pair("b", "y"), pair("b", "z"), pair("a", "w")]);
    table.remove_defined_in_url("b");
    assert_eq!(table.variable.len(), 1);
    assert_eq!(table.variable[0].name, "w");
    // A document that the grammar rejects defines nothing.
    table.update("a", &document("let w = "));
    assert!(table.variable.is_empty());
}

#[test]
fn a_built_in_becomes_an_item() {
    let resource = CompletionResourceItem {
        label: "let".to_string(),
        detail: Some("statement".to_string()),
        documentation: Some("binds a name".to_string()),
        insert_text: Some("let $1 = $0".to_string()),
        insert_text_format: Some("snippet".to_string()),
    };
    let item = CompletionItem::from(resource);
    assert_eq!(item.label, "let");
    assert_eq!(item.kind, None);
    assert_eq!(item.detail.as_deref(), Some("statement"));
    assert_eq!(item.documentation.as_deref(), Some("binds a name"));
    assert_eq!(item.insert_text.as_deref(), Some("let $1 = $0"));
    assert_eq!(item.insert_text_format, Some(InsertTextFormat::Snippet));
    assert!(item.text_edit.is_none());
    let plain = CompletionResourceItem {
        label: "x".to_string(),
        detail: None,
        documentation: None,
        insert_text: None,
        insert_text_format: Some("plain".to_string()),
    };
    assert_eq!(CompletionItem::from(plain).insert_text_format, None);
}

#[test]
fn a_program_text_converts_positions() {
    let text = "let x = 1\nlet y = x";
    let program_text = ProgramText {
        text: text.to_string(),
        cst: SatysfiParser::parse_program(text).unwrap(),
    };
    assert_eq!(program_text.get_position(14), Some(Position { line: 1, character: 4 }));
    assert_eq!(program_text.from_position(&Position { line: 1, character: 4 }), Some(14));
    assert_eq!(program_text.get_position(99), None);
    assert_eq!(program_text.from_position(&Position { line: 2, character: 0 }), None);
    assert_eq!(text.to_string().get_position(10), Some(Position { line: 1, character: 0 }));
}
