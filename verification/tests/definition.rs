use satysfi_language_server::definition::Location;
use satysfi_language_server::diagnostics::{error_description, get_diagnostics, DiagnosticSeverity};
use satysfi_language_server::documents::{DocumentCache, DocumentData, Packages, SourceFile};
use satysfi_language_server::parser::{Cst, ParseFailure, Span};
use satysfi_parser::Rule;
use satysfi_language_server::hover::MarkedString;
use satysfi_language_server::position::{Position, Range};
use satysfi_language_server::util::UrlPos;

const URL: &str = "file:///work/doc.saty";

fn no_packages() -> Packages {
    Packages { home: None, files: vec![] }
}

fn file(path: &str, text: &str) -> SourceFile {
    SourceFile { path: path.to_string(), url: format!("file://{}", path), text: text.to_string() }
}

fn cache_with(text: &str, packages: &Packages) -> DocumentCache {
    let mut cache = DocumentCache::new();
    cache.insert_or_update(URL, Some("/work/doc.saty"), text, packages);
    cache
}

fn at(line: u32, character: u32) -> UrlPos {
    UrlPos { url: URL.to_string(), pos: Position { line, character } }
}

fn range(line: u32, from: u32, to: u32) -> Range {
    Range {
        start: Position { line, character: from },
        end: Position { line, character: to },
    }
}

fn place(location: Option<Location>) -> Option<(String, Range)> {
    location.map(|l| (l.uri, l.range))
}

#[test]
fn a_variable_goes_to_its_definition() {
    let cache = cache_with("let x = 1\nlet y = x + 1", &no_packages());
    assert_eq!(
        place(cache.get_definition_list(&at(1, 8))),
        Some((URL.to_string(), range(0, 4, 5)))
    );
    // A number is no name.
    assert_eq!(place(cache.get_definition_list(&at(1, 12))), None);
    // Outside the text there is nothing.
    assert_eq!(place(cache.get_definition_list(&at(7, 0))), None);
}

const PACKAGE: &str = "let top = 1
module M : sig
  val name : int
end = struct
  let name = 1
  let hidden = 2
end
";

fn packages() -> Packages {
    Packages { home: None, files: vec![file("/work/pkg.satyh", PACKAGE)] }
}

#[test]
fn a_qualified_name_is_found_in_a_module_that_is_not_open() {
    let packages = packages();
    let cache = cache_with("@import: pkg\nlet y = M.name\nlet z = name\nlet w = top", &packages);
    // `M.name`, with the cursor on `name`.
    assert_eq!(
        place(cache.get_definition_list(&at(1, 11))),
        Some(("file:///work/pkg.satyh".to_string(), range(4, 6, 10)))
    );
    // The bare `name` is not found while `M` is not open.
    assert_eq!(place(cache.get_definition_list(&at(2, 9))), None);
    // What stands at the top of the package is found.
    assert_eq!(
        place(cache.get_definition_list(&at(3, 9))),
        Some(("file:///work/pkg.satyh".to_string(), range(0, 4, 7)))
    );
    // A private member is not found, qualified or not.
    let cache = cache_with("@import: pkg\nlet y = M.hidden", &packages);
    assert_eq!(place(cache.get_definition_list(&at(1, 11))), None);
}

#[test]
fn a_bare_name_is_found_in_a_module_that_is_open() {
    let packages = packages();
    let cache = cache_with("@import: pkg\nopen M\nlet z = name", &packages);
    assert_eq!(
        place(cache.get_definition_list(&at(2, 9))),
        Some(("file:///work/pkg.satyh".to_string(), range(4, 6, 10)))
    );
}

#[test]
fn a_module_name_goes_to_the_module() {
    let packages = packages();
    let cache = cache_with("@import: pkg\nlet y = M.name", &packages);
    assert_eq!(
        place(cache.get_definition_list(&at(1, 8))),
        Some(("file:///work/pkg.satyh".to_string(), range(1, 7, 8)))
    );
}

#[test]
fn a_hover_says_what_the_word_is() {
    let packages = packages();
    let cache = cache_with("@import: pkg\nopen M\nlet z = name\nlet w = z", &packages);
    let hover = cache.get_hover(&at(2, 9)).unwrap();
    assert_eq!(hover.range, Some(range(2, 8, 12)));
    assert_eq!(hover.contents.len(), 2);
    match &hover.contents[0] {
        MarkedString::String(title) => assert_eq!(title, "variable"),
        other => panic!("no title: {:?}", other),
    }
    match &hover.contents[1] {
        MarkedString::LanguageString { language, value } => {
            assert_eq!(language, "satysfi");
            assert_eq!(value.trim(), "int");
        }
        other => panic!("no type: {:?}", other),
    }
    let hover = cache.get_hover(&at(3, 8)).unwrap();
    assert_eq!(hover.contents.len(), 1);
    // A name is not in scope where it is bound.
    assert!(cache.get_hover(&at(3, 4)).is_none());
    assert!(cache.get_hover(&at(0, 3)).is_none());
}

#[test]
fn a_rejected_text_has_one_diagnostic() {
    let cache = cache_with("let x = 1\nlet y = ", &no_packages());
    let diagnostics = get_diagnostics(cache.get(URL).unwrap());
    assert_eq!(diagnostics.len(), 1);
    assert_eq!(diagnostics[0].range, range(1, 8, 8));
    assert_eq!(diagnostics[0].severity, Some(DiagnosticSeverity::Error));
    assert_eq!(diagnostics[0].source.as_deref(), Some("Syntax Error"));
    assert!(diagnostics[0].message.starts_with("Unexpected character. Expected:\n- "));
}

#[test]
fn a_recovered_node_has_a_diagnostic() {
    let cache = cache_with("@require:\nlet x = 1", &no_packages());
    let diagnostics = get_diagnostics(cache.get(URL).unwrap());
    assert_eq!(diagnostics.len(), 1);
    assert_eq!(diagnostics[0].message, "Missing Package name.");
    assert_eq!(diagnostics[0].range, Range {
        start: Position { line: 0, character: 0 },
        end: Position { line: 1, character: 0 },
    });

    let cache = cache_with("let doc = {abc \\m }", &no_packages());
    let diagnostics = get_diagnostics(cache.get(URL).unwrap());
    assert_eq!(diagnostics.len(), 1);
    assert_eq!(
        diagnostics[0].message,
        "Incomplete inline command.\nTry adding semicolon or arguments after the command name."
    );

    let cache = cache_with("let x = 1", &no_packages());
    assert!(get_diagnostics(cache.get(URL).unwrap()).is_empty());
}

#[test]
fn a_tree_that_does_not_fit_its_text_is_kept_as_malformed() {
    let refused = DocumentData::from_parsed("abc", URL, None, &no_packages(), Err(ParseFailure::Malformed));
    assert!(matches!(&refused, DocumentData::Malformed { text } if text == "abc"));
    let diagnostics = get_diagnostics(&refused);
    assert_eq!(diagnostics.len(), 1);
    assert_eq!(diagnostics[0].message, "The syntax tree does not fit the text.");
    assert_eq!(diagnostics[0].range, range(0, 0, 0));

    // A tree whose spans are not nested in one another.
    let tree = Cst {
        rule: Rule::program_satyh,
        span: Span { start: 0, end: 2 },
        inner: vec![Cst { rule: Rule::preamble, span: Span { start: 1, end: 3 }, inner: vec![] }],
    };
    let data = DocumentData::from_parsed("abc", URL, None, &no_packages(), Ok(tree));
    assert!(matches!(data, DocumentData::Malformed { .. }));

    // A statement that lacks its parts.
    let tree = Cst {
        rule: Rule::program_satyh,
        span: Span { start: 0, end: 3 },
        inner: vec![Cst {
            rule: Rule::preamble,
            span: Span { start: 0, end: 3 },
            inner: vec![Cst { rule: Rule::let_stmt, span: Span { start: 0, end: 3 }, inner: vec![] }],
        }],
    };
    let data = DocumentData::from_parsed("abc", URL, None, &no_packages(), Ok(tree));
    assert!(matches!(data, DocumentData::Malformed { .. }));

    // The same tree without the statement is fine.
    let tree = Cst {
        rule: Rule::program_satyh,
        span: Span { start: 0, end: 3 },
        inner: vec![Cst { rule: Rule::preamble, span: Span { start: 0, end: 3 }, inner: vec![] }],
    };
    let data = DocumentData::from_parsed("abc", URL, None, &no_packages(), Ok(tree));
    assert!(matches!(data, DocumentData::Parsed { .. }));
}

#[test]
fn the_name_of_a_type_goes_to_the_type() {
    let text = "type color = Red | Blue\nlet x : color = Red";
    let cache = cache_with(text, &no_packages());
    // `color` in the annotation.
    assert_eq!(
        place(cache.get_definition_list(&at(1, 10))),
        Some((URL.to_string(), range(0, 5, 10)))
    );
    // `Red` goes to the variant.
    assert_eq!(
        place(cache.get_definition_list(&at(1, 17))),
        Some((URL.to_string(), range(0, 13, 16)))
    );
    let hover = cache.get_hover(&at(1, 10)).unwrap();
    match &hover.contents[0] {
        MarkedString::String(title) => assert_eq!(title, "type"),
        other => panic!("no title: {:?}", other),
    }
}

#[test]
fn the_messages_of_recovered_nodes() {
    assert_eq!(error_description(Rule::dummy_header).as_deref(), Some("Missing Package name."));
    assert_eq!(
        error_description(Rule::dummy_inline_cmd_incomplete).as_deref(),
        Some("Incomplete inline command.\nTry adding semicolon or arguments after the command name.")
    );
    let rules = [
        Rule::dummy_header,
        Rule::dummy_stmt,
        Rule::dummy_sig_stmt,
        Rule::dummy_inline_cmd_incomplete,
        Rule::dummy_block_cmd_incomplete,
        Rule::dummy_modvar_incomplete,
        Rule::let_stmt,
        Rule::var,
    ];
    for rule in rules {
        assert_eq!(error_description(rule), rule.error_description(), "{:?}", rule);
    }
}
