use satysfi_language_server::completion::{
    form_command_text_snippet, get_block_cmd_list, get_completion_list, get_inline_cmd_list,
    get_primitive_list, get_variable_list, header_completion_item, list_type, module_before_dot,
    ArgType,
    CompletionItem, CompletionItemKind, CompletionResourceItem, InsertTextFormat,
};
use satysfi_language_server::documents::{DocumentCache, Packages, SourceFile};
use satysfi_language_server::parser::Mode;
use satysfi_language_server::position::{Position, Range};
use satysfi_language_server::util::UrlPos;

const URL: &str = "file:///work/doc.saty";

fn no_packages() -> Packages {
    Packages { home: None, files: vec![] }
}

fn file(path: &str, text: &str) -> SourceFile {
    SourceFile { path: path.to_string(), url: format!("file://{}", path), text: text.to_string() }
}

fn cache_with(text: &str, packages: &Packages) -> DocumentCache {
    let mut cache = DocumentCache::new();
    cache.insert_or_update(URL, Some("/work/doc.saty"), text, packages);
    cache
}

fn at(line: u32, character: u32) -> UrlPos {
    UrlPos { url: URL.to_string(), pos: Position { line, character } }
}

fn labels(items: &[CompletionItem]) -> Vec<String> {
    items.iter().map(|item| item.label.clone()).collect()
}

fn builtin(label: &str, format: Option<&str>) -> CompletionResourceItem {
    CompletionResourceItem {
        label: label.to_string(),
        detail: Some("built in".to_string()),
        documentation: None,
        insert_text: Some(format!("{} $1", label)),
        insert_text_format: format.map(|f| f.to_string()),
    }
}

#[test]
fn argument_types_are_read() {
    let arg = ArgType::from_str("  inline-text ");
    assert_eq!(arg.name, "inline-text");
    assert!(!arg.optional);
    assert!(arg.is_compactible());
    let arg = ArgType::from_str("int list ?");
    assert_eq!(arg.name, "int list");
    assert!(arg.optional);
    assert!(!arg.is_compactible());
    let arg = ArgType::from_str("length");
    assert!(!arg.is_compactible());
}

#[test]
fn snippets_of_arguments() {
    let arg = |name: &'static str| ArgType { name, optional: false };
    assert_eq!(arg("inline-text").as_snippet(1, true), "{$1}");
    assert_eq!(arg("inline-text").as_snippet(1, false), "({$1})");
    assert_eq!(arg("inline-text list").as_snippet(2, true), "{|$2|}");
    assert_eq!(arg("inline-text list").as_snippet(2, false), "({|$2|})");
    assert_eq!(arg("itemize").as_snippet(3, true), "{\n  * $3\n}");
    assert_eq!(arg("itemize").as_snippet(3, false), "({* $3})");
    assert_eq!(arg("block-text").as_snippet(4, true), "<\n  $4\n>");
    assert_eq!(arg("block-text").as_snippet(4, false), "('<$4>)");
    assert_eq!(arg("int list").as_snippet(12, false), "[$12]");
    assert_eq!(arg("alist").as_snippet(1, false), "($1)");
    assert_eq!(arg("length").as_snippet(1, true), "($1)");
    let optional = |name: &'static str| ArgType { name, optional: true };
    assert_eq!(optional("int list").as_snippet(1, false), "${1:?:[]}");
    assert_eq!(optional("int").as_snippet(2, false), "${2:?:()}");
}

fn snippet(name: &str, args: &[&str]) -> String {
    let args: Vec<String> = args.iter().map(|a| a.to_string()).collect();
    form_command_text_snippet(name, &args)
}

#[test]
fn snippets_of_commands() {
    assert_eq!(snippet("\\emph", &["inline-text"]), "\\\\emph{$1}$0");
    assert_eq!(snippet("+p", &["inline-text"]), "+p{$1}$0");
    assert_eq!(snippet("\\cmd", &[]), "\\\\cmd;$0");
    assert_eq!(snippet("\\cmd", &["int"]), "\\\\cmd($1);$0");
    assert_eq!(snippet("\\cmd", &["int", "inline-text"]), "\\\\cmd($1){$2}$0");
    assert_eq!(snippet("\\cmd", &["inline-text", "int"]), "\\\\cmd({$1})($2);$0");
    assert_eq!(
        snippet("\\cmd", &["inline-text", "int", "block-text", "inline-text list"]),
        "\\\\cmd({$1})($2)<\n  $3\n>{|$4|}$0"
    );
    // An argument that can be left out gets no place.
    assert_eq!(snippet("\\cmd", &["int?", "inline-text", " length ? "]), "\\\\cmd{$1}$0");
}

#[test]
fn the_module_before_a_dot() {
    assert_eq!(module_before_dot("let x = List."), Some("List".to_string()));
    assert_eq!(module_before_dot("  Html-Writer."), Some("Html-Writer".to_string()));
    assert_eq!(module_before_dot("fooBar."), Some("Bar".to_string()));
    assert_eq!(module_before_dot("List.map"), None);
    assert_eq!(module_before_dot("list."), None);
    assert_eq!(module_before_dot("List"), None);
}

#[test]
fn the_item_of_a_built_in() {
    let items = get_primitive_list(&vec![builtin("inline-fil", Some("snippet")), builtin("true", None)]);
    assert_eq!(labels(&items), vec!["inline-fil", "true"]);
    assert_eq!(items[0].insert_text_format, Some(InsertTextFormat::Snippet));
    assert_eq!(items[0].insert_text.as_deref(), Some("inline-fil $1"));
    assert_eq!(items[0].detail.as_deref(), Some("built in"));
    assert_eq!(items[0].kind, None);
    assert_eq!(items[1].insert_text_format, None);
}

#[test]
fn the_item_of_a_package_in_a_header() {
    let range = Range {
        start: Position { line: 0, character: 0 },
        end: Position { line: 0, character: 9 },
    };
    let item = header_completion_item("require", "base/list", range);
    assert_eq!(item.label, "base/list");
    assert_eq!(item.kind, Some(CompletionItemKind::Module));
    let edit = item.text_edit.unwrap();
    assert_eq!(edit.new_text, "@require: base/list");
    assert_eq!(edit.range, range);
}

#[test]
fn a_variable_is_proposed_where_it_is_in_scope() {
    let cache = cache_with("let x = 1\nlet y = x + 1", &no_packages());
    let resources = vec![builtin("inline-fil", None)];
    // Just behind `y = `.
    let cursor = at(1, 8);
    assert_eq!(cache.get_mode(&cursor), Mode::Program);
    let items = cache.get_completion_list(&cursor, None, &resources, &no_packages()).unwrap();
    assert_eq!(labels(&items), vec!["x", "inline-fil"]);
    assert_eq!(items[0].kind, Some(CompletionItemKind::Function));
    assert_eq!(items[0].documentation.as_deref(), Some("variable defined in this file"));
    assert_eq!(items[0].detail, None);
    // At the end of the text both are in scope, before the end of the first binding none.
    let items = cache.get_completion_list(&at(1, 13), None, &resources, &no_packages()).unwrap();
    assert_eq!(labels(&items), vec!["x", "y", "inline-fil"]);
    let items = cache.get_completion_list(&at(0, 8), None, &resources, &no_packages()).unwrap();
    assert_eq!(labels(&items), vec!["inline-fil"]);
    // A cursor that is not in the text gets nothing.
    assert!(cache.get_completion_list(&at(5, 0), None, &resources, &no_packages()).is_none());
}

#[test]
fn an_unresolved_package_does_not_stop_completion() {
    let cache = cache_with("@require: foo\nlet x = 1\nlet y = x", &no_packages());
    let resources = vec![builtin("inline-fil", None)];
    let items = cache.get_completion_list(&at(2, 8), None, &resources, &no_packages()).unwrap();
    assert_eq!(labels(&items), vec!["x", "inline-fil"]);
}

const PACKAGE: &str = "let top = 1
module M : sig
  val shown : int
  direct \\direct : [inline-text] inline-cmd
  val \\public : [int] inline-cmd
end = struct
  let shown = 1
  let hidden = 2
  let-inline ctx \\direct it = it
  let-inline ctx \\public n = {}
  let-inline ctx \\private n = {}
end
let-inline \\top-cmd x = x
";

fn packages() -> Packages {
    Packages { home: None, files: vec![file("/work/pkg.satyh", PACKAGE)] }
}

#[test]
fn a_package_offers_what_its_open_modules_share() {
    let packages = packages();
    let resources = vec![];
    let closed = cache_with("@import: pkg\nlet x = 1\nlet y = x", &packages);
    let items = closed.get_completion_list(&at(2, 8), None, &resources, &packages).unwrap();
    assert_eq!(labels(&items), vec!["x", "top", "M"]);
    assert_eq!(items[1].documentation.as_deref(), Some("variable defined in package `pkg`"));
    assert_eq!(items[2].kind, Some(CompletionItemKind::Module));
    assert_eq!(items[2].documentation.as_deref(), Some("module defined in package pkg"));

    let open = cache_with("@import: pkg\nopen M\nlet x = 1\nlet y = x", &packages);
    let items = open.get_completion_list(&at(3, 8), None, &resources, &packages).unwrap();
    assert_eq!(labels(&items), vec!["x", "top", "shown", "M"]);
    // The blanks behind the name of a type belong to the type for the grammar.
    assert_eq!(items[2].detail.as_deref().map(|d| d.trim()), Some("int"));
}

#[test]
fn inline_commands_are_proposed_in_text() {
    let packages = packages();
    let text = "@import: pkg\nlet-inline \\mine x = x\nlet doc = {abc \\m }";
    let closed = cache_with(text, &packages);
    let cursor = at(2, 17);
    assert_eq!(closed.get_mode(&cursor), Mode::Horizontal);
    let items = closed.get_completion_list(&cursor, Some("\\"), &vec![], &packages).unwrap();
    assert_eq!(labels(&items), vec!["\\mine", "\\top-cmd"]);
    assert_eq!(items[0].kind, Some(CompletionItemKind::Variable));
    assert_eq!(items[0].documentation.as_deref(), Some("inline-cmd defined in this file"));
    assert_eq!(items[1].documentation.as_deref(), Some("inline-cmd defined in package `pkg`"));
    let edit = items[0].text_edit.as_ref().unwrap();
    assert_eq!(edit.new_text, "\\mine");
    assert_eq!(
        edit.range,
        Range { start: Position { line: 2, character: 15 }, end: Position { line: 2, character: 17 } }
    );

    let text = "@import: pkg\nopen M\nlet doc = {abc \\m }";
    let open = cache_with(text, &packages);
    let items = open.get_completion_list(&at(2, 17), Some("\\"), &vec![], &packages).unwrap();
    assert_eq!(labels(&items), vec!["\\top-cmd", "\\direct", "\\public"]);
    assert_eq!(items[1].insert_text.as_deref(), Some("\\\\direct{$1}$0"));
    assert_eq!(items[1].insert_text_format, Some(InsertTextFormat::Snippet));
    assert_eq!(items[1].detail.as_deref(), Some("[inline-text] inline-cmd"));
    assert_eq!(items[1].text_edit.as_ref().unwrap().new_text, "\\\\direct{$1}$0");
    assert_eq!(items[2].insert_text.as_deref(), Some("\\\\public($1);$0"));
}

#[test]
fn block_commands_are_proposed_in_blocks() {
    let text = "let-block ctx +para it = '<>\nlet doc = '<+>";
    let cache = cache_with(text, &no_packages());
    let cursor = at(1, 13);
    assert_eq!(cache.get_mode(&cursor), Mode::Vertical);
    let items = cache.get_completion_list(&cursor, Some("+"), &vec![], &no_packages()).unwrap();
    assert_eq!(labels(&items), vec!["+para"]);
    assert_eq!(items[0].documentation.as_deref(), Some("block-cmd defined in this file"));
    assert_eq!(
        items[0].text_edit.as_ref().unwrap().range,
        Range { start: Position { line: 1, character: 12 }, end: Position { line: 1, character: 13 } }
    );
}

#[test]
fn the_members_of_a_module_are_proposed_behind_its_name() {
    let packages = packages();
    let text = "@import: pkg\nlet x = M.";
    let cache = cache_with(text, &packages);
    // The grammar recovers from the dot without a name.
    let cursor = at(1, 10);
    let items = cache.get_completion_list_with_module(&cursor).unwrap();
    assert_eq!(labels(&items), vec!["shown"]);
    assert_eq!(items[0].kind, Some(CompletionItemKind::Variable));
    assert!(cache.get_completion_list_with_module(&at(1, 7)).is_none());
}

#[test]
fn a_header_line_is_completed() {
    let packages = Packages {
        home: Some("/home/me".to_string()),
        files: vec![
            file("/home/me/.satysfi/dist/packages/base/list.satyg", ""),
            file("/home/me/.satysfi/dist/packages/stdja.satyh", ""),
            file("/home/me/.satysfi/dist/packages/notes.txt", ""),
            file("/work/local.satyh", ""),
            file("/work/sub/deep.satyg", ""),
        ],
    };
    let cache = cache_with("@require: \nlet x = 1", &packages);
    let cursor = at(0, 10);
    assert_eq!(cache.get_mode(&cursor), Mode::Header);
    let items = cache.get_completion_list(&cursor, None, &vec![], &packages).unwrap();
    assert_eq!(labels(&items), vec!["base/list", "stdja"]);
    let edit = items[0].text_edit.as_ref().unwrap();
    assert_eq!(edit.new_text, "@require: base/list");
    assert_eq!(
        edit.range,
        Range { start: Position { line: 0, character: 0 }, end: Position { line: 0, character: 10 } }
    );

    let cache = cache_with("@import: l\nlet x = 1", &packages);
    let items = cache.get_completion_list(&at(0, 10), None, &vec![], &packages).unwrap();
    assert_eq!(labels(&items), vec!["sub/deep", "local"]);
    assert_eq!(items[1].text_edit.as_ref().unwrap().new_text, "@import: local");

    let cache = cache_with("@\nlet x = 1", &packages);
    let items = cache.get_completion_list(&at(0, 1), None, &vec![], &packages).unwrap();
    assert_eq!(labels(&items), vec!["@require:", "@import:"]);
    assert_eq!(items[0].detail.as_deref(), Some("Specify a installed satysfi package"));
    assert_eq!(items[0].text_edit.as_ref().unwrap().new_text, "@require:");
}

#[test]
fn a_keyword_is_proposed_behind_wide_blanks() {
    let text = "let s = `\n\u{3000}@\n`";
    let cache = cache_with(text, &no_packages());
    let items = cache.get_completion_list_header(&at(1, 2), &no_packages()).unwrap();
    assert_eq!(labels(&items), vec!["@require:", "@import:"]);
    let edit = items[0].text_edit.as_ref().unwrap();
    assert_eq!(
        edit.range,
        Range { start: Position { line: 1, character: 0 }, end: Position { line: 1, character: 2 } }
    );
}

#[test]
fn a_list_type_is_told_by_its_bytes() {
    assert!(list_type("int list"));
    assert!(list_type("\u{e9}list"));
    assert!(!list_type("alist"));
    assert!(!list_type(" list"));
    assert!(!list_type("\u{3042}\u{3042}"));
    assert!(!list_type("listing"));
}

#[test]
fn nothing_is_proposed_in_a_literal_or_an_unknown_document() {
    let cache = cache_with("let x = `abc`", &no_packages());
    assert_eq!(cache.get_mode(&at(0, 10)), Mode::Literal);
    assert!(cache.get_completion_list(&at(0, 10), None, &vec![], &no_packages()).is_none());
    let elsewhere = UrlPos { url: "file:///other".to_string(), pos: Position { line: 0, character: 0 } };
    assert_eq!(cache.get_mode(&elsewhere), Mode::Comment);
    assert!(cache.get_completion_list(&elsewhere, None, &vec![], &no_packages()).is_none());
}

#[test]
fn a_document_alone_proposes_its_own_symbols() {
    let text = "let-inline \\a x = x\nlet-block ctx +b x = x\nlet x = 1\nlet doc = {abc \\m }";
    let cache = cache_with(text, &no_packages());
    let data = cache.get(URL).unwrap();
    let end = Position { line: 3, character: 19 };
    assert_eq!(labels(&get_variable_list(data, &end)), vec!["x", "doc"]);
    assert_eq!(labels(&get_inline_cmd_list(data, &end)), vec!["\\a"]);
    assert_eq!(labels(&get_block_cmd_list(data, &end)), vec!["+b"]);
    assert_eq!(get_variable_list(data, &end)[0].detail.as_deref(), Some("in this file"));
    assert!(get_variable_list(data, &Position { line: 9, character: 0 }).is_empty());

    let resources = vec![builtin("inline-fil", None)];
    let in_text = Position { line: 3, character: 17 };
    assert_eq!(labels(&get_completion_list(data, &in_text, &resources).unwrap()), vec!["\\a"]);
    let in_program = Position { line: 3, character: 4 };
    assert_eq!(
        labels(&get_completion_list(data, &in_program, &resources).unwrap()),
        vec!["x", "inline-fil"]
    );
    assert!(get_completion_list(data, &Position { line: 9, character: 0 }, &resources).is_none());
}

#[test]
fn types_are_proposed_in_a_program() {
    let packages = Packages {
        home: None,
        files: vec![file("/work/pkg.satyh", "type far = int\nlet v = 1")],
    };
    let text = "@import: pkg\ntype color = Red | Blue\nlet x = Red";
    let cache = cache_with(text, &packages);
    let items = cache.get_completion_list(&at(2, 11), None, &vec![], &packages).unwrap();
    assert_eq!(labels(&items), vec!["x", "color", "v", "far"]);
    assert_eq!(items[1].kind, Some(CompletionItemKind::Struct));
    assert_eq!(items[1].documentation.as_deref(), Some("type defined in this file"));
    assert_eq!(items[3].documentation.as_deref(), Some("type defined in package `pkg`"));
}

#[test]
fn nothing_is_proposed_in_a_comment() {
    let text = "let x = 1 % a note\nlet y = x";
    let cache = cache_with(text, &no_packages());
    let resources = vec![builtin("inline-fil", None)];
    assert_eq!(cache.get_mode(&at(0, 14)), Mode::Comment);
    assert!(cache.get_completion_list(&at(0, 14), None, &resources, &no_packages()).is_none());
    assert!(get_completion_list(cache.get(URL).unwrap(), &Position { line: 0, character: 14 }, &resources)
        .is_none());
    // In front of the comment and on the next line the program goes on.
    assert_eq!(cache.get_mode(&at(0, 9)), Mode::Program);
    assert_eq!(cache.get_mode(&at(1, 8)), Mode::Program);
    assert!(cache.get_completion_list(&at(1, 8), None, &resources, &no_packages()).is_some());
}

#[test]
fn the_line_of_a_cursor() {
    let cache = cache_with("let x = 1\nlet y = 2", &no_packages());
    // The line of a document that was parsed comes with its line end.
    assert_eq!(cache.get_line(&at(0, 3)), Some("let x = 1\n"));
    assert_eq!(cache.get_line(&at(1, 0)), Some("let y = 2"));
    assert_eq!(cache.get_line(&at(2, 0)), None);
    assert_eq!(cache.get_line(&at(0, 40)), None);
    // The line of another one comes without.
    let cache = cache_with("let x =\nlet", &no_packages());
    assert_eq!(cache.get_line(&at(0, 3)), Some("let x ="));
    assert_eq!(cache.get_line(&at(1, 0)), Some("let"));
    assert_eq!(cache.get_line(&at(2, 0)), None);
}
