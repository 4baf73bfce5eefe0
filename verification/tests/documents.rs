use satysfi_language_server::documents::{
    join_path, parent_dir, require_candidate_dirs, require_candidate_paths, Component, ComponentBody,
    Dependency, DependencyKind, DocumentCache, DocumentData, Environment, Packages, SourceFile,
    SymbolKind, Visibility,
};
use satysfi_language_server::parser::{LineCol, Span};

fn no_packages() -> Packages {
    Packages { home: None, files: vec![] }
}

fn file(path: &str, text: &str) -> SourceFile {
    SourceFile { path: path.to_string(), url: format!("file://{}", path), text: text.to_string() }
}

fn cache_with(text: &str, packages: &Packages) -> DocumentCache {
    let mut cache = DocumentCache::new();
    cache.insert_or_update("file:///work/doc.saty", Some("/work/doc.saty"), text, packages);
    cache
}

fn environment<'a>(cache: &'a DocumentCache, url: &str) -> &'a Environment {
    match cache.get_doc_info(url) {
        Some((_, environment)) => environment,
        None => panic!("{} is not parsed: {:?}", url, cache.get(url)),
    }
}

fn names(list: &[&Component]) -> Vec<String> {
    list.iter().map(|c| c.name.clone()).collect()
}

fn span(start: usize, end: usize) -> Span {
    Span { start, end }
}

#[test]
fn a_binding_is_in_scope_behind_its_right_hand_side() {
    let cache = cache_with("let x = 1\nlet y = x + 1", &no_packages());
    let environment = environment(&cache, "file:///work/doc.saty");
    let variables = environment.variables();
    assert_eq!(names(&variables), vec!["x", "y"]);
    assert_eq!(variables[0].scope, span(9, 23));
    assert_eq!(variables[0].pos_definition, span(4, 5));
    assert_eq!(variables[0].visibility, Visibility::Public);
    assert_eq!(variables[0].pos_declaration, None);
    assert_eq!(variables[0].url, "file:///work/doc.saty");
    assert_eq!(variables[1].scope, span(23, 23));
    assert_eq!(variables[1].pos_definition, span(14, 15));
    assert!(variables[0].scope.includes(18));
    assert!(!variables[1].scope.includes(18));
    assert!(variables[0].scope.includes(9));
    assert!(variables[0].scope.includes(23));
    assert!(!variables[0].scope.includes(8));
}

#[test]
fn a_recursive_binding_is_in_scope_behind_its_pattern() {
    let cache = cache_with("let-rec f x = f x", &no_packages());
    let environment = environment(&cache, "file:///work/doc.saty");
    let variables = environment.variables();
    assert_eq!(names(&variables), vec!["f"]);
    assert_eq!(variables[0].pos_definition, span(8, 9));
    assert_eq!(variables[0].scope, span(9, 17));
}

#[test]
fn a_pattern_binds_each_of_its_names() {
    let cache = cache_with("let (a, b) = (1, 2)", &no_packages());
    let environment = environment(&cache, "file:///work/doc.saty");
    assert_eq!(names(&environment.variables()), vec!["a", "b"]);
}

const MODULE: &str = "module M : sig
  val x : int
  direct \\cmd : [inline-text; int?] inline-cmd
end = struct
  let x = 1
  let y = 2
  let-inline ctx \\cmd it = it
end
";

#[test]
fn a_signature_decides_who_sees_the_members() {
    let cache = cache_with(MODULE, &no_packages());
    let environment = environment(&cache, "file:///work/doc.saty");
    let modules = environment.modules();
    assert_eq!(names(&modules), vec!["M"]);
    let module = modules[0];
    assert_eq!(module.visibility, Visibility::Public);
    assert_eq!(module.kind(), SymbolKind::Module);
    let members = module.members();
    assert_eq!(members.len(), 3);

    assert_eq!(members[0].name, "x");
    assert_eq!(members[0].visibility, Visibility::Public);
    let declared = members[0].pos_declaration.unwrap();
    assert_eq!(&MODULE[declared.start..declared.end], "x");
    match &members[0].body {
        ComponentBody::Variable { type_declaration: Some(span) } => {
            // The grammar counts the blanks behind a type name to the type.
            assert_eq!(&MODULE[span.start..span.end], "int\n  ")
        }
        other => panic!("not a declared variable: {:?}", other),
    }

    assert_eq!(members[1].name, "y");
    assert_eq!(members[1].visibility, Visibility::Private);
    assert_eq!(members[1].pos_declaration, None);

    assert_eq!(members[2].name, "\\cmd");
    assert_eq!(members[2].visibility, Visibility::Direct);
    match &members[2].body {
        ComponentBody::InlineCmd { type_declaration: Some(span), type_args } => {
            assert_eq!(&MODULE[span.start..span.end], "[inline-text; int?] inline-cmd");
            assert_eq!(type_args, &vec!["inline-text".to_string(), "int?".to_string()]);
        }
        other => panic!("not a declared inline command: {:?}", other),
    }
    // The members are in scope to the end of the module, the module behind it.
    let end = MODULE.rfind("end").unwrap() + 3;
    assert_eq!(members[0].scope.end, end);
    assert_eq!(module.scope, span(end, MODULE.len()));

    let shared = module.shared_members(SymbolKind::Variable);
    assert_eq!(names(&shared), vec!["x"]);
    let shared = module.shared_members(SymbolKind::InlineCommand);
    assert_eq!(names(&shared), vec!["\\cmd"]);
}

#[test]
fn without_a_signature_every_member_is_public() {
    let cache = cache_with("module M = struct\n  let a = 1\n  let-mutable b <- 2\nend\n", &no_packages());
    let environment = environment(&cache, "file:///work/doc.saty");
    let modules = environment.modules();
    let members = modules[0].members();
    assert_eq!(members.len(), 2);
    assert_eq!(members[0].name, "a");
    assert_eq!(members[0].visibility, Visibility::Public);
    assert_eq!(members[1].name, "b");
    assert_eq!(members[1].visibility, Visibility::Public);
}

#[test]
fn a_type_brings_its_variants() {
    let text = "type color = Red | Blue of int\nlet x = Red";
    let cache = cache_with(text, &no_packages());
    let environment = environment(&cache, "file:///work/doc.saty");
    assert_eq!(names(&environment.types()), vec!["color"]);
    let variants = environment.variants();
    assert_eq!(names(&variants), vec!["Red", "Blue"]);
    match &variants[1].body {
        ComponentBody::Variant { of_type } => assert_eq!(of_type, "color"),
        other => panic!("not a variant: {:?}", other),
    }
    assert_eq!(environment.types()[0].scope.start, 31);
}

#[test]
fn commands_of_each_kind() {
    let text = "let-inline \\a x = x\nlet-block ctx +b x = x\nlet-math \\c = ${x}\n";
    let cache = cache_with(text, &no_packages());
    let environment = environment(&cache, "file:///work/doc.saty");
    assert_eq!(names(&environment.inline_cmds()), vec!["\\a"]);
    assert_eq!(names(&environment.block_cmds()), vec!["+b"]);
    assert_eq!(names(&environment.math_cmds()), vec!["\\c"]);
    match &environment.inline_cmds()[0].body {
        ComponentBody::InlineCmd { type_declaration: None, type_args } => {
            assert!(type_args.is_empty())
        }
        other => panic!("not an inline command: {:?}", other),
    }
}

#[test]
fn open_statements_are_recorded_with_their_scope() {
    let text = "open List\nlet x = 1";
    let cache = cache_with(text, &no_packages());
    let environment = environment(&cache, "file:///work/doc.saty");
    assert_eq!(environment.open_modules.len(), 1);
    assert_eq!(environment.open_modules[0].name, "List");
    assert_eq!(environment.open_modules[0].scope, span(9, 19));
    let data = cache.get("file:///work/doc.saty").unwrap();
    assert_eq!(data.get_open_modules(12), vec!["List"]);
    assert_eq!(data.get_open_modules(5), Vec::<String>::new());
}

#[test]
fn a_binding_opens_a_module_for_its_body() {
    let text = "let x = open List in map f xs";
    let cache = cache_with(text, &no_packages());
    let data = cache.get("file:///work/doc.saty").unwrap();
    assert_eq!(data.get_open_modules(24), vec!["List"]);
    assert_eq!(data.get_open_modules(2), Vec::<String>::new());
}

#[test]
fn a_module_qualifies_an_expression() {
    let text = "let x = List.(map f xs)";
    let cache = cache_with(text, &no_packages());
    let data = cache.get("file:///work/doc.saty").unwrap();
    assert_eq!(data.get_localized_modules(16), vec!["List"]);
    assert_eq!(data.get_localized_modules(5), Vec::<String>::new());
}

#[test]
fn a_text_that_the_grammar_rejects_is_kept_with_the_failure() {
    let cache = cache_with("let x = 1\nlet y = ", &no_packages());
    match cache.get("file:///work/doc.saty") {
        Some(DocumentData::NotParsed { text, linecol, expect }) => {
            assert_eq!(text, "let x = 1\nlet y = ");
            assert_eq!(*linecol, LineCol { line: 1, column: 8 });
            assert!(!expect.is_empty());
        }
        other => panic!("parsed after all: {:?}", other),
    }
    assert!(cache.get_doc_info("file:///work/doc.saty").is_none());
    assert!(cache.get("file:///work/other.saty").is_none());
}

#[test]
fn the_package_directories_in_the_order_of_the_search() {
    assert_eq!(
        require_candidate_dirs(Some("/work"), Some("/home/me")),
        vec![
            "/work/.satysfi/local/packages",
            "/work/.satysfi/dist/packages",
            "/home/me/.satysfi/local/packages",
            "/home/me/.satysfi/dist/packages",
            "/usr/local/share/satysfi/local/packages",
            "/usr/local/share/satysfi/dist/packages",
            "/usr/share/satysfi/local/packages",
            "/usr/share/satysfi/dist/packages",
        ]
    );
    assert_eq!(
        require_candidate_dirs(None, None),
        vec![
            "/usr/local/share/satysfi/local/packages",
            "/usr/local/share/satysfi/dist/packages",
            "/usr/share/satysfi/local/packages",
            "/usr/share/satysfi/dist/packages",
        ]
    );
}

#[test]
fn the_paths_of_a_required_package_in_the_order_of_the_search() {
    assert_eq!(
        require_candidate_paths("list", None, Some("/home/me/")),
        vec![
            "/home/me/.satysfi/local/packages/list.satyh",
            "/home/me/.satysfi/local/packages/list.satyg",
            "/home/me/.satysfi/dist/packages/list.satyh",
            "/home/me/.satysfi/dist/packages/list.satyg",
            "/usr/local/share/satysfi/local/packages/list.satyh",
            "/usr/local/share/satysfi/local/packages/list.satyg",
            "/usr/local/share/satysfi/dist/packages/list.satyh",
            "/usr/local/share/satysfi/dist/packages/list.satyg",
            "/usr/share/satysfi/local/packages/list.satyh",
            "/usr/share/satysfi/local/packages/list.satyg",
            "/usr/share/satysfi/dist/packages/list.satyh",
            "/usr/share/satysfi/dist/packages/list.satyg",
        ]
    );
}

#[test]
fn the_directory_of_a_path() {
    assert_eq!(parent_dir("/work/doc.saty"), Some("/work".to_string()));
    assert_eq!(parent_dir("/doc.saty"), Some("/".to_string()));
    assert_eq!(parent_dir("doc.saty"), Some("".to_string()));
    assert_eq!(parent_dir("/a/b/"), Some("/a".to_string()));
    assert_eq!(parent_dir("/a//b/./"), Some("/a".to_string()));
    assert_eq!(parent_dir("a/b"), Some("a".to_string()));
    assert_eq!(parent_dir("./a"), Some(".".to_string()));
    assert_eq!(parent_dir("a/."), Some("".to_string()));
    assert_eq!(parent_dir("/work/\u{3042}/doc.saty"), Some("/work/\u{3042}".to_string()));
    assert_eq!(parent_dir("/a/.."), Some("/a".to_string()));
    assert_eq!(parent_dir("."), Some("".to_string()));
    assert_eq!(parent_dir("/"), None);
    assert_eq!(parent_dir("//."), None);
    assert_eq!(parent_dir(""), None);
}

#[test]
fn the_directory_of_a_path_is_the_one_of_the_standard_library() {
    let paths = [
        "/work/doc.saty", "/doc.saty", "doc.saty", "/a/b/", "/a//b/./", "a/b", "./a", "a/.", ".",
        "..", "/", "//.", "", "./", "./.", "a//", "/a/..", "../a", ".a", "a/./b", "/./a", "//a",
        "a/b/../c", "/\u{3042}/\u{3044}", ".\u{3042}/x",
    ];
    for path in paths {
        let expected = std::path::Path::new(path).parent().map(|dir| dir.to_str().unwrap().to_string());
        assert_eq!(parent_dir(path), expected, "{:?}", path);
    }
}

#[test]
fn a_path_below_a_directory() {
    assert_eq!(join_path("/work", "doc.saty"), "/work/doc.saty");
    assert_eq!(join_path("/work/", "doc.saty"), "/work/doc.saty");
    assert_eq!(join_path("", "doc.saty"), "doc.saty");
    assert_eq!(join_path("/work", ""), "/work/");
    assert_eq!(join_path("/work", "/abs/x.satyh"), "/abs/x.satyh");
    let pairs = [("/work", "a/b"), ("/work/", "/x"), ("", ""), ("a", "b"), ("/", "a"), ("a/", ""), ("", "/")];
    for (base, rel) in pairs {
        let expected = std::path::Path::new(base).join(rel);
        assert_eq!(join_path(base, rel), expected.to_str().unwrap(), "{:?} {:?}", base, rel);
    }
}

#[test]
fn the_variants_of_every_module_are_offered() {
    let text = "module M = struct\n  type color = Red | Blue\nend\ntype side = Left | Right\n";
    let cache = cache_with(text, &no_packages());
    let environment = environment(&cache, "file:///work/doc.saty");
    let closed: Vec<String> = vec![];
    let open = vec!["M".to_string()];
    assert_eq!(names(&environment.variants_external(&closed)), vec!["Left", "Right", "Red", "Blue"]);
    assert_eq!(names(&environment.variants_external(&open)), vec!["Left", "Right", "Red", "Blue"]);
}

fn dependency_summary(deps: &[Dependency]) -> Vec<(String, DependencyKind, Option<String>)> {
    deps.iter().map(|d| (d.name.clone(), d.kind, d.url.clone())).collect()
}

#[test]
fn a_package_that_is_not_found_stays_unresolved() {
    let text = "@require: foo\nlet x = 1";
    let cache = cache_with(text, &no_packages());
    let environment = environment(&cache, "file:///work/doc.saty");
    assert_eq!(
        dependency_summary(environment.dependencies()),
        vec![("foo".to_string(), DependencyKind::Require, None)]
    );
    assert_eq!(environment.dependencies()[0].definition, span(10, 13));
    assert_eq!(cache.docs.len(), 1);
}

#[test]
fn a_required_package_is_found_at_the_first_path_that_has_a_file() {
    let packages = Packages {
        home: Some("/home/me".to_string()),
        files: vec![
            file("/usr/share/satysfi/dist/packages/list.satyh", "let far = 1"),
            file("/home/me/.satysfi/dist/packages/list.satyg", "let near = 1"),
            file("/home/me/.satysfi/dist/packages/list.satyh", "let nearest = 1"),
            file("/work/local.satyh", "let beside = 1"),
        ],
    };
    let text = "@require: list\n@import: local\n@import: missing\nlet x = 1";
    let cache = cache_with(text, &packages);
    let environment = environment(&cache, "file:///work/doc.saty");
    assert_eq!(
        dependency_summary(environment.dependencies()),
        vec![
            (
                "list".to_string(),
                DependencyKind::Require,
                Some("file:///home/me/.satysfi/dist/packages/list.satyh".to_string())
            ),
            (
                "local".to_string(),
                DependencyKind::Import,
                Some("file:///work/local.satyh".to_string())
            ),
            ("missing".to_string(), DependencyKind::Import, None),
        ]
    );
    // The two packages were loaded, and the document stands behind them.
    let urls: Vec<&str> = cache.docs.iter().map(|d| d.url.as_str()).collect();
    assert_eq!(
        urls,
        vec![
            "file:///home/me/.satysfi/dist/packages/list.satyh",
            "file:///work/local.satyh",
            "file:///work/doc.saty",
        ]
    );
    let loaded = environment_of(&cache, "file:///home/me/.satysfi/dist/packages/list.satyh");
    assert_eq!(names(&loaded.variables()), vec!["nearest"]);
}

fn environment_of<'a>(cache: &'a DocumentCache, url: &str) -> &'a Environment {
    environment(cache, url)
}

#[test]
fn registering_twice_changes_nothing() {
    let packages = Packages {
        home: None,
        files: vec![
            file("/work/a.satyh", "@import: b\nlet a = 1"),
            file("/work/b.satyh", "let b = 1"),
        ],
    };
    let deps = vec![Dependency {
        name: "a".to_string(),
        kind: DependencyKind::Import,
        definition: span(0, 0),
        url: Some("file:///work/a.satyh".to_string()),
    }];
    let mut cache = DocumentCache::new();
    cache.register_dependencies(&deps, &packages);
    let once: Vec<String> = cache.docs.iter().map(|d| format!("{:?}", d)).collect();
    assert_eq!(once.len(), 2);
    cache.register_dependencies(&deps, &packages);
    let twice: Vec<String> = cache.docs.iter().map(|d| format!("{:?}", d)).collect();
    assert_eq!(once, twice);
}

#[test]
fn documents_that_name_each_other_are_loaded_once() {
    let packages = Packages {
        home: None,
        files: vec![
            file("/work/a.satyh", "@import: b\nlet a = 1"),
            file("/work/b.satyh", "@import: a\nlet b = 2"),
        ],
    };
    let cache = cache_with("@import: a\nlet x = 1", &packages);
    let urls: Vec<&str> = cache.docs.iter().map(|d| d.url.as_str()).collect();
    assert_eq!(urls, vec!["file:///work/a.satyh", "file:///work/b.satyh", "file:///work/doc.saty"]);
    assert_eq!(names(&environment(&cache, "file:///work/a.satyh").variables()), vec!["a"]);
    assert_eq!(names(&environment(&cache, "file:///work/b.satyh").variables()), vec!["b"]);
    let environment = environment(&cache, "file:///work/doc.saty");
    let reached = cache.get_dependencies_recursive(environment.dependencies());
    let reached: Vec<&str> = reached.iter().map(|d| d.url.as_deref().unwrap()).collect();
    assert_eq!(reached, vec!["file:///work/a.satyh", "file:///work/b.satyh"]);
}

#[test]
fn a_changed_document_replaces_the_one_before() {
    let mut cache = cache_with("let x = 1", &no_packages());
    cache.insert_or_update("file:///work/doc.saty", Some("/work/doc.saty"), "let z = 1", &no_packages());
    assert_eq!(cache.docs.len(), 1);
    let environment = environment(&cache, "file:///work/doc.saty");
    assert_eq!(names(&environment.variables()), vec!["z"]);
    assert_eq!(cache.get_dir("file:///work/doc.saty"), Some("/work"));
}

#[test]
fn the_symbols_that_a_package_offers() {
    let cache = cache_with(MODULE, &no_packages());
    let environment = environment(&cache, "file:///work/doc.saty");
    let closed: Vec<String> = vec![];
    let open = vec!["M".to_string()];
    assert!(environment.variables_external(&closed).is_empty());
    assert_eq!(names(&environment.variables_external(&open)), vec!["x"]);
    assert!(environment.inline_cmds_external(&closed).is_empty());
    assert_eq!(names(&environment.inline_cmds_external(&open)), vec!["\\cmd"]);
    assert!(environment.block_cmds_external(&open).is_empty());
    assert!(environment.math_cmds_external(&open).is_empty());
    assert!(environment.types_external(&open).is_empty());
    assert!(environment.variants_external(&open).is_empty());
}
