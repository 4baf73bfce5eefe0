use satysfi_language_server::parser::{
    get_text, listing_fits, rule_mode, Cst, CstPosition, CstRange, Mode, ParseFailure,
    RawFailure, RawNode, SatysfiParser, Span,
};
use satysfi_language_server::position::Position;
use satysfi_parser::Rule;

fn node(rule: Rule, start: usize, end: usize, children: usize) -> RawNode {
    RawNode { rule, start, end, children }
}

fn program(text: &str) -> Cst {
    match SatysfiParser::parse_program(text) {
        Ok(tree) => tree,
        Err(failure) => panic!("no tree: {:?}", failure),
    }
}

fn rules(nodes: &[&Cst]) -> Vec<Rule> {
    nodes.iter().map(|n| n.rule).collect()
}

#[test]
fn a_span_holds_both_of_its_ends() {
    let span = Span { start: 3, end: 7 };
    assert!(!span.includes(2));
    assert!(span.includes(3));
    assert!(span.includes(5));
    assert!(span.includes(7));
    assert!(!span.includes(8));
    assert!(span.contains(&Span { start: 3, end: 7 }));
    assert!(span.contains(&Span { start: 4, end: 6 }));
    assert!(!span.contains(&Span { start: 2, end: 6 }));
    assert!(!span.contains(&Span { start: 4, end: 8 }));
}

#[test]
fn the_text_of_a_span() {
    assert_eq!(get_text("let x = 1", Span { start: 4, end: 5 }), "x");
    assert_eq!(get_text("aあb", Span { start: 1, end: 4 }), "あ");
    // A span that cuts a character, or leaves the text, has no text.
    assert_eq!(get_text("aあb", Span { start: 2, end: 4 }), "");
    assert_eq!(get_text("abc", Span { start: 2, end: 9 }), "");
}

#[test]
fn a_tree_is_built_from_its_listing() {
    let nodes = vec![
        node(Rule::expr, 0, 5, 2),
        node(Rule::unary, 0, 2, 1),
        node(Rule::var, 0, 2, 0),
        node(Rule::unary, 3, 5, 0),
    ];
    let tree = Cst::from_listing(&nodes).unwrap();
    assert_eq!(tree.rule, Rule::expr);
    assert_eq!(tree.span, Span { start: 0, end: 5 });
    assert_eq!(tree.inner.len(), 2);
    assert_eq!(tree.inner[0].rule, Rule::unary);
    assert_eq!(tree.inner[0].inner.len(), 1);
    assert_eq!(tree.inner[0].inner[0].rule, Rule::var);
    assert_eq!(tree.inner[1].span, Span { start: 3, end: 5 });
    assert!(tree.inner[1].inner.is_empty());
}

#[test]
fn a_listing_that_is_no_tree_is_refused() {
    // No node at all.
    assert!(Cst::from_listing(&vec![]).is_none());
    // A child is missing.
    assert!(Cst::from_listing(&vec![node(Rule::expr, 0, 5, 1)]).is_none());
    // A node is left over.
    assert!(Cst::from_listing(&vec![node(Rule::expr, 0, 5, 0), node(Rule::var, 0, 1, 0)]).is_none());
}

#[test]
fn a_tree_has_to_fit_its_text() {
    let fitting = vec![node(Rule::var, 0, 3, 0)];
    assert!(listing_fits(&fitting, "abc"));
    assert!(matches!(SatysfiParser::tree_of(Ok(fitting), "abc"), Ok(_)));
    let too_long = vec![node(Rule::var, 0, 4, 0)];
    assert!(!listing_fits(&too_long, "abc"));
    assert!(matches!(
        SatysfiParser::tree_of(Ok(too_long), "abc"),
        Err(ParseFailure::Malformed)
    ));
    let cutting = vec![node(Rule::var, 0, 2, 0)];
    assert!(matches!(SatysfiParser::tree_of(Ok(cutting), "aあ"), Err(ParseFailure::Malformed)));
    let no_tree = vec![node(Rule::var, 0, 1, 3)];
    assert!(matches!(SatysfiParser::tree_of(Ok(no_tree), "abc"), Err(ParseFailure::Malformed)));
}

#[test]
fn a_failure_counts_lines_and_columns_from_zero() {
    let raw = RawFailure { line: 2, column: 9, expected: vec!["\"=\"".to_string()] };
    match SatysfiParser::tree_of(Err(raw), "abc") {
        Err(ParseFailure::Syntax { location, expected }) => {
            assert_eq!((location.line, location.column), (1, 8));
            assert_eq!(expected, vec!["\"=\"".to_string()]);
        }
        other => panic!("no syntax failure: {:?}", other),
    }
    match ParseFailure::from_raw(RawFailure { line: 0, column: 0, expected: vec![] }) {
        ParseFailure::Syntax { location, .. } => assert_eq!((location.line, location.column), (0, 0)),
        other => panic!("no syntax failure: {:?}", other),
    }
}

#[test]
fn parsing_by_a_rule() {
    let tree = Cst::parse("List.map", Rule::modvar).unwrap();
    assert_eq!(tree.rule, Rule::modvar);
    assert_eq!(rules(&tree.inner.iter().collect::<Vec<_>>()), vec![Rule::module_name, Rule::var_ptn]);
    assert_eq!(tree.inner[1].as_str("List.map"), "map");
    assert!(matches!(Cst::parse("list.map", Rule::modvar), Err(ParseFailure::Syntax { .. })));
    match Cst::parse("x +", Rule::expr) {
        Err(ParseFailure::Syntax { location, expected }) => {
            assert_eq!((location.line, location.column), (0, 3));
            assert!(!expected.is_empty());
        }
        other => panic!("parsed: {:?}", other),
    }
}

#[test]
fn nodes_are_picked_up_in_the_order_of_the_text() {
    let text = "let (a, b) = f c";
    let tree = program(text);
    let vars = tree.pickup(Rule::var);
    let names: Vec<&str> = vars.iter().map(|v| v.as_str(text)).collect();
    assert_eq!(names, vec!["a", "b", "f", "c"]);
    assert!(tree.pickup(Rule::module_stmt).is_empty());
    // The node itself is not among those below it.
    assert!(tree.pickup(tree.rule).is_empty());
}

#[test]
fn digging_finds_the_nodes_around_an_offset() {
    let text = "let x = 1\nlet y = x + 1";
    let tree = program(text);
    let chain = tree.dig(18);
    assert_eq!(
        rules(&chain),
        vec![
            Rule::var,
            Rule::unary,
            Rule::dyadic_expr,
            Rule::expr,
            Rule::let_stmt,
            Rule::preamble,
            Rule::program_satyh,
        ]
    );
    assert_eq!(chain[0].as_str(text), "x");
    // Each node is the first child of the next one whose span holds the offset.
    for pair in chain.windows(2) {
        assert!(std::ptr::eq(pair[1].choose_child(18).unwrap(), pair[0]));
    }
    assert!(chain[0].choose_child(18).is_none());
    assert!(std::ptr::eq(tree.node_at(18).unwrap(), chain[0]));
    assert!(tree.dig(99).is_empty());
    assert!(tree.node_at(99).is_none());
}

#[test]
fn the_parent_of_a_node() {
    let text = "let x = 1\nlet y = x + 1";
    let tree = program(text);
    let chain = tree.dig(18);
    let parent = tree.get_parent(chain[0]).unwrap();
    assert_eq!(parent.rule, Rule::dyadic_expr);
    assert!(tree.get_parent(&tree).is_none());
}

#[test]
fn the_mode_at_an_offset() {
    let text = "@require: list\nlet doc = '<+p{a ${b} `c` \\d(e);}>";
    let tree = program(text);
    let at = |needle: &str| text.find(needle).unwrap() + 1;
    assert_eq!(tree.mode(at("require")), Mode::Header);
    assert_eq!(tree.mode(at("doc")), Mode::Program);
    assert_eq!(tree.mode(at("+p")), Mode::Vertical);
    assert_eq!(tree.mode(at("a ")), Mode::Horizontal);
    assert_eq!(tree.mode(at("b}")), Mode::Math);
    assert_eq!(tree.mode(at("`c")), Mode::Literal);
    assert_eq!(tree.mode(at("e)")), Mode::Program);
    assert_eq!(tree.mode(999), Mode::Program);
}

#[test]
fn the_rules_that_change_the_mode() {
    assert_eq!(rule_mode(Rule::vertical), Some(Mode::Vertical));
    assert_eq!(rule_mode(Rule::horizontal_single), Some(Mode::Horizontal));
    assert_eq!(rule_mode(Rule::horizontal_list), Some(Mode::Horizontal));
    assert_eq!(rule_mode(Rule::horizontal_bullet_list), Some(Mode::Horizontal));
    assert_eq!(rule_mode(Rule::math_single), Some(Mode::Math));
    assert_eq!(rule_mode(Rule::math_list), Some(Mode::Math));
    assert_eq!(rule_mode(Rule::headers), Some(Mode::Header));
    assert_eq!(rule_mode(Rule::stage), Some(Mode::Header));
    assert_eq!(rule_mode(Rule::const_string), Some(Mode::Literal));
    assert_eq!(rule_mode(Rule::cmd_expr_arg), Some(Mode::Program));
    assert_eq!(rule_mode(Rule::math_cmd_expr_option), Some(Mode::Program));
    assert_eq!(rule_mode(Rule::expr), None);
    assert_eq!(rule_mode(Rule::regular_text), None);
}

#[test]
fn a_range_holds_both_of_its_ends() {
    let text = "ab\ncあd";
    let range = CstRange::of(text, Span { start: 1, end: 7 }).unwrap();
    assert_eq!(range.start, CstPosition { byte: 1, line: 0, character: 1 });
    assert_eq!(range.end, CstPosition { byte: 7, line: 1, character: 2 });
    assert_eq!(range.end.position(), Position { line: 1, character: 2 });
    assert!(range.includes(&Position { line: 0, character: 1 }));
    assert!(range.includes(&Position { line: 0, character: 9 }));
    assert!(range.includes(&Position { line: 1, character: 2 }));
    assert!(!range.includes(&Position { line: 0, character: 0 }));
    assert!(!range.includes(&Position { line: 1, character: 3 }));
    assert!(!range.includes(&Position { line: 2, character: 0 }));
    assert!(CstRange::of(text, Span { start: 1, end: 99 }).is_none());
}

#[test]
fn a_tree_is_listed_line_by_line() {
    let text = "List.map";
    let tree = Cst::parse(text, Rule::modvar).unwrap();
    assert_eq!(
        tree.pretty_text(text, 2),
        "  - [modvar] (0:0..0:8)\n    | [module_name] (0:0..0:4): \"List\"\n    | [var_ptn] (0:5..0:8): \"map\"\n"
    );
}

#[test]
fn comments_are_found() {
    let text = "let x = 1 in% foo \n  2";
    assert!(!SatysfiParser::is_comment(text, 11));
    assert!(!SatysfiParser::is_comment(text, 12));
    assert!(SatysfiParser::is_comment(text, 13));
    assert!(SatysfiParser::is_comment(text, 14));
    assert!(SatysfiParser::is_comment(text, 18));
    assert!(!SatysfiParser::is_comment(text, 19));
    assert!(!SatysfiParser::is_comment(text, 99));
    // A text that the grammar rejects has no comments.
    assert!(!SatysfiParser::is_comment("let x = % foo", 11));
}
