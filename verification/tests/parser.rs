use satysfi_language_server::parser::{Cst, ParseFailure, SatysfiParser};
use satysfi_parser::Rule;

/// What a test expects of a parse: the text, the rule, and the children where they are
/// checked (`None` leaves them unchecked).
struct ParsedAst {
    text: String,
    rule: Rule,
    inner: Option<Vec<ParsedAst>>,
}

fn ast(text: &str, rule: Rule, inner: Option<Vec<ParsedAst>>) -> ParsedAst {
    ParsedAst { text: text.to_string(), rule, inner }
}

/// Rules nested in one another over the same text, the last one with `inner`.
fn nested(text: &str, rules: &[Rule], inner: Option<Vec<ParsedAst>>) -> ParsedAst {
    if rules.len() == 1 {
        ast(text, rules[0], inner)
    } else {
        ast(text, rules[0], Some(vec![nested(text, &rules[1..], inner)]))
    }
}

impl ParsedAst {
    fn check_parsed(&self) -> Result<Cst, String> {
        let tree = match SatysfiParser::parse(self.rule, &self.text) {
            Ok(tree) => tree,
            Err(ParseFailure::Syntax { location, expected }) => {
                return Err(format!("failed to parse at {:?}: expected {:?}", location, expected))
            }
            Err(ParseFailure::Malformed) => return Err("malformed tree".to_string()),
        };
        self.check_equality(&tree, &self.text, format!("{:?}(0-th child)", self.rule))?;
        Ok(tree)
    }

    fn check_equality(&self, tree: &Cst, text: &str, branch: String) -> Result<(), String> {
        let actual = tree.as_str(text);
        if self.text != actual {
            return Err(format!(
                "text does not match at {}: expected {:?}, parsed {:?}",
                branch, self.text, actual
            ));
        }
        if self.rule != tree.rule {
            return Err(format!(
                "rule does not match at {}: expected {:?}, parsed {:?}",
                branch, self.rule, tree.rule
            ));
        }
        let expect_inners = match &self.inner {
            None => return Ok(()),
            Some(inner) => inner,
        };
        if expect_inners.len() < tree.inner.len() {
            return Err(format!("inner element in {} is excessive", branch));
        }
        if expect_inners.len() > tree.inner.len() {
            return Err(format!("inner element in {} is lacked", branch));
        }
        for (idx, (expect_inner, actual_inner)) in
            expect_inners.iter().zip(tree.inner.iter()).enumerate()
        {
            let below = format!("{} -> {:?}({}-th child)", branch, expect_inner.rule, idx);
            expect_inner.check_equality(actual_inner, text, below)?;
        }
        Ok(())
    }
}

fn parsed(ast: ParsedAst) -> bool {
    match ast.check_parsed() {
        Ok(_) => true,
        Err(e) => {
            println!("parse failed: {}", e);
            false
        }
    }
}

#[test]
fn test_assert_parsed() {
    assert!(parsed(nested("foo", &[Rule::expr, Rule::unary, Rule::var], Some(vec![]))));

    assert!(parsed(ast(
        "List.map",
        Rule::modvar,
        Some(vec![
            ast("List", Rule::module_name, Some(vec![])),
            ast("map", Rule::var_ptn, Some(vec![])),
        ]),
    )));
}

#[test]
fn match_expr() {
    assert!(parsed(ast(
        "match hoge with | Some(hoge) -> 1 | None -> 0",
        Rule::match_expr,
        Some(vec![
            ast("hoge", Rule::expr, None),
            ast("Some(hoge) -> 1", Rule::match_arm, None),
            ast("None -> 0", Rule::match_arm, None),
        ]),
    )));
}

#[test]
fn dyadic_expr() {
    assert!(!parsed(ast("None -> 0", Rule::dyadic_expr, None)));
    assert!(!parsed(ast("None ->0", Rule::dyadic_expr, None)));
    assert!(!parsed(ast("None ->0", Rule::dyadic_expr, None)));
    assert!(!parsed(ast("None -> 0", Rule::dyadic_expr, None)));
    assert!(parsed(ast("None ->| 0", Rule::dyadic_expr, None)));
}

#[test]
fn let_stmt() {
    assert!(parsed(ast(
        "let hoge = 1",
        Rule::let_stmt,
        Some(vec![
            nested("hoge", &[Rule::pattern, Rule::var], Some(vec![])),
            nested("1", &[Rule::expr, Rule::unary, Rule::const_int], None),
        ]),
    )));
}

#[test]
fn match_arm() {
    assert!(parsed(ast(
        "Some(hoge) -> 1",
        Rule::match_arm,
        Some(vec![
            nested(
                "Some(hoge)",
                &[Rule::pat_as, Rule::pat_cons, Rule::pat_variant],
                Some(vec![
                    ast("Some", Rule::variant_name, Some(vec![])),
                    ast("(hoge)", Rule::pattern, None),
                ]),
            ),
            ast("1", Rule::expr, None),
        ]),
    )));
}

#[test]
fn a_failure_names_its_place() {
    match SatysfiParser::parse(Rule::let_stmt, "let hoge =\n  = 1") {
        Err(ParseFailure::Syntax { location, expected }) => {
            assert_eq!((location.line, location.column), (1, 2));
            assert!(!expected.is_empty());
        }
        other => panic!("{:?}", other),
    }
    match SatysfiParser::parse_program("let x = 1\nlet = 2") {
        Err(ParseFailure::Syntax { location, .. }) => assert_eq!(location.line, 1),
        other => panic!("{:?}", other),
    }
}
