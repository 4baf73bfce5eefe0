//! Diagnostics: what is wrong with the syntax of a document.

use crate::documents::{DocumentData, string_view, strings};
use crate::parser::{Cst, LineCol, values};
use crate::position::{Position, Range, column_position, position_of_column, range_at, range_of};
use crate::search::{present, present_all};
use satysfi_parser::Rule;
use vstd::prelude::*;
use vstd::string::*;
use vstd::utf8::encode_utf8;

verus! {

/// How bad a diagnostic is.
#[derive(Debug, Clone, Copy, PartialEq, Eq, Structural)]
pub enum DiagnosticSeverity {
    Error,
    Warning,
    Information,
    Hint,
}

/// Something that is wrong with a document, and where.
#[derive(Debug)]
pub struct Diagnostic {
    pub range: Range,
    pub severity: Option<DiagnosticSeverity>,
    /// What found it.
    pub source: Option<String>,
    pub message: String,
}

/// What a diagnostic holds, with its texts as sequences of characters.
pub ghost struct DiagnosticView {
    pub range: Range,
    pub severity: Option<DiagnosticSeverity>,
    pub source: Option<Seq<char>>,
    pub message: Seq<char>,
}

impl View for Diagnostic {
    type V = DiagnosticView;

    open spec fn view(&self) -> DiagnosticView {
        DiagnosticView {
            range: self.range,
            severity: self.severity,
            source: match self.source {
                Some(source) => Some(source@),
                None => None,
            },
            message: self.message@,
        }
    }
}

/// The views of a list of diagnostics.
pub open spec fn diagnostic_models(list: Seq<Diagnostic>) -> Seq<DiagnosticView> {
    list.map_values(|d: Diagnostic| d@)
}

/// What is wrong where the grammar recovered with a node of this kind; nothing for a
/// node of another kind.
pub open spec fn error_text(rule: Rule) -> Option<Seq<char>> {
    match rule {
        Rule::dummy_header => Some("Missing Package name."@),
        Rule::dummy_stmt => Some("Missing definition of the statement."@),
        Rule::dummy_sig_stmt => Some("Incomplete signature syntax."@),
        Rule::dummy_inline_cmd_incomplete => Some(
            "Incomplete inline command.\nTry adding semicolon or arguments after the command name."@,
        ),
        Rule::dummy_block_cmd_incomplete => Some(
            "Incomplete block command.\nTry adding semicolon or arguments after the command name."@,
        ),
        _ => None,
    }
}

/// What is wrong where the grammar recovered with a node of this kind.
pub fn error_description(rule: Rule) -> (message: Option<String>)
    ensures
        string_view(message) == error_text(rule),
{
    match rule {
        Rule::dummy_header => Some("Missing Package name.".to_owned()),
        Rule::dummy_stmt => Some("Missing definition of the statement.".to_owned()),
        Rule::dummy_sig_stmt => Some("Incomplete signature syntax.".to_owned()),
        Rule::dummy_inline_cmd_incomplete => Some(
            "Incomplete inline command.\nTry adding semicolon or arguments after the command name.".to_owned(),
        ),
        Rule::dummy_block_cmd_incomplete => Some(
            "Incomplete block command.\nTry adding semicolon or arguments after the command name.".to_owned(),
        ),
        _ => None,
    }
}

/// A syntax error with the message `message` at `range`.
pub open spec fn syntax_error(range: Range, message: Seq<char>) -> DiagnosticView {
    DiagnosticView {
        range,
        severity: Some(DiagnosticSeverity::Error),
        source: Some("Syntax Error"@),
        message,
    }
}

/// The diagnostic of a node with which the grammar recovered from an error; none where
/// the kind of the node has no message or its span has no range.
pub open spec fn node_diagnostic(node: Cst, text: Seq<char>) -> Option<DiagnosticView> {
    match (
        error_text(node.rule),
        range_at(encode_utf8(text), node.span.start as int, node.span.end as int),
    ) {
        (Some(message), Some(range)) => Some(syntax_error(range, message)),
        _ => None,
    }
}

/// Of each node its diagnostic.
pub open spec fn node_diagnostics(nodes: Seq<Cst>, text: Seq<char>) -> Seq<Option<DiagnosticView>> {
    Seq::new(nodes.len(), |i: int| node_diagnostic(nodes[i], text))
}

/// The diagnostics of the nodes of kind `rule` of a tree.
pub open spec fn recovered(tree: Cst, text: Seq<char>, rule: Rule) -> Seq<DiagnosticView> {
    present_all(node_diagnostics(tree.picked(rule), text))
}

/// The diagnostics of a document that the grammar accepted: one for each node with which
/// the grammar recovered from an error, kind by kind.
pub open spec fn tree_diagnostics(tree: Cst, text: Seq<char>) -> Seq<DiagnosticView> {
    recovered(tree, text, Rule::dummy_stmt) + recovered(tree, text, Rule::dummy_header)
        + recovered(tree, text, Rule::dummy_sig_stmt) + recovered(
        tree,
        text,
        Rule::dummy_block_cmd_incomplete,
    ) + recovered(tree, text, Rule::dummy_inline_cmd_incomplete)
}

/// The list of what the grammar expected, one item to a line.
pub open spec fn expected_list(expect: Seq<Seq<char>>, n: nat) -> Seq<char>
    decreases n,
{
    if n == 0 || n > expect.len() {
        Seq::empty()
    } else if n == 1 {
        "- "@ + expect[0]
    } else {
        expected_list(expect, (n - 1) as nat) + "\n- "@ + expect[n - 1]
    }
}

/// The diagnostic of a document that the grammar did not accept: at the place where the
/// grammar stopped, with what it expected there.
pub open spec fn failure_diagnostic(text: Seq<char>, linecol: LineCol, expect: Seq<Seq<char>>) -> DiagnosticView {
    let pos = position_of_column(text, linecol.line as nat, linecol.column as nat);
    syntax_error(
        Range { start: pos, end: pos },
        "Unexpected character. Expected:\n"@ + expected_list(expect, expect.len()),
    )
}

/// The diagnostic of a document whose tree is not one over its text.
pub open spec fn malformed_diagnostic() -> DiagnosticView {
    let pos = Position { line: 0, character: 0 };
    syntax_error(Range { start: pos, end: pos }, "The syntax tree does not fit the text."@)
}

/// The diagnostics of a document.
pub open spec fn diagnostics_of(data: DocumentData) -> Seq<DiagnosticView> {
    match data {
        DocumentData::Parsed { program_text, .. } => tree_diagnostics(
            program_text.cst,
            program_text.text@,
        ),
        DocumentData::NotParsed { text, linecol, expect } => seq![
            failure_diagnostic(text@, linecol, strings(expect@)),
        ],
        DocumentData::Malformed { .. } => seq![malformed_diagnostic()],
    }
}

/// A syntax error with the message `message` at `range`.
pub fn new_syntax_error(range: Range, message: String) -> (diagnostic: Diagnostic)
    ensures
        diagnostic@ == syntax_error(range, message@),
{
    Diagnostic {
        range,
        severity: Some(DiagnosticSeverity::Error),
        source: Some("Syntax Error".to_owned()),
        message,
    }
}

/// Adds the diagnostics of the nodes of kind `rule` of a tree.
pub fn add_recovered(tree: &Cst, text: &str, rule: Rule, list: &mut Vec<Diagnostic>)
    ensures
        diagnostic_models(final(list)@) == diagnostic_models(old(list)@) + recovered(
            *tree,
            text@,
            rule,
        ),
{
    let nodes = tree.pickup(rule);
    let ghost start = diagnostic_models(list@);
    let ghost items = node_diagnostics(values(nodes@), text@);
    let mut k: usize = 0;
    while k < nodes.len()
        invariant
            0 <= k <= nodes@.len(),
            values(nodes@) == tree.picked(rule),
            items == node_diagnostics(values(nodes@), text@),
            diagnostic_models(list@) =~= start + present(items, k as nat),
        decreases nodes@.len() - k,
    {
        let node = nodes[k];
        proof {
            assert(values(nodes@)[k as int] == *node);
        }
        match error_description(node.rule) {
            Some(message) => match range_of(text, node.span.start, node.span.end) {
                Some(range) => {
                    let diagnostic = new_syntax_error(range, message);
                    proof {
                        assert(diagnostic_models(list@.push(diagnostic)) =~= diagnostic_models(
                            list@,
                        ).push(diagnostic@));
                    }
                    list.push(diagnostic);
                },
                None => {},
            },
            None => {},
        }
        k = k + 1;
    }
}

/// The list of what the grammar expected, one item to a line.
pub fn list_expected(expect: &Vec<String>) -> (list: String)
    ensures
        list@ == expected_list(strings(expect@), expect@.len()),
{
    let mut list = String::new();
    let mut k: usize = 0;
    while k < expect.len()
        invariant
            0 <= k <= expect@.len(),
            list@ == expected_list(strings(expect@), k as nat),
        decreases expect@.len() - k,
    {
        proof {
            assert(strings(expect@)[k as int] == expect@[k as int]@);
        }
        if k == 0 {
            list.append("- ");
            proof {
                assert(Seq::<char>::empty() + "- "@ =~= "- "@);
            }
        } else {
            list.append("\n- ");
        }
        list.append(expect[k].as_str());
        k = k + 1;
    }
    list
}

/// The diagnostics of a document.
pub fn get_diagnostics(doc_data: &DocumentData) -> (list: Vec<Diagnostic>)
    ensures
        diagnostic_models(list@) == diagnostics_of(*doc_data),
{
    let mut list: Vec<Diagnostic> = Vec::new();
    proof {
        assert(diagnostic_models(list@) =~= Seq::<DiagnosticView>::empty());
    }
    match doc_data {
        DocumentData::Parsed { program_text, .. } => {
            let tree = &program_text.cst;
            let text = program_text.text.as_str();
            add_recovered(tree, text, Rule::dummy_stmt, &mut list);
            add_recovered(tree, text, Rule::dummy_header, &mut list);
            add_recovered(tree, text, Rule::dummy_sig_stmt, &mut list);
            add_recovered(tree, text, Rule::dummy_block_cmd_incomplete, &mut list);
            add_recovered(tree, text, Rule::dummy_inline_cmd_incomplete, &mut list);
            proof {
                assert(diagnostic_models(list@) =~= tree_diagnostics(*tree, text@));
            }
        },
        DocumentData::NotParsed { text, linecol, expect } => {
            let pos = column_position(text.as_str(), linecol.line, linecol.column);
            let mut message = "Unexpected character. Expected:\n".to_owned();
            message.append(list_expected(expect).as_str());
            let diagnostic = new_syntax_error(Range { start: pos, end: pos }, message);
            proof {
                assert(diagnostic_models(list@.push(diagnostic)) =~= seq![diagnostic@]);
            }
            list.push(diagnostic);
        },
        DocumentData::Malformed { .. } => {
            let pos = Position { line: 0, character: 0 };
            let diagnostic = new_syntax_error(
                Range { start: pos, end: pos },
                "The syntax tree does not fit the text.".to_owned(),
            );
            proof {
                assert(diagnostic_models(list@.push(diagnostic)) =~= seq![diagnostic@]);
            }
            list.push(diagnostic);
        },
    }
    list
}

} // verus!
