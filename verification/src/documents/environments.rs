//! A flat table of what the documents define: every command and every simple variable of
//! a document, wherever in the document its definition stands.

use crate::documents::DocumentData;
use crate::parser::{Cst, Span, get_text, text_of, values};
use crate::search::{keep, keep_all, present, present_all};
use crate::text::same_text;
use satysfi_parser::Rule;
use vstd::prelude::*;
use vstd::string::*;

verus! {

/// A span of a document.
#[derive(Debug)]
pub struct SourceSpan {
    pub url: String,
    pub span: Span,
}

/// A package that a document names.
#[derive(Debug)]
pub struct EnvPackage {
    pub name: String,
    pub url: String,
}

/// What kind of thing an entry of the table is.
#[derive(Debug, Clone, Copy, PartialEq, Eq, Structural)]
pub enum VariableKind {
    Variable,
    Function,
    InlineCmd,
    BlockCmd,
    MathCmd,
    CustomType,
}

/// An entry of the table: a variable or a command, with the statement that defines it.
#[derive(Debug)]
pub struct EnvVariable {
    pub kind: VariableKind,
    pub name: String,
    /// The module that defines it, if one does.
    pub mod_name: Option<String>,
    /// The statement that defines it.
    pub definition: SourceSpan,
    /// Where a signature declares it, if one does.
    pub declaration: Option<SourceSpan>,
}

/// What an entry holds, with its texts as sequences of characters.
pub ghost struct EnvVariableView {
    pub kind: VariableKind,
    pub name: Seq<char>,
    /// The module that defines it, if one does.
    pub mod_name: Option<Seq<char>>,
    pub url: Seq<char>,
    pub span: Span,
    /// The document and the span of its declaration in a signature, if it has one.
    pub declaration: Option<(Seq<char>, Span)>,
}

impl View for EnvVariable {
    type V = EnvVariableView;

    open spec fn view(&self) -> EnvVariableView {
        EnvVariableView {
            kind: self.kind,
            name: self.name@,
            mod_name: match self.mod_name {
                Some(name) => Some(name@),
                None => None,
            },
            url: self.definition.url@,
            span: self.definition.span,
            declaration: match self.declaration {
                Some(place) => Some((place.url@, place.span)),
                None => None,
            },
        }
    }
}

/// The views of a list of entries.
pub open spec fn entries(list: Seq<EnvVariable>) -> Seq<EnvVariableView> {
    list.map_values(|v: EnvVariable| v@)
}

/// The table.
#[derive(Debug)]
pub struct Environments {
    pub package: Vec<EnvPackage>,
    pub variable: Vec<EnvVariable>,
}

/// Whether an entry is defined in another document than `url`.
pub open spec fn defined_elsewhere(url: Seq<char>) -> spec_fn(EnvVariableView) -> bool {
    |v: EnvVariableView| v.url != url
}

/// The entry of a statement whose child `at` is the name that it defines; none where the
/// statement has no such child.
pub open spec fn entry_at(
    stmt: Cst,
    at: int,
    kind: VariableKind,
    text: Seq<char>,
    url: Seq<char>,
) -> Option<EnvVariableView> {
    if 0 <= at < stmt.inner@.len() {
        Some(
            EnvVariableView {
                kind,
                name: text_of(text, stmt.inner@[at].span),
                mod_name: None,
                url,
                span: stmt.span,
                declaration: None,
            },
        )
    } else {
        None
    }
}

/// Of each statement its entry.
pub open spec fn entry_items(
    stmts: Seq<Cst>,
    at: int,
    kind: VariableKind,
    text: Seq<char>,
    url: Seq<char>,
) -> Seq<Option<EnvVariableView>> {
    Seq::new(stmts.len(), |i: int| entry_at(stmts[i], at, kind, text, url))
}

/// The entries of the statements of kind `rule` of a tree, wherever they stand.
pub open spec fn defined_by(
    tree: Cst,
    rule: Rule,
    at: int,
    kind: VariableKind,
    text: Seq<char>,
    url: Seq<char>,
) -> Seq<EnvVariableView> {
    present_all(entry_items(tree.picked(rule), at, kind, text, url))
}

/// The entry of a `let` statement that binds a single name; none for another pattern.
pub open spec fn simple_variable(stmt: Cst, text: Seq<char>, url: Seq<char>) -> Option<
    EnvVariableView,
> {
    if stmt.inner@.len() >= 1 && stmt.inner@[0].inner@.len() >= 1 && stmt.inner@[0].inner@[0].rule
        == Rule::var {
        Some(
            EnvVariableView {
                kind: VariableKind::Variable,
                name: text_of(text, stmt.inner@[0].inner@[0].span),
                mod_name: None,
                url,
                span: stmt.span,
                declaration: None,
            },
        )
    } else {
        None
    }
}

/// Of each `let` statement the entry of the single name that it binds.
pub open spec fn variable_items(stmts: Seq<Cst>, text: Seq<char>, url: Seq<char>) -> Seq<
    Option<EnvVariableView>,
> {
    Seq::new(stmts.len(), |i: int| simple_variable(stmts[i], text, url))
}

/// The inline commands that a tree defines: those with a context, then those without.
pub open spec fn inline_entries(tree: Cst, text: Seq<char>, url: Seq<char>) -> Seq<EnvVariableView> {
    defined_by(tree, Rule::let_inline_stmt_ctx, 1, VariableKind::InlineCmd, text, url) + defined_by(
        tree,
        Rule::let_inline_stmt_noctx,
        0,
        VariableKind::InlineCmd,
        text,
        url,
    )
}

/// The block commands that a tree defines: those with a context, then those without.
pub open spec fn block_entries(tree: Cst, text: Seq<char>, url: Seq<char>) -> Seq<EnvVariableView> {
    defined_by(tree, Rule::let_block_stmt_ctx, 1, VariableKind::BlockCmd, text, url) + defined_by(
        tree,
        Rule::let_block_stmt_noctx,
        0,
        VariableKind::BlockCmd,
        text,
        url,
    )
}

/// The math commands that a tree defines.
pub open spec fn math_entries(tree: Cst, text: Seq<char>, url: Seq<char>) -> Seq<EnvVariableView> {
    defined_by(tree, Rule::let_math_stmt, 0, VariableKind::MathCmd, text, url)
}

/// The simple variables that a tree defines.
pub open spec fn variable_entries(tree: Cst, text: Seq<char>, url: Seq<char>) -> Seq<
    EnvVariableView,
> {
    present_all(variable_items(tree.picked(Rule::let_stmt), text, url))
}

/// What a document adds to the table: its commands, kind by kind, and its simple
/// variables. A document that the grammar did not accept adds nothing.
pub open spec fn entries_of(data: DocumentData, url: Seq<char>) -> Seq<EnvVariableView> {
    match data {
        DocumentData::Parsed { program_text, .. } => inline_entries(
            program_text.cst,
            program_text.text@,
            url,
        ) + block_entries(program_text.cst, program_text.text@, url) + math_entries(
            program_text.cst,
            program_text.text@,
            url,
        ) + variable_entries(program_text.cst, program_text.text@, url),
        _ => Seq::empty(),
    }
}

impl Environments {
    /// A table without entries.
    pub fn new() -> (table: Environments)
        ensures
            table.variable@.len() == 0,
            table.package@.len() == 0,
    {
        Environments { package: Vec::new(), variable: Vec::new() }
    }

    /// Takes out every entry that is defined in the document `url`.
    pub fn remove_defined_in_url(&mut self, url: &str)
        ensures
            entries(final(self).variable@) == keep_all(
                entries(old(self).variable@),
                defined_elsewhere(url@),
            ),
            final(self).package == old(self).package,
    {
        let ghost before = self.variable@;
        let ghost all = entries(self.variable@);
        let ghost mut done: nat = 0;
        let mut i: usize = 0;
        proof {
            assert(self.variable@.skip(0) =~= before);
        }
        while i < self.variable.len()
            invariant
                0 <= i <= self.variable@.len(),
                done <= before.len(),
                all == entries(before),
                self.variable@.len() - i == before.len() - done,
                entries(self.variable@.take(i as int)) =~= keep(
                    all,
                    defined_elsewhere(url@),
                    done,
                ),
                self.variable@.skip(i as int) =~= before.skip(done as int),
                self.package == old(self).package,
            decreases before.len() - done,
        {
            let ghost now = self.variable@;
            proof {
                assert(now.skip(i as int)[0] == before.skip(done as int)[0]);
                assert(all[done as int] == now[i as int]@);
            }
            if same_text(self.variable[i].definition.url.as_str(), url) {
                self.variable.remove(i);
                proof {
                    assert(self.variable@.take(i as int) =~= now.take(i as int));
                    assert(self.variable@.skip(i as int) =~= now.skip(i + 1));
                    assert(now.skip(i + 1) =~= now.skip(i as int).skip(1));
                    assert(before.skip((done + 1) as int) =~= before.skip(done as int).skip(1));
                    done = done + 1;
                }
            } else {
                proof {
                    assert(now.take(i + 1) =~= now.take(i as int).push(now[i as int]));
                    assert(entries(now.take(i + 1)) =~= entries(now.take(i as int)).push(
                        now[i as int]@,
                    ));
                    assert(now.skip(i + 1) =~= now.skip(i as int).skip(1));
                    assert(before.skip((done + 1) as int) =~= before.skip(done as int).skip(1));
                    done = done + 1;
                }
                i = i + 1;
            }
        }
        proof {
            assert(self.variable@.take(i as int) =~= self.variable@);
        }
    }

    /// Adds the entries of the statements of kind `rule` of a tree.
    pub fn register(
        &mut self,
        tree: &Cst,
        rule: Rule,
        at: usize,
        kind: VariableKind,
        text: &str,
        url: &str,
    )
        ensures
            entries(final(self).variable@) == entries(old(self).variable@) + defined_by(
                *tree,
                rule,
                at as int,
                kind,
                text@,
                url@,
            ),
            final(self).package == old(self).package,
    {
        let stmts = tree.pickup(rule);
        let ghost start = entries(self.variable@);
        let ghost items = entry_items(values(stmts@), at as int, kind, text@, url@);
        let mut k: usize = 0;
        while k < stmts.len()
            invariant
                0 <= k <= stmts@.len(),
                values(stmts@) == tree.picked(rule),
                items == entry_items(values(stmts@), at as int, kind, text@, url@),
                entries(self.variable@) =~= start + present(items, k as nat),
                self.package == old(self).package,
            decreases stmts@.len() - k,
        {
            let stmt = stmts[k];
            proof {
                assert(values(stmts@)[k as int] == *stmt);
            }
            if at < stmt.inner.len() {
                let entry = EnvVariable {
                    kind,
                    name: get_text(text, stmt.inner[at].span).to_owned(),
                    mod_name: None,
                    definition: SourceSpan { url: url.to_owned(), span: stmt.span },
                    declaration: None,
                };
                proof {
                    assert(entries(self.variable@.push(entry)) =~= entries(self.variable@).push(
                        entry@,
                    ));
                }
                self.variable.push(entry);
            }
            k = k + 1;
        }
    }

    /// Adds the inline commands that a document defines.
    pub fn register_inline_cmd(&mut self, url: &str, data: &DocumentData)
        ensures
            entries(final(self).variable@) == entries(old(self).variable@) + match *data {
                DocumentData::Parsed { program_text, .. } => inline_entries(
                    program_text.cst,
                    program_text.text@,
                    url@,
                ),
                _ => Seq::empty(),
            },
            final(self).package == old(self).package,
    {
        let ghost start = entries(self.variable@);
        match data {
            DocumentData::Parsed { program_text, .. } => {
                let tree = &program_text.cst;
                let text = program_text.text.as_str();
                self.register(tree, Rule::let_inline_stmt_ctx, 1, VariableKind::InlineCmd, text, url);
                self.register(
                    tree,
                    Rule::let_inline_stmt_noctx,
                    0,
                    VariableKind::InlineCmd,
                    text,
                    url,
                );
                proof {
                    assert(entries(self.variable@) =~= start + inline_entries(*tree, text@, url@));
                }
            },
            _ => {
                proof {
                    assert(start + Seq::<EnvVariableView>::empty() =~= start);
                }
            },
        }
    }

    /// Adds the block commands that a document defines.
    pub fn register_block_cmd(&mut self, url: &str, data: &DocumentData)
        ensures
            entries(final(self).variable@) == entries(old(self).variable@) + match *data {
                DocumentData::Parsed { program_text, .. } => block_entries(
                    program_text.cst,
                    program_text.text@,
                    url@,
                ),
                _ => Seq::empty(),
            },
            final(self).package == old(self).package,
    {
        let ghost start = entries(self.variable@);
        match data {
            DocumentData::Parsed { program_text, .. } => {
                let tree = &program_text.cst;
                let text = program_text.text.as_str();
                self.register(tree, Rule::let_block_stmt_ctx, 1, VariableKind::BlockCmd, text, url);
                self.register(tree, Rule::let_block_stmt_noctx, 0, VariableKind::BlockCmd, text, url);
                proof {
                    assert(entries(self.variable@) =~= start + block_entries(*tree, text@, url@));
                }
            },
            _ => {
                proof {
                    assert(start + Seq::<EnvVariableView>::empty() =~= start);
                }
            },
        }
    }

    /// Adds the math commands that a document defines.
    pub fn register_math_cmd(&mut self, url: &str, data: &DocumentData)
        ensures
            entries(final(self).variable@) == entries(old(self).variable@) + match *data {
                DocumentData::Parsed { program_text, .. } => math_entries(
                    program_text.cst,
                    program_text.text@,
                    url@,
                ),
                _ => Seq::empty(),
            },
            final(self).package == old(self).package,
    {
        let ghost start = entries(self.variable@);
        match data {
            DocumentData::Parsed { program_text, .. } => {
                self.register(
                    &program_text.cst,
                    Rule::let_math_stmt,
                    0,
                    VariableKind::MathCmd,
                    program_text.text.as_str(),
                    url,
                );
            },
            _ => {
                proof {
                    assert(start + Seq::<EnvVariableView>::empty() =~= start);
                }
            },
        }
    }

    /// Adds the simple variables that a document defines.
    pub fn register_variable(&mut self, url: &str, data: &DocumentData)
        ensures
            entries(final(self).variable@) == entries(old(self).variable@) + match *data {
                DocumentData::Parsed { program_text, .. } => variable_entries(
                    program_text.cst,
                    program_text.text@,
                    url@,
                ),
                _ => Seq::empty(),
            },
            final(self).package == old(self).package,
    {
        let ghost start = entries(self.variable@);
        match data {
            DocumentData::Parsed { program_text, .. } => {
                let text = program_text.text.as_str();
                let stmts = program_text.cst.pickup(Rule::let_stmt);
                let ghost items = variable_items(values(stmts@), text@, url@);
                let mut k: usize = 0;
                while k < stmts.len()
                    invariant
                        0 <= k <= stmts@.len(),
                        values(stmts@) == program_text.cst.picked(Rule::let_stmt),
                        items == variable_items(values(stmts@), text@, url@),
                        entries(self.variable@) =~= start + present(items, k as nat),
                        self.package == old(self).package,
                    decreases stmts@.len() - k,
                {
                    let stmt = stmts[k];
                    proof {
                        assert(values(stmts@)[k as int] == *stmt);
                    }
                    if stmt.inner.len() >= 1 && stmt.inner[0].inner.len() >= 1
                        && stmt.inner[0].inner[0].rule == Rule::var {
                        let entry = EnvVariable {
                            kind: VariableKind::Variable,
                            name: get_text(text, stmt.inner[0].inner[0].span).to_owned(),
                            mod_name: None,
                            definition: SourceSpan { url: url.to_owned(), span: stmt.span },
                            declaration: None,
                        };
                        proof {
                            assert(entries(self.variable@.push(entry)) =~= entries(
                                self.variable@,
                            ).push(entry@));
                        }
                        self.variable.push(entry);
                    }
                    k = k + 1;
                }
            },
            _ => {
                proof {
                    assert(start + Seq::<EnvVariableView>::empty() =~= start);
                }
            },
        }
    }

    /// Brings the table up to date with a document: what the document defined before is
    /// taken out, and what it defines now comes behind the rest.
    pub fn update(&mut self, url: &str, data: &DocumentData)
        ensures
            entries(final(self).variable@) == keep_all(
                entries(old(self).variable@),
                defined_elsewhere(url@),
            ) + entries_of(*data, url@),
            final(self).package == old(self).package,
    {
        self.remove_defined_in_url(url);
        let ghost start = entries(self.variable@);
        self.register_inline_cmd(url, data);
        self.register_block_cmd(url, data);
        self.register_math_cmd(url, data);
        self.register_variable(url, data);
        proof {
            assert(entries(self.variable@) =~= start + entries_of(*data, url@));
        }
    }
}

} // verus!
