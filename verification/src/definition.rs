//! Go to definition: which symbol the word at the cursor names, and where it is defined.

use crate::completion::{cursor_in, has_name, local_symbols, module_candidates, package_symbols};
use crate::documents::{
    Component, ComponentView, DependencyView, Document, DocumentCache, DocumentData, Environment,
    EnvironmentView, ProgramText, SymbolKind, data_at, is_shared, localized_modules_at,
    localized_names, members_of, open_modules_at, open_names, pointed, strings,
};
use crate::parser::{Cst, Span, get_text, text_of, values};
use crate::position::{Position, Range, position_to_offset, range_at, range_of};
use crate::search::{first_of, first_where, keep_all, lemma_first_where_stays};
use crate::text::same_text;
use crate::util::UrlPos;
use satysfi_parser::Rule;
use vstd::prelude::*;
use vstd::string::*;
use vstd::utf8::encode_utf8;

verus! {

/// A place in a document.
#[derive(Debug)]
pub struct Location {
    pub uri: String,
    pub range: Range,
}

/// What a location holds, with the name of its document as a sequence of characters.
pub ghost struct LocationView {
    pub uri: Seq<char>,
    pub range: Range,
}

impl View for Location {
    type V = LocationView;

    open spec fn view(&self) -> LocationView {
        LocationView { uri: self.uri@, range: self.range }
    }
}

/// The word at a cursor: the kind of symbol that it names, its name, and the module that
/// it is qualified with, if it is.
#[derive(Debug)]
pub struct Word {
    pub kind: SymbolKind,
    pub name: String,
    pub qualifier: Option<String>,
}

/// What a word holds, with its texts as sequences of characters.
pub ghost struct WordView {
    pub kind: SymbolKind,
    pub name: Seq<char>,
    pub qualifier: Option<Seq<char>>,
}

impl View for Word {
    type V = WordView;

    open spec fn view(&self) -> WordView {
        WordView {
            kind: self.kind,
            name: self.name@,
            qualifier: match self.qualifier {
                Some(q) => Some(q@),
                None => None,
            },
        }
    }
}

/// The kind of symbol that a node names, where the node is a name.
pub open spec fn named_kind(rule: Rule) -> Option<SymbolKind> {
    match rule {
        Rule::var | Rule::modvar => Some(SymbolKind::Variable),
        Rule::variant_name => Some(SymbolKind::Variant),
        Rule::module_name => Some(SymbolKind::Module),
        Rule::inline_cmd_name => Some(SymbolKind::InlineCommand),
        Rule::block_cmd_name => Some(SymbolKind::BlockCommand),
        Rule::math_cmd_name => Some(SymbolKind::MathCommand),
        _ => None,
    }
}

/// Whether a node is a name.
pub open spec fn is_name() -> spec_fn(Cst) -> bool {
    |node: Cst| named_kind(node.rule) is Some
}

/// Whether the name of a command is qualified with a module.
pub open spec fn is_qualified_command(node: Cst) -> bool {
    node.inner@.len() >= 1 && node.inner@[0].rule == Rule::mod_cmd_name
        && node.inner@[0].inner@.len() >= 2
}

/// The word that a name node stands for. A qualified variable `M.x` names `x` of `M`; a
/// qualified command `\M.c` names `\c` of `M`.
pub open spec fn word_of(node: Cst, text: Seq<char>) -> Option<WordView> {
    match named_kind(node.rule) {
        Some(kind) => if node.rule == Rule::modvar {
            if node.inner@.len() >= 2 {
                Some(
                    WordView {
                        kind,
                        name: text_of(text, node.inner@[1].span),
                        qualifier: Some(text_of(text, node.inner@[0].span)),
                    },
                )
            } else {
                None
            }
        } else if (kind == SymbolKind::InlineCommand || kind == SymbolKind::BlockCommand || kind
            == SymbolKind::MathCommand) && is_qualified_command(node) {
            let path = node.inner@[0];
            Some(
                WordView {
                    kind,
                    name: text_of(
                        text,
                        Span { start: node.span.start, end: path.span.start },
                    ) + text_of(text, path.inner@[1].span),
                    qualifier: Some(text_of(text, path.inner@[0].span)),
                },
            )
        } else {
            Some(WordView { kind, name: text_of(text, node.span), qualifier: None })
        },
        None => None,
    }
}

/// The symbols of the first `n` of `deps` that go by the name of `word`: of each
/// dependency the first one.
pub open spec fn offered_named(
    docs: Seq<Document>,
    deps: Seq<DependencyView>,
    kind: SymbolKind,
    open: Seq<Seq<char>>,
    name: Seq<char>,
    n: nat,
) -> Option<ComponentView>
    decreases n,
{
    if n == 0 || n > deps.len() {
        None
    } else {
        match offered_named(docs, deps, kind, open, name, (n - 1) as nat) {
            Some(found) => Some(found),
            None => {
                let symbols = package_symbols(docs, deps[n - 1], kind, open);
                match first_of(symbols, has_name(name)) {
                    Some(i) => Some(symbols[i]),
                    None => None,
                }
            },
        }
    }
}

/// The symbol that a word names at `offset` of a document: the symbol of the kind of the
/// word that goes by its name. The name of a variable that names no variable names the
/// type of that name: types and variables are written alike.
pub open spec fn named_symbol(
    docs: Seq<Document>,
    tree: Cst,
    text: Seq<char>,
    environment: EnvironmentView,
    offset: int,
    word: WordView,
) -> Option<ComponentView> {
    match symbol_of_kind(docs, tree, text, environment, offset, word, word.kind) {
        Some(symbol) => Some(symbol),
        None => if word.kind == SymbolKind::Variable {
            symbol_of_kind(docs, tree, text, environment, offset, word, SymbolKind::Type)
        } else {
            None
        },
    }
}

/// The symbol of kind `kind` that a word names at `offset` of a document. A word that is
/// qualified with a module names a member that the first module of that name shares,
/// whether the module is open or not. Another word names the first symbol of the document
/// that is in scope and goes by its name; where there is none, the first symbol of that
/// name that a dependency of the document offers where the modules that are open or named
/// at the cursor are open.
pub open spec fn symbol_of_kind(
    docs: Seq<Document>,
    tree: Cst,
    text: Seq<char>,
    environment: EnvironmentView,
    offset: int,
    word: WordView,
    kind: SymbolKind,
) -> Option<ComponentView> {
    match word.qualifier {
        Some(qualifier) => {
            let candidates = module_candidates(docs, environment, offset);
            match first_of(candidates, has_name(qualifier)) {
                Some(m) => {
                    let members = keep_all(members_of(candidates[m]), is_shared(kind));
                    match first_of(members, has_name(word.name)) {
                        Some(i) => Some(members[i]),
                        None => None,
                    }
                },
                None => None,
            }
        },
        None => {
            let local = local_symbols(environment, kind, offset);
            match first_of(local, has_name(word.name)) {
                Some(i) => Some(local[i]),
                None => offered_named(
                    docs,
                    environment.dependencies,
                    kind,
                    open_names(tree, text, environment, offset) + localized_names(
                        tree,
                        text,
                        offset,
                    ),
                    word.name,
                    environment.dependencies.len(),
                ),
            }
        },
    }
}

/// The name node at `offset` and the symbol that it names: the innermost node around the
/// offset that is a name.
pub open spec fn component_at(
    docs: Seq<Document>,
    tree: Cst,
    text: Seq<char>,
    environment: EnvironmentView,
    offset: int,
) -> Option<(Cst, ComponentView)> {
    let chain = tree.dug(offset);
    match first_of(chain, is_name()) {
        Some(i) => match word_of(chain[i], text) {
            Some(word) => match named_symbol(docs, tree, text, environment, offset, word) {
                Some(symbol) => Some((chain[i], symbol)),
                None => None,
            },
            None => None,
        },
        None => None,
    }
}

/// The name node at a cursor and the symbol that it names.
pub open spec fn component_under(docs: Seq<Document>, url: Seq<char>, pos: Position) -> Option<
    (Cst, ComponentView),
> {
    match cursor_in(docs, url, pos) {
        Some((tree, text, environment, offset)) => component_at(
            docs,
            tree,
            text,
            environment,
            offset,
        ),
        None => None,
    }
}

/// The range of a span in the document `url`, where the cache holds the document, the
/// grammar accepted it and both ends of the span have a position.
pub open spec fn range_in(docs: Seq<Document>, url: Seq<char>, span: Span) -> Option<Range> {
    match data_at(docs, url) {
        Some(DocumentData::Parsed { program_text, .. }) => range_at(
            encode_utf8(program_text.text@),
            span.start as int,
            span.end as int,
        ),
        _ => None,
    }
}

/// Where the word at a cursor is defined: the place of the name in the definition of the
/// symbol that the word names, in the document of the symbol.
pub open spec fn definition_at(docs: Seq<Document>, url: Seq<char>, pos: Position) -> Option<
    LocationView,
> {
    match component_under(docs, url, pos) {
        Some((node, symbol)) => match range_in(docs, symbol.url, symbol.pos_definition) {
            Some(range) => Some(LocationView { uri: symbol.url, range }),
            None => None,
        },
        None => None,
    }
}

/// The kind of symbol that a node of kind `rule` names.
pub fn kind_named(rule: Rule) -> (kind: Option<SymbolKind>)
    ensures
        kind == named_kind(rule),
{
    match rule {
        Rule::var | Rule::modvar => Some(SymbolKind::Variable),
        Rule::variant_name => Some(SymbolKind::Variant),
        Rule::module_name => Some(SymbolKind::Module),
        Rule::inline_cmd_name => Some(SymbolKind::InlineCommand),
        Rule::block_cmd_name => Some(SymbolKind::BlockCommand),
        Rule::math_cmd_name => Some(SymbolKind::MathCommand),
        _ => None,
    }
}

/// The first of `symbols` that goes by the name `name`.
pub fn find_named<'a>(symbols: &Vec<&'a Component>, name: &str) -> (found: Option<&'a Component>)
    ensures
        match first_of(pointed(symbols@), has_name(name@)) {
            Some(i) => found matches Some(c) && c@ == pointed(symbols@)[i],
            None => found is None,
        },
{
    let mut k: usize = 0;
    while k < symbols.len()
        invariant
            0 <= k <= symbols@.len(),
            first_where(pointed(symbols@), has_name(name@), k as nat) is None,
        decreases symbols@.len() - k,
    {
        let symbol = symbols[k];
        proof {
            assert(pointed(symbols@)[k as int] == symbol@);
        }
        if same_text(symbol.name.as_str(), name) {
            proof {
                lemma_first_where_stays(
                    pointed(symbols@),
                    has_name(name@),
                    (k + 1) as nat,
                    symbols@.len(),
                );
            }
            return Some(symbol);
        }
        k = k + 1;
    }
    None
}

impl Word {
    /// The word that a name node stands for.
    pub fn from_node(node: &Cst, text: &str) -> (word: Option<Word>)
        ensures
            match word_of(*node, text@) {
                Some(expected) => word matches Some(w) && w@ == expected,
                None => word is None,
            },
    {
        let kind = match kind_named(node.rule) {
            Some(kind) => kind,
            None => {
                return None;
            },
        };
        if node.rule == Rule::modvar {
            if node.inner.len() < 2 {
                return None;
            }
            return Some(
                Word {
                    kind,
                    name: get_text(text, node.inner[1].span).to_owned(),
                    qualifier: Some(get_text(text, node.inner[0].span).to_owned()),
                },
            );
        }
        let command = match kind {
            SymbolKind::InlineCommand | SymbolKind::BlockCommand | SymbolKind::MathCommand => true,
            _ => false,
        };
        if command && node.inner.len() >= 1 && node.inner[0].rule == Rule::mod_cmd_name
            && node.inner[0].inner.len() >= 2 {
            let path = &node.inner[0];
            let mut name = get_text(
                text,
                Span { start: node.span.start, end: path.span.start },
            ).to_owned();
            name.append(get_text(text, path.inner[1].span));
            return Some(
                Word { kind, name, qualifier: Some(get_text(text, path.inner[0].span).to_owned()) },
            );
        }
        Some(Word { kind, name: get_text(text, node.span).to_owned(), qualifier: None })
    }
}

impl DocumentCache {
    /// The name node at the cursor: the innermost node around it that is a name.
    pub fn _find_word_under_cursor<'a>(&'a self, curpos: &UrlPos) -> (node: Option<&'a Cst>)
        ensures
            match cursor_in(self.docs@, curpos.url@, curpos.pos) {
                Some((tree, text, environment, offset)) => match first_of(
                    tree.dug(offset),
                    is_name(),
                ) {
                    Some(i) => node matches Some(n) && *n == tree.dug(offset)[i],
                    None => node is None,
                },
                None => node is None,
            },
    {
        let (program_text, _) = match self.get_doc_info(curpos.url.as_str()) {
            Some(info) => info,
            None => {
                return None;
            },
        };
        let offset = match position_to_offset(program_text.text.as_str(), curpos.pos) {
            Some(offset) => offset,
            None => {
                return None;
            },
        };
        let chain = program_text.cst.dig(offset);
        DocumentCache::first_name(&chain)
    }

    /// The first of `chain` that is a name.
    pub fn first_name<'a>(chain: &Vec<&'a Cst>) -> (node: Option<&'a Cst>)
        ensures
            match first_of(values(chain@), is_name()) {
                Some(i) => node matches Some(n) && *n == values(chain@)[i],
                None => node is None,
            },
    {
        let mut k: usize = 0;
        while k < chain.len()
            invariant
                0 <= k <= chain@.len(),
                first_where(values(chain@), is_name(), k as nat) is None,
            decreases chain@.len() - k,
        {
            let node = chain[k];
            proof {
                assert(values(chain@)[k as int] == *node);
            }
            if kind_named(node.rule).is_some() {
                proof {
                    lemma_first_where_stays(
                        values(chain@),
                        is_name(),
                        (k + 1) as nat,
                        chain@.len(),
                    );
                }
                return Some(node);
            }
            k = k + 1;
        }
        None
    }

    /// The first symbol that a dependency of `environment` offers under the name `name`.
    pub fn find_offered<'a>(
        &'a self,
        environment: &Environment,
        kind: SymbolKind,
        open: &Vec<String>,
        name: &str,
    ) -> (found: Option<&'a Component>)
        ensures
            match offered_named(
                self.docs@,
                environment@.dependencies,
                kind,
                strings(open@),
                name@,
                environment@.dependencies.len(),
            ) {
                Some(expected) => found matches Some(c) && c@ == expected,
                None => found is None,
            },
    {
        let mut k: usize = 0;
        while k < environment.dependencies.len()
            invariant
                0 <= k <= environment.dependencies@.len(),
                offered_named(
                    self.docs@,
                    environment@.dependencies,
                    kind,
                    strings(open@),
                    name@,
                    k as nat,
                ) is None,
            decreases environment.dependencies@.len() - k,
        {
            let dep = &environment.dependencies[k];
            proof {
                assert(environment@.dependencies[k as int] == dep@);
            }
            let symbols = self.symbols_of_package(dep, kind, open);
            match find_named(&symbols, name) {
                Some(found) => {
                    proof {
                        self.lemma_offered_stays(
                            environment@.dependencies,
                            kind,
                            strings(open@),
                            name@,
                            (k + 1) as nat,
                            environment@.dependencies.len(),
                        );
                    }
                    return Some(found);
                },
                None => {},
            }
            k = k + 1;
        }
        None
    }

    /// What is found among the first `n` dependencies is found among more of them.
    pub proof fn lemma_offered_stays(
        &self,
        deps: Seq<DependencyView>,
        kind: SymbolKind,
        open: Seq<Seq<char>>,
        name: Seq<char>,
        n: nat,
        m: nat,
    )
        requires
            n <= m <= deps.len(),
            offered_named(self.docs@, deps, kind, open, name, n) is Some,
        ensures
            offered_named(self.docs@, deps, kind, open, name, m) == offered_named(
                self.docs@,
                deps,
                kind,
                open,
                name,
                n,
            ),
        decreases m,
    {
        if n < m {
            self.lemma_offered_stays(deps, kind, open, name, n, (m - 1) as nat);
        }
    }

    /// The symbol that a word names at `offset` of a document.
    pub fn find_named_symbol<'a>(
        &'a self,
        program_text: &ProgramText,
        environment: &'a Environment,
        offset: usize,
        word: &Word,
    ) -> (found: Option<&'a Component>)
        ensures
            match named_symbol(
                self.docs@,
                program_text.cst,
                program_text.text@,
                environment@,
                offset as int,
                word@,
            ) {
                Some(expected) => found matches Some(c) && c@ == expected,
                None => found is None,
            },
    {
        match self.find_symbol_of_kind(program_text, environment, offset, word, word.kind) {
            Some(found) => Some(found),
            None => match word.kind {
                SymbolKind::Variable => self.find_symbol_of_kind(
                    program_text,
                    environment,
                    offset,
                    word,
                    SymbolKind::Type,
                ),
                _ => None,
            },
        }
    }

    /// The symbol of kind `kind` that a word names at `offset` of a document.
    pub fn find_symbol_of_kind<'a>(
        &'a self,
        program_text: &ProgramText,
        environment: &'a Environment,
        offset: usize,
        word: &Word,
        kind: SymbolKind,
    ) -> (found: Option<&'a Component>)
        ensures
            match symbol_of_kind(
                self.docs@,
                program_text.cst,
                program_text.text@,
                environment@,
                offset as int,
                word@,
                kind,
            ) {
                Some(expected) => found matches Some(c) && c@ == expected,
                None => found is None,
            },
    {
        match &word.qualifier {
            Some(qualifier) => {
                let deps = self.get_dependencies_recursive(&environment.dependencies);
                let mut candidates = DocumentCache::symbols_in_scope(
                    environment,
                    SymbolKind::Module,
                    offset,
                );
                let mut more = self.modules_of(&deps);
                proof {
                    assert(pointed(candidates@ + more@) =~= pointed(candidates@) + pointed(more@));
                }
                candidates.append(&mut more);
                match find_named(&candidates, qualifier.as_str()) {
                    Some(module) => {
                        let members = module.shared_members(kind);
                        find_named(&members, word.name.as_str())
                    },
                    None => None,
                }
            },
            None => {
                let local = DocumentCache::symbols_in_scope(environment, kind, offset);
                match find_named(&local, word.name.as_str()) {
                    Some(found) => Some(found),
                    None => {
                        let mut open = open_modules_at(program_text, environment, offset);
                        let mut localized = localized_modules_at(program_text, offset);
                        proof {
                            assert(strings(open@ + localized@) =~= strings(open@) + strings(
                                localized@,
                            ));
                        }
                        open.append(&mut localized);
                        self.find_offered(environment, kind, &open, word.name.as_str())
                    },
                }
            },
        }
    }

    /// The name node at the cursor and the symbol that it names.
    pub fn find_component_under_cursor<'a>(&'a self, curpos: &UrlPos) -> (found: Option<
        (&'a Cst, &'a Component),
    >)
        ensures
            match component_under(self.docs@, curpos.url@, curpos.pos) {
                Some((node, symbol)) => found matches Some((n, c)) && *n == node && c@ == symbol,
                None => found is None,
            },
    {
        let (program_text, environment) = match self.get_doc_info(curpos.url.as_str()) {
            Some(info) => info,
            None => {
                return None;
            },
        };
        let text = program_text.text.as_str();
        let offset = match position_to_offset(text, curpos.pos) {
            Some(offset) => offset,
            None => {
                return None;
            },
        };
        let chain = program_text.cst.dig(offset);
        let node = match DocumentCache::first_name(&chain) {
            Some(node) => node,
            None => {
                return None;
            },
        };
        let word = match Word::from_node(node, text) {
            Some(word) => word,
            None => {
                return None;
            },
        };
        match self.find_named_symbol(program_text, environment, offset, &word) {
            Some(symbol) => Some((node, symbol)),
            None => None,
        }
    }

    /// The range of a span in the document `url`.
    pub fn get_range(&self, url: &str, span: Span) -> (range: Option<Range>)
        ensures
            range == range_in(self.docs@, url@, span),
    {
        match self.get_doc_info(url) {
            Some((program_text, _)) => range_of(program_text.text.as_str(), span.start, span.end),
            None => None,
        }
    }

    /// Where the word at the cursor is defined.
    pub fn get_definition_list(&self, curpos: &UrlPos) -> (location: Option<Location>)
        ensures
            match definition_at(self.docs@, curpos.url@, curpos.pos) {
                Some(expected) => location matches Some(l) && l@ == expected,
                None => location is None,
            },
    {
        let (_, symbol) = match self.find_component_under_cursor(curpos) {
            Some(found) => found,
            None => {
                return None;
            },
        };
        match self.get_range(symbol.url.as_str(), symbol.pos_definition) {
            Some(range) => Some(Location { uri: symbol.url.clone(), range }),
            None => None,
        }
    }
}

} // verus!
