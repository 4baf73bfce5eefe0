//! From the symbols of a document and of its dependencies to completion items.

use crate::completion::{
    CompletionItem, CompletionItemKind, CompletionItemView, InsertTextFormat, TextEdit,
    TextEditView, command_snippet, form_command_text_snippet, item_models, module_completion_item,
    module_item, optional_text, type_completion_item, type_item, variable_completion_item,
    variable_item,
};
use crate::documents::{
    BodyView, Component, ComponentBody, ComponentView, Dependency, DependencyView, Document,
    DocumentCache, DocumentData, Environment, EnvironmentView, SymbolKind, Visibility, data_at,
    kind_of, offered, pointed, pointed_dependencies, strings,
};
use crate::parser::{Span, text_of};
use crate::position::Range;
use crate::search::{keep, keep_all};
use crate::text::join2;
use vstd::prelude::*;
use vstd::string::*;

verus! {

/// The text that `span` cuts out of the document `url`, where the cache holds the
/// document and the grammar accepted it.
pub open spec fn text_in(docs: Seq<Document>, url: Seq<char>, span: Span) -> Option<Seq<char>> {
    match data_at(docs, url) {
        Some(DocumentData::Parsed { program_text, .. }) => Some(text_of(program_text.text@, span)),
        _ => None,
    }
}

/// The type of a variable, as the signature of its module writes it.
pub open spec fn declared_type(docs: Seq<Document>, symbol: ComponentView) -> Option<Seq<char>> {
    match symbol.body {
        BodyView::Variable { type_declaration: Some(span) } => text_in(docs, symbol.url, span),
        _ => None,
    }
}

/// The completion item of a command: where the signature of its module gives its type,
/// the item shows the type, and for an inline or a block command it inserts a snippet
/// with a place for each argument. Where the command has been begun at the cursor, what
/// has been written of it is replaced.
pub open spec fn command_item(
    docs: Seq<Document>,
    symbol: ComponentView,
    description: Seq<char>,
    cmd_range: Option<Range>,
) -> CompletionItemView {
    let detail = match symbol.body {
        BodyView::InlineCmd { type_declaration: Some(span), .. } => text_in(docs, symbol.url, span),
        BodyView::BlockCmd { type_declaration: Some(span), .. } => text_in(docs, symbol.url, span),
        BodyView::MathCmd { type_declaration: Some(span), .. } => text_in(docs, symbol.url, span),
        _ => None,
    };
    let insert_text = match symbol.body {
        BodyView::InlineCmd { type_declaration: Some(_), type_args } => Some(
            command_snippet(symbol.name, type_args),
        ),
        BodyView::BlockCmd { type_declaration: Some(_), type_args } => Some(
            command_snippet(symbol.name, type_args),
        ),
        _ => None,
    };
    CompletionItemView {
        label: symbol.name,
        kind: Some(CompletionItemKind::Variable),
        detail,
        documentation: Some(description),
        insert_text,
        insert_text_format: if insert_text is Some {
            Some(InsertTextFormat::Snippet)
        } else {
            None
        },
        text_edit: match cmd_range {
            Some(range) => Some(
                TextEditView {
                    range,
                    new_text: match insert_text {
                        Some(text) => text,
                        None => symbol.name,
                    },
                },
            ),
            None => None,
        },
    }
}

/// The completion item of a symbol of kind `kind`.
pub open spec fn item_of(
    docs: Seq<Document>,
    kind: SymbolKind,
    symbol: ComponentView,
    description: Seq<char>,
    cmd_range: Option<Range>,
) -> CompletionItemView {
    match kind {
        SymbolKind::Module => module_item(symbol.name, description),
        SymbolKind::Type => type_item(symbol.name, description),
        SymbolKind::InlineCommand | SymbolKind::BlockCommand | SymbolKind::MathCommand => command_item(
            docs,
            symbol,
            description,
            cmd_range,
        ),
        _ => variable_item(symbol.name, description, declared_type(docs, symbol)),
    }
}

/// What a kind of symbol is called in a description.
pub open spec fn kind_word(kind: SymbolKind) -> Seq<char> {
    match kind {
        SymbolKind::Variable => "variable"@,
        SymbolKind::InlineCommand => "inline-cmd"@,
        SymbolKind::BlockCommand => "block-cmd"@,
        SymbolKind::MathCommand => "math-cmd"@,
        SymbolKind::Type => "type"@,
        SymbolKind::Variant => "variant"@,
        SymbolKind::Module => "module"@,
    }
}

/// The description of a symbol of the document itself.
pub open spec fn local_description(kind: SymbolKind) -> Seq<char> {
    kind_word(kind) + " defined in this file"@
}

/// The description of a symbol of the package `package`.
pub open spec fn package_description(kind: SymbolKind, package: Seq<char>) -> Seq<char> {
    if kind == SymbolKind::Module {
        "module defined in package "@ + package
    } else {
        kind_word(kind) + " defined in package `"@ + package + "`"@
    }
}

/// Whether a symbol is of kind `kind` and in scope at `pos`.
pub open spec fn in_scope(kind: SymbolKind, pos: int) -> spec_fn(ComponentView) -> bool {
    |c: ComponentView| kind_of(c.body) == kind && c.scope.holds(pos)
}

/// Whether a symbol can be seen from outside its package.
pub open spec fn is_exported() -> spec_fn(ComponentView) -> bool {
    |c: ComponentView| c.visibility == Visibility::Public || c.visibility == Visibility::Direct
}

/// The symbols of kind `kind` of the document that are in scope at `pos`.
pub open spec fn local_symbols(environment: EnvironmentView, kind: SymbolKind, pos: int) -> Seq<
    ComponentView,
> {
    keep_all(environment.components, in_scope(kind, pos))
}

/// The completion items of `symbols`, each with the description `description`.
pub open spec fn items_of(
    docs: Seq<Document>,
    kind: SymbolKind,
    symbols: Seq<ComponentView>,
    description: Seq<char>,
    cmd_range: Option<Range>,
) -> Seq<CompletionItemView> {
    Seq::new(symbols.len(), |i: int| item_of(docs, kind, symbols[i], description, cmd_range))
}

/// The environment of the document that a dependency names, where the cache holds the
/// document and the grammar accepted it.
pub open spec fn package_environment(docs: Seq<Document>, dep: DependencyView) -> Option<
    EnvironmentView,
> {
    match dep.url {
        Some(url) => match data_at(docs, url) {
            Some(DocumentData::Parsed { environment, .. }) => Some(environment@),
            _ => None,
        },
        None => None,
    }
}

/// The symbols of kind `kind` that the package of a dependency offers where the modules
/// `open` are open. A private symbol is never among them.
pub open spec fn package_symbols(
    docs: Seq<Document>,
    dep: DependencyView,
    kind: SymbolKind,
    open: Seq<Seq<char>>,
) -> Seq<ComponentView> {
    match package_environment(docs, dep) {
        Some(environment) => keep_all(offered(environment.components, open, kind), is_exported()),
        None => Seq::empty(),
    }
}

/// The completion items of the symbols that the first `n` of `deps` offer.
pub open spec fn dependency_items(
    docs: Seq<Document>,
    deps: Seq<DependencyView>,
    kind: SymbolKind,
    open: Seq<Seq<char>>,
    cmd_range: Option<Range>,
    n: nat,
) -> Seq<CompletionItemView>
    decreases n,
{
    if n == 0 || n > deps.len() {
        Seq::empty()
    } else {
        dependency_items(docs, deps, kind, open, cmd_range, (n - 1) as nat) + items_of(
            docs,
            kind,
            package_symbols(docs, deps[n - 1], kind, open),
            package_description(kind, deps[n - 1].name),
            cmd_range,
        )
    }
}

/// What a kind of symbol is called in a description.
pub fn word_of(kind: SymbolKind) -> (word: &'static str)
    ensures
        word@ == kind_word(kind),
{
    match kind {
        SymbolKind::Variable => "variable",
        SymbolKind::InlineCommand => "inline-cmd",
        SymbolKind::BlockCommand => "block-cmd",
        SymbolKind::MathCommand => "math-cmd",
        SymbolKind::Type => "type",
        SymbolKind::Variant => "variant",
        SymbolKind::Module => "module",
    }
}

impl DocumentCache {
    /// The completion item of a command.
    pub fn command_completion_item(
        &self,
        symbol: &Component,
        desc: String,
        cmd_range: Option<Range>,
    ) -> (item: CompletionItem)
        ensures
            item@ == command_item(self.docs@, symbol@, desc@, cmd_range),
    {
        let url = symbol.url.as_str();
        let name = symbol.name.as_str();
        let (detail, insert_text) = match &symbol.body {
            ComponentBody::InlineCmd { type_declaration: Some(dec), type_args } => (
                self.text_at(url, *dec),
                Some(form_command_text_snippet(name, type_args)),
            ),
            ComponentBody::BlockCmd { type_declaration: Some(dec), type_args } => (
                self.text_at(url, *dec),
                Some(form_command_text_snippet(name, type_args)),
            ),
            ComponentBody::MathCmd { type_declaration: Some(dec), .. } => (
                self.text_at(url, *dec),
                None,
            ),
            _ => (None, None),
        };
        let insert_text_format = if insert_text.is_some() {
            Some(InsertTextFormat::Snippet)
        } else {
            None
        };
        let text_edit = match cmd_range {
            Some(range) => Some(
                TextEdit {
                    range,
                    new_text: match &insert_text {
                        Some(text) => text.clone(),
                        None => symbol.name.clone(),
                    },
                },
            ),
            None => None,
        };
        CompletionItem {
            label: symbol.name.clone(),
            kind: Some(CompletionItemKind::Variable),
            detail,
            documentation: Some(desc),
            insert_text,
            insert_text_format,
            text_edit,
        }
    }

    /// The text that `span` cuts out of the document `url`, as a string of its own.
    pub fn text_at(&self, url: &str, span: Span) -> (text: Option<String>)
        ensures
            optional_text(text) == text_in(self.docs@, url@, span),
    {
        match self.get_text_from_span(url, span) {
            Some(part) => Some(part.to_owned()),
            None => None,
        }
    }

    /// The completion item of a symbol of kind `kind`.
    pub fn completion_item(
        &self,
        kind: SymbolKind,
        symbol: &Component,
        desc: String,
        cmd_range: Option<Range>,
    ) -> (item: CompletionItem)
        ensures
            item@ == item_of(self.docs@, kind, symbol@, desc@, cmd_range),
    {
        match kind {
            SymbolKind::Module => module_completion_item(symbol.name.clone(), desc),
            SymbolKind::Type => type_completion_item(symbol.name.clone(), desc),
            SymbolKind::InlineCommand | SymbolKind::BlockCommand | SymbolKind::MathCommand => self.command_completion_item(
                symbol,
                desc,
                cmd_range,
            ),
            _ => {
                let declared = match &symbol.body {
                    ComponentBody::Variable { type_declaration: Some(span) } => self.text_at(
                        symbol.url.as_str(),
                        *span,
                    ),
                    _ => None,
                };
                variable_completion_item(symbol.name.clone(), desc, declared)
            },
        }
    }

    /// Adds the completion items of `symbols` to `items`.
    pub fn add_items(
        &self,
        items: &mut Vec<CompletionItem>,
        kind: SymbolKind,
        symbols: &Vec<&Component>,
        desc: &str,
        cmd_range: Option<Range>,
    )
        ensures
            item_models(final(items)@) == item_models(old(items)@) + items_of(
                self.docs@,
                kind,
                pointed(symbols@),
                desc@,
                cmd_range,
            ),
    {
        let ghost start = item_models(items@);
        let ghost all = items_of(self.docs@, kind, pointed(symbols@), desc@, cmd_range);
        let mut k: usize = 0;
        while k < symbols.len()
            invariant
                0 <= k <= symbols@.len(),
                all == items_of(self.docs@, kind, pointed(symbols@), desc@, cmd_range),
                item_models(items@) =~= start + all.take(k as int),
            decreases symbols@.len() - k,
        {
            let item = self.completion_item(kind, symbols[k], desc.to_owned(), cmd_range);
            proof {
                assert(pointed(symbols@)[k as int] == symbols@[k as int]@);
                assert(all.take(k + 1) =~= all.take(k as int).push(item@));
                assert(item_models(items@.push(item)) =~= item_models(items@).push(item@));
            }
            items.push(item);
            k = k + 1;
        }
        proof {
            assert(all.take(k as int) =~= all);
        }
    }

    /// The symbols of kind `kind` of a document that are in scope at `pos`.
    pub fn symbols_in_scope<'a>(environment: &'a Environment, kind: SymbolKind, pos: usize) -> (symbols:
        Vec<&'a Component>)
        ensures
            pointed(symbols@) == local_symbols(environment@, kind, pos as int),
    {
        let mut symbols: Vec<&Component> = Vec::new();
        let mut k: usize = 0;
        while k < environment.components.len()
            invariant
                0 <= k <= environment.components@.len(),
                pointed(symbols@) =~= keep(
                    environment@.components,
                    in_scope(kind, pos as int),
                    k as nat,
                ),
            decreases environment.components@.len() - k,
        {
            let symbol = &environment.components[k];
            proof {
                assert(environment@.components[k as int] == symbol@);
            }
            if symbol.kind() == kind && symbol.scope.includes(pos) {
                symbols.push(symbol);
            }
            k = k + 1;
        }
        symbols
    }

    /// The symbols of kind `kind` that the package of a dependency offers where the
    /// modules `open` are open.
    pub fn symbols_of_package<'a>(
        &'a self,
        dep: &Dependency,
        kind: SymbolKind,
        open: &Vec<String>,
    ) -> (symbols: Vec<&'a Component>)
        ensures
            pointed(symbols@) == package_symbols(self.docs@, dep@, kind, strings(open@)),
    {
        let mut symbols: Vec<&Component> = Vec::new();
        let environment = match &dep.url {
            Some(url) => match self.get_doc_info(url.as_str()) {
                Some((_, environment)) => environment,
                None => {
                    proof {
                        assert(pointed(symbols@) =~= Seq::<ComponentView>::empty());
                    }
                    return symbols;
                },
            },
            None => {
                proof {
                    assert(pointed(symbols@) =~= Seq::<ComponentView>::empty());
                }
                return symbols;
            },
        };
        let offered = environment.external(kind, open);
        let mut k: usize = 0;
        while k < offered.len()
            invariant
                0 <= k <= offered@.len(),
                pointed(symbols@) =~= keep(pointed(offered@), is_exported(), k as nat),
            decreases offered@.len() - k,
        {
            let symbol = offered[k];
            proof {
                assert(pointed(offered@)[k as int] == symbol@);
            }
            if symbol.visibility == Visibility::Public || symbol.visibility == Visibility::Direct {
                symbols.push(symbol);
            }
            k = k + 1;
        }
        symbols
    }

    /// Adds to `items` the completion items of the symbols of kind `kind` that `deps`
    /// offer.
    pub fn add_dependency_items(
        &self,
        items: &mut Vec<CompletionItem>,
        deps: &Vec<&Dependency>,
        kind: SymbolKind,
        open: &Vec<String>,
        cmd_range: Option<Range>,
    )
        ensures
            item_models(final(items)@) == item_models(old(items)@) + dependency_items(
                self.docs@,
                pointed_dependencies(deps@),
                kind,
                strings(open@),
                cmd_range,
                deps@.len(),
            ),
    {
        let ghost start = item_models(items@);
        let ghost all = pointed_dependencies(deps@);
        let mut k: usize = 0;
        proof {
            assert(item_models(items@) =~= start + Seq::<CompletionItemView>::empty());
        }
        while k < deps.len()
            invariant
                0 <= k <= deps@.len(),
                all == pointed_dependencies(deps@),
                item_models(items@) == start + dependency_items(
                    self.docs@,
                    all,
                    kind,
                    strings(open@),
                    cmd_range,
                    k as nat,
                ),
            decreases deps@.len() - k,
        {
            let dep = deps[k];
            proof {
                assert(all[k as int] == dep@);
            }
            let symbols = self.symbols_of_package(dep, kind, open);
            let desc = match kind {
                SymbolKind::Module => join2("module defined in package ", dep.name.as_str()),
                _ => {
                    let mut desc = join2(word_of(kind), " defined in package `");
                    desc.append(dep.name.as_str());
                    desc.append("`");
                    desc
                },
            };
            let ghost before = item_models(items@);
            self.add_items(items, kind, &symbols, desc.as_str(), cmd_range);
            proof {
                let more = items_of(
                    self.docs@,
                    kind,
                    package_symbols(self.docs@, dep@, kind, strings(open@)),
                    package_description(kind, dep@.name),
                    cmd_range,
                );
                let so_far = dependency_items(
                    self.docs@,
                    all,
                    kind,
                    strings(open@),
                    cmd_range,
                    k as nat,
                );
                assert((start + so_far) + more =~= start + (so_far + more));
            }
            k = k + 1;
        }
    }
}

} // verus!
