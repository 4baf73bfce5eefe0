//! What a document depends on, defines and opens.

use crate::documents::{
    Component, ComponentView, Dependency, DependencyView, ModuleInfo, Packages, SourceFile,
    SymbolKind, block_end, concat_options, contains_name, dependency_models, find_child,
    first_child, header_models, is_kind, lemma_concat_from, lemma_concat_missing,
    lemma_concat_step, lemma_first_child_stays, lemma_scope_follows_definition, models, offered, offered_anywhere, shared_upto,
    opened_members, pointed, scope_end, stmt_items, stmts_models, string_view, strings, text_view,
    well_spanned,
};
use crate::parser::{Cst, Span, get_text, text_of};
use crate::search::{keep, keep_all};
use satysfi_parser::Rule;
use vstd::prelude::*;
use vstd::string::*;

verus! {

/// A module that a document opens at its top, and where it is open.
#[derive(Debug)]
pub struct OpenModule {
    pub name: String,
    pub scope: Span,
    pub url: String,
}

/// What an opened module holds, with its texts as sequences of characters.
pub ghost struct OpenModuleView {
    pub name: Seq<char>,
    pub scope: Span,
    pub url: Seq<char>,
}

impl View for OpenModule {
    type V = OpenModuleView;

    open spec fn view(&self) -> OpenModuleView {
        OpenModuleView { name: self.name@, scope: self.scope, url: self.url@ }
    }
}

/// The views of a list of opened modules.
pub open spec fn open_models(list: Seq<OpenModule>) -> Seq<OpenModuleView> {
    list.map_values(|m: OpenModule| m@)
}

/// What one statement adds to the opened modules: an `open` statement opens the module
/// that it names, from behind the name to the end of the block around it.
pub open spec fn open_item(
    stmt: Cst,
    info: Option<&ModuleInfo>,
    text: Seq<char>,
    url: Seq<char>,
    program_end: usize,
) -> Option<Seq<OpenModuleView>> {
    if stmt.rule == Rule::open_stmt {
        if stmt.inner@.len() >= 1 {
            Some(
                seq![
                    OpenModuleView {
                        name: text_of(text, stmt.inner@[0].span),
                        scope: Span {
                            start: stmt.inner@[0].span.end,
                            end: block_end(info, program_end),
                        },
                        url,
                    },
                ],
            )
        } else {
            None
        }
    } else {
        Some(Seq::empty())
    }
}

/// What each statement at the top of a package adds to the opened modules.
pub open spec fn open_items(preamble: Cst, text: Seq<char>, url: Seq<char>, program_end: usize) -> Seq<
    Option<Seq<OpenModuleView>>,
> {
    Seq::new(
        preamble.inner@.len(),
        |j: int| open_item(preamble.inner@[j], None, text, url, program_end),
    )
}

impl OpenModule {
    /// The module that a statement opens, if it opens one; `Err` where an `open`
    /// statement does not name a module.
    pub fn from_stmt(
        stmt: &Cst,
        module_info: Option<&ModuleInfo>,
        text: &str,
        url: &str,
        program_end: usize,
    ) -> (opened: Result<Option<OpenModule>, ()>)
        ensures
            match open_item(*stmt, module_info, text@, url@, program_end) {
                Some(expected) => opened matches Ok(o) && expected == match o {
                    Some(m) => seq![m@],
                    None => Seq::empty(),
                },
                None => opened is Err,
            },
    {
        if stmt.rule == Rule::open_stmt {
            if stmt.inner.len() < 1 {
                return Err(());
            }
            let name = get_text(text, stmt.inner[0].span).to_owned();
            let scope = Span {
                start: stmt.inner[0].span.end,
                end: scope_end(module_info, program_end),
            };
            Ok(Some(OpenModule { name, scope, url: url.to_owned() }))
        } else {
            Ok(None)
        }
    }

    /// The modules that the statements at the top of a package open.
    pub fn from_preamble(preamble: &Cst, text: &str, url: &str, program_end: usize) -> (list:
        Option<Vec<OpenModule>>)
        ensures
            match concat_options(open_items(*preamble, text@, url@, program_end)) {
                Some(expected) => list matches Some(l) && open_models(l@) == expected,
                None => list is None,
            },
    {
        let ghost items = open_items(*preamble, text@, url@, program_end);
        let mut list: Vec<OpenModule> = Vec::new();
        let mut k: usize = 0;
        while k < preamble.inner.len()
            invariant
                0 <= k <= preamble.inner@.len(),
                items == open_items(*preamble, text@, url@, program_end),
                concat_options(items.take(k as int)) == Some(open_models(list@)),
            decreases preamble.inner@.len() - k,
        {
            proof {
                lemma_concat_step(items, k as int);
                assert(open_models(list@) + Seq::<OpenModuleView>::empty() =~= open_models(list@));
            }
            match OpenModule::from_stmt(&preamble.inner[k], None, text, url, program_end) {
                Ok(Some(opened)) => {
                    proof {
                        assert(open_models(list@.push(opened)) =~= open_models(list@) + seq![
                            opened@,
                        ]);
                    }
                    list.push(opened);
                },
                Ok(None) => {},
                Err(_) => {
                    proof {
                        lemma_concat_missing(items, k + 1);
                    }
                    return None;
                },
            }
            k = k + 1;
        }
        proof {
            assert(items.take(k as int) =~= items);
        }
        Some(list)
    }
}

/// The text of a document with its syntax tree.
#[derive(Debug)]
pub struct ProgramText {
    pub text: String,
    pub cst: Cst,
}

/// What a document depends on, defines and opens.
#[derive(Debug)]
pub struct Environment {
    pub dependencies: Vec<Dependency>,
    pub components: Vec<Component>,
    pub open_modules: Vec<OpenModule>,
}

/// What an environment holds, as sequences of views.
pub ghost struct EnvironmentView {
    pub dependencies: Seq<DependencyView>,
    pub components: Seq<ComponentView>,
    pub open_modules: Seq<OpenModuleView>,
}

impl View for Environment {
    type V = EnvironmentView;

    open spec fn view(&self) -> EnvironmentView {
        EnvironmentView {
            dependencies: dependency_models(self.dependencies@),
            components: models(self.components@),
            open_modules: open_models(self.open_modules@),
        }
    }
}

/// The environment of a document with the tree `root`: the dependencies of its header,
/// and the symbols and the opened modules of the statements at its top. `None` where a
/// node lacks a part that its rule promises, or the tree is not laid out as the text is.
pub open spec fn environment_model(
    root: Cst,
    text: Seq<char>,
    url: Seq<char>,
    dir: Option<Seq<char>>,
    home: Option<Seq<char>>,
    files: Seq<SourceFile>,
) -> Option<EnvironmentView> {
    let dependencies = match first_child(root, Rule::headers) {
        Some(i) => header_models(root.inner@[i], text, dir, home, files),
        None => Some(Seq::empty()),
    };
    let components = match first_child(root, Rule::preamble) {
        Some(i) => stmts_models(root.inner@[i], None, text, url, root.span.end),
        None => Some(Seq::empty()),
    };
    let open_modules = match first_child(root, Rule::preamble) {
        Some(i) => concat_options(open_items(root.inner@[i], text, url, root.span.end)),
        None => Some(Seq::empty()),
    };
    match (dependencies, components, open_modules) {
        (Some(dependencies), Some(components), Some(open_modules)) => if root.nested() {
            Some(EnvironmentView { dependencies, components, open_modules })
        } else {
            None
        },
        _ => None,
    }
}

impl Default for Environment {
    fn default() -> (environment: Self)
        ensures
            environment@ == (EnvironmentView {
                dependencies: Seq::empty(),
                components: Seq::empty(),
                open_modules: Seq::empty(),
            }),
    {
        let environment = Environment {
            dependencies: Vec::new(),
            components: Vec::new(),
            open_modules: Vec::new(),
        };
        proof {
            assert(environment@.dependencies =~= Seq::empty());
            assert(environment@.components =~= Seq::empty());
            assert(environment@.open_modules =~= Seq::empty());
        }
        environment
    }
}

impl Environment {
    /// The environment of a document.
    pub fn from_program(
        program_text: &ProgramText,
        url: &str,
        dir: Option<&str>,
        packages: &Packages,
    ) -> (environment: Option<Environment>)
        ensures
            match environment_model(
                program_text.cst,
                program_text.text@,
                url@,
                text_view(dir),
                string_view(packages.home),
                packages.files@,
            ) {
                Some(expected) => environment matches Some(e) && e@ == expected,
                None => environment is None,
            },
    {
        let root = &program_text.cst;
        let text = program_text.text.as_str();
        let program_end = root.span.end;
        if !root.is_nested() {
            return None;
        }
        let dependencies = match find_child(root, Rule::headers) {
            Some(headers) => match Dependency::from_header(headers, text, dir, packages) {
                Some(list) => list,
                None => {
                    return None;
                },
            },
            None => {
                let none: Vec<Dependency> = Vec::new();
                proof {
                    assert(dependency_models(none@) =~= Seq::<DependencyView>::empty());
                }
                none
            },
        };
        let preamble = find_child(root, Rule::preamble);
        let components = match preamble {
            Some(preamble) => match Component::from_preamble(preamble, text, url, program_end) {
                Some(list) => list,
                None => {
                    return None;
                },
            },
            None => {
                let none: Vec<Component> = Vec::new();
                proof {
                    assert(models(none@) =~= Seq::<ComponentView>::empty());
                }
                none
            },
        };
        let open_modules = match preamble {
            Some(preamble) => match OpenModule::from_preamble(preamble, text, url, program_end) {
                Some(list) => list,
                None => {
                    return None;
                },
            },
            None => {
                let none: Vec<OpenModule> = Vec::new();
                proof {
                    assert(open_models(none@) =~= Seq::<OpenModuleView>::empty());
                }
                none
            },
        };
        Some(Environment { dependencies, components, open_modules })
    }

    /// The dependencies of the document.
    pub fn dependencies(&self) -> (list: &Vec<Dependency>)
        ensures
            list == &self.dependencies,
    {
        &self.dependencies
    }
}

impl Environment {
    /// The symbols of kind `kind` at the top of the package.
    pub fn of_kind(&self, kind: SymbolKind) -> (list: Vec<&Component>)
        ensures
            pointed(list@) == keep_all(self@.components, is_kind(kind)),
    {
        let mut list: Vec<&Component> = Vec::new();
        let mut k: usize = 0;
        while k < self.components.len()
            invariant
                0 <= k <= self.components@.len(),
                pointed(list@) =~= keep(self@.components, is_kind(kind), k as nat),
            decreases self.components@.len() - k,
        {
            let component = &self.components[k];
            proof {
                assert(self@.components[k as int] == component@);
            }
            if component.kind() == kind {
                list.push(component);
            }
            k = k + 1;
        }
        list
    }

    /// The symbols of kind `kind` that the package offers to a document in which the
    /// modules `open_modules` are open.
    pub fn external(&self, kind: SymbolKind, open_modules: &Vec<String>) -> (list: Vec<&Component>)
        ensures
            pointed(list@) == offered(self@.components, strings(open_modules@), kind),
    {
        let mut list = self.of_kind(kind);
        let ghost top = pointed(list@);
        let mut k: usize = 0;
        while k < self.components.len()
            invariant
                0 <= k <= self.components@.len(),
                pointed(list@) =~= top + opened_members(
                    self@.components,
                    strings(open_modules@),
                    kind,
                    k as nat,
                ),
            decreases self.components@.len() - k,
        {
            let module = &self.components[k];
            proof {
                assert(self@.components[k as int] == module@);
            }
            if module.kind() == SymbolKind::Module && contains_name(
                open_modules,
                module.name.as_str(),
            ) {
                let mut shared = module.shared_members(kind);
                proof {
                    assert(pointed(list@ + shared@) =~= pointed(list@) + pointed(shared@));
                }
                list.append(&mut shared);
            }
            k = k + 1;
        }
        list
    }

    /// The modules at the top of the package.
    pub fn modules(&self) -> (list: Vec<&Component>)
        ensures
            pointed(list@) == keep_all(self@.components, is_kind(SymbolKind::Module)),
    {
        self.of_kind(SymbolKind::Module)
    }

    /// The variables at the top of the package.
    pub fn variables(&self) -> (list: Vec<&Component>)
        ensures
            pointed(list@) == keep_all(self@.components, is_kind(SymbolKind::Variable)),
    {
        self.of_kind(SymbolKind::Variable)
    }

    /// The types at the top of the package.
    pub fn types(&self) -> (list: Vec<&Component>)
        ensures
            pointed(list@) == keep_all(self@.components, is_kind(SymbolKind::Type)),
    {
        self.of_kind(SymbolKind::Type)
    }

    /// The variants at the top of the package.
    pub fn variants(&self) -> (list: Vec<&Component>)
        ensures
            pointed(list@) == keep_all(self@.components, is_kind(SymbolKind::Variant)),
    {
        self.of_kind(SymbolKind::Variant)
    }

    /// The inline commands at the top of the package.
    pub fn inline_cmds(&self) -> (list: Vec<&Component>)
        ensures
            pointed(list@) == keep_all(self@.components, is_kind(SymbolKind::InlineCommand)),
    {
        self.of_kind(SymbolKind::InlineCommand)
    }

    /// The block commands at the top of the package.
    pub fn block_cmds(&self) -> (list: Vec<&Component>)
        ensures
            pointed(list@) == keep_all(self@.components, is_kind(SymbolKind::BlockCommand)),
    {
        self.of_kind(SymbolKind::BlockCommand)
    }

    /// The math commands at the top of the package.
    pub fn math_cmds(&self) -> (list: Vec<&Component>)
        ensures
            pointed(list@) == keep_all(self@.components, is_kind(SymbolKind::MathCommand)),
    {
        self.of_kind(SymbolKind::MathCommand)
    }

    /// The variables that the package offers where the modules `open_modules` are open.
    pub fn variables_external(&self, open_modules: &Vec<String>) -> (list: Vec<&Component>)
        ensures
            pointed(list@) == offered(
                self@.components,
                strings(open_modules@),
                SymbolKind::Variable,
            ),
    {
        self.external(SymbolKind::Variable, open_modules)
    }

    /// The types that the package offers where the modules `open_modules` are open.
    pub fn types_external(&self, open_modules: &Vec<String>) -> (list: Vec<&Component>)
        ensures
            pointed(list@) == offered(self@.components, strings(open_modules@), SymbolKind::Type),
    {
        self.external(SymbolKind::Type, open_modules)
    }

    /// The variants that the package offers: those at its top and those that its modules
    /// share. A variant is written without the name of its module, so that which modules
    /// are open makes no difference to it.
    pub fn variants_external(&self, open_modules: &Vec<String>) -> (list: Vec<&Component>)
        ensures
            pointed(list@) == offered_anywhere(self@.components, SymbolKind::Variant),
    {
        let mut list = self.of_kind(SymbolKind::Variant);
        let ghost top = pointed(list@);
        let mut k: usize = 0;
        while k < self.components.len()
            invariant
                0 <= k <= self.components@.len(),
                pointed(list@) =~= top + shared_upto(
                    self@.components,
                    SymbolKind::Variant,
                    k as nat,
                ),
            decreases self.components@.len() - k,
        {
            let module = &self.components[k];
            proof {
                assert(self@.components[k as int] == module@);
            }
            if module.kind() == SymbolKind::Module {
                let mut shared = module.shared_members(SymbolKind::Variant);
                proof {
                    assert(pointed(list@ + shared@) =~= pointed(list@) + pointed(shared@));
                }
                list.append(&mut shared);
            }
            k = k + 1;
        }
        list
    }

    /// The inline commands that the package offers where the modules `open_modules` are open.
    pub fn inline_cmds_external(&self, open_modules: &Vec<String>) -> (list: Vec<&Component>)
        ensures
            pointed(list@) == offered(
                self@.components,
                strings(open_modules@),
                SymbolKind::InlineCommand,
            ),
    {
        self.external(SymbolKind::InlineCommand, open_modules)
    }

    /// The block commands that the package offers where the modules `open_modules` are open.
    pub fn block_cmds_external(&self, open_modules: &Vec<String>) -> (list: Vec<&Component>)
        ensures
            pointed(list@) == offered(
                self@.components,
                strings(open_modules@),
                SymbolKind::BlockCommand,
            ),
    {
        self.external(SymbolKind::BlockCommand, open_modules)
    }

    /// The math commands that the package offers where the modules `open_modules` are open.
    pub fn math_cmds_external(&self, open_modules: &Vec<String>) -> (list: Vec<&Component>)
        ensures
            pointed(list@) == offered(
                self@.components,
                strings(open_modules@),
                SymbolKind::MathCommand,
            ),
    {
        self.external(SymbolKind::MathCommand, open_modules)
    }
}

/// The symbols at the top of a package whose tree is laid out as the text is have their
/// spans in order.
pub proof fn lemma_environment_spans(
    root: Cst,
    text: Seq<char>,
    url: Seq<char>,
    dir: Option<Seq<char>>,
    home: Option<Seq<char>>,
    files: Seq<SourceFile>,
)
    requires
        environment_model(root, text, url, dir, home, files) is Some,
    ensures
        forall|i: int|
            0 <= i < environment_model(root, text, url, dir, home, files)->0.components.len()
                ==> well_spanned(
                #[trigger] environment_model(root, text, url, dir, home, files)->0.components[i],
            ),
{
    let symbols = environment_model(root, text, url, dir, home, files)->0.components;
    assert forall|i: int| 0 <= i < symbols.len() implies well_spanned(#[trigger] symbols[i]) by {
        lemma_first_where_children(root, Rule::preamble);
        let at = first_child(root, Rule::preamble)->0;
        let preamble = root.inner@[at];
        root.lemma_nested_child(at, root.inner@.len());
        let items = stmt_items(preamble, None, text, url, root.span.end);
        lemma_concat_from(items, i);
        let (j, k) = choose|j: int, k: int|
            0 <= j < items.len() && items[j] is Some && 0 <= k < items[j]->0.len()
                && #[trigger] items[j]->0[k] == symbols[i];
        preamble.lemma_nested_child(j, preamble.inner@.len());
        lemma_scope_follows_definition(preamble.inner@[j], None, text, url, root.span.end);
    }
}

/// The first child of a kind, where there is one, is a child.
proof fn lemma_first_where_children(node: Cst, rule: Rule)
    ensures
        first_child(node, rule) matches Some(i) ==> 0 <= i < node.inner@.len(),
{
    if first_child(node, rule) is Some {
        lemma_first_child_stays(node, rule, node.inner@.len(), node.inner@.len());
    }
}

} // verus!
