//! The symbols that a document defines.

use crate::documents::{names, type_declaration};
use crate::parser::Span;
use crate::search::{keep, keep_all};
use crate::text::same_text;
use vstd::prelude::*;
use vstd::string::*;

verus! {

/// Who can see a symbol from outside the place that defines it.
#[derive(Debug, Clone, Copy, PartialEq, Eq, Structural)]
pub enum Visibility {
    /// Defined at the top of a package, or named by `val` in the signature of its module.
    Public,
    /// Defined in a module and not named in its signature.
    Private,
    /// Named by `direct` in the signature of its module.
    Direct,
    /// Bound inside an expression: in scope in that expression only, and never seen from
    /// outside. The statements at the top of a package and of a module bind no such
    /// symbol.
    Bound,
}

impl Default for Visibility {
    fn default() -> (visibility: Self)
        ensures
            visibility == Visibility::Public,
    {
        Visibility::Public
    }
}

/// The three kinds of command.
#[derive(Debug, Clone, Copy, PartialEq, Eq, Structural)]
pub enum CommandKind {
    Inline,
    Block,
    Math,
}

/// A symbol that a document defines.
#[derive(Debug)]
pub struct Component {
    /// The name, as it stands in the text.
    pub name: String,
    /// What the symbol is.
    pub body: ComponentBody,
    /// Where in its document the symbol can be used.
    pub scope: Span,
    /// Where the name stands in the definition.
    pub pos_definition: Span,
    /// Who can see the symbol from outside.
    pub visibility: Visibility,
    /// Where the signature of the module declares the symbol, if it does.
    pub pos_declaration: Option<Span>,
    /// The document that defines the symbol.
    pub url: String,
}

/// What a symbol is, with what is known of it beyond its name.
#[derive(Debug)]
pub enum ComponentBody {
    Module {
        /// The symbols that the module defines.
        components: Vec<Component>,
    },
    Variable {
        /// Where the signature writes the type of the variable.
        type_declaration: Option<Span>,
    },
    Type,
    Variant {
        /// The type that the variant belongs to.
        of_type: String,
    },
    InlineCmd {
        /// Where the signature writes the type of the command.
        type_declaration: Option<Span>,
        /// The types of the arguments, as the signature writes them.
        type_args: Vec<String>,
    },
    BlockCmd { type_declaration: Option<Span>, type_args: Vec<String> },
    MathCmd { type_declaration: Option<Span>, type_args: Vec<String> },
}

/// What a component holds, with its texts as sequences of characters.
pub ghost struct ComponentView {
    pub name: Seq<char>,
    pub body: BodyView,
    pub scope: Span,
    pub pos_definition: Span,
    pub visibility: Visibility,
    pub pos_declaration: Option<Span>,
    pub url: Seq<char>,
}

/// What the body of a component holds, with its texts as sequences of characters.
pub ghost enum BodyView {
    Module { components: Seq<ComponentView> },
    Variable { type_declaration: Option<Span> },
    Type,
    Variant { of_type: Seq<char> },
    InlineCmd { type_declaration: Option<Span>, type_args: Seq<Seq<char>> },
    BlockCmd { type_declaration: Option<Span>, type_args: Seq<Seq<char>> },
    MathCmd { type_declaration: Option<Span>, type_args: Seq<Seq<char>> },
}

/// The texts of a list of strings.
pub open spec fn strings(list: Seq<String>) -> Seq<Seq<char>> {
    list.map_values(|s: String| s@)
}

impl Component {
    /// What the component holds, with its texts as sequences of characters.
    pub open spec fn model(&self) -> ComponentView
        decreases self,
    {
        ComponentView {
            name: self.name@,
            body: match self.body {
                ComponentBody::Module { components } => BodyView::Module {
                    components: Seq::new(
                        components@.len(),
                        |i: int|
                            if 0 <= i < components@.len() {
                                components@[i].model()
                            } else {
                                arbitrary()
                            },
                    ),
                },
                ComponentBody::Variable { type_declaration } => BodyView::Variable {
                    type_declaration,
                },
                ComponentBody::Type => BodyView::Type,
                ComponentBody::Variant { of_type } => BodyView::Variant { of_type: of_type@ },
                ComponentBody::InlineCmd { type_declaration, type_args } => BodyView::InlineCmd {
                    type_declaration,
                    type_args: strings(type_args@),
                },
                ComponentBody::BlockCmd { type_declaration, type_args } => BodyView::BlockCmd {
                    type_declaration,
                    type_args: strings(type_args@),
                },
                ComponentBody::MathCmd { type_declaration, type_args } => BodyView::MathCmd {
                    type_declaration,
                    type_args: strings(type_args@),
                },
            },
            scope: self.scope,
            pos_definition: self.pos_definition,
            visibility: self.visibility,
            pos_declaration: self.pos_declaration,
            url: self.url@,
        }
    }
}

impl View for Component {
    type V = ComponentView;

    open spec fn view(&self) -> ComponentView {
        self.model()
    }
}

/// The views of a list of components.
pub open spec fn models(list: Seq<Component>) -> Seq<ComponentView> {
    list.map_values(|c: Component| c@)
}

/// The kinds of symbol.
#[derive(Debug, Clone, Copy, PartialEq, Eq, Structural)]
pub enum SymbolKind {
    Variable,
    InlineCommand,
    BlockCommand,
    MathCommand,
    Type,
    Variant,
    Module,
}

/// The kind of a symbol with the body `body`.
pub open spec fn kind_of(body: BodyView) -> SymbolKind {
    match body {
        BodyView::Module { .. } => SymbolKind::Module,
        BodyView::Variable { .. } => SymbolKind::Variable,
        BodyView::Type => SymbolKind::Type,
        BodyView::Variant { .. } => SymbolKind::Variant,
        BodyView::InlineCmd { .. } => SymbolKind::InlineCommand,
        BodyView::BlockCmd { .. } => SymbolKind::BlockCommand,
        BodyView::MathCmd { .. } => SymbolKind::MathCommand,
    }
}

/// Whether a symbol is of kind `kind`.
pub open spec fn is_kind(kind: SymbolKind) -> spec_fn(ComponentView) -> bool {
    |c: ComponentView| kind_of(c.body) == kind
}

/// Whether a member of a module is of kind `kind` and can be seen from outside the
/// module: a private member cannot.
pub open spec fn is_shared(kind: SymbolKind) -> spec_fn(ComponentView) -> bool {
    |c: ComponentView|
        kind_of(c.body) == kind && (c.visibility == Visibility::Public || c.visibility
            == Visibility::Direct)
}

/// The symbols that a module defines; none for a symbol that is no module.
pub open spec fn members_of(module: ComponentView) -> Seq<ComponentView> {
    match module.body {
        BodyView::Module { components } => components,
        _ => Seq::empty(),
    }
}

/// The members of kind `kind` that the opened modules among the first `n` symbols share.
pub open spec fn opened_members(
    list: Seq<ComponentView>,
    open: Seq<Seq<char>>,
    kind: SymbolKind,
    n: nat,
) -> Seq<ComponentView>
    decreases n,
{
    if n == 0 || n > list.len() {
        Seq::empty()
    } else {
        let module = list[n - 1];
        opened_members(list, open, kind, (n - 1) as nat) + if kind_of(module.body)
            == SymbolKind::Module && open.contains(module.name) {
            keep_all(members_of(module), is_shared(kind))
        } else {
            Seq::empty()
        }
    }
}

/// The members of kind `kind` that the modules among the first `n` symbols share, opened
/// or not.
pub open spec fn shared_upto(list: Seq<ComponentView>, kind: SymbolKind, n: nat) -> Seq<
    ComponentView,
>
    decreases n,
{
    if n == 0 || n > list.len() {
        Seq::empty()
    } else {
        let module = list[n - 1];
        shared_upto(list, kind, (n - 1) as nat) + if kind_of(module.body) == SymbolKind::Module {
            keep_all(members_of(module), is_shared(kind))
        } else {
            Seq::empty()
        }
    }
}

/// The symbols of kind `kind` that a package offers wherever it is used: those at its
/// top, and the members that its modules share.
pub open spec fn offered_anywhere(list: Seq<ComponentView>, kind: SymbolKind) -> Seq<
    ComponentView,
> {
    keep_all(list, is_kind(kind)) + shared_upto(list, kind, list.len())
}

/// The symbols of kind `kind` that a package offers to a document in which the modules
/// `open` are open: those at its top, and the members that its opened modules share.
pub open spec fn offered(list: Seq<ComponentView>, open: Seq<Seq<char>>, kind: SymbolKind) -> Seq<
    ComponentView,
> {
    keep_all(list, is_kind(kind)) + opened_members(list, open, kind, list.len())
}

/// The views of the components that a list of references points to.
pub open spec fn pointed(list: Seq<&Component>) -> Seq<ComponentView> {
    list.map_values(|c: &Component| c@)
}

/// Whether `name` is one of `names`.
pub fn contains_name(names: &Vec<String>, name: &str) -> (found: bool)
    ensures
        found == strings(names@).contains(name@),
{
    let mut k: usize = 0;
    while k < names.len()
        invariant
            0 <= k <= names@.len(),
            forall|j: int| 0 <= j < k ==> strings(names@)[j] != name@,
        decreases names@.len() - k,
    {
        if same_text(names[k].as_str(), name) {
            proof {
                assert(strings(names@)[k as int] == name@);
            }
            return true;
        }
        k = k + 1;
    }
    false
}

impl Component {
    /// The kind of the symbol.
    pub fn kind(&self) -> (kind: SymbolKind)
        ensures
            kind == kind_of(self@.body),
    {
        match &self.body {
            ComponentBody::Module { .. } => SymbolKind::Module,
            ComponentBody::Variable { .. } => SymbolKind::Variable,
            ComponentBody::Type => SymbolKind::Type,
            ComponentBody::Variant { .. } => SymbolKind::Variant,
            ComponentBody::InlineCmd { .. } => SymbolKind::InlineCommand,
            ComponentBody::BlockCmd { .. } => SymbolKind::BlockCommand,
            ComponentBody::MathCmd { .. } => SymbolKind::MathCommand,
        }
    }

    /// The members of a module; none for a symbol that is no module.
    pub fn members(&self) -> (members: &[Component])
        ensures
            models(members@) == members_of(self@),
    {
        match &self.body {
            ComponentBody::Module { components } => {
                proof {
                    assert(models(components@) =~= members_of(self@));
                }
                components.as_slice()
            },
            _ => {
                let none: &[Component] = &[];
                proof {
                    assert(models(none@) =~= members_of(self@));
                }
                none
            },
        }
    }

    /// The members of kind `kind` that a module shares.
    pub fn shared_members(&self, kind: SymbolKind) -> (list: Vec<&Component>)
        ensures
            pointed(list@) == keep_all(members_of(self@), is_shared(kind)),
    {
        let members = self.members();
        let mut list: Vec<&Component> = Vec::new();
        let mut k: usize = 0;
        while k < members.len()
            invariant
                0 <= k <= members@.len(),
                models(members@) == members_of(self@),
                pointed(list@) =~= keep(members_of(self@), is_shared(kind), k as nat),
            decreases members@.len() - k,
        {
            let member = &members[k];
            proof {
                assert(models(members@)[k as int] == member@);
            }
            if member.kind() == kind && (member.visibility == Visibility::Public
                || member.visibility == Visibility::Direct) {
                list.push(member);
            }
            k = k + 1;
        }
        list
    }
}

} // verus!
