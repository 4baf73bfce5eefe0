//! What the completion lists hold, and what they never hold.

use crate::completion::{
    in_scope, is_exported, local_symbols, member_item, member_items, package_environment,
    package_symbols,
};
use crate::documents::{
    ComponentView, DependencyView, Document, EnvironmentView, SymbolKind, Visibility, is_kind,
    is_shared, kind_of, members_of, offered,
};
use crate::search::{keep_all, lemma_keep_has, lemma_keep_meets};
use crate::text::contains;
use vstd::prelude::*;
use vstd::string::*;

verus! {

/// A symbol of a document is among those that its completion lists are made of at every
/// offset from the start of its scope to just before the end, and at no offset before
/// the start.
pub proof fn lemma_scope(environment: EnvironmentView, i: int, pos: int)
    requires
        0 <= i < environment.components.len(),
    ensures
        ({
            let symbol = environment.components[i];
            let kind = kind_of(symbol.body);
            &&& symbol.scope.start <= pos < symbol.scope.end ==> local_symbols(
                environment,
                kind,
                pos,
            ).contains(symbol)
            &&& pos < symbol.scope.start ==> !local_symbols(environment, kind, pos).contains(
                symbol,
            )
        }),
{
    let symbol = environment.components[i];
    let kind = kind_of(symbol.body);
    let found = local_symbols(environment, kind, pos);
    if symbol.scope.start <= pos < symbol.scope.end {
        lemma_keep_has(
            environment.components,
            in_scope(kind, pos),
            environment.components.len(),
            i,
        );
    }
    if pos < symbol.scope.start {
        lemma_keep_meets(environment.components, in_scope(kind, pos), environment.components.len());
        if found.contains(symbol) {
            let j = choose|j: int| 0 <= j < found.len() && found[j] == symbol;
            assert(in_scope(kind, pos)(found[j]));
        }
    }
}

/// No private symbol is among those that a dependency offers, whichever modules are
/// open.
pub proof fn lemma_private_hidden(
    docs: Seq<Document>,
    dep: DependencyView,
    kind: SymbolKind,
    open: Seq<Seq<char>>,
)
    ensures
        forall|i: int|
            0 <= i < package_symbols(docs, dep, kind, open).len() ==> (#[trigger] package_symbols(
                docs,
                dep,
                kind,
                open,
            )[i]).visibility != Visibility::Private,
{
    match package_environment(docs, dep) {
        Some(environment) => {
            let all = offered(environment.components, open, kind);
            lemma_keep_meets(all, is_exported(), all.len());
        },
        None => {},
    }
}

/// A member that a module shares is offered where the module is open.
pub proof fn lemma_open_offers(
    list: Seq<ComponentView>,
    open: Seq<Seq<char>>,
    kind: SymbolKind,
    m: int,
    member: ComponentView,
)
    requires
        0 <= m < list.len(),
        kind_of(list[m].body) == SymbolKind::Module,
        open.contains(list[m].name),
        members_of(list[m]).contains(member),
        kind_of(member.body) == kind,
        member.visibility == Visibility::Direct || member.visibility == Visibility::Public,
    ensures
        offered(list, open, kind).contains(member),
        keep_all(offered(list, open, kind), is_exported()).contains(member),
{
    lemma_opened_has(list, open, kind, list.len(), m, member);
    let inside = crate::documents::opened_members(list, open, kind, list.len());
    let j = choose|j: int| 0 <= j < inside.len() && inside[j] == member;
    let top = keep_all(list, is_kind(kind));
    let all = offered(list, open, kind);
    assert(all[top.len() + j] == member);
    lemma_keep_has(all, is_exported(), all.len(), top.len() + j);
}

proof fn lemma_opened_has(
    list: Seq<ComponentView>,
    open: Seq<Seq<char>>,
    kind: SymbolKind,
    n: nat,
    m: int,
    member: ComponentView,
)
    requires
        0 <= m < n <= list.len(),
        kind_of(list[m].body) == SymbolKind::Module,
        open.contains(list[m].name),
        members_of(list[m]).contains(member),
        kind_of(member.body) == kind,
        member.visibility == Visibility::Direct || member.visibility == Visibility::Public,
    ensures
        crate::documents::opened_members(list, open, kind, n).contains(member),
    decreases n,
{
    let now = crate::documents::opened_members(list, open, kind, n);
    let before = crate::documents::opened_members(list, open, kind, (n - 1) as nat);
    if m == n - 1 {
        let members = members_of(list[m]);
        let k = choose|k: int| 0 <= k < members.len() && members[k] == member;
        lemma_keep_has(members, is_shared(kind), members.len(), k);
        let shared = keep_all(members, is_shared(kind));
        let j = choose|j: int| 0 <= j < shared.len() && shared[j] == member;
        assert(now[before.len() + j] == member);
    } else {
        lemma_opened_has(list, open, kind, (n - 1) as nat, m, member);
        let j = choose|j: int| 0 <= j < before.len() && before[j] == member;
        assert(now[j] == member);
    }
}

/// A member of a module that is offered comes from a module that is open, and is not
/// private.
pub proof fn lemma_offered_needs_open(
    list: Seq<ComponentView>,
    open: Seq<Seq<char>>,
    kind: SymbolKind,
    n: nat,
    member: ComponentView,
)
    requires
        n <= list.len(),
        crate::documents::opened_members(list, open, kind, n).contains(member),
    ensures
        member.visibility != Visibility::Private,
        exists|m: int|
            0 <= m < n && kind_of((#[trigger] list[m]).body) == SymbolKind::Module && open.contains(
                list[m].name,
            ) && members_of(list[m]).contains(member),
    decreases n,
{
    let now = crate::documents::opened_members(list, open, kind, n);
    if n > 0 {
        let before = crate::documents::opened_members(list, open, kind, (n - 1) as nat);
        let j = choose|j: int| 0 <= j < now.len() && now[j] == member;
        if j < before.len() {
            assert(before[j] == member);
            lemma_offered_needs_open(list, open, kind, (n - 1) as nat, member);
            let m = choose|m: int|
                0 <= m < n - 1 && kind_of((#[trigger] list[m]).body) == SymbolKind::Module
                    && open.contains(list[m].name) && members_of(list[m]).contains(member);
            assert(0 <= m < n && kind_of(list[m].body) == SymbolKind::Module && open.contains(
                list[m].name,
            ) && members_of(list[m]).contains(member));
        } else {
            let module = list[n - 1];
            let members = members_of(module);
            let shared = keep_all(members, is_shared(kind));
            assert(shared[j - before.len()] == member);
            lemma_keep_meets(members, is_shared(kind), members.len());
            assert(is_shared(kind)(shared[j - before.len()]));
            let k = choose|k: int| 0 <= k < members.len() && members[k] == shared[j - before.len()];
            assert(members[k] == member);
            assert(kind_of(list[n - 1].body) == SymbolKind::Module && open.contains(
                list[n - 1].name,
            ) && members_of(list[n - 1]).contains(member));
        }
    }
}

/// Behind the name of its module and a dot, a variable that the module shares is
/// proposed whether the module is open or not.
pub proof fn lemma_qualified_shows(docs: Seq<Document>, module: ComponentView, k: int)
    requires
        0 <= k < members_of(module).len(),
        kind_of(members_of(module)[k].body) == SymbolKind::Variable,
        members_of(module)[k].visibility == Visibility::Public || members_of(module)[k].visibility
            == Visibility::Direct,
    ensures
        member_items(docs, module).contains(member_item(docs, members_of(module)[k])),
{
    let members = members_of(module);
    lemma_keep_has(members, is_shared(SymbolKind::Variable), members.len(), k);
    let shared = keep_all(members, is_shared(SymbolKind::Variable));
    let j = choose|j: int| 0 <= j < shared.len() && shared[j] == members[k];
    assert(member_items(docs, module)[j] == member_item(docs, members[k]));
}

} // verus!
