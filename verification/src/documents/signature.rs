//! The signature of a module, and what it says of the members of the module.

use crate::documents::Visibility;
use crate::parser::{Cst, Span, get_text, text_of};
use crate::text::same_text;
use satysfi_parser::Rule;
use vstd::prelude::*;
use vstd::string::*;

verus! {

/// The module around a statement: its span, and its signature where it has one.
pub struct ModuleInfo<'a> {
    pub module_span: Span,
    pub sigs: Option<&'a Cst>,
}

/// What a signature says of a name: who can see the symbol, where the signature names it,
/// and where it writes its type.
#[derive(Clone, Copy, Debug, PartialEq, Eq, Structural)]
pub struct Declaration {
    pub visibility: Visibility,
    pub pos_declaration: Option<Span>,
    pub signature: Option<Span>,
}

/// Whether `entry` is an entry of kind `rule` that names `name` and gives it a type.
pub open spec fn declares(entry: Cst, rule: Rule, text: Seq<char>, name: Seq<char>) -> bool {
    &&& entry.rule == rule
    &&& entry.inner@.len() >= 2
    &&& text_of(text, entry.inner@[0].span) == name
}

/// The last entry of kind `rule` among the first `n` of a signature that names `name`.
pub open spec fn declared_upto(
    sigs: Cst,
    rule: Rule,
    text: Seq<char>,
    name: Seq<char>,
    n: nat,
) -> Option<Cst>
    decreases n,
{
    if n == 0 || n > sigs.inner@.len() {
        None
    } else if declares(sigs.inner@[n - 1], rule, text, name) {
        Some(sigs.inner@[n - 1])
    } else {
        declared_upto(sigs, rule, text, name, (n - 1) as nat)
    }
}

/// The entry of kind `rule` of a signature that names `name`; the last one wins.
pub open spec fn declared(sigs: Cst, rule: Rule, text: Seq<char>, name: Seq<char>) -> Option<
    Cst,
> {
    declared_upto(sigs, rule, text, name, sigs.inner@.len())
}

/// The index of the first child of kind `rule` among the first `n` children.
pub open spec fn first_child_upto(node: Cst, rule: Rule, n: nat) -> Option<int>
    decreases n,
{
    if n == 0 || n > node.inner@.len() {
        None
    } else {
        match first_child_upto(node, rule, (n - 1) as nat) {
            Some(i) => Some(i),
            None => if node.inner@[n - 1].rule == rule {
                Some(n - 1)
            } else {
                None
            },
        }
    }
}

/// The index of the first child of kind `rule`.
pub open spec fn first_child(node: Cst, rule: Rule) -> Option<int> {
    first_child_upto(node, rule, node.inner@.len())
}

/// What is found among the first `n` children is found among more of them.
pub proof fn lemma_first_child_stays(node: Cst, rule: Rule, n: nat, m: nat)
    requires
        n <= m <= node.inner@.len(),
        first_child_upto(node, rule, n) is Some,
    ensures
        first_child_upto(node, rule, m) == first_child_upto(node, rule, n),
        0 <= first_child_upto(node, rule, n)->0 < n,
        node.inner@[first_child_upto(node, rule, n)->0].rule == rule,
    decreases m,
{
    if n < m {
        lemma_first_child_stays(node, rule, n, (m - 1) as nat);
    } else {
        lemma_first_child_inside(node, rule, n);
    }
}

proof fn lemma_first_child_inside(node: Cst, rule: Rule, n: nat)
    requires
        n <= node.inner@.len(),
        first_child_upto(node, rule, n) is Some,
    ensures
        0 <= first_child_upto(node, rule, n)->0 < n,
        node.inner@[first_child_upto(node, rule, n)->0].rule == rule,
    decreases n,
{
    if n > 0 && first_child_upto(node, rule, (n - 1) as nat) is Some {
        lemma_first_child_inside(node, rule, (n - 1) as nat);
    }
}

/// The first child of kind `rule`.
pub fn find_child(node: &Cst, rule: Rule) -> (child: Option<&Cst>)
    ensures
        match first_child(*node, rule) {
            Some(i) => 0 <= i < node.inner@.len() && child == Some(&node.inner@[i]),
            None => child is None,
        },
{
    let mut k: usize = 0;
    while k < node.inner.len()
        invariant
            0 <= k <= node.inner@.len(),
            first_child_upto(*node, rule, k as nat) is None,
        decreases node.inner@.len() - k,
    {
        if node.inner[k].rule == rule {
            proof {
                lemma_first_child_stays(*node, rule, (k + 1) as nat, node.inner@.len());
            }
            return Some(&node.inner[k]);
        }
        k = k + 1;
    }
    None
}

/// Whether `entry` is a type entry of a signature that names `name`.
pub open spec fn declares_type(entry: Cst, text: Seq<char>, name: Seq<char>) -> bool {
    &&& entry.rule == Rule::sig_type_stmt
    &&& first_child(entry, Rule::var) matches Some(i) && text_of(text, entry.inner@[i].span)
        == name
}

/// The last type entry among the first `n` of a signature that names `name`.
pub open spec fn declared_type_upto(sigs: Cst, text: Seq<char>, name: Seq<char>, n: nat) -> Option<
    Cst,
>
    decreases n,
{
    if n == 0 || n > sigs.inner@.len() {
        None
    } else if declares_type(sigs.inner@[n - 1], text, name) {
        Some(sigs.inner@[n - 1])
    } else {
        declared_type_upto(sigs, text, name, (n - 1) as nat)
    }
}

/// What the module around a value says of it. At the top of a package, and in a module
/// without a signature, every symbol is public.
pub open spec fn value_declaration(
    info: Option<&ModuleInfo>,
    text: Seq<char>,
    name: Seq<char>,
) -> Declaration {
    match info {
        Some(info) => match info.sigs {
            Some(sigs) => match declared(*sigs, Rule::sig_val_stmt, text, name) {
                Some(entry) => Declaration {
                    visibility: Visibility::Public,
                    pos_declaration: Some(entry.inner@[0].span),
                    signature: Some(entry.inner@[1].span),
                },
                None => Declaration {
                    visibility: Visibility::Private,
                    pos_declaration: None,
                    signature: None,
                },
            },
            None => Declaration {
                visibility: Visibility::Public,
                pos_declaration: None,
                signature: None,
            },
        },
        None => Declaration {
            visibility: Visibility::Public,
            pos_declaration: None,
            signature: None,
        },
    }
}

/// What the module around a command says of it: `direct` comes before `val`.
pub open spec fn command_declaration(
    info: Option<&ModuleInfo>,
    text: Seq<char>,
    name: Seq<char>,
) -> Declaration {
    match info {
        Some(info) => match info.sigs {
            Some(sigs) => match declared(*sigs, Rule::sig_direct_stmt, text, name) {
                Some(entry) => Declaration {
                    visibility: Visibility::Direct,
                    pos_declaration: Some(entry.inner@[0].span),
                    signature: Some(entry.inner@[1].span),
                },
                None => value_declaration(Some(info), text, name),
            },
            None => Declaration {
                visibility: Visibility::Public,
                pos_declaration: None,
                signature: None,
            },
        },
        None => Declaration {
            visibility: Visibility::Public,
            pos_declaration: None,
            signature: None,
        },
    }
}

/// What the module around a type says of it.
pub open spec fn type_declaration(
    info: Option<&ModuleInfo>,
    text: Seq<char>,
    name: Seq<char>,
) -> Declaration {
    match info {
        Some(info) => match info.sigs {
            Some(sigs) => match declared_type_upto(*sigs, text, name, sigs.inner@.len()) {
                Some(entry) => Declaration {
                    visibility: Visibility::Public,
                    pos_declaration: Some(
                        entry.inner@[first_child(entry, Rule::var)->0].span,
                    ),
                    signature: None,
                },
                None => Declaration {
                    visibility: Visibility::Private,
                    pos_declaration: None,
                    signature: None,
                },
            },
            None => Declaration {
                visibility: Visibility::Public,
                pos_declaration: None,
                signature: None,
            },
        },
        None => Declaration {
            visibility: Visibility::Public,
            pos_declaration: None,
            signature: None,
        },
    }
}

impl<'a> ModuleInfo<'a> {
    /// The `val` entry of the signature that names `name`.
    pub fn map_val(&self, text: &str, name: &str) -> (entry: Option<&'a Cst>)
        ensures
            match self.sigs {
                Some(sigs) => match declared(*sigs, Rule::sig_val_stmt, text@, name@) {
                    Some(found) => entry == Some(&found) && declares(
                        found,
                        Rule::sig_val_stmt,
                        text@,
                        name@,
                    ),
                    None => entry is None,
                },
                None => entry is None,
            },
    {
        match self.sigs {
            Some(sigs) => find_declared(sigs, Rule::sig_val_stmt, text, name),
            None => None,
        }
    }

    /// The `direct` entry of the signature that names `name`.
    pub fn map_direct(&self, text: &str, name: &str) -> (entry: Option<&'a Cst>)
        ensures
            match self.sigs {
                Some(sigs) => match declared(*sigs, Rule::sig_direct_stmt, text@, name@) {
                    Some(found) => entry == Some(&found) && declares(
                        found,
                        Rule::sig_direct_stmt,
                        text@,
                        name@,
                    ),
                    None => entry is None,
                },
                None => entry is None,
            },
    {
        match self.sigs {
            Some(sigs) => find_declared(sigs, Rule::sig_direct_stmt, text, name),
            None => None,
        }
    }

    /// The `type` entry of the signature that names `name`.
    pub fn map_types(&self, text: &str, name: &str) -> (entry: Option<&'a Cst>)
        ensures
            match self.sigs {
                Some(sigs) => match declared_type_upto(*sigs, text@, name@, sigs.inner@.len()) {
                    Some(found) => entry == Some(&found) && declares_type(found, text@, name@),
                    None => entry is None,
                },
                None => entry is None,
            },
    {
        match self.sigs {
            Some(sigs) => {
                let mut k: usize = sigs.inner.len();
                while k > 0
                    invariant
                        self.sigs == Some(sigs),
                        0 <= k <= sigs.inner@.len(),
                        declared_type_upto(*sigs, text@, name@, sigs.inner@.len())
                            == declared_type_upto(*sigs, text@, name@, k as nat),
                    decreases k,
                {
                    let entry = &sigs.inner[k - 1];
                    if entry.rule == Rule::sig_type_stmt {
                        match find_child(entry, Rule::var) {
                            Some(var) => {
                                if same_text(get_text(text, var.span), name) {
                                    proof {
                                        assert(declares_type(*entry, text@, name@));
                                    }
                                    return Some(entry);
                                }
                            },
                            None => {},
                        }
                    }
                    k = k - 1;
                }
                None
            },
            None => None,
        }
    }
}

/// The last entry of kind `rule` of a signature that names `name`.
pub fn find_declared<'a>(sigs: &'a Cst, rule: Rule, text: &str, name: &str) -> (entry: Option<
    &'a Cst,
>)
    ensures
        match declared(*sigs, rule, text@, name@) {
            Some(found) => entry == Some(&found) && declares(found, rule, text@, name@),
            None => entry is None,
        },
{
    let mut k: usize = sigs.inner.len();
    while k > 0
        invariant
            0 <= k <= sigs.inner@.len(),
            declared(*sigs, rule, text@, name@) == declared_upto(
                *sigs,
                rule,
                text@,
                name@,
                k as nat,
            ),
        decreases k,
    {
        let entry = &sigs.inner[k - 1];
        if entry.rule == rule && entry.inner.len() >= 2 && same_text(
            get_text(text, entry.inner[0].span),
            name,
        ) {
            return Some(entry);
        }
        k = k - 1;
    }
    None
}

/// What the module around a value says of it.
pub fn declare_value(info: Option<&ModuleInfo>, text: &str, name: &str) -> (declaration:
    Declaration)
    ensures
        declaration == value_declaration(info, text@, name@),
{
    match info {
        Some(info) => match info.sigs {
            Some(_) => match info.map_val(text, name) {
                Some(entry) => Declaration {
                    visibility: Visibility::Public,
                    pos_declaration: Some(entry.inner[0].span),
                    signature: Some(entry.inner[1].span),
                },
                None => Declaration {
                    visibility: Visibility::Private,
                    pos_declaration: None,
                    signature: None,
                },
            },
            None => Declaration {
                visibility: Visibility::Public,
                pos_declaration: None,
                signature: None,
            },
        },
        None => Declaration {
            visibility: Visibility::Public,
            pos_declaration: None,
            signature: None,
        },
    }
}

/// What the module around a command says of it.
pub fn declare_command(info: Option<&ModuleInfo>, text: &str, name: &str) -> (declaration:
    Declaration)
    ensures
        declaration == command_declaration(info, text@, name@),
{
    match info {
        Some(module) => match module.sigs {
            Some(_) => match module.map_direct(text, name) {
                Some(entry) => Declaration {
                    visibility: Visibility::Direct,
                    pos_declaration: Some(entry.inner[0].span),
                    signature: Some(entry.inner[1].span),
                },
                None => declare_value(info, text, name),
            },
            None => Declaration {
                visibility: Visibility::Public,
                pos_declaration: None,
                signature: None,
            },
        },
        None => Declaration {
            visibility: Visibility::Public,
            pos_declaration: None,
            signature: None,
        },
    }
}

/// What the module around a type says of it.
pub fn declare_type(info: Option<&ModuleInfo>, text: &str, name: &str) -> (declaration:
    Declaration)
    ensures
        declaration == type_declaration(info, text@, name@),
{
    match info {
        Some(module) => match module.sigs {
            Some(_) => match module.map_types(text, name) {
                Some(entry) => match find_child(entry, Rule::var) {
                    Some(var) => Declaration {
                        visibility: Visibility::Public,
                        pos_declaration: Some(var.span),
                        signature: None,
                    },
                    None => Declaration {
                        visibility: Visibility::Private,
                        pos_declaration: None,
                        signature: None,
                    },
                },
                None => Declaration {
                    visibility: Visibility::Private,
                    pos_declaration: None,
                    signature: None,
                },
            },
            None => Declaration {
                visibility: Visibility::Public,
                pos_declaration: None,
                signature: None,
            },
        },
        None => Declaration {
            visibility: Visibility::Public,
            pos_declaration: None,
            signature: None,
        },
    }
}

} // verus!
