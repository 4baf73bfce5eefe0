//! From the statements of a document to the symbols that they define.

use crate::documents::{
    BodyView, CommandKind, Component, ComponentBody, ComponentView, ModuleInfo, Visibility,
    command_declaration, declare_command, declare_type, declare_value, models, strings,
    type_declaration, value_declaration,
};
use crate::parser::{
    Cst, ParseFailure, SatysfiParser, Span, accepted, child_spans, get_text, grammar_nodes,
    text_of, values,
};
use satysfi_parser::Rule;
use vstd::prelude::*;
use vstd::string::*;

verus! {

/// Lists that may be missing, one after the other: missing where one of them is.
pub open spec fn concat_options<T>(items: Seq<Option<Seq<T>>>) -> Option<Seq<T>>
    decreases items.len(),
{
    if items.len() == 0 {
        Some(Seq::empty())
    } else {
        match (concat_options(items.drop_last()), items.last()) {
            (Some(before), Some(last)) => Some(before + last),
            _ => None,
        }
    }
}

/// Where the first `k` lists do not all exist, the whole does not.
pub proof fn lemma_concat_missing<T>(items: Seq<Option<Seq<T>>>, k: int)
    requires
        0 <= k <= items.len(),
        concat_options(items.take(k)) is None,
    ensures
        concat_options(items) is None,
    decreases items.len() - k,
{
    if k < items.len() {
        assert(items.take(k + 1).drop_last() =~= items.take(k));
        lemma_concat_missing(items, k + 1);
    } else {
        assert(items.take(k) =~= items);
    }
}

/// One more list behind the first `k`.
pub proof fn lemma_concat_step<T>(items: Seq<Option<Seq<T>>>, k: int)
    requires
        0 <= k < items.len(),
    ensures
        concat_options(items.take(k + 1)) == match (concat_options(items.take(k)), items[k]) {
            (Some(before), Some(last)) => Some(before + last),
            _ => None,
        },
{
    assert(items.take(k + 1).drop_last() =~= items.take(k));
}

/// The end of the block around a statement: the end of its module, or of the program.
pub open spec fn block_end(info: Option<&ModuleInfo>, program_end: usize) -> usize {
    match info {
        Some(info) => info.module_span.end,
        None => program_end,
    }
}

/// The variable that the name `var` defines.
pub open spec fn variable_model(
    var: Cst,
    scope: Span,
    info: Option<&ModuleInfo>,
    text: Seq<char>,
    url: Seq<char>,
) -> ComponentView {
    let name = text_of(text, var.span);
    let declaration = value_declaration(info, text, name);
    ComponentView {
        name,
        body: BodyView::Variable { type_declaration: declaration.signature },
        scope,
        pos_definition: var.span,
        visibility: declaration.visibility,
        pos_declaration: declaration.pos_declaration,
        url,
    }
}

/// The variables that the names `vars` define.
pub open spec fn variable_models(
    vars: Seq<Cst>,
    scope: Span,
    info: Option<&ModuleInfo>,
    text: Seq<char>,
    url: Seq<char>,
) -> Seq<ComponentView> {
    Seq::new(vars.len(), |i: int| variable_model(vars[i], scope, info, text, url))
}

/// The rule of the grammar for the type of a command of each kind.
pub open spec fn command_rule(kind: CommandKind) -> Rule {
    match kind {
        CommandKind::Inline => Rule::type_inline_cmd,
        CommandKind::Block => Rule::type_block_cmd,
        CommandKind::Math => Rule::type_math_cmd,
    }
}

/// The texts that `spans` cut out of the text of a signature.
pub open spec fn args_of(sig_text: Seq<char>, spans: Seq<Span>) -> Seq<Seq<char>> {
    Seq::new(spans.len(), |k: int| text_of(sig_text, spans[k]))
}

/// The argument types of a command whose signature reads `sig_text`: the children of the
/// tree that the grammar gives for the text as a command type, and none where it gives
/// no tree.
pub open spec fn parsed_args(kind: CommandKind, sig_text: Seq<char>) -> Seq<Seq<char>> {
    let nodes = grammar_nodes(command_rule(kind), sig_text);
    if accepted(nodes, sig_text) {
        args_of(sig_text, child_spans(nodes->0, 0))
    } else {
        Seq::empty()
    }
}

/// What a command is, given where its signature writes its type.
pub open spec fn command_body(kind: CommandKind, signature: Option<Span>, args: Seq<Seq<char>>) -> BodyView {
    match kind {
        CommandKind::Inline => BodyView::InlineCmd { type_declaration: signature, type_args: args },
        CommandKind::Block => BodyView::BlockCmd { type_declaration: signature, type_args: args },
        CommandKind::Math => BodyView::MathCmd { type_declaration: signature, type_args: args },
    }
}

/// The argument types of a command with the signature at `signature`.
pub open spec fn signature_args(kind: CommandKind, signature: Option<Span>, text: Seq<char>) -> Seq<Seq<char>> {
    match signature {
        Some(span) => parsed_args(kind, text_of(text, span)),
        None => Seq::empty(),
    }
}

/// The command that a statement defines: `cmd` is its name, `expr` its right-hand side.
pub open spec fn command_model(
    kind: CommandKind,
    cmd: Cst,
    expr: Cst,
    info: Option<&ModuleInfo>,
    text: Seq<char>,
    url: Seq<char>,
    program_end: usize,
) -> ComponentView {
    let name = text_of(text, cmd.span);
    let declaration = command_declaration(info, text, name);
    ComponentView {
        name,
        body: command_body(
            kind,
            declaration.signature,
            signature_args(kind, declaration.signature, text),
        ),
        scope: Span { start: expr.span.end, end: block_end(info, program_end) },
        pos_definition: cmd.span,
        visibility: declaration.visibility,
        pos_declaration: declaration.pos_declaration,
        url,
    }
}

/// The variable that `let-mutable` defines.
pub open spec fn mutable_model(
    var: Cst,
    expr: Cst,
    info: Option<&ModuleInfo>,
    text: Seq<char>,
    url: Seq<char>,
    program_end: usize,
) -> ComponentView {
    let name = text_of(text, var.span);
    let declaration = value_declaration(info, text, name);
    ComponentView {
        name,
        body: BodyView::Variable { type_declaration: None },
        scope: Span { start: expr.span.end, end: block_end(info, program_end) },
        pos_definition: var.span,
        visibility: declaration.visibility,
        pos_declaration: declaration.pos_declaration,
        url,
    }
}

/// The index of the first child among the first `n` that is not of kind `rule`.
pub open spec fn first_other_upto(node: Cst, rule: Rule, n: nat) -> Option<int>
    decreases n,
{
    if n == 0 || n > node.inner@.len() {
        None
    } else {
        match first_other_upto(node, rule, (n - 1) as nat) {
            Some(i) => Some(i),
            None => if node.inner@[n - 1].rule != rule {
                Some(n - 1)
            } else {
                None
            },
        }
    }
}

/// What is found among the first `n` children is found among more of them.
pub proof fn lemma_first_other_stays(node: Cst, rule: Rule, n: nat, m: nat)
    requires
        n <= m <= node.inner@.len(),
        first_other_upto(node, rule, n) is Some,
    ensures
        first_other_upto(node, rule, m) == first_other_upto(node, rule, n),
        0 <= first_other_upto(node, rule, n)->0 < n,
    decreases m,
{
    if n < m {
        lemma_first_other_stays(node, rule, n, (m - 1) as nat);
    } else {
        lemma_first_other_inside(node, rule, n);
    }
}

proof fn lemma_first_other_inside(node: Cst, rule: Rule, n: nat)
    requires
        n <= node.inner@.len(),
        first_other_upto(node, rule, n) is Some,
    ensures
        0 <= first_other_upto(node, rule, n)->0 < n,
    decreases n,
{
    if n > 0 && first_other_upto(node, rule, (n - 1) as nat) is Some {
        lemma_first_other_inside(node, rule, (n - 1) as nat);
    }
}

/// The child of a type definition that holds its name: the first one behind the type
/// parameters.
pub open spec fn defined_name(definition: Cst) -> Option<int> {
    first_other_upto(definition, Rule::type_param, definition.inner@.len())
}

/// The type that one definition of a `type` statement defines.
pub open spec fn type_model(
    definition: Cst,
    name: Cst,
    info: Option<&ModuleInfo>,
    text: Seq<char>,
    url: Seq<char>,
    program_end: usize,
) -> ComponentView {
    let declaration = type_declaration(info, text, text_of(text, name.span));
    ComponentView {
        name: text_of(text, name.span),
        body: BodyView::Type,
        scope: Span { start: definition.span.end, end: block_end(info, program_end) },
        pos_definition: name.span,
        visibility: declaration.visibility,
        pos_declaration: declaration.pos_declaration,
        url,
    }
}

/// The variant that one alternative of a type definition defines. It is seen where its
/// type is.
pub open spec fn variant_model(
    definition: Cst,
    name: Cst,
    variant: Cst,
    info: Option<&ModuleInfo>,
    text: Seq<char>,
    url: Seq<char>,
    program_end: usize,
) -> ComponentView {
    ComponentView {
        name: text_of(text, variant.span),
        body: BodyView::Variant { of_type: text_of(text, name.span) },
        scope: Span { start: definition.span.end, end: block_end(info, program_end) },
        pos_definition: variant.span,
        visibility: type_declaration(info, text, text_of(text, name.span)).visibility,
        pos_declaration: None,
        url,
    }
}

/// What child `j` of a type definition adds: a variant where the child is an alternative,
/// which has to hold its name.
pub open spec fn variant_item(
    definition: Cst,
    name: Cst,
    j: int,
    info: Option<&ModuleInfo>,
    text: Seq<char>,
    url: Seq<char>,
    program_end: usize,
) -> Option<Seq<ComponentView>> {
    let child = definition.inner@[j];
    if child.rule == Rule::type_variant {
        if child.inner@.len() >= 1 {
            Some(seq![variant_model(definition, name, child.inner@[0], info, text, url, program_end)])
        } else {
            None
        }
    } else {
        Some(Seq::empty())
    }
}

/// What each child of a type definition adds.
pub open spec fn variant_items(
    definition: Cst,
    name: Cst,
    info: Option<&ModuleInfo>,
    text: Seq<char>,
    url: Seq<char>,
    program_end: usize,
) -> Seq<Option<Seq<ComponentView>>> {
    Seq::new(
        definition.inner@.len(),
        |j: int| variant_item(definition, name, j, info, text, url, program_end),
    )
}

/// The type and the variants that one definition of a `type` statement defines.
pub open spec fn definition_models(
    definition: Cst,
    info: Option<&ModuleInfo>,
    text: Seq<char>,
    url: Seq<char>,
    program_end: usize,
) -> Option<Seq<ComponentView>> {
    match defined_name(definition) {
        Some(i) => {
            let name = definition.inner@[i];
            match concat_options(variant_items(definition, name, info, text, url, program_end)) {
                Some(variants) => Some(
                    seq![type_model(definition, name, info, text, url, program_end)] + variants,
                ),
                None => None,
            }
        },
        None => None,
    }
}

/// What binding `j` of a `let-rec` statement adds: the variables of its pattern.
pub open spec fn rec_item(
    stmt: Cst,
    j: int,
    scope: Span,
    info: Option<&ModuleInfo>,
    text: Seq<char>,
    url: Seq<char>,
) -> Option<Seq<ComponentView>> {
    let binding = stmt.inner@[j];
    if binding.inner@.len() >= 1 {
        Some(variable_models(binding.inner@[0].picked(Rule::var), scope, info, text, url))
    } else {
        None
    }
}

/// What each binding of a `let-rec` statement adds.
pub open spec fn rec_items(
    stmt: Cst,
    scope: Span,
    info: Option<&ModuleInfo>,
    text: Seq<char>,
    url: Seq<char>,
) -> Seq<Option<Seq<ComponentView>>> {
    Seq::new(stmt.inner@.len(), |j: int| rec_item(stmt, j, scope, info, text, url))
}

/// What each definition of a `type` statement adds.
pub open spec fn definition_items(
    stmt: Cst,
    info: Option<&ModuleInfo>,
    text: Seq<char>,
    url: Seq<char>,
    program_end: usize,
) -> Seq<Option<Seq<ComponentView>>> {
    Seq::new(
        stmt.inner@.len(),
        |j: int| definition_models(stmt.inner@[j], info, text, url, program_end),
    )
}

/// The module that a `module` statement defines.
pub open spec fn module_model(
    stmt: Cst,
    members: Seq<ComponentView>,
    info: Option<&ModuleInfo>,
    text: Seq<char>,
    url: Seq<char>,
    program_end: usize,
) -> ComponentView {
    ComponentView {
        name: text_of(text, stmt.inner@[0].span),
        body: BodyView::Module { components: members },
        scope: Span { start: stmt.span.end, end: block_end(info, program_end) },
        pos_definition: stmt.inner@[0].span,
        visibility: Visibility::Public,
        pos_declaration: None,
        url,
    }
}

/// The signature of a `module` statement, where it has one.
pub open spec fn signature_of(stmt: &Cst) -> Option<&Cst> {
    if stmt.inner@.len() >= 3 && stmt.inner@[1].rule == Rule::sig_stmt {
        Some(&stmt.inner@[1])
    } else {
        None
    }
}

/// The symbols that one statement defines: `None` where the statement lacks a part that
/// its rule promises.
///
/// A binding is in scope behind its right-hand side, to the end of the block around it; a
/// recursive binding already behind the first pattern. A type and a module are in scope
/// behind their statement. A statement of another kind defines nothing.
pub open spec fn stmt_models(
    stmt: Cst,
    info: Option<&ModuleInfo>,
    text: Seq<char>,
    url: Seq<char>,
    program_end: usize,
) -> Option<Seq<ComponentView>>
    decreases stmt, 0nat,
{
    let n = stmt.inner@.len();
    let end = block_end(info, program_end);
    match stmt.rule {
        Rule::let_stmt => if n >= 2 {
            Some(
                variable_models(
                    stmt.inner@[0].picked(Rule::var),
                    Span { start: stmt.inner@[n - 1].span.end, end },
                    info,
                    text,
                    url,
                ),
            )
        } else {
            None
        },
        Rule::let_rec_stmt => if n >= 1 && stmt.inner@[0].inner@.len() >= 1 {
            concat_options(
                rec_items(
                    stmt,
                    Span { start: stmt.inner@[0].inner@[0].span.end, end },
                    info,
                    text,
                    url,
                ),
            )
        } else {
            None
        },
        Rule::let_inline_stmt_ctx => if n >= 3 {
            Some(
                seq![
                    command_model(
                        CommandKind::Inline,
                        stmt.inner@[1],
                        stmt.inner@[n - 1],
                        info,
                        text,
                        url,
                        program_end,
                    ),
                ],
            )
        } else {
            None
        },
        Rule::let_inline_stmt_noctx => if n >= 2 {
            Some(
                seq![
                    command_model(
                        CommandKind::Inline,
                        stmt.inner@[0],
                        stmt.inner@[n - 1],
                        info,
                        text,
                        url,
                        program_end,
                    ),
                ],
            )
        } else {
            None
        },
        Rule::let_block_stmt_ctx => if n >= 3 {
            Some(
                seq![
                    command_model(
                        CommandKind::Block,
                        stmt.inner@[1],
                        stmt.inner@[n - 1],
                        info,
                        text,
                        url,
                        program_end,
                    ),
                ],
            )
        } else {
            None
        },
        Rule::let_block_stmt_noctx => if n >= 2 {
            Some(
                seq![
                    command_model(
                        CommandKind::Block,
                        stmt.inner@[0],
                        stmt.inner@[n - 1],
                        info,
                        text,
                        url,
                        program_end,
                    ),
                ],
            )
        } else {
            None
        },
        Rule::let_math_stmt => if n >= 2 {
            Some(
                seq![
                    command_model(
                        CommandKind::Math,
                        stmt.inner@[0],
                        stmt.inner@[n - 1],
                        info,
                        text,
                        url,
                        program_end,
                    ),
                ],
            )
        } else {
            None
        },
        Rule::let_mutable_stmt => if n >= 2 {
            Some(seq![mutable_model(stmt.inner@[0], stmt.inner@[1], info, text, url, program_end)])
        } else {
            None
        },
        Rule::type_stmt => concat_options(definition_items(stmt, info, text, url, program_end)),
        Rule::module_stmt => if n >= 2 {
            let inside = ModuleInfo { module_span: stmt.span, sigs: signature_of(&stmt) };
            match stmts_models(stmt.inner@[n - 1], Some(&inside), text, url, program_end) {
                Some(members) => Some(
                    seq![module_model(stmt, members, info, text, url, program_end)],
                ),
                None => None,
            }
        } else {
            None
        },
        _ => Some(Seq::empty()),
    }
}

/// What each statement below `parent` defines.
pub open spec fn stmt_items(
    parent: Cst,
    info: Option<&ModuleInfo>,
    text: Seq<char>,
    url: Seq<char>,
    program_end: usize,
) -> Seq<Option<Seq<ComponentView>>>
    decreases parent, 1nat,
{
    Seq::new(
        parent.inner@.len(),
        |j: int|
            if 0 <= j < parent.inner@.len() {
                stmt_models(parent.inner@[j], info, text, url, program_end)
            } else {
                None
            },
    )
}

/// The symbols that the statements below `parent` define, in the order of the text.
pub open spec fn stmts_models(
    parent: Cst,
    info: Option<&ModuleInfo>,
    text: Seq<char>,
    url: Seq<char>,
    program_end: usize,
) -> Option<Seq<ComponentView>>
    decreases parent, 2nat,
{
    concat_options(stmt_items(parent, info, text, url, program_end))
}

/// Whether `result` holds the components that `expected` describes.
pub open spec fn built(result: Option<Vec<Component>>, expected: Option<Seq<ComponentView>>) -> bool {
    match expected {
        Some(expected) => result matches Some(list) && models(list@) == expected,
        None => result is None,
    }
}

/// The end of the block around a statement.
pub fn scope_end(info: Option<&ModuleInfo>, program_end: usize) -> (end: usize)
    ensures
        end == block_end(info, program_end),
{
    match info {
        Some(info) => info.module_span.end,
        None => program_end,
    }
}

/// The rule of the grammar for the type of a command of each kind.
pub fn rule_of(kind: CommandKind) -> (rule: Rule)
    ensures
        rule == command_rule(kind),
{
    match kind {
        CommandKind::Inline => Rule::type_inline_cmd,
        CommandKind::Block => Rule::type_block_cmd,
        CommandKind::Math => Rule::type_math_cmd,
    }
}

/// The first child that is not of kind `rule`.
pub fn find_other(node: &Cst, rule: Rule) -> (child: Option<&Cst>)
    ensures
        match first_other_upto(*node, rule, node.inner@.len()) {
            Some(i) => 0 <= i < node.inner@.len() && child == Some(&node.inner@[i]),
            None => child is None,
        },
{
    let mut k: usize = 0;
    while k < node.inner.len()
        invariant
            0 <= k <= node.inner@.len(),
            first_other_upto(*node, rule, k as nat) is None,
        decreases node.inner@.len() - k,
    {
        if node.inner[k].rule != rule {
            proof {
                lemma_first_other_stays(*node, rule, (k + 1) as nat, node.inner@.len());
            }
            return Some(&node.inner[k]);
        }
        k = k + 1;
    }
    None
}

impl Component {
    /// The variable that the name `var` defines.
    pub fn new_variable(
        var: &Cst,
        scope: Span,
        info: Option<&ModuleInfo>,
        text: &str,
        url: &str,
    ) -> (component: Component)
        ensures
            component@ == variable_model(*var, scope, info, text@, url@),
    {
        let name = get_text(text, var.span);
        let declaration = declare_value(info, text, name);
        Component {
            name: name.to_owned(),
            body: ComponentBody::Variable { type_declaration: declaration.signature },
            scope,
            pos_definition: var.span,
            visibility: declaration.visibility,
            pos_declaration: declaration.pos_declaration,
            url: url.to_owned(),
        }
    }

    /// The variables that the names `vars` define.
    pub fn variables(
        vars: &Vec<&Cst>,
        scope: Span,
        info: Option<&ModuleInfo>,
        text: &str,
        url: &str,
    ) -> (list: Vec<Component>)
        ensures
            models(list@) == variable_models(values(vars@), scope, info, text@, url@),
    {
        let mut list: Vec<Component> = Vec::new();
        let mut k: usize = 0;
        while k < vars.len()
            invariant
                0 <= k <= vars@.len(),
                models(list@) =~= variable_models(values(vars@), scope, info, text@, url@).take(
                    k as int,
                ),
            decreases vars@.len() - k,
        {
            let component = Component::new_variable(vars[k], scope, info, text, url);
            proof {
                let all = variable_models(values(vars@), scope, info, text@, url@);
                assert(values(vars@)[k as int] == *vars@[k as int]);
                assert(all.take(k + 1) =~= all.take(k as int).push(component@));
                assert(models(list@.push(component)) =~= models(list@).push(component@));
            }
            list.push(component);
            k = k + 1;
        }
        list
    }

    /// The argument types of a command, read off the tree of its signature.
    pub fn type_args(sig_text: &str, parsed: &Result<Cst, ParseFailure>) -> (args: Vec<String>)
        ensures
            strings(args@) == match *parsed {
                Ok(tree) => args_of(sig_text@, tree.child_spans()),
                Err(_) => Seq::empty(),
            },
    {
        let mut args: Vec<String> = Vec::new();
        match parsed {
            Ok(tree) => {
                let mut k: usize = 0;
                while k < tree.inner.len()
                    invariant
                        0 <= k <= tree.inner@.len(),
                        strings(args@) =~= args_of(sig_text@, tree.child_spans()).take(k as int),
                    decreases tree.inner@.len() - k,
                {
                    let arg = get_text(sig_text, tree.inner[k].span).to_owned();
                    proof {
                        let all = args_of(sig_text@, tree.child_spans());
                        assert(all.take(k + 1) =~= all.take(k as int).push(arg@));
                        assert(strings(args@.push(arg)) =~= strings(args@).push(arg@));
                    }
                    args.push(arg);
                    k = k + 1;
                }
            },
            Err(_) => {
                proof {
                    assert(strings(args@) =~= Seq::<Seq<char>>::empty());
                }
            },
        }
        args
    }

    /// The command that a statement defines: `cmd` is its name, `expr` its right-hand side.
    pub fn new_command(
        kind: CommandKind,
        cmd: &Cst,
        expr: &Cst,
        info: Option<&ModuleInfo>,
        text: &str,
        url: &str,
        program_end: usize,
    ) -> (component: Component)
        ensures
            component@ == command_model(kind, *cmd, *expr, info, text@, url@, program_end),
    {
        let name = get_text(text, cmd.span);
        let declaration = declare_command(info, text, name);
        let type_args = match declaration.signature {
            Some(span) => {
                let sig_text = get_text(text, span);
                let parsed = SatysfiParser::parse(rule_of(kind), sig_text);
                Component::type_args(sig_text, &parsed)
            },
            None => {
                let none: Vec<String> = Vec::new();
                proof {
                    assert(strings(none@) =~= Seq::<Seq<char>>::empty());
                }
                none
            },
        };
        let type_declaration = declaration.signature;
        let body = match kind {
            CommandKind::Inline => ComponentBody::InlineCmd { type_declaration, type_args },
            CommandKind::Block => ComponentBody::BlockCmd { type_declaration, type_args },
            CommandKind::Math => ComponentBody::MathCmd { type_declaration, type_args },
        };
        Component {
            name: name.to_owned(),
            body,
            scope: Span { start: expr.span.end, end: scope_end(info, program_end) },
            pos_definition: cmd.span,
            visibility: declaration.visibility,
            pos_declaration: declaration.pos_declaration,
            url: url.to_owned(),
        }
    }

    /// The variable that `let-mutable` defines.
    pub fn new_mutable(
        var: &Cst,
        expr: &Cst,
        info: Option<&ModuleInfo>,
        text: &str,
        url: &str,
        program_end: usize,
    ) -> (component: Component)
        ensures
            component@ == mutable_model(*var, *expr, info, text@, url@, program_end),
    {
        let name = get_text(text, var.span);
        let declaration = declare_value(info, text, name);
        Component {
            name: name.to_owned(),
            body: ComponentBody::Variable { type_declaration: None },
            scope: Span { start: expr.span.end, end: scope_end(info, program_end) },
            pos_definition: var.span,
            visibility: declaration.visibility,
            pos_declaration: declaration.pos_declaration,
            url: url.to_owned(),
        }
    }

    /// The type and the variants that one definition of a `type` statement defines.
    pub fn from_definition(
        definition: &Cst,
        info: Option<&ModuleInfo>,
        text: &str,
        url: &str,
        program_end: usize,
    ) -> (list: Option<Vec<Component>>)
        ensures
            built(list, definition_models(*definition, info, text@, url@, program_end)),
    {
        let name = match find_other(definition, Rule::type_param) {
            Some(name) => name,
            None => {
                return None;
            },
        };
        let name_text = get_text(text, name.span);
        let declaration = declare_type(info, text, name_text);
        let scope = Span { start: definition.span.end, end: scope_end(info, program_end) };
        let mut list: Vec<Component> = Vec::new();
        list.push(
            Component {
                name: name_text.to_owned(),
                body: ComponentBody::Type,
                scope,
                pos_definition: name.span,
                visibility: declaration.visibility,
                pos_declaration: declaration.pos_declaration,
                url: url.to_owned(),
            },
        );
        let ghost items = variant_items(*definition, *name, info, text@, url@, program_end);
        let ghost first = type_model(*definition, *name, info, text@, url@, program_end);
        let mut k: usize = 0;
        while k < definition.inner.len()
            invariant
                0 <= k <= definition.inner@.len(),
                items == variant_items(*definition, *name, info, text@, url@, program_end),
                defined_name(*definition) matches Some(i) && *name == definition.inner@[i],
                first == type_model(*definition, *name, info, text@, url@, program_end),
                name_text@ == text_of(text@, name.span),
                declaration == type_declaration(info, text@, text_of(text@, name.span)),
                scope == (Span {
                    start: definition.span.end,
                    end: block_end(info, program_end),
                }),
                concat_options(items.take(k as int)) matches Some(variants) && models(list@)
                    == seq![first] + variants,
            decreases definition.inner@.len() - k,
        {
            let child = &definition.inner[k];
            proof {
                lemma_concat_step(items, k as int);
            }
            if child.rule == Rule::type_variant {
                if child.inner.len() >= 1 {
                    let variant = &child.inner[0];
                    let ghost before = models(list@);
                    list.push(
                        Component {
                            name: get_text(text, variant.span).to_owned(),
                            body: ComponentBody::Variant { of_type: name_text.to_owned() },
                            scope,
                            pos_definition: variant.span,
                            visibility: declaration.visibility,
                            pos_declaration: None,
                            url: url.to_owned(),
                        },
                    );
                    proof {
                        let added = variant_model(
                            *definition,
                            *name,
                            *variant,
                            info,
                            text@,
                            url@,
                            program_end,
                        );
                        assert(models(list@) =~= before.push(added));
                        let variants = concat_options(items.take(k as int))->0;
                        assert(before.push(added) =~= seq![first] + (variants + seq![added]));
                    }
                } else {
                    proof {
                        lemma_concat_missing(items, k + 1);
                    }
                    return None;
                }
            } else {
                proof {
                    let variants = concat_options(items.take(k as int))->0;
                    assert(variants + Seq::<ComponentView>::empty() =~= variants);
                }
            }
            k = k + 1;
        }
        proof {
            assert(items.take(k as int) =~= items);
        }
        Some(list)
    }

    /// The symbols that one statement defines.
    pub fn from_stmt(
        stmt: &Cst,
        info: Option<&ModuleInfo>,
        text: &str,
        url: &str,
        program_end: usize,
    ) -> (list: Option<Vec<Component>>)
        ensures
            built(list, stmt_models(*stmt, info, text@, url@, program_end)),
        decreases stmt, 0nat,
    {
        let n = stmt.inner.len();
        let end = scope_end(info, program_end);
        match stmt.rule {
            Rule::let_stmt => {
                if n < 2 {
                    return None;
                }
                let vars = stmt.inner[0].pickup(Rule::var);
                let scope = Span { start: stmt.inner[n - 1].span.end, end };
                Some(Component::variables(&vars, scope, info, text, url))
            },
            Rule::let_rec_stmt => {
                if n < 1 || stmt.inner[0].inner.len() < 1 {
                    return None;
                }
                let scope = Span { start: stmt.inner[0].inner[0].span.end, end };
                let ghost items = rec_items(*stmt, scope, info, text@, url@);
                let mut list: Vec<Component> = Vec::new();
                let mut k: usize = 0;
                while k < n
                    invariant
                        n == stmt.inner@.len(),
                        0 <= k <= n,
                        items == rec_items(*stmt, scope, info, text@, url@),
                        stmt.rule == Rule::let_rec_stmt,
                        n >= 1 && stmt.inner@[0].inner@.len() >= 1,
                        scope == (Span {
                            start: stmt.inner@[0].inner@[0].span.end,
                            end: block_end(info, program_end),
                        }),
                        concat_options(items.take(k as int)) == Some(models(list@)),
                    decreases n - k,
                {
                    let binding = &stmt.inner[k];
                    proof {
                        lemma_concat_step(items, k as int);
                    }
                    if binding.inner.len() < 1 {
                        proof {
                            lemma_concat_missing(items, k + 1);
                        }
                        return None;
                    }
                    let vars = binding.inner[0].pickup(Rule::var);
                    let mut more = Component::variables(&vars, scope, info, text, url);
                    proof {
                        assert(models(list@ + more@) =~= models(list@) + models(more@));
                    }
                    list.append(&mut more);
                    k = k + 1;
                }
                proof {
                    assert(items.take(k as int) =~= items);
                }
                Some(list)
            },
            Rule::let_inline_stmt_ctx => {
                if n < 3 {
                    return None;
                }
                Some(
                    Component::single(
                        Component::new_command(
                            CommandKind::Inline,
                            &stmt.inner[1],
                            &stmt.inner[n - 1],
                            info,
                            text,
                            url,
                            program_end,
                        ),
                    ),
                )
            },
            Rule::let_inline_stmt_noctx => {
                if n < 2 {
                    return None;
                }
                Some(
                    Component::single(
                        Component::new_command(
                            CommandKind::Inline,
                            &stmt.inner[0],
                            &stmt.inner[n - 1],
                            info,
                            text,
                            url,
                            program_end,
                        ),
                    ),
                )
            },
            Rule::let_block_stmt_ctx => {
                if n < 3 {
                    return None;
                }
                Some(
                    Component::single(
                        Component::new_command(
                            CommandKind::Block,
                            &stmt.inner[1],
                            &stmt.inner[n - 1],
                            info,
                            text,
                            url,
                            program_end,
                        ),
                    ),
                )
            },
            Rule::let_block_stmt_noctx => {
                if n < 2 {
                    return None;
                }
                Some(
                    Component::single(
                        Component::new_command(
                            CommandKind::Block,
                            &stmt.inner[0],
                            &stmt.inner[n - 1],
                            info,
                            text,
                            url,
                            program_end,
                        ),
                    ),
                )
            },
            Rule::let_math_stmt => {
                if n < 2 {
                    return None;
                }
                Some(
                    Component::single(
                        Component::new_command(
                            CommandKind::Math,
                            &stmt.inner[0],
                            &stmt.inner[n - 1],
                            info,
                            text,
                            url,
                            program_end,
                        ),
                    ),
                )
            },
            Rule::let_mutable_stmt => {
                if n < 2 {
                    return None;
                }
                Some(
                    Component::single(
                        Component::new_mutable(
                            &stmt.inner[0],
                            &stmt.inner[1],
                            info,
                            text,
                            url,
                            program_end,
                        ),
                    ),
                )
            },
            Rule::type_stmt => {
                let ghost items = definition_items(*stmt, info, text@, url@, program_end);
                let mut list: Vec<Component> = Vec::new();
                let mut k: usize = 0;
                while k < n
                    invariant
                        n == stmt.inner@.len(),
                        0 <= k <= n,
                        items == definition_items(*stmt, info, text@, url@, program_end),
                        stmt.rule == Rule::type_stmt,
                        concat_options(items.take(k as int)) == Some(models(list@)),
                    decreases n - k,
                {
                    proof {
                        lemma_concat_step(items, k as int);
                    }
                    match Component::from_definition(&stmt.inner[k], info, text, url, program_end) {
                        Some(mut more) => {
                            proof {
                                assert(models(list@ + more@) =~= models(list@) + models(more@));
                            }
                            list.append(&mut more);
                        },
                        None => {
                            proof {
                                lemma_concat_missing(items, k + 1);
                            }
                            return None;
                        },
                    }
                    k = k + 1;
                }
                proof {
                    assert(items.take(k as int) =~= items);
                }
                Some(list)
            },
            Rule::module_stmt => {
                if n < 2 {
                    return None;
                }
                let sigs = if n >= 3 && stmt.inner[1].rule == Rule::sig_stmt {
                    Some(&stmt.inner[1])
                } else {
                    None
                };
                let inside = ModuleInfo { module_span: stmt.span, sigs };
                let members = match Component::from_struct_stmts(
                    &inside,
                    &stmt.inner[n - 1],
                    text,
                    url,
                    program_end,
                ) {
                    Some(members) => members,
                    None => {
                        return None;
                    },
                };
                let ghost member_models = models(members@);
                let module = Component {
                    name: get_text(text, stmt.inner[0].span).to_owned(),
                    body: ComponentBody::Module { components: members },
                    scope: Span { start: stmt.span.end, end },
                    pos_definition: stmt.inner[0].span,
                    visibility: Visibility::Public,
                    pos_declaration: None,
                    url: url.to_owned(),
                };
                proof {
                    assert(module@.body->Module_components =~= member_models);
                }
                Some(Component::single(module))
            },
            _ => {
                let none: Vec<Component> = Vec::new();
                proof {
                    assert(models(none@) =~= Seq::<ComponentView>::empty());
                }
                Some(none)
            },
        }
    }

    /// A list of one component.
    pub fn single(component: Component) -> (list: Vec<Component>)
        ensures
            list@ == seq![component],
            models(list@) == seq![component@],
    {
        let mut list: Vec<Component> = Vec::new();
        list.push(component);
        proof {
            assert(list@ =~= seq![component]);
            assert(models(list@) =~= seq![component@]);
        }
        list
    }

    /// The symbols that the statements below `parent` define, in the order of the text.
    pub fn from_stmts(
        parent: &Cst,
        info: Option<&ModuleInfo>,
        text: &str,
        url: &str,
        program_end: usize,
    ) -> (list: Option<Vec<Component>>)
        ensures
            built(list, stmts_models(*parent, info, text@, url@, program_end)),
        decreases parent, 2nat,
    {
        let n = parent.inner.len();
        let ghost items = stmt_items(*parent, info, text@, url@, program_end);
        let mut list: Vec<Component> = Vec::new();
        let mut k: usize = 0;
        while k < n
            invariant
                n == parent.inner@.len(),
                0 <= k <= n,
                items == stmt_items(*parent, info, text@, url@, program_end),
                concat_options(items.take(k as int)) == Some(models(list@)),
            decreases n - k,
        {
            proof {
                lemma_concat_step(items, k as int);
            }
            match Component::from_stmt(&parent.inner[k], info, text, url, program_end) {
                Some(mut more) => {
                    proof {
                        assert(models(list@ + more@) =~= models(list@) + models(more@));
                    }
                    list.append(&mut more);
                },
                None => {
                    proof {
                        lemma_concat_missing(items, k + 1);
                    }
                    return None;
                },
            }
            k = k + 1;
        }
        proof {
            assert(items.take(k as int) =~= items);
        }
        Some(list)
    }

    /// The symbols that the statements at the top of a package define.
    pub fn from_preamble(preamble: &Cst, text: &str, url: &str, program_end: usize) -> (list:
        Option<Vec<Component>>)
        ensures
            built(list, stmts_models(*preamble, None, text@, url@, program_end)),
    {
        Component::from_stmts(preamble, None, text, url, program_end)
    }

    /// The symbols that the statements of a module define.
    pub fn from_struct_stmts(
        module_info: &ModuleInfo,
        struct_stmts: &Cst,
        text: &str,
        url: &str,
        program_end: usize,
    ) -> (list: Option<Vec<Component>>)
        ensures
            built(list, stmts_models(*struct_stmts, Some(module_info), text@, url@, program_end)),
        decreases struct_stmts, 3nat,
    {
        Component::from_stmts(struct_stmts, Some(module_info), text, url, program_end)
    }
}

/// What stands in lists that were put one after the other stands in one of the lists.
pub proof fn lemma_concat_from<T>(items: Seq<Option<Seq<T>>>, i: int)
    requires
        concat_options(items) is Some,
        0 <= i < concat_options(items)->0.len(),
    ensures
        exists|j: int, k: int|
            0 <= j < items.len() && items[j] is Some && 0 <= k < items[j]->0.len()
                && #[trigger] items[j]->0[k] == concat_options(items)->0[i],
    decreases items.len(),
{
    if items.len() > 0 {
        let before = concat_options(items.drop_last())->0;
        let last = items.last()->0;
        if i < before.len() {
            lemma_concat_from(items.drop_last(), i);
            let (j, k) = choose|j: int, k: int|
                0 <= j < items.drop_last().len() && items.drop_last()[j] is Some && 0 <= k
                    < items.drop_last()[j]->0.len() && #[trigger] items.drop_last()[j]->0[k]
                    == before[i];
            assert(items[j]->0[k] == concat_options(items)->0[i]);
        } else {
            let j = items.len() - 1;
            let k = i - before.len();
            assert(items[j]->0[k] == concat_options(items)->0[i]);
        }
    }
}

/// Whether the spans of a symbol are in order: neither ends before it starts.
pub open spec fn well_spanned(symbol: ComponentView) -> bool {
    symbol.pos_definition.start <= symbol.pos_definition.end && symbol.scope.start
        <= symbol.scope.end
}

/// Whether a symbol is in scope only behind its definition.
pub open spec fn well_scoped(symbol: ComponentView) -> bool {
    symbol.pos_definition.end <= symbol.scope.start
}

/// The variables of a pattern are defined in the pattern.
proof fn lemma_variables_inside(
    pattern: Cst,
    scope: Span,
    info: Option<&ModuleInfo>,
    text: Seq<char>,
    url: Seq<char>,
    i: int,
)
    requires
        pattern.nested(),
        0 <= i < pattern.picked(Rule::var).len(),
    ensures
        ({
            let symbol = variable_models(pattern.picked(Rule::var), scope, info, text, url)[i];
            &&& symbol.scope == scope
            &&& pattern.span.encloses(symbol.pos_definition)
            &&& symbol.pos_definition.start <= symbol.pos_definition.end
        }),
{
    pattern.lemma_nested_picked(Rule::var, pattern.inner@.len(), i);
}

/// The symbols of a statement in a tree that is laid out as the text is: their spans are
/// in order, and but for the symbols of a recursive binding each is in scope only behind
/// its definition.
pub proof fn lemma_scope_follows_definition(
    stmt: Cst,
    info: Option<&ModuleInfo>,
    text: Seq<char>,
    url: Seq<char>,
    program_end: usize,
)
    requires
        stmt.nested(),
        stmt.span.end <= block_end(info, program_end),
        stmt_models(stmt, info, text, url, program_end) is Some,
    ensures
        forall|i: int|
            0 <= i < stmt_models(stmt, info, text, url, program_end)->0.len() ==> well_spanned(
                #[trigger] stmt_models(stmt, info, text, url, program_end)->0[i],
            ) && (stmt.rule != Rule::let_rec_stmt ==> well_scoped(
                stmt_models(stmt, info, text, url, program_end)->0[i],
            )),
{
    let symbols = stmt_models(stmt, info, text, url, program_end)->0;
    let n = stmt.inner@.len();
    let end = block_end(info, program_end);
    assert forall|i: int| 0 <= i < symbols.len() implies well_spanned(#[trigger] symbols[i]) && (
    stmt.rule != Rule::let_rec_stmt ==> well_scoped(symbols[i])) by {
        match stmt.rule {
            Rule::let_stmt => {
                stmt.lemma_nested_child(0, n);
                stmt.lemma_nested_child(n - 1, n);
                stmt.lemma_nested_siblings(0, n - 1);
                let scope = Span { start: stmt.inner@[n - 1].span.end, end };
                lemma_variables_inside(stmt.inner@[0], scope, info, text, url, i);
            },
            Rule::let_rec_stmt => {
                stmt.lemma_nested_child(0, n);
                stmt.inner@[0].lemma_nested_child(0, stmt.inner@[0].inner@.len());
                let scope = Span { start: stmt.inner@[0].inner@[0].span.end, end };
                let items = rec_items(stmt, scope, info, text, url);
                lemma_concat_from(items, i);
                let (j, k) = choose|j: int, k: int|
                    0 <= j < items.len() && items[j] is Some && 0 <= k < items[j]->0.len()
                        && #[trigger] items[j]->0[k] == symbols[i];
                stmt.lemma_nested_child(j, n);
                stmt.inner@[j].lemma_nested_child(0, stmt.inner@[j].inner@.len());
                lemma_variables_inside(stmt.inner@[j].inner@[0], scope, info, text, url, k);
            },
            Rule::let_inline_stmt_ctx | Rule::let_block_stmt_ctx => {
                stmt.lemma_nested_child(1, n);
                stmt.lemma_nested_child(n - 1, n);
                stmt.lemma_nested_siblings(1, n - 1);
            },
            Rule::let_inline_stmt_noctx | Rule::let_block_stmt_noctx | Rule::let_math_stmt => {
                stmt.lemma_nested_child(0, n);
                stmt.lemma_nested_child(n - 1, n);
                stmt.lemma_nested_siblings(0, n - 1);
            },
            Rule::let_mutable_stmt => {
                stmt.lemma_nested_child(0, n);
                stmt.lemma_nested_child(1, n);
            },
            Rule::type_stmt => {
                let items = definition_items(stmt, info, text, url, program_end);
                lemma_concat_from(items, i);
                let (j, k) = choose|j: int, k: int|
                    0 <= j < items.len() && items[j] is Some && 0 <= k < items[j]->0.len()
                        && #[trigger] items[j]->0[k] == symbols[i];
                let definition = stmt.inner@[j];
                stmt.lemma_nested_child(j, n);
                lemma_first_other_stays(
                    definition,
                    Rule::type_param,
                    definition.inner@.len(),
                    definition.inner@.len(),
                );
                let at = defined_name(definition)->0;
                let name = definition.inner@[at];
                definition.lemma_nested_child(at, definition.inner@.len());
                if k > 0 {
                    let variants = variant_items(definition, name, info, text, url, program_end);
                    lemma_concat_from(variants, k - 1);
                    let (v, w) = choose|v: int, w: int|
                        0 <= v < variants.len() && variants[v] is Some && 0 <= w
                            < variants[v]->0.len() && #[trigger] variants[v]->0[w]
                            == concat_options(variants)->0[k - 1];
                    definition.lemma_nested_child(v, definition.inner@.len());
                    definition.inner@[v].lemma_nested_child(0, definition.inner@[v].inner@.len());
                }
            },
            Rule::module_stmt => {
                stmt.lemma_nested_child(0, n);
            },
            _ => {},
        }
    }
}

} // verus!
