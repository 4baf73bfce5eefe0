//! What can be written in a program and as a command.

use crate::completion::{
    CompletionItem, CompletionItemKind, CompletionItemView, CompletionResourceItem, declared_type,
    dependency_items, get_primitive_list, item_models, items_of, local_description, local_symbols,
    optional_text, package_environment, resource_models, word_of,
};
use crate::documents::{
    Component, ComponentBody, ComponentView, Dependency, DependencyView, Document, DocumentCache,
    DocumentData, Environment, EnvironmentView, ProgramText, SymbolKind, data_at, gathered,
    is_kind, is_shared, localized_names, members_of, open_names, pointed, pointed_dependencies,
    strings, text_view,
};
use crate::parser::{Cst, Mode, SatysfiParser, comment_at};
use crate::position::{
    Position, Range, column_of_last, find_last_column, line_start, offset_at, position_to_offset,
    start_of_line,
};
use crate::search::{first_of, first_where, keep_all, lemma_first_where_stays};
use crate::text::{chars_between, is_char_range, join2, same_text, slice_text};
use crate::util::UrlPos;
use vstd::prelude::*;
use vstd::string::*;
use vstd::utf8::encode_utf8;

verus! {

/// The pattern of a module name in front of a dot at the end of a text.
pub open spec fn module_pattern() -> Seq<char> {
    "([A-Z][a-zA-Z0-9-]*)\\.$"@
}

/// What the first group of a regular expression captures in a text: the text that the
/// group matched in the leftmost match of the expression, and nothing where the
/// expression is not valid, does not match, or matches without the group.
pub uninterp spec fn regex_capture(pattern: Seq<char>, text: Seq<char>) -> Option<Seq<char>>;

/// `Regex::new` and `Regex::captures` of the `regex` crate: the expression is compiled
/// and searched for in `text`, and what its first group matched is handed out.
#[verifier::external_body]
fn first_capture(pattern: &str, text: &str) -> (found: Option<String>)
    ensures
        optional_text(found) == regex_capture(pattern@, text@),
{
    let expression = regex::Regex::new(pattern).ok()?;
    let captures = expression.captures(text)?;
    Some(captures.get(1)?.as_str().to_owned())
}

/// The name of the module that stands in front of the dot at the end of `text`.
pub fn module_before_dot(text: &str) -> (name: Option<String>)
    ensures
        optional_text(name) == regex_capture(module_pattern(), text@),
{
    first_capture("([A-Z][a-zA-Z0-9-]*)\\.$", text)
}

/// The range of the command that is being written: from behind the last `byte` of the
/// line of the cursor to the cursor.
pub open spec fn cmd_range_of(pos: Position, line: Seq<char>, byte: u8) -> Option<Range> {
    match column_of_last(line, byte) {
        Some(character) => Some(
            Range { start: Position { line: pos.line, character }, end: pos },
        ),
        None => None,
    }
}

/// The range of the command that is being written in an optional line.
pub open spec fn cmd_range_in(pos: Position, line: Option<Seq<char>>, byte: u8) -> Option<Range> {
    match line {
        Some(line) => cmd_range_of(pos, line, byte),
        None => None,
    }
}

/// The mode at an offset of a document: that of a comment in a comment, and elsewhere
/// the mode that the tree gives.
pub open spec fn mode_in(tree: Cst, text: Seq<char>, offset: int) -> Mode {
    if comment_at(text, offset) {
        Mode::Comment
    } else {
        Cst::first_mode(tree.dug(offset))
    }
}

/// The mode at a cursor: that of the document where the grammar accepted the document
/// and the cursor stands at a place of its text, and the mode of a comment elsewhere.
pub open spec fn mode_at(docs: Seq<Document>, url: Seq<char>, pos: Position) -> Mode {
    match data_at(docs, url) {
        Some(DocumentData::Parsed { program_text, .. }) => match offset_at(
            encode_utf8(program_text.text@),
            pos,
        ) {
            Some(offset) => mode_in(program_text.cst, program_text.text@, offset),
            None => Mode::Comment,
        },
        _ => Mode::Comment,
    }
}

/// The dependencies that are reached from those of a document.
pub open spec fn reached(docs: Seq<Document>, environment: EnvironmentView) -> Seq<DependencyView> {
    gathered(
        docs,
        environment.dependencies,
        environment.dependencies.len(),
        Seq::empty(),
        docs.len(),
    )
}

/// What can be written as a program at `offset`: the variables, the types and the modules
/// of the document that are in scope, then those that the reached dependencies offer
/// where the modules that are open or named at the cursor are open, then the built-ins.
pub open spec fn program_items(
    docs: Seq<Document>,
    tree: Cst,
    text: Seq<char>,
    environment: EnvironmentView,
    offset: int,
    resources: Seq<CompletionResourceItem>,
) -> Seq<CompletionItemView> {
    let open = open_names(tree, text, environment, offset) + localized_names(tree, text, offset);
    let deps = reached(docs, environment);
    items_of(
        docs,
        SymbolKind::Variable,
        local_symbols(environment, SymbolKind::Variable, offset),
        local_description(SymbolKind::Variable),
        None,
    ) + items_of(
        docs,
        SymbolKind::Type,
        local_symbols(environment, SymbolKind::Type, offset),
        local_description(SymbolKind::Type),
        None,
    ) + items_of(
        docs,
        SymbolKind::Module,
        local_symbols(environment, SymbolKind::Module, offset),
        local_description(SymbolKind::Module),
        None,
    ) + dependency_items(docs, deps, SymbolKind::Variable, open, None, deps.len())
        + dependency_items(docs, deps, SymbolKind::Type, open, None, deps.len())
        + dependency_items(docs, deps, SymbolKind::Module, open, None, deps.len())
        + resource_models(resources)
}

/// What can be written as a command of kind `kind` at `offset`: the commands of the
/// document that are in scope, then those that the reached dependencies offer where the
/// modules that are open at the cursor are open.
pub open spec fn command_items(
    docs: Seq<Document>,
    tree: Cst,
    text: Seq<char>,
    environment: EnvironmentView,
    offset: int,
    kind: SymbolKind,
    cmd_range: Option<Range>,
) -> Seq<CompletionItemView> {
    let open = open_names(tree, text, environment, offset);
    let deps = reached(docs, environment);
    items_of(
        docs,
        kind,
        local_symbols(environment, kind, offset),
        local_description(kind),
        cmd_range,
    ) + dependency_items(docs, deps, kind, open, cmd_range, deps.len())
}

/// The modules at the top of the packages of the first `n` of `deps`.
pub open spec fn dependency_modules(docs: Seq<Document>, deps: Seq<DependencyView>, n: nat) -> Seq<
    ComponentView,
>
    decreases n,
{
    if n == 0 || n > deps.len() {
        Seq::empty()
    } else {
        dependency_modules(docs, deps, (n - 1) as nat) + match package_environment(
            docs,
            deps[n - 1],
        ) {
            Some(environment) => keep_all(environment.components, is_kind(SymbolKind::Module)),
            None => Seq::empty(),
        }
    }
}

/// Whether a symbol goes by the name `name`.
pub open spec fn has_name(name: Seq<char>) -> spec_fn(ComponentView) -> bool {
    |c: ComponentView| c.name == name
}

/// The completion item of a member of a module that is named in front of the cursor.
pub open spec fn member_item(docs: Seq<Document>, member: ComponentView) -> CompletionItemView {
    CompletionItemView {
        label: member.name,
        kind: Some(CompletionItemKind::Variable),
        detail: declared_type(docs, member),
        documentation: None,
        insert_text: None,
        insert_text_format: None,
        text_edit: None,
    }
}

/// The completion items of the variables that a module shares.
pub open spec fn member_items(docs: Seq<Document>, module: ComponentView) -> Seq<CompletionItemView> {
    let members = keep_all(members_of(module), is_shared(SymbolKind::Variable));
    Seq::new(members.len(), |i: int| member_item(docs, members[i]))
}

/// The modules among which a module that is named in front of the cursor is looked for:
/// those of the document that are in scope, then those of the reached dependencies.
pub open spec fn module_candidates(
    docs: Seq<Document>,
    environment: EnvironmentView,
    offset: int,
) -> Seq<ComponentView> {
    let deps = reached(docs, environment);
    local_symbols(environment, SymbolKind::Module, offset) + dependency_modules(
        docs,
        deps,
        deps.len(),
    )
}

/// What can be written behind `name.`: the variables that the first module of that name
/// shares, whether the module is open or not. `None` where there is no such module.
pub open spec fn qualified_items(
    docs: Seq<Document>,
    environment: EnvironmentView,
    offset: int,
    name: Seq<char>,
) -> Option<Seq<CompletionItemView>> {
    let candidates = module_candidates(docs, environment, offset);
    match first_of(candidates, has_name(name)) {
        Some(i) => Some(member_items(docs, candidates[i])),
        None => None,
    }
}

/// What stands on the line of `offset` in front of it.
pub open spec fn line_before(text: Seq<char>, offset: int) -> Option<Seq<char>> {
    let start = line_start(encode_utf8(text), offset);
    if is_char_range(text, start, offset) {
        Some(chars_between(text, start, offset))
    } else {
        None
    }
}

/// Whether `items` is the list that `expected` describes.
pub open spec fn shows(items: Option<Vec<CompletionItem>>, expected: Option<Seq<CompletionItemView>>) -> bool {
    match expected {
        Some(expected) => items matches Some(list) && item_models(list@) == expected,
        None => items is None,
    }
}

/// The document at a cursor and the offset of the cursor in it, where the grammar
/// accepted the document and the cursor stands at a place of its text.
pub open spec fn cursor_in(docs: Seq<Document>, url: Seq<char>, pos: Position) -> Option<
    (Cst, Seq<char>, EnvironmentView, int),
> {
    match data_at(docs, url) {
        Some(DocumentData::Parsed { program_text, environment }) => match offset_at(
            encode_utf8(program_text.text@),
            pos,
        ) {
            Some(offset) => Some((program_text.cst, program_text.text@, environment@, offset)),
            None => None,
        },
        _ => None,
    }
}

/// What can be written as a program at a cursor.
pub open spec fn program_completion(
    docs: Seq<Document>,
    url: Seq<char>,
    pos: Position,
    resources: Seq<CompletionResourceItem>,
) -> Option<Seq<CompletionItemView>> {
    match cursor_in(docs, url, pos) {
        Some((tree, text, environment, offset)) => Some(
            program_items(docs, tree, text, environment, offset, resources),
        ),
        None => None,
    }
}

/// What can be written as a command of kind `kind` at a cursor.
pub open spec fn command_completion(
    docs: Seq<Document>,
    url: Seq<char>,
    pos: Position,
    line: Option<Seq<char>>,
    kind: SymbolKind,
    chr: u8,
) -> Option<Seq<CompletionItemView>> {
    match cursor_in(docs, url, pos) {
        Some((tree, text, environment, offset)) => Some(
            command_items(
                docs,
                tree,
                text,
                environment,
                offset,
                kind,
                cmd_range_in(pos, line, chr),
            ),
        ),
        None => None,
    }
}

/// What can be written behind the dot at a cursor.
pub open spec fn module_completion(docs: Seq<Document>, url: Seq<char>, pos: Position) -> Option<
    Seq<CompletionItemView>,
> {
    match cursor_in(docs, url, pos) {
        Some((tree, text, environment, offset)) => match line_before(text, offset) {
            Some(before) => match regex_capture(module_pattern(), before) {
                Some(name) => qualified_items(docs, environment, offset, name),
                None => None,
            },
            None => None,
        },
        None => None,
    }
}

impl DocumentCache {
    /// The range of the command that is being written.
    pub fn get_cmd_range(pos: &Position, text: &str, chr: u8) -> (range: Option<Range>)
        ensures
            range == cmd_range_of(*pos, text@, chr),
    {
        match find_last_column(text, chr) {
            Some(character) => Some(
                Range { start: Position { line: pos.line, character }, end: *pos },
            ),
            None => None,
        }
    }

    /// The mode at an offset of a document.
    pub fn mode_of(program_text: &ProgramText, offset: usize) -> (mode: Mode)
        ensures
            mode == mode_in(program_text.cst, program_text.text@, offset as int),
    {
        if SatysfiParser::is_comment(program_text.text.as_str(), offset) {
            Mode::Comment
        } else {
            program_text.cst.mode(offset)
        }
    }

    /// The mode at a cursor.
    pub fn get_mode(&self, curpos: &UrlPos) -> (mode: Mode)
        ensures
            mode == mode_at(self.docs@, curpos.url@, curpos.pos),
    {
        match self.get_doc_info(curpos.url.as_str()) {
            Some((program_text, _)) => match position_to_offset(
                program_text.text.as_str(),
                curpos.pos,
            ) {
                Some(offset) => DocumentCache::mode_of(program_text, offset),
                None => Mode::Comment,
            },
            None => Mode::Comment,
        }
    }

    /// What can be written as a program at the cursor: `None` where the grammar did not
    /// accept the document or the cursor does not stand at a place of its text.
    pub fn get_completion_list_program(
        &self,
        curpos: &UrlPos,
        resources: &Vec<CompletionResourceItem>,
    ) -> (items: Option<Vec<CompletionItem>>)
        ensures
            shows(items, program_completion(self.docs@, curpos.url@, curpos.pos, resources@)),
    {
        let url = curpos.url.as_str();
        let doc_data = match self.get(url) {
            Some(data) => data,
            None => {
                return None;
            },
        };
        let (program_text, environment) = match self.get_doc_info(url) {
            Some(info) => info,
            None => {
                return None;
            },
        };
        let offset = match position_to_offset(program_text.text.as_str(), curpos.pos) {
            Some(offset) => offset,
            None => {
                return None;
            },
        };
        let mut open = doc_data.get_open_modules(offset);
        let mut localized = doc_data.get_localized_modules(offset);
        proof {
            assert(strings(open@ + localized@) =~= strings(open@) + strings(localized@));
        }
        open.append(&mut localized);
        let deps = self.get_dependencies_recursive(&environment.dependencies);
        let mut items: Vec<CompletionItem> = Vec::new();
        proof {
            assert(item_models(items@) =~= Seq::<CompletionItemView>::empty());
        }
        let variables = DocumentCache::symbols_in_scope(environment, SymbolKind::Variable, offset);
        self.add_items(
            &mut items,
            SymbolKind::Variable,
            &variables,
            "variable defined in this file",
            None,
        );
        let types = DocumentCache::symbols_in_scope(environment, SymbolKind::Type, offset);
        self.add_items(&mut items, SymbolKind::Type, &types, "type defined in this file", None);
        let modules = DocumentCache::symbols_in_scope(environment, SymbolKind::Module, offset);
        self.add_items(&mut items, SymbolKind::Module, &modules, "module defined in this file", None);
        self.add_dependency_items(&mut items, &deps, SymbolKind::Variable, &open, None);
        self.add_dependency_items(&mut items, &deps, SymbolKind::Type, &open, None);
        self.add_dependency_items(&mut items, &deps, SymbolKind::Module, &open, None);
        let mut primitives = get_primitive_list(resources);
        proof {
            assert(item_models(items@ + primitives@) =~= item_models(items@) + item_models(
                primitives@,
            ));
            reveal_strlit("variable defined in this file");
            reveal_strlit("type defined in this file");
            reveal_strlit("module defined in this file");
            reveal_strlit("variable");
            reveal_strlit("type");
            reveal_strlit("module");
            reveal_strlit(" defined in this file");
            assert("variable defined in this file"@ =~= local_description(SymbolKind::Variable));
            assert("type defined in this file"@ =~= local_description(SymbolKind::Type));
            assert("module defined in this file"@ =~= local_description(SymbolKind::Module));
        }
        items.append(&mut primitives);
        proof {
            assert(item_models(items@) =~= program_items(
                self.docs@,
                program_text.cst,
                program_text.text@,
                environment@,
                offset as int,
                resources@,
            ));
        }
        Some(items)
    }

    /// What can be written as a command of kind `kind` at the cursor; `line` is the line
    /// of the cursor, and `chr` the byte with which a command of this kind begins.
    pub fn get_completion_list_command(
        &self,
        curpos: &UrlPos,
        line: Option<&str>,
        kind: SymbolKind,
        chr: u8,
    ) -> (items: Option<Vec<CompletionItem>>)
        ensures
            shows(
                items,
                command_completion(
                    self.docs@,
                    curpos.url@,
                    curpos.pos,
                    text_view(line),
                    kind,
                    chr,
                ),
            ),
    {
        let url = curpos.url.as_str();
        let doc_data = match self.get(url) {
            Some(data) => data,
            None => {
                return None;
            },
        };
        let (program_text, environment) = match self.get_doc_info(url) {
            Some(info) => info,
            None => {
                return None;
            },
        };
        let offset = match position_to_offset(program_text.text.as_str(), curpos.pos) {
            Some(offset) => offset,
            None => {
                return None;
            },
        };
        let command_range = match line {
            Some(line) => DocumentCache::get_cmd_range(&curpos.pos, line, chr),
            None => None,
        };
        let open = doc_data.get_open_modules(offset);
        let deps = self.get_dependencies_recursive(&environment.dependencies);
        let mut items: Vec<CompletionItem> = Vec::new();
        proof {
            assert(item_models(items@) =~= Seq::<CompletionItemView>::empty());
        }
        let local = DocumentCache::symbols_in_scope(environment, kind, offset);
        let desc = join2(word_of(kind), " defined in this file");
        self.add_items(&mut items, kind, &local, desc.as_str(), command_range);
        self.add_dependency_items(&mut items, &deps, kind, &open, command_range);
        proof {
            assert(item_models(items@) =~= command_items(
                self.docs@,
                program_text.cst,
                program_text.text@,
                environment@,
                offset as int,
                kind,
                cmd_range_in(curpos.pos, text_view(line), chr),
            ));
        }
        Some(items)
    }

    /// What can be written as an inline command at the cursor.
    pub fn get_completion_list_horizontal(&self, curpos: &UrlPos, text: Option<&str>) -> (items:
        Option<Vec<CompletionItem>>)
        ensures
            shows(
                items,
                command_completion(
                    self.docs@,
                    curpos.url@,
                    curpos.pos,
                    text_view(text),
                    SymbolKind::InlineCommand,
                    0x5c,
                ),
            ),
    {
        self.get_completion_list_command(curpos, text, SymbolKind::InlineCommand, 0x5c)
    }

    /// What can be written as a block command at the cursor.
    pub fn get_completion_list_vertical(&self, curpos: &UrlPos, text: Option<&str>) -> (items:
        Option<Vec<CompletionItem>>)
        ensures
            shows(
                items,
                command_completion(
                    self.docs@,
                    curpos.url@,
                    curpos.pos,
                    text_view(text),
                    SymbolKind::BlockCommand,
                    0x2b,
                ),
            ),
    {
        self.get_completion_list_command(curpos, text, SymbolKind::BlockCommand, 0x2b)
    }

    /// What can be written as a math command at the cursor.
    pub fn get_completion_list_math(&self, curpos: &UrlPos, text: Option<&str>) -> (items:
        Option<Vec<CompletionItem>>)
        ensures
            shows(
                items,
                command_completion(
                    self.docs@,
                    curpos.url@,
                    curpos.pos,
                    text_view(text),
                    SymbolKind::MathCommand,
                    0x5c,
                ),
            ),
    {
        self.get_completion_list_command(curpos, text, SymbolKind::MathCommand, 0x5c)
    }

    /// The modules at the top of the packages of `deps`.
    pub fn modules_of<'a>(&'a self, deps: &Vec<&Dependency>) -> (modules: Vec<&'a Component>)
        ensures
            pointed(modules@) == dependency_modules(
                self.docs@,
                pointed_dependencies(deps@),
                deps@.len(),
            ),
    {
        let ghost all = pointed_dependencies(deps@);
        let mut modules: Vec<&Component> = Vec::new();
        let mut k: usize = 0;
        while k < deps.len()
            invariant
                0 <= k <= deps@.len(),
                all == pointed_dependencies(deps@),
                pointed(modules@) =~= dependency_modules(self.docs@, all, k as nat),
            decreases deps@.len() - k,
        {
            let dep = deps[k];
            proof {
                assert(all[k as int] == dep@);
            }
            match &dep.url {
                Some(url) => match self.get_doc_info(url.as_str()) {
                    Some((_, environment)) => {
                        let mut more = environment.modules();
                        proof {
                            assert(pointed(modules@ + more@) =~= pointed(modules@) + pointed(more@));
                        }
                        modules.append(&mut more);
                    },
                    None => {},
                },
                None => {},
            }
            k = k + 1;
        }
        modules
    }

    /// What can be written behind `name.` at `offset` of a document with the environment
    /// `environment`.
    pub fn get_qualified_list(&self, environment: &Environment, offset: usize, name: &str) -> (items:
        Option<Vec<CompletionItem>>)
        ensures
            shows(items, qualified_items(self.docs@, environment@, offset as int, name@)),
    {
        let deps = self.get_dependencies_recursive(&environment.dependencies);
        let mut candidates = DocumentCache::symbols_in_scope(
            environment,
            SymbolKind::Module,
            offset,
        );
        let mut more = self.modules_of(&deps);
        proof {
            assert(pointed(candidates@ + more@) =~= pointed(candidates@) + pointed(more@));
        }
        candidates.append(&mut more);
        let mut k: usize = 0;
        while k < candidates.len()
            invariant
                0 <= k <= candidates@.len(),
                pointed(candidates@) == module_candidates(self.docs@, environment@, offset as int),
                first_where(pointed(candidates@), has_name(name@), k as nat) is None,
            decreases candidates@.len() - k,
        {
            let module = candidates[k];
            proof {
                assert(pointed(candidates@)[k as int] == module@);
            }
            if same_text(module.name.as_str(), name) {
                proof {
                    lemma_first_where_stays(
                        pointed(candidates@),
                        has_name(name@),
                        (k + 1) as nat,
                        candidates@.len(),
                    );
                }
                let members = module.shared_members(SymbolKind::Variable);
                let ghost expected = member_items(self.docs@, module@);
                let mut items: Vec<CompletionItem> = Vec::new();
                let mut j: usize = 0;
                while j < members.len()
                    invariant
                        0 <= j <= members@.len(),
                        pointed(members@) == keep_all(
                            members_of(module@),
                            is_shared(SymbolKind::Variable),
                        ),
                        expected == member_items(self.docs@, module@),
                        item_models(items@) =~= expected.take(j as int),
                    decreases members@.len() - j,
                {
                    let member = members[j];
                    proof {
                        assert(pointed(members@)[j as int] == member@);
                    }
                    let item = CompletionItem {
                        label: member.name.clone(),
                        kind: Some(CompletionItemKind::Variable),
                        detail: match &member.body {
                            ComponentBody::Variable { type_declaration: Some(span) } => self.text_at(
                                member.url.as_str(),
                                *span,
                            ),
                            _ => None,
                        },
                        documentation: None,
                        insert_text: None,
                        insert_text_format: None,
                        text_edit: None,
                    };
                    proof {
                        assert(expected.take(j + 1) =~= expected.take(j as int).push(item@));
                        assert(item_models(items@.push(item)) =~= item_models(items@).push(item@));
                    }
                    items.push(item);
                    j = j + 1;
                }
                proof {
                    assert(expected.take(j as int) =~= expected);
                }
                return Some(items);
            }
            k = k + 1;
        }
        None
    }

    /// What can be written behind the dot that was typed at the cursor: the variables of
    /// the module whose name stands in front of the dot.
    pub fn get_completion_list_with_module(&self, curpos: &UrlPos) -> (items: Option<
        Vec<CompletionItem>,
    >)
        ensures
            shows(items, module_completion(self.docs@, curpos.url@, curpos.pos)),
    {
        let (program_text, environment) = match self.get_doc_info(curpos.url.as_str()) {
            Some(info) => info,
            None => {
                return None;
            },
        };
        let text = program_text.text.as_str();
        let offset = match position_to_offset(text, curpos.pos) {
            Some(offset) => offset,
            None => {
                return None;
            },
        };
        let start = match start_of_line(text, offset) {
            Some(start) => start,
            None => {
                return None;
            },
        };
        let before = match slice_text(text, start, offset) {
            Some(before) => before,
            None => {
                return None;
            },
        };
        let name = match module_before_dot(before) {
            Some(name) => name,
            None => {
                return None;
            },
        };
        self.get_qualified_list(environment, offset, name.as_str())
    }
}

} // verus!
