//! What the server holds of one document.

use crate::documents::{
    Environment, EnvironmentView, OpenModuleView, Packages, ProgramText, SourceFile,
    environment_model, find_child, first_child, names, string_view, strings, text_view,
};
use crate::parser::{
    Cst, LineCol, ParseFailure, SatysfiParser, accepted, failure_place, get_text, program_answer,
    program_nodes, text_of, values,
};
use crate::search::{present, present_all};
use satysfi_parser::Rule;
use vstd::prelude::*;
use vstd::string::*;

verus! {

/// What the server holds of one document.
#[derive(Debug)]
pub enum DocumentData {
    /// The grammar accepts the text: the text with its tree, and what the document
    /// depends on, defines and opens.
    Parsed { program_text: ProgramText, environment: Environment },
    /// The grammar does not accept the text: it stopped at `linecol`, where it looked for
    /// one of `expect`.
    NotParsed { text: String, linecol: LineCol, expect: Vec<String> },
    /// The grammar accepted the text, but its tree is not one over the text, or a node
    /// lacks a part that its rule promises.
    Malformed { text: String },
}

/// Whether `data` is what the server holds of a document with the text `text`, given what
/// the parser made of the text.
pub open spec fn built_from(
    data: DocumentData,
    parsed: Result<Cst, ParseFailure>,
    text: Seq<char>,
    url: Seq<char>,
    dir: Option<Seq<char>>,
    home: Option<Seq<char>>,
    files: Seq<SourceFile>,
) -> bool {
    match parsed {
        Ok(tree) => match environment_model(tree, text, url, dir, home, files) {
            Some(expected) => {
                &&& data matches DocumentData::Parsed { program_text, environment }
                &&& program_text.text@ == text
                &&& program_text.cst == tree
                &&& environment@ == expected
            },
            None => data matches DocumentData::Malformed { text: held } && held@ == text,
        },
        Err(ParseFailure::Syntax { location, expected }) => {
            &&& data matches DocumentData::NotParsed { text: held, linecol, expect }
            &&& held@ == text
            &&& linecol == location
            &&& expect == expected
        },
        Err(ParseFailure::Malformed) => data matches DocumentData::Malformed { text: held }
            && held@ == text,
    }
}

/// The module that a node opens for what stands in it: a binding `open M in ..` opens `M`.
pub open spec fn bound_open(node: Cst, text: Seq<char>) -> Option<Seq<char>> {
    if node.rule == Rule::bind_stmt && node.inner@.len() >= 1 && node.inner@[0].rule
        == Rule::open_stmt && node.inner@[0].inner@.len() >= 1 {
        Some(text_of(text, node.inner@[0].inner@[0].span))
    } else {
        None
    }
}

/// Of each node the module that it opens for what stands in it.
pub open spec fn bound_open_items(chain: Seq<Cst>, text: Seq<char>) -> Seq<Option<Seq<char>>> {
    Seq::new(chain.len(), |i: int| bound_open(chain[i], text))
}

/// The module that an `open` statement opens at `pos`.
pub open spec fn scoped_open(module: OpenModuleView, pos: int) -> Option<Seq<char>> {
    if module.scope.holds(pos) {
        Some(module.name)
    } else {
        None
    }
}

/// Of each `open` statement the module that it opens at `pos`.
pub open spec fn scoped_open_items(modules: Seq<OpenModuleView>, pos: int) -> Seq<
    Option<Seq<char>>,
> {
    Seq::new(modules.len(), |i: int| scoped_open(modules[i], pos))
}

/// The modules that are open at `pos`: those that the bindings around `pos` open, the
/// innermost first, then those that the `open` statements at the top of the package open
/// there.
pub open spec fn open_names(tree: Cst, text: Seq<char>, environment: EnvironmentView, pos: int) -> Seq<
    Seq<char>,
> {
    present_all(bound_open_items(tree.dug(pos), text)) + present_all(
        scoped_open_items(environment.open_modules, pos),
    )
}

/// The module that a node qualifies what stands in it with: `M.( .. )` names `M`.
pub open spec fn localized(node: Cst, text: Seq<char>) -> Option<Seq<char>> {
    if node.rule == Rule::expr_with_mod {
        match first_child(node, Rule::module_name) {
            Some(i) => Some(text_of(text, node.inner@[i].span)),
            None => None,
        }
    } else {
        None
    }
}

/// Of each node the module that it qualifies what stands in it with.
pub open spec fn localized_items(chain: Seq<Cst>, text: Seq<char>) -> Seq<Option<Seq<char>>> {
    Seq::new(chain.len(), |i: int| localized(chain[i], text))
}

/// The modules that the expressions `M.( .. )` around `pos` name, the innermost first.
pub open spec fn localized_names(tree: Cst, text: Seq<char>, pos: int) -> Seq<Seq<char>> {
    present_all(localized_items(tree.dug(pos), text))
}

/// Whether `data` is what the server holds of a document with the text `text`. The
/// grammar decides whether the text is parsed; where it is, the tree is the one that the
/// grammar lists, and the environment the one of that tree.
pub open spec fn document_of(
    data: DocumentData,
    text: Seq<char>,
    url: Seq<char>,
    dir: Option<Seq<char>>,
    home: Option<Seq<char>>,
    files: Seq<SourceFile>,
) -> bool {
    &&& data.held_text() == text
    &&& data is NotParsed <==> program_nodes(text) is None
    &&& data matches DocumentData::NotParsed { linecol, .. } ==> Some(linecol) == failure_place(
        program_answer(text),
    )
    &&& !accepted(program_nodes(text), text) ==> !(data is Parsed)
    &&& data is Malformed && accepted(program_nodes(text), text) ==> exists|tree: Cst|
        Some(#[trigger] tree.listed()) == program_nodes(text) && environment_model(
            tree,
            text,
            url,
            dir,
            home,
            files,
        ) is None
    &&& data matches DocumentData::Parsed { program_text, environment } ==> {
        &&& Some(program_text.cst.listed()) == program_nodes(text)
        &&& Some(environment@) == environment_model(
            program_text.cst,
            text,
            url,
            dir,
            home,
            files,
        )
    }
}

impl DocumentData {
    /// What the server holds of a document, given what the parser made of its text.
    pub fn from_parsed(
        text: &str,
        url: &str,
        dir: Option<&str>,
        packages: &Packages,
        parsed: Result<Cst, ParseFailure>,
    ) -> (data: DocumentData)
        ensures
            built_from(
                data,
                parsed,
                text@,
                url@,
                text_view(dir),
                string_view(packages.home),
                packages.files@,
            ),
    {
        match parsed {
            Ok(tree) => {
                let program_text = ProgramText { text: text.to_owned(), cst: tree };
                match Environment::from_program(&program_text, url, dir, packages) {
                    Some(environment) => DocumentData::Parsed { program_text, environment },
                    None => DocumentData::Malformed { text: program_text.text },
                }
            },
            Err(ParseFailure::Syntax { location, expected }) => DocumentData::NotParsed {
                text: text.to_owned(),
                linecol: location,
                expect: expected,
            },
            Err(ParseFailure::Malformed) => DocumentData::Malformed { text: text.to_owned() },
        }
    }

    /// What the server holds of a document with the text `text`: the text is parsed as a
    /// whole program, and its environment built from the tree.
    pub fn new(text: &str, url: &str, dir: Option<&str>, packages: &Packages) -> (data:
        DocumentData)
        ensures
            document_of(
                data,
                text@,
                url@,
                text_view(dir),
                string_view(packages.home),
                packages.files@,
            ),
    {
        let parsed = SatysfiParser::parse_program(text);
        let ghost outcome = parsed;
        let data = DocumentData::from_parsed(text, url, dir, packages, parsed);
        proof {
            if data is Malformed && accepted(program_nodes(text@), text@) {
                let tree = outcome->Ok_0;
                assert(Some(tree.listed()) == program_nodes(text@));
            }
        }
        data
    }

    /// The text of the document.
    pub open spec fn held_text(&self) -> Seq<char> {
        match self {
            DocumentData::Parsed { program_text, .. } => program_text.text@,
            DocumentData::NotParsed { text, .. } => text@,
            DocumentData::Malformed { text } => text@,
        }
    }

    /// The text of the document.
    pub fn text(&self) -> (text: &str)
        ensures
            text@ == self.held_text(),
    {
        match self {
            DocumentData::Parsed { program_text, .. } => program_text.text.as_str(),
            DocumentData::NotParsed { text, .. } => text.as_str(),
            DocumentData::Malformed { text } => text.as_str(),
        }
    }

    /// The names of the modules that are open at `pos`.
    pub fn get_open_modules(&self, pos: usize) -> (names: Vec<String>)
        ensures
            strings(names@) == match *self {
                DocumentData::Parsed { program_text, environment } => open_names(
                    program_text.cst,
                    program_text.text@,
                    environment@,
                    pos as int,
                ),
                _ => Seq::empty(),
            },
    {
        match self {
            DocumentData::Parsed { program_text, environment } => open_modules_at(
                program_text,
                environment,
                pos,
            ),
            _ => {
                let names: Vec<String> = Vec::new();
                proof {
                    assert(strings(names@) =~= Seq::<Seq<char>>::empty());
                }
                names
            },
        }
    }

    /// The names of the modules that the expressions `M.( .. )` around `pos` name.
    pub fn get_localized_modules(&self, pos: usize) -> (names: Vec<String>)
        ensures
            strings(names@) == match *self {
                DocumentData::Parsed { program_text, .. } => localized_names(
                    program_text.cst,
                    program_text.text@,
                    pos as int,
                ),
                _ => Seq::empty(),
            },
    {
        match self {
            DocumentData::Parsed { program_text, .. } => localized_modules_at(program_text, pos),
            _ => {
                let names: Vec<String> = Vec::new();
                proof {
                    assert(strings(names@) =~= Seq::<Seq<char>>::empty());
                }
                names
            },
        }
    }
}

/// The names of the modules that are open at `pos` of a document.
pub fn open_modules_at(program_text: &ProgramText, environment: &Environment, pos: usize) -> (names:
    Vec<String>)
    ensures
        strings(names@) == open_names(
            program_text.cst,
            program_text.text@,
            environment@,
            pos as int,
        ),
{
    let mut names: Vec<String> = Vec::new();
    let text = program_text.text.as_str();
    let chain = program_text.cst.dig(pos);
    let ghost bound = bound_open_items(values(chain@), text@);
    let mut k: usize = 0;
    while k < chain.len()
        invariant
            0 <= k <= chain@.len(),
            bound == bound_open_items(values(chain@), text@),
            strings(names@) =~= present(bound, k as nat),
        decreases chain@.len() - k,
    {
        let node = chain[k];
        proof {
            assert(values(chain@)[k as int] == *node);
        }
        if node.rule == Rule::bind_stmt && node.inner.len() >= 1 && node.inner[0].rule
            == Rule::open_stmt && node.inner[0].inner.len() >= 1 {
            let name = get_text(text, node.inner[0].inner[0].span).to_owned();
            proof {
                assert(strings(names@.push(name)) =~= strings(names@).push(name@));
            }
            names.push(name);
        }
        k = k + 1;
    }
    let ghost first = strings(names@);
    let ghost scoped = scoped_open_items(environment@.open_modules, pos as int);
    let mut j: usize = 0;
    while j < environment.open_modules.len()
        invariant
            0 <= j <= environment.open_modules@.len(),
            scoped == scoped_open_items(environment@.open_modules, pos as int),
            strings(names@) =~= first + present(scoped, j as nat),
        decreases environment.open_modules@.len() - j,
    {
        let module = &environment.open_modules[j];
        proof {
            assert(environment@.open_modules[j as int] == module@);
        }
        if module.scope.includes(pos) {
            let name = module.name.clone();
            proof {
                assert(strings(names@.push(name)) =~= strings(names@).push(name@));
            }
            names.push(name);
        }
        j = j + 1;
    }
    names
}

/// The names of the modules that the expressions `M.( .. )` around `pos` of a document
/// name.
pub fn localized_modules_at(program_text: &ProgramText, pos: usize) -> (names: Vec<String>)
    ensures
        strings(names@) == localized_names(program_text.cst, program_text.text@, pos as int),
{
    let mut names: Vec<String> = Vec::new();
    let text = program_text.text.as_str();
    let chain = program_text.cst.dig(pos);
    let ghost items = localized_items(values(chain@), text@);
    let mut k: usize = 0;
    while k < chain.len()
        invariant
            0 <= k <= chain@.len(),
            items == localized_items(values(chain@), text@),
            strings(names@) =~= present(items, k as nat),
        decreases chain@.len() - k,
    {
        let node = chain[k];
        proof {
            assert(values(chain@)[k as int] == *node);
        }
        if node.rule == Rule::expr_with_mod {
            match find_child(node, Rule::module_name) {
                Some(module) => {
                    let name = get_text(text, module.span).to_owned();
                    proof {
                        assert(strings(names@.push(name)) =~= strings(names@).push(name@));
                    }
                    names.push(name);
                },
                None => {},
            }
        }
        k = k + 1;
    }
    names
}

} // verus!
