//! The documents that the header of a document names.

use crate::documents::{
    Packages, SourceFile, as_text, candidate_roots, concat_options, import_candidate_paths,
    import_paths, lemma_concat_missing, lemma_concat_step, package_paths, require_candidate_paths,
    string_view, strings, text_view,
};
use crate::parser::{Cst, Span, get_text, text_of};
use crate::search::{first_of, first_where, lemma_first_where_stays};
use crate::text::same_text;
use satysfi_parser::Rule;
use vstd::prelude::*;
use vstd::string::*;

verus! {

/// How a document names another one in its header.
#[derive(Debug, Clone, Copy, PartialEq, Eq, Structural)]
pub enum DependencyKind {
    /// `@require:` names an installed package.
    Require,
    /// `@import:` names a file beside the document.
    Import,
}

/// A document that the header of another one names.
#[derive(Debug)]
pub struct Dependency {
    /// The name of the package, as the header writes it.
    pub name: String,
    /// Whether the header requires or imports it.
    pub kind: DependencyKind,
    /// Where the header names it.
    pub definition: Span,
    /// The document of the package, where its file was found.
    pub url: Option<String>,
}

/// What a dependency holds, with its texts as sequences of characters.
pub ghost struct DependencyView {
    pub name: Seq<char>,
    pub kind: DependencyKind,
    pub definition: Span,
    pub url: Option<Seq<char>>,
}

impl View for Dependency {
    type V = DependencyView;

    open spec fn view(&self) -> DependencyView {
        DependencyView {
            name: self.name@,
            kind: self.kind,
            definition: self.definition,
            url: string_view(self.url),
        }
    }
}

/// The views of a list of dependencies.
pub open spec fn dependency_models(list: Seq<Dependency>) -> Seq<DependencyView> {
    list.map_values(|d: Dependency| d@)
}

/// Whether a file lies at `path`.
pub open spec fn has_path(path: Seq<char>) -> spec_fn(SourceFile) -> bool {
    |file: SourceFile| file.path@ == path
}

/// Whether a file is the document `url`.
pub open spec fn has_url(url: Seq<char>) -> spec_fn(SourceFile) -> bool {
    |file: SourceFile| file.url@ == url
}

/// Whether some file lies at a path.
pub open spec fn exists_in(files: Seq<SourceFile>) -> spec_fn(Seq<char>) -> bool {
    |path: Seq<char>| first_of(files, has_path(path)) is Some
}

/// The file that a search along `candidates` finds: the first file at the first of the
/// paths at which there is one.
pub open spec fn resolved(candidates: Seq<Seq<char>>, files: Seq<SourceFile>) -> Option<int> {
    match first_of(candidates, exists_in(files)) {
        Some(c) => first_of(files, has_path(candidates[c])),
        None => None,
    }
}

/// The first file at `path`.
pub fn find_file(files: &Vec<SourceFile>, path: &str) -> (found: Option<usize>)
    ensures
        found matches Some(i) ==> first_of(files@, has_path(path@)) == Some(i as int) && i
            < files@.len(),
        found is None ==> first_of(files@, has_path(path@)) is None,
{
    let mut k: usize = 0;
    while k < files.len()
        invariant
            0 <= k <= files@.len(),
            first_where(files@, has_path(path@), k as nat) is None,
        decreases files@.len() - k,
    {
        if same_text(files[k].path.as_str(), path) {
            proof {
                lemma_first_where_stays(files@, has_path(path@), (k + 1) as nat, files@.len());
            }
            return Some(k);
        }
        k = k + 1;
    }
    None
}

/// The first file that is the document `url`.
pub fn find_document_file(files: &Vec<SourceFile>, url: &str) -> (found: Option<usize>)
    ensures
        found matches Some(i) ==> first_of(files@, has_url(url@)) == Some(i as int) && i
            < files@.len(),
        found is None ==> first_of(files@, has_url(url@)) is None,
{
    let mut k: usize = 0;
    while k < files.len()
        invariant
            0 <= k <= files@.len(),
            first_where(files@, has_url(url@), k as nat) is None,
        decreases files@.len() - k,
    {
        if same_text(files[k].url.as_str(), url) {
            proof {
                lemma_first_where_stays(files@, has_url(url@), (k + 1) as nat, files@.len());
            }
            return Some(k);
        }
        k = k + 1;
    }
    None
}

/// The file that a search along `candidates` finds.
pub fn resolve(candidates: &Vec<String>, files: &Vec<SourceFile>) -> (found: Option<usize>)
    ensures
        found matches Some(i) ==> resolved(strings(candidates@), files@) == Some(i as int) && i
            < files@.len(),
        found is None ==> resolved(strings(candidates@), files@) is None,
{
    let ghost paths = strings(candidates@);
    let mut k: usize = 0;
    while k < candidates.len()
        invariant
            0 <= k <= candidates@.len(),
            paths == strings(candidates@),
            first_where(paths, exists_in(files@), k as nat) is None,
        decreases candidates@.len() - k,
    {
        let found = find_file(files, candidates[k].as_str());
        proof {
            assert(paths[k as int] == candidates@[k as int]@);
        }
        if found.is_some() {
            proof {
                lemma_first_where_stays(paths, exists_in(files@), (k + 1) as nat, paths.len());
            }
            return found;
        }
        k = k + 1;
    }
    None
}

/// The rule of a header line of each kind.
pub open spec fn header_rule(kind: DependencyKind) -> Rule {
    match kind {
        DependencyKind::Require => Rule::header_require,
        DependencyKind::Import => Rule::header_import,
    }
}

/// The document that a search along `candidates` finds.
pub open spec fn found_url(candidates: Seq<Seq<char>>, files: Seq<SourceFile>) -> Option<
    Seq<char>,
> {
    match resolved(candidates, files) {
        Some(i) => Some(files[i].url@),
        None => None,
    }
}

/// What one line of a header adds to the dependencies of kind `kind`. A required package
/// is looked for in the package directories, an imported file beside the document; a
/// document without a directory imports nothing.
pub open spec fn header_item(
    header: Cst,
    kind: DependencyKind,
    text: Seq<char>,
    dir: Option<Seq<char>>,
    home: Option<Seq<char>>,
    files: Seq<SourceFile>,
) -> Option<Seq<DependencyView>> {
    if header.rule == header_rule(kind) {
        if header.inner@.len() >= 1 {
            let name = text_of(text, header.inner@[0].span);
            let definition = header.inner@[0].span;
            match kind {
                DependencyKind::Require => Some(
                    seq![
                        DependencyView {
                            name,
                            kind,
                            definition,
                            url: found_url(package_paths(name, candidate_roots(dir, home)), files),
                        },
                    ],
                ),
                DependencyKind::Import => match dir {
                    Some(dir) => Some(
                        seq![
                            DependencyView {
                                name,
                                kind,
                                definition,
                                url: found_url(import_paths(name, dir), files),
                            },
                        ],
                    ),
                    None => Some(Seq::empty()),
                },
            }
        } else {
            None
        }
    } else {
        Some(Seq::empty())
    }
}

/// What each line of a header adds to the dependencies of kind `kind`.
pub open spec fn header_items(
    headers: Cst,
    kind: DependencyKind,
    text: Seq<char>,
    dir: Option<Seq<char>>,
    home: Option<Seq<char>>,
    files: Seq<SourceFile>,
) -> Seq<Option<Seq<DependencyView>>> {
    Seq::new(
        headers.inner@.len(),
        |j: int| header_item(headers.inner@[j], kind, text, dir, home, files),
    )
}

/// The dependencies that a header declares: the required packages, then the imported
/// files, each in the order of the text.
pub open spec fn header_models(
    headers: Cst,
    text: Seq<char>,
    dir: Option<Seq<char>>,
    home: Option<Seq<char>>,
    files: Seq<SourceFile>,
) -> Option<Seq<DependencyView>> {
    match (
        concat_options(header_items(headers, DependencyKind::Require, text, dir, home, files)),
        concat_options(header_items(headers, DependencyKind::Import, text, dir, home, files)),
    ) {
        (Some(required), Some(imported)) => Some(required + imported),
        _ => None,
    }
}

impl Dependency {
    /// The dependencies of one kind that a header declares.
    pub fn of_kind(
        headers: &Cst,
        kind: DependencyKind,
        text: &str,
        dir: Option<&str>,
        packages: &Packages,
    ) -> (list: Option<Vec<Dependency>>)
        ensures
            match concat_options(
                header_items(
                    *headers,
                    kind,
                    text@,
                    text_view(dir),
                    string_view(packages.home),
                    packages.files@,
                ),
            ) {
                Some(expected) => list matches Some(l) && dependency_models(l@) == expected,
                None => list is None,
            },
    {
        let rule = match kind {
            DependencyKind::Require => Rule::header_require,
            DependencyKind::Import => Rule::header_import,
        };
        let home = as_text(&packages.home);
        let ghost items = header_items(
            *headers,
            kind,
            text@,
            text_view(dir),
            string_view(packages.home),
            packages.files@,
        );
        let mut list: Vec<Dependency> = Vec::new();
        let mut k: usize = 0;
        while k < headers.inner.len()
            invariant
                0 <= k <= headers.inner@.len(),
                rule == header_rule(kind),
                text_view(home) == string_view(packages.home),
                items == header_items(
                    *headers,
                    kind,
                    text@,
                    text_view(dir),
                    string_view(packages.home),
                    packages.files@,
                ),
                concat_options(items.take(k as int)) == Some(dependency_models(list@)),
            decreases headers.inner@.len() - k,
        {
            let header = &headers.inner[k];
            proof {
                lemma_concat_step(items, k as int);
                assert(dependency_models(list@) + Seq::<DependencyView>::empty()
                    =~= dependency_models(list@));
            }
            if header.rule == rule {
                if header.inner.len() < 1 {
                    proof {
                        lemma_concat_missing(items, k + 1);
                    }
                    return None;
                }
                let name = get_text(text, header.inner[0].span);
                let candidates = match kind {
                    DependencyKind::Require => Some(require_candidate_paths(name, dir, home)),
                    DependencyKind::Import => match dir {
                        Some(dir) => Some(import_candidate_paths(name, dir)),
                        None => None,
                    },
                };
                match candidates {
                    Some(candidates) => {
                        let found = resolve(&candidates, &packages.files);
                        let url = match found {
                            Some(i) => Some(packages.files[i].url.clone()),
                            None => None,
                        };

                        let dependency = Dependency {
                            name: name.to_owned(),
                            kind,
                            definition: header.inner[0].span,
                            url,
                        };
                        proof {
                            assert(dependency_models(list@.push(dependency)) =~= dependency_models(
                                list@,
                            ) + seq![dependency@]);
                        }
                        list.push(dependency);
                    },
                    None => {},
                }
            }
            k = k + 1;
        }
        proof {
            assert(items.take(k as int) =~= items);
        }
        Some(list)
    }

    /// The dependencies that a header declares.
    pub fn from_header(headers: &Cst, text: &str, dir: Option<&str>, packages: &Packages) -> (list:
        Option<Vec<Dependency>>)
        ensures
            match header_models(
                *headers,
                text@,
                text_view(dir),
                string_view(packages.home),
                packages.files@,
            ) {
                Some(expected) => list matches Some(l) && dependency_models(l@) == expected,
                None => list is None,
            },
    {
        let mut required = match Dependency::of_kind(
            headers,
            DependencyKind::Require,
            text,
            dir,
            packages,
        ) {
            Some(list) => list,
            None => {
                return None;
            },
        };
        let mut imported = match Dependency::of_kind(
            headers,
            DependencyKind::Import,
            text,
            dir,
            packages,
        ) {
            Some(list) => list,
            None => {
                return None;
            },
        };
        proof {
            assert(dependency_models(required@ + imported@) =~= dependency_models(required@)
                + dependency_models(imported@));
        }
        required.append(&mut imported);
        Some(required)
    }
}

impl Dependency {
    /// A copy of the dependency.
    pub fn duplicate(&self) -> (copy: Dependency)
        ensures
            copy@ == self@,
    {
        Dependency {
            name: self.name.clone(),
            kind: self.kind,
            definition: self.definition,
            url: match &self.url {
                Some(url) => Some(url.clone()),
                None => None,
            },
        }
    }

    /// A copy of a list of dependencies.
    pub fn duplicate_all(list: &Vec<Dependency>) -> (copy: Vec<Dependency>)
        ensures
            dependency_models(copy@) == dependency_models(list@),
    {
        let mut copy: Vec<Dependency> = Vec::new();
        let mut k: usize = 0;
        while k < list.len()
            invariant
                0 <= k <= list@.len(),
                dependency_models(copy@) =~= dependency_models(list@).take(k as int),
            decreases list@.len() - k,
        {
            let item = list[k].duplicate();
            proof {
                let all = dependency_models(list@);
                assert(all.take(k + 1) =~= all.take(k as int).push(item@));
                assert(dependency_models(copy@.push(item)) =~= dependency_models(copy@).push(item@));
            }
            copy.push(item);
            k = k + 1;
        }
        copy
    }
}

} // verus!
