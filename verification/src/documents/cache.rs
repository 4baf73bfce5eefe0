//! The documents that the server knows.

use crate::documents::{
    Dependency, DependencyView, DocumentData, Environment, Packages, ProgramText, SourceFile,
    as_text, dependency_models, document_of, find_document_file, has_url, parent_dir, parent_of,
    string_view, text_view,
};
use crate::parser::{Span, get_text, text_of};
use crate::position::{
    Position, line_of, line_text, offset_at, position_to_offset, whole_line, whole_line_of,
};
use crate::search::{
    first_of, first_where, lemma_first_of_at, lemma_first_where, lemma_first_where_stays,
};
use crate::text::same_text;
use crate::util::UrlPos;
use vstd::prelude::*;
use vstd::string::*;
use vstd::utf8::*;

verus! {

/// A document that the server knows, under its name.
#[derive(Debug)]
pub struct Document {
    /// The name of the document.
    pub url: String,
    /// The directory of its file, where it has one.
    pub dir: Option<String>,
    /// What the server holds of it.
    pub data: DocumentData,
}

/// The documents that the server knows. Where two of them have the same name, the first
/// one counts.
#[derive(Debug)]
pub struct DocumentCache {
    pub docs: Vec<Document>,
}

/// Whether a document goes by the name `url`.
pub open spec fn is_url(url: Seq<char>) -> spec_fn(Document) -> bool {
    |document: Document| document.url@ == url
}

/// Whether the documents hold one by the name `url`.
pub open spec fn known(docs: Seq<Document>, url: Seq<char>) -> bool {
    first_of(docs, is_url(url)) is Some
}

/// What the documents hold under the name `url`.
pub open spec fn data_at(docs: Seq<Document>, url: Seq<char>) -> Option<DocumentData> {
    match first_of(docs, is_url(url)) {
        Some(i) => Some(docs[i].data),
        None => None,
    }
}

impl Default for DocumentCache {
    fn default() -> (cache: Self)
        ensures
            cache.docs@.len() == 0,
    {
        DocumentCache { docs: Vec::new() }
    }
}

/// The line of a cursor, as far as the cache knows it: of a document that the grammar
/// accepted the line with its line end, where the cursor stands at a place of the text;
/// of another document the line without its line end.
pub open spec fn line_at(docs: Seq<Document>, url: Seq<char>, pos: Position) -> Option<Seq<char>> {
    match data_at(docs, url) {
        Some(data) => if data is Parsed {
            if offset_at(encode_utf8(data.held_text()), pos) is None {
                None
            } else {
                whole_line(data.held_text(), pos.line as nat)
            }
        } else {
            line_text(data.held_text(), pos.line as nat)
        },
        None => None,
    }
}

impl DocumentCache {
    /// A cache without documents.
    pub fn new() -> (cache: Self)
        ensures
            cache.docs@.len() == 0,
    {
        DocumentCache { docs: Vec::new() }
    }

    /// Where the document `url` stands in the cache.
    pub fn find(&self, url: &str) -> (found: Option<usize>)
        ensures
            found matches Some(i) ==> first_of(self.docs@, is_url(url@)) == Some(i as int) && i
                < self.docs@.len(),
            found is None ==> first_of(self.docs@, is_url(url@)) is None,
    {
        let mut k: usize = 0;
        while k < self.docs.len()
            invariant
                0 <= k <= self.docs@.len(),
                first_where(self.docs@, is_url(url@), k as nat) is None,
            decreases self.docs@.len() - k,
        {
            if same_text(self.docs[k].url.as_str(), url) {
                proof {
                    lemma_first_where_stays(
                        self.docs@,
                        is_url(url@),
                        (k + 1) as nat,
                        self.docs@.len(),
                    );
                }
                return Some(k);
            }
            k = k + 1;
        }
        None
    }

    /// What the cache holds of the document `url`.
    pub fn get(&self, url: &str) -> (data: Option<&DocumentData>)
        ensures
            data is Some <==> known(self.docs@, url@),
            data matches Some(d) ==> data_at(self.docs@, url@) == Some(*d),
    {
        match self.find(url) {
            Some(i) => Some(&self.docs[i].data),
            None => None,
        }
    }

    /// The text and the environment of the document `url`, where the grammar accepted it.
    pub fn get_doc_info(&self, url: &str) -> (info: Option<(&ProgramText, &Environment)>)
        ensures
            match data_at(self.docs@, url@) {
                Some(DocumentData::Parsed { program_text, environment }) => info == Some(
                    (&program_text, &environment),
                ),
                _ => info is None,
            },
    {
        match self.get(url) {
            Some(DocumentData::Parsed { program_text, environment }) => Some(
                (program_text, environment),
            ),
            _ => None,
        }
    }

    /// The text that `span` cuts out of the document `url`, where the grammar accepted
    /// the document.
    pub fn get_text_from_span(&self, url: &str, span: Span) -> (part: Option<&str>)
        ensures
            match data_at(self.docs@, url@) {
                Some(DocumentData::Parsed { program_text, .. }) => part matches Some(p) && p@
                    == text_of(program_text.text@, span),
                _ => part is None,
            },
    {
        match self.get(url) {
            Some(DocumentData::Parsed { program_text, .. }) => Some(
                get_text(program_text.text.as_str(), span),
            ),
            _ => None,
        }
    }

    /// The line of the cursor. In a document that the grammar accepted, the cursor has to
    /// stand at a place of the text, and the line comes with its line end; of another
    /// document the line comes without it.
    pub fn get_line(&self, urlpos: &UrlPos) -> (line: Option<&str>)
        ensures
            text_view(line) == line_at(self.docs@, urlpos.url@, urlpos.pos),
    {
        match self.get(urlpos.url.as_str()) {
            Some(data) => {
                match data {
                    DocumentData::Parsed { program_text, .. } => {
                        if position_to_offset(program_text.text.as_str(), urlpos.pos).is_none() {
                            return None;
                        }
                        whole_line_of(program_text.text.as_str(), urlpos.pos.line as usize)
                    },
                    _ => line_of(data.text(), urlpos.pos.line as usize),
                }
            },
            None => None,
        }
    }

    /// Puts a document into the cache: in the place of the one that goes by the same
    /// name, or behind the others.
    pub fn insert(&mut self, url: String, dir: Option<String>, data: DocumentData)
        ensures
            match first_of(old(self).docs@, is_url(url@)) {
                Some(i) => final(self).docs@ == old(self).docs@.update(
                    i,
                    Document { url, dir, data },
                ),
                None => final(self).docs@ == old(self).docs@.push(Document { url, dir, data }),
            },
    {
        match self.find(url.as_str()) {
            Some(i) => {
                self.docs.set(i, Document { url, dir, data });
            },
            None => {
                self.docs.push(Document { url, dir, data });
            },
        }
    }

    /// The directory of the file of the document `url`.
    pub fn get_dir(&self, url: &str) -> (dir: Option<&str>)
        ensures
            text_view(dir) == match first_of(self.docs@, is_url(url@)) {
                Some(i) => string_view(self.docs@[i].dir),
                None => None,
            },
    {
        match self.find(url) {
            Some(i) => as_text(&self.docs[i].dir),
            None => None,
        }
    }
}

/// Whether `after` holds the documents of `before`, in their places, and maybe more
/// behind them.
pub open spec fn extends(before: Seq<Document>, after: Seq<Document>) -> bool {
    before.len() <= after.len() && after.take(before.len() as int) == before
}

/// Whether nothing is left to load for a dependency: it names no document, its document
/// is known, or no file holds its document.
pub open spec fn dep_settled(docs: Seq<Document>, dep: DependencyView, files: Seq<SourceFile>) -> bool {
    match dep.url {
        Some(url) => known(docs, url) || first_of(files, has_url(url)) is None,
        None => true,
    }
}

/// Whether nothing is left to load for any of `deps`.
pub open spec fn settled(docs: Seq<Document>, deps: Seq<DependencyView>, files: Seq<SourceFile>) -> bool {
    forall|i: int| 0 <= i < deps.len() ==> dep_settled(docs, #[trigger] deps[i], files)
}

/// The number of the first `n` files whose document is not known.
pub open spec fn unloaded(docs: Seq<Document>, files: Seq<SourceFile>, n: nat) -> nat
    decreases n,
{
    if n == 0 || n > files.len() {
        0
    } else {
        unloaded(docs, files, (n - 1) as nat) + if known(docs, files[n - 1].url@) {
            0nat
        } else {
            1nat
        }
    }
}

/// Whether document `j` was loaded from a file: no document before it goes by its name,
/// and it is what the server holds of the first file that does.
pub open spec fn loaded(docs: Seq<Document>, j: int, home: Option<Seq<char>>, files: Seq<SourceFile>) -> bool {
    let document = docs[j];
    &&& !known(docs.take(j), document.url@)
    &&& first_of(files, has_url(document.url@)) matches Some(f) && document_of(
        document.data,
        files[f].text@,
        document.url@,
        parent_of(files[f].path@),
        home,
        files,
    ) && string_view(document.dir) == parent_of(files[f].path@)
}

/// The dependencies of a document that the grammar accepted; none of another one.
pub open spec fn dependencies_of(data: DocumentData) -> Seq<DependencyView> {
    match data {
        DocumentData::Parsed { environment, .. } => environment@.dependencies,
        _ => Seq::empty(),
    }
}

/// Whether every document from `from` on was loaded from a file, and nothing is left to
/// load for its dependencies.
pub open spec fn all_loaded(
    docs: Seq<Document>,
    from: int,
    home: Option<Seq<char>>,
    files: Seq<SourceFile>,
) -> bool {
    forall|j: int|
        from <= j < docs.len() ==> #[trigger] loaded(docs, j, home, files) && settled(
            docs,
            dependencies_of(docs[j].data),
            files,
        )
}

/// Whether document `j` was called for: one of `deps` names it, or a document that was
/// loaded before it, from `from` on, does.
pub open spec fn called_for(docs: Seq<Document>, from: int, j: int, deps: Seq<DependencyView>) -> bool {
    names_document(deps, docs[j].url@) || exists|i: int|
        from <= i < j && names_document(dependencies_of((#[trigger] docs[i]).data), docs[j].url@)
}

/// Whether every document from `from` on was called for.
pub open spec fn all_called_for(docs: Seq<Document>, from: int, deps: Seq<DependencyView>) -> bool {
    forall|j: int| from <= j < docs.len() ==> #[trigger] called_for(docs, from, j, deps)
}

/// What registering `deps` makes of the documents `before`: the documents stay, and
/// behind them stand those that had to be loaded, and no others. Nothing is left to load
/// for `deps`, nor for the dependencies of what was loaded; where nothing was left to
/// load for `deps` before, nothing changes.
pub open spec fn registered(
    before: Seq<Document>,
    deps: Seq<DependencyView>,
    home: Option<Seq<char>>,
    files: Seq<SourceFile>,
    after: Seq<Document>,
) -> bool {
    &&& extends(before, after)
    &&& settled(after, deps, files)
    &&& all_loaded(after, before.len() as int, home, files)
    &&& all_called_for(after, before.len() as int, deps)
    &&& settled(before, deps, files) ==> after == before
}

/// A document that is known stays known, and the same, where more documents come behind.
pub proof fn lemma_known_extends(before: Seq<Document>, after: Seq<Document>, url: Seq<char>)
    requires
        extends(before, after),
        known(before, url),
    ensures
        known(after, url),
        first_of(after, is_url(url)) == first_of(before, is_url(url)),
        data_at(after, url) == data_at(before, url),
{
    lemma_first_where(before, is_url(url), before.len());
    let i = first_of(before, is_url(url))->0;
    assert forall|j: int| 0 <= j <= i implies after[j] == before[j] by {
        assert(after.take(before.len() as int)[j] == after[j]);
    }
    lemma_first_of_at(after, is_url(url), i);
}

/// Where more documents come behind, nothing that was settled is left to load.
pub proof fn lemma_settled_extends(
    before: Seq<Document>,
    after: Seq<Document>,
    deps: Seq<DependencyView>,
    files: Seq<SourceFile>,
)
    requires
        extends(before, after),
        settled(before, deps, files),
    ensures
        settled(after, deps, files),
{
    assert forall|i: int| 0 <= i < deps.len() implies dep_settled(
        after,
        #[trigger] deps[i],
        files,
    ) by {
        assert(dep_settled(before, deps[i], files));
        match deps[i].url {
            Some(url) => {
                if known(before, url) {
                    lemma_known_extends(before, after, url);
                }
            },
            None => {},
        }
    }
}

/// Where more documents come behind, no more files are left to load.
pub proof fn lemma_unloaded_extends(
    before: Seq<Document>,
    after: Seq<Document>,
    files: Seq<SourceFile>,
    n: nat,
)
    requires
        extends(before, after),
        n <= files.len(),
    ensures
        unloaded(after, files, n) <= unloaded(before, files, n),
    decreases n,
{
    if n > 0 {
        lemma_unloaded_extends(before, after, files, (n - 1) as nat);
        if known(before, files[n - 1].url@) {
            lemma_known_extends(before, after, files[n - 1].url@);
        }
    }
}

/// Where the document of a file comes behind, fewer files are left to load.
pub proof fn lemma_unloaded_drops(
    before: Seq<Document>,
    after: Seq<Document>,
    files: Seq<SourceFile>,
    n: nat,
    f: int,
)
    requires
        extends(before, after),
        0 <= f < n <= files.len(),
        !known(before, files[f].url@),
        known(after, files[f].url@),
    ensures
        unloaded(after, files, n) < unloaded(before, files, n),
    decreases n,
{
    if f == n - 1 {
        lemma_unloaded_extends(before, after, files, (n - 1) as nat);
    } else {
        lemma_unloaded_drops(before, after, files, (n - 1) as nat, f);
        if known(before, files[n - 1].url@) {
            lemma_known_extends(before, after, files[n - 1].url@);
        }
    }
}

/// A document that comes behind the others under a new name is known from then on.
pub proof fn lemma_known_pushed(docs: Seq<Document>, document: Document)
    requires
        !known(docs, document.url@),
    ensures
        known(docs.push(document), document.url@),
        extends(docs, docs.push(document)),
        first_of(docs.push(document), is_url(document.url@)) == Some(docs.len() as int),
{
    lemma_first_where(docs, is_url(document.url@), docs.len());
    let after = docs.push(document);
    assert forall|j: int| 0 <= j < docs.len() implies !is_url(document.url@)(
        #[trigger] after[j],
    ) by {
        assert(after[j] == docs[j]);
    }
    lemma_first_of_at(after, is_url(document.url@), docs.len() as int);
    assert(after.take(docs.len() as int) =~= docs);
}

impl DocumentCache {
    /// Loads the documents that `deps` name and that the cache does not hold yet, each
    /// from its file, and then the documents that those name in turn. A document that is
    /// held already is neither loaded again nor looked into, so documents that name each
    /// other are loaded once.
    pub fn register_dependencies(&mut self, deps: &Vec<Dependency>, packages: &Packages)
        ensures
            registered(
                old(self).docs@,
                dependency_models(deps@),
                string_view(packages.home),
                packages.files@,
                final(self).docs@,
            ),
        decreases unloaded(old(self).docs@, packages.files@, packages.files@.len()),
    {
        let ghost before = self.docs@;
        let ghost all = dependency_models(deps@);
        let ghost files = packages.files@;
        let ghost home = string_view(packages.home);
        proof {
            assert(before.take(before.len() as int) =~= before);
        }
        let mut k: usize = 0;
        while k < deps.len()
            invariant
                0 <= k <= deps@.len(),
                before == old(self).docs@,
                all == dependency_models(deps@),
                files == packages.files@,
                home == string_view(packages.home),
                extends(before, self.docs@),
                settled(self.docs@, all.take(k as int), files),
                all_loaded(self.docs@, before.len() as int, home, files),
                all_called_for(self.docs@, before.len() as int, all),
                settled(before, all, files) ==> self.docs@ == before,
            decreases deps@.len() - k,
        {
            let ghost here = self.docs@;
            proof {
                assert(all[k as int] == deps@[k as int]@);
            }
            match &deps[k].url {
                Some(url) => {
                    if self.find(url.as_str()).is_none() {
                        match find_document_file(&packages.files, url.as_str()) {
                            Some(f) => {
                                let file = &packages.files[f];
                                let dir = parent_dir(file.path.as_str());
                                let data = DocumentData::new(
                                    file.text.as_str(),
                                    url.as_str(),
                                    as_text(&dir),
                                    packages,
                                );
                                let next = match &data {
                                    DocumentData::Parsed { environment, .. } => Some(
                                        Dependency::duplicate_all(&environment.dependencies),
                                    ),
                                    _ => None,
                                };
                                let ghost below = dependencies_of(data);
                                self.docs.push(Document { url: url.clone(), dir, data });
                                let ghost pushed = self.docs@;
                                proof {
                                    assert(pushed.last().url@ == url@);
                                    lemma_known_pushed(here, pushed.last());
                                    assert(pushed =~= here.push(pushed.last()));
                                    assert(extends(before, pushed)) by {
                                        assert(pushed.take(before.len() as int) =~= here.take(
                                            before.len() as int,
                                        ));
                                    }
                                    lemma_first_where(files, has_url(url@), files.len());
                                    lemma_unloaded_extends(before, here, files, files.len());
                                    lemma_unloaded_drops(here, pushed, files, files.len(), f as int);
                                    assert(!dep_settled(before, all[k as int], files)) by {
                                        if known(before, url@) {
                                            lemma_known_extends(before, here, url@);
                                        }
                                    }
                                }
                                match next {
                                    Some(next) => {
                                        self.register_dependencies(&next, packages);
                                    },
                                    None => {},
                                }
                                proof {
                                    let after = self.docs@;
                                    assert(pushed.take(pushed.len() as int) =~= pushed);
                                    assert(extends(pushed, after));
                                    assert(extends(before, after)) by {
                                        assert(after.take(before.len() as int) =~= pushed.take(
                                            before.len() as int,
                                        ));
                                    }
                                    lemma_known_extends(pushed, after, url@);
                                    assert(extends(here, after)) by {
                                        assert(after.take(here.len() as int) =~= pushed.take(
                                            here.len() as int,
                                        ));
                                    }
                                    lemma_settled_extends(here, after, all.take(k as int), files);
                                    // The new document itself, and those behind it.
                                    assert(after[here.len() as int] == pushed[here.len() as int])
                                        by {
                                        assert(after.take(pushed.len() as int)[here.len() as int]
                                            == after[here.len() as int]);
                                    }
                                    assert(after.take(here.len() as int) =~= here);
                                    assert(loaded(after, here.len() as int, home, files));
                                    assert(settled(
                                        after,
                                        dependencies_of(after[here.len() as int].data),
                                        files,
                                    ));
                                    assert forall|j: int|
                                        before.len() <= j < after.len() implies #[trigger] loaded(
                                        after,
                                        j,
                                        home,
                                        files,
                                    ) && settled(after, dependencies_of(after[j].data), files) by {
                                        if j < here.len() {
                                            assert(loaded(here, j, home, files));
                                            assert(after.take(here.len() as int)[j] == after[j]);
                                            assert(after.take(j) =~= here.take(j));
                                            lemma_settled_extends(
                                                here,
                                                after,
                                                dependencies_of(here[j].data),
                                                files,
                                            );
                                        } else if j > here.len() {
                                            assert(loaded(after, j, home, files));
                                        }
                                    }
                                    assert forall|j: int|
                                        before.len() <= j < after.len() implies #[trigger] called_for(
                                        after,
                                        before.len() as int,
                                        j,
                                        all,
                                    ) by {
                                        if j < here.len() {
                                            assert(called_for(here, before.len() as int, j, all));
                                            assert(after.take(here.len() as int)[j] == after[j]);
                                            if !names_document(all, here[j].url@) {
                                                let i = choose|i: int|
                                                    before.len() <= i < j && names_document(
                                                        dependencies_of((#[trigger] here[i]).data),
                                                        here[j].url@,
                                                    );
                                                assert(after.take(here.len() as int)[i] == after[i]);
                                                assert(names_document(
                                                    dependencies_of(after[i].data),
                                                    after[j].url@,
                                                ));
                                            }
                                        } else if j == here.len() {
                                            assert(all[k as int].url == Some(after[j].url@));
                                        } else {
                                            assert(dependencies_of(after[here.len() as int].data)
                                                == below);
                                            if next is Some {
                                                assert(called_for(
                                                    after,
                                                    pushed.len() as int,
                                                    j,
                                                    dependency_models(next->0@),
                                                ));
                                                if !names_document(below, after[j].url@) {
                                                    let i = choose|i: int|
                                                        pushed.len() <= i < j && names_document(
                                                            dependencies_of(
                                                                (#[trigger] after[i]).data,
                                                            ),
                                                            after[j].url@,
                                                        );
                                                    assert(before.len() <= i < j);
                                                } else {
                                                    assert(names_document(
                                                        dependencies_of(
                                                            after[here.len() as int].data,
                                                        ),
                                                        after[j].url@,
                                                    ));
                                                }
                                            }
                                        }
                                    }
                                }
                            },
                            None => {},
                        }
                    } else {
                        proof {
                            assert(known(here, url@));
                        }
                    }
                },
                None => {},
            }
            proof {
                let after = self.docs@;
                assert(dep_settled(after, all[k as int], files));
                assert forall|i: int| 0 <= i < k + 1 implies dep_settled(
                    after,
                    #[trigger] all.take(k + 1)[i],
                    files,
                ) by {
                    if i < k {
                        assert(all.take(k as int)[i] == all.take(k + 1)[i]);
                    }
                }
            }
            k = k + 1;
        }
        proof {
            assert(all.take(k as int) =~= all);
        }
    }
}

/// Registering the same dependencies a second time changes nothing: what the first time
/// left to load is nothing.
pub proof fn lemma_register_twice(
    before: Seq<Document>,
    deps: Seq<DependencyView>,
    home: Option<Seq<char>>,
    files: Seq<SourceFile>,
    once: Seq<Document>,
    twice: Seq<Document>,
)
    requires
        registered(before, deps, home, files, once),
        registered(once, deps, home, files, twice),
    ensures
        twice == once,
{
}

/// Whether one of `deps` names the document `url`.
pub open spec fn names_document(deps: Seq<DependencyView>, url: Seq<char>) -> bool {
    exists|i: int| 0 <= i < deps.len() && (#[trigger] deps[i]).url == Some(url)
}

/// Whether every document that the server can hold of file `f` names the document `url`
/// among its dependencies.
pub open spec fn file_names(
    files: Seq<SourceFile>,
    f: int,
    home: Option<Seq<char>>,
    url: Seq<char>,
) -> bool {
    forall|data: DocumentData| #[trigger]
        document_of(
            data,
            files[f].text@,
            files[f].url@,
            parent_of(files[f].path@),
            home,
            files,
        ) ==> names_document(dependencies_of(data), url)
}

/// A document that registering had to load is held as the document of its file.
pub proof fn lemma_registered_holds(
    before: Seq<Document>,
    deps: Seq<DependencyView>,
    home: Option<Seq<char>>,
    files: Seq<SourceFile>,
    after: Seq<Document>,
    url: Seq<char>,
)
    requires
        registered(before, deps, home, files, after),
        !known(before, url),
        known(after, url),
    ensures
        first_of(files, has_url(url)) matches Some(f) && document_of(
            data_at(after, url)->0,
            files[f].text@,
            url,
            parent_of(files[f].path@),
            home,
            files,
        ),
        settled(after, dependencies_of(data_at(after, url)->0), files),
{
    lemma_first_where(after, is_url(url), after.len());
    let i = first_of(after, is_url(url))->0;
    if i < before.len() {
        assert(after.take(before.len() as int)[i] == after[i]);
        lemma_first_where(before, is_url(url), before.len());
    }
    assert(loaded(after, i, home, files));
}

/// Two files that name each other: registering a dependency on the first one ends with
/// both documents in the cache, each held as the document of its own file, with the
/// environment of its own text.
pub proof fn lemma_register_cycle(
    before: Seq<Document>,
    deps: Seq<DependencyView>,
    home: Option<Seq<char>>,
    files: Seq<SourceFile>,
    after: Seq<Document>,
    a: int,
    b: int,
)
    requires
        registered(before, deps, home, files, after),
        first_of(files, has_url(files[a].url@)) == Some(a),
        first_of(files, has_url(files[b].url@)) == Some(b),
        file_names(files, a, home, files[b].url@),
        file_names(files, b, home, files[a].url@),
        names_document(deps, files[a].url@),
        !known(before, files[a].url@),
        !known(before, files[b].url@),
    ensures
        known(after, files[a].url@),
        known(after, files[b].url@),
        document_of(
            data_at(after, files[a].url@)->0,
            files[a].text@,
            files[a].url@,
            parent_of(files[a].path@),
            home,
            files,
        ),
        document_of(
            data_at(after, files[b].url@)->0,
            files[b].text@,
            files[b].url@,
            parent_of(files[b].path@),
            home,
            files,
        ),
{
    let ua = files[a].url@;
    let ub = files[b].url@;
    let i = choose|i: int| 0 <= i < deps.len() && (#[trigger] deps[i]).url == Some(ua);
    assert(dep_settled(after, deps[i], files));
    lemma_registered_holds(before, deps, home, files, after, ua);
    let held = data_at(after, ua)->0;
    assert(names_document(dependencies_of(held), ub));
    let j = choose|j: int|
        0 <= j < dependencies_of(held).len() && (#[trigger] dependencies_of(held)[j]).url == Some(
            ub,
        );
    assert(dep_settled(after, dependencies_of(held)[j], files));
    lemma_registered_holds(before, deps, home, files, after, ub);
}

/// Whether one of `found` names the document `url`.
pub open spec fn has_dependency(found: Seq<DependencyView>, url: Seq<char>) -> bool {
    exists|i: int| 0 <= i < found.len() && (#[trigger] found[i]).url == Some(url)
}

/// The dependencies of the document that the cache holds under `url`.
pub open spec fn dependencies_at(docs: Seq<Document>, url: Seq<char>) -> Seq<DependencyView> {
    match data_at(docs, url) {
        Some(data) => dependencies_of(data),
        None => Seq::empty(),
    }
}

/// The dependencies that are reached from the first `n` of `deps`, added to `found`: each
/// dependency that names a document not yet among those found, followed by what is
/// reached from the dependencies of its document. `fuel` bounds how many documents deep
/// the search goes; as many steps as there are documents lose nothing.
pub open spec fn gathered(
    docs: Seq<Document>,
    deps: Seq<DependencyView>,
    n: nat,
    found: Seq<DependencyView>,
    fuel: nat,
) -> Seq<DependencyView>
    decreases fuel, n,
{
    if n == 0 || n > deps.len() {
        found
    } else {
        let before = gathered(docs, deps, (n - 1) as nat, found, fuel);
        let dep = deps[n - 1];
        match dep.url {
            Some(url) => if has_dependency(before, url) {
                before
            } else if fuel == 0 {
                before.push(dep)
            } else {
                let below = dependencies_at(docs, url);
                gathered(docs, below, below.len(), before.push(dep), (fuel - 1) as nat)
            },
            None => before,
        }
    }
}

/// The views of the dependencies that a list of references points to.
pub open spec fn pointed_dependencies(list: Seq<&Dependency>) -> Seq<DependencyView> {
    list.map_values(|d: &Dependency| d@)
}

/// Whether one of `found` names the document `url`.
pub fn names(found: &Vec<&Dependency>, url: &str) -> (named: bool)
    ensures
        named == has_dependency(pointed_dependencies(found@), url@),
{
    let mut k: usize = 0;
    while k < found.len()
        invariant
            0 <= k <= found@.len(),
            forall|i: int| 0 <= i < k ==> pointed_dependencies(found@)[i].url != Some(url@),
        decreases found@.len() - k,
    {
        match &found[k].url {
            Some(other) => {
                if same_text(other.as_str(), url) {
                    proof {
                        assert(pointed_dependencies(found@)[k as int].url == Some(url@));
                    }
                    return true;
                }
            },
            None => {},
        }
        k = k + 1;
    }
    false
}

impl DocumentCache {
    /// Adds to `found` the dependencies that are reached from `deps`.
    pub fn gather<'a>(
        &'a self,
        deps: &'a Vec<Dependency>,
        found: &mut Vec<&'a Dependency>,
        fuel: usize,
    )
        ensures
            pointed_dependencies(final(found)@) == gathered(
                self.docs@,
                dependency_models(deps@),
                deps@.len(),
                pointed_dependencies(old(found)@),
                fuel as nat,
            ),
        decreases fuel,
    {
        let ghost all = dependency_models(deps@);
        let ghost start = pointed_dependencies(found@);
        let mut k: usize = 0;
        while k < deps.len()
            invariant
                0 <= k <= deps@.len(),
                all == dependency_models(deps@),
                pointed_dependencies(found@) == gathered(
                    self.docs@,
                    all,
                    k as nat,
                    start,
                    fuel as nat,
                ),
            decreases deps@.len() - k,
        {
            let dep = &deps[k];
            proof {
                assert(all[k as int] == dep@);
            }
            match &dep.url {
                Some(url) => {
                    if !names(found, url.as_str()) {
                        proof {
                            assert(pointed_dependencies(found@.push(dep)) =~= pointed_dependencies(
                                found@,
                            ).push(dep@));
                        }
                        found.push(dep);
                        let ghost pushed = pointed_dependencies(found@);
                        if fuel > 0 {
                            match self.get(url.as_str()) {
                                Some(DocumentData::Parsed { environment, .. }) => {
                                    proof {
                                        assert(dependencies_at(self.docs@, url@)
                                            == dependency_models(environment.dependencies@));
                                    }
                                    self.gather(&environment.dependencies, found, fuel - 1);
                                },
                                _ => {
                                    proof {
                                        let below = dependencies_at(self.docs@, url@);
                                        assert(below.len() == 0);
                                        assert(gathered(
                                            self.docs@,
                                            below,
                                            0,
                                            pushed,
                                            (fuel - 1) as nat,
                                        ) == pushed);
                                    }
                                },
                            }
                        }
                    }
                },
                None => {},
            }
            k = k + 1;
        }
    }

    /// The dependencies that are reached from `deps` through the documents of the cache,
    /// each document once: a dependency comes before those of its document.
    pub fn get_dependencies_recursive<'a>(&'a self, deps: &'a Vec<Dependency>) -> (found: Vec<
        &'a Dependency,
    >)
        ensures
            pointed_dependencies(found@) == gathered(
                self.docs@,
                dependency_models(deps@),
                deps@.len(),
                Seq::empty(),
                self.docs@.len(),
            ),
    {
        let mut found: Vec<&'a Dependency> = Vec::new();
        proof {
            assert(pointed_dependencies(found@) =~= Seq::<DependencyView>::empty());
        }
        self.gather(deps, &mut found, self.docs.len());
        found
    }
}

/// The documents with one more: in the place of the one that goes by the same name, or
/// behind the others.
pub open spec fn inserted(docs: Seq<Document>, document: Document) -> Seq<Document> {
    match first_of(docs, is_url(document.url@)) {
        Some(i) => docs.update(i, document),
        None => docs.push(document),
    }
}

/// Whether `after` is what opening or changing a document makes of the documents
/// `before`: the text is parsed and its environment built, the dependencies of the
/// document are registered, and then the document is put into the cache.
pub open spec fn updated(
    before: Seq<Document>,
    url: Seq<char>,
    path: Option<Seq<char>>,
    text: Seq<char>,
    home: Option<Seq<char>>,
    files: Seq<SourceFile>,
    after: Seq<Document>,
) -> bool {
    exists|document: Document, between: Seq<Document>|
        {
            &&& document.url@ == url
            &&& string_view(document.dir) == directory_of(path)
            &&& document_of(document.data, text, url, directory_of(path), home, files)
            &&& registered(before, dependencies_of(document.data), home, files, between)
            &&& after == #[trigger] inserted(between, document)
        }
}

/// The directory of a document with the path `path`.
pub open spec fn directory_of(path: Option<Seq<char>>) -> Option<Seq<char>> {
    match path {
        Some(path) => parent_of(path),
        None => None,
    }
}

impl DocumentCache {
    /// Takes in the text of a document that was opened or changed: the whole text is
    /// parsed anew, and what the cache held of the document is replaced. `path` is the
    /// path of the file of the document, where it has one.
    pub fn insert_or_update(&mut self, url: &str, path: Option<&str>, text: &str, packages: &Packages)
        ensures
            updated(
                old(self).docs@,
                url@,
                text_view(path),
                text@,
                string_view(packages.home),
                packages.files@,
                final(self).docs@,
            ),
    {
        let dir = match path {
            Some(path) => parent_dir(path),
            None => None,
        };
        let data = DocumentData::new(text, url, as_text(&dir), packages);
        match &data {
            DocumentData::Parsed { environment, .. } => {
                self.register_dependencies(&environment.dependencies, packages);
            },
            _ => {
                proof {
                    let docs = self.docs@;
                    assert(docs.take(docs.len() as int) =~= docs);
                }
            },
        }
        let ghost between = self.docs@;
        let name = url.to_owned();
        proof {
            assert(name@ == url@);
        }
        let ghost stored = Document { url: name, dir, data };
        self.insert(name, dir, data);
        proof {
            assert(self.docs@ == inserted(between, stored));
        }
    }
}

/// Whether document `i` is the first one of its name and no dependency found so far
/// names it.
pub open spec fn unvisited(docs: Seq<Document>, found: Seq<DependencyView>, i: int) -> bool {
    first_of(docs, is_url(docs[i].url@)) == Some(i) && !has_dependency(found, docs[i].url@)
}

/// The number of the first `n` documents that are unvisited.
pub open spec fn unvisited_count(docs: Seq<Document>, found: Seq<DependencyView>, n: nat) -> nat
    decreases n,
{
    if n == 0 || n > docs.len() {
        0
    } else {
        unvisited_count(docs, found, (n - 1) as nat) + if unvisited(docs, found, n - 1) {
            1nat
        } else {
            0nat
        }
    }
}

/// Whether every dependency that `before` names a document with is still among `after`.
pub open spec fn keeps(before: Seq<DependencyView>, after: Seq<DependencyView>) -> bool {
    forall|url: Seq<char>| has_dependency(before, url) ==> has_dependency(after, url)
}

proof fn lemma_unvisited_bound(docs: Seq<Document>, found: Seq<DependencyView>, n: nat)
    requires
        n <= docs.len(),
    ensures
        unvisited_count(docs, found, n) <= n,
    decreases n,
{
    if n > 0 {
        lemma_unvisited_bound(docs, found, (n - 1) as nat);
    }
}

proof fn lemma_unvisited_fewer(
    docs: Seq<Document>,
    before: Seq<DependencyView>,
    after: Seq<DependencyView>,
    n: nat,
)
    requires
        n <= docs.len(),
        keeps(before, after),
    ensures
        unvisited_count(docs, after, n) <= unvisited_count(docs, before, n),
    decreases n,
{
    if n > 0 {
        lemma_unvisited_fewer(docs, before, after, (n - 1) as nat);
    }
}

proof fn lemma_unvisited_drops(
    docs: Seq<Document>,
    before: Seq<DependencyView>,
    after: Seq<DependencyView>,
    n: nat,
    i: int,
)
    requires
        0 <= i < n <= docs.len(),
        keeps(before, after),
        unvisited(docs, before, i),
        !unvisited(docs, after, i),
    ensures
        unvisited_count(docs, after, n) < unvisited_count(docs, before, n),
    decreases n,
{
    if i == n - 1 {
        lemma_unvisited_fewer(docs, before, after, (n - 1) as nat);
    } else {
        lemma_unvisited_drops(docs, before, after, (n - 1) as nat, i);
    }
}

proof fn lemma_pushed_keeps(found: Seq<DependencyView>, dep: DependencyView)
    ensures
        keeps(found, found.push(dep)),
        dep.url matches Some(url) ==> has_dependency(found.push(dep), url),
{
    let pushed = found.push(dep);
    assert forall|url: Seq<char>| has_dependency(found, url) implies has_dependency(
        pushed,
        url,
    ) by {
        let i = choose|i: int| 0 <= i < found.len() && (#[trigger] found[i]).url == Some(url);
        assert(pushed[i].url == Some(url));
    }
    if dep.url is Some {
        assert(pushed[found.len() as int].url == dep.url);
    }
}

/// What is gathered keeps what was found before.
proof fn lemma_gathered_keeps(
    docs: Seq<Document>,
    deps: Seq<DependencyView>,
    n: nat,
    found: Seq<DependencyView>,
    fuel: nat,
)
    requires
        n <= deps.len(),
    ensures
        keeps(found, gathered(docs, deps, n, found, fuel)),
    decreases fuel, n,
{
    if n > 0 {
        let before = gathered(docs, deps, (n - 1) as nat, found, fuel);
        lemma_gathered_keeps(docs, deps, (n - 1) as nat, found, fuel);
        let dep = deps[n - 1];
        match dep.url {
            Some(url) => {
                if !has_dependency(before, url) {
                    lemma_pushed_keeps(before, dep);
                    if fuel > 0 {
                        let below = dependencies_at(docs, url);
                        lemma_gathered_keeps(
                            docs,
                            below,
                            below.len(),
                            before.push(dep),
                            (fuel - 1) as nat,
                        );
                    }
                }
            },
            None => {},
        }
    }
}

/// One more step of depth changes nothing where the depth covers the documents that are
/// unvisited.
proof fn lemma_gathered_deeper(
    docs: Seq<Document>,
    deps: Seq<DependencyView>,
    n: nat,
    found: Seq<DependencyView>,
    fuel: nat,
)
    requires
        n <= deps.len(),
        unvisited_count(docs, found, docs.len()) <= fuel,
    ensures
        gathered(docs, deps, n, found, fuel + 1) == gathered(docs, deps, n, found, fuel),
    decreases fuel, n,
{
    if n > 0 {
        let before = gathered(docs, deps, (n - 1) as nat, found, fuel);
        lemma_gathered_deeper(docs, deps, (n - 1) as nat, found, fuel);
        lemma_gathered_keeps(docs, deps, (n - 1) as nat, found, fuel);
        lemma_unvisited_fewer(docs, found, before, docs.len());
        let dep = deps[n - 1];
        match dep.url {
            Some(url) => {
                if !has_dependency(before, url) {
                    let pushed = before.push(dep);
                    let below = dependencies_at(docs, url);
                    lemma_pushed_keeps(before, dep);
                    if known(docs, url) {
                        lemma_first_where(docs, is_url(url), docs.len());
                        let i = first_of(docs, is_url(url))->0;
                        assert(unvisited(docs, before, i));
                        assert(!unvisited(docs, pushed, i));
                        lemma_unvisited_drops(docs, before, pushed, docs.len(), i);
                        if fuel > 0 {
                            lemma_gathered_deeper(
                                docs,
                                below,
                                below.len(),
                                pushed,
                                (fuel - 1) as nat,
                            );
                        }
                    } else {
                        assert(below.len() == 0);
                        assert(gathered(docs, below, 0, pushed, fuel) == pushed);
                        if fuel > 0 {
                            assert(gathered(docs, below, 0, pushed, (fuel - 1) as nat) == pushed);
                        }
                    }
                }
            },
            None => {},
        }
    }
}

/// The depth to which `get_dependencies_recursive` searches loses nothing: a deeper
/// search reaches the same dependencies.
pub proof fn lemma_gathered_enough(
    docs: Seq<Document>,
    deps: Seq<DependencyView>,
    fuel: nat,
)
    requires
        fuel >= docs.len(),
    ensures
        gathered(docs, deps, deps.len(), Seq::empty(), fuel) == gathered(
            docs,
            deps,
            deps.len(),
            Seq::empty(),
            docs.len(),
        ),
    decreases fuel,
{
    if fuel > docs.len() {
        lemma_gathered_enough(docs, deps, (fuel - 1) as nat);
        lemma_unvisited_bound(docs, Seq::empty(), docs.len());
        lemma_gathered_deeper(docs, deps, deps.len(), Seq::empty(), (fuel - 1) as nat);
    }
}

} // verus!
