//! What can be written on a header line.

use crate::completion::{
    CompletionItem, CompletionItemView, TextEdit, TextEditView, header_completion_item,
    header_item, item_models, shows,
};
use crate::documents::{
    Packages, SourceFile, candidate_roots, join_path, package_dirs, path_join,
    require_candidate_dirs, string_view, strings, text_view,
};
use crate::position::{Position, Range};
use crate::search::{present, present_all};
use crate::text::{
    contains, occurs, same_text, strip_prefix, strip_suffix, trim, trimmed, without_prefix,
    without_suffix,
};
use vstd::prelude::*;
use vstd::string::*;
use vstd::utf8::encode_utf8;

verus! {

/// The range that a completion of a header line replaces: the line up to the cursor.
pub open spec fn header_range(pos: Position) -> Range {
    Range { start: Position { line: pos.line, character: 0 }, end: pos }
}

/// The completion item of one of the two keywords of a header.
pub open spec fn keyword_item(keyword: Seq<char>, detail: Seq<char>, range: Range) -> CompletionItemView {
    CompletionItemView {
        label: keyword,
        kind: None,
        detail: Some(detail),
        documentation: None,
        insert_text: None,
        insert_text_format: None,
        text_edit: Some(TextEditView { range, new_text: keyword }),
    }
}

/// The completion items of the keywords of a header.
pub open spec fn keyword_items(range: Range) -> Seq<CompletionItemView> {
    seq![
        keyword_item("@require:"@, "Specify a installed satysfi package"@, range),
        keyword_item("@import:"@, "Specify a relative path of the current directory"@, range),
    ]
}

/// The name under which a header names the file at `path`: what stands behind the
/// directory `dir` and in front of the ending `ext`. A file elsewhere, or with another
/// ending, has none.
pub open spec fn package_name(dir: Seq<char>, ext: Seq<char>, path: Seq<char>) -> Option<Seq<char>> {
    match without_prefix(path, path_join(dir, ""@)) {
        Some(rest) => without_suffix(rest, ext),
        None => None,
    }
}

/// Of each file the name under which a header names it below `dir`.
pub open spec fn names_with(dir: Seq<char>, ext: Seq<char>, files: Seq<SourceFile>) -> Seq<
    Option<Seq<char>>,
> {
    Seq::new(files.len(), |i: int| package_name(dir, ext, files[i].path@))
}

/// The names of the packages below `dir`: those of the files that end in `.satyg`, then
/// those of the files that end in `.satyh`.
pub open spec fn names_under(dir: Seq<char>, files: Seq<SourceFile>) -> Seq<Seq<char>> {
    present_all(names_with(dir, ".satyg"@, files)) + present_all(
        names_with(dir, ".satyh"@, files),
    )
}

/// The names of the packages below the first `n` of `dirs`.
pub open spec fn names_in(dirs: Seq<Seq<char>>, files: Seq<SourceFile>, n: nat) -> Seq<Seq<char>>
    decreases n,
{
    if n == 0 || n > dirs.len() {
        Seq::empty()
    } else {
        names_in(dirs, files, (n - 1) as nat) + names_under(dirs[n - 1], files)
    }
}

/// The completion items of the packages `names` for a header line.
pub open spec fn header_items_of(word: Seq<char>, names: Seq<Seq<char>>, range: Range) -> Seq<
    CompletionItemView,
> {
    Seq::new(names.len(), |i: int| header_item(word, names[i], range))
}

/// What can be written on the header line `line`: the two keywords behind a lone `@`, the
/// installed packages on a line with `@require:`, and the packages beside the document
/// on a line with `@import:`.
pub open spec fn header_items(
    line: Seq<char>,
    pos: Position,
    dir: Option<Seq<char>>,
    home: Option<Seq<char>>,
    files: Seq<SourceFile>,
) -> Option<Seq<CompletionItemView>> {
    let range = header_range(pos);
    if trimmed(line) == "@"@ {
        Some(keyword_items(range))
    } else if occurs(encode_utf8(line), encode_utf8("@require:"@)) {
        let dirs = package_dirs(candidate_roots(dir, home));
        Some(header_items_of("require"@, names_in(dirs, files, dirs.len()), range))
    } else if occurs(encode_utf8(line), encode_utf8("@import:"@)) {
        match dir {
            Some(dir) => Some(header_items_of("import"@, names_under(dir, files), range)),
            None => None,
        }
    } else {
        None
    }
}

/// The names of the packages below `dir` that end in `ext`.
pub fn package_names_with(dir: &str, ext: &str, files: &Vec<SourceFile>, names: &mut Vec<String>)
    ensures
        strings(final(names)@) == strings(old(names)@) + present_all(
            names_with(dir@, ext@, files@),
        ),
{
    let prefix = join_path(dir, "");
    let ghost start = strings(names@);
    let ghost items = names_with(dir@, ext@, files@);
    let mut k: usize = 0;
    while k < files.len()
        invariant
            0 <= k <= files@.len(),
            prefix@ == path_join(dir@, ""@),
            items == names_with(dir@, ext@, files@),
            strings(names@) =~= start + present(items, k as nat),
        decreases files@.len() - k,
    {
        match strip_prefix(files[k].path.as_str(), prefix.as_str()) {
            Some(rest) => match strip_suffix(rest, ext) {
                Some(name) => {
                    let name = name.to_owned();
                    proof {
                        assert(strings(names@.push(name)) =~= strings(names@).push(name@));
                    }
                    names.push(name);
                },
                None => {},
            },
            None => {},
        }
        k = k + 1;
    }
}

/// The names of the packages below `dir`.
pub fn package_names_under(dir: &str, files: &Vec<SourceFile>, names: &mut Vec<String>)
    ensures
        strings(final(names)@) == strings(old(names)@) + names_under(dir@, files@),
{
    let ghost start = strings(names@);
    package_names_with(dir, ".satyg", files, names);
    package_names_with(dir, ".satyh", files, names);
    proof {
        assert(strings(names@) =~= start + names_under(dir@, files@));
    }
}

/// The completion items of the packages `names` for a header line.
pub fn header_completion_items(word: &str, names: &Vec<String>, range: Range) -> (items: Vec<
    CompletionItem,
>)
    ensures
        item_models(items@) == header_items_of(word@, strings(names@), range),
{
    let ghost all = header_items_of(word@, strings(names@), range);
    let mut items: Vec<CompletionItem> = Vec::new();
    let mut k: usize = 0;
    while k < names.len()
        invariant
            0 <= k <= names@.len(),
            all == header_items_of(word@, strings(names@), range),
            item_models(items@) =~= all.take(k as int),
        decreases names@.len() - k,
    {
        let item = header_completion_item(word, names[k].as_str(), range);
        proof {
            assert(strings(names@)[k as int] == names@[k as int]@);
            assert(all.take(k + 1) =~= all.take(k as int).push(item@));
            assert(item_models(items@.push(item)) =~= item_models(items@).push(item@));
        }
        items.push(item);
        k = k + 1;
    }
    proof {
        assert(all.take(k as int) =~= all);
    }
    items
}

/// The completion item of one of the two keywords of a header.
pub fn keyword_completion_item(keyword: &str, detail: &str, range: Range) -> (item: CompletionItem)
    ensures
        item@ == keyword_item(keyword@, detail@, range),
{
    CompletionItem {
        label: keyword.to_owned(),
        kind: None,
        detail: Some(detail.to_owned()),
        documentation: None,
        insert_text: None,
        insert_text_format: None,
        text_edit: Some(TextEdit { range, new_text: keyword.to_owned() }),
    }
}

/// What can be written on the header line `line`.
pub fn header_line_items(
    line: &str,
    pos: Position,
    dir: Option<&str>,
    packages: &Packages,
) -> (items: Option<Vec<CompletionItem>>)
    ensures
        shows(
            items,
            header_items(
                line@,
                pos,
                text_view(dir),
                string_view(packages.home),
                packages.files@,
            ),
        ),
{
    let range = Range { start: Position { line: pos.line, character: 0 }, end: pos };
    if same_text(trim(line), "@") {
        let mut items: Vec<CompletionItem> = Vec::new();
        let first = keyword_completion_item(
            "@require:",
            "Specify a installed satysfi package",
            range,
        );
        let second = keyword_completion_item(
            "@import:",
            "Specify a relative path of the current directory",
            range,
        );
        proof {
            assert(item_models(items@.push(first).push(second)) =~= keyword_items(range));
        }
        items.push(first);
        items.push(second);
        return Some(items);
    }
    if contains(line, "@require:") {
        let home = crate::documents::as_text(&packages.home);
        let dirs = require_candidate_dirs(dir, home);
        let ghost all = strings(dirs@);
        let mut names: Vec<String> = Vec::new();
        proof {
            assert(strings(names@) =~= Seq::<Seq<char>>::empty());
        }
        let mut k: usize = 0;
        while k < dirs.len()
            invariant
                0 <= k <= dirs@.len(),
                all == strings(dirs@),
                strings(names@) =~= names_in(all, packages.files@, k as nat),
            decreases dirs@.len() - k,
        {
            proof {
                assert(all[k as int] == dirs@[k as int]@);
            }
            package_names_under(dirs[k].as_str(), &packages.files, &mut names);
            k = k + 1;
        }
        return Some(header_completion_items("require", &names, range));
    }
    if contains(line, "@import:") {
        return match dir {
            Some(dir) => {
                let mut names: Vec<String> = Vec::new();
                proof {
                    assert(strings(names@) =~= Seq::<Seq<char>>::empty());
                }
                package_names_under(dir, &packages.files, &mut names);
                proof {
                    assert(strings(names@) =~= names_under(dir@, packages.files@));
                }
                Some(header_completion_items("import", &names, range))
            },
            None => None,
        };
    }
    None
}

} // verus!
