//! The package files, and the paths at which a package is looked for.

use crate::documents::strings;
use crate::text::{join2, join3};
use vstd::prelude::*;
use vstd::string::*;

verus! {

/// A file of the package directories or beside a document, as it was found on disk.
#[derive(Debug)]
pub struct SourceFile {
    /// The path of the file.
    pub path: String,
    /// The name under which the file is known as a document.
    pub url: String,
    /// What the file holds.
    pub text: String,
}

/// What the server has seen of the file system: the home directory of the user, and the
/// files that a document may name in its header.
#[derive(Debug)]
pub struct Packages {
    pub home: Option<String>,
    pub files: Vec<SourceFile>,
}

/// Whether a path starts at the root of the file system.
pub open spec fn is_absolute(path: Seq<char>) -> bool {
    path.len() > 0 && path[0] == '/'
}

/// `rel` below the directory `base`, as `Path::join` joins the paths of Unix: an absolute
/// `rel` stands for itself, and a `/` is put between the two where `base` does not end in
/// one.
pub open spec fn path_join(base: Seq<char>, rel: Seq<char>) -> Seq<char> {
    if is_absolute(rel) || base.len() == 0 {
        rel
    } else if base.last() == '/' {
        base + rel
    } else {
        base + "/"@ + rel
    }
}

/// `rel` below the directory `base`.
pub fn join_path(base: &str, rel: &str) -> (path: String)
    ensures
        path@ == path_join(base@, rel@),
{
    let n = base.unicode_len();
    if (rel.unicode_len() > 0 && rel.get_char(0) == '/') || n == 0 {
        rel.to_owned()
    } else if base.get_char(n - 1) == '/' {
        join2(base, rel)
    } else {
        join3(base, "/", rel)
    }
}

/// How many characters stand in front of the names of a path: the `/` of an absolute
/// path, or the `.` with which a relative path starts.
pub open spec fn root_len(path: Seq<char>) -> nat {
    if path.len() > 0 && (path[0] == '/' || (path[0] == '.' && (path.len() == 1 || path[1]
        == '/'))) {
        1
    } else {
        0
    }
}

/// Where the first `n` characters of a path end once the empty names and the names `.`
/// at their end are left out, each with the `/` in front of it. The first `root`
/// characters stay.
pub open spec fn names_end(path: Seq<char>, root: nat, n: nat) -> nat
    decreases n,
{
    if n <= root || n > path.len() {
        n
    } else if path[n - 1] == '/' {
        names_end(path, root, (n - 1) as nat)
    } else if path[n - 1] == '.' && n - 1 == root {
        root
    } else if path[n - 1] == '.' && path[n - 2] == '/' {
        names_end(path, root, (n - 2) as nat)
    } else {
        n
    }
}

/// Where the name starts that ends at character `n` of a path: behind the last `/` in
/// front of `n`, and not before `root`.
pub open spec fn name_start(path: Seq<char>, root: nat, n: nat) -> nat
    decreases n,
{
    if n <= root || n > path.len() {
        n
    } else if path[n - 1] == '/' {
        n
    } else {
        name_start(path, root, (n - 1) as nat)
    }
}

/// How many characters of a path make up the directory that holds it; nothing for a path
/// without a last name: the empty path and the root.
pub open spec fn parent_len(path: Seq<char>) -> Option<nat> {
    let root = root_len(path);
    let end = names_end(path, root, path.len());
    if end <= root {
        if root == 1 && path[0] == '.' {
            Some(0nat)
        } else {
            None
        }
    } else {
        let start = name_start(path, root, end);
        if start > root {
            Some(names_end(path, root, (start - 1) as nat))
        } else {
            Some(root)
        }
    }
}

/// The directory that holds `path`, as `Path::parent` reads the paths of Unix: the path
/// without its last name and without the `/` in front of that name. A `/` at the end of a
/// path, a doubled `/` and a name `.` do not count as names. The directory of a single
/// relative name is the empty path; the empty path and the root have none.
pub open spec fn parent_of(path: Seq<char>) -> Option<Seq<char>> {
    match parent_len(path) {
        Some(n) => Some(path.subrange(0, n as int)),
        None => None,
    }
}

/// Where the first `n` characters end without the empty names and the names `.` at
/// their end.
fn end_of_names(path: &str, root: usize, n: usize) -> (end: usize)
    requires
        root <= n <= path@.len(),
    ensures
        end == names_end(path@, root as nat, n as nat),
        root <= end <= n,
{
    let mut k: usize = n;
    let mut going = true;
    while going
        invariant
            root <= k <= n <= path@.len(),
            names_end(path@, root as nat, n as nat) == names_end(path@, root as nat, k as nat),
            !going ==> names_end(path@, root as nat, k as nat) == k,
        decreases k + if going { 1nat } else { 0nat },
    {
        if k > root && path.get_char(k - 1) == '/' {
            k = k - 1;
        } else if k > root && path.get_char(k - 1) == '.' && k - 1 == root {
            proof {
                assert(names_end(path@, root as nat, root as nat) == root);
            }
            k = root;
        } else if k > root && path.get_char(k - 1) == '.' && path.get_char(k - 2) == '/' {
            k = k - 2;
        } else {
            going = false;
        }
    }
    k
}

/// Where the name starts that ends at character `n`.
fn start_of_name(path: &str, root: usize, n: usize) -> (start: usize)
    requires
        root <= n <= path@.len(),
    ensures
        start == name_start(path@, root as nat, n as nat),
        root <= start <= n,
{
    let mut k: usize = n;
    while k > root && path.get_char(k - 1) != '/'
        invariant
            root <= k <= n <= path@.len(),
            name_start(path@, root as nat, n as nat) == name_start(path@, root as nat, k as nat),
        decreases k,
    {
        k = k - 1;
    }
    k
}

/// The directory that holds `path`.
pub fn parent_dir(path: &str) -> (dir: Option<String>)
    ensures
        string_view(dir) == parent_of(path@),
{
    let len = path.unicode_len();
    let root: usize = if len > 0 && (path.get_char(0) == '/' || (path.get_char(0) == '.' && (len
        == 1 || path.get_char(1) == '/'))) {
        1
    } else {
        0
    };
    let end = end_of_names(path, root, len);
    let cut: usize = if end <= root {
        if root == 1 && path.get_char(0) == '.' {
            0
        } else {
            return None;
        }
    } else {
        let start = start_of_name(path, root, end);
        if start > root {
            end_of_names(path, root, start - 1)
        } else {
            root
        }
    };
    Some(path.substring_char(0, cut).to_owned())
}

/// The directories that hold installed packages: below the document, below the home
/// directory of the user, and the two places of a system-wide installation.
pub open spec fn candidate_roots(parent: Option<Seq<char>>, home: Option<Seq<char>>) -> Seq<
    Seq<char>,
> {
    let first = match parent {
        Some(dir) => seq![path_join(dir, ".satysfi"@)],
        None => Seq::empty(),
    };
    let second = match home {
        Some(dir) => seq![path_join(dir, ".satysfi"@)],
        None => Seq::empty(),
    };
    first + second + seq!["/usr/local/share/satysfi"@, "/usr/share/satysfi"@]
}

/// The two package directories of each root, the local one first.
pub open spec fn package_dirs(roots: Seq<Seq<char>>) -> Seq<Seq<char>> {
    Seq::new(
        2 * roots.len(),
        |i: int|
            path_join(
                roots[i / 2],
                if i % 2 == 0 {
                    "local/packages"@
                } else {
                    "dist/packages"@
                },
            ),
    )
}

/// The file names of a package in one root: local before installed, `.satyh` before
/// `.satyg`.
pub open spec fn package_file(pkgname: Seq<char>, which: int) -> Seq<char> {
    if which == 0 {
        "local/packages/"@ + pkgname + ".satyh"@
    } else if which == 1 {
        "local/packages/"@ + pkgname + ".satyg"@
    } else if which == 2 {
        "dist/packages/"@ + pkgname + ".satyh"@
    } else {
        "dist/packages/"@ + pkgname + ".satyg"@
    }
}

/// The paths at which a required package is looked for, in the order of the search.
pub open spec fn package_paths(pkgname: Seq<char>, roots: Seq<Seq<char>>) -> Seq<Seq<char>> {
    Seq::new(4 * roots.len(), |i: int| path_join(roots[i / 4], package_file(pkgname, i % 4)))
}

/// The paths at which an imported file is looked for: beside the document.
pub open spec fn import_paths(pkgname: Seq<char>, dir: Seq<char>) -> Seq<Seq<char>> {
    seq![path_join(dir, pkgname + ".satyh"@), path_join(dir, pkgname + ".satyg"@)]
}

/// The roots of the package directories.
pub fn require_roots(parent: Option<&str>, home: Option<&str>) -> (roots: Vec<String>)
    ensures
        strings(roots@) == candidate_roots(
            match parent {
                Some(p) => Some(p@),
                None => None,
            },
            match home {
                Some(h) => Some(h@),
                None => None,
            },
        ),
{
    let mut roots: Vec<String> = Vec::new();
    match parent {
        Some(dir) => {
            roots.push(join_path(dir, ".satysfi"));
        },
        None => {},
    }
    match home {
        Some(dir) => {
            roots.push(join_path(dir, ".satysfi"));
        },
        None => {},
    }
    roots.push("/usr/local/share/satysfi".to_owned());
    roots.push("/usr/share/satysfi".to_owned());
    proof {
        assert(strings(roots@) =~= candidate_roots(
            match parent {
                Some(p) => Some(p@),
                None => None,
            },
            match home {
                Some(h) => Some(h@),
                None => None,
            },
        ));
    }
    roots
}

/// The directories in which installed packages are looked for, in the order of the search.
pub fn require_candidate_dirs(parent: Option<&str>, home: Option<&str>) -> (dirs: Vec<String>)
    ensures
        strings(dirs@) == package_dirs(
            candidate_roots(
                match parent {
                    Some(p) => Some(p@),
                    None => None,
                },
                match home {
                    Some(h) => Some(h@),
                    None => None,
                },
            ),
        ),
{
    let roots = require_roots(parent, home);
    let ghost all = package_dirs(strings(roots@));
    let mut dirs: Vec<String> = Vec::new();
    let mut k: usize = 0;
    while k < roots.len()
        invariant
            0 <= k <= roots@.len(),
            all == package_dirs(strings(roots@)),
            strings(dirs@) =~= all.take(2 * k),
        decreases roots@.len() - k,
    {
        let root = roots[k].as_str();
        let local = join_path(root, "local/packages");
        let dist = join_path(root, "dist/packages");
        proof {
            assert(strings(roots@)[k as int] == roots@[k as int]@);
            assert((2 * k) / 2 == k && (2 * k) % 2 == 0);
            assert((2 * k + 1) / 2 == k && (2 * k + 1) % 2 == 1);
            assert(all.take(2 * (k + 1)) =~= all.take(2 * k).push(local@).push(dist@));
            assert(strings(dirs@.push(local).push(dist)) =~= strings(dirs@).push(local@).push(
                dist@,
            ));
        }
        dirs.push(local);
        dirs.push(dist);
        k = k + 1;
    }
    proof {
        assert(all.take(2 * k) =~= all);
    }
    dirs
}

/// The name of a package file in one root.
fn package_file_name(pkgname: &str, which: usize) -> (name: String)
    requires
        which < 4,
    ensures
        name@ == package_file(pkgname@, which as int),
{
    if which == 0 {
        join3("local/packages/", pkgname, ".satyh")
    } else if which == 1 {
        join3("local/packages/", pkgname, ".satyg")
    } else if which == 2 {
        join3("dist/packages/", pkgname, ".satyh")
    } else {
        join3("dist/packages/", pkgname, ".satyg")
    }
}

/// The paths at which a required package is looked for, in the order of the search.
pub fn require_candidate_paths(pkgname: &str, parent: Option<&str>, home: Option<&str>) -> (paths:
    Vec<String>)
    ensures
        strings(paths@) == package_paths(
            pkgname@,
            candidate_roots(
                match parent {
                    Some(p) => Some(p@),
                    None => None,
                },
                match home {
                    Some(h) => Some(h@),
                    None => None,
                },
            ),
        ),
{
    let roots = require_roots(parent, home);
    let ghost all = package_paths(pkgname@, strings(roots@));
    let mut paths: Vec<String> = Vec::new();
    let mut k: usize = 0;
    while k < roots.len()
        invariant
            0 <= k <= roots@.len(),
            all == package_paths(pkgname@, strings(roots@)),
            strings(paths@) =~= all.take(4 * k),
        decreases roots@.len() - k,
    {
        let root = roots[k].as_str();
        let mut which: usize = 0;
        while which < 4
            invariant
                0 <= k < roots@.len(),
                0 <= which <= 4,
                root@ == roots@[k as int]@,
                all == package_paths(pkgname@, strings(roots@)),
                strings(paths@) =~= all.take(4 * k + which),
            decreases 4 - which,
        {
            let path = join_path(root, package_file_name(pkgname, which).as_str());
            proof {
                assert(strings(roots@)[k as int] == roots@[k as int]@);
                assert((4 * k + which) / 4 == k && (4 * k + which) % 4 == which);
                assert(all.take(4 * k + which + 1) =~= all.take(4 * k + which).push(path@));
                assert(strings(paths@.push(path)) =~= strings(paths@).push(path@));
            }
            paths.push(path);
            which = which + 1;
        }
        k = k + 1;
    }
    proof {
        assert(all.take(4 * k) =~= all);
    }
    paths
}

/// The paths at which an imported file is looked for.
pub fn import_candidate_paths(pkgname: &str, dir: &str) -> (paths: Vec<String>)
    ensures
        strings(paths@) == import_paths(pkgname@, dir@),
{
    let mut paths: Vec<String> = Vec::new();
    paths.push(join_path(dir, join2(pkgname, ".satyh").as_str()));
    paths.push(join_path(dir, join2(pkgname, ".satyg").as_str()));
    proof {
        assert(strings(paths@) =~= import_paths(pkgname@, dir@));
    }
    paths
}

/// The text behind an optional `&str`.
pub open spec fn text_view(text: Option<&str>) -> Option<Seq<char>> {
    match text {
        Some(t) => Some(t@),
        None => None,
    }
}

/// The text behind an optional string.
pub open spec fn string_view(text: Option<String>) -> Option<Seq<char>> {
    match text {
        Some(t) => Some(t@),
        None => None,
    }
}

/// An optional string as an optional `&str`.
pub fn as_text(text: &Option<String>) -> (borrowed: Option<&str>)
    ensures
        text_view(borrowed) == string_view(*text),
{
    match text {
        Some(t) => Some(t.as_str()),
        None => None,
    }
}

} // verus!
