//! Where the fragment is staged before it is moved into place.
//!
//! The fragment is first written to a hidden temporary file next to its
//! destination (`.NAME.tmp` in the same directory) and then renamed over it, so
//! that a reader sees either the previous content or the complete new one.

use vstd::prelude::*;
use vstd::string::*;

verus! {

/// What `std::path::Path::parent` returns for a path, as text.
pub uninterp spec fn path_parent(path: Seq<char>) -> Option<Seq<char>>;

/// What `std::path::Path::file_name` returns for a path, as text.
pub uninterp spec fn path_file_name(path: Seq<char>) -> Option<Seq<char>>;

/// `child` appended to `base` as `Path::join` does on Unix: an absolute child
/// replaces the base; otherwise a `/` is put between them unless the base is
/// empty or already ends in one.
pub open spec fn joined(base: Seq<char>, child: Seq<char>) -> Seq<char> {
    if child.len() > 0 && child[0] == '/' {
        child
    } else if base.len() > 0 && base.last() != '/' {
        base + seq!['/'] + child
    } else {
        base + child
    }
}

/// Calls `std::path::Path::parent`; the contract claims that the result is
/// `path_parent` of the argument.
#[verifier::external_body]
fn parent_of(path: &str) -> (parent: Option<String>)
    ensures
        match parent {
            Some(p) => path_parent(path@) == Some(p@),
            None => path_parent(path@) is None,
        },
{
    match std::path::Path::new(path).parent() {
        Some(p) => Some(p.to_string_lossy().into_owned()),
        None => None,
    }
}

/// Calls `std::path::Path::file_name`; the contract claims that the result is
/// `path_file_name` of the argument.
#[verifier::external_body]
fn file_name_of(path: &str) -> (name: Option<String>)
    ensures
        match name {
            Some(n) => path_file_name(path@) == Some(n@),
            None => path_file_name(path@) is None,
        },
{
    match std::path::Path::new(path).file_name() {
        Some(n) => Some(n.to_string_lossy().into_owned()),
        None => None,
    }
}

/// `child` appended to `base` as `Path::join` does on Unix.
pub fn join(base: &str, child: &str) -> (path: String)
    ensures
        path@ == joined(base@, child@),
{
    proof {
        reveal_strlit("/");
    }
    if child.unicode_len() > 0 && child.get_char(0) == '/' {
        return String::from_str(child);
    }
    let n = base.unicode_len();
    let mut path = String::from_str(base);
    if n > 0 && base.get_char(n - 1) != '/' {
        path.append("/");
    }
    path.append(child);
    path
}

/// The directory that holds `path`: its parent, or `.` where the parent is
/// missing or empty.
pub open spec fn staging_dir(path: Seq<char>) -> Seq<char> {
    match path_parent(path) {
        Some(p) => if p.len() > 0 { p } else { "."@ },
        None => "."@,
    }
}

/// The hidden temporary name that `name` is staged under.
pub open spec fn temp_name(name: Seq<char>) -> Seq<char> {
    "."@ + name + ".tmp"@
}

/// The temporary file that `path` is staged through, if `path` names a file.
pub open spec fn staging_file(path: Seq<char>) -> Option<Seq<char>> {
    match path_file_name(path) {
        Some(name) => Some(joined(staging_dir(path), temp_name(name))),
        None => None,
    }
}

/// The directory that holds `path`: its parent, or `.` where the parent is
/// missing or empty.
pub fn directory_of(path: &str) -> (dir: String)
    ensures
        dir@ == staging_dir(path@),
{
    match parent_of(path) {
        Some(p) => {
            if p.unicode_len() > 0 {
                p
            } else {
                String::from_str(".")
            }
        },
        None => String::from_str("."),
    }
}

/// The temporary file that `path` is staged through: `.NAME.tmp` in the
/// directory of `path`. `None` where `path` names no file.
pub fn temp_file_for(path: &str, dir: &str) -> (temp: Option<String>)
    requires
        dir@ == staging_dir(path@),
    ensures
        match temp {
            Some(t) => staging_file(path@) == Some(t@),
            None => staging_file(path@) is None,
        },
{
    match file_name_of(path) {
        Some(name) => {
            let mut hidden = String::from_str(".");
            hidden.append(name.as_str());
            hidden.append(".tmp");
            Some(join(dir, hidden.as_str()))
        },
        None => None,
    }
}

/// The fragment is staged in its destination's own directory: the parent that
/// `Path::parent` gives, or `.` where it gives none or an empty one; the
/// staged file is the hidden `.NAME.tmp` in that directory, `NAME` being the
/// destination's file name, and there is none where the destination names no
/// file.
pub proof fn staged_next_to_destination(path: Seq<char>)
    ensures
        match path_parent(path) {
            Some(p) => p.len() > 0 ==> staging_dir(path) == p,
            None => true,
        },
        (path_parent(path) is None || path_parent(path)->Some_0.len() == 0) ==> staging_dir(path) == "."@,
        path_file_name(path) is None ==> staging_file(path) is None,
        match path_file_name(path) {
            Some(name) => staging_file(path) == Some(
                if staging_dir(path).last() == '/' {
                    staging_dir(path) + "."@ + name + ".tmp"@
                } else {
                    staging_dir(path) + "/"@ + "."@ + name + ".tmp"@
                },
            ),
            None => true,
        },
{
    reveal_strlit(".");
    reveal_strlit("/");
    let dir = staging_dir(path);
    assert(dir.len() > 0);
    if let Some(name) = path_file_name(path) {
        let child = temp_name(name);
        assert(child[0] == '.');
        if dir.last() == '/' {
            assert(joined(dir, child) =~= dir + "."@ + name + ".tmp"@);
        } else {
            assert(joined(dir, child) =~= dir + "/"@ + "."@ + name + ".tmp"@);
        }
    }
}

} // verus!
