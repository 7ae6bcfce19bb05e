//! File paths as texts. What separates the components of a path depends on the
//! platform, so paths are taken apart and put together by `std::path`.

use vstd::prelude::*;
use std::path::Path;
use crate::models::opt_text;

verus! {

/// A text that is one ordinary component of a path on every platform.
pub open spec fn is_file_name(name: Seq<char>) -> bool {
    &&& name.len() > 0
    &&& !name.contains('/')
    &&& !name.contains('\\')
    &&& !name.contains(':')
    &&& name != seq!['.']
    &&& name != seq!['.', '.']
}

/// A text that is a directory, written with `/` and without a trailing
/// separator or a trailing `.`, on every platform.
pub open spec fn is_dir_name(dir: Seq<char>) -> bool {
    &&& dir.len() > 0
    &&& !dir.contains('\\')
    &&& !dir.contains(':')
    &&& !(dir.len() > 1 && dir[0] == '/' && dir[1] == '/')
    &&& dir.last() != '/'
    &&& dir.last() == '.' ==> dir == seq!['.'] || dir == seq!['.', '.']
}

/// A directory and a file name put together with a separator; the working
/// directory, which is the empty text, and one that ends in `/` need none.
pub open spec fn in_dir(dir: Seq<char>, separator: char, name: Seq<char>) -> Seq<char> {
    if dir.len() == 0 {
        name
    } else if dir.last() == '/' {
        dir + name
    } else {
        dir + seq![separator] + name
    }
}

/// Whether a path is that of a file in this directory on every platform: the
/// working directory, the root, or a directory with a name.
pub open spec fn lies_in(path: Seq<char>, dir: Seq<char>) -> bool {
    &&& dir.len() == 0 || dir == seq!['/'] || is_dir_name(dir)
    &&& exists|name: Seq<char>| #[trigger] is_file_name(name) && path == in_dir(dir, '/', name)
}

/// A path without the separators at its end; the root keeps its own.
pub open spec fn without_trailing(path: Seq<char>) -> Seq<char>
    decreases path.len(),
{
    if path.len() > 1 && path.last() == '/' {
        without_trailing(path.drop_last())
    } else {
        path
    }
}

/// What holds of the parent of a path on every platform: the root and the empty
/// path have none, and the parent of a file in a directory is that directory, with
/// or without separators at the end of the path.
pub open spec fn may_be_parent(path: Seq<char>, parent: Option<Seq<char>>) -> bool {
    &&& path.len() == 0 ==> parent is None
    &&& path == seq!['/'] ==> parent is None
    &&& forall|dir: Seq<char>| #[trigger]
        lies_in(without_trailing(path), dir) ==> parent == Some(dir)
}

/// What holds of a directory and a file name put together, on every platform: the
/// name stands at the end, and the platform's separator stands between the two
/// where one is needed. No more is said of a directory that holds a backslash, or
/// that ends in a colon.
pub open spec fn may_be_joined(dir: Seq<char>, name: Seq<char>, joined: Seq<char>) -> bool {
    &&& name.is_suffix_of(joined)
    &&& !dir.contains('\\') && !(dir.len() > 0 && dir.last() == ':') ==> joined == in_dir(
        dir,
        '/',
        name,
    ) || joined == in_dir(dir, '\\', name)
}

/// A directory in which a file lies has a name that can be joined to.
pub(crate) proof fn lemma_dir_of_file(path: Seq<char>, dir: Seq<char>)
    requires
        lies_in(path, dir),
    ensures
        !dir.contains('\\'),
        dir.len() > 0 ==> dir.last() != ':',
{
    if is_dir_name(dir) {
        assert(dir.contains(dir.last()));
    }
}

/// A path without separators at its end is as it is.
pub(crate) proof fn lemma_without_trailing(path: Seq<char>, dir: Seq<char>)
    requires
        lies_in(path, dir),
    ensures
        without_trailing(path) == path,
{
    let name = choose|name: Seq<char>| #[trigger]
        is_file_name(name) && path == in_dir(dir, '/', name);
    assert(path.last() == name.last());
    assert(name.contains(name.last()));
}

/// `Path::parent`: the path without its last component; `None` for the root and
/// for the empty path. Separators at the end make no component. Which characters separate components depends on the
/// platform; only what holds on every platform is claimed.
#[verifier::external_body]
pub(crate) fn parent_dir(path: &str) -> (parent: Option<String>)
    ensures
        may_be_parent(path@, opt_text(parent)),
{
    Some(Path::new(path).parent()?.to_string_lossy().into_owned())
}

/// `Path::join` with the name of a file: the two with the platform's separator
/// between them where one is needed.
#[verifier::external_body]
pub(crate) fn join_path(dir: &str, name: &str) -> (joined: String)
    requires
        is_file_name(name@),
    ensures
        may_be_joined(dir@, name@, joined@),
{
    Path::new(dir).join(name).to_string_lossy().into_owned()
}

} // verus!
