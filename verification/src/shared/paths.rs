//! Paths below a managed directory, as text.
//!
//! A path is taken as it is written: a root names a directory, and the
//! paths below it are those that go on after a separator.

use crate::text::last_char;
use vstd::prelude::*;

verus! {

/// Whether `text` begins with `prefix`.
pub open spec fn has_prefix(text: Seq<char>, prefix: Seq<char>) -> bool {
    prefix.len() <= text.len() && text.subrange(0, prefix.len() as int) == prefix
}

/// Whether `root` ends in a separator.
pub open spec fn ends_with_separator(root: Seq<char>) -> bool {
    root.len() > 0 && root.last() == '/'
}

/// `path` as seen from the directory `root`, or nothing where it does not
/// lie in that directory: the root itself is the empty path, and a path
/// below it is what follows the root and one separator.
pub open spec fn relative_to(root: Seq<char>, path: Seq<char>) -> Option<Seq<char>> {
    if !has_prefix(path, root) {
        None
    } else if path.len() == root.len() {
        Some(Seq::empty())
    } else if root.len() == 0 || ends_with_separator(root) {
        Some(path.skip(root.len() as int))
    } else if path[root.len() as int] == '/' {
        Some(path.skip(root.len() as int + 1))
    } else {
        None
    }
}

/// The path `relative`, which is seen from the directory `root`, in full.
pub open spec fn absolute_path(root: Seq<char>, relative: Seq<char>) -> Seq<char> {
    if relative.len() == 0 {
        root
    } else if root.len() == 0 || ends_with_separator(root) {
        root + relative
    } else {
        root + "/"@ + relative
    }
}

/// A path that was made from a root and a relative path lies below that
/// root, as that relative path.
pub proof fn lemma_relative_of_absolute(root: Seq<char>, relative: Seq<char>)
    ensures
        relative_to(root, absolute_path(root, relative)) == Some(relative),
{
    reveal_strlit("/");
    let path = absolute_path(root, relative);
    assert(path.subrange(0, root.len() as int) =~= root);
    if relative.len() == 0 {
        assert(relative =~= Seq::empty());
    } else if root.len() == 0 || ends_with_separator(root) {
        assert(path.skip(root.len() as int) =~= relative);
    } else {
        assert("/"@.len() == 1);
        assert(path[root.len() as int] == "/"@[0]);
        assert(path.skip(root.len() as int + 1) =~= relative);
    }
}

/// The part of `path` below the directory `root`.
pub fn relative_path(root: &str, path: &str) -> (relative: Option<String>)
    ensures
        match relative {
            Some(relative) => relative_to(root@, path@) == Some(relative@),
            None => relative_to(root@, path@) is None,
        },
{
    let root_len = root.unicode_len();
    let path_len = path.unicode_len();
    if path_len < root_len {
        return None;
    }
    let head = String::from_str(path.substring_char(0, root_len));
    let wanted = String::from_str(root);
    if !(head == wanted) {
        return None;
    }
    if path_len == root_len {
        return Some(String::new());
    }
    let open_root = match last_char(root) {
        None => true,
        Some(last) => last == '/',
    };
    if open_root {
        Some(String::from_str(path.substring_char(root_len, path_len)))
    } else if path.get_char(root_len) == '/' {
        Some(String::from_str(path.substring_char(root_len + 1, path_len)))
    } else {
        None
    }
}

/// The path `relative` below the directory `root`, in full.
pub fn to_absolute_path(root: &str, relative: &str) -> (path: String)
    ensures
        path@ == absolute_path(root@, relative@),
{
    if relative.unicode_len() == 0 {
        return String::from_str(root);
    }
    let open_root = match last_char(root) {
        None => true,
        Some(last) => last == '/',
    };
    let mut path = String::from_str(root);
    if !open_root {
        path.append("/");
    }
    path.append(relative);
    path
}

} // verus!
