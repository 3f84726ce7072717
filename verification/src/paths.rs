//! Paths as text, with `/` between the components.

use crate::text::has_prefix;
use crate::text::starts_with;
use vstd::prelude::*;
use vstd::string::StrSliceExecFns;
use vstd::string::StringExecFns;

verus! {

/// `rel` seen from `base`: an absolute `rel` stands for itself, an empty
/// `base` adds nothing, and otherwise exactly one `/` comes between the two.
pub open spec fn joined(base: Seq<char>, rel: Seq<char>) -> Seq<char> {
    if base.len() == 0 || (rel.len() > 0 && rel[0] == '/') {
        rel
    } else if base.last() == '/' {
        base + rel
    } else {
        base + seq!['/'] + rel
    }
}

/// `path` seen from `root`: what follows `root` and the `/` after it. `None`
/// where `path` does not lie under `root`.
pub open spec fn relative(root: Seq<char>, path: Seq<char>) -> Option<Seq<char>> {
    if root.len() == 0 {
        Some(path)
    } else if !starts_with(path, root) {
        None
    } else if root.last() == '/' {
        Some(path.skip(root.len() as int))
    } else if path.len() > root.len() && path[root.len() as int] == '/' {
        Some(path.skip(root.len() as int + 1))
    } else {
        None
    }
}

/// Joins `rel` onto `base`.
pub fn join(base: &str, rel: &str) -> (path: String)
    ensures
        path@ == joined(base@, rel@),
{
    let n = base.unicode_len();
    let m = rel.unicode_len();
    if n == 0 || (m > 0 && rel.get_char(0) == '/') {
        String::from_str(rel)
    } else if base.get_char(n - 1) == '/' {
        String::from_str(base).concat(rel)
    } else {
        proof {
            reveal_strlit("/");
            assert("/"@ =~= seq!['/']);
        }
        String::from_str(base).concat("/").concat(rel)
    }
}

/// Takes `root` off the front of `path`.
pub fn strip_root(root: &str, path: &str) -> (rest: Option<String>)
    ensures
        match rest {
            Some(text) => relative(root@, path@) == Some(text@),
            None => relative(root@, path@) is None,
        },
{
    let r = root.unicode_len();
    let p = path.unicode_len();
    if r == 0 {
        return Some(String::from_str(path));
    }
    if !has_prefix(path, root) {
        return None;
    }
    let from = if root.get_char(r - 1) == '/' {
        r
    } else if p > r && path.get_char(r) == '/' {
        r + 1
    } else {
        return None;
    };
    assert(path@.subrange(from as int, p as int) =~= path@.skip(from as int));
    Some(String::from_str(path.substring_char(from, p)))
}

/// What was joined onto a root is found again by taking the root off: for
/// every root and every relative path, `relative(root, joined(root, rel))`
/// is `rel`.
pub proof fn lemma_relative_of_joined(root: Seq<char>, rel: Seq<char>)
    requires
        rel.len() > 0 ==> rel[0] != '/',
    ensures
        relative(root, joined(root, rel)) == Some(rel),
{
    let path = joined(root, rel);
    if root.len() == 0 {
    } else if root.last() == '/' {
        assert(path.subrange(0, root.len() as int) =~= root);
        assert(path.skip(root.len() as int) =~= rel);
    } else {
        assert(path.subrange(0, root.len() as int) =~= root);
        assert(path[root.len() as int] == '/');
        assert(path.skip(root.len() as int + 1) =~= rel);
    }
}

} // verus!
