//! Relative paths that stay below the directory they are joined to.

use crate::text::chars_of;
use vstd::prelude::*;
use vstd::string::StringExecFns;

verus! {

/// Whether `c` parts the components of a path. Both strokes count, as an
/// archive may have been written with either.
pub open spec fn is_separator(c: char) -> bool {
    c == '/' || c == '\\'
}

/// Whether the two characters from `at` on are a component `..` of `path`.
pub open spec fn parent_component_at(path: Seq<char>, at: int) -> bool {
    &&& 0 <= at
    &&& at + 2 <= path.len()
    &&& path[at] == '.'
    &&& path[at + 1] == '.'
    &&& (at == 0 || is_separator(path[at - 1]))
    &&& (at + 2 == path.len() || is_separator(path[at + 2]))
}

/// Whether some component of `path` is `..`.
pub open spec fn has_parent_component(path: Seq<char>) -> bool {
    exists|at: int| parent_component_at(path, at)
}

/// Whether `path` starts at a root.
pub open spec fn is_rooted(path: Seq<char>) -> bool {
    path.len() > 0 && is_separator(path[0])
}

/// Whether `path` names something below the directory it is joined to: it is
/// not empty, starts at no root, steps to no parent and holds no NUL.
pub open spec fn stays_below(path: Seq<char>) -> bool {
    &&& path.len() > 0
    &&& !is_rooted(path)
    &&& !has_parent_component(path)
    &&& !path.contains('\0')
}

/// `dir` with a closing stroke, so that what follows it lies below it.
pub open spec fn dir_prefix(dir: Seq<char>) -> Seq<char> {
    if dir.len() == 0 || dir.last() == '/' {
        dir
    } else {
        dir.push('/')
    }
}

/// The path of `rel` below `dir`.
pub open spec fn joined(dir: Seq<char>, rel: Seq<char>) -> Seq<char> {
    dir_prefix(dir) + rel
}

fn is_stroke(c: char) -> (r: bool)
    ensures
        r == is_separator(c),
{
    c == '/' || c == '\\'
}

/// Whether `path` stays below the directory it is joined to.
pub fn is_contained_path(path: &str) -> (contained: bool)
    ensures
        contained == stays_below(path@),
{
    let chars = chars_of(path);
    let n = chars.len();
    if n == 0 {
        return false;
    }
    if is_stroke(chars[0]) {
        return false;
    }
    let mut i: usize = 0;
    while i < n
        invariant
            i <= n,
            n == chars.len(),
            chars@ == path@,
            forall|j: int| 0 <= j < i ==> !parent_component_at(path@, j),
            forall|j: int| 0 <= j < i ==> path@[j] != '\0',
        decreases n - i,
    {
        if chars[i] == '\0' {
            assert(path@.contains('\0'));
            return false;
        }
        if chars[i] == '.' && i + 1 < n && chars[i + 1] == '.' {
            let opens = i == 0 || is_stroke(chars[i - 1]);
            let closes = i + 2 == n || is_stroke(chars[i + 2]);
            if opens && closes {
                assert(parent_component_at(path@, i as int));
                return false;
            }
        }
        i += 1;
    }
    proof {
        assert forall|at: int| !parent_component_at(path@, at) by {
            if 0 <= at < n {
                assert(!parent_component_at(path@, at));
            }
        }
        assert(!path@.contains('\0'));
    }
    true
}

/// The path of `rel` below `dir`: `dir`, a stroke unless `dir` is empty or
/// ends in one, then `rel`.
pub fn join_below(dir: &str, rel: &str) -> (path: String)
    ensures
        path@ == joined(dir@, rel@),
{
    let chars = chars_of(dir);
    let n = chars.len();
    let base = dir.to_owned();
    if n == 0 || chars[n - 1] == '/' {
        base.concat(rel)
    } else {
        proof {
            reveal_strlit("/");
            assert("/"@ =~= seq!['/']);
            assert(dir@ + "/"@ =~= dir@.push('/'));
        }
        base.concat("/").concat(rel)
    }
}

/// What is joined to a directory starts with that directory.
pub proof fn lemma_joined_starts_with_dir(dir: Seq<char>, rel: Seq<char>)
    ensures
        joined(dir, rel).len() >= dir.len(),
        joined(dir, rel).take(dir.len() as int) == dir,
        joined(dir, rel).skip(dir_prefix(dir).len() as int) == rel,
{
    assert(joined(dir, rel).take(dir.len() as int) =~= dir);
    assert(joined(dir, rel).skip(dir_prefix(dir).len() as int) =~= rel);
}

/// A path that starts at a root or holds a component `..` does not stay below.
pub proof fn lemma_traversal_is_refused(path: Seq<char>, at: int)
    requires
        is_rooted(path) || parent_component_at(path, at),
    ensures
        !stays_below(path),
{
}

} // verus!
