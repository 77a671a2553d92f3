//! Socket paths as text, and the few questions the crate asks of them.
//!
//! A path is held as a string.  Its *components* are the pieces between `/`
//! separators, leaving out empty pieces (doubled or trailing separators) and
//! the piece `.`; the piece `..` is a component like any other, but it never
//! counts as a name.

use vstd::prelude::*;
use vstd::string::StringExecFns;
use crate::text::{chars_of, ends_with, owned, same_chars, string_of};

verus! {

/// The pieces of `s` between `/` separators.  There is always at least one;
/// a piece is empty where two separators meet or `s` begins or ends with one.
pub open spec fn pieces(s: Seq<char>) -> Seq<Seq<char>>
    decreases s.len(),
{
    if s.len() == 0 {
        seq![Seq::empty()]
    } else {
        let before = pieces(s.drop_last());
        if s.last() == '/' {
            before.push(Seq::empty())
        } else {
            before.drop_last().push(before.last().push(s.last()))
        }
    }
}

/// Whether a piece counts as a component: it is neither empty nor `.`.
pub open spec fn is_component(piece: Seq<char>) -> bool {
    piece.len() > 0 && piece != seq!['.']
}

/// The components of the path `s`, first to last.
pub open spec fn components(s: Seq<char>) -> Seq<Seq<char>> {
    pieces(s).filter(|piece: Seq<char>| is_component(piece))
}

/// Whether the path begins at the root directory.
pub open spec fn is_rooted(s: Seq<char>) -> bool {
    s.len() > 0 && s[0] == '/'
}

/// Whether a component names a file or directory, which `..` does not.
pub open spec fn is_name(component: Seq<char>) -> bool {
    component != seq!['.', '.']
}

/// The name of the file or directory that the path leads to: its last
/// component, if there is one and it is a name.
pub open spec fn file_name(s: Seq<char>) -> Option<Seq<char>> {
    let parts = components(s);
    if parts.len() >= 1 && is_name(parts.last()) {
        Some(parts.last())
    } else {
        None
    }
}

/// The name of the directory that holds what the path leads to: the component
/// before the last, if there is one and it is a name.
pub open spec fn parent_name(s: Seq<char>) -> Option<Seq<char>> {
    let parts = components(s);
    if parts.len() >= 2 && is_name(parts[parts.len() - 2]) {
        Some(parts[parts.len() - 2])
    } else {
        None
    }
}

/// Whether the path is the top-level directory `top` of the root or lies
/// anywhere below it.
pub open spec fn is_under(s: Seq<char>, top: Seq<char>) -> bool {
    is_rooted(s) && components(s).len() >= 1 && components(s)[0] == top
}

/// Whether the path names an entry directly inside the top-level directory
/// `top` of the root.
pub open spec fn is_directly_under(s: Seq<char>, top: Seq<char>) -> bool {
    is_rooted(s) && components(s).len() == 2 && components(s)[0] == top
}

/// The views of a list of character vectors.
pub open spec fn views(list: Seq<Vec<char>>) -> Seq<Seq<char>> {
    Seq::new(list.len(), |i: int| list[i]@)
}

proof fn lemma_components_push(all: Seq<Seq<char>>, piece: Seq<char>)
    ensures
        all.push(piece).filter(|p: Seq<char>| is_component(p)) == if is_component(piece) {
            all.filter(|p: Seq<char>| is_component(p)).push(piece)
        } else {
            all.filter(|p: Seq<char>| is_component(p))
        },
{
    reveal(Seq::filter);
    assert(all.push(piece).drop_last() == all);
}

/// Splits `path` into its components.
pub fn split_components(path: &str) -> (parts: Vec<Vec<char>>)
    ensures
        views(parts@) == components(path@),
{
    let chars = chars_of(path);
    let mut parts: Vec<Vec<char>> = Vec::new();
    let mut current: Vec<char> = Vec::new();
    let mut i: usize = 0;
    while i < chars.len()
        invariant
            i <= chars.len(),
            chars@ == path@,
            current@ == pieces(chars@.take(i as int)).last(),
            views(parts@) == pieces(chars@.take(i as int)).drop_last().filter(
                |p: Seq<char>| is_component(p),
            ),
            pieces(chars@.take(i as int)).len() >= 1,
        decreases chars.len() - i,
    {
        let ghost seen = chars@.take(i as int);
        let ghost next = chars@.take(i + 1);
        assert(next.drop_last() == seen);
        assert(next.last() == chars@[i as int]);
        let c = chars[i];
        if c == '/' {
            proof {
                lemma_components_push(pieces(seen).drop_last(), pieces(seen).last());
                assert(pieces(seen).drop_last().push(pieces(seen).last()) == pieces(seen));
                assert(pieces(next).drop_last() == pieces(seen));
            }
            if keep_component(&current) {
                let ghost before = views(parts@);
                parts.push(current);
                assert(views(parts@) == before.push(pieces(seen).last()));
            }
            current = Vec::new();
        } else {
            current.push(c);
            assert(pieces(next).drop_last() == pieces(seen).drop_last());
        }
        i += 1;
    }
    proof {
        let whole = pieces(chars@);
        assert(chars@.take(chars.len() as int) == chars@);
        lemma_components_push(whole.drop_last(), whole.last());
        assert(whole.drop_last().push(whole.last()) == whole);
    }
    if keep_component(&current) {
        let ghost before = views(parts@);
        parts.push(current);
        assert(views(parts@) == before.push(pieces(chars@).last()));
    }
    parts
}

fn keep_component(piece: &Vec<char>) -> (keep: bool)
    ensures
        keep == is_component(piece@),
{
    if piece.len() == 0 {
        false
    } else if piece.len() == 1 {
        assert(piece@ == seq!['.'] <==> piece@[0] == '.') by {
            if piece@[0] == '.' {
                assert(piece@ =~= seq!['.']);
            }
        }
        piece[0] != '.'
    } else {
        assert(seq!['.'].len() == 1);
        true
    }
}

/// Whether a component is a name.
pub fn component_is_name(component: &Vec<char>) -> (yes: bool)
    ensures
        yes == is_name(component@),
{
    if component.len() == 2 {
        assert(component@ == seq!['.', '.'] <==> component@[0] == '.' && component@[1] == '.') by {
            if component@[0] == '.' && component@[1] == '.' {
                assert(component@ =~= seq!['.', '.']);
            }
        }
        !(component[0] == '.' && component[1] == '.')
    } else {
        assert(seq!['.', '.'].len() == 2);
        true
    }
}

/// Whether `path` begins at the root directory.
pub fn path_is_rooted(path: &str) -> (yes: bool)
    ensures
        yes == is_rooted(path@),
{
    let chars = chars_of(path);
    chars.len() > 0 && chars[0] == '/'
}

/// Whether `path` is the top-level directory `top` or lies below it.
pub fn path_is_under(path: &str, top: &str) -> (yes: bool)
    ensures
        yes == is_under(path@, top@),
{
    if !path_is_rooted(path) {
        return false;
    }
    let parts = split_components(path);
    let wanted = chars_of(top);
    assert(views(parts@).len() == parts@.len());
    if parts.len() >= 1 {
        assert(views(parts@)[0] == parts@[0]@);
        same_chars(&parts[0], &wanted)
    } else {
        false
    }
}

/// Whether `path` names an entry directly inside the top-level directory `top`.
pub fn path_is_directly_under(path: &str, top: &str) -> (yes: bool)
    ensures
        yes == is_directly_under(path@, top@),
{
    if !path_is_rooted(path) {
        return false;
    }
    let parts = split_components(path);
    let wanted = chars_of(top);
    assert(views(parts@).len() == parts@.len());
    if parts.len() == 2 {
        assert(views(parts@)[0] == parts@[0]@);
        same_chars(&parts[0], &wanted)
    } else {
        false
    }
}

/// The name of the file or directory that `path` leads to, if it has one.
pub fn file_name_of(path: &str) -> (name: Option<String>)
    ensures
        name.deep_view() == file_name(path@),
{
    let parts = split_components(path);
    assert(views(parts@).len() == parts@.len());
    if parts.len() >= 1 {
        let last = parts.len() - 1;
        assert(views(parts@)[last as int] == parts@[last as int]@);
        if component_is_name(&parts[last]) {
            return Some(string_of(&parts[last]));
        }
    }
    None
}

/// The name of the directory that holds what `path` leads to, if it has one.
pub fn parent_name_of(path: &str) -> (name: Option<String>)
    ensures
        name.deep_view() == parent_name(path@),
{
    let parts = split_components(path);
    assert(views(parts@).len() == parts@.len());
    if parts.len() >= 2 {
        let at = parts.len() - 2;
        assert(views(parts@)[at as int] == parts@[at as int]@);
        if component_is_name(&parts[at]) {
            return Some(string_of(&parts[at]));
        }
    }
    None
}

/// The path of the entry `name` of the directory `dir`: the two joined by a
/// separator, unless `dir` is empty or ends with one.
pub open spec fn child(dir: Seq<char>, name: Seq<char>) -> Seq<char> {
    if dir.len() == 0 || "/"@.is_suffix_of(dir) {
        dir + name
    } else {
        dir + "/"@ + name
    }
}

/// The path of the entry `name` of the directory `dir`.
pub fn child_path(dir: &str, name: &str) -> (path: String)
    ensures
        path@ == child(dir@, name@),
{
    let mut path = owned(dir);
    if !(dir.unicode_len() == 0 || ends_with(dir, "/")) {
        path.append("/");
    }
    path.append(name);
    path
}

} // verus!
