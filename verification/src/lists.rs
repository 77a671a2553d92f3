//! Lists of paths treated as ordered sets: membership, removal of repeats,
//! and difference.

use vstd::prelude::*;
use crate::text::same_text;

verus! {

/// The elements of `list` in order of first appearance, each once.
pub open spec fn distinct(list: Seq<Seq<char>>) -> Seq<Seq<char>>
    decreases list.len(),
{
    if list.len() == 0 {
        Seq::empty()
    } else {
        let before = distinct(list.drop_last());
        if before.contains(list.last()) {
            before
        } else {
            before.push(list.last())
        }
    }
}

/// The elements of `list` that do not occur in `other`, in order.
pub open spec fn without(list: Seq<Seq<char>>, other: Seq<Seq<char>>) -> Seq<Seq<char>>
    decreases list.len(),
{
    if list.len() == 0 {
        Seq::empty()
    } else {
        let before = without(list.drop_last(), other);
        if other.contains(list.last()) {
            before
        } else {
            before.push(list.last())
        }
    }
}

/// `distinct` keeps exactly the elements of the list and repeats none.
pub proof fn lemma_distinct(list: Seq<Seq<char>>)
    ensures
        distinct(list).no_duplicates(),
        forall|x: Seq<char>| #[trigger] distinct(list).contains(x) <==> list.contains(x),
        list.no_duplicates() ==> distinct(list) == list,
    decreases list.len(),
{
    if list.len() > 0 {
        let rest = list.drop_last();
        let before = distinct(rest);
        lemma_distinct(rest);
        assert forall|x: Seq<char>| #[trigger] distinct(list).contains(x) <==> list.contains(
            x,
        ) by {
            if list.contains(x) {
                let i = choose|i: int| 0 <= i < list.len() && list[i] == x;
                if i < rest.len() {
                    assert(rest[i] == x);
                    assert(rest.contains(x));
                    assert(before.contains(x));
                    let k = choose|k: int| 0 <= k < before.len() && before[k] == x;
                    assert(distinct(list)[k] == x);
                } else {
                    if !before.contains(x) {
                        assert(distinct(list)[before.len() as int] == x);
                    } else {
                        let k = choose|k: int| 0 <= k < before.len() && before[k] == x;
                        assert(distinct(list)[k] == x);
                    }
                }
            }
            if distinct(list).contains(x) {
                let k = choose|k: int| 0 <= k < distinct(list).len() && distinct(list)[k] == x;
                if k < before.len() {
                    assert(before[k] == x);
                    assert(before.contains(x));
                    let i = choose|i: int| 0 <= i < rest.len() && rest[i] == x;
                    assert(list[i] == x);
                } else {
                    assert(list[list.len() - 1] == x);
                }
            }
        }
        if list.no_duplicates() {
            assert(rest.no_duplicates());
            if before.contains(list.last()) {
                let i = choose|i: int| 0 <= i < rest.len() && rest[i] == list.last();
                assert(list[i] == list[list.len() - 1]);
            }
            assert(rest.push(list.last()) =~= list);
        }
    }
}

/// `without` keeps exactly the elements of the list that the other list
/// lacks, and repeats none where the list repeats none.
pub proof fn lemma_without(list: Seq<Seq<char>>, other: Seq<Seq<char>>)
    ensures
        forall|x: Seq<char>| #[trigger]
            without(list, other).contains(x) <==> list.contains(x) && !other.contains(x),
        list.no_duplicates() ==> without(list, other).no_duplicates(),
        without(list, other).len() <= list.len(),
    decreases list.len(),
{
    if list.len() > 0 {
        let rest = list.drop_last();
        let before = without(rest, other);
        let after = without(list, other);
        lemma_without(rest, other);
        assert forall|x: Seq<char>| #[trigger]
            after.contains(x) <==> list.contains(x) && !other.contains(x) by {
            if list.contains(x) && !other.contains(x) {
                let i = choose|i: int| 0 <= i < list.len() && list[i] == x;
                if i < rest.len() {
                    assert(rest[i] == x);
                    assert(rest.contains(x));
                    assert(before.contains(x));
                    let k = choose|k: int| 0 <= k < before.len() && before[k] == x;
                    assert(after[k] == x);
                } else {
                    assert(after[before.len() as int] == x);
                }
            }
            if after.contains(x) {
                let k = choose|k: int| 0 <= k < after.len() && after[k] == x;
                if k < before.len() {
                    assert(before[k] == x);
                    assert(before.contains(x));
                    let i = choose|i: int| 0 <= i < rest.len() && rest[i] == x;
                    assert(list[i] == x);
                } else {
                    assert(list[list.len() - 1] == x);
                }
            }
        }
        if list.no_duplicates() {
            assert(rest.no_duplicates());
            if !other.contains(list.last()) {
                if before.contains(list.last()) {
                    assert(rest.contains(list.last()));
                    let i = choose|i: int| 0 <= i < rest.len() && rest[i] == list.last();
                    assert(list[i] == list[list.len() - 1]);
                }
            }
        }
    }
}

/// Whether `list` holds the text `item`.
pub fn contains_path(list: &Vec<String>, item: &str) -> (yes: bool)
    ensures
        yes == list.deep_view().contains(item@),
{
    let mut i: usize = 0;
    while i < list.len()
        invariant
            i <= list.len(),
            forall|k: int| 0 <= k < i ==> list.deep_view()[k] != item@,
        decreases list.len() - i,
    {
        if same_text(list[i].as_str(), item) {
            assert(list.deep_view()[i as int] == item@);
            return true;
        }
        i += 1;
    }
    false
}

/// Appends a copy of `item` to `list` unless the list holds it already.
pub fn push_distinct(list: &mut Vec<String>, item: &str)
    ensures
        final(list).deep_view() == if old(list).deep_view().contains(item@) {
            old(list).deep_view()
        } else {
            old(list).deep_view().push(item@)
        },
{
    if !contains_path(list, item) {
        let ghost before = list.deep_view();
        list.push(crate::text::owned(item));
        assert(list.deep_view() =~= before.push(item@));
    }
}

/// The elements of `list` in order of first appearance, each once.
pub fn distinct_paths(list: &Vec<String>) -> (unique: Vec<String>)
    ensures
        unique.deep_view() == distinct(list.deep_view()),
{
    let mut unique: Vec<String> = Vec::new();
    let mut i: usize = 0;
    assert(unique.deep_view() =~= Seq::empty());
    while i < list.len()
        invariant
            i <= list.len(),
            unique.deep_view() == distinct(list.deep_view().take(i as int)),
        decreases list.len() - i,
    {
        assert(list.deep_view().take(i + 1).drop_last() =~= list.deep_view().take(i as int));
        push_distinct(&mut unique, list[i].as_str());
        i += 1;
    }
    assert(list.deep_view().take(list.len() as int) =~= list.deep_view());
    unique
}

/// The elements of `list` that do not occur in `other`, in order.
pub fn paths_without(list: &Vec<String>, other: &Vec<String>) -> (rest: Vec<String>)
    ensures
        rest.deep_view() == without(list.deep_view(), other.deep_view()),
{
    let mut rest: Vec<String> = Vec::new();
    let mut i: usize = 0;
    assert(rest.deep_view() =~= Seq::empty());
    while i < list.len()
        invariant
            i <= list.len(),
            rest.deep_view() == without(list.deep_view().take(i as int), other.deep_view()),
        decreases list.len() - i,
    {
        assert(list.deep_view().take(i + 1).drop_last() =~= list.deep_view().take(i as int));
        if !contains_path(other, list[i].as_str()) {
            let ghost before = rest.deep_view();
            rest.push(list[i].clone());
            assert(rest.deep_view() =~= before.push(list.deep_view()[i as int]));
        }
        i += 1;
    }
    assert(list.deep_view().take(list.len() as int) =~= list.deep_view());
    rest
}

} // verus!
