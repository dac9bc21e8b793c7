//! The persistence gateway's pure half: the tag-set diff a save applies.
//!
//! A save writes the task's fields and then brings the stored tag rows
//! in line with the task's tag set: insert what is new, delete what is
//! gone. Which rows those are is computed here, verified; the gateway
//! only executes the statements.

use vstd::prelude::*;

verus! {

pub open spec fn has_tag_str(s: Seq<Seq<char>>, x: Seq<char>) -> bool {
    exists|i: int| 0 <= i < s.len() && s[i] == x
}

pub open spec fn distinct_strs(s: Seq<Seq<char>>) -> bool {
    forall|i: int, j: int| 0 <= i < j < s.len() ==> s[i] != s[j]
}

fn contains_str(v: &Vec<String>, x: &String) -> (r: bool)
    ensures
        r == has_tag_str(v.deep_view(), x@),
{
    let mut i: usize = 0;
    while i < v.len()
        invariant
            i <= v@.len(),
            forall|j: int| 0 <= j < i ==> v.deep_view()[j] != x@,
        decreases v@.len() - i,
    {
        if v[i].eq(x) {
            proof {
                assert(v.deep_view()[i as int] == x@);
            }
            return true;
        }
        i += 1;
    }
    false
}

/// Those entries of `from` that are missing in `without`, each once.
fn difference(from: &Vec<String>, without: &Vec<String>) -> (r: Vec<String>)
    ensures
        distinct_strs(r.deep_view()),
        forall|k: int|
            0 <= k < r.deep_view().len() ==> has_tag_str(
                from.deep_view(),
                #[trigger] r.deep_view()[k],
            ) && !has_tag_str(without.deep_view(), r.deep_view()[k]),
        forall|k: int|
            0 <= k < from.deep_view().len() ==> has_tag_str(
                without.deep_view(),
                #[trigger] from.deep_view()[k],
            ) || has_tag_str(r.deep_view(), from.deep_view()[k]),
{
    let mut r: Vec<String> = Vec::new();
    let mut i: usize = 0;
    while i < from.len()
        invariant
            i <= from@.len(),
            from.deep_view().len() == from@.len(),
            distinct_strs(r.deep_view()),
            forall|k: int|
                0 <= k < r.deep_view().len() ==> has_tag_str(
                    from.deep_view(),
                    #[trigger] r.deep_view()[k],
                ) && !has_tag_str(without.deep_view(), r.deep_view()[k]),
            forall|k: int|
                0 <= k < i ==> has_tag_str(without.deep_view(), #[trigger] from.deep_view()[k])
                    || has_tag_str(r.deep_view(), from.deep_view()[k]),
        decreases from@.len() - i,
    {
        let x = &from[i];
        proof {
            assert(from.deep_view()[i as int] == x@);
        }
        if !contains_str(without, x) && !contains_str(&r, x) {
            let ghost before = r.deep_view();
            r.push(x.clone());
            proof {
                assert(r.deep_view() =~~= before.push(x@));
                assert(r.deep_view()[before.len() as int] == x@);
                assert(has_tag_str(from.deep_view(), x@)) by {
                    assert(from.deep_view()[i as int] == x@);
                }
                assert forall|a: int, b: int|
                    0 <= a < b < r.deep_view().len() implies r.deep_view()[a] != r.deep_view()[b] by {
                    if b == before.len() as int {
                        assert(!has_tag_str(before, x@));
                        assert(before[a] == r.deep_view()[a]);
                    }
                }
                assert forall|k: int|
                    0 <= k < i + 1 && !has_tag_str(
                        without.deep_view(),
                        #[trigger] from.deep_view()[k],
                    ) implies has_tag_str(r.deep_view(), from.deep_view()[k]) by {
                    if k == i as int {
                        assert(r.deep_view()[before.len() as int] == from.deep_view()[k]);
                    } else {
                        let j = choose|j: int|
                            0 <= j < before.len() && before[j] == from.deep_view()[k];
                        assert(r.deep_view()[j] == from.deep_view()[k]);
                    }
                }
            }
        }
        i += 1;
    }
    r
}

/// The rows a save must touch: `(to_add, to_remove)` — the task's tags
/// not yet stored, and the stored tags the task no longer carries.
/// Either list names each tag once.
pub fn tag_diff(stored: &Vec<String>, current: &Vec<String>) -> (r: (Vec<String>, Vec<String>))
    ensures
        distinct_strs(r.0.deep_view()),
        distinct_strs(r.1.deep_view()),
        forall|k: int|
            0 <= k < r.0.deep_view().len() ==> has_tag_str(
                current.deep_view(),
                #[trigger] r.0.deep_view()[k],
            ) && !has_tag_str(stored.deep_view(), r.0.deep_view()[k]),
        forall|k: int|
            0 <= k < current.deep_view().len() ==> has_tag_str(
                stored.deep_view(),
                #[trigger] current.deep_view()[k],
            ) || has_tag_str(r.0.deep_view(), current.deep_view()[k]),
        forall|k: int|
            0 <= k < r.1.deep_view().len() ==> has_tag_str(
                stored.deep_view(),
                #[trigger] r.1.deep_view()[k],
            ) && !has_tag_str(current.deep_view(), r.1.deep_view()[k]),
        forall|k: int|
            0 <= k < stored.deep_view().len() ==> has_tag_str(
                current.deep_view(),
                #[trigger] stored.deep_view()[k],
            ) || has_tag_str(r.1.deep_view(), stored.deep_view()[k]),
{
    let to_add = difference(current, stored);
    let to_remove = difference(stored, current);
    (to_add, to_remove)
}

} // verus!
