//! The path resolver: it combines the key of the module that asks with the
//! reference it wrote into the key of the module that is meant.
//!
//! A key names a module as a file, so one `.` leaves the file itself, and
//! `..` leaves the file and its directory.

use vstd::prelude::*;
use vstd::string::StringExecFns;
use crate::text::{join, join_strings, lemma_split_nonempty, split, split_str, views};

verus! {

/// The segment `.`.
pub open spec fn dot() -> Seq<char> {
    seq!['.']
}

/// The segment `..`.
pub open spec fn dot_dot() -> Seq<char> {
    seq!['.', '.']
}

/// A reference is relative when one of its segments is `.` or `..`.
pub open spec fn is_relative(parts: Seq<Seq<char>>) -> bool {
    parts.contains(dot()) || parts.contains(dot_dot())
}

/// `segments` without its last element; an empty list stays empty.
pub open spec fn pop(segments: Seq<Seq<char>>) -> Seq<Seq<char>> {
    if segments.len() > 0 {
        segments.drop_last()
    } else {
        segments
    }
}

/// What one segment of a reference does to the segments gathered so far.
pub open spec fn apply(segments: Seq<Seq<char>>, part: Seq<char>) -> Seq<Seq<char>> {
    if part == dot_dot() {
        pop(pop(segments))
    } else if part == dot() {
        pop(segments)
    } else {
        segments.push(part)
    }
}

/// The segments that remain after every part was applied, left to right.
pub open spec fn walk(segments: Seq<Seq<char>>, parts: Seq<Seq<char>>) -> Seq<Seq<char>>
    decreases parts.len(),
{
    if parts.len() == 0 {
        segments
    } else {
        apply(walk(segments, parts.drop_last()), parts.last())
    }
}

/// The segments the walk starts from: those of the caller when the reference
/// begins with `.` or `..`, none otherwise.
pub open spec fn seed(caller: Seq<char>, parts: Seq<Seq<char>>) -> Seq<Seq<char>> {
    if parts.len() > 0 && (parts[0] == dot() || parts[0] == dot_dot()) {
        split(caller, '/')
    } else {
        Seq::<Seq<char>>::empty()
    }
}

/// The key that `reference` names when the module `caller` writes it.
pub open spec fn resolve(caller: Seq<char>, reference: Seq<char>) -> Seq<char> {
    let parts = split(reference, '/');
    if is_relative(parts) {
        join(walk(seed(caller, parts), parts), seq!['/'])
    } else {
        reference
    }
}

/// A reference none of whose segments is `.` or `..` names its module
/// outright: it resolves to itself, whoever asks.
pub proof fn lemma_absolute_reference(caller: Seq<char>, reference: Seq<char>)
    requires
        !is_relative(split(reference, '/')),
    ensures
        resolve(caller, reference) == reference,
{
}

fn is_dot(part: &String) -> (yes: bool)
    ensures
        yes == (part@ == dot()),
{
    let single = String::from_str(".");
    proof {
        reveal_strlit(".");
        assert(single@ =~= dot());
    }
    *part == single
}

fn is_dot_dot(part: &String) -> (yes: bool)
    ensures
        yes == (part@ == dot_dot()),
{
    let double = String::from_str("..");
    proof {
        reveal_strlit("..");
        assert(double@ =~= dot_dot());
    }
    *part == double
}

fn has_relative_part(parts: &Vec<String>) -> (yes: bool)
    ensures
        yes == is_relative(views(parts@)),
{
    let mut i: usize = 0;
    while i < parts.len()
        invariant
            i <= parts.len(),
            forall|j: int| 0 <= j < i ==> views(parts@)[j] != dot() && views(parts@)[j] != dot_dot(),
        decreases parts.len() - i,
    {
        if is_dot(&parts[i]) || is_dot_dot(&parts[i]) {
            proof {
                assert(views(parts@)[i as int] == parts@[i as int]@);
                assert(views(parts@).contains(views(parts@)[i as int]));
            }
            return true;
        }
        i = i + 1;
    }
    false
}

/// Resolves `next_path`, as written in the module `cur_path`, to a module key.
pub fn parse_path(cur_path: &str, next_path: &str) -> (key: String)
    ensures
        key@ == resolve(cur_path@, next_path@),
{
    let path_parts = split_str(next_path, '/');
    if !has_relative_part(&path_parts) {
        return String::from_str(next_path);
    }
    proof {
        lemma_split_nonempty(next_path@, '/');
    }
    let mut new_path: Vec<String> = Vec::new();
    if is_dot(&path_parts[0]) || is_dot_dot(&path_parts[0]) {
        new_path = split_str(cur_path, '/');
    }
    proof {
        assert(views(path_parts@)[0] == path_parts@[0]@);
        assert(views(new_path@) =~= seed(cur_path@, views(path_parts@)));
    }
    let mut i: usize = 0;
    while i < path_parts.len()
        invariant
            i <= path_parts.len(),
            views(new_path@) == walk(
                seed(cur_path@, views(path_parts@)),
                views(path_parts@).take(i as int),
            ),
        decreases path_parts.len() - i,
    {
        proof {
            let done = views(path_parts@).take(i + 1);
            assert(done.drop_last() == views(path_parts@).take(i as int));
            assert(done.last() == path_parts@[i as int]@);
        }
        let ghost before = views(new_path@);
        if is_dot_dot(&path_parts[i]) {
            new_path.pop();
            new_path.pop();
            proof {
                assert(views(new_path@) =~= pop(pop(before)));
            }
        } else if is_dot(&path_parts[i]) {
            new_path.pop();
            proof {
                assert(views(new_path@) =~= pop(before));
            }
        } else {
            new_path.push(path_parts[i].clone());
            proof {
                assert(views(new_path@) =~= before.push(path_parts@[i as int]@));
            }
        }
        i = i + 1;
    }
    proof {
        assert(views(path_parts@).take(i as int) == views(path_parts@));
        reveal_strlit("/");
        assert("/"@ =~= seq!['/']);
    }
    join_strings(&new_path, "/")
}

} // verus!
