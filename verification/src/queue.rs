//! The work list of a walk: keys in the order in which they were first
//! named, none of them twice.

use vstd::prelude::*;
use crate::text::views;

verus! {

/// The keys of `order`, and after them each key of `imports` that is neither
/// in `order` nor earlier in `imports`.
pub open spec fn enqueue(order: Seq<Seq<char>>, imports: Seq<Seq<char>>) -> Seq<Seq<char>>
    decreases imports.len(),
{
    if imports.len() == 0 {
        order
    } else {
        let before = enqueue(order, imports.drop_last());
        if before.contains(imports.last()) {
            before
        } else {
            before.push(imports.last())
        }
    }
}

/// The keys of `imports` without repetitions, each where it first occurs.
pub open spec fn unique(imports: Seq<Seq<char>>) -> Seq<Seq<char>> {
    enqueue(Seq::<Seq<char>>::empty(), imports)
}

/// No key occurs twice.
pub open spec fn distinct(keys: Seq<Seq<char>>) -> bool {
    forall|i: int, j: int| 0 <= i < j < keys.len() ==> keys[i] != keys[j]
}

/// Queueing keeps what was queued, in place, and adds no key twice: a list
/// without repetitions stays one.
pub proof fn lemma_enqueue(order: Seq<Seq<char>>, imports: Seq<Seq<char>>)
    ensures
        enqueue(order, imports).len() >= order.len(),
        enqueue(order, imports).take(order.len() as int) == order,
        distinct(order) ==> distinct(enqueue(order, imports)),
        forall|k: Seq<char>|
            enqueue(order, imports).contains(k) <==> order.contains(k) || imports.contains(k),
    decreases imports.len(),
{
    let after = enqueue(order, imports);
    if imports.len() == 0 {
        assert(order.take(order.len() as int) == order);
        assert forall|k: Seq<char>| after.contains(k) <==> order.contains(k) || imports.contains(
            k,
        ) by {
            if imports.contains(k) {
                let i = choose|i: int| 0 <= i < imports.len() && imports[i] == k;
            }
        }
    } else {
        let init = imports.drop_last();
        let before = enqueue(order, init);
        lemma_enqueue(order, init);
        assert(after.take(order.len() as int) =~= before.take(order.len() as int));
        assert forall|k: Seq<char>| after.contains(k) <==> order.contains(k) || imports.contains(
            k,
        ) by {
            if imports.contains(k) {
                let i = choose|i: int| 0 <= i < imports.len() && imports[i] == k;
                if i < init.len() {
                    assert(init[i] == k);
                    assert(init.contains(k));
                } else {
                    assert(k == imports.last());
                }
            }
            if init.contains(k) {
                let i = choose|i: int| 0 <= i < init.len() && init[i] == k;
                assert(imports[i] == k);
            }
            assert(imports.contains(imports.last())) by {
                assert(imports[imports.len() - 1] == imports.last());
            }
            if before.contains(k) {
                let i = choose|i: int| 0 <= i < before.len() && before[i] == k;
                if !before.contains(imports.last()) {
                    assert(after[i] == k);
                }
            }
            if after.contains(k) && !before.contains(imports.last()) {
                let i = choose|i: int| 0 <= i < after.len() && after[i] == k;
                if i < before.len() {
                    assert(before[i] == k);
                }
            }
            if !before.contains(imports.last()) {
                assert(after[after.len() - 1] == imports.last());
            }
        }
        if distinct(order) && !before.contains(imports.last()) {
            assert forall|i: int, j: int| 0 <= i < j < after.len() implies after[i] != after[j] by {
                if j == after.len() - 1 {
                    assert(before[i] == after[i]);
                    assert(before.contains(after[i]));
                } else {
                    assert(before[i] == after[i]);
                    assert(before[j] == after[j]);
                }
            }
        }
    }
}

/// Whether `key` is one of `keys`.
pub fn has_key(keys: &Vec<String>, key: &String) -> (found: bool)
    ensures
        found == views(keys@).contains(key@),
{
    let mut i: usize = 0;
    while i < keys.len()
        invariant
            i <= keys.len(),
            forall|j: int| 0 <= j < i ==> views(keys@)[j] != key@,
        decreases keys.len() - i,
    {
        if keys[i] == *key {
            proof {
                assert(views(keys@)[i as int] == key@);
            }
            return true;
        }
        i = i + 1;
    }
    false
}

/// Appends to `order` each key of `imports` that it does not hold yet.
pub fn enqueue_all(order: &mut Vec<String>, imports: &Vec<String>)
    ensures
        views(final(order)@) == enqueue(views(old(order)@), views(imports@)),
{
    let mut i: usize = 0;
    while i < imports.len()
        invariant
            i <= imports.len(),
            views(order@) == enqueue(views(old(order)@), views(imports@).take(i as int)),
        decreases imports.len() - i,
    {
        proof {
            let done = views(imports@).take(i + 1);
            assert(done.drop_last() == views(imports@).take(i as int));
            assert(done.last() == imports@[i as int]@);
        }
        if !has_key(order, &imports[i]) {
            let ghost before = views(order@);
            order.push(imports[i].clone());
            proof {
                assert(views(order@) =~= before.push(imports@[i as int]@));
            }
        }
        i = i + 1;
    }
    proof {
        assert(views(imports@).take(i as int) == views(imports@));
    }
}

/// Queueing a module's imports as they are remembered gives the walk that
/// queueing them as they were found in its source gave: a build from memory
/// visits the modules in the order of the build that filled the memory.
pub proof fn lemma_enqueue_unique(order: Seq<Seq<char>>, found: Seq<Seq<char>>)
    ensures
        enqueue(order, unique(found)) == enqueue(order, found),
    decreases found.len(),
{
    if found.len() > 0 {
        let init = found.drop_last();
        let last = found.last();
        lemma_enqueue_unique(order, init);
        lemma_enqueue(Seq::<Seq<char>>::empty(), init);
        lemma_enqueue(order, init);
        if unique(init).contains(last) {
            assert(init.contains(last));
            assert(enqueue(order, init).contains(last));
        } else {
            assert(!init.contains(last));
            let grown = unique(init).push(last);
            assert(grown.drop_last() == unique(init));
            assert(grown.last() == last);
        }
    }
}

} // verus!
