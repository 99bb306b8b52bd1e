//! Laws that relate several operations of the arenas.
use vstd::prelude::*;

verus! {

/// A run of allocations that starts on an empty arena: `states[i]` is the
/// arena's item sequence before the `i`-th allocation, of `values[i]`, and
/// `states[i + 1]` the one after it, as `alloc_shared` and `allocate` state.
pub open spec fn allocation_run<T>(states: Seq<Seq<T>>, values: Seq<T>) -> bool {
    &&& states.len() == values.len() + 1
    &&& states[0] == Seq::<T>::empty()
    &&& forall|i: int| 0 <= i < values.len() ==> #[trigger] states[i + 1] == states[i].push(values[i])
}

/// After `N` allocations on an empty arena, its item sequence is exactly the
/// `N` allocated values in allocation order: `len()` is `N`, and an iterator
/// from the start yields those values in that order.
pub proof fn lemma_allocations_in_order<T>(states: Seq<Seq<T>>, values: Seq<T>)
    requires
        allocation_run(states, values),
    ensures
        states.last() == values,
        states.last().len() == values.len(),
    decreases values.len(),
{
    if values.len() == 0 {
        assert(states.last() == states[0]);
    } else {
        let n = values.len() as int;
        let s = states.drop_last();
        let v = values.drop_last();
        assert forall|i: int| 0 <= i < v.len() implies #[trigger] s[i + 1] == s[i].push(v[i]) by {
            assert(s[i + 1] == states[i + 1]);
        }
        lemma_allocations_in_order(s, v);
        assert(states[n] == states[n - 1].push(values[n - 1]));
        assert(s.last() == states[n - 1]);
        assert(states.last() =~= values);
    }
}

/// An iteration resumed from a position taken after `k` of the `before`
/// items, once `m` more items were allocated (`after` extends `before` by
/// `m` items), yields `N - k + M` items: the ones from item `k` on.
pub proof fn lemma_resumed_length<T>(before: Seq<T>, after: Seq<T>, k: int, m: nat)
    requires
        0 <= k <= before.len(),
        after.len() == before.len() + m,
        after.subrange(0, before.len() as int) == before,
    ensures
        after.subrange(k, after.len() as int).len() == before.len() - k + m,
        after.subrange(k, after.len() as int) == before.subrange(k, before.len() as int) + after.subrange(
            before.len() as int,
            after.len() as int,
        ),
{
    assert(after.subrange(k, after.len() as int) =~= before.subrange(k, before.len() as int)
        + after.subrange(before.len() as int, after.len() as int)) by {
        assert forall|i: int| k <= i < before.len() implies #[trigger] after[i] == before[i] by {
            assert(after.subrange(0, before.len() as int)[i] == after[i]);
        }
    }
}

} // verus!
