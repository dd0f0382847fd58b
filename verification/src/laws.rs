//! What holds of every array, whatever calls are made on it: proved of the
//! model, over the functions in which the contracts of `Vec` are stated.

use crate::model::{
    after_remove, capacity_after_add, grown, output, outputs, pops, pushes, remove_value, run,
    step, Model, Op,
};
use vstd::prelude::*;

verus! {

/// Growth never gives fewer slots: a grown array has strictly more slots
/// than before, one for an array that had none and twice as many otherwise,
/// and adding an element leaves at least the slots that were there.
pub proof fn lemma_growth(len: nat, cap: nat)
    ensures
        grown(0) == 1,
        cap > 0 ==> grown(cap) == 2 * cap,
        grown(cap) > cap,
        capacity_after_add(len, cap) >= cap,
        len == cap ==> capacity_after_add(len, cap) == grown(cap),
        len <= cap ==> len < capacity_after_add(len, cap),
{
}

/// No call takes slots away: the capacity after `op` is at least the one
/// before it.
pub proof fn lemma_step_keeps_capacity<T>(m: Model<T>, op: Op<T>)
    ensures
        step(m, op).capacity >= m.capacity,
{
}

/// Calls made one after the other can be run in two parts.
pub proof fn lemma_run_append<T>(m: Model<T>, first: Seq<Op<T>>, second: Seq<Op<T>>)
    ensures
        run(m, first + second) == run(run(m, first), second),
    decreases second.len(),
{
    if second.len() == 0 {
        assert(first + second =~= first);
    } else {
        lemma_run_append(m, first, second.drop_last());
        assert((first + second).drop_last() =~= first + second.drop_last());
        assert((first + second).last() == second.last());
    }
}

/// The capacity never decreases, whatever calls are made: after any
/// sequence of calls it is at least what it was before them. So an array
/// that has claimed slots once never stands without slots again.
pub proof fn lemma_capacity_never_decreases<T>(m: Model<T>, ops: Seq<Op<T>>)
    ensures
        run(m, ops).capacity >= m.capacity,
        m.capacity > 0 ==> run(m, ops).capacity > 0,
    decreases ops.len(),
{
    if ops.len() > 0 {
        lemma_capacity_never_decreases(m, ops.drop_last());
        lemma_step_keeps_capacity(run(m, ops.drop_last()), ops.last());
    }
}

/// Pushing the elements of `elems` appends them in their order.
pub proof fn lemma_run_pushes<T>(m: Model<T>, elems: Seq<T>)
    ensures
        run(m, pushes(elems)).items == m.items + elems,
    decreases elems.len(),
{
    if elems.len() == 0 {
        assert(m.items + elems =~= m.items);
    } else {
        lemma_run_pushes(m, elems.drop_last());
        assert(pushes(elems).drop_last() =~= pushes(elems.drop_last()));
        assert(pushes(elems).last() == Op::Push(elems.last()));
        assert((m.items + elems.drop_last()).push(elems.last()) =~= m.items + elems);
    }
}

/// `n` calls of `pop` take the last `n` elements off, as long as there are
/// that many.
pub proof fn lemma_run_pops<T>(m: Model<T>, n: nat)
    requires
        n <= m.items.len(),
    ensures
        run(m, pops(n)).items == m.items.subrange(0, m.items.len() - n),
        run(m, pops(n)).capacity == m.capacity,
    decreases n,
{
    if n == 0 {
        assert(m.items.subrange(0, m.items.len() - n) =~= m.items);
    } else {
        lemma_run_pops(m, (n - 1) as nat);
        assert(pops::<T>(n).drop_last() =~= pops::<T>((n - 1) as nat));
        assert(pops::<T>(n).last() == Op::<T>::Pop);
        let before = m.items.subrange(0, m.items.len() - (n - 1));
        assert(before.drop_last() =~= m.items.subrange(0, m.items.len() - n));
    }
}

/// Last in, first out: after the elements of `elems` have been pushed, as
/// many calls of `pop` hand them out in the reverse order and leave the
/// content that was there before. On an array that was empty, one more `pop`
/// then hands out nothing, and the length is 0.
pub proof fn lemma_pops_reverse_pushes<T>(m: Model<T>, elems: Seq<T>)
    ensures
        run(m, pushes(elems)).items == m.items + elems,
        outputs(run(m, pushes(elems)), pops(elems.len())) == Seq::new(
            elems.len(),
            |k: int| Some(elems[elems.len() - 1 - k]),
        ),
        run(m, pushes(elems) + pops(elems.len())).items == m.items,
        m.items.len() == 0 ==> {
            let end = run(m, pushes(elems) + pops(elems.len()));
            &&& end.items.len() == 0
            &&& output(end, Op::Pop) == None::<T>
            &&& step(end, Op::Pop).items.len() == 0
        },
{
    let n = elems.len();
    let full = run(m, pushes(elems));
    lemma_run_pushes(m, elems);
    lemma_run_append(m, pushes(elems), pops(n));
    lemma_run_pops(full, n);
    assert(full.items.subrange(0, full.items.len() - n) =~= m.items);
    let handed = outputs(full, pops(n));
    let reversed = Seq::new(n, |k: int| Some(elems[n - 1 - k]));
    assert forall|k: int| 0 <= k < n implies handed[k] == reversed[k] by {
        assert(pops::<T>(n).subrange(0, k) =~= pops::<T>(k as nat));
        lemma_run_pops(full, k as nat);
    }
    assert(handed =~= reversed);
}

/// An element inserted at the front and removed at once comes back, and the
/// content is what it was.
pub proof fn lemma_insert_front_remove_front<T>(s: Seq<T>, elem: T)
    ensures
        remove_value(s.insert(0, elem), 0) == Some(elem),
        after_remove(s.insert(0, elem), 0) == s,
        forall|k: int| 0 <= k < s.len() ==> s.insert(0, elem)[k + 1] == s[k],
{
    assert(s.insert(0, elem).remove(0) =~= s);
}

/// Inserting behind the last element is pushing: the same content, in the
/// same order, in the same number of slots.
pub proof fn lemma_insert_at_end_is_push<T>(m: Model<T>, elem: T)
    ensures
        m.items.insert(m.items.len() as int, elem) == m.items.push(elem),
        step(m, Op::Insert(m.items.len(), elem)) == step(m, Op::Push(elem)),
{
    assert(m.items.insert(m.items.len() as int, elem) =~= m.items.push(elem));
}

/// Removing the element at a taken position moves every later element one
/// position down, leaves the earlier ones in place and shortens the content
/// by one.
pub proof fn lemma_remove_shifts_down<T>(s: Seq<T>, index: nat)
    requires
        index < s.len(),
    ensures
        remove_value(s, index) == Some(s[index as int]),
        after_remove(s, index).len() == s.len() - 1,
        forall|k: int| 0 <= k < index ==> after_remove(s, index)[k] == s[k],
        forall|k: int| index <= k < s.len() - 1 ==> after_remove(s, index)[k] == s[k + 1],
{
}

} // verus!
