//! The mathematical model of the growable array: its content is a `Seq<T>`,
//! its capacity a natural number. The contracts of `Vec` are stated over the
//! functions of this module.

use vstd::layout::size_of;
use vstd::prelude::*;

verus! {

/// The capacity that an array of capacity `cap` has after it has grown once:
/// a first slot for an array that has none, twice as many slots otherwise.
pub open spec fn grown(cap: nat) -> nat {
    if cap == 0 {
        1
    } else {
        2 * cap
    }
}

/// The capacity after one element is added to an array that holds `len`
/// elements in `cap` slots: only a full array grows.
pub open spec fn capacity_after_add(len: nat, cap: nat) -> nat {
    if len == cap {
        grown(cap)
    } else {
        cap
    }
}

/// Whether a block of `cap` slots for elements of type `T` can be addressed:
/// its size in bytes does not exceed `isize::MAX`.
pub open spec fn fits<T>(cap: nat) -> bool {
    cap * size_of::<T>() <= isize::MAX
}

/// Whether one more element can be added to an array that holds `len`
/// elements in `cap` slots: either a slot is free, or the grown block can be
/// addressed.
pub open spec fn can_add<T>(len: nat, cap: nat) -> bool {
    len == cap ==> fits::<T>(grown(cap))
}

/// What `pop` hands out of the content `s`: the last element, if there is one.
pub open spec fn pop_value<T>(s: Seq<T>) -> Option<T> {
    if s.len() == 0 {
        None
    } else {
        Some(s.last())
    }
}

/// The content that `pop` leaves of `s`.
pub open spec fn after_pop<T>(s: Seq<T>) -> Seq<T> {
    if s.len() == 0 {
        s
    } else {
        s.drop_last()
    }
}

/// What `remove` hands out of the content `s` for the position `index`:
/// the element that stands there, if the position is taken.
pub open spec fn remove_value<T>(s: Seq<T>, index: nat) -> Option<T> {
    if index < s.len() {
        Some(s[index as int])
    } else {
        None
    }
}

/// The content that `remove` leaves of `s` for the position `index`.
pub open spec fn after_remove<T>(s: Seq<T>, index: nat) -> Seq<T> {
    if index < s.len() {
        s.remove(index as int)
    } else {
        s
    }
}

/// The state of an array, as far as its contracts speak of it.
pub struct Model<T> {
    /// The elements in the order of their positions.
    pub items: Seq<T>,
    /// The number of slots.
    pub capacity: nat,
}

/// One call on an array.
pub enum Op<T> {
    /// `push` of an element.
    Push(T),
    /// `pop`.
    Pop,
    /// `insert` of an element at a position, which is at most the length.
    Insert(nat, T),
    /// `remove` at a position.
    Remove(nat),
}

/// The state that the call `op` leaves of the state `m`.
pub open spec fn step<T>(m: Model<T>, op: Op<T>) -> Model<T> {
    match op {
        Op::Push(elem) => Model {
            items: m.items.push(elem),
            capacity: capacity_after_add(m.items.len(), m.capacity),
        },
        Op::Pop => Model { items: after_pop(m.items), capacity: m.capacity },
        Op::Insert(index, elem) => Model {
            items: m.items.insert(index as int, elem),
            capacity: capacity_after_add(m.items.len(), m.capacity),
        },
        Op::Remove(index) => Model { items: after_remove(m.items, index), capacity: m.capacity },
    }
}

/// What the call `op` hands out in the state `m`.
pub open spec fn output<T>(m: Model<T>, op: Op<T>) -> Option<T> {
    match op {
        Op::Push(_) => None,
        Op::Pop => pop_value(m.items),
        Op::Insert(_, _) => None,
        Op::Remove(index) => remove_value(m.items, index),
    }
}

/// The state after the calls `ops`, made one after the other from the state `m`.
pub open spec fn run<T>(m: Model<T>, ops: Seq<Op<T>>) -> Model<T>
    decreases ops.len(),
{
    if ops.len() == 0 {
        m
    } else {
        step(run(m, ops.drop_last()), ops.last())
    }
}

/// What the calls `ops` hand out, one after the other, from the state `m`.
pub open spec fn outputs<T>(m: Model<T>, ops: Seq<Op<T>>) -> Seq<Option<T>> {
    Seq::new(ops.len(), |k: int| output(run(m, ops.subrange(0, k)), ops[k]))
}

/// The calls that push the elements of `elems` in their order.
pub open spec fn pushes<T>(elems: Seq<T>) -> Seq<Op<T>> {
    Seq::new(elems.len(), |k: int| Op::Push(elems[k]))
}

/// `n` calls of `pop`.
pub open spec fn pops<T>(n: nat) -> Seq<Op<T>> {
    Seq::new(n, |k: int| Op::Pop)
}

} // verus!
