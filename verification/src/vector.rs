//! A growable array: contiguous storage of `capacity` slots of which the
//! first `len` hold elements. A full array doubles its capacity before it
//! takes another element, and its capacity never shrinks.

use crate::model::{
    after_pop, after_remove, can_add, capacity_after_add, fits, grown, output, pop_value,
    remove_value, step, Model, Op,
};
use vstd::layout::size_of;
use vstd::prelude::*;

verus! {

/// A growable array of elements of type `T`.
///
/// The elements live in a buffer that the array owns; `cap` is the number of
/// slots that the growth policy has claimed for them so far.
pub struct Vec<T> {
    buf: std::vec::Vec<T>,
    cap: usize,
}

impl<T> Vec<T> {
    /// The content: the elements in the order of their positions.
    pub closed spec fn view(&self) -> Seq<T> {
        self.buf@
    }

    /// The number of slots that the array has claimed.
    pub closed spec fn spec_capacity(&self) -> usize {
        self.cap
    }

    /// The state of the array in the model of its calls.
    pub open spec fn model(&self) -> Model<T> {
        Model { items: self@, capacity: self.spec_capacity() as nat }
    }

    /// The invariant of the array: the elements fit in the slots, the slots
    /// fit in the address range, and an element takes up space.
    pub closed spec fn wf(&self) -> bool {
        &&& self.buf@.len() <= self.cap
        &&& fits::<T>(self.cap as nat)
        &&& size_of::<T>() != 0
    }

    /// What the invariant says, for callers that cannot see the fields.
    pub proof fn lemma_bounds(&self)
        requires
            self.wf(),
        ensures
            self@.len() <= self.spec_capacity(),
            fits::<T>(self.spec_capacity() as nat),
            size_of::<T>() != 0,
    {
    }

    /// An empty array without any slot; nothing is allocated for it.
    pub fn new() -> (v: Self)
        requires
            size_of::<T>() != 0,
        ensures
            v.wf(),
            v@ == Seq::<T>::empty(),
            v.spec_capacity() == 0,
    {
        Vec { buf: std::vec::Vec::new(), cap: 0 }
    }

    /// The number of elements.
    pub fn len(&self) -> (n: usize)
        ensures
            n == self@.len(),
    {
        self.buf.len()
    }

    /// The number of slots.
    #[verifier::when_used_as_spec(spec_capacity)]
    pub fn capacity(&self) -> (c: usize)
        ensures
            c == self.spec_capacity(),
    {
        self.cap
    }

    /// Whether one more element can be added by `push` or `insert`: a slot
    /// is free, or the block that the array would grow to can be addressed.
    pub fn can_push(&self) -> (ok: bool)
        requires
            self.wf(),
        ensures
            ok == can_add::<T>(self@.len(), self.capacity() as nat),
    {
        if self.buf.len() < self.cap {
            return true;
        }
        proof {
            lemma_slots_fit_in_usize::<T>(self.cap as nat);
        }
        let new_cap: usize = if self.cap == 0 {
            1
        } else {
            2 * self.cap
        };
        match new_cap.checked_mul(std::mem::size_of::<T>()) {
            Some(bytes) => bytes <= isize::MAX as usize,
            None => false,
        }
    }

    /// Claims more slots: one for an array that has none, otherwise as many
    /// again as it has. The elements stay as they are.
    fn grow(&mut self)
        requires
            old(self).wf(),
            fits::<T>(grown(old(self).capacity() as nat)),
        ensures
            final(self).wf(),
            final(self)@ == old(self)@,
            final(self).capacity() == grown(old(self).capacity() as nat),
            final(self).capacity() > old(self).capacity(),
    {
        proof {
            lemma_slots_fit_in_usize::<T>(grown(self.cap as nat));
        }
        let new_cap: usize = if self.cap == 0 {
            1
        } else {
            2 * self.cap
        };
        let additional: usize = new_cap - self.buf.len();
        reserve_slots(&mut self.buf, additional);
        self.cap = new_cap;
    }

    /// Appends `elem` behind the last element. A full array grows first.
    pub fn push(&mut self, elem: T)
        requires
            old(self).wf(),
            can_add::<T>(old(self)@.len(), old(self).capacity() as nat),
        ensures
            final(self).wf(),
            final(self)@ == old(self)@.push(elem),
            final(self).capacity() == capacity_after_add(
                old(self)@.len(),
                old(self).capacity() as nat,
            ),
            final(self).capacity() >= old(self).capacity(),
            final(self).model() == step(old(self).model(), Op::Push(elem)),
    {
        if self.buf.len() == self.cap {
            self.grow();
        }
        self.buf.push(elem);
    }

    /// Takes the last element out, if there is one. An empty array stays as
    /// it is and gives `None`.
    pub fn pop(&mut self) -> (out: Option<T>)
        requires
            old(self).wf(),
        ensures
            final(self).wf(),
            out == pop_value(old(self)@),
            final(self)@ == after_pop(old(self)@),
            final(self).capacity() == old(self).capacity(),
            final(self).model() == step(old(self).model(), Op::Pop),
            out == output(old(self).model(), Op::Pop),
    {
        self.buf.pop()
    }

    /// Puts `elem` at the position `index` and moves every element from
    /// there on one position up. A full array grows first.
    pub fn insert(&mut self, index: usize, elem: T)
        requires
            old(self).wf(),
            index <= old(self)@.len(),
            can_add::<T>(old(self)@.len(), old(self).capacity() as nat),
        ensures
            final(self).wf(),
            final(self)@ == old(self)@.insert(index as int, elem),
            final(self).capacity() == capacity_after_add(
                old(self)@.len(),
                old(self).capacity() as nat,
            ),
            final(self).capacity() >= old(self).capacity(),
            final(self).model() == step(old(self).model(), Op::Insert(index as nat, elem)),
    {
        if self.cap == self.buf.len() {
            self.grow();
        }
        let len: usize = self.buf.len();
        let ghost target = old(self)@.insert(index as int, elem);
        // `carry` is the element that has lost its slot and takes the next.
        let mut carry = elem;
        let mut at: usize = index;
        while at < len
            invariant
                index <= at <= len,
                len == old(self)@.len(),
                self.buf@.len() == len,
                self.cap == capacity_after_add(old(self)@.len(), old(self).capacity() as nat),
                target == old(self)@.insert(index as int, elem),
                forall|k: int| 0 <= k < at ==> self.buf@[k] == target[k],
                forall|k: int| at <= k < len ==> self.buf@[k] == old(self)@[k],
                carry == target[at as int],
            decreases len - at,
        {
            std::mem::swap(&mut carry, &mut self.buf[at]);
            at += 1;
        }
        self.buf.push(carry);
        assert(self.buf@ =~= target);
    }

    /// Takes the element at the position `index` out and moves every later
    /// element one position down. Where no element stands at `index` the
    /// array stays as it is and gives `None`.
    pub fn remove(&mut self, index: usize) -> (out: Option<T>)
        requires
            old(self).wf(),
        ensures
            final(self).wf(),
            out == remove_value(old(self)@, index as nat),
            final(self)@ == after_remove(old(self)@, index as nat),
            final(self).capacity() == old(self).capacity(),
            index < old(self)@.len() ==> {
                &&& final(self)@.len() == old(self)@.len() - 1
                &&& forall|k: int| 0 <= k < index ==> final(self)@[k] == old(self)@[k]
                &&& forall|k: int|
                    index <= k < final(self)@.len() ==> final(self)@[k] == old(self)@[k + 1]
            },
            final(self).model() == step(old(self).model(), Op::Remove(index as nat)),
            out == output(old(self).model(), Op::Remove(index as nat)),
    {
        if index >= self.buf.len() {
            return None;
        }
        let last: usize = self.buf.len() - 1;
        // `carry` is the element that has lost its slot and takes the one before.
        let mut carry = self.buf.pop().unwrap();
        let mut at: usize = last;
        while at > index
            invariant
                index <= at <= last,
                last + 1 == old(self)@.len(),
                self.buf@.len() == last,
                self.cap == old(self).cap,
                carry == old(self)@[at as int],
                forall|k: int| 0 <= k < at ==> self.buf@[k] == old(self)@[k],
                forall|k: int| at <= k < last ==> self.buf@[k] == old(self)@[k + 1],
            decreases at,
        {
            at -= 1;
            std::mem::swap(&mut carry, &mut self.buf[at]);
        }
        assert(self.buf@ =~= old(self)@.remove(index as int));
        Some(carry)
    }
}

/// The elements as a slice: exactly the content, never a free slot.
impl<T> std::ops::Deref for Vec<T> {
    type Target = [T];

    fn deref(&self) -> (slice: &[T])
        ensures
            slice@ == self@,
    {
        self.buf.as_slice()
    }
}

/// The elements as a slice through which they can be replaced. What the
/// slice holds when the borrow ends is the content of the array; the number
/// of slots does not change.
impl<T> std::ops::DerefMut for Vec<T> {
    fn deref_mut(&mut self) -> (slice: &mut [T])
        ensures
            slice@ == old(self)@,
            final(self)@ == final(slice)@,
            final(self).capacity() == old(self).capacity(),
            old(self).wf() && final(slice)@.len() == slice@.len() ==> final(self).wf(),
    {
        self.buf.as_mut_slice()
    }
}

/// Tears the array down: the elements are released from the last to the
/// first, then the buffer gives its block back, if it ever claimed one.
impl<T> Drop for Vec<T> {
    fn drop(&mut self)
        ensures
            final(self)@.len() == 0,
            final(self).capacity() == old(self).capacity(),
        opens_invariants none
        no_unwind
    {
        loop
            invariant
                self.cap == old(self).cap,
            ensures
                self.buf@.len() == 0,
            decreases self.buf@.len(),
        {
            match take_last(&mut self.buf) {
                None => {
                    break ;
                },
                Some(_) => {},
            }
        }
    }
}

/// `Vec::reserve_exact` of std: the call makes room for `additional` more
/// elements and leaves the elements as they are. It panics where the room
/// asked for takes more than `isize::MAX` bytes, which `requires` leaves out.
#[verifier::external_body]
fn reserve_slots<T>(buf: &mut std::vec::Vec<T>, additional: usize)
    requires
        (old(buf)@.len() + additional) * size_of::<T>() <= isize::MAX,
    ensures
        final(buf)@ == old(buf)@,
{
    buf.reserve_exact(additional)
}

/// `Vec::pop` of std, for the destructor, which must know of every call it
/// makes that it does not unwind. The call takes the last element off the
/// vector and hands it out, or hands out `None` and leaves an empty vector
/// as it is; it neither allocates nor runs a destructor, and does not panic.
#[verifier::external_body]
fn take_last<T>(buf: &mut std::vec::Vec<T>) -> (out: Option<T>)
    ensures
        out == pop_value(old(buf)@),
        final(buf)@ == after_pop(old(buf)@),
    opens_invariants none
    no_unwind
{
    buf.pop()
}

/// A block that can be addressed has at most `isize::MAX` slots, as each
/// slot takes at least one byte.
proof fn lemma_slots_fit_in_usize<T>(cap: nat)
    requires
        fits::<T>(cap),
        size_of::<T>() != 0,
    ensures
        cap <= isize::MAX,
{
    assert(cap <= cap * size_of::<T>()) by (nonlinear_arith)
        requires
            size_of::<T>() >= 1,
    ;
}

} // verus!
