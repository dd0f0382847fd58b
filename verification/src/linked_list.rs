//! A singly linked stack: elements are put on at the head and taken off at
//! the head.

use vstd::prelude::*;

verus! {

/// A stack of elements of type `T`, kept as a chain of boxed nodes.
pub struct List<T> {
    head: Link<T>,
}

enum Link<T> {
    Empty,
    More(Box<Node<T>>),
}

struct Node<T> {
    elem: T,
    next: Link<T>,
}

impl<T> Link<T> {
    /// The elements of the chain, the one at its head first.
    spec fn elems(self) -> Seq<T>
        decreases self,
    {
        match self {
            Link::Empty => Seq::empty(),
            Link::More(node) => seq![node.elem] + node.next.elems(),
        }
    }
}

impl<T> List<T> {
    /// The elements, the one that was put on last first.
    pub closed spec fn view(&self) -> Seq<T> {
        self.head.elems()
    }

    /// A stack without elements.
    pub fn new() -> (list: Self)
        ensures
            list@ == Seq::<T>::empty(),
    {
        List { head: Link::Empty }
    }

    /// Puts `elem` on top of the stack.
    pub fn push(&mut self, elem: T)
        ensures
            final(self)@ == seq![elem] + old(self)@,
    {
        let mut rest = Link::Empty;
        std::mem::swap(&mut rest, &mut self.head);
        let new_node = Box::new(Node { elem, next: rest });
        self.head = Link::More(new_node);
    }

    /// Takes the top element off the stack, if there is one. An empty stack
    /// stays as it is and gives `None`.
    pub fn pop(&mut self) -> (out: Option<T>)
        ensures
            old(self)@.len() == 0 ==> out.is_none() && final(self)@ == old(self)@,
            old(self)@.len() > 0 ==> out == Some(old(self)@.first()) && final(self)@ == old(
                self,
            )@.drop_first(),
    {
        let mut taken = Link::Empty;
        std::mem::swap(&mut taken, &mut self.head);
        match taken {
            Link::Empty => None,
            Link::More(node) => {
                self.head = node.next;
                proof {
                    assert(self.head.elems() =~= old(self)@.drop_first());
                }
                Some(node.elem)
            },
        }
    }
}

/// Releases the nodes one after the other from the head on, so that a long
/// chain does not use up the call stack.
impl<T> Drop for List<T> {
    fn drop(&mut self)
        ensures
            final(self)@.len() == 0,
        opens_invariants none
        no_unwind
    {
        let mut head = Link::Empty;
        std::mem::swap(&mut head, &mut self.head);
        loop
            invariant
                self.head == Link::<T>::Empty,
            decreases head,
        {
            match head {
                Link::Empty => {
                    break ;
                },
                Link::More(mut boxed_node) => {
                    let mut rest = Link::Empty;
                    std::mem::swap(&mut rest, &mut boxed_node.next);
                    head = rest;
                },
            }
        }
    }
}

} // verus!
