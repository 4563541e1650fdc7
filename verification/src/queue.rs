//! A simple FIFO queue used to hand requests and messages between the
//! widget tree and its host.

use std::collections::VecDeque;

use vstd::prelude::*;

verus! {

pub struct Queue<T> {
    items: VecDeque<T>,
}

impl<T> View for Queue<T> {
    type V = Seq<T>;

    closed spec fn view(&self) -> Seq<T> {
        self.items@
    }
}

impl<T> Queue<T> {
    /// The empty queue.
    pub fn new() -> (r: Queue<T>)
        ensures
            r@ == Seq::<T>::empty(),
    {
        Queue { items: VecDeque::new() }
    }

    /// Append an item at the back.
    pub fn push(&mut self, item: T)
        ensures
            final(self)@ == old(self)@.push(item),
    {
        self.items.push_back(item)
    }

    /// Remove and return the item at the front, if any.
    pub fn pop(&mut self) -> (r: Option<T>)
        ensures
            old(self)@.len() == 0 ==> r is None && final(self)@ == old(self)@,
            old(self)@.len() > 0 ==> r == Some(old(self)@[0]) && final(self)@ == old(self)@.drop_first(),
    {
        self.items.pop_front()
    }

    /// Drain the queue front to back, handing each item to `func`. What
    /// the calls do to the callable's captured state is the caller's
    /// business and is not stated here.
    pub fn pop_all<F: FnMut(T)>(&mut self, func: F)
        requires
            forall|t: T| #[trigger] func.requires((t,)),
        ensures
            final(self)@ == Seq::<T>::empty(),
    {
        let mut func = func;
        loop
            invariant_except_break
                forall|t: T| #[trigger] func.requires((t,)),
            ensures
                self@.len() == 0,
            decreases self@.len(),
        {
            match self.pop() {
                Some(item) => func(item),
                None => {
                    break ;
                },
            }
        }
    }
}

impl<T> Default for Queue<T> {
    /// The empty queue.
    fn default() -> (r: Queue<T>)
        ensures
            r@ == Seq::<T>::empty(),
    {
        Queue::new()
    }
}

} // verus!
