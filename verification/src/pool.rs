//! The pool of pending items between two stages. What was put in last is
//! taken out first.

use vstd::prelude::*;

verus! {

/// What a stage finds when it turns to its pool.
pub enum Polled<T> {
    /// An item to work on.
    Item(T),
    /// Nothing is pending, and more may come: wait and look again.
    Idle,
    /// Nothing is pending and a stop was requested: the stage is done.
    Drained,
}

/// A pool of pending items.
pub struct Pool<T> {
    items: Vec<T>,
}

impl<T> View for Pool<T> {
    type V = Seq<T>;

    closed spec fn view(&self) -> Seq<T> {
        self.items@
    }
}

impl<T> Pool<T> {
    /// An empty pool.
    pub fn new() -> (pool: Pool<T>)
        ensures
            pool@ == Seq::<T>::empty(),
    {
        Pool { items: Vec::new() }
    }

    /// How many items are pending.
    pub fn len(&self) -> (n: usize)
        ensures
            n == self@.len(),
    {
        self.items.len()
    }

    /// Whether nothing is pending.
    pub fn is_empty(&self) -> (empty: bool)
        ensures
            empty == (self@.len() == 0),
    {
        self.items.len() == 0
    }

    /// Puts `item` into the pool.
    pub fn push(&mut self, item: T)
        ensures
            final(self)@ == old(self)@.push(item),
    {
        self.items.push(item);
    }

    /// Takes out the item that was put in last, if there is one.
    pub fn pop(&mut self) -> (item: Option<T>)
        ensures
            old(self)@.len() == 0 ==> item.is_none() && final(self)@ == old(self)@,
            old(self)@.len() > 0 ==> item == Some(old(self)@.last()) && final(self)@ == old(
                self,
            )@.drop_last(),
    {
        self.items.pop()
    }

    /// What a stage does next: it takes the item that was put in last where
    /// one is pending, whether or not a stop was requested, so that a pool
    /// is emptied before its stage ends; with nothing pending it ends after
    /// a stop and waits otherwise.
    pub fn poll(&mut self, stop: bool) -> (polled: Polled<T>)
        ensures
            old(self)@.len() > 0 ==> polled == Polled::Item(old(self)@.last()) && final(self)@
                == old(self)@.drop_last(),
            old(self)@.len() == 0 ==> final(self)@ == old(self)@ && polled == if stop {
                Polled::<T>::Drained
            } else {
                Polled::<T>::Idle
            },
    {
        match self.items.pop() {
            Some(item) => Polled::Item(item),
            None => if stop {
                Polled::Drained
            } else {
                Polled::Idle
            },
        }
    }
}

} // verus!
