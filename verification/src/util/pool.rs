//! A pool of values that are costly to make: a value is taken from the
//! pool where it has one, and made where it has none.

use vstd::prelude::*;

verus! {

/// A pool of values of the type `T`, which `F` makes.
#[verifier::reject_recursive_types(T)]
pub struct Pool<T, F: Fn() -> T> {
    creator: F,
    pool: Vec<T>,
}

/// A value that came out of a pool.
#[verifier::reject_recursive_types(T)]
pub struct Handle<'a, T, F: Fn() -> T>(pub &'a Pool<T, F>, pub T);

impl<T, F: Fn() -> T> Pool<T, F> {
    /// The values that wait in the pool.
    pub closed spec fn view(&self) -> Seq<T> {
        self.pool@
    }

    /// What makes the values.
    pub closed spec fn spec_creator(&self) -> F {
        self.creator
    }

    /// A pool without values, for which `creator` makes them.
    pub fn new(creator: F) -> (pool: Self)
        ensures
            pool@ == Seq::<T>::empty(),
            pool.spec_creator() == creator,
    {
        Pool { creator, pool: Vec::new() }
    }

    /// Puts `value` into the pool.
    pub fn put(&mut self, value: T)
        ensures
            final(self)@ == old(self)@.push(value),
            final(self).spec_creator() == old(self).spec_creator(),
    {
        self.pool.push(value);
    }

    /// A value out of the pool: the one that came in last, or a new one
    /// where the pool has none.
    pub fn get<'a>(&'a mut self) -> (handle: Handle<'a, T, F>)
        requires
            call_requires(old(self).spec_creator(), ()),
        ensures
            handle.0.spec_creator() == old(self).spec_creator(),
            old(self)@.len() > 0 ==> handle.1 == old(self)@.last() && handle.0@ == old(
                self,
            )@.drop_last(),
            old(self)@.len() == 0 ==> call_ensures(old(self).spec_creator(), (), handle.1)
                && handle.0@ == old(self)@,
            *final(self) == *handle.0,
    {
        let value = match self.pool.pop() {
            Some(value) => value,
            None => (self.creator)(),
        };
        Handle(self, value)
    }
}

impl<'pool, T, F: Fn() -> T> Handle<'pool, T, F> {
    /// The value, without the pool.
    pub fn into(self) -> (value: T)
        ensures
            value == self.1,
    {
        self.1
    }

    /// A handle for `other` that belongs to `pool`.
    pub fn add_to_pool(pool: &'pool Pool<T, F>, other: T) -> (handle: Self)
        ensures
            handle.0 == pool,
            handle.1 == other,
    {
        Handle(pool, other)
    }

    /// The value.
    pub fn get(&self) -> (value: &T)
        ensures
            *value == self.1,
    {
        &self.1
    }
}

} // verus!
