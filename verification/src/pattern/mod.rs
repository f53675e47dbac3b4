//! Patterns that hold a value or rest, and the generator that gives each
//! expansion of a pattern its own random numbers.
pub mod rng;

use vstd::prelude::*;

verus! {

/// A value that can be held by a pattern.
pub trait HoldValue: Clone + Sized {
    /// A pattern that constantly emits this value.
    fn hold(self) -> (r: Hold<Self>)
        ensures
            r.value() == self,
    ;
}

impl<T: Clone> HoldValue for T {
    fn hold(self) -> (r: Hold<Self>) {
        Hold::new(self)
    }
}

/// Constantly emits a value
#[derive(Clone, Debug)]
pub struct Hold<T> where T: Clone {
    value: T,
}

impl<T> Hold<T> where T: Clone {
    /// The value that the pattern emits.
    pub closed spec fn value(&self) -> T {
        self.value
    }

    pub fn new(value: T) -> (r: Self)
        ensures
            r.value() == value,
    {
        Self { value }
    }

    /// The value that the pattern emits at every step.
    pub fn get(&self) -> (r: &T)
        ensures
            *r == self.value(),
    {
        &self.value
    }
}

/// Returns a pattern that never emits a value
pub fn rest<T>() -> (r: Rest<T>) {
    Rest::new()
}

/// Never emits a value
#[derive(Debug)]
pub struct Rest<T> {
    value: core::marker::PhantomData<T>,
}

impl<T> Rest<T> {
    pub fn new() -> (r: Self) {
        Self { value: core::marker::PhantomData }
    }
}

impl<T> Clone for Rest<T> {
    fn clone(&self) -> (r: Self) {
        Rest::new()
    }
}

} // verus!
