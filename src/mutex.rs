use crate::semaphore::Semaphore;
use vstd::prelude::*;

verus! {

/// A payload beside a semaphore used as a binary lock: counter 0 is
/// unlocked, 1 is locked. Acquiring is an increment of the counter and
/// releasing a decrement followed by a wake. A payload that is to be changed
/// is held in a cell, which only the thread holding the lock may reach into.
pub struct Mutex<T> {
    semaphore: Semaphore,
    data: T,
}

impl<T> Mutex<T> {
    /// The payload.
    pub closed spec fn data_spec(&self) -> T {
        self.data
    }

    /// The semaphore that guards the payload.
    pub closed spec fn semaphore_spec(&self) -> Semaphore {
        self.semaphore
    }

    /// An unlocked mutex holding `value`.
    pub fn new(value: T) -> (m: Mutex<T>)
        ensures
            m.data_spec() == value,
            m.semaphore_spec().wf(),
            m.semaphore_spec().max_spec() == 1,
            m.semaphore_spec().initial_count() == 0,
    {
        Mutex { semaphore: Semaphore::init(0, 1), data: value }
    }

    /// The semaphore whose counter is the lock state.
    pub fn semaphore(&self) -> (r: &Semaphore)
        ensures
            *r == self.semaphore_spec(),
    {
        &self.semaphore
    }

    /// The payload.
    pub fn data(&self) -> (r: &T)
        ensures
            *r == self.data_spec(),
    {
        &self.data
    }
}

} // verus!
