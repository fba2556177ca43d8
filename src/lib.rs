//! A bounded counting semaphore over one atomic counter and a futex-style
//! park/wake primitive, and a mutual-exclusion lock built on it.
//!
//! Every blocking operation is split into single attempts: a decision taken
//! from the value last observed in the counter, and one atomic action that
//! either completes the operation or reports the value to decide on next.
//! The decisions are proved to keep the counter within `[0, max]`.
mod mutex;
mod semaphore;

pub use mutex::Mutex;
pub use semaphore::{Progress, Semaphore, Step};
