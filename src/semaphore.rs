use std::sync::atomic::{AtomicU32, Ordering};
use vstd::prelude::*;

verus! {

/// What a thread does next, given the value it last observed in the counter.
#[derive(PartialEq, Eq, Structural, Clone, Copy, Debug)]
pub enum Step {
    /// Park while the counter still holds this value, then look again.
    Park(u32),
    /// Replace the first value by the second in one compare-and-swap.
    Exchange(u32, u32),
}

/// The outcome of one attempt at an operation.
#[derive(PartialEq, Eq, Structural, Clone, Copy, Debug)]
pub enum Progress {
    /// The operation took effect.
    Done,
    /// It did not; the value now observed in the counter is carried.
    Retry(u32),
}

/// The step of an increment: park at capacity, else move up by one.
pub open spec fn signal_outcome(observed: u32, max: u32) -> Step {
    if observed >= max {
        Step::Park(observed)
    } else {
        Step::Exchange(observed, (observed + 1) as u32)
    }
}

/// The step of a decrement: park at zero, else move down by one.
pub open spec fn wait_outcome(observed: u32) -> Step {
    if observed == 0 {
        Step::Park(0)
    } else {
        Step::Exchange(observed, (observed - 1) as u32)
    }
}

/// The counter may go from `a` to `b` by one exchange that a thread issued
/// after observing `a`, through either operation.
pub open spec fn completes(a: u32, b: u32, max: u32) -> bool {
    signal_outcome(a, max) == Step::Exchange(a, b) || wait_outcome(a) == Step::Exchange(a, b)
}

/// A sequence of counter values, each reached from the one before by a
/// completed operation.
pub open spec fn is_history(history: Seq<u32>, max: u32) -> bool {
    forall|i: int| 0 <= i < history.len() - 1 ==> #[trigger] completes(history[i], history[i + 1], max)
}

/// Relies on atomic_wait::wait: parks the calling thread while `atomic`
/// holds `value`. It may return spuriously, so nothing is known on return.
#[verifier::external_body]
fn park_while(atomic: &AtomicU32, value: u32) {
    atomic_wait::wait(atomic, value)
}

/// Relies on atomic_wait::wake_one: wakes at most one thread parked on `atomic`.
#[verifier::external_body]
fn wake_one_parked(atomic: &AtomicU32) {
    atomic_wait::wake_one(atomic)
}

/// Relies on AtomicU32::compare_exchange (strong form): it stores `new` only
/// when the value held equals `current`, and returns the value held before.
/// So a failure reports a value other than `current`.
#[verifier::external_body]
fn exchange(atomic: &AtomicU32, current: u32, new: u32) -> (r: Result<u32, u32>)
    ensures
        r matches Ok(prev) ==> prev == current,
        r matches Err(actual) ==> actual != current,
{
    atomic.compare_exchange(current, new, Ordering::Release, Ordering::Relaxed)
}

/// A counter shared between threads that stays within `[0, max]`.
pub struct Semaphore {
    counter: AtomicU32,
    max: u32,
    initial: Ghost<u32>,
}

impl Semaphore {
    /// The largest value the counter may take.
    pub closed spec fn max_spec(&self) -> u32 {
        self.max
    }

    /// The value the counter was created with.
    pub closed spec fn initial_count(&self) -> u32 {
        self.initial@
    }

    /// The counter started within its bound.
    pub open spec fn wf(&self) -> bool {
        self.initial_count() <= self.max_spec()
    }

    /// A semaphore with bound `u32::MAX` whose counter starts at 0.
    pub fn new() -> (s: Semaphore)
        ensures
            s.wf(),
            s.max_spec() == u32::MAX,
            s.initial_count() == 0,
    {
        Semaphore { counter: AtomicU32::new(0), max: u32::MAX, initial: Ghost(0) }
    }

    /// A semaphore with bound `max` whose counter starts at `count`.
    pub fn init(count: u32, max: u32) -> (s: Semaphore)
        requires
            count <= max,
        ensures
            s.wf(),
            s.max_spec() == max,
            s.initial_count() == count,
    {
        Semaphore { counter: AtomicU32::new(count), max, initial: Ghost(count) }
    }

    /// The bound of the counter.
    pub fn max(&self) -> (r: u32)
        ensures
            r == self.max_spec(),
    {
        self.max
    }

    /// Reads the counter with `Acquire` ordering. Other threads may change it
    /// at any time, so the value says nothing by itself.
    pub fn value(&self) -> u32 {
        self.counter.load(Ordering::Acquire)
    }

    /// What an increment does after observing `observed`.
    pub fn signal_step(&self, observed: u32) -> (r: Step)
        ensures
            r == signal_outcome(observed, self.max_spec()),
    {
        if observed >= self.max {
            Step::Park(observed)
        } else {
            Step::Exchange(observed, observed + 1)
        }
    }

    /// What a decrement does after observing `observed`.
    pub fn wait_step(&self, observed: u32) -> (r: Step)
        ensures
            r == wait_outcome(observed),
    {
        if observed == 0 {
            Step::Park(0)
        } else {
            Step::Exchange(observed, observed - 1)
        }
    }

    /// Carries out one step on the counter. A park returns after a wake
    /// (or spuriously) with the value read afterwards; an exchange succeeds
    /// with `Release` ordering or returns the value that stood in its way.
    pub fn attempt(&self, step: Step) -> (r: Progress)
        ensures
            step is Park ==> r is Retry,
            step matches Step::Exchange(from, _) ==> (r matches Progress::Retry(v) ==> v != from),
    {
        match step {
            Step::Park(v) => {
                park_while(&self.counter, v);
                Progress::Retry(self.counter.load(Ordering::Acquire))
            },
            Step::Exchange(from, to) => {
                match exchange(&self.counter, from, to) {
                    Ok(_) => Progress::Done,
                    Err(e) => Progress::Retry(e),
                }
            },
        }
    }

    /// One attempt to increase the counter by one, after observing `observed`.
    /// At capacity it parks and never completes; below it, the attempt either
    /// completes or reports a value other than the one observed.
    pub fn try_signal(&self, observed: u32) -> (r: Progress)
        ensures
            observed >= self.max_spec() ==> r is Retry,
            observed < self.max_spec() ==> (r matches Progress::Retry(v) ==> v != observed),
    {
        let step = self.signal_step(observed);
        self.attempt(step)
    }

    /// One attempt to decrease the counter by one, after observing `observed`.
    /// At zero it parks and never completes; above it, the attempt either
    /// completes or reports a value other than the one observed.
    pub fn try_wait(&self, observed: u32) -> (r: Progress)
        ensures
            observed == 0 ==> r is Retry,
            observed > 0 ==> (r matches Progress::Retry(v) ==> v != observed),
    {
        let step = self.wait_step(observed);
        self.attempt(step)
    }

    /// Wakes at most one thread parked on the counter.
    pub fn wake_one(&self) {
        wake_one_parked(&self.counter)
    }
}

/// Every value in a history of completed operations that starts at a count
/// within `[0, max]` stays within `[0, max]`.
pub proof fn lemma_counter_bounded(count: u32, max: u32, history: Seq<u32>)
    requires
        count <= max,
        history.len() > 0,
        history[0] == count,
        is_history(history, max),
    ensures
        forall|i: int| 0 <= i < history.len() ==> #[trigger] history[i] <= max,
{
    assert forall|i: int| 0 <= i < history.len() implies #[trigger] history[i] <= max by {
        lemma_prefix_bounded(max, history, i);
    }
}

proof fn lemma_prefix_bounded(max: u32, history: Seq<u32>, k: int)
    requires
        0 <= k < history.len(),
        history[0] <= max,
        is_history(history, max),
    ensures
        history[k] <= max,
    decreases k,
{
    if k > 0 {
        lemma_prefix_bounded(max, history, k - 1);
        let j = k - 1;
        assert(completes(history[j], history[j + 1], max));
    }
}

/// An increment never completes from `max` and a decrement never completes
/// from zero: the counter leaves `max` only by a decrement and leaves zero
/// only by an increment.
pub proof fn lemma_blocked_at_bounds(max: u32)
    ensures
        signal_outcome(max, max) == Step::Park(max),
        wait_outcome(0) == Step::Park(0),
        forall|b: u32| #[trigger]
            completes(max, b, max) ==> max > 0 && b == max - 1 && wait_outcome(max) == Step::Exchange(max, b),
        forall|b: u32| #[trigger]
            completes(0, b, max) ==> max > 0 && b == 1 && signal_outcome(0, max) == Step::Exchange(0, b),
{
}

/// With bound 1, from a counter of 0 or 1 every completed operation flips the
/// counter: acquisitions (0 to 1) and releases (1 to 0) strictly alternate,
/// so at most one holder exists at any point and a release admits exactly
/// one of the threads that wait to acquire.
pub proof fn lemma_binary_alternates(history: Seq<u32>)
    requires
        history.len() > 0,
        history[0] <= 1,
        is_history(history, 1),
    ensures
        forall|i: int| 0 <= i < history.len() ==> #[trigger] history[i] <= 1,
        forall|i: int|
            0 <= i < history.len() - 1 ==> #[trigger] history[i + 1] == 1 - history[i],
{
    lemma_counter_bounded(history[0], 1, history);
    assert forall|i: int| 0 <= i < history.len() - 1 implies #[trigger] history[i + 1] == 1 - history[i] by {
        assert(completes(history[i], history[i + 1], 1));
        assert(history[i] <= 1);
    }
}

} // verus!
