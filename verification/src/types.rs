//! Plain shared types: the cooperative interruption flag and the live-session
//! retry interval.

use std::sync::atomic::{AtomicBool, Ordering};
use std::sync::Arc;
use vstd::prelude::*;

verus! {

/// A shared interruption flag, set from outside the sequential flow (for
/// example by a signal handler) and polled by the ingestion pipeline between
/// events. It carries one bit and has no ordering requirement beyond
/// eventual visibility; nothing can be promised about the value another
/// actor may store concurrently.
#[derive(Clone, Debug)]
pub struct Interruptor(Arc<AtomicBool>);

impl Interruptor {
    /// A fresh, unset flag.
    pub fn new() -> Self {
        Interruptor(Arc::new(AtomicBool::new(false)))
    }

    /// Sets the flag.
    pub fn set(&self) {
        self.0.store(true, Ordering::SeqCst);
    }

    /// Polls the flag.
    pub fn is_set(&self) -> bool {
        self.0.load(Ordering::SeqCst)
    }
}

impl Default for Interruptor {
    fn default() -> Self {
        Self::new()
    }
}

/// What a live session does when the named remote tracing session is not
/// found.
#[derive(Clone, Copy, PartialEq, Eq, Structural, Debug)]
pub enum SessionNotFoundAction {
    Continue,
    Fail,
    End,
}

impl Default for SessionNotFoundAction {
    /// Keep waiting for the session to appear.
    fn default() -> (r: Self)
        ensures
            r == SessionNotFoundAction::Continue,
    {
        SessionNotFoundAction::Continue
    }
}

/// The retry interval, in microseconds, between polls of a live source that
/// reported a transient try-again state.
#[derive(Clone, Copy, PartialEq, Eq, Structural, PartialOrd, Ord, Hash, Debug)]
pub struct RetryDurationUs(pub u64);

impl Default for RetryDurationUs {
    /// One hundred milliseconds.
    fn default() -> (r: Self)
        ensures
            r.0 == 100000,
    {
        RetryDurationUs(100000)
    }
}

} // verus!
