//! Small helpers shared by the rest of the crate.

use vstd::prelude::*;
use std::sync::Arc;
use std::sync::atomic::AtomicUsize;
use std::sync::atomic::Ordering;

verus! {

/// A fresh shared counter at zero.  Handed to every mailbox so that
/// the router can report how many cells were ever created.
pub fn counter_new() -> Arc<AtomicUsize> {
    Arc::new(AtomicUsize::new(0))
}

/// Add one to a shared counter.
pub fn counter_add_one(c: &Arc<AtomicUsize>) {
    c.fetch_add(1, Ordering::Relaxed);
}

/// Relies on Arc's Clone: a second handle to the same counter.
#[verifier::external_body]
pub fn counter_clone(c: &Arc<AtomicUsize>) -> Arc<AtomicUsize> {
    c.clone()
}

/// The counter's value at the instant of the call.
pub fn counter_value(c: &Arc<AtomicUsize>) -> usize {
    c.load(Ordering::Relaxed)
}

/// A value of one of two kinds, used where a function must hand back
/// either an outcome or the original input.
#[derive(Debug, Clone)]
pub enum Either<L, R> {
    Left(L),
    Right(R),
}

} // verus!
