//! A property set shared between a spawner and its worker threads,
//! carrying nothing but a shutdown flag.

use vstd::prelude::*;
use std::sync::Arc;
use std::sync::atomic::AtomicBool;
use std::sync::atomic::Ordering;

verus! {

/// Shared flags of one group of threads.
pub struct GroupProperties {
    shutdown: Arc<AtomicBool>,
}

impl GroupProperties {
    /// A fresh property set with the shutdown flag clear.
    pub fn new() -> GroupProperties {
        GroupProperties { shutdown: Arc::new(AtomicBool::new(false)) }
    }

    /// Raise the shared shutdown flag.
    pub fn mark_shutdown(&self) {
        self.shutdown.store(true, Ordering::SeqCst);
    }

    /// Whether the shutdown flag was raised at the instant of the call.
    pub fn is_marked_shutdown(&self) -> bool {
        self.shutdown.load(Ordering::SeqCst)
    }

    /// Relies on Arc's Clone: a second handle to the same flags.
    #[verifier::external_body]
    pub fn share(&self) -> GroupProperties {
        GroupProperties { shutdown: self.shutdown.clone() }
    }
}

} // verus!
