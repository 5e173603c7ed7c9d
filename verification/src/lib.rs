//! A batch-scheduled finite-state-machine runtime: a large population
//! of lightweight stateful actors is multiplexed onto a small pool of
//! workers by delivering batches of ready FSMs to a user-supplied
//! handler.
//!
//! The pieces, leaves first:
//!
//! - [`lru`]: the bounded address cache with sampled promotion that
//!   keeps hot lookups off the authoritative map.
//! - [`mpsc`]: channel endpoints with a sender-side close flag and a
//!   loose-bounded sender that enforces a soft capacity.
//! - [`fsm`] and [`mailbox`]: the three-state ownership cell of one
//!   actor, and its fusion with a message queue so that a successful
//!   enqueue wakes an idle FSM in the same step.
//! - [`router`]: the address book with its send policies, broadcasts
//!   and lifecycle.
//! - [`batch`]: the schedulers, the per-worker batch, the poll round
//!   that drives the handler, and the wiring of a whole system.
//! - [`runner`]: a small FSM and handler that exercise the system.
//!
//! Worker threads themselves are the embedding program's part: it
//! builds one [`batch::Poller`] per worker and loops
//! [`batch::Poller::poll_round`] until a shutdown sentinel arrives.

use vstd::prelude::*;

pub mod batch;
pub mod config;
pub mod fsm;
pub mod lru;
pub mod mailbox;
pub mod mpsc;
pub mod owner;
pub mod router;
pub mod runner;
pub mod shared_obj;
pub mod thread_group;
pub mod util;

verus! {

} // verus!
