//! A small FSM, handler and builder that exercise the batch system:
//! the runner burns CPU on `Loop` messages and can be told to stop.

use vstd::prelude::*;
use crate::batch::HandlerBuilder;
use crate::batch::PollHandler;
use crate::fsm::Fsm;
use crate::fsm::Priority;
use crate::mpsc::LooseBoundedSender;
use crate::mpsc::Receiver;
use crate::mpsc::Sender;
use crate::mpsc::loose_bounded;

verus! {

/// What a runner can be asked to do.
pub enum Message {
    /// Burn CPU for this many steps.
    Loop(usize),
    /// Stop after the current round.
    Stop,
}

/// An FSM that drains its own queue, computes on `Loop` messages, and
/// can carry a sentinel sender whose disconnection signals its drop.
pub struct Runner {
    is_stopped: bool,
    recv: Receiver<Message>,
    /// A drop sentinel: when the runner is dropped, the other end of
    /// this channel observes a disconnect.
    pub sender: Option<Sender<()>>,
    /// Result of the `Loop` computation, kept so it is not optimised
    /// away.
    res: usize,
    priority: Priority,
}

impl Fsm for Runner {
    type Message = Message;

    fn is_stopped(&self) -> bool {
        self.is_stopped
    }

    fn get_priority(&self) -> Priority {
        self.priority
    }
}

impl Runner {
    pub closed spec fn spec_priority(&self) -> Priority {
        self.priority
    }

    pub closed spec fn spec_stopped(&self) -> bool {
        self.is_stopped
    }

    /// A fresh runner with a loose-bounded mailbox queue of soft
    /// capacity `cap`.
    pub fn new(cap: usize) -> (r: (LooseBoundedSender<Message>, Box<Runner>))
        ensures
            r.0.spec_connected(),
            r.0.spec_tried_cnt() == 0,
            r.0.spec_limit() == cap,
            !r.1.spec_stopped(),
            r.1.spec_priority() == Priority::Normal,
    {
        let (tx, rx) = loose_bounded(cap);
        let fsm = Box::new(
            Runner {
                is_stopped: false,
                recv: rx,
                sender: None,
                res: 0,
                priority: Priority::Normal,
            },
        );
        (tx, fsm)
    }

    pub fn set_priority(&mut self, priority: Priority)
        ensures
            final(self).spec_priority() == priority,
            final(self).spec_stopped() == old(self).spec_stopped(),
    {
        self.priority = priority;
    }
}

/// Counts of handler activity, one field per entry point.
#[derive(Clone, Copy, Debug, PartialEq, Eq, Structural)]
pub struct HandleMetrics {
    pub begin: usize,
    pub control: usize,
    pub normal: usize,
}

impl Default for HandleMetrics {
    fn default() -> (r: Self)
        ensures
            r.begin == 0,
            r.control == 0,
            r.normal == 0,
    {
        HandleMetrics { begin: 0, control: 0, normal: 0 }
    }
}

/// A poll handler that drains each runner's queue and counts its own
/// activity.
pub struct Handler {
    local: HandleMetrics,
    priority: Priority,
}

impl Handler {
    /// The activity counted so far.
    pub fn metrics(&self) -> HandleMetrics {
        self.local
    }

    /// Drain up to sixteen messages from the runner's own queue,
    /// computing on each `Loop` and stopping the runner on `Stop`.
    fn handle(&mut self, r: &mut Runner) -> Option<usize> {
        let mut round: usize = 0;
        while round < 16
            invariant
                round <= 16,
            decreases 16 - round,
        {
            match r.recv.try_recv() {
                Ok(Message::Loop(count)) => {
                    let mut step: usize = 0;
                    while step < count
                        invariant
                            step <= count,
                        decreases count - step,
                    {
                        // CPU-consuming stand-in work
                        r.res = r.res.wrapping_mul(count);
                        let d = count.wrapping_add(1);
                        if d != 0 {
                            r.res = r.res % d;
                        }
                        step = step + 1;
                    }
                },
                Ok(Message::Stop) => {
                    r.is_stopped = true;
                },
                Err(_) => {
                    return Some(0);
                },
            }
            round = round + 1;
        }
        Some(0)
    }
}

impl PollHandler<Runner, Runner> for Handler {
    fn begin(&mut self, _batch_size: usize) {
        self.local.begin = self.local.begin.wrapping_add(1);
    }

    fn handle_control(&mut self, control: &mut Runner) -> Option<usize> {
        self.local.control = self.local.control.wrapping_add(1);
        self.handle(control)
    }

    fn handle_normal(&mut self, normal: &mut Runner) -> Option<usize> {
        self.local.normal = self.local.normal.wrapping_add(1);
        self.handle(normal)
    }

    fn end(&mut self, _batch: &mut [Box<Runner>]) {
    }

    fn pause(&mut self) {
    }

    fn get_priority(&self) -> Priority {
        self.priority
    }
}

/// Builds one `Handler` per worker.
pub struct Builder {
}

impl Builder {
    pub fn new() -> Builder {
        Builder {  }
    }
}

impl HandlerBuilder<Runner, Runner> for Builder {
    type Handler = Handler;

    fn build(&mut self, priority: Priority) -> Self::Handler {
        Handler { local: HandleMetrics::default(), priority }
    }
}

} // verus!
