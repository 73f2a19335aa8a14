use vstd::prelude::*;
use crate::capture::{PwEvent, is_failure};

verus! {

/// The relay between the capture thread's queue and the consumer: it passes
/// events on in order, and ends after the first failure report, or after
/// reporting a failure itself when the capture side closed the queue.
#[derive(Debug, Clone, Copy, PartialEq, Eq, Structural)]
pub struct EventBridge {
    finished: bool,
}

impl EventBridge {
    /// The relay has ended: it passes nothing more on.
    pub closed spec fn spec_finished(&self) -> bool {
        self.finished
    }

    /// A relay that has not ended.
    pub fn new() -> (r: EventBridge)
        ensures
            !r.spec_finished(),
    {
        EventBridge { finished: false }
    }

    /// Whether the relay has ended.
    pub fn is_finished(&self) -> (r: bool)
        ensures
            r == self.spec_finished(),
    {
        self.finished
    }

    /// What to hand the consumer for one receive from the capture queue:
    /// `Some(e)` for an event `e`, `None` where the queue was closed. An
    /// ended relay hands on nothing; a closed queue is reported as a failure.
    /// The relay ends with the first failure it hands on.
    pub fn relay<T>(&mut self, received: Option<PwEvent<T>>) -> (r: Option<PwEvent<T>>)
        ensures
            old(self).spec_finished() ==> r is None && final(self).spec_finished(),
            !old(self).spec_finished() ==> match received {
                Some(e) => r == Some(e) && final(self).spec_finished() == is_failure(e),
                None => r == Some(PwEvent::<T>::PwErr) && final(self).spec_finished(),
            },
    {
        if self.finished {
            return None;
        }
        match received {
            Some(e) => {
                let fails = match &e {
                    PwEvent::PwErr => true,
                    _ => false,
                };
                self.finished = fails;
                Some(e)
            },
            None => {
                self.finished = true;
                Some(PwEvent::PwErr)
            },
        }
    }
}

} // verus!
