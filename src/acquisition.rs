use vstd::prelude::*;

use crate::frame::{extract_records, extracted_records};
use crate::handoff::Handoff;
use crate::progress::{comma_grouped, progress_message, progress_text};

verus! {

/// The two states of the acquisition loop.
#[derive(PartialEq, Eq, Structural, Clone, Copy, Debug)]
pub enum LoopState {
    Running,
    Stopped,
}

/// What the loop asks its driver to do next.
#[derive(PartialEq, Eq, Structural, Clone, Copy, Debug)]
pub enum LoopAction {
    /// Read the next buffer from the radio and hand it to `process_buffer`.
    Acquire,
    /// Cancellation was seen: finish the progress display, disable streaming
    /// and release the radio.
    Shutdown,
    /// The loop has already stopped; nothing is left to do.
    Finished,
}

/// The decisions of the acquisition loop: when to read, when to stop, where
/// extracted records go, and how many frames have been seen.
pub struct AcquisitionLoop {
    state: LoopState,
    remote: bool,
    message_count: u64,
}

/// `a + b`, or the largest `u64` where the sum does not fit.
pub open spec fn saturating_sum(a: u64, b: nat) -> u64 {
    if a + b > u64::MAX {
        u64::MAX
    } else {
        (a + b) as u64
    }
}

impl AcquisitionLoop {
    /// Whether the loop is running or has stopped.
    pub closed spec fn state(&self) -> LoopState {
        self.state
    }

    /// Whether extracted records are handed on for remote delivery.
    pub closed spec fn delivers_remotely(&self) -> bool {
        self.remote
    }

    /// The number of frames extracted so far.
    pub closed spec fn count(&self) -> u64 {
        self.message_count
    }

    /// A running loop with no frames counted; `remote` says whether records are
    /// handed on for delivery.
    pub fn new(remote: bool) -> (r: AcquisitionLoop)
        ensures
            r.state() == LoopState::Running,
            r.delivers_remotely() == remote,
            r.count() == 0,
    {
        AcquisitionLoop { state: LoopState::Running, remote, message_count: 0 }
    }

    pub fn is_running(&self) -> (r: bool)
        ensures
            r == (self.state() == LoopState::Running),
    {
        match self.state {
            LoopState::Running => true,
            LoopState::Stopped => false,
        }
    }

    /// The number of frames extracted so far.
    pub fn message_count(&self) -> (r: u64)
        ensures
            r == self.count(),
    {
        self.message_count
    }

    /// The check made at the top of each iteration. A running loop that sees
    /// cancellation stops and closes the handoff so the delivery path drains
    /// and ends; otherwise it asks for the next buffer.
    pub fn poll(&mut self, cancelled: bool, handoff: &mut Handoff) -> (r: LoopAction)
        requires
            old(handoff).wf(),
        ensures
            final(handoff).wf(),
            final(self).delivers_remotely() == old(self).delivers_remotely(),
            final(self).count() == old(self).count(),
            final(handoff).sent() == old(handoff).sent(),
            final(handoff).pending() == old(handoff).pending(),
            final(handoff).received() == old(handoff).received(),
            old(self).state() == LoopState::Running && !cancelled ==> r == LoopAction::Acquire
                && final(self).state() == LoopState::Running && final(handoff).spec_is_closed()
                == old(handoff).spec_is_closed(),
            old(self).state() == LoopState::Running && cancelled ==> r == LoopAction::Shutdown
                && final(self).state() == LoopState::Stopped && final(handoff).spec_is_closed(),
            old(self).state() == LoopState::Stopped ==> r == LoopAction::Finished
                && final(self).state() == LoopState::Stopped && final(handoff).spec_is_closed()
                == old(handoff).spec_is_closed(),
    {
        match self.state {
            LoopState::Stopped => LoopAction::Finished,
            LoopState::Running => {
                if cancelled {
                    self.state = LoopState::Stopped;
                    handoff.close();
                    LoopAction::Shutdown
                } else {
                    LoopAction::Acquire
                }
            },
        }
    }

    /// Extracts every frame of a buffer just read, counts them, and, when
    /// records go to remote delivery, sends each one into the handoff in slot
    /// order. The whole buffer is processed whatever happens to the
    /// cancellation flag meanwhile.
    pub fn process_buffer(&mut self, buf: &[u8], handoff: &mut Handoff) -> (r: usize)
        requires
            old(self).state() == LoopState::Running,
            old(handoff).wf(),
            !old(handoff).spec_is_closed(),
        ensures
            r == extracted_records(buf@).len(),
            final(self).state() == old(self).state(),
            final(self).delivers_remotely() == old(self).delivers_remotely(),
            final(self).count() == saturating_sum(old(self).count(), r as nat),
            final(handoff).wf(),
            !final(handoff).spec_is_closed(),
            final(handoff).received() == old(handoff).received(),
            old(self).delivers_remotely() ==> final(handoff).sent() == old(handoff).sent()
                + extracted_records(buf@),
            !old(self).delivers_remotely() ==> final(handoff).sent() == old(handoff).sent(),
    {
        let records = extract_records(buf);
        let n = records.len();
        if self.remote {
            let mut records = records;
            let ghost all = records.deep_view();
            let ghost start = handoff.sent();
            let mut i: usize = 0;
            while i < n
                invariant
                    i <= n,
                    n == all.len(),
                    records.deep_view() == all.subrange(i as int, n as int),
                    handoff.wf(),
                    !handoff.spec_is_closed(),
                    handoff.received() == old(handoff).received(),
                    handoff.sent() == start + all.subrange(0, i as int),
                decreases n - i,
            {
                assert(records.deep_view().len() == records@.len());
                assert(records.deep_view()[0] == records@[0]@);
                let ghost before = records@;
                let ghost before_deep = records.deep_view();
                let rec = records.remove(0);
                assert forall|j: int| 0 <= j < records@.len() implies records.deep_view()[j]
                    == before_deep[j + 1] by {
                    assert(records@[j] == before[j + 1]);
                }
                assert(records.deep_view() =~= before_deep.drop_first());
                proof {
                    assert(rec@ == all[i as int]);
                }
                handoff.send(rec);
                i = i + 1;
                assert(records.deep_view() =~= all.subrange(i as int, n as int));
                assert(handoff.sent() =~= start + all.subrange(0, i as int));
            }
        }
        if self.message_count > u64::MAX - n as u64 {
            self.message_count = u64::MAX;
        } else {
            self.message_count = self.message_count + n as u64;
        }
        n
    }

    /// The operator-facing progress line for the frames counted so far.
    pub fn progress(&self) -> (r: String)
        ensures
            r@ == progress_text(comma_grouped(self.count())),
    {
        progress_message(self.message_count)
    }
}

} // verus!
