use vstd::prelude::*;

use std::collections::VecDeque;

verus! {

/// What a receiver finds in the handoff.
pub enum Received {
    /// The oldest record not yet received.
    Record(String),
    /// Nothing queued yet; the producer may still send.
    Waiting,
    /// Nothing queued and the producer has finished.
    Finished,
}

/// The ordered conduit from extraction to delivery: records leave in the order
/// they were sent, none is dropped, and the producer marks the end by closing it.
pub struct Handoff {
    queue: VecDeque<String>,
    closed: bool,
    sent_log: Ghost<Seq<Seq<char>>>,
    received_log: Ghost<Seq<Seq<char>>>,
}

impl Handoff {
    /// The records queued and not yet received, oldest first.
    pub closed spec fn pending(&self) -> Seq<Seq<char>> {
        self.queue@.map_values(|r: String| r@)
    }

    /// Every record sent so far, in order.
    pub closed spec fn sent(&self) -> Seq<Seq<char>> {
        self.sent_log@
    }

    /// Every record received so far, in order.
    pub closed spec fn received(&self) -> Seq<Seq<char>> {
        self.received_log@
    }

    /// Whether the producer has finished sending.
    pub closed spec fn spec_is_closed(&self) -> bool {
        self.closed
    }

    /// What was received, followed by what is pending, is exactly what was sent.
    pub open spec fn wf(&self) -> bool {
        self.received() + self.pending() == self.sent()
    }

    /// An open handoff through which nothing has passed yet.
    pub fn new() -> (r: Handoff)
        ensures
            r.wf(),
            r.pending() == Seq::<Seq<char>>::empty(),
            r.sent() == Seq::<Seq<char>>::empty(),
            r.received() == Seq::<Seq<char>>::empty(),
            !r.spec_is_closed(),
    {
        let r = Handoff {
            queue: VecDeque::new(),
            closed: false,
            sent_log: Ghost(Seq::empty()),
            received_log: Ghost(Seq::empty()),
        };
        assert(r.pending() =~= Seq::<Seq<char>>::empty());
        assert(r.received() + r.pending() =~= r.sent());
        r
    }

    /// Whether the producer has finished sending.
    pub fn is_closed(&self) -> (r: bool)
        ensures
            r == self.spec_is_closed(),
    {
        self.closed
    }

    /// Queues a record behind every record sent before it.
    pub fn send(&mut self, record: String)
        requires
            old(self).wf(),
            !old(self).spec_is_closed(),
        ensures
            final(self).wf(),
            final(self).sent() == old(self).sent().push(record@),
            final(self).pending() == old(self).pending().push(record@),
            final(self).received() == old(self).received(),
            !final(self).spec_is_closed(),
    {
        let ghost r = record@;
        self.queue.push_back(record);
        self.sent_log = Ghost(self.sent_log@.push(r));
        assert(self.pending() =~= old(self).pending().push(r));
        assert(self.received() + self.pending() =~= self.sent());
    }

    /// Marks the end of the records: once the queue drains, receivers find `Finished`.
    pub fn close(&mut self)
        requires
            old(self).wf(),
        ensures
            final(self).wf(),
            final(self).sent() == old(self).sent(),
            final(self).pending() == old(self).pending(),
            final(self).received() == old(self).received(),
            final(self).spec_is_closed(),
    {
        self.closed = true;
    }

    /// Takes the oldest pending record, if any.
    pub fn recv(&mut self) -> (r: Received)
        requires
            old(self).wf(),
        ensures
            final(self).wf(),
            final(self).sent() == old(self).sent(),
            final(self).spec_is_closed() == old(self).spec_is_closed(),
            old(self).pending().len() > 0 ==> (r matches Received::Record(rec) && rec@
                == old(self).pending()[0] && final(self).pending() == old(self).pending().drop_first()
                && final(self).received() == old(self).received().push(rec@)),
            old(self).pending().len() == 0 ==> final(self).pending() == old(self).pending()
                && final(self).received() == old(self).received(),
            old(self).pending().len() == 0 && old(self).spec_is_closed() ==> r is Finished,
            old(self).pending().len() == 0 && !old(self).spec_is_closed() ==> r is Waiting,
    {
        match self.queue.pop_front() {
            Some(rec) => {
                let ghost s = rec@;
                self.received_log = Ghost(self.received_log@.push(s));
                assert(self.pending() =~= old(self).pending().drop_first());
                assert(self.received() + self.pending() =~= self.sent());
                Received::Record(rec)
            },
            None => {
                assert(self.pending() =~= old(self).pending());
                if self.closed {
                    Received::Finished
                } else {
                    Received::Waiting
                }
            },
        }
    }
}

/// Records are received in the order they were sent: every record received
/// stands at the same position among the records sent.
pub proof fn lemma_handoff_order(h: &Handoff)
    requires
        h.wf(),
    ensures
        h.received().len() <= h.sent().len(),
        forall|i: int| 0 <= i < h.received().len() ==> #[trigger] h.received()[i] == h.sent()[i],
        h.sent().subrange(h.received().len() as int, h.sent().len() as int) == h.pending(),
{
    assert(h.sent().subrange(h.received().len() as int, h.sent().len() as int) =~= h.pending());
}

} // verus!
