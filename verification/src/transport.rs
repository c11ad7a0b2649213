use vstd::prelude::*;

verus! {

/// The host-facing communication channel: a bounded outgoing buffer
/// serviced by a non-blocking poll. Writes are best-effort — bytes that
/// do not fit are dropped rather than ever blocking the super-loop —
/// and the poll must run once per loop iteration to keep the host-side
/// connection alive.
pub struct TransportEndpoint {
    /// Most bytes the outgoing buffer can hold at once.
    pub capacity: usize,
    /// Bytes accepted for transmission but not yet handed to the host.
    pub pending: Vec<u8>,
    /// Bytes the polls so far have handed to the host, oldest first.
    pub delivered: Vec<u8>,
}

impl TransportEndpoint {
    /// Structural invariant: the outgoing buffer never exceeds its
    /// capacity.
    pub open spec fn wf(&self) -> bool {
        self.pending@.len() <= self.capacity
    }

    /// A fresh endpoint with an empty outgoing buffer.
    pub fn new(capacity: usize) -> (t: TransportEndpoint)
        ensures
            t.wf(),
            t.capacity == capacity,
            t.pending@ == Seq::<u8>::empty(),
            t.delivered@ == Seq::<u8>::empty(),
    {
        TransportEndpoint { capacity, pending: Vec::new(), delivered: Vec::new() }
    }

    /// Attempt to enqueue `bytes` for transmission. Exactly as many
    /// leading bytes as fit in the free space are accepted; the rest are
    /// silently dropped. Never blocks: delivery of diagnostics is not
    /// guaranteed, only liveness of the loop is.
    pub fn send_best_effort(&mut self, bytes: &Vec<u8>) -> (accepted: usize)
        requires
            old(self).wf(),
        ensures
            final(self).wf(),
            accepted == vstd::math::min(
                bytes@.len() as int,
                old(self).capacity - old(self).pending@.len(),
            ),
            final(self).pending@ == old(self).pending@ + bytes@.take(accepted as int),
            final(self).capacity == old(self).capacity,
            final(self).delivered@ == old(self).delivered@,
    {
        let free = self.capacity - self.pending.len();
        let accepted = if bytes.len() < free {
            bytes.len()
        } else {
            free
        };
        let mut i: usize = 0;
        while i < accepted
            invariant
                i <= accepted,
                accepted <= bytes@.len(),
                old(self).pending@.len() + accepted <= old(self).capacity,
                self.capacity == old(self).capacity,
                self.delivered@ == old(self).delivered@,
                self.pending@ == old(self).pending@ + bytes@.take(i as int),
            decreases accepted - i,
        {
            let b = bytes[i];
            self.pending.push(b);
            i += 1;
            proof {
                assert(self.pending@ =~= old(self).pending@ + bytes@.take(i as int));
            }
        }
        accepted
    }

    /// Service the channel once: hand every buffered byte to the host
    /// without blocking, leaving the outgoing buffer empty.
    pub fn poll(&mut self)
        requires
            old(self).wf(),
        ensures
            final(self).wf(),
            final(self).capacity == old(self).capacity,
            final(self).pending@ == Seq::<u8>::empty(),
            final(self).delivered@ == old(self).delivered@ + old(self).pending@,
    {
        self.delivered.append(&mut self.pending);
    }
}

} // verus!
