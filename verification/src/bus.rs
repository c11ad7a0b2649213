use vstd::prelude::*;

verus! {

/// Identifier of one logical device on the shared bus — one chip-select
/// line. Several logical devices share the one physical bus; only their
/// select lines distinguish them.
pub type DeviceId = u8;

/// A hardware-reported failure of a bus transaction, surfaced to the
/// caller unchanged; retry policy belongs to the caller.
#[derive(Clone, Copy, PartialEq, Eq, Structural, Debug)]
pub enum BusError {
    /// The addressed device did not acknowledge.
    NoAcknowledge,
    /// The transaction did not complete in time.
    Timeout,
}

/// One observable event on the physical bus, as a test harness watching
/// the wires would see it.
#[derive(Clone, Copy, PartialEq, Eq, Structural, Debug)]
pub enum BusOp {
    /// A device's chip-select line driven active: its transaction begins.
    Select(DeviceId),
    /// One byte-level exchange for a device, recorded with the bus clock
    /// rate in force while it happened.
    Transfer(DeviceId, u32),
    /// The device's chip-select line restored to inactive: its
    /// transaction is over.
    Deselect(DeviceId),
    /// Bus-wide reconfiguration to a new clock rate, in hertz.
    Configure(u32),
}

/// The device whose chip-select line is active after the events of `t`,
/// given that none was active at the start.
pub open spec fn trace_owner(t: Seq<BusOp>) -> Option<DeviceId>
    decreases t.len(),
{
    if t.len() == 0 {
        None
    } else {
        match t.last() {
            BusOp::Select(d) => Some(d),
            BusOp::Transfer(_, _) => trace_owner(t.drop_last()),
            BusOp::Deselect(_) => None,
            BusOp::Configure(_) => trace_owner(t.drop_last()),
        }
    }
}

/// The mutual-exclusion discipline, as a predicate on the observable
/// trace: a device is selected only while the bus is free, byte
/// exchanges and deselection happen only for the currently selected
/// device, and the clock rate changes only while the bus is free.
pub open spec fn trace_serialized(t: Seq<BusOp>) -> bool
    decreases t.len(),
{
    if t.len() == 0 {
        true
    } else {
        trace_serialized(t.drop_last()) && match t.last() {
            BusOp::Select(_) => trace_owner(t.drop_last()) is None,
            BusOp::Transfer(d, _) => trace_owner(t.drop_last()) == Some(d),
            BusOp::Deselect(d) => trace_owner(t.drop_last()) == Some(d),
            BusOp::Configure(_) => trace_owner(t.drop_last()) is None,
        }
    }
}

/// The observable events of one complete transaction: select, `n` byte
/// exchanges at clock rate `rate`, deselect.
pub open spec fn transaction_events(dev: DeviceId, rate: u32, n: int) -> Seq<BusOp> {
    seq![BusOp::Select(dev)] + Seq::new(n as nat, |i: int| BusOp::Transfer(dev, rate)) + seq![
        BusOp::Deselect(dev),
    ]
}

/// The single owner of the physical bus. All transactions from all
/// logical devices, and every bus-wide reconfiguration, go through this
/// multiplexer, which serializes them and records what the wires would
/// show. The `wf` invariant ties the recorded trace to the discipline.
pub struct SharedBus {
    /// Clock rate the bus is currently configured for, in hertz.
    pub clock_rate: u32,
    /// The device currently mid-transaction (chip select active), if any.
    pub owner: Option<DeviceId>,
    /// The observable events issued so far, oldest first.
    pub trace: Vec<BusOp>,
}

impl SharedBus {
    /// Structural invariant: the recorded trace obeys the serialization
    /// discipline and ends with the current owner selected.
    pub open spec fn wf(&self) -> bool {
        trace_serialized(self.trace@) && trace_owner(self.trace@) == self.owner
    }

    /// A bus initially idle: no chip select active, nothing yet observed.
    pub fn new(clock_rate: u32) -> (bus: SharedBus)
        ensures
            bus.wf(),
            bus.clock_rate == clock_rate,
            bus.owner is None,
            bus.trace@ == Seq::<BusOp>::empty(),
    {
        SharedBus { clock_rate, owner: None, trace: Vec::new() }
    }

    /// Reconfigure the bus clock rate. Allowed only between transactions,
    /// so a rate change can never race an in-flight transfer: the rate
    /// observed during any transaction is the rate at its start.
    pub fn set_clock_rate(&mut self, rate: u32)
        requires
            old(self).wf(),
            old(self).owner is None,
        ensures
            final(self).wf(),
            final(self).clock_rate == rate,
            final(self).owner is None,
            final(self).trace@ == old(self).trace@.push(BusOp::Configure(rate)),
    {
        self.trace.push(BusOp::Configure(rate));
        self.clock_rate = rate;
        proof {
            assert(self.trace@.drop_last() =~= old(self).trace@);
        }
    }

    /// Begin a transaction for `dev`: drive its chip-select line active.
    /// Requires the bus free — the guard that makes transactions from
    /// different logical devices mutually exclusive in time.
    pub fn begin_transaction(&mut self, dev: DeviceId)
        requires
            old(self).wf(),
            old(self).owner is None,
        ensures
            final(self).wf(),
            final(self).owner == Some(dev),
            final(self).clock_rate == old(self).clock_rate,
            final(self).trace@ == old(self).trace@.push(BusOp::Select(dev)),
    {
        self.trace.push(BusOp::Select(dev));
        self.owner = Some(dev);
        proof {
            assert(self.trace@.drop_last() =~= old(self).trace@);
        }
    }

    /// One byte-level exchange for `dev`, which must be the selected
    /// device; the exchange is recorded with the clock rate in force.
    pub fn transfer(&mut self, dev: DeviceId)
        requires
            old(self).wf(),
            old(self).owner == Some(dev),
        ensures
            final(self).wf(),
            final(self).owner == old(self).owner,
            final(self).clock_rate == old(self).clock_rate,
            final(self).trace@ == old(self).trace@.push(
                BusOp::Transfer(dev, old(self).clock_rate),
            ),
    {
        let rate = self.clock_rate;
        self.trace.push(BusOp::Transfer(dev, rate));
        proof {
            assert(self.trace@.drop_last() =~= old(self).trace@);
        }
    }

    /// End `dev`'s transaction: restore its chip-select line to inactive
    /// and surface the hardware outcome unchanged. Deselection is
    /// unconditional — it happens on failure too, so the bus is never
    /// left with a select line active where another device could misread
    /// electrical noise as addressed traffic.
    pub fn end_transaction(&mut self, dev: DeviceId, outcome: Result<(), BusError>) -> (r: Result<
        (),
        BusError,
    >)
        requires
            old(self).wf(),
            old(self).owner == Some(dev),
        ensures
            final(self).wf(),
            final(self).owner is None,
            final(self).clock_rate == old(self).clock_rate,
            final(self).trace@ == old(self).trace@.push(BusOp::Deselect(dev)),
            r == outcome,
    {
        self.trace.push(BusOp::Deselect(dev));
        self.owner = None;
        proof {
            assert(self.trace@.drop_last() =~= old(self).trace@);
        }
        outcome
    }

    /// Run one complete transaction for `dev`: select it, perform
    /// `exchanges` byte-level exchanges, deselect it on every path, and
    /// return the hardware outcome unchanged. A failed transaction
    /// (`outcome` an error, possibly with fewer exchanges completed than
    /// requested) still ends with the device deselected.
    pub fn transaction(&mut self, dev: DeviceId, exchanges: usize, outcome: Result<
        (),
        BusError,
    >) -> (r: Result<(), BusError>)
        requires
            old(self).wf(),
            old(self).owner is None,
        ensures
            final(self).wf(),
            final(self).owner is None,
            final(self).clock_rate == old(self).clock_rate,
            final(self).trace@ == old(self).trace@ + transaction_events(
                dev,
                old(self).clock_rate,
                exchanges as int,
            ),
            r == outcome,
    {
        self.begin_transaction(dev);
        let mut i: usize = 0;
        while i < exchanges
            invariant
                i <= exchanges,
                self.wf(),
                self.owner == Some(dev),
                self.clock_rate == old(self).clock_rate,
                self.trace@ == old(self).trace@ + seq![BusOp::Select(dev)] + Seq::new(
                    i as nat,
                    |k: int| BusOp::Transfer(dev, old(self).clock_rate),
                ),
            decreases exchanges - i,
        {
            self.transfer(dev);
            i += 1;
            proof {
                assert(self.trace@ =~= old(self).trace@ + seq![BusOp::Select(dev)] + Seq::new(
                    i as nat,
                    |k: int| BusOp::Transfer(dev, old(self).clock_rate),
                ));
            }
        }
        let r = self.end_transaction(dev, outcome);
        proof {
            assert(self.trace@ =~= old(self).trace@ + transaction_events(
                dev,
                old(self).clock_rate,
                exchanges as int,
            ));
        }
        r
    }
}

/// A serialized trace stays serialized when truncated: the discipline is
/// a property of every prefix of the observed events.
pub proof fn lemma_serialized_prefix(t: Seq<BusOp>, n: int)
    requires
        trace_serialized(t),
        0 <= n <= t.len(),
    ensures
        trace_serialized(t.take(n)),
    decreases t.len(),
{
    if n < t.len() {
        lemma_serialized_prefix(t.drop_last(), n);
        assert(t.take(n) =~= t.drop_last().take(n));
    } else {
        assert(t.take(n) =~= t);
    }
}

/// Mutual exclusion, observed at the byte level: in a serialized trace
/// every byte exchange belongs to the device whose chip select was
/// active when it happened — no other device's transaction can
/// interleave with it.
pub proof fn lemma_transfer_only_for_owner(t: Seq<BusOp>, j: int, d: DeviceId, rate: u32)
    requires
        trace_serialized(t),
        0 <= j < t.len(),
        t[j] == BusOp::Transfer(d, rate),
    ensures
        trace_owner(t.take(j)) == Some(d),
{
    lemma_serialized_prefix(t, j + 1);
    let p = t.take(j + 1);
    assert(p.last() == t[j]);
    assert(p.drop_last() =~= t.take(j));
}

/// While a device holds the bus, it keeps it until its deselection: no
/// event other than a deselect can change or clear the owner, because
/// selects and reconfigurations both demand a free bus.
pub proof fn lemma_owner_persists(t: Seq<BusOp>, i: int, j: int, d: DeviceId)
    requires
        trace_serialized(t),
        0 <= i <= j <= t.len(),
        trace_owner(t.take(i)) == Some(d),
        forall|k: int| i <= k < j ==> !(#[trigger] t[k] is Deselect),
    ensures
        trace_owner(t.take(j)) == Some(d),
    decreases j - i,
{
    if i < j {
        lemma_owner_persists(t, i, j - 1, d);
        lemma_serialized_prefix(t, j);
        let p = t.take(j);
        assert(p.last() == t[j - 1]);
        assert(p.drop_last() =~= t.take(j - 1));
    }
}

/// No interleaving: byte exchanges of two different devices are always
/// separated by a deselection, so one device's transaction can never
/// cut into another's.
pub proof fn lemma_no_interleaving(
    t: Seq<BusOp>,
    i: int,
    j: int,
    d1: DeviceId,
    r1: u32,
    d2: DeviceId,
    r2: u32,
)
    requires
        trace_serialized(t),
        0 <= i < j < t.len(),
        t[i] == BusOp::Transfer(d1, r1),
        t[j] == BusOp::Transfer(d2, r2),
        d1 != d2,
    ensures
        exists|k: int| i < k < j && #[trigger] t[k] is Deselect,
{
    if !(exists|k: int| i < k < j && #[trigger] t[k] is Deselect) {
        lemma_transfer_only_for_owner(t, i, d1, r1);
        lemma_transfer_only_for_owner(t, j, d2, r2);
        // The exchange at `i` leaves the owner untouched.
        lemma_serialized_prefix(t, i + 1);
        let p = t.take(i + 1);
        assert(p.last() == t[i]);
        assert(p.drop_last() =~= t.take(i));
        assert(trace_owner(t.take(i + 1)) == Some(d1));
        // With no deselection in between, `d1` still owns the bus at `j`.
        lemma_owner_persists(t, i + 1, j, d1);
        assert(false);
    }
}

/// Reconfiguration never races a transaction: in a serialized trace a
/// clock-rate change happens only while no device is selected, so the
/// rate observed during a transaction can only change between
/// transactions.
pub proof fn lemma_configure_only_while_free(t: Seq<BusOp>, j: int, rate: u32)
    requires
        trace_serialized(t),
        0 <= j < t.len(),
        t[j] == BusOp::Configure(rate),
    ensures
        trace_owner(t.take(j)) is None,
{
    lemma_serialized_prefix(t, j + 1);
    let p = t.take(j + 1);
    assert(p.last() == t[j]);
    assert(p.drop_last() =~= t.take(j));
}

} // verus!
