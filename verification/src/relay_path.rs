use vstd::prelude::*;
use crate::error::{Disposition, LinkError};
use crate::event::{EventBatch, IbcEvent};
use crate::height::Height;
use crate::link::{
    cleared, distinct, drop_stale, enqueue, enqueue_all, enqueue_units, enqueue_units_keeps_head,
    enqueue_units_starts, fresh_prefix,
    has_sent_packet, ingest, ingest_without_sends, queued, same_work, schedule_cleared,
    schedule_events, schedule_units, sends_packets, MsgKind, OperationalData, PendingTx,
    RelaySummary, Resubmit, Side,
};

verus! {

/// What a path asks of a chain. Nothing is promised of the answers: a path
/// is verified for every chain that answers at all.
pub trait ChainHandle {
    /// The height that the chain stands at.
    fn query_latest_height(&self) -> Result<Height, LinkError>;

    /// The sequence numbers of the packets that the chain has committed to
    /// on this channel, at the given height or the latest.
    fn query_packet_commitments(&self, height: Option<Height>) -> Result<Vec<u64>, LinkError>;

    /// Those of the given packets that the chain has not received.
    fn query_unreceived_packets(&self, sequences: &Vec<u64>) -> Result<Vec<u64>, LinkError>;

    /// Those of the given packets whose acknowledgement the chain has not
    /// taken.
    fn query_unreceived_acknowledgements(&self, sequences: &Vec<u64>) -> Result<
        Vec<u64>,
        LinkError,
    >;

    /// Brings the chain's light client of the other chain up to the given
    /// height, and waits until the update is committed.
    fn update_client(&self, target_height: Height) -> Result<(), LinkError>;

    /// Broadcasts one unit of work and waits until the chain has admitted it.
    fn send_messages_and_wait_check_tx(&self, od: &OperationalData) -> Result<(), LinkError>;

    /// The events of the transaction that carried `od`: `None` while it is
    /// not committed, an error once its deadline has passed.
    fn query_tx_events(&self, od: &OperationalData) -> Result<Option<Vec<IbcEvent>>, LinkError>;
}

/// The number of attempts after one more, which stops at the largest number.
pub open spec fn bumped(attempts: u64) -> u64 {
    if attempts < u64::MAX {
        (attempts + 1) as u64
    } else {
        attempts
    }
}

/// What stands for a unit among the broadcasts in flight, once the chain has
/// admitted it.
pub open spec fn in_flight(od: OperationalData) -> PendingTx {
    PendingTx { od, attempts: bumped(od.attempts) }
}

/// The unit that is scheduled where a broadcast is tried again: the same
/// work, with the attempts made so far.
pub open spec fn resubmitted(tx: PendingTx) -> OperationalData {
    OperationalData {
        kind: tx.od.kind,
        sequence: tx.od.sequence,
        height: tx.od.height,
        attempts: tx.attempts,
    }
}

/// What becomes of a broadcast in flight.
#[derive(Clone, Copy, Debug, PartialEq, Eq, Structural)]
pub enum Settlement {
    /// Its transaction is committed.
    Committed,
    /// No receipt yet: it stays in flight.
    Waiting,
    /// It failed and is scheduled again, as the unit given.
    Again(OperationalData),
    /// It failed and is given up.
    Dropped,
}

/// The schedule and the broadcasts in flight after the chain replied to the
/// broadcast of the unit at the head of the schedule. Accepted work waits for
/// its receipt; work that is no longer wanted is dropped; after any other
/// error the unit stays at the head.
pub open spec fn after_broadcast(
    schedule: Seq<OperationalData>,
    pending: Seq<PendingTx>,
    reply: Result<(), LinkError>,
) -> (Seq<OperationalData>, Seq<PendingTx>) {
    if schedule.len() == 0 {
        (schedule, pending)
    } else {
        match reply {
            Ok(_) => (schedule.skip(1), pending.push(in_flight(schedule[0]))),
            Err(e) => if e.disposition() == Disposition::Ignore {
                (schedule.skip(1), pending)
            } else {
                (schedule, pending)
            },
        }
    }
}

/// The error that ends an execution pass, if the reply is one.
pub open spec fn halting_error(reply: Result<(), LinkError>) -> Option<LinkError> {
    match reply {
        Ok(_) => None,
        Err(e) => if e.disposition() == Disposition::Ignore {
            None
        } else {
            Some(e)
        },
    }
}

/// Whether a broadcast that failed with an error to retry is tried again:
/// where the policy allows another attempt, and in any case where it is a
/// received packet on an ordered channel, which the packets behind it wait
/// for.
pub open spec fn retried(tx: PendingTx, resubmit: Resubmit, ordered: bool) -> bool {
    resubmit.allows(tx.attempts) || (ordered && tx.od.kind == MsgKind::RecvPacket)
}

/// What becomes of a broadcast in flight on the chain's word about its
/// receipt: committed work is done; work without a receipt waits on; failed
/// work is scheduled again where the error is one to retry and another
/// attempt is due, and is dropped otherwise.
pub open spec fn settled(
    tx: PendingTx,
    receipt: Result<Option<Seq<IbcEvent>>, LinkError>,
    resubmit: Resubmit,
    ordered: bool,
) -> Settlement {
    match receipt {
        Ok(Some(_)) => Settlement::Committed,
        Ok(None) => Settlement::Waiting,
        Err(e) => if e.disposition() == Disposition::Retry && retried(tx, resubmit, ordered) {
            Settlement::Again(resubmitted(tx))
        } else {
            Settlement::Dropped
        },
    }
}

/// Whether `tx` stands in `earlier` at an index from `from` up to `to`,
/// the latter left out.
pub open spec fn stands_between(
    earlier: Seq<PendingTx>,
    tx: PendingTx,
    from: int,
    to: int,
) -> bool {
    exists|i: int| from <= i < to && i < earlier.len() && tx == #[trigger] earlier[i]
}

/// Whether `tx` stands in `earlier` at index `from` or behind it.
pub open spec fn stands_in(earlier: Seq<PendingTx>, tx: PendingTx, from: int) -> bool {
    stands_between(earlier, tx, from, earlier.len() as int)
}

/// Whether `later` is what a pass over `earlier` can leave in flight: some
/// of its entries, as they were and in their order.
pub open spec fn carried_over(earlier: Seq<PendingTx>, later: Seq<PendingTx>) -> bool {
    later.len() <= earlier.len() && forall|j: int|
        0 <= j < later.len() ==> stands_in(earlier, #[trigger] later[j], j)
}

/// Whether `unit` is a broadcast of `earlier` that is due to be tried again.
pub open spec fn may_resubmit(
    earlier: Seq<PendingTx>,
    unit: OperationalData,
    resubmit: Resubmit,
    ordered: bool,
) -> bool {
    exists|i: int|
        0 <= i < earlier.len() && retried(#[trigger] earlier[i], resubmit, ordered) && unit
            == resubmitted(earlier[i])
}

/// Whether each of the units is a broadcast of `earlier` that is due to be
/// tried again.
pub open spec fn resubmissions(
    earlier: Seq<PendingTx>,
    again: Seq<OperationalData>,
    resubmit: Resubmit,
    ordered: bool,
) -> bool {
    forall|j: int|
        0 <= j < again.len() ==> may_resubmit(earlier, #[trigger] again[j], resubmit, ordered)
}

/// The schedule after the given units came back to be tried again: they go
/// in front, as the older work, each once, and what was scheduled follows,
/// but for work that came back.
pub open spec fn requeued(q: Seq<OperationalData>, again: Seq<OperationalData>) -> Seq<
    OperationalData,
> {
    if again.len() == 0 {
        q
    } else {
        enqueue_units(enqueue_units(Seq::empty(), again, again.len()), q, q.len())
    }
}

/// Whether the entries `j1` and `j2` of `later` are the broadcasts of the
/// units `i1` and `i2` of `schedule`.
pub open spec fn sent_as(
    schedule: Seq<OperationalData>,
    later: Seq<PendingTx>,
    j1: int,
    j2: int,
    i1: int,
    i2: int,
) -> bool {
    later[j1] == in_flight(schedule[i1]) && later[j2] == in_flight(schedule[i2])
}

/// Whether the entries `j1` and `j2` of `later` are the broadcasts of two
/// units among the first `k` of `schedule`, the second further down than the
/// first.
pub open spec fn sent_in_order(
    schedule: Seq<OperationalData>,
    k: int,
    later: Seq<PendingTx>,
    j1: int,
    j2: int,
) -> bool {
    exists|i1: int, i2: int|
        0 <= i1 < i2 < k && #[trigger] sent_as(schedule, later, j1, j2, i1, i2)
}

/// Whether `later` is `earlier` followed by broadcasts of units among the
/// first `k` of `schedule`, each at most once and in the schedule's order:
/// of two broadcasts the later one is of a unit further down the schedule.
pub open spec fn broadcast_from(
    schedule: Seq<OperationalData>,
    k: int,
    earlier: Seq<PendingTx>,
    later: Seq<PendingTx>,
) -> bool {
    &&& earlier.len() <= later.len() <= earlier.len() + k
    &&& forall|j: int| 0 <= j < earlier.len() ==> later[j] == earlier[j]
    &&& forall|j: int|
        earlier.len() <= j < later.len() ==> exists|i: int|
            j - earlier.len() <= i < k && #[trigger] later[j] == in_flight(#[trigger] schedule[i])
    &&& forall|j1: int, j2: int|
        earlier.len() <= j1 < j2 < later.len() && distinct(schedule) ==> !same_work(
            (#[trigger] later[j1]).od,
            (#[trigger] later[j2]).od,
        )
    &&& forall|j1: int, j2: int|
        earlier.len() <= j1 < j2 < later.len() ==> #[trigger] sent_in_order(
            schedule,
            k,
            later,
            j1,
            j2,
        )
}

/// The height of the light client on a side.
pub open spec fn client_of(side: Side, src_client: Height, dst_client: Height) -> Height {
    match side {
        Side::Source => src_client,
        Side::Destination => dst_client,
    }
}

/// Whether the light client on the side that a unit is for has reached the
/// height at which the unit was assembled, so that its proof can be checked.
pub open spec fn client_covers(
    od: OperationalData,
    src_client: Height,
    dst_client: Height,
) -> bool {
    !client_of(od.target_side(), src_client, dst_client).before(od.height)
}

/// Whether each broadcast in flight was preceded by a client update to its
/// height or above.
pub open spec fn covered(pending: Seq<PendingTx>, src_client: Height, dst_client: Height) -> bool {
    forall|i: int|
        0 <= i < pending.len() ==> client_covers((#[trigger] pending[i]).od, src_client, dst_client)
}

/// Whether the receipt of a received packet is awaited.
pub open spec fn recv_in_flight(pending: Seq<PendingTx>) -> bool {
    exists|i: int| 0 <= i < pending.len() && (#[trigger] pending[i]).od.kind == MsgKind::RecvPacket
}

/// At most one received packet is in flight.
pub open spec fn single_recv(pending: Seq<PendingTx>) -> bool {
    forall|i: int, j: int|
        0 <= i < j < pending.len() ==> !((#[trigger] pending[i]).od.kind == MsgKind::RecvPacket && (
        #[trigger] pending[j]).od.kind == MsgKind::RecvPacket)
}

/// Whether the head of the schedule has to wait for a receipt: on an ordered
/// channel, where it is a received packet and another one is in flight.
pub open spec fn held_back(
    ordered: bool,
    schedule: Seq<OperationalData>,
    pending: Seq<PendingTx>,
) -> bool {
    ordered && schedule.len() > 0 && schedule[0].kind == MsgKind::RecvPacket && recv_in_flight(
        pending,
    )
}

pub fn has_recv_in_flight(pending: &Vec<PendingTx>) -> (r: bool)
    ensures
        r == recv_in_flight(pending@),
{
    let mut i: usize = 0;
    while i < pending.len()
        invariant
            0 <= i <= pending.len(),
            forall|k: int| 0 <= k < i ==> (#[trigger] pending@[k]).od.kind != MsgKind::RecvPacket,
        decreases pending.len() - i,
    {
        if pending[i].od.kind == MsgKind::RecvPacket {
            return true;
        }
        i += 1;
    }
    false
}

/// A broadcast that joins those in flight leaves at most one received packet
/// among them, unless it is a second one.
pub proof fn push_keeps_single_recv(pending: Seq<PendingTx>, tx: PendingTx)
    requires
        single_recv(pending),
        tx.od.kind != MsgKind::RecvPacket || !recv_in_flight(pending),
    ensures
        single_recv(pending.push(tx)),
{
    let r = pending.push(tx);
    assert forall|i: int, j: int| 0 <= i < j < r.len() implies !((#[trigger] r[i]).od.kind
        == MsgKind::RecvPacket && (#[trigger] r[j]).od.kind == MsgKind::RecvPacket) by {
        assert(r[i] == pending[i]);
        if j < pending.len() {
            assert(r[j] == pending[j]);
        }
    }
}

/// Scheduling work that is not queued keeps the queue free of duplicates.
pub proof fn enqueue_keeps_distinct(q: Seq<OperationalData>, od: OperationalData)
    requires
        distinct(q),
    ensures
        distinct(enqueue(q, od)),
{
    if !queued(q, od) {
        let r = q.push(od);
        assert forall|i: int, j: int| 0 <= i < j < r.len() implies !same_work(
            #[trigger] r[i],
            #[trigger] r[j],
        ) by {
            if j == q.len() {
                assert(r[i] == q[i]);
                assert(!same_work(q[i], od));
            } else {
                assert(r[i] == q[i] && r[j] == q[j]);
            }
        }
    }
}

/// Taking in events keeps the queue free of duplicates.
pub proof fn ingest_keeps_distinct(
    q: Seq<OperationalData>,
    events: Seq<IbcEvent>,
    n: nat,
    src_height: Height,
    dst_height: Height,
)
    requires
        distinct(q),
        n <= events.len(),
    ensures
        distinct(ingest(q, events, n, src_height, dst_height)),
    decreases n,
{
    if n > 0 {
        ingest_keeps_distinct(q, events, (n - 1) as nat, src_height, dst_height);
        let before = ingest(q, events, (n - 1) as nat, src_height, dst_height);
        match crate::link::work_of_event(events[n - 1], src_height, dst_height) {
            Some(od) => enqueue_keeps_distinct(before, od),
            None => {},
        }
    }
}

/// Scheduling work for a list of sequence numbers keeps the queue free of
/// duplicates.
pub proof fn enqueue_all_keeps_distinct(
    q: Seq<OperationalData>,
    sequences: Seq<u64>,
    n: nat,
    kind: MsgKind,
    height: Height,
)
    requires
        distinct(q),
        n <= sequences.len(),
    ensures
        distinct(enqueue_all(q, sequences, n, kind, height)),
    decreases n,
{
    if n > 0 {
        enqueue_all_keeps_distinct(q, sequences, (n - 1) as nat, kind, height);
        enqueue_keeps_distinct(
            enqueue_all(q, sequences, (n - 1) as nat, kind, height),
            OperationalData { kind, sequence: sequences[n - 1], height, attempts: 0 },
        );
    }
}

/// Each unit that survives a refresh stood in the queue before, and the
/// survivors keep their order.
pub proof fn fresh_prefix_is_subsequence(q: Seq<OperationalData>, n: nat, src_height: Height)
    requires
        n <= q.len(),
    ensures
        fresh_prefix(q, n, src_height).len() <= n,
        forall|j: int|
            0 <= j < fresh_prefix(q, n, src_height).len() ==> exists|i: int|
                j <= i < n && #[trigger] fresh_prefix(q, n, src_height)[j] == q[i],
        distinct(q) ==> distinct(fresh_prefix(q, n, src_height)),
    decreases n,
{
    if n > 0 {
        fresh_prefix_is_subsequence(q, (n - 1) as nat, src_height);
        let before = fresh_prefix(q, (n - 1) as nat, src_height);
        let r = fresh_prefix(q, n, src_height);
        if !crate::link::stale(q[n - 1], src_height) {
            assert(r == before.push(q[n - 1]));
            assert forall|j: int| 0 <= j < r.len() implies exists|i: int|
                j <= i < n && #[trigger] r[j] == q[i] by {
                if j < before.len() {
                    assert(r[j] == before[j]);
                    let i = choose|i: int| j <= i < n - 1 && before[j] == q[i];
                    assert(j <= i < n && r[j] == q[i]);
                } else {
                    assert(r[j] == q[n - 1]);
                }
            }
            if distinct(q) {
                assert forall|a: int, b: int| 0 <= a < b < r.len() implies !same_work(
                    #[trigger] r[a],
                    #[trigger] r[b],
                ) by {
                    let ia = choose|i: int| a <= i < n - 1 && before[a] == q[i];
                    assert(r[a] == before[a]);
                    if b < before.len() {
                        assert(r[b] == before[b]);
                    } else {
                        assert(r[b] == q[n - 1]);
                        assert(!same_work(q[ia], q[n - 1]));
                    }
                }
            }
        } else {
            assert(r == before);
            assert forall|j: int| 0 <= j < r.len() implies exists|i: int|
                j <= i < n && #[trigger] r[j] == q[i] by {
                let i = choose|i: int| j <= i < n - 1 && before[j] == q[i];
                assert(j <= i < n && r[j] == q[i]);
            }
        }
    }
}

/// The mutable state of one directed relay path: its two chains, the order of
/// its channel, the queue of work that waits for broadcast, and the
/// broadcasts that wait for a receipt.
pub struct RelayPath<ChainA, ChainB> {
    pub src_chain: ChainA,
    pub dst_chain: ChainB,
    /// Whether the channel delivers its packets in the order they were sent.
    pub ordered: bool,
    /// The height that the source's light client of the destination was last
    /// brought to.
    pub src_client_height: Height,
    /// The height that the destination's light client of the source was last
    /// brought to.
    pub dst_client_height: Height,
    pub schedule: Vec<OperationalData>,
    pub pending: Vec<PendingTx>,
}

/// A link between two chains, as far as one packet worker sees it: the path
/// from the first chain to the second.
pub struct Link<ChainA, ChainB> {
    pub a_to_b: RelayPath<ChainA, ChainB>,
}

impl<ChainA: ChainHandle, ChainB: ChainHandle> Link<ChainA, ChainB> {
    pub fn new(a_to_b: RelayPath<ChainA, ChainB>) -> (l: Self)
        ensures
            l.a_to_b == a_to_b,
    {
        Link { a_to_b }
    }
}

impl<ChainA: ChainHandle, ChainB: ChainHandle> RelayPath<ChainA, ChainB> {
    /// The validity of a path: no work stands twice in the schedule, each
    /// broadcast in flight was preceded by a client update to its height or
    /// above, and on an ordered channel at most one received packet is in
    /// flight.
    pub open spec fn wf(self) -> bool {
        &&& distinct(self.schedule@)
        &&& covered(self.pending@, self.src_client_height, self.dst_client_height)
        &&& self.ordered ==> single_recv(self.pending@)
    }

    /// Whether the unit at the head of the schedule can be broadcast as the
    /// path stands: it does not have to wait for a receipt, and the client on
    /// its side has reached its height.
    pub open spec fn ready(self) -> bool {
        &&& self.schedule@.len() > 0
        &&& !held_back(self.ordered, self.schedule@, self.pending@)
        &&& client_covers(self.schedule@[0], self.src_client_height, self.dst_client_height)
    }

    /// A path with nothing scheduled and nothing in flight.
    pub fn new(src_chain: ChainA, dst_chain: ChainB, ordered: bool) -> (p: Self)
        ensures
            p.wf(),
            p.schedule@.len() == 0,
            p.pending@.len() == 0,
            p.src_chain == src_chain,
            p.dst_chain == dst_chain,
            p.ordered == ordered,
            p.src_client_height == (Height { revision_number: 0, revision_height: 0 }),
            p.dst_client_height == (Height { revision_number: 0, revision_height: 0 }),
    {
        RelayPath {
            src_chain,
            dst_chain,
            ordered,
            src_client_height: Height::new(0, 0),
            dst_client_height: Height::new(0, 0),
            schedule: Vec::new(),
            pending: Vec::new(),
        }
    }

    /// Whether the client on the side that `od` is for has to be updated
    /// before `od` is broadcast.
    pub fn needs_client_update(&self, od: &OperationalData) -> (r: bool)
        ensures
            r == !client_covers(*od, self.src_client_height, self.dst_client_height),
    {
        match od.target() {
            Side::Destination => self.dst_client_height.is_before(&od.height),
            Side::Source => self.src_client_height.is_before(&od.height),
        }
    }

    /// Whether the head of the schedule has to wait: on an ordered channel a
    /// packet is not sent on while an earlier one is in flight.
    pub fn is_held_back(&self) -> (r: bool)
        ensures
            r == held_back(self.ordered, self.schedule@, self.pending@),
    {
        self.ordered && self.schedule.len() > 0 && self.schedule[0].kind == MsgKind::RecvPacket
            && has_recv_in_flight(&self.pending)
    }

    /// Takes in a batch of events of the source chain. A batch without a sent
    /// packet is taken in as it is, and that never fails. For a batch with
    /// one, the destination is asked for its height first, against which
    /// timeouts are judged; where it does not answer, nothing is scheduled.
    pub fn update_schedule(&mut self, batch: &EventBatch) -> (r: Result<(), LinkError>)
        ensures
            !sends_packets(batch.events@) ==> r is Ok && forall|dst_height: Height|
                final(self).schedule@ == #[trigger] ingest(
                    old(self).schedule@,
                    batch.events@,
                    batch.events@.len(),
                    batch.height,
                    dst_height,
                ),
            match r {
                Ok(_) => exists|dst_height: Height|
                    final(self).schedule@ == #[trigger] ingest(
                        old(self).schedule@,
                        batch.events@,
                        batch.events@.len(),
                        batch.height,
                        dst_height,
                    ),
                Err(_) => final(self).schedule@ == old(self).schedule@,
            },
            final(self).pending@ == old(self).pending@,
            final(self).src_chain == old(self).src_chain,
            final(self).dst_chain == old(self).dst_chain,
            final(self).ordered == old(self).ordered,
            final(self).src_client_height == old(self).src_client_height,
            final(self).dst_client_height == old(self).dst_client_height,
            old(self).wf() ==> final(self).wf(),
    {
        if !has_sent_packet(&batch.events) {
            let nowhere = Height::new(0, 0);
            schedule_events(&mut self.schedule, &batch.events, batch.height, nowhere);
            proof {
                assert forall|dst_height: Height|
                    self.schedule@ == #[trigger] ingest(
                        old(self).schedule@,
                        batch.events@,
                        batch.events@.len(),
                        batch.height,
                        dst_height,
                    ) by {
                    ingest_without_sends(
                        old(self).schedule@,
                        batch.events@,
                        batch.events@.len(),
                        batch.height,
                        nowhere,
                        dst_height,
                    );
                }
                if old(self).wf() {
                    ingest_keeps_distinct(
                        old(self).schedule@,
                        batch.events@,
                        batch.events@.len(),
                        batch.height,
                        nowhere,
                    );
                }
            }
            return Ok(());
        }
        match self.dst_chain.query_latest_height() {
            Err(e) => Err(e),
            Ok(dst_height) => {
                schedule_events(&mut self.schedule, &batch.events, batch.height, dst_height);
                proof {
                    if old(self).wf() {
                        ingest_keeps_distinct(
                            old(self).schedule@,
                            batch.events@,
                            batch.events@.len(),
                            batch.height,
                            dst_height,
                        );
                    }
                }
                Ok(())
            },
        }
    }

    /// Reconciles the schedule with the chains: asks the source for the
    /// packets it has committed to, the destination for those of them it has
    /// not received and the source for those whose acknowledgement it has not
    /// taken, and schedules a receive or an acknowledgement for each. The work
    /// is assembled at `height`, or at the source's latest height where none
    /// is given. Where a chain does not answer, nothing is scheduled.
    pub fn schedule_packet_clearing(&mut self, height: Option<Height>) -> (r: Result<
        (),
        LinkError,
    >)
        ensures
            match r {
                Ok(_) => exists|unreceived: Seq<u64>, unacked: Seq<u64>, at: Height|
                    final(self).schedule@ == #[trigger] cleared(
                        old(self).schedule@,
                        unreceived,
                        unacked,
                        at,
                    ) && (height is Some ==> at == height->0),
                Err(_) => *final(self) == *old(self),
            },
            final(self).pending@ == old(self).pending@,
            final(self).src_chain == old(self).src_chain,
            final(self).dst_chain == old(self).dst_chain,
            final(self).ordered == old(self).ordered,
            final(self).src_client_height == old(self).src_client_height,
            final(self).dst_client_height == old(self).dst_client_height,
            old(self).wf() ==> final(self).wf(),
    {
        let at = match height {
            Some(h) => h,
            None => match self.src_chain.query_latest_height() {
                Ok(h) => h,
                Err(e) => {
                    return Err(e);
                },
            },
        };
        let commitments = match self.src_chain.query_packet_commitments(height) {
            Ok(c) => c,
            Err(e) => {
                return Err(e);
            },
        };
        let unreceived = match self.dst_chain.query_unreceived_packets(&commitments) {
            Ok(u) => u,
            Err(e) => {
                return Err(e);
            },
        };
        let unacked = match self.src_chain.query_unreceived_acknowledgements(&commitments) {
            Ok(u) => u,
            Err(e) => {
                return Err(e);
            },
        };
        schedule_cleared(&mut self.schedule, &unreceived, &unacked, at);
        proof {
            let middle = enqueue_all(
                old(self).schedule@,
                unreceived@,
                unreceived@.len(),
                MsgKind::RecvPacket,
                at,
            );
            if old(self).wf() {
                enqueue_all_keeps_distinct(
                    old(self).schedule@,
                    unreceived@,
                    unreceived@.len(),
                    MsgKind::RecvPacket,
                    at,
                );
                enqueue_all_keeps_distinct(
                    middle,
                    unacked@,
                    unacked@.len(),
                    MsgKind::AckPacket,
                    at,
                );
            }
        }
        Ok(())
    }

    /// Drops the scheduled work that went stale against the source's latest
    /// height. Where the source does not answer, the schedule stays. With
    /// nothing scheduled there is nothing to ask for, and that never fails.
    pub fn refresh_schedule(&mut self) -> (r: Result<(), LinkError>)
        ensures
            old(self).schedule@.len() == 0 ==> r is Ok,
            match r {
                Ok(_) => exists|src_height: Height|
                    final(self).schedule@ == #[trigger] fresh_prefix(
                        old(self).schedule@,
                        old(self).schedule@.len(),
                        src_height,
                    ),
                Err(_) => final(self).schedule@ == old(self).schedule@,
            },
            final(self).pending@ == old(self).pending@,
            final(self).src_chain == old(self).src_chain,
            final(self).dst_chain == old(self).dst_chain,
            final(self).ordered == old(self).ordered,
            final(self).src_client_height == old(self).src_client_height,
            final(self).dst_client_height == old(self).dst_client_height,
            old(self).wf() ==> final(self).wf(),
    {
        if self.schedule.len() == 0 {
            assert(self.schedule@ == fresh_prefix(
                old(self).schedule@,
                old(self).schedule@.len(),
                Height { revision_number: 0, revision_height: 0 },
            ));
            return Ok(());
        }
        match self.src_chain.query_latest_height() {
            Err(e) => Err(e),
            Ok(src_height) => {
                let kept = drop_stale(&self.schedule, src_height);
                proof {
                    fresh_prefix_is_subsequence(
                        old(self).schedule@,
                        old(self).schedule@.len(),
                        src_height,
                    );
                }
                self.schedule = kept;
                Ok(())
            },
        }
    }

    /// Records the chain's reply to the broadcast of the unit at the head of
    /// the schedule, and returns the error that ends the pass, if it is one.
    /// With an empty schedule nothing changes.
    pub fn record_broadcast(&mut self, reply: Result<(), LinkError>) -> (stop: Option<LinkError>)
        ensures
            (final(self).schedule@, final(self).pending@) == after_broadcast(
                old(self).schedule@,
                old(self).pending@,
                reply,
            ),
            stop == if old(self).schedule@.len() == 0 {
                None
            } else {
                halting_error(reply)
            },
            old(self).wf() && old(self).ready() ==> final(self).wf(),
            final(self).src_chain == old(self).src_chain,
            final(self).dst_chain == old(self).dst_chain,
            final(self).ordered == old(self).ordered,
            final(self).src_client_height == old(self).src_client_height,
            final(self).dst_client_height == old(self).dst_client_height,
    {
        if self.schedule.len() == 0 {
            return None;
        }
        match reply {
            Ok(_) => {
                let od = self.schedule.remove(0);
                let attempts = if od.attempts < u64::MAX {
                    od.attempts + 1
                } else {
                    od.attempts
                };
                self.pending.push(PendingTx { od, attempts });
                assert(self.schedule@ == old(self).schedule@.skip(1));
                proof {
                    skip_keeps_distinct(old(self).schedule@, 1);
                    if old(self).wf() && old(self).ready() {
                        if self.ordered {
                            push_keeps_single_recv(old(self).pending@, in_flight(od));
                        }
                        assert forall|i: int| 0 <= i < self.pending@.len() implies client_covers(
                            (#[trigger] self.pending@[i]).od,
                            self.src_client_height,
                            self.dst_client_height,
                        ) by {
                            if i < old(self).pending@.len() {
                                assert(self.pending@[i] == old(self).pending@[i]);
                            }
                        }
                    }
                }
                None
            },
            Err(e) => {
                match e.classify() {
                    Disposition::Ignore => {
                        let _ = self.schedule.remove(0);
                        assert(self.schedule@ == old(self).schedule@.skip(1));
                        proof {
                            skip_keeps_distinct(old(self).schedule@, 1);
                        }
                        None
                    },
                    _ => Some(e),
                }
            },
        }
    }

    /// Broadcasts the scheduled work from the head of the schedule on, each
    /// unit to the side it is for, after the client on that side was brought
    /// up to the unit's height where it was below. The pass ends with the
    /// first client update that fails and with the first broadcast whose
    /// error is fatal or to be retried; the unit that met it stays at the
    /// head, so that no later unit is broadcast before it. On an ordered
    /// channel the pass also ends, with success, at a packet that has to wait
    /// for the receipt of the one before it.
    pub fn execute_schedule(&mut self) -> (r: Result<(), LinkError>)
        ensures
            exists|k: int|
                0 <= k <= old(self).schedule@.len()
                    && final(self).schedule@ == old(self).schedule@.skip(k)
                    && #[trigger] broadcast_from(
                    old(self).schedule@,
                    k,
                    old(self).pending@,
                    final(self).pending@,
                ),
            match r {
                Ok(_) => final(self).schedule@.len() == 0 || held_back(
                    final(self).ordered,
                    final(self).schedule@,
                    final(self).pending@,
                ),
                Err(e) => final(self).schedule@.len() > 0 && (e.disposition() != Disposition::Ignore
                    || !client_covers(
                    final(self).schedule@[0],
                    final(self).src_client_height,
                    final(self).dst_client_height,
                )),
            },
            final(self).src_chain == old(self).src_chain,
            final(self).dst_chain == old(self).dst_chain,
            final(self).ordered == old(self).ordered,
            !final(self).src_client_height.before(old(self).src_client_height),
            !final(self).dst_client_height.before(old(self).dst_client_height),
            old(self).ordered && single_recv(old(self).pending@) ==> single_recv(
                final(self).pending@,
            ),
            old(self).wf() ==> final(self).wf(),
    {
        let ghost mut k: int = 0;
        proof {
            assert(self.schedule@ == old(self).schedule@.skip(0));
        }
        while self.schedule.len() > 0
            invariant
                0 <= k <= old(self).schedule@.len(),
                self.schedule@ == old(self).schedule@.skip(k),
                broadcast_from(old(self).schedule@, k, old(self).pending@, self.pending@),
                !self.src_client_height.before(old(self).src_client_height),
                !self.dst_client_height.before(old(self).dst_client_height),
                self.ordered && single_recv(old(self).pending@) ==> single_recv(self.pending@),
                old(self).wf() ==> self.wf(),
                self.src_chain == old(self).src_chain,
                self.dst_chain == old(self).dst_chain,
                self.ordered == old(self).ordered,
            decreases self.schedule@.len(),
        {
            if self.is_held_back() {
                return Ok(());
            }
            let od = self.schedule[0];
            if self.needs_client_update(&od) {
                let updated = match od.target() {
                    Side::Destination => self.dst_chain.update_client(od.height),
                    Side::Source => self.src_chain.update_client(od.height),
                };
                match updated {
                    Err(e) => {
                        return Err(e);
                    },
                    Ok(_) => {
                        match od.target() {
                            Side::Destination => {
                                self.dst_client_height = od.height;
                            },
                            Side::Source => {
                                self.src_client_height = od.height;
                            },
                        }
                    },
                }
            }
            let reply = match od.target() {
                Side::Destination => self.dst_chain.send_messages_and_wait_check_tx(&od),
                Side::Source => self.src_chain.send_messages_and_wait_check_tx(&od),
            };
            let ghost before_schedule = self.schedule@;
            let ghost before_pending = self.pending@;
            match self.record_broadcast(reply) {
                Some(e) => {
                    return Err(e);
                },
                None => {
                    proof {
                        assert(self.schedule@ == before_schedule.skip(1));
                        assert(before_schedule.skip(1) == old(self).schedule@.skip(k + 1));
                        assert(od == old(self).schedule@[k]);
                        let earlier = old(self).pending@;
                        let later = self.pending@;
                        let sched = old(self).schedule@;
                        assert forall|j: int| earlier.len() <= j < later.len() implies exists|
                            i: int,
                        |
                            j - earlier.len() <= i < k + 1 && #[trigger] later[j] == in_flight(
                                #[trigger] sched[i],
                            ) by {
                            if j < before_pending.len() {
                                assert(later[j] == before_pending[j]);
                                let i = choose|i: int|
                                    j - earlier.len() <= i < k && before_pending[j] == in_flight(
                                        sched[i],
                                    );
                                assert(later[j] == in_flight(sched[i]));
                            } else {
                                assert(later[j] == in_flight(sched[k]));
                            }
                        }
                        assert forall|j1: int, j2: int|
                            earlier.len() <= j1 < j2 < later.len() && distinct(
                                sched,
                            ) implies !same_work(
                            (#[trigger] later[j1]).od,
                            (#[trigger] later[j2]).od,
                        ) by {
                            assert(later[j1] == before_pending[j1]);
                            if j2 < before_pending.len() {
                                assert(later[j2] == before_pending[j2]);
                            } else {
                                let i = choose|i: int|
                                    j1 - earlier.len() <= i < k && before_pending[j1] == in_flight(
                                        sched[i],
                                    );
                                assert(later[j2].od == sched[k]);
                                assert(!same_work(sched[i], sched[k]));
                            }
                        }
                        assert forall|j1: int, j2: int|
                            earlier.len() <= j1 < j2 < later.len() implies #[trigger] sent_in_order(
                            sched,
                            k + 1,
                            later,
                            j1,
                            j2,
                        ) by {
                            assert(later[j1] == before_pending[j1]);
                            if j2 < before_pending.len() {
                                assert(later[j2] == before_pending[j2]);
                                assert(sent_in_order(sched, k, before_pending, j1, j2));
                                let (i1, i2) = choose|i1: int, i2: int|
                                    0 <= i1 < i2 < k && #[trigger] sent_as(
                                        sched,
                                        before_pending,
                                        j1,
                                        j2,
                                        i1,
                                        i2,
                                    );
                                assert(sent_as(sched, later, j1, j2, i1, i2));
                            } else {
                                let i1 = choose|i: int|
                                    j1 - earlier.len() <= i < k && before_pending[j1] == in_flight(
                                        sched[i],
                                    );
                                assert(later[j2] == in_flight(sched[k]));
                                assert(sent_as(sched, later, j1, j2, i1, k));
                            }
                        }
                        if self.ordered && single_recv(earlier) && later != before_pending {
                            push_keeps_single_recv(before_pending, in_flight(od));
                        }
                        k = k + 1;
                    }
                },
            }
        }
        Ok(())
    }

    /// Settles one broadcast in flight on the chain's word about its
    /// receipt.
    pub fn settle(
        tx: PendingTx,
        receipt: &Result<Option<Vec<IbcEvent>>, LinkError>,
        resubmit: Resubmit,
        ordered: bool,
    ) -> (r: Settlement)
        ensures
            r == settled(
                tx,
                match *receipt {
                    Ok(Some(ev)) => Ok(Some(ev@)),
                    Ok(None) => Ok(None),
                    Err(e) => Err(e),
                },
                resubmit,
                ordered,
            ),
    {
        match receipt {
            Ok(Some(_)) => Settlement::Committed,
            Ok(None) => Settlement::Waiting,
            Err(e) => {
                match e.classify() {
                    Disposition::Retry => {
                        if resubmit.permits(tx.attempts) || (ordered && tx.od.kind
                            == MsgKind::RecvPacket) {
                            Settlement::Again(
                                OperationalData {
                                    kind: tx.od.kind,
                                    sequence: tx.od.sequence,
                                    height: tx.od.height,
                                    attempts: tx.attempts,
                                },
                            )
                        } else {
                            Settlement::Dropped
                        }
                    },
                    _ => Settlement::Dropped,
                }
            },
        }
    }

    /// Asks for the receipt of each broadcast in flight and settles it by
    /// the policy. What waits on stays in flight; what is to be tried again
    /// goes back to the head of the schedule, for a later pass to broadcast;
    /// nothing is broadcast here. On an ordered channel a received packet
    /// whose receipt fails with an error to retry is tried again whatever the
    /// policy says, since the packets behind it wait for it. The events of
    /// the committed transactions are returned.
    pub fn process_pending_txs(&mut self, resubmit: Resubmit) -> (summary: RelaySummary)
        ensures
            carried_over(old(self).pending@, final(self).pending@),
            single_recv(old(self).pending@) ==> single_recv(final(self).pending@),
            exists|again: Seq<OperationalData>|
                resubmissions(old(self).pending@, again, resubmit, old(self).ordered)
                    && final(self).schedule@ == #[trigger] requeued(old(self).schedule@, again),
            resubmit == Resubmit::Never ==> final(self).schedule@ == old(self).schedule@
                || (old(self).ordered && final(self).schedule@.len() > 0
                && final(self).schedule@[0].kind == MsgKind::RecvPacket),
            resubmit == Resubmit::Never && !old(self).ordered
                ==> final(self).schedule@ == old(self).schedule@,
            old(self).pending@.len() == 0 ==> summary.events@.len() == 0 && final(self).schedule@
                == old(self).schedule@,
            final(self).src_chain == old(self).src_chain,
            final(self).dst_chain == old(self).dst_chain,
            final(self).ordered == old(self).ordered,
            final(self).src_client_height == old(self).src_client_height,
            final(self).dst_client_height == old(self).dst_client_height,
            old(self).wf() ==> final(self).wf(),
    {
        let mut kept: Vec<PendingTx> = Vec::new();
        let mut again: Vec<OperationalData> = Vec::new();
        let mut summary = RelaySummary::empty();
        let mut i: usize = 0;
        while i < self.pending.len()
            invariant
                0 <= i <= self.pending@.len(),
                *self == *old(self),
                kept@.len() <= i,
                forall|j: int|
                    0 <= j < kept@.len() ==> stands_between(
                        self.pending@,
                        #[trigger] kept@[j],
                        j,
                        i as int,
                    ),
                single_recv(self.pending@) ==> single_recv(kept@),
                resubmissions(self.pending@, again@, resubmit, self.ordered),
                i == 0 ==> summary.events@.len() == 0 && again@.len() == 0,
            decreases self.pending@.len() - i,
        {
            let tx = self.pending[i];
            let receipt = match tx.od.target() {
                Side::Destination => self.dst_chain.query_tx_events(&tx.od),
                Side::Source => self.src_chain.query_tx_events(&tx.od),
            };
            let ghost kept_before = kept@;
            let ghost again_before = again@;
            match Self::settle(tx, &receipt, resubmit, self.ordered) {
                Settlement::Waiting => {
                    kept.push(tx);
                    proof {
                        let pending = self.pending@;
                        assert forall|j: int| 0 <= j < kept@.len() implies stands_between(
                            pending,
                            #[trigger] kept@[j],
                            j,
                            i + 1,
                        ) by {
                            if j < kept_before.len() {
                                assert(kept@[j] == kept_before[j]);
                                assert(stands_between(pending, kept_before[j], j, i as int));
                                let t = choose|t: int|
                                    j <= t < i && t < pending.len() && kept_before[j]
                                        == #[trigger] pending[t];
                                assert(kept@[j] == pending[t]);
                            } else {
                                assert(kept@[j] == pending[i as int]);
                            }
                        }
                        if single_recv(pending) {
                            if tx.od.kind == MsgKind::RecvPacket && recv_in_flight(kept_before) {
                                let j = choose|j: int|
                                    0 <= j < kept_before.len()
                                        && (#[trigger] kept_before[j]).od.kind
                                        == MsgKind::RecvPacket;
                                assert(stands_between(pending, kept_before[j], j, i as int));
                                let t = choose|t: int|
                                    j <= t < i && t < pending.len() && kept_before[j]
                                        == #[trigger] pending[t];
                                assert(pending[t].od.kind == MsgKind::RecvPacket);
                                assert(pending[i as int].od.kind == MsgKind::RecvPacket);
                                assert(false);
                            }
                            push_keeps_single_recv(kept_before, tx);
                        }
                    }
                },
                Settlement::Again(unit) => {
                    again.push(unit);
                    proof {
                        assert forall|j: int| 0 <= j < again@.len() implies may_resubmit(
                            self.pending@,
                            #[trigger] again@[j],
                            resubmit,
                            self.ordered,
                        ) by {
                            if j < again_before.len() {
                                assert(again@[j] == again_before[j]);
                            } else {
                                assert(retried(self.pending@[i as int], resubmit, self.ordered));
                                assert(unit == resubmitted(self.pending@[i as int]));
                            }
                        }
                    }
                },
                _ => {},
            }
            match receipt {
                Ok(Some(mut events)) => {
                    summary.events.append(&mut events);
                },
                _ => {},
            }
            i += 1;
        }
        proof {
            kept_entries_keep_validity(
                self.pending@,
                kept@,
                self.src_client_height,
                self.dst_client_height,
            );
            let front = enqueue_units(Seq::empty(), again@, again@.len());
            enqueue_units_keeps_distinct(Seq::empty(), again@, again@.len());
            enqueue_units_keeps_distinct(front, self.schedule@, self.schedule@.len());
            if resubmit == Resubmit::Never && again@.len() > 0 {
                assert(may_resubmit(self.pending@, again@[0], resubmit, self.ordered));
                enqueue_units_starts(again@, again@.len());
                enqueue_units_keeps_head(front, self.schedule@, self.schedule@.len());
            }
        }
        self.pending = kept;
        if again.len() > 0 {
            let mut front: Vec<OperationalData> = Vec::new();
            schedule_units(&mut front, &again);
            schedule_units(&mut front, &self.schedule);
            self.schedule = front;
        }
        assert(self.schedule@ == requeued(old(self).schedule@, again@));
        summary
    }
}

/// Broadcasts that stay in flight keep what held of all of them: each was
/// preceded by a client update.
pub proof fn kept_entries_keep_validity(
    earlier: Seq<PendingTx>,
    later: Seq<PendingTx>,
    src_client: Height,
    dst_client: Height,
)
    requires
        forall|j: int| 0 <= j < later.len() ==> stands_in(earlier, #[trigger] later[j], j),
    ensures
        covered(earlier, src_client, dst_client) ==> covered(later, src_client, dst_client),
{
    if covered(earlier, src_client, dst_client) {
        assert forall|j: int| 0 <= j < later.len() implies client_covers(
            (#[trigger] later[j]).od,
            src_client,
            dst_client,
        ) by {
            assert(stands_in(earlier, later[j], j));
            let t = choose|t: int|
                j <= t < earlier.len() && t < earlier.len() && later[j] == #[trigger] earlier[t];
            assert(client_covers(earlier[t].od, src_client, dst_client));
        }
    }
}

/// Scheduling units one after another keeps the queue free of duplicates.
pub proof fn enqueue_units_keeps_distinct(
    q: Seq<OperationalData>,
    units: Seq<OperationalData>,
    n: nat,
)
    requires
        distinct(q),
        n <= units.len(),
    ensures
        distinct(enqueue_units(q, units, n)),
    decreases n,
{
    if n > 0 {
        enqueue_units_keeps_distinct(q, units, (n - 1) as nat);
        enqueue_keeps_distinct(enqueue_units(q, units, (n - 1) as nat), units[n - 1]);
    }
}

/// A queue without duplicates has none after units left its head.
pub proof fn skip_keeps_distinct(q: Seq<OperationalData>, k: int)
    requires
        0 <= k <= q.len(),
    ensures
        distinct(q) ==> distinct(q.skip(k)),
{
    if distinct(q) {
        let r = q.skip(k);
        assert forall|i: int, j: int| 0 <= i < j < r.len() implies !same_work(
            #[trigger] r[i],
            #[trigger] r[j],
        ) by {
            assert(r[i] == q[i + k] && r[j] == q[j + k]);
        }
    }
}

/// Under the policy that never resubmits, nothing is scheduled again on an
/// unordered channel.
pub proof fn never_resubmits(earlier: Seq<PendingTx>, again: Seq<OperationalData>)
    requires
        resubmissions(earlier, again, Resubmit::Never, false),
    ensures
        again.len() == 0,
{
    if again.len() > 0 {
        assert(may_resubmit(earlier, again[0], Resubmit::Never, false));
    }
}

/// On an unordered channel work is scheduled again only while its attempts
/// are below the number that the policy allows.
pub proof fn resubmission_is_bounded(
    earlier: Seq<PendingTx>,
    again: Seq<OperationalData>,
    k: u64,
    j: int,
)
    requires
        resubmissions(earlier, again, Resubmit::FromInterval(k), false),
        0 <= j < again.len(),
    ensures
        again[j].attempts < k,
{
    assert(may_resubmit(earlier, again[j], Resubmit::FromInterval(k), false));
}

/// On an ordered channel a received packet leaves the broadcasts in flight
/// for good only where it was found committed, or where the chain answers
/// with an error that is not one to retry: the packet is gone, or the client
/// is lost. After any other failure it goes back to the schedule, so that no
/// later packet is sent in its place.
pub proof fn ordered_receive_is_not_given_up(
    tx: PendingTx,
    receipt: Result<Option<Seq<IbcEvent>>, LinkError>,
    resubmit: Resubmit,
)
    requires
        tx.od.kind == MsgKind::RecvPacket,
    ensures
        settled(tx, receipt, resubmit, true) is Dropped ==> (match receipt {
            Err(e) => e.disposition() != Disposition::Retry,
            _ => false,
        }),
        settled(tx, receipt, resubmit, true) is Committed <==> (match receipt {
            Ok(Some(_)) => true,
            _ => false,
        }),
{
}

/// On an ordered channel packets go out one at a time: where a received
/// packet was in flight before an execution pass, and at most one is in
/// flight after it, the pass broadcast no other.
pub proof fn ordered_pass_waits_for_receipt(
    schedule: Seq<OperationalData>,
    k: int,
    earlier: Seq<PendingTx>,
    later: Seq<PendingTx>,
)
    requires
        broadcast_from(schedule, k, earlier, later),
        recv_in_flight(earlier),
        single_recv(later),
    ensures
        forall|j: int|
            earlier.len() <= j < later.len() ==> (#[trigger] later[j]).od.kind
                != MsgKind::RecvPacket,
{
    let i = choose|i: int|
        0 <= i < earlier.len() && (#[trigger] earlier[i]).od.kind == MsgKind::RecvPacket;
    assert(later[i] == earlier[i]);
    assert forall|j: int| earlier.len() <= j < later.len() implies (#[trigger] later[j]).od.kind
        != MsgKind::RecvPacket by {
        assert(later[i].od.kind == MsgKind::RecvPacket);
    }
}

} // verus!
