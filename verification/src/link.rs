use vstd::prelude::*;
use crate::event::IbcEvent;
use crate::height::Height;

verus! {

/// The kinds of packet message that a path relays.
#[derive(Clone, Copy, Debug, PartialEq, Eq, Structural)]
pub enum MsgKind {
    RecvPacket,
    AckPacket,
    TimeoutPacket,
}

/// The two ends of a path.
#[derive(Clone, Copy, Debug, PartialEq, Eq, Structural)]
pub enum Side {
    Source,
    Destination,
}

/// One unit of scheduled work: a packet message for one side, with the source
/// height at which it was assembled and whose proof it carries.
#[derive(Clone, Copy, Debug, PartialEq, Eq, Structural)]
pub struct OperationalData {
    pub kind: MsgKind,
    pub sequence: u64,
    pub height: Height,
    /// How many times the unit was broadcast before it was scheduled.
    pub attempts: u64,
}

impl OperationalData {
    /// A received packet goes to the destination; acknowledgements and
    /// timeouts go back to the source.
    pub open spec fn target_side(self) -> Side {
        if self.kind == MsgKind::RecvPacket {
            Side::Destination
        } else {
            Side::Source
        }
    }

    pub fn target(&self) -> (s: Side)
        ensures
            s == self.target_side(),
    {
        match self.kind {
            MsgKind::RecvPacket => Side::Destination,
            _ => Side::Source,
        }
    }
}

/// How often work that failed is tried again.
#[derive(Clone, Copy, Debug, PartialEq, Eq, Structural)]
pub enum Resubmit {
    /// Failed work is dropped; the next clearing brings it back if it is
    /// still wanted.
    Never,
    /// Failed work is tried again, up to this number of attempts.
    FromInterval(u64),
}

impl Resubmit {
    pub open spec fn of_clear_interval(clear_interval: u64) -> Resubmit {
        if clear_interval == 0 {
            Resubmit::Never
        } else {
            Resubmit::FromInterval(clear_interval)
        }
    }

    /// The policy that goes with a clearing interval: none without periodic
    /// clearing, else as many attempts as the interval has blocks.
    pub fn from_clear_interval(clear_interval: u64) -> (r: Resubmit)
        ensures
            r == Resubmit::of_clear_interval(clear_interval),
    {
        if clear_interval == 0 {
            Resubmit::Never
        } else {
            Resubmit::FromInterval(clear_interval)
        }
    }

    /// Whether work that was tried `attempts` times is tried once more.
    pub open spec fn allows(self, attempts: u64) -> bool {
        match self {
            Resubmit::Never => false,
            Resubmit::FromInterval(k) => attempts < k,
        }
    }

    pub fn permits(&self, attempts: u64) -> (r: bool)
        ensures
            r == self.allows(attempts),
    {
        match self {
            Resubmit::Never => false,
            Resubmit::FromInterval(k) => attempts < *k,
        }
    }
}

/// Work that was broadcast and whose receipt is awaited, with the number of
/// times it was broadcast.
#[derive(Clone, Copy, Debug, PartialEq, Eq, Structural)]
pub struct PendingTx {
    pub od: OperationalData,
    pub attempts: u64,
}

/// The events of the transactions that were found committed.
#[derive(Clone, Debug, PartialEq, Eq)]
pub struct RelaySummary {
    pub events: Vec<IbcEvent>,
}

impl RelaySummary {
    pub fn empty() -> (s: RelaySummary)
        ensures
            s.events@.len() == 0,
    {
        RelaySummary { events: Vec::new() }
    }

    pub fn is_empty(&self) -> (r: bool)
        ensures
            r == (self.events@.len() == 0),
    {
        self.events.len() == 0
    }
}

/// Two units are the same work where kind and sequence agree: the kind fixes
/// the direction, the assembly height is only how fresh the proof is, and the
/// attempts only tell how often the work was tried.
pub open spec fn same_work(a: OperationalData, b: OperationalData) -> bool {
    a.kind == b.kind && a.sequence == b.sequence
}

/// Whether the queue holds the same work as `od`.
pub open spec fn queued(q: Seq<OperationalData>, od: OperationalData) -> bool {
    exists|i: int| 0 <= i < q.len() && same_work(#[trigger] q[i], od)
}

/// The queue after `od` arrives: work that is queued already is discarded.
pub open spec fn enqueue(q: Seq<OperationalData>, od: OperationalData) -> Seq<OperationalData> {
    if queued(q, od) {
        q
    } else {
        q.push(od)
    }
}

/// No work stands twice in the queue.
pub open spec fn distinct(q: Seq<OperationalData>) -> bool {
    forall|i: int, j: int| 0 <= i < j < q.len() ==> !same_work(#[trigger] q[i], #[trigger] q[j])
}

/// Whether a packet with this timeout has timed out where the destination
/// stands at `dst_height`. A timeout of zero means that there is none.
pub open spec fn timed_out(timeout: Height, dst_height: Height) -> bool {
    (timeout.revision_number != 0 || timeout.revision_height != 0) && timeout.before(dst_height)
}

/// The work that an event of the source calls for, if any: a sent packet is
/// received at the destination, or timed out at the source where its timeout
/// lies below the destination's height; a written acknowledgement is relayed.
pub open spec fn work_of_event(ev: IbcEvent, src_height: Height, dst_height: Height) -> Option<
    OperationalData,
> {
    match ev {
        IbcEvent::SendPacket(p) => Some(
            OperationalData {
                kind: if timed_out(p.timeout_height, dst_height) {
                    MsgKind::TimeoutPacket
                } else {
                    MsgKind::RecvPacket
                },
                sequence: p.sequence,
                height: src_height,
                attempts: 0,
            },
        ),
        IbcEvent::WriteAcknowledgement(p) => Some(
            OperationalData {
                kind: MsgKind::AckPacket,
                sequence: p.sequence,
                height: src_height,
                attempts: 0,
            },
        ),
        _ => None,
    }
}

/// Whether some event is a sent packet. Only for those does the work depend
/// on where the destination stands.
pub open spec fn sends_packets(events: Seq<IbcEvent>) -> bool {
    exists|i: int| 0 <= i < events.len() && (#[trigger] events[i]) is SendPacket
}

/// The queue after the first `n` events of a batch were taken in, in order.
pub open spec fn ingest(
    q: Seq<OperationalData>,
    events: Seq<IbcEvent>,
    n: nat,
    src_height: Height,
    dst_height: Height,
) -> Seq<OperationalData>
    decreases n,
{
    if n == 0 {
        q
    } else {
        let before = ingest(q, events, (n - 1) as nat, src_height, dst_height);
        match work_of_event(events[n - 1], src_height, dst_height) {
            Some(od) => enqueue(before, od),
            None => before,
        }
    }
}

/// The queue after work of one kind was scheduled for the first `n` of the
/// given sequence numbers.
pub open spec fn enqueue_all(
    q: Seq<OperationalData>,
    sequences: Seq<u64>,
    n: nat,
    kind: MsgKind,
    height: Height,
) -> Seq<OperationalData>
    decreases n,
{
    if n == 0 {
        q
    } else {
        enqueue(
            enqueue_all(q, sequences, (n - 1) as nat, kind, height),
            OperationalData { kind, sequence: sequences[n - 1], height, attempts: 0 },
        )
    }
}

/// The queue after a clearing that found the packets `unreceived` missing at
/// the destination and the acknowledgements `unacked` missing at the source.
pub open spec fn cleared(
    q: Seq<OperationalData>,
    unreceived: Seq<u64>,
    unacked: Seq<u64>,
    height: Height,
) -> Seq<OperationalData> {
    enqueue_all(
        enqueue_all(q, unreceived, unreceived.len(), MsgKind::RecvPacket, height),
        unacked,
        unacked.len(),
        MsgKind::AckPacket,
        height,
    )
}

/// The queue after the first `n` of the given units arrived, in order.
pub open spec fn enqueue_units(q: Seq<OperationalData>, units: Seq<OperationalData>, n: nat) -> Seq<
    OperationalData,
>
    decreases n,
{
    if n == 0 {
        q
    } else {
        enqueue(enqueue_units(q, units, (n - 1) as nat), units[n - 1])
    }
}

/// Work is stale once the source has moved on to a later revision than the
/// one its proof was made in.
pub open spec fn stale(od: OperationalData, src_height: Height) -> bool {
    od.height.revision_number < src_height.revision_number
}

/// The first `n` units of the queue without the stale ones.
pub open spec fn fresh_prefix(q: Seq<OperationalData>, n: nat, src_height: Height) -> Seq<
    OperationalData,
>
    decreases n,
{
    if n == 0 {
        Seq::empty()
    } else {
        let before = fresh_prefix(q, (n - 1) as nat, src_height);
        if stale(q[n - 1], src_height) {
            before
        } else {
            before.push(q[n - 1])
        }
    }
}

pub fn is_timed_out(timeout: &Height, dst_height: &Height) -> (r: bool)
    ensures
        r == timed_out(*timeout, *dst_height),
{
    (timeout.revision_number != 0 || timeout.revision_height != 0) && timeout.is_before(dst_height)
}

/// Classifies one event of the source chain.
pub fn classify_event(ev: &IbcEvent, src_height: Height, dst_height: Height) -> (r: Option<
    OperationalData,
>)
    ensures
        r == work_of_event(*ev, src_height, dst_height),
{
    match ev {
        IbcEvent::SendPacket(p) => {
            let kind = if is_timed_out(&p.timeout_height, &dst_height) {
                MsgKind::TimeoutPacket
            } else {
                MsgKind::RecvPacket
            };
            Some(OperationalData { kind, sequence: p.sequence, height: src_height, attempts: 0 })
        },
        IbcEvent::WriteAcknowledgement(p) => Some(
            OperationalData {
                kind: MsgKind::AckPacket,
                sequence: p.sequence,
                height: src_height,
                attempts: 0,
            },
        ),
        _ => None,
    }
}

/// Whether some event is a sent packet.
pub fn has_sent_packet(events: &Vec<IbcEvent>) -> (r: bool)
    ensures
        r == sends_packets(events@),
{
    let mut i: usize = 0;
    while i < events.len()
        invariant
            0 <= i <= events.len(),
            forall|k: int| 0 <= k < i ==> !((#[trigger] events@[k]) is SendPacket),
        decreases events.len() - i,
    {
        if matches!(events[i], IbcEvent::SendPacket(_)) {
            return true;
        }
        i += 1;
    }
    false
}

/// Whether the queue holds the same work as `od`.
pub fn is_queued(q: &Vec<OperationalData>, od: &OperationalData) -> (r: bool)
    ensures
        r == queued(q@, *od),
{
    let mut i: usize = 0;
    while i < q.len()
        invariant
            0 <= i <= q.len(),
            forall|k: int| 0 <= k < i ==> !same_work(#[trigger] q@[k], *od),
        decreases q.len() - i,
    {
        if q[i].kind == od.kind && q[i].sequence == od.sequence {
            return true;
        }
        i += 1;
    }
    false
}

/// Appends `od` unless the same work is queued already.
pub fn schedule_once(q: &mut Vec<OperationalData>, od: OperationalData)
    ensures
        final(q)@ == enqueue(old(q)@, od),
{
    if !is_queued(q, &od) {
        q.push(od);
    }
}

/// Schedules work of one kind for each of the given sequence numbers.
pub fn schedule_all(
    q: &mut Vec<OperationalData>,
    sequences: &Vec<u64>,
    kind: MsgKind,
    height: Height,
)
    ensures
        final(q)@ == enqueue_all(old(q)@, sequences@, sequences@.len(), kind, height),
{
    let mut i: usize = 0;
    while i < sequences.len()
        invariant
            0 <= i <= sequences.len(),
            q@ == enqueue_all(old(q)@, sequences@, i as nat, kind, height),
        decreases sequences.len() - i,
    {
        schedule_once(q, OperationalData { kind, sequence: sequences[i], height, attempts: 0 });
        i += 1;
    }
}

/// Schedules what a clearing found: a receive for each packet that is
/// missing at the destination, and after those an acknowledgement for each
/// one that is missing at the source, all assembled at `height`.
pub fn schedule_cleared(
    q: &mut Vec<OperationalData>,
    unreceived: &Vec<u64>,
    unacked: &Vec<u64>,
    height: Height,
)
    ensures
        final(q)@ == cleared(old(q)@, unreceived@, unacked@, height),
{
    schedule_all(q, unreceived, MsgKind::RecvPacket, height);
    schedule_all(q, unacked, MsgKind::AckPacket, height);
}

/// Schedules each of the given units, in order.
pub fn schedule_units(q: &mut Vec<OperationalData>, units: &Vec<OperationalData>)
    ensures
        final(q)@ == enqueue_units(old(q)@, units@, units@.len()),
{
    let mut i: usize = 0;
    while i < units.len()
        invariant
            0 <= i <= units.len(),
            q@ == enqueue_units(old(q)@, units@, i as nat),
        decreases units.len() - i,
    {
        schedule_once(q, units[i]);
        i += 1;
    }
}

/// Schedules the work that a batch of events calls for.
pub fn schedule_events(
    q: &mut Vec<OperationalData>,
    events: &Vec<IbcEvent>,
    src_height: Height,
    dst_height: Height,
)
    ensures
        final(q)@ == ingest(old(q)@, events@, events@.len(), src_height, dst_height),
{
    let mut i: usize = 0;
    while i < events.len()
        invariant
            0 <= i <= events.len(),
            q@ == ingest(old(q)@, events@, i as nat, src_height, dst_height),
        decreases events.len() - i,
    {
        match classify_event(&events[i], src_height, dst_height) {
            Some(od) => schedule_once(q, od),
            None => {},
        }
        i += 1;
    }
}

/// The queue without the units that went stale.
pub fn drop_stale(q: &Vec<OperationalData>, src_height: Height) -> (kept: Vec<OperationalData>)
    ensures
        kept@ == fresh_prefix(q@, q@.len(), src_height),
{
    let mut kept: Vec<OperationalData> = Vec::new();
    let mut i: usize = 0;
    while i < q.len()
        invariant
            0 <= i <= q.len(),
            kept@ == fresh_prefix(q@, i as nat, src_height),
        decreases q.len() - i,
    {
        if !(q[i].height.revision_number < src_height.revision_number) {
            kept.push(q[i]);
        }
        i += 1;
    }
    kept
}

/// Work that is queued stays queued when other work arrives, and work that
/// arrives is queued afterwards.
pub proof fn enqueue_queues(q: Seq<OperationalData>, od: OperationalData, other: OperationalData)
    ensures
        queued(enqueue(q, od), od),
        queued(q, other) ==> queued(enqueue(q, od), other),
{
    let r = enqueue(q, od);
    if !queued(q, od) {
        assert(same_work(r[q.len() as int], od));
    }
    if queued(q, other) {
        let i = choose|i: int| 0 <= i < q.len() && same_work(#[trigger] q[i], other);
        assert(same_work(r[i], other));
    }
}

/// After events were taken in, the work of each of them is queued.
pub proof fn ingest_queues_each(
    q: Seq<OperationalData>,
    events: Seq<IbcEvent>,
    n: nat,
    src_height: Height,
    dst_height: Height,
    i: int,
)
    requires
        0 <= i < n,
        work_of_event(events[i], src_height, dst_height) is Some,
    ensures
        queued(
            ingest(q, events, n, src_height, dst_height),
            work_of_event(events[i], src_height, dst_height)->0,
        ),
    decreases n,
{
    let before = ingest(q, events, (n - 1) as nat, src_height, dst_height);
    let wanted = work_of_event(events[i], src_height, dst_height)->0;
    if i < n - 1 {
        ingest_queues_each(q, events, (n - 1) as nat, src_height, dst_height, i);
        match work_of_event(events[n - 1], src_height, dst_height) {
            Some(od) => enqueue_queues(before, od, wanted),
            None => {},
        }
    } else {
        enqueue_queues(before, wanted, wanted);
    }
}

/// Events whose work is all queued already change nothing.
pub proof fn ingest_of_queued_work(
    q: Seq<OperationalData>,
    events: Seq<IbcEvent>,
    n: nat,
    src_height: Height,
    dst_height: Height,
)
    requires
        forall|i: int|
            0 <= i < n && (#[trigger] work_of_event(events[i], src_height, dst_height)) is Some
                ==> queued(q, work_of_event(events[i], src_height, dst_height)->0),
    ensures
        ingest(q, events, n, src_height, dst_height) == q,
    decreases n,
{
    if n > 0 {
        ingest_of_queued_work(q, events, (n - 1) as nat, src_height, dst_height);
        let last = work_of_event(events[n - 1], src_height, dst_height);
        if last is Some {
            assert(queued(q, last->0));
        }
    }
}

/// Taking in the same events a second time, with the destination at the same
/// height, leaves the queue as the first time left it, whatever source height
/// the second batch was assembled at.
pub proof fn ingest_twice_is_ingest_once(
    q: Seq<OperationalData>,
    events: Seq<IbcEvent>,
    first_height: Height,
    second_height: Height,
    dst_height: Height,
)
    ensures
        ingest(
            ingest(q, events, events.len(), first_height, dst_height),
            events,
            events.len(),
            second_height,
            dst_height,
        ) == ingest(q, events, events.len(), first_height, dst_height),
{
    let once = ingest(q, events, events.len(), first_height, dst_height);
    assert forall|i: int|
        0 <= i < events.len() && (#[trigger] work_of_event(
            events[i],
            second_height,
            dst_height,
        )) is Some implies queued(once, work_of_event(events[i], second_height, dst_height)->0) by {
        let first = work_of_event(events[i], first_height, dst_height)->0;
        let second = work_of_event(events[i], second_height, dst_height)->0;
        ingest_queues_each(q, events, events.len(), first_height, dst_height, i);
        let j = choose|j: int| 0 <= j < once.len() && same_work(#[trigger] once[j], first);
        assert(same_work(once[j], second));
    }
    ingest_of_queued_work(once, events, events.len(), second_height, dst_height);
}

/// A clearing that finds nothing missing on either chain changes nothing.
pub proof fn clearing_when_synchronized_is_noop(q: Seq<OperationalData>, height: Height)
    ensures
        cleared(q, Seq::<u64>::empty(), Seq::<u64>::empty(), height) == q,
{
}

/// A clearing whose findings are all scheduled already changes nothing.
pub proof fn enqueue_all_of_queued_work(
    q: Seq<OperationalData>,
    sequences: Seq<u64>,
    n: nat,
    kind: MsgKind,
    height: Height,
)
    requires
        forall|i: int|
            0 <= i < n ==> queued(
                q,
                OperationalData { kind, sequence: #[trigger] sequences[i], height, attempts: 0 },
            ),
    ensures
        enqueue_all(q, sequences, n, kind, height) == q,
    decreases n,
{
    if n > 0 {
        enqueue_all_of_queued_work(q, sequences, (n - 1) as nat, kind, height);
        assert(queued(
            q,
            OperationalData { kind, sequence: sequences[n - 1], height, attempts: 0 },
        ));
    }
}

/// Work that is queued stays queued while more work of some kind is
/// scheduled, and each sequence number that was scheduled for is queued
/// afterwards.
pub proof fn enqueue_all_queues_each(
    q: Seq<OperationalData>,
    sequences: Seq<u64>,
    n: nat,
    kind: MsgKind,
    height: Height,
)
    requires
        n <= sequences.len(),
    ensures
        forall|other: OperationalData|
            queued(q, other) ==> queued(enqueue_all(q, sequences, n, kind, height), other),
        forall|i: int|
            0 <= i < n ==> queued(
                enqueue_all(q, sequences, n, kind, height),
                OperationalData { kind, sequence: #[trigger] sequences[i], height, attempts: 0 },
            ),
    decreases n,
{
    if n > 0 {
        enqueue_all_queues_each(q, sequences, (n - 1) as nat, kind, height);
        let before = enqueue_all(q, sequences, (n - 1) as nat, kind, height);
        let last = OperationalData { kind, sequence: sequences[n - 1], height, attempts: 0 };
        assert forall|other: OperationalData| queued(q, other) implies queued(
            enqueue(before, last),
            other,
        ) by {
            enqueue_queues(before, last, other);
        }
        assert forall|i: int| 0 <= i < n implies queued(
            enqueue(before, last),
            OperationalData { kind, sequence: #[trigger] sequences[i], height, attempts: 0 },
        ) by {
            enqueue_queues(
                before,
                last,
                OperationalData { kind, sequence: sequences[i], height, attempts: 0 },
            );
        }
    }
}

/// After a clearing, a receive is queued for every packet that was found
/// missing at the destination, and an acknowledgement for every one that was
/// found missing at the source.
pub proof fn clearing_closes_every_gap(
    q: Seq<OperationalData>,
    unreceived: Seq<u64>,
    unacked: Seq<u64>,
    height: Height,
)
    ensures
        forall|i: int|
            0 <= i < unreceived.len() ==> queued(
                cleared(q, unreceived, unacked, height),
                OperationalData {
                    kind: MsgKind::RecvPacket,
                    sequence: #[trigger] unreceived[i],
                    height,
                    attempts: 0,
                },
            ),
        forall|i: int|
            0 <= i < unacked.len() ==> queued(
                cleared(q, unreceived, unacked, height),
                OperationalData {
                    kind: MsgKind::AckPacket,
                    sequence: #[trigger] unacked[i],
                    height,
                    attempts: 0,
                },
            ),
{
    let middle = enqueue_all(q, unreceived, unreceived.len(), MsgKind::RecvPacket, height);
    enqueue_all_queues_each(q, unreceived, unreceived.len(), MsgKind::RecvPacket, height);
    enqueue_all_queues_each(middle, unacked, unacked.len(), MsgKind::AckPacket, height);
}

/// Events without a sent packet among them are taken in the same way
/// wherever the destination stands.
pub proof fn ingest_without_sends(
    q: Seq<OperationalData>,
    events: Seq<IbcEvent>,
    n: nat,
    src_height: Height,
    first_dst: Height,
    second_dst: Height,
)
    requires
        n <= events.len(),
        !sends_packets(events),
    ensures
        ingest(q, events, n, src_height, first_dst) == ingest(
            q,
            events,
            n,
            src_height,
            second_dst,
        ),
    decreases n,
{
    if n > 0 {
        ingest_without_sends(q, events, (n - 1) as nat, src_height, first_dst, second_dst);
        assert(!(events[n - 1] is SendPacket));
    }
}

/// What stands at the head of a queue stays there while units arrive.
pub proof fn enqueue_units_keeps_head(
    q: Seq<OperationalData>,
    units: Seq<OperationalData>,
    n: nat,
)
    requires
        q.len() > 0,
        n <= units.len(),
    ensures
        enqueue_units(q, units, n).len() > 0,
        enqueue_units(q, units, n)[0] == q[0],
    decreases n,
{
    if n > 0 {
        enqueue_units_keeps_head(q, units, (n - 1) as nat);
    }
}

/// The first unit to arrive at an empty queue is its head.
pub proof fn enqueue_units_starts(units: Seq<OperationalData>, n: nat)
    requires
        0 < n <= units.len(),
    ensures
        enqueue_units(Seq::empty(), units, n).len() > 0,
        enqueue_units(Seq::empty(), units, n)[0] == units[0],
    decreases n,
{
    if n > 1 {
        enqueue_units_starts(units, (n - 1) as nat);
    } else {
        let none = Seq::<OperationalData>::empty();
        assert(enqueue_units(none, units, 0) == none);
        assert(!queued(none, units[0]));
    }
}

/// Whether `unit` is called for by one of the first `n` events.
pub open spec fn called_for(
    unit: OperationalData,
    events: Seq<IbcEvent>,
    n: nat,
    src_height: Height,
    dst_height: Height,
) -> bool {
    exists|i: int|
        0 <= i < n && #[trigger] work_of_event(events[i], src_height, dst_height) == Some(unit)
}

/// Whether `unit` stands in the queue.
pub open spec fn stands(q: Seq<OperationalData>, unit: OperationalData) -> bool {
    exists|j: int| 0 <= j < q.len() && #[trigger] q[j] == unit
}

/// Taking in events schedules nothing but what stood in the queue before and
/// what one of the events calls for. So for a sent packet that has timed out
/// no receive is scheduled, unless one stood there before or another event
/// calls for it.
pub proof fn ingest_adds_only_called_work(
    q: Seq<OperationalData>,
    events: Seq<IbcEvent>,
    n: nat,
    src_height: Height,
    dst_height: Height,
)
    requires
        n <= events.len(),
    ensures
        forall|j: int|
            0 <= j < ingest(q, events, n, src_height, dst_height).len() ==> stands(
                q,
                #[trigger] ingest(q, events, n, src_height, dst_height)[j],
            ) || called_for(
                ingest(q, events, n, src_height, dst_height)[j],
                events,
                n,
                src_height,
                dst_height,
            ),
    decreases n,
{
    let after = ingest(q, events, n, src_height, dst_height);
    if n == 0 {
        assert forall|j: int| 0 <= j < after.len() implies stands(q, #[trigger] after[j]) by {
            assert(q[j] == after[j]);
        }
    } else {
        ingest_adds_only_called_work(q, events, (n - 1) as nat, src_height, dst_height);
        let before = ingest(q, events, (n - 1) as nat, src_height, dst_height);
        assert forall|j: int| 0 <= j < after.len() implies stands(q, #[trigger] after[j])
            || called_for(after[j], events, n, src_height, dst_height) by {
            if j < before.len() {
                assert(after[j] == before[j]);
                if !stands(q, before[j]) {
                    let i = choose|i: int|
                        0 <= i < n - 1 && #[trigger] work_of_event(
                            events[i],
                            src_height,
                            dst_height,
                        ) == Some(before[j]);
                    assert(work_of_event(events[i], src_height, dst_height) == Some(after[j]));
                }
            } else {
                assert(work_of_event(events[n - 1], src_height, dst_height) == Some(after[j]));
            }
        }
    }
}

/// A sent packet that has timed out where the destination stands calls for
/// a timeout at the source, and for no receive.
pub proof fn timed_out_packet_calls_for_timeout(
    ev: IbcEvent,
    src_height: Height,
    dst_height: Height,
)
    requires
        ev is SendPacket,
        timed_out(ev->SendPacket_0.timeout_height, dst_height),
    ensures
        work_of_event(ev, src_height, dst_height) is Some,
        work_of_event(ev, src_height, dst_height)->0.kind == MsgKind::TimeoutPacket,
        work_of_event(ev, src_height, dst_height)->0.target_side() == Side::Source,
        work_of_event(ev, src_height, dst_height)->0.sequence == ev->SendPacket_0.sequence,
{
}

} // verus!
