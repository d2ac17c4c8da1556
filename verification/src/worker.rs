use vstd::prelude::*;
use crossbeam_channel::{Receiver, TryRecvError};
use crate::error::{handle_link_error_in_task, task_error_of, LinkError, Next, RunError, TaskError};
use crate::event::{EventBatch, IbcEvent, WorkerCmd};
use crate::height::Height;
use crate::link::{
    cleared, fresh_prefix, ingest, sends_packets, MsgKind, OperationalData, PendingTx, Resubmit,
};
use crate::object::Packet;
use crate::relay_path::{
    broadcast_from, carried_over, held_back, requeued, resubmissions, single_recv, ChainHandle,
    Link, RelayPath,
};
use crate::telemetry::{packet_metrics, tally, Counter, PacketMetrics};

verus! {

/// Periodic clearing is due at a height where the interval is not zero and
/// divides the block height.
pub open spec fn clearing_due(clear_interval: u64, height: Height) -> bool {
    clear_interval != 0 && height.revision_height % clear_interval == 0
}

/// What a command asks of the path.
#[derive(Clone, Copy, Debug, PartialEq, Eq, Structural)]
pub enum CmdAction {
    /// Take in the batch, and run an execution pass.
    UpdateSchedule,
    /// Clear at the given height, or at the latest, and run an execution pass.
    ClearPackets(Option<Height>),
    /// Nothing at all.
    Nothing,
}

/// The action that a command calls for, given the latch that asks for one
/// clearing after the start and the clearing interval.
pub open spec fn planned(
    should_clear_on_start: bool,
    clear_interval: u64,
    cmd: WorkerCmd,
) -> CmdAction {
    match cmd {
        WorkerCmd::IbcEvents { batch } => CmdAction::UpdateSchedule,
        WorkerCmd::NewBlock { height, new_block } => if should_clear_on_start || clearing_due(
            clear_interval,
            height,
        ) {
            CmdAction::ClearPackets(Some(height))
        } else {
            CmdAction::Nothing
        },
        WorkerCmd::ClearPendingPackets => CmdAction::ClearPackets(None),
    }
}

/// The latch after a command, given whether a clearing was made for it and
/// succeeded: the latch falls with the first clearing that succeeds on a new
/// block, whatever becomes of the execution pass after it, and never rises.
pub open spec fn latch_after(should_clear_on_start: bool, cmd: WorkerCmd, cleared: bool) -> bool {
    should_clear_on_start && !(cmd is NewBlock && cleared)
}

/// How the latch follows a command that was handled. A latch that stands
/// when a new block comes stays only where the clearing failed: the command
/// failed with it, and the link is as it was. In every other case the latch
/// is as before.
pub open spec fn latch_follows(
    before: bool,
    after: bool,
    cmd: WorkerCmd,
    ok: bool,
    link_unchanged: bool,
) -> bool {
    if before && cmd is NewBlock {
        after ==> !ok && link_unchanged
    } else {
        after == before
    }
}

/// What an execution pass that succeeded leaves of the schedule where
/// nothing is resubmitted: nothing, or on an ordered channel a packet at its
/// head, which waited for the receipt of the one before it.
pub open spec fn drained<ChainA, ChainB>(path: RelayPath<ChainA, ChainB>) -> bool {
    path.schedule@.len() == 0 || (path.ordered && path.schedule@[0].kind == MsgKind::RecvPacket)
}

/// Whether a task error is what some path error was labelled as.
pub open spec fn labelled(te: TaskError<RunError>) -> bool {
    exists|e: LinkError| te == #[trigger] task_error_of(e)
}

/// Whether the counters are those of a pass on `path` that found the given
/// events committed.
pub open spec fn counts(m: PacketMetrics, path: Packet, events: Seq<IbcEvent>) -> bool {
    &&& m.src_chain_id@ == path.src_chain_id@
    &&& m.src_channel_id@ == path.src_channel_id@
    &&& m.src_port_id@ == path.src_port_id@
    &&& m.receive_packets == tally(events, events.len(), Counter::ReceivePackets)
    &&& m.acknowledgment_packets == tally(events, events.len(), Counter::AcknowledgmentPackets)
    &&& m.timeout_packets == tally(events, events.len(), Counter::TimeoutPackets)
}

/// Whether the counters are those of a pass on `path`, for some events that
/// it found committed.
pub open spec fn counted(m: PacketMetrics, path: Packet) -> bool {
    exists|events: Seq<IbcEvent>| #[trigger] counts(m, path, events)
}

/// Whether an execution pass leads from the schedule `s0` and the broadcasts
/// in flight `p0` to `s3` and `p3`, where the source stood at `src_height`,
/// the first `k` units of the refreshed schedule left it, `in_flight` is what
/// was in flight after the broadcasts and `again` are the units that came
/// back. A pass that succeeds refreshes, broadcasts up to the end of the
/// schedule or to a packet that has to wait, and settles the receipts; on an
/// ordered channel it never has two received packets in flight. A pass
/// that fails either stopped at the refresh, with nothing changed, or at a
/// unit that stays at the head of the schedule.
pub open spec fn pass_steps(
    ordered: bool,
    s0: Seq<OperationalData>,
    p0: Seq<PendingTx>,
    s3: Seq<OperationalData>,
    p3: Seq<PendingTx>,
    resubmit: Resubmit,
    ok: bool,
    src_height: Height,
    k: int,
    in_flight: Seq<PendingTx>,
    again: Seq<OperationalData>,
) -> bool {
    let s1 = fresh_prefix(s0, s0.len(), src_height);
    if ok {
        &&& 0 <= k <= s1.len()
        &&& broadcast_from(s1, k, p0, in_flight)
        &&& s1.skip(k).len() == 0 || held_back(ordered, s1.skip(k), in_flight)
        &&& ordered && single_recv(p0) ==> single_recv(in_flight) && single_recv(p3)
        &&& carried_over(in_flight, p3)
        &&& resubmissions(in_flight, again, resubmit, ordered)
        &&& s3 == requeued(s1.skip(k), again)
    } else {
        ||| s0.len() > 0 && s3 == s0 && p3 == p0
        ||| 0 <= k < s1.len() && s3 == s1.skip(k) && broadcast_from(s1, k, p0, p3) && (ordered
            && single_recv(p0) ==> single_recv(p3))
    }
}

/// Whether an execution pass leads from `s0` and `p0` to `s3` and `p3`, for
/// some answers of the chains.
pub open spec fn pass_ran(
    ordered: bool,
    s0: Seq<OperationalData>,
    p0: Seq<PendingTx>,
    s3: Seq<OperationalData>,
    p3: Seq<PendingTx>,
    resubmit: Resubmit,
    ok: bool,
) -> bool {
    exists|src_height: Height, k: int, in_flight: Seq<PendingTx>, again: Seq<OperationalData>|
        #[trigger] pass_steps(
            ordered,
            s0,
            p0,
            s3,
            p3,
            resubmit,
            ok,
            src_height,
            k,
            in_flight,
            again,
        )
}

/// What an execution pass from `s0` and `p0` under the policy `resubmit`
/// leaves and returns. With nothing scheduled it succeeds. Where it
/// succeeds it returns the counters of the pass; where it fails, the error is
/// a labelled path error, work is left in the schedule, and nothing that was
/// in flight is lost.
pub open spec fn pass_result(
    ordered: bool,
    s0: Seq<OperationalData>,
    p0: Seq<PendingTx>,
    s3: Seq<OperationalData>,
    p3: Seq<PendingTx>,
    path: Packet,
    resubmit: Resubmit,
    r: Result<Option<PacketMetrics>, TaskError<RunError>>,
) -> bool {
    &&& pass_ran(ordered, s0, p0, s3, p3, resubmit, r is Ok)
    &&& s0.len() == 0 ==> r is Ok
    &&& match r {
        Ok(Some(m)) => counted(m, path),
        Ok(None) => false,
        Err(te) => labelled(te) && s3.len() > 0 && p3.len() >= p0.len(),
    }
}

/// What taking in a batch and running a pass leaves and returns: either the
/// intake failed, which only a batch with a sent packet can, and nothing
/// changed; or the pass ran from the schedule that the intake left, under the
/// policy of the clearing interval.
pub open spec fn intake_result(
    ordered: bool,
    s0: Seq<OperationalData>,
    p0: Seq<PendingTx>,
    s3: Seq<OperationalData>,
    p3: Seq<PendingTx>,
    events: Seq<IbcEvent>,
    height: Height,
    path: Packet,
    clear_interval: u64,
    r: Result<Option<PacketMetrics>, TaskError<RunError>>,
) -> bool {
    ||| sends_packets(events) && s3 == s0 && p3 == p0 && (match r {
        Err(te) => labelled(te),
        _ => false,
    })
    ||| exists|dst_height: Height| #[trigger]
        pass_result(
            ordered,
            ingest(s0, events, events.len(), height, dst_height),
            p0,
            s3,
            p3,
            path,
            Resubmit::of_clear_interval(clear_interval),
            r,
        )
}

/// Whether the pass of a clearing ran from the schedule that the clearing
/// left, where it found the given gaps and assembled the work at `at`.
pub open spec fn cleared_pass(
    ordered: bool,
    s0: Seq<OperationalData>,
    p0: Seq<PendingTx>,
    s3: Seq<OperationalData>,
    p3: Seq<PendingTx>,
    hint: Option<Height>,
    path: Packet,
    clear_interval: u64,
    r: Result<Option<PacketMetrics>, TaskError<RunError>>,
    unreceived: Seq<u64>,
    unacked: Seq<u64>,
    at: Height,
) -> bool {
    &&& hint is Some ==> at == hint->0
    &&& pass_result(
        ordered,
        cleared(s0, unreceived, unacked, at),
        p0,
        s3,
        p3,
        path,
        Resubmit::of_clear_interval(clear_interval),
        r,
    )
}

/// What a clearing and its pass leave and return: either the clearing
/// failed and nothing changed; or the pass ran from the schedule that the
/// clearing left, at the height of the hint where there is one, under the
/// policy of the clearing interval.
pub open spec fn clearing_result(
    ordered: bool,
    s0: Seq<OperationalData>,
    p0: Seq<PendingTx>,
    s3: Seq<OperationalData>,
    p3: Seq<PendingTx>,
    hint: Option<Height>,
    path: Packet,
    clear_interval: u64,
    r: Result<Option<PacketMetrics>, TaskError<RunError>>,
) -> bool {
    ||| s3 == s0 && p3 == p0 && (match r {
        Err(te) => labelled(te),
        _ => false,
    })
    ||| exists|unreceived: Seq<u64>, unacked: Seq<u64>, at: Height| #[trigger]
        cleared_pass(
            ordered,
            s0,
            p0,
            s3,
            p3,
            hint,
            path,
            clear_interval,
            r,
            unreceived,
            unacked,
            at,
        )
}

/// What handling a command leaves and returns, by the action it calls for.
pub open spec fn command_result(
    ordered: bool,
    s0: Seq<OperationalData>,
    p0: Seq<PendingTx>,
    s3: Seq<OperationalData>,
    p3: Seq<PendingTx>,
    should_clear_on_start: bool,
    clear_interval: u64,
    cmd: WorkerCmd,
    path: Packet,
    r: Result<Option<PacketMetrics>, TaskError<RunError>>,
) -> bool {
    match planned(should_clear_on_start, clear_interval, cmd) {
        CmdAction::Nothing => r == Ok::<Option<PacketMetrics>, TaskError<RunError>>(None) && s3
            == s0 && p3 == p0,
        CmdAction::ClearPackets(hint) => clearing_result(
            ordered,
            s0,
            p0,
            s3,
            p3,
            hint,
            path,
            clear_interval,
            r,
        ),
        CmdAction::UpdateSchedule => match cmd {
            WorkerCmd::IbcEvents { batch } => intake_result(
                ordered,
                s0,
                p0,
                s3,
                p3,
                batch.events@,
                batch.height,
                path,
                clear_interval,
                r,
            ),
            _ => false,
        },
    }
}

/// The result of a pass with its counters, as a command's result.
pub open spec fn with_counters(r: Result<PacketMetrics, TaskError<RunError>>) -> Result<
    Option<PacketMetrics>,
    TaskError<RunError>,
> {
    match r {
        Ok(m) => Ok(Some(m)),
        Err(te) => Err(te),
    }
}

/// Whether pending packets are cleared at this height: only with an interval
/// that is not zero, and only at its multiples.
pub fn should_clear_packets(clear_interval: u64, height: Height) -> (r: bool)
    ensures
        r == clearing_due(clear_interval, height),
{
    clear_interval != 0 && height.revision_height % clear_interval == 0
}

/// Decides what a command asks of the path.
pub fn plan_packet_cmd(should_clear_on_start: bool, clear_interval: u64, cmd: &WorkerCmd) -> (a:
    CmdAction)
    ensures
        a == planned(should_clear_on_start, clear_interval, *cmd),
{
    match cmd {
        WorkerCmd::IbcEvents { batch: _ } => CmdAction::UpdateSchedule,
        WorkerCmd::NewBlock { height, new_block: _ } => {
            if should_clear_on_start || should_clear_packets(clear_interval, *height) {
                CmdAction::ClearPackets(Some(*height))
            } else {
                CmdAction::Nothing
            }
        },
        WorkerCmd::ClearPendingPackets => CmdAction::ClearPackets(None),
    }
}

/// One execution pass: refreshes the schedule, broadcasts what is scheduled
/// and settles the broadcasts in flight by the policy, in that order. Returns
/// the counters of the pass. An error of the path ends the pass; it is fatal
/// exactly where the client is expired or frozen.
pub fn handle_execute_schedule<ChainA: ChainHandle, ChainB: ChainHandle>(
    link: &mut Link<ChainA, ChainB>,
    path: &Packet,
    resubmit: Resubmit,
) -> (r: Result<PacketMetrics, TaskError<RunError>>)
    ensures
        pass_result(
            old(link).a_to_b.ordered,
            old(link).a_to_b.schedule@,
            old(link).a_to_b.pending@,
            final(link).a_to_b.schedule@,
            final(link).a_to_b.pending@,
            *path,
            resubmit,
            with_counters(r),
        ),
        r is Ok && resubmit == Resubmit::Never ==> drained(final(link).a_to_b),
        final(link).a_to_b.src_chain == old(link).a_to_b.src_chain,
        final(link).a_to_b.dst_chain == old(link).a_to_b.dst_chain,
        final(link).a_to_b.ordered == old(link).a_to_b.ordered,
        old(link).a_to_b.wf() ==> final(link).a_to_b.wf(),
{
    let ghost ordered = link.a_to_b.ordered;
    let ghost s0 = link.a_to_b.schedule@;
    let ghost p0 = link.a_to_b.pending@;
    match link.a_to_b.refresh_schedule() {
        Err(e) => {
            proof {
                assert(pass_steps(
                    ordered,
                    s0,
                    p0,
                    s0,
                    p0,
                    resubmit,
                    false,
                    Height { revision_number: 0, revision_height: 0 },
                    0,
                    p0,
                    Seq::empty(),
                ));
            }
            return Err(handle_link_error_in_task(e));
        },
        Ok(_) => {},
    }
    let ghost s1 = link.a_to_b.schedule@;
    let ghost src_height = choose|src_height: Height|
        s1 == #[trigger] fresh_prefix(s0, s0.len(), src_height);
    match link.a_to_b.execute_schedule() {
        Err(e) => {
            proof {
                let s2 = link.a_to_b.schedule@;
                let p2 = link.a_to_b.pending@;
                let k = choose|k: int|
                    0 <= k <= s1.len() && s2 == s1.skip(k) && #[trigger] broadcast_from(
                        s1,
                        k,
                        p0,
                        p2,
                    );
                assert(pass_steps(
                    ordered,
                    s0,
                    p0,
                    s2,
                    p2,
                    resubmit,
                    false,
                    src_height,
                    k,
                    p2,
                    Seq::empty(),
                ));
            }
            return Err(handle_link_error_in_task(e));
        },
        Ok(_) => {},
    }
    let ghost s2 = link.a_to_b.schedule@;
    let ghost p2 = link.a_to_b.pending@;
    let ghost k = choose|k: int|
        0 <= k <= s1.len() && s2 == s1.skip(k) && #[trigger] broadcast_from(s1, k, p0, p2);
    let summary = link.a_to_b.process_pending_txs(resubmit);
    let m = packet_metrics(path, &summary);
    proof {
        let s3 = link.a_to_b.schedule@;
        let p3 = link.a_to_b.pending@;
        let again = choose|again: Seq<OperationalData>|
            resubmissions(p2, again, resubmit, ordered) && s3 == #[trigger] requeued(s2, again);
        assert(pass_steps(ordered, s0, p0, s3, p3, resubmit, true, src_height, k, p2, again));
        assert(counts(m, *path, summary.events@));
    }
    Ok(m)
}

/// What follows a step that schedules work. After a failure of that step
/// nothing follows: its error is labelled and returned, and the link stays
/// as it is. After a success an execution pass follows.
pub fn execute_after<ChainA: ChainHandle, ChainB: ChainHandle>(
    link: &mut Link<ChainA, ChainB>,
    scheduled: Result<(), LinkError>,
    path: &Packet,
    resubmit: Resubmit,
) -> (r: Result<PacketMetrics, TaskError<RunError>>)
    ensures
        match scheduled {
            Err(e) => r == Err::<PacketMetrics, TaskError<RunError>>(task_error_of(e))
                && *final(link) == *old(link),
            Ok(_) => pass_result(
                old(link).a_to_b.ordered,
                old(link).a_to_b.schedule@,
                old(link).a_to_b.pending@,
                final(link).a_to_b.schedule@,
                final(link).a_to_b.pending@,
                *path,
                resubmit,
                with_counters(r),
            ),
        },
        r is Ok && resubmit == Resubmit::Never ==> drained(final(link).a_to_b),
        final(link).a_to_b.src_chain == old(link).a_to_b.src_chain,
        final(link).a_to_b.dst_chain == old(link).a_to_b.dst_chain,
        final(link).a_to_b.ordered == old(link).a_to_b.ordered,
        old(link).a_to_b.wf() ==> final(link).a_to_b.wf(),
{
    match scheduled {
        Err(e) => Err(handle_link_error_in_task(e)),
        Ok(_) => handle_execute_schedule(link, path, resubmit),
    }
}

/// Takes in a batch of events, and runs an execution pass under the policy
/// of the clearing interval. Where the intake fails, no pass is run. A batch
/// without a sent packet that leaves nothing scheduled always succeeds.
pub fn handle_update_schedule<ChainA: ChainHandle, ChainB: ChainHandle>(
    link: &mut Link<ChainA, ChainB>,
    clear_interval: u64,
    path: &Packet,
    batch: &EventBatch,
) -> (r: Result<PacketMetrics, TaskError<RunError>>)
    ensures
        intake_result(
            old(link).a_to_b.ordered,
            old(link).a_to_b.schedule@,
            old(link).a_to_b.pending@,
            final(link).a_to_b.schedule@,
            final(link).a_to_b.pending@,
            batch.events@,
            batch.height,
            *path,
            clear_interval,
            with_counters(r),
        ),
        !sends_packets(batch.events@) && ingest(
            old(link).a_to_b.schedule@,
            batch.events@,
            batch.events@.len(),
            batch.height,
            batch.height,
        ).len() == 0 ==> r is Ok,
        r is Err ==> labelled(r->Err_0),
        r is Ok && clear_interval == 0 ==> drained(final(link).a_to_b),
        final(link).a_to_b.src_chain == old(link).a_to_b.src_chain,
        final(link).a_to_b.dst_chain == old(link).a_to_b.dst_chain,
        final(link).a_to_b.ordered == old(link).a_to_b.ordered,
        old(link).a_to_b.wf() ==> final(link).a_to_b.wf(),
{
    let ghost s0 = link.a_to_b.schedule@;
    let ghost p0 = link.a_to_b.pending@;
    let scheduled = link.a_to_b.update_schedule(batch);
    let ghost s1 = link.a_to_b.schedule@;
    let r = execute_after(link, scheduled, path, Resubmit::from_clear_interval(clear_interval));
    proof {
        if scheduled is Ok {
            let dst_height = choose|dst_height: Height|
                s1 == #[trigger] ingest(
                    s0,
                    batch.events@,
                    batch.events@.len(),
                    batch.height,
                    dst_height,
                );
            assert(pass_result(
                link.a_to_b.ordered,
                ingest(s0, batch.events@, batch.events@.len(), batch.height, dst_height),
                p0,
                link.a_to_b.schedule@,
                link.a_to_b.pending@,
                *path,
                Resubmit::of_clear_interval(clear_interval),
                with_counters(r),
            ));
        }
    }
    r
}

/// Clears at the given height, or at the latest where none is given, and
/// runs an execution pass under the policy of the clearing interval. Where
/// the clearing fails, no pass is run. Returns, before the result, whether
/// the clearing itself succeeded.
pub fn clear_and_execute<ChainA: ChainHandle, ChainB: ChainHandle>(
    link: &mut Link<ChainA, ChainB>,
    clear_interval: u64,
    path: &Packet,
    height: Option<Height>,
) -> (out: (bool, Result<PacketMetrics, TaskError<RunError>>))
    ensures
        !out.0 ==> out.1 is Err && *final(link) == *old(link),
        out.0 ==> exists|unreceived: Seq<u64>, unacked: Seq<u64>, at: Height| #[trigger]
            cleared_pass(
                old(link).a_to_b.ordered,
                old(link).a_to_b.schedule@,
                old(link).a_to_b.pending@,
                final(link).a_to_b.schedule@,
                final(link).a_to_b.pending@,
                height,
                *path,
                clear_interval,
                with_counters(out.1),
                unreceived,
                unacked,
                at,
            ),
        out.1 is Err ==> labelled(out.1->Err_0),
        out.1 is Ok && clear_interval == 0 ==> drained(final(link).a_to_b),
        final(link).a_to_b.src_chain == old(link).a_to_b.src_chain,
        final(link).a_to_b.dst_chain == old(link).a_to_b.dst_chain,
        final(link).a_to_b.ordered == old(link).a_to_b.ordered,
        old(link).a_to_b.wf() ==> final(link).a_to_b.wf(),
{
    let ghost s0 = link.a_to_b.schedule@;
    let ghost p0 = link.a_to_b.pending@;
    let scheduled = link.a_to_b.schedule_packet_clearing(height);
    let succeeded = scheduled.is_ok();
    let ghost s1 = link.a_to_b.schedule@;
    let r = execute_after(link, scheduled, path, Resubmit::from_clear_interval(clear_interval));
    proof {
        if succeeded {
            let (unreceived, unacked, at) = choose|
                unreceived: Seq<u64>,
                unacked: Seq<u64>,
                at: Height,
            |
                s1 == #[trigger] cleared(s0, unreceived, unacked, at) && (height is Some ==> at
                    == height->0);
            assert(cleared_pass(
                link.a_to_b.ordered,
                s0,
                p0,
                link.a_to_b.schedule@,
                link.a_to_b.pending@,
                height,
                *path,
                clear_interval,
                with_counters(r),
                unreceived,
                unacked,
                at,
            ));
        }
    }
    (succeeded, r)
}

/// Clears at the given height, or at the latest where none is given, and
/// runs an execution pass under the policy of the clearing interval. Where
/// the clearing fails, no pass is run.
pub fn handle_clear_packet<ChainA: ChainHandle, ChainB: ChainHandle>(
    link: &mut Link<ChainA, ChainB>,
    clear_interval: u64,
    path: &Packet,
    height: Option<Height>,
) -> (r: Result<PacketMetrics, TaskError<RunError>>)
    ensures
        clearing_result(
            old(link).a_to_b.ordered,
            old(link).a_to_b.schedule@,
            old(link).a_to_b.pending@,
            final(link).a_to_b.schedule@,
            final(link).a_to_b.pending@,
            height,
            *path,
            clear_interval,
            with_counters(r),
        ),
        r is Err ==> labelled(r->Err_0),
        r is Ok && clear_interval == 0 ==> drained(final(link).a_to_b),
        final(link).a_to_b.src_chain == old(link).a_to_b.src_chain,
        final(link).a_to_b.dst_chain == old(link).a_to_b.dst_chain,
        final(link).a_to_b.ordered == old(link).a_to_b.ordered,
        old(link).a_to_b.wf() ==> final(link).a_to_b.wf(),
{
    let out = clear_and_execute(link, clear_interval, path, height);
    out.1
}

/// The latch after a command for which a clearing was made or not, and
/// succeeded or not.
pub fn next_latch(should_clear_on_start: bool, cmd: &WorkerCmd, cleared: bool) -> (l: bool)
    ensures
        l == latch_after(should_clear_on_start, *cmd, cleared),
{
    should_clear_on_start && !(matches!(cmd, WorkerCmd::NewBlock { .. }) && cleared)
}

/// Handles one command of the inbox, by the action that it calls for. A
/// batch of events is taken in. A new block clears at its height, once while
/// the latch stands, and after that at each height that the interval
/// divides; the latch falls as soon as that clearing succeeded, also where
/// the pass after it fails. A request to
/// clear is followed without a height. Whatever was scheduled, an execution
/// pass follows, whose counters are returned; a new block that calls for
/// nothing leaves the link as it is.
pub fn handle_packet_cmd<ChainA: ChainHandle, ChainB: ChainHandle>(
    link: &mut Link<ChainA, ChainB>,
    should_clear_on_start: &mut bool,
    clear_interval: u64,
    path: &Packet,
    cmd: &WorkerCmd,
) -> (r: Result<Option<PacketMetrics>, TaskError<RunError>>)
    ensures
        latch_follows(
            *old(should_clear_on_start),
            *final(should_clear_on_start),
            *cmd,
            r is Ok,
            *final(link) == *old(link),
        ),
        command_result(
            old(link).a_to_b.ordered,
            old(link).a_to_b.schedule@,
            old(link).a_to_b.pending@,
            final(link).a_to_b.schedule@,
            final(link).a_to_b.pending@,
            *old(should_clear_on_start),
            clear_interval,
            *cmd,
            *path,
            r,
        ),
        planned(*old(should_clear_on_start), clear_interval, *cmd) is Nothing ==> r == Ok::<
            Option<PacketMetrics>,
            TaskError<RunError>,
        >(None) && *final(link) == *old(link),
        !(planned(*old(should_clear_on_start), clear_interval, *cmd) is Nothing) ==> match r {
            Ok(m) => m is Some && (clear_interval == 0 ==> drained(final(link).a_to_b)),
            Err(te) => labelled(te),
        },
        final(link).a_to_b.src_chain == old(link).a_to_b.src_chain,
        final(link).a_to_b.dst_chain == old(link).a_to_b.dst_chain,
        final(link).a_to_b.ordered == old(link).a_to_b.ordered,
        old(link).a_to_b.wf() ==> final(link).a_to_b.wf(),
{
    match plan_packet_cmd(*should_clear_on_start, clear_interval, cmd) {
        CmdAction::Nothing => Ok(None),
        CmdAction::ClearPackets(hint) => {
            let out = clear_and_execute(link, clear_interval, path, hint);
            *should_clear_on_start = next_latch(*should_clear_on_start, cmd, out.0);
            match out.1 {
                Ok(m) => Ok(Some(m)),
                Err(e) => Err(e),
            }
        },
        CmdAction::UpdateSchedule => {
            match cmd {
                WorkerCmd::IbcEvents { batch } => {
                    match handle_update_schedule(link, clear_interval, path, batch) {
                        Ok(m) => Ok(Some(m)),
                        Err(e) => Err(e),
                    }
                },
                _ => {
                    assert(false);
                    Ok(None)
                },
            }
        },
    }
}

/// Whether a task goes on after a step: it ends on a fatal error, and where
/// a step that succeeded says so.
pub fn task_goes_on(r: &Result<StepOutcome, TaskError<RunError>>) -> (b: bool)
    ensures
        b == match *r {
            Ok(out) => out.next == Next::Continue,
            Err(te) => te is Ignore,
        },
{
    match r {
        Ok(out) => out.next == Next::Continue,
        Err(TaskError::Fatal(_)) => false,
        Err(TaskError::Ignore(_)) => true,
    }
}

/// Without a clearing interval, and with the latch down, no new block ever
/// leads to a clearing.
pub proof fn no_periodic_clearing_without_interval(cmd: WorkerCmd)
    requires
        cmd is NewBlock,
    ensures
        planned(false, 0, cmd) is Nothing,
{
}

/// The latch after the first `n` of a run of handled commands, each with
/// whether a clearing was made for it and succeeded.
pub open spec fn latch_over(start: bool, steps: Seq<(WorkerCmd, bool)>, n: nat) -> bool
    decreases n,
{
    if n == 0 {
        start
    } else {
        latch_after(latch_over(start, steps, (n - 1) as nat), steps[n - 1].0, steps[n - 1].1)
    }
}

/// A latch that stood at the start is down exactly when the clearing for
/// some new block succeeded, and the first such block was met with the latch
/// standing, so that what succeeded there was the clearing after the start.
pub proof fn latch_falls_with_first_clearing(steps: Seq<(WorkerCmd, bool)>, n: nat)
    requires
        n <= steps.len(),
    ensures
        !latch_over(true, steps, n) <==> exists|i: int|
            0 <= i < n && (#[trigger] steps[i]).0 is NewBlock && steps[i].1 && latch_over(
                true,
                steps,
                i as nat,
            ),
    decreases n,
{
    if n > 0 {
        latch_falls_with_first_clearing(steps, (n - 1) as nat);
        let m = (n - 1) as nat;
        if latch_over(true, steps, m) {
            if steps[n - 1].0 is NewBlock && steps[n - 1].1 {
                assert(steps[m as int].0 is NewBlock && steps[m as int].1 && latch_over(
                    true,
                    steps,
                    m,
                ));
            } else {
                assert forall|i: int|
                    0 <= i < n && (#[trigger] steps[i]).0 is NewBlock
                        && steps[i].1 implies !latch_over(true, steps, i as nat) by {
                    if i < m {
                    }
                }
            }
        } else {
            let i = choose|i: int|
                0 <= i < m && (#[trigger] steps[i]).0 is NewBlock && steps[i].1 && latch_over(
                    true,
                    steps,
                    i as nat,
                );
            assert(0 <= i < n);
        }
    }
}

/// A latch that was down at the start stays down.
pub proof fn latch_never_rises(steps: Seq<(WorkerCmd, bool)>, n: nat)
    requires
        n <= steps.len(),
    ensures
        !latch_over(false, steps, n),
    decreases n,
{
    if n > 0 {
        latch_never_rises(steps, (n - 1) as nat);
    }
}

/// The receiving end of a channel of the crate `crossbeam_channel`: opaque
/// here, and only handed on to `try_recv`.
#[verifier::external_type_specification]
#[verifier::external_body]
#[verifier::reject_recursive_types(T)]
pub struct ExReceiver<T>(crossbeam_channel::Receiver<T>);

/// What a look into the inbox found.
pub enum Intake {
    /// A command was waiting.
    Command(WorkerCmd),
    /// Nothing was waiting.
    Empty,
    /// Nothing was waiting, and no sender is left.
    Closed,
}

/// Calls `Receiver::try_recv` of `crossbeam_channel`, which never blocks, and
/// tells its three outcomes apart. Which of them comes depends on the
/// senders, so nothing is claimed of the result.
#[verifier::external_body]
fn try_next_command(inbox: &Receiver<WorkerCmd>) -> (r: Intake) {
    match inbox.try_recv() {
        Ok(cmd) => Intake::Command(cmd),
        Err(TryRecvError::Empty) => Intake::Empty,
        Err(TryRecvError::Disconnected) => Intake::Closed,
    }
}

/// What a step of a task that succeeded leaves: whether the task goes on, and
/// the counters of the execution pass, if the step ran one.
pub struct StepOutcome {
    pub next: Next,
    pub metrics: Option<PacketMetrics>,
}

/// The result of a step, as the result of the command or the pass in it.
pub open spec fn step_result(r: Result<StepOutcome, TaskError<RunError>>) -> Result<
    Option<PacketMetrics>,
    TaskError<RunError>,
> {
    match r {
        Ok(out) => Ok(out.metrics),
        Err(te) => Err(te),
    }
}

/// The task that runs an execution pass on every tick.
pub struct PacketWorker {
    pub path: Packet,
    pub resubmit: Resubmit,
}

/// Sets up the task that keeps the scheduled work of `path` moving. Whoever
/// runs the task calls `step` on each tick, with the link locked.
pub fn spawn_packet_worker(path: Packet, resubmit: Resubmit) -> (w: PacketWorker)
    ensures
        w.path == path,
        w.resubmit == resubmit,
{
    PacketWorker { path, resubmit }
}

impl PacketWorker {
    /// One tick: an execution pass. The task goes on after every pass that
    /// did not fail.
    pub fn step<ChainA: ChainHandle, ChainB: ChainHandle>(
        &self,
        link: &mut Link<ChainA, ChainB>,
    ) -> (r: Result<StepOutcome, TaskError<RunError>>)
        ensures
            pass_result(
                old(link).a_to_b.ordered,
                old(link).a_to_b.schedule@,
                old(link).a_to_b.pending@,
                final(link).a_to_b.schedule@,
                final(link).a_to_b.pending@,
                self.path,
                self.resubmit,
                step_result(r),
            ),
            match r {
                Ok(out) => out.next == Next::Continue && out.metrics is Some && (self.resubmit
                    == Resubmit::Never ==> drained(final(link).a_to_b)),
                Err(te) => labelled(te),
            },
            final(link).a_to_b.src_chain == old(link).a_to_b.src_chain,
            final(link).a_to_b.dst_chain == old(link).a_to_b.dst_chain,
            final(link).a_to_b.ordered == old(link).a_to_b.ordered,
            old(link).a_to_b.wf() ==> final(link).a_to_b.wf(),
    {
        match handle_execute_schedule(link, &self.path, self.resubmit) {
            Ok(m) => Ok(StepOutcome { next: Next::Continue, metrics: Some(m) }),
            Err(e) => Err(e),
        }
    }
}

/// The task that takes commands from the inbox, one at a time. A command
/// stays with the task until it was handled with success.
pub struct PacketCmdWorker {
    pub should_clear_on_start: bool,
    pub clear_interval: u64,
    pub path: Packet,
    pub current_command: Option<WorkerCmd>,
}

/// Sets up the task that handles the commands for `path`. Whoever runs the
/// task calls `step` on each tick, with the inbox and the link locked.
pub fn spawn_packet_cmd_worker(
    should_clear_on_start: bool,
    clear_interval: u64,
    path: Packet,
) -> (w: PacketCmdWorker)
    ensures
        w.should_clear_on_start == should_clear_on_start,
        w.clear_interval == clear_interval,
        w.path == path,
        w.current_command is None,
{
    PacketCmdWorker { should_clear_on_start, clear_interval, path, current_command: None }
}

/// The command that a task holds after a look into the inbox: the one it held
/// before, or else the one that was waiting.
pub open spec fn command_after(held: Option<WorkerCmd>, intake: Intake) -> Option<WorkerCmd> {
    if held is Some {
        held
    } else {
        match intake {
            Intake::Command(cmd) => Some(cmd),
            _ => None,
        }
    }
}

/// Whether the task ends on a look into the inbox: only where it held no
/// command and the inbox is closed.
pub open spec fn ends_on(held: Option<WorkerCmd>, intake: Intake) -> bool {
    held is None && intake is Closed
}

impl PacketCmdWorker {
    /// Takes what a look into the inbox found. A command that the task holds
    /// already is kept, and what was found is dropped: so look only while
    /// the task holds none.
    pub fn accept(&mut self, intake: Intake) -> (next: Next)
        ensures
            final(self).current_command == command_after(old(self).current_command, intake),
            next == if ends_on(old(self).current_command, intake) {
                Next::Abort
            } else {
                Next::Continue
            },
            final(self).should_clear_on_start == old(self).should_clear_on_start,
            final(self).clear_interval == old(self).clear_interval,
            final(self).path == old(self).path,
    {
        if self.current_command.is_some() {
            return Next::Continue;
        }
        match intake {
            Intake::Command(cmd) => {
                self.current_command = Some(cmd);
                Next::Continue
            },
            Intake::Empty => Next::Continue,
            Intake::Closed => Next::Abort,
        }
    }

    /// Handles the command that the task holds, if it holds one. The command
    /// leaves the task only where it was handled with success; after a
    /// failure the next step meets it again.
    pub fn dispatch<ChainA: ChainHandle, ChainB: ChainHandle>(
        &mut self,
        link: &mut Link<ChainA, ChainB>,
    ) -> (r: Result<Option<PacketMetrics>, TaskError<RunError>>)
        ensures
            match old(self).current_command {
                None => r == Ok::<Option<PacketMetrics>, TaskError<RunError>>(None) && *final(self)
                    == *old(self) && *final(link) == *old(link),
                Some(cmd) => {
                    &&& latch_follows(
                        old(self).should_clear_on_start,
                        final(self).should_clear_on_start,
                        cmd,
                        r is Ok,
                        *final(link) == *old(link),
                    )
                    &&& final(self).current_command == if r is Ok {
                        None
                    } else {
                        Some(cmd)
                    }
                    &&& command_result(
                        old(link).a_to_b.ordered,
                        old(link).a_to_b.schedule@,
                        old(link).a_to_b.pending@,
                        final(link).a_to_b.schedule@,
                        final(link).a_to_b.pending@,
                        old(self).should_clear_on_start,
                        old(self).clear_interval,
                        cmd,
                        old(self).path,
                        r,
                    )
                    &&& planned(old(self).should_clear_on_start, old(self).clear_interval, cmd)
                        is Nothing ==> r == Ok::<Option<PacketMetrics>, TaskError<RunError>>(None)
                        && *final(link) == *old(link)
                    &&& !(planned(old(self).should_clear_on_start, old(self).clear_interval, cmd)
                        is Nothing) ==> match r {
                        Ok(m) => m is Some && (old(self).clear_interval == 0 ==> drained(
                            final(link).a_to_b,
                        )),
                        Err(te) => labelled(te),
                    }
                },
            },
            final(self).clear_interval == old(self).clear_interval,
            final(self).path == old(self).path,
            final(link).a_to_b.src_chain == old(link).a_to_b.src_chain,
            final(link).a_to_b.dst_chain == old(link).a_to_b.dst_chain,
            final(link).a_to_b.ordered == old(link).a_to_b.ordered,
            old(link).a_to_b.wf() ==> final(link).a_to_b.wf(),
    {
        match self.current_command.take() {
            None => Ok(None),
            Some(cmd) => {
                match handle_packet_cmd(
                    link,
                    &mut self.should_clear_on_start,
                    self.clear_interval,
                    &self.path,
                    &cmd,
                ) {
                    Ok(m) => Ok(m),
                    Err(e) => {
                        self.current_command = Some(cmd);
                        Err(e)
                    },
                }
            },
        }
    }

    /// One tick: looks into the inbox, unless a command is left from an
    /// earlier tick, and handles the command at hand. The task ends when it
    /// holds no command and the inbox is closed.
    pub fn step<ChainA: ChainHandle, ChainB: ChainHandle>(
        &mut self,
        inbox: &Receiver<WorkerCmd>,
        link: &mut Link<ChainA, ChainB>,
    ) -> (r: Result<StepOutcome, TaskError<RunError>>)
        ensures
            exists|intake: Intake|
                {
                    let held = #[trigger] command_after(old(self).current_command, intake);
                    match held {
                        None => r == Ok::<StepOutcome, TaskError<RunError>>(
                            StepOutcome {
                                next: if ends_on(old(self).current_command, intake) {
                                    Next::Abort
                                } else {
                                    Next::Continue
                                },
                                metrics: None,
                            },
                        ) && *final(self) == *old(self) && *final(link) == *old(link),
                        Some(cmd) => {
                            &&& latch_follows(
                                old(self).should_clear_on_start,
                                final(self).should_clear_on_start,
                                cmd,
                                r is Ok,
                                *final(link) == *old(link),
                            )
                            &&& final(self).current_command == if r is Ok {
                                None
                            } else {
                                Some(cmd)
                            }
                            &&& command_result(
                                old(link).a_to_b.ordered,
                                old(link).a_to_b.schedule@,
                                old(link).a_to_b.pending@,
                                final(link).a_to_b.schedule@,
                                final(link).a_to_b.pending@,
                                old(self).should_clear_on_start,
                                old(self).clear_interval,
                                cmd,
                                old(self).path,
                                step_result(r),
                            )
                            &&& match r {
                                Ok(out) => out.next == Next::Continue && (out.metrics is None
                                    <==> planned(
                                    old(self).should_clear_on_start,
                                    old(self).clear_interval,
                                    cmd,
                                ) is Nothing),
                                Err(te) => labelled(te),
                            }
                        },
                    }
                },
            final(self).clear_interval == old(self).clear_interval,
            final(self).path == old(self).path,
            final(link).a_to_b.src_chain == old(link).a_to_b.src_chain,
            final(link).a_to_b.dst_chain == old(link).a_to_b.dst_chain,
            final(link).a_to_b.ordered == old(link).a_to_b.ordered,
            old(link).a_to_b.wf() ==> final(link).a_to_b.wf(),
    {
        let mut next = Next::Continue;
        let ghost mut seen = Intake::Empty;
        if self.current_command.is_none() {
            let intake = try_next_command(inbox);
            proof {
                seen = intake;
            }
            next = self.accept(intake);
        }
        let ghost held = self.current_command;
        assert(held == command_after(old(self).current_command, seen));
        match self.dispatch(link) {
            Ok(metrics) => Ok(StepOutcome { next, metrics }),
            Err(e) => Err(e),
        }
    }
}

} // verus!
