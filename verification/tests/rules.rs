use packet_worker::error::{
    handle_link_error_in_task, Disposition, LinkError, RunError, SpawnError, SpawnErrorDetail,
    TaskError,
};
use packet_worker::event::{EventBatch, IbcEvent, PacketInfo};
use packet_worker::height::Height;
use packet_worker::link::{
    classify_event, drop_stale, has_sent_packet, is_queued, is_timed_out, schedule_all,
    schedule_cleared, schedule_events, schedule_once, MsgKind, OperationalData, RelaySummary,
    Resubmit, Side,
};
use packet_worker::object::Packet;
use packet_worker::telemetry::{
    acknowledgment_metrics, count_events, packet_metrics, receive_packet_metrics, timeout_metrics,
    Counter,
};
use packet_worker::worker::should_clear_packets;

fn h(n: u64, b: u64) -> Height {
    Height::new(n, b)
}

fn info(sequence: u64) -> PacketInfo {
    PacketInfo { sequence, timeout_height: h(0, 0) }
}

fn od(kind: MsgKind, sequence: u64, height: Height) -> OperationalData {
    OperationalData { kind, sequence, height, attempts: 0 }
}

fn path() -> Packet {
    Packet {
        dst_chain_id: "ibc-1".to_string(),
        dst_channel_id: "channel-1".to_string(),
        dst_port_id: "transfer".to_string(),
        src_chain_id: "ibc-0".to_string(),
        src_channel_id: "channel-0".to_string(),
        src_port_id: "transfer".to_string(),
    }
}

#[test]
fn heights_compare_lexicographically() {
    assert!(h(0, 9).is_before(&h(1, 0)));
    assert!(h(1, 4).is_before(&h(1, 5)));
    assert!(!h(1, 5).is_before(&h(1, 5)));
    assert!(!h(2, 0).is_before(&h(1, 900)));
}

#[test]
fn missing_chain_config_logs_as_debug() {
    assert!(SpawnErrorDetail::MissingChainConfig("ibc-0".to_string()).log_as_debug());
    assert!(!SpawnErrorDetail::RuntimeNotFound.log_as_debug());
    assert!(!SpawnErrorDetail::Relayer("rpc unreachable".to_string()).log_as_debug());
    assert!(SpawnError::missing_chain_config("ibc-0".to_string()).log_as_debug());
    assert!(!SpawnError::runtime_not_found().log_as_debug());
    assert!(!SpawnError::relayer("rpc unreachable".to_string()).log_as_debug());
    assert_eq!(
        *SpawnError::missing_chain_config("ibc-7".to_string()).detail(),
        SpawnErrorDetail::MissingChainConfig("ibc-7".to_string())
    );
}

#[test]
fn every_error_has_its_disposition() {
    assert_eq!(LinkError::ClientExpired.classify(), Disposition::Fatal);
    assert_eq!(LinkError::ClientFrozen.classify(), Disposition::Fatal);
    assert_eq!(LinkError::InvalidProof.classify(), Disposition::Retry);
    assert_eq!(LinkError::HeightMismatch.classify(), Disposition::Retry);
    assert_eq!(LinkError::TxBroadcast.classify(), Disposition::Retry);
    assert_eq!(LinkError::TxTimeout.classify(), Disposition::Retry);
    assert_eq!(LinkError::PacketNotFound.classify(), Disposition::Ignore);
    assert!(LinkError::ClientExpired.is_expired_or_frozen_error());
    assert!(LinkError::ClientFrozen.is_expired_or_frozen_error());
    assert!(!LinkError::TxTimeout.is_expired_or_frozen_error());
    assert_eq!(LinkError::ClientFrozen.message(), "client frozen");
}

#[test]
fn only_expired_or_frozen_is_fatal_to_the_task() {
    assert_eq!(
        handle_link_error_in_task(LinkError::ClientExpired),
        TaskError::Fatal(RunError::Link(LinkError::ClientExpired))
    );
    assert_eq!(
        handle_link_error_in_task(LinkError::ClientFrozen),
        TaskError::Fatal(RunError::Link(LinkError::ClientFrozen))
    );
    assert_eq!(
        handle_link_error_in_task(LinkError::TxBroadcast),
        TaskError::Ignore(RunError::Link(LinkError::TxBroadcast))
    );
    assert_eq!(
        handle_link_error_in_task(LinkError::PacketNotFound),
        TaskError::Ignore(RunError::Link(LinkError::PacketNotFound))
    );
    assert_eq!(RunError::link(LinkError::InvalidProof), RunError::Link(LinkError::InvalidProof));
}

#[test]
fn clearing_is_due_at_multiples_of_the_interval() {
    assert!(should_clear_packets(10, h(0, 100)));
    assert!(should_clear_packets(10, h(3, 0)));
    assert!(!should_clear_packets(10, h(0, 101)));
    assert!(should_clear_packets(1, h(0, 7)));
    assert!(!should_clear_packets(7, h(7, 8)));
}

#[test]
fn no_clearing_is_due_without_an_interval() {
    assert!(!should_clear_packets(0, h(0, 0)));
    assert!(!should_clear_packets(0, h(0, 100)));
    assert!(!should_clear_packets(0, h(5, u64::MAX)));
}

#[test]
fn resubmit_follows_the_clear_interval() {
    assert_eq!(Resubmit::from_clear_interval(0), Resubmit::Never);
    assert_eq!(Resubmit::from_clear_interval(1), Resubmit::FromInterval(1));
    assert_eq!(Resubmit::from_clear_interval(100), Resubmit::FromInterval(100));
    assert!(!Resubmit::Never.permits(0));
    assert!(Resubmit::FromInterval(3).permits(2));
    assert!(!Resubmit::FromInterval(3).permits(3));
    assert!(!Resubmit::FromInterval(u64::MAX).permits(u64::MAX));
}

#[test]
fn work_goes_to_the_side_of_its_kind() {
    assert_eq!(od(MsgKind::RecvPacket, 1, h(0, 1)).target(), Side::Destination);
    assert_eq!(od(MsgKind::AckPacket, 1, h(0, 1)).target(), Side::Source);
    assert_eq!(od(MsgKind::TimeoutPacket, 1, h(0, 1)).target(), Side::Source);
}

#[test]
fn a_timeout_below_the_destination_height_has_passed() {
    assert!(is_timed_out(&h(0, 5), &h(0, 6)));
    assert!(!is_timed_out(&h(0, 6), &h(0, 6)));
    assert!(!is_timed_out(&h(0, 7), &h(0, 6)));
    assert!(is_timed_out(&h(0, 900), &h(1, 1)));
    assert!(!is_timed_out(&h(0, 0), &h(4, 4)));
}

#[test]
fn events_are_classified_by_kind_and_timeout() {
    let sent = IbcEvent::SendPacket(PacketInfo { sequence: 4, timeout_height: h(0, 50) });
    assert_eq!(
        classify_event(&sent, h(0, 12), h(0, 40)),
        Some(od(MsgKind::RecvPacket, 4, h(0, 12)))
    );
    assert_eq!(
        classify_event(&sent, h(0, 12), h(0, 51)),
        Some(od(MsgKind::TimeoutPacket, 4, h(0, 12)))
    );
    assert_eq!(
        classify_event(&IbcEvent::WriteAcknowledgement(info(9)), h(0, 12), h(0, 40)),
        Some(od(MsgKind::AckPacket, 9, h(0, 12)))
    );
    assert_eq!(classify_event(&IbcEvent::AcknowledgePacket(info(9)), h(0, 12), h(0, 40)), None);
    assert_eq!(classify_event(&IbcEvent::TimeoutPacket(info(9)), h(0, 12), h(0, 40)), None);
    assert_eq!(classify_event(&IbcEvent::Other, h(0, 12), h(0, 40)), None);
}

#[test]
fn queued_work_is_found_by_kind_and_sequence() {
    let q = vec![od(MsgKind::RecvPacket, 1, h(0, 1)), od(MsgKind::AckPacket, 2, h(0, 1))];
    assert!(is_queued(&q, &od(MsgKind::RecvPacket, 1, h(0, 99))));
    assert!(is_queued(&q, &od(MsgKind::AckPacket, 2, h(0, 1))));
    assert!(!is_queued(&q, &od(MsgKind::AckPacket, 1, h(0, 1))));
    assert!(!is_queued(&q, &od(MsgKind::RecvPacket, 2, h(0, 1))));
    assert!(!is_queued(&Vec::new(), &od(MsgKind::RecvPacket, 1, h(0, 1))));
}

#[test]
fn work_is_scheduled_once() {
    let mut q = Vec::new();
    schedule_once(&mut q, od(MsgKind::RecvPacket, 1, h(0, 1)));
    schedule_once(&mut q, od(MsgKind::RecvPacket, 1, h(0, 2)));
    schedule_once(&mut q, od(MsgKind::AckPacket, 1, h(0, 2)));
    assert_eq!(q, vec![od(MsgKind::RecvPacket, 1, h(0, 1)), od(MsgKind::AckPacket, 1, h(0, 2))]);
    schedule_all(&mut q, &vec![3, 1, 3, 2], MsgKind::RecvPacket, h(0, 5));
    assert_eq!(
        q,
        vec![
            od(MsgKind::RecvPacket, 1, h(0, 1)),
            od(MsgKind::AckPacket, 1, h(0, 2)),
            od(MsgKind::RecvPacket, 3, h(0, 5)),
            od(MsgKind::RecvPacket, 2, h(0, 5)),
        ]
    );
}

#[test]
fn the_same_batch_twice_leaves_the_same_queue() {
    let batch = EventBatch {
        height: h(0, 10),
        events: vec![
            IbcEvent::SendPacket(info(1)),
            IbcEvent::Other,
            IbcEvent::WriteAcknowledgement(info(1)),
            IbcEvent::SendPacket(PacketInfo { sequence: 2, timeout_height: h(0, 3) }),
            IbcEvent::SendPacket(info(1)),
        ],
    };
    let mut q = Vec::new();
    schedule_events(&mut q, &batch.events, batch.height, h(0, 4));
    let once = q.clone();
    assert_eq!(
        once,
        vec![
            od(MsgKind::RecvPacket, 1, h(0, 10)),
            od(MsgKind::AckPacket, 1, h(0, 10)),
            od(MsgKind::TimeoutPacket, 2, h(0, 10)),
        ]
    );
    schedule_events(&mut q, &batch.events, h(0, 11), h(0, 4));
    assert_eq!(q, once);
}

#[test]
fn stale_work_is_dropped_in_order() {
    let q = vec![
        od(MsgKind::RecvPacket, 1, h(0, 10)),
        od(MsgKind::RecvPacket, 2, h(1, 1)),
        od(MsgKind::AckPacket, 3, h(0, 900)),
        od(MsgKind::AckPacket, 4, h(2, 0)),
    ];
    assert_eq!(
        drop_stale(&q, h(1, 5)),
        vec![od(MsgKind::RecvPacket, 2, h(1, 1)), od(MsgKind::AckPacket, 4, h(2, 0))]
    );
    assert_eq!(drop_stale(&q, h(0, 5000)), q);
    assert_eq!(drop_stale(&q, h(3, 0)), Vec::new());
}

#[test]
fn metrics_count_each_kind_of_event() {
    let summary = RelaySummary {
        events: vec![
            IbcEvent::WriteAcknowledgement(info(1)),
            IbcEvent::AcknowledgePacket(info(2)),
            IbcEvent::WriteAcknowledgement(info(3)),
            IbcEvent::SendPacket(info(4)),
            IbcEvent::TimeoutPacket(info(5)),
            IbcEvent::WriteAcknowledgement(info(6)),
            IbcEvent::Other,
        ],
    };
    assert!(!summary.is_empty());
    assert_eq!(receive_packet_metrics(&summary), 3);
    assert_eq!(acknowledgment_metrics(&summary), 1);
    assert_eq!(timeout_metrics(&summary), 1);
    assert_eq!(count_events(&summary, Counter::ReceivePackets), 3);
    let m = packet_metrics(&path(), &summary);
    assert_eq!(m.src_chain_id, "ibc-0");
    assert_eq!(m.src_channel_id, "channel-0");
    assert_eq!(m.src_port_id, "transfer");
    assert_eq!(m.receive_packets, 3);
    assert_eq!(m.acknowledgment_packets, 1);
    assert_eq!(m.timeout_packets, 1);
    let none = packet_metrics(&path(), &RelaySummary::empty());
    assert!(RelaySummary::empty().is_empty());
    assert_eq!(none.receive_packets + none.acknowledgment_packets + none.timeout_packets, 0);
}

#[test]
fn a_sent_packet_is_found_in_a_batch() {
    assert!(!has_sent_packet(&Vec::new()));
    assert!(!has_sent_packet(&vec![
        IbcEvent::Other,
        IbcEvent::WriteAcknowledgement(info(1)),
        IbcEvent::AcknowledgePacket(info(2)),
        IbcEvent::TimeoutPacket(info(3)),
    ]));
    assert!(has_sent_packet(&vec![IbcEvent::Other, IbcEvent::SendPacket(info(1))]));
    assert!(has_sent_packet(&vec![IbcEvent::SendPacket(info(1)), IbcEvent::Other]));
}

#[test]
fn clearing_schedules_receives_before_acknowledgements() {
    let mut q = vec![od(MsgKind::RecvPacket, 2, h(0, 1)), od(MsgKind::AckPacket, 7, h(0, 1))];
    schedule_cleared(&mut q, &vec![1, 2, 3], &vec![7, 1], h(0, 9));
    assert_eq!(
        q,
        vec![
            od(MsgKind::RecvPacket, 2, h(0, 1)),
            od(MsgKind::AckPacket, 7, h(0, 1)),
            od(MsgKind::RecvPacket, 1, h(0, 9)),
            od(MsgKind::RecvPacket, 3, h(0, 9)),
            od(MsgKind::AckPacket, 1, h(0, 9)),
        ]
    );
    let before = q.clone();
    schedule_cleared(&mut q, &Vec::new(), &Vec::new(), h(0, 10));
    assert_eq!(q, before);
}
