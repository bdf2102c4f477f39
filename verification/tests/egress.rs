use rustp2p_transport::buffers::BufferSet;
use rustp2p_transport::egress::forward_slot;
use rustp2p_transport::egress::EgressAction;
use rustp2p_transport::egress::EgressEvent;
use rustp2p_transport::egress::EgressForwarder;
use rustp2p_transport::egress::PAYLOAD_LIMIT;
use rustp2p_transport::resolver::DestinationKey;

fn ipv4_to(destination: [u8; 4], len: usize) -> Vec<u8> {
    let mut packet = vec![0x11_u8; len];
    packet[0] = 0x45;
    packet[16..20].copy_from_slice(&destination);
    packet
}

fn ipv6_to(last: [u8; 4], len: usize) -> Vec<u8> {
    let mut packet = vec![0x22_u8; len];
    packet[0] = 0x60;
    packet[24..36].copy_from_slice(&[
        0xfd, 0x12, 0x34, 0x56, 0x78, 0x9a, 0xab, 0xcd, 0xef, 0x12, 0x34, 0x56,
    ]);
    packet[36..40].copy_from_slice(&last);
    packet
}

fn fill(set: &mut BufferSet, slot: usize, packet: &[u8]) {
    set.bufs[slot][..packet.len()].copy_from_slice(packet);
    set.sizes[slot] = packet.len();
}

fn send(slot: usize, octets: [u8; 4]) -> EgressAction {
    EgressAction::Send { slot, key: DestinationKey { octets } }
}

#[test]
fn forwarder_starts_by_receiving() {
    let (forwarder, action) = EgressForwarder::start();
    assert_eq!(forwarder, EgressForwarder::Receiving);
    assert_eq!(action, EgressAction::Receive);
}

#[test]
fn one_ipv4_packet_gives_one_send_to_its_destination() {
    let mut set = BufferSet::new(1500);
    fill(&mut set, 0, &ipv4_to([10, 0, 0, 5], 60));
    let (mut forwarder, _) = EgressForwarder::start();
    let action = forwarder.step(&set, EgressEvent::Received { count: 1 });
    assert_eq!(action, send(0, [10, 0, 0, 5]));
    assert_eq!(forwarder, EgressForwarder::Sending { count: 1, slot: 0 });
    let action = forwarder.step(&set, EgressEvent::Sent { delivered: true });
    assert_eq!(action, EgressAction::Receive);
    assert_eq!(forwarder, EgressForwarder::Receiving);
}

#[test]
fn one_ipv6_packet_gives_one_send_to_the_embedded_identity() {
    let mut set = BufferSet::new(1500);
    fill(&mut set, 0, &ipv6_to([10, 0, 0, 7], 80));
    let (mut forwarder, _) = EgressForwarder::start();
    let action = forwarder.step(&set, EgressEvent::Received { count: 1 });
    assert_eq!(action, send(0, [10, 0, 0, 7]));
    let action = forwarder.step(&set, EgressEvent::Sent { delivered: true });
    assert_eq!(action, EgressAction::Receive);
}

#[test]
fn failed_receive_shuts_the_writer_down_exactly_once() {
    let set = BufferSet::new(1500);
    let (mut forwarder, _) = EgressForwarder::start();
    let action = forwarder.step(&set, EgressEvent::ReceiveFailed);
    assert_eq!(action, EgressAction::Shutdown);
    assert_eq!(forwarder, EgressForwarder::Stopped);
    let later = [
        EgressEvent::ReceiveFailed,
        EgressEvent::Received { count: 1 },
        EgressEvent::Sent { delivered: true },
        EgressEvent::Sent { delivered: false },
        EgressEvent::ReceiveFailed,
    ];
    for event in later {
        assert_eq!(forwarder.step(&set, event), EgressAction::Idle);
        assert_eq!(forwarder, EgressForwarder::Stopped);
    }
}

#[test]
fn failed_receive_after_some_batches_shuts_down_once() {
    let mut set = BufferSet::new(1500);
    fill(&mut set, 0, &ipv4_to([10, 0, 0, 5], 60));
    let (mut forwarder, _) = EgressForwarder::start();
    let mut shutdowns = 0;
    let events = [
        EgressEvent::Received { count: 1 },
        EgressEvent::Sent { delivered: true },
        EgressEvent::Received { count: 1 },
        EgressEvent::Sent { delivered: false },
        EgressEvent::ReceiveFailed,
        EgressEvent::ReceiveFailed,
    ];
    for event in events {
        if forwarder.step(&set, event) == EgressAction::Shutdown {
            shutdowns += 1;
        }
    }
    assert_eq!(shutdowns, 1);
    assert_eq!(forwarder, EgressForwarder::Stopped);
}

#[test]
fn unparsable_packet_does_not_stop_the_batch() {
    let mut set = BufferSet::new(1500);
    fill(&mut set, 0, &ipv4_to([10, 0, 0, 1], 40));
    fill(&mut set, 1, &[0x45, 0, 0]);
    fill(&mut set, 2, &ipv6_to([10, 0, 0, 3], 48));
    let (mut forwarder, _) = EgressForwarder::start();
    assert_eq!(forwarder.step(&set, EgressEvent::Received { count: 3 }), send(0, [10, 0, 0, 1]));
    assert_eq!(forwarder.step(&set, EgressEvent::Sent { delivered: true }), send(2, [10, 0, 0, 3]));
    assert_eq!(forwarder.step(&set, EgressEvent::Sent { delivered: true }), EgressAction::Receive);
    assert_eq!(forwarder, EgressForwarder::Receiving);
}

#[test]
fn packet_of_another_version_is_skipped_and_the_next_is_sent() {
    let mut set = BufferSet::new(1500);
    let mut stray = ipv6_to([10, 0, 0, 9], 64);
    stray[0] = 0x50;
    stray[16..20].copy_from_slice(&[10, 0, 0, 8]);
    fill(&mut set, 0, &stray);
    fill(&mut set, 1, &ipv4_to([10, 0, 0, 2], 40));
    assert_eq!(forward_slot(&set, 0), None);
    let (mut forwarder, _) = EgressForwarder::start();
    assert_eq!(forwarder.step(&set, EgressEvent::Received { count: 2 }), send(1, [10, 0, 0, 2]));
    assert_eq!(forwarder.step(&set, EgressEvent::Sent { delivered: true }), EgressAction::Receive);
    assert_eq!(forwarder, EgressForwarder::Receiving);
}

#[test]
fn malformed_batch_then_a_good_one_then_a_failed_receive() {
    let mut set = BufferSet::new(1500);
    let (mut forwarder, first) = EgressForwarder::start();
    let mut actions = vec![first];
    fill(&mut set, 0, &[0x60, 0, 0, 0, 0, 0, 0, 0]);
    actions.push(forwarder.step(&set, EgressEvent::Received { count: 1 }));
    fill(&mut set, 0, &ipv4_to([10, 0, 0, 4], 28));
    actions.push(forwarder.step(&set, EgressEvent::Received { count: 1 }));
    actions.push(forwarder.step(&set, EgressEvent::Sent { delivered: true }));
    actions.push(forwarder.step(&set, EgressEvent::ReceiveFailed));
    assert_eq!(
        actions,
        vec![
            EgressAction::Receive,
            EgressAction::Receive,
            send(0, [10, 0, 0, 4]),
            EgressAction::Receive,
            EgressAction::Shutdown,
        ]
    );
    assert_eq!(forwarder, EgressForwarder::Stopped);
}

#[test]
fn failed_send_does_not_stop_the_batch() {
    let mut set = BufferSet::new(1500);
    fill(&mut set, 0, &ipv4_to([10, 0, 0, 1], 40));
    fill(&mut set, 1, &ipv4_to([10, 0, 0, 2], 40));
    fill(&mut set, 2, &ipv4_to([10, 0, 0, 3], 40));
    let (mut forwarder, _) = EgressForwarder::start();
    assert_eq!(forwarder.step(&set, EgressEvent::Received { count: 3 }), send(0, [10, 0, 0, 1]));
    assert_eq!(forwarder.step(&set, EgressEvent::Sent { delivered: false }), send(1, [10, 0, 0, 2]));
    assert_eq!(forwarder.step(&set, EgressEvent::Sent { delivered: false }), send(2, [10, 0, 0, 3]));
    assert_eq!(forwarder.step(&set, EgressEvent::Sent { delivered: false }), EgressAction::Receive);
}

#[test]
fn batch_without_a_forwardable_packet_goes_back_to_receiving() {
    let mut set = BufferSet::new(1500);
    fill(&mut set, 0, &[0x45]);
    fill(&mut set, 1, &[0x60, 0, 0, 0]);
    let (mut forwarder, _) = EgressForwarder::start();
    assert_eq!(forwarder.step(&set, EgressEvent::Received { count: 2 }), EgressAction::Receive);
    assert_eq!(forwarder, EgressForwarder::Receiving);
    assert_eq!(forwarder.step(&set, EgressEvent::Received { count: 0 }), EgressAction::Receive);
}

#[test]
fn only_the_first_count_slots_are_forwarded() {
    let mut set = BufferSet::new(1500);
    fill(&mut set, 0, &ipv4_to([10, 0, 0, 1], 40));
    fill(&mut set, 1, &ipv4_to([10, 0, 0, 2], 40));
    let (mut forwarder, _) = EgressForwarder::start();
    assert_eq!(forwarder.step(&set, EgressEvent::Received { count: 1 }), send(0, [10, 0, 0, 1]));
    assert_eq!(forwarder.step(&set, EgressEvent::Sent { delivered: true }), EgressAction::Receive);
}

#[test]
fn count_beyond_the_set_stops_at_its_last_slot() {
    let mut set = BufferSet::with_slots(2, 64);
    fill(&mut set, 1, &ipv4_to([10, 0, 0, 2], 40));
    let (mut forwarder, _) = EgressForwarder::start();
    assert_eq!(forwarder.step(&set, EgressEvent::Received { count: 500 }), send(1, [10, 0, 0, 2]));
    assert_eq!(forwarder.step(&set, EgressEvent::Sent { delivered: true }), EgressAction::Receive);
    assert_eq!(
        forwarder.step(&set, EgressEvent::Received { count: usize::MAX }),
        send(1, [10, 0, 0, 2])
    );
}

#[test]
fn same_batch_twice_is_forwarded_the_same_way_twice() {
    let mut set = BufferSet::new(1500);
    fill(&mut set, 0, &ipv4_to([10, 0, 0, 1], 40));
    fill(&mut set, 1, &ipv6_to([10, 0, 0, 2], 40));
    let (mut forwarder, _) = EgressForwarder::start();
    let mut rounds = Vec::new();
    for delivered in [true, false] {
        let mut actions = vec![forwarder.step(&set, EgressEvent::Received { count: 2 })];
        actions.push(forwarder.step(&set, EgressEvent::Sent { delivered }));
        actions.push(forwarder.step(&set, EgressEvent::Sent { delivered }));
        assert_eq!(forwarder, EgressForwarder::Receiving);
        rounds.push(actions);
    }
    assert_eq!(rounds[0], rounds[1]);
    assert_eq!(
        rounds[0],
        vec![send(0, [10, 0, 0, 1]), send(1, [10, 0, 0, 2]), EgressAction::Receive]
    );
}

#[test]
fn shorter_packet_in_a_reused_buffer_is_resolved_from_its_own_bytes() {
    let mut set = BufferSet::with_slots(1, 1500);
    fill(&mut set, 0, &ipv4_to([10, 0, 0, 9], 60));
    assert_eq!(forward_slot(&set, 0), Some(DestinationKey { octets: [10, 0, 0, 9] }));
    // The next packet is a truncated header: the address of the packet before
    // still lies in the buffer, behind the valid bytes.
    set.sizes[0] = 12;
    assert_eq!(&set.bufs[0][16..20], &[10, 0, 0, 9]);
    assert_eq!(forward_slot(&set, 0), None);
    let (mut forwarder, _) = EgressForwarder::start();
    assert_eq!(forwarder.step(&set, EgressEvent::Received { count: 1 }), EgressAction::Receive);
}

#[test]
fn packet_too_long_for_the_transport_is_dropped() {
    assert_eq!(PAYLOAD_LIMIT, 65535);
    let mut set = BufferSet::with_slots(2, 65535);
    fill(&mut set, 0, &ipv4_to([10, 0, 0, 1], 65535));
    fill(&mut set, 1, &ipv4_to([10, 0, 0, 2], 65534));
    assert_eq!(forward_slot(&set, 0), None);
    assert_eq!(forward_slot(&set, 1), Some(DestinationKey { octets: [10, 0, 0, 2] }));
    let (mut forwarder, _) = EgressForwarder::start();
    assert_eq!(forwarder.step(&set, EgressEvent::Received { count: 2 }), send(1, [10, 0, 0, 2]));
}

#[test]
fn event_that_answers_nothing_changes_nothing() {
    let mut set = BufferSet::new(1500);
    fill(&mut set, 0, &ipv4_to([10, 0, 0, 1], 40));
    let (mut forwarder, _) = EgressForwarder::start();
    assert_eq!(forwarder.step(&set, EgressEvent::Sent { delivered: true }), EgressAction::Idle);
    assert_eq!(forwarder, EgressForwarder::Receiving);
    assert_eq!(forwarder.step(&set, EgressEvent::Received { count: 1 }), send(0, [10, 0, 0, 1]));
    assert_eq!(forwarder.step(&set, EgressEvent::Received { count: 1 }), EgressAction::Idle);
    assert_eq!(forwarder.step(&set, EgressEvent::ReceiveFailed), EgressAction::Idle);
    assert_eq!(forwarder, EgressForwarder::Sending { count: 1, slot: 0 });
}

#[test]
fn forward_slot_outside_the_set_is_none() {
    let set = BufferSet::with_slots(1, 64);
    assert_eq!(forward_slot(&set, 1), None);
    assert_eq!(forward_slot(&set, 0), None);
}
