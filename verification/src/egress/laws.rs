//! What holds of every run of the egress forwarder.
//!
//! A run is a sequence of steps, each over the buffer set as it stands when the
//! step is taken.
use crate::buffers::buffer_bytes;
use crate::buffers::BufferSet;
use crate::egress::egress_step;
use crate::egress::forward_key;
use crate::egress::scan;
use crate::egress::EgressAction;
use crate::egress::EgressEvent;
use crate::egress::EgressForwarder;
use crate::egress::PAYLOAD_LIMIT;
use crate::resolver::key_of;
use crate::resolver::resolved_key;
use crate::resolver::well_formed_ipv4;
use crate::resolver::well_formed_ipv6;
use vstd::prelude::*;

verus! {

/// One step of a run: the buffer set as the step finds it, and the event that
/// the owner reports.
pub struct EgressInput {
    pub batch: Seq<Option<Seq<u8>>>,
    pub event: EgressEvent,
}

/// A run of the forwarder from `state` over `inputs`: the state it ends in and
/// the actions it returned, one per input.
pub open spec fn run(state: EgressForwarder, inputs: Seq<EgressInput>) -> (
    EgressForwarder,
    Seq<EgressAction>,
)
    decreases inputs.len(),
{
    if inputs.len() == 0 {
        (state, Seq::empty())
    } else {
        let (next, action) = egress_step(state, inputs[0].batch, inputs[0].event);
        let (last, actions) = run(next, inputs.drop_first());
        (last, seq![action] + actions)
    }
}

/// A run over `first` and then `second` is the run over `first` followed by the
/// run over `second` from where the first ended.
pub proof fn lemma_run_in_two_parts(
    state: EgressForwarder,
    first: Seq<EgressInput>,
    second: Seq<EgressInput>,
)
    ensures
        run(state, first + second) == (
            run(run(state, first).0, second).0,
            run(state, first).1 + run(run(state, first).0, second).1,
        ),
    decreases first.len(),
{
    if first.len() > 0 {
        let next = egress_step(state, first[0].batch, first[0].event).0;
        assert((first + second).drop_first() =~= first.drop_first() + second);
        lemma_run_in_two_parts(next, first.drop_first(), second);
    }
}

/// A send that failed and one that succeeded lead to the same state and action.
pub proof fn lemma_send_outcome_is_ignored(state: EgressForwarder, batch: Seq<Option<Seq<u8>>>)
    ensures
        egress_step(state, batch, EgressEvent::Sent { delivered: false }) == egress_step(
            state,
            batch,
            EgressEvent::Sent { delivered: true },
        ),
{
}

/// A scan ends either back at receiving or at a slot that is forwarded.
proof fn lemma_scan_finds_a_forwarded_slot(batch: Seq<Option<Seq<u8>>>, count: usize, from: int)
    ensures
        match scan(batch, count, from) {
            (EgressForwarder::Receiving, EgressAction::Receive) => true,
            (
                EgressForwarder::Sending { count: batch_count, slot: sending },
                EgressAction::Send { slot, key },
            ) => {
                &&& batch_count == count
                &&& sending == slot
                &&& from <= slot < count
                &&& forward_key(batch, slot as int) == Some(key)
            },
            _ => false,
        },
    decreases count - from,
{
    if 0 <= from < count && from < batch.len() && forward_key(batch, from) is None {
        lemma_scan_finds_a_forwarded_slot(batch, count, from + 1);
    }
}

/// What a step leads to, by the action it returns.
proof fn lemma_step_by_action(
    state: EgressForwarder,
    batch: Seq<Option<Seq<u8>>>,
    event: EgressEvent,
)
    ensures
        match egress_step(state, batch, event) {
            (EgressForwarder::Receiving, EgressAction::Receive) => state
                != EgressForwarder::Stopped,
            (
                EgressForwarder::Sending { count, slot: sending },
                EgressAction::Send { slot, key },
            ) => {
                &&& state != EgressForwarder::Stopped
                &&& sending == slot
                &&& slot < count
                &&& forward_key(batch, slot as int) == Some(key)
            },
            (EgressForwarder::Stopped, EgressAction::Shutdown) => state
                == EgressForwarder::Receiving && event == EgressEvent::ReceiveFailed,
            (next, EgressAction::Idle) => next == state,
            _ => false,
        },
{
    match (state, event) {
        (EgressForwarder::Receiving, EgressEvent::Received { count }) => {
            lemma_scan_finds_a_forwarded_slot(batch, count, 0);
        },
        (EgressForwarder::Sending { count, slot }, EgressEvent::Sent { delivered }) => {
            lemma_scan_finds_a_forwarded_slot(batch, count, slot + 1);
        },
        _ => {},
    }
}

/// Only a failed receive ends the task: a step asks for the shutdown exactly
/// when the forwarder was receiving and the receive failed, and the forwarder is
/// stopped afterwards exactly when it asked for the shutdown or was stopped
/// before. No packet, whatever it holds, and no send, however it ends, stops it.
pub proof fn lemma_only_a_failed_receive_stops(
    state: EgressForwarder,
    batch: Seq<Option<Seq<u8>>>,
    event: EgressEvent,
)
    ensures
        egress_step(state, batch, event).1 == EgressAction::Shutdown <==> state
            == EgressForwarder::Receiving && event == EgressEvent::ReceiveFailed,
        egress_step(state, batch, event).0 == EgressForwarder::Stopped <==> state
            == EgressForwarder::Stopped || egress_step(state, batch, event).1
            == EgressAction::Shutdown,
{
    lemma_step_by_action(state, batch, event);
}

/// A send is asked for only for a packet of the batch in hand that the
/// transport can carry, and to the peer that the packet resolves to.
pub proof fn lemma_send_names_the_resolved_peer(
    state: EgressForwarder,
    batch: Seq<Option<Seq<u8>>>,
    event: EgressEvent,
)
    ensures
        match egress_step(state, batch, event).1 {
            EgressAction::Send { slot, key } => {
                &&& batch[slot as int] matches Some(packet)
                &&& resolved_key(packet) == Some(key)
                &&& packet.len() < PAYLOAD_LIMIT
                &&& egress_step(state, batch, event).0 matches EgressForwarder::Sending {
                    count,
                    slot: sending,
                }
                &&& sending == slot
                &&& slot < count
                &&& slot < batch.len()
            },
            _ => true,
        },
{
    lemma_step_by_action(state, batch, event);
}

/// The sends that a batch of `count` packets calls for from slot `from` on:
/// one for each slot that is forwarded, in the order of the slots.
pub open spec fn sends(batch: Seq<Option<Seq<u8>>>, count: usize, from: int) -> Seq<EgressAction>
    decreases count - from,
{
    if from < 0 || from >= count || from >= batch.len() {
        Seq::empty()
    } else {
        match forward_key(batch, from) {
            Some(key) => seq![EgressAction::Send { slot: from as usize, key }] + sends(
                batch,
                count,
                from + 1,
            ),
            None => sends(batch, count, from + 1),
        }
    }
}

/// The inputs that report the outcomes of successive sends of one batch.
pub open spec fn send_outcomes(batch: Seq<Option<Seq<u8>>>, outcomes: Seq<bool>) -> Seq<
    EgressInput,
> {
    Seq::new(
        outcomes.len(),
        |i: int| EgressInput { batch, event: EgressEvent::Sent { delivered: outcomes[i] } },
    )
}

/// The inputs of one whole batch: its arrival, then the outcome of each send.
pub open spec fn batch_inputs(batch: Seq<Option<Seq<u8>>>, count: usize, outcomes: Seq<bool>) -> Seq<
    EgressInput,
> {
    seq![EgressInput { batch, event: EgressEvent::Received { count } }] + send_outcomes(
        batch,
        outcomes,
    )
}

/// Every slot of a batch that is forwarded has its send among [`sends`].
pub proof fn lemma_sends_hold_every_forwarded_slot(
    batch: Seq<Option<Seq<u8>>>,
    count: usize,
    from: int,
    slot: int,
)
    requires
        0 <= from <= slot < count,
        forward_key(batch, slot) is Some,
    ensures
        sends(batch, count, from).contains(
            EgressAction::Send { slot: slot as usize, key: forward_key(batch, slot).unwrap() },
        ),
    decreases slot - from,
{
    let wanted = EgressAction::Send { slot: slot as usize, key: forward_key(batch, slot).unwrap() };
    if from == slot {
        assert(sends(batch, count, from)[0] == wanted);
    } else {
        lemma_sends_hold_every_forwarded_slot(batch, count, from + 1, slot);
        let rest = sends(batch, count, from + 1);
        let at = choose|i: int| 0 <= i < rest.len() && rest[i] == wanted;
        match forward_key(batch, from) {
            Some(key) => {
                assert(sends(batch, count, from)[at + 1] == wanted);
            },
            None => {},
        }
    }
}

/// Every entry of [`sends`] is the send of a slot of the batch that is
/// forwarded, and the slots come in rising order.
pub proof fn lemma_sends_are_forwarded_slots(batch: Seq<Option<Seq<u8>>>, count: usize, from: int)
    requires
        0 <= from,
    ensures
        forall|i: int|
            0 <= i < sends(batch, count, from).len() ==> match #[trigger] sends(
                batch,
                count,
                from,
            )[i] {
                EgressAction::Send { slot, key } => from + i <= slot < count && forward_key(
                    batch,
                    slot as int,
                ) == Some(key),
                _ => false,
            },
        forall|i: int, j: int|
            0 <= i < j < sends(batch, count, from).len() ==> match (
                #[trigger] sends(batch, count, from)[i],
                #[trigger] sends(batch, count, from)[j],
            ) {
                (EgressAction::Send { slot: a, .. }, EgressAction::Send { slot: b, .. }) => a < b,
                _ => false,
            },
    decreases count - from,
{
    if from < count && from < batch.len() {
        lemma_sends_are_forwarded_slots(batch, count, from + 1);
    }
}

/// Where a scan stops: at the first of the sends that are left, or back at
/// receiving where none is left.
proof fn lemma_scan_is_first_send(batch: Seq<Option<Seq<u8>>>, count: usize, from: int)
    requires
        0 <= from,
    ensures
        sends(batch, count, from).len() == 0 ==> scan(batch, count, from) == (
            EgressForwarder::Receiving,
            EgressAction::Receive,
        ),
        sends(batch, count, from).len() > 0 ==> match scan(batch, count, from) {
            (EgressForwarder::Sending { count: c, slot }, action) => {
                &&& c == count
                &&& from <= slot < count
                &&& action == sends(batch, count, from)[0]
                &&& sends(batch, count, from) == seq![action] + sends(batch, count, slot + 1)
            },
            _ => false,
        },
    decreases count - from,
{
    if from < count && from < batch.len() && forward_key(batch, from) is None {
        lemma_scan_is_first_send(batch, count, from + 1);
    }
}

/// From the state that a scan from `from` leaves, the outcomes of the sends,
/// whatever they are, lead through all the sends that are left and then back to
/// receiving.
proof fn lemma_run_after_scan(
    batch: Seq<Option<Seq<u8>>>,
    count: usize,
    from: int,
    outcomes: Seq<bool>,
)
    requires
        0 <= from,
        outcomes.len() == sends(batch, count, from).len(),
    ensures
        run(scan(batch, count, from).0, send_outcomes(batch, outcomes)).0
            == EgressForwarder::Receiving,
        seq![scan(batch, count, from).1] + run(
            scan(batch, count, from).0,
            send_outcomes(batch, outcomes),
        ).1 == sends(batch, count, from).push(EgressAction::Receive),
    decreases outcomes.len(),
{
    lemma_scan_is_first_send(batch, count, from);
    if outcomes.len() > 0 {
        // The scan stopped at a send. Its outcome, whatever it is, starts the
        // scan behind that slot; the rest follows by induction.
        let slot = scan(batch, count, from).0->slot;
        let rest = outcomes.drop_first();
        assert(send_outcomes(batch, outcomes).drop_first() =~= send_outcomes(batch, rest));
        lemma_run_after_scan(batch, count, slot + 1, rest);
    }
}

/// No packet of a batch holds up another: whatever the outcome of each send,
/// and whichever slots are dropped, a forwarder that receives a batch asks for
/// the send of every slot that is forwarded, in the order of the slots, then for
/// the next batch, and is back in the state it started in.
pub proof fn lemma_batch_is_forwarded_whole(
    batch: Seq<Option<Seq<u8>>>,
    count: usize,
    outcomes: Seq<bool>,
)
    requires
        outcomes.len() == sends(batch, count, 0).len(),
    ensures
        run(EgressForwarder::Receiving, batch_inputs(batch, count, outcomes)) == (
            EgressForwarder::Receiving,
            sends(batch, count, 0).push(EgressAction::Receive),
        ),
{
    assert(batch_inputs(batch, count, outcomes).drop_first() =~= send_outcomes(batch, outcomes));
    lemma_run_after_scan(batch, count, 0, outcomes);
}

/// Every packet of a batch that can be forwarded is sent, whatever becomes of
/// the others: among the actions of a forwarder that receives the batch is the
/// send of each slot that is forwarded, to the peer it resolves to, whichever
/// slots are dropped and whatever the outcome of each send.
pub proof fn lemma_every_forwarded_slot_is_sent(
    batch: Seq<Option<Seq<u8>>>,
    count: usize,
    outcomes: Seq<bool>,
    slot: int,
)
    requires
        outcomes.len() == sends(batch, count, 0).len(),
        0 <= slot < count,
        forward_key(batch, slot) is Some,
    ensures
        run(EgressForwarder::Receiving, batch_inputs(batch, count, outcomes)).1.contains(
            EgressAction::Send { slot: slot as usize, key: forward_key(batch, slot).unwrap() },
        ),
{
    let wanted = EgressAction::Send { slot: slot as usize, key: forward_key(batch, slot).unwrap() };
    let all = sends(batch, count, 0);
    lemma_batch_is_forwarded_whole(batch, count, outcomes);
    lemma_sends_hold_every_forwarded_slot(batch, count, 0, slot);
    let at = choose|i: int| 0 <= i < all.len() && all[i] == wanted;
    assert(all.push(EgressAction::Receive)[at] == wanted);
}

/// Nothing of a batch stays behind in the forwarder: a batch that arrives a
/// second time is forwarded as it was the first time, whatever became of the
/// sends of the first.
pub proof fn lemma_batch_twice(
    batch: Seq<Option<Seq<u8>>>,
    count: usize,
    first: Seq<bool>,
    second: Seq<bool>,
)
    requires
        first.len() == sends(batch, count, 0).len(),
        second.len() == sends(batch, count, 0).len(),
    ensures
        run(
            EgressForwarder::Receiving,
            batch_inputs(batch, count, first) + batch_inputs(batch, count, second),
        ) == (
            EgressForwarder::Receiving,
            sends(batch, count, 0).push(EgressAction::Receive) + sends(batch, count, 0).push(
                EgressAction::Receive,
            ),
        ),
{
    lemma_batch_is_forwarded_whole(batch, count, first);
    lemma_batch_is_forwarded_whole(batch, count, second);
    lemma_run_in_two_parts(
        EgressForwarder::Receiving,
        batch_inputs(batch, count, first),
        batch_inputs(batch, count, second),
    );
}

/// A well-formed IPv4 packet that the transport can carry is forwarded to the
/// peer named by the four bytes of its destination field, whatever its other
/// bytes are.
pub proof fn lemma_ipv4_slot_is_forwarded(batch: Seq<Option<Seq<u8>>>, slot: int, packet: Seq<u8>)
    requires
        0 <= slot < batch.len(),
        batch[slot] == Some(packet),
        well_formed_ipv4(packet),
        packet.len() < PAYLOAD_LIMIT,
    ensures
        forward_key(batch, slot) == Some(key_of(packet.subrange(16, 20))),
        forward_key(batch, slot).unwrap()@ == seq![packet[16], packet[17], packet[18], packet[19]],
{
}

/// A well-formed IPv6 packet that the transport can carry is forwarded to the
/// peer named by the last four bytes of its destination address, whatever its
/// other bytes are.
pub proof fn lemma_ipv6_slot_is_forwarded(batch: Seq<Option<Seq<u8>>>, slot: int, packet: Seq<u8>)
    requires
        0 <= slot < batch.len(),
        batch[slot] == Some(packet),
        well_formed_ipv6(packet),
        packet.len() < PAYLOAD_LIMIT,
    ensures
        forward_key(batch, slot) == Some(key_of(packet.subrange(36, 40))),
        forward_key(batch, slot).unwrap()@ == seq![packet[36], packet[37], packet[38], packet[39]],
{
}

/// A slot is dropped exactly when it holds no packet, a packet that is neither
/// well-formed IPv4 nor well-formed IPv6, or one that the transport cannot
/// carry.
pub proof fn lemma_malformed_slot_is_dropped(batch: Seq<Option<Seq<u8>>>, slot: int)
    ensures
        forward_key(batch, slot) is None <==> {
            ||| slot < 0
            ||| slot >= batch.len()
            ||| batch[slot] is None
            ||| batch[slot] matches Some(packet) && {
                ||| !well_formed_ipv4(packet) && !well_formed_ipv6(packet)
                ||| packet.len() >= PAYLOAD_LIMIT
            }
        },
{
}

/// A set whose buffers are all shorter than the transport's limit, as those of
/// a set made for an MTU below 65535 are, holds no packet that is too long:
/// each of its slots is forwarded exactly where its packet resolves, and to
/// the peer it resolves to.
pub proof fn lemma_short_buffers_hold_no_long_packet(set: BufferSet, slot: int)
    requires
        forall|i: int|
            0 <= i < set.bufs@.len() ==> buffer_bytes(#[trigger] set.bufs@[i]).len()
                < PAYLOAD_LIMIT,
    ensures
        forward_key(set@, slot) == match set.packet_at(slot) {
            Some(packet) => resolved_key(packet),
            None => None,
        },
{
}

/// Whether `action` is the send of slot `slot`.
pub open spec fn sends_slot(action: EgressAction, slot: int) -> bool {
    action matches EgressAction::Send { slot: sent, .. } && sent == slot
}

/// A packet that is forwarded is sent once and no more: among the actions of a
/// forwarder that receives the batch, exactly one is the send of its slot, and
/// that one names the peer the packet resolves to.
pub proof fn lemma_forwarded_slot_is_sent_once(
    batch: Seq<Option<Seq<u8>>>,
    count: usize,
    outcomes: Seq<bool>,
    slot: int,
)
    requires
        outcomes.len() == sends(batch, count, 0).len(),
        0 <= slot < count,
        forward_key(batch, slot) is Some,
    ensures
        ({
            let actions = run(EgressForwarder::Receiving, batch_inputs(batch, count, outcomes)).1;
            exists|at: int|
                {
                    &&& 0 <= at < actions.len()
                    &&& actions[at] == (EgressAction::Send {
                        slot: slot as usize,
                        key: forward_key(batch, slot).unwrap(),
                    })
                    &&& forall|other: int|
                        0 <= other < actions.len() && other != at ==> !sends_slot(
                            #[trigger] actions[other],
                            slot,
                        )
                }
        }),
{
    let wanted = EgressAction::Send { slot: slot as usize, key: forward_key(batch, slot).unwrap() };
    let all = sends(batch, count, 0);
    let actions = all.push(EgressAction::Receive);
    lemma_batch_is_forwarded_whole(batch, count, outcomes);
    lemma_sends_hold_every_forwarded_slot(batch, count, 0, slot);
    lemma_sends_are_forwarded_slots(batch, count, 0);
    let at = choose|i: int| 0 <= i < all.len() && all[i] == wanted;
    assert(actions[at] == wanted);
    assert forall|other: int| 0 <= other < actions.len() && other != at implies !sends_slot(
        #[trigger] actions[other],
        slot,
    ) by {
        // The slots of the sends rise, so no two sends are of one slot.
        if other < all.len() {
            assert(actions[other] == all[other]);
        }
    }
    assert(run(EgressForwarder::Receiving, batch_inputs(batch, count, outcomes)).1 == actions);
}

/// A packet that is dropped is never sent, nor is anything sent from a slot
/// that the batch did not fill.
pub proof fn lemma_dropped_slot_is_not_sent(
    batch: Seq<Option<Seq<u8>>>,
    count: usize,
    outcomes: Seq<bool>,
    slot: int,
)
    requires
        outcomes.len() == sends(batch, count, 0).len(),
        slot < 0 || slot >= count || forward_key(batch, slot) is None,
    ensures
        ({
            let actions = run(EgressForwarder::Receiving, batch_inputs(batch, count, outcomes)).1;
            forall|at: int| 0 <= at < actions.len() ==> !sends_slot(#[trigger] actions[at], slot)
        }),
{
    // Every send of the batch is the send of a slot below `count` that is
    // forwarded, and the one action behind the sends is a receive.
    lemma_batch_is_forwarded_whole(batch, count, outcomes);
    lemma_sends_are_forwarded_slots(batch, count, 0);
}

/// The sends of the slots from `from` up to `to`, where each is forwarded.
pub open spec fn sends_of_all(batch: Seq<Option<Seq<u8>>>, from: int, to: int) -> Seq<
    EgressAction,
> {
    Seq::new(
        (to - from) as nat,
        |k: int|
            EgressAction::Send {
                slot: (from + k) as usize,
                key: forward_key(batch, from + k).unwrap(),
            },
    )
}

/// The sends of a batch are those of its first slots followed by those of the
/// rest.
pub proof fn lemma_sends_in_two_parts(
    batch: Seq<Option<Seq<u8>>>,
    count: usize,
    from: int,
    middle: usize,
)
    requires
        0 <= from <= middle <= count,
    ensures
        sends(batch, count, from) == sends(batch, middle, from) + sends(
            batch,
            count,
            middle as int,
        ),
    decreases middle - from,
{
    if from < middle && from < batch.len() {
        lemma_sends_in_two_parts(batch, count, from + 1, middle);
    } else if from < middle {
        lemma_sends_beyond_the_set(batch, count, middle as int);
    }
}

/// Nothing is sent from behind the last slot of the set.
proof fn lemma_sends_beyond_the_set(batch: Seq<Option<Seq<u8>>>, count: usize, from: int)
    requires
        from >= batch.len(),
    ensures
        sends(batch, count, from) == Seq::<EgressAction>::empty(),
{
}

/// Where every slot of a stretch is forwarded, the sends are one for each slot,
/// in the order of the slots.
pub proof fn lemma_sends_of_forwarded_stretch(
    batch: Seq<Option<Seq<u8>>>,
    count: usize,
    from: int,
)
    requires
        0 <= from <= count <= batch.len(),
        forall|slot: int| from <= slot < count ==> (#[trigger] forward_key(batch, slot)) is Some,
    ensures
        sends(batch, count, from) == sends_of_all(batch, from, count as int),
    decreases count - from,
{
    if from < count {
        lemma_sends_of_forwarded_stretch(batch, count, from + 1);
    }
}

/// One packet that is dropped costs the batch that packet and no other: where
/// every packet of a batch but one is forwarded, the sends are one for each of
/// the others, in the order of the slots, those behind the dropped one
/// included.
pub proof fn lemma_one_dropped_packet(batch: Seq<Option<Seq<u8>>>, count: usize, dropped: usize)
    requires
        dropped < count <= batch.len(),
        forward_key(batch, dropped as int) is None,
        forall|slot: int|
            0 <= slot < count && slot != dropped ==> (#[trigger] forward_key(batch, slot)) is Some,
    ensures
        sends(batch, count, 0) == sends_of_all(batch, 0, dropped as int) + sends_of_all(
            batch,
            dropped + 1,
            count as int,
        ),
        sends(batch, count, 0).len() == count - 1,
{
    // The batch in three parts: the slots before the dropped one, that slot,
    // and the slots behind it.
    let behind: usize = (dropped + 1) as usize;
    lemma_sends_in_two_parts(batch, count, 0, dropped);
    lemma_sends_in_two_parts(batch, count, dropped as int, behind);
    lemma_sends_of_forwarded_stretch(batch, dropped, 0);
    lemma_sends_of_forwarded_stretch(batch, count, behind as int);
}

/// A send that fails costs the batch nothing: where every packet of a batch is
/// forwarded, a forwarder that receives it asks for one send for each packet,
/// in the order of the slots, whatever the outcome of each send, and then for
/// the next batch.
pub proof fn lemma_failed_sends_do_not_stop_the_batch(
    batch: Seq<Option<Seq<u8>>>,
    count: usize,
    outcomes: Seq<bool>,
)
    requires
        count <= batch.len(),
        forall|slot: int| 0 <= slot < count ==> (#[trigger] forward_key(batch, slot)) is Some,
        outcomes.len() == count,
    ensures
        run(EgressForwarder::Receiving, batch_inputs(batch, count, outcomes)) == (
            EgressForwarder::Receiving,
            sends_of_all(batch, 0, count as int).push(EgressAction::Receive),
        ),
{
    lemma_sends_of_forwarded_stretch(batch, count, 0);
    lemma_batch_is_forwarded_whole(batch, count, outcomes);
}

/// One batch as the task lives through it: the buffer set after the receive,
/// the number of slots that the receive filled, and the outcome of each send.
pub struct Batch {
    pub slots: Seq<Option<Seq<u8>>>,
    pub count: usize,
    pub outcomes: Seq<bool>,
}

/// The inputs of a sequence of batches, one after the other.
pub open spec fn batches_inputs(batches: Seq<Batch>) -> Seq<EgressInput>
    decreases batches.len(),
{
    if batches.len() == 0 {
        Seq::empty()
    } else {
        batch_inputs(batches[0].slots, batches[0].count, batches[0].outcomes) + batches_inputs(
            batches.drop_first(),
        )
    }
}

/// What a sequence of batches calls for: for each batch in turn the send of
/// every slot of it that is forwarded, in the order of the slots, and then the
/// next receive.
pub open spec fn batches_actions(batches: Seq<Batch>) -> Seq<EgressAction>
    decreases batches.len(),
{
    if batches.len() == 0 {
        Seq::empty()
    } else {
        sends(batches[0].slots, batches[0].count, 0).push(EgressAction::Receive) + batches_actions(
            batches.drop_first(),
        )
    }
}

/// Every send of every batch has its outcome reported.
pub open spec fn every_send_returns(batches: Seq<Batch>) -> bool {
    forall|i: int|
        0 <= i < batches.len() ==> (#[trigger] batches[i]).outcomes.len() == sends(
            batches[i].slots,
            batches[i].count,
            0,
        ).len()
}

/// Batch after batch is forwarded in the same way: over any number of batches
/// the forwarder asks for exactly the sends that each batch calls for, in
/// order, and is receiving again after each.
pub proof fn lemma_batches_are_forwarded(batches: Seq<Batch>)
    requires
        every_send_returns(batches),
    ensures
        run(EgressForwarder::Receiving, batches_inputs(batches)) == (
            EgressForwarder::Receiving,
            batches_actions(batches),
        ),
    decreases batches.len(),
{
    if batches.len() > 0 {
        let first = batches[0];
        let rest = batches.drop_first();
        lemma_batch_is_forwarded_whole(first.slots, first.count, first.outcomes);
        lemma_batches_are_forwarded(rest);
        lemma_run_in_two_parts(
            EgressForwarder::Receiving,
            batch_inputs(first.slots, first.count, first.outcomes),
            batches_inputs(rest),
        );
    }
}

/// The whole task: the forwarder forwards batch after batch until a receive
/// fails, then asks for the shutdown of the writer, once, and for nothing more.
/// What it asks for up to then is what the batches call for: no packet that is
/// dropped and no send that fails ends the task or costs another packet its
/// send.
pub proof fn lemma_task_runs_until_a_receive_fails(
    batches: Seq<Batch>,
    last: Seq<Option<Seq<u8>>>,
)
    requires
        every_send_returns(batches),
    ensures
        run(
            EgressForwarder::Receiving,
            batches_inputs(batches).push(
                EgressInput { batch: last, event: EgressEvent::ReceiveFailed },
            ),
        ) == (EgressForwarder::Stopped, batches_actions(batches).push(EgressAction::Shutdown)),
{
    let failure = seq![EgressInput { batch: last, event: EgressEvent::ReceiveFailed }];
    lemma_batches_are_forwarded(batches);
    lemma_run_in_two_parts(EgressForwarder::Receiving, batches_inputs(batches), failure);
    assert(batches_inputs(batches).push(failure[0]) =~= batches_inputs(batches) + failure);
    assert(run(EgressForwarder::Receiving, failure) == (
        EgressForwarder::Stopped,
        seq![EgressAction::Shutdown],
    )) by {
        assert(failure.drop_first().len() == 0);
        assert(run(EgressForwarder::Stopped, failure.drop_first()) == (
            EgressForwarder::Stopped,
            Seq::<EgressAction>::empty(),
        ));
        assert(seq![EgressAction::Shutdown] + Seq::<EgressAction>::empty() =~= seq![
            EgressAction::Shutdown,
        ]);
    }
}

/// How often `actions` ask for a receive.
pub open spec fn receives(actions: Seq<EgressAction>) -> nat
    decreases actions.len(),
{
    if actions.len() == 0 {
        0
    } else if actions[0] == EgressAction::Receive {
        1 + receives(actions.drop_first())
    } else {
        receives(actions.drop_first())
    }
}

/// The receives of two sequences of actions add up.
proof fn lemma_receives_add_up(first: Seq<EgressAction>, second: Seq<EgressAction>)
    ensures
        receives(first + second) == receives(first) + receives(second),
    decreases first.len(),
{
    if first.len() > 0 {
        assert((first + second).drop_first() =~= first.drop_first() + second);
        lemma_receives_add_up(first.drop_first(), second);
    } else {
        assert(first + second =~= second);
    }
}

/// There is no receive among the sends of a batch.
proof fn lemma_no_receive_among_sends(batch: Seq<Option<Seq<u8>>>, count: usize, from: int)
    ensures
        receives(sends(batch, count, from)) == 0,
    decreases count - from,
{
    if 0 <= from < count && from < batch.len() {
        lemma_no_receive_among_sends(batch, count, from + 1);
        if forward_key(batch, from) is Some {
            assert(sends(batch, count, from).drop_first() =~= sends(batch, count, from + 1));
        }
    }
}

/// The stack is asked for a batch once for every batch it gave: together with
/// the receive that the task starts with, `k` batches make `k + 1` receives,
/// the last of which is the one that fails.
pub proof fn lemma_one_receive_after_each_batch(batches: Seq<Batch>)
    ensures
        receives(batches_actions(batches)) == batches.len(),
    decreases batches.len(),
{
    if batches.len() > 0 {
        let all = sends(batches[0].slots, batches[0].count, 0);
        let receive = seq![EgressAction::Receive];
        lemma_one_receive_after_each_batch(batches.drop_first());
        lemma_no_receive_among_sends(batches[0].slots, batches[0].count, 0);
        assert(all.push(EgressAction::Receive) =~= all + receive);
        assert(receives(receive) == 1) by {
            assert(receive[0] == EgressAction::Receive);
            assert(receives(receive.drop_first()) == 0);
        }
        lemma_receives_add_up(all, receive);
        lemma_receives_add_up(all + receive, batches_actions(batches.drop_first()));
    }
}

/// How often a run asks for the writer to be shut down.
pub open spec fn shutdowns(actions: Seq<EgressAction>) -> nat
    decreases actions.len(),
{
    if actions.len() == 0 {
        0
    } else if actions[0] == EgressAction::Shutdown {
        1 + shutdowns(actions.drop_first())
    } else {
        shutdowns(actions.drop_first())
    }
}

/// The writer is shut down once and no more: a run asks for it exactly when it
/// ends stopped, and then exactly once. A run from a stopped forwarder never
/// asks for it.
pub proof fn lemma_shutdown_once(state: EgressForwarder, inputs: Seq<EgressInput>)
    ensures
        state == EgressForwarder::Stopped ==> run(state, inputs).0 == EgressForwarder::Stopped
            && shutdowns(run(state, inputs).1) == 0,
        state != EgressForwarder::Stopped ==> shutdowns(run(state, inputs).1) == (if run(
            state,
            inputs,
        ).0 == EgressForwarder::Stopped {
            1nat
        } else {
            0nat
        }),
    decreases inputs.len(),
{
    if inputs.len() > 0 {
        let (next, action) = egress_step(state, inputs[0].batch, inputs[0].event);
        lemma_only_a_failed_receive_stops(state, inputs[0].batch, inputs[0].event);
        lemma_shutdown_once(next, inputs.drop_first());
        let tail = run(next, inputs.drop_first()).1;
        assert((seq![action] + tail).drop_first() =~= tail);
    }
}

} // verus!
