//! The egress forwarder: drains the virtual stack and sends each packet to the
//! peer it is for.
//!
//! The forwarder is a state machine. Its owner performs the action that a step
//! returns (a receive on the stack, a send on the transport) and reports the
//! outcome as the next event.
use crate::buffers::BufferSet;
use crate::resolver::resolve_destination;
use crate::resolver::resolved_key;
use crate::resolver::DestinationKey;
use rustp2p::pipe::PipeWriter;
use rustp2p::pipe::SendPacket;
use vstd::prelude::*;

pub mod laws;

verus! {

/// A payload must be shorter than this for the transport to carry it.
pub const PAYLOAD_LIMIT: usize = 65535;

/// `rustp2p::pipe::PipeWriter`, the handle through which packets are sent. It
/// is carried through and nothing is known of what it holds.
#[verifier::external_type_specification]
#[verifier::external_body]
pub struct ExPipeWriter(rustp2p::pipe::PipeWriter);

/// `rustp2p::pipe::SendPacket`, a packet of the transport. Of what it holds
/// only the payload is spoken of, as [`send_payload`].
#[verifier::external_type_specification]
#[verifier::external_body]
pub struct ExSendPacket(rustp2p::pipe::SendPacket);

/// The payload that a send packet carries behind its header.
pub uninterp spec fn send_payload(packet: SendPacket) -> Seq<u8>;

/// `PipeWriter::allocate_send_packet` returns a packet that holds a header and
/// no payload yet.
pub assume_specification[ rustp2p::pipe::PipeWriter::allocate_send_packet ](
    writer: &rustp2p::pipe::PipeWriter,
) -> (packet: rustp2p::pipe::SendPacket)
    ensures
        send_payload(packet).len() == 0,
;

/// `SendPacket::set_payload` replaces the payload by a copy of `src`. It panics
/// on a payload of 65535 bytes or more, which the precondition leaves out.
pub assume_specification[ rustp2p::pipe::SendPacket::set_payload ](
    packet: &mut rustp2p::pipe::SendPacket,
    src: &[u8],
)
    requires
        src@.len() < 65535,
    ensures
        send_payload(*final(packet)) == src@,
;

/// What the owner of a forwarder does next.
#[derive(Clone, Copy, Debug, PartialEq, Eq)]
pub enum EgressAction {
    /// Receive the next batch from the virtual stack into the buffer set.
    Receive,
    /// Send the packet in slot `slot` to the peer `key`.
    Send { slot: usize, key: DestinationKey },
    /// Shut the transport writer down and end the task.
    Shutdown,
    /// Nothing: the event did not answer what the forwarder was waiting for.
    Idle,
}

/// What the owner of a forwarder reports.
#[derive(Clone, Copy, Debug, PartialEq, Eq)]
pub enum EgressEvent {
    /// The stack filled the first `count` slots of the buffer set.
    Received { count: usize },
    /// The receive on the stack failed: the stack is gone.
    ReceiveFailed,
    /// The send that was asked for returned; `delivered` says whether it
    /// succeeded.
    Sent { delivered: bool },
}

/// What a forwarder is waiting for.
#[derive(Clone, Copy, Debug, PartialEq, Eq)]
pub enum EgressForwarder {
    /// The next batch.
    Receiving,
    /// The outcome of sending slot `slot` of a batch of `count` packets.
    Sending { count: usize, slot: usize },
    /// Nothing more: the stack is gone and the writer was shut down.
    Stopped,
}

/// The peer to which the packet in slot `slot` is forwarded, or `None` where
/// the slot is dropped: it holds no packet, the packet resolves to no peer, or
/// the packet is too long for the transport.
pub open spec fn forward_key(batch: Seq<Option<Seq<u8>>>, slot: int) -> Option<DestinationKey> {
    if 0 <= slot < batch.len() {
        match batch[slot] {
            Some(packet) => if packet.len() < PAYLOAD_LIMIT {
                resolved_key(packet)
            } else {
                None
            },
            None => None,
        }
    } else {
        None
    }
}

/// The first slot from `from` on, below `count`, that is forwarded, as the
/// state and action it leads to; back to receiving where there is none.
pub open spec fn scan(batch: Seq<Option<Seq<u8>>>, count: usize, from: int) -> (
    EgressForwarder,
    EgressAction,
)
    decreases count - from,
{
    if from < 0 || from >= count || from >= batch.len() {
        (EgressForwarder::Receiving, EgressAction::Receive)
    } else {
        match forward_key(batch, from) {
            Some(key) => (
                EgressForwarder::Sending { count, slot: from as usize },
                EgressAction::Send { slot: from as usize, key },
            ),
            None => scan(batch, count, from + 1),
        }
    }
}

/// One step of the forwarder over the buffer set as it stands: the next state
/// and the action to perform.
pub open spec fn egress_step(
    state: EgressForwarder,
    batch: Seq<Option<Seq<u8>>>,
    event: EgressEvent,
) -> (EgressForwarder, EgressAction) {
    match (state, event) {
        (EgressForwarder::Receiving, EgressEvent::Received { count }) => scan(batch, count, 0),
        (EgressForwarder::Receiving, EgressEvent::ReceiveFailed) => (
            EgressForwarder::Stopped,
            EgressAction::Shutdown,
        ),
        (EgressForwarder::Sending { count, slot }, EgressEvent::Sent { delivered }) => scan(
            batch,
            count,
            slot + 1,
        ),
        _ => (state, EgressAction::Idle),
    }
}

impl EgressForwarder {
    /// A forwarder at the start of its task, and its first action.
    pub fn start() -> (started: (EgressForwarder, EgressAction))
        ensures
            started == (EgressForwarder::Receiving, EgressAction::Receive),
    {
        (EgressForwarder::Receiving, EgressAction::Receive)
    }

    /// Takes the outcome of the last action and says what to do next.
    ///
    /// A packet that cannot be forwarded is skipped, and a send that failed
    /// changes nothing: the rest of the batch is forwarded all the same. Only a
    /// failed receive ends the task.
    pub fn step(&mut self, buffers: &BufferSet, event: EgressEvent) -> (action: EgressAction)
        ensures
            (*final(self), action) == egress_step(*old(self), buffers@, event),
    {
        match (*self, event) {
            (EgressForwarder::Receiving, EgressEvent::Received { count }) => {
                let (next, action) = scan_slots(buffers, count, 0);
                *self = next;
                action
            },
            (EgressForwarder::Receiving, EgressEvent::ReceiveFailed) => {
                *self = EgressForwarder::Stopped;
                EgressAction::Shutdown
            },
            (EgressForwarder::Sending { count, slot }, EgressEvent::Sent { delivered }) => {
                if slot >= count {
                    *self = EgressForwarder::Receiving;
                    EgressAction::Receive
                } else {
                    let (next, action) = scan_slots(buffers, count, slot + 1);
                    *self = next;
                    action
                }
            },
            _ => EgressAction::Idle,
        }
    }
}

/// Finds the first slot from `from` on that is forwarded.
fn scan_slots(buffers: &BufferSet, count: usize, from: usize) -> (found: (
    EgressForwarder,
    EgressAction,
))
    ensures
        found == scan(buffers@, count, from as int),
{
    let slots = buffers.slots();
    let mut slot: usize = from;
    while slot < count && slot < slots
        invariant
            from <= slot,
            slots == buffers@.len(),
            scan(buffers@, count, slot as int) == scan(buffers@, count, from as int),
        decreases count - slot,
    {
        match forward_slot(buffers, slot) {
            Some(key) => {
                return (
                    EgressForwarder::Sending { count, slot },
                    EgressAction::Send { slot, key },
                );
            },
            None => {},
        }
        slot = slot + 1;
    }
    (EgressForwarder::Receiving, EgressAction::Receive)
}

/// The peer to which the packet in slot `slot` is forwarded, if it is.
pub fn forward_slot(buffers: &BufferSet, slot: usize) -> (key: Option<DestinationKey>)
    ensures
        key == forward_key(buffers@, slot as int),
{
    match buffers.packet(slot) {
        Some(packet) => {
            if packet.len() < PAYLOAD_LIMIT {
                resolve_destination(packet)
            } else {
                None
            }
        },
        None => None,
    }
}

/// Builds the transport packet that carries the packet in slot `slot`: its
/// valid bytes and nothing else.
///
/// The result is `None` exactly when the slot holds no packet or one that is
/// too long for the transport.
pub fn outgoing_packet(writer: &PipeWriter, buffers: &BufferSet, slot: usize) -> (outgoing: Option<
    SendPacket,
>)
    ensures
        match outgoing {
            Some(packet) => buffers.packet_at(slot as int) == Some(send_payload(packet))
                && send_payload(packet).len() < PAYLOAD_LIMIT,
            None => match buffers.packet_at(slot as int) {
                Some(bytes) => bytes.len() >= PAYLOAD_LIMIT,
                None => true,
            },
        },
        forward_key(buffers@, slot as int) is Some ==> outgoing is Some,
{
    match buffers.packet(slot) {
        Some(bytes) => {
            if bytes.len() < PAYLOAD_LIMIT {
                let mut packet = writer.allocate_send_packet();
                packet.set_payload(bytes);
                Some(packet)
            } else {
                None
            }
        },
        None => None,
    }
}

} // verus!
