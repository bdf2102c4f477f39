//! The buffer set into which the virtual stack writes a batch of packets.
//!
//! The set is allocated once and reused for every batch. Each slot is a buffer
//! of the stack's MTU beside the number of bytes of it that the last batch
//! filled. Only those bytes are a packet; what lies behind them is left over
//! from earlier batches.
use bytes::BytesMut;
use vstd::prelude::*;

verus! {

/// Number of slots in a buffer set made by [`BufferSet::new`].
pub const DEFAULT_SLOTS: usize = 128;

/// `bytes::BytesMut`, the buffer type of the set. Of what it holds only the
/// bytes are spoken of, as [`buffer_bytes`].
#[verifier::external_type_specification]
#[verifier::external_body]
pub struct ExBytesMut(bytes::BytesMut);

/// The bytes that a buffer holds, in order.
pub uninterp spec fn buffer_bytes(buffer: BytesMut) -> Seq<u8>;

/// `len` zero bytes.
pub open spec fn zeros(len: nat) -> Seq<u8> {
    Seq::new(len, |i: int| 0u8)
}

/// `bytes::BytesMut::zeroed` returns a buffer that holds `len` zero bytes. A
/// length beyond `isize::MAX` makes the allocation panic, which the
/// precondition leaves out.
pub assume_specification[ bytes::BytesMut::zeroed ](len: usize) -> (buffer: bytes::BytesMut)
    requires
        len <= isize::MAX,
    ensures
        buffer_bytes(buffer) == zeros(len as nat),
;

/// Borrows the bytes of a buffer.
///
/// The body calls `AsRef::<[u8]>::as_ref` of `bytes::BytesMut`, which returns
/// the whole initialised part of the buffer as a slice.
#[verifier::external_body]
fn buffer_slice(buffer: &BytesMut) -> (bytes: &[u8])
    ensures
        bytes@ == buffer_bytes(*buffer),
{
    buffer.as_ref()
}

/// A fixed pool of equally sized buffers with, for each, the length that the
/// last batch wrote into it.
///
/// The two vectors are public so that the owner can lend them to the virtual
/// stack's batched receive. Nothing is assumed of what comes back: a slot whose
/// recorded length exceeds its buffer holds no packet.
pub struct BufferSet {
    /// The buffers, one per slot.
    pub bufs: Vec<BytesMut>,
    /// For each slot, the number of valid bytes at the start of its buffer.
    pub sizes: Vec<usize>,
}

impl View for BufferSet {
    type V = Seq<Option<Seq<u8>>>;

    /// For each slot the packet it holds: the first `sizes[i]` bytes of
    /// `bufs[i]`, or `None` where the buffer is shorter than that.
    open spec fn view(&self) -> Seq<Option<Seq<u8>>> {
        Seq::new(
            if self.bufs@.len() <= self.sizes@.len() {
                self.bufs@.len()
            } else {
                self.sizes@.len()
            },
            |i: int| valid_bytes(buffer_bytes(self.bufs@[i]), self.sizes@[i] as nat),
        )
    }
}

/// The first `size` bytes of `bytes`, or `None` where there are fewer.
pub open spec fn valid_bytes(bytes: Seq<u8>, size: nat) -> Option<Seq<u8>> {
    if size <= bytes.len() {
        Some(bytes.subrange(0, size as int))
    } else {
        None
    }
}

impl BufferSet {
    /// A set as it is before the first batch: `slots` buffers of `mtu` zero
    /// bytes each, none of them filled.
    pub open spec fn is_fresh(&self, slots: nat, mtu: nat) -> bool {
        &&& self.bufs@.len() == slots
        &&& self.sizes@.len() == slots
        &&& forall|i: int| 0 <= i < slots ==> buffer_bytes(#[trigger] self.bufs@[i]) == zeros(mtu)
        &&& forall|i: int| 0 <= i < slots ==> #[trigger] self.sizes@[i] == 0
    }

    /// The shape in which a batched receive leaves the set: as many lengths as
    /// buffers, and no length beyond its buffer.
    pub open spec fn well_formed(&self) -> bool {
        &&& self.bufs@.len() == self.sizes@.len()
        &&& forall|i: int|
            0 <= i < self.bufs@.len() ==> self.sizes@[i] <= buffer_bytes(
                #[trigger] self.bufs@[i],
            ).len()
    }

    /// The packet in slot `slot`, or `None` where the set has no such slot or
    /// the slot's length exceeds its buffer.
    pub open spec fn packet_at(&self, slot: int) -> Option<Seq<u8>> {
        if 0 <= slot < self@.len() {
            self@[slot]
        } else {
            None
        }
    }

    /// Allocates the default number of zeroed buffers of `mtu` bytes.
    pub fn new(mtu: u16) -> (set: BufferSet)
        ensures
            set.is_fresh(DEFAULT_SLOTS as nat, mtu as nat),
            set.well_formed(),
    {
        BufferSet::with_slots(DEFAULT_SLOTS, mtu)
    }

    /// Allocates `slots` zeroed buffers of `mtu` bytes.
    pub fn with_slots(slots: usize, mtu: u16) -> (set: BufferSet)
        ensures
            set.is_fresh(slots as nat, mtu as nat),
            set.well_formed(),
    {
        let mut bufs: Vec<BytesMut> = Vec::new();
        let mut sizes: Vec<usize> = Vec::new();
        let mut filled: usize = 0;
        while filled < slots
            invariant
                filled <= slots,
                bufs@.len() == filled,
                sizes@.len() == filled,
                forall|i: int| 0 <= i < filled ==> buffer_bytes(#[trigger] bufs@[i]) == zeros(mtu as nat),
                forall|i: int| 0 <= i < filled ==> #[trigger] sizes@[i] == 0,
            decreases slots - filled,
        {
            bufs.push(BytesMut::zeroed(mtu as usize));
            sizes.push(0);
            filled = filled + 1;
        }
        BufferSet { bufs, sizes }
    }

    /// Number of slots: as many as there are both a buffer and a length for.
    pub fn slots(&self) -> (slots: usize)
        ensures
            slots == self@.len(),
    {
        if self.bufs.len() <= self.sizes.len() {
            self.bufs.len()
        } else {
            self.sizes.len()
        }
    }

    /// The valid bytes of slot `slot`, and no byte behind them.
    pub fn packet(&self, slot: usize) -> (packet: Option<&[u8]>)
        ensures
            match packet {
                Some(p) => self.packet_at(slot as int) == Some(p@),
                None => self.packet_at(slot as int) is None,
            },
    {
        if slot >= self.slots() {
            return None;
        }
        let bytes = buffer_slice(&self.bufs[slot]);
        let size: usize = self.sizes[slot];
        if size > bytes.len() {
            return None;
        }
        Some(vstd::slice::slice_subrange(bytes, 0, size))
    }
}

/// Every slot of a well-formed set holds a packet: the first bytes of its
/// buffer, as many as its length says.
pub proof fn lemma_well_formed_slots_hold_packets(set: BufferSet, slot: int)
    requires
        set.well_formed(),
        0 <= slot < set.bufs@.len(),
    ensures
        set@.len() == set.bufs@.len(),
        set.packet_at(slot) == Some(
            buffer_bytes(set.bufs@[slot]).subrange(0, set.sizes@[slot] as int),
        ),
{
}

/// What lies behind the valid bytes of a slot is no part of the set's view:
/// two sets that agree on every length and on the bytes below it hold the same
/// packets, whatever earlier batches left in the rest of their buffers.
pub proof fn lemma_stale_bytes_are_unseen(a: BufferSet, b: BufferSet)
    requires
        a.bufs@.len() == b.bufs@.len(),
        a.sizes@ == b.sizes@,
        forall|i: int|
            0 <= i < a@.len() ==> {
                &&& a.sizes@[i] <= buffer_bytes(#[trigger] a.bufs@[i]).len()
                &&& a.sizes@[i] <= buffer_bytes(b.bufs@[i]).len()
                &&& buffer_bytes(a.bufs@[i]).subrange(0, a.sizes@[i] as int) == buffer_bytes(
                    b.bufs@[i],
                ).subrange(0, a.sizes@[i] as int)
            },
    ensures
        a@ == b@,
{
}

} // verus!
