//! The bridge supervisor: what has to hold before the bridge starts, and what
//! it sets up.
use crate::resolver::destination_of;
use crate::resolver::embedded_key;
use crate::resolver::ip_version;
use crate::resolver::key_of;
use crate::resolver::resolved_key;
use crate::resolver::DestinationKey;
use crate::resolver::IPV6_HEADER_LEN;
use vstd::prelude::*;

verus! {

/// Why the bridge did not start.
#[derive(Clone, Copy, Debug, PartialEq, Eq)]
pub enum StartupError {
    /// The transport has no local node identity yet.
    MissingNodeId,
}

impl StartupError {
    /// The error in words.
    pub fn message(&self) -> (text: &'static str)
        ensures
            text@ == "Node ID must be set"@,
    {
        match self {
            StartupError::MissingNodeId => "Node ID must be set",
        }
    }
}

/// What the supervisor sets up once the node's identity is known.
#[derive(Clone, Copy, Debug, PartialEq, Eq)]
pub struct BridgePlan {
    /// The default IPv4 route of the stack: the node's identity.
    pub route_v4: DestinationKey,
    /// The default IPv6 route of the stack: the address that embeds the node's
    /// identity.
    pub route_v6: [u8; 16],
}

/// The prefix under which node identities are mapped into IPv6:
/// `fd12:3456:789a:abcd:ef12:3456::/96`.
pub open spec fn node_prefix() -> Seq<u8> {
    seq![0xfdu8, 0x12u8, 0x34u8, 0x56u8, 0x78u8, 0x9au8, 0xabu8, 0xcdu8, 0xefu8, 0x12u8, 0x34u8, 0x56u8]
}

/// The IPv6 address of the node `id`: the prefix followed by the identity.
pub open spec fn node_address(id: Seq<u8>) -> Seq<u8> {
    node_prefix() + id
}

/// The plan for the node `id`.
pub open spec fn plan_for(id: DestinationKey, plan: BridgePlan) -> bool {
    &&& plan.route_v4 == id
    &&& plan.route_v6@ == node_address(id@)
}

/// The IPv6 address that embeds the identity `id` in its last four bytes.
pub fn node_address_v6(id: DestinationKey) -> (address: [u8; 16])
    ensures
        address@ == node_address(id@),
{
    let id = id.octets;
    [0xfd, 0x12, 0x34, 0x56, 0x78, 0x9a, 0xab, 0xcd, 0xef, 0x12, 0x34, 0x56, id[0], id[1], id[2], id[3]]
}

/// Decides whether the bridge starts.
///
/// Without a local node identity nothing is set up and no task is spawned: the
/// result is the error. With one, the result names the default routes of the
/// stack, and the two tasks of the bridge may be spawned.
pub fn plan_startup(node_id: Option<DestinationKey>) -> (plan: Result<BridgePlan, StartupError>)
    ensures
        match node_id {
            Some(id) => plan matches Ok(p) && plan_for(id, p),
            None => plan == Err::<BridgePlan, StartupError>(StartupError::MissingNodeId),
        },
{
    match node_id {
        Some(id) => Ok(BridgePlan { route_v4: id, route_v6: node_address_v6(id) }),
        None => Err(StartupError::MissingNodeId),
    }
}

/// The address of a node leads back to the node: an IPv6 packet whose
/// destination is the address of `id` resolves to `id`.
pub proof fn lemma_node_address_resolves(id: DestinationKey, packet: Seq<u8>)
    requires
        packet.len() >= IPV6_HEADER_LEN,
        ip_version(packet) == 6,
        packet.subrange(24, 40) == node_address(id@),
    ensures
        embedded_key(node_address(id@)) == id@,
        destination_of(packet) == Some(id@),
        resolved_key(packet) == Some(id),
{
    assert(key_of(id@).octets =~= id.octets);
}

} // verus!
