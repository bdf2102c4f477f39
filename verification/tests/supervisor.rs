use rustp2p_transport::resolver::resolve_destination;
use rustp2p_transport::resolver::DestinationKey;
use rustp2p_transport::supervisor::node_address_v6;
use rustp2p_transport::supervisor::plan_startup;
use rustp2p_transport::supervisor::StartupError;

#[test]
fn startup_without_a_node_identity_fails_at_once() {
    let plan = plan_startup(None);
    assert_eq!(plan, Err(StartupError::MissingNodeId));
    assert!(plan.is_err());
    assert_eq!(StartupError::MissingNodeId.message(), "Node ID must be set");
}

#[test]
fn startup_with_a_node_identity_plans_the_default_routes() {
    let id = DestinationKey { octets: [10, 26, 0, 2] };
    let plan = plan_startup(Some(id)).unwrap();
    assert_eq!(plan.route_v4, id);
    assert_eq!(
        plan.route_v6,
        [0xfd, 0x12, 0x34, 0x56, 0x78, 0x9a, 0xab, 0xcd, 0xef, 0x12, 0x34, 0x56, 10, 26, 0, 2]
    );
}

#[test]
fn node_address_is_the_prefix_followed_by_the_identity() {
    let address = node_address_v6(DestinationKey { octets: [0, 0, 0, 0] });
    assert_eq!(
        address,
        [0xfd, 0x12, 0x34, 0x56, 0x78, 0x9a, 0xab, 0xcd, 0xef, 0x12, 0x34, 0x56, 0, 0, 0, 0]
    );
    let address = node_address_v6(DestinationKey { octets: [255, 254, 253, 252] });
    assert_eq!(
        address,
        [0xfd, 0x12, 0x34, 0x56, 0x78, 0x9a, 0xab, 0xcd, 0xef, 0x12, 0x34, 0x56, 255, 254, 253, 252]
    );
}

#[test]
fn packet_to_a_node_address_resolves_to_the_node() {
    let id = DestinationKey { octets: [10, 0, 0, 7] };
    let mut packet = vec![0_u8; 48];
    packet[0] = 0x60;
    packet[24..40].copy_from_slice(&node_address_v6(id));
    assert_eq!(resolve_destination(&packet), Some(id));
}
