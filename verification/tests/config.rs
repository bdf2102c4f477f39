use rustp2p_transport::config::string_to_group_code;
use rustp2p_transport::config::ConfigError;
use rustp2p_transport::config::TransportBuilder;
use rustp2p_transport::resolver::DestinationKey;
use rustp2p_transport::rustp2p::config::LoadBalance;
use rustp2p_transport::rustp2p::pipe::PeerNodeAddress;

#[test]
fn short_text_is_filled_up_with_zero_bytes() {
    assert_eq!(
        string_to_group_code("abc"),
        [97, 98, 99, 0, 0, 0, 0, 0, 0, 0, 0, 0, 0, 0, 0, 0]
    );
}

#[test]
fn empty_text_is_the_zero_code() {
    assert_eq!(string_to_group_code(""), [0_u8; 16]);
}

#[test]
fn text_of_16_bytes_is_taken_whole() {
    assert_eq!(string_to_group_code("0123456789abcdef"), *b"0123456789abcdef");
}

#[test]
fn long_text_is_cut_after_16_bytes() {
    assert_eq!(string_to_group_code("0123456789abcdefXYZ"), *b"0123456789abcdef");
}

#[test]
fn text_is_taken_by_its_utf8_bytes() {
    assert_eq!(
        string_to_group_code("é!"),
        [0xc3, 0xa9, 0x21, 0, 0, 0, 0, 0, 0, 0, 0, 0, 0, 0, 0, 0]
    );
    // The cut may fall inside a character.
    let code = string_to_group_code("aaaaaaaaaaaaaaaé");
    assert_eq!(&code[..15], b"aaaaaaaaaaaaaaa");
    assert_eq!(code[15], 0xc3);
}

#[test]
fn builder_without_an_endpoint_yields_an_error() {
    let result = TransportBuilder::default().listen_port(23333).config();
    assert_eq!(result, Err(ConfigError::MissingEndpoint));
    assert_eq!(ConfigError::MissingEndpoint.message(), "IP must be set");
}

#[test]
fn default_builder_has_nothing_set() {
    let builder = TransportBuilder::default();
    assert!(builder.group_code.is_none());
    assert!(builder.endpoint.is_none());
    assert!(builder.load_balance.is_none());
    assert!(builder.listen_port.is_none());
    assert!(builder.peers.is_none());
}

#[test]
fn builder_with_only_an_endpoint_yields_the_defaults() {
    let id = DestinationKey { octets: [10, 26, 0, 2] };
    let settings = TransportBuilder::default().endpoint(id).config().unwrap();
    assert_eq!(settings.node_id, id);
    assert_eq!(settings.load_balance, LoadBalance::RoundRobin);
    assert_eq!(settings.udp_port, None);
    assert_eq!(settings.tcp_port, None);
    assert_eq!(settings.peers, None);
    assert_eq!(settings.group_code, None);
}

#[test]
fn builder_with_every_option_yields_them_all() {
    let id = DestinationKey { octets: [10, 26, 0, 3] };
    let peers = vec![
        PeerNodeAddress::TcpDomain("node.example:23333".to_string()),
        PeerNodeAddress::UdpDomain("other.example:23334".to_string()),
    ];
    let settings = TransportBuilder::default()
        .endpoint(id)
        .listen_port(23334)
        .peers(peers.clone())
        .group_code("home".to_string())
        .load_balance(LoadBalance::LowestLatency)
        .config()
        .unwrap();
    assert_eq!(settings.node_id, id);
    assert_eq!(settings.load_balance, LoadBalance::LowestLatency);
    assert_eq!(settings.udp_port, Some(23334));
    assert_eq!(settings.tcp_port, Some(23334));
    assert_eq!(settings.peers, Some(peers));
    assert_eq!(
        settings.group_code,
        Some([104, 111, 109, 101, 0, 0, 0, 0, 0, 0, 0, 0, 0, 0, 0, 0])
    );
}

#[test]
fn later_option_replaces_the_earlier() {
    let settings = TransportBuilder::default()
        .endpoint(DestinationKey { octets: [1, 1, 1, 1] })
        .endpoint(DestinationKey { octets: [2, 2, 2, 2] })
        .listen_port(1)
        .listen_port(2)
        .config()
        .unwrap();
    assert_eq!(settings.node_id, DestinationKey { octets: [2, 2, 2, 2] });
    assert_eq!(settings.udp_port, Some(2));
    assert_eq!(settings.tcp_port, Some(2));
}
