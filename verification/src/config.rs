//! Configuration of a transport: the builder and the settings it yields.
use crate::resolver::DestinationKey;
use rustp2p::config::LoadBalance;
use rustp2p::pipe::PeerNodeAddress;
use vstd::prelude::*;

verus! {

/// Length of a group code.
pub const GROUP_CODE_LEN: usize = 16;

/// `rustp2p::config::LoadBalance`, the ways of picking a route. The enum has
/// no fields; its variants are read from the crate, so that the default can be
/// named.
#[verifier::external_type_specification]
pub struct ExLoadBalance(rustp2p::config::LoadBalance);

/// `rustp2p::pipe::PeerNodeAddress`, the address of a peer. It is carried
/// through and nothing is known of what it holds.
#[verifier::external_type_specification]
#[verifier::external_body]
pub struct ExPeerNodeAddress(rustp2p::pipe::PeerNodeAddress);

/// Why a builder yields no settings.
#[derive(Clone, Copy, Debug, PartialEq, Eq)]
pub enum ConfigError {
    /// The node's IP address, which is its identity, was not set.
    MissingEndpoint,
}

impl ConfigError {
    /// The error in words.
    pub fn message(&self) -> (text: &'static str)
        ensures
            text@ == "IP must be set"@,
    {
        match self {
            ConfigError::MissingEndpoint => "IP must be set",
        }
    }
}

/// The group code that a text stands for: its first 16 bytes, filled up with
/// zero bytes where it has fewer.
pub open spec fn group_code_bytes(text: Seq<u8>) -> Seq<u8> {
    Seq::new(
        GROUP_CODE_LEN as nat,
        |i: int|
            if i < text.len() {
                text[i]
            } else {
                0u8
            },
    )
}

/// Turns a text into a group code: the first 16 bytes of its UTF-8 encoding,
/// filled up with zero bytes.
pub fn string_to_group_code(input: &str) -> (code: [u8; 16])
    ensures
        code@ == group_code_bytes(vstd::utf8::encode_utf8(input@)),
{
    let bytes = input.as_bytes();
    let mut code: [u8; 16] = [0u8; 16];
    let mut index: usize = 0;
    while index < GROUP_CODE_LEN && index < bytes.len()
        invariant
            index <= GROUP_CODE_LEN,
            index <= bytes@.len(),
            forall|i: int| 0 <= i < index ==> code@[i] == bytes@[i],
            forall|i: int| index <= i < GROUP_CODE_LEN ==> code@[i] == 0,
        decreases GROUP_CODE_LEN - index,
    {
        code[index] = bytes[index];
        index = index + 1;
    }
    code
}

/// What a transport is built from.
#[derive(Debug, PartialEq)]
pub struct TransportSettings {
    /// The identity of the node.
    pub node_id: DestinationKey,
    /// How a route to a peer is picked among several.
    pub load_balance: LoadBalance,
    /// The UDP port to listen on, where one was set.
    pub udp_port: Option<u16>,
    /// The TCP port to listen on, where one was set.
    pub tcp_port: Option<u16>,
    /// The peers to connect to directly, where any were set.
    pub peers: Option<Vec<PeerNodeAddress>>,
    /// The code of the group that the node belongs to, where one was set.
    pub group_code: Option<[u8; 16]>,
}

/// Collects the options of a transport.
#[derive(Clone, Debug)]
pub struct TransportBuilder {
    /// The text that the group code is made from.
    pub group_code: Option<String>,
    /// The IP address of the node, which is its identity.
    pub endpoint: Option<DestinationKey>,
    /// How a route to a peer is picked among several.
    pub load_balance: Option<LoadBalance>,
    /// The port to listen on.
    pub listen_port: Option<u16>,
    /// The peers to connect to directly.
    pub peers: Option<Vec<PeerNodeAddress>>,
}

impl Default for TransportBuilder {
    /// A builder with no option set.
    fn default() -> (builder: TransportBuilder)
        ensures
            builder.group_code is None,
            builder.endpoint is None,
            builder.load_balance is None,
            builder.listen_port is None,
            builder.peers is None,
    {
        TransportBuilder {
            group_code: None,
            endpoint: None,
            load_balance: None,
            listen_port: None,
            peers: None,
        }
    }
}

impl TransportBuilder {
    /// Whether `settings` are what this builder yields.
    pub open spec fn yields(self, settings: TransportSettings) -> bool {
        &&& self.endpoint == Some(settings.node_id)
        &&& settings.load_balance == match self.load_balance {
            Some(choice) => choice,
            None => LoadBalance::RoundRobin,
        }
        &&& settings.udp_port == self.listen_port
        &&& settings.tcp_port == self.listen_port
        &&& settings.peers == self.peers
        &&& match self.group_code {
            Some(text) => settings.group_code matches Some(code) && code@ == group_code_bytes(
                vstd::utf8::encode_utf8(text@),
            ),
            None => settings.group_code is None,
        }
    }

    /// Sets the code of the group, which keeps networks apart.
    pub fn group_code(self, group_code: String) -> (builder: TransportBuilder)
        ensures
            builder == (TransportBuilder { group_code: Some(group_code), ..self }),
    {
        TransportBuilder { group_code: Some(group_code), ..self }
    }

    /// Sets the IP address of the node, which is its identity. It must be set.
    pub fn endpoint(self, endpoint: DestinationKey) -> (builder: TransportBuilder)
        ensures
            builder == (TransportBuilder { endpoint: Some(endpoint), ..self }),
    {
        TransportBuilder { endpoint: Some(endpoint), ..self }
    }

    /// Sets the port on which the node listens, for UDP and for TCP.
    pub fn listen_port(self, listen_port: u16) -> (builder: TransportBuilder)
        ensures
            builder == (TransportBuilder { listen_port: Some(listen_port), ..self }),
    {
        TransportBuilder { listen_port: Some(listen_port), ..self }
    }

    /// Sets the peers to connect to directly.
    pub fn peers(self, peers: Vec<PeerNodeAddress>) -> (builder: TransportBuilder)
        ensures
            builder == (TransportBuilder { peers: Some(peers), ..self }),
    {
        TransportBuilder { peers: Some(peers), ..self }
    }

    /// Sets how a route to a peer is picked among several.
    pub fn load_balance(self, load_balance: LoadBalance) -> (builder: TransportBuilder)
        ensures
            builder == (TransportBuilder { load_balance: Some(load_balance), ..self }),
    {
        TransportBuilder { load_balance: Some(load_balance), ..self }
    }

    /// The settings that the options amount to.
    ///
    /// The node's address must have been set. The listen port, where set,
    /// holds for UDP and TCP alike; routes are picked round-robin unless
    /// another way was set.
    pub fn config(self) -> (settings: Result<TransportSettings, ConfigError>)
        ensures
            match settings {
                Ok(s) => self.yields(s),
                Err(e) => e == ConfigError::MissingEndpoint && self.endpoint is None,
            },
    {
        let node_id = match self.endpoint {
            Some(id) => id,
            None => {
                return Err(ConfigError::MissingEndpoint);
            },
        };
        let load_balance = match self.load_balance {
            Some(choice) => choice,
            None => LoadBalance::RoundRobin,
        };
        let group_code = match &self.group_code {
            Some(text) => Some(string_to_group_code(text.as_str())),
            None => None,
        };
        Ok(
            TransportSettings {
                node_id,
                load_balance,
                udp_port: self.listen_port,
                tcp_port: self.listen_port,
                peers: self.peers,
                group_code,
            },
        )
    }
}

} // verus!
