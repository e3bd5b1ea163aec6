use s5_rust::constants::{
    METHOD_HANDSHAKE_DONE, METHOD_HANDSHAKE_OPEN, METHOD_SIGNED_MESSAGE, MKEY_ED25519,
};
use s5_rust::p2p::P2PService;
use s5_rust::uri::PeerUri;
use s5_rust::{Cache, Config, Constants, DataBase, Delete, Http, KeyPair, Node, Peer, Peers, Store, API, P2P};

fn sample_config() -> Config {
    Config {
        name: "node".to_string(),
        keypair: KeyPair { seed: "seed".to_string() },
        database: DataBase { path: "db".to_string() },
        cache: Cache { path: "cache".to_string() },
        http: Http { api: API { port: 5522, delete: Delete { enabled: false } } },
        p2p: P2P { peers: Peers { initial: vec!["tcp://zabc@127.0.0.1:4444".to_string()] }, self_id: None },
        store: Store { expose: false, s3: None, local: None, arweave: None },
    }
}

#[test]
fn constants_have_protocol_values() {
    let c = Constants::get_constants();
    assert_eq!(c.nodeversion, "0.3.0");
    assert_eq!(c.default_chunk, 1048576);
    assert_eq!(c.cid_type_raw, 0x26);
    assert_eq!(c.cid_type_metadata_file, 0x2d);
    assert_eq!(c.cid_type_metadata_dir, 0x59);
    assert_eq!(c.cid_type_resolver, 0x25);
    assert_eq!(c.registry_s5_magic_byte, 0x5a);
    assert_eq!(c.metadata_magic_byte, 0x5f);
    assert_eq!(c.metadata_type_file, 1);
    assert_eq!(c.metadata_type_chunked_file, 2);
    assert_eq!(c.metadata_type_directory, 3);
    assert_eq!(c.registry_max_data_size, 48);
    assert_eq!(c.mhash_blake3, [0x1e, 0x20]);
    assert_eq!(c.mkey_ed25519, 0xed);
    assert_eq!(c.protocol_method_handshake_open, 1);
    assert_eq!(c.protocol_method_handshake_done, 2);
    assert_eq!(c.protocol_methods_signed_message, 10);
    assert_eq!(c.protocol_method_hash_query_response, 5);
    assert_eq!(c.protocol_method_hash_query, 4);
    assert_eq!(c.protocol_method_annouce_peers, 7);
    assert_eq!(c.protocol_method_registry_update, 12);
    assert_eq!(c.protocol_method_registry_query, 13);
}

#[test]
fn method_numbers_match_constants() {
    let c = Constants::get_constants();
    assert_eq!(c.protocol_method_handshake_open, METHOD_HANDSHAKE_OPEN as i32);
    assert_eq!(c.protocol_method_handshake_done, METHOD_HANDSHAKE_DONE as i32);
    assert_eq!(c.protocol_methods_signed_message, METHOD_SIGNED_MESSAGE as i32);
    assert_eq!(c.mkey_ed25519, MKEY_ED25519);
}

#[test]
fn default_peer_knows_nothing() {
    let p = Peer::default();
    assert!(p.id.is_none());
    assert!(p.bin_id.is_none());
    assert!(p.connection_uris.is_empty());
    assert!(!p.is_connected);
    assert!(p.connected_peers.is_none());
    assert!(p.challenge.is_none());
}

#[test]
fn node_holds_its_configuration() {
    let node = Node { config: sample_config() };
    assert_eq!(node.config.name, "node");
    assert_eq!(node.config.p2p.peers.initial.len(), 1);
    assert_eq!(node.config.http.api.port, 5522);
}

#[test]
fn peer_connection_address_and_identity() {
    let id = P2PService::encode_node_id(vec![0xed, 1, 2, 3]);
    let uri = PeerUri {
        serialization: format!("tcp://{}@127.0.0.1:4444", id),
        scheme: "tcp".to_string(),
        username: id.clone(),
        host: Some("127.0.0.1".to_string()),
        port: Some(4444),
    };
    let mut peer = Peer::default();
    peer.connection_uris = vec![uri];
    let (addr, peer) = P2PService::prepare_peer_connection(peer);
    assert_eq!(addr, "127.0.0.1:4444");
    assert_eq!(peer.id, Some(id));
    assert_eq!(peer.bin_id, Some(vec![0xed, 1, 2, 3]));
}

#[test]
fn peer_without_port_or_valid_id_is_not_connectable() {
    let uri = PeerUri {
        serialization: "tcp://zabc@127.0.0.1".to_string(),
        scheme: "tcp".to_string(),
        username: "zabc".to_string(),
        host: Some("127.0.0.1".to_string()),
        port: None,
    };
    let mut peer = Peer::default();
    peer.connection_uris = vec![uri.clone()];
    assert!(P2PService::try_prepare_peer_connection(peer).is_none());
    let mut bad_id = uri;
    bad_id.port = Some(1);
    bad_id.username = "z0OIl".to_string();
    let mut peer = Peer::default();
    peer.connection_uris = vec![bad_id];
    assert!(!P2PService::peer_is_connectable(&peer));
    assert!(P2PService::try_prepare_peer_connection(Peer::default()).is_none());
}
