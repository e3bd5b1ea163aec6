use sha2::Digest;
use s5_rust::p2p::{ConnectDecision, LocalIdCheck, P2PService};
use s5_rust::store::Database;
use s5_rust::uri::PeerUri;
use s5_rust::seed::{insert_generated_seed, needs_generated_seed};
use s5_rust::{Cache, Config, DataBase, Delete, Http, KeyPair, Peers, SledWrappings, Store, API, P2P};

fn service(seed: &str) -> P2PService {
    let config = Config {
        name: "node".to_string(),
        keypair: KeyPair { seed: seed.to_string() },
        database: DataBase { path: "db".to_string() },
        cache: Cache { path: "cache".to_string() },
        http: Http { api: API { port: 5522, delete: Delete { enabled: false } } },
        p2p: P2P { peers: Peers { initial: vec![] }, self_id: None },
        store: Store { expose: false, s3: None, local: None, arweave: None },
    };
    let sled = Database::new(sled::Config::new().temporary(true).open().unwrap());
    P2PService { config, sled, peers: state::Storage::new() }
}

fn usable_seed() -> String {
    (0..100).map(|i| format!("seed{}", i)).find(|s| P2PService::seed_is_usable(s)).unwrap()
}

fn unusable_seed() -> String {
    (0..100).map(|i| format!("seed{}", i)).find(|s| !P2PService::seed_is_usable(s)).unwrap()
}

#[test]
fn keypair_is_the_seed_digest() {
    let seed = usable_seed();
    let p2p = service(&seed);
    let digest = sha2::Sha512::digest(seed.as_bytes());
    let kp = P2PService::get_keypair(&p2p);
    assert_eq!(kp.secret, digest[..32].to_vec());
    assert_eq!(kp.public, digest[32..].to_vec());
    assert!(ed25519_dalek::PublicKey::from_bytes(&digest[32..]).is_ok());
}

#[test]
fn unusable_seed_gives_no_keypair() {
    let seed = unusable_seed();
    let mut p2p = service(&seed);
    assert!(P2PService::try_get_keypair(&p2p).is_none());
    assert!(p2p.try_init().is_none());
    assert!(p2p.sled.get(b"local_node_id").unwrap().is_none());
}

#[test]
fn init_stores_the_node_id() {
    let seed = usable_seed();
    let mut p2p = service(&seed);
    let digest = sha2::Sha512::digest(seed.as_bytes());
    let mut expected = vec![0xed];
    expected.extend_from_slice(&digest[32..]);
    let (text, stored) = p2p.init();
    assert!(stored);
    assert_eq!(text, format!("z{}", bs58::encode(&expected).into_string()));
    assert_eq!(p2p.sled.get(b"local_node_id").unwrap().unwrap(), expected);
    assert_eq!(P2PService::decode_node_id(text), expected);
}

#[test]
fn connect_refuses_bad_uris_and_itself() {
    let seed = usable_seed();
    let mut p2p = service(&seed);
    let (local, _) = p2p.init();
    assert!(matches!(p2p.connect_to_node(vec!["not a uri".to_string()]), ConnectDecision::InvalidUri));
    match p2p.connect_to_node(vec!["http://zabc@127.0.0.1:1".to_string()]) {
        ConnectDecision::UnsupportedProtocol(p) => assert_eq!(p, "http"),
        _ => panic!("expected an unsupported protocol"),
    }
    let own = format!("tcp://{}@127.0.0.1:4444", local);
    assert!(matches!(p2p.connect_to_node(vec![own]), ConnectDecision::IsSelf));
}

#[test]
fn connect_resets_an_unset_reconnect_delay() {
    let seed = usable_seed();
    let mut p2p = service(&seed);
    p2p.init();
    let uri = "tcp://zOther@127.0.0.1:4444".to_string();
    // without a stored delay a connection cannot be attempted
    assert!(p2p.try_connect_to_node(vec![uri.clone()]).is_none());
    assert!(SledWrappings::set_i32("zOther-rcd".to_string(), -1, &mut p2p.sled));
    match p2p.connect_to_node(vec![uri.clone()]) {
        ConnectDecision::Connect(peer, delay, reset) => {
            assert_eq!(peer.id, Some("zOther".to_string()));
            assert!(peer.bin_id.is_none());
            assert_eq!(peer.connection_uris.len(), 1);
            assert_eq!(peer.connection_uris[0].serialization, uri);
            assert_eq!(peer.connection_uris[0].host, Some("127.0.0.1".to_string()));
            assert_eq!(peer.connection_uris[0].port, Some(4444));
            assert_eq!(delay, -1);
            assert_eq!(reset, Some(("zOther-rcd".to_string(), true)));
        },
        _ => panic!("expected a connection"),
    }
    assert_eq!(SledWrappings::get_i32("zOther-rcd".to_string(), &p2p.sled), 1);
    match p2p.try_connect_to_node(vec![uri]) {
        Some(ConnectDecision::Connect(_, delay, reset)) => {
            assert_eq!(delay, 1);
            assert_eq!(reset, None);
        }
        _ => panic!("expected a connection"),
    }
}

#[test]
fn connect_without_local_id_cannot_be_attempted() {
    let mut p2p = service("seed");
    assert!(p2p.try_connect_to_node(vec!["tcp://zOther@127.0.0.1:4444".to_string()]).is_none());
    assert!(p2p.try_connect_to_node(vec![]).is_none());
    // a URI that is not tcp needs nothing from the database
    assert!(matches!(
        p2p.try_connect_to_node(vec!["udp://zOther@127.0.0.1:4444".to_string()]),
        Some(ConnectDecision::UnsupportedProtocol(_))
    ));
}

#[test]
fn seed_placeholder_is_replaced() {
    let config = "[keypair]\nseed = \"AUTOMATICALLY_GENERATED_ON_FIRST_START\"\n";
    assert!(needs_generated_seed(config));
    let filled = insert_generated_seed(config, &[0, 1, 2]);
    assert_eq!(filled, "[keypair]\nseed = \"15T\"\n");
    assert!(!needs_generated_seed(&filled));
    assert!(!needs_generated_seed("[keypair]\nseed = \"abc\"\n"));
    assert_eq!(insert_generated_seed("no seed here", &[1]), "no seed here");
}

#[test]
fn connect_keeps_a_set_delay_and_uses_the_first_uri() {
    let seed = usable_seed();
    let mut p2p = service(&seed);
    p2p.init();
    let uri = "tcp://zPeer@10.0.0.1:9".to_string();
    assert!(SledWrappings::set_i32("zPeer-rcd".to_string(), 5, &mut p2p.sled));
    match p2p.connect_to_node(vec![uri.clone(), "tcp://zIgnored@10.0.0.2:9".to_string()]) {
        ConnectDecision::Connect(peer, delay, reset) => {
            assert_eq!(peer.id, Some("zPeer".to_string()));
            assert_eq!(peer.connection_uris.len(), 1);
            assert_eq!(peer.connection_uris[0].serialization, uri);
            assert_eq!(delay, 5);
            assert_eq!(reset, None);
        },
        _ => panic!("expected a connection"),
    }
    assert_eq!(SledWrappings::get_i32("zPeer-rcd".to_string(), &p2p.sled), 5);
}

#[test]
fn check_local_id_tells_own_other_and_unreadable() {
    let seed = usable_seed();
    let mut p2p = service(&seed);
    let (local, _) = p2p.init();
    let stored = p2p.sled.get(b"local_node_id");
    assert!(matches!(P2PService::check_local_id(&local, stored), LocalIdCheck::Own));
    let stored = p2p.sled.get(b"local_node_id");
    assert!(matches!(P2PService::check_local_id(&"zOther".to_string(), stored), LocalIdCheck::Other));
    let err = sled::Error::Unsupported("no disk".to_string());
    assert!(matches!(P2PService::check_local_id(&local, Err(err)), LocalIdCheck::Unreadable));
}

fn peer_uri(name: &str) -> PeerUri {
    PeerUri {
        serialization: format!("tcp://{}@10.0.0.3:7", name),
        scheme: "tcp".to_string(),
        username: name.to_string(),
        host: Some("10.0.0.3".to_string()),
        port: Some(7),
    }
}

#[test]
fn finish_connection_resets_only_a_delay_read_as_minus_one() {
    let mut p2p = service("seed");
    match p2p.finish_connection(peer_uri("zA"), -1) {
        ConnectDecision::Connect(peer, delay, reset) => {
            assert_eq!(peer.id, Some("zA".to_string()));
            assert_eq!(delay, -1);
            assert_eq!(reset, Some(("zA-rcd".to_string(), true)));
        },
        _ => panic!("expected a connection"),
    }
    assert_eq!(SledWrappings::get_i32("zA-rcd".to_string(), &p2p.sled), 1);
    match p2p.finish_connection(peer_uri("zB"), 7) {
        ConnectDecision::Connect(_, delay, reset) => {
            assert_eq!(delay, 7);
            assert_eq!(reset, None);
        },
        _ => panic!("expected a connection"),
    }
    assert_eq!(SledWrappings::try_get_i32("zB-rcd".to_string(), &p2p.sled), None);
}

#[test]
fn try_connect_with_a_short_delay_cannot_be_attempted() {
    let seed = usable_seed();
    let mut p2p = service(&seed);
    p2p.init();
    assert!(p2p.sled.insert(b"zShort-rcd", &[1, 2]).is_ok());
    assert!(p2p.try_connect_to_node(vec!["tcp://zShort@10.0.0.1:9".to_string()]).is_none());
    assert_eq!(p2p.sled.get(b"zShort-rcd").unwrap(), Some(vec![1, 2]));
}
