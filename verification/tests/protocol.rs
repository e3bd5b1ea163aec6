use ed25519_dalek::{Keypair, PublicKey, SecretKey, Signer};
use s5_rust::msgpack::read_bytes_field;
use s5_rust::p2p::{P2PService, VerifyError};
use s5_rust::store::Database;
use s5_rust::uri::PeerUri;
use s5_rust::{Cache, Config, DataBase, Delete, Http, KeyPair, Peer, Peers, Store, API, P2P};

fn service() -> P2PService {
    let config = Config {
        name: "node".to_string(),
        keypair: KeyPair { seed: "seed".to_string() },
        database: DataBase { path: "db".to_string() },
        cache: Cache { path: "cache".to_string() },
        http: Http { api: API { port: 5522, delete: Delete { enabled: false } } },
        p2p: P2P { peers: Peers { initial: vec![] }, self_id: None },
        store: Store { expose: false, s3: None, local: None, arweave: None },
    };
    let sled = Database::new(sled::Config::new().temporary(true).open().unwrap());
    P2PService { config, sled, peers: state::Storage::new() }
}

fn peer_at(uri: &str) -> Peer {
    let mut peer = Peer::default();
    peer.connection_uris = vec![PeerUri {
        serialization: uri.to_string(),
        scheme: "tcp".to_string(),
        username: "zabc".to_string(),
        host: Some("127.0.0.1".to_string()),
        port: Some(4444),
    }];
    peer
}

fn bin(data: &[u8]) -> Vec<u8> {
    let mut v = vec![0xc4, data.len() as u8];
    v.extend_from_slice(data);
    v
}

fn signer() -> Keypair {
    let secret = SecretKey::from_bytes(&[7u8; 32]).unwrap();
    let public: PublicKey = (&secret).into();
    Keypair { secret, public }
}

fn signed_message(kp: &Keypair, inner: &[u8]) -> (Vec<u8>, Vec<u8>) {
    let mut node_id = vec![0xed];
    node_id.extend_from_slice(kp.public.as_bytes());
    let sig = kp.sign(inner).to_bytes();
    let mut body = bin(&node_id);
    body.extend(bin(&sig));
    body.extend(bin(inner));
    (body, node_id)
}

#[test]
fn handshake_open_packs_method_and_challenge() {
    assert_eq!(P2PService::pack_handshake_open(&[1, 2, 3]), vec![0xcc, 1, 0xc4, 3, 1, 2, 3]);
    let long = vec![5u8; 300];
    let packed = P2PService::pack_handshake_open(&long);
    assert_eq!(&packed[..5], &[0xcc, 1, 0xc5, 0x01, 0x2c]);
    assert_eq!(packed.len(), 5 + 300);
}

#[test]
fn handshake_open_is_answered_with_the_challenge() {
    let p2p = service();
    let uri = "tcp://zabc@127.0.0.1:4444";
    let mut data = P2PService::pack_handshake_open(&[1, 2, 3]);
    data.resize(1024, 0); // the buffer a peer reads into
    let (answer, changed) = p2p.handle_stream_data(data, peer_at(uri));
    assert!(changed.is_none());
    let text = uri.to_string();
    let mut expected = vec![0xcc, 2, 0xc4, 3, 1, 2, 3, 0xcc, 1, 0xa0 + text.len() as u8];
    expected.extend_from_slice(text.as_bytes());
    assert_eq!(answer, expected);
    // the opener reads its challenge back
    assert_eq!(&answer[..2], &[0xcc, 2]);
    assert_eq!(read_bytes_field(&answer[2..]), Some((vec![1, 2, 3], 5)));
    // and the URI, after the count of URIs
    assert_eq!(&answer[7..9], &[0xcc, 1]);
    assert_eq!(read_bytes_field(&answer[9..]), Some((text.as_bytes().to_vec(), 1 + text.len())));
}

#[test]
fn handshake_answer_carries_the_connection_uri_itself() {
    let p2p = service();
    let data = vec![0x01, 0xc4, 0x02, 0xab, 0xcd];
    let (answer, changed) = p2p.handle_stream_data(data, peer_at("tcp://z56@h:1"));
    assert!(changed.is_none());
    let mut expected = vec![0xcc, 0x02, 0xc4, 0x02, 0xab, 0xcd, 0xcc, 0x01, 0xad];
    expected.extend_from_slice(b"tcp://z56@h:1");
    assert_eq!(answer, expected);
}

#[test]
fn stream_method_reads_the_leading_integer() {
    assert_eq!(P2PService::stream_method(&[0x01, 0xc4, 0x00]), Some(1));
    assert_eq!(P2PService::stream_method(&[0xcd, 0x00, 0x04]), Some(4));
    assert_eq!(P2PService::stream_method(&[0xc4, 0x00]), None);
    assert_eq!(P2PService::stream_method(&[]), None);
}

#[test]
fn method_number_may_use_any_integer_encoding() {
    let p2p = service();
    let mut data = vec![0xcd, 0x00, 0x01]; // 1 as a uint 16
    data.extend(bin(&[9]));
    let (answer, _) = p2p.handle_stream_data(data, peer_at("tcp://zabc@h:1"));
    assert_eq!(&answer[..5], &[0xcc, 2, 0xc4, 1, 9]);
}

#[test]
fn a_str_challenge_is_echoed_as_bytes() {
    let p2p = service();
    let data = vec![0x01, 0xa2, b'h', b'i'];
    let (answer, _) = p2p.handle_stream_data(data, peer_at("tcp://zabc@h:1"));
    assert_eq!(&answer[..6], &[0xcc, 2, 0xc4, 2, b'h', b'i']);
}

#[test]
fn other_methods_get_no_answer() {
    let p2p = service();
    for method in [4u8, 5, 7, 12, 13, 99] {
        let (answer, peer) = p2p.handle_stream_data(vec![method, 0, 0], Peer::default());
        assert!(answer.is_empty());
        assert!(peer.is_none());
    }
}

#[test]
fn data_that_cannot_be_handled_is_refused() {
    let p2p = service();
    // no method number
    assert!(p2p.try_handle_stream_data(vec![0xc1], Peer::default()).is_none());
    assert!(p2p.try_handle_stream_data(vec![], Peer::default()).is_none());
    // a negative method number
    assert!(p2p.try_handle_stream_data(vec![0xff], Peer::default()).is_none());
    // a method number out of the range of a byte
    assert!(p2p.try_handle_stream_data(vec![0xcd, 0x01, 0x00], Peer::default()).is_none());
    // a handshake opening without a challenge
    assert!(p2p.try_handle_stream_data(vec![0x01, 0x01], peer_at("tcp://zabc@h:1")).is_none());
    // a handshake opening from a peer without a URI
    let data = P2PService::pack_handshake_open(&[1]);
    assert!(!p2p.stream_data_is_acceptable(&data, &Peer::default()));
    assert!(p2p.try_handle_stream_data(data, Peer::default()).is_none());
}

#[test]
fn signed_message_is_checked_and_unpacked() {
    let p2p = service();
    let kp = signer();
    let inner = [0xcc, 2, 0xc4, 3, 9, 9, 9];
    let (body, node_id) = signed_message(&kp, &inner);
    let unpacked = p2p.unpack_and_verify_signature(&body).unwrap();
    assert_eq!(unpacked.message, inner.to_vec());
    assert_eq!(unpacked.node_id, format!("z{}", bs58::encode(&node_id).into_string()));
    let mut data = vec![10];
    data.extend(body);
    let (answer, peer) = p2p.handle_stream_data(data, Peer::default());
    assert!(answer.is_empty());
    assert!(peer.is_none());
}

#[test]
fn tampered_signed_message_is_refused() {
    let p2p = service();
    let kp = signer();
    let inner = [0xcc, 4];
    let (mut body, _) = signed_message(&kp, &inner);
    let last = body.len() - 1;
    body[last] ^= 1; // change the message
    assert_eq!(p2p.unpack_and_verify_signature(&body).unwrap_err(), VerifyError::BadSignature);
    let mut data = vec![10];
    data.extend(body);
    assert!(p2p.try_handle_stream_data(data, Peer::default()).is_none());
}

#[test]
fn signed_message_with_invalid_key_is_refused() {
    let p2p = service();
    let bad_key = (0u8..=255)
        .map(|i| [i; 32])
        .find(|k| PublicKey::from_bytes(k).is_err())
        .unwrap();
    let mut node_id = vec![0xed];
    node_id.extend_from_slice(&bad_key);
    let mut body = bin(&node_id);
    body.extend(bin(&[0u8; 64]));
    body.extend(bin(&[1]));
    assert_eq!(p2p.unpack_and_verify_signature(&body).unwrap_err(), VerifyError::InvalidPublicKey);
}

#[test]
fn malformed_signature_cannot_be_unpacked() {
    let p2p = service();
    let kp = signer();
    let mut node_id = vec![0xed];
    node_id.extend_from_slice(kp.public.as_bytes());
    let mut body = bin(&node_id);
    body.extend(bin(&[0xffu8; 64])); // top bits of the last byte set
    body.extend(bin(&[1]));
    assert!(!P2PService::signed_message_is_acceptable(&body));
    assert!(p2p.try_unpack_and_verify_signature(&body).is_none());
    // a signature of the wrong length
    let mut body = bin(&node_id);
    body.extend(bin(&[0u8; 10]));
    body.extend(bin(&[1]));
    assert!(!P2PService::signed_message_is_acceptable(&body));
    // an empty node identifier
    let mut body = bin(&[]);
    body.extend(bin(&[0u8; 64]));
    body.extend(bin(&[1]));
    assert!(!P2PService::signed_message_is_acceptable(&body));
}
