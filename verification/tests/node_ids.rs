use s5_rust::p2p::P2PService;

#[test]
fn encode_node_id_is_z_then_base58() {
    // "Hello World!" is a standard base58 test vector.
    let text = P2PService::encode_node_id(b"Hello World!".to_vec());
    assert_eq!(text, "z2NEpo7TZRRrLZSi2U");
}

#[test]
fn encode_node_id_keeps_leading_zero_bytes() {
    assert_eq!(P2PService::encode_node_id(vec![0, 0, 1]), "z112");
    assert_eq!(P2PService::encode_node_id(vec![]), "z");
}

#[test]
fn decode_node_id_reads_after_first_character() {
    assert_eq!(P2PService::decode_node_id("z2NEpo7TZRRrLZSi2U".to_string()), b"Hello World!".to_vec());
    // the first character is dropped whatever it is
    assert_eq!(P2PService::decode_node_id("u2NEpo7TZRRrLZSi2U".to_string()), b"Hello World!".to_vec());
}

#[test]
fn node_id_round_trip() {
    let bytes: Vec<u8> = (0u8..33).map(|i| i.wrapping_mul(37)).collect();
    let text = P2PService::encode_node_id(bytes.clone());
    assert!(P2PService::node_id_is_decodable(&text));
    assert_eq!(P2PService::decode_node_id(text), bytes);
}

#[test]
fn undecodable_node_ids_are_refused() {
    assert_eq!(P2PService::try_decode_node_id(String::new()), None);
    assert_eq!(P2PService::try_decode_node_id("z0OIl".to_string()), None);
    assert_eq!(P2PService::try_decode_node_id("é2NEpo".to_string()), None);
    assert_eq!(P2PService::try_decode_node_id("z112".to_string()), Some(vec![0, 0, 1]));
}

#[test]
fn encode_node_id_uses_the_bitcoin_alphabet() {
    let alphabet = "123456789ABCDEFGHJKLMNPQRSTUVWXYZabcdefghijkmnopqrstuvwxyz";
    let bytes: Vec<u8> = (0u8..=255).collect();
    let text = P2PService::encode_node_id(bytes);
    assert!(text.starts_with('z'));
    assert!(text[1..].chars().all(|c| alphabet.contains(c)));
}

#[test]
fn encode_node_id_gives_one_leading_one_per_zero_byte() {
    let text = P2PService::encode_node_id(vec![0, 0, 0, 5, 0]);
    assert!(text.starts_with("z111"));
    assert!(!text.starts_with("z1111"));
}

#[test]
fn node_id_text_re_encodes_to_itself() {
    for text in ["z1112NEpo7TZRRrLZSi2U", "z", "z11", "zzzz", "z2NEpo7TZRRrLZSi2U"] {
        let bytes = P2PService::decode_node_id(text.to_string());
        assert_eq!(P2PService::encode_node_id(bytes), text);
    }
}
