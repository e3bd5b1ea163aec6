use vstd::prelude::*;

verus! {

/// The numbers of the S5 protocol: node version, CID types, magic bytes and
/// the method numbers of the peer-to-peer messages.
pub struct Constants {
    pub nodeversion: String,
    pub default_chunk: i32,
    // These bytes are chosen so that the base58 and base32 forms of the CID
    // types are easy to tell apart and do not collide with any multicodec.
    pub cid_type_raw: i32,
    pub cid_type_metadata_file: i32,
    pub cid_type_metadata_dir: i32,
    pub cid_type_resolver: i32,
    pub registry_s5_magic_byte: i32,
    pub metadata_magic_byte: i32,
    // types of metadata files
    pub metadata_type_file: i32,
    pub metadata_type_chunked_file: i32,
    pub metadata_type_directory: i32,
    pub registry_max_data_size: i32,
    pub mhash_blake3: [i32; 2],
    pub mkey_ed25519: u8,
    // method numbers of the protocol messages
    pub protocol_method_handshake_open: i32,
    pub protocol_method_handshake_done: i32,
    pub protocol_methods_signed_message: i32,
    pub protocol_method_hash_query_response: i32,
    pub protocol_method_hash_query: i32,
    pub protocol_method_annouce_peers: i32,
    pub protocol_method_registry_update: i32,
    pub protocol_method_registry_query: i32,
}

/// Multihash prefix of an ed25519 public key.
pub const MKEY_ED25519: u8 = 0xed;

/// Method number of the message that opens a handshake.
pub const METHOD_HANDSHAKE_OPEN: u8 = 1;

/// Method number of the message that completes a handshake.
pub const METHOD_HANDSHAKE_DONE: u8 = 2;

/// Method number of a hash query.
pub const METHOD_HASH_QUERY: u8 = 4;

/// Method number of the answer to a hash query.
pub const METHOD_HASH_QUERY_RESPONSE: u8 = 5;

/// Method number of a peer announcement.
pub const METHOD_ANNOUNCE_PEERS: u8 = 7;

/// Method number of a signed message.
pub const METHOD_SIGNED_MESSAGE: u8 = 10;

/// Method number of a registry update.
pub const METHOD_REGISTRY_UPDATE: u8 = 12;

/// Method number of a registry query.
pub const METHOD_REGISTRY_QUERY: u8 = 13;

impl Constants {
    /// The protocol constants of this node version.
    pub fn get_constants() -> (c: Constants)
        ensures
            c.nodeversion@ == "0.3.0"@,
            c.default_chunk == 1024 * 1024,
            c.cid_type_raw == 0x26,
            c.cid_type_metadata_file == 0x2d,
            c.cid_type_metadata_dir == 0x59,
            c.cid_type_resolver == 0x25,
            c.registry_s5_magic_byte == 0x5a,
            c.metadata_magic_byte == 0x5f,
            c.metadata_type_file == 0x01,
            c.metadata_type_chunked_file == 0x02,
            c.metadata_type_directory == 0x03,
            c.registry_max_data_size == 48,
            c.mhash_blake3@ == seq![0x1ei32, 0x20i32],
            c.mkey_ed25519 == MKEY_ED25519,
            c.protocol_method_handshake_open == METHOD_HANDSHAKE_OPEN as i32,
            c.protocol_method_handshake_done == METHOD_HANDSHAKE_DONE as i32,
            c.protocol_methods_signed_message == METHOD_SIGNED_MESSAGE as i32,
            c.protocol_method_hash_query_response == METHOD_HASH_QUERY_RESPONSE as i32,
            c.protocol_method_hash_query == METHOD_HASH_QUERY as i32,
            c.protocol_method_annouce_peers == METHOD_ANNOUNCE_PEERS as i32,
            c.protocol_method_registry_update == METHOD_REGISTRY_UPDATE as i32,
            c.protocol_method_registry_query == METHOD_REGISTRY_QUERY as i32,
    {
        Constants {
            nodeversion: "0.3.0".to_string(),
            default_chunk: 1024 * 1024,
            cid_type_raw: 0x26,
            cid_type_metadata_file: 0x2d,
            cid_type_metadata_dir: 0x59,
            cid_type_resolver: 0x25,
            registry_s5_magic_byte: 0x5a,
            metadata_magic_byte: 0x5f,
            metadata_type_file: 0x01,
            metadata_type_chunked_file: 0x02,
            metadata_type_directory: 0x03,
            registry_max_data_size: 48,
            mhash_blake3: [0x1e, 0x20],
            mkey_ed25519: MKEY_ED25519,
            protocol_method_handshake_open: METHOD_HANDSHAKE_OPEN as i32,
            protocol_method_handshake_done: METHOD_HANDSHAKE_DONE as i32,
            protocol_methods_signed_message: METHOD_SIGNED_MESSAGE as i32,
            protocol_method_hash_query_response: METHOD_HASH_QUERY_RESPONSE as i32,
            protocol_method_hash_query: METHOD_HASH_QUERY as i32,
            protocol_method_annouce_peers: METHOD_ANNOUNCE_PEERS as i32,
            protocol_method_registry_update: METHOD_REGISTRY_UPDATE as i32,
            protocol_method_registry_query: METHOD_REGISTRY_QUERY as i32,
        }
    }
}

} // verus!
