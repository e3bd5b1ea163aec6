//! The peer-to-peer service: node identity, node identifiers, signed
//! messages and the handshake between peers.
use std::collections::HashMap;
use vstd::prelude::*;
use vstd::slice::*;
use vstd::string::*;
use vstd::utf8::*;
use crate::config::Config;
use crate::constants::{
    METHOD_HANDSHAKE_DONE, METHOD_HANDSHAKE_OPEN, METHOD_HASH_QUERY, METHOD_REGISTRY_QUERY,
    METHOD_REGISTRY_UPDATE, METHOD_SIGNED_MESSAGE, MKEY_ED25519,
};
use crate::crypto::{
    ed25519_verify, keypair_from_bytes, public_key_is_valid, sha512, signature_is_well_formed,
    signature_well_formed, spec_ed25519_verify, spec_public_key_valid, spec_sha512, NodeKeypair,
};
use crate::encoding::{
    bs58_decode, bs58_encode, decimal, is_base58_char, leading_ones, leading_zero_bytes,
    bs58_bytes, bs58_text, decimal_value, lemma_bs58_round_trip, lemma_decimal_value, lemma_bs58_text_round_trip, u16_to_string,
};
use crate::msgpack::{
    bytes_field, lemma_read_written_bin, lemma_read_written_u8, msgpack_bin, msgpack_str,
    msgpack_u8, msgpack_uint8, read_bytes_field, read_u8_int, write_bin, write_str, write_u8,
};
use crate::store::{
    bincode_i32, key_bytes, law_get_i32_after_set_i32, stored_i32, Database, SledWrappings,
};
use crate::uri::{parse_url, spec_parse_url, PeerUri, PeerUriView};

verus! {

/// A cell that is set once, from the `state` crate.
#[verifier::external_type_specification]
#[verifier::external_body]
#[verifier::reject_recursive_types(T)]
pub struct ExStorage<T>(state::Storage<T>);

/// The peer-to-peer service of a node: its configuration, its database and
/// the table of its peers. It holds the database's only handle, so it is not
/// cloned; tasks share it.
pub struct P2PService {
    pub config: Config,
    pub sled: Database,
    pub peers: state::Storage<HashMap<String, Peer>>,
}

/// What a node knows of a peer.
#[derive(Debug, Clone)]
pub struct Peer {
    pub id: Option<String>,
    pub bin_id: Option<Vec<u8>>,
    pub connection_uris: Vec<PeerUri>,
    pub is_connected: bool,
    pub connected_peers: Option<Vec<String>>,
    pub challenge: Option<[u8; 32]>,
}

impl Default for Peer {
    /// A peer of which nothing is known yet.
    fn default() -> (p: Peer)
        ensures
            p.id is None,
            p.bin_id is None,
            p.connection_uris@.len() == 0,
            !p.is_connected,
            p.connected_peers is None,
            p.challenge is None,
    {
        Peer {
            id: None,
            bin_id: None,
            connection_uris: Vec::new(),
            is_connected: false,
            connected_peers: None,
            challenge: None,
        }
    }
}

/// A message whose signature has been checked, with the identifier of the
/// node that signed it.
#[derive(Debug, Clone)]
pub struct SignedMessage {
    pub node_id: String,
    pub message: Vec<u8>,
}

/// An error described by a text.
#[derive(Debug)]
pub struct StringError(String);

/// Why a signed message was refused.
#[derive(Debug, PartialEq, Eq, Structural)]
pub enum VerifyError {
    /// The signer's public key is not a point of the curve.
    InvalidPublicKey,
    /// The signature does not match the message under the key.
    BadSignature,
}

/// The text form of the node identifier `id`: `z` then `id` in base58.
pub open spec fn node_id_text(id: Seq<u8>) -> Seq<char> {
    seq!['z'] + bs58_text(id)
}

/// Whether `text` can be read as a node identifier: it starts with a
/// one-byte character, and every later letter is of the Bitcoin base58
/// alphabet.
pub open spec fn node_id_decodable(text: Seq<char>) -> bool {
    &&& text.len() > 0
    &&& (text[0] as u32) < 0x80
    &&& forall|i: int| 1 <= i < text.len() ==> is_base58_char(#[trigger] text[i])
}

/// The bytes of the node identifier `text`.
pub open spec fn node_id_value(text: Seq<char>) -> Seq<u8> {
    bs58_bytes(text.skip(1)).unwrap()
}

/// The three fields of a signed message at the start of `input`: the
/// signer's node identifier, the signature and the message.
pub open spec fn signed_message_fields(input: Seq<u8>) -> Option<(Seq<u8>, Seq<u8>, Seq<u8>)> {
    match bytes_field(input) {
        Some((id, n1)) => match bytes_field(input.skip(n1 as int)) {
            Some((sig, n2)) => match bytes_field(input.skip((n1 + n2) as int)) {
                Some((msg, _)) => Some((id, sig, msg)),
                None => None,
            },
            None => None,
        },
        None => None,
    }
}

/// Whether a signed message can be unpacked: its three fields are there,
/// the node identifier has a prefix byte, and where the key is valid the
/// signature has the form of one.
pub open spec fn signed_message_acceptable(input: Seq<u8>) -> bool {
    match signed_message_fields(input) {
        Some((id, sig, _)) => id.len() >= 1 && (spec_public_key_valid(id.skip(1))
            ==> signature_well_formed(sig)),
        None => false,
    }
}

/// Whether the signature of the signed message at the start of `input`
/// checks out under the key in its node identifier.
pub open spec fn signed_message_verifies(input: Seq<u8>) -> bool {
    let (id, sig, msg) = signed_message_fields(input).unwrap();
    spec_public_key_valid(id.skip(1)) && spec_ed25519_verify(id.skip(1), msg, sig)
}

/// The message that opens a handshake with `challenge`.
pub open spec fn handshake_open_message(challenge: Seq<u8>) -> Seq<u8> {
    msgpack_u8(METHOD_HANDSHAKE_OPEN) + msgpack_bin(challenge)
}

/// The answer to a handshake that was opened with `challenge`, by a node
/// reached at `uri`: the challenge, the number of connection URIs (one),
/// and that URI as a string.
pub open spec fn handshake_done_response(challenge: Seq<u8>, uri: Seq<char>) -> Seq<u8> {
    msgpack_u8(METHOD_HANDSHAKE_DONE) + msgpack_bin(challenge) + msgpack_u8(1) + msgpack_str(uri)
}

/// The normal form of the first connection URI of `peer`, if it has one.
pub open spec fn first_uri_text(peer: Peer) -> Option<Seq<char>> {
    if peer.connection_uris@.len() > 0 {
        Some(peer.connection_uris@[0].serialization@)
    } else {
        None
    }
}

/// The answer to the bytes `data` that a peer sent, where the peer was
/// reached at `uri`: the handshake answer to a handshake opening, nothing to
/// anything else; `None` where the data cannot be handled (a method number or
/// a field that is missing, a signed message that does not check out, or a
/// handshake opening from a peer without a URI).
pub open spec fn stream_data_response(data: Seq<u8>, uri: Option<Seq<char>>) -> Option<Seq<u8>> {
    match msgpack_uint8(data) {
        None => None,
        Some((method, n0)) => {
            let rest = data.skip(n0 as int);
            if method == METHOD_HANDSHAKE_OPEN {
                match (bytes_field(rest), uri) {
                    (Some((challenge, _)), Some(u)) => Some(handshake_done_response(challenge, u)),
                    _ => None,
                }
            } else if method == METHOD_SIGNED_MESSAGE {
                if signed_message_acceptable(rest) && signed_message_verifies(rest) {
                    let msg = signed_message_fields(rest).unwrap().2;
                    match msgpack_uint8(msg) {
                        Some((method2, n)) => if method2 != METHOD_HANDSHAKE_DONE || bytes_field(
                            msg.skip(n as int),
                        ) is Some {
                            Some(Seq::<u8>::empty())
                        } else {
                            None
                        },
                        None => None,
                    }
                } else {
                    None
                }
            } else {
                Some(Seq::<u8>::empty())
            }
        },
    }
}

/// The key under which a node keeps its own node identifier.
pub open spec fn local_node_id_key() -> Seq<char> {
    seq!['l', 'o', 'c', 'a', 'l', '_', 'n', 'o', 'd', 'e', '_', 'i', 'd']
}

/// The SHA-512 digest of the UTF-8 form of a seed: the bytes of the node's
/// key pair, secret half then public half.
pub open spec fn seed_hash(seed: Seq<char>) -> Seq<u8> {
    spec_sha512(encode_utf8(seed))
}

/// The secret key that a seed gives: the first half of its digest.
pub open spec fn keypair_secret(seed: Seq<char>) -> Seq<u8> {
    seed_hash(seed).subrange(0, 32)
}

/// The public key that a seed gives: the second half of its digest.
pub open spec fn keypair_public(seed: Seq<char>) -> Seq<u8> {
    seed_hash(seed).subrange(32, 64)
}

/// Whether a seed gives a key pair: the public half of its digest must be a
/// valid ed25519 public key.
pub open spec fn seed_usable(seed: Seq<char>) -> bool {
    spec_public_key_valid(seed_hash(seed).subrange(32, 64))
}

/// The node identifier that a seed gives: the ed25519 key-type byte, then
/// the public key.
pub open spec fn node_id_of_seed(seed: Seq<char>) -> Seq<u8> {
    seq![MKEY_ED25519] + seed_hash(seed).subrange(32, 64)
}

/// Whether a peer can be connected to: its first URI has a host, a port, and
/// a node identifier as user name.
pub open spec fn peer_connectable(peer: Peer) -> bool {
    &&& peer.connection_uris@.len() > 0
    &&& peer.connection_uris@[0].host is Some
    &&& peer.connection_uris@[0].port is Some
    &&& node_id_decodable(peer.connection_uris@[0].username@)
}

/// The address `host:port` of the first URI of `peer`.
pub open spec fn peer_address(peer: Peer) -> Seq<char> {
    let uri = peer.connection_uris@[0];
    uri.host.unwrap()@ + seq![':'] + decimal(uri.port.unwrap() as nat)
}

/// Law: a node answers a handshake opening with the very challenge it was
/// sent, whatever follows the opening in the data it read; and the node that
/// opened the handshake reads that challenge back from the answer.
pub proof fn law_handshake_echoes_challenge(challenge: Seq<u8>, trailing: Seq<u8>, uri: Seq<char>)
    requires
        challenge.len() <= u32::MAX,
    ensures
        stream_data_response(handshake_open_message(challenge) + trailing, Some(uri)) == Some(
            handshake_done_response(challenge, uri),
        ),
        msgpack_uint8(handshake_done_response(challenge, uri)) == Some((METHOD_HANDSHAKE_DONE, 2nat)),
        bytes_field(handshake_done_response(challenge, uri).skip(2)) matches Some((c, _)) && c
            == challenge,
{
    let data = handshake_open_message(challenge) + trailing;
    assert(data =~= msgpack_u8(METHOD_HANDSHAKE_OPEN) + (msgpack_bin(challenge) + trailing));
    lemma_read_written_u8(METHOD_HANDSHAKE_OPEN, msgpack_bin(challenge) + trailing);
    assert(data.skip(2) =~= msgpack_bin(challenge) + trailing);
    lemma_read_written_bin(challenge, trailing);
    let resp = handshake_done_response(challenge, uri);
    let tail = msgpack_u8(1) + msgpack_str(uri);
    assert(resp =~= msgpack_u8(METHOD_HANDSHAKE_DONE) + (msgpack_bin(challenge) + tail));
    lemma_read_written_u8(METHOD_HANDSHAKE_DONE, msgpack_bin(challenge) + tail);
    assert(resp.skip(2) =~= msgpack_bin(challenge) + tail);
    lemma_read_written_bin(challenge, tail);
}

/// `tcp`, the one protocol peers are reached by.
pub open spec fn tcp_scheme() -> Seq<char> {
    seq!['t', 'c', 'p']
}

/// The key under which a node keeps its reconnect delay for the peer `id`:
/// `id` then `-rcd`.
pub open spec fn reconnect_delay_key(id: Seq<char>) -> Seq<char> {
    id + seq!['-', 'r', 'c', 'd']
}

/// The local node identifier in text form, as `contents` holds it.
pub open spec fn local_node_id_text(contents: Map<Seq<u8>, Seq<u8>>) -> Seq<char> {
    node_id_text(contents[key_bytes(local_node_id_key())])
}

/// Whether a connection to `uri_text` can be attempted with the database
/// contents `contents`: where the URI is a `tcp` one, the local node
/// identifier is stored, and where the URI names another node, a reconnect
/// delay of at least four bytes is stored for it.
pub open spec fn connect_acceptable(contents: Map<Seq<u8>, Seq<u8>>, uri_text: Seq<char>) -> bool {
    match spec_parse_url(uri_text) {
        Some(u) => u.scheme == tcp_scheme() ==> {
            &&& contents.dom().contains(key_bytes(local_node_id_key()))
            &&& local_node_id_text(contents) != u.username ==> {
                let k = key_bytes(reconnect_delay_key(u.username));
                contents.dom().contains(k) && contents[k].len() >= 4
            }
        },
        None => true,
    }
}

/// What a connection attempt decided, for the caller to carry out.
pub enum ConnectDecision {
    /// The URI cannot be parsed.
    InvalidUri,
    /// The URI names a protocol other than `tcp` (given here).
    UnsupportedProtocol(String),
    /// The database could not be read.
    StoreUnavailable,
    /// The URI names this node itself.
    IsSelf,
    /// Connect to this peer. The reconnect delay that was read for it; where
    /// that read gave -1 (the delay is unset, or could not be read), the
    /// delay was reset to 1 under the given key, with whether the database
    /// took it.
    Connect(Peer, i32, Option<(String, bool)>),
}

/// What the read of the local node identifier tells of a peer's user name.
pub enum LocalIdCheck {
    /// The database could not be read.
    Unreadable,
    /// The user name is this node's own identifier.
    Own,
    /// The user name is another node's.
    Other,
}

/// Whether `res`, with the database going from `before` to `after`, is the
/// connection to the peer of the URI `u` once its reconnect delay was read
/// as `delay`: a new peer known by the URI's user name and reached by the
/// URI, with the delay reset to 1 exactly where it was read as -1, and the
/// database otherwise left as it was.
pub open spec fn connection_step(
    before: Map<Seq<u8>, Seq<u8>>,
    u: PeerUriView,
    delay: i32,
    res: ConnectDecision,
    after: Map<Seq<u8>, Seq<u8>>,
) -> bool {
    match res {
        ConnectDecision::Connect(peer, d, reset) => {
            &&& d == delay
            &&& peer.id matches Some(id) && id@ == u.username
            &&& peer.bin_id is None
            &&& peer.connection_uris@.len() == 1
            &&& peer.connection_uris@[0]@ == u
            &&& !peer.is_connected
            &&& peer.connected_peers is None
            &&& peer.challenge is None
            &&& (reset is Some <==> delay == -1)
            &&& match reset {
                Some((k, stored)) => k@ == reconnect_delay_key(u.username) && (stored ==> after
                    == before.insert(key_bytes(k@), bincode_i32(1))),
                None => after == before,
            }
        },
        _ => false,
    }
}

/// Whether the writes of a connection to the peer of the URI `u` that gave
/// `res` are `writes1` after `writes0`: the reset of the reconnect delay to 1
/// where there was one (with whether it succeeded), else none.
pub open spec fn connection_writes(
    writes0: Seq<(Seq<u8>, Seq<u8>, bool)>,
    u: PeerUriView,
    res: ConnectDecision,
    writes1: Seq<(Seq<u8>, Seq<u8>, bool)>,
) -> bool {
    match res {
        ConnectDecision::Connect(_, _, Some((_, stored))) => writes1 == writes0.push(
            (key_bytes(reconnect_delay_key(u.username)), bincode_i32(1), stored),
        ),
        _ => writes1 == writes0,
    }
}

/// Whether the reads and writes that a connection attempt to `uri_text`
/// made, from `reads0`/`writes0` to `reads1`/`writes1` with the contents
/// `before`, fit its result `res`: a `tcp` URI reads the local node
/// identifier; the database is unavailable exactly where that read failed;
/// a connection then reads the reconnect delay, which gives the stored
/// delay where that read succeeded and -1 where it failed.
pub open spec fn connect_record(
    before: Map<Seq<u8>, Seq<u8>>,
    uri_text: Seq<char>,
    res: ConnectDecision,
    reads0: Seq<(Seq<u8>, bool)>,
    reads1: Seq<(Seq<u8>, bool)>,
    writes0: Seq<(Seq<u8>, Seq<u8>, bool)>,
    writes1: Seq<(Seq<u8>, Seq<u8>, bool)>,
) -> bool {
    match spec_parse_url(uri_text) {
        None => reads1 == reads0 && writes1 == writes0,
        Some(u) => if u.scheme != tcp_scheme() {
            reads1 == reads0 && writes1 == writes0
        } else {
            let lk = key_bytes(local_node_id_key());
            let dk = key_bytes(reconnect_delay_key(u.username));
            match res {
                ConnectDecision::StoreUnavailable => reads1 == reads0.push((lk, false)) && writes1
                    == writes0,
                ConnectDecision::IsSelf => reads1 == reads0.push((lk, true)) && writes1 == writes0,
                ConnectDecision::Connect(_, delay, _) => {
                    &&& reads1.len() == reads0.len() + 2
                    &&& reads1 == reads0.push((lk, true)).push((dk, reads1.last().1))
                    &&& delay == (if reads1.last().1 {
                        stored_i32(before, reconnect_delay_key(u.username))
                    } else {
                        -1i32
                    })
                    &&& connection_writes(writes0, u, res, writes1)
                },
                _ => false,
            }
        },
    }
}

/// Whether setting up the identity of a node with seed `seed` gave the text
/// `text` and the flag `stored`, with the database going from
/// `contents0`/`writes0` to `contents1`/`writes1`: the text form of the
/// seed's node identifier, and one write of that identifier under
/// `local_node_id`, recorded as it went.
pub open spec fn init_outcome(
    seed: Seq<char>,
    contents0: Map<Seq<u8>, Seq<u8>>,
    writes0: Seq<(Seq<u8>, Seq<u8>, bool)>,
    text: Seq<char>,
    stored: bool,
    contents1: Map<Seq<u8>, Seq<u8>>,
    writes1: Seq<(Seq<u8>, Seq<u8>, bool)>,
) -> bool {
    &&& text == node_id_text(node_id_of_seed(seed))
    &&& writes1 == writes0.push((key_bytes(local_node_id_key()), node_id_of_seed(seed), stored))
    &&& stored ==> contents1 == contents0.insert(
        key_bytes(local_node_id_key()),
        node_id_of_seed(seed),
    )
}

/// Whether `res`, with the database going from `before` to `after`, is what
/// a connection attempt to `uri_text` gives: nothing for a URI that does not
/// parse, a refusal of any protocol but `tcp`, no connection to the node
/// itself, and otherwise the connection to a new peer once the reconnect
/// delay was read: the stored delay, or -1 where the read failed.
pub open spec fn connect_outcome(
    before: Map<Seq<u8>, Seq<u8>>,
    uri_text: Seq<char>,
    res: ConnectDecision,
    after: Map<Seq<u8>, Seq<u8>>,
) -> bool {
    match spec_parse_url(uri_text) {
        None => res is InvalidUri && after == before,
        Some(u) => if u.scheme != tcp_scheme() {
            &&& res matches ConnectDecision::UnsupportedProtocol(p) && p@ == u.scheme
            &&& after == before
        } else {
            match res {
                ConnectDecision::StoreUnavailable => after == before,
                ConnectDecision::IsSelf => local_node_id_text(before) == u.username && after
                    == before,
                ConnectDecision::Connect(_, delay, _) => {
                    &&& local_node_id_text(before) != u.username
                    &&& (delay == stored_i32(before, reconnect_delay_key(u.username)) || delay
                        == -1)
                    &&& connection_step(before, u, delay, res, after)
                },
                _ => false,
            }
        },
    }
}

/// Law: once a node has stored the identifier that its seed gives, an
/// attempt to connect to a `tcp` URI whose user name is that identifier in
/// text form can be made, never connects, and leaves the database as it was.
pub proof fn law_never_connects_to_itself(
    contents: Map<Seq<u8>, Seq<u8>>,
    seed: Seq<char>,
    uri_text: Seq<char>,
    res: ConnectDecision,
    after: Map<Seq<u8>, Seq<u8>>,
)
    requires
        spec_parse_url(uri_text) matches Some(u) && u.scheme == tcp_scheme() && u.username
            == node_id_text(node_id_of_seed(seed)),
        connect_outcome(
            contents.insert(key_bytes(local_node_id_key()), node_id_of_seed(seed)),
            uri_text,
            res,
            after,
        ),
    ensures
        connect_acceptable(
            contents.insert(key_bytes(local_node_id_key()), node_id_of_seed(seed)),
            uri_text,
        ),
        res is IsSelf || res is StoreUnavailable,
        after == contents.insert(key_bytes(local_node_id_key()), node_id_of_seed(seed)),
{
}

/// Law: where a connection attempt reset the reconnect delay and the
/// database took it, the delay then reads back as 1.
pub proof fn law_reset_delay_reads_back_one(
    before: Map<Seq<u8>, Seq<u8>>,
    uri_text: Seq<char>,
    peer: Peer,
    delay: i32,
    key: String,
    after: Map<Seq<u8>, Seq<u8>>,
)
    requires
        connect_outcome(
            before,
            uri_text,
            ConnectDecision::Connect(peer, delay, Some((key, true))),
            after,
        ),
    ensures
        after.dom().contains(key_bytes(key@)),
        after[key_bytes(key@)].len() >= 4,
        stored_i32(after, key@) == 1,
{
    law_get_i32_after_set_i32(before, key@, 1, key@);
}

/// Law: only the first of a list of peer URIs counts. Two lists with the
/// same first URI can be attempted on the same database alike, and allow
/// the same outcomes.
pub proof fn law_only_first_uri_counts(
    contents: Map<Seq<u8>, Seq<u8>>,
    uris1: Seq<Seq<char>>,
    uris2: Seq<Seq<char>>,
    res: ConnectDecision,
    after: Map<Seq<u8>, Seq<u8>>,
)
    requires
        uris1.len() > 0,
        uris2.len() > 0,
        uris1[0] == uris2[0],
    ensures
        connect_acceptable(contents, uris1[0]) == connect_acceptable(contents, uris2[0]),
        connect_outcome(contents, uris1[0], res, after) == connect_outcome(
            contents,
            uris2[0],
            res,
            after,
        ),
{
}

/// Law: a decodable node identifier in text form that starts with `z` is
/// the text form of the bytes it decodes to, so encoding what
/// [`P2PService::decode_node_id`] gives returns the same text.
pub proof fn law_node_id_text_round_trip(text: Seq<char>)
    requires
        node_id_decodable(text),
        text[0] == 'z',
    ensures
        node_id_text(node_id_value(text)) == text,
{
    let rest = text.skip(1);
    assert forall|i: int| 0 <= i < rest.len() implies is_base58_char(#[trigger] rest[i]) by {
        assert(rest[i] == text[i + 1]);
    }
    lemma_bs58_text_round_trip(rest);
    assert(seq!['z'] + rest =~= text);
}

/// Law: the key pair of a node depends on its seed alone: two services
/// whose seeds are equal and give a key pair have the same key pair,
/// whatever else their configurations hold.
pub proof fn law_keypair_depends_only_on_seed(p1: P2PService, p2: P2PService)
    requires
        p1.config.keypair.seed@ == p2.config.keypair.seed@,
        seed_usable(p1.config.keypair.seed@),
    ensures
        seed_usable(p2.config.keypair.seed@),
        keypair_secret(p1.config.keypair.seed@) == keypair_secret(p2.config.keypair.seed@),
        keypair_public(p1.config.keypair.seed@) == keypair_public(p2.config.keypair.seed@),
{
}

/// Law: the address of a connectable peer is the host of its first URI,
/// then `:`, then digits that denote that URI's own port.
pub proof fn law_peer_address_names_its_port(peer: Peer)
    requires
        peer_connectable(peer),
    ensures
        ({
            let uri = peer.connection_uris@[0];
            let host = uri.host.unwrap()@;
            let addr = peer_address(peer);
            let port_text = addr.skip(host.len() as int + 1);
            &&& addr.len() > host.len() + 1
            &&& addr.subrange(0, host.len() as int) == host
            &&& addr[host.len() as int] == ':'
            &&& forall|i: int| 0 <= i < port_text.len() ==> '0' <= #[trigger] port_text[i] <= '9'
            &&& decimal_value(port_text) == uri.port.unwrap() as nat
        }),
{
    let uri = peer.connection_uris@[0];
    let host = uri.host.unwrap()@;
    let addr = peer_address(peer);
    let digits = decimal(uri.port.unwrap() as nat);
    lemma_decimal_value(uri.port.unwrap() as nat);
    assert(addr.skip(host.len() as int + 1) =~= digits);
    assert(addr.subrange(0, host.len() as int) =~= host);
}

/// Law: a signed message whose signature checks out under its node
/// identifier is handled, and answered with nothing, whatever the method of
/// the message it carries, where that method is not the end of a handshake.
pub proof fn law_signed_message_is_handled(
    id: Seq<u8>,
    sig: Seq<u8>,
    msg: Seq<u8>,
    trailing: Seq<u8>,
    uri: Option<Seq<char>>,
)
    requires
        id.len() >= 1,
        id.len() <= u32::MAX,
        sig.len() <= u32::MAX,
        msg.len() <= u32::MAX,
        spec_public_key_valid(id.skip(1)),
        signature_well_formed(sig),
        spec_ed25519_verify(id.skip(1), msg, sig),
        msgpack_uint8(msg) matches Some((m, _)) && m != METHOD_HANDSHAKE_DONE,
    ensures
        stream_data_response(
            msgpack_u8(METHOD_SIGNED_MESSAGE) + msgpack_bin(id) + msgpack_bin(sig) + msgpack_bin(msg)
                + trailing,
            uri,
        ) == Some(Seq::<u8>::empty()),
{
    let tail = msgpack_bin(msg) + trailing;
    let rest = msgpack_bin(id) + (msgpack_bin(sig) + tail);
    let data = msgpack_u8(METHOD_SIGNED_MESSAGE) + msgpack_bin(id) + msgpack_bin(sig) + msgpack_bin(
        msg,
    ) + trailing;
    assert(data =~= msgpack_u8(METHOD_SIGNED_MESSAGE) + rest);
    lemma_read_written_u8(METHOD_SIGNED_MESSAGE, rest);
    assert(data.skip(2) =~= rest);
    lemma_read_written_bin(id, msgpack_bin(sig) + tail);
    let n1 = msgpack_bin(id).len();
    assert(rest.skip(n1 as int) =~= msgpack_bin(sig) + tail);
    lemma_read_written_bin(sig, tail);
    let n2 = msgpack_bin(sig).len();
    assert(rest.skip((n1 + n2) as int) =~= tail);
    lemma_read_written_bin(msg, trailing);
    assert(signed_message_fields(rest) == Some((id, sig, msg)));
}

/// Law: an attempt to connect over `tcp` to another node, where every read
/// of the database it made succeeded, connects, with the reconnect delay
/// that is stored for that node; only a failed read makes the database
/// unavailable.
pub proof fn law_successful_reads_connect(
    before: Map<Seq<u8>, Seq<u8>>,
    uri_text: Seq<char>,
    res: ConnectDecision,
    after: Map<Seq<u8>, Seq<u8>>,
    reads0: Seq<(Seq<u8>, bool)>,
    reads1: Seq<(Seq<u8>, bool)>,
    writes0: Seq<(Seq<u8>, Seq<u8>, bool)>,
    writes1: Seq<(Seq<u8>, Seq<u8>, bool)>,
)
    requires
        spec_parse_url(uri_text) matches Some(u) && u.scheme == tcp_scheme()
            && local_node_id_text(before) != u.username,
        connect_outcome(before, uri_text, res, after),
        connect_record(before, uri_text, res, reads0, reads1, writes0, writes1),
        reads0.len() <= reads1.len(),
        forall|i: int| reads0.len() <= i < reads1.len() ==> (#[trigger] reads1[i]).1,
    ensures
        res is Connect,
        res matches ConnectDecision::Connect(_, delay, _) ==> delay == stored_i32(
            before,
            reconnect_delay_key(spec_parse_url(uri_text).unwrap().username),
        ),
{
    if res is StoreUnavailable {
        assert(reads1[reads0.len() as int] == (key_bytes(local_node_id_key()), false));
    }
    if res is Connect {
        assert(reads1.last() == reads1[reads1.len() - 1]);
    }
}

/// Law: setting up the node's identity makes exactly one write, of the
/// identifier its seed gives under `local_node_id`, and reports that write
/// as it went; where it went through, the stored identifier reads as the
/// text the set-up gave.
pub proof fn law_init_writes_its_identifier(
    seed: Seq<char>,
    contents0: Map<Seq<u8>, Seq<u8>>,
    writes0: Seq<(Seq<u8>, Seq<u8>, bool)>,
    text: Seq<char>,
    stored: bool,
    contents1: Map<Seq<u8>, Seq<u8>>,
    writes1: Seq<(Seq<u8>, Seq<u8>, bool)>,
)
    requires
        init_outcome(seed, contents0, writes0, text, stored, contents1, writes1),
    ensures
        writes1.len() == writes0.len() + 1,
        writes1.subrange(0, writes0.len() as int) == writes0,
        writes1.last().0 == key_bytes(local_node_id_key()),
        writes1.last().1 == seq![MKEY_ED25519] + seed_hash(seed).subrange(32, 64),
        writes1.last().2 == stored,
        stored ==> contents1.dom().contains(key_bytes(local_node_id_key())),
        stored ==> local_node_id_text(contents1) == text,
        text[0] == 'z',
{
    assert(writes1.subrange(0, writes0.len() as int) =~= writes0);
}

/// The three fields of the signed message at the start of `input`.
fn signed_message_parts(input: &[u8]) -> (res: Option<(Vec<u8>, Vec<u8>, Vec<u8>)>)
    ensures
        match res {
            Some((id, sig, msg)) => signed_message_fields(input@) == Some((id@, sig@, msg@)),
            None => signed_message_fields(input@) is None,
        },
{
    let (id, n1) = match read_bytes_field(input) {
        Some(f) => f,
        None => return None,
    };
    let after_id = slice_subrange(input, n1, input.len());
    let (sig, n2) = match read_bytes_field(after_id) {
        Some(f) => f,
        None => return None,
    };
    let after_sig = slice_subrange(after_id, n2, after_id.len());
    assert(after_sig@ =~= input@.skip((n1 + n2) as int));
    let (msg, _) = match read_bytes_field(after_sig) {
        Some(f) => f,
        None => return None,
    };
    Some((id, sig, msg))
}

impl P2PService {
    /// The message that opens a handshake: the method number, then the
    /// challenge that the peer is to send back.
    pub fn pack_handshake_open(challenge: &[u8]) -> (res: Vec<u8>)
        ensures
            res@ == handshake_open_message(challenge@),
    {
        let mut packer: Vec<u8> = Vec::new();
        write_u8(&mut packer, METHOD_HANDSHAKE_OPEN);
        write_bin(&mut packer, challenge);
        assert(packer@ =~= handshake_open_message(challenge@));
        packer
    }

    /// The address to connect to for a new peer, `host:port` of its first
    /// URI, and the peer with its identifier taken from the URI's user name,
    /// as text and as bytes. The peer must be connectable.
    pub fn prepare_peer_connection(peer: Peer) -> (res: (String, Peer))
        requires
            peer_connectable(peer),
        ensures
            res.0@ == peer_address(peer),
            res.1.id matches Some(id) && id@ == peer.connection_uris@[0].username@,
            res.1.bin_id matches Some(b) && b@ == node_id_value(peer.connection_uris@[0].username@),
            res.1.connection_uris == peer.connection_uris,
            res.1.is_connected == peer.is_connected,
            res.1.connected_peers == peer.connected_peers,
            res.1.challenge == peer.challenge,
    {
        let mut peer = peer;
        let uri = &peer.connection_uris[0];
        let mut addr = match &uri.host {
            Some(h) => h.clone(),
            None => String::new(),  // not reached: the peer is connectable
        };
        let port = match uri.port {
            Some(p) => p,
            None => 0,  // not reached: the peer is connectable
        };
        proof {
            reveal_strlit(":");
        }
        addr.append(":");
        addr.append(u16_to_string(port).as_str());
        let id = uri.username.clone();
        let bin_id = Self::decode_node_id(uri.username.clone());
        peer.id = Some(id);
        peer.bin_id = Some(bin_id);
        (addr, peer)
    }

    /// Whether a peer can be connected to.
    pub fn peer_is_connectable(peer: &Peer) -> (res: bool)
        ensures
            res == peer_connectable(*peer),
    {
        if peer.connection_uris.len() == 0 {
            return false;
        }
        let uri = &peer.connection_uris[0];
        uri.host.is_some() && uri.port.is_some() && Self::node_id_is_decodable(
            uri.username.as_str(),
        )
    }

    /// The address and the identified peer, or `None` where the peer cannot
    /// be connected to.
    pub fn try_prepare_peer_connection(peer: Peer) -> (res: Option<(String, Peer)>)
        ensures
            res is Some <==> peer_connectable(peer),
            res matches Some(r) ==> r.0@ == peer_address(peer) && r.1.connection_uris
                == peer.connection_uris,
    {
        if Self::peer_is_connectable(&peer) {
            Some(Self::prepare_peer_connection(peer))
        } else {
            None
        }
    }

    /// The node's ed25519 key pair: the SHA-512 digest of the UTF-8 form of
    /// its seed, read as secret key then public key. The seed must give a key
    /// pair.
    pub fn get_keypair(p2p: &P2PService) -> (kp: NodeKeypair)
        requires
            seed_usable(p2p.config.keypair.seed@),
        ensures
            kp.wf(),
            kp.secret@ == keypair_secret(p2p.config.keypair.seed@),
            kp.public@ == keypair_public(p2p.config.keypair.seed@),
    {
        let hashed_seed = sha512(p2p.config.keypair.seed.as_str().as_bytes());
        match keypair_from_bytes(hashed_seed.as_slice()) {
            Some(kp) => kp,
            None => NodeKeypair { secret: Vec::new(), public: Vec::new() },  // not reached: the seed is usable
        }
    }

    /// Whether `seed` gives a key pair.
    pub fn seed_is_usable(seed: &str) -> (res: bool)
        ensures
            res == seed_usable(seed@),
    {
        let hashed_seed = sha512(seed.as_bytes());
        keypair_from_bytes(hashed_seed.as_slice()).is_some()
    }

    /// The node's key pair, or `None` where its seed gives none.
    pub fn try_get_keypair(p2p: &P2PService) -> (res: Option<NodeKeypair>)
        ensures
            res is Some <==> seed_usable(p2p.config.keypair.seed@),
            res matches Some(kp) ==> kp.public@ == seed_hash(p2p.config.keypair.seed@).subrange(
                32,
                64,
            ),
    {
        if Self::seed_is_usable(p2p.config.keypair.seed.as_str()) {
            Some(Self::get_keypair(p2p))
        } else {
            None
        }
    }

    /// Decides what to do with a peer URI (only the first of `connection_uris`
    /// is used): refuses a URI that does not parse, any protocol but `tcp`,
    /// and the node itself; otherwise resets the peer's reconnect delay to 1
    /// where it is unset (`-1`) and gives the new peer to connect to. The
    /// database must hold what [`connect_acceptable`] asks.
    pub fn connect_to_node(&mut self, connection_uris: Vec<String>) -> (res: ConnectDecision)
        requires
            connection_uris@.len() > 0,
            connect_acceptable(old(self).sled.contents(), connection_uris@[0]@),
        ensures
            connect_outcome(
                old(self).sled.contents(),
                connection_uris@[0]@,
                res,
                final(self).sled.contents(),
            ),
            connect_record(
                old(self).sled.contents(),
                connection_uris@[0]@,
                res,
                old(self).sled.reads(),
                final(self).sled.reads(),
                old(self).sled.writes(),
                final(self).sled.writes(),
            ),
            final(self).config == old(self).config,
            final(self).peers == old(self).peers,
    {
        let peer = connection_uris[0].clone();
        let peer_uri = match parse_url(peer.as_str()) {
            Some(u) => u,
            None => return ConnectDecision::InvalidUri,
        };
        let tcp = String::from_str("tcp");
        proof {
            reveal_strlit("tcp");
            assert(tcp@ =~= tcp_scheme());
        }
        if !(peer_uri.scheme == tcp) {
            return ConnectDecision::UnsupportedProtocol(peer_uri.scheme.clone());
        }
        let key = "local_node_id";
        proof {
            reveal_strlit("local_node_id");
            assert(key@ =~= local_node_id_key());
        }
        match Self::check_local_id(&peer_uri.username, self.sled.read(key.as_bytes())) {
            LocalIdCheck::Unreadable => return ConnectDecision::StoreUnavailable,
            LocalIdCheck::Own => return ConnectDecision::IsSelf,
            LocalIdCheck::Other => {},
        }
        let reconnect_delay_path = Self::reconnect_delay_path(&peer_uri.username);
        let delay_read = self.sled.read(reconnect_delay_path.as_str().as_bytes());
        let reconnect_delay = SledWrappings::i32_of_read(delay_read);
        self.finish_connection(peer_uri, reconnect_delay)
    }

    /// The key of the reconnect delay for the peer `id`: `id` then `-rcd`.
    fn reconnect_delay_path(id: &String) -> (res: String)
        ensures
            res@ == reconnect_delay_key(id@),
    {
        let mut path = id.clone();
        proof {
            reveal_strlit("-rcd");
        }
        path.append("-rcd");
        assert(path@ =~= reconnect_delay_key(id@));
        path
    }

    /// Connects to the peer of `peer_uri` once its reconnect delay was read
    /// as `delay`: where that is -1, first resets the delay to 1.
    pub fn finish_connection(&mut self, peer_uri: PeerUri, delay: i32) -> (res: ConnectDecision)
        ensures
            connection_step(
                old(self).sled.contents(),
                peer_uri@,
                delay,
                res,
                final(self).sled.contents(),
            ),
            connection_writes(
                old(self).sled.writes(),
                peer_uri@,
                res,
                final(self).sled.writes(),
            ),
            final(self).sled.reads() == old(self).sled.reads(),
            final(self).config == old(self).config,
            final(self).peers == old(self).peers,
    {
        let mut reset = None;
        if delay == -1 {
            let path = Self::reconnect_delay_path(&peer_uri.username);
            let stored = SledWrappings::set_i32(path.clone(), 1, &mut self.sled);
            reset = Some((path, stored));
        }
        let mut new_peer = Peer::default();
        new_peer.id = Some(peer_uri.username.clone());
        let mut uris: Vec<PeerUri> = Vec::new();
        uris.push(peer_uri);
        new_peer.connection_uris = uris;
        ConnectDecision::Connect(new_peer, delay, reset)
    }

    /// What the outcome of reading the local node identifier tells of the user
    /// name `username`: whether it is this node's identifier in text form, or
    /// that the read failed. A read that succeeds must find an identifier.
    pub fn check_local_id(username: &String, read: Result<Option<Vec<u8>>, sled::Error>) -> (res:
        LocalIdCheck)
        requires
            !(read matches Ok(None)),
        ensures
            match read {
                Ok(Some(v)) => if node_id_text(v@) == username@ {
                    res is Own
                } else {
                    res is Other
                },
                _ => res is Unreadable,
            },
    {
        match read {
            Ok(Some(local_id)) => {
                if Self::encode_node_id(local_id) == *username {
                    LocalIdCheck::Own
                } else {
                    LocalIdCheck::Other
                }
            },
            _ => LocalIdCheck::Unreadable,
        }
    }

    /// Decides what to do with a peer URI, or gives `None` where the
    /// database does not hold what a connection attempt needs (the local
    /// node identifier, and a reconnect delay of four bytes or more for
    /// another node). A delay that cannot be read is taken as unset.
    pub fn try_connect_to_node(&mut self, connection_uris: Vec<String>) -> (res: Option<
        ConnectDecision,
    >)
        ensures
            match res {
                Some(d) => connection_uris@.len() > 0 && connect_outcome(
                    old(self).sled.contents(),
                    connection_uris@[0]@,
                    d,
                    final(self).sled.contents(),
                ),
                None => (connection_uris@.len() == 0 || !connect_acceptable(
                    old(self).sled.contents(),
                    connection_uris@[0]@,
                )) && final(self).sled.contents() == old(self).sled.contents(),
            },
            res matches Some(d) ==> connect_record(
                old(self).sled.contents(),
                connection_uris@[0]@,
                d,
                old(self).sled.reads(),
                final(self).sled.reads(),
                old(self).sled.writes(),
                final(self).sled.writes(),
            ),
            res is None ==> final(self).sled.writes() == old(self).sled.writes(),
            final(self).config == old(self).config,
            final(self).peers == old(self).peers,
    {
        if connection_uris.len() == 0 {
            return None;
        }
        let peer_uri = match parse_url(connection_uris[0].as_str()) {
            Some(u) => u,
            None => return Some(ConnectDecision::InvalidUri),
        };
        let tcp = String::from_str("tcp");
        proof {
            reveal_strlit("tcp");
            assert(tcp@ =~= tcp_scheme());
        }
        if !(peer_uri.scheme == tcp) {
            return Some(ConnectDecision::UnsupportedProtocol(peer_uri.scheme.clone()));
        }
        let key = "local_node_id";
        proof {
            reveal_strlit("local_node_id");
            assert(key@ =~= local_node_id_key());
        }
        let local_read = self.sled.read(key.as_bytes());
        if let Ok(None) = local_read {
            return None;
        }
        match Self::check_local_id(&peer_uri.username, local_read) {
            LocalIdCheck::Unreadable => return Some(ConnectDecision::StoreUnavailable),
            LocalIdCheck::Own => return Some(ConnectDecision::IsSelf),
            LocalIdCheck::Other => {},
        }
        let path = Self::reconnect_delay_path(&peer_uri.username);
        let delay_read = self.sled.read(path.as_str().as_bytes());
        let readable = match &delay_read {
            Ok(Some(b)) => b.len() >= 4,
            Ok(None) => false,
            Err(_) => true,
        };
        if !readable {
            return None;
        }
        let delay = SledWrappings::i32_of_read(delay_read);
        Some(self.finish_connection(peer_uri, delay))
    }

    /// Sets up the node's identity: derives its node identifier from the
    /// seed (key-type byte, then public key), stores it under
    /// `local_node_id`, and gives it in text form (for the caller to report)
    /// with whether the database took it. The seed must give a key pair.
    pub fn init(&mut self) -> (res: (String, bool))
        requires
            seed_usable(old(self).config.keypair.seed@),
        ensures
            res.0@ == node_id_text(node_id_of_seed(old(self).config.keypair.seed@)),
            res.1 ==> final(self).sled.contents() == old(self).sled.contents().insert(
                key_bytes(local_node_id_key()),
                node_id_of_seed(old(self).config.keypair.seed@),
            ),
            final(self).sled.writes() == old(self).sled.writes().push(
                (key_bytes(local_node_id_key()), node_id_of_seed(old(self).config.keypair.seed@), res.1),
            ),
            final(self).sled.reads() == old(self).sled.reads(),
            init_outcome(
                old(self).config.keypair.seed@,
                old(self).sled.contents(),
                old(self).sled.writes(),
                res.0@,
                res.1,
                final(self).sled.contents(),
                final(self).sled.writes(),
            ),
            final(self).config == old(self).config,
            final(self).peers == old(self).peers,
    {
        let kp = Self::get_keypair(self);
        let mut node_id_bin: Vec<u8> = Vec::new();
        node_id_bin.push(MKEY_ED25519);
        node_id_bin.extend_from_slice(kp.public.as_slice());
        assert(node_id_bin@ =~= node_id_of_seed(self.config.keypair.seed@));
        let node_id_bs58 = Self::encode_node_id(node_id_bin.clone());
        let key = "local_node_id";
        proof {
            reveal_strlit("local_node_id");
            assert(key@ =~= local_node_id_key());
        }
        let stored = self.sled.insert(key.as_bytes(), node_id_bin.as_slice()).is_ok();
        (node_id_bs58, stored)
    }

    /// Sets up the node's identity, or gives `None` where its seed gives no
    /// key pair.
    pub fn try_init(&mut self) -> (res: Option<(String, bool)>)
        ensures
            res is Some <==> seed_usable(old(self).config.keypair.seed@),
            res matches Some(r) ==> r.0@ == node_id_text(node_id_of_seed(old(self).config.keypair.seed@)),
            res is None ==> final(self).sled.contents() == old(self).sled.contents(),
            res is None ==> final(self).sled.writes() == old(self).sled.writes(),
            res matches Some(r) ==> final(self).sled.writes() == old(self).sled.writes().push(
                (key_bytes(local_node_id_key()), node_id_of_seed(old(self).config.keypair.seed@), r.1),
            ),
            final(self).sled.reads() == old(self).sled.reads(),
            final(self).config == old(self).config,
    {
        if Self::seed_is_usable(self.config.keypair.seed.as_str()) {
            Some(self.init())
        } else {
            None
        }
    }
    /// The text form of a node identifier: `z` then its bytes in base58.
    pub fn encode_node_id(node_id_bytes: Vec<u8>) -> (res: String)
        ensures
            res@ == node_id_text(node_id_bytes@),
            forall|i: int| 1 <= i < res@.len() ==> is_base58_char(#[trigger] res@[i]),
            leading_ones(res@.skip(1)) == leading_zero_bytes(node_id_bytes@),
            node_id_decodable(res@),
            node_id_value(res@) == node_id_bytes@,
    {
        let encoded = bs58_encode(node_id_bytes.as_slice());
        let mut text = String::from_str("z");
        proof {
            reveal_strlit("z");
        }
        text.append(encoded.as_str());
        assert(text@.skip(1) =~= encoded@);
        proof {
            lemma_bs58_round_trip(node_id_bytes@);
            assert forall|i: int| 1 <= i < text@.len() implies is_base58_char(
                #[trigger] text@[i],
            ) by {
                assert(text@[i] == encoded@[i - 1]);
            }
        }
        text
    }

    /// The bytes of a node identifier in text form: the text after its first
    /// character, read as base58. The text must be decodable.
    pub fn decode_node_id(node_id_string: String) -> (res: Vec<u8>)
        requires
            node_id_decodable(node_id_string@),
        ensures
            res@ == node_id_value(node_id_string@),
    {
        let text = node_id_string.as_str();
        let chopped = text.substring_char(1, text.unicode_len());
        match bs58_decode(chopped) {
            Some(bytes) => bytes,
            None => Vec::new(),  // not reached: the text is decodable
        }
    }

    /// Whether `node_id_string` can be read as a node identifier.
    pub fn node_id_is_decodable(node_id_string: &str) -> (res: bool)
        ensures
            res == node_id_decodable(node_id_string@),
    {
        let len = node_id_string.unicode_len();
        if len == 0 {
            return false;
        }
        let first = node_id_string.get_char(0);
        if (first as u32) >= 0x80 {
            return false;
        }
        let rest = node_id_string.substring_char(1, len);
        let res = bs58_decode(rest).is_some();
        proof {
            if res {
                assert forall|i: int| 1 <= i < node_id_string@.len() implies is_base58_char(
                    #[trigger] node_id_string@[i],
                ) by {
                    assert(is_base58_char(rest@[i - 1]));
                }
            } else {
                let j = choose|j: int| 0 <= j < rest@.len() && !is_base58_char(#[trigger] rest@[j]);
                assert(!is_base58_char(node_id_string@[j + 1]));
            }
        }
        res
    }

    /// The bytes of a node identifier in text form, or `None` where the text
    /// cannot be read as one.
    pub fn try_decode_node_id(node_id_string: String) -> (res: Option<Vec<u8>>)
        ensures
            match res {
                Some(b) => node_id_decodable(node_id_string@) && b@ == node_id_value(
                    node_id_string@,
                ),
                None => !node_id_decodable(node_id_string@),
            },
    {
        if Self::node_id_is_decodable(node_id_string.as_str()) {
            Some(Self::decode_node_id(node_id_string))
        } else {
            None
        }
    }

    /// Reads the signed message at the start of `message` (the signer's node
    /// identifier: a key-type byte then the public key; the signature; the
    /// message) and checks the signature. The message must be acceptable.
    pub fn unpack_and_verify_signature(&self, message: &[u8]) -> (res: Result<
        SignedMessage,
        VerifyError,
    >)
        requires
            signed_message_acceptable(message@),
        ensures
            ({
                let (id, sig, msg) = signed_message_fields(message@).unwrap();
                let pk = id.skip(1);
                &&& !spec_public_key_valid(pk) ==> res == Err::<SignedMessage, VerifyError>(
                    VerifyError::InvalidPublicKey,
                )
                &&& spec_public_key_valid(pk) && !spec_ed25519_verify(pk, msg, sig) ==> res == Err::<
                    SignedMessage,
                    VerifyError,
                >(VerifyError::BadSignature)
                &&& signed_message_verifies(message@) ==> (res matches Ok(sm) && sm.message@ == msg
                    && sm.node_id@ == node_id_text(id))
            }),
    {
        let (node_id, signature, msg) = match signed_message_parts(message) {
            Some(parts) => parts,
            None => return Err(VerifyError::InvalidPublicKey),  // not reached: the message is acceptable
        };
        let node_pk = slice_subrange(node_id.as_slice(), 1, node_id.len());
        if !public_key_is_valid(node_pk) {
            return Err(VerifyError::InvalidPublicKey);
        }
        if !ed25519_verify(node_pk, msg.as_slice(), signature.as_slice()) {
            return Err(VerifyError::BadSignature);
        }
        Ok(SignedMessage { message: msg, node_id: Self::encode_node_id(node_id) })
    }

    /// Whether the signed message at the start of `message` can be unpacked.
    pub fn signed_message_is_acceptable(message: &[u8]) -> (res: bool)
        ensures
            res == signed_message_acceptable(message@),
    {
        match signed_message_parts(message) {
            Some((id, sig, _)) => {
                if id.len() < 1 {
                    false
                } else {
                    let pk = slice_subrange(id.as_slice(), 1, id.len());
                    !public_key_is_valid(pk) || signature_is_well_formed(sig.as_slice())
                }
            },
            None => false,
        }
    }

    /// Unpacks and checks the signed message at the start of `message`, or
    /// gives `None` where it cannot be unpacked.
    pub fn try_unpack_and_verify_signature(&self, message: &[u8]) -> (res: Option<
        Result<SignedMessage, VerifyError>,
    >)
        ensures
            res is Some <==> signed_message_acceptable(message@),
            res matches Some(r) ==> (r is Ok <==> signed_message_verifies(message@)),
            res matches Some(Ok(sm)) ==> sm.message@ == signed_message_fields(message@).unwrap().2
                && sm.node_id@ == node_id_text(signed_message_fields(message@).unwrap().0),
    {
        if Self::signed_message_is_acceptable(message) {
            Some(self.unpack_and_verify_signature(message))
        } else {
            None
        }
    }

    /// Handles the bytes `data` that `peer` sent: answers a handshake
    /// opening with the challenge it carries, one connection URI and the
    /// peer's URI; checks a signed message; answers anything else with
    /// nothing. The data must be one that can be handled.
    pub fn handle_stream_data(&self, data: Vec<u8>, peer: Peer) -> (res: (Vec<u8>, Option<Peer>))
        requires
            stream_data_response(data@, first_uri_text(peer)) is Some,
        ensures
            res.0@ == stream_data_response(data@, first_uri_text(peer)).unwrap(),
            res.1 is None,
    {
        let (method, n0) = match read_u8_int(data.as_slice()) {
            Some(r) => r,
            None => return (Vec::new(), None),  // not reached: the data can be handled
        };
        let rest = slice_subrange(data.as_slice(), n0, data.len());
        if method == METHOD_HANDSHAKE_OPEN {
            // the answer: handshake done, the challenge, the number of
            // connection URIs (only one is supported) and that URI
            let mut packer: Vec<u8> = Vec::new();
            write_u8(&mut packer, METHOD_HANDSHAKE_DONE);
            let (challenge, _) = match read_bytes_field(rest) {
                Some(f) => f,
                None => return (Vec::new(), None),  // not reached: the data can be handled
            };
            write_bin(&mut packer, challenge.as_slice());
            write_u8(&mut packer, 1);
            write_str(&mut packer, peer.connection_uris[0].serialization.as_str());
            assert(packer@ =~= handshake_done_response(
                challenge@,
                peer.connection_uris@[0].serialization@,
            ));
            return (packer, None);
        } else if method == METHOD_REGISTRY_UPDATE {
            // registry updates are not handled yet
        }
        if method == METHOD_SIGNED_MESSAGE {
            let signed = match self.unpack_and_verify_signature(rest) {
                Ok(s) => s,
                Err(_) => return (Vec::new(), None),  // not reached: the data can be handled
            };
            let (method2, n) = match read_u8_int(signed.message.as_slice()) {
                Some(r) => r,
                None => return (Vec::new(), None),  // not reached: the data can be handled
            };
            if method2 == METHOD_HANDSHAKE_DONE {
                let _challenge = read_bytes_field(
                    slice_subrange(signed.message.as_slice(), n, signed.message.len()),
                );
            }
        } else if method == METHOD_HASH_QUERY {
            // hash queries are not handled yet
        } else if method == METHOD_REGISTRY_QUERY {
            // registry queries are not handled yet
        }
        (Vec::new(), None)
    }

    /// The protocol method that the bytes `data` open with (for the caller
    /// to report), or `None` where they open with no small integer.
    pub fn stream_method(data: &[u8]) -> (res: Option<u8>)
        ensures
            res == match msgpack_uint8(data@) {
                Some((m, _)) => Some(m),
                None => None::<u8>,
            },
    {
        match read_u8_int(data) {
            Some((method, _)) => Some(method),
            None => None,
        }
    }

    /// Whether the bytes `data` that `peer` sent can be handled.
    pub fn stream_data_is_acceptable(&self, data: &[u8], peer: &Peer) -> (res: bool)
        ensures
            res == stream_data_response(data@, first_uri_text(*peer)) is Some,
    {
        let (method, n0) = match read_u8_int(data) {
            Some(r) => r,
            None => return false,
        };
        let rest = slice_subrange(data, n0, data.len());
        if method == METHOD_HANDSHAKE_OPEN {
            read_bytes_field(rest).is_some() && peer.connection_uris.len() > 0
        } else if method == METHOD_SIGNED_MESSAGE {
            match self.try_unpack_and_verify_signature(rest) {
                Some(Ok(signed)) => match read_u8_int(signed.message.as_slice()) {
                    Some((method2, n)) => method2 != METHOD_HANDSHAKE_DONE || read_bytes_field(
                        slice_subrange(signed.message.as_slice(), n, signed.message.len()),
                    ).is_some(),
                    None => false,
                },
                _ => false,
            }
        } else {
            true
        }
    }

    /// Handles the bytes `data` that `peer` sent, or gives `None` where they
    /// cannot be handled.
    pub fn try_handle_stream_data(&self, data: Vec<u8>, peer: Peer) -> (res: Option<
        (Vec<u8>, Option<Peer>),
    >)
        ensures
            match res {
                Some(r) => stream_data_response(data@, first_uri_text(peer)) == Some(r.0@)
                    && r.1 is None,
                None => stream_data_response(data@, first_uri_text(peer)) is None,
            },
    {
        if self.stream_data_is_acceptable(data.as_slice(), &peer) {
            Some(self.handle_stream_data(data, peer))
        } else {
            None
        }
    }
}

} // verus!
