//! An S5 storage-network node: its configuration, its protocol constants,
//! node identifiers, the peer handshake and the typed values it keeps in its
//! embedded database.

pub mod config;
pub mod constants;
pub mod node;
pub mod p2p;
pub mod seed;
pub mod uri;
pub mod msgpack;
pub mod encoding;
pub mod crypto;
pub mod store;

pub use config::{Config, KeyPair, DataBase, Cache, Http, API, Delete, P2P, Peers, Store};
pub use constants::Constants;
pub use node::Node;
pub use p2p::{P2PService, Peer, SignedMessage, StringError};
pub use store::SledWrappings;
