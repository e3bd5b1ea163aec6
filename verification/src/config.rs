//! The node's configuration, as its TOML file gives it.
use std::collections::HashMap;
use vstd::prelude::*;

verus! {

/// The whole configuration of a node.
#[derive(Debug, Clone)]
pub struct Config {
    pub name: String,
    pub keypair: KeyPair,
    pub database: DataBase,
    pub cache: Cache,
    pub http: Http,
    pub p2p: P2P,
    pub store: Store,
}

/// The seed from which the node's ed25519 key pair is derived.
#[derive(Debug, Clone)]
pub struct KeyPair {
    pub seed: String,
}

/// Where the node's database lives.
#[derive(Debug, Clone)]
pub struct DataBase {
    pub path: String,
}

/// Where the node caches data.
#[derive(Debug, Clone)]
pub struct Cache {
    pub path: String,
}

/// The HTTP side of the node.
#[derive(Debug, Clone)]
pub struct Http {
    pub api: API,
}

/// The HTTP API: its port and whether deletion is allowed.
#[derive(Debug, Clone)]
pub struct API {
    pub port: i64,
    pub delete: Delete,
}

/// Whether the HTTP API may delete data.
#[derive(Debug, Clone)]
pub struct Delete {
    pub enabled: bool,
}

/// The peer-to-peer side of the node: the peers it starts from and,
/// optionally, its own address (`self` in the file).
#[derive(Debug, Clone)]
pub struct P2P {
    pub peers: Peers,
    pub self_id: Option<String>,
}

/// The URIs of the peers to connect to at start.
#[derive(Debug, Clone)]
pub struct Peers {
    pub initial: Vec<String>,
}

/// The storage back ends the node may expose.
#[derive(Debug, Clone)]
pub struct Store {
    pub expose: bool,
    pub s3: Option<HashMap<String, String>>,
    pub local: Option<HashMap<String, String>>,
    pub arweave: Option<HashMap<String, String>>,
}

} // verus!
