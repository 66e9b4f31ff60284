//! An encrypted packet relay: wire framing, the HTTP-upgrade handshake,
//! a key/connection registry with presence notifications, and the mesh
//! session logic that bridges packets between relay nodes.

pub mod bytes;
pub mod crypto;
pub mod frame;
pub mod handshake;
pub mod http;
pub mod mesh;
pub mod reader;
pub mod registry;

use vstd::prelude::*;

verus! {

/// Runtime configuration for a relay node.
pub struct Config {
    /// Shared secret used to authenticate with other relay servers.
    pub meshkey: Option<String>,
    /// Addresses of other relay servers with which this node forms a mesh.
    pub mesh_peers: Vec<String>,
    /// Local address on which to accept client and mesh connections.
    pub listen_on: String,
}

} // verus!
