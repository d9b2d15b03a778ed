//! Peer address discovery for a distributed validator network: the verified
//! decisions and codecs behind resolving a peer's identity key to a socket
//! address, independent of the runtime that performs the network and storage
//! work.

pub mod codec;
pub mod error;
pub mod external;
pub mod gate;
pub mod service;
