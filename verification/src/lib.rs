//! A layer-3 relay between a host's virtual network interface and byte-stream
//! transports: the framed wire protocol, the per-peer reader and writer, the
//! allowed-prefix filter and the configuration model, with their contracts.

use vstd::prelude::*;

pub mod compression;
pub mod config;
pub mod packet_handling;
pub mod streams;
pub mod types;
pub mod utils;

verus! {

/// Number of bytes a frame header occupies on the wire.
pub const HEADER_SIZE: usize = 16;

/// Largest payload, in bytes, that a frame may announce.
pub const MTU: usize = 1500;

} // verus!
