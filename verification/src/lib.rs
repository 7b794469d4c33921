//! A stream-multiplexed message transport library: binary codecs for framed
//! messages, the connection-level state machines of the pooling clients, and
//! the contracts they obey.

use vstd::prelude::*;

pub mod cluster;
pub mod config;
pub mod endian;
pub mod endpoint;
pub mod error;
pub mod msg;
pub mod multiplex;
pub mod pending;
pub mod pool;
pub mod server_info;
pub mod stream;
pub mod tiny;

verus! {

/// Number of bytes in the fixed message header.
pub const HEAD_LEN: usize = 37;

} // verus!
