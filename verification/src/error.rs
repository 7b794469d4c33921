//! Errors surfaced by the transport layer.

use vstd::prelude::*;

verus! {

/// Transport-layer error taxonomy.
///
/// `Framing` covers a header that cannot be decoded or a source that ends
/// before the announced payload length. `Closed` means the peer or the
/// channel was closed. `Auth` means the first frame of a stream could not be
/// sent or was not answered. `Connect` covers connection establishment
/// failures. `Timeout` is a per-call deadline expiry.
#[derive(Clone, Copy, Debug, PartialEq, Eq, Structural)]
pub enum TransportError {
    Framing,
    Closed,
    Auth,
    Connect,
    Timeout,
}

/// A required configuration field that was never supplied to the builder.
#[derive(Clone, Copy, Debug, PartialEq, Eq, Structural)]
pub enum ConfigError {
    MissingRemoteAddress,
    MissingIpv4Type,
    MissingDomain,
    MissingCert,
    MissingKeepAliveInterval,
    MissingMaxBiStreams,
}

} // verus!
