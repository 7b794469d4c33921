//! Fixed parameters of the transport endpoint: the advertised protocol
//! identifier, the default local bindings, and the graceful-close wire
//! contract.

use vstd::prelude::*;

verus! {

/// Application close code used by every graceful close.
pub const CLOSE_CODE: u32 = 0;

/// The default local binding chosen from the address family of the remote:
/// a wildcard IPv4 socket when `ipv4` holds, a wildcard IPv6 socket
/// otherwise.
pub fn default_bind_address(ipv4: bool) -> (r: &'static str)
    ensures
        ipv4 ==> r@ == "0.0.0.0:0"@,
        !ipv4 ==> r@ == "[::]:0"@,
{
    if ipv4 {
        "0.0.0.0:0"
    } else {
        "[::]:0"
    }
}

/// The single protocol identifier advertised via ALPN on both sides.
pub fn alpn_protocol() -> (r: &'static str)
    ensures
        r@ == "prim"@,
{
    "prim"
}

/// Whether an idle stream is due for a `Heartbeat` frame: the keep-alive
/// interval has fully elapsed since the last activity.
pub fn heartbeat_due(now_ms: u64, last_activity_ms: u64, keep_alive_interval_ms: u64) -> (r:
    bool)
    requires
        last_activity_ms <= now_ms,
    ensures
        r == (now_ms - last_activity_ms >= keep_alive_interval_ms),
{
    now_ms - last_activity_ms >= keep_alive_interval_ms
}

/// The close reason sent when a connection-level client endpoint is
/// dropped.
pub fn close_reason_goodbye() -> (r: &'static str)
    ensures
        r@ == "it's time to say goodbye."@,
{
    "it's time to say goodbye."
}

/// The close reason sent when a request/response client endpoint is
/// dropped.
pub fn close_reason_done() -> (r: &'static str)
    ensures
        r@ == "work has done."@,
{
    "work has done."
}

} // verus!
