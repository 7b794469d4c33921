use msg_transport::cluster::ConnectionMap;
use msg_transport::config::ClientConfigBuilder;
use msg_transport::endpoint::{
    alpn_protocol, close_reason_done, close_reason_goodbye, default_bind_address, heartbeat_due,
    CLOSE_CODE,
};
use msg_transport::error::{ConfigError, TransportError};
use msg_transport::msg::Msg;
use msg_transport::multiplex::OperatorSet;
use msg_transport::pending::PendingTable;
use msg_transport::pool::{AcquireOutcome, StreamPool};

#[test]
fn config_builder_complete() {
    let mut b = ClientConfigBuilder::default();
    b.with_remote_address("127.0.0.1:8190".to_string())
        .with_ipv4_type(true)
        .with_domain("localhost".to_string())
        .with_cert(vec![1, 2, 3])
        .with_keep_alive_interval(2000)
        .with_max_bi_streams(8);
    let c = b.build().unwrap();
    assert_eq!(c.remote_address, "127.0.0.1:8190");
    assert!(c.ipv4_type);
    assert_eq!(c.domain, "localhost");
    assert_eq!(c.cert, vec![1, 2, 3]);
    assert_eq!(c.keep_alive_interval_ms, 2000);
    assert_eq!(c.max_bi_streams, 8);
}

#[test]
fn config_builder_missing_fields() {
    let b = ClientConfigBuilder::default();
    assert_eq!(b.build().unwrap_err(), ConfigError::MissingRemoteAddress);

    let mut b = ClientConfigBuilder::default();
    b.with_remote_address("a:1".to_string());
    assert_eq!(b.build().unwrap_err(), ConfigError::MissingIpv4Type);

    let mut b = ClientConfigBuilder::default();
    b.with_remote_address("a:1".to_string()).with_ipv4_type(true);
    assert_eq!(b.build().unwrap_err(), ConfigError::MissingDomain);

    let mut b = ClientConfigBuilder::default();
    b.with_remote_address("a:1".to_string()).with_ipv4_type(true).with_domain("d".to_string());
    assert_eq!(b.build().unwrap_err(), ConfigError::MissingCert);

    let mut b = ClientConfigBuilder::default();
    b.with_remote_address("a:1".to_string())
        .with_ipv4_type(true)
        .with_domain("d".to_string())
        .with_cert(vec![]);
    assert_eq!(b.build().unwrap_err(), ConfigError::MissingKeepAliveInterval);

    let mut b = ClientConfigBuilder::default();
    b.with_remote_address("a:1".to_string())
        .with_ipv4_type(true)
        .with_domain("d".to_string())
        .with_cert(vec![])
        .with_keep_alive_interval(1000);
    assert_eq!(b.build().unwrap_err(), ConfigError::MissingMaxBiStreams);
}

#[test]
fn pool_cap_two_streams() {
    // Five concurrent calls against a pool capped at two streams: two open
    // new streams, the rest are told to wait; the cap is never exceeded.
    let mut p = StreamPool::new(2);
    assert_eq!(p.acquire(), AcquireOutcome::OpenNew);
    assert_eq!(p.acquire(), AcquireOutcome::OpenNew);
    assert_eq!(p.acquire(), AcquireOutcome::Wait);
    assert_eq!(p.acquire(), AcquireOutcome::Wait);
    assert_eq!(p.acquire(), AcquireOutcome::Wait);
    assert_eq!(p.in_use, 2);
    assert!(p.idle + p.in_use <= p.max);
    // One call finishes; the next waiter reuses its pair.
    p.release();
    assert_eq!(p.acquire(), AcquireOutcome::Reuse);
    assert_eq!(p.in_use, 2);
    assert!(p.idle + p.in_use <= p.max);
}

#[test]
fn pool_discard_on_dead_connection() {
    let mut p = StreamPool::new(2);
    assert_eq!(p.acquire(), AcquireOutcome::OpenNew);
    p.discard();
    assert_eq!(p.lost, 1);
    assert_eq!(p.in_use, 0);
    // The lost pair's capacity is gone: one more stream can open, then wait.
    assert_eq!(p.acquire(), AcquireOutcome::OpenNew);
    assert_eq!(p.acquire(), AcquireOutcome::Wait);
}

#[test]
fn multiplex_unique_ids() {
    // One stream, a thousand concurrent calls: every request id is distinct
    // and every response resolves exactly one call.
    let mut set = OperatorSet::new(1);
    let mut ids: Vec<u64> = Vec::new();
    let mut pos0 = 0;
    for _ in 0..1000 {
        let (pos, id) = set.begin_call().unwrap();
        pos0 = pos;
        ids.push(id);
    }
    let mut seen = ids.clone();
    seen.sort();
    seen.dedup();
    assert_eq!(seen.len(), 1000);
    for id in ids {
        assert!(set.route_response(pos0, id));
        // A second response with the same id is unknown and dropped.
        assert!(!set.route_response(pos0, id));
    }
}

#[test]
fn multiplex_budget_then_spread() {
    let mut set = OperatorSet::new(2);
    let (p1, id1) = set.begin_call().unwrap();
    let (p2, id2) = set.begin_call().unwrap();
    assert_eq!(p1, 0);
    assert_eq!(p2, 1);
    assert_eq!(id1, 0);
    assert_eq!(id2, 0);
    assert_eq!(set.budget, 0);
    // Budget spent: the next call lands on one of the two operators.
    let (p3, _id3) = set.begin_call().unwrap();
    assert!(p3 < 2);
    assert_eq!(set.ops.len(), 2);
}

#[test]
fn multiplex_no_stream_error() {
    let mut set = OperatorSet::new(0);
    assert_eq!(set.begin_call().unwrap_err(), TransportError::Closed);
}

#[test]
fn multiplex_close_operator_fails_pending() {
    let mut set = OperatorSet::new(1);
    let (pos, a) = set.begin_call().unwrap();
    let (_, b) = set.begin_call().unwrap();
    let pending = set.close_operator(pos);
    assert_eq!(pending, vec![a, b]);
    assert_eq!(set.ops.len(), 0);
}

#[test]
fn multiplex_pick_single_operator() {
    let mut set = OperatorSet::new(1);
    let _ = set.begin_call().unwrap();
    // With exactly one operator the random pick can only land on it.
    assert_eq!(set.pick_operator(), Some(0));
}

#[test]
fn pending_timeout_fires_once() {
    // A message with seq_num 42 and a 200 ms timeout: nothing fires at
    // 180 ms, exactly one entry fires after the deadline, and never again.
    let mut table = PendingTable::new();
    let mut m = Msg::raw_payload(b"x");
    m.set_sender(1);
    m.set_seq_num(42);
    table.on_send(m, 0, 200);
    assert_eq!(table.expire(180).len(), 0);
    let fired = table.expire(220);
    assert_eq!(fired.len(), 1);
    assert_eq!(fired[0].head.seq_num, 42);
    assert_eq!(table.expire(400).len(), 0);
}

#[test]
fn pending_ack_prevents_timeout() {
    let mut table = PendingTable::new();
    let mut m = Msg::raw_payload(b"x");
    m.set_sender(1);
    m.set_seq_num(42);
    table.on_send(m, 0, 200);
    table.on_ack(1, 42);
    assert_eq!(table.expire(10_000).len(), 0);
}

#[test]
fn pending_resend_replaces_entry() {
    let mut table = PendingTable::new();
    let mut m = Msg::raw_payload(b"x");
    m.set_sender(1);
    m.set_seq_num(7);
    table.on_send(m.clone(), 0, 100);
    table.on_send(m, 50, 100);
    // Only the later deadline is parked.
    assert_eq!(table.expire(120).len(), 0);
    assert_eq!(table.expire(160).len(), 1);
}

#[test]
fn cluster_map_insert_get_remove() {
    let mut map: ConnectionMap<u64> = ConnectionMap::new();
    map.insert(1, 100);
    map.insert(2, 200);
    assert_eq!(map.len(), 2);
    assert_eq!(map.get(1), Some(&100));
    assert_eq!(map.get(3), None);
    // A reconnect replaces the stale sender.
    map.insert(1, 111);
    assert_eq!(map.len(), 2);
    assert_eq!(map.get(1), Some(&111));
    map.remove(1);
    assert_eq!(map.get(1), None);
    assert_eq!(map.len(), 1);
}

#[test]
fn endpoint_close_contract() {
    assert_eq!(close_reason_goodbye(), "it's time to say goodbye.");
    assert_eq!(close_reason_done(), "work has done.");
    assert_eq!(CLOSE_CODE, 0);
    assert_eq!(alpn_protocol(), "prim");
    assert_eq!(default_bind_address(true), "0.0.0.0:0");
    assert_eq!(default_bind_address(false), "[::]:0");
}

#[test]
fn heartbeat_due_at_interval() {
    assert!(!heartbeat_due(1999, 0, 2000));
    assert!(heartbeat_due(2000, 0, 2000));
    assert!(heartbeat_due(5000, 1000, 2000));
    assert!(!heartbeat_due(2500, 1000, 2000));
}
