use msg_transport::endian::{push_u16_be, push_u64_be, read_u16_be, read_u64_be};
use msg_transport::error::TransportError;
use msg_transport::msg::{Head, Msg, Type};
use msg_transport::server_info::{Address, ServerInfo, ServerStatus, ServerType};
use msg_transport::stream::{decode_all, encode_all, StreamParser};
use msg_transport::tiny::TinyMsg;
use msg_transport::HEAD_LEN;

#[test]
fn test() {
    let msg = Msg::default();
    println!("{:?}", msg);
    let bytes = msg.as_bytes();
    let buf = bytes.as_slice();
    let msg1 = Msg::from_bytes(buf).unwrap();
    println!("{:?}", msg1);
}

#[test]
fn type_round_trip() {
    for v in 0..=11i8 {
        let t = Type::from_i8(v);
        assert_eq!(t.value(), v);
    }
    assert_eq!(Type::from_i8(99).value(), 0);
    assert_eq!(Type::from_i8(-5).value(), 0);
    assert!(matches!(Type::from_i8(12), Type::NA));
    assert!(matches!(Type::from_u8(200), Type::NA));
}

#[test]
fn endian_exact() {
    let mut out: Vec<u8> = Vec::new();
    push_u64_be(&mut out, 0x0102030405060708);
    assert_eq!(out, vec![1u8, 2, 3, 4, 5, 6, 7, 8]);
    push_u16_be(&mut out, 0xBEEF);
    assert_eq!(&out[8..], &[0xBEu8, 0xEF]);
    assert_eq!(read_u64_be(out.as_slice(), 0), 0x0102030405060708);
    assert_eq!(read_u16_be(out.as_slice(), 8), 0xBEEF);
}

#[test]
fn head_encode_exact() {
    let h = Head {
        length: 2,
        typ: Type::Text,
        sender: 1,
        receiver: 2,
        timestamp: 3,
        seq_num: 4,
        version: 5,
    };
    let b = h.as_bytes();
    assert_eq!(b.len(), HEAD_LEN);
    let expected: Vec<u8> = vec![
        0, 2, // length
        1, // type Text
        0, 0, 0, 0, 0, 0, 0, 1, // sender
        0, 0, 0, 0, 0, 0, 0, 2, // receiver
        0, 0, 0, 0, 0, 0, 0, 3, // timestamp
        0, 0, 0, 0, 0, 0, 0, 4, // seq_num
        0, 5, // version
    ];
    assert_eq!(b, expected);
}

#[test]
fn msg_round_trip() {
    let m = Msg {
        head: Head {
            length: 2,
            typ: Type::Text,
            sender: 1,
            receiver: 2,
            timestamp: 1234567,
            seq_num: 7,
            version: 1,
        },
        payload: b"hi".to_vec(),
    };
    let bytes = m.as_bytes();
    assert_eq!(bytes.len(), HEAD_LEN + 2);
    let back = Msg::from_bytes(bytes.as_slice()).unwrap();
    assert!(back == m);
    assert_eq!(back.head.seq_num, 7);
    assert_eq!(back.payload, b"hi".to_vec());
}

#[test]
fn msg_decode_short_buffer() {
    let buf = [0u8; 10];
    assert_eq!(Msg::from_bytes(&buf), Err(TransportError::Framing));
}

#[test]
fn msg_decode_length_mismatch() {
    let m = Msg {
        head: Head {
            length: 5,
            typ: Type::Text,
            sender: 0,
            receiver: 0,
            timestamp: 0,
            seq_num: 0,
            version: 0,
        },
        payload: b"ab".to_vec(),
    };
    // The header announces 5 payload bytes but only 2 follow.
    let bytes = m.as_bytes();
    assert_eq!(Msg::from_bytes(bytes.as_slice()), Err(TransportError::Framing));
}

#[test]
fn msg_auth_first_frame() {
    let auth = Msg::auth(1, 2, 10, "bad");
    assert!(matches!(auth.head.typ, Type::Auth));
    assert_eq!(auth.head.sender, 1);
    assert_eq!(auth.head.receiver, 2);
    assert_eq!(auth.payload.len(), 8 + 8 + 4 + 3);
    assert_eq!(&auth.payload[0..8], &[0, 0, 0, 0, 0, 0, 0, 1]);
    assert_eq!(&auth.payload[8..16], &[0, 0, 0, 0, 0, 0, 0, 2]);
    assert_eq!(&auth.payload[16..20], &[0, 0, 0, 10]);
    assert_eq!(&auth.payload[20..], b"bad");
    assert_eq!(auth.head.length as usize, auth.payload.len());
}

#[test]
fn msg_raw_payload_and_setters() {
    let mut m = Msg::raw_payload(b"xyz");
    assert!(matches!(m.head.typ, Type::NA));
    assert_eq!(m.head.length, 3);
    m.set_type(Type::Auth);
    m.set_sender(9);
    m.set_seq_num(77);
    assert!(matches!(m.head.typ, Type::Auth));
    assert_eq!(m.head.sender, 9);
    assert_eq!(m.head.seq_num, 77);
    assert_eq!(m.payload, b"xyz".to_vec());
}

#[test]
fn ack_round_trip() {
    let ack = Msg::ack(1, 2, 42);
    assert!(matches!(ack.head.typ, Type::Ack));
    assert_eq!(ack.ack_seq(), Some(42));
    let text = Msg::default();
    assert_eq!(text.ack_seq(), None);
}

#[test]
fn pong_is_ping() {
    let pong = Msg::pong();
    assert!(pong.is_ping());
    assert_eq!(pong.payload.len(), 0);
    assert!(!Msg::default().is_ping());
}

#[test]
fn stream_round_trip() {
    let msgs = vec![
        Msg::ack(1, 2, 5),
        Msg {
            head: Head {
                length: 2,
                typ: Type::Text,
                sender: 1,
                receiver: 2,
                timestamp: 0,
                seq_num: 7,
                version: 1,
            },
            payload: b"hi".to_vec(),
        },
        Msg::pong(),
    ];
    let bytes = encode_all(&msgs);
    let back = decode_all(bytes.as_slice()).unwrap();
    assert_eq!(back.len(), 3);
    for (a, b) in msgs.iter().zip(back.iter()) {
        assert!(a == b);
    }
}

#[test]
fn stream_parser_chunked() {
    // However the byte stream is cut into chunks, the messages come out
    // whole and in the order they were sent.
    let msgs = vec![
        Msg::ack(1, 2, 5),
        Msg {
            head: Head {
                length: 5,
                typ: Type::Text,
                sender: 3,
                receiver: 4,
                timestamp: 9,
                seq_num: 8,
                version: 1,
            },
            payload: b"hello".to_vec(),
        },
        Msg::pong(),
    ];
    let bytes = encode_all(&msgs);
    let mut parser = StreamParser::new();
    // Cut mid-header and mid-payload.
    let cuts = [1usize, 7, 20, 39, 41, 60, bytes.len()];
    let mut at = 0;
    for &cut in &cuts {
        parser.feed(&bytes[at..cut]);
        at = cut;
    }
    assert_eq!(parser.buf.len(), 0);
    let got = parser.take_msgs();
    assert_eq!(got.len(), 3);
    for (a, b) in msgs.iter().zip(got.iter()) {
        assert!(a == b);
    }
}

#[test]
fn stream_parser_partial_frame() {
    let msg = Msg::ack(1, 2, 99);
    let bytes = msg.as_bytes();
    let mut parser = StreamParser::new();
    parser.feed(&bytes[..10]);
    assert_eq!(parser.take_msgs().len(), 0);
    parser.feed(&bytes[10..]);
    let got = parser.take_msgs();
    assert_eq!(got.len(), 1);
    assert!(got[0] == msg);
    assert_eq!(parser.buf.len(), 0);
}

#[test]
fn stream_decode_trailing_garbage() {
    let msgs = vec![Msg::pong()];
    let mut bytes = encode_all(&msgs);
    bytes.extend_from_slice(&[1, 2, 3]);
    assert_eq!(decode_all(bytes.as_slice()), Err(TransportError::Framing));
}

#[test]
fn tiny_round_trip() {
    let t = TinyMsg::new(7, b"abc");
    let bytes = t.as_bytes();
    assert_eq!(bytes, vec![0u8, 3, 7, 97, 98, 99]);
    let back = TinyMsg::from_bytes(bytes.as_slice()).unwrap();
    assert!(back == t);
}

#[test]
fn tiny_decode_errors() {
    assert_eq!(TinyMsg::from_bytes(&[0, 1]), Err(TransportError::Framing));
    // The prefix announces 4 payload bytes but only 1 follows.
    assert_eq!(TinyMsg::from_bytes(&[0, 4, 7, 9]), Err(TransportError::Framing));
}

#[test]
fn tiny_req_id_framing() {
    let t = TinyMsg::with_req_id(42, 9, b"pay");
    assert_eq!(t.resource_id, 9);
    assert_eq!(t.req_id(), Some(42));
    assert_eq!(t.req_body(), b"pay".to_vec());
    let bytes = t.as_bytes();
    let back = TinyMsg::from_bytes(bytes.as_slice()).unwrap();
    assert_eq!(back.req_id(), Some(42));
    assert_eq!(back.req_body(), b"pay".to_vec());
    // Too short to carry a request id.
    let bare = TinyMsg::new(9, b"abc");
    assert_eq!(bare.req_id(), None);
}

#[test]
fn server_info_round_trip() {
    let si = ServerInfo {
        id: 17,
        service_address: Address { v6: false, ip: vec![127, 0, 0, 1], port: 8190 },
        cluster_address: Some(Address {
            v6: true,
            ip: vec![0, 0, 0, 0, 0, 0, 0, 0, 0, 0, 0, 0, 0, 0, 0, 1],
            port: 8290,
        }),
        connection_id: 5,
        status: ServerStatus::Online,
        typ: ServerType::MessageCluster,
        load: Some(3),
    };
    let bytes = si.to_bytes();
    assert_eq!(bytes.len(), 58);
    let back = ServerInfo::from_bytes(bytes.as_slice()).unwrap();
    assert_eq!(back.id, 17);
    assert!(!back.service_address.v6);
    assert_eq!(back.service_address.ip, vec![127, 0, 0, 1]);
    assert_eq!(back.service_address.port, 8190);
    let ca = back.cluster_address.unwrap();
    assert!(ca.v6);
    assert_eq!(ca.port, 8290);
    assert_eq!(back.connection_id, 5);
    assert!(matches!(back.status, ServerStatus::Online));
    assert!(matches!(back.typ, ServerType::MessageCluster));
    assert_eq!(back.load, Some(3));
}

#[test]
fn server_info_minimal_round_trip() {
    let si = ServerInfo {
        id: 1,
        service_address: Address { v6: false, ip: vec![10, 0, 0, 2], port: 80 },
        cluster_address: None,
        connection_id: 0,
        status: ServerStatus::Offline,
        typ: ServerType::SchedulerClient,
        load: None,
    };
    let bytes = si.to_bytes();
    let back = ServerInfo::from_bytes(bytes.as_slice()).unwrap();
    assert!(back.cluster_address.is_none());
    assert!(back.load.is_none());
    assert!(matches!(back.status, ServerStatus::Offline));
    assert!(matches!(back.typ, ServerType::SchedulerClient));
}

#[test]
fn server_info_invalid() {
    assert!(matches!(ServerInfo::from_bytes(&[0u8; 10]), Err(TransportError::Framing)));
    let si = ServerInfo {
        id: 1,
        service_address: Address { v6: false, ip: vec![10, 0, 0, 2], port: 80 },
        cluster_address: None,
        connection_id: 0,
        status: ServerStatus::Online,
        typ: ServerType::ApiClient,
        load: None,
    };
    let mut bytes = si.to_bytes();
    bytes[51] = 99; // invalid status byte
    assert!(matches!(ServerInfo::from_bytes(bytes.as_slice()), Err(TransportError::Framing)));
}
