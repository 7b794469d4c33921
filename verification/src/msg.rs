//! The framed message record `Msg`: a fixed 37-byte big-endian header
//! followed by a payload of exactly `head.length` bytes.

use vstd::prelude::*;

use crate::endian::{
    bytes_of_u16, bytes_of_u32, bytes_of_u64, lemma_u16_roundtrip, lemma_u64_roundtrip,
    push_u16_be, push_u32_be, push_u64_be, read_u16_be, read_u64_be, u16_of_bytes, u64_of_bytes,
};
use crate::error::TransportError;
use crate::HEAD_LEN;
use vstd::string::StringSliceAdditionalSpecFns;

verus! {

/// Discriminant of a message. Unknown wire values map to `NA`.
#[derive(Clone, Copy, Debug, PartialEq, Eq, Structural)]
pub enum Type {
    NA,
    Text,
    Meme,
    Image,
    Video,
    Audio,
    File,
    Ack,
    Sync,
    Offline,
    Heartbeat,
    Auth,
}

impl Type {
    /// The discriminant denoted by a signed wire value.
    pub open spec fn spec_from_i8(v: i8) -> Type {
        if v == 1 {
            Type::Text
        } else if v == 2 {
            Type::Meme
        } else if v == 3 {
            Type::Image
        } else if v == 4 {
            Type::Video
        } else if v == 5 {
            Type::Audio
        } else if v == 6 {
            Type::File
        } else if v == 7 {
            Type::Ack
        } else if v == 8 {
            Type::Sync
        } else if v == 9 {
            Type::Offline
        } else if v == 10 {
            Type::Heartbeat
        } else if v == 11 {
            Type::Auth
        } else {
            Type::NA
        }
    }

    /// The discriminant denoted by a raw header byte. Bytes 128..=255 read as
    /// negative signed values on the wire, so they map to `NA` as well.
    pub open spec fn spec_from_u8(b: u8) -> Type {
        if 1 <= b <= 11 {
            Type::spec_from_i8(b as i8)
        } else {
            Type::NA
        }
    }

    /// The signed wire value of a discriminant, in `0..=11`.
    pub open spec fn spec_value(self) -> i8 {
        match self {
            Type::NA => 0,
            Type::Text => 1,
            Type::Meme => 2,
            Type::Image => 3,
            Type::Video => 4,
            Type::Audio => 5,
            Type::File => 6,
            Type::Ack => 7,
            Type::Sync => 8,
            Type::Offline => 9,
            Type::Heartbeat => 10,
            Type::Auth => 11,
        }
    }

    /// The header byte that encodes a discriminant.
    pub open spec fn type_byte(self) -> u8 {
        self.spec_value() as u8
    }

    pub fn from_i8(value: i8) -> (r: Type)
        ensures
            r == Type::spec_from_i8(value),
    {
        match value {
            1 => Type::Text,
            2 => Type::Meme,
            3 => Type::Image,
            4 => Type::Video,
            5 => Type::Audio,
            6 => Type::File,
            7 => Type::Ack,
            8 => Type::Sync,
            9 => Type::Offline,
            10 => Type::Heartbeat,
            11 => Type::Auth,
            _ => Type::NA,
        }
    }

    /// Decode the discriminant from its raw header byte.
    pub fn from_u8(b: u8) -> (r: Type)
        ensures
            r == Type::spec_from_u8(b),
    {
        match b {
            1 => Type::Text,
            2 => Type::Meme,
            3 => Type::Image,
            4 => Type::Video,
            5 => Type::Audio,
            6 => Type::File,
            7 => Type::Ack,
            8 => Type::Sync,
            9 => Type::Offline,
            10 => Type::Heartbeat,
            11 => Type::Auth,
            _ => Type::NA,
        }
    }

    pub fn value(&self) -> (r: i8)
        ensures
            r == self.spec_value(),
            0 <= r <= 11,
    {
        match *self {
            Type::NA => 0,
            Type::Text => 1,
            Type::Meme => 2,
            Type::Image => 3,
            Type::Video => 4,
            Type::Audio => 5,
            Type::File => 6,
            Type::Ack => 7,
            Type::Sync => 8,
            Type::Offline => 9,
            Type::Heartbeat => 10,
            Type::Auth => 11,
        }
    }
}

/// Decoding the wire value of any discriminant gives the discriminant back.
pub proof fn lemma_type_roundtrip(t: Type)
    ensures
        Type::spec_from_i8(t.spec_value()) == t,
        Type::spec_from_u8(t.type_byte()) == t,
{
}

/// The fixed header of a `Msg`.
#[derive(Clone, Copy, Debug, PartialEq, Eq, Structural)]
pub struct Head {
    /// Payload byte count.
    pub length: u16,
    pub typ: Type,
    pub sender: u64,
    pub receiver: u64,
    /// Milliseconds since the epoch.
    pub timestamp: u64,
    pub seq_num: u64,
    pub version: u16,
}

/// The 37 header bytes of `h`, in wire order: length, type, sender, receiver,
/// timestamp, sequence number, version; all integers big-endian.
pub open spec fn head_bytes(h: Head) -> Seq<u8> {
    bytes_of_u16(h.length) + seq![h.typ.type_byte()] + bytes_of_u64(h.sender) + bytes_of_u64(
        h.receiver,
    ) + bytes_of_u64(h.timestamp) + bytes_of_u64(h.seq_num) + bytes_of_u16(h.version)
}

/// The header denoted by the first 37 bytes of `s`.
pub open spec fn head_of_bytes(s: Seq<u8>) -> Head
    recommends
        s.len() >= HEAD_LEN,
{
    Head {
        length: u16_of_bytes(s.subrange(0, 2)),
        typ: Type::spec_from_u8(s[2]),
        sender: u64_of_bytes(s.subrange(3, 11)),
        receiver: u64_of_bytes(s.subrange(11, 19)),
        timestamp: u64_of_bytes(s.subrange(19, 27)),
        seq_num: u64_of_bytes(s.subrange(27, 35)),
        version: u16_of_bytes(s.subrange(35, 37)),
    }
}

impl Head {
    pub fn as_bytes(&self) -> (r: Vec<u8>)
        ensures
            r@ == head_bytes(*self),
            r@.len() == HEAD_LEN,
    {
        let mut out: Vec<u8> = Vec::new();
        push_u16_be(&mut out, self.length);
        out.push(self.typ.value() as u8);
        push_u64_be(&mut out, self.sender);
        push_u64_be(&mut out, self.receiver);
        push_u64_be(&mut out, self.timestamp);
        push_u64_be(&mut out, self.seq_num);
        push_u16_be(&mut out, self.version);
        assert(out@ =~= head_bytes(*self));
        out
    }

    /// Decode a header from the front of `buf`.
    pub fn from_bytes(buf: &[u8]) -> (r: Result<Head, TransportError>)
        ensures
            buf@.len() >= HEAD_LEN ==> r == Result::<Head, TransportError>::Ok(
                head_of_bytes(buf@),
            ),
            buf@.len() < HEAD_LEN ==> r == Result::<Head, TransportError>::Err(
                TransportError::Framing,
            ),
    {
        if buf.len() < HEAD_LEN {
            return Err(TransportError::Framing);
        }
        let length = read_u16_be(buf, 0);
        let typ = Type::from_u8(buf[2]);
        let sender = read_u64_be(buf, 3);
        let receiver = read_u64_be(buf, 11);
        let timestamp = read_u64_be(buf, 19);
        let seq_num = read_u64_be(buf, 27);
        let version = read_u16_be(buf, 35);
        Ok(Head { length, typ, sender, receiver, timestamp, seq_num, version })
    }
}

/// Decoding the 37 header bytes of any header gives the header back.
pub proof fn lemma_head_roundtrip(h: Head)
    ensures
        head_bytes(h).len() == HEAD_LEN,
        head_of_bytes(head_bytes(h)) == h,
{
    let s = head_bytes(h);
    assert(s.subrange(0, 2) =~= bytes_of_u16(h.length));
    assert(s[2] == h.typ.type_byte());
    assert(s.subrange(3, 11) =~= bytes_of_u64(h.sender));
    assert(s.subrange(11, 19) =~= bytes_of_u64(h.receiver));
    assert(s.subrange(19, 27) =~= bytes_of_u64(h.timestamp));
    assert(s.subrange(27, 35) =~= bytes_of_u64(h.seq_num));
    assert(s.subrange(35, 37) =~= bytes_of_u16(h.version));
    lemma_u16_roundtrip(h.length);
    lemma_u16_roundtrip(h.version);
    lemma_u64_roundtrip(h.sender);
    lemma_u64_roundtrip(h.receiver);
    lemma_u64_roundtrip(h.timestamp);
    lemma_u64_roundtrip(h.seq_num);
    lemma_type_roundtrip(h.typ);
}

/// A framed message: header plus payload.
#[derive(Clone, Debug)]
pub struct Msg {
    pub head: Head,
    pub payload: Vec<u8>,
}

/// The mathematical value of a `Msg`: its header and the payload bytes.
pub struct MsgV {
    pub head: Head,
    pub payload: Seq<u8>,
}

impl View for Msg {
    type V = MsgV;

    open spec fn view(&self) -> MsgV {
        MsgV { head: self.head, payload: self.payload@ }
    }
}

impl MsgV {
    /// A message value is well formed when the header's length field counts
    /// the payload bytes exactly.
    pub open spec fn wf(self) -> bool {
        self.payload.len() == self.head.length
    }
}

/// The full wire image of a message value: header bytes then payload bytes.
pub open spec fn msg_v_bytes(mv: MsgV) -> Seq<u8> {
    head_bytes(mv.head) + mv.payload
}

/// The full wire image of `m`: header bytes then payload bytes.
pub open spec fn msg_bytes(m: Msg) -> Seq<u8> {
    msg_v_bytes(m@)
}

/// The payload that `Msg::auth` frames: sender, receiver, node id, then the
/// token bytes; integers big-endian.
pub open spec fn auth_payload(sender: u64, receiver: u64, node_id: u32, token: Seq<u8>) -> Seq<
    u8,
> {
    bytes_of_u64(sender) + bytes_of_u64(receiver) + bytes_of_u32(node_id) + token
}

/// Append every byte of `src` to `out`.
pub fn append_bytes(out: &mut Vec<u8>, src: &[u8])
    ensures
        final(out)@ == old(out)@ + src@,
{
    let mut i: usize = 0;
    while i < src.len()
        invariant
            i <= src@.len(),
            out@ == old(out)@ + src@.subrange(0, i as int),
        decreases src@.len() - i,
    {
        out.push(src[i]);
        i = i + 1;
        assert(out@ =~= old(out)@ + src@.subrange(0, i as int));
    }
    assert(out@ =~= old(out)@ + src@);
}

/// Whether two byte vectors hold the same bytes.
pub fn eq_bytes(a: &Vec<u8>, b: &Vec<u8>) -> (r: bool)
    ensures
        r == (a@ == b@),
{
    if a.len() != b.len() {
        assert(a@ != b@);
        return false;
    }
    let mut i: usize = 0;
    while i < a.len()
        invariant
            i <= a@.len(),
            a@.len() == b@.len(),
            forall|j: int| 0 <= j < i ==> a@[j] == b@[j],
        decreases a@.len() - i,
    {
        if a[i] != b[i] {
            return false;
        }
        i = i + 1;
    }
    proof {
        assert(a@ =~= b@);
    }
    true
}

impl PartialEq for Msg {
    fn eq(&self, other: &Msg) -> (r: bool) {
        self.head == other.head && eq_bytes(&self.payload, &other.payload)
    }
}

impl Eq for Msg {

}

impl vstd::std_specs::cmp::PartialEqSpecImpl for Msg {
    open spec fn obeys_eq_spec() -> bool {
        true
    }

    open spec fn eq_spec(&self, other: &Msg) -> bool {
        self.head == other.head && self.payload@ == other.payload@
    }
}

impl Msg {
    /// A message is well formed when the header's length field counts the
    /// payload bytes exactly.
    pub open spec fn wf(self) -> bool {
        self.payload@.len() == self.head.length
    }

    /// Encode the message: exactly `HEAD_LEN + payload.len()` bytes.
    pub fn as_bytes(&self) -> (r: Vec<u8>)
        ensures
            r@ == msg_bytes(*self),
            r@.len() == HEAD_LEN + self.payload@.len(),
    {
        let mut buf = self.head.as_bytes();
        append_bytes(&mut buf, self.payload.as_slice());
        buf
    }

    /// Decode one message from `buf`, which must hold exactly one frame:
    /// 37 header bytes followed by exactly `length` payload bytes.
    pub fn from_bytes(buf: &[u8]) -> (r: Result<Msg, TransportError>)
        ensures
            match r {
                Ok(m) => {
                    &&& buf@.len() >= HEAD_LEN
                    &&& m.head == head_of_bytes(buf@)
                    &&& m.payload@ == buf@.subrange(HEAD_LEN as int, buf@.len() as int)
                    &&& buf@.len() == HEAD_LEN + m.head.length
                    &&& m.wf()
                },
                Err(e) => {
                    &&& e == TransportError::Framing
                    &&& (buf@.len() < HEAD_LEN || buf@.len() != HEAD_LEN + head_of_bytes(
                        buf@,
                    ).length)
                },
            },
    {
        if buf.len() < HEAD_LEN {
            return Err(TransportError::Framing);
        }
        let head = match Head::from_bytes(buf) {
            Ok(h) => h,
            Err(e) => {
                return Err(e);
            },
        };
        if buf.len() - HEAD_LEN != head.length as usize {
            return Err(TransportError::Framing);
        }
        let mut payload: Vec<u8> = Vec::new();
        let mut i: usize = HEAD_LEN;
        while i < buf.len()
            invariant
                HEAD_LEN <= i <= buf@.len(),
                payload@ == buf@.subrange(HEAD_LEN as int, i as int),
            decreases buf@.len() - i,
        {
            payload.push(buf[i]);
            i = i + 1;
            assert(payload@ =~= buf@.subrange(HEAD_LEN as int, i as int));
        }
        Ok(Msg { head, payload })
    }

    /// The authentication message that must be the first frame on every new
    /// stream: type `Auth`, and a payload framing sender, receiver, node id
    /// and the token bytes.
    pub fn auth(sender: u64, receiver: u64, node_id: u32, token: &str) -> (r: Msg)
        requires
            token.spec_bytes().len() <= 65515,
        ensures
            r.wf(),
            r.head.typ == Type::Auth,
            r.head.sender == sender,
            r.head.receiver == receiver,
            r.head.timestamp == 0,
            r.head.seq_num == 0,
            r.head.version == 0,
            r.payload@ == auth_payload(sender, receiver, node_id, token.spec_bytes()),
    {
        let mut payload: Vec<u8> = Vec::new();
        push_u64_be(&mut payload, sender);
        push_u64_be(&mut payload, receiver);
        push_u32_be(&mut payload, node_id);
        append_bytes(&mut payload, token.as_bytes());
        let length = payload.len() as u16;
        Msg {
            head: Head {
                length,
                typ: Type::Auth,
                sender,
                receiver,
                timestamp: 0,
                seq_num: 0,
                version: 0,
            },
            payload,
        }
    }

    /// A message of type `NA` carrying the given payload; the caller sets the
    /// type afterwards.
    pub fn raw_payload(payload: &[u8]) -> (r: Msg)
        requires
            payload@.len() <= 65535,
        ensures
            r.wf(),
            r.head.typ == Type::NA,
            r.head.length == payload@.len(),
            r.head.sender == 0,
            r.head.receiver == 0,
            r.head.timestamp == 0,
            r.head.seq_num == 0,
            r.head.version == 0,
            r.payload@ == payload@,
    {
        let mut p: Vec<u8> = Vec::new();
        append_bytes(&mut p, payload);
        let length = p.len() as u16;
        Msg {
            head: Head {
                length,
                typ: Type::NA,
                sender: 0,
                receiver: 0,
                timestamp: 0,
                seq_num: 0,
                version: 0,
            },
            payload: p,
        }
    }

    pub fn set_type(&mut self, t: Type)
        ensures
            final(self).head == (Head { typ: t, ..old(self).head }),
            final(self).payload@ == old(self).payload@,
    {
        self.head.typ = t;
    }

    pub fn set_sender(&mut self, sender: u64)
        ensures
            final(self).head == (Head { sender, ..old(self).head }),
            final(self).payload@ == old(self).payload@,
    {
        self.head.sender = sender;
    }

    pub fn set_seq_num(&mut self, seq_num: u64)
        ensures
            final(self).head == (Head { seq_num, ..old(self).head }),
            final(self).payload@ == old(self).payload@,
    {
        self.head.seq_num = seq_num;
    }

    /// The acknowledgement for a sent message: type `Ack`, the payload
    /// naming the acknowledged sequence number, big-endian.
    pub fn ack(sender: u64, receiver: u64, acked_seq_num: u64) -> (r: Msg)
        ensures
            r.wf(),
            r.head.typ == Type::Ack,
            r.head.sender == sender,
            r.head.receiver == receiver,
            r.head.length == 8,
            r.payload@ == bytes_of_u64(acked_seq_num),
            r.spec_ack_seq() == Some(acked_seq_num),
    {
        let mut payload: Vec<u8> = Vec::new();
        push_u64_be(&mut payload, acked_seq_num);
        proof {
            lemma_u64_roundtrip(acked_seq_num);
            assert(payload@.subrange(0, 8) =~= bytes_of_u64(acked_seq_num));
        }
        Msg {
            head: Head {
                length: 8,
                typ: Type::Ack,
                sender,
                receiver,
                timestamp: 0,
                seq_num: 0,
                version: 0,
            },
            payload,
        }
    }

    /// The sequence number an `Ack` message acknowledges; `None` when the
    /// message is no acknowledgement.
    pub open spec fn spec_ack_seq(self) -> Option<u64> {
        if self.head.typ == Type::Ack && self.payload@.len() >= 8 {
            Some(u64_of_bytes(self.payload@.subrange(0, 8)))
        } else {
            None
        }
    }

    /// Read which sequence number this message acknowledges, if any.
    pub fn ack_seq(&self) -> (r: Option<u64>)
        ensures
            r == self.spec_ack_seq(),
    {
        if self.head.typ == Type::Ack && self.payload.len() >= 8 {
            Some(read_u64_be(self.payload.as_slice(), 0))
        } else {
            None
        }
    }

    /// Whether this message is a liveness probe.
    pub fn is_ping(&self) -> (r: bool)
        ensures
            r == (self.head.typ == Type::Heartbeat),
    {
        self.head.typ == Type::Heartbeat
    }

    /// The reply to a liveness probe: a `Heartbeat` frame with empty payload.
    pub fn pong() -> (r: Msg)
        ensures
            r.wf(),
            r.head.typ == Type::Heartbeat,
            r.head.length == 0,
            r.head.sender == 0,
            r.head.receiver == 0,
            r.head.timestamp == 0,
            r.head.seq_num == 0,
            r.head.version == 0,
            r.payload@.len() == 0,
    {
        Msg {
            head: Head {
                length: 0,
                typ: Type::Heartbeat,
                sender: 0,
                receiver: 0,
                timestamp: 0,
                seq_num: 0,
                version: 0,
            },
            payload: Vec::new(),
        }
    }
}

impl Default for Msg {
    fn default() -> (r: Msg)
        ensures
            r.wf(),
            r.head == (Head {
                length: 12,
                typ: Type::Text,
                sender: 1234,
                receiver: 4321,
                timestamp: 0,
                seq_num: 0,
                version: 1,
            }),
            r.payload@ == seq![
                99u8,
                111u8,
                100u8,
                101u8,
                119u8,
                105u8,
                116u8,
                104u8,
                98u8,
                117u8,
                102u8,
                102u8,
            ],
    {
        let payload: Vec<u8> = vec![99u8, 111u8, 100u8, 101u8, 119u8, 105u8, 116u8, 104u8, 98u8, 117u8, 102u8, 102u8];
        assert(payload@ =~= seq![
            99u8,
            111u8,
            100u8,
            101u8,
            119u8,
            105u8,
            116u8,
            104u8,
            98u8,
            117u8,
            102u8,
            102u8,
        ]);
        Msg {
            head: Head {
                length: 12,
                typ: Type::Text,
                sender: 1234,
                receiver: 4321,
                timestamp: 0,
                seq_num: 0,
                version: 1,
            },
            payload,
        }
    }
}

/// Decoding the wire image of a well-formed message recovers the message:
/// the decoded header is `m.head` and the bytes after the header are
/// `m.payload`.
pub proof fn lemma_msg_roundtrip(m: Msg)
    requires
        m.wf(),
    ensures
        msg_bytes(m).len() == HEAD_LEN + m.head.length,
        head_of_bytes(msg_bytes(m)) == m.head,
        msg_bytes(m).subrange(HEAD_LEN as int, msg_bytes(m).len() as int) == m.payload@,
{
    lemma_head_roundtrip(m.head);
    let s = msg_bytes(m);
    let hb = head_bytes(m.head);
    assert(s.subrange(0, 2) =~= hb.subrange(0, 2));
    assert(s[2] == hb[2]);
    assert(s.subrange(3, 11) =~= hb.subrange(3, 11));
    assert(s.subrange(11, 19) =~= hb.subrange(11, 19));
    assert(s.subrange(19, 27) =~= hb.subrange(19, 27));
    assert(s.subrange(27, 35) =~= hb.subrange(27, 35));
    assert(s.subrange(35, 37) =~= hb.subrange(35, 37));
    assert(hb.subrange(0, 2) =~= bytes_of_u16(m.head.length));
    assert(hb.subrange(3, 11) =~= bytes_of_u64(m.head.sender));
    assert(hb.subrange(11, 19) =~= bytes_of_u64(m.head.receiver));
    assert(hb.subrange(19, 27) =~= bytes_of_u64(m.head.timestamp));
    assert(hb.subrange(27, 35) =~= bytes_of_u64(m.head.seq_num));
    assert(hb.subrange(35, 37) =~= bytes_of_u16(m.head.version));
    assert(s.subrange(HEAD_LEN as int, s.len() as int) =~= m.payload@);
}

/// Decoding a stream that starts with the wire image of a well-formed
/// message value finds that message first: the header reads back, the
/// payload is the bytes after the header, and the rest of the stream
/// follows unchanged.
pub proof fn lemma_msg_prefix(mv: MsgV, rest: Seq<u8>)
    requires
        mv.wf(),
    ensures
        ({
            let s = msg_v_bytes(mv) + rest;
            let flen = HEAD_LEN + mv.head.length;
            &&& s.len() == flen + rest.len()
            &&& head_of_bytes(s) == mv.head
            &&& s.subrange(HEAD_LEN as int, flen as int) == mv.payload
            &&& s.subrange(flen as int, s.len() as int) == rest
        }),
{
    lemma_head_roundtrip(mv.head);
    let s = msg_v_bytes(mv) + rest;
    let hb = head_bytes(mv.head);
    let flen = HEAD_LEN + mv.head.length;
    assert(s.subrange(0, 2) =~= hb.subrange(0, 2));
    assert(s[2] == hb[2]);
    assert(s.subrange(3, 11) =~= hb.subrange(3, 11));
    assert(s.subrange(11, 19) =~= hb.subrange(11, 19));
    assert(s.subrange(19, 27) =~= hb.subrange(19, 27));
    assert(s.subrange(27, 35) =~= hb.subrange(27, 35));
    assert(s.subrange(35, 37) =~= hb.subrange(35, 37));
    assert(hb.subrange(0, 2) =~= bytes_of_u16(mv.head.length));
    assert(hb.subrange(3, 11) =~= bytes_of_u64(mv.head.sender));
    assert(hb.subrange(11, 19) =~= bytes_of_u64(mv.head.receiver));
    assert(hb.subrange(19, 27) =~= bytes_of_u64(mv.head.timestamp));
    assert(hb.subrange(27, 35) =~= bytes_of_u64(mv.head.seq_num));
    assert(hb.subrange(35, 37) =~= bytes_of_u16(mv.head.version));
    assert(s.subrange(HEAD_LEN as int, flen as int) =~= mv.payload);
    assert(s.subrange(flen as int, s.len() as int) =~= rest);
}

} // verus!
