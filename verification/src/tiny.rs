//! The compact request/response envelope `TinyMsg`: a 2-byte big-endian
//! payload length, a 1-byte resource id, then the payload.
//!
//! For the request-id-multiplexed client, a request id travels as an 8-byte
//! big-endian prefix inside the payload, leaving the resource id free for
//! routing.

use vstd::prelude::*;

use crate::endian::{
    bytes_of_u16, bytes_of_u64, lemma_u16_roundtrip, lemma_u64_roundtrip, push_u16_be,
    read_u16_be, read_u64_be, u16_of_bytes, u64_of_bytes,
};
use crate::error::TransportError;
use crate::msg::{append_bytes, eq_bytes};

verus! {

/// Number of bytes before a `TinyMsg` payload: length prefix and resource id.
pub const TINY_HEAD_LEN: usize = 3;

/// Payload byte cap for a `TinyMsg`.
pub const TINY_MAX_PAYLOAD: usize = 65533;

/// Byte count of the request-id prefix inside a multiplexed payload.
pub const REQ_ID_LEN: usize = 8;

/// A compact request/response envelope.
#[derive(Clone, Debug)]
pub struct TinyMsg {
    pub resource_id: u8,
    pub payload: Vec<u8>,
}

/// The wire image of `t`: 2-byte big-endian payload length, resource id,
/// payload.
pub open spec fn tiny_bytes(t: TinyMsg) -> Seq<u8> {
    bytes_of_u16(t.payload@.len() as u16) + seq![t.resource_id] + t.payload@
}

impl PartialEq for TinyMsg {
    fn eq(&self, other: &TinyMsg) -> (r: bool) {
        self.resource_id == other.resource_id && eq_bytes(&self.payload, &other.payload)
    }
}

impl Eq for TinyMsg {

}

impl vstd::std_specs::cmp::PartialEqSpecImpl for TinyMsg {
    open spec fn obeys_eq_spec() -> bool {
        true
    }

    open spec fn eq_spec(&self, other: &TinyMsg) -> bool {
        self.resource_id == other.resource_id && self.payload@ == other.payload@
    }
}

impl TinyMsg {
    /// A `TinyMsg` is well formed when its payload respects the cap, so that
    /// the length prefix cannot lie.
    pub open spec fn wf(self) -> bool {
        self.payload@.len() <= TINY_MAX_PAYLOAD
    }

    /// Build an envelope from a resource id and payload bytes.
    pub fn new(resource_id: u8, payload: &[u8]) -> (r: TinyMsg)
        requires
            payload@.len() <= TINY_MAX_PAYLOAD,
        ensures
            r.wf(),
            r.resource_id == resource_id,
            r.payload@ == payload@,
    {
        let mut p: Vec<u8> = Vec::new();
        append_bytes(&mut p, payload);
        TinyMsg { resource_id, payload: p }
    }

    /// Encode the envelope: exactly `TINY_HEAD_LEN + payload.len()` bytes.
    pub fn as_bytes(&self) -> (r: Vec<u8>)
        requires
            self.wf(),
        ensures
            r@ == tiny_bytes(*self),
            r@.len() == TINY_HEAD_LEN + self.payload@.len(),
    {
        let mut out: Vec<u8> = Vec::new();
        push_u16_be(&mut out, self.payload.len() as u16);
        out.push(self.resource_id);
        append_bytes(&mut out, self.payload.as_slice());
        assert(out@ =~= tiny_bytes(*self));
        out
    }

    /// Decode one envelope from `buf`, which must hold exactly one frame:
    /// the 3 prefix bytes followed by exactly `length` payload bytes.
    pub fn from_bytes(buf: &[u8]) -> (r: Result<TinyMsg, TransportError>)
        ensures
            match r {
                Ok(t) => {
                    &&& buf@.len() >= TINY_HEAD_LEN
                    &&& t.resource_id == buf@[2]
                    &&& t.payload@ == buf@.subrange(TINY_HEAD_LEN as int, buf@.len() as int)
                    &&& buf@.len() == TINY_HEAD_LEN + u16_of_bytes(buf@.subrange(0, 2))
                    &&& u16_of_bytes(buf@.subrange(0, 2)) <= TINY_MAX_PAYLOAD
                    &&& t.wf()
                },
                Err(e) => {
                    &&& e == TransportError::Framing
                    &&& (buf@.len() < TINY_HEAD_LEN || buf@.len() != TINY_HEAD_LEN + u16_of_bytes(
                        buf@.subrange(0, 2),
                    ) || u16_of_bytes(buf@.subrange(0, 2)) > TINY_MAX_PAYLOAD)
                },
            },
    {
        if buf.len() < TINY_HEAD_LEN {
            return Err(TransportError::Framing);
        }
        let length = read_u16_be(buf, 0);
        if length as usize > TINY_MAX_PAYLOAD {
            return Err(TransportError::Framing);
        }
        if buf.len() - TINY_HEAD_LEN != length as usize {
            return Err(TransportError::Framing);
        }
        let resource_id = buf[2];
        let mut payload: Vec<u8> = Vec::new();
        let mut i: usize = TINY_HEAD_LEN;
        while i < buf.len()
            invariant
                TINY_HEAD_LEN <= i <= buf@.len(),
                payload@ == buf@.subrange(TINY_HEAD_LEN as int, i as int),
            decreases buf@.len() - i,
        {
            payload.push(buf[i]);
            i = i + 1;
            assert(payload@ =~= buf@.subrange(TINY_HEAD_LEN as int, i as int));
        }
        Ok(TinyMsg { resource_id, payload })
    }

    /// Frame a multiplexed request: the payload is the 8-byte big-endian
    /// request id followed by the body.
    pub fn with_req_id(req_id: u64, resource_id: u8, body: &[u8]) -> (r: TinyMsg)
        requires
            body@.len() + REQ_ID_LEN <= TINY_MAX_PAYLOAD,
        ensures
            r.wf(),
            r.resource_id == resource_id,
            r.payload@ == bytes_of_u64(req_id) + body@,
    {
        let mut p: Vec<u8> = Vec::new();
        crate::endian::push_u64_be(&mut p, req_id);
        append_bytes(&mut p, body);
        TinyMsg { resource_id, payload: p }
    }

    /// The request id of a multiplexed envelope, when the payload is long
    /// enough to carry one.
    pub fn req_id(&self) -> (r: Option<u64>)
        ensures
            self.payload@.len() >= REQ_ID_LEN ==> r == Some(
                u64_of_bytes(self.payload@.subrange(0, REQ_ID_LEN as int)),
            ),
            self.payload@.len() < REQ_ID_LEN ==> r is None,
    {
        if self.payload.len() < REQ_ID_LEN {
            return None;
        }
        Some(read_u64_be(self.payload.as_slice(), 0))
    }

    /// The body of a multiplexed envelope: the payload after the request id.
    pub fn req_body(&self) -> (r: Vec<u8>)
        requires
            self.payload@.len() >= REQ_ID_LEN,
        ensures
            r@ == self.payload@.subrange(REQ_ID_LEN as int, self.payload@.len() as int),
    {
        let mut out: Vec<u8> = Vec::new();
        let mut i: usize = REQ_ID_LEN;
        while i < self.payload.len()
            invariant
                REQ_ID_LEN <= i <= self.payload@.len(),
                out@ == self.payload@.subrange(REQ_ID_LEN as int, i as int),
            decreases self.payload@.len() - i,
        {
            out.push(self.payload[i]);
            i = i + 1;
            assert(out@ =~= self.payload@.subrange(REQ_ID_LEN as int, i as int));
        }
        assert(out@ =~= self.payload@.subrange(REQ_ID_LEN as int, self.payload@.len() as int));
        out
    }
}

/// Decoding the wire image of a well-formed envelope recovers the envelope:
/// the length prefix reads back as the payload length, the resource id and
/// the payload bytes are unchanged.
pub proof fn lemma_tiny_roundtrip(t: TinyMsg)
    requires
        t.wf(),
    ensures
        tiny_bytes(t).len() == TINY_HEAD_LEN + t.payload@.len(),
        u16_of_bytes(tiny_bytes(t).subrange(0, 2)) == t.payload@.len(),
        tiny_bytes(t)[2] == t.resource_id,
        tiny_bytes(t).subrange(TINY_HEAD_LEN as int, tiny_bytes(t).len() as int) == t.payload@,
{
    let s = tiny_bytes(t);
    assert(s.subrange(0, 2) =~= bytes_of_u16(t.payload@.len() as u16));
    lemma_u16_roundtrip(t.payload@.len() as u16);
    assert(s.subrange(TINY_HEAD_LEN as int, s.len() as int) =~= t.payload@);
}

/// Parsing the request id and body out of a framed multiplexed request gives
/// back the id and body it was framed with.
pub proof fn lemma_req_id_roundtrip(req_id: u64, resource_id: u8, body: Seq<u8>)
    requires
        body.len() + REQ_ID_LEN <= TINY_MAX_PAYLOAD,
    ensures
        ({
            let p = bytes_of_u64(req_id) + body;
            &&& u64_of_bytes(p.subrange(0, REQ_ID_LEN as int)) == req_id
            &&& p.subrange(REQ_ID_LEN as int, p.len() as int) == body
        }),
{
    let p = bytes_of_u64(req_id) + body;
    assert(p.subrange(0, REQ_ID_LEN as int) =~= bytes_of_u64(req_id));
    lemma_u64_roundtrip(req_id);
    assert(p.subrange(REQ_ID_LEN as int, p.len() as int) =~= body);
}

} // verus!
