//! The peer description exchanged in the auth handshake: serialized into
//! the payload of the first frame on a new stream, and parsed back from the
//! peer's auth reply.
//!
//! The wire image is a fixed 58-byte record: id, service address slot,
//! optional cluster address slot, connection id, status, type, optional
//! load. An address slot is a family flag, 16 ip bytes (an IPv4 address
//! uses the first 4), and a port; absent optional slots are zero-filled.

use vstd::prelude::*;

use crate::endian::{
    bytes_of_u16, bytes_of_u32, bytes_of_u64, lemma_u16_roundtrip, lemma_u32_roundtrip,
    lemma_u64_roundtrip, push_u16_be, push_u32_be, push_u64_be, read_u16_be, read_u32_be,
    read_u64_be, u16_of_bytes, u32_of_bytes, u64_of_bytes,
};
use crate::error::TransportError;
use crate::msg::append_bytes;

verus! {

/// Byte length of the fixed wire image of a `ServerInfo`.
pub const INFO_LEN: usize = 58;

/// A socket address, kept as plain values: family, ip bytes, port.
#[derive(Clone, Debug)]
pub struct Address {
    /// True for IPv6; selects how many of the ip bytes are meaningful.
    pub v6: bool,
    /// 4 bytes for IPv4, 16 for IPv6.
    pub ip: Vec<u8>,
    pub port: u16,
}

impl Address {
    /// The ip vector has exactly the family's length.
    pub open spec fn wf(self) -> bool {
        self.ip@.len() == (if self.v6 {
            16int
        } else {
            4int
        })
    }
}

/// Liveness of a peer.
#[derive(Clone, Copy, Debug, PartialEq, Eq, Structural)]
pub enum ServerStatus {
    Online,
    Offline,
}

impl ServerStatus {
    pub open spec fn spec_value(self) -> u8 {
        match self {
            ServerStatus::Online => 1,
            ServerStatus::Offline => 2,
        }
    }

    pub open spec fn spec_valid(b: u8) -> bool {
        b == 1 || b == 2
    }

    pub open spec fn spec_from_u8(b: u8) -> ServerStatus
        recommends
            Self::spec_valid(b),
    {
        if b == 1 {
            ServerStatus::Online
        } else {
            ServerStatus::Offline
        }
    }

    pub fn value(&self) -> (r: u8)
        ensures
            r == self.spec_value(),
            Self::spec_valid(r),
    {
        match *self {
            ServerStatus::Online => 1,
            ServerStatus::Offline => 2,
        }
    }

    pub fn from_u8(b: u8) -> (r: Option<ServerStatus>)
        ensures
            r is Some <==> Self::spec_valid(b),
            r is Some ==> r->0 == Self::spec_from_u8(b),
    {
        match b {
            1 => Some(ServerStatus::Online),
            2 => Some(ServerStatus::Offline),
            _ => None,
        }
    }
}

/// The role a peer plays in the cluster.
#[derive(Clone, Copy, Debug, PartialEq, Eq, Structural)]
pub enum ServerType {
    MessageCluster,
    SchedulerClient,
    SeqnumCluster,
    ApiClient,
}

impl ServerType {
    pub open spec fn spec_value(self) -> u8 {
        match self {
            ServerType::MessageCluster => 1,
            ServerType::SchedulerClient => 2,
            ServerType::SeqnumCluster => 3,
            ServerType::ApiClient => 4,
        }
    }

    pub open spec fn spec_valid(b: u8) -> bool {
        1 <= b <= 4
    }

    pub open spec fn spec_from_u8(b: u8) -> ServerType
        recommends
            Self::spec_valid(b),
    {
        if b == 1 {
            ServerType::MessageCluster
        } else if b == 2 {
            ServerType::SchedulerClient
        } else if b == 3 {
            ServerType::SeqnumCluster
        } else {
            ServerType::ApiClient
        }
    }

    pub fn value(&self) -> (r: u8)
        ensures
            r == self.spec_value(),
            Self::spec_valid(r),
    {
        match *self {
            ServerType::MessageCluster => 1,
            ServerType::SchedulerClient => 2,
            ServerType::SeqnumCluster => 3,
            ServerType::ApiClient => 4,
        }
    }

    pub fn from_u8(b: u8) -> (r: Option<ServerType>)
        ensures
            r is Some <==> Self::spec_valid(b),
            r is Some ==> r->0 == Self::spec_from_u8(b),
    {
        match b {
            1 => Some(ServerType::MessageCluster),
            2 => Some(ServerType::SchedulerClient),
            3 => Some(ServerType::SeqnumCluster),
            4 => Some(ServerType::ApiClient),
            _ => None,
        }
    }
}

/// Describes a peer in the cluster.
#[derive(Clone, Debug)]
pub struct ServerInfo {
    pub id: u32,
    pub service_address: Address,
    pub cluster_address: Option<Address>,
    /// Assigned by the server on accept.
    pub connection_id: u64,
    pub status: ServerStatus,
    pub typ: ServerType,
    pub load: Option<u32>,
}

impl ServerInfo {
    pub open spec fn wf(self) -> bool {
        &&& self.service_address.wf()
        &&& self.cluster_address is Some ==> (self.cluster_address->0).wf()
    }
}

/// A run of `n` zero bytes.
pub open spec fn zero_bytes(n: int) -> Seq<u8> {
    Seq::new(n as nat, |i: int| 0u8)
}

/// The 16 ip bytes of an address slot: IPv4 is padded with zeros.
pub open spec fn ip_padded(a: Address) -> Seq<u8> {
    if a.v6 {
        a.ip@
    } else {
        a.ip@ + zero_bytes(12)
    }
}

/// The 19 bytes of an address slot: family flag, padded ip, port.
pub open spec fn addr_slot_bytes(a: Address) -> Seq<u8> {
    seq![
        if a.v6 {
            1u8
        } else {
            0u8
        },
    ] + ip_padded(a) + bytes_of_u16(a.port)
}

/// The fixed 58-byte wire image of a `ServerInfo`.
pub open spec fn info_bytes(si: ServerInfo) -> Seq<u8> {
    bytes_of_u32(si.id) + addr_slot_bytes(si.service_address) + (match si.cluster_address {
        Some(a) => seq![1u8] + addr_slot_bytes(a),
        None => seq![0u8] + zero_bytes(19),
    }) + bytes_of_u64(si.connection_id) + seq![si.status.spec_value()] + seq![
        si.typ.spec_value(),
    ] + (match si.load {
        Some(v) => seq![1u8] + bytes_of_u32(v),
        None => seq![0u8] + zero_bytes(4),
    })
}

/// Whether `s` decodes as a `ServerInfo`: the right length, and every flag
/// and discriminant byte in range.
pub open spec fn info_valid(s: Seq<u8>) -> bool {
    &&& s.len() == INFO_LEN
    &&& (s[4] == 0 || s[4] == 1)
    &&& (s[23] == 0 || s[23] == 1)
    &&& (s[23] == 1 ==> s[24] == 0 || s[24] == 1)
    &&& ServerStatus::spec_valid(s[51])
    &&& ServerType::spec_valid(s[52])
    &&& (s[53] == 0 || s[53] == 1)
}

/// Append `n` zero bytes to `out`.
fn push_zeros(out: &mut Vec<u8>, n: usize)
    ensures
        final(out)@ == old(out)@ + zero_bytes(n as int),
{
    let mut k: usize = 0;
    while k < n
        invariant
            k <= n,
            out@ == old(out)@ + zero_bytes(k as int),
        decreases n - k,
    {
        out.push(0u8);
        k = k + 1;
        assert(out@ =~= old(out)@ + zero_bytes(k as int));
    }
}

/// Append the 19-byte slot of an address to `out`.
fn push_addr_slot(out: &mut Vec<u8>, a: &Address)
    requires
        a.wf(),
    ensures
        final(out)@ == old(out)@ + addr_slot_bytes(*a),
{
    if a.v6 {
        out.push(1u8);
    } else {
        out.push(0u8);
    }
    append_bytes(out, a.ip.as_slice());
    if !a.v6 {
        push_zeros(out, 12);
    }
    push_u16_be(out, a.port);
    assert(out@ =~= old(out)@ + addr_slot_bytes(*a));
}

/// Copy `n` bytes of `buf` starting at `off`.
fn read_bytes(buf: &[u8], off: usize, n: usize) -> (r: Vec<u8>)
    requires
        off + n <= buf@.len(),
    ensures
        r@ == buf@.subrange(off as int, off as int + n as int),
{
    let blen: usize = buf.len();
    let mut out: Vec<u8> = Vec::new();
    let mut k: usize = 0;
    while k < n
        invariant
            k <= n,
            off + n <= blen,
            blen == buf@.len(),
            out@ == buf@.subrange(off as int, off as int + k as int),
        decreases n - k,
    {
        out.push(buf[off + k]);
        k = k + 1;
        assert(out@ =~= buf@.subrange(off as int, off as int + k as int));
    }
    out
}

impl ServerInfo {
    /// Encode this description: exactly `INFO_LEN` bytes.
    #[verifier::rlimit(60)]
    pub fn to_bytes(&self) -> (r: Vec<u8>)
        requires
            self.wf(),
        ensures
            r@ == info_bytes(*self),
            r@.len() == INFO_LEN,
    {
        let mut out: Vec<u8> = Vec::new();
        push_u32_be(&mut out, self.id);
        push_addr_slot(&mut out, &self.service_address);
        match &self.cluster_address {
            Some(a) => {
                out.push(1u8);
                push_addr_slot(&mut out, a);
            },
            None => {
                out.push(0u8);
                push_zeros(&mut out, 19);
            },
        }
        push_u64_be(&mut out, self.connection_id);
        out.push(self.status.value());
        out.push(self.typ.value());
        match self.load {
            Some(v) => {
                out.push(1u8);
                push_u32_be(&mut out, v);
            },
            None => {
                out.push(0u8);
                push_zeros(&mut out, 4);
            },
        }
        assert(out@ =~= info_bytes(*self));
        out
    }

    /// Decode a description. Succeeds exactly when the bytes have the right
    /// length and every flag and discriminant is in range; the decoded
    /// fields are the projections of the bytes.
    pub fn from_bytes(buf: &[u8]) -> (r: Result<ServerInfo, TransportError>)
        ensures
            r is Ok <==> info_valid(buf@),
            match r {
                Ok(si) => {
                    &&& si.wf()
                    &&& si.id == u32_of_bytes(buf@.subrange(0, 4))
                    &&& si.service_address.v6 == (buf@[4] == 1)
                    &&& si.service_address.ip@ == (if buf@[4] == 1 {
                        buf@.subrange(5, 21)
                    } else {
                        buf@.subrange(5, 9)
                    })
                    &&& si.service_address.port == u16_of_bytes(buf@.subrange(21, 23))
                    &&& (si.cluster_address is Some) == (buf@[23] == 1)
                    &&& (buf@[23] == 1 ==> (si.cluster_address->0).v6 == (buf@[24] == 1)
                        && (si.cluster_address->0).ip@ == (if buf@[24] == 1 {
                        buf@.subrange(25, 41)
                    } else {
                        buf@.subrange(25, 29)
                    }) && (si.cluster_address->0).port == u16_of_bytes(buf@.subrange(41, 43)))
                    &&& si.connection_id == u64_of_bytes(buf@.subrange(43, 51))
                    &&& si.status == ServerStatus::spec_from_u8(buf@[51])
                    &&& si.typ == ServerType::spec_from_u8(buf@[52])
                    &&& (si.load is Some) == (buf@[53] == 1)
                    &&& (buf@[53] == 1 ==> si.load->0 == u32_of_bytes(buf@.subrange(54, 58)))
                },
                Err(e) => e == TransportError::Framing,
            },
    {
        if buf.len() != INFO_LEN {
            return Err(TransportError::Framing);
        }
        let id = read_u32_be(buf, 0);
        let service_v6_flag = buf[4];
        if service_v6_flag > 1 {
            return Err(TransportError::Framing);
        }
        let service_v6 = service_v6_flag == 1;
        let service_ip = if service_v6 {
            read_bytes(buf, 5, 16)
        } else {
            read_bytes(buf, 5, 4)
        };
        let service_port = read_u16_be(buf, 21);
        let cluster_flag = buf[23];
        if cluster_flag > 1 {
            return Err(TransportError::Framing);
        }
        let cluster_address = if cluster_flag == 1 {
            let cluster_v6_flag = buf[24];
            if cluster_v6_flag > 1 {
                return Err(TransportError::Framing);
            }
            let cluster_v6 = cluster_v6_flag == 1;
            let cluster_ip = if cluster_v6 {
                read_bytes(buf, 25, 16)
            } else {
                read_bytes(buf, 25, 4)
            };
            let cluster_port = read_u16_be(buf, 41);
            Some(Address { v6: cluster_v6, ip: cluster_ip, port: cluster_port })
        } else {
            None
        };
        let connection_id = read_u64_be(buf, 43);
        let status = match ServerStatus::from_u8(buf[51]) {
            Some(s) => s,
            None => {
                return Err(TransportError::Framing);
            },
        };
        let typ = match ServerType::from_u8(buf[52]) {
            Some(t) => t,
            None => {
                return Err(TransportError::Framing);
            },
        };
        let load_flag = buf[53];
        if load_flag > 1 {
            return Err(TransportError::Framing);
        }
        let load = if load_flag == 1 {
            Some(read_u32_be(buf, 54))
        } else {
            None
        };
        Ok(ServerInfo {
            id,
            service_address: Address { v6: service_v6, ip: service_ip, port: service_port },
            cluster_address,
            connection_id,
            status,
            typ,
            load,
        })
    }
}

/// Decoding the wire value of a status or type gives it back.
pub proof fn lemma_enum_roundtrips(st: ServerStatus, ty: ServerType)
    ensures
        ServerStatus::spec_from_u8(st.spec_value()) == st,
        ServerType::spec_from_u8(ty.spec_value()) == ty,
{
}

/// The wire image of a well-formed description is valid and projects back
/// to the description's own fields: decoding what was encoded recovers
/// every field.
pub proof fn lemma_info_roundtrip(si: ServerInfo)
    requires
        si.wf(),
    ensures
        ({
            let s = info_bytes(si);
            &&& s.len() == INFO_LEN
            &&& info_valid(s)
            &&& u32_of_bytes(s.subrange(0, 4)) == si.id
            &&& (s[4] == 1) == si.service_address.v6
            &&& (if s[4] == 1 {
                s.subrange(5, 21)
            } else {
                s.subrange(5, 9)
            }) == si.service_address.ip@
            &&& u16_of_bytes(s.subrange(21, 23)) == si.service_address.port
            &&& (s[23] == 1) == (si.cluster_address is Some)
            &&& (si.cluster_address is Some ==> (s[24] == 1) == (si.cluster_address->0).v6 && (
            if s[24] == 1 {
                s.subrange(25, 41)
            } else {
                s.subrange(25, 29)
            }) == (si.cluster_address->0).ip@ && u16_of_bytes(s.subrange(41, 43)) == (
            si.cluster_address->0).port)
            &&& u64_of_bytes(s.subrange(43, 51)) == si.connection_id
            &&& ServerStatus::spec_from_u8(s[51]) == si.status
            &&& ServerType::spec_from_u8(s[52]) == si.typ
            &&& (s[53] == 1) == (si.load is Some)
            &&& (si.load is Some ==> u32_of_bytes(s.subrange(54, 58)) == si.load->0)
        }),
{
    let s = info_bytes(si);
    assert(s.len() == INFO_LEN);
    assert(s.subrange(0, 4) =~= bytes_of_u32(si.id));
    lemma_u32_roundtrip(si.id);
    let sa = si.service_address;
    assert(s[4] == (if sa.v6 {
        1u8
    } else {
        0u8
    }));
    if sa.v6 {
        assert(s.subrange(5, 21) =~= sa.ip@);
    } else {
        assert(s.subrange(5, 9) =~= sa.ip@);
    }
    assert(s.subrange(21, 23) =~= bytes_of_u16(sa.port));
    lemma_u16_roundtrip(sa.port);
    match si.cluster_address {
        Some(a) => {
            assert(s[23] == 1);
            assert(s[24] == (if a.v6 {
                1u8
            } else {
                0u8
            }));
            if a.v6 {
                assert(s.subrange(25, 41) =~= a.ip@);
            } else {
                assert(s.subrange(25, 29) =~= a.ip@);
            }
            assert(s.subrange(41, 43) =~= bytes_of_u16(a.port));
            lemma_u16_roundtrip(a.port);
        },
        None => {
            assert(s[23] == 0);
        },
    }
    assert(s.subrange(43, 51) =~= bytes_of_u64(si.connection_id));
    lemma_u64_roundtrip(si.connection_id);
    assert(s[51] == si.status.spec_value());
    assert(s[52] == si.typ.spec_value());
    lemma_enum_roundtrips(si.status, si.typ);
    match si.load {
        Some(v) => {
            assert(s[53] == 1);
            assert(s.subrange(54, 58) =~= bytes_of_u32(v));
            lemma_u32_roundtrip(v);
        },
        None => {
            assert(s[53] == 0);
        },
    }
}

} // verus!
