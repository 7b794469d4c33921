//! Framing a whole stream of messages. Within one stream, frames sit back to
//! back; decoding the concatenation recovers exactly the sequence that was
//! encoded, in order, which is the content-level statement of per-stream
//! FIFO delivery.

use vstd::prelude::*;
use vstd::slice::slice_subrange;

use crate::error::TransportError;
use crate::msg::{append_bytes, head_of_bytes, lemma_msg_prefix, msg_v_bytes, Head, Msg, MsgV};
use crate::HEAD_LEN;

verus! {

/// The message values of a vector of messages.
pub open spec fn views_of(ms: Seq<Msg>) -> Seq<MsgV> {
    ms.map_values(|m: Msg| m@)
}

/// Every message value in the sequence is well formed.
pub open spec fn all_wf(ms: Seq<MsgV>) -> bool {
    forall|i: int| 0 <= i < ms.len() ==> (#[trigger] ms[i]).wf()
}

/// The bytes of a stream carrying `ms` in order: each frame's wire image,
/// back to back.
pub open spec fn stream_bytes(ms: Seq<MsgV>) -> Seq<u8>
    decreases ms.len(),
{
    if ms.len() == 0 {
        Seq::empty()
    } else {
        msg_v_bytes(ms[0]) + stream_bytes(ms.skip(1))
    }
}

/// The message values framed by `s`, when `s` is a whole number of valid
/// frames; `None` when `s` ends inside a header or inside a payload.
pub open spec fn spec_decode_stream(s: Seq<u8>) -> Option<Seq<MsgV>>
    decreases s.len(),
{
    if s.len() == 0 {
        Some(Seq::empty())
    } else if s.len() < HEAD_LEN {
        None
    } else {
        let h = head_of_bytes(s);
        let flen = HEAD_LEN + h.length as int;
        if s.len() < flen {
            None
        } else {
            let mv = MsgV { head: h, payload: s.subrange(HEAD_LEN as int, flen) };
            match spec_decode_stream(s.subrange(flen, s.len() as int)) {
                Some(rest) => Some(seq![mv] + rest),
                None => None,
            }
        }
    }
}

/// Appending one frame to a stream appends its wire image to the stream's
/// bytes.
pub proof fn lemma_stream_snoc(ms: Seq<MsgV>, m: MsgV)
    ensures
        stream_bytes(ms.push(m)) == stream_bytes(ms) + msg_v_bytes(m),
    decreases ms.len(),
{
    if ms.len() == 0 {
        reveal_with_fuel(stream_bytes, 2);
        assert(ms.push(m)[0] == m);
        assert(ms.push(m).skip(1) =~= Seq::<MsgV>::empty());
        assert(stream_bytes(ms.push(m)) =~= stream_bytes(ms) + msg_v_bytes(m));
    } else {
        assert(ms.push(m)[0] == ms[0]);
        assert(ms.push(m).skip(1) =~= ms.skip(1).push(m));
        lemma_stream_snoc(ms.skip(1), m);
        assert(stream_bytes(ms.push(m)) =~= stream_bytes(ms) + msg_v_bytes(m));
    }
}

/// Decoding the bytes of a stream that carries a sequence of well-formed
/// messages gives back exactly that sequence, in order.
pub proof fn lemma_stream_roundtrip(ms: Seq<MsgV>)
    requires
        all_wf(ms),
    ensures
        spec_decode_stream(stream_bytes(ms)) == Some(ms),
    decreases ms.len(),
{
    if ms.len() == 0 {
    } else {
        let s = stream_bytes(ms);
        let rest = stream_bytes(ms.skip(1));
        lemma_msg_prefix(ms[0], rest);
        assert(all_wf(ms.skip(1))) by {
            assert(forall|i: int|
                0 <= i < ms.skip(1).len() ==> #[trigger] ms.skip(1)[i] == ms[i + 1]);
        }
        lemma_stream_roundtrip(ms.skip(1));
        let flen = HEAD_LEN + ms[0].head.length as int;
        assert(head_of_bytes(s) == ms[0].head);
        assert(s.subrange(HEAD_LEN as int, flen) == ms[0].payload);
        assert(s.subrange(flen, s.len() as int) == rest);
        assert((MsgV { head: ms[0].head, payload: ms[0].payload }) == ms[0]);
        assert(seq![ms[0]] + ms.skip(1) =~= ms);
    }
}

/// Greedy incremental decoding: split `s` into the message values of its
/// complete leading frames and the unconsumed tail, which is too short to
/// hold another frame.
pub open spec fn spec_parse(s: Seq<u8>) -> (Seq<MsgV>, Seq<u8>)
    decreases s.len(),
{
    if s.len() < HEAD_LEN {
        (Seq::empty(), s)
    } else {
        let h = head_of_bytes(s);
        let flen = HEAD_LEN + h.length as int;
        if s.len() < flen {
            (Seq::empty(), s)
        } else {
            let mv = MsgV { head: h, payload: s.subrange(HEAD_LEN as int, flen) };
            let (ms, rest) = spec_parse(s.subrange(flen, s.len() as int));
            (seq![mv] + ms, rest)
        }
    }
}

/// Parsing a stream image followed by anything finds exactly the carried
/// messages first, in order, and then parses on: the reader recovers the
/// writer's sequence whatever bytes follow.
pub proof fn lemma_parse_of_stream(ms: Seq<MsgV>, extra: Seq<u8>)
    requires
        all_wf(ms),
    ensures
        spec_parse(stream_bytes(ms) + extra) == (ms + spec_parse(extra).0, spec_parse(extra).1),
    decreases ms.len(),
{
    if ms.len() == 0 {
        assert(stream_bytes(ms) + extra =~= extra);
        assert(ms + spec_parse(extra).0 =~= spec_parse(extra).0);
    } else {
        let tail_stream = stream_bytes(ms.skip(1));
        let s = stream_bytes(ms) + extra;
        lemma_msg_prefix(ms[0], tail_stream + extra);
        assert(s =~= msg_v_bytes(ms[0]) + (tail_stream + extra));
        let flen = HEAD_LEN + ms[0].head.length as int;
        assert(head_of_bytes(s) == ms[0].head);
        assert(s.subrange(HEAD_LEN as int, flen) == ms[0].payload);
        assert(s.subrange(flen, s.len() as int) == tail_stream + extra);
        assert(all_wf(ms.skip(1))) by {
            assert(forall|i: int|
                0 <= i < ms.skip(1).len() ==> #[trigger] ms.skip(1)[i] == ms[i + 1]);
        }
        lemma_parse_of_stream(ms.skip(1), extra);
        assert((MsgV { head: ms[0].head, payload: ms[0].payload }) == ms[0]);
        assert(seq![ms[0]] + (ms.skip(1) + spec_parse(extra).0) =~= ms + spec_parse(extra).0);
    }
}

/// Parsing exactly a stream image finds exactly the carried messages and
/// consumes every byte.
pub proof fn lemma_parse_stream(ms: Seq<MsgV>)
    requires
        all_wf(ms),
    ensures
        spec_parse(stream_bytes(ms)) == (ms, Seq::<u8>::empty()),
{
    lemma_parse_of_stream(ms, Seq::empty());
    assert(stream_bytes(ms) + Seq::<u8>::empty() =~= stream_bytes(ms));
    assert(spec_parse(Seq::<u8>::empty()).0 =~= Seq::<MsgV>::empty());
    assert(ms + Seq::<MsgV>::empty() =~= ms);
}

/// The wire image determines the messages: two well-formed sequences with
/// the same stream image are the same sequence.
pub proof fn lemma_stream_bytes_injective(a: Seq<MsgV>, b: Seq<MsgV>)
    requires
        all_wf(a),
        all_wf(b),
        stream_bytes(a) == stream_bytes(b),
    ensures
        a == b,
{
    lemma_stream_roundtrip(a);
    lemma_stream_roundtrip(b);
}

/// The reader side of a stream wrapper: bytes arrive in arbitrary chunks,
/// and every completed frame is decoded into a message, in arrival order.
pub struct StreamParser {
    /// Bytes received but not yet part of a complete frame.
    pub buf: Vec<u8>,
    /// Messages decoded so far, oldest first.
    pub msgs: Vec<Msg>,
}

impl StreamParser {
    pub fn new() -> (r: Self)
        ensures
            r.buf@.len() == 0,
            r.msgs@.len() == 0,
    {
        StreamParser { buf: Vec::new(), msgs: Vec::new() }
    }

    /// Feed one chunk of received bytes and decode every frame it
    /// completes. Decoding is greedy and chunking-independent: the messages
    /// gained are exactly the complete leading frames of the unconsumed
    /// bytes so far plus this chunk, and the new unconsumed tail is what
    /// they leave behind.
    pub fn feed(&mut self, chunk: &[u8])
        ensures
            views_of(final(self).msgs@) == views_of(old(self).msgs@) + spec_parse(
                old(self).buf@ + chunk@,
            ).0,
            final(self).buf@ == spec_parse(old(self).buf@ + chunk@).1,
            forall|i: int|
                0 <= i < old(self).msgs@.len() ==> final(self).msgs@[i] == old(self).msgs@[i],
            all_wf(views_of(old(self).msgs@)) ==> all_wf(views_of(final(self).msgs@)),
    {
        let ghost start = old(self).buf@ + chunk@;
        let ghost msgs0 = old(self).msgs@;
        append_bytes(&mut self.buf, chunk);
        proof {
            assert(self.buf@ =~= start);
            assert(views_of(msgs0).skip(msgs0.len() as int) =~= Seq::<MsgV>::empty());
            assert(Seq::<MsgV>::empty() + spec_parse(start).0 =~= spec_parse(start).0);
        }
        loop
            invariant
                spec_parse(start).0 == views_of(self.msgs@).skip(msgs0.len() as int)
                    + spec_parse(self.buf@).0,
                spec_parse(start).1 == spec_parse(self.buf@).1,
                msgs0.len() <= self.msgs@.len(),
                forall|i: int| 0 <= i < msgs0.len() ==> self.msgs@[i] == msgs0[i],
                forall|i: int|
                    msgs0.len() <= i < self.msgs@.len() ==> (#[trigger] self.msgs@[i]@).wf(),
            ensures
                spec_parse(start).0 == views_of(self.msgs@).skip(msgs0.len() as int),
                spec_parse(start).1 == self.buf@,
                msgs0.len() <= self.msgs@.len(),
                forall|i: int| 0 <= i < msgs0.len() ==> self.msgs@[i] == msgs0[i],
                forall|i: int|
                    msgs0.len() <= i < self.msgs@.len() ==> (#[trigger] self.msgs@[i]@).wf(),
            decreases self.buf@.len(),
        {
            if self.buf.len() < HEAD_LEN {
                proof {
                    assert(spec_parse(self.buf@).0 =~= Seq::<MsgV>::empty());
                    assert(views_of(self.msgs@).skip(msgs0.len() as int) + Seq::<
                        MsgV,
                    >::empty() =~= views_of(self.msgs@).skip(msgs0.len() as int));
                }
                break ;
            }
            let head = match Head::from_bytes(self.buf.as_slice()) {
                Ok(h) => h,
                Err(_) => {
                    proof {
                        assert(false);
                    }
                    break ;
                },
            };
            let flen: usize = HEAD_LEN + head.length as usize;
            if self.buf.len() < flen {
                proof {
                    assert(spec_parse(self.buf@).0 =~= Seq::<MsgV>::empty());
                    assert(views_of(self.msgs@).skip(msgs0.len() as int) + Seq::<
                        MsgV,
                    >::empty() =~= views_of(self.msgs@).skip(msgs0.len() as int));
                }
                break ;
            }
            let ghost buf_pre = self.buf@;
            let mut payload: Vec<u8> = Vec::new();
            let mut j: usize = HEAD_LEN;
            while j < flen
                invariant
                    HEAD_LEN <= j <= flen,
                    flen <= self.buf@.len(),
                    self.buf@ == buf_pre,
                    payload@ == self.buf@.subrange(HEAD_LEN as int, j as int),
                decreases flen - j,
            {
                payload.push(self.buf[j]);
                j = j + 1;
                assert(payload@ =~= self.buf@.subrange(HEAD_LEN as int, j as int));
            }
            let mut rest: Vec<u8> = Vec::new();
            let mut k: usize = flen;
            let buf_len: usize = self.buf.len();
            while k < buf_len
                invariant
                    flen <= k <= buf_len,
                    buf_len == self.buf@.len(),
                    self.buf@ == buf_pre,
                    rest@ == self.buf@.subrange(flen as int, k as int),
                decreases buf_len - k,
            {
                rest.push(self.buf[k]);
                k = k + 1;
                assert(rest@ =~= self.buf@.subrange(flen as int, k as int));
            }
            let m = Msg { head, payload };
            proof {
                let flen_i = HEAD_LEN + head.length as int;
                let mv = MsgV { head: head_of_bytes(buf_pre), payload: buf_pre.subrange(
                    HEAD_LEN as int,
                    flen_i,
                ) };
                assert(m@ == mv);
                assert(m@.wf());
                assert(rest@ =~= buf_pre.subrange(flen_i, buf_pre.len() as int));
                assert(spec_parse(buf_pre).0 == seq![mv] + spec_parse(rest@).0);
                assert(spec_parse(buf_pre).1 == spec_parse(rest@).1);
                assert(views_of(self.msgs@.push(m)) =~= views_of(self.msgs@).push(m@));
                assert(views_of(self.msgs@.push(m)).skip(msgs0.len() as int) =~= views_of(
                    self.msgs@,
                ).skip(msgs0.len() as int).push(m@));
                assert(views_of(self.msgs@).skip(msgs0.len() as int) + (seq![mv] + spec_parse(
                    rest@,
                ).0) =~= views_of(self.msgs@.push(m)).skip(msgs0.len() as int) + spec_parse(
                    rest@,
                ).0);
            }
            self.msgs.push(m);
            self.buf = rest;
        }
        proof {
            assert(views_of(self.msgs@) =~= views_of(msgs0) + views_of(self.msgs@).skip(
                msgs0.len() as int,
            ));
            if all_wf(views_of(msgs0)) {
                assert forall|i: int|
                    0 <= i < views_of(self.msgs@).len() implies (#[trigger] views_of(
                    self.msgs@,
                )[i]).wf() by {
                    if i < msgs0.len() {
                        assert(views_of(msgs0)[i].wf());
                    }
                }
            }
        }
    }

    /// Hand out the decoded messages, oldest first, leaving the parser with
    /// its unconsumed tail.
    pub fn take_msgs(&mut self) -> (r: Vec<Msg>)
        ensures
            r@ == old(self).msgs@,
            final(self).msgs@.len() == 0,
            final(self).buf@ == old(self).buf@,
    {
        let mut out: Vec<Msg> = Vec::new();
        core::mem::swap(&mut self.msgs, &mut out);
        out
    }
}

/// Encode a sequence of well-formed messages into one stream image.
pub fn encode_all(msgs: &Vec<Msg>) -> (r: Vec<u8>)
    requires
        all_wf(views_of(msgs@)),
    ensures
        r@ == stream_bytes(views_of(msgs@)),
{
    let mut out: Vec<u8> = Vec::new();
    let mut i: usize = 0;
    while i < msgs.len()
        invariant
            i <= msgs@.len(),
            all_wf(views_of(msgs@)),
            out@ == stream_bytes(views_of(msgs@).subrange(0, i as int)),
        decreases msgs@.len() - i,
    {
        let bytes = msgs[i].as_bytes();
        crate::msg::append_bytes(&mut out, bytes.as_slice());
        proof {
            lemma_stream_snoc(views_of(msgs@).subrange(0, i as int), msgs@[i as int]@);
            assert(views_of(msgs@).subrange(0, i as int + 1) =~= views_of(msgs@).subrange(
                0,
                i as int,
            ).push(msgs@[i as int]@));
        }
        i = i + 1;
    }
    proof {
        assert(views_of(msgs@).subrange(0, msgs@.len() as int) =~= views_of(msgs@));
    }
    out
}

/// Decode a whole stream image into the messages it carries. Fails with
/// `Framing` exactly when the bytes are not a whole number of valid frames.
pub fn decode_all(buf: &[u8]) -> (r: Result<Vec<Msg>, TransportError>)
    ensures
        match r {
            Ok(ms) => {
                &&& spec_decode_stream(buf@) == Some(views_of(ms@))
                &&& all_wf(views_of(ms@))
            },
            Err(e) => {
                &&& e == TransportError::Framing
                &&& spec_decode_stream(buf@) is None
            },
        },
{
    let mut acc: Vec<Msg> = Vec::new();
    let mut off: usize = 0;
    proof {
        assert(buf@.subrange(0, buf@.len() as int) =~= buf@);
        match spec_decode_stream(buf@) {
            Some(rest) => {
                assert(views_of(acc@) + rest =~= rest);
            },
            None => {},
        }
    }
    while off < buf.len()
        invariant
            off <= buf@.len(),
            all_wf(views_of(acc@)),
            match spec_decode_stream(buf@.subrange(off as int, buf@.len() as int)) {
                Some(rest) => spec_decode_stream(buf@) == Some(views_of(acc@) + rest),
                None => spec_decode_stream(buf@) is None,
            },
        decreases buf@.len() - off,
    {
        let ghost tail = buf@.subrange(off as int, buf@.len() as int);
        if buf.len() - off < HEAD_LEN {
            return Err(TransportError::Framing);
        }
        let tail_slice = slice_subrange(buf, off, buf.len());
        let head = match Head::from_bytes(tail_slice) {
            Ok(h) => h,
            Err(_) => {
                return Err(TransportError::Framing);
            },
        };
        assert(head == head_of_bytes(tail));
        let flen: usize = HEAD_LEN + head.length as usize;
        if buf.len() - off < flen {
            return Err(TransportError::Framing);
        }
        let end: usize = off + flen;
        let mut payload: Vec<u8> = Vec::new();
        let mut j: usize = off + HEAD_LEN;
        while j < end
            invariant
                off + HEAD_LEN <= j <= end,
                end == off + flen,
                end <= buf@.len(),
                payload@ == buf@.subrange(off as int + HEAD_LEN as int, j as int),
            decreases end - j,
        {
            payload.push(buf[j]);
            j = j + 1;
            assert(payload@ =~= buf@.subrange(off as int + HEAD_LEN as int, j as int));
        }
        let m = Msg { head, payload };
        proof {
            let flen_i = HEAD_LEN + head.length as int;
            let mv = MsgV { head: head_of_bytes(tail), payload: tail.subrange(
                HEAD_LEN as int,
                flen_i,
            ) };
            assert(m.payload@ =~= tail.subrange(HEAD_LEN as int, flen_i));
            assert(m@ == mv);
            assert(m@.wf());
            assert(views_of(acc@.push(m)) =~= views_of(acc@).push(m@));
            assert(all_wf(views_of(acc@.push(m)))) by {
                assert(forall|i: int|
                    0 <= i < views_of(acc@).len() ==> (#[trigger] views_of(acc@.push(m))[i])
                        == views_of(acc@)[i]);
            }
            let new_tail = buf@.subrange(off as int + flen as int, buf@.len() as int);
            assert(tail.subrange(flen_i, tail.len() as int) =~= new_tail);
            match spec_decode_stream(new_tail) {
                Some(rest) => {
                    assert(spec_decode_stream(tail) == Some(seq![mv] + rest));
                    assert(views_of(acc@) + (seq![mv] + rest) =~= views_of(acc@.push(m)) + rest);
                },
                None => {
                    assert(spec_decode_stream(tail) is None);
                },
            }
        }
        acc.push(m);
        off = end;
    }
    proof {
        assert(buf@.subrange(off as int, buf@.len() as int) =~= Seq::<u8>::empty());
        assert(spec_decode_stream(buf@) == Some(views_of(acc@) + Seq::<MsgV>::empty()));
        assert(views_of(acc@) + Seq::<MsgV>::empty() =~= views_of(acc@));
    }
    Ok(acc)
}

} // verus!
