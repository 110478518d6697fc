//! Length-prefixed message framing: a 4-byte big-endian length followed by the
//! payload bytes, with payloads capped at 2 MiB. The same framing serves the
//! request and the response direction of the messaging protocol.

use vstd::prelude::*;

verus! {

/// Largest payload, in bytes, that the codec accepts: 2 MiB.
pub const MAX_LENGTH: usize = 2097152;

/// The messaging protocol's identifier on the wire, distinct from the
/// metadata-exchange protocol's identifier.
#[derive(Clone, Copy)]
pub struct MsgProto;

impl MsgProto {
    /// The fixed ASCII string that names the messaging protocol during
    /// stream negotiation.
    pub fn protocol_name(&self) -> (r: &'static str)
        ensures
            r@ == "/send_msg/1.0"@,
    {
        "/send_msg/1.0"
    }
}

/// The metadata-exchange protocol's identifier on the wire, distinct from
/// the messaging protocol's identifier.
#[derive(Clone, Copy)]
pub struct MetaProto;

impl MetaProto {
    /// The fixed ASCII string that names the metadata-exchange protocol.
    pub fn protocol_name(&self) -> (r: &'static str)
        ensures
            r@ == "/send-msg-id/1.0.0"@,
    {
        "/send-msg-id/1.0.0"
    }
}

/// The two protocol identifiers are distinct, as stream negotiation needs.
pub proof fn lemma_protocol_ids_distinct()
    ensures
        "/send_msg/1.0"@ != "/send-msg-id/1.0.0"@,
{
    reveal_strlit("/send_msg/1.0");
    reveal_strlit("/send-msg-id/1.0.0");
    assert("/send_msg/1.0"@.len() == 13 && "/send-msg-id/1.0.0"@.len() == 18);
}

/// An opaque binary message: the unit the codec frames and unframes.
#[derive(Debug)]
pub struct Message(pub Vec<u8>);

impl View for Message {
    type V = Seq<u8>;

    open spec fn view(&self) -> Seq<u8> {
        self.0@
    }
}

/// How a framed read or write fails.
#[derive(Debug, PartialEq, Eq, Structural)]
pub enum CodecError {
    /// The declared length exceeds `MAX_LENGTH`; the payload is not consumed.
    OversizedMessage,
    /// The stream ended before a whole frame was available.
    Transport,
}

/// The four big-endian bytes that encode a length `n`.
pub open spec fn spec_len_prefix(n: u32) -> Seq<u8> {
    seq![
        ((n >> 24) & 0xff) as u8,
        ((n >> 16) & 0xff) as u8,
        ((n >> 8) & 0xff) as u8,
        (n & 0xff) as u8,
    ]
}

/// The length a four-byte big-endian prefix declares.
pub open spec fn spec_be32(s: Seq<u8>) -> u32
    recommends
        s.len() == 4,
{
    ((s[0] as u32) << 24) | ((s[1] as u32) << 16) | ((s[2] as u32) << 8) | (s[3] as u32)
}

/// Encoding a length and decoding it again round-trips, in both directions.
pub proof fn lemma_prefix_round_trip()
    ensures
        forall|n: u32|
            {
                &&& (#[trigger] spec_len_prefix(n)).len() == 4
                &&& spec_be32(spec_len_prefix(n)) == n
            },
        forall|s: Seq<u8>| s.len() == 4 ==> #[trigger] spec_len_prefix(spec_be32(s)) == s,
{
    assert forall|n: u32|
        {
            &&& (#[trigger] spec_len_prefix(n)).len() == 4
            &&& spec_be32(spec_len_prefix(n)) == n
        } by {
        let b0 = ((n >> 24) & 0xff) as u8;
        let b1 = ((n >> 16) & 0xff) as u8;
        let b2 = ((n >> 8) & 0xff) as u8;
        let b3 = (n & 0xff) as u8;
        assert(((b0 as u32) << 24) | ((b1 as u32) << 16) | ((b2 as u32) << 8) | (b3 as u32)
            == n) by (bit_vector)
            requires
                b0 == ((n >> 24) & 0xff) as u8,
                b1 == ((n >> 16) & 0xff) as u8,
                b2 == ((n >> 8) & 0xff) as u8,
                b3 == (n & 0xff) as u8,
        ;
    }
    assert forall|s: Seq<u8>| s.len() == 4 implies #[trigger] spec_len_prefix(spec_be32(s))
        == s by {
        let n = spec_be32(s);
        let s0 = s[0];
        let s1 = s[1];
        let s2 = s[2];
        let s3 = s[3];
        assert(((n >> 24) & 0xff) as u8 == s0 && ((n >> 16) & 0xff) as u8 == s1 && ((n >> 8)
            & 0xff) as u8 == s2 && (n & 0xff) as u8 == s3) by (bit_vector)
            requires
                n == ((s0 as u32) << 24) | ((s1 as u32) << 16) | ((s2 as u32) << 8) | (s3 as u32),
        ;
        assert(spec_len_prefix(spec_be32(s)) =~= s);
    }
}

/// The whole frame a payload is written as: its length prefix, then its bytes.
pub open spec fn frame_of(payload: Seq<u8>) -> Seq<u8>
    recommends
        payload.len() <= MAX_LENGTH,
{
    spec_len_prefix(payload.len() as u32) + payload
}

/// What reading one frame from `io` at position `pos` yields: the payload and
/// the position after the frame, or the error the read fails with.
pub open spec fn spec_read_message(io: Seq<u8>, pos: int) -> Result<(Seq<u8>, int), CodecError>
    recommends
        0 <= pos <= io.len(),
{
    if io.len() - pos < 4 {
        Err(CodecError::Transport)
    } else {
        let n = spec_be32(io.subrange(pos, pos + 4)) as int;
        if n > MAX_LENGTH {
            Err(CodecError::OversizedMessage)
        } else if io.len() - (pos + 4) < n {
            Err(CodecError::Transport)
        } else {
            Ok((io.subrange(pos + 4, pos + 4 + n), pos + 4 + n))
        }
    }
}

/// What a framed read must yield: the relation between the stream, the
/// cursor before and after, and the result. Requests and responses are read
/// with the same framing.
pub open spec fn read_post(
    io: Seq<u8>,
    pos0: int,
    pos1: int,
    r: Result<Message, CodecError>,
) -> bool {
    match spec_read_message(io, pos0) {
        Ok(p) => {
            &&& r matches Ok(m) && m@ == p.0
            &&& pos1 == p.1
        },
        Err(e) => {
            &&& r matches Err(e2) && e2 == e
            &&& e == CodecError::OversizedMessage ==> pos1 == pos0 + 4
            &&& e == CodecError::Transport ==> pos1 == pos0
        },
    }
}

/// What a framed write must yield: the whole frame for an accepted payload,
/// rejection for an oversized one. Requests and responses are written with
/// the same framing.
pub open spec fn write_post(payload: Seq<u8>, r: Result<Vec<u8>, CodecError>) -> bool {
    &&& payload.len() <= MAX_LENGTH ==> (r matches Ok(f) && f@ == frame_of(payload))
    &&& payload.len() > MAX_LENGTH ==> r == Err::<Vec<u8>, CodecError>(CodecError::OversizedMessage)
}

/// Frames and unframes messages over a logical byte stream.
#[derive(Debug, Clone, Copy)]
pub struct Codec;

impl Codec {
    /// Encodes `msg` as one frame, or rejects it before any byte would leave
    /// the process if its payload exceeds `MAX_LENGTH`.
    pub fn write_message(msg: &Message) -> (r: Result<Vec<u8>, CodecError>)
        ensures
            write_post(msg@, r),
    {
        if msg.0.len() > MAX_LENGTH {
            return Err(CodecError::OversizedMessage);
        }
        let n = msg.0.len() as u32;
        proof {
            assert((n >> 24) & 0xff < 256 && (n >> 16) & 0xff < 256 && (n >> 8) & 0xff < 256 && n
                & 0xff < 256) by (bit_vector);
        }
        let mut out: Vec<u8> = Vec::new();
        out.push(((n >> 24) & 0xff) as u8);
        out.push(((n >> 16) & 0xff) as u8);
        out.push(((n >> 8) & 0xff) as u8);
        out.push((n & 0xff) as u8);
        let mut i: usize = 0;
        while i < msg.0.len()
            invariant
                i <= msg.0.len(),
                msg.0.len() <= MAX_LENGTH,
                n == msg.0.len() as u32,
                out@ == spec_len_prefix(n) + msg.0@.subrange(0, i as int),
            decreases msg.0.len() - i,
        {
            out.push(msg.0[i]);
            i += 1;
            proof {
                assert(out@ =~= spec_len_prefix(n) + msg.0@.subrange(0, i as int));
            }
        }
        proof {
            assert(out@ =~= frame_of(msg@));
        }
        Ok(out)
    }

    /// The payload length a received prefix declares, rejected as oversized
    /// before any payload byte is read when it exceeds `MAX_LENGTH`.
    pub fn declared_length(prefix: &Vec<u8>) -> (r: Result<usize, CodecError>)
        ensures
            prefix@.len() < 4 ==> r == Err::<usize, CodecError>(CodecError::Transport),
            prefix@.len() >= 4 ==> {
                let n = spec_be32(prefix@.subrange(0, 4)) as int;
                if n > MAX_LENGTH {
                    r == Err::<usize, CodecError>(CodecError::OversizedMessage)
                } else {
                    r matches Ok(l) && l == n
                }
            },
    {
        if prefix.len() < 4 {
            return Err(CodecError::Transport);
        }
        let n: u32 = ((prefix[0] as u32) << 24) | ((prefix[1] as u32) << 16) | ((prefix[2] as u32)
            << 8) | (prefix[3] as u32);
        proof {
            assert(prefix@.subrange(0, 4) =~= seq![prefix@[0], prefix@[1], prefix@[2], prefix@[3]]);
        }
        if n > MAX_LENGTH as u32 {
            Err(CodecError::OversizedMessage)
        } else {
            Ok(n as usize)
        }
    }

    /// Reads one frame from `io` starting at `*pos`. On success the cursor
    /// moves past the frame; an oversized declared length is rejected after
    /// consuming only the prefix, never the payload; a truncated stream
    /// consumes nothing.
    pub fn read_message(io: &Vec<u8>, pos: &mut usize) -> (r: Result<Message, CodecError>)
        requires
            *old(pos) <= io@.len(),
        ensures
            read_post(io@, *old(pos) as int, *final(pos) as int, r),
    {
        let start = *pos;
        if io.len() - start < 4 {
            return Err(CodecError::Transport);
        }
        let n: u32 = ((io[start] as u32) << 24) | ((io[start + 1] as u32) << 16) | ((io[start
            + 2] as u32) << 8) | (io[start + 3] as u32);
        proof {
            assert(io@.subrange(start as int, start as int + 4) =~= seq![
                io@[start as int],
                io@[start as int + 1],
                io@[start as int + 2],
                io@[start as int + 3],
            ]);
        }
        if n > MAX_LENGTH as u32 {
            *pos = start + 4;
            return Err(CodecError::OversizedMessage);
        }
        let len = n as usize;
        if io.len() - (start + 4) < len {
            return Err(CodecError::Transport);
        }
        let mut payload: Vec<u8> = Vec::new();
        let mut i: usize = 0;
        while i < len
            invariant
                i <= len,
                start + 4 + len <= io@.len(),
                io@.len() <= usize::MAX,
                payload@ == io@.subrange(start as int + 4, start as int + 4 + i as int),
            decreases len - i,
        {
            payload.push(io[start + 4 + i]);
            i += 1;
            proof {
                assert(payload@ =~= io@.subrange(start as int + 4, start as int + 4 + i as int));
            }
        }
        *pos = start + 4 + len;
        Ok(Message(payload))
    }
}

impl Codec {
    /// Reads one request, with the codec's one framing.
    pub fn read_request(&mut self, io: &Vec<u8>, pos: &mut usize) -> (r: Result<
        Message,
        CodecError,
    >)
        requires
            *old(pos) <= io@.len(),
        ensures
            read_post(io@, *old(pos) as int, *final(pos) as int, r),
    {
        Self::read_message(io, pos)
    }

    /// Reads one response, with the codec's one framing.
    pub fn read_response(&mut self, io: &Vec<u8>, pos: &mut usize) -> (r: Result<
        Message,
        CodecError,
    >)
        requires
            *old(pos) <= io@.len(),
        ensures
            read_post(io@, *old(pos) as int, *final(pos) as int, r),
    {
        Self::read_message(io, pos)
    }

    /// Writes one request, with the codec's one framing.
    pub fn write_request(&mut self, req: &Message) -> (r: Result<Vec<u8>, CodecError>)
        ensures
            write_post(req@, r),
    {
        Self::write_message(req)
    }

    /// Writes one response, with the codec's one framing.
    pub fn write_response(&mut self, res: &Message) -> (r: Result<Vec<u8>, CodecError>)
        ensures
            write_post(res@, r),
    {
        Self::write_message(res)
    }
}

/// A frame written from any payload the codec accepts reads back as exactly
/// that payload, with the cursor just past the frame.
pub proof fn lemma_framing_round_trip(payload: Seq<u8>)
    requires
        payload.len() <= MAX_LENGTH,
    ensures
        spec_read_message(frame_of(payload), 0) == Ok::<(Seq<u8>, int), CodecError>(
            (payload, 4 + payload.len() as int),
        ),
{
    lemma_prefix_round_trip();
    let f = frame_of(payload);
    assert(f.subrange(0, 4) =~= spec_len_prefix(payload.len() as u32));
    assert(spec_be32(f.subrange(0, 4)) == payload.len() as u32);
    assert(f.subrange(4, 4 + payload.len() as int) =~= payload);
}

/// A declared length over `MAX_LENGTH` fails the read as oversized, whatever
/// bytes follow the prefix.
pub proof fn lemma_oversize_rejected(io: Seq<u8>, pos: int)
    requires
        0 <= pos,
        pos + 4 <= io.len(),
        spec_be32(io.subrange(pos, pos + 4)) > MAX_LENGTH,
    ensures
        spec_read_message(io, pos) == Err::<(Seq<u8>, int), CodecError>(
            CodecError::OversizedMessage,
        ),
{
}

} // verus!
