//! Length-prefixed framing of the compositor IPC protocol.
//!
//! A frame is a six-byte magic preamble, the payload length and the message
//! type as little-endian `u32`s, and then the payload itself.

use vstd::prelude::*;
use vstd::string::StringSliceAdditionalSpecFns;

verus! {

/// Number of bytes in front of every payload: magic, length and type.
pub const HEADER_LEN: usize = 14;

/// Message type of a subscribe command.
pub const SUBSCRIBE_TYPE: u32 = 2;

/// The magic preamble `i3-ipc` that opens every frame.
pub open spec fn magic() -> Seq<u8> {
    seq![0x69u8, 0x33u8, 0x2du8, 0x69u8, 0x70u8, 0x63u8]
}

/// The four little-endian bytes of `x`.
pub open spec fn le_bytes(x: u32) -> Seq<u8> {
    seq![
        (x & 0xff) as u8,
        ((x >> 8u32) & 0xff) as u8,
        ((x >> 16u32) & 0xff) as u8,
        ((x >> 24u32) & 0xff) as u8,
    ]
}

/// The `u32` whose little-endian bytes start at `at` in `b`.
pub open spec fn le_value(b: Seq<u8>, at: int) -> u32 {
    (b[at] as u32) | ((b[at + 1] as u32) << 8u32) | ((b[at + 2] as u32) << 16u32) | ((
    b[at + 3] as u32) << 24u32)
}

/// The bytes of a frame of type `msg_type` around `payload`.
pub open spec fn frame_bytes(msg_type: u32, payload: Seq<u8>) -> Seq<u8> {
    magic() + le_bytes(payload.len() as u32) + le_bytes(msg_type) + payload
}

/// The payload length that a stream starting with a whole header declares.
pub open spec fn declared_len(s: Seq<u8>) -> nat {
    le_value(s, 6) as nat
}

/// The type code that a stream starting with a whole header declares.
pub open spec fn declared_type(s: Seq<u8>) -> u32 {
    le_value(s, 10)
}

/// Whether the stream `s` starts with a whole frame.
pub open spec fn has_frame(s: Seq<u8>) -> bool {
    s.len() >= HEADER_LEN && s.len() >= HEADER_LEN + declared_len(s)
}

/// Total size of the frame that `s` starts with.
pub open spec fn frame_size(s: Seq<u8>) -> nat {
    (HEADER_LEN + declared_len(s)) as nat
}

/// The payload of the frame that `s` starts with.
pub open spec fn frame_payload(s: Seq<u8>) -> Seq<u8> {
    s.subrange(HEADER_LEN as int, frame_size(s) as int)
}

proof fn lemma_le_round_trip(x: u32)
    ensures
        le_value(le_bytes(x), 0) == x,
{
    let b = le_bytes(x);
    assert((x & 0xff) < 256 && ((x >> 8u32) & 0xff) < 256 && ((x >> 16u32) & 0xff) < 256 && ((x
        >> 24u32) & 0xff) < 256) by (bit_vector);
    let (b0, b1, b2, b3) = (b[0] as u32, b[1] as u32, b[2] as u32, b[3] as u32);
    assert(b0 == x & 0xff && b1 == (x >> 8u32) & 0xff && b2 == (x >> 16u32) & 0xff && b3 == (x
        >> 24u32) & 0xff);
    assert(((x & 0xff) | (((x >> 8u32) & 0xff) << 8u32) | (((x >> 16u32) & 0xff) << 16u32) | (((x
        >> 24u32) & 0xff) << 24u32)) == x) by (bit_vector);
}

/// A frame, as decoded from a stream.
pub struct Frame {
    pub msg_type: u32,
    pub payload: Vec<u8>,
}

/// Why a frame could not be read.
#[derive(Debug, Clone, Copy, PartialEq, Eq, Structural)]
pub enum FrameError {
    /// The stream ended before every byte of the frame was there.
    ConnectionClosed,
}

fn push_le(out: &mut Vec<u8>, x: u32)
    ensures
        final(out)@ == old(out)@ + le_bytes(x),
{
    out.push((x & 0xff) as u8);
    out.push(((x >> 8u32) & 0xff) as u8);
    out.push(((x >> 16u32) & 0xff) as u8);
    out.push(((x >> 24u32) & 0xff) as u8);
    assert(final(out)@ =~= old(out)@ + le_bytes(x));
}

fn read_le(b: &[u8], at: usize) -> (r: u32)
    requires
        at + 4 <= b@.len(),
    ensures
        r == le_value(b@, at as int),
{
    (b[at] as u32) | ((b[at + 1] as u32) << 8u32) | ((b[at + 2] as u32) << 16u32) | ((
    b[at + 3] as u32) << 24u32)
}

/// Builds the frame of type `msg_type` that carries `payload`.
pub fn encode_frame(msg_type: u32, payload: &[u8]) -> (r: Vec<u8>)
    requires
        payload@.len() <= u32::MAX,
    ensures
        r@ == frame_bytes(msg_type, payload@),
{
    let mut out: Vec<u8> = Vec::new();
    out.push(0x69u8);
    out.push(0x33u8);
    out.push(0x2du8);
    out.push(0x69u8);
    out.push(0x70u8);
    out.push(0x63u8);
    assert(out@ =~= magic());
    push_le(&mut out, payload.len() as u32);
    push_le(&mut out, msg_type);
    let ghost head = out@;
    let mut i: usize = 0;
    while i < payload.len()
        invariant
            i <= payload@.len(),
            out@ == head + payload@.subrange(0, i as int),
        decreases payload@.len() - i,
    {
        out.push(payload[i]);
        i += 1;
        assert(out@ =~= head + payload@.subrange(0, i as int));
    }
    assert(payload@.subrange(0, i as int) =~= payload@);
    out
}

/// Reads the first frame of `source`: the header, then exactly as many
/// payload bytes as the header declares. The magic preamble is skipped
/// without being compared, and the type code is passed on as it is.
pub fn decode_next(source: &[u8]) -> (r: Result<Frame, FrameError>)
    ensures
        r is Ok <==> has_frame(source@),
        r matches Ok(f) ==> f.payload@ == frame_payload(source@) && f.msg_type == declared_type(
            source@,
        ),
{
    if source.len() < HEADER_LEN {
        return Err(FrameError::ConnectionClosed);
    }
    let len = read_le(source, 6);
    let msg_type = read_le(source, 10);
    if source.len() - HEADER_LEN < len as usize {
        return Err(FrameError::ConnectionClosed);
    }
    let end = HEADER_LEN + len as usize;
    let mut payload: Vec<u8> = Vec::new();
    let mut i: usize = HEADER_LEN;
    while i < end
        invariant
            HEADER_LEN <= i <= end,
            end <= source@.len(),
            payload@ == source@.subrange(HEADER_LEN as int, i as int),
        decreases end - i,
    {
        payload.push(source[i]);
        i += 1;
        assert(payload@ =~= source@.subrange(HEADER_LEN as int, i as int));
    }
    Ok(Frame { msg_type, payload })
}

/// A frame of any type and payload reads back as that type and payload,
/// and takes exactly its own bytes from the stream.
pub proof fn lemma_frame_round_trip(msg_type: u32, payload: Seq<u8>, rest: Seq<u8>)
    requires
        payload.len() <= u32::MAX,
    ensures
        has_frame(frame_bytes(msg_type, payload) + rest),
        frame_size(frame_bytes(msg_type, payload) + rest) == frame_bytes(msg_type, payload).len(),
        frame_payload(frame_bytes(msg_type, payload) + rest) == payload,
        declared_type(frame_bytes(msg_type, payload) + rest) == msg_type,
{
    let f = frame_bytes(msg_type, payload);
    let s = f + rest;
    lemma_le_round_trip(payload.len() as u32);
    lemma_le_round_trip(msg_type);
    let lb = le_bytes(payload.len() as u32);
    let tb = le_bytes(msg_type);
    assert(s.subrange(6, 10) =~= lb);
    assert(s.subrange(10, 14) =~= tb);
    assert(s[6] == lb[0] && s[7] == lb[1] && s[8] == lb[2] && s[9] == lb[3]);
    assert(s[10] == tb[0] && s[11] == tb[1] && s[12] == tb[2] && s[13] == tb[3]);
    assert(le_value(s, 6) == le_value(lb, 0));
    assert(le_value(s, 10) == le_value(tb, 0));
    assert(frame_payload(s) =~= payload);
}

/// The payload of a subscribe command: a one-element list of `topic`,
/// written `['topic']`.
pub open spec fn subscribe_payload(topic: Seq<u8>) -> Seq<u8> {
    seq![0x5bu8, 0x27u8] + topic + seq![0x27u8, 0x5du8]
}

/// The topic of focus-change notifications, `window`.
pub open spec fn window_topic() -> Seq<u8> {
    seq![0x77u8, 0x69u8, 0x6eu8, 0x64u8, 0x6fu8, 0x77u8]
}

fn subscribe_frame(topic: &[u8]) -> (r: Vec<u8>)
    requires
        topic@.len() + 4 <= u32::MAX,
    ensures
        r@ == frame_bytes(SUBSCRIBE_TYPE, subscribe_payload(topic@)),
{
    let mut payload: Vec<u8> = Vec::new();
    payload.push(0x5bu8);
    payload.push(0x27u8);
    let mut i: usize = 0;
    while i < topic.len()
        invariant
            i <= topic@.len(),
            payload@ == seq![0x5bu8, 0x27u8] + topic@.subrange(0, i as int),
        decreases topic@.len() - i,
    {
        payload.push(topic[i]);
        i += 1;
        assert(payload@ =~= seq![0x5bu8, 0x27u8] + topic@.subrange(0, i as int));
    }
    payload.push(0x27u8);
    payload.push(0x5du8);
    assert(payload@ =~= subscribe_payload(topic@));
    encode_frame(SUBSCRIBE_TYPE, payload.as_slice())
}

/// Builds the command that subscribes to `topic`.
pub fn encode_subscribe(topic: &str) -> (r: Vec<u8>)
    requires
        topic.spec_bytes().len() + 4 <= u32::MAX,
    ensures
        r@ == frame_bytes(SUBSCRIBE_TYPE, subscribe_payload(topic.spec_bytes())),
{
    subscribe_frame(topic.as_bytes())
}

/// Builds the command that subscribes to focus-change notifications.
pub fn sway_ipc_subscribe() -> (r: Vec<u8>)
    ensures
        r@ == frame_bytes(SUBSCRIBE_TYPE, subscribe_payload(window_topic())),
{
    let topic: Vec<u8> = vec![0x77u8, 0x69u8, 0x6eu8, 0x64u8, 0x6fu8, 0x77u8];
    assert(topic@ =~= window_topic());
    subscribe_frame(topic.as_slice())
}

/// How much of the stream `s` belongs to its first frame: all of it while
/// the frame is not whole, else the frame's own bytes.
pub open spec fn frame_extent(s: Seq<u8>) -> nat {
    if s.len() < HEADER_LEN || s.len() < frame_size(s) {
        s.len()
    } else {
        frame_size(s)
    }
}

/// What a reader holds after taking from `s` what belongs to its first frame.
pub open spec fn first_frame_part(s: Seq<u8>) -> Seq<u8> {
    s.subrange(0, frame_extent(s) as int)
}

/// How many more bytes a reader holding `b` waits for.
pub open spec fn bytes_wanted(b: Seq<u8>) -> nat {
    if b.len() < HEADER_LEN {
        (HEADER_LEN - b.len()) as nat
    } else if b.len() < frame_size(b) {
        (frame_size(b) - b.len()) as nat
    } else {
        0
    }
}

/// Collects one frame from a stream that hands its bytes over in pieces
/// of any size.
pub struct FrameReader {
    buf: Vec<u8>,
}

impl View for FrameReader {
    type V = Seq<u8>;

    closed spec fn view(&self) -> Seq<u8> {
        self.buf@
    }
}

impl FrameReader {
    /// The reader never holds bytes beyond the end of its frame.
    pub open spec fn wf(&self) -> bool {
        frame_extent(self@) == self@.len()
    }

    /// A reader that holds nothing yet.
    pub fn new() -> (r: FrameReader)
        ensures
            r@ == Seq::<u8>::empty(),
            r.wf(),
    {
        FrameReader { buf: Vec::new() }
    }

    /// How many more bytes the frame needs; zero once it is whole.
    pub fn wanted(&self) -> (r: u64)
        requires
            self.wf(),
        ensures
            r == bytes_wanted(self@),
    {
        let n = self.buf.len();
        if n < HEADER_LEN {
            (HEADER_LEN - n) as u64
        } else {
            let size = HEADER_LEN as u64 + read_le(self.buf.as_slice(), 6) as u64;
            if (n as u64) < size {
                size - n as u64
            } else {
                0
            }
        }
    }

    /// Whether the frame is whole.
    pub fn is_complete(&self) -> (r: bool)
        requires
            self.wf(),
        ensures
            r == has_frame(self@),
    {
        self.wanted() == 0
    }

    /// Takes from `chunk` the bytes that the frame still needs, and returns
    /// how many it took; the rest belongs to what follows the frame.
    pub fn push(&mut self, chunk: &[u8]) -> (taken: usize)
        requires
            old(self).wf(),
        ensures
            final(self).wf(),
            final(self)@ == first_frame_part(old(self)@ + chunk@),
            taken <= chunk@.len(),
            final(self)@ == old(self)@ + chunk@.subrange(0, taken as int),
    {
        let ghost s = old(self)@ + chunk@;
        let mut i: usize = 0;
        while i < chunk.len() && self.wanted() > 0
            invariant
                i <= chunk@.len(),
                self.wf(),
                self@ == old(self)@ + chunk@.subrange(0, i as int),
                self@.len() == old(self)@.len() + i,
                s == old(self)@ + chunk@,
                frame_extent(s) >= self@.len(),
                self@ == s.subrange(0, self@.len() as int),
            decreases chunk@.len() - i,
        {
            proof {
                lemma_extent_step(self@, s);
            }
            self.buf.push(chunk[i]);
            i += 1;
            assert(self@ =~= old(self)@ + chunk@.subrange(0, i as int));
            assert(s.subrange(0, self@.len() as int) =~= old(self)@ + chunk@.subrange(0, i as int));
            assert(self@ =~= s.subrange(0, self@.len() as int));
            proof {
                lemma_prefix_header(self@, s);
            }
        }
        proof {
            lemma_prefix_header(self@, s);
            if i < chunk@.len() {
                assert(self@.len() < s.len());
            } else {
                assert(self@ =~= s);
            }
        }
        i
    }

    /// The frame, once it is whole.
    pub fn frame(&self) -> (r: Result<Frame, FrameError>)
        requires
            self.wf(),
        ensures
            r is Ok <==> has_frame(self@),
            r matches Ok(f) ==> f.payload@ == frame_payload(self@) && f.msg_type
                == declared_type(self@),
    {
        decode_next(self.buf.as_slice())
    }
}

/// A prefix of `s` with a whole header declares what `s` declares.
proof fn lemma_prefix_header(b: Seq<u8>, s: Seq<u8>)
    requires
        b.len() <= s.len(),
        b == s.subrange(0, b.len() as int),
    ensures
        b.len() >= HEADER_LEN ==> frame_size(b) == frame_size(s) && declared_type(b)
            == declared_type(s),
{
    if b.len() >= HEADER_LEN {
        assert(b[6] == s[6] && b[7] == s[7] && b[8] == s[8] && b[9] == s[9]);
        assert(b[10] == s[10] && b[11] == s[11] && b[12] == s[12] && b[13] == s[13]);
    }
}

/// A reader that wants more bytes of `s` has not reached the end of the
/// frame of `s`.
proof fn lemma_extent_step(b: Seq<u8>, s: Seq<u8>)
    requires
        b.len() <= s.len(),
        b == s.subrange(0, b.len() as int),
        bytes_wanted(b) > 0,
        b.len() < s.len(),
    ensures
        frame_extent(s) > b.len(),
{
    lemma_prefix_header(b, s);
}

/// The bytes of `chunks`, one after the other.
pub open spec fn concat_chunks(chunks: Seq<Seq<u8>>) -> Seq<u8>
    decreases chunks.len(),
{
    if chunks.len() == 0 {
        Seq::empty()
    } else {
        concat_chunks(chunks.drop_last()) + chunks.last()
    }
}

/// What a fresh reader holds after `push` has been handed `chunks` in turn.
pub open spec fn fed(chunks: Seq<Seq<u8>>) -> Seq<u8>
    decreases chunks.len(),
{
    if chunks.len() == 0 {
        Seq::empty()
    } else {
        first_frame_part(fed(chunks.drop_last()) + chunks.last())
    }
}

proof fn lemma_first_frame_part_absorbs(a: Seq<u8>, c: Seq<u8>)
    ensures
        first_frame_part(first_frame_part(a) + c) == first_frame_part(a + c),
{
    let k = frame_extent(a);
    if k == a.len() {
        assert(first_frame_part(a) =~= a);
    } else {
        let p = first_frame_part(a);
        assert(a =~= (a + c).subrange(0, a.len() as int));
        assert(p =~= (p + c).subrange(0, p.len() as int));
        assert(p =~= a.subrange(0, p.len() as int));
        lemma_prefix_header(a, a + c);
        lemma_prefix_header(p, p + c);
        lemma_prefix_header(p, a);
        assert(first_frame_part(p + c) =~= p);
        assert(first_frame_part(a + c) =~= p);
    }
}

proof fn lemma_fed_is_first_frame_part(chunks: Seq<Seq<u8>>)
    ensures
        fed(chunks) == first_frame_part(concat_chunks(chunks)),
    decreases chunks.len(),
{
    if chunks.len() == 0 {
        assert(first_frame_part(Seq::<u8>::empty()) =~= Seq::<u8>::empty());
    } else {
        lemma_fed_is_first_frame_part(chunks.drop_last());
        lemma_first_frame_part_absorbs(concat_chunks(chunks.drop_last()), chunks.last());
    }
}

/// However a stream that starts with a frame is cut into pieces, a fresh
/// reader fed those pieces in turn ends up holding exactly that frame, whole,
/// with its type and payload.
pub proof fn lemma_split_delivery(
    chunks: Seq<Seq<u8>>,
    msg_type: u32,
    payload: Seq<u8>,
    rest: Seq<u8>,
)
    requires
        payload.len() <= u32::MAX,
        concat_chunks(chunks) == frame_bytes(msg_type, payload) + rest,
    ensures
        fed(chunks) == frame_bytes(msg_type, payload),
        has_frame(fed(chunks)),
        bytes_wanted(fed(chunks)) == 0,
        frame_payload(fed(chunks)) == payload,
        declared_type(fed(chunks)) == msg_type,
{
    let f = frame_bytes(msg_type, payload);
    lemma_fed_is_first_frame_part(chunks);
    lemma_frame_round_trip(msg_type, payload, rest);
    assert(first_frame_part(f + rest) =~= f);
    lemma_frame_round_trip(msg_type, payload, Seq::empty());
    assert(f + Seq::<u8>::empty() =~= f);
}

} // verus!
