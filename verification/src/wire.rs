//! Message framing on the game's TCP streams: every message is preceded by a
//! 4-byte big-endian size field that counts the size field itself.
use vstd::prelude::*;
use vstd::string::StringSliceAdditionalSpecFns;

verus! {

/// The number that four bytes spell in big-endian order.
pub open spec fn be_value(b0: u8, b1: u8, b2: u8, b3: u8) -> int {
    b0 * 16777216 + b1 * 65536 + b2 * 256 + b3
}

/// The number that the first four bytes of `buf` spell in big-endian order.
pub open spec fn header_value(buf: Seq<u8>) -> int
    recommends
        buf.len() >= 4,
{
    be_value(buf[0], buf[1], buf[2], buf[3])
}

/// The four big-endian bytes of `v`.
pub open spec fn be_bytes(v: u32) -> Seq<u8> {
    seq![
        (v / 16777216) as u8,
        ((v / 65536) % 256) as u8,
        ((v / 256) % 256) as u8,
        (v % 256) as u8,
    ]
}

/// The frame that carries `payload`: its size, size field included, then the payload.
pub open spec fn frame_of(payload: Seq<u8>) -> Seq<u8> {
    be_bytes((payload.len() + 4) as u32) + payload
}

/// What the bytes at the front of a stream amount to.
pub enum FrameParse {
    /// The size field, or the frame it announces, has not fully arrived.
    Incomplete,
    /// The size field announces fewer bytes than the size field itself.
    Malformed(int),
    /// A whole frame: its payload and the number of bytes it takes up.
    Complete(Seq<u8>, int),
}

/// How the bytes at the front of a stream are read as a frame.
pub open spec fn parse_frame(buf: Seq<u8>) -> FrameParse {
    if buf.len() < 4 {
        FrameParse::Incomplete
    } else if header_value(buf) < 4 {
        FrameParse::Malformed(header_value(buf))
    } else if buf.len() < header_value(buf) {
        FrameParse::Incomplete
    } else {
        FrameParse::Complete(buf.subrange(4, header_value(buf)), header_value(buf))
    }
}

/// A frame read off the front of the bytes that have arrived.
pub enum Frame {
    /// More bytes must arrive before the frame can be read.
    Incomplete,
    /// The size field announces fewer than 4 bytes; such a frame cannot be read.
    Malformed { size: u32 },
    /// A whole frame: its payload, and how many bytes to consume.
    Complete { payload: Vec<u8>, consumed: usize },
}

impl View for Frame {
    type V = FrameParse;

    open spec fn view(&self) -> FrameParse {
        match self {
            Frame::Incomplete => FrameParse::Incomplete,
            Frame::Malformed { size } => FrameParse::Malformed(*size as int),
            Frame::Complete { payload, consumed } => FrameParse::Complete(
                payload@,
                *consumed as int,
            ),
        }
    }
}

proof fn lemma_be_round_trip(v: u32)
    ensures
        be_bytes(v).len() == 4,
        header_value(be_bytes(v)) == v,
{
    assert(v as int == (v / 16777216) * 16777216 + ((v / 65536) % 256) * 65536 + ((v / 256) % 256)
        * 256 + v % 256) by (bit_vector);
    assert(v / 16777216 < 256) by (bit_vector);
}

/// The four big-endian bytes of `v`.
fn be_bytes_of(v: u32) -> (r: Vec<u8>)
    ensures
        r@ == be_bytes(v),
{
    assert(v / 16777216 < 256) by (bit_vector);
    let mut r: Vec<u8> = Vec::new();
    r.push((v / 16777216) as u8);
    r.push(((v / 65536) % 256) as u8);
    r.push(((v / 256) % 256) as u8);
    r.push((v % 256) as u8);
    assert(r@ =~= be_bytes(v));
    r
}

/// The size announced by the first four bytes of `buf`, once they have arrived.
pub fn header_size(buf: &[u8]) -> (r: Option<u32>)
    ensures
        buf@.len() < 4 ==> r is None,
        buf@.len() >= 4 ==> (r matches Some(s) && s == header_value(buf@)),
{
    if buf.len() < 4 {
        None
    } else {
        let v: u32 = (buf[0] as u32) * 16777216 + (buf[1] as u32) * 65536 + (buf[2] as u32) * 256
            + (buf[3] as u32);
        Some(v)
    }
}

/// Reads the frame at the front of the bytes that have arrived, without
/// consuming anything: the caller consumes `consumed` bytes of a complete frame.
pub fn take_frame(buf: &[u8]) -> (r: Frame)
    ensures
        r@ == parse_frame(buf@),
{
    match header_size(buf) {
        None => Frame::Incomplete,
        Some(size) => {
            if size < 4 {
                Frame::Malformed { size }
            } else if buf.len() < size as usize {
                Frame::Incomplete
            } else {
                let end = size as usize;
                let mut payload: Vec<u8> = Vec::new();
                let mut k: usize = 4;
                while k < end
                    invariant
                        4 <= k <= end,
                        end <= buf@.len(),
                        payload@ == buf@.subrange(4, k as int),
                    decreases end - k,
                {
                    payload.push(buf[k]);
                    k += 1;
                    assert(payload@ =~= buf@.subrange(4, k as int));
                }
                Frame::Complete { payload, consumed: end }
            }
        },
    }
}

/// The frame that carries the bytes of `string`.
pub fn to_network_bytes(string: &str) -> (r: Vec<u8>)
    requires
        string.spec_bytes().len() + 4 <= u32::MAX,
    ensures
        r@ == frame_of(string.spec_bytes()),
{
    let bytes: &[u8] = string.as_bytes();
    let n = string.len();
    let send_size: u32 = n as u32 + 4;
    let mut r = be_bytes_of(send_size);
    let mut k: usize = 0;
    while k < n
        invariant
            n == bytes@.len(),
            bytes@ == string.spec_bytes(),
            k <= n,
            r@ == be_bytes(send_size) + bytes@.subrange(0, k as int),
        decreases n - k,
    {
        r.push(bytes[k]);
        k += 1;
        assert(r@ =~= be_bytes(send_size) + bytes@.subrange(0, k as int));
    }
    assert(bytes@.subrange(0, n as int) =~= bytes@);
    r
}

/// What looking at the first bytes of a stream gave.
pub enum PeekOutcome {
    /// The bytes that were available, at most four.
    Bytes(Vec<u8>),
    /// Nothing is available yet on a non-blocking stream.
    WouldBlock,
    /// The stream failed.
    Failed,
}

/// The signed number that four bytes spell in big-endian two's complement.
pub open spec fn be_signed_value(buf: Seq<u8>) -> int
    recommends
        buf.len() >= 4,
{
    if header_value(buf) >= 2147483648 {
        header_value(buf) - 4294967296
    } else {
        header_value(buf)
    }
}

/// The size of the next message as a polling loop sees it: the announced size
/// once all four size bytes are there, 0 while they are not, -1 when the
/// stream failed.
pub fn size_from_peek(peek: &PeekOutcome) -> (r: i32)
    ensures
        peek matches PeekOutcome::Bytes(b) ==> (b@.len() == 4 ==> r == be_signed_value(b@)),
        peek matches PeekOutcome::Bytes(b) ==> (b@.len() != 4 ==> r == 0),
        peek is WouldBlock ==> r == 0,
        peek is Failed ==> r == -1,
{
    match peek {
        PeekOutcome::Bytes(b) => {
            if b.len() == 4 {
                let v = header_size(b.as_slice()).unwrap();
                if v >= 2147483648 {
                    (v as i64 - 4294967296) as i32
                } else {
                    v as i32
                }
            } else {
                0
            }
        },
        PeekOutcome::WouldBlock => 0,
        PeekOutcome::Failed => -1,
    }
}

/// A frame carrying any payload, followed by whatever arrives after it, reads
/// back as exactly that payload and takes up exactly the frame.
pub proof fn law_frame_round_trip(payload: Seq<u8>, rest: Seq<u8>)
    requires
        payload.len() + 4 <= u32::MAX,
    ensures
        parse_frame(frame_of(payload) + rest) == FrameParse::Complete(payload, payload.len() + 4int),
{
    let n = (payload.len() + 4) as u32;
    lemma_be_round_trip(n);
    let buf = frame_of(payload) + rest;
    assert(header_value(buf) == header_value(be_bytes(n)));
    assert(buf.subrange(4, payload.len() + 4int) =~= payload);
}

/// A frame that has only partly arrived is never read.
pub proof fn law_partial_frame_is_incomplete(payload: Seq<u8>, arrived: int)
    requires
        payload.len() + 4 <= u32::MAX,
        0 <= arrived < payload.len() + 4,
    ensures
        parse_frame(frame_of(payload).subrange(0, arrived)) == FrameParse::Incomplete,
{
    let n = (payload.len() + 4) as u32;
    lemma_be_round_trip(n);
    let buf = frame_of(payload).subrange(0, arrived);
    if arrived >= 4 {
        assert(header_value(buf) == header_value(be_bytes(n)));
    }
}


/// Frames sent one after another are read one after another: reading the
/// first gives its payload, and what follows it starts with the second.
pub proof fn law_consecutive_frames(first: Seq<u8>, second: Seq<u8>, rest: Seq<u8>)
    requires
        first.len() + 4 <= u32::MAX,
        second.len() + 4 <= u32::MAX,
    ensures
        parse_frame(frame_of(first) + frame_of(second) + rest) == FrameParse::Complete(
            first,
            first.len() + 4int,
        ),
        (frame_of(first) + frame_of(second) + rest).subrange(
            first.len() + 4int,
            (frame_of(first) + frame_of(second) + rest).len() as int,
        ) == frame_of(second) + rest,
        parse_frame(frame_of(second) + rest) == FrameParse::Complete(second, second.len() + 4int),
{
    let buf = frame_of(first) + frame_of(second) + rest;
    assert(buf == frame_of(first) + (frame_of(second) + rest));
    law_frame_round_trip(first, frame_of(second) + rest);
    law_frame_round_trip(second, rest);
    assert(buf.subrange(first.len() + 4int, buf.len() as int) =~= frame_of(second) + rest);
}

/// The size field leads with its most significant byte and counts itself:
/// a frame is four bytes longer than its payload, its size field spells that
/// length most significant byte first, and the payload follows unchanged.
/// Read the other way round, four leading bytes whose last is `n`, at least
/// 4, after three zeros announce a frame of `n` bytes.
pub proof fn law_size_field_is_big_endian(payload: Seq<u8>, buf: Seq<u8>)
    requires
        payload.len() + 4 <= u32::MAX,
    ensures
        frame_of(payload).len() == payload.len() + 4,
        frame_of(payload)[0] == (payload.len() + 4) / 16777216,
        frame_of(payload)[1] == (payload.len() + 4) / 65536 % 256,
        frame_of(payload)[2] == (payload.len() + 4) / 256 % 256,
        frame_of(payload)[3] == (payload.len() + 4) % 256,
        frame_of(payload).subrange(4, payload.len() + 4int) == payload,
        buf.len() >= 4 && buf[0] == 0 && buf[1] == 0 && buf[2] == 0 && buf[3] >= 4 && buf.len()
            >= buf[3] ==> parse_frame(buf) == FrameParse::Complete(
            buf.subrange(4, buf[3] as int),
            buf[3] as int,
        ),
        buf.len() >= 4 && buf[0] == 0 && buf[1] == 0 && buf[2] == 0 && buf[3] < 4 ==> parse_frame(
            buf,
        ) == FrameParse::Malformed(buf[3] as int),
{
    let n = (payload.len() + 4) as u32;
    assert(frame_of(payload).subrange(4, payload.len() + 4int) =~= payload);
    assert((n / 16777216) as u8 == n / 16777216) by (nonlinear_arith);
    assert(((n / 65536) % 256) as u8 == (n / 65536) % 256) by (nonlinear_arith);
    assert(((n / 256) % 256) as u8 == (n / 256) % 256) by (nonlinear_arith);
}

} // verus!
