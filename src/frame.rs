//! Length-prefixed framing of messages over a byte stream.
//!
//! A frame is the payload's length as a four-byte little-endian unsigned
//! integer, followed by exactly that many payload bytes. Byte streams keep no
//! message boundaries, so a reader must take precisely the declared number of
//! bytes before it looks for the next frame.
use vstd::prelude::*;

verus! {

/// Largest payload that one frame can carry.
pub const MAX_PAYLOAD_LEN: usize = 0xffff_ffff;

/// Number of bytes in the length prefix.
pub const HEADER_LEN: usize = 4;

/// Errors of the framing layer.
#[derive(Debug, Clone, Copy, PartialEq, Eq, Structural)]
pub enum FrameError {
    /// The payload is too long for a four-byte length prefix.
    PayloadTooLong,
    /// The stream ended before any byte of a new frame arrived.
    Closed,
    /// The stream ended inside a frame: fewer bytes came than it declared.
    Truncated,
}

/// Value of four bytes read as a little-endian unsigned integer.
pub open spec fn le_value(b0: u8, b1: u8, b2: u8, b3: u8) -> nat {
    b0 as nat + 256 * b1 as nat + 65536 * b2 as nat + 16777216 * b3 as nat
}

/// The four little-endian bytes of `n`.
pub open spec fn le_bytes(n: u32) -> Seq<u8> {
    seq![
        (n % 256) as u8,
        (n / 256 % 256) as u8,
        (n / 65536 % 256) as u8,
        (n / 16777216) as u8,
    ]
}

/// The wire form of one payload.
pub open spec fn frame_of(payload: Seq<u8>) -> Seq<u8> {
    le_bytes(payload.len() as u32) + payload
}

/// The wire form of a sequence of payloads sent in order.
pub open spec fn frames_of(payloads: Seq<Seq<u8>>) -> Seq<u8>
    decreases payloads.len(),
{
    if payloads.len() == 0 {
        Seq::empty()
    } else {
        frame_of(payloads[0]) + frames_of(payloads.drop_first())
    }
}

/// Whether every payload fits in one frame.
pub open spec fn all_fit(payloads: Seq<Seq<u8>>) -> bool {
    forall|i: int| 0 <= i < payloads.len() ==> #[trigger] payloads[i].len() <= MAX_PAYLOAD_LEN
}

/// The payload length that the first four bytes of `buf` declare.
pub open spec fn declared_len(buf: Seq<u8>) -> nat
    recommends
        buf.len() >= 4,
{
    le_value(buf[0], buf[1], buf[2], buf[3])
}

/// Whether `buf` starts with a complete frame.
pub open spec fn has_frame(buf: Seq<u8>) -> bool {
    buf.len() >= 4 && buf.len() >= 4 + declared_len(buf)
}

/// The payload of the frame at the start of `buf`.
pub open spec fn first_payload(buf: Seq<u8>) -> Seq<u8> {
    buf.subrange(4, 4 + declared_len(buf) as int)
}

/// What follows the frame at the start of `buf`.
pub open spec fn after_first(buf: Seq<u8>) -> Seq<u8> {
    buf.subrange(4 + declared_len(buf) as int, buf.len() as int)
}

/// Bytes still missing before the frame at the start of `buf` is complete.
pub open spec fn missing(buf: Seq<u8>) -> nat {
    if buf.len() < 4 {
        (4 - buf.len()) as nat
    } else if has_frame(buf) {
        0
    } else {
        (4 + declared_len(buf) - buf.len()) as nat
    }
}

/// The payloads that a reader takes out of `buf`, one complete frame after another.
pub open spec fn payloads_in(buf: Seq<u8>) -> Seq<Seq<u8>>
    decreases buf.len(),
{
    if has_frame(buf) {
        seq![first_payload(buf)] + payloads_in(after_first(buf))
    } else {
        Seq::empty()
    }
}

/// Concatenation of byte chunks in the order in which they arrived.
pub open spec fn joined(chunks: Seq<Seq<u8>>) -> Seq<u8>
    decreases chunks.len(),
{
    if chunks.len() == 0 {
        Seq::empty()
    } else {
        chunks[0] + joined(chunks.drop_first())
    }
}

/// The four bytes that `le_bytes` gives read back as an integer yield `n`.
pub proof fn lemma_le_round_trip(n: u32)
    ensures
        le_value(le_bytes(n)[0], le_bytes(n)[1], le_bytes(n)[2], le_bytes(n)[3]) == n,
{
    let q1 = n / 256;
    let q2 = q1 / 256;
    let q3 = q2 / 256;
    assert(n / 65536 == q2);
    assert(n / 16777216 == q3);
    assert(n == 256 * q1 + n % 256);
    assert(q1 == 256 * q2 + q1 % 256);
    assert(q2 == 256 * q3 + q2 % 256);
}

/// A frame followed by any bytes splits into its payload and those bytes.
pub proof fn lemma_frame_splits(payload: Seq<u8>, rest: Seq<u8>)
    requires
        payload.len() <= MAX_PAYLOAD_LEN,
    ensures
        has_frame(frame_of(payload) + rest),
        first_payload(frame_of(payload) + rest) == payload,
        after_first(frame_of(payload) + rest) == rest,
{
    let buf = frame_of(payload) + rest;
    lemma_le_round_trip(payload.len() as u32);
    assert(declared_len(buf) == payload.len());
    assert(first_payload(buf) =~= payload);
    assert(after_first(buf) =~= rest);
}

/// The payloads of frames sent in order are read back in that order.
proof fn lemma_payloads_of_frames(payloads: Seq<Seq<u8>>)
    requires
        all_fit(payloads),
    ensures
        payloads_in(frames_of(payloads)) == payloads,
    decreases payloads.len(),
{
    if payloads.len() == 0 {
        assert(payloads =~= Seq::<Seq<u8>>::empty());
    } else {
        let rest = payloads.drop_first();
        assert(all_fit(rest)) by {
            assert forall|i: int| 0 <= i < rest.len() implies #[trigger] rest[i].len()
                <= MAX_PAYLOAD_LEN by {
                assert(rest[i] == payloads[i + 1]);
            }
        }
        assert(payloads[0].len() <= MAX_PAYLOAD_LEN);
        lemma_frame_splits(payloads[0], frames_of(rest));
        lemma_payloads_of_frames(rest);
        assert(payloads =~= seq![payloads[0]] + rest);
    }
}

/// Framing integrity: a reader that takes frames one after another out of the
/// bytes of payloads sent in order gets those payloads back, in that order,
/// however the bytes were split into chunks on the way.
pub proof fn lemma_frames_read_back(payloads: Seq<Seq<u8>>, chunks: Seq<Seq<u8>>)
    requires
        all_fit(payloads),
        joined(chunks) == frames_of(payloads),
    ensures
        payloads_in(joined(chunks)) == payloads,
{
    lemma_payloads_of_frames(payloads);
}

/// Exact-read enforcement: bytes that stop short of the end of a frame never
/// hold a complete frame, so no truncated payload can come out of them.
pub proof fn lemma_short_frame_incomplete(payload: Seq<u8>, k: int)
    requires
        payload.len() <= MAX_PAYLOAD_LEN,
        0 <= k < frame_of(payload).len(),
    ensures
        !has_frame(frame_of(payload).take(k)),
{
    let buf = frame_of(payload).take(k);
    if k >= 4 {
        lemma_le_round_trip(payload.len() as u32);
        assert(buf[0] == frame_of(payload)[0]);
        assert(buf[1] == frame_of(payload)[1]);
        assert(buf[2] == frame_of(payload)[2]);
        assert(buf[3] == frame_of(payload)[3]);
        assert(declared_len(buf) == payload.len());
    }
}

/// The four-byte little-endian length prefix for a payload of `n` bytes.
pub fn length_prefix(n: u32) -> (r: [u8; 4])
    ensures
        r@ == le_bytes(n),
{
    let r = [(n % 256) as u8, (n / 256 % 256) as u8, (n / 65536 % 256) as u8, (n / 16777216) as u8];
    assert(r@ =~= le_bytes(n));
    r
}

/// The payload length that a four-byte little-endian prefix declares.
pub fn prefix_value(b0: u8, b1: u8, b2: u8, b3: u8) -> (r: u32)
    ensures
        r as nat == le_value(b0, b1, b2, b3),
{
    b0 as u32 + 256 * (b1 as u32) + 65536 * (b2 as u32) + 16777216 * (b3 as u32)
}

/// Frames `payload` for the wire.
pub fn encode_frame(payload: &[u8]) -> (r: Result<Vec<u8>, FrameError>)
    ensures
        payload@.len() <= MAX_PAYLOAD_LEN ==> (r matches Ok(f) && f@ == frame_of(payload@)),
        payload@.len() > MAX_PAYLOAD_LEN ==> r == Err::<Vec<u8>, FrameError>(
            FrameError::PayloadTooLong,
        ),
{
    if payload.len() > MAX_PAYLOAD_LEN {
        return Err(FrameError::PayloadTooLong);
    }
    let prefix = length_prefix(payload.len() as u32);
    let mut out: Vec<u8> = Vec::new();
    out.push(prefix[0]);
    out.push(prefix[1]);
    out.push(prefix[2]);
    out.push(prefix[3]);
    assert(out@ =~= le_bytes(payload@.len() as u32));
    let mut i: usize = 0;
    while i < payload.len()
        invariant
            i <= payload@.len() <= MAX_PAYLOAD_LEN,
            out@ == le_bytes(payload@.len() as u32) + payload@.take(i as int),
        decreases payload@.len() - i,
    {
        out.push(payload[i]);
        i = i + 1;
        assert(out@ =~= le_bytes(payload@.len() as u32) + payload@.take(i as int));
    }
    assert(payload@.take(i as int) =~= payload@);
    Ok(out)
}

/// What one read from the stream led to.
pub enum ReadStep {
    /// A complete frame's payload.
    Frame(Vec<u8>),
    /// No complete frame yet: read again.
    NeedMore,
    /// The stream ended without a complete frame.
    Failed(FrameError),
}

/// Incremental reader of frames from a byte stream that delivers bytes in
/// chunks of any size.
pub struct FrameReader {
    buf: Vec<u8>,
}

impl View for FrameReader {
    type V = Seq<u8>;

    /// The bytes received and not yet taken out as frames.
    closed spec fn view(&self) -> Seq<u8> {
        self.buf@
    }
}

impl FrameReader {
    /// A reader that holds no bytes.
    pub fn new() -> (r: Self)
        ensures
            r@ == Seq::<u8>::empty(),
    {
        FrameReader { buf: Vec::new() }
    }

    /// Number of bytes held and not yet taken out as frames.
    pub fn pending(&self) -> (r: usize)
        ensures
            r == self@.len(),
    {
        self.buf.len()
    }

    /// How many bytes the next read may take, at most `cap`, so that it never
    /// reaches past the end of the frame at the front; zero exactly when that
    /// frame is complete (or `cap` is zero).
    pub fn next_read_len(&self, cap: usize) -> (r: usize)
        ensures
            r as nat == if cap < missing(self@) { cap as nat } else { missing(self@) },
    {
        let n = self.buf.len();
        let want: usize = if n < HEADER_LEN {
            HEADER_LEN - n
        } else {
            let len = prefix_value(self.buf[0], self.buf[1], self.buf[2], self.buf[3]) as usize;
            if n - HEADER_LEN >= len {
                0
            } else {
                len - (n - HEADER_LEN)
            }
        };
        if cap < want {
            cap
        } else {
            want
        }
    }

    /// Appends the bytes of one read from the stream.
    pub fn feed(&mut self, chunk: &[u8])
        ensures
            final(self)@ == old(self)@ + chunk@,
    {
        let mut i: usize = 0;
        while i < chunk.len()
            invariant
                i <= chunk@.len(),
                self@ == old(self)@ + chunk@.take(i as int),
            decreases chunk@.len() - i,
        {
            self.buf.push(chunk[i]);
            i = i + 1;
            assert(self@ =~= old(self)@ + chunk@.take(i as int));
        }
        assert(chunk@.take(i as int) =~= chunk@);
    }

    /// Takes out the frame at the front, if all of its bytes have arrived.
    pub fn next_frame(&mut self) -> (r: Option<Vec<u8>>)
        ensures
            has_frame(old(self)@) ==> (r matches Some(p) && p@ == first_payload(old(self)@)
                && final(self)@ == after_first(old(self)@)),
            !has_frame(old(self)@) ==> r is None && final(self)@ == old(self)@,
    {
        let n = self.buf.len();
        if n < HEADER_LEN {
            return None;
        }
        let len = prefix_value(self.buf[0], self.buf[1], self.buf[2], self.buf[3]) as usize;
        if n - HEADER_LEN < len {
            return None;
        }
        let end = HEADER_LEN + len;
        let mut payload: Vec<u8> = Vec::with_capacity(len);
        let mut i: usize = HEADER_LEN;
        while i < end
            invariant
                HEADER_LEN <= i <= end <= n == self@.len(),
                end == 4 + declared_len(self@),
                payload@ == self@.subrange(4, i as int),
            decreases end - i,
        {
            payload.push(self.buf[i]);
            i = i + 1;
            assert(payload@ =~= self@.subrange(4, i as int));
        }
        let mut rest: Vec<u8> = Vec::with_capacity(n - end);
        let mut j: usize = end;
        while j < n
            invariant
                end <= j <= n == self@.len(),
                rest@ == self@.subrange(end as int, j as int),
            decreases n - j,
        {
            rest.push(self.buf[j]);
            j = j + 1;
            assert(rest@ =~= self@.subrange(end as int, j as int));
        }
        self.buf = rest;
        Some(payload)
    }

    /// Called when the stream has ended: hands out a frame that is still
    /// complete in the buffer, and otherwise says why no frame can come.
    pub fn end_of_stream(&mut self) -> (r: Result<Vec<u8>, FrameError>)
        ensures
            has_frame(old(self)@) ==> (r matches Ok(p) && p@ == first_payload(old(self)@)
                && final(self)@ == after_first(old(self)@)),
            !has_frame(old(self)@) && old(self)@.len() == 0 ==> r == Err::<Vec<u8>, FrameError>(
                FrameError::Closed,
            ) && final(self)@ == old(self)@,
            !has_frame(old(self)@) && old(self)@.len() > 0 ==> r == Err::<Vec<u8>, FrameError>(
                FrameError::Truncated,
            ) && final(self)@ == old(self)@,
    {
        let empty = self.buf.len() == 0;
        match self.next_frame() {
            Some(p) => Ok(p),
            None => {
                if empty {
                    Err(FrameError::Closed)
                } else {
                    Err(FrameError::Truncated)
                }
            },
        }
    }

    /// Takes the result of one read from the stream, where no bytes at all
    /// mean that the stream has ended, and says whether a frame is complete.
    pub fn receive(&mut self, chunk: &[u8]) -> (r: ReadStep)
        ensures
            chunk@.len() > 0 && has_frame(old(self)@ + chunk@) ==> (r matches ReadStep::Frame(p)
                && p@ == first_payload(old(self)@ + chunk@) && final(self)@ == after_first(
                old(self)@ + chunk@,
            )),
            chunk@.len() > 0 && !has_frame(old(self)@ + chunk@) ==> (r is NeedMore && final(self)@
                == old(self)@ + chunk@),
            chunk@.len() == 0 && has_frame(old(self)@) ==> (r matches ReadStep::Frame(p) && p@
                == first_payload(old(self)@) && final(self)@ == after_first(old(self)@)),
            chunk@.len() == 0 && !has_frame(old(self)@) && old(self)@.len() == 0 ==> (r matches ReadStep::Failed(e)
                && e == FrameError::Closed && final(self)@ == old(self)@),
            chunk@.len() == 0 && !has_frame(old(self)@) && old(self)@.len() > 0 ==> (r matches ReadStep::Failed(e)
                && e == FrameError::Truncated && final(self)@ == old(self)@),
    {
        if chunk.len() == 0 {
            match self.end_of_stream() {
                Ok(p) => ReadStep::Frame(p),
                Err(e) => ReadStep::Failed(e),
            }
        } else {
            self.feed(chunk);
            match self.next_frame() {
                Some(p) => ReadStep::Frame(p),
                None => ReadStep::NeedMore,
            }
        }
    }
}

} // verus!
