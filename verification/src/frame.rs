//! Frames on the wire: a kind, the length of the payload in eight bytes with
//! the most significant one first, and the payload.

use vstd::prelude::*;
use vstd::slice::*;

verus! {

/// The longest payload that a reader accepts: 4 GiB.
pub const MAX_FRAME: u64 = 0x1_0000_0000;

/// The kind of a frame that carries text.
pub const KIND_TEXT: u8 = 0;

/// The kind of a frame that carries a file.
pub const KIND_FILE: u8 = 1;

/// Why no frame could be read.
#[derive(Clone, Copy, PartialEq, Eq, Debug, Structural)]
pub enum FrameError {
    /// The input ends inside the frame.
    UnexpectedEof,
    /// The header announces more than `MAX_FRAME` bytes.
    TooLarge,
}

/// 256 to the power of `k`.
pub open spec fn pow256(k: nat) -> nat
    decreases k,
{
    if k == 0 {
        1
    } else {
        256 * pow256((k - 1) as nat)
    }
}

/// The last `width` bytes of `n`, the most significant one first.
pub open spec fn big_endian(n: nat, width: nat) -> Seq<u8>
    decreases width,
{
    if width == 0 {
        Seq::empty()
    } else {
        big_endian(n / 256, (width - 1) as nat).push((n % 256) as u8)
    }
}

/// The number that `s` stands for, the most significant byte first.
pub open spec fn from_big_endian(s: Seq<u8>) -> nat
    decreases s.len(),
{
    if s.len() == 0 {
        0
    } else {
        256 * from_big_endian(s.drop_last()) + s.last() as nat
    }
}

/// `width` bytes hold every number below 256 to the power of `width`.
pub proof fn big_endian_round_trip(n: nat, width: nat)
    requires
        n < pow256(width),
    ensures
        big_endian(n, width).len() == width,
        from_big_endian(big_endian(n, width)) == n,
    decreases width,
{
    if width > 0 {
        big_endian_round_trip(n / 256, (width - 1) as nat);
        assert(big_endian(n, width).drop_last() =~= big_endian(n / 256, (width - 1) as nat));
    }
}

/// The number that some bytes stand for is bounded by how many they are.
proof fn from_big_endian_bound(s: Seq<u8>)
    ensures
        from_big_endian(s) < pow256(s.len()),
    decreases s.len(),
{
    if s.len() > 0 {
        from_big_endian_bound(s.drop_last());
    }
}

/// How many numbers two and eight bytes hold.
pub proof fn pow256_values()
    ensures
        pow256(2) == 0x1_0000,
        pow256(8) == 0x1_0000_0000_0000_0000,
{
    reveal_with_fuel(pow256, 9);
}

/// Appends the last `width` bytes of `n`, the most significant one first.
pub fn push_big_endian(out: &mut Vec<u8>, n: u64, width: usize)
    ensures
        final(out)@ == old(out)@ + big_endian(n as nat, width as nat),
    decreases width,
{
    if width > 0 {
        push_big_endian(out, n / 256, width - 1);
        out.push((n % 256) as u8);
        assert(out@ =~= old(out)@ + big_endian(n as nat, width as nat));
    } else {
        assert(out@ =~= old(out)@ + big_endian(n as nat, width as nat));
    }
}

/// Reads the number that up to eight bytes stand for.
pub fn read_big_endian(s: &[u8]) -> (n: u64)
    requires
        s@.len() <= 8,
    ensures
        n == from_big_endian(s@),
{
    let mut n: u64 = 0;
    let mut i: usize = 0;
    while i < s.len()
        invariant
            i <= s@.len() <= 8,
            n == from_big_endian(s@.take(i as int)),
        decreases s.len() - i,
    {
        proof {
            let t = s@.take(i + 1);
            assert(t.drop_last() =~= s@.take(i as int));
            from_big_endian_bound(t);
            reveal_with_fuel(pow256, 9);
        }
        n = n * 256 + s[i] as u64;
        i = i + 1;
    }
    assert(s@.take(i as int) =~= s@);
    n
}

/// A frame as it goes over the wire.
pub open spec fn frame_bytes(kind: u8, payload: Seq<u8>) -> Seq<u8> {
    seq![kind] + big_endian(payload.len(), 8) + payload
}

/// The frame that an input starts with: its kind and its payload.
pub open spec fn parse_frame(s: Seq<u8>) -> Result<(u8, Seq<u8>), FrameError> {
    let len = from_big_endian(s.subrange(1, 9));
    if s.len() < 9 {
        Err(FrameError::UnexpectedEof)
    } else if len > MAX_FRAME {
        Err(FrameError::TooLarge)
    } else if s.len() < 9 + len {
        Err(FrameError::UnexpectedEof)
    } else {
        Ok((s[0], s.subrange(9, 9 + len as int)))
    }
}

/// What is left of an input after an attempt to read a frame: what follows the
/// frame; what follows the header where that is refused; nothing where the
/// input ends too early.
pub open spec fn after_frame(s: Seq<u8>) -> Seq<u8> {
    match parse_frame(s) {
        Ok((kind, payload)) => s.skip(9 + payload.len() as int),
        Err(FrameError::TooLarge) => s.skip(9),
        Err(FrameError::UnexpectedEof) => Seq::empty(),
    }
}

/// Writes a frame to the end of `s`.
pub fn write_frame(s: &mut Vec<u8>, kind: u8, payload: &[u8])
    ensures
        final(s)@ == old(s)@ + frame_bytes(kind, payload@),
{
    s.push(kind);
    push_big_endian(s, payload.len() as u64, 8);
    s.extend_from_slice(payload);
    assert(s@ =~= old(s)@ + frame_bytes(kind, payload@));
}

/// Reads the header of a frame: its kind and the length of its payload.
pub fn read_header(header: &[u8]) -> (r: Result<(u8, u64), FrameError>)
    requires
        header@.len() == 9,
    ensures
        match r {
            Ok((kind, len)) => kind == header@[0] && len == from_big_endian(
                header@.subrange(1, 9),
            ) && len <= MAX_FRAME,
            Err(e) => e == FrameError::TooLarge && from_big_endian(header@.subrange(1, 9))
                > MAX_FRAME,
        },
{
    let len: u64 = read_big_endian(slice_subrange(header, 1, 9));
    if len > MAX_FRAME {
        Err(FrameError::TooLarge)
    } else {
        Ok((header[0], len))
    }
}

/// Reads a frame from the start of `s` and leaves what follows it.
pub fn read_frame(s: &mut &[u8]) -> (r: Result<(u8, Vec<u8>), FrameError>)
    ensures
        match r {
            Ok((kind, payload)) => parse_frame(old(s)@) == Ok::<(u8, Seq<u8>), FrameError>(
                (kind, payload@),
            ),
            Err(e) => parse_frame(old(s)@) == Err::<(u8, Seq<u8>), FrameError>(e),
        },
        final(s)@ == after_frame(old(s)@),
{
    let input: &[u8] = *s;
    let n: usize = input.len();
    if n < 9 {
        *s = slice_subrange(input, n, n);
        assert(s@ =~= Seq::empty());
        return Err(FrameError::UnexpectedEof);
    }
    let header = slice_subrange(input, 0, 9);
    assert(header@.subrange(1, 9) =~= input@.subrange(1, 9));
    match read_header(header) {
        Err(e) => {
            *s = slice_subrange(input, 9, n);
            assert(s@ =~= input@.skip(9));
            Err(e)
        },
        Ok((kind, len)) => {
            if ((n - 9) as u64) < len {
                *s = slice_subrange(input, n, n);
                assert(s@ =~= Seq::empty());
                return Err(FrameError::UnexpectedEof);
            }
            let end: usize = 9 + len as usize;
            let payload = slice_to_vec(slice_subrange(input, 9, end));
            *s = slice_subrange(input, end, n);
            assert(s@ =~= input@.skip(end as int));
            Ok((kind, payload))
        },
    }
}

/// What a frame starts with.
proof fn frame_header(kind: u8, payload: Seq<u8>, rest: Seq<u8>)
    requires
        payload.len() < pow256(8),
    ensures
        ({
            let s = frame_bytes(kind, payload) + rest;
            &&& s.len() == 9 + payload.len() + rest.len()
            &&& s[0] == kind
            &&& from_big_endian(s.subrange(1, 9)) == payload.len()
        }),
{
    let s = frame_bytes(kind, payload) + rest;
    big_endian_round_trip(payload.len(), 8);
    assert(s.subrange(1, 9) =~= big_endian(payload.len(), 8));
}

/// A reader gets back the frame that a writer wrote, whatever follows it, and
/// leaves what follows.
pub proof fn frame_round_trip(kind: u8, payload: Seq<u8>, rest: Seq<u8>)
    requires
        payload.len() <= MAX_FRAME,
    ensures
        parse_frame(frame_bytes(kind, payload) + rest) == Ok::<(u8, Seq<u8>), FrameError>(
            (kind, payload),
        ),
        after_frame(frame_bytes(kind, payload) + rest) == rest,
{
    pow256_values();
    frame_header(kind, payload, rest);
    let s = frame_bytes(kind, payload) + rest;
    assert(s.subrange(9, 9 + payload.len() as int) =~= payload);
    assert(s.skip(9 + payload.len() as int) =~= rest);
}

/// A reader refuses a frame whose payload is longer than `MAX_FRAME`.
pub proof fn long_frame_is_refused(kind: u8, payload: Seq<u8>, rest: Seq<u8>)
    requires
        MAX_FRAME < payload.len() <= u64::MAX,
    ensures
        parse_frame(frame_bytes(kind, payload) + rest) == Err::<(u8, Seq<u8>), FrameError>(
            FrameError::TooLarge,
        ),
{
    pow256_values();
    frame_header(kind, payload, rest);
}

/// Of a frame that breaks off nothing is taken for a frame.
pub proof fn broken_frame_is_no_frame(kind: u8, payload: Seq<u8>, n: int)
    requires
        payload.len() <= MAX_FRAME,
        0 <= n < frame_bytes(kind, payload).len(),
    ensures
        parse_frame(frame_bytes(kind, payload).take(n)) == Err::<(u8, Seq<u8>), FrameError>(
            FrameError::UnexpectedEof,
        ),
{
    pow256_values();
    frame_header(kind, payload, Seq::empty());
    let s = frame_bytes(kind, payload);
    assert(s + Seq::<u8>::empty() =~= s);
    if n >= 9 {
        assert(s.take(n).subrange(1, 9) =~= s.subrange(1, 9));
    }
}

/// Frames one after the other.
pub open spec fn wire(frames: Seq<(u8, Seq<u8>)>) -> Seq<u8>
    decreases frames.len(),
{
    if frames.len() == 0 {
        Seq::empty()
    } else {
        frame_bytes(frames[0].0, frames[0].1) + wire(frames.drop_first())
    }
}

/// The frames that are read from `s` until none can be read.
pub open spec fn frames_read(s: Seq<u8>) -> Seq<(u8, Seq<u8>)>
    decreases s.len(),
{
    match parse_frame(s) {
        Ok(frame) => seq![frame] + frames_read(after_frame(s)),
        Err(_) => Seq::empty(),
    }
}

/// A reader gets the frames of a stream in the order in which they were
/// written, none twice and none left out, and then what follows them.
pub proof fn stream_continues(frames: Seq<(u8, Seq<u8>)>, rest: Seq<u8>)
    requires
        forall|i: int| 0 <= i < frames.len() ==> (#[trigger] frames[i]).1.len() <= MAX_FRAME,
    ensures
        frames_read(wire(frames) + rest) == frames + frames_read(rest),
    decreases frames.len(),
{
    if frames.len() == 0 {
        assert(wire(frames) + rest =~= rest);
        assert(frames + frames_read(rest) =~= frames_read(rest));
    } else {
        let tail = frames.drop_first();
        let first = frame_bytes(frames[0].0, frames[0].1);
        assert(wire(frames) + rest =~= first + (wire(tail) + rest));
        frame_round_trip(frames[0].0, frames[0].1, wire(tail) + rest);
        stream_continues(tail, rest);
        assert(seq![frames[0]] + (tail + frames_read(rest)) =~= frames + frames_read(rest));
    }
}

/// A reader gets the frames of a stream in the order in which they were
/// written, none twice and none left out.
pub proof fn stream_round_trip(frames: Seq<(u8, Seq<u8>)>)
    requires
        forall|i: int| 0 <= i < frames.len() ==> (#[trigger] frames[i]).1.len() <= MAX_FRAME,
    ensures
        frames_read(wire(frames)) == frames,
{
    stream_continues(frames, Seq::empty());
    assert(wire(frames) + Seq::<u8>::empty() =~= wire(frames));
    assert(frames + frames_read(Seq::empty()) =~= frames);
}

/// Frames after frames are all of them, one after the other.
pub proof fn wire_splits(a: Seq<(u8, Seq<u8>)>, b: Seq<(u8, Seq<u8>)>)
    ensures
        wire(a + b) == wire(a) + wire(b),
    decreases a.len(),
{
    if a.len() == 0 {
        assert(a + b =~= b);
        assert(wire(a) + wire(b) =~= wire(b));
    } else {
        wire_splits(a.drop_first(), b);
        assert((a + b).drop_first() =~= a.drop_first() + b);
        assert(wire(a + b) =~= wire(a) + wire(b));
    }
}

} // verus!
