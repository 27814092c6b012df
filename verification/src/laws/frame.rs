//! Laws of frames on the wire.

use crate::frame;
use crate::frame::FrameError;
use vstd::arithmetic::power::*;
use vstd::prelude::*;

verus! {

/// Each byte is the digit of its power of 256.
proof fn bytes_are_positional(n: nat, width: nat)
    ensures
        frame::big_endian(n, width).len() == width,
        forall|i: int|
            0 <= i < width ==> #[trigger] frame::big_endian(n, width)[i] as int == (n as int / pow(
                256,
                (width - 1 - i) as nat,
            )) % 256,
    decreases width,
{
    reveal(pow);
    if width > 0 {
        let w = (width - 1) as nat;
        let t = frame::big_endian(n / 256, w);
        let s = frame::big_endian(n, width);
        bytes_are_positional(n / 256, w);
        assert forall|i: int| 0 <= i < width implies #[trigger] s[i] as int == (n as int / pow(
            256,
            (width - 1 - i) as nat,
        )) % 256 by {
            if i < w {
                let e = (w - 1 - i) as nat;
                assert(s[i] == t[i]);
                assert(pow(256, (e + 1) as nat) == 256 * pow(256, e));
                lemma_pow_positive(256, e);
                vstd::arithmetic::div_mod::lemma_div_denominator(n as int, 256, pow(256, e));
                assert((width - 1 - i) as nat == e + 1);
            } else {
                assert(n as int / 1 == n);
            }
        }
    }
}

/// The number that eight bytes stand for.
proof fn eight_bytes(s: Seq<u8>)
    requires
        s.len() == 8,
    ensures
        frame::from_big_endian(s) == s[0] * 0x100_0000_0000_0000 + s[1] * 0x1_0000_0000_0000 + s[2]
            * 0x100_0000_0000 + s[3] * 0x1_0000_0000 + s[4] * 0x100_0000 + s[5] * 0x1_0000 + s[6]
            * 0x100 + s[7],
{
    reveal_with_fuel(frame::from_big_endian, 9);
    let a = s.drop_last();
    let b = a.drop_last();
    let c = b.drop_last();
    let d = c.drop_last();
    let e = d.drop_last();
    let f = e.drop_last();
    let g = f.drop_last();
    assert(s.last() == s[7] && a.last() == s[6] && b.last() == s[5] && c.last() == s[4] && d.last()
        == s[3] && e.last() == s[2] && f.last() == s[1] && g.last() == s[0]);
    assert(g.drop_last().len() == 0);
}

/// A number is appended in the bytes asked for, the most significant one first: each
/// is the digit of its power of 256.
pub proof fn number_is_appended_by_its_bytes(out: &mut Vec<u8>, n: u64, width: usize)
    requires
        call_ensures(frame::push_big_endian, (out, n, width), ()),
    ensures
        final(out)@.len() == old(out)@.len() + width,
        forall|i: int| 0 <= i < old(out)@.len() ==> #[trigger] final(out)@[i] == old(out)@[i],
        forall|i: int|
            0 <= i < width ==> final(out)@[old(out)@.len() + i] as int == (n as int / #[trigger] pow(
                256,
                (width - 1 - i) as nat,
            )) % 256,
{
    bytes_are_positional(n as nat, width as nat);
    assert forall|i: int| 0 <= i < width implies final(out)@[old(out)@.len() + i] as int == (n
        as int / #[trigger] pow(256, (width - 1 - i) as nat)) % 256 by {
        assert(final(out)@[old(out)@.len() + i] == frame::big_endian(n as nat, width as nat)[i]);
    }
}

/// The number of no bytes is 0, and one more byte multiplies it by 256 and is added.
pub proof fn one_more_byte_is_added(s: &[u8], t: &[u8], b: u8, n: u64, m: u64)
    requires
        call_ensures(frame::read_big_endian, (s,), n),
        call_ensures(frame::read_big_endian, (t,), m),
        t@ == s@.push(b),
    ensures
        s@.len() == 0 ==> n == 0,
        m == 256 * n + b,
{
    assert(t@.drop_last() =~= s@);
}

/// A number that was appended is read back.
pub proof fn appended_number_is_read_back(out: &mut Vec<u8>, n: u64, width: usize, s: &[u8], m: u64)
    requires
        call_ensures(frame::push_big_endian, (out, n, width), ()),
        call_ensures(frame::read_big_endian, (s,), m),
        s@ == final(out)@.subrange(old(out)@.len() as int, final(out)@.len() as int),
        n < pow(256, width as nat),
    ensures
        m == n,
{
    powers_are_powers(width as nat);
    frame::big_endian_round_trip(n as nat, width as nat);
    assert(s@ =~= frame::big_endian(n as nat, width as nat));
}

/// The powers of 256.
proof fn powers_are_powers(k: nat)
    ensures
        frame::pow256(k) == pow(256, k),
    decreases k,
{
    reveal(pow);
    if k > 0 {
        powers_are_powers((k - 1) as nat);
    }
}

/// A frame is appended as its kind, the eight bytes of the length of its payload, the
/// most significant one first, and the payload.
pub proof fn frame_is_appended(s: &mut Vec<u8>, kind: u8, payload: &[u8])
    requires
        call_ensures(frame::write_frame, (s, kind, payload), ()),
    ensures
        ({
            let before = old(s)@;
            let after = final(s)@;
            let n = before.len() as int;
            let len = payload@.len() as int;
            &&& after.len() == n + 9 + len
            &&& after.subrange(0, n) == before
            &&& after[n] == kind
            &&& after[n + 1] as int == (len / 0x100_0000_0000_0000) % 256
            &&& after[n + 2] as int == (len / 0x1_0000_0000_0000) % 256
            &&& after[n + 3] as int == (len / 0x100_0000_0000) % 256
            &&& after[n + 4] as int == (len / 0x1_0000_0000) % 256
            &&& after[n + 5] as int == (len / 0x100_0000) % 256
            &&& after[n + 6] as int == (len / 0x1_0000) % 256
            &&& after[n + 7] as int == (len / 0x100) % 256
            &&& after[n + 8] as int == len % 256
            &&& after.subrange(n + 9, n + 9 + len) == payload@
        }),
{
    frame_layout(kind, payload@);
    let n = old(s)@.len() as int;
    let f = frame::frame_bytes(kind, payload@);
    assert(forall|i: int| 0 <= i < f.len() ==> final(s)@[n + i] == #[trigger] f[i]);
    assert(final(s)@.subrange(0, n) =~= old(s)@);
    assert(final(s)@.subrange(n + 9, n + 9 + payload@.len() as int) =~= payload@);
    assert(f[0] == kind);
    assert(final(s)@[n + 0] == kind);
}

/// The bytes of a frame.
pub proof fn frame_layout(kind: u8, payload: Seq<u8>)
    ensures
        ({
            let f = frame::frame_bytes(kind, payload);
            let len = payload.len() as int;
            &&& f.len() == 9 + len
            &&& f[0] == kind
            &&& f[1] as int == (len / 0x100_0000_0000_0000) % 256
            &&& f[2] as int == (len / 0x1_0000_0000_0000) % 256
            &&& f[3] as int == (len / 0x100_0000_0000) % 256
            &&& f[4] as int == (len / 0x1_0000_0000) % 256
            &&& f[5] as int == (len / 0x100_0000) % 256
            &&& f[6] as int == (len / 0x1_0000) % 256
            &&& f[7] as int == (len / 0x100) % 256
            &&& f[8] as int == len % 256
            &&& f.subrange(9, 9 + len) == payload
        }),
{
    let f = frame::frame_bytes(kind, payload);
    let e = frame::big_endian(payload.len(), 8);
    bytes_are_positional(payload.len(), 8);
    reveal_with_fuel(pow, 9);
    assert(e[0] as int == (payload.len() as int / pow(256, 7)) % 256);
    assert(e[1] as int == (payload.len() as int / pow(256, 6)) % 256);
    assert(e[2] as int == (payload.len() as int / pow(256, 5)) % 256);
    assert(e[3] as int == (payload.len() as int / pow(256, 4)) % 256);
    assert(e[4] as int == (payload.len() as int / pow(256, 3)) % 256);
    assert(e[5] as int == (payload.len() as int / pow(256, 2)) % 256);
    assert(e[6] as int == (payload.len() as int / pow(256, 1)) % 256);
    assert(e[7] as int == (payload.len() as int / pow(256, 0)) % 256);
    assert(f.subrange(9, 9 + payload.len() as int) =~= payload);
    assert(f[1] == e[0] && f[2] == e[1] && f[3] == e[2] && f[4] == e[3] && f[5] == e[4] && f[6]
        == e[5] && f[7] == e[6] && f[8] == e[7]);
}

/// A header is read as its kind and the number of the eight bytes after it, up to
/// 4 GiB; above, it is refused.
pub proof fn header_is_read(header: &[u8], r: Result<(u8, u64), FrameError>)
    requires
        call_ensures(frame::read_header, (header,), r),
        header@.len() == 9,
    ensures
        ({
            let h = header@;
            let len = h[1] * 0x100_0000_0000_0000 + h[2] * 0x1_0000_0000_0000 + h[3]
                * 0x100_0000_0000 + h[4] * 0x1_0000_0000 + h[5] * 0x100_0000 + h[6] * 0x1_0000
                + h[7] * 0x100 + h[8];
            &&& len <= 0x1_0000_0000 ==> (r matches Ok((kind, n)) && kind == h[0] && n == len)
            &&& len > 0x1_0000_0000 ==> (r matches Err(e) && e == FrameError::TooLarge)
        }),
{
    eight_bytes(header@.subrange(1, 9));
}

/// A frame is read where its header and as many bytes as it announces, up to 4 GiB,
/// are there; what follows is left. A header that announces more is refused, and what
/// follows it is left. Where the input ends too early, nothing is left.
pub proof fn frame_is_read(s: &mut &[u8], r: Result<(u8, Vec<u8>), FrameError>)
    requires
        call_ensures(frame::read_frame, (s,), r),
    ensures
        ({
            let h = old(s)@;
            let len = h[1] * 0x100_0000_0000_0000 + h[2] * 0x1_0000_0000_0000 + h[3]
                * 0x100_0000_0000 + h[4] * 0x1_0000_0000 + h[5] * 0x100_0000 + h[6] * 0x1_0000
                + h[7] * 0x100 + h[8];
            &&& h.len() >= 9 && len <= 0x1_0000_0000 && h.len() >= 9 + len ==> (r matches Ok(
                (kind, payload),
            ) && kind == h[0] && payload@ == h.subrange(9, 9 + len) && final(s)@ == h.subrange(
                9 + len,
                h.len() as int,
            ))
            &&& h.len() >= 9 && len > 0x1_0000_0000 ==> (r matches Err(e) && e
                == FrameError::TooLarge && final(s)@ == h.subrange(9, h.len() as int))
            &&& h.len() < 9 || (len <= 0x1_0000_0000 && h.len() < 9 + len) ==> (r matches Err(e)
                && e == FrameError::UnexpectedEof && final(s)@.len() == 0)
        }),
{
    let h = old(s)@;
    if h.len() >= 9 {
        eight_bytes(h.subrange(1, 9));
        let len = frame::from_big_endian(h.subrange(1, 9)) as int;
        assert(h.skip(9) =~= h.subrange(9, h.len() as int));
        if h.len() >= 9 + len {
            assert(h.skip(9 + len) =~= h.subrange(9 + len, h.len() as int));
        }
    }
}

/// A frame that was written is read back, whatever follows it, and what follows it is
/// left.
pub proof fn written_frame_is_read_back(
    out: &mut Vec<u8>,
    kind: u8,
    payload: &[u8],
    s: &mut &[u8],
    rest: Seq<u8>,
    r: Result<(u8, Vec<u8>), FrameError>,
)
    requires
        call_ensures(frame::write_frame, (out, kind, payload), ()),
        old(s)@ == final(out)@.subrange(old(out)@.len() as int, final(out)@.len() as int) + rest,
        call_ensures(frame::read_frame, (s,), r),
        payload@.len() <= 0x1_0000_0000,
    ensures
        r matches Ok((k, p)) && k == kind && p@ == payload@,
        final(s)@ == rest,
{
    frame::frame_round_trip(kind, payload@, rest);
    assert(final(out)@.subrange(old(out)@.len() as int, final(out)@.len() as int)
        =~= frame::frame_bytes(kind, payload@));
}

/// A frame whose payload is longer than 4 GiB is refused.
pub proof fn longer_frame_is_refused(
    out: &mut Vec<u8>,
    kind: u8,
    payload: &[u8],
    s: &mut &[u8],
    rest: Seq<u8>,
    r: Result<(u8, Vec<u8>), FrameError>,
)
    requires
        call_ensures(frame::write_frame, (out, kind, payload), ()),
        old(s)@ == final(out)@.subrange(old(out)@.len() as int, final(out)@.len() as int) + rest,
        call_ensures(frame::read_frame, (s,), r),
        0x1_0000_0000 < payload@.len() <= u64::MAX,
    ensures
        r matches Err(e) && e == FrameError::TooLarge,
{
    frame::long_frame_is_refused(kind, payload@, rest);
    assert(final(out)@.subrange(old(out)@.len() as int, final(out)@.len() as int)
        =~= frame::frame_bytes(kind, payload@));
}

} // verus!
