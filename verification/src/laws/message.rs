//! Laws of texts and files on the wire.

use crate::frame;
use crate::frame::FrameError;
use crate::laws;
use crate::message;
use crate::message::Received;
use crate::names;
use vstd::prelude::*;
use vstd::utf8::*;

verus! {

/// A text goes over the wire as the kind 0, the eight bytes of the length of its
/// UTF-8 form, the most significant one first, and that form.
pub proof fn text_frame_layout(text: &str, bytes: Vec<u8>)
    requires
        call_ensures(message::text_frame, (text,), bytes),
    ensures
        ({
            let f = bytes@;
            let len = encode_utf8(text@).len() as int;
            &&& f.len() == 9 + len
            &&& f[0] == 0
            &&& f[1] as int == (len / 0x100_0000_0000_0000) % 256
            &&& f[2] as int == (len / 0x1_0000_0000_0000) % 256
            &&& f[3] as int == (len / 0x100_0000_0000) % 256
            &&& f[4] as int == (len / 0x1_0000_0000) % 256
            &&& f[5] as int == (len / 0x100_0000) % 256
            &&& f[6] as int == (len / 0x1_0000) % 256
            &&& f[7] as int == (len / 0x100) % 256
            &&& f[8] as int == len % 256
            &&& f.subrange(9, 9 + len) == encode_utf8(text@)
        }),
{
    laws::frame::frame_layout(0, encode_utf8(text@));
}

/// The two bytes of a length.
proof fn two_bytes(n: nat)
    ensures
        frame::big_endian(n, 2) == seq![((n / 256) % 256) as u8, (n % 256) as u8],
{
    reveal_with_fuel(frame::big_endian, 3);
    assert(frame::big_endian(n, 2) =~= seq![((n / 256) % 256) as u8, (n % 256) as u8]);
}

/// The number of two bytes.
proof fn two_bytes_back(s: Seq<u8>)
    requires
        s.len() == 2,
    ensures
        frame::from_big_endian(s) == s[0] * 256 + s[1],
{
    reveal_with_fuel(frame::from_big_endian, 3);
    assert(s.drop_last().last() == s[0]);
    assert(s.drop_last().drop_last().len() == 0);
}

/// A file goes over the wire as the kind 1, the eight bytes of the length of what
/// follows, two bytes of the length of the UTF-8 form of its name, that form, and its
/// contents.
pub proof fn file_frame_layout(name: &str, data: &[u8], bytes: Vec<u8>)
    requires
        call_ensures(message::file_frame, (name, data), bytes),
    ensures
        ({
            let f = bytes@;
            let n = encode_utf8(name@).len() as int;
            let len = 2 + n + data@.len();
            &&& f.len() == 9 + len
            &&& f[0] == 1
            &&& f[1] as int == (len / 0x100_0000_0000_0000) % 256
            &&& f[2] as int == (len / 0x1_0000_0000_0000) % 256
            &&& f[3] as int == (len / 0x100_0000_0000) % 256
            &&& f[4] as int == (len / 0x1_0000_0000) % 256
            &&& f[5] as int == (len / 0x100_0000) % 256
            &&& f[6] as int == (len / 0x1_0000) % 256
            &&& f[7] as int == (len / 0x100) % 256
            &&& f[8] as int == len % 256
            &&& f[9] as int == (n / 256) % 256
            &&& f[10] as int == n % 256
            &&& f.subrange(11, 11 + n) == encode_utf8(name@)
            &&& f.subrange(11 + n, 9 + len) == data@
        }),
{
    let name_bytes = encode_utf8(name@);
    let n = name_bytes.len() as int;
    let p = message::file_payload(name_bytes, data@);
    laws::frame::frame_layout(1, p);
    two_bytes(name_bytes.len());
    let f = bytes@;
    assert(p.len() == 2 + n + data@.len());
    assert(f.subrange(9, 9 + p.len() as int)[0] == p[0]);
    assert(f.subrange(9, 9 + p.len() as int)[1] == p[1]);
    assert(f.subrange(11, 11 + n) =~= name_bytes) by {
        assert forall|i: int| 0 <= i < n implies f[11 + i] == name_bytes[i] by {
            assert(f.subrange(9, 9 + p.len() as int)[2 + i] == p[2 + i]);
        }
    }
    assert(f.subrange(11 + n, 9 + p.len() as int) =~= data@) by {
        assert forall|i: int| 0 <= i < data@.len() implies f[11 + n + i] == data@[i] by {
            assert(f.subrange(9, 9 + p.len() as int)[2 + n + i] == p[2 + n + i]);
        }
    }
}

/// The name ends as many bytes after the first two as these say, where the payload is
/// as long as that.
pub proof fn name_ends_where_its_length_says(payload: &[u8], end: Option<usize>)
    requires
        call_ensures(message::name_end, (payload,), end),
    ensures
        ({
            let p = payload@;
            let n = p[0] * 256 + p[1];
            &&& p.len() >= 2 && p.len() >= 2 + n ==> (end matches Some(e) && e == 2 + n)
            &&& p.len() < 2 || p.len() < 2 + n ==> end is None
        }),
{
    let p = payload@;
    if p.len() >= 2 {
        two_bytes_back(p.take(2));
        let n = p[0] * 256 + p[1];
        if p.len() >= 2 + n {
            assert(end is Some);
            let e = end->0 as int;
            assert(p.subrange(2, 2 + n).len() == p.subrange(2, e).len());
        }
    }
}

/// A file is taken in with its name and its contents as they are, and with its
/// sanitized name.
pub proof fn file_is_taken_in(name: String, data: Vec<u8>, r: Received, s: &str, safe: String)
    requires
        call_ensures(message::take_file, (name, data), r),
        call_ensures(names::sanitize, (s,), safe),
        s@ == name@,
    ensures
        r matches Received::File { name: n, safe: f, data: d } && n@ == name@ && f@ == safe@ && d@
            == data@,
{
}

/// A read that fails is the end of the connection.
pub proof fn failed_read_is_the_end(r: Received)
    requires
        call_ensures(message::receive, (None::<(u8, Vec<u8>)>,), r),
    ensures
        r is Closed,
{
}

/// A frame of the kind 0 is a text: its payload decoded, where that is UTF-8.
pub proof fn text_is_received(payload: Vec<u8>, r: Received)
    requires
        call_ensures(message::receive, (Some((0u8, payload)),), r),
    ensures
        r matches Received::Text(t) && t@ == (if valid_utf8(payload@) {
            decode_utf8(payload@)
        } else {
            message::repaired_text(payload@)
        }),
{
}

/// A frame of the kind 1 is a file where its payload is as long as its first two
/// bytes say: the name are the bytes after these, decoded where they are UTF-8, and
/// the contents are the rest. Else it is passed over.
pub proof fn file_is_received(payload: Vec<u8>, r: Received, s: &str, safe: String)
    requires
        call_ensures(message::receive, (Some((1u8, payload)),), r),
        call_ensures(names::sanitize, (s,), safe),
    ensures
        ({
            let p = payload@;
            let n = p[0] * 256 + p[1];
            let name = p.subrange(2, 2 + n);
            &&& p.len() < 2 || p.len() < 2 + n ==> r is Nothing
            &&& p.len() >= 2 && p.len() >= 2 + n ==> (r matches Received::File {
                name: t,
                safe: f,
                data,
            } && data@ == p.subrange(2 + n, p.len() as int) && t@ == (if valid_utf8(name) {
                decode_utf8(name)
            } else {
                message::repaired_text(name)
            }) && (s@ == t@ ==> f@ == safe@))
        }),
{
    let p = payload@;
    if p.len() >= 2 {
        two_bytes_back(p.take(2));
        let n = p[0] * 256 + p[1];
        if p.len() >= 2 + n {
            assert(p.skip(2 + n) =~= p.subrange(2 + n, p.len() as int));
        }
    }
}

/// A frame of any other kind is passed over.
pub proof fn unknown_kind_is_passed_over(kind: u8, payload: Vec<u8>, r: Received)
    requires
        call_ensures(message::receive, (Some((kind, payload)),), r),
        kind >= 2,
    ensures
        r is Nothing,
{
}

/// A text that was framed arrives as it was, whatever follows it on the wire, and
/// what follows it is left.
pub proof fn framed_text_arrives(
    text: &str,
    bytes: Vec<u8>,
    s: &mut &[u8],
    rest: Seq<u8>,
    read: (u8, Vec<u8>),
    result: Result<(u8, Vec<u8>), FrameError>,
    r: Received,
)
    requires
        call_ensures(message::text_frame, (text,), bytes),
        old(s)@ == bytes@ + rest,
        call_ensures(frame::read_frame, (s,), result),
        result is Ok ==> result->Ok_0 == read && call_ensures(message::receive, (Some(read),), r),
        encode_utf8(text@).len() <= 0x1_0000_0000,
    ensures
        result is Ok,
        r matches Received::Text(t) && t@ == text@,
        final(s)@ == rest,
{
    message::text_round_trip(text@, rest);
    let frame = Some((read.0, read.1@));
    assert(message::parse_ok(old(s)@) == frame);
}

/// A file that was framed arrives with its name and its contents, whatever follows it
/// on the wire, and what follows it is left.
pub proof fn framed_file_arrives(
    name: &str,
    data: &[u8],
    bytes: Vec<u8>,
    s: &mut &[u8],
    rest: Seq<u8>,
    read: (u8, Vec<u8>),
    result: Result<(u8, Vec<u8>), FrameError>,
    r: Received,
    safe: String,
)
    requires
        call_ensures(message::file_frame, (name, data), bytes),
        old(s)@ == bytes@ + rest,
        call_ensures(frame::read_frame, (s,), result),
        result is Ok ==> result->Ok_0 == read && call_ensures(message::receive, (Some(read),), r),
        call_ensures(names::sanitize, (name,), safe),
        encode_utf8(name@).len() < 0x1_0000,
        2 + encode_utf8(name@).len() + data@.len() <= 0x1_0000_0000,
    ensures
        result is Ok,
        r matches Received::File { name: n, safe: f, data: d } && n@ == name@ && f@ == safe@ && d@
            == data@,
        final(s)@ == rest,
{
    message::file_round_trip(name@, data@, rest);
    let frame = Some((read.0, read.1@));
    assert(result is Ok);
    assert(message::parse_ok(old(s)@) == frame);
}

} // verus!
