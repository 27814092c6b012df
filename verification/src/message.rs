//! What frames carry: texts and files.

use crate::frame::{push_big_endian, read_big_endian, write_frame, KIND_FILE, KIND_TEXT};
use crate::frame;
use crate::names;
use vstd::prelude::*;
use vstd::slice::*;
use vstd::utf8::*;

verus! {

/// A name for the text that `String::from_utf8_lossy` makes of bytes that are
/// not valid UTF-8: what is valid in them, with U+FFFD for the rest.
pub uninterp spec fn repaired_text(bytes: Seq<u8>) -> Seq<char>;

/// The text that received bytes are shown as.
pub open spec fn shown_text(bytes: Seq<u8>) -> Seq<char> {
    if valid_utf8(bytes) {
        decode_utf8(bytes)
    } else {
        repaired_text(bytes)
    }
}

/// `String::from_utf8_lossy` of the standard library, as an owned string. Valid
/// UTF-8 is decoded; of other bytes it is claimed only that the same bytes give
/// the same text.
#[verifier::external_body]
fn lossy(bytes: &[u8]) -> (s: String)
    ensures
        s@ == (if valid_utf8(bytes@) {
            decode_utf8(bytes@)
        } else {
            repaired_text(bytes@)
        }),
{
    String::from_utf8_lossy(bytes).into_owned()
}

/// The payload that carries a file: the last two bytes of the length of the
/// name, the name, and the contents.
pub open spec fn file_payload(name: Seq<u8>, data: Seq<u8>) -> Seq<u8> {
    frame::big_endian(name.len(), 2) + name + data
}

/// The name and the contents that a payload carries. There are none where it is
/// shorter than it says.
pub open spec fn split_file(payload: Seq<u8>) -> Option<(Seq<u8>, Seq<u8>)> {
    let n = frame::from_big_endian(payload.take(2)) as int;
    if payload.len() < 2 || payload.len() < 2 + n {
        None
    } else {
        Some((payload.subrange(2, 2 + n), payload.skip(2 + n)))
    }
}

/// The frame that carries a text.
pub open spec fn text_message(text: Seq<char>) -> Seq<u8> {
    frame::frame_bytes(KIND_TEXT, encode_utf8(text))
}

/// The frame that carries a file.
pub open spec fn file_message(name: Seq<char>, data: Seq<u8>) -> Seq<u8> {
    frame::frame_bytes(KIND_FILE, file_payload(encode_utf8(name), data))
}

/// Makes the frame that carries a text.
pub fn text_frame(text: &str) -> (bytes: Vec<u8>)
    ensures
        bytes@ == text_message(text@),
{
    let mut bytes: Vec<u8> = Vec::new();
    write_frame(&mut bytes, KIND_TEXT, text.as_bytes());
    assert(bytes@ =~= text_message(text@));
    bytes
}

/// Makes the frame that carries a file.
pub fn file_frame(name: &str, data: &[u8]) -> (bytes: Vec<u8>)
    ensures
        bytes@ == file_message(name@, data@),
{
    let name_bytes = name.as_bytes();
    let mut payload: Vec<u8> = Vec::new();
    push_big_endian(&mut payload, name_bytes.len() as u64, 2);
    payload.extend_from_slice(name_bytes);
    payload.extend_from_slice(data);
    assert(payload@ =~= file_payload(encode_utf8(name@), data@));
    let mut bytes: Vec<u8> = Vec::new();
    write_frame(&mut bytes, KIND_FILE, payload.as_slice());
    assert(bytes@ =~= file_message(name@, data@));
    bytes
}

/// What a reader makes of what it read.
pub enum Received {
    /// A text to show.
    Text(String),
    /// A file to save: its name as sent, a safe name for it, its contents.
    File { name: String, safe: String, data: Vec<u8> },
    /// Nothing: the frame is passed over.
    Nothing,
    /// The end of the connection.
    Closed,
}

/// `Received`, with the strings as sequences.
pub enum Arrival {
    Text(Seq<char>),
    File { name: Seq<char>, safe: Seq<char>, data: Seq<u8> },
    Nothing,
    Closed,
}

impl View for Received {
    type V = Arrival;

    open spec fn view(&self) -> Arrival {
        match self {
            Received::Text(text) => Arrival::Text(text@),
            Received::File { name, safe, data } => Arrival::File {
                name: name@,
                safe: safe@,
                data: data@,
            },
            Received::Nothing => Arrival::Nothing,
            Received::Closed => Arrival::Closed,
        }
    }
}

/// What a frame means; `None` stands for a read that failed.
pub open spec fn arrival(read: Option<(u8, Seq<u8>)>) -> Arrival {
    match read {
        None => Arrival::Closed,
        Some((kind, payload)) => {
            if kind == KIND_TEXT {
                Arrival::Text(shown_text(payload))
            } else if kind == KIND_FILE {
                match split_file(payload) {
                    None => Arrival::Nothing,
                    Some((name, data)) => file_arrival(shown_text(name), data),
                }
            } else {
                Arrival::Nothing
            }
        },
    }
}

/// A file that arrives under `name`.
pub open spec fn file_arrival(name: Seq<char>, data: Seq<u8>) -> Arrival {
    Arrival::File { name, safe: names::safe_name(name), data }
}

/// Where the name ends in the payload of a file.
pub fn name_end(payload: &[u8]) -> (end: Option<usize>)
    ensures
        match (end, split_file(payload@)) {
            (Some(e), Some((name, data))) => 2 <= e <= payload@.len() && name == payload@.subrange(
                2,
                e as int,
            ) && data == payload@.skip(e as int),
            (None, None) => true,
            _ => false,
        },
{
    if payload.len() < 2 {
        return None;
    }
    let head = slice_subrange(payload, 0, 2);
    assert(head@ =~= payload@.take(2));
    let n: u64 = read_big_endian(head);
    if ((payload.len() - 2) as u64) < n {
        None
    } else {
        Some(2 + n as usize)
    }
}

/// Takes a file in, whose name has been decoded.
pub fn take_file(name: String, data: Vec<u8>) -> (r: Received)
    ensures
        r@ == file_arrival(name@, data@),
{
    let safe = names::sanitize(name.as_str());
    Received::File { name, safe, data }
}

/// Decides what becomes of a frame; `None` stands for a read that failed.
pub fn receive(read: Option<(u8, Vec<u8>)>) -> (r: Received)
    ensures
        r@ == arrival(
            match read {
                Some((kind, payload)) => Some((kind, payload@)),
                None => None,
            },
        ),
{
    match read {
        None => Received::Closed,
        Some((kind, payload)) => {
            if kind == KIND_TEXT {
                Received::Text(lossy(payload.as_slice()))
            } else if kind == KIND_FILE {
                match name_end(payload.as_slice()) {
                    None => Received::Nothing,
                    Some(end) => {
                        let name = lossy(slice_subrange(payload.as_slice(), 2, end));
                        let data = slice_to_vec(
                            slice_subrange(payload.as_slice(), end, payload.len()),
                        );
                        assert(data@ =~= payload@.skip(end as int));
                        take_file(name, data)
                    },
                }
            } else {
                Received::Nothing
            }
        },
    }
}

/// A payload gives back the name and the contents it was made of, where the
/// length of the name fits into two bytes.
pub proof fn file_payload_round_trip(name: Seq<u8>, data: Seq<u8>)
    requires
        name.len() < 0x1_0000,
    ensures
        split_file(file_payload(name, data)) == Some((name, data)),
{
    frame::pow256_values();
    frame::big_endian_round_trip(name.len(), 2);
    let p = file_payload(name, data);
    let n = name.len() as int;
    assert(p.take(2) =~= frame::big_endian(name.len(), 2));
    assert(p.subrange(2, 2 + n) =~= name);
    assert(p.skip(2 + n) =~= data);
}

/// A text arrives as it was sent, whatever follows it on the wire.
pub proof fn text_round_trip(text: Seq<char>, rest: Seq<u8>)
    requires
        encode_utf8(text).len() <= frame::MAX_FRAME,
    ensures
        parse_ok(text_message(text) + rest) is Some,
        arrival(parse_ok(text_message(text) + rest)) == Arrival::Text(text),
        frame::after_frame(text_message(text) + rest) == rest,
{
    frame::frame_round_trip(KIND_TEXT, encode_utf8(text), rest);
    encode_utf8_valid_utf8(text);
    encode_utf8_decode_utf8(text);
}

/// A file arrives with its name and its contents as they were sent, and with a
/// safe name to save it under, whatever follows it on the wire.
pub proof fn file_round_trip(name: Seq<char>, data: Seq<u8>, rest: Seq<u8>)
    requires
        encode_utf8(name).len() < 0x1_0000,
        2 + encode_utf8(name).len() + data.len() <= frame::MAX_FRAME,
    ensures
        arrival(parse_ok(file_message(name, data) + rest)) == (Arrival::File {
            name,
            safe: names::safe_name(name),
            data,
        }),
        frame::after_frame(file_message(name, data) + rest) == rest,
{
    let payload = file_payload(encode_utf8(name), data);
    frame::pow256_values();
    frame::big_endian_round_trip(encode_utf8(name).len(), 2);
    frame::frame_round_trip(KIND_FILE, payload, rest);
    file_payload_round_trip(encode_utf8(name), data);
    encode_utf8_valid_utf8(name);
    encode_utf8_decode_utf8(name);
}

/// What a reader takes from the start of an input.
pub open spec fn parse_ok(s: Seq<u8>) -> Option<(u8, Seq<u8>)> {
    match frame::parse_frame(s) {
        Ok(frame) => Some(frame),
        Err(_) => None,
    }
}

/// Frames of an unknown kind, and files whose payload is shorter than it says,
/// are passed over.
pub proof fn senseless_frames_are_passed_over(kind: u8, payload: Seq<u8>)
    requires
        kind != KIND_TEXT,
        kind == KIND_FILE ==> split_file(payload) is None,
    ensures
        arrival(Some((kind, payload))) == Arrival::Nothing,
{
}

/// Whatever arrives as a file is to be saved under a safe name.
pub proof fn arriving_files_have_safe_names(read: Option<(u8, Seq<u8>)>)
    ensures
        arrival(read) matches Arrival::File { name, safe, data } ==> names::is_safe_name(safe),
{
    if let Arrival::File { name, safe, data } = arrival(read) {
        names::sanitized_name_is_safe(name);
    }
}

} // verus!
