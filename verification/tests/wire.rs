use lchat::frame::{
    push_big_endian, read_big_endian, read_frame, read_header, write_frame, FrameError, KIND_FILE, KIND_TEXT,
    MAX_FRAME,
};
use lchat::message::{file_frame, name_end, receive, take_file, text_frame, Received};

#[test]
fn frame_roundtrip_text_and_binary() {
    let mut c: Vec<u8> = Vec::new();
    write_frame(&mut c, KIND_TEXT, "привет, мир".as_bytes());
    let blob: Vec<u8> = (0..=255u8).cycle().take(5000).collect();
    write_frame(&mut c, KIND_FILE, &blob);
    let mut s: &[u8] = &c;
    let (k1, p1) = read_frame(&mut s).unwrap();
    let (k2, p2) = read_frame(&mut s).unwrap();
    assert_eq!(k1, KIND_TEXT);
    assert_eq!(String::from_utf8(p1).unwrap(), "привет, мир");
    assert_eq!(k2, KIND_FILE);
    assert_eq!(p2, blob);
    assert!(s.is_empty());
}

#[test]
fn a_frame_on_the_wire() {
    let mut c: Vec<u8> = vec![9];
    write_frame(&mut c, 7, &[1, 2, 3]);
    assert_eq!(c, vec![9, 7, 0, 0, 0, 0, 0, 0, 0, 3, 1, 2, 3]);
    let mut empty: Vec<u8> = Vec::new();
    write_frame(&mut empty, KIND_TEXT, &[]);
    assert_eq!(empty, vec![0; 9]);
}

#[test]
fn numbers_have_the_most_significant_byte_first() {
    let mut v: Vec<u8> = Vec::new();
    push_big_endian(&mut v, 0x0102030405060708, 8);
    assert_eq!(v, 0x0102030405060708u64.to_be_bytes().to_vec());
    assert_eq!(read_big_endian(&v), 0x0102030405060708);
    assert_eq!(read_big_endian(&[0xff; 8]), u64::MAX);
    assert_eq!(read_big_endian(&[]), 0);
    let mut w: Vec<u8> = Vec::new();
    push_big_endian(&mut w, 0x12345, 2);
    assert_eq!(w, vec![0x23, 0x45]);
}

#[test]
fn long_frames_are_refused() {
    let mut c: Vec<u8> = vec![KIND_TEXT];
    c.extend_from_slice(&(MAX_FRAME + 1).to_be_bytes());
    c.push(5);
    let mut s: &[u8] = &c;
    assert_eq!(read_frame(&mut s), Err(FrameError::TooLarge));
    assert_eq!(s, &[5][..]);
    assert_eq!(read_header(&c[..9]), Err(FrameError::TooLarge));
    let mut d: Vec<u8> = vec![KIND_FILE];
    d.extend_from_slice(&MAX_FRAME.to_be_bytes());
    assert_eq!(read_header(&d), Ok((KIND_FILE, 4294967296)));
}

#[test]
fn broken_frames_are_no_frames() {
    let mut c: Vec<u8> = Vec::new();
    write_frame(&mut c, KIND_TEXT, b"hello");
    for n in 0..c.len() {
        let mut s: &[u8] = &c[..n];
        assert_eq!(read_frame(&mut s), Err(FrameError::UnexpectedEof));
        assert!(s.is_empty());
    }
}

#[test]
fn a_stream_gives_its_frames_in_order() {
    let frames: Vec<(u8, Vec<u8>)> = vec![(0, vec![]), (1, vec![1; 300]), (9, vec![2]), (0, vec![3, 4])];
    let mut c: Vec<u8> = Vec::new();
    for (kind, payload) in &frames {
        write_frame(&mut c, *kind, payload);
    }
    let mut s: &[u8] = &c;
    let mut got: Vec<(u8, Vec<u8>)> = Vec::new();
    while let Ok(f) = read_frame(&mut s) {
        got.push(f);
    }
    assert_eq!(got, frames);
}

fn through(bytes: Vec<u8>) -> Received {
    let mut s: &[u8] = &bytes;
    receive(read_frame(&mut s).ok())
}

#[test]
fn a_text_arrives_as_it_was_sent() {
    for text in ["", "привет", "a\r\nb", "\u{fffd}🟢"] {
        match through(text_frame(text)) {
            Received::Text(t) => assert_eq!(t, text),
            _ => panic!("no text"),
        }
    }
}

#[test]
fn bytes_that_are_no_text_are_repaired() {
    match receive(Some((KIND_TEXT, vec![b'a', 0xff, b'b']))) {
        Received::Text(t) => assert_eq!(t, "a\u{fffd}b"),
        _ => panic!("no text"),
    }
    match receive(Some((KIND_FILE, vec![0, 2, 0xc3, 0x28, 7]))) {
        Received::File { name, safe, data } => {
            assert_eq!(name, "\u{fffd}(");
            assert_eq!(safe, "\u{fffd}(");
            assert_eq!(data, vec![7]);
        }
        _ => panic!("no file"),
    }
}

#[test]
fn a_file_arrives_as_it_was_sent() {
    match through(file_frame("../отчёт: 1.pdf", &[1, 2, 3])) {
        Received::File { name, safe, data } => {
            assert_eq!(name, "../отчёт: 1.pdf");
            assert_eq!(safe, "отчёт 1.pdf");
            assert_eq!(data, vec![1, 2, 3]);
        }
        _ => panic!("no file"),
    }
    let longest = "n".repeat(65535);
    match through(file_frame(&longest, &[])) {
        Received::File { name, data, .. } => {
            assert_eq!(name, longest);
            assert!(data.is_empty());
        }
        _ => panic!("no file"),
    }
}

#[test]
fn a_file_on_the_wire() {
    assert_eq!(file_frame("ab", &[5]), vec![1, 0, 0, 0, 0, 0, 0, 0, 5, 0, 2, b'a', b'b', 5]);
    // Of a longer length only the last two bytes are sent.
    let bytes = file_frame(&"n".repeat(65537), &[]);
    assert_eq!(&bytes[9..12], &[0, 1, b'n'][..]);
}

#[test]
fn senseless_frames_are_passed_over() {
    for (kind, payload) in [
        (2u8, vec![1, 2, 3]),
        (255, vec![]),
        (KIND_FILE, vec![]),
        (KIND_FILE, vec![0]),
        (KIND_FILE, vec![0, 3, 1, 2]),
    ] {
        assert!(matches!(receive(Some((kind, payload))), Received::Nothing));
    }
    assert!(matches!(receive(None), Received::Closed));
    assert_eq!(name_end(&[0, 3, 1, 2]), None);
    assert_eq!(name_end(&[0, 2, 1, 2]), Some(4));
}

#[test]
fn a_nameless_file_gets_a_name() {
    match take_file(String::new(), vec![1]) {
        Received::File { name, safe, data } => {
            assert_eq!(name, "");
            assert_eq!(safe, "file.bin");
            assert_eq!(data, vec![1]);
        }
        _ => panic!("no file"),
    }
}
