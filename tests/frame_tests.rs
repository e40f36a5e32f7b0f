use data_shifter::frame::{
    encode_header, header_len_needed, name_is_safe, parse_header, restore_frame, shift_frame,
    FrameError, Header,
};
use data_shifter::transform::{transform_chunk, Direction};

fn header_for(name: &[u8], shift: u8) -> Vec<u8> {
    let mut v = b"SHIFTED".to_vec();
    v.push(shift);
    v.push(name.len() as u8);
    v.extend_from_slice(name);
    v
}

#[test]
fn encode_wraps_at_top_byte() {
    let mut buf = vec![0x00u8, 0x01, 0xFF];
    transform_chunk(&mut buf, 5, Direction::Encode);
    assert_eq!(buf, vec![0x05u8, 0x06, 0x04]);
}

#[test]
fn decode_wraps_at_zero() {
    let mut buf = vec![0x05u8, 0x06, 0x04];
    transform_chunk(&mut buf, 5, Direction::Decode);
    assert_eq!(buf, vec![0x00u8, 0x01, 0xFF]);
}

#[test]
fn transform_empty_buffer() {
    let mut buf: Vec<u8> = Vec::new();
    transform_chunk(&mut buf, 200, Direction::Encode);
    assert!(buf.is_empty());
}

#[test]
fn decode_inverts_encode_for_every_shift() {
    let original: Vec<u8> = (0..=255u8).collect();
    for s in 1..=255u8 {
        let mut buf = original.clone();
        transform_chunk(&mut buf, s, Direction::Encode);
        assert_ne!(buf, original);
        transform_chunk(&mut buf, s, Direction::Decode);
        assert_eq!(buf, original);
    }
}

#[test]
fn header_of_a_txt() {
    let h = encode_header("a.txt", 5).unwrap();
    assert_eq!(h, b"SHIFTED\x05\x05a.txt".to_vec());
    assert_eq!(h.len(), 9 + 5);
}

#[test]
fn header_name_of_255_bytes_fits() {
    let name = "x".repeat(255);
    let h = encode_header(&name, 1).unwrap();
    assert_eq!(h.len(), 9 + 255);
    assert_eq!(h[8], 255);
}

#[test]
fn header_name_too_long() {
    let name = "x".repeat(256);
    assert_eq!(encode_header(&name, 1), Err(FrameError::NameTooLong));
    assert_eq!(shift_frame(&name, &[1, 2, 3], 1), Err(FrameError::NameTooLong));
}

#[test]
fn header_utf8_name_counts_bytes() {
    let h = encode_header("é.txt", 9).unwrap();
    assert_eq!(h[8], 6);
    assert_eq!(&h[9..], "é.txt".as_bytes());
}

#[test]
fn scenario_a_txt_shift_five() {
    let file = shift_frame("a.txt", &[0x00, 0x01, 0xFF], 5).unwrap();
    let mut expected = b"SHIFTED".to_vec();
    expected.extend_from_slice(&[0x05, 0x05]);
    expected.extend_from_slice(b"a.txt");
    expected.extend_from_slice(&[0x05, 0x06, 0x04]);
    assert_eq!(file, expected);
    let back = restore_frame(&expected).ok().unwrap();
    assert_eq!(back.name, "a.txt");
    assert_eq!(back.content, vec![0x00u8, 0x01, 0xFF]);
}

#[test]
fn round_trip_every_shift() {
    let content: Vec<u8> = (0..1000u32).map(|i| (i * 7 % 256) as u8).collect();
    for s in 1..=255u8 {
        let file = shift_frame("report.bin", &content, s).unwrap();
        let back = restore_frame(&file).ok().unwrap();
        assert_eq!(back.name, "report.bin");
        assert_eq!(back.content, content);
    }
}

#[test]
fn round_trip_empty_content_and_utf8_name() {
    let file = shift_frame("données", &[], 77).unwrap();
    let back = restore_frame(&file).ok().unwrap();
    assert_eq!(back.name, "données");
    assert!(back.content.is_empty());
}

#[test]
fn bad_magic_is_rejected() {
    let mut file = header_for(b"a.txt", 5);
    file[0] = b's';
    file.extend_from_slice(&[1, 2, 3]);
    assert_eq!(parse_header(&file).err(), Some(FrameError::BadMagic));
    assert_eq!(restore_frame(&file).err(), Some(FrameError::BadMagic));
}

#[test]
fn bad_magic_in_last_marker_byte() {
    let mut file = header_for(b"a.txt", 5);
    file[6] = b'E';
    assert_eq!(restore_frame(&file).err(), Some(FrameError::BadMagic));
}

#[test]
fn empty_name_is_rejected() {
    let mut file = b"SHIFTED".to_vec();
    file.extend_from_slice(&[5, 0, 1, 2, 3]);
    assert_eq!(parse_header(&file).err(), Some(FrameError::EmptyName));
    assert_eq!(restore_frame(&file).err(), Some(FrameError::EmptyName));
}

#[test]
fn short_files_are_truncated() {
    assert_eq!(restore_frame(&[]).err(), Some(FrameError::Truncated));
    assert_eq!(restore_frame(b"SHIFT").err(), Some(FrameError::Truncated));
    assert_eq!(restore_frame(b"SHIFTED\x05").err(), Some(FrameError::Truncated));
    assert_eq!(restore_frame(b"SHIFTED\x05\x05a.t").err(), Some(FrameError::Truncated));
}

#[test]
fn short_file_with_bad_magic_reports_magic() {
    assert_eq!(restore_frame(b"SHIFTXX\x05").err(), Some(FrameError::BadMagic));
}

#[test]
fn unsafe_names_are_rejected() {
    for name in [&b".."[..], b".", b"a/b", b"../x", b"a\\b"] {
        let file = header_for(name, 3);
        assert_eq!(restore_frame(&file).err(), Some(FrameError::UnsafeName));
    }
}

#[test]
fn name_safety() {
    assert!(name_is_safe(b"a.txt"));
    assert!(name_is_safe(b"..."));
    assert!(name_is_safe(b".hidden"));
    assert!(!name_is_safe(b".."));
    assert!(!name_is_safe(b"."));
    assert!(!name_is_safe(b"dir/a"));
}

#[test]
fn parse_header_fields() {
    let mut file = header_for(b"a.txt", 200);
    file.extend_from_slice(&[9, 9]);
    let h: Header = parse_header(&file).ok().unwrap();
    assert_eq!(h.shift, 200);
    assert_eq!(h.name, b"a.txt".to_vec());
    assert_eq!(h.file_name(), "a.txt");
}

#[test]
fn lossy_name_replaces_invalid_bytes() {
    let file = header_for(&[b'a', 0xFF, b'b'], 1);
    let h = parse_header(&file).ok().unwrap();
    assert_eq!(h.file_name(), "a\u{FFFD}b");
}

#[test]
fn header_len_needed_grows_with_name() {
    assert_eq!(header_len_needed(&[]), 9);
    assert_eq!(header_len_needed(b"SHIFTED\x05"), 9);
    assert_eq!(header_len_needed(b"SHIFTED\x05\x05"), 14);
    assert_eq!(header_len_needed(b"SHIFTED\x05\xFFabc"), 264);
}
