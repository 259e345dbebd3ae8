use libbinder::formats::dead_simple::{DeadSimpleFormat, DeadSimpleFormatReader};
use libbinder::formats::{InnerReader, ReadFormat, WriteFormat};
use libbinder::packet::reader::ReaderState;

const WORD: usize = std::mem::size_of::<usize>();

#[test]
fn format_writes_into_any_buffer() {
    let format = DeadSimpleFormat::new();
    let mut out = vec![0xee];
    format.write_u16(&mut out, 0x0102);
    format.write_bool(&mut out, true);
    format.write_str(&mut out, "ab");
    format.write_cstr(&mut out, b"c");
    format.write_i8(&mut out, -1);
    let mut expected = vec![0xee];
    expected.extend_from_slice(&0x0102u16.to_ne_bytes());
    expected.push(1);
    expected.extend_from_slice(&2usize.to_ne_bytes());
    expected.extend_from_slice(b"ab");
    expected.extend_from_slice(b"c\0");
    expected.push(0xff);
    assert_eq!(out, expected);
}

#[test]
fn format_writes_slices_into_any_buffer() {
    let format = DeadSimpleFormat::new();
    let mut out = Vec::new();
    format.write_u32_slice(&mut out, &[1, 2]);
    format.write_bool_slice(&mut out, &[true]);
    format.write_str_slice(&mut out, &["x"]);
    format.write_cstr_slice(&mut out, &[&b"y"[..]]);
    format.write_u8_slice(&mut out, &[9]);
    let mut expected = Vec::new();
    expected.extend_from_slice(&2usize.to_ne_bytes());
    expected.extend_from_slice(&1u32.to_ne_bytes());
    expected.extend_from_slice(&2u32.to_ne_bytes());
    expected.extend_from_slice(&1usize.to_ne_bytes());
    expected.push(1);
    expected.extend_from_slice(&1usize.to_ne_bytes());
    expected.extend_from_slice(&1usize.to_ne_bytes());
    expected.push(b'x');
    expected.extend_from_slice(&1usize.to_ne_bytes());
    expected.extend_from_slice(b"y\0");
    expected.extend_from_slice(&1usize.to_ne_bytes());
    expected.push(9);
    assert_eq!(out, expected);
}

#[test]
fn format_reads_through_any_cursor() {
    let format = DeadSimpleFormat::new();
    let mut data = Vec::new();
    format.write_i32(&mut data, -5);
    format.write_str(&mut data, "text");
    format.write_cstr(&mut data, b"zero");
    format.write_u64_slice(&mut data, &[7, 8]);
    format.write_bool(&mut data, true);
    let offsets: [usize; 0] = [];
    let mut cursor = ReaderState::new(&data, &offsets);
    let reader = DeadSimpleFormatReader::new();
    assert_eq!(reader.read_i32(&mut cursor), Ok(-5));
    assert_eq!(reader.read_str(&mut cursor), Ok("text"));
    assert_eq!(reader.read_cstr(&mut cursor), Ok(&b"zero"[..]));
    assert_eq!(reader.read_u64_slice(&mut cursor).unwrap().as_slice(), &[7u64, 8][..]);
    let before = cursor.get_cur_offset(None);
    assert_eq!(reader.read_u16(&mut cursor), Err(()));
    assert_eq!(reader.read_str(&mut cursor), Err(()));
    assert_eq!(reader.read_cstr(&mut cursor), Err(()));
    assert_eq!(cursor.get_cur_offset(None), before);
    assert_eq!(reader.read_bool(&mut cursor), Ok(true));
    assert_eq!(cursor.get_cur_offset(None), data.len());
}

#[test]
fn format_leaves_the_cursor_where_a_read_fails() {
    let mut data = Vec::new();
    data.extend_from_slice(&3usize.to_ne_bytes());
    data.extend_from_slice(&[1, 2]);
    let offsets: [usize; 0] = [];
    let mut cursor = ReaderState::new(&data, &offsets);
    let reader = DeadSimpleFormatReader::new();
    assert_eq!(reader.read_u8_slice(&mut cursor), Err(()));
    assert!(reader.read_u16_slice(&mut cursor).is_err());
    assert_eq!(reader.read_bool_slice(&mut cursor), Err(()));
    assert_eq!(reader.read_str_slice(&mut cursor), Err(()));
    assert_eq!(reader.read_cstr_slice(&mut cursor), Err(()));
    assert_eq!(reader.read_i8_slice(&mut cursor), Err(()));
    assert_eq!(cursor.get_cur_offset(None), 0);
    assert_eq!(reader.read_usize(&mut cursor), Ok(3));
    assert_eq!(cursor.get_cur_offset(None), WORD);
    assert_eq!(cursor.peek(2, 0), Ok(&[1u8, 2][..]));
}

#[test]
fn string_that_runs_into_a_reference_cannot_be_read() {
    let mut data = b"ab".to_vec();
    data.extend_from_slice(&[1, 1]);
    data.extend_from_slice(&vec![0u8; 8 + 2 * WORD]);
    let offsets = [4usize];
    let mut cursor = ReaderState::new(&data, &offsets);
    let reader = DeadSimpleFormatReader::new();
    assert_eq!(reader.read_cstr(&mut cursor), Err(()));
    assert_eq!(cursor.get_cur_offset(None), 0);
    assert_eq!(reader.read_u16(&mut cursor), Ok(u16::from_ne_bytes([b'a', b'b'])));
}
