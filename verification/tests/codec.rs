use libbinder::formats::dead_simple::{DeadSimpleFormat, DeadSimpleFormatReader};
use libbinder::formats::{InnerReader, SliceReadResult};
use libbinder::object::{ObjectRef, ObjectRefLocal, ObjectRefRemote};
use libbinder::packet::reader::ReaderState;
use libbinder::packet::{Packet, PacketBuilder};
use libbinder::transaction::TransactionFlags;

const WORD: usize = std::mem::size_of::<usize>();

fn target() -> ObjectRef {
    ObjectRef::Remote(ObjectRefRemote { data_handle: 0 })
}

fn packet_of(data: Vec<u8>) -> Packet {
    Packet::from_parts(1, TransactionFlags::empty(), target(), data, Vec::new()).unwrap()
}

fn built(builder: &mut PacketBuilder) -> Packet {
    builder.set_code(1).set_target(target());
    builder.build()
}

#[test]
fn scalars_read_back_in_order() {
    let mut builder = PacketBuilder::new();
    builder
        .writer(DeadSimpleFormat::new())
        .write_u64(0.872f64.to_bits())
        .write_u32(0.3f32.to_bits())
        .write_u32(9);
    let packet = built(&mut builder);
    let mut reader = packet.reader(DeadSimpleFormatReader::new());
    assert_eq!(f64::from_bits(reader.read_u64().unwrap()), 0.872);
    assert_eq!(f32::from_bits(reader.read_u32().unwrap()), 0.3);
    assert_eq!(reader.read_u32().unwrap(), 9);
    assert!(reader.read_u8().is_err());
}

#[test]
fn integers_are_packed_tightly_in_native_order() {
    let mut builder = PacketBuilder::new();
    builder
        .writer(DeadSimpleFormat::new())
        .write_u8(0x11)
        .write_u16(0x2233)
        .write_u32(0x4455_6677)
        .write_u64(0x8899_aabb_ccdd_eeff)
        .write_usize(0x1234)
        .write_i8(-1)
        .write_i16(-2)
        .write_i32(-3)
        .write_i64(-4)
        .write_isize(-5);
    let mut expected = vec![0x11];
    expected.extend_from_slice(&0x2233u16.to_ne_bytes());
    expected.extend_from_slice(&0x4455_6677u32.to_ne_bytes());
    expected.extend_from_slice(&0x8899_aabb_ccdd_eeffu64.to_ne_bytes());
    expected.extend_from_slice(&0x1234usize.to_ne_bytes());
    expected.extend_from_slice(&(-1i8).to_ne_bytes());
    expected.extend_from_slice(&(-2i16).to_ne_bytes());
    expected.extend_from_slice(&(-3i32).to_ne_bytes());
    expected.extend_from_slice(&(-4i64).to_ne_bytes());
    expected.extend_from_slice(&(-5isize).to_ne_bytes());
    let packet = built(&mut builder);
    assert_eq!(packet.get_data(), &expected[..]);
    let mut reader = packet.reader(DeadSimpleFormatReader::new());
    assert_eq!(reader.read_u8(), Ok(0x11));
    assert_eq!(reader.read_u16(), Ok(0x2233));
    assert_eq!(reader.read_u32(), Ok(0x4455_6677));
    assert_eq!(reader.read_u64(), Ok(0x8899_aabb_ccdd_eeff));
    assert_eq!(reader.read_usize(), Ok(0x1234));
    assert_eq!(reader.read_i8(), Ok(-1));
    assert_eq!(reader.read_i16(), Ok(-2));
    assert_eq!(reader.read_i32(), Ok(-3));
    assert_eq!(reader.read_i64(), Ok(-4));
    assert_eq!(reader.read_isize(), Ok(-5));
    assert_eq!(reader.get_current_offset(), expected.len());
}

#[test]
fn extreme_integers_read_back() {
    let mut builder = PacketBuilder::new();
    builder
        .writer(DeadSimpleFormat::new())
        .write_i8(i8::MIN)
        .write_i16(i16::MIN)
        .write_i32(i32::MIN)
        .write_i64(i64::MIN)
        .write_isize(isize::MIN)
        .write_u64(u64::MAX)
        .write_usize(usize::MAX)
        .write_i64(i64::MAX);
    let packet = built(&mut builder);
    let mut reader = packet.reader(DeadSimpleFormatReader::new());
    assert_eq!(reader.read_i8(), Ok(i8::MIN));
    assert_eq!(reader.read_i16(), Ok(i16::MIN));
    assert_eq!(reader.read_i32(), Ok(i32::MIN));
    assert_eq!(reader.read_i64(), Ok(i64::MIN));
    assert_eq!(reader.read_isize(), Ok(isize::MIN));
    assert_eq!(reader.read_u64(), Ok(u64::MAX));
    assert_eq!(reader.read_usize(), Ok(usize::MAX));
    assert_eq!(reader.read_i64(), Ok(i64::MAX));
}

#[test]
fn booleans_are_one_byte() {
    let mut builder = PacketBuilder::new();
    builder.writer(DeadSimpleFormat::new()).write_bool(true).write_bool(false);
    let packet = built(&mut builder);
    assert_eq!(packet.get_data(), &[1u8, 0][..]);
    let mut reader = packet.reader(DeadSimpleFormatReader::new());
    assert_eq!(reader.read_bool(), Ok(true));
    assert_eq!(reader.read_bool(), Ok(false));
    assert_eq!(reader.read_bool(), Err(()));
}

#[test]
fn other_byte_is_no_boolean_and_cursor_stays() {
    let packet = packet_of(vec![2, 1]);
    let mut reader = packet.reader(DeadSimpleFormatReader::new());
    assert_eq!(reader.read_bool(), Err(()));
    assert_eq!(reader.get_current_offset(), 0);
    assert_eq!(reader.read_u8(), Ok(2));
    assert_eq!(reader.read_bool(), Ok(true));
}

#[test]
fn string_is_length_then_bytes() {
    let mut builder = PacketBuilder::new();
    builder.writer(DeadSimpleFormat::new()).write_str("String").write_str("");
    let packet = built(&mut builder);
    let mut expected = Vec::new();
    expected.extend_from_slice(&6usize.to_ne_bytes());
    expected.extend_from_slice(b"String");
    expected.extend_from_slice(&0usize.to_ne_bytes());
    assert_eq!(packet.get_data(), &expected[..]);
    let mut reader = packet.reader(DeadSimpleFormatReader::new());
    assert_eq!(reader.read_str(), Ok("String"));
    assert_eq!(reader.read_str(), Ok(""));
    assert_eq!(reader.read_str(), Err(()));
}

#[test]
fn string_of_invalid_utf8_fails_and_cursor_stays() {
    let mut data = Vec::new();
    data.extend_from_slice(&2usize.to_ne_bytes());
    data.extend_from_slice(&[0xff, 0xfe]);
    let packet = packet_of(data);
    let mut reader = packet.reader(DeadSimpleFormatReader::new());
    assert_eq!(reader.read_str(), Err(()));
    assert_eq!(reader.get_current_offset(), 0);
    assert_eq!(reader.read_u8_slice(), Ok(&[0xffu8, 0xfe][..]));
}

#[test]
fn string_longer_than_the_data_fails_and_cursor_stays() {
    let mut data = Vec::new();
    data.extend_from_slice(&5usize.to_ne_bytes());
    data.extend_from_slice(b"abc");
    let packet = packet_of(data);
    let mut reader = packet.reader(DeadSimpleFormatReader::new());
    assert_eq!(reader.read_str(), Err(()));
    assert_eq!(reader.get_current_offset(), 0);
    assert_eq!(reader.read_usize(), Ok(5));
}

#[test]
fn length_beyond_all_bounds_fails() {
    let mut data = Vec::new();
    data.extend_from_slice(&usize::MAX.to_ne_bytes());
    data.extend_from_slice(&[1, 2, 3, 4]);
    let packet = packet_of(data);
    let mut reader = packet.reader(DeadSimpleFormatReader::new());
    assert_eq!(reader.read_u8_slice(), Err(()));
    assert!(reader.read_u64_slice().is_err());
    assert!(reader.read_u16_slice().is_err());
    assert!(reader.read_str_slice().is_err());
    assert_eq!(reader.get_current_offset(), 0);
}

#[test]
fn cstring_ends_with_nul() {
    let mut builder = PacketBuilder::new();
    builder.writer(DeadSimpleFormat::new()).write_cstr(b"hi").write_cstr(b"").write_u8(9);
    let packet = built(&mut builder);
    assert_eq!(packet.get_data(), &[b'h', b'i', 0, 0, 9][..]);
    let mut reader = packet.reader(DeadSimpleFormatReader::new());
    assert_eq!(reader.read_cstr(), Ok(&b"hi"[..]));
    assert_eq!(reader.read_cstr(), Ok(&b""[..]));
    assert_eq!(reader.read_cstr(), Err(()));
    assert_eq!(reader.get_current_offset(), 4);
    assert_eq!(reader.read_u8(), Ok(9));
}

#[test]
fn cstring_without_nul_fails() {
    let packet = packet_of(b"abc".to_vec());
    let mut reader = packet.reader(DeadSimpleFormatReader::new());
    assert_eq!(reader.read_cstr(), Err(()));
    assert_eq!(reader.get_current_offset(), 0);
}

#[test]
fn byte_slice_reads_back() {
    let mut builder = PacketBuilder::new();
    builder.writer(DeadSimpleFormat::new()).write_u8_slice(&[1, 2, 3]).write_u8_array(&[4, 5]);
    let packet = built(&mut builder);
    let mut reader = packet.reader(DeadSimpleFormatReader::new());
    assert_eq!(reader.read_u8_slice(), Ok(&[1u8, 2, 3][..]));
    assert_eq!(reader.read_u8_slice(), Ok(&[4u8, 5][..]));
}

#[test]
fn signed_byte_slice_reads_back() {
    let mut builder = PacketBuilder::new();
    builder.writer(DeadSimpleFormat::new()).write_i8_slice(&[-1, 0, 127, -128]);
    let packet = built(&mut builder);
    let mut reader = packet.reader(DeadSimpleFormatReader::new());
    assert_eq!(reader.read_i8_slice(), Ok(&[-1i8, 0, 127, -128][..]));
}

#[test]
fn number_slices_keep_length_and_order() {
    let mut builder = PacketBuilder::new();
    builder
        .writer(DeadSimpleFormat::new())
        .write_u16_slice(&[1, 0xffff, 3])
        .write_u32_slice(&[0xdead_beef])
        .write_u64_slice(&[])
        .write_usize_slice(&[usize::MAX, 0])
        .write_i16_slice(&[-1, i16::MIN])
        .write_i32_slice(&[i32::MIN, -7, 7])
        .write_i64_slice(&[i64::MIN, i64::MAX])
        .write_isize_slice(&[-9]);
    let packet = built(&mut builder);
    let mut expected = Vec::new();
    expected.extend_from_slice(&3usize.to_ne_bytes());
    expected.extend_from_slice(&1u16.to_ne_bytes());
    expected.extend_from_slice(&0xffffu16.to_ne_bytes());
    expected.extend_from_slice(&3u16.to_ne_bytes());
    assert_eq!(&packet.get_data()[..WORD + 6], &expected[..]);
    let mut reader = packet.reader(DeadSimpleFormatReader::new());
    assert_eq!(reader.read_u16_slice().unwrap().as_slice(), &[1u16, 0xffff, 3][..]);
    assert_eq!(reader.read_u32_slice().unwrap().as_slice(), &[0xdead_beefu32][..]);
    assert_eq!(reader.read_u64_slice().unwrap().as_slice(), &[0u64; 0][..]);
    assert_eq!(reader.read_usize_slice().unwrap().as_slice(), &[usize::MAX, 0][..]);
    assert_eq!(reader.read_i16_slice().unwrap().as_slice(), &[-1i16, i16::MIN][..]);
    assert_eq!(reader.read_i32_slice().unwrap().as_slice(), &[i32::MIN, -7, 7][..]);
    assert_eq!(reader.read_i64_slice().unwrap().as_slice(), &[i64::MIN, i64::MAX][..]);
    assert_eq!(reader.read_isize_slice().unwrap().as_slice(), &[-9isize][..]);
    assert!(reader.read_u16_slice().is_err());
}

#[test]
fn slice_is_lent_or_copied_and_equal_either_way() {
    for shift in 0usize..8 {
        let mut builder = PacketBuilder::new();
        {
            let mut writer = builder.writer(DeadSimpleFormat::new());
            for _ in 0..shift {
                writer.write_u8(0);
            }
            writer.write_u64_slice(&[1, 2, 0x0102_0304_0506_0708]);
        }
        let packet = built(&mut builder);
        let mut reader = packet.reader(DeadSimpleFormatReader::new());
        for _ in 0..shift {
            reader.read_u8().unwrap();
        }
        let slice = reader.read_u64_slice().unwrap();
        assert_eq!(slice.as_slice(), &[1u64, 2, 0x0102_0304_0506_0708][..]);
        let address = packet.get_data().as_ptr() as usize + shift + WORD;
        assert_eq!(slice.is_borrowed(), address % std::mem::align_of::<u64>() == 0);
        match slice {
            SliceReadResult::Borrowed(lent) => assert_eq!(lent.as_ptr() as usize, address),
            SliceReadResult::Owned(copy) => assert_eq!(copy.len(), 3),
        }
    }
}

#[test]
fn boolean_slice_reads_back() {
    let mut builder = PacketBuilder::new();
    builder
        .writer(DeadSimpleFormat::new())
        .write_bool_slice(&[true, false, true])
        .write_bool_array(&[false]);
    let packet = built(&mut builder);
    let mut expected = Vec::new();
    expected.extend_from_slice(&3usize.to_ne_bytes());
    expected.extend_from_slice(&[1, 0, 1]);
    assert_eq!(&packet.get_data()[..WORD + 3], &expected[..]);
    let mut reader = packet.reader(DeadSimpleFormatReader::new());
    assert_eq!(reader.read_bool_slice(), Ok(vec![true, false, true]));
    assert_eq!(reader.read_bool_slice(), Ok(vec![false]));
}

#[test]
fn boolean_slice_with_other_byte_fails() {
    let mut data = Vec::new();
    data.extend_from_slice(&2usize.to_ne_bytes());
    data.extend_from_slice(&[1, 7]);
    let packet = packet_of(data);
    let mut reader = packet.reader(DeadSimpleFormatReader::new());
    assert_eq!(reader.read_bool_slice(), Err(()));
    assert_eq!(reader.get_current_offset(), 0);
}

#[test]
fn string_slices_read_back() {
    let mut builder = PacketBuilder::new();
    builder
        .writer(DeadSimpleFormat::new())
        .write_str_slice(&["one", "", "three"])
        .write_str_array(&["x"])
        .write_cstr_slice(&[&b"a"[..], &b"bc"[..]]);
    let packet = built(&mut builder);
    let mut reader = packet.reader(DeadSimpleFormatReader::new());
    assert_eq!(reader.read_str_slice(), Ok(vec!["one", "", "three"]));
    assert_eq!(reader.read_str_slice(), Ok(vec!["x"]));
    assert_eq!(reader.read_cstr_slice(), Ok(vec![&b"a"[..], &b"bc"[..]]));
    assert!(reader.read_cstr_slice().is_err());
}

#[test]
fn string_slice_with_a_bad_string_fails_and_cursor_stays() {
    let mut data = Vec::new();
    data.extend_from_slice(&2usize.to_ne_bytes());
    data.extend_from_slice(&1usize.to_ne_bytes());
    data.push(b'a');
    data.extend_from_slice(&1usize.to_ne_bytes());
    data.push(0xff);
    let packet = packet_of(data);
    let mut reader = packet.reader(DeadSimpleFormatReader::new());
    assert_eq!(reader.read_str_slice(), Err(()));
    assert_eq!(reader.get_current_offset(), 0);
    assert_eq!(reader.read_usize(), Ok(2));
    assert_eq!(reader.read_str(), Ok("a"));
}

#[test]
fn arrays_are_written_as_slices() {
    let mut with_array = PacketBuilder::new();
    with_array
        .writer(DeadSimpleFormat::new())
        .write_u16_array(&[1, 2])
        .write_i32_array(&[-1])
        .write_u64_array(&[5, 6, 7])
        .write_usize_array(&[8])
        .write_i8_array(&[-3])
        .write_u32_array(&[9])
        .write_i16_array(&[10])
        .write_i64_array(&[11])
        .write_isize_array(&[12]);
    let mut with_slice = PacketBuilder::new();
    with_slice
        .writer(DeadSimpleFormat::new())
        .write_u16_slice(&[1, 2])
        .write_i32_slice(&[-1])
        .write_u64_slice(&[5, 6, 7])
        .write_usize_slice(&[8])
        .write_i8_slice(&[-3])
        .write_u32_slice(&[9])
        .write_i16_slice(&[10])
        .write_i64_slice(&[11])
        .write_isize_slice(&[12]);
    assert_eq!(built(&mut with_array).get_data(), built(&mut with_slice).get_data());
}

#[test]
fn reference_is_aligned_and_reads_back() {
    let mut builder = PacketBuilder::new();
    let local = ObjectRef::Local(ObjectRefLocal { data: 0x1234, extra_data: 0x5678 });
    {
        let mut writer = builder.writer(DeadSimpleFormat::new());
        writer.write_u8(7);
        assert_eq!(writer.get_current_offset(), 1);
        writer.write_obj_ref(local);
        writer.write_str("after");
    }
    let packet = built(&mut builder);
    assert_eq!(packet.get_offsets(), &[4usize][..]);
    assert_eq!(&packet.get_data()[1..4], &[0u8, 0, 0][..]);
    assert_eq!(&packet.get_data()[4..4 + 8 + 2 * WORD], &local.to_bytes()[..]);
    let mut reader = packet.reader(DeadSimpleFormatReader::new());
    assert_eq!(reader.read_u8().unwrap(), 7);
    assert_eq!(reader.read_reference().unwrap(), local);
    assert_eq!(reader.read_str().unwrap(), "after");
}

#[test]
fn bytes_of_a_reference_cannot_be_read_as_values() {
    let mut builder = PacketBuilder::new();
    let remote = ObjectRef::Remote(ObjectRefRemote { data_handle: 77 });
    {
        let mut writer = builder.writer(DeadSimpleFormat::new());
        writer.write_u32(1);
        writer.write_obj_ref(remote);
    }
    let packet = built(&mut builder);
    let mut reader = packet.reader(DeadSimpleFormatReader::new());
    assert!(reader.read_u64().is_err());
    assert_eq!(reader.get_current_offset(), 0);
    assert_eq!(reader.read_u32(), Ok(1));
    assert!(reader.read_u8().is_err());
    assert!(reader.read_u32().is_err());
    assert!(reader.read_cstr().is_err());
    assert!(reader.read_bool().is_err());
    assert_eq!(reader.get_current_offset(), 4);
    assert_eq!(reader.read_reference(), Ok(remote));
    assert_eq!(reader.get_current_offset(), 4 + 8 + 2 * WORD);
    assert!(reader.read_reference().is_err());
}

#[test]
fn reference_is_read_only_where_the_table_names_one() {
    let mut builder = PacketBuilder::new();
    builder.writer(DeadSimpleFormat::new()).write_u8_slice(&[0; 40]);
    let packet = built(&mut builder);
    let mut reader = packet.reader(DeadSimpleFormatReader::new());
    assert!(reader.read_reference().is_err());
    assert_eq!(reader.get_current_offset(), 0);
}

#[test]
fn reference_can_be_turned_down() {
    let mut builder = PacketBuilder::new();
    let remote = ObjectRef::Remote(ObjectRefRemote { data_handle: 5 });
    builder.writer(DeadSimpleFormat::new()).write_obj_ref(remote);
    let packet = built(&mut builder);
    let mut reader = packet.reader(DeadSimpleFormatReader::new());
    let mut seen = None;
    let turned_down = reader.read_reference_if(|reference: &ObjectRef| {
        seen = Some(*reference);
        false
    });
    assert_eq!(turned_down, Err(()));
    assert_eq!(seen, Some(remote));
    assert_eq!(reader.get_current_offset(), 0);
    assert_eq!(reader.read_reference_if(|_: &ObjectRef| true), Ok(remote));
    assert_eq!(reader.get_current_offset(), 8 + 2 * WORD);
}

#[test]
fn several_references_have_ascending_aligned_offsets() {
    let mut builder = PacketBuilder::new();
    let first = ObjectRef::Local(ObjectRefLocal { data: 1, extra_data: 2 });
    let second = ObjectRef::Remote(ObjectRefRemote { data_handle: 3 });
    let third = ObjectRef::Local(ObjectRefLocal { data: usize::MAX, extra_data: 0 });
    {
        let mut writer = builder.writer(DeadSimpleFormat::new());
        writer.write_obj_ref(first);
        writer.write_u8(1);
        writer.write_obj_ref(second);
        writer.write_u16(2);
        writer.write_u8(3);
        writer.write_obj_ref(third);
    }
    let packet = built(&mut builder);
    let size = 8 + 2 * WORD;
    assert_eq!(packet.get_offsets(), &[0, size + 4, 2 * size + 8][..]);
    for pair in packet.get_offsets().windows(2) {
        assert!(pair[0] < pair[1]);
    }
    for offset in packet.get_offsets() {
        assert_eq!(offset % 4, 0);
    }
    assert!(packet.is_well_formed());
    assert_eq!(
        packet.iter_references(),
        vec![(0, first), (size + 4, second), (2 * size + 8, third)]
    );
    let mut reader = packet.reader(DeadSimpleFormatReader::new());
    assert_eq!(reader.read_reference(), Ok(first));
    assert_eq!(reader.read_u8(), Ok(1));
    assert_eq!(reader.read_reference(), Ok(second));
    assert_eq!(reader.read_u16(), Ok(2));
    assert_eq!(reader.read_u8(), Ok(3));
    assert_eq!(reader.read_reference(), Ok(third));
}

#[test]
fn inner_reader_reads_and_peeks() {
    let data = [1u8, 2, 3, 4, 5];
    let offsets: [usize; 0] = [];
    let mut state = ReaderState::new(&data, &offsets);
    assert_eq!(state.peek(2, 1), Ok(&[2u8, 3][..]));
    assert_eq!(state.get_cur_offset(None), 0);
    assert_eq!(state.read(2), Ok(&[1u8, 2][..]));
    assert_eq!(state.get_cur_offset(None), 2);
    assert_eq!(state.get_cur_offset(Some(1)), 3);
    let copy = state.clone_reader();
    assert_eq!(state.read(4), Err(()));
    assert_eq!(state.peek(1, 3), Err(()));
    assert_eq!(state.read(3), Ok(&[3u8, 4, 5][..]));
    assert_eq!(state.read(0), Ok(&[0u8; 0][..]));
    assert_eq!(copy.get_cur_offset(None), 2);
    assert!(copy.check_for_primitive_read_safety(3, None));
    assert!(!copy.check_for_primitive_read_safety(3, Some(1)));
    assert!(copy.check_for_primitive_read_safety(0, Some(3)));
}

#[test]
fn inner_reader_refuses_bytes_of_references() {
    let data = vec![0u8; 64];
    let offsets = [8usize];
    let size = 8 + 2 * WORD;
    let state = ReaderState::new(&data, &offsets);
    assert!(state.check_for_primitive_read_safety(8, None));
    assert!(!state.check_for_primitive_read_safety(9, None));
    assert!(!state.check_for_primitive_read_safety(1, Some(8)));
    assert!(!state.check_for_primitive_read_safety(1, Some(8 + size - 1)));
    assert!(state.check_for_primitive_read_safety(1, Some(8 + size)));
    assert!(state.check_for_primitive_read_safety(0, Some(10)));
    assert!(!state.check_for_primitive_read_safety(64, None));
}

#[test]
fn reader_knows_its_packet() {
    let packet = packet_of(vec![1, 2, 3]);
    let reader = packet.reader(DeadSimpleFormatReader::new());
    assert_eq!(reader.get_packet(), &packet);
}
