use libbinder::formats::dead_simple::DeadSimpleFormat;
use libbinder::object::{ObjectRef, ObjectRefLocal, ObjectRefRemote, WEAK_BINDER};
use libbinder::packet::{check_references, Packet, PacketBuilder, PacketError, PacketSendError};
use libbinder::transaction::{TransactionData, TransactionFlag, TransactionFlags};

const WORD: usize = std::mem::size_of::<usize>();
const SIZE: usize = 8 + 2 * WORD;

fn target() -> ObjectRef {
    ObjectRef::Remote(ObjectRefRemote { data_handle: 0 })
}

fn local() -> ObjectRef {
    ObjectRef::Local(ObjectRefLocal { data: 0x10, extra_data: 0x20 })
}

fn with_two_references() -> (Vec<u8>, Vec<usize>) {
    let mut data = local().to_bytes();
    data.extend_from_slice(&target().to_bytes());
    data.extend_from_slice(&[1, 2, 3]);
    (data, vec![0, SIZE])
}

fn record(data_size: usize, offsets_size: usize, flags: u32) -> TransactionData {
    TransactionData {
        target: local(),
        code: 0x55,
        flags,
        sender_pid: 1,
        sender_euid: 2,
        data_size,
        offsets_size,
        buffer: 0,
        offsets: 0,
    }
}

#[test]
fn builder_freezes_into_a_packet_and_clears_itself() {
    let mut builder = PacketBuilder::new();
    assert!(!builder.is_complete());
    builder.set_code(0x80);
    assert!(!builder.is_complete());
    builder.set_target(target());
    assert!(builder.is_complete());
    builder.set_flags(TransactionFlags::empty().with(TransactionFlag::OneWay));
    builder.writer(DeadSimpleFormat::new()).write_u8(1);
    let packet = builder.build();
    assert_eq!(packet.get_code(), 0x80);
    assert_eq!(packet.get_target(), target());
    assert!(packet.get_flags().contains(TransactionFlag::OneWay));
    assert_eq!(packet.get_data(), &[1u8][..]);
    assert_eq!(packet.get_offsets(), &[0usize; 0][..]);
    assert!(!builder.is_complete());
    builder.set_code(1).set_target(target());
    let next = builder.build();
    assert_eq!(next.get_data(), &[0u8; 0][..]);
    assert_eq!(next.get_flags(), TransactionFlags::empty());
}

#[test]
fn builder_clear_forgets_everything() {
    let mut builder = PacketBuilder::new();
    builder.set_code(1).set_target(target());
    builder.writer(DeadSimpleFormat::new()).write_obj_ref(local());
    builder.clear();
    assert!(!builder.is_complete());
    builder.set_code(2).set_target(target());
    let packet = builder.build();
    assert_eq!(packet.get_code(), 2);
    assert_eq!(packet.get_data().len(), 0);
    assert_eq!(packet.get_offsets().len(), 0);
}

#[test]
fn packet_attributes_can_be_changed() {
    let mut packet =
        Packet::from_parts(1, TransactionFlags::empty(), target(), vec![9], Vec::new()).unwrap();
    packet.set_code(7);
    packet.set_flags(TransactionFlags::empty().with(TransactionFlag::StatusCode));
    packet.set_target(local());
    assert_eq!(packet.get_code(), 7);
    assert_eq!(packet.get_flags().bits(), 0x08);
    assert_eq!(packet.get_target(), local());
    assert_eq!(packet.get_data(), &[9u8][..]);
}

#[test]
fn packet_from_well_formed_parts() {
    let (data, offsets) = with_two_references();
    assert!(check_references(&data, &offsets));
    let packet =
        Packet::from_parts(3, TransactionFlags::empty(), target(), data.clone(), offsets.clone())
            .unwrap();
    assert!(packet.is_well_formed());
    assert_eq!(packet.get_data(), &data[..]);
    assert_eq!(packet.get_offsets(), &offsets[..]);
    assert_eq!(packet.iter_references(), vec![(0, local()), (SIZE, target())]);
    let copy = packet.clone();
    assert_eq!(copy, packet);
}

#[test]
fn misaligned_offset_is_malformed() {
    let mut data = vec![0u8; 2];
    data.extend_from_slice(&local().to_bytes());
    assert!(!check_references(&data, &[2]));
    assert_eq!(
        Packet::from_parts(3, TransactionFlags::empty(), target(), data, vec![2]),
        Err(PacketError::MalformedReferences)
    );
}

#[test]
fn offset_beyond_the_data_is_malformed() {
    let (data, _) = with_two_references();
    assert!(!check_references(&data, &[0, SIZE, 2 * SIZE]));
    assert!(!check_references(&data, &[usize::MAX - 3]));
    assert!(!check_references(&[], &[0]));
}

#[test]
fn offsets_out_of_order_or_overlapping_are_malformed() {
    let (data, _) = with_two_references();
    assert!(!check_references(&data, &[SIZE, 0]));
    assert!(!check_references(&data, &[0, 0]));
    let mut three = local().to_bytes();
    three.extend_from_slice(&local().to_bytes());
    three.extend_from_slice(&local().to_bytes());
    assert!(check_references(&three, &[0, SIZE, 2 * SIZE]));
    assert!(check_references(&three, &[0, 2 * SIZE]));
    assert!(!check_references(&three, &[0, SIZE - 4]));
}

#[test]
fn offset_of_something_else_is_malformed() {
    let mut data = local().to_bytes();
    data[..4].copy_from_slice(&WEAK_BINDER.to_ne_bytes());
    assert!(!check_references(&data, &[0]));
    assert!(!check_references(&vec![0u8; SIZE], &[0]));
    assert!(check_references(&vec![0u8; SIZE], &[]));
}

#[test]
fn packet_from_record() {
    let (data, offsets) = with_two_references();
    let packet =
        Packet::from_record(&record(data.len(), 2 * WORD, 0x11), data.clone(), offsets.clone())
            .unwrap();
    assert_eq!(packet.get_code(), 0x55);
    assert_eq!(packet.get_target(), local());
    assert_eq!(packet.get_flags().bits(), 0x11);
    assert_eq!(packet.get_data(), &data[..]);
}

#[test]
fn packet_from_record_with_unknown_flags() {
    let (data, offsets) = with_two_references();
    assert_eq!(
        Packet::from_record(&record(data.len(), 2 * WORD, 0x02), data, offsets),
        Err(PacketError::UnknownFlags)
    );
}

#[test]
fn packet_from_record_with_other_sizes() {
    let (data, offsets) = with_two_references();
    assert_eq!(
        Packet::from_record(&record(data.len() + 1, 2 * WORD, 0), data.clone(), offsets.clone()),
        Err(PacketError::SizeMismatch)
    );
    assert_eq!(
        Packet::from_record(&record(data.len(), 2 * WORD + 1, 0), data.clone(), offsets.clone()),
        Err(PacketError::SizeMismatch)
    );
    assert_eq!(
        Packet::from_record(&record(data.len(), WORD, 0), data, offsets),
        Err(PacketError::SizeMismatch)
    );
}

#[test]
fn packet_from_record_with_bad_references() {
    let (data, _) = with_two_references();
    assert_eq!(
        Packet::from_record(&record(data.len(), WORD, 0), data, vec![4]),
        Err(PacketError::MalformedReferences)
    );
}

#[test]
fn record_of_a_packet() {
    let (data, offsets) = with_two_references();
    let flags = TransactionFlags::empty().with(TransactionFlag::AcceptFds);
    let packet = Packet::from_parts(9, flags, target(), data.clone(), offsets).unwrap();
    assert_eq!(
        packet.to_record(0x1000, 0x2000),
        TransactionData {
            target: target(),
            code: 9,
            flags: 0x10,
            sender_pid: 0,
            sender_euid: 0,
            data_size: data.len(),
            offsets_size: 2 * WORD,
            buffer: 0x1000,
            offsets: 0x2000,
        }
    );
}

#[test]
fn packet_turns_back_into_a_builder() {
    let (data, offsets) = with_two_references();
    let packet =
        Packet::from_parts(9, TransactionFlags::empty(), target(), data.clone(), offsets).unwrap();
    let mut builder = packet.into_builder();
    assert!(builder.is_complete());
    builder.writer(DeadSimpleFormat::new()).write_u8(0xcc);
    let again = builder.build();
    assert_eq!(again.get_code(), 9);
    assert_eq!(again.get_data().len(), data.len() + 1);
    assert_eq!(again.get_offsets(), &[0, SIZE][..]);
    assert!(again.is_well_formed());
}

#[test]
fn send_errors_are_told_apart() {
    assert_ne!(PacketSendError::Failed, PacketSendError::DeadTarget);
    assert_eq!(PacketSendError::Error(11), PacketSendError::Error(11));
    assert_ne!(PacketSendError::Error(11), PacketSendError::Error(4));
}
