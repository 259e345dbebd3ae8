use libbinder::object::{ObjectRef, ObjectRefLocal, ObjectRefRemote};
use libbinder::transaction::{
    FromBytesError, TargetKind, TransactionData, TransactionFlag, TransactionFlags,
};

const WORD: usize = std::mem::size_of::<usize>();

fn sample(target: ObjectRef) -> TransactionData {
    TransactionData {
        target,
        code: 0x101,
        flags: 0x11,
        sender_pid: -7,
        sender_euid: 1000,
        data_size: 24,
        offsets_size: 8,
        buffer: 0x7000_1000,
        offsets: 0x7000_2000,
    }
}

#[test]
fn flag_bits() {
    assert_eq!(TransactionFlag::OneWay.bit(), 0x01);
    assert_eq!(TransactionFlag::RootObject.bit(), 0x04);
    assert_eq!(TransactionFlag::StatusCode.bit(), 0x08);
    assert_eq!(TransactionFlag::AcceptFds.bit(), 0x10);
    assert_eq!(TransactionFlag::ClearBuffer.bit(), 0x20);
    assert_eq!(TransactionFlag::UpdateTransaction.bit(), 0x40);
}

#[test]
fn flag_sets() {
    let none = TransactionFlags::empty();
    assert_eq!(none.bits(), 0);
    assert!(!none.contains(TransactionFlag::OneWay));
    let some = none.with(TransactionFlag::OneWay).with(TransactionFlag::ClearBuffer);
    assert_eq!(some.bits(), 0x21);
    assert!(some.contains(TransactionFlag::OneWay));
    assert!(some.contains(TransactionFlag::ClearBuffer));
    assert!(!some.contains(TransactionFlag::AcceptFds));
    assert_eq!(some.with(TransactionFlag::OneWay), some);
    let all = some
        .with(TransactionFlag::RootObject)
        .with(TransactionFlag::StatusCode)
        .with(TransactionFlag::AcceptFds)
        .with(TransactionFlag::UpdateTransaction);
    assert_eq!(all.bits(), 0x7d);
}

#[test]
fn flags_from_bits() {
    assert_eq!(TransactionFlags::from_bits(0), Some(TransactionFlags::empty()));
    assert_eq!(
        TransactionFlags::from_bits(0x11),
        Some(
            TransactionFlags::empty()
                .with(TransactionFlag::OneWay)
                .with(TransactionFlag::AcceptFds)
        )
    );
    for bits in 0u32..0x80 {
        match TransactionFlags::from_bits(bits) {
            Some(flags) => {
                assert_eq!(bits & 0x02, 0);
                assert_eq!(flags.bits(), bits);
            }
            None => assert_ne!(bits & 0x02, 0),
        }
    }
    assert_eq!(TransactionFlags::from_bits(0x02), None);
    assert_eq!(TransactionFlags::from_bits(0x80), None);
    assert_eq!(TransactionFlags::from_bits(0x100), None);
    assert_eq!(TransactionFlags::from_bits(u32::MAX), None);
}

#[test]
fn record_with_local_target_on_the_wire() {
    let record = sample(ObjectRef::Local(ObjectRefLocal { data: 0xaa, extra_data: 0xbb }));
    let mut bytes = vec![0x5a];
    record.append_to(&mut bytes);
    let mut expected = vec![0x5a];
    expected.extend_from_slice(&0xaausize.to_ne_bytes());
    expected.extend_from_slice(&0xbbusize.to_ne_bytes());
    expected.extend_from_slice(&0x101u32.to_ne_bytes());
    expected.extend_from_slice(&0x11u32.to_ne_bytes());
    expected.extend_from_slice(&(-7i32).to_ne_bytes());
    expected.extend_from_slice(&1000u32.to_ne_bytes());
    expected.extend_from_slice(&24usize.to_ne_bytes());
    expected.extend_from_slice(&8usize.to_ne_bytes());
    expected.extend_from_slice(&0x7000_1000usize.to_ne_bytes());
    expected.extend_from_slice(&0x7000_2000usize.to_ne_bytes());
    assert_eq!(bytes, expected);
    assert_eq!(bytes.len(), 1 + 16 + 6 * WORD);
    assert_eq!(TransactionData::try_from_bytes(&bytes[1..], TargetKind::Local), Ok(record));
}

#[test]
fn record_with_remote_target_on_the_wire() {
    let record = sample(ObjectRef::Remote(ObjectRefRemote { data_handle: 42 }));
    let mut bytes = Vec::new();
    record.append_to(&mut bytes);
    assert_eq!(&bytes[..4], &42u32.to_ne_bytes());
    assert!(bytes[4..2 * WORD].iter().all(|byte| *byte == 0));
    assert_eq!(TransactionData::try_from_bytes(&bytes, TargetKind::Remote), Ok(record));
    let as_local = TransactionData::try_from_bytes(&bytes, TargetKind::Local).unwrap();
    assert_eq!(as_local.code, 0x101);
    assert_eq!(as_local.sender_pid, -7);
    assert!(matches!(as_local.target, ObjectRef::Local(_)));
}

#[test]
fn record_of_wrong_length_is_a_size_mismatch() {
    let record = sample(ObjectRef::Remote(ObjectRefRemote { data_handle: 1 }));
    let mut bytes = Vec::new();
    record.append_to(&mut bytes);
    assert_eq!(
        TransactionData::try_from_bytes(&bytes[..bytes.len() - 1], TargetKind::Remote),
        Err(FromBytesError::SizeMismatch)
    );
    bytes.push(0);
    assert_eq!(
        TransactionData::try_from_bytes(&bytes, TargetKind::Remote),
        Err(FromBytesError::SizeMismatch)
    );
    assert_eq!(
        TransactionData::try_from_bytes(&[], TargetKind::Local),
        Err(FromBytesError::SizeMismatch)
    );
}
