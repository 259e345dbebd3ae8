use libbinder::bytes::ByteOrder;
use libbinder::object::{
    pack_chars, BinderOrHandle, ObjectRef, ObjectRefFlagSet, ObjectRefFlags, ObjectRefLocal,
    ObjectRefRaw, ObjectRefRemote, Type, BINDER, FD, FDA, HANDLE, PTR, TYPE_LARGE, WEAK_BINDER,
    WEAK_HANDLE,
};

const WORD: usize = std::mem::size_of::<usize>();

fn header(kind: u32) -> Vec<u8> {
    kind.to_ne_bytes().to_vec()
}

#[test]
fn kinds_are_packed_characters() {
    assert_eq!(pack_chars(b's', b'b', b'*', TYPE_LARGE), BINDER);
    assert_eq!(pack_chars(b'w', b'b', b'*', TYPE_LARGE), WEAK_BINDER);
    assert_eq!(pack_chars(b's', b'h', b'*', TYPE_LARGE), HANDLE);
    assert_eq!(pack_chars(b'w', b'h', b'*', TYPE_LARGE), WEAK_HANDLE);
    assert_eq!(pack_chars(b'f', b'd', b'*', TYPE_LARGE), FD);
    assert_eq!(pack_chars(b'f', b'd', b'a', TYPE_LARGE), FDA);
    assert_eq!(pack_chars(b'p', b't', b'*', TYPE_LARGE), PTR);
    assert_eq!(pack_chars(1, 2, 3, 4), 0x0102_0304);
    assert_eq!(pack_chars(255, 255, 255, 255), u32::MAX);
}

#[test]
fn type_of_each_known_header() {
    assert_eq!(Type::try_from_bytes(&header(BINDER)), Ok(Type::LocalReference));
    assert_eq!(Type::try_from_bytes(&header(HANDLE)), Ok(Type::RemoteReference));
    assert_eq!(Type::try_from_bytes(&header(WEAK_BINDER)), Ok(Type::WeakLocalReference));
    assert_eq!(Type::try_from_bytes(&header(WEAK_HANDLE)), Ok(Type::WeakRemoteReference));
    assert_eq!(Type::try_from_bytes(&header(FD)), Ok(Type::FileDescriptor));
    assert_eq!(Type::try_from_bytes(&header(FDA)), Ok(Type::FileDescriptorArray));
    assert_eq!(Type::try_from_bytes(&header(PTR)), Ok(Type::ByteBuffer));
    assert_eq!(Type::from_bytes(&header(HANDLE)), Type::RemoteReference);
}

#[test]
fn unknown_header_is_an_error() {
    assert_eq!(Type::try_from_bytes(&header(0)), Err(()));
    assert_eq!(Type::try_from_bytes(&header(BINDER + 1)), Err(()));
}

#[test]
fn kind_and_type_agree() {
    for ty in [
        Type::LocalReference,
        Type::RemoteReference,
        Type::WeakLocalReference,
        Type::WeakRemoteReference,
        Type::FileDescriptor,
        Type::FileDescriptorArray,
        Type::ByteBuffer,
    ] {
        assert_eq!(Type::from_kind(ty.kind()), Some(ty));
    }
    assert_eq!(Type::from_kind(17), None);
    assert_eq!(Type::LocalReference.kind(), 0x7362_2a85);
}

#[test]
fn sizes_of_header_and_reference() {
    assert_eq!(Type::bytes_needed(), 4);
    assert_eq!(Type::LocalReference.type_size_with_header(), 8 + 2 * WORD);
    assert_eq!(Type::RemoteReference.type_size_with_header(), 8 + 2 * WORD);
}

#[test]
fn local_reference_on_the_wire() {
    let local = ObjectRef::Local(ObjectRefLocal { data: 0x1122, extra_data: 0x3344 });
    let mut expected = Vec::new();
    expected.extend_from_slice(&BINDER.to_ne_bytes());
    expected.extend_from_slice(&0u32.to_ne_bytes());
    expected.extend_from_slice(&0x1122usize.to_ne_bytes());
    expected.extend_from_slice(&0x3344usize.to_ne_bytes());
    assert_eq!(local.to_bytes(), expected);
    assert_eq!(ObjectRef::try_from_bytes(&expected), Ok(local));
}

#[test]
fn remote_reference_on_the_wire() {
    let remote = ObjectRef::Remote(ObjectRefRemote { data_handle: 0xabcd });
    let mut expected = Vec::new();
    expected.extend_from_slice(&HANDLE.to_ne_bytes());
    expected.extend_from_slice(&0u32.to_ne_bytes());
    expected.extend_from_slice(&0xabcdu32.to_ne_bytes());
    expected.extend_from_slice(&vec![0u8; WORD - 4]);
    expected.extend_from_slice(&0usize.to_ne_bytes());
    assert_eq!(remote.to_bytes(), expected);
    assert_eq!(ObjectRef::try_from_bytes(&expected), Ok(remote));
}

#[test]
fn reference_of_wrong_length_or_kind_is_an_error() {
    let good = ObjectRef::Remote(ObjectRefRemote { data_handle: 1 }).to_bytes();
    assert_eq!(ObjectRef::try_from_bytes(&good[..good.len() - 1]), Err(()));
    let mut longer = good.clone();
    longer.push(0);
    assert_eq!(ObjectRef::try_from_bytes(&longer), Err(()));
    let mut weak = good.clone();
    weak[..4].copy_from_slice(&WEAK_HANDLE.to_ne_bytes());
    assert_eq!(ObjectRef::try_from_bytes(&weak), Err(()));
    assert_eq!(ObjectRef::try_from_bytes(&[]), Err(()));
}

#[test]
fn raw_record_of_references() {
    let local = ObjectRefLocal { data: 5, extra_data: 6 };
    assert_eq!(
        local.into_raw(),
        ObjectRefRaw {
            kind: BINDER,
            flags: 0,
            binder_or_handle: BinderOrHandle::Binder(5),
            extra_data: 6
        }
    );
    let remote = ObjectRefRemote { data_handle: 9 };
    assert_eq!(
        remote.into_raw(),
        ObjectRefRaw {
            kind: HANDLE,
            flags: 0,
            binder_or_handle: BinderOrHandle::Handle(9),
            extra_data: 0
        }
    );
    assert_eq!(ObjectRef::Remote(remote).into_raw(), remote.into_raw());
    let mut bytes = vec![0xee];
    local.into_raw().append_to(&mut bytes, ByteOrder::Big);
    assert_eq!(bytes[0], 0xee);
    assert_eq!(&bytes[1..5], &BINDER.to_be_bytes());
    assert_eq!(bytes.len(), 1 + 8 + 2 * WORD);
    assert_eq!(bytes[bytes.len() - 1], 6);
}

#[test]
fn with_raw_bytes_hands_out_the_wire_bytes() {
    let reference = ObjectRef::Remote(ObjectRefRemote { data_handle: 3 });
    let expected = reference.to_bytes();
    let seen = reference.with_raw_bytes(|bytes: &[u8]| bytes.to_vec());
    assert_eq!(seen, expected);
}

#[test]
fn context_manager_has_handle_zero() {
    assert_eq!(ObjectRefRemote::context_manager(), ObjectRefRemote { data_handle: 0 });
}

#[test]
fn priority_of_reference_flags() {
    let set = ObjectRefFlags::from_priority_bits(0x85);
    assert_eq!(ObjectRefFlags::get_priority(set), 0x85);
    assert_eq!(set.bits(), 0x85);
    assert!(set.contains(ObjectRefFlags::PriorityBit0));
    assert!(!set.contains(ObjectRefFlags::PriorityBit1));
    assert!(set.contains(ObjectRefFlags::PriorityBit2));
    assert!(set.contains(ObjectRefFlags::PriorityBit7));
    assert!(!set.contains(ObjectRefFlags::AcceptFds));
    let full = ObjectRefFlagSet { priority: 3, accept_fds: true, send_security_context: true };
    assert_eq!(full.bits(), 0x1103);
    assert!(full.contains(ObjectRefFlags::AcceptFds));
    assert!(full.contains(ObjectRefFlags::SendSecurityContext));
    assert_eq!(ObjectRefFlags::AcceptFds.bit(), 0x100);
    assert_eq!(ObjectRefFlags::SendSecurityContext.bit(), 0x1000);
    assert_eq!(ObjectRefFlags::PriorityBit6.bit(), 0x40);
}
