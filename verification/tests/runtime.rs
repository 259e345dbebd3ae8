use libbinder::command_buffer::Command;
use libbinder::formats::dead_simple::DeadSimpleFormat;
use libbinder::looper::{Looper, LooperState, LooperStep, PollResult, LOOPER_READ_SIZE};
use libbinder::object::{ObjectRef, ObjectRefLocal, ObjectRefRemote};
use libbinder::packet::{Packet, PacketBuilder};
use libbinder::reference::{RefEvent, RefState};
use libbinder::runtime::{
    client_result, manager_result, RuntimeCreateAsClientError, RuntimeCreateAsManagerError,
    RuntimeCreateError, RuntimeState, Version, BINDER_BUFFER_SIZE, BINDER_COMPILED_VERSION,
};
use libbinder::transaction::{TransactionData, TransactionFlag, TransactionFlags};
use libbinder::util::mmap::{
    into_mmap_flags, MapFlags, MapRequest, MemorySpan, MmapError, MmapRegion, Protection,
    ProtectionSet,
};
use libbinder::util::pool::{Handle, Pool};
use libbinder::{client, server};

const WORD: usize = std::mem::size_of::<usize>();

fn object(n: usize) -> ObjectRefLocal {
    ObjectRefLocal { data: n, extra_data: 1 }
}

fn packet_with(objects: &[ObjectRef]) -> Packet {
    let mut builder = PacketBuilder::new();
    {
        let mut writer = builder.writer(DeadSimpleFormat::new());
        writer.write_u8(1);
        for reference in objects {
            writer.write_obj_ref(*reference);
        }
    }
    builder
        .set_code(0x33)
        .set_target(ObjectRef::Remote(ObjectRefRemote { data_handle: 9 }))
        .set_flags(TransactionFlags::empty().with(TransactionFlag::OneWay));
    builder.build()
}

#[test]
fn version_of_the_protocol() {
    assert_eq!(BINDER_COMPILED_VERSION, 8);
    assert!(Version { version: 8 }.is_supported());
    assert!(!Version { version: 7 }.is_supported());
    assert_eq!(BINDER_BUFFER_SIZE, 8 * 1024 * 1024);
}

#[test]
fn becoming_the_manager_fails_where_the_kernel_refuses() {
    assert_eq!(manager_result(Ok(())), Ok(()));
    assert_eq!(manager_result(Err(16)), Err(RuntimeCreateAsManagerError::CannotBecomeManager(16)));
    assert_ne!(
        RuntimeCreateAsManagerError::CommonCreateError(RuntimeCreateError::ErrorOpeningBinder(2)),
        RuntimeCreateAsManagerError::CommonCreateError(RuntimeCreateError::ErrorCreatingPipe(2))
    );
}

#[test]
fn becoming_a_client_fails_where_the_proxy_is_turned_down() {
    assert_eq!(client_result(true), Ok(()));
    assert_eq!(client_result(false), Err(RuntimeCreateAsClientError::WrongContextManagerType));
    assert_ne!(
        RuntimeCreateAsClientError::CommonCreateError(RuntimeCreateError::ErrorMappingBuffer(12)),
        RuntimeCreateAsClientError::WrongContextManagerType
    );
}

#[test]
fn references_of_a_packet_are_registered_before_it_is_sent() {
    let mut state = RuntimeState::new();
    let packet = packet_with(&[
        ObjectRef::Local(object(1)),
        ObjectRef::Remote(ObjectRefRemote { data_handle: 4 }),
        ObjectRef::Local(object(2)),
        ObjectRef::Local(object(1)),
    ]);
    let target = ObjectRefRemote { data_handle: 0 };
    let (command, pinned) = state.send_packet(target, &packet, 0x5000, 0x6000);
    assert_eq!(pinned, vec![object(1), object(2)]);
    assert_eq!(state.references.len(), 2);
    assert_eq!(
        state.references.get(object(1)),
        Some(RefState { has_strong: true, has_weak: false })
    );
    assert_eq!(
        command,
        Command::SendTransaction(TransactionData {
            target: ObjectRef::Remote(target),
            code: 0x33,
            flags: 0x01,
            sender_pid: 0,
            sender_euid: 0,
            data_size: packet.get_data().len(),
            offsets_size: 4 * WORD,
            buffer: 0x5000,
            offsets: 0x6000,
        })
    );
    let (_, pinned_again) = state.send_packet(target, &packet, 0x5000, 0x6000);
    assert_eq!(pinned_again, Vec::new());
    assert_eq!(state.register_references(&packet), Vec::new());
}

#[test]
fn reply_keeps_the_target_of_the_packet() {
    let mut state = RuntimeState::new();
    let packet = packet_with(&[ObjectRef::Local(object(5))]);
    let (command, pinned) = state.send_reply(&packet, 1, 2);
    assert_eq!(pinned, vec![object(5)]);
    match command {
        Command::SendReply(record) => {
            assert_eq!(record.target, ObjectRef::Remote(ObjectRefRemote { data_handle: 9 }));
            assert_eq!(record.code, 0x33);
            assert_eq!((record.buffer, record.offsets), (1, 2));
        }
        other => panic!("{:?}", other),
    }
}

#[test]
fn shutdown_lets_go_of_everything_once() {
    let mut state = RuntimeState::new();
    state.send_packet(
        ObjectRefRemote { data_handle: 0 },
        &packet_with(&[ObjectRef::Local(object(1)), ObjectRef::Local(object(2))]),
        0,
        0,
    );
    state.references.apply(object(2), RefEvent::Release);
    state.handles.acquire(7);
    state.handles.acquire(7);
    state.buffers.adopt(0x8000);
    let work = state.shutdown();
    assert_eq!(work.unpin, vec![object(1)]);
    assert_eq!(work.releases, vec![Command::Release(7)]);
    assert_eq!(work.frees, vec![Command::FreeBuffer(0x8000)]);
    let nothing = state.shutdown();
    assert!(nothing.unpin.is_empty() && nothing.releases.is_empty() && nothing.frees.is_empty());
}

#[test]
fn looper_enters_reads_and_leaves_on_shutdown() {
    let mut looper = Looper::new();
    assert_eq!(looper.state(), LooperState::Starting);
    assert_eq!(looper.start(false), vec![Command::EnterLooper]);
    assert_eq!(looper.state(), LooperState::Running);
    let ready = |shutdown_readable, binder_readable| PollResult::Ready {
        shutdown_readable,
        binder_readable,
    };
    assert_eq!(looper.on_poll(ready(false, false)), LooperStep::Wait);
    assert_eq!(looper.on_poll(PollResult::Interrupted), LooperStep::Wait);
    assert_eq!(looper.on_poll(ready(false, true)), LooperStep::Read);
    assert_eq!(looper.state(), LooperState::Running);
    assert_eq!(looper.on_poll(ready(true, true)), LooperStep::Exit(Command::ExitLooper));
    assert_eq!(looper.state(), LooperState::Stopped);
    assert_eq!(LOOPER_READ_SIZE, 4096);
}

#[test]
fn looper_that_was_asked_for_registers_first() {
    let mut looper = Looper::new();
    assert_eq!(looper.start(true), vec![Command::RegisterLooper, Command::EnterLooper]);
    assert_eq!(looper.on_poll(PollResult::Failed(9)), LooperStep::Fatal(9));
    assert_eq!(looper.state(), LooperState::Stopped);
}

#[test]
fn protections_as_bits() {
    assert_eq!(into_mmap_flags(ProtectionSet::empty()), 0);
    assert_eq!(into_mmap_flags(ProtectionSet::only(Protection::Read)), 1);
    assert_eq!(into_mmap_flags(ProtectionSet::only(Protection::Write)), 2);
    assert_eq!(into_mmap_flags(ProtectionSet::only(Protection::Execute)), 4);
    assert_eq!(
        into_mmap_flags(ProtectionSet { execute: true, read: true, write: true }),
        7
    );
    assert!(ProtectionSet::only(Protection::Read).contains(Protection::Read));
    assert!(!ProtectionSet::only(Protection::Read).contains(Protection::Write));
}

#[test]
fn request_for_the_region_of_the_device() {
    let span = MemorySpan { addr: None, nr_pages: 512 };
    let read = ProtectionSet::only(Protection::Read);
    assert_eq!(
        MmapRegion::new_impl(span, read, false, false, Some(0), 4096),
        Ok(MapRequest {
            addr: 0,
            length: 512 * 4096,
            protection: 1,
            flags: MapFlags { populate: false, anonymous: false, fixed: false, shared: false },
            offset: 0,
        })
    );
    assert_eq!(
        MmapRegion::new_impl(
            MemorySpan { addr: Some(0x10000), nr_pages: 2 },
            ProtectionSet { execute: false, read: true, write: true },
            true,
            true,
            None,
            4096
        ),
        Ok(MapRequest {
            addr: 0x10000,
            length: 8192,
            protection: 3,
            flags: MapFlags { populate: true, anonymous: true, fixed: true, shared: true },
            offset: 0,
        })
    );
}

#[test]
fn request_that_cannot_be_made() {
    let read = ProtectionSet::only(Protection::Read);
    assert_eq!(
        MmapRegion::new_impl(
            MemorySpan { addr: None, nr_pages: usize::MAX },
            read,
            false,
            false,
            None,
            4096
        ),
        Err(MmapError::TooLarge)
    );
    assert_eq!(
        MmapRegion::new_impl(
            MemorySpan { addr: None, nr_pages: 1 },
            read,
            false,
            false,
            Some(usize::MAX),
            4096
        ),
        Err(MmapError::OffsetTooLarge)
    );
    assert_ne!(MmapError::MmapError(12), MmapError::MmapError(22));
}

#[test]
fn request_with_the_page_size_of_the_system() {
    let span = MemorySpan { addr: None, nr_pages: 3 };
    let read = ProtectionSet::only(Protection::Read);
    let anonymous = MmapRegion::new(span, read, false).unwrap().unwrap();
    assert_eq!(anonymous.length % 3, 0);
    assert!(anonymous.length >= 3);
    assert!(anonymous.flags.anonymous);
    let size = anonymous.length / 3;
    let from_file = MmapRegion::new_map_from_fd(span, read, true, true, 7).unwrap().unwrap();
    assert_eq!(from_file, MmapRegion::new_impl(span, read, true, true, Some(7), size).unwrap());
    assert_eq!(from_file.offset, 7);
}

#[test]
fn region_counts_pages_and_bytes() {
    let region = MmapRegion::from_mapping(0x20000, 512, 4096).unwrap();
    assert_eq!(region.get_pg_count(), 512);
    assert_eq!(region.get_bytes_size(), 8 * 1024 * 1024 / 4);
    assert_eq!(region.get_range(), (0x20000, 0x20000 + 512 * 4096));
    assert_eq!(region.leak(), (0x20000, 0x20000 + 512 * 4096));
    assert_eq!(MmapRegion::from_mapping(0x20001, 1, 4096), None);
    assert_eq!(MmapRegion::from_mapping(0, 1, 0), None);
    assert_eq!(MmapRegion::from_mapping(4096, usize::MAX, 4096), None);
    assert_eq!(MmapRegion::from_mapping(4096, usize::MAX / 4096, 4096), None);
    let same = MmapRegion::from_raw_ptr_range(0x20000, 0x20000 + 512 * 4096, 4096);
    assert_eq!(same, Some(region));
    assert_eq!(MmapRegion::from_raw_ptr_range(0x3000, 0x3000, 4096), None);
    assert_eq!(MmapRegion::from_raw_ptr_range(0x3000, 0x3800, 4096), None);
    assert_eq!(MmapRegion::from_raw_ptr_range(0x3800, 0x4000, 4096), None);
    assert_eq!(MmapRegion::from_raw_ptr_range(0x4000, 0x3000, 4096), None);
}

#[test]
fn pool_hands_out_what_it_has_and_makes_what_it_has_not() {
    let mut pool = Pool::new(|| vec![0u8; 4]);
    assert_eq!(pool.get().into(), vec![0u8; 4]);
    pool.put(vec![1]);
    pool.put(vec![2]);
    assert_eq!(pool.get().get(), &vec![2]);
    assert_eq!(pool.get().into(), vec![1]);
    assert_eq!(pool.get().into(), vec![0u8; 4]);
    let handle = Handle::add_to_pool(&pool, vec![9]);
    assert_eq!(handle.1, vec![9]);
    assert_eq!(handle.into(), vec![9]);
}

#[test]
fn demonstration_request_and_reply() {
    client::init();
    let request = client::request();
    assert_eq!(request.get_code(), 8086);
    assert_eq!(request.get_target(), ObjectRef::Remote(ObjectRefRemote { data_handle: 0 }));
    assert_eq!(request.get_flags(), TransactionFlags::empty());
    assert_eq!(request.get_data().len(), 0);
    let reply = server::respond(&packet_with(&[ObjectRef::Local(object(1))]));
    assert_eq!(reply.get_code(), 80386);
    assert_eq!(reply.get_data(), packet_with(&[ObjectRef::Local(object(1))]).get_data());
    assert_eq!(reply.get_offsets(), &[4usize][..]);
}
