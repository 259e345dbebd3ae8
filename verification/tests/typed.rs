use libbinder::binder_object::{CreateInterfaceObject, FromProxy};
use libbinder::command_buffer::Command;
use libbinder::formats::dead_simple::{DeadSimpleFormat, DeadSimpleFormatReader};
use libbinder::object::{ObjectRef, ObjectRefLocal, ObjectRefRemote};
use libbinder::packet::{Packet, PacketBuilder};
use libbinder::reference::RemoteHandles;
use libbinder::runtime::RuntimeState;

#[derive(Debug, PartialEq)]
struct EvenService {
    handle: u32,
}

impl FromProxy<ObjectRefRemote> for EvenService {
    fn from_proxy(proxy: ObjectRefRemote) -> Result<Self, ()> {
        if proxy.data_handle % 2 == 0 {
            Ok(EvenService { handle: proxy.data_handle })
        } else {
            Err(())
        }
    }
}

impl CreateInterfaceObject<ObjectRefRemote> for EvenService {
    fn try_from_remote(remote_ref: ObjectRefRemote) -> Result<Self, ()> {
        Self::from_proxy(remote_ref)
    }
}

fn packet_with(references: &[ObjectRef]) -> Packet {
    let mut builder = PacketBuilder::new();
    {
        let mut writer = builder.writer(DeadSimpleFormat::new());
        for reference in references {
            writer.write_obj_ref(*reference);
        }
        writer.write_u8(1);
    }
    builder.set_code(1).set_target(ObjectRef::Remote(ObjectRefRemote { data_handle: 0 }));
    builder.build()
}

fn remote(handle: u32) -> ObjectRef {
    ObjectRef::Remote(ObjectRefRemote { data_handle: handle })
}

fn local(n: usize) -> ObjectRef {
    ObjectRef::Local(ObjectRefLocal { data: n, extra_data: 0 })
}

#[test]
fn typed_reference_to_a_handle_counts_a_holder() {
    let packet = packet_with(&[remote(4), remote(5), local(7), local(8)]);
    let mut reader = packet.reader(DeadSimpleFormatReader::new());
    let mut handles = RemoteHandles::new();
    let no_local = |_: ObjectRefLocal| None;
    let first: Result<EvenService, ()> =
        reader.read_reference_as(&mut handles, |remote| remote, no_local);
    assert_eq!(first, Ok(EvenService { handle: 4 }));
    assert_eq!(handles.holders(4), 1);
    let at = reader.get_current_offset();
    let second: Result<EvenService, ()> =
        reader.read_reference_as(&mut handles, |remote| remote, no_local);
    assert_eq!(second, Err(()));
    assert_eq!(reader.get_current_offset(), at);
    assert_eq!(handles.holders(5), 0);
    assert_eq!(reader.read_reference(), Ok(remote(5)));
    let found = |local: ObjectRefLocal| Some(EvenService { handle: local.data as u32 });
    let third: Result<EvenService, ()> =
        reader.read_reference_as(&mut handles, |remote| remote, found);
    assert_eq!(third, Ok(EvenService { handle: 7 }));
    let at = reader.get_current_offset();
    let fourth: Result<EvenService, ()> =
        reader.read_reference_as(&mut handles, |remote| remote, no_local);
    assert_eq!(fourth, Err(()));
    assert_eq!(reader.get_current_offset(), at);
    assert_eq!(reader.read_reference(), Ok(local(8)));
    let fifth: Result<EvenService, ()> =
        reader.read_reference_as(&mut handles, |remote| remote, no_local);
    assert_eq!(fifth, Err(()));
    assert_eq!(reader.read_u8(), Ok(1));
    assert_eq!(EvenService::try_from_remote(ObjectRefRemote { data_handle: 3 }), Err(()));
}

#[test]
fn packet_holds_the_handles_that_it_names() {
    let mut state = RuntimeState::new();
    let packet = packet_with(&[remote(4), local(1), remote(0), remote(4), remote(9)]);
    assert!(state.hold_handles(&packet));
    assert_eq!(state.handles.holders(4), 2);
    assert_eq!(state.handles.holders(9), 1);
    assert_eq!(state.handles.holders(0), 0);
    assert!(state.hold_handles(&packet_with(&[remote(9)])));
    let (commands, all) = state.drop_handles(&packet);
    assert!(all);
    assert_eq!(commands, vec![Command::Release(4)]);
    assert_eq!(state.handles.holders(4), 0);
    assert_eq!(state.handles.holders(9), 1);
    let (commands, all) = state.drop_handles(&packet);
    assert!(!all);
    assert_eq!(commands, vec![Command::Release(9)]);
    assert_eq!(state.handles.holders(9), 0);
    let (commands, all) = state.drop_handles(&packet_with(&[remote(0), local(3)]));
    assert!(all);
    assert_eq!(commands, Vec::new());
}
