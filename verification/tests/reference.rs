use libbinder::command_buffer::Command;
use libbinder::object::{ObjectRefLocal, ObjectRefRemote};
use libbinder::reference::{
    KernelBuffers, OwnedRemoteRef, RefCounts, RefEvent, RefState, ReferenceStates, RemoteHandles,
};

fn object(n: usize) -> ObjectRefLocal {
    ObjectRefLocal { data: 0x1000 * n, extra_data: n }
}

fn state(has_strong: bool, has_weak: bool) -> Option<RefState> {
    Some(RefState { has_strong, has_weak })
}

#[test]
fn going_out_brings_an_object_into_the_table_with_its_strong_flag_set() {
    let mut states = ReferenceStates::new();
    assert_eq!(states.len(), 0);
    assert_eq!(states.get(object(1)), None);
    assert!(states.register(object(1)));
    assert_eq!(states.get(object(1)), state(true, false));
    assert!(!states.register(object(1)));
    assert_eq!(states.get(object(1)), state(true, false));
    assert!(states.register(object(2)));
    assert_eq!(states.len(), 2);
}

#[test]
fn acquire_and_release_alternate() {
    let mut states = ReferenceStates::new();
    states.register(object(1));
    assert!(!states.accepts(object(1), RefEvent::Acquire));
    assert!(states.accepts(object(1), RefEvent::AcquireWeak));
    assert!(!states.accepts(object(1), RefEvent::ReleaseWeak));
    assert!(!states.apply(object(1), RefEvent::AcquireWeak));
    assert_eq!(states.get(object(1)), state(true, true));
    assert!(!states.accepts(object(1), RefEvent::AcquireWeak));
    assert!(states.accepts(object(1), RefEvent::Release));
    assert!(!states.apply(object(1), RefEvent::Release));
    assert_eq!(states.get(object(1)), state(false, true));
    assert!(!states.accepts(object(1), RefEvent::Release));
    assert!(states.accepts(object(1), RefEvent::Acquire));
    assert!(!states.apply(object(1), RefEvent::Acquire));
    assert_eq!(states.get(object(1)), state(true, true));
    assert!(!states.apply(object(1), RefEvent::ReleaseWeak));
    assert_eq!(states.get(object(1)), state(true, false));
    assert!(states.apply(object(1), RefEvent::Release));
    assert_eq!(states.get(object(1)), None);
    assert_eq!(states.len(), 0);
}

#[test]
fn unknown_object_admits_no_event() {
    let mut states = ReferenceStates::new();
    for event in
        [RefEvent::Acquire, RefEvent::Release, RefEvent::AcquireWeak, RefEvent::ReleaseWeak]
    {
        assert!(!states.accepts(object(1), event));
    }
    states.register(object(2));
    assert!(!states.accepts(object(1), RefEvent::Release));
    assert!(states.accepts(object(2), RefEvent::Release));
}

#[test]
fn going_out_again_sets_the_strong_flag_again() {
    let mut states = ReferenceStates::new();
    states.register(object(1));
    states.apply(object(1), RefEvent::AcquireWeak);
    states.apply(object(1), RefEvent::Release);
    assert_eq!(states.get(object(1)), state(false, true));
    assert!(!states.register(object(1)));
    assert_eq!(states.get(object(1)), state(true, true));
}

#[test]
fn kept_references_match_the_objects_in_the_table() {
    let mut states = ReferenceStates::new();
    let mut kept = 0usize;
    for n in 1..=4 {
        if states.register(object(n)) {
            kept += 1;
        }
    }
    if states.register(object(2)) {
        kept += 1;
    }
    if states.apply(object(3), RefEvent::Release) {
        kept -= 1;
    }
    if states.apply(object(1), RefEvent::AcquireWeak) {
        kept -= 1;
    }
    if states.apply(object(1), RefEvent::Release) {
        kept -= 1;
    }
    assert_eq!(kept, 3);
    assert_eq!(states.len(), kept);
    let mut left = states.drain();
    left.sort_by_key(|object| object.extra_data);
    assert_eq!(left, vec![object(1), object(2), object(4)]);
    assert_eq!(states.len(), 0);
    assert_eq!(states.drain(), Vec::new());
}

#[test]
fn counts_go_up_and_down() {
    let mut counts = RefCounts::new();
    assert_eq!(counts.count(5), 0);
    assert!(counts.increment(5));
    assert!(counts.increment(5));
    assert!(counts.increment(6));
    assert_eq!(counts.count(5), 2);
    assert_eq!(counts.count(6), 1);
    assert_eq!(counts.len(), 2);
    assert!(!counts.decrement(5));
    assert_eq!(counts.count(5), 1);
    assert!(counts.decrement(5));
    assert_eq!(counts.count(5), 0);
    assert_eq!(counts.len(), 1);
    assert_eq!(counts.drain(), vec![6]);
    assert_eq!(counts.len(), 0);
}

#[test]
fn last_holder_of_a_handle_gives_it_up() {
    let mut handles = RemoteHandles::new();
    assert!(handles.acquire(3));
    assert!(handles.acquire(3));
    assert_eq!(handles.holders(3), 2);
    assert_eq!(handles.release(3), None);
    assert_eq!(handles.holders(3), 1);
    assert_eq!(handles.release(3), Some(Command::Release(3)));
    assert_eq!(handles.holders(3), 0);
}

#[test]
fn handle_of_the_context_manager_is_never_given_up() {
    let mut handles = RemoteHandles::new();
    assert!(handles.acquire(0));
    assert_eq!(handles.holders(0), 0);
    assert_eq!(handles.release(0), None);
    assert_eq!(handles.release(0), None);
    assert_eq!(handles.release_all(), Vec::new());
    assert!(OwnedRemoteRef { obj_ref: ObjectRefRemote { data_handle: 0 } }.is_context_manager());
    assert!(!OwnedRemoteRef { obj_ref: ObjectRefRemote { data_handle: 1 } }.is_context_manager());
}

#[test]
fn all_handles_are_given_up_in_the_end() {
    let mut handles = RemoteHandles::new();
    handles.acquire(3);
    handles.acquire(3);
    handles.acquire(u32::MAX);
    handles.acquire(0);
    let mut commands = handles.release_all();
    commands.sort_by_key(|command| match command {
        Command::Release(handle) => *handle,
        _ => 0,
    });
    assert_eq!(commands, vec![Command::Release(3), Command::Release(u32::MAX)]);
    assert_eq!(handles.holders(3), 0);
}

#[test]
fn buffer_is_given_back_once_when_its_last_packet_lets_go() {
    let mut buffers = KernelBuffers::new();
    assert!(!buffers.holds(0x4000));
    buffers.adopt(0x4000);
    assert!(buffers.holds(0x4000));
    assert!(buffers.share(0x4000));
    assert!(buffers.share(0x4000));
    assert_eq!(buffers.release(0x4000), None);
    assert_eq!(buffers.release(0x4000), None);
    assert_eq!(buffers.release(0x4000), Some(Command::FreeBuffer(0x4000)));
    assert!(!buffers.holds(0x4000));
    buffers.adopt(0x4000);
    assert_eq!(buffers.release(0x4000), Some(Command::FreeBuffer(0x4000)));
}

#[test]
fn buffers_left_over_are_given_back_in_the_end() {
    let mut buffers = KernelBuffers::new();
    let mut freed = Vec::new();
    for address in [0x1000usize, 0x2000, 0x3000] {
        buffers.adopt(address);
    }
    buffers.share(0x2000);
    freed.extend(buffers.release(0x1000));
    freed.extend(buffers.release(0x2000));
    freed.extend(buffers.release_all());
    freed.sort_by_key(|command| match command {
        Command::FreeBuffer(address) => *address,
        _ => 0,
    });
    assert_eq!(
        freed,
        vec![
            Command::FreeBuffer(0x1000),
            Command::FreeBuffer(0x2000),
            Command::FreeBuffer(0x3000)
        ]
    );
    assert_eq!(buffers.release_all(), Vec::new());
}

#[test]
fn held_handle_is_given_up_by_its_last_holder() {
    let mut handles = RemoteHandles::new();
    handles.acquire(6);
    handles.acquire(6);
    let first = OwnedRemoteRef { obj_ref: ObjectRefRemote { data_handle: 6 } };
    let second = first;
    assert_eq!(first.give_up(&mut handles), None);
    assert_eq!(second.give_up(&mut handles), Some(Command::Release(6)));
    let manager = OwnedRemoteRef { obj_ref: ObjectRefRemote { data_handle: 0 } };
    assert_eq!(manager.give_up(&mut handles), None);
}
