use libbinder::binder_object::{Object, TransactionError};
use libbinder::context::{
    dispatch, error_of, reply_for, send_result_of, Awaits, Conclusion, Context,
    DispatchViolation, NextStep, Outcome, ProtocolViolation, ReplyDecision, ReturnAction,
    Violation,
};
use libbinder::formats::dead_simple::{DeadSimpleFormat, DeadSimpleFormatReader};
use libbinder::object::{ObjectRef, ObjectRefLocal, ObjectRefRemote};
use libbinder::packet::{Packet, PacketBuilder, PacketSendError};
use libbinder::proxy::{GenericContextManager, Reference};
use libbinder::binder_object::{CreateInterfaceObject, FromProxy};
use libbinder::reference::{RefEvent, RefState, ReferenceStates};
use libbinder::return_buffer::ReturnValue;
use libbinder::transaction::{TransactionData, TransactionFlag, TransactionFlags};
use std::sync::atomic::{AtomicBool, AtomicUsize, Ordering};

fn object(n: usize) -> ObjectRefLocal {
    ObjectRefLocal { data: n, extra_data: 0 }
}

fn record(code: u32) -> TransactionData {
    TransactionData {
        target: ObjectRef::Local(object(1)),
        code,
        flags: 0,
        sender_pid: 0,
        sender_euid: 0,
        data_size: 0,
        offsets_size: 0,
        buffer: 0x9000,
        offsets: 0,
    }
}

fn manager() -> ObjectRef {
    ObjectRef::Remote(ObjectRefRemote { data_handle: 0 })
}

fn packet(code: u32, one_way: bool) -> PacketBuilder {
    let mut builder = PacketBuilder::new();
    builder.set_code(code).set_target(manager());
    if one_way {
        builder.set_flags(TransactionFlags::empty().with(TransactionFlag::OneWay));
    }
    builder
}

struct Manager {
    stop: AtomicBool,
    printed: AtomicUsize,
}

impl Manager {
    fn new() -> Manager {
        Manager { stop: AtomicBool::new(false), printed: AtomicUsize::new(0) }
    }
}

impl Object for Manager {
    fn do_transaction(&self, packet: &Packet) -> Result<Option<Packet>, TransactionError> {
        let one_way = packet.get_flags().contains(TransactionFlag::OneWay);
        match packet.get_code() {
            0x80 => Ok(Some(self::packet(0x7875, false).build())),
            0x101 => {
                let mut reader = packet.reader(DeadSimpleFormatReader::new());
                let text = reader.read_str().map_err(|_| TransactionError::MalformedReply)?;
                let mut reply = self::packet(0x100, false);
                reply.writer(DeadSimpleFormat::new()).write_usize(text.len());
                Ok(Some(reply.build()))
            }
            0x100 => {
                self.stop.store(true, Ordering::SeqCst);
                Ok(Some(self::packet(0x100, false).build()))
            }
            0x102 => {
                self.printed.fetch_add(1, Ordering::SeqCst);
                if one_way {
                    Ok(None)
                } else {
                    Ok(Some(self::packet(0x102, false).build()))
                }
            }
            0x666 => Ok(Some(self::packet(1, false).build())),
            _ => Err(TransactionError::LocalError("unknown code".to_string())),
        }
    }
}

#[test]
fn request_without_data_gets_its_reply_code() {
    let manager = Manager::new();
    match dispatch(&manager, &packet(0x80, false).build()) {
        ReplyDecision::SendReply(reply) => {
            assert_eq!(reply.get_code(), 0x7875);
            assert_eq!(reply.get_data().len(), 0);
        }
        other => panic!("{:?}", other),
    }
}

#[test]
fn length_of_string_comes_back() {
    let manager = Manager::new();
    let mut request = packet(0x101, false);
    request.writer(DeadSimpleFormat::new()).write_str("String");
    match dispatch(&manager, &request.build()) {
        ReplyDecision::SendReply(reply) => {
            assert_eq!(reply.get_code(), 0x100);
            assert_eq!(reply.reader(DeadSimpleFormatReader::new()).read_usize(), Ok(6));
        }
        other => panic!("{:?}", other),
    }
}

#[test]
fn stop_flips_the_flag() {
    let manager = Manager::new();
    assert!(!manager.stop.load(Ordering::SeqCst));
    assert!(matches!(
        dispatch(&manager, &packet(0x100, false).build()),
        ReplyDecision::SendReply(_)
    ));
    assert!(manager.stop.load(Ordering::SeqCst));
}

#[test]
fn one_way_transaction_is_served_and_gets_no_reply() {
    let manager = Manager::new();
    let mut request = packet(0x102, true);
    request.writer(DeadSimpleFormat::new()).write_str("hi");
    assert_eq!(dispatch(&manager, &request.build()), ReplyDecision::NoReply);
    assert_eq!(manager.printed.load(Ordering::SeqCst), 1);
    let mut loop_state = Context::exec(false);
    let mut states = ReferenceStates::new();
    assert_eq!(
        loop_state.on_return(&mut states, &ReturnValue::TransactionComplete),
        ReturnAction::Deliver
    );
    assert_eq!(loop_state.next(), NextStep::Finish);
    let mut outcome = Outcome::new();
    outcome.note(&ReturnValue::TransactionComplete);
    assert_eq!(outcome.conclude(false), Conclusion::Done);
}

#[test]
fn reply_to_a_one_way_transaction_is_fatal() {
    let manager = Manager::new();
    assert_eq!(
        dispatch(&manager, &packet(0x666, true).build()),
        ReplyDecision::Fatal(DispatchViolation::ReplyToOneWay)
    );
    let one_way = TransactionFlags::empty().with(TransactionFlag::OneWay);
    assert_eq!(
        reply_for(one_way, Ok(Some(packet(1, false).build()))),
        ReplyDecision::Fatal(DispatchViolation::ReplyToOneWay)
    );
    assert_eq!(reply_for(one_way, Ok(None)), ReplyDecision::NoReply);
}

#[test]
fn missing_reply_and_failing_object_are_fatal() {
    let manager = Manager::new();
    assert_eq!(
        dispatch(&manager, &packet(0x102, false).build()),
        ReplyDecision::SendReply(packet(0x102, false).build())
    );
    assert_eq!(
        reply_for(TransactionFlags::empty(), Ok(None)),
        ReplyDecision::Fatal(DispatchViolation::MissingReply)
    );
    assert_eq!(
        dispatch(&manager, &packet(0x999, false).build()),
        ReplyDecision::Fatal(DispatchViolation::HandlerFailed(TransactionError::LocalError(
            "unknown code".to_string()
        )))
    );
    assert_eq!(
        reply_for(TransactionFlags::empty(), Err(TransactionError::UnreachableTarget)),
        ReplyDecision::Fatal(DispatchViolation::HandlerFailed(
            TransactionError::UnreachableTarget
        ))
    );
}

#[test]
fn bogus_handle_is_unreachable_and_leaves_no_buffer() {
    let mut loop_state = Context::exec(true);
    let mut states = ReferenceStates::new();
    let mut outcome = Outcome::new();
    let ret = ReturnValue::DeadReply;
    assert_eq!(loop_state.on_return(&mut states, &ret), ReturnAction::Deliver);
    outcome.note(&ret);
    assert_eq!(loop_state.next(), NextStep::Finish);
    let conclusion = outcome.conclude(true);
    assert_eq!(conclusion, Conclusion::UnreachableTarget);
    assert_eq!(error_of(conclusion), Some(TransactionError::UnreachableTarget));
    assert_eq!(outcome.reply, None);
}

#[test]
fn transaction_goes_to_the_queue_and_is_served_before_the_loop_is_over() {
    let mut loop_state = Context::exec(true);
    let mut states = ReferenceStates::new();
    let first = ReturnValue::Transaction(object(1), record(1));
    let second = ReturnValue::Transaction(object(2), record(2));
    assert_eq!(loop_state.on_return(&mut states, &first), ReturnAction::Queued);
    assert_eq!(
        loop_state.on_return(&mut states, &ReturnValue::TransactionComplete),
        ReturnAction::Deliver
    );
    assert_eq!(
        loop_state.on_return(&mut states, &ReturnValue::Reply(record(9))),
        ReturnAction::Deliver
    );
    assert_eq!(loop_state.on_return(&mut states, &second), ReturnAction::Queued);
    assert_eq!(loop_state.queued(), 2);
    assert_eq!(loop_state.next(), NextStep::Dispatch(object(1), record(1)));
    assert_eq!(loop_state.next(), NextStep::Dispatch(object(2), record(2)));
    assert_eq!(loop_state.queued(), 0);
    assert_eq!(loop_state.next(), NextStep::Finish);
}

#[test]
fn loop_reads_on_until_what_it_waits_for_has_come() {
    let mut loop_state = Context::exec(true);
    let mut states = ReferenceStates::new();
    assert_eq!(loop_state.on_return(&mut states, &ReturnValue::Noop), ReturnAction::Ignored);
    assert_eq!(loop_state.next(), NextStep::Drain);
    assert_eq!(
        loop_state.on_return(&mut states, &ReturnValue::Transaction(object(1), record(1))),
        ReturnAction::Queued
    );
    assert_eq!(loop_state.next(), NextStep::Dispatch(object(1), record(1)));
    assert_eq!(loop_state.next(), NextStep::Drain);
    assert_eq!(
        loop_state.on_return(&mut states, &ReturnValue::TransactionComplete),
        ReturnAction::Ignored
    );
    assert_eq!(loop_state.next(), NextStep::Finish);
}

#[test]
fn later_exchanges_deliver_nothing() {
    let mut loop_state = Context::exec(true);
    let mut states = ReferenceStates::new();
    assert_eq!(
        loop_state.on_return(&mut states, &ReturnValue::Success),
        ReturnAction::Deliver
    );
    assert_eq!(loop_state.next(), NextStep::Drain);
    for ret in [
        ReturnValue::Success,
        ReturnValue::Reply(record(1)),
        ReturnValue::DeadReply,
        ReturnValue::TransactionFailed,
        ReturnValue::TransactionComplete,
    ] {
        assert_eq!(loop_state.on_return(&mut states, &ret), ReturnAction::Ignored);
    }
}

#[test]
fn reference_notices_are_applied_at_once() {
    let mut loop_state = Context::new(Awaits::Returns);
    let mut states = ReferenceStates::new();
    states.register(object(1));
    assert_eq!(
        loop_state.on_return(&mut states, &ReturnValue::AcquireWeak(object(1))),
        ReturnAction::Counted { object: object(1), dropped: false }
    );
    assert_eq!(
        states.get(object(1)),
        Some(RefState { has_strong: true, has_weak: true })
    );
    assert_eq!(
        loop_state.on_return(&mut states, &ReturnValue::Release(object(1))),
        ReturnAction::Counted { object: object(1), dropped: false }
    );
    assert_eq!(
        loop_state.on_return(&mut states, &ReturnValue::Acquire(object(1))),
        ReturnAction::Counted { object: object(1), dropped: false }
    );
    assert_eq!(
        loop_state.on_return(&mut states, &ReturnValue::Release(object(1))),
        ReturnAction::Counted { object: object(1), dropped: false }
    );
    assert_eq!(
        loop_state.on_return(&mut states, &ReturnValue::ReleaseWeak(object(1))),
        ReturnAction::Counted { object: object(1), dropped: true }
    );
    assert_eq!(states.get(object(1)), None);
    assert_eq!(loop_state.next(), NextStep::Finish);
}

#[test]
fn reference_notice_that_the_table_does_not_admit_is_fatal() {
    let mut loop_state = Context::new(Awaits::Returns);
    let mut states = ReferenceStates::new();
    assert_eq!(
        loop_state.on_return(&mut states, &ReturnValue::Acquire(object(1))),
        ReturnAction::Fatal(Violation::Refcount(object(1), RefEvent::Acquire))
    );
    states.register(object(1));
    assert_eq!(
        loop_state.on_return(&mut states, &ReturnValue::Acquire(object(1))),
        ReturnAction::Fatal(Violation::Refcount(object(1), RefEvent::Acquire))
    );
    assert_eq!(
        loop_state.on_return(&mut states, &ReturnValue::ReleaseWeak(object(1))),
        ReturnAction::Fatal(Violation::Refcount(object(1), RefEvent::ReleaseWeak))
    );
    assert_eq!(
        states.get(object(1)),
        Some(RefState { has_strong: true, has_weak: false })
    );
}

#[test]
fn kernel_error_is_fatal_and_idle_returns_are_passed_over() {
    let mut loop_state = Context::exec(true);
    let mut states = ReferenceStates::new();
    assert_eq!(
        loop_state.on_return(&mut states, &ReturnValue::Error(-5)),
        ReturnAction::Fatal(Violation::KernelError(-5))
    );
    for ret in [ReturnValue::Noop, ReturnValue::SpawnLooper, ReturnValue::DeadBinder(1)] {
        assert_eq!(loop_state.on_return(&mut states, &ret), ReturnAction::Ignored);
    }
}

#[test]
fn returns_where_none_are_read_are_fatal() {
    let mut loop_state = Context::exec_without_ret();
    let mut states = ReferenceStates::new();
    for ret in [
        ReturnValue::Noop,
        ReturnValue::Transaction(object(1), record(1)),
        ReturnValue::TransactionComplete,
    ] {
        assert_eq!(
            loop_state.on_return(&mut states, &ret),
            ReturnAction::Fatal(Violation::UnexpectedReturn)
        );
    }
    assert_eq!(loop_state.queued(), 0);
    assert_eq!(loop_state.next(), NextStep::Finish);
}

#[test]
fn reply_where_none_is_expected_is_fatal() {
    let mut loop_state = Context::exec(false);
    let mut states = ReferenceStates::new();
    assert_eq!(
        loop_state.on_return(&mut states, &ReturnValue::Reply(record(1))),
        ReturnAction::Fatal(Violation::UnexpectedReply)
    );
}

#[test]
fn looper_is_done_when_its_queue_is_empty() {
    let mut loop_state = Context::new(Awaits::Returns);
    let mut states = ReferenceStates::new();
    assert_eq!(loop_state.next(), NextStep::Finish);
    loop_state.on_return(&mut states, &ReturnValue::Transaction(object(3), record(3)));
    assert_eq!(loop_state.next(), NextStep::Dispatch(object(3), record(3)));
    assert_eq!(loop_state.next(), NextStep::Finish);
}

#[test]
fn outcome_with_reply() {
    let mut outcome = Outcome::new();
    outcome.note(&ReturnValue::Noop);
    outcome.note(&ReturnValue::TransactionComplete);
    assert_eq!(
        outcome.conclude(true),
        Conclusion::Violation(ProtocolViolation::MissingReply)
    );
    outcome.note(&ReturnValue::Reply(record(7)));
    assert_eq!(outcome.conclude(true), Conclusion::Reply(record(7)));
    assert_eq!(
        outcome.conclude(false),
        Conclusion::Violation(ProtocolViolation::UnexpectedReply)
    );
    assert_eq!(error_of(outcome.conclude(true)), None);
    outcome.note(&ReturnValue::Reply(record(8)));
    assert_eq!(
        outcome.conclude(true),
        Conclusion::Violation(ProtocolViolation::MultipleReplies)
    );
}

#[test]
fn outcome_of_failures() {
    let mut failed = Outcome::new();
    failed.note(&ReturnValue::TransactionFailed);
    assert_eq!(failed.conclude(true), Conclusion::FailedReply);
    assert_eq!(failed.conclude(false), Conclusion::FailedReply);
    assert_eq!(error_of(Conclusion::FailedReply), Some(TransactionError::FailedReply));
    let mut dead = Outcome::new();
    dead.note(&ReturnValue::TransactionComplete);
    dead.note(&ReturnValue::DeadReply);
    assert_eq!(dead.conclude(true), Conclusion::UnreachableTarget);
    dead.note(&ReturnValue::TransactionFailed);
    assert_eq!(dead.conclude(true), Conclusion::Violation(ProtocolViolation::Ambiguous));
    let mut both = Outcome::new();
    both.note(&ReturnValue::Reply(record(1)));
    both.note(&ReturnValue::DeadReply);
    assert_eq!(both.conclude(true), Conclusion::Violation(ProtocolViolation::Ambiguous));
    assert_eq!(
        Outcome::new().conclude(true),
        Conclusion::Violation(ProtocolViolation::NoResponse)
    );
    let mut early = Outcome::new();
    early.note(&ReturnValue::Reply(record(1)));
    assert_eq!(early.conclude(true), Conclusion::Violation(ProtocolViolation::Ambiguous));
}

#[test]
fn errors_have_names() {
    assert_eq!(TransactionError::UnreachableTarget.describe(), "UnreachableTarget");
    assert_eq!(TransactionError::FailedReply.describe(), "FailedReply");
    assert_eq!(TransactionError::MalformedReply.describe(), "MalformedReply");
    assert_eq!(TransactionError::RemoteError("far".to_string()).describe(), "far");
    assert_eq!(TransactionError::LocalError("near".to_string()).describe(), "near");
}

#[test]
fn reference_sends_to_the_object_wherever_it_lives() {
    let here: Reference<Manager, Manager> = Reference::Local(Manager::new());
    let there: Reference<Manager, Manager> = Reference::Remote(Manager::new());
    assert!(here.is_local());
    assert!(!there.is_local());
    for reference in [&here, &there] {
        let reply = reference.do_transaction(&packet(0x80, false).build()).unwrap().unwrap();
        assert_eq!(reply.get_code(), 0x7875);
        assert!(matches!(
            dispatch(reference, &packet(0x100, false).build()),
            ReplyDecision::SendReply(_)
        ));
    }
    match (&here, &there) {
        (Reference::Local(local), Reference::Remote(remote)) => {
            assert!(local.stop.load(Ordering::SeqCst));
            assert!(remote.stop.load(Ordering::SeqCst));
        }
        _ => unreachable!(),
    }
}

#[test]
fn generic_context_manager_passes_everything_on() {
    let manager = GenericContextManager::from_proxy(Manager::new()).unwrap();
    let reply = manager.do_transaction(&packet(0x80, false).build()).unwrap().unwrap();
    assert_eq!(reply.get_code(), 0x7875);
    assert_eq!(manager.proxy().printed.load(Ordering::SeqCst), 0);
    let other = GenericContextManager::try_from_remote(Manager::new()).unwrap();
    assert_eq!(dispatch(&other, &packet(0x102, true).build()), ReplyDecision::NoReply);
    assert_eq!(other.proxy().printed.load(Ordering::SeqCst), 1);
}

#[test]
fn conclusion_as_the_result_of_sending() {
    assert_eq!(send_result_of(Conclusion::Reply(record(4))), Some(Ok(Some(record(4)))));
    assert_eq!(send_result_of(Conclusion::Done), Some(Ok(None)));
    assert_eq!(
        send_result_of(Conclusion::UnreachableTarget),
        Some(Err(PacketSendError::DeadTarget))
    );
    assert_eq!(send_result_of(Conclusion::FailedReply), Some(Err(PacketSendError::Failed)));
    assert_eq!(
        send_result_of(Conclusion::Violation(ProtocolViolation::NoResponse)),
        None
    );
}
