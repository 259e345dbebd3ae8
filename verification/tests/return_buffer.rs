use libbinder::object::{ObjectRef, ObjectRefLocal, ObjectRefRemote};
use libbinder::protocol::ReturnVal;
use libbinder::return_buffer::{
    parse_return_values, ReturnBuffer, ReturnParseError, ReturnValue,
};
use libbinder::transaction::TransactionData;

const WORD: usize = std::mem::size_of::<usize>();

fn code(tag: ReturnVal) -> Vec<u8> {
    tag.code().to_ne_bytes().to_vec()
}

fn local() -> ObjectRefLocal {
    ObjectRefLocal { data: 0x1000, extra_data: 0x2000 }
}

fn local_bytes() -> Vec<u8> {
    let mut bytes = 0x1000usize.to_ne_bytes().to_vec();
    bytes.extend_from_slice(&0x2000usize.to_ne_bytes());
    bytes
}

fn record(target: ObjectRef) -> TransactionData {
    TransactionData {
        target,
        code: 0x101,
        flags: 0x01,
        sender_pid: 42,
        sender_euid: 0,
        data_size: 16,
        offsets_size: 0,
        buffer: 0x7fff_0000,
        offsets: 0x7fff_0010,
    }
}

#[test]
fn return_codes() {
    assert_eq!(ReturnVal::Error.code(), 0x8004_7200);
    assert_eq!(ReturnVal::Success.code(), 0x7201);
    assert_eq!(ReturnVal::DeadReply.code(), 0x7205);
    assert_eq!(ReturnVal::TransactionComplete.code(), 0x7206);
    assert_eq!(ReturnVal::Noop.code(), 0x720c);
    assert_eq!(ReturnVal::SpawnLooper.code(), 0x720d);
    assert_eq!(ReturnVal::Failed.code(), 0x7211);
    let record_size = (16 + 6 * WORD) as u32;
    assert_eq!(ReturnVal::Transaction.code(), 0x8000_7202 | (record_size << 16));
    assert_eq!(ReturnVal::Reply.code(), 0x8000_7203 | (record_size << 16));
    let pair = (2 * WORD as u32) << 16;
    assert_eq!(ReturnVal::AcquireWeak.code(), 0x8000_7207 | pair);
    assert_eq!(ReturnVal::Acquire.code(), 0x8000_7208 | pair);
    assert_eq!(ReturnVal::Release.code(), 0x8000_7209 | pair);
    assert_eq!(ReturnVal::ReleaseWeak.code(), 0x8000_720a | pair);
    assert_eq!(ReturnVal::DeadBinder.code(), 0x8000_720f | ((WORD as u32) << 16));
}

#[test]
fn return_of_each_code() {
    for tag in [
        ReturnVal::Error,
        ReturnVal::Success,
        ReturnVal::Transaction,
        ReturnVal::Reply,
        ReturnVal::DeadReply,
        ReturnVal::TransactionComplete,
        ReturnVal::AcquireWeak,
        ReturnVal::Acquire,
        ReturnVal::Release,
        ReturnVal::ReleaseWeak,
        ReturnVal::Noop,
        ReturnVal::SpawnLooper,
        ReturnVal::DeadBinder,
        ReturnVal::Failed,
    ] {
        assert_eq!(ReturnVal::from_code(tag.code()), Some(tag));
    }
    assert_eq!(ReturnVal::from_code(0), None);
    assert_eq!(ReturnVal::from_code(0x7204), None);
    assert_eq!(ReturnVal::from_code(0x630c), None);
    assert_eq!(ReturnVal::Noop.nr(), 12);
    assert_eq!(ReturnVal::Error.payload_size(), 4);
    assert_eq!(ReturnVal::Acquire.payload_size(), 2 * WORD);
}

#[test]
fn empty_stream_holds_no_returns() {
    assert_eq!(parse_return_values(&[]), Ok(Vec::new()));
}

#[test]
fn returns_without_payload() {
    let mut bytes = code(ReturnVal::Noop);
    bytes.extend(code(ReturnVal::TransactionComplete));
    bytes.extend(code(ReturnVal::Success));
    bytes.extend(code(ReturnVal::SpawnLooper));
    bytes.extend(code(ReturnVal::DeadReply));
    bytes.extend(code(ReturnVal::Failed));
    assert_eq!(
        parse_return_values(&bytes),
        Ok(vec![
            ReturnValue::Noop,
            ReturnValue::TransactionComplete,
            ReturnValue::Success,
            ReturnValue::SpawnLooper,
            ReturnValue::DeadReply,
            ReturnValue::TransactionFailed,
        ])
    );
}

#[test]
fn error_carries_its_number() {
    let mut bytes = code(ReturnVal::Error);
    bytes.extend_from_slice(&(-22i32).to_ne_bytes());
    bytes.extend(code(ReturnVal::Noop));
    assert_eq!(
        parse_return_values(&bytes),
        Ok(vec![ReturnValue::Error(-22), ReturnValue::Noop])
    );
}

#[test]
fn reference_notices_carry_the_object() {
    let mut bytes = Vec::new();
    for tag in
        [ReturnVal::AcquireWeak, ReturnVal::Acquire, ReturnVal::Release, ReturnVal::ReleaseWeak]
    {
        bytes.extend(code(tag));
        bytes.extend(local_bytes());
    }
    bytes.extend(code(ReturnVal::DeadBinder));
    bytes.extend_from_slice(&0xbeefusize.to_ne_bytes());
    assert_eq!(
        parse_return_values(&bytes),
        Ok(vec![
            ReturnValue::AcquireWeak(local()),
            ReturnValue::Acquire(local()),
            ReturnValue::Release(local()),
            ReturnValue::ReleaseWeak(local()),
            ReturnValue::DeadBinder(0xbeef),
        ])
    );
}

#[test]
fn transaction_and_reply_carry_their_records() {
    let arrived = record(ObjectRef::Local(local()));
    let answered = record(ObjectRef::Remote(ObjectRefRemote { data_handle: 0 }));
    let mut bytes = code(ReturnVal::Noop);
    bytes.extend(code(ReturnVal::Transaction));
    arrived.append_to(&mut bytes);
    bytes.extend(code(ReturnVal::Reply));
    answered.append_to(&mut bytes);
    bytes.extend(code(ReturnVal::TransactionComplete));
    assert_eq!(
        parse_return_values(&bytes),
        Ok(vec![
            ReturnValue::Noop,
            ReturnValue::Transaction(local(), arrived),
            ReturnValue::Reply(answered),
            ReturnValue::TransactionComplete,
        ])
    );
}

#[test]
fn unknown_code_is_malformed() {
    let mut bytes = code(ReturnVal::Noop);
    bytes.extend_from_slice(&0x1234_5678u32.to_ne_bytes());
    assert_eq!(parse_return_values(&bytes), Err(ReturnParseError::Malformed));
}

#[test]
fn stream_that_ends_within_a_return_is_malformed() {
    let mut bytes = code(ReturnVal::Noop);
    bytes.extend(code(ReturnVal::Acquire));
    bytes.extend_from_slice(&local_bytes()[..2 * WORD - 1]);
    assert_eq!(parse_return_values(&bytes), Err(ReturnParseError::Malformed));
    assert_eq!(parse_return_values(&[0x0c, 0x72]), Err(ReturnParseError::Malformed));
    let mut bytes = code(ReturnVal::Error);
    bytes.extend_from_slice(&[0, 0, 0]);
    assert_eq!(parse_return_values(&bytes), Err(ReturnParseError::Malformed));
}

#[test]
fn buffer_reads_what_the_kernel_gave() {
    let mut buffer = ReturnBuffer::new(32);
    assert_eq!(buffer.capacity(), 32);
    assert!(buffer.buffer_mut().iter().all(|byte| *byte == 0));
    assert_eq!(buffer.get_parsed().len(), 0);
    let mut given = code(ReturnVal::Noop);
    given.extend(code(ReturnVal::TransactionComplete));
    buffer.buffer_mut()[..8].copy_from_slice(&given);
    assert_eq!(buffer.parse(8), Ok(()));
    assert_eq!(
        buffer.get_parsed(),
        &vec![ReturnValue::Noop, ReturnValue::TransactionComplete]
    );
    assert_eq!(buffer.parse(4), Ok(()));
    assert_eq!(
        buffer.get_parsed(),
        &vec![ReturnValue::Noop, ReturnValue::TransactionComplete, ReturnValue::Noop]
    );
    assert_eq!(buffer.parse(0), Ok(()));
    assert_eq!(buffer.get_parsed().len(), 3);
    assert_eq!(buffer.parse(8), Ok(()));
    assert_eq!(
        buffer.get_parsed(),
        &vec![
            ReturnValue::Noop,
            ReturnValue::TransactionComplete,
            ReturnValue::Noop,
            ReturnValue::Noop,
            ReturnValue::TransactionComplete,
        ]
    );
    buffer.clear();
    assert_eq!(buffer.get_parsed().len(), 0);
    assert_eq!(buffer.capacity(), 32);
    assert_eq!(buffer.parse(4), Ok(()));
    assert_eq!(buffer.get_parsed(), &vec![ReturnValue::Noop]);
}

#[test]
fn buffer_keeps_what_it_held_before_a_malformed_stream() {
    let mut buffer = ReturnBuffer::new(16);
    let given = code(ReturnVal::Noop);
    buffer.buffer_mut()[..4].copy_from_slice(&given);
    assert_eq!(buffer.parse(4), Ok(()));
    buffer.buffer_mut()[4..8].copy_from_slice(&0xffff_ffffu32.to_ne_bytes());
    assert_eq!(buffer.parse(8), Err(ReturnParseError::Malformed));
    assert_eq!(buffer.get_parsed(), &vec![ReturnValue::Noop]);
    assert_eq!(buffer.parse(12), Err(ReturnParseError::Malformed));
    assert_eq!(buffer.get_parsed(), &vec![ReturnValue::Noop]);
}

#[test]
fn buffer_comes_apart_and_together() {
    let mut buffer = ReturnBuffer::new(8);
    buffer.buffer_mut()[..4].copy_from_slice(&code(ReturnVal::Noop));
    buffer.parse(4).unwrap();
    let (parsed, bytes) = buffer.into_buffers();
    assert_eq!(parsed, vec![ReturnValue::Noop]);
    assert_eq!(bytes.len(), 8);
    let again = ReturnBuffer::from_buffers((parsed, bytes));
    assert_eq!(again.get_parsed(), &vec![ReturnValue::Noop]);
    assert_eq!(again.capacity(), 8);
}
