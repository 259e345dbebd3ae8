use libbinder::command_buffer::{
    Command, CommandBuffer, ExecResult, ExecState, ExecStep, IoctlOutcome, IoctlStatus,
};
use libbinder::object::{ObjectRef, ObjectRefRemote};
use libbinder::protocol::{request_code, CommandKind, IOC_NONE, IOC_READ, IOC_WRITE};
use libbinder::transaction::TransactionData;

const WORD: usize = std::mem::size_of::<usize>();

fn record() -> TransactionData {
    TransactionData {
        target: ObjectRef::Remote(ObjectRefRemote { data_handle: 0 }),
        code: 1,
        flags: 0,
        sender_pid: 0,
        sender_euid: 0,
        data_size: 0,
        offsets_size: 0,
        buffer: 0,
        offsets: 0,
    }
}

fn three_commands() -> CommandBuffer {
    let mut buffer = CommandBuffer::new();
    buffer
        .enqueue_command(Command::EnterLooper)
        .enqueue_command(Command::SendTransaction(record()))
        .enqueue_command(Command::Release(7));
    buffer
}

fn outcome(status: IoctlStatus, written: usize, read: usize) -> IoctlOutcome {
    IoctlOutcome { status, written, read }
}

#[test]
fn request_codes_follow_the_kernel_scheme() {
    assert_eq!(request_code(IOC_NONE, b'c', 12, 0), 0x630c);
    assert_eq!(request_code(IOC_WRITE, b'c', 0, 64), 0x4040_6300);
    assert_eq!(request_code(IOC_READ, b'r', 2, 64), 0x8040_7202);
    assert_eq!(request_code(3, 0xff, 0xff, 0x3fff), 0xffff_ffff);
}

#[test]
fn command_codes() {
    assert_eq!(CommandKind::EnterLooper.code(), 0x630c);
    assert_eq!(CommandKind::ExitLooper.code(), 0x630d);
    assert_eq!(CommandKind::RegisterLooper.code(), 0x630b);
    assert_eq!(CommandKind::IncRefs.code(), 0x4004_6304);
    assert_eq!(CommandKind::Acquire.code(), 0x4004_6305);
    assert_eq!(CommandKind::Release.code(), 0x4004_6306);
    assert_eq!(CommandKind::DecRefs.code(), 0x4004_6307);
    let record_size = (16 + 6 * WORD) as u32;
    assert_eq!(CommandKind::SendTransaction.code(), 0x4000_6300 | (record_size << 16));
    assert_eq!(CommandKind::SendReply.code(), 0x4000_6301 | (record_size << 16));
    assert_eq!(CommandKind::FreeBuffer.code(), 0x4000_6303 | ((WORD as u32) << 16));
    assert_eq!(CommandKind::FreeBuffer.payload_size(), WORD);
    assert_eq!(CommandKind::Acquire.nr(), 5);
    assert_eq!(Command::FreeBuffer(1).kind(), CommandKind::FreeBuffer);
    assert_eq!(Command::SendReply(record()).kind(), CommandKind::SendReply);
}

#[test]
fn commands_are_laid_out_one_behind_the_other() {
    let buffer = three_commands();
    let mut expected = Vec::new();
    expected.extend_from_slice(&0x630cu32.to_ne_bytes());
    expected.extend_from_slice(&CommandKind::SendTransaction.code().to_ne_bytes());
    record().append_to(&mut expected);
    expected.extend_from_slice(&0x4004_6306u32.to_ne_bytes());
    expected.extend_from_slice(&7u32.to_ne_bytes());
    assert_eq!(buffer.as_bytes(), &expected[..]);
    assert_eq!(buffer.len(), 3);
}

#[test]
fn each_command_has_its_bytes() {
    let mut bytes = Vec::new();
    Command::FreeBuffer(0x1234).append_to(&mut bytes);
    let mut expected = CommandKind::FreeBuffer.code().to_ne_bytes().to_vec();
    expected.extend_from_slice(&0x1234usize.to_ne_bytes());
    assert_eq!(bytes, expected);
    for (command, code) in [
        (Command::Acquire(9), 0x4004_6305u32),
        (Command::IncRefs(9), 0x4004_6304),
        (Command::DecRefs(9), 0x4004_6307),
    ] {
        let mut bytes = Vec::new();
        command.append_to(&mut bytes);
        let mut expected = code.to_ne_bytes().to_vec();
        expected.extend_from_slice(&9u32.to_ne_bytes());
        assert_eq!(bytes, expected);
    }
    let mut bytes = Vec::new();
    Command::ExitLooper.append_to(&mut bytes);
    Command::RegisterLooper.append_to(&mut bytes);
    let mut expected = 0x630du32.to_ne_bytes().to_vec();
    expected.extend_from_slice(&0x630bu32.to_ne_bytes());
    assert_eq!(bytes, expected);
    let mut bytes = Vec::new();
    Command::SendReply(record()).append_to(&mut bytes);
    assert_eq!(&bytes[..4], &CommandKind::SendReply.code().to_ne_bytes());
    assert_eq!(bytes.len(), 4 + 16 + 6 * WORD);
}

#[test]
fn executed_commands_are_counted_by_their_ends() {
    let buffer = three_commands();
    let second_end = 4 + 4 + 16 + 6 * WORD;
    let total = buffer.as_bytes().len();
    assert_eq!(total, second_end + 8);
    assert_eq!(buffer.commands_executed(0), 0);
    assert_eq!(buffer.commands_executed(3), 0);
    assert_eq!(buffer.commands_executed(4), 1);
    assert_eq!(buffer.commands_executed(second_end - 1), 1);
    assert_eq!(buffer.commands_executed(second_end), 2);
    assert_eq!(buffer.commands_executed(total), 3);
    assert_eq!(buffer.commands_executed(usize::MAX), 3);
    assert_eq!(buffer.find_cmd_idx_from_bytes_written(0), None);
    assert_eq!(buffer.find_cmd_idx_from_bytes_written(4), Some(0));
    assert_eq!(buffer.find_cmd_idx_from_bytes_written(total), Some(2));
    assert_eq!(buffer.cmd_idx_to_buffer_idx(0), 0);
    assert_eq!(buffer.cmd_idx_to_buffer_idx(1), 4);
    assert_eq!(buffer.cmd_idx_to_buffer_idx(2), second_end);
    assert_eq!(buffer.cmd_idx_to_buffer_idx(3), total);
    assert_eq!(CommandBuffer::new().commands_executed(10), 0);
}

#[test]
fn exchange_begins_where_asked() {
    let buffer = three_commands();
    assert_eq!(
        buffer.exec(64),
        ExecState { write_pos: 0, read_pos: 0, read_capacity: 64, do_poll: false }
    );
    assert_eq!(
        buffer.exec_always_block(0),
        ExecState { write_pos: 0, read_pos: 0, read_capacity: 0, do_poll: true }
    );
    assert_eq!(
        buffer.exec_resume(64, 1),
        ExecState { write_pos: 4, read_pos: 0, read_capacity: 64, do_poll: false }
    );
    assert!(!buffer.exec(64).must_poll());
    assert!(buffer.exec_always_block(64).must_poll());
    assert!(!buffer.exec_always_block(0).must_poll());
}

#[test]
fn call_without_error_ends_the_exchange() {
    let buffer = three_commands();
    let total = buffer.as_bytes().len();
    let mut state = buffer.exec(64);
    let step = buffer.exec_impl(&mut state, outcome(IoctlStatus::Done, total, 12));
    assert_eq!(step, ExecStep::Finished(ExecResult::Completed));
    assert_eq!(state.write_pos, total);
    assert_eq!(state.read_pos, 12);
}

#[test]
fn interrupted_call_is_made_again_with_what_is_left() {
    let buffer = three_commands();
    let total = buffer.as_bytes().len();
    let mut state = buffer.exec(64);
    assert_eq!(
        buffer.exec_impl(&mut state, outcome(IoctlStatus::Interrupted, 4, 8)),
        ExecStep::Again
    );
    assert_eq!((state.write_pos, state.read_pos), (4, 8));
    assert_eq!(
        buffer.exec_impl(&mut state, outcome(IoctlStatus::Interrupted, 0, 0)),
        ExecStep::Again
    );
    assert_eq!(
        buffer.exec_impl(&mut state, outcome(IoctlStatus::Done, total - 4, 4)),
        ExecStep::Finished(ExecResult::Completed)
    );
    assert_eq!((state.write_pos, state.read_pos), (total, 12));
}

#[test]
fn would_block_after_all_commands_blocks_on_read() {
    let buffer = three_commands();
    let total = buffer.as_bytes().len();
    let mut state = buffer.exec(64);
    assert_eq!(
        buffer.exec_impl(&mut state, outcome(IoctlStatus::WouldBlock, total, 0)),
        ExecStep::Finished(ExecResult::WouldBlockOnRead)
    );
    let empty = CommandBuffer::new();
    let mut state = empty.exec(64);
    assert_eq!(
        empty.exec_impl(&mut state, outcome(IoctlStatus::WouldBlock, 0, 0)),
        ExecStep::Finished(ExecResult::WouldBlockOnRead)
    );
}

#[test]
fn would_block_before_the_end_names_the_next_command() {
    let buffer = three_commands();
    let mut state = buffer.exec(64);
    assert_eq!(
        buffer.exec_impl(&mut state, outcome(IoctlStatus::WouldBlock, 4, 0)),
        ExecStep::Finished(ExecResult::WouldBlockOnWrite(1))
    );
    let mut state = buffer.exec(64);
    assert_eq!(
        buffer.exec_impl(&mut state, outcome(IoctlStatus::WouldBlock, 0, 0)),
        ExecStep::Finished(ExecResult::WouldBlockOnWrite(0))
    );
    let mut resumed = buffer.exec_resume(64, 1);
    assert_eq!(
        buffer.exec_impl(&mut resumed, outcome(IoctlStatus::WouldBlock, 16 + 6 * WORD + 4, 0)),
        ExecStep::Finished(ExecResult::WouldBlockOnWrite(2))
    );
}

#[test]
fn would_block_is_tried_again_where_the_exchange_waits() {
    let buffer = three_commands();
    let mut state = buffer.exec_always_block(64);
    assert_eq!(
        buffer.exec_impl(&mut state, outcome(IoctlStatus::WouldBlock, 4, 0)),
        ExecStep::Again
    );
    assert_eq!(state.write_pos, 4);
    assert!(state.must_poll());
}

#[test]
fn hard_error_reports_commands_executed_and_errno() {
    let buffer = three_commands();
    let mut state = buffer.exec_always_block(64);
    assert_eq!(
        buffer.exec_impl(&mut state, outcome(IoctlStatus::Failed(22), 4, 0)),
        ExecStep::Failed { executed: 1, errno: 22 }
    );
    let mut state = buffer.exec(64);
    assert_eq!(
        buffer.exec_impl(&mut state, outcome(IoctlStatus::Failed(9), 0, 0)),
        ExecStep::Failed { executed: 0, errno: 9 }
    );
}

#[test]
fn only_a_completed_exchange_does_not_block() {
    ExecResult::Completed.panic_if_blocking();
    assert!(!ExecResult::Completed.is_blocking());
    assert!(ExecResult::WouldBlockOnRead.is_blocking());
    assert!(ExecResult::WouldBlockOnWrite(0).is_blocking());
}

#[test]
fn cleared_buffer_is_empty() {
    let buffer = three_commands().clear();
    assert_eq!(buffer.len(), 0);
    assert_eq!(buffer.as_bytes().len(), 0);
}
