//! The command buffer: commands laid out one behind the other as the kernel
//! reads them, with the place where each one ends, and the decisions of
//! the round trip through the kernel.

use crate::bytes::{
    encode_nat, lemma_radix_pow_values, native_order, put_uint, put_word, word_size, ByteOrder,
};
use crate::protocol::CommandKind;
use crate::transaction::TransactionData;
use vstd::prelude::*;

verus! {

/// A command for the kernel.
#[derive(Clone, Copy, Debug, PartialEq, Eq, Structural)]
pub enum Command {
    /// This thread begins to serve as a looper.
    EnterLooper,
    /// This thread ceases to serve as a looper.
    ExitLooper,
    /// This thread is the looper that the kernel asked for.
    RegisterLooper,
    /// Sends the transaction that the record describes.
    SendTransaction(TransactionData),
    /// Sends the reply that the record describes.
    SendReply(TransactionData),
    /// Gives back the buffer at this address.
    FreeBuffer(usize),
    /// Takes a strong reference on a handle.
    Acquire(u32),
    /// Drops a strong reference on a handle.
    Release(u32),
    /// Takes a weak reference on a handle.
    IncRefs(u32),
    /// Drops a weak reference on a handle.
    DecRefs(u32),
}

impl Command {
    /// What the command asks for.
    pub open spec fn spec_kind(self) -> CommandKind {
        match self {
            Command::EnterLooper => CommandKind::EnterLooper,
            Command::ExitLooper => CommandKind::ExitLooper,
            Command::RegisterLooper => CommandKind::RegisterLooper,
            Command::SendTransaction(_) => CommandKind::SendTransaction,
            Command::SendReply(_) => CommandKind::SendReply,
            Command::FreeBuffer(_) => CommandKind::FreeBuffer,
            Command::Acquire(_) => CommandKind::Acquire,
            Command::Release(_) => CommandKind::Release,
            Command::IncRefs(_) => CommandKind::IncRefs,
            Command::DecRefs(_) => CommandKind::DecRefs,
        }
    }

    /// The bytes that follow the code of the command.
    pub open spec fn spec_payload(self, order: ByteOrder) -> Seq<u8> {
        match self {
            Command::EnterLooper | Command::ExitLooper | Command::RegisterLooper => Seq::empty(),
            Command::SendTransaction(record) | Command::SendReply(record) => record.spec_bytes(
                order,
            ),
            Command::FreeBuffer(address) => encode_nat(order, address as nat, word_size()),
            Command::Acquire(handle) | Command::Release(handle) | Command::IncRefs(handle)
            | Command::DecRefs(handle) => encode_nat(order, handle as nat, 4),
        }
    }

    /// The bytes of the command: its code in four bytes, then its payload.
    pub open spec fn spec_bytes(self, order: ByteOrder) -> Seq<u8> {
        encode_nat(order, self.spec_kind().spec_code() as nat, 4) + self.spec_payload(order)
    }

    /// What the command asks for.
    pub fn kind(&self) -> (kind: CommandKind)
        ensures
            kind == self.spec_kind(),
    {
        match self {
            Command::EnterLooper => CommandKind::EnterLooper,
            Command::ExitLooper => CommandKind::ExitLooper,
            Command::RegisterLooper => CommandKind::RegisterLooper,
            Command::SendTransaction(_) => CommandKind::SendTransaction,
            Command::SendReply(_) => CommandKind::SendReply,
            Command::FreeBuffer(_) => CommandKind::FreeBuffer,
            Command::Acquire(_) => CommandKind::Acquire,
            Command::Release(_) => CommandKind::Release,
            Command::IncRefs(_) => CommandKind::IncRefs,
            Command::DecRefs(_) => CommandKind::DecRefs,
        }
    }

    /// Appends the bytes of the command to `buf`, in the machine's byte
    /// order.
    pub fn append_to(&self, buf: &mut Vec<u8>)
        ensures
            final(buf)@ == old(buf)@ + self.spec_bytes(native_order()),
            self.spec_bytes(native_order()).len() == 4 + self.spec_kind().spec_payload_size(),
    {
        let order = ByteOrder::native();
        proof {
            lemma_radix_pow_values();
            crate::bytes::lemma_le_digits_len(0, 0);
            crate::bytes::lemma_decode_encode_nat(
                order,
                self.spec_kind().spec_code() as nat,
                4,
            );
        }
        put_uint(buf, order, self.kind().code() as u64, 4);
        match self {
            Command::EnterLooper | Command::ExitLooper | Command::RegisterLooper => {},
            Command::SendTransaction(record) | Command::SendReply(record) => {
                record.append_to(buf);
            },
            Command::FreeBuffer(address) => {
                proof {
                    crate::bytes::lemma_decode_encode_nat(order, *address as nat, word_size());
                }
                put_word(buf, order, *address);
            },
            Command::Acquire(handle) | Command::Release(handle) | Command::IncRefs(handle)
            | Command::DecRefs(handle) => {
                proof {
                    crate::bytes::lemma_decode_encode_nat(order, *handle as nat, 4);
                }
                put_uint(buf, order, *handle as u64, 4);
            },
        }
        assert(buf@ =~= old(buf)@ + self.spec_bytes(order));
    }
}

/// How an exchange with the kernel without a hard error ended.
#[derive(Clone, Copy, Debug, PartialEq, Eq, Structural)]
pub enum ExecResult {
    /// All commands were executed and the returns were read.
    Completed,
    /// All commands were executed, and reading would have had to wait.
    WouldBlockOnRead,
    /// This many commands were executed, and the next would have had to
    /// wait. The number is the index of that next command, from which the
    /// exchange can be taken up again.
    WouldBlockOnWrite(usize),
}

impl ExecResult {
    /// Passes where the exchange did not have to wait.
    pub fn panic_if_blocking(&self)
        requires
            self is Completed,
    {
    }

    /// Whether the exchange would have had to wait.
    pub fn is_blocking(&self) -> (yes: bool)
        ensures
            yes == !(self is Completed),
    {
        match self {
            ExecResult::Completed => false,
            ExecResult::WouldBlockOnRead | ExecResult::WouldBlockOnWrite(_) => true,
        }
    }
}

/// What the commands of a buffer are on the wire.
pub struct CommandBufferView {
    /// The bytes of all commands.
    pub bytes: Seq<u8>,
    /// For each command, the number of bytes up to its end.
    pub ends: Seq<usize>,
}

/// Number of commands that lie wholly within the first `consumed` bytes,
/// where `ends` is ascending.
pub open spec fn executed(ends: Seq<usize>, consumed: int) -> nat
    decreases ends.len(),
{
    if ends.len() == 0 {
        0
    } else if ends.last() <= consumed {
        ends.len()
    } else {
        executed(ends.drop_last(), consumed)
    }
}

impl CommandBufferView {
    /// Whether the ends are those of commands that fill the bytes: each
    /// behind the one before, the last at the end of the bytes.
    pub open spec fn wf(self) -> bool {
        &&& forall|i: int, j: int| 0 <= i < j < self.ends.len() ==> self.ends[i] < self.ends[j]
        &&& forall|i: int| 0 <= i < self.ends.len() ==> 0 < #[trigger] self.ends[i]
        &&& self.ends.len() == 0 ==> self.bytes.len() == 0
        &&& self.ends.len() > 0 ==> self.ends.last() == self.bytes.len()
    }

    /// Number of bytes up to the start of the command with index `idx`.
    pub open spec fn start_of(self, idx: int) -> int {
        if idx <= 0 {
            0
        } else {
            self.ends[idx - 1] as int
        }
    }
}

/// Commands laid out for the kernel.
pub struct CommandBuffer {
    buffer: Vec<u8>,
    commands_end_offsets: Vec<usize>,
}

impl View for CommandBuffer {
    type V = CommandBufferView;

    closed spec fn view(&self) -> CommandBufferView {
        CommandBufferView { bytes: self.buffer@, ends: self.commands_end_offsets@ }
    }
}

/// How a call into the kernel ended.
#[derive(Clone, Copy, Debug, PartialEq, Eq, Structural)]
pub enum IoctlStatus {
    /// Without error.
    Done,
    /// A signal interrupted it.
    Interrupted,
    /// It would have had to wait.
    WouldBlock,
    /// With the error of this number.
    Failed(i32),
}

/// How a call into the kernel ended and how far it came.
#[derive(Clone, Copy, Debug, PartialEq, Eq, Structural)]
pub struct IoctlOutcome {
    pub status: IoctlStatus,
    /// Number of bytes of commands that the kernel took.
    pub written: usize,
    /// Number of bytes of returns that the kernel gave.
    pub read: usize,
}

/// How far an exchange with the kernel has come.
#[derive(Clone, Copy, Debug, PartialEq, Eq, Structural)]
pub struct ExecState {
    /// Number of bytes of commands that the kernel has taken.
    pub write_pos: usize,
    /// Number of bytes of returns that the kernel has given.
    pub read_pos: usize,
    /// Number of bytes of returns that there is room for.
    pub read_capacity: usize,
    /// Whether the exchange waits where it would have to.
    pub do_poll: bool,
}

/// What to do after a call into the kernel.
#[derive(Clone, Copy, Debug, PartialEq, Eq, Structural)]
pub enum ExecStep {
    /// Call again with what is left of the commands and of the room for
    /// returns.
    Again,
    /// The exchange is over without hard error.
    Finished(ExecResult),
    /// The exchange is over with the error of this number, after this many
    /// commands were executed.
    Failed { executed: usize, errno: i32 },
}

impl ExecState {
    /// Whether to wait until the device can be read before the next call:
    /// where the exchange waits and there is room for returns.
    pub fn must_poll(&self) -> (yes: bool)
        ensures
            yes == (self.do_poll && self.read_pos < self.read_capacity),
    {
        self.do_poll && self.read_pos < self.read_capacity
    }
}

/// What follows from the outcome of a call, where the kernel has taken
/// `consumed` bytes of commands in all.
pub open spec fn step_after(
    ends: Seq<usize>,
    do_poll: bool,
    status: IoctlStatus,
    consumed: int,
) -> ExecStep {
    match status {
        IoctlStatus::Done => ExecStep::Finished(ExecResult::Completed),
        IoctlStatus::Interrupted => ExecStep::Again,
        IoctlStatus::WouldBlock => if do_poll {
            ExecStep::Again
        } else if executed(ends, consumed) == ends.len() {
            ExecStep::Finished(ExecResult::WouldBlockOnRead)
        } else {
            ExecStep::Finished(ExecResult::WouldBlockOnWrite(executed(ends, consumed) as usize))
        },
        IoctlStatus::Failed(errno) => ExecStep::Failed {
            executed: executed(ends, consumed) as usize,
            errno,
        },
    }
}

impl CommandBuffer {
    /// Whether the buffer holds whole commands and where each ends.
    pub open spec fn wf(&self) -> bool {
        self@.wf()
    }

    /// A buffer without commands.
    pub fn new() -> (buffer: CommandBuffer)
        ensures
            buffer.wf(),
            buffer@.bytes.len() == 0,
            buffer@.ends.len() == 0,
    {
        CommandBuffer { buffer: Vec::new(), commands_end_offsets: Vec::new() }
    }

    /// Puts `cmd` behind the commands of the buffer.
    pub fn enqueue_command(&mut self, cmd: Command) -> (r: &mut Self)
        requires
            old(self).wf(),
        ensures
            r.wf(),
            r@.bytes == old(self)@.bytes + cmd.spec_bytes(native_order()),
            r@.bytes.len() == old(self)@.bytes.len() + 4 + cmd.spec_kind().spec_payload_size(),
            r@.ends == old(self)@.ends.push(r@.bytes.len() as usize),
            *final(self) == *final(r),
    {
        cmd.append_to(&mut self.buffer);
        let end = self.buffer.len();
        self.commands_end_offsets.push(end);
        self
    }

    /// The bytes of the commands.
    pub fn as_bytes(&self) -> (bytes: &[u8])
        ensures
            bytes@ == self@.bytes,
    {
        self.buffer.as_slice()
    }

    /// Number of commands in the buffer.
    pub fn len(&self) -> (count: usize)
        ensures
            count == self@.ends.len(),
    {
        self.commands_end_offsets.len()
    }

    /// Number of commands that lie wholly within the first `consumed`
    /// bytes.
    pub fn commands_executed(&self, consumed: usize) -> (count: usize)
        requires
            self.wf(),
        ensures
            count == executed(self@.ends, consumed as int),
            count <= self@.ends.len(),
            forall|i: int| 0 <= i < count ==> self@.ends[i] <= consumed,
            forall|i: int| count <= i < self@.ends.len() ==> self@.ends[i] > consumed,
    {
        proof {
            lemma_executed_bounds(self@.ends, consumed as int);
        }
        let mut i: usize = self.commands_end_offsets.len();
        assert(self@.ends.take(i as int) =~= self@.ends);
        while i > 0 && self.commands_end_offsets[i - 1] > consumed
            invariant
                i <= self@.ends.len(),
                executed(self@.ends, consumed as int) == executed(
                    self@.ends.take(i as int),
                    consumed as int,
                ),
            decreases i,
        {
            assert(self@.ends.take(i as int).drop_last() =~= self@.ends.take(i as int - 1));
            i = i - 1;
        }
        i
    }

    /// The index of the last command that lies wholly within the first
    /// `written_bytes` bytes, if there is one.
    pub fn find_cmd_idx_from_bytes_written(&self, written_bytes: usize) -> (idx: Option<usize>)
        requires
            self.wf(),
        ensures
            match idx {
                Some(last) => executed(self@.ends, written_bytes as int) == last + 1,
                None => executed(self@.ends, written_bytes as int) == 0,
            },
    {
        let count = self.commands_executed(written_bytes);
        if count == 0 {
            None
        } else {
            Some(count - 1)
        }
    }

    /// Number of bytes up to the start of the command with index `idx`.
    pub fn cmd_idx_to_buffer_idx(&self, idx: usize) -> (at: usize)
        requires
            self.wf(),
            idx <= self@.ends.len(),
        ensures
            at == self@.start_of(idx as int),
            at <= self@.bytes.len(),
    {
        if idx == 0 {
            0
        } else {
            self.commands_end_offsets[idx - 1]
        }
    }

    /// Begins an exchange that does not wait, from the first command on,
    /// with room for `read_capacity` bytes of returns.
    pub fn exec(&self, read_capacity: usize) -> (state: ExecState)
        ensures
            state == (ExecState { write_pos: 0, read_pos: 0, read_capacity, do_poll: false }),
    {
        ExecState { write_pos: 0, read_pos: 0, read_capacity, do_poll: false }
    }

    /// Begins an exchange that does not wait, from the command with index
    /// `resume_cmd_idx` on.
    pub fn exec_resume(&self, read_capacity: usize, resume_cmd_idx: usize) -> (state: ExecState)
        requires
            self.wf(),
            resume_cmd_idx <= self@.ends.len(),
        ensures
            state == (ExecState {
                write_pos: self@.start_of(resume_cmd_idx as int) as usize,
                read_pos: 0,
                read_capacity,
                do_poll: false,
            }),
            state.write_pos <= self@.bytes.len(),
    {
        ExecState {
            write_pos: self.cmd_idx_to_buffer_idx(resume_cmd_idx),
            read_pos: 0,
            read_capacity,
            do_poll: false,
        }
    }

    /// Begins an exchange that waits wherever it has to.
    pub fn exec_always_block(&self, read_capacity: usize) -> (state: ExecState)
        ensures
            state == (ExecState { write_pos: 0, read_pos: 0, read_capacity, do_poll: true }),
    {
        ExecState { write_pos: 0, read_pos: 0, read_capacity, do_poll: true }
    }

    /// Takes note of how a call into the kernel ended and says what to do
    /// next. The call was given the commands from `state.write_pos` on and
    /// the room for returns from `state.read_pos` on. An interrupted call
    /// is made again with what is left; so is one that would have had to
    /// wait, where the exchange waits. A call that ended without error has
    /// taken all commands.
    pub fn exec_impl(&self, state: &mut ExecState, outcome: IoctlOutcome) -> (step: ExecStep)
        requires
            self.wf(),
            old(state).write_pos + outcome.written <= self@.bytes.len(),
            old(state).read_pos + outcome.read <= old(state).read_capacity,
            outcome.status is Done ==> old(state).write_pos + outcome.written
                == self@.bytes.len(),
        ensures
            *final(state) == (ExecState {
                write_pos: (old(state).write_pos + outcome.written) as usize,
                read_pos: (old(state).read_pos + outcome.read) as usize,
                ..*old(state)
            }),
            step == step_after(
                self@.ends,
                old(state).do_poll,
                outcome.status,
                old(state).write_pos + outcome.written,
            ),
    {
        state.write_pos = state.write_pos + outcome.written;
        state.read_pos = state.read_pos + outcome.read;
        match outcome.status {
            IoctlStatus::Done => ExecStep::Finished(ExecResult::Completed),
            IoctlStatus::Interrupted => ExecStep::Again,
            IoctlStatus::WouldBlock => {
                if state.do_poll {
                    ExecStep::Again
                } else {
                    let count = self.commands_executed(state.write_pos);
                    if count == self.commands_end_offsets.len() {
                        ExecStep::Finished(ExecResult::WouldBlockOnRead)
                    } else {
                        ExecStep::Finished(ExecResult::WouldBlockOnWrite(count))
                    }
                }
            },
            IoctlStatus::Failed(errno) => {
                let count = self.commands_executed(state.write_pos);
                ExecStep::Failed { executed: count, errno }
            },
        }
    }

    /// The buffer without its commands.
    pub fn clear(self) -> (buffer: CommandBuffer)
        ensures
            buffer.wf(),
            buffer@.bytes.len() == 0,
            buffer@.ends.len() == 0,
    {
        let mut buffer = self;
        buffer.buffer.clear();
        buffer.commands_end_offsets.clear();
        buffer
    }
}

/// Where all commands lie within the bytes consumed, all are executed; and
/// where the first does not, none is.
pub proof fn lemma_executed_bounds(ends: Seq<usize>, consumed: int)
    requires
        forall|i: int, j: int| 0 <= i < j < ends.len() ==> ends[i] < ends[j],
    ensures
        executed(ends, consumed) <= ends.len(),
        forall|i: int| 0 <= i < executed(ends, consumed) ==> ends[i] <= consumed,
        forall|i: int| executed(ends, consumed) <= i < ends.len() ==> ends[i] > consumed,
    decreases ends.len(),
{
    if ends.len() > 0 && ends.last() > consumed {
        let front = ends.drop_last();
        lemma_executed_bounds(front, consumed);
        assert forall|i: int| 0 <= i < executed(ends, consumed) implies ends[i] <= consumed by {
            assert(front[i] == ends[i]);
        }
        assert forall|i: int| executed(ends, consumed) <= i < ends.len() implies ends[i]
            > consumed by {
            if i < front.len() {
                assert(front[i] == ends[i]);
            }
        }
    }
}

} // verus!
