//! The numbers that name commands and returns: request codes built the way
//! the kernel's headers build them, from a direction, a magic character, a
//! number and the size of what follows.

use crate::bytes::{word_bytes, word_size};
use crate::transaction::transaction_data_size;
use vstd::prelude::*;

verus! {

/// Direction of a code that carries nothing.
pub const IOC_NONE: u32 = 0;

/// Direction of a code whose payload goes to the kernel.
pub const IOC_WRITE: u32 = 1;

/// Direction of a code whose payload comes from the kernel.
pub const IOC_READ: u32 = 2;

/// Magic character of commands.
pub const COMMAND_MAGIC: u8 = 0x63;

/// Magic character of returns.
pub const RETURN_MAGIC: u8 = 0x72;

/// The request code of the given direction, magic character, number and
/// payload size: the direction in the two highest bits, then fourteen bits
/// of size, the magic character and the number.
pub open spec fn spec_request_code(dir: u32, magic: u8, nr: u8, size: nat) -> u32 {
    (dir * 0x4000_0000 + size * 0x1_0000 + magic * 0x100 + nr) as u32
}

/// The request code of the given direction, magic character, number and
/// payload size.
pub fn request_code(dir: u32, magic: u8, nr: u8, size: usize) -> (code: u32)
    requires
        dir <= 3,
        size < 0x4000,
    ensures
        code == spec_request_code(dir, magic, nr, size as nat),
{
    dir * 0x4000_0000 + (size as u32) * 0x1_0000 + (magic as u32) * 0x100 + nr as u32
}

/// What a return announces.
#[derive(Clone, Copy, Debug, PartialEq, Eq, Structural)]
pub enum ReturnVal {
    Error,
    Success,
    Transaction,
    Reply,
    DeadReply,
    TransactionComplete,
    AcquireWeak,
    Acquire,
    Release,
    ReleaseWeak,
    Noop,
    SpawnLooper,
    DeadBinder,
    Failed,
}

impl ReturnVal {
    /// The number of the return.
    pub open spec fn spec_nr(self) -> u8 {
        match self {
            ReturnVal::Error => 0,
            ReturnVal::Success => 1,
            ReturnVal::Transaction => 2,
            ReturnVal::Reply => 3,
            ReturnVal::DeadReply => 5,
            ReturnVal::TransactionComplete => 6,
            ReturnVal::AcquireWeak => 7,
            ReturnVal::Acquire => 8,
            ReturnVal::Release => 9,
            ReturnVal::ReleaseWeak => 10,
            ReturnVal::Noop => 12,
            ReturnVal::SpawnLooper => 13,
            ReturnVal::DeadBinder => 15,
            ReturnVal::Failed => 17,
        }
    }

    /// Number of bytes that follow the code of the return.
    pub open spec fn spec_payload_size(self) -> nat {
        match self {
            ReturnVal::Error => 4,
            ReturnVal::Transaction | ReturnVal::Reply => transaction_data_size(),
            ReturnVal::AcquireWeak | ReturnVal::Acquire | ReturnVal::Release
            | ReturnVal::ReleaseWeak => 2 * word_size(),
            ReturnVal::DeadBinder => word_size(),
            ReturnVal::Success | ReturnVal::DeadReply | ReturnVal::TransactionComplete
            | ReturnVal::Noop | ReturnVal::SpawnLooper | ReturnVal::Failed => 0,
        }
    }

    /// The code of the return: read from the kernel where a payload
    /// follows, without direction where none does.
    pub open spec fn spec_code(self) -> u32 {
        spec_request_code(
            if self.spec_payload_size() == 0 {
                IOC_NONE
            } else {
                IOC_READ
            },
            RETURN_MAGIC,
            self.spec_nr(),
            self.spec_payload_size(),
        )
    }

    /// The return that `code` stands for, if any.
    pub open spec fn spec_from_code(code: u32) -> Option<ReturnVal> {
        if code == ReturnVal::Error.spec_code() {
            Some(ReturnVal::Error)
        } else if code == ReturnVal::Success.spec_code() {
            Some(ReturnVal::Success)
        } else if code == ReturnVal::Transaction.spec_code() {
            Some(ReturnVal::Transaction)
        } else if code == ReturnVal::Reply.spec_code() {
            Some(ReturnVal::Reply)
        } else if code == ReturnVal::DeadReply.spec_code() {
            Some(ReturnVal::DeadReply)
        } else if code == ReturnVal::TransactionComplete.spec_code() {
            Some(ReturnVal::TransactionComplete)
        } else if code == ReturnVal::AcquireWeak.spec_code() {
            Some(ReturnVal::AcquireWeak)
        } else if code == ReturnVal::Acquire.spec_code() {
            Some(ReturnVal::Acquire)
        } else if code == ReturnVal::Release.spec_code() {
            Some(ReturnVal::Release)
        } else if code == ReturnVal::ReleaseWeak.spec_code() {
            Some(ReturnVal::ReleaseWeak)
        } else if code == ReturnVal::Noop.spec_code() {
            Some(ReturnVal::Noop)
        } else if code == ReturnVal::SpawnLooper.spec_code() {
            Some(ReturnVal::SpawnLooper)
        } else if code == ReturnVal::DeadBinder.spec_code() {
            Some(ReturnVal::DeadBinder)
        } else if code == ReturnVal::Failed.spec_code() {
            Some(ReturnVal::Failed)
        } else {
            None
        }
    }

    /// Number of bytes that follow the code of the return.
    pub fn payload_size(self) -> (size: usize)
        ensures
            size == self.spec_payload_size(),
            size < 0x4000,
    {
        match self {
            ReturnVal::Error => 4,
            ReturnVal::Transaction | ReturnVal::Reply => 16 + 6 * word_bytes(),
            ReturnVal::AcquireWeak | ReturnVal::Acquire | ReturnVal::Release
            | ReturnVal::ReleaseWeak => 2 * word_bytes(),
            ReturnVal::DeadBinder => word_bytes(),
            ReturnVal::Success | ReturnVal::DeadReply | ReturnVal::TransactionComplete
            | ReturnVal::Noop | ReturnVal::SpawnLooper | ReturnVal::Failed => 0,
        }
    }

    /// The number of the return.
    pub fn nr(self) -> (nr: u8)
        ensures
            nr == self.spec_nr(),
    {
        match self {
            ReturnVal::Error => 0,
            ReturnVal::Success => 1,
            ReturnVal::Transaction => 2,
            ReturnVal::Reply => 3,
            ReturnVal::DeadReply => 5,
            ReturnVal::TransactionComplete => 6,
            ReturnVal::AcquireWeak => 7,
            ReturnVal::Acquire => 8,
            ReturnVal::Release => 9,
            ReturnVal::ReleaseWeak => 10,
            ReturnVal::Noop => 12,
            ReturnVal::SpawnLooper => 13,
            ReturnVal::DeadBinder => 15,
            ReturnVal::Failed => 17,
        }
    }

    /// The code of the return.
    pub fn code(self) -> (code: u32)
        ensures
            code == self.spec_code(),
            Self::spec_from_code(code) == Some(self),
    {
        let size = self.payload_size();
        request_code(
            if size == 0 {
                IOC_NONE
            } else {
                IOC_READ
            },
            RETURN_MAGIC,
            self.nr(),
            size,
        )
    }

    /// The return that `code` stands for: `None` where it stands for none.
    pub fn from_code(code: u32) -> (r: Option<ReturnVal>)
        ensures
            r == Self::spec_from_code(code),
    {
        if code == ReturnVal::Error.code() {
            Some(ReturnVal::Error)
        } else if code == ReturnVal::Success.code() {
            Some(ReturnVal::Success)
        } else if code == ReturnVal::Transaction.code() {
            Some(ReturnVal::Transaction)
        } else if code == ReturnVal::Reply.code() {
            Some(ReturnVal::Reply)
        } else if code == ReturnVal::DeadReply.code() {
            Some(ReturnVal::DeadReply)
        } else if code == ReturnVal::TransactionComplete.code() {
            Some(ReturnVal::TransactionComplete)
        } else if code == ReturnVal::AcquireWeak.code() {
            Some(ReturnVal::AcquireWeak)
        } else if code == ReturnVal::Acquire.code() {
            Some(ReturnVal::Acquire)
        } else if code == ReturnVal::Release.code() {
            Some(ReturnVal::Release)
        } else if code == ReturnVal::ReleaseWeak.code() {
            Some(ReturnVal::ReleaseWeak)
        } else if code == ReturnVal::Noop.code() {
            Some(ReturnVal::Noop)
        } else if code == ReturnVal::SpawnLooper.code() {
            Some(ReturnVal::SpawnLooper)
        } else if code == ReturnVal::DeadBinder.code() {
            Some(ReturnVal::DeadBinder)
        } else if code == ReturnVal::Failed.code() {
            Some(ReturnVal::Failed)
        } else {
            None
        }
    }
}

/// What a command asks for.
#[derive(Clone, Copy, Debug, PartialEq, Eq, Structural)]
pub enum CommandKind {
    SendTransaction,
    SendReply,
    FreeBuffer,
    IncRefs,
    Acquire,
    Release,
    DecRefs,
    RegisterLooper,
    EnterLooper,
    ExitLooper,
}

impl CommandKind {
    /// The number of the command.
    pub open spec fn spec_nr(self) -> u8 {
        match self {
            CommandKind::SendTransaction => 0,
            CommandKind::SendReply => 1,
            CommandKind::FreeBuffer => 3,
            CommandKind::IncRefs => 4,
            CommandKind::Acquire => 5,
            CommandKind::Release => 6,
            CommandKind::DecRefs => 7,
            CommandKind::RegisterLooper => 11,
            CommandKind::EnterLooper => 12,
            CommandKind::ExitLooper => 13,
        }
    }

    /// Number of bytes that follow the code of the command.
    pub open spec fn spec_payload_size(self) -> nat {
        match self {
            CommandKind::SendTransaction | CommandKind::SendReply => transaction_data_size(),
            CommandKind::FreeBuffer => word_size(),
            CommandKind::IncRefs | CommandKind::Acquire | CommandKind::Release
            | CommandKind::DecRefs => 4,
            CommandKind::RegisterLooper | CommandKind::EnterLooper | CommandKind::ExitLooper => 0,
        }
    }

    /// The code of the command: written to the kernel where a payload
    /// follows, without direction where none does.
    pub open spec fn spec_code(self) -> u32 {
        spec_request_code(
            if self.spec_payload_size() == 0 {
                IOC_NONE
            } else {
                IOC_WRITE
            },
            COMMAND_MAGIC,
            self.spec_nr(),
            self.spec_payload_size(),
        )
    }

    /// Number of bytes that follow the code of the command.
    pub fn payload_size(self) -> (size: usize)
        ensures
            size == self.spec_payload_size(),
            size < 0x4000,
    {
        match self {
            CommandKind::SendTransaction | CommandKind::SendReply => 16 + 6 * word_bytes(),
            CommandKind::FreeBuffer => word_bytes(),
            CommandKind::IncRefs | CommandKind::Acquire | CommandKind::Release
            | CommandKind::DecRefs => 4,
            CommandKind::RegisterLooper | CommandKind::EnterLooper | CommandKind::ExitLooper => 0,
        }
    }

    /// The number of the command.
    pub fn nr(self) -> (nr: u8)
        ensures
            nr == self.spec_nr(),
    {
        match self {
            CommandKind::SendTransaction => 0,
            CommandKind::SendReply => 1,
            CommandKind::FreeBuffer => 3,
            CommandKind::IncRefs => 4,
            CommandKind::Acquire => 5,
            CommandKind::Release => 6,
            CommandKind::DecRefs => 7,
            CommandKind::RegisterLooper => 11,
            CommandKind::EnterLooper => 12,
            CommandKind::ExitLooper => 13,
        }
    }

    /// The code of the command.
    pub fn code(self) -> (code: u32)
        ensures
            code == self.spec_code(),
    {
        let size = self.payload_size();
        request_code(
            if size == 0 {
                IOC_NONE
            } else {
                IOC_WRITE
            },
            COMMAND_MAGIC,
            self.nr(),
            size,
        )
    }
}

/// On a machine with words of eight bytes the codes are those of the
/// kernel's header, among them `0x40406300` to send a transaction,
/// `0x40086303` to free a buffer, `0x630c` to enter the looper,
/// `0x80407202` for a transaction that arrives and `0x7206` for a
/// transaction that is complete.
pub proof fn lemma_codes_on_64_bit()
    requires
        word_size() == 8,
    ensures
        CommandKind::SendTransaction.spec_code() == 0x4040_6300,
        CommandKind::SendReply.spec_code() == 0x4040_6301,
        CommandKind::FreeBuffer.spec_code() == 0x4008_6303,
        CommandKind::IncRefs.spec_code() == 0x4004_6304,
        CommandKind::Acquire.spec_code() == 0x4004_6305,
        CommandKind::Release.spec_code() == 0x4004_6306,
        CommandKind::DecRefs.spec_code() == 0x4004_6307,
        CommandKind::RegisterLooper.spec_code() == 0x630b,
        CommandKind::EnterLooper.spec_code() == 0x630c,
        CommandKind::ExitLooper.spec_code() == 0x630d,
        ReturnVal::Error.spec_code() == 0x8004_7200,
        ReturnVal::Success.spec_code() == 0x7201,
        ReturnVal::Transaction.spec_code() == 0x8040_7202,
        ReturnVal::Reply.spec_code() == 0x8040_7203,
        ReturnVal::DeadReply.spec_code() == 0x7205,
        ReturnVal::TransactionComplete.spec_code() == 0x7206,
        ReturnVal::AcquireWeak.spec_code() == 0x8010_7207,
        ReturnVal::Acquire.spec_code() == 0x8010_7208,
        ReturnVal::Release.spec_code() == 0x8010_7209,
        ReturnVal::ReleaseWeak.spec_code() == 0x8010_720a,
        ReturnVal::Noop.spec_code() == 0x720c,
        ReturnVal::SpawnLooper.spec_code() == 0x720d,
        ReturnVal::DeadBinder.spec_code() == 0x8008_720f,
        ReturnVal::Failed.spec_code() == 0x7211,
{
}

} // verus!
