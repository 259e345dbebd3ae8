//! The looper: the thread that waits on the device and on the shutdown
//! pipe, reads what the kernel has to tell, and leaves when told to.

use crate::command_buffer::Command;
use vstd::prelude::*;

verus! {

/// Number of bytes of room for returns that the looper reads with.
pub const LOOPER_READ_SIZE: usize = 4096;

/// Where the looper stands.
#[derive(Clone, Copy, Debug, PartialEq, Eq, Structural)]
pub enum LooperState {
    /// It has not told the kernel of itself yet.
    Starting,
    /// It serves.
    Running,
    /// It has left.
    Stopped,
}

/// How waiting on the device and on the shutdown pipe ended.
#[derive(Clone, Copy, Debug, PartialEq, Eq, Structural)]
pub enum PollResult {
    /// With word of what can be read.
    Ready { shutdown_readable: bool, binder_readable: bool },
    /// A signal interrupted it.
    Interrupted,
    /// With the error of this number.
    Failed(i32),
}

/// What the looper does next.
#[derive(Clone, Copy, Debug, PartialEq, Eq, Structural)]
pub enum LooperStep {
    /// Tell the kernel that the looper leaves, and leave.
    Exit(Command),
    /// Read returns with no commands and run the exchange loop on them.
    Read,
    /// Wait again.
    Wait,
    /// Give up: waiting failed with the error of this number.
    Fatal(i32),
}

/// What follows from how waiting ended: shutdown comes before everything
/// else, then what the device has to tell; an interrupted wait is waited
/// again.
pub open spec fn step_after_poll(poll: PollResult) -> LooperStep {
    match poll {
        PollResult::Ready { shutdown_readable, binder_readable } => if shutdown_readable {
            LooperStep::Exit(Command::ExitLooper)
        } else if binder_readable {
            LooperStep::Read
        } else {
            LooperStep::Wait
        },
        PollResult::Interrupted => LooperStep::Wait,
        PollResult::Failed(errno) => LooperStep::Fatal(errno),
    }
}

/// The looper of a runtime.
pub struct Looper {
    state: LooperState,
}

impl Looper {
    /// Where the looper stands.
    pub closed spec fn spec_state(&self) -> LooperState {
        self.state
    }

    /// A looper that has not started.
    pub fn new() -> (looper: Looper)
        ensures
            looper.spec_state() == LooperState::Starting,
    {
        Looper { state: LooperState::Starting }
    }

    /// Where the looper stands.
    pub fn state(&self) -> (state: LooperState)
        ensures
            state == self.spec_state(),
    {
        self.state
    }

    /// Starts the looper: the commands that tell the kernel of it. A
    /// looper that the kernel asked for registers first.
    pub fn start(&mut self, do_register: bool) -> (commands: Vec<Command>)
        requires
            old(self).spec_state() == LooperState::Starting,
        ensures
            final(self).spec_state() == LooperState::Running,
            commands@ == (if do_register {
                seq![Command::RegisterLooper, Command::EnterLooper]
            } else {
                seq![Command::EnterLooper]
            }),
    {
        let mut commands: Vec<Command> = Vec::new();
        if do_register {
            commands.push(Command::RegisterLooper);
        }
        commands.push(Command::EnterLooper);
        self.state = LooperState::Running;
        commands
    }

    /// Says what the looper does after a wait. It leaves when the
    /// shutdown pipe can be read, whatever the device has to tell.
    pub fn on_poll(&mut self, poll: PollResult) -> (step: LooperStep)
        requires
            old(self).spec_state() == LooperState::Running,
        ensures
            step == step_after_poll(poll),
            final(self).spec_state() == (if step is Exit || step is Fatal {
                LooperState::Stopped
            } else {
                LooperState::Running
            }),
    {
        match poll {
            PollResult::Ready { shutdown_readable, binder_readable } => {
                if shutdown_readable {
                    self.state = LooperState::Stopped;
                    LooperStep::Exit(Command::ExitLooper)
                } else if binder_readable {
                    LooperStep::Read
                } else {
                    LooperStep::Wait
                }
            },
            PollResult::Interrupted => LooperStep::Wait,
            PollResult::Failed(errno) => {
                self.state = LooperState::Stopped;
                LooperStep::Fatal(errno)
            },
        }
    }
}

} // verus!
