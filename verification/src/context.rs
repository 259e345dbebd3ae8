//! The exchange loop that sending a transaction, sending a reply and the
//! looper share: what to do with each return, when to serve the
//! transactions that arrived meanwhile, and when the loop is over.

use crate::binder_object::{Object, TransactionError};
use crate::object::ObjectRefLocal;
use crate::packet::{Packet, PacketSendError};
use crate::reference::{
    accepts_event, is_unreferenced, state_after, states_after_event, RefEvent, RefState,
    ReferenceStates,
};
use crate::return_buffer::ReturnValue;
use crate::transaction::{TransactionData, TransactionFlag, TransactionFlags};
use std::collections::VecDeque;
use vstd::prelude::*;

verus! {

/// What the one who runs the loop waits for.
#[derive(Clone, Copy, Debug, PartialEq, Eq, Structural)]
pub enum Awaits {
    /// Nothing: the commands are executed and no returns are read.
    Nothing,
    /// Whatever the kernel has to tell: the looper.
    Returns,
    /// That the kernel has taken what was sent: a transaction that expects
    /// no reply, or a reply.
    Completion,
    /// The reply to a transaction.
    Reply,
}

/// What went wrong between the kernel and the runtime, beyond repair.
#[derive(Clone, Copy, Debug, PartialEq, Eq, Structural)]
pub enum Violation {
    /// The kernel reported the error of this number.
    KernelError(i32),
    /// The kernel told of a reference to an object that is not in the
    /// table, of an acquire where the flag was set or of a release where
    /// it was clear.
    Refcount(ObjectRefLocal, RefEvent),
    /// A return came though none are read.
    UnexpectedReturn,
    /// A reply came though none is expected.
    UnexpectedReply,
}

/// What to do with a return.
#[derive(Clone, Copy, Debug, PartialEq, Eq, Structural)]
pub enum ReturnAction {
    /// Nothing: the transaction waits in the queue.
    Queued,
    /// Nothing, unless `dropped` says that the kernel holds nothing of the
    /// object any more: then drop the reference that the runtime kept.
    Counted { object: ObjectRefLocal, dropped: bool },
    /// Hand the return to the one who runs the loop.
    Deliver,
    /// Nothing.
    Ignored,
    /// Give up.
    Fatal(Violation),
}

/// What to do when a batch of returns has been gone through.
#[derive(Clone, Copy, Debug, PartialEq, Eq, Structural)]
pub enum NextStep {
    /// Hand the transaction to the local object and send its reply.
    Dispatch(ObjectRefLocal, TransactionData),
    /// Read more returns, with no commands.
    Drain,
    /// The loop is over.
    Finish,
}

/// The state of the loop.
pub struct ContextView {
    /// The transactions that arrived and were not served yet, oldest
    /// first.
    pub queue: Seq<(ObjectRefLocal, TransactionData)>,
    /// Whether the returns at hand are those of the first exchange.
    pub is_initial: bool,
    pub awaits: Awaits,
    /// Whether a return came that ends the wait.
    pub terminal_seen: bool,
}

/// The change of reference state that a return tells of, if it does.
pub open spec fn ref_event_of(ret: ReturnValue) -> Option<(ObjectRefLocal, RefEvent)> {
    match ret {
        ReturnValue::Acquire(object) => Some((object, RefEvent::Acquire)),
        ReturnValue::Release(object) => Some((object, RefEvent::Release)),
        ReturnValue::AcquireWeak(object) => Some((object, RefEvent::AcquireWeak)),
        ReturnValue::ReleaseWeak(object) => Some((object, RefEvent::ReleaseWeak)),
        _ => None,
    }
}

/// Whether the return ends the wait of the one who sent something.
pub open spec fn is_terminal(ret: ReturnValue) -> bool {
    ret is Reply || ret is DeadReply || ret is TransactionFailed || ret is TransactionComplete
}

/// Whether the return is for the one who runs the loop.
pub open spec fn is_deliverable(ret: ReturnValue) -> bool {
    is_terminal(ret) || ret is Success
}

/// What to do with `ret` in the state `view`, where `states` is what the
/// kernel holds of local objects.
pub open spec fn action_on(
    view: ContextView,
    states: Map<ObjectRefLocal, RefState>,
    ret: ReturnValue,
) -> ReturnAction {
    if view.awaits == Awaits::Nothing {
        ReturnAction::Fatal(Violation::UnexpectedReturn)
    } else if ret is Transaction {
        ReturnAction::Queued
    } else if ref_event_of(ret) is Some {
        let (object, event) = ref_event_of(ret).unwrap();
        if accepts_event(states, object, event) {
            ReturnAction::Counted {
                object,
                dropped: is_unreferenced(state_after(states[object], event)),
            }
        } else {
            ReturnAction::Fatal(Violation::Refcount(object, event))
        }
    } else if ret is Error {
        ReturnAction::Fatal(Violation::KernelError(ret->Error_0))
    } else if ret is Reply && view.awaits == Awaits::Completion {
        ReturnAction::Fatal(Violation::UnexpectedReply)
    } else if is_deliverable(ret) && view.is_initial {
        ReturnAction::Deliver
    } else {
        ReturnAction::Ignored
    }
}

/// The state of the loop after `ret`.
pub open spec fn view_after_return(view: ContextView, ret: ReturnValue) -> ContextView {
    if view.awaits == Awaits::Nothing {
        view
    } else {
        ContextView {
            queue: match ret {
                ReturnValue::Transaction(object, record) => view.queue.push((object, record)),
                _ => view.queue,
            },
            terminal_seen: view.terminal_seen || is_terminal(ret),
            ..view
        }
    }
}

/// What the kernel holds of local objects after `ret`.
pub open spec fn states_after_return(
    view: ContextView,
    states: Map<ObjectRefLocal, RefState>,
    ret: ReturnValue,
) -> Map<ObjectRefLocal, RefState> {
    match action_on(view, states, ret) {
        ReturnAction::Counted { object, dropped } => states_after_event(
            states,
            object,
            ref_event_of(ret).unwrap().1,
        ),
        _ => states,
    }
}

/// Whether the loop is over once no transaction waits: nothing is waited
/// for, or what is waited for has come.
pub open spec fn wait_is_over(view: ContextView) -> bool {
    match view.awaits {
        Awaits::Nothing | Awaits::Returns => true,
        Awaits::Completion | Awaits::Reply => view.terminal_seen,
    }
}

/// What to do in the state `view` when a batch of returns has been gone
/// through: serve the oldest transaction that waits; with none waiting,
/// finish where the wait is over and read on where it is not.
pub open spec fn step_on(view: ContextView) -> NextStep {
    if view.queue.len() > 0 {
        NextStep::Dispatch(view.queue[0].0, view.queue[0].1)
    } else if wait_is_over(view) {
        NextStep::Finish
    } else {
        NextStep::Drain
    }
}

/// The state of the loop after the step: the first exchange is past, and
/// the transaction that is served has left the queue.
pub open spec fn view_after_step(view: ContextView) -> ContextView {
    ContextView {
        queue: if view.queue.len() > 0 {
            view.queue.skip(1)
        } else {
            view.queue
        },
        is_initial: false,
        ..view
    }
}

/// The loop.
pub struct Context {
    queued_transactions: VecDeque<(ObjectRefLocal, TransactionData)>,
    is_initial: bool,
    awaits: Awaits,
    terminal_seen: bool,
}

impl View for Context {
    type V = ContextView;

    closed spec fn view(&self) -> ContextView {
        ContextView {
            queue: self.queued_transactions@,
            is_initial: self.is_initial,
            awaits: self.awaits,
            terminal_seen: self.terminal_seen,
        }
    }
}

impl Context {
    /// A loop before its first exchange, with no transaction waiting.
    pub fn new(awaits: Awaits) -> (context: Context)
        ensures
            context@ == (ContextView {
                queue: Seq::empty(),
                is_initial: true,
                awaits,
                terminal_seen: false,
            }),
    {
        Context { queued_transactions: VecDeque::new(), is_initial: true, awaits, terminal_seen: false }
    }

    /// A loop that reads the returns of what it sends.
    pub fn exec(awaits_reply: bool) -> (context: Context)
        ensures
            context@ == (ContextView {
                queue: Seq::empty(),
                is_initial: true,
                awaits: if awaits_reply {
                    Awaits::Reply
                } else {
                    Awaits::Completion
                },
                terminal_seen: false,
            }),
    {
        Context::new(
            if awaits_reply {
                Awaits::Reply
            } else {
                Awaits::Completion
            },
        )
    }

    /// A loop that reads no returns.
    pub fn exec_without_ret() -> (context: Context)
        ensures
            context@ == (ContextView {
                queue: Seq::empty(),
                is_initial: true,
                awaits: Awaits::Nothing,
                terminal_seen: false,
            }),
    {
        Context::new(Awaits::Nothing)
    }

    /// Number of transactions that wait to be served.
    pub fn queued(&self) -> (count: usize)
        ensures
            count == self@.queue.len(),
    {
        self.queued_transactions.len()
    }

    /// Takes note of a return and says what to do with it. A transaction
    /// goes to the back of the queue. A change of reference state is
    /// applied to `states` at once, and is fatal where the table does not
    /// admit it. An error that the kernel reports is fatal. What is for
    /// the one who runs the loop is delivered from the first exchange
    /// only; later it is passed over.
    pub fn on_return(&mut self, states: &mut ReferenceStates, ret: &ReturnValue) -> (action:
        ReturnAction)
        requires
            old(states).wf(),
        ensures
            final(states).wf(),
            action == action_on(old(self)@, old(states)@, *ret),
            final(self)@ == view_after_return(old(self)@, *ret),
            final(states)@ == states_after_return(old(self)@, old(states)@, *ret),
    {
        match self.awaits {
            Awaits::Nothing => {
                return ReturnAction::Fatal(Violation::UnexpectedReturn);
            },
            _ => {},
        }
        match ret {
            ReturnValue::Transaction(object, record) => {
                self.queued_transactions.push_back((*object, *record));
                ReturnAction::Queued
            },
            ReturnValue::Acquire(object) => self.count(states, *object, RefEvent::Acquire),
            ReturnValue::Release(object) => self.count(states, *object, RefEvent::Release),
            ReturnValue::AcquireWeak(object) => self.count(states, *object, RefEvent::AcquireWeak),
            ReturnValue::ReleaseWeak(object) => self.count(states, *object, RefEvent::ReleaseWeak),
            ReturnValue::Error(errno) => ReturnAction::Fatal(Violation::KernelError(*errno)),
            ReturnValue::Reply(_) => {
                self.terminal_seen = true;
                match self.awaits {
                    Awaits::Completion => ReturnAction::Fatal(Violation::UnexpectedReply),
                    _ => self.deliver(),
                }
            },
            ReturnValue::TransactionFailed | ReturnValue::TransactionComplete
            | ReturnValue::DeadReply => {
                self.terminal_seen = true;
                self.deliver()
            },
            ReturnValue::Success => self.deliver(),
            ReturnValue::SpawnLooper | ReturnValue::Noop | ReturnValue::DeadBinder(_) => {
                ReturnAction::Ignored
            },
        }
    }

    /// Delivers from the first exchange and passes over later.
    fn deliver(&self) -> (action: ReturnAction)
        ensures
            action == (if self@.is_initial {
                ReturnAction::Deliver
            } else {
                ReturnAction::Ignored
            }),
    {
        if self.is_initial {
            ReturnAction::Deliver
        } else {
            ReturnAction::Ignored
        }
    }

    /// Applies a change of reference state where the table admits it.
    fn count(
        &self,
        states: &mut ReferenceStates,
        object: ObjectRefLocal,
        event: RefEvent,
    ) -> (action: ReturnAction)
        requires
            old(states).wf(),
        ensures
            final(states).wf(),
            accepts_event(old(states)@, object, event) ==> action == (ReturnAction::Counted {
                object,
                dropped: is_unreferenced(state_after(old(states)@[object], event)),
            }) && final(states)@ == states_after_event(old(states)@, object, event),
            !accepts_event(old(states)@, object, event) ==> action == ReturnAction::Fatal(
                Violation::Refcount(object, event),
            ) && final(states)@ == old(states)@,
    {
        if states.accepts(object, event) {
            let dropped = states.apply(object, event);
            ReturnAction::Counted { object, dropped }
        } else {
            ReturnAction::Fatal(Violation::Refcount(object, event))
        }
    }

    /// Says what to do when a batch of returns has been gone through, and
    /// takes the transaction that is to be served out of the queue. The
    /// loop is over only when no transaction waits.
    pub fn next(&mut self) -> (step: NextStep)
        ensures
            step == step_on(old(self)@),
            final(self)@ == view_after_step(old(self)@),
            step is Finish ==> final(self)@.queue.len() == 0,
    {
        self.is_initial = false;
        if let Some((object, record)) = self.queued_transactions.pop_front() {
            assert(self.queued_transactions@ =~= old(self)@.queue.skip(1));
            NextStep::Dispatch(object, record)
        } else {
            let over = match self.awaits {
                Awaits::Nothing | Awaits::Returns => true,
                Awaits::Completion | Awaits::Reply => self.terminal_seen,
            };
            if over {
                NextStep::Finish
            } else {
                NextStep::Drain
            }
        }
    }
}

/// Why what a local object made of a transaction cannot be used.
#[derive(Debug, PartialEq, Eq)]
pub enum DispatchViolation {
    /// The object failed.
    HandlerFailed(TransactionError),
    /// The object gave a reply to a transaction that expects none.
    ReplyToOneWay,
    /// The object gave no reply to a transaction that expects one.
    MissingReply,
    /// The reply names references that are not well-formed.
    MalformedReply,
}

/// What to do after a local object has dealt with a transaction.
#[derive(Debug, PartialEq, Eq)]
pub enum ReplyDecision {
    /// Send this reply.
    SendReply(Packet),
    /// Send nothing.
    NoReply,
    /// Give up.
    Fatal(DispatchViolation),
}

/// What is to be done where a transaction with the flags `flags` was
/// dealt with and `result` came back: a transaction that expects a reply
/// gets the reply that came, one that expects none gets none, and
/// everything else is fatal.
pub open spec fn decision_for(
    flags: TransactionFlags,
    result: Result<Option<Packet>, TransactionError>,
) -> ReplyDecision {
    match result {
        Err(error) => ReplyDecision::Fatal(DispatchViolation::HandlerFailed(error)),
        Ok(Some(reply)) => if flags.spec_contains(TransactionFlag::OneWay) {
            ReplyDecision::Fatal(DispatchViolation::ReplyToOneWay)
        } else if reply.wf() {
            ReplyDecision::SendReply(reply)
        } else {
            ReplyDecision::Fatal(DispatchViolation::MalformedReply)
        },
        Ok(None) => if flags.spec_contains(TransactionFlag::OneWay) {
            ReplyDecision::NoReply
        } else {
            ReplyDecision::Fatal(DispatchViolation::MissingReply)
        },
    }
}

/// Says what to do after a local object has dealt with a transaction with
/// the flags `flags` and `result` came back.
pub fn reply_for(
    flags: TransactionFlags,
    result: Result<Option<Packet>, TransactionError>,
) -> (decision: ReplyDecision)
    ensures
        decision == decision_for(flags, result),
        flags.spec_contains(TransactionFlag::OneWay) ==> !(decision is SendReply),
        decision matches ReplyDecision::SendReply(reply) ==> reply.wf(),
{
    let one_way = flags.contains(TransactionFlag::OneWay);
    match result {
        Err(error) => ReplyDecision::Fatal(DispatchViolation::HandlerFailed(error)),
        Ok(Some(reply)) => {
            if one_way {
                ReplyDecision::Fatal(DispatchViolation::ReplyToOneWay)
            } else if reply.is_well_formed() {
                ReplyDecision::SendReply(reply)
            } else {
                ReplyDecision::Fatal(DispatchViolation::MalformedReply)
            }
        },
        Ok(None) => {
            if one_way {
                ReplyDecision::NoReply
            } else {
                ReplyDecision::Fatal(DispatchViolation::MissingReply)
            }
        },
    }
}

/// Hands `packet` to `object` and says what to do with what comes back:
/// what `decision_for` makes of what the object gives for the packet.
/// Whatever the object does, a transaction that expects no reply is never
/// answered, and a reply that is sent is well-formed.
pub fn dispatch<T: Object>(object: &T, packet: &Packet) -> (decision: ReplyDecision)
    requires
        packet.wf(),
    ensures
        exists|result: Result<Option<Packet>, TransactionError>| #[trigger]
            object.answers(packet@, result) && decision == decision_for(packet@.flags, result),
        packet@.flags.spec_contains(TransactionFlag::OneWay) ==> !(decision is SendReply),
        decision matches ReplyDecision::SendReply(reply) ==> reply.wf(),
{
    let result = object.do_transaction(packet);
    reply_for(packet.get_flags(), result)
}

/// What came back for something that was sent.
#[derive(Clone, Copy, Debug, PartialEq, Eq, Structural)]
pub struct Outcome {
    /// The first reply that came.
    pub reply: Option<TransactionData>,
    /// Whether more than one reply came.
    pub more_replies: bool,
    /// Whether the target was reported gone.
    pub dead: bool,
    /// Whether the transaction was reported undeliverable.
    pub failed: bool,
    /// Whether the kernel reported that it took what was sent.
    pub completed: bool,
}

/// What is wrong with what came back for something that was sent.
#[derive(Clone, Copy, Debug, PartialEq, Eq, Structural)]
pub enum ProtocolViolation {
    /// More than one reply came.
    MultipleReplies,
    /// A reply came where none is expected.
    UnexpectedReply,
    /// No reply came where one is expected.
    MissingReply,
    /// Nothing came.
    NoResponse,
    /// What came does not fit together.
    Ambiguous,
}

/// How sending ended.
#[derive(Clone, Copy, Debug, PartialEq, Eq, Structural)]
pub enum Conclusion {
    /// With this reply.
    Reply(TransactionData),
    /// Without reply, as expected.
    Done,
    /// The target is gone.
    UnreachableTarget,
    /// The kernel refused to deliver.
    FailedReply,
    /// Against the protocol.
    Violation(ProtocolViolation),
}

impl Outcome {
    /// What came back before anything came back.
    pub open spec fn spec_new() -> Outcome {
        Outcome { reply: None, more_replies: false, dead: false, failed: false, completed: false }
    }

    /// What came back once `ret` has come too.
    pub open spec fn spec_note(self, ret: ReturnValue) -> Outcome {
        match ret {
            ReturnValue::Reply(record) => if self.reply is Some {
                Outcome { more_replies: true, ..self }
            } else {
                Outcome { reply: Some(record), ..self }
            },
            ReturnValue::DeadReply => Outcome { dead: true, ..self },
            ReturnValue::TransactionFailed => Outcome { failed: true, ..self },
            ReturnValue::TransactionComplete => Outcome { completed: true, ..self },
            _ => self,
        }
    }

    /// How sending ended, where a reply was expected or not: a report that
    /// the target is gone makes it unreachable, a report that the
    /// transaction is undeliverable makes it failed, and being taken by
    /// the kernel makes it done, with the reply where one was expected.
    pub open spec fn spec_conclude(self, expects_reply: bool) -> Conclusion {
        if self.more_replies {
            Conclusion::Violation(ProtocolViolation::MultipleReplies)
        } else if self.reply is Some && !expects_reply {
            Conclusion::Violation(ProtocolViolation::UnexpectedReply)
        } else if self.dead && !self.failed && self.reply is None {
            Conclusion::UnreachableTarget
        } else if self.failed && !self.dead && self.reply is None {
            Conclusion::FailedReply
        } else if self.dead || self.failed {
            Conclusion::Violation(ProtocolViolation::Ambiguous)
        } else if !self.completed {
            if self.reply is None {
                Conclusion::Violation(ProtocolViolation::NoResponse)
            } else {
                Conclusion::Violation(ProtocolViolation::Ambiguous)
            }
        } else if expects_reply {
            match self.reply {
                Some(record) => Conclusion::Reply(record),
                None => Conclusion::Violation(ProtocolViolation::MissingReply),
            }
        } else {
            Conclusion::Done
        }
    }

    /// What came back before anything came back.
    pub fn new() -> (outcome: Outcome)
        ensures
            outcome == Self::spec_new(),
    {
        Outcome { reply: None, more_replies: false, dead: false, failed: false, completed: false }
    }

    /// Takes note of a return that was delivered.
    pub fn note(&mut self, ret: &ReturnValue)
        ensures
            *final(self) == old(self).spec_note(*ret),
    {
        match ret {
            ReturnValue::Reply(record) => {
                if self.reply.is_some() {
                    self.more_replies = true;
                } else {
                    self.reply = Some(*record);
                }
            },
            ReturnValue::DeadReply => {
                self.dead = true;
            },
            ReturnValue::TransactionFailed => {
                self.failed = true;
            },
            ReturnValue::TransactionComplete => {
                self.completed = true;
            },
            _ => {},
        }
    }

    /// Says how sending ended. Where no reply was expected, none comes
    /// out.
    pub fn conclude(&self, expects_reply: bool) -> (conclusion: Conclusion)
        ensures
            conclusion == self.spec_conclude(expects_reply),
            !expects_reply ==> !(conclusion is Reply),
    {
        if self.more_replies {
            Conclusion::Violation(ProtocolViolation::MultipleReplies)
        } else if self.reply.is_some() && !expects_reply {
            Conclusion::Violation(ProtocolViolation::UnexpectedReply)
        } else if self.dead && !self.failed && self.reply.is_none() {
            Conclusion::UnreachableTarget
        } else if self.failed && !self.dead && self.reply.is_none() {
            Conclusion::FailedReply
        } else if self.dead || self.failed {
            Conclusion::Violation(ProtocolViolation::Ambiguous)
        } else if !self.completed {
            if self.reply.is_none() {
                Conclusion::Violation(ProtocolViolation::NoResponse)
            } else {
                Conclusion::Violation(ProtocolViolation::Ambiguous)
            }
        } else if expects_reply {
            match self.reply {
                Some(record) => Conclusion::Reply(record),
                None => Conclusion::Violation(ProtocolViolation::MissingReply),
            }
        } else {
            Conclusion::Done
        }
    }
}

/// The error that a conclusion stands for, if it stands for one that the
/// one who sent is to see.
pub fn error_of(conclusion: Conclusion) -> (error: Option<TransactionError>)
    ensures
        match conclusion {
            Conclusion::UnreachableTarget => error == Some(TransactionError::UnreachableTarget),
            Conclusion::FailedReply => error == Some(TransactionError::FailedReply),
            _ => error is None,
        },
{
    match conclusion {
        Conclusion::UnreachableTarget => Some(TransactionError::UnreachableTarget),
        Conclusion::FailedReply => Some(TransactionError::FailedReply),
        _ => None,
    }
}

/// How sending ended, for the one who sent: the record of the reply or
/// nothing where sending went well, the error where it did not, and
/// `None` where the kernel went against the protocol.
pub fn send_result_of(conclusion: Conclusion) -> (r: Option<
    Result<Option<TransactionData>, PacketSendError>,
>)
    ensures
        r == (match conclusion {
            Conclusion::Reply(record) => Some(
                Ok::<Option<TransactionData>, PacketSendError>(Some(record)),
            ),
            Conclusion::Done => Some(Ok::<Option<TransactionData>, PacketSendError>(None)),
            Conclusion::UnreachableTarget => Some(
                Err::<Option<TransactionData>, PacketSendError>(PacketSendError::DeadTarget),
            ),
            Conclusion::FailedReply => Some(
                Err::<Option<TransactionData>, PacketSendError>(PacketSendError::Failed),
            ),
            Conclusion::Violation(_) => None,
        }),
{
    match conclusion {
        Conclusion::Reply(record) => Some(Ok(Some(record))),
        Conclusion::Done => Some(Ok(None)),
        Conclusion::UnreachableTarget => Some(Err(PacketSendError::DeadTarget)),
        Conclusion::FailedReply => Some(Err(PacketSendError::Failed)),
        Conclusion::Violation(_) => None,
    }
}

/// What the loop is fed: a return, or the question what to do next.
#[derive(Clone, Copy, Debug, PartialEq, Eq, Structural)]
pub enum LoopInput {
    Return(ReturnValue),
    Next,
}

/// The state of a loop that waits for `awaits` after `inputs`.
pub open spec fn view_after_inputs(awaits: Awaits, inputs: Seq<LoopInput>) -> ContextView
    decreases inputs.len(),
{
    if inputs.len() == 0 {
        ContextView { queue: Seq::empty(), is_initial: true, awaits, terminal_seen: false }
    } else {
        let before = view_after_inputs(awaits, inputs.drop_last());
        match inputs.last() {
            LoopInput::Return(ret) => view_after_return(before, ret),
            LoopInput::Next => view_after_step(before),
        }
    }
}

/// The transactions that came into the queue in the course of `inputs`,
/// in the order in which they came.
pub open spec fn arrived(awaits: Awaits, inputs: Seq<LoopInput>) -> Seq<
    (ObjectRefLocal, TransactionData),
>
    decreases inputs.len(),
{
    if inputs.len() == 0 {
        Seq::empty()
    } else {
        let before = arrived(awaits, inputs.drop_last());
        match inputs.last() {
            LoopInput::Return(ReturnValue::Transaction(object, record)) => if awaits
                != Awaits::Nothing {
                before.push((object, record))
            } else {
                before
            },
            _ => before,
        }
    }
}

/// The transactions that were handed out to be served in the course of
/// `inputs`, in the order in which they were handed out.
pub open spec fn dispatched(awaits: Awaits, inputs: Seq<LoopInput>) -> Seq<
    (ObjectRefLocal, TransactionData),
>
    decreases inputs.len(),
{
    if inputs.len() == 0 {
        Seq::empty()
    } else {
        let before = dispatched(awaits, inputs.drop_last());
        match inputs.last() {
            LoopInput::Next => match step_on(view_after_inputs(awaits, inputs.drop_last())) {
                NextStep::Dispatch(object, record) => before.push((object, record)),
                _ => before,
            },
            _ => before,
        }
    }
}

/// What the loop waits for stays what it was.
pub proof fn lemma_awaits_stays(awaits: Awaits, inputs: Seq<LoopInput>)
    ensures
        view_after_inputs(awaits, inputs).awaits == awaits,
    decreases inputs.len(),
{
    if inputs.len() > 0 {
        lemma_awaits_stays(awaits, inputs.drop_last());
    }
}

/// Whatever the loop is fed, the transactions that arrived are those that
/// were handed out to be served, in the same order, followed by those that
/// still wait. So when the loop says that it is over, every transaction
/// that arrived while it ran has been handed out to be served.
pub proof fn lemma_all_served_before_finish(awaits: Awaits, inputs: Seq<LoopInput>)
    ensures
        arrived(awaits, inputs) == dispatched(awaits, inputs) + view_after_inputs(
            awaits,
            inputs,
        ).queue,
        step_on(view_after_inputs(awaits, inputs)) is Finish ==> dispatched(awaits, inputs)
            == arrived(awaits, inputs),
    decreases inputs.len(),
{
    if inputs.len() > 0 {
        let front = inputs.drop_last();
        lemma_all_served_before_finish(awaits, front);
        lemma_awaits_stays(awaits, front);
        let before = view_after_inputs(awaits, front);
        match inputs.last() {
            LoopInput::Return(ret) => {
                let served = dispatched(awaits, front);
                assert(dispatched(awaits, inputs) == served);
                assert(view_after_inputs(awaits, inputs) == view_after_return(before, ret));
                match ret {
                    ReturnValue::Transaction(object, record) => {
                        if awaits != Awaits::Nothing {
                            assert(before.awaits == awaits);
                            assert((served + before.queue).push((object, record)) =~= served
                                + before.queue.push((object, record)));
                        }
                    },
                    _ => {},
                }
            },
            LoopInput::Next => {
                if before.queue.len() > 0 {
                    assert(before.queue =~= seq![before.queue[0]] + before.queue.skip(1));
                }
                assert(arrived(awaits, inputs) =~= dispatched(awaits, inputs)
                    + view_after_inputs(awaits, inputs).queue);
            },
        }
    }
    let now = view_after_inputs(awaits, inputs);
    if step_on(now) is Finish {
        assert(dispatched(awaits, inputs) + now.queue =~= dispatched(awaits, inputs));
    }
}

/// Where a transaction that expects no reply was sent, or a reply, no
/// reply is ever delivered to the one who sent: a reply that comes
/// nevertheless is fatal.
pub proof fn lemma_no_reply_for_one_way(
    view: ContextView,
    states: Map<ObjectRefLocal, RefState>,
    record: TransactionData,
)
    requires
        view.awaits == Awaits::Completion,
    ensures
        action_on(view, states, ReturnValue::Reply(record)) == ReturnAction::Fatal(
            Violation::UnexpectedReply,
        ),
        forall|outcome: Outcome| !(#[trigger] outcome.spec_conclude(false) is Reply),
{
}

} // verus!
