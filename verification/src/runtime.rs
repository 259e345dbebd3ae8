//! What a runtime knows: which local objects went out of the process,
//! which remote handles are held, which buffers of the kernel are in use.

use crate::command_buffer::Command;
use crate::object::{ObjectRef, ObjectRefLocal, ObjectRefRemote, CONTEXT_MANAGER_HANDLE};
use crate::packet::Packet;
use crate::reference::{
    can_hold, can_let_go, counts_after_hold, counts_after_let_go, states_after_register,
    KernelBuffers, RefState, ReferenceStates, RemoteHandles,
};
use crate::transaction::TransactionData;
use vstd::prelude::*;

verus! {

/// The version of the protocol that the kernel speaks.
#[derive(Clone, Copy, Debug, PartialEq, Eq, Structural)]
pub struct Version {
    pub version: i32,
}

/// The version of the protocol that this library speaks.
pub const BINDER_COMPILED_VERSION: i32 = 8;

impl Version {
    /// Whether the kernel speaks the version that this library speaks.
    pub fn is_supported(&self) -> (yes: bool)
        ensures
            yes == (self.version == BINDER_COMPILED_VERSION),
    {
        self.version == BINDER_COMPILED_VERSION
    }
}

/// Number of bytes of the region that the kernel puts arriving
/// transactions in.
pub const BINDER_BUFFER_SIZE: usize = 8 * 1024 * 1024;

/// Why a runtime could not be made.
#[derive(Clone, Copy, Debug, PartialEq, Eq, Structural)]
pub enum RuntimeCreateError {
    /// The device could not be opened; the number is that of the error.
    ErrorOpeningBinder(i32),
    /// The shutdown pipe could not be made.
    ErrorCreatingPipe(i32),
    /// The region for arriving transactions could not be mapped.
    ErrorMappingBuffer(i32),
}

/// Why a runtime could not be made for the context manager.
#[derive(Clone, Copy, Debug, PartialEq, Eq, Structural)]
pub enum RuntimeCreateAsManagerError {
    CommonCreateError(RuntimeCreateError),
    /// The kernel did not take the object as context manager.
    CannotBecomeManager(i32),
}

/// Why a runtime could not be made for a client.
#[derive(Clone, Copy, Debug, PartialEq, Eq, Structural)]
pub enum RuntimeCreateAsClientError {
    CommonCreateError(RuntimeCreateError),
    /// The proxy for the context manager was not taken for what the
    /// client expects.
    WrongContextManagerType,
}

/// What becoming the context manager came to, where the kernel answered
/// the request with `answer`.
pub fn manager_result(answer: Result<(), i32>) -> (r: Result<(), RuntimeCreateAsManagerError>)
    ensures
        match answer {
            Ok(_) => r is Ok,
            Err(errno) => r == Err::<(), RuntimeCreateAsManagerError>(
                RuntimeCreateAsManagerError::CannotBecomeManager(errno),
            ),
        },
{
    match answer {
        Ok(_) => Ok(()),
        Err(errno) => Err(RuntimeCreateAsManagerError::CannotBecomeManager(errno)),
    }
}

/// What making the client's view of the context manager came to, where
/// the proxy was taken or not.
pub fn client_result(proxy_taken: bool) -> (r: Result<(), RuntimeCreateAsClientError>)
    ensures
        proxy_taken ==> r is Ok,
        !proxy_taken ==> r == Err::<(), RuntimeCreateAsClientError>(
            RuntimeCreateAsClientError::WrongContextManagerType,
        ),
{
    if proxy_taken {
        Ok(())
    } else {
        Err(RuntimeCreateAsClientError::WrongContextManagerType)
    }
}

/// The local objects among `references`, in order.
pub open spec fn locals_of(references: Seq<(usize, ObjectRef)>) -> Seq<ObjectRefLocal>
    decreases references.len(),
{
    if references.len() == 0 {
        Seq::empty()
    } else {
        let before = locals_of(references.drop_last());
        match references.last().1 {
            ObjectRef::Local(local) => before.push(local),
            ObjectRef::Remote(_) => before,
        }
    }
}

/// The reference states after each of `objects` went out in a packet.
pub open spec fn states_after_registers(
    states: Map<ObjectRefLocal, RefState>,
    objects: Seq<ObjectRefLocal>,
) -> Map<ObjectRefLocal, RefState>
    decreases objects.len(),
{
    if objects.len() == 0 {
        states
    } else {
        states_after_register(
            states_after_registers(states, objects.drop_last()),
            objects.last(),
        )
    }
}

/// Those of `objects` that were not in the table when their turn came:
/// each of them needs one reference kept.
pub open spec fn newly_registered(
    states: Map<ObjectRefLocal, RefState>,
    objects: Seq<ObjectRefLocal>,
) -> Seq<ObjectRefLocal>
    decreases objects.len(),
{
    if objects.len() == 0 {
        Seq::empty()
    } else {
        let before = newly_registered(states, objects.drop_last());
        if states_after_registers(states, objects.drop_last()).contains_key(objects.last()) {
            before
        } else {
            before.push(objects.last())
        }
    }
}

/// The handles among `references`, in order.
pub open spec fn handles_of(references: Seq<(usize, ObjectRef)>) -> Seq<u32>
    decreases references.len(),
{
    if references.len() == 0 {
        Seq::empty()
    } else {
        let before = handles_of(references.drop_last());
        match references.last().1 {
            ObjectRef::Local(_) => before,
            ObjectRef::Remote(remote) => before.push(remote.data_handle),
        }
    }
}

/// The counts after one more holder of each of `handles` was counted,
/// where that can be done.
pub open spec fn counts_after_holds(counts: Map<usize, usize>, handles: Seq<u32>) -> Map<
    usize,
    usize,
>
    decreases handles.len(),
{
    if handles.len() == 0 {
        counts
    } else {
        counts_after_hold(counts_after_holds(counts, handles.drop_last()), handles.last())
    }
}

/// Whether a holder of each of `handles` could be counted when its turn
/// came.
pub open spec fn all_held(counts: Map<usize, usize>, handles: Seq<u32>) -> bool
    decreases handles.len(),
{
    if handles.len() == 0 {
        true
    } else {
        all_held(counts, handles.drop_last()) && can_hold(
            counts_after_holds(counts, handles.drop_last()),
            handles.last(),
        )
    }
}

/// The counts after a holder of each of `handles` let go where it could.
pub open spec fn counts_after_let_gos(counts: Map<usize, usize>, handles: Seq<u32>) -> Map<
    usize,
    usize,
>
    decreases handles.len(),
{
    if handles.len() == 0 {
        counts
    } else {
        counts_after_let_go(counts_after_let_gos(counts, handles.drop_last()), handles.last())
    }
}

/// The commands that give up those of `handles` whose last holder let go,
/// in the order of the lettings go.
pub open spec fn releases_for(counts: Map<usize, usize>, handles: Seq<u32>) -> Seq<Command>
    decreases handles.len(),
{
    if handles.len() == 0 {
        Seq::empty()
    } else {
        let before = counts_after_let_gos(counts, handles.drop_last());
        let commands = releases_for(counts, handles.drop_last());
        let handle = handles.last();
        if handle != CONTEXT_MANAGER_HANDLE && before.contains_key(handle as usize)
            && before[handle as usize] == 1 {
            commands.push(Command::Release(handle))
        } else {
            commands
        }
    }
}

/// Whether each of `handles` could let go when its turn came.
pub open spec fn all_let_go(counts: Map<usize, usize>, handles: Seq<u32>) -> bool
    decreases handles.len(),
{
    if handles.len() == 0 {
        true
    } else {
        all_let_go(counts, handles.drop_last()) && can_let_go(
            counts_after_let_gos(counts, handles.drop_last()),
            handles.last(),
        )
    }
}

/// The tables of a runtime.
pub struct RuntimeState {
    /// What the kernel holds of the local objects that went out.
    pub references: ReferenceStates,
    /// The remote handles that are held.
    pub handles: RemoteHandles,
    /// The buffers of the kernel that are in use.
    pub buffers: KernelBuffers,
}

/// What is to be done when a runtime ends.
pub struct Shutdown {
    /// The local objects whose kept reference is to be dropped.
    pub unpin: Vec<ObjectRefLocal>,
    /// The commands that give up the remote handles.
    pub releases: Vec<Command>,
    /// The commands that give the buffers back to the kernel.
    pub frees: Vec<Command>,
}

impl RuntimeState {
    /// Whether the tables are well-formed.
    pub open spec fn wf(&self) -> bool {
        &&& self.references.wf()
        &&& self.handles.wf()
        &&& self.buffers.wf()
    }

    /// The tables of a runtime that has sent and received nothing yet.
    pub fn new() -> (state: RuntimeState)
        ensures
            state.wf(),
            state.references@ == Map::<ObjectRefLocal, RefState>::empty(),
            state.handles@ == Map::<usize, usize>::empty(),
            state.buffers@ == Map::<usize, usize>::empty(),
    {
        RuntimeState {
            references: ReferenceStates::new(),
            handles: RemoteHandles::new(),
            buffers: KernelBuffers::new(),
        }
    }

    /// Takes note of the local objects that `packet` names: each comes
    /// into the table of reference states with its strong flag set. The
    /// result are the objects that were not in the table, of each of which
    /// the runtime has to keep one more reference.
    pub fn register_references(&mut self, packet: &Packet) -> (pinned: Vec<ObjectRefLocal>)
        requires
            old(self).wf(),
            packet.wf(),
        ensures
            final(self).wf(),
            final(self).handles == old(self).handles,
            final(self).buffers == old(self).buffers,
            final(self).references@ == states_after_registers(
                old(self).references@,
                locals_of(packet@.references()),
            ),
            pinned@ == newly_registered(old(self).references@, locals_of(packet@.references())),
    {
        let references = packet.iter_references();
        let count = references.len();
        let mut pinned: Vec<ObjectRefLocal> = Vec::new();
        let mut i: usize = 0;
        assert(references@.take(0) =~= Seq::<(usize, ObjectRef)>::empty());
        while i < count
            invariant
                i <= count,
                count == references@.len(),
                self.wf(),
                self.handles == old(self).handles,
                self.buffers == old(self).buffers,
                self.references@ == states_after_registers(
                    old(self).references@,
                    locals_of(references@.take(i as int)),
                ),
                pinned@ == newly_registered(
                    old(self).references@,
                    locals_of(references@.take(i as int)),
                ),
            decreases count - i,
        {
            proof {
                assert(references@.take(i as int + 1).drop_last() =~= references@.take(i as int));
            }
            match references[i].1 {
                ObjectRef::Local(local) => {
                    proof {
                        let done = locals_of(references@.take(i as int));
                        assert(locals_of(references@.take(i as int + 1)) == done.push(local));
                        assert(done.push(local).drop_last() =~= done);
                    }
                    if self.references.register(local) {
                        pinned.push(local);
                    }
                },
                ObjectRef::Remote(_) => {},
            }
            i = i + 1;
        }
        assert(references@.take(count as int) =~= references@);
        pinned
    }

    /// Counts the packet as one more holder of each handle that it names.
    /// The result says whether every handle could be counted; one that
    /// could not is left as it was.
    pub fn hold_handles(&mut self, packet: &Packet) -> (held: bool)
        requires
            old(self).wf(),
            packet.wf(),
        ensures
            final(self).wf(),
            final(self).references == old(self).references,
            final(self).buffers == old(self).buffers,
            final(self).handles@ == counts_after_holds(
                old(self).handles@,
                handles_of(packet@.references()),
            ),
            held == all_held(old(self).handles@, handles_of(packet@.references())),
    {
        let references = packet.iter_references();
        let count = references.len();
        let mut held = true;
        let mut i: usize = 0;
        assert(references@.take(0) =~= Seq::<(usize, ObjectRef)>::empty());
        while i < count
            invariant
                i <= count,
                count == references@.len(),
                self.wf(),
                self.references == old(self).references,
                self.buffers == old(self).buffers,
                self.handles@ == counts_after_holds(
                    old(self).handles@,
                    handles_of(references@.take(i as int)),
                ),
                held == all_held(old(self).handles@, handles_of(references@.take(i as int))),
            decreases count - i,
        {
            proof {
                assert(references@.take(i as int + 1).drop_last() =~= references@.take(i as int));
            }
            match references[i].1 {
                ObjectRef::Local(_) => {},
                ObjectRef::Remote(remote) => {
                    proof {
                        let done = handles_of(references@.take(i as int));
                        assert(handles_of(references@.take(i as int + 1)) == done.push(
                            remote.data_handle,
                        ));
                        assert(done.push(remote.data_handle).drop_last() =~= done);
                    }
                    if !self.handles.acquire(remote.data_handle) {
                        held = false;
                    }
                },
            }
            i = i + 1;
        }
        assert(references@.take(count as int) =~= references@);
        held
    }

    /// Takes note that a packet is gone that was counted as a holder of
    /// each handle that it names. The first part of the result are the
    /// commands that give up the handles that lost their last holder; the
    /// second says whether every handle had a holder to lose.
    pub fn drop_handles(&mut self, packet: &Packet) -> (out: (Vec<Command>, bool))
        requires
            old(self).wf(),
            packet.wf(),
        ensures
            final(self).wf(),
            final(self).references == old(self).references,
            final(self).buffers == old(self).buffers,
            final(self).handles@ == counts_after_let_gos(
                old(self).handles@,
                handles_of(packet@.references()),
            ),
            out.0@ == releases_for(old(self).handles@, handles_of(packet@.references())),
            out.1 == all_let_go(old(self).handles@, handles_of(packet@.references())),
    {
        let references = packet.iter_references();
        let count = references.len();
        let mut commands: Vec<Command> = Vec::new();
        let mut all = true;
        let mut i: usize = 0;
        assert(references@.take(0) =~= Seq::<(usize, ObjectRef)>::empty());
        while i < count
            invariant
                i <= count,
                count == references@.len(),
                self.wf(),
                self.references == old(self).references,
                self.buffers == old(self).buffers,
                self.handles@ == counts_after_let_gos(
                    old(self).handles@,
                    handles_of(references@.take(i as int)),
                ),
                commands@ == releases_for(
                    old(self).handles@,
                    handles_of(references@.take(i as int)),
                ),
                all == all_let_go(old(self).handles@, handles_of(references@.take(i as int))),
            decreases count - i,
        {
            proof {
                assert(references@.take(i as int + 1).drop_last() =~= references@.take(i as int));
            }
            match references[i].1 {
                ObjectRef::Local(_) => {},
                ObjectRef::Remote(remote) => {
                    proof {
                        let done = handles_of(references@.take(i as int));
                        assert(handles_of(references@.take(i as int + 1)) == done.push(
                            remote.data_handle,
                        ));
                        assert(done.push(remote.data_handle).drop_last() =~= done);
                    }
                    let handle = remote.data_handle;
                    if handle == CONTEXT_MANAGER_HANDLE || self.handles.holders(handle) > 0 {
                        proof {
                            self.handles.lemma_held(handle);
                        }
                        match self.handles.release(handle) {
                            Some(command) => {
                                commands.push(command);
                            },
                            None => {},
                        }
                    } else {
                        proof {
                            self.handles.lemma_held(handle);
                        }
                        all = false;
                    }
                },
            }
            i = i + 1;
        }
        assert(references@.take(count as int) =~= references@);
        (commands, all)
    }

    /// Prepares to send `packet` to `target`, where the payload lies at
    /// the address `buffer` and the table of offsets at the address
    /// `offsets`: the references of the packet are registered, and then
    /// comes the command that sends it. The second part of the result are
    /// the local objects of which the runtime has to keep one more
    /// reference.
    pub fn send_packet(
        &mut self,
        target: ObjectRefRemote,
        packet: &Packet,
        buffer: usize,
        offsets: usize,
    ) -> (out: (Command, Vec<ObjectRefLocal>))
        requires
            old(self).wf(),
            packet.wf(),
        ensures
            final(self).wf(),
            final(self).handles == old(self).handles,
            final(self).buffers == old(self).buffers,
            final(self).references@ == states_after_registers(
                old(self).references@,
                locals_of(packet@.references()),
            ),
            out.1@ == newly_registered(old(self).references@, locals_of(packet@.references())),
            out.0 == Command::SendTransaction(
                TransactionData {
                    target: ObjectRef::Remote(target),
                    code: packet@.code,
                    flags: packet@.flags.spec_bits(),
                    sender_pid: 0,
                    sender_euid: 0,
                    data_size: packet@.data.len() as usize,
                    offsets_size: (packet@.offsets.len() * crate::bytes::word_size()) as usize,
                    buffer,
                    offsets,
                },
            ),
    {
        let pinned = self.register_references(packet);
        let mut record = packet.to_record(buffer, offsets);
        record.target = ObjectRef::Remote(target);
        (Command::SendTransaction(record), pinned)
    }

    /// Prepares to send `packet` as the reply to the transaction that is
    /// being served: the references of the packet are registered, and then
    /// comes the command that sends it.
    pub fn send_reply(&mut self, packet: &Packet, buffer: usize, offsets: usize) -> (out: (
        Command,
        Vec<ObjectRefLocal>,
    ))
        requires
            old(self).wf(),
            packet.wf(),
        ensures
            final(self).wf(),
            final(self).handles == old(self).handles,
            final(self).buffers == old(self).buffers,
            final(self).references@ == states_after_registers(
                old(self).references@,
                locals_of(packet@.references()),
            ),
            out.1@ == newly_registered(old(self).references@, locals_of(packet@.references())),
            out.0 == Command::SendReply(
                TransactionData {
                    target: packet@.target,
                    code: packet@.code,
                    flags: packet@.flags.spec_bits(),
                    sender_pid: 0,
                    sender_euid: 0,
                    data_size: packet@.data.len() as usize,
                    offsets_size: (packet@.offsets.len() * crate::bytes::word_size()) as usize,
                    buffer,
                    offsets,
                },
            ),
    {
        let pinned = self.register_references(packet);
        let record = packet.to_record(buffer, offsets);
        (Command::SendReply(record), pinned)
    }

    /// Ends the runtime: empties the tables and says what is to be done
    /// for what was in them. Each local object in the table has its kept
    /// reference dropped, each remote handle is given up, and each buffer
    /// of the kernel is given back, once.
    pub fn shutdown(&mut self) -> (work: Shutdown)
        requires
            old(self).wf(),
        ensures
            final(self).wf(),
            final(self).references@ == Map::<ObjectRefLocal, RefState>::empty(),
            final(self).handles@ == Map::<usize, usize>::empty(),
            final(self).buffers@ == Map::<usize, usize>::empty(),
            work.unpin@.len() == old(self).references@.dom().len(),
            work.unpin@.no_duplicates(),
            forall|object: ObjectRefLocal|
                work.unpin@.contains(object) <==> old(self).references@.contains_key(object),
            work.releases@.len() == old(self).handles@.dom().len(),
            forall|key: usize|
                old(self).handles@.contains_key(key) ==> work.releases@.contains(
                    Command::Release(key as u32),
                ),
            work.frees@.len() == old(self).buffers@.dom().len(),
            work.frees@.no_duplicates(),
            forall|command: Command|
                work.frees@.contains(command) <==> crate::reference::frees_held(
                    command,
                    old(self).buffers@,
                ),
    {
        let unpin = self.references.drain();
        let releases = self.handles.release_all();
        let frees = self.buffers.release_all();
        Shutdown { unpin, releases, frees }
    }
}

} // verus!
