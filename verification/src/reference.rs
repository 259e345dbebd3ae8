//! Reference accounting: what the kernel holds of local objects, how many
//! holders remote handles have, and which buffers of the kernel await
//! their release.

use crate::assoc::{
    distinct_keys, has_key, lemma_absent_key, lemma_entry_in_map, lemma_push_entry,
    lemma_remove_entry, lemma_to_map_len, lemma_update_entry, to_map,
};
use crate::command_buffer::Command;
use crate::object::{ObjectRefLocal, ObjectRefRemote, CONTEXT_MANAGER_HANDLE};
use std::collections::HashMap;
use vstd::prelude::*;
use vstd::std_specs::iter::IteratorSpec;

verus! {

/// What the kernel holds of a local object.
#[derive(Clone, Copy, Debug, PartialEq, Eq, Structural)]
pub struct RefState {
    /// Whether the kernel holds a strong reference.
    pub has_strong: bool,
    /// Whether the kernel holds a weak reference.
    pub has_weak: bool,
}

/// What the kernel tells about its references to a local object.
#[derive(Clone, Copy, Debug, PartialEq, Eq, Structural)]
pub enum RefEvent {
    Acquire,
    Release,
    AcquireWeak,
    ReleaseWeak,
}

/// Whether `event` may come for `object` in the states `states`: the
/// object is known, an acquire finds the flag clear and a release finds it
/// set.
pub open spec fn accepts_event(
    states: Map<ObjectRefLocal, RefState>,
    object: ObjectRefLocal,
    event: RefEvent,
) -> bool {
    states.contains_key(object) && match event {
        RefEvent::Acquire => !states[object].has_strong,
        RefEvent::Release => states[object].has_strong,
        RefEvent::AcquireWeak => !states[object].has_weak,
        RefEvent::ReleaseWeak => states[object].has_weak,
    }
}

/// The state of an object after `event`.
pub open spec fn state_after(state: RefState, event: RefEvent) -> RefState {
    match event {
        RefEvent::Acquire => RefState { has_strong: true, ..state },
        RefEvent::Release => RefState { has_strong: false, ..state },
        RefEvent::AcquireWeak => RefState { has_weak: true, ..state },
        RefEvent::ReleaseWeak => RefState { has_weak: false, ..state },
    }
}

/// Whether the kernel holds nothing of the object.
pub open spec fn is_unreferenced(state: RefState) -> bool {
    !state.has_strong && !state.has_weak
}

/// The states after `event` came for `object`: the flag changes, and an
/// object of which the kernel holds nothing any more leaves the table.
pub open spec fn states_after_event(
    states: Map<ObjectRefLocal, RefState>,
    object: ObjectRefLocal,
    event: RefEvent,
) -> Map<ObjectRefLocal, RefState> {
    let state = state_after(states[object], event);
    if is_unreferenced(state) {
        states.remove(object)
    } else {
        states.insert(object, state)
    }
}

/// The states after `object` went out in a packet: it is in the table,
/// its strong flag set.
pub open spec fn states_after_register(
    states: Map<ObjectRefLocal, RefState>,
    object: ObjectRefLocal,
) -> Map<ObjectRefLocal, RefState> {
    states.insert(
        object,
        RefState {
            has_strong: true,
            has_weak: states.contains_key(object) && states[object].has_weak,
        },
    )
}

/// For each local object that went out of the process, what the kernel
/// holds of it. The runtime keeps one reference of its own to each object
/// in the table.
pub struct ReferenceStates {
    entries: Vec<(ObjectRefLocal, RefState)>,
}

impl View for ReferenceStates {
    type V = Map<ObjectRefLocal, RefState>;

    closed spec fn view(&self) -> Map<ObjectRefLocal, RefState> {
        to_map(self.entries@)
    }
}

impl ReferenceStates {
    /// Whether no object stands twice in the table.
    pub closed spec fn wf(&self) -> bool {
        distinct_keys(self.entries@)
    }

    /// A table without objects.
    pub fn new() -> (states: ReferenceStates)
        ensures
            states.wf(),
            states@ == Map::<ObjectRefLocal, RefState>::empty(),
    {
        let states = ReferenceStates { entries: Vec::new() };
        assert(states@ =~= Map::<ObjectRefLocal, RefState>::empty());
        states
    }

    /// The place of `object` in the table.
    fn find(&self, object: ObjectRefLocal) -> (place: Option<usize>)
        requires
            self.wf(),
        ensures
            match place {
                Some(i) => i < self.entries@.len() && self.entries@[i as int].0 == object
                    && self@.contains_key(object) && self@[object] == self.entries@[i as int].1,
                None => !self@.contains_key(object),
            },
    {
        let count = self.entries.len();
        let mut i: usize = 0;
        while i < count
            invariant
                i <= count,
                count == self.entries@.len(),
                self.wf(),
                forall|k: int| 0 <= k < i ==> (#[trigger] self.entries@[k]).0 != object,
            decreases count - i,
        {
            if self.entries[i].0 == object {
                proof {
                    lemma_entry_in_map(self.entries@, i as int);
                }
                return Some(i);
            }
            i = i + 1;
        }
        proof {
            lemma_absent_key(self.entries@, object);
        }
        None
    }

    /// What the kernel holds of `object`, if it is in the table.
    pub fn get(&self, object: ObjectRefLocal) -> (state: Option<RefState>)
        requires
            self.wf(),
        ensures
            state == (if self@.contains_key(object) {
                Some(self@[object])
            } else {
                None
            }),
    {
        match self.find(object) {
            Some(i) => Some(self.entries[i].1),
            None => None,
        }
    }

    /// Number of objects in the table, which is the number of references
    /// that the runtime keeps of its own.
    pub fn len(&self) -> (count: usize)
        requires
            self.wf(),
        ensures
            self@.dom().finite(),
            count == self@.dom().len(),
    {
        proof {
            lemma_to_map_len(self.entries@);
        }
        self.entries.len()
    }

    /// Takes note that `object` goes out in a packet: it comes into the
    /// table if it was not there, and its strong flag is set. The result
    /// says whether the object came into the table, in which case the
    /// runtime has to keep one more reference to it.
    pub fn register(&mut self, object: ObjectRefLocal) -> (pinned: bool)
        requires
            old(self).wf(),
        ensures
            final(self).wf(),
            final(self)@ == states_after_register(old(self)@, object),
            pinned == !old(self)@.contains_key(object),
    {
        match self.find(object) {
            Some(i) => {
                let state = self.entries[i].1;
                proof {
                    lemma_update_entry(
                        self.entries@,
                        i as int,
                        RefState { has_strong: true, has_weak: state.has_weak },
                    );
                }
                self.entries.set(
                    i,
                    (object, RefState { has_strong: true, has_weak: state.has_weak }),
                );
                false
            },
            None => {
                proof {
                    assert(!has_key(self.entries@, object));
                    lemma_push_entry(
                        self.entries@,
                        object,
                        RefState { has_strong: true, has_weak: false },
                    );
                }
                self.entries.push((object, RefState { has_strong: true, has_weak: false }));
                true
            },
        }
    }

    /// Whether `event` may come for `object`.
    pub fn accepts(&self, object: ObjectRefLocal, event: RefEvent) -> (ok: bool)
        requires
            self.wf(),
        ensures
            ok == accepts_event(self@, object, event),
    {
        match self.find(object) {
            Some(i) => {
                let state = self.entries[i].1;
                match event {
                    RefEvent::Acquire => !state.has_strong,
                    RefEvent::Release => state.has_strong,
                    RefEvent::AcquireWeak => !state.has_weak,
                    RefEvent::ReleaseWeak => state.has_weak,
                }
            },
            None => false,
        }
    }

    /// Takes note that `event` came for `object`. The result says whether
    /// the kernel holds nothing of the object any more: then it has left
    /// the table, and the runtime has to drop the reference it kept.
    pub fn apply(&mut self, object: ObjectRefLocal, event: RefEvent) -> (dropped: bool)
        requires
            old(self).wf(),
            accepts_event(old(self)@, object, event),
        ensures
            final(self).wf(),
            final(self)@ == states_after_event(old(self)@, object, event),
            dropped == is_unreferenced(state_after(old(self)@[object], event)),
    {
        match self.find(object) {
            Some(i) => {
                let before = self.entries[i].1;
                let state = match event {
                    RefEvent::Acquire => RefState { has_strong: true, has_weak: before.has_weak },
                    RefEvent::Release => RefState { has_strong: false, has_weak: before.has_weak },
                    RefEvent::AcquireWeak => RefState {
                        has_strong: before.has_strong,
                        has_weak: true,
                    },
                    RefEvent::ReleaseWeak => RefState {
                        has_strong: before.has_strong,
                        has_weak: false,
                    },
                };
                if !state.has_strong && !state.has_weak {
                    proof {
                        lemma_remove_entry(self.entries@, i as int);
                    }
                    self.entries.remove(i);
                    true
                } else {
                    proof {
                        lemma_update_entry(self.entries@, i as int, state);
                    }
                    self.entries.set(i, (object, state));
                    false
                }
            },
            None => {
                proof {
                    assert(false);
                }
                false
            },
        }
    }

    /// Empties the table and hands out the objects that were in it, each
    /// once: those whose kept reference the runtime has to drop.
    pub fn drain(&mut self) -> (objects: Vec<ObjectRefLocal>)
        requires
            old(self).wf(),
        ensures
            final(self).wf(),
            final(self)@ == Map::<ObjectRefLocal, RefState>::empty(),
            objects@.len() == old(self)@.dom().len(),
            objects@.no_duplicates(),
            forall|object: ObjectRefLocal|
                objects@.contains(object) <==> old(self)@.contains_key(object),
    {
        let count = self.entries.len();
        let mut objects: Vec<ObjectRefLocal> = Vec::new();
        let mut i: usize = 0;
        proof {
            lemma_to_map_len(self.entries@);
        }
        while i < count
            invariant
                i <= count,
                count == self.entries@.len(),
                self.entries@ == old(self).entries@,
                objects@.len() == i,
                forall|k: int| 0 <= k < i ==> objects@[k] == (#[trigger] self.entries@[k]).0,
            decreases count - i,
        {
            objects.push(self.entries[i].0);
            i = i + 1;
        }
        proof {
            let entries = self.entries@;
            assert forall|a: int, b: int| 0 <= a < objects@.len() && 0 <= b < objects@.len() && a
                != b implies objects@[a] != objects@[b] by {
                if a < b {
                    assert(entries[a].0 != entries[b].0);
                } else {
                    assert(entries[b].0 != entries[a].0);
                }
            }
            assert forall|object: ObjectRefLocal| objects@.contains(object) <==> old(
                self,
            )@.contains_key(object) by {
                if objects@.contains(object) {
                    let k = choose|k: int| 0 <= k < objects@.len() && objects@[k] == object;
                    assert(entries[k].0 == object);
                }
                if has_key(entries, object) {
                    let k = crate::assoc::place_of(entries, object);
                    assert(objects@[k] == object);
                }
            }
        }
        self.entries = Vec::new();
        assert(self@ =~= Map::<ObjectRefLocal, RefState>::empty());
        objects
    }
}

/// What happens to the table of reference states: an object goes out in a
/// packet, or the kernel tells about its references to an object.
#[derive(Clone, Copy, Debug, PartialEq, Eq, Structural)]
pub enum RefOp {
    Register(ObjectRefLocal),
    Event(ObjectRefLocal, RefEvent),
}

/// Whether `op` may happen in the states `states`.
pub open spec fn accepts_op(states: Map<ObjectRefLocal, RefState>, op: RefOp) -> bool {
    match op {
        RefOp::Register(_) => true,
        RefOp::Event(object, event) => accepts_event(states, object, event),
    }
}

/// The states after `op`.
pub open spec fn states_after_op(states: Map<ObjectRefLocal, RefState>, op: RefOp) -> Map<
    ObjectRefLocal,
    RefState,
> {
    match op {
        RefOp::Register(object) => states_after_register(states, object),
        RefOp::Event(object, event) => states_after_event(states, object, event),
    }
}

/// The states that `ops` lead to from the empty table, if each of them may
/// happen when it does.
pub open spec fn states_after_ops(ops: Seq<RefOp>) -> Option<Map<ObjectRefLocal, RefState>>
    decreases ops.len(),
{
    if ops.len() == 0 {
        Some(Map::empty())
    } else {
        match states_after_ops(ops.drop_last()) {
            Some(states) => if accepts_op(states, ops.last()) {
                Some(states_after_op(states, ops.last()))
            } else {
                None
            },
            None => None,
        }
    }
}

/// Whether the kernel holds a strong reference to `object` in `states`.
pub open spec fn holds_strong(
    states: Map<ObjectRefLocal, RefState>,
    object: ObjectRefLocal,
) -> bool {
    states.contains_key(object) && states[object].has_strong
}

/// Whether the kernel holds a weak reference to `object` in `states`.
pub open spec fn holds_weak(states: Map<ObjectRefLocal, RefState>, object: ObjectRefLocal) -> bool {
    states.contains_key(object) && states[object].has_weak
}

/// The changes of the strong flag of `object` in the course of `ops`, true
/// for a change to set and false for a change to clear: the acquires and
/// releases that the kernel told of, and each going out of the object that
/// found the flag clear and set it.
pub open spec fn strong_history(ops: Seq<RefOp>, object: ObjectRefLocal) -> Seq<bool>
    decreases ops.len(),
{
    if ops.len() == 0 {
        Seq::empty()
    } else {
        let before = strong_history(ops.drop_last(), object);
        match ops.last() {
            RefOp::Event(o, RefEvent::Acquire) => if o == object {
                before.push(true)
            } else {
                before
            },
            RefOp::Event(o, RefEvent::Release) => if o == object {
                before.push(false)
            } else {
                before
            },
            RefOp::Register(o) => if o == object && states_after_ops(ops.drop_last()) is Some
                && !holds_strong(states_after_ops(ops.drop_last()).unwrap(), object) {
                before.push(true)
            } else {
                before
            },
            _ => before,
        }
    }
}

/// The changes of the weak flag of `object` in the course of `ops`, true
/// for an acquire and false for a release.
pub open spec fn weak_history(ops: Seq<RefOp>, object: ObjectRefLocal) -> Seq<bool>
    decreases ops.len(),
{
    if ops.len() == 0 {
        Seq::empty()
    } else {
        let before = weak_history(ops.drop_last(), object);
        match ops.last() {
            RefOp::Event(o, RefEvent::AcquireWeak) => if o == object {
                before.push(true)
            } else {
                before
            },
            RefOp::Event(o, RefEvent::ReleaseWeak) => if o == object {
                before.push(false)
            } else {
                before
            },
            _ => before,
        }
    }
}

/// Whether `history` goes set, clear, set, clear and so on.
pub open spec fn alternates(history: Seq<bool>) -> bool {
    forall|i: int| 0 <= i < history.len() ==> #[trigger] history[i] == (i % 2 == 0)
}

/// Number of references that the runtime keeps of its own after `ops`:
/// one more for each going out that brought an object into the table, one
/// less for each event after which the kernel held nothing of an object.
pub open spec fn kept_references(ops: Seq<RefOp>) -> int
    decreases ops.len(),
{
    if ops.len() == 0 {
        0
    } else {
        let before = kept_references(ops.drop_last());
        match states_after_ops(ops.drop_last()) {
            Some(states) => match ops.last() {
                RefOp::Register(object) => if states.contains_key(object) {
                    before
                } else {
                    before + 1
                },
                RefOp::Event(object, event) => if is_unreferenced(
                    state_after(states[object], event),
                ) {
                    before - 1
                } else {
                    before
                },
            },
            None => before,
        }
    }
}

/// In any course of goings out and events that the table admits, the
/// strong flag of each object changes in turn to set and to clear,
/// beginning with set, and so does its weak flag; the flag is set exactly
/// after an odd number of changes.
pub proof fn lemma_references_alternate(ops: Seq<RefOp>, object: ObjectRefLocal)
    requires
        states_after_ops(ops) is Some,
    ensures
        alternates(strong_history(ops, object)),
        alternates(weak_history(ops, object)),
        holds_strong(states_after_ops(ops).unwrap(), object) == (strong_history(
            ops,
            object,
        ).len() % 2 == 1),
        holds_weak(states_after_ops(ops).unwrap(), object) == (weak_history(ops, object).len()
            % 2 == 1),
    decreases ops.len(),
{
    if ops.len() > 0 {
        lemma_references_alternate(ops.drop_last(), object);
    }
}

/// In any course of goings out and events that the table admits, the
/// number of references that the runtime keeps of its own is the number of
/// objects in the table.
pub proof fn lemma_kept_references(ops: Seq<RefOp>)
    requires
        states_after_ops(ops) is Some,
    ensures
        states_after_ops(ops).unwrap().dom().finite(),
        kept_references(ops) == states_after_ops(ops).unwrap().dom().len(),
    decreases ops.len(),
{
    if ops.len() > 0 {
        lemma_kept_references(ops.drop_last());
    }
}

/// How many holders each of a number of things has. A thing without
/// holders is not in the table.
pub struct RefCounts {
    counts: HashMap<usize, usize>,
}

impl View for RefCounts {
    type V = Map<usize, usize>;

    closed spec fn view(&self) -> Map<usize, usize> {
        self.counts@
    }
}

/// The number of holders that `counts` has for `key`.
pub open spec fn count_of(counts: Map<usize, usize>, key: usize) -> nat {
    if counts.contains_key(key) {
        counts[key] as nat
    } else {
        0
    }
}

impl RefCounts {
    /// Whether nothing in the table is without holders.
    pub closed spec fn wf(&self) -> bool {
        forall|key: usize| self.counts@.contains_key(key) ==> #[trigger] self.counts@[key] > 0
    }

    /// In a well-formed table every count is above zero.
    pub proof fn lemma_counts_positive(&self, key: usize)
        requires
            self.wf(),
            self@.contains_key(key),
        ensures
            self@[key] > 0,
    {
    }

    /// A table without entries.
    pub fn new() -> (counts: RefCounts)
        ensures
            counts.wf(),
            counts@ == Map::<usize, usize>::empty(),
    {
        RefCounts { counts: HashMap::new() }
    }

    /// Number of holders of `key`.
    pub fn count(&self, key: usize) -> (count: usize)
        requires
            self.wf(),
        ensures
            count == count_of(self@, key),
    {
        match self.counts.get(&key) {
            Some(count) => *count,
            None => 0,
        }
    }

    /// Number of things that have holders.
    pub fn len(&self) -> (count: usize)
        requires
            self.wf(),
        ensures
            self@.dom().finite(),
            count == self@.dom().len(),
    {
        self.counts.len()
    }

    /// Counts one more holder of `key`. Where the count cannot grow any
    /// more, nothing changes and the result is false.
    pub fn increment(&mut self, key: usize) -> (counted: bool)
        requires
            old(self).wf(),
        ensures
            final(self).wf(),
            counted == (count_of(old(self)@, key) < usize::MAX),
            counted ==> final(self)@ == old(self)@.insert(
                key,
                (count_of(old(self)@, key) + 1) as usize,
            ),
            !counted ==> final(self)@ == old(self)@,
    {
        let count = self.count(key);
        if count == usize::MAX {
            return false;
        }
        self.counts.insert(key, count + 1);
        true
    }

    /// Counts one holder of `key` less. The result says whether that was
    /// the last one: then `key` has left the table.
    pub fn decrement(&mut self, key: usize) -> (last: bool)
        requires
            old(self).wf(),
            old(self)@.contains_key(key),
        ensures
            final(self).wf(),
            last == (old(self)@[key] == 1),
            last ==> final(self)@ == old(self)@.remove(key),
            !last ==> final(self)@ == old(self)@.insert(key, (old(self)@[key] - 1) as usize),
    {
        let count = self.count(key);
        if count == 1 {
            self.counts.remove(&key);
            true
        } else {
            self.counts.insert(key, count - 1);
            false
        }
    }

    /// Empties the table and hands out what was in it, each thing once, in
    /// no order that could be told beforehand.
    pub fn drain(&mut self) -> (keys: Vec<usize>)
        requires
            old(self).wf(),
        ensures
            final(self).wf(),
            final(self)@ == Map::<usize, usize>::empty(),
            keys@.len() == old(self)@.dom().len(),
            keys@.no_duplicates(),
            forall|key: usize| keys@.contains(key) <==> old(self)@.contains_key(key),
    {
        let mut keys: Vec<usize> = Vec::new();
        let ghost all = self.counts.keys().remaining();
        for key in walk: self.counts.keys()
            invariant
                walk.seq() == all,
                keys@.len() == walk.index(),
                forall|k: int| 0 <= k < walk.index() ==> keys@[k] == *#[trigger] all[k],
        {
            keys.push(*key);
        }
        assert(all.unref().to_set() == self@.dom());
        assert(keys@ =~= all.unref());
        self.counts.clear();
        keys
    }
}

/// Whether `command` gives up a handle that `held` has.
pub open spec fn releases_held(command: Command, held: Map<usize, usize>) -> bool {
    match command {
        Command::Release(handle) => held.contains_key(handle as usize),
        _ => false,
    }
}

/// Whether `command` gives back a buffer that `held` has.
pub open spec fn frees_held(command: Command, held: Map<usize, usize>) -> bool {
    match command {
        Command::FreeBuffer(address) => held.contains_key(address),
        _ => false,
    }
}

/// A handle that is held: whoever holds one has to give it up when done
/// with it.
#[derive(Clone, Copy, Debug, PartialEq, Eq, Structural)]
pub struct OwnedRemoteRef {
    pub obj_ref: ObjectRefRemote,
}

impl OwnedRemoteRef {
    /// Whether the handle is that of the context manager, which is never
    /// given up.
    pub fn is_context_manager(&self) -> (yes: bool)
        ensures
            yes == (self.obj_ref.data_handle == CONTEXT_MANAGER_HANDLE),
    {
        self.obj_ref.data_handle == CONTEXT_MANAGER_HANDLE
    }
}

/// Whether one more holder of `handle` can be counted: always for the
/// context manager, which is not counted, else as long as the count can
/// grow.
pub open spec fn can_hold(counts: Map<usize, usize>, handle: u32) -> bool {
    handle == CONTEXT_MANAGER_HANDLE || count_of(counts, handle as usize) < usize::MAX
}

/// The counts after one more holder of `handle` was counted where that
/// can be done.
pub open spec fn counts_after_hold(counts: Map<usize, usize>, handle: u32) -> Map<usize, usize> {
    if handle != CONTEXT_MANAGER_HANDLE && can_hold(counts, handle) {
        counts.insert(handle as usize, (count_of(counts, handle as usize) + 1) as usize)
    } else {
        counts
    }
}

/// Whether a holder of `handle` can let go: always for the context
/// manager, else where the handle has holders.
pub open spec fn can_let_go(counts: Map<usize, usize>, handle: u32) -> bool {
    handle == CONTEXT_MANAGER_HANDLE || counts.contains_key(handle as usize)
}

/// The counts after a holder of `handle` let go where it could.
pub open spec fn counts_after_let_go(counts: Map<usize, usize>, handle: u32) -> Map<usize, usize> {
    if handle == CONTEXT_MANAGER_HANDLE || !counts.contains_key(handle as usize) {
        counts
    } else if counts[handle as usize] == 1 {
        counts.remove(handle as usize)
    } else {
        counts.insert(handle as usize, (counts[handle as usize] - 1) as usize)
    }
}

/// The command that gives `handle` up, where its last holder lets go.
pub open spec fn command_after_let_go(counts: Map<usize, usize>, handle: u32) -> Option<Command> {
    if handle != CONTEXT_MANAGER_HANDLE && counts.contains_key(handle as usize)
        && counts[handle as usize] == 1 {
        Some(Command::Release(handle))
    } else {
        None
    }
}

impl OwnedRemoteRef {
    /// Lets go of the handle: one holder less is counted, and where that
    /// was the last one the result is the command that gives the handle
    /// up. The handle of the context manager is never given up.
    pub fn give_up(self, handles: &mut RemoteHandles) -> (command: Option<Command>)
        requires
            old(handles).wf(),
            self.obj_ref.data_handle == CONTEXT_MANAGER_HANDLE || old(handles)@.contains_key(
                self.obj_ref.data_handle as usize,
            ),
        ensures
            final(handles).wf(),
            final(handles)@ == counts_after_let_go(old(handles)@, self.obj_ref.data_handle),
            command == command_after_let_go(old(handles)@, self.obj_ref.data_handle),
    {
        handles.release(self.obj_ref.data_handle)
    }
}

/// How many holders each remote handle has in this process.
pub struct RemoteHandles {
    counts: RefCounts,
}

impl RemoteHandles {
    /// Number of holders of each handle that has any.
    pub closed spec fn view(&self) -> Map<usize, usize> {
        self.counts@
    }

    /// Whether the table is well-formed.
    pub closed spec fn wf(&self) -> bool {
        &&& self.counts.wf()
        &&& forall|key: usize| self.counts@.contains_key(key) ==> 0 < key <= u32::MAX
    }

    /// A table without handles.
    pub fn new() -> (handles: RemoteHandles)
        ensures
            handles.wf(),
            handles@ == Map::<usize, usize>::empty(),
    {
        RemoteHandles { counts: RefCounts::new() }
    }

    /// A handle is in the table exactly when it has holders.
    pub proof fn lemma_held(&self, handle: u32)
        requires
            self.wf(),
        ensures
            self@.contains_key(handle as usize) <==> count_of(self@, handle as usize) > 0,
    {
        if self@.contains_key(handle as usize) {
            self.counts.lemma_counts_positive(handle as usize);
        }
    }

    /// Number of holders of `handle`.
    pub fn holders(&self, handle: u32) -> (count: usize)
        requires
            self.wf(),
        ensures
            count == count_of(self@, handle as usize),
    {
        self.counts.count(handle as usize)
    }

    /// Counts one more holder of `handle`. The handle of the context
    /// manager is not counted. Where the count cannot grow any more,
    /// nothing changes and the result is false.
    pub fn acquire(&mut self, handle: u32) -> (counted: bool)
        requires
            old(self).wf(),
        ensures
            final(self).wf(),
            handle == CONTEXT_MANAGER_HANDLE ==> counted && final(self)@ == old(self)@,
            handle != CONTEXT_MANAGER_HANDLE ==> {
                &&& counted == (count_of(old(self)@, handle as usize) < usize::MAX)
                &&& counted ==> final(self)@ == old(self)@.insert(
                    handle as usize,
                    (count_of(old(self)@, handle as usize) + 1) as usize,
                )
                &&& !counted ==> final(self)@ == old(self)@
            },
    {
        if handle == CONTEXT_MANAGER_HANDLE {
            true
        } else {
            self.counts.increment(handle as usize)
        }
    }

    /// Counts one holder of `handle` less. Where that was the last one,
    /// the handle leaves the table and the result is the command that
    /// gives it up. The handle of the context manager is never given up.
    pub fn release(&mut self, handle: u32) -> (command: Option<Command>)
        requires
            old(self).wf(),
            handle == CONTEXT_MANAGER_HANDLE || old(self)@.contains_key(handle as usize),
        ensures
            final(self).wf(),
            handle == CONTEXT_MANAGER_HANDLE ==> command is None && final(self)@ == old(self)@,
            handle != CONTEXT_MANAGER_HANDLE ==> {
                &&& old(self)@[handle as usize] == 1 ==> command == Some(Command::Release(handle))
                    && final(self)@ == old(self)@.remove(handle as usize)
                &&& old(self)@[handle as usize] != 1 ==> command is None && final(self)@ == old(
                    self,
                )@.insert(handle as usize, (old(self)@[handle as usize] - 1) as usize)
            },
    {
        if handle == CONTEXT_MANAGER_HANDLE {
            None
        } else if self.counts.decrement(handle as usize) {
            Some(Command::Release(handle))
        } else {
            None
        }
    }

    /// Empties the table and hands out, for each handle that was in it,
    /// the command that gives it up.
    pub fn release_all(&mut self) -> (commands: Vec<Command>)
        requires
            old(self).wf(),
        ensures
            final(self).wf(),
            final(self)@ == Map::<usize, usize>::empty(),
            commands@.len() == old(self)@.dom().len(),
            forall|i: int|
                0 <= i < commands@.len() ==> releases_held(#[trigger] commands@[i], old(self)@),
            forall|key: usize|
                old(self)@.contains_key(key) ==> commands@.contains(Command::Release(key as u32)),
    {
        let keys = self.counts.drain();
        let count = keys.len();
        let mut commands: Vec<Command> = Vec::new();
        let mut i: usize = 0;
        while i < count
            invariant
                i <= count,
                count == keys@.len(),
                commands@.len() == i,
                forall|key: usize| keys@.contains(key) <==> old(self)@.contains_key(key),
                forall|key: usize| old(self)@.contains_key(key) ==> 0 < key <= u32::MAX,
                forall|k: int|
                    0 <= k < i ==> (#[trigger] commands@[k]) == Command::Release(keys@[k] as u32),
            decreases count - i,
        {
            assert(keys@.contains(keys@[i as int]));
            commands.push(Command::Release(keys[i] as u32));
            i = i + 1;
        }
        proof {
            assert forall|i: int| 0 <= i < commands@.len() implies releases_held(
                #[trigger] commands@[i],
                old(self)@,
            ) by {
                assert(keys@.contains(keys@[i]));
            }
            assert forall|key: usize| old(self)@.contains_key(key) implies commands@.contains(
                Command::Release(key as u32),
            ) by {
                assert(keys@.contains(key));
                let k = choose|k: int| 0 <= k < keys@.len() && keys@[k] == key;
                assert(commands@[k] == Command::Release(key as u32));
            }
        }
        commands
    }
}

/// The buffers of the kernel that hold what arrived, each with the number
/// of packets that share it.
pub struct KernelBuffers {
    counts: RefCounts,
}

impl KernelBuffers {
    /// Number of packets that share each buffer that is not yet given
    /// back.
    pub closed spec fn view(&self) -> Map<usize, usize> {
        self.counts@
    }

    /// Whether the table is well-formed.
    pub closed spec fn wf(&self) -> bool {
        self.counts.wf()
    }

    /// A table without buffers.
    pub fn new() -> (buffers: KernelBuffers)
        ensures
            buffers.wf(),
            buffers@ == Map::<usize, usize>::empty(),
    {
        KernelBuffers { counts: RefCounts::new() }
    }

    /// Whether the buffer at `address` is in the table.
    pub fn holds(&self, address: usize) -> (yes: bool)
        requires
            self.wf(),
        ensures
            yes == self@.contains_key(address),
    {
        proof {
            if self@.contains_key(address) {
                self.counts.lemma_counts_positive(address);
            }
        }
        self.counts.count(address) > 0
    }

    /// Takes in the buffer at `address`, which arrived with a transaction
    /// or a reply and is not in the table: one packet holds it.
    pub fn adopt(&mut self, address: usize)
        requires
            old(self).wf(),
            !old(self)@.contains_key(address),
        ensures
            final(self).wf(),
            final(self)@ == old(self)@.insert(address, 1),
    {
        let counted = self.counts.increment(address);
    }

    /// Counts one more packet that shares the buffer at `address`. Where
    /// the count cannot grow any more, nothing changes and the result is
    /// false.
    pub fn share(&mut self, address: usize) -> (counted: bool)
        requires
            old(self).wf(),
            old(self)@.contains_key(address),
        ensures
            final(self).wf(),
            counted == (old(self)@[address] < usize::MAX),
            counted ==> final(self)@ == old(self)@.insert(
                address,
                (old(self)@[address] + 1) as usize,
            ),
            !counted ==> final(self)@ == old(self)@,
    {
        self.counts.increment(address)
    }

    /// Counts one packet less that shares the buffer at `address`. Where
    /// that was the last one, the buffer leaves the table and the result
    /// is the command that gives it back to the kernel.
    pub fn release(&mut self, address: usize) -> (command: Option<Command>)
        requires
            old(self).wf(),
            old(self)@.contains_key(address),
        ensures
            final(self).wf(),
            old(self)@[address] == 1 ==> command == Some(Command::FreeBuffer(address))
                && final(self)@ == old(self)@.remove(address),
            old(self)@[address] != 1 ==> command is None && final(self)@ == old(self)@.insert(
                address,
                (old(self)@[address] - 1) as usize,
            ),
    {
        if self.counts.decrement(address) {
            Some(Command::FreeBuffer(address))
        } else {
            None
        }
    }

    /// Empties the table and hands out, for each buffer that was in it,
    /// the command that gives it back to the kernel, once.
    pub fn release_all(&mut self) -> (commands: Vec<Command>)
        requires
            old(self).wf(),
        ensures
            final(self).wf(),
            final(self)@ == Map::<usize, usize>::empty(),
            commands@.len() == old(self)@.dom().len(),
            commands@.no_duplicates(),
            forall|command: Command|
                commands@.contains(command) <==> frees_held(command, old(self)@),
    {
        let keys = self.counts.drain();
        let count = keys.len();
        let mut commands: Vec<Command> = Vec::new();
        let mut i: usize = 0;
        while i < count
            invariant
                i <= count,
                count == keys@.len(),
                commands@.len() == i,
                keys@.no_duplicates(),
                forall|key: usize| keys@.contains(key) <==> old(self)@.contains_key(key),
                forall|k: int|
                    0 <= k < i ==> (#[trigger] commands@[k]) == Command::FreeBuffer(keys@[k]),
            decreases count - i,
        {
            commands.push(Command::FreeBuffer(keys[i]));
            i = i + 1;
        }
        proof {
            assert forall|a: int, b: int| 0 <= a < commands@.len() && 0 <= b < commands@.len()
                && a != b implies commands@[a] != commands@[b] by {
                assert(keys@[a] != keys@[b]);
            }
            assert forall|command: Command| commands@.contains(command) <==> frees_held(
                command,
                old(self)@,
            ) by {
                if commands@.contains(command) {
                    let k = choose|k: int| 0 <= k < commands@.len() && commands@[k] == command;
                    assert(keys@.contains(keys@[k]));
                }
                if let Command::FreeBuffer(address) = command {
                    if old(self)@.contains_key(address) {
                        assert(keys@.contains(address));
                        let k = choose|k: int| 0 <= k < keys@.len() && keys@[k] == address;
                        assert(commands@[k] == command);
                    }
                }
            }
        }
        commands
    }
}

/// What happens to the table of buffers: one arrives, one more packet
/// shares one, one packet lets go of one.
#[derive(Clone, Copy, Debug, PartialEq, Eq, Structural)]
pub enum BufferOp {
    Adopt(usize),
    Share(usize),
    Release(usize),
}

/// Whether `op` may happen where `held` are the buffers in the table.
pub open spec fn accepts_buffer_op(held: Map<usize, usize>, op: BufferOp) -> bool {
    match op {
        BufferOp::Adopt(address) => !held.contains_key(address),
        BufferOp::Share(address) => held.contains_key(address) && held[address] < usize::MAX,
        BufferOp::Release(address) => held.contains_key(address) && held[address] > 0,
    }
}

/// The buffers in the table after `op`.
pub open spec fn held_after_op(held: Map<usize, usize>, op: BufferOp) -> Map<usize, usize> {
    match op {
        BufferOp::Adopt(address) => held.insert(address, 1),
        BufferOp::Share(address) => held.insert(address, (held[address] + 1) as usize),
        BufferOp::Release(address) => if held[address] == 1 {
            held.remove(address)
        } else {
            held.insert(address, (held[address] - 1) as usize)
        },
    }
}

/// The buffers in the table after `ops`, from the empty table on, if each
/// of them may happen when it does.
pub open spec fn held_after_ops(ops: Seq<BufferOp>) -> Option<Map<usize, usize>>
    decreases ops.len(),
{
    if ops.len() == 0 {
        Some(Map::empty())
    } else {
        match held_after_ops(ops.drop_last()) {
            Some(held) => if accepts_buffer_op(held, ops.last()) {
                Some(held_after_op(held, ops.last()))
            } else {
                None
            },
            None => None,
        }
    }
}

/// Number of times that the buffer at `address` arrived in the course of
/// `ops`.
pub open spec fn arrivals(ops: Seq<BufferOp>, address: usize) -> nat
    decreases ops.len(),
{
    if ops.len() == 0 {
        0
    } else {
        arrivals(ops.drop_last(), address) + if ops.last() == BufferOp::Adopt(address) {
            1nat
        } else {
            0nat
        }
    }
}

/// Number of commands that gave the buffer at `address` back in the course
/// of `ops`: one for each letting go that was the last.
pub open spec fn frees(ops: Seq<BufferOp>, address: usize) -> nat
    decreases ops.len(),
{
    if ops.len() == 0 {
        0
    } else {
        frees(ops.drop_last(), address) + if ops.last() == BufferOp::Release(address)
            && held_after_ops(ops.drop_last()) is Some && held_after_ops(
            ops.drop_last(),
        ).unwrap()[address] == 1 {
            1nat
        } else {
            0nat
        }
    }
}

/// In any course of arrivals, sharings and lettings go that the table
/// admits, each buffer was given back as often as it arrived, but for the
/// one time that is still due where the buffer is in the table. Emptying
/// the table gives back each buffer in it once, so that in the end every
/// buffer was given back exactly as often as it arrived.
pub proof fn lemma_buffers_freed_once(ops: Seq<BufferOp>, address: usize)
    requires
        held_after_ops(ops) is Some,
    ensures
        arrivals(ops, address) == frees(ops, address) + if held_after_ops(
            ops,
        ).unwrap().contains_key(address) {
            1nat
        } else {
            0nat
        },
    decreases ops.len(),
{
    if ops.len() > 0 {
        lemma_buffers_freed_once(ops.drop_last(), address);
    }
}

} // verus!
