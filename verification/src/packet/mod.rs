//! Packets: the payload of a transaction or of a reply, with the table that
//! says where in the payload object references stand.

use crate::bytes::{native_order, word_bytes, word_size, ByteOrder};
use crate::formats::dead_simple::{enc_reference, padding};
use crate::object::{object_ref_size, parse_object_ref, ObjectRef};
use crate::transaction::{TransactionData, TransactionFlags};
use vstd::prelude::*;

pub mod builder;
pub mod reader;
pub mod writer;

verus! {

/// Whether entry `i` of the table `offsets` names a place in `data` that is
/// aligned to four bytes, holds a whole reference that reads back, and ends
/// before the next entry begins.
pub open spec fn reference_at(
    order: ByteOrder,
    data: Seq<u8>,
    offsets: Seq<usize>,
    i: int,
) -> bool {
    &&& offsets[i] % 4 == 0
    &&& offsets[i] + object_ref_size() <= data.len()
    &&& i + 1 < offsets.len() ==> offsets[i] + object_ref_size() <= offsets[i + 1]
    &&& parse_object_ref(
        order,
        data.subrange(offsets[i] as int, offsets[i] + object_ref_size()),
    ) is Some
}

/// Whether `offsets` is a table of the references in `data`: ascending,
/// each entry aligned, each naming a well-formed reference, none running
/// into the next.
pub open spec fn references_well_formed(
    order: ByteOrder,
    data: Seq<u8>,
    offsets: Seq<usize>,
) -> bool {
    forall|i: int| 0 <= i < offsets.len() ==> #[trigger] reference_at(order, data, offsets, i)
}

/// The reference that entry `i` of the table names.
pub open spec fn reference_of(
    order: ByteOrder,
    data: Seq<u8>,
    offsets: Seq<usize>,
    i: int,
) -> ObjectRef {
    parse_object_ref(
        order,
        data.subrange(offsets[i] as int, offsets[i] + object_ref_size()),
    ).unwrap()
}

/// The offsets of a well-formed table grow by at least one reference from
/// entry to entry.
pub proof fn lemma_offsets_ascending(
    order: ByteOrder,
    data: Seq<u8>,
    offsets: Seq<usize>,
    i: int,
    j: int,
)
    requires
        references_well_formed(order, data, offsets),
        0 <= i <= j < offsets.len(),
    ensures
        offsets[i] + (j - i) * object_ref_size() <= offsets[j],
    decreases j - i,
{
    if i < j {
        lemma_offsets_ascending(order, data, offsets, i, j - 1);
        assert(reference_at(order, data, offsets, j - 1));
        assert((j - i) * object_ref_size() == (j - 1 - i) * object_ref_size()
            + object_ref_size()) by (nonlinear_arith);
    } else {
        assert((j - i) * object_ref_size() == 0) by (nonlinear_arith)
            requires
                j - i == 0,
        ;
    }
}

/// The offsets of a well-formed table are strictly ascending and aligned
/// to four bytes.
pub proof fn lemma_offsets_strictly_ascending(
    order: ByteOrder,
    data: Seq<u8>,
    offsets: Seq<usize>,
)
    requires
        references_well_formed(order, data, offsets),
    ensures
        forall|i: int, j: int| 0 <= i < j < offsets.len() ==> offsets[i] < offsets[j],
        forall|i: int| 0 <= i < offsets.len() ==> offsets[i] % 4 == 0,
{
    assert forall|i: int, j: int| 0 <= i < j < offsets.len() implies offsets[i] < offsets[j] by {
        lemma_offsets_ascending(order, data, offsets, i, j);
        assert((j - i) * object_ref_size() >= object_ref_size()) by (nonlinear_arith)
            requires
                j - i >= 1,
                object_ref_size() >= 0,
        ;
    }
    assert forall|i: int| 0 <= i < offsets.len() implies offsets[i] % 4 == 0 by {
        assert(reference_at(order, data, offsets, i));
    }
}

/// A packet that is well-formed has offsets that are strictly ascending
/// and aligned to four bytes, and at each of them a reference that reads
/// back.
pub proof fn lemma_packet_offsets(packet: PacketView)
    requires
        packet.wf(),
    ensures
        forall|i: int, j: int|
            0 <= i < j < packet.offsets.len() ==> packet.offsets[i] < packet.offsets[j],
        forall|i: int| 0 <= i < packet.offsets.len() ==> packet.offsets[i] % 4 == 0,
        forall|i: int|
            0 <= i < packet.offsets.len() ==> parse_object_ref(
                native_order(),
                packet.data.subrange(
                    packet.offsets[i] as int,
                    packet.offsets[i] + object_ref_size(),
                ),
            ) is Some,
{
    lemma_offsets_strictly_ascending(native_order(), packet.data, packet.offsets);
    assert forall|i: int| 0 <= i < packet.offsets.len() implies parse_object_ref(
        native_order(),
        packet.data.subrange(packet.offsets[i] as int, packet.offsets[i] + object_ref_size()),
    ) is Some by {
        assert(reference_at(native_order(), packet.data, packet.offsets, i));
    }
}

/// A well-formed table has no more entries than references fit in the data.
pub proof fn lemma_offsets_count(order: ByteOrder, data: Seq<u8>, offsets: Seq<usize>)
    requires
        references_well_formed(order, data, offsets),
    ensures
        offsets.len() * object_ref_size() <= data.len(),
{
    if offsets.len() > 0 {
        let last = offsets.len() - 1;
        lemma_offsets_ascending(order, data, offsets, 0, last);
        assert(reference_at(order, data, offsets, last));
        assert(offsets.len() * object_ref_size() == last * object_ref_size() + object_ref_size())
            by (nonlinear_arith)
            requires
                last == offsets.len() - 1,
        ;
    } else {
        assert(offsets.len() * object_ref_size() == 0) by (nonlinear_arith)
            requires
                offsets.len() == 0,
        ;
    }
}

/// Bytes added behind the data leave a table of references well-formed.
pub proof fn lemma_append_keeps_references(
    order: ByteOrder,
    data: Seq<u8>,
    offsets: Seq<usize>,
    more: Seq<u8>,
)
    requires
        references_well_formed(order, data, offsets),
    ensures
        references_well_formed(order, data + more, offsets),
        forall|i: int|
            0 <= i < offsets.len() ==> reference_of(order, data + more, offsets, i)
                == reference_of(order, data, offsets, i),
{
    assert forall|i: int| 0 <= i < offsets.len() implies #[trigger] reference_at(
        order,
        data + more,
        offsets,
        i,
    ) by {
        assert(reference_at(order, data, offsets, i));
        assert((data + more).subrange(offsets[i] as int, offsets[i] + object_ref_size())
            =~= data.subrange(offsets[i] as int, offsets[i] + object_ref_size()));
    }
    assert forall|i: int| 0 <= i < offsets.len() implies #[trigger] reference_of(
        order,
        data + more,
        offsets,
        i,
    ) == reference_of(order, data, offsets, i) by {
        assert(reference_at(order, data, offsets, i));
        assert((data + more).subrange(offsets[i] as int, offsets[i] + object_ref_size())
            =~= data.subrange(offsets[i] as int, offsets[i] + object_ref_size()));
    }
}

/// What a packet holds.
pub struct PacketView {
    pub code: u32,
    pub flags: TransactionFlags,
    pub target: ObjectRef,
    pub data: Seq<u8>,
    pub offsets: Seq<usize>,
}

/// The payload of a transaction or of a reply: a code, flags, the object it
/// is for, bytes, and the places in the bytes where references stand.
#[derive(Debug, PartialEq, Eq)]
pub struct Packet {
    code: u32,
    flags: TransactionFlags,
    target: ObjectRef,
    data: Vec<u8>,
    offsets: Vec<usize>,
}

/// What a builder has gathered so far.
pub struct BuilderView {
    pub code: Option<u32>,
    pub flags: Option<TransactionFlags>,
    pub target: Option<ObjectRef>,
    pub data: Seq<u8>,
    pub offsets: Seq<usize>,
}

/// Gathers the parts of a packet.
pub struct PacketBuilder {
    code: Option<u32>,
    flags: Option<TransactionFlags>,
    target: Option<ObjectRef>,
    data_buffer: Vec<u8>,
    offsets_buffer: Vec<usize>,
}

/// Why parts do not make a packet.
#[derive(Clone, Copy, Debug, PartialEq, Eq, Structural)]
pub enum PacketError {
    /// The table of offsets does not name well-formed references in
    /// ascending order.
    MalformedReferences,
    /// A flag bit is not the bit of a flag.
    UnknownFlags,
    /// The record announces other sizes than the parts have.
    SizeMismatch,
}

/// How sending a packet can end without a reply.
#[derive(Clone, Copy, Debug, PartialEq, Eq, Structural)]
pub enum PacketSendError {
    /// The transaction could not be delivered to the target.
    Failed,
    /// The kernel reported the error with this number.
    Error(i32),
    /// The transaction was delivered, and the target died before it replied.
    DeadTarget,
}

impl View for Packet {
    type V = PacketView;

    closed spec fn view(&self) -> PacketView {
        PacketView {
            code: self.code,
            flags: self.flags,
            target: self.target,
            data: self.data@,
            offsets: self.offsets@,
        }
    }
}

impl View for PacketBuilder {
    type V = BuilderView;

    closed spec fn view(&self) -> BuilderView {
        BuilderView {
            code: self.code,
            flags: self.flags,
            target: self.target,
            data: self.data_buffer@,
            offsets: self.offsets_buffer@,
        }
    }
}

impl PacketView {
    /// Whether the table of offsets names well-formed references.
    pub open spec fn wf(self) -> bool {
        references_well_formed(native_order(), self.data, self.offsets)
    }

    /// The references of the packet, each with its offset, in order.
    pub open spec fn references(self) -> Seq<(usize, ObjectRef)> {
        Seq::new(
            self.offsets.len(),
            |i: int| (self.offsets[i], reference_of(native_order(), self.data, self.offsets, i)),
        )
    }
}

impl BuilderView {
    /// Whether the table of offsets names well-formed references.
    pub open spec fn wf(self) -> bool {
        references_well_formed(native_order(), self.data, self.offsets)
    }

    /// The builder with `bytes` behind its data.
    pub open spec fn appended(self, bytes: Seq<u8>) -> BuilderView {
        BuilderView { data: self.data + bytes, ..self }
    }

    /// The builder with `reference` behind its data, at the next multiple
    /// of four, and the place of the reference behind its table of offsets.
    pub open spec fn with_reference(self, reference: ObjectRef) -> BuilderView {
        BuilderView {
            data: self.data + enc_reference(native_order(), self.data.len() as int, reference),
            offsets: self.offsets.push(
                (self.data.len() + padding(self.data.len() as int)) as usize,
            ),
            ..self
        }
    }

    /// The builder with nothing gathered.
    pub open spec fn empty() -> BuilderView {
        BuilderView {
            code: None,
            flags: None,
            target: None,
            data: Seq::empty(),
            offsets: Seq::empty(),
        }
    }
}

/// Whether the first `n` entries of the table are in order, aligned and
/// name well-formed references.
pub open spec fn references_checked(
    order: ByteOrder,
    data: Seq<u8>,
    offsets: Seq<usize>,
    n: int,
) -> bool {
    forall|i: int| 0 <= i < n ==> #[trigger] reference_at(order, data, offsets, i)
}

/// Whether `offsets` is a table of the references in `data`.
pub fn check_references(data: &[u8], offsets: &[usize]) -> (ok: bool)
    ensures
        ok == references_well_formed(native_order(), data@, offsets@),
{
    let size = 8 + 2 * word_bytes();
    let count = offsets.len();
    let len = data.len();
    let mut i: usize = 0;
    while i < count
        invariant
            i <= count,
            count == offsets@.len(),
            len == data@.len(),
            size == object_ref_size(),
            references_checked(native_order(), data@, offsets@, i as int),
        decreases count - i,
    {
        let at = offsets[i];
        let fits = at % 4 == 0 && at <= len && len - at >= size;
        let before_next = fits && (i + 1 >= count || offsets[i + 1] >= at + size);
        if !before_next {
            assert(!reference_at(native_order(), data@, offsets@, i as int));
            return false;
        }
        let record = vstd::slice::slice_subrange(data, at, at + size);
        match ObjectRef::try_from_bytes(record) {
            Ok(_) => {},
            Err(_) => {
                assert(!reference_at(native_order(), data@, offsets@, i as int));
                return false;
            },
        }
        assert(reference_at(native_order(), data@, offsets@, i as int));
        i = i + 1;
    }
    true
}

impl Packet {
    /// Whether the table of offsets names well-formed references.
    pub open spec fn wf(&self) -> bool {
        self@.wf()
    }

    /// A packet of the given parts: an error where `offsets` is not a table
    /// of the references in `data`.
    pub fn from_parts(
        code: u32,
        flags: TransactionFlags,
        target: ObjectRef,
        data: Vec<u8>,
        offsets: Vec<usize>,
    ) -> (r: Result<Packet, PacketError>)
        ensures
            match r {
                Ok(packet) => packet.wf() && packet@ == (PacketView {
                    code,
                    flags,
                    target,
                    data: data@,
                    offsets: offsets@,
                }),
                Err(error) => error == PacketError::MalformedReferences
                    && !references_well_formed(native_order(), data@, offsets@),
            },
    {
        if check_references(data.as_slice(), offsets.as_slice()) {
            Ok(Packet { code, flags, target, data, offsets })
        } else {
            Err(PacketError::MalformedReferences)
        }
    }

    /// The packet that arrived with `record`, whose payload is `data` and
    /// whose table of offsets is `offsets`. The flags of the record must be
    /// known ones, its sizes those of the parts, and the table well-formed.
    pub fn from_record(record: &TransactionData, data: Vec<u8>, offsets: Vec<usize>) -> (r: Result<
        Packet,
        PacketError,
    >)
        ensures
            match r {
                Ok(packet) => {
                    &&& packet.wf()
                    &&& TransactionFlags::spec_from_bits(record.flags) == Some(packet@.flags)
                    &&& record.data_size == data@.len()
                    &&& record.offsets_size == offsets@.len() * word_size()
                    &&& packet@ == (PacketView {
                        code: record.code,
                        flags: packet@.flags,
                        target: record.target,
                        data: data@,
                        offsets: offsets@,
                    })
                },
                Err(PacketError::UnknownFlags) => TransactionFlags::spec_from_bits(record.flags)
                    is None,
                Err(PacketError::SizeMismatch) => {
                    &&& TransactionFlags::spec_from_bits(record.flags) is Some
                    &&& (record.data_size != data@.len() || record.offsets_size != offsets@.len()
                        * word_size())
                },
                Err(PacketError::MalformedReferences) => {
                    &&& TransactionFlags::spec_from_bits(record.flags) is Some
                    &&& record.data_size == data@.len()
                    &&& record.offsets_size == offsets@.len() * word_size()
                    &&& !references_well_formed(native_order(), data@, offsets@)
                },
            },
    {
        let flags = match TransactionFlags::from_bits(record.flags) {
            Some(flags) => flags,
            None => {
                return Err(PacketError::UnknownFlags);
            },
        };
        let w = word_bytes();
        if record.data_size != data.len() || record.offsets_size % w != 0 || record.offsets_size
            / w != offsets.len() {
            return Err(PacketError::SizeMismatch);
        }
        Packet::from_parts(record.code, flags, record.target, data, offsets)
    }

    /// Whether the table of offsets names well-formed references.
    pub fn is_well_formed(&self) -> (ok: bool)
        ensures
            ok == self.wf(),
    {
        check_references(self.data.as_slice(), self.offsets.as_slice())
    }

    /// The code of the packet.
    pub fn get_code(&self) -> (code: u32)
        ensures
            code == self@.code,
    {
        self.code
    }

    /// The flags of the packet.
    pub fn get_flags(&self) -> (flags: TransactionFlags)
        ensures
            flags == self@.flags,
    {
        self.flags
    }

    /// The object that the packet is for.
    pub fn get_target(&self) -> (target: ObjectRef)
        ensures
            target == self@.target,
    {
        self.target
    }

    /// The payload.
    pub fn get_data(&self) -> (data: &[u8])
        ensures
            data@ == self@.data,
    {
        self.data.as_slice()
    }

    /// The places in the payload where references stand.
    pub fn get_offsets(&self) -> (offsets: &[usize])
        ensures
            offsets@ == self@.offsets,
    {
        self.offsets.as_slice()
    }

    /// Gives the packet another code.
    pub fn set_code(&mut self, code: u32)
        ensures
            final(self)@ == (PacketView { code, ..old(self)@ }),
    {
        self.code = code;
    }

    /// Gives the packet other flags.
    pub fn set_flags(&mut self, flags: TransactionFlags)
        ensures
            final(self)@ == (PacketView { flags, ..old(self)@ }),
    {
        self.flags = flags;
    }

    /// Names another object that the packet is for.
    pub fn set_target(&mut self, target: ObjectRef)
        ensures
            final(self)@ == (PacketView { target, ..old(self)@ }),
    {
        self.target = target;
    }

    /// The references of the packet, each with its offset, in the order of
    /// the table.
    pub fn iter_references(&self) -> (references: Vec<(usize, ObjectRef)>)
        requires
            self.wf(),
        ensures
            references@ == self@.references(),
    {
        let size = 8 + 2 * word_bytes();
        let count = self.offsets.len();
        let mut references: Vec<(usize, ObjectRef)> = Vec::new();
        let mut i: usize = 0;
        while i < count
            invariant
                i <= count,
                count == self.offsets@.len(),
                size == object_ref_size(),
                self.wf(),
                references@ == self@.references().take(i as int),
            decreases count - i,
        {
            let at = self.offsets[i];
            let len = self.data.len();
            assert(reference_at(native_order(), self.data@, self.offsets@, i as int));
            assert(at + size <= len);
            let record = vstd::slice::slice_subrange(self.data.as_slice(), at, at + size);
            match ObjectRef::try_from_bytes(record) {
                Ok(reference) => {
                    references.push((at, reference));
                },
                Err(_) => {
                    assert(false);
                },
            }
            assert(references@ =~= self@.references().take(i as int + 1));
            i = i + 1;
        }
        assert(self@.references().take(count as int) =~= self@.references());
        references
    }

    /// The record that announces the packet to the kernel, where the
    /// payload lies at the address `buffer` and the table of offsets at the
    /// address `offsets`.
    pub fn to_record(&self, buffer: usize, offsets: usize) -> (record: TransactionData)
        requires
            self.wf(),
        ensures
            record == (TransactionData {
                target: self@.target,
                code: self@.code,
                flags: self@.flags.spec_bits(),
                sender_pid: 0,
                sender_euid: 0,
                data_size: self@.data.len() as usize,
                offsets_size: (self@.offsets.len() * word_size()) as usize,
                buffer,
                offsets,
            }),
            self@.offsets.len() * word_size() <= usize::MAX,
    {
        proof {
            lemma_offsets_count(native_order(), self.data@, self.offsets@);
            assert(self@.offsets.len() * word_size() <= self@.offsets.len() * object_ref_size())
                by (nonlinear_arith)
                requires
                    word_size() <= object_ref_size(),
            ;
        }
        TransactionData {
            target: self.target,
            code: self.code,
            flags: self.flags.bits(),
            sender_pid: 0,
            sender_euid: 0,
            data_size: self.data.len(),
            offsets_size: self.offsets.len() * word_bytes(),
            buffer,
            offsets,
        }
    }

    /// A builder that holds what the packet holds.
    pub fn into_builder(self) -> (builder: PacketBuilder)
        ensures
            builder@ == (BuilderView {
                code: Some(self@.code),
                flags: Some(self@.flags),
                target: Some(self@.target),
                data: self@.data,
                offsets: self@.offsets,
            }),
    {
        PacketBuilder {
            code: Some(self.code),
            flags: Some(self.flags),
            target: Some(self.target),
            data_buffer: self.data,
            offsets_buffer: self.offsets,
        }
    }
}

impl Clone for Packet {
    /// A packet that holds what this one holds.
    fn clone(&self) -> (copy: Packet)
        ensures
            copy@ == self@,
    {
        let copy = Packet {
            code: self.code,
            flags: self.flags,
            target: self.target,
            data: self.data.clone(),
            offsets: self.offsets.clone(),
        };
        assert(copy.data@ =~= self.data@);
        assert(copy.offsets@ =~= self.offsets@);
        copy
    }
}

} // verus!
