//! Object references as the kernel sees them: a four-field record that names
//! either an object of this process or a handle to an object of another.

use crate::bytes::{
    decode_nat, encode_nat, get_uint, get_uint_at, get_word_at, lemma_decode_encode_nat,
    lemma_encode_decode_nat, lemma_radix_pow_values, native_order, put_uint, put_word, put_zeros,
    word_bytes, word_size, zeros, ByteOrder,
};
use vstd::prelude::*;

verus! {

/// Last character of every object kind.
pub const TYPE_LARGE: u8 = 0x85;

/// Kind of a strong reference to an object of this process.
pub const BINDER: u32 = 0x7362_2a85;

/// Kind of a weak reference to an object of this process.
pub const WEAK_BINDER: u32 = 0x7762_2a85;

/// Kind of a strong handle to an object of another process.
pub const HANDLE: u32 = 0x7368_2a85;

/// Kind of a weak handle to an object of another process.
pub const WEAK_HANDLE: u32 = 0x7768_2a85;

/// Kind of a file descriptor.
pub const FD: u32 = 0x6664_2a85;

/// Kind of a file descriptor array.
pub const FDA: u32 = 0x6664_6185;

/// Kind of a byte buffer.
pub const PTR: u32 = 0x7074_2a85;

/// Four characters as one number, the first in the highest byte.
pub open spec fn spec_pack_chars(c1: u8, c2: u8, c3: u8, c4: u8) -> u32 {
    (c1 * 0x100_0000 + c2 * 0x1_0000 + c3 * 0x100 + c4) as u32
}

/// Four characters as one number, the first in the highest byte.
pub fn pack_chars(c1: u8, c2: u8, c3: u8, c4: u8) -> (r: u32)
    ensures
        r == spec_pack_chars(c1, c2, c3, c4),
{
    c1 as u32 * 0x100_0000 + c2 as u32 * 0x1_0000 + c3 as u32 * 0x100 + c4 as u32
}

/// The kinds are the packed characters `sb*`, `wb*`, `sh*`, `wh*`, `fd*`,
/// `fda` and `pt*`, each closed by [`TYPE_LARGE`].
pub proof fn lemma_kind_characters()
    ensures
        BINDER == spec_pack_chars(0x73, 0x62, 0x2a, TYPE_LARGE),
        WEAK_BINDER == spec_pack_chars(0x77, 0x62, 0x2a, TYPE_LARGE),
        HANDLE == spec_pack_chars(0x73, 0x68, 0x2a, TYPE_LARGE),
        WEAK_HANDLE == spec_pack_chars(0x77, 0x68, 0x2a, TYPE_LARGE),
        FD == spec_pack_chars(0x66, 0x64, 0x2a, TYPE_LARGE),
        FDA == spec_pack_chars(0x66, 0x64, 0x61, TYPE_LARGE),
        PTR == spec_pack_chars(0x70, 0x74, 0x2a, TYPE_LARGE),
{
}

/// What an object header announces.
#[derive(Clone, Copy, Debug, PartialEq, Eq, Structural)]
pub enum Type {
    RemoteReference,
    LocalReference,
    WeakRemoteReference,
    WeakLocalReference,
    FileDescriptor,
    FileDescriptorArray,
    ByteBuffer,
}

/// Number of bytes of an object header.
pub open spec fn header_size() -> nat {
    4
}

/// Number of bytes of a reference with its header.
pub open spec fn object_ref_size() -> nat {
    8 + 2 * word_size()
}

/// The type that the kind code `kind` stands for.
pub open spec fn type_of_kind(kind: u32) -> Option<Type> {
    if kind == BINDER {
        Some(Type::LocalReference)
    } else if kind == HANDLE {
        Some(Type::RemoteReference)
    } else if kind == WEAK_BINDER {
        Some(Type::WeakLocalReference)
    } else if kind == WEAK_HANDLE {
        Some(Type::WeakRemoteReference)
    } else if kind == FD {
        Some(Type::FileDescriptor)
    } else if kind == FDA {
        Some(Type::FileDescriptorArray)
    } else if kind == PTR {
        Some(Type::ByteBuffer)
    } else {
        None
    }
}

/// The type that a header of four bytes announces.
pub open spec fn type_of_header(order: ByteOrder, header: Seq<u8>) -> Option<Type> {
    type_of_kind(decode_nat(order, header) as u32)
}

impl Type {
    /// The kind code of the type.
    pub open spec fn spec_kind(self) -> u32 {
        match self {
            Type::LocalReference => BINDER,
            Type::RemoteReference => HANDLE,
            Type::WeakLocalReference => WEAK_BINDER,
            Type::WeakRemoteReference => WEAK_HANDLE,
            Type::FileDescriptor => FD,
            Type::FileDescriptorArray => FDA,
            Type::ByteBuffer => PTR,
        }
    }

    /// Whether the type is one of the two strong references.
    pub open spec fn is_reference(self) -> bool {
        self == Type::LocalReference || self == Type::RemoteReference
    }

    /// The kind code of the type.
    pub fn kind(&self) -> (k: u32)
        ensures
            k == self.spec_kind(),
            type_of_kind(k) == Some(*self),
    {
        match self {
            Type::LocalReference => BINDER,
            Type::RemoteReference => HANDLE,
            Type::WeakLocalReference => WEAK_BINDER,
            Type::WeakRemoteReference => WEAK_HANDLE,
            Type::FileDescriptor => FD,
            Type::FileDescriptorArray => FDA,
            Type::ByteBuffer => PTR,
        }
    }

    /// The type that the kind code stands for, if any.
    pub fn from_kind(kind: u32) -> (r: Option<Type>)
        ensures
            r == type_of_kind(kind),
    {
        if kind == BINDER {
            Some(Type::LocalReference)
        } else if kind == HANDLE {
            Some(Type::RemoteReference)
        } else if kind == WEAK_BINDER {
            Some(Type::WeakLocalReference)
        } else if kind == WEAK_HANDLE {
            Some(Type::WeakRemoteReference)
        } else if kind == FD {
            Some(Type::FileDescriptor)
        } else if kind == FDA {
            Some(Type::FileDescriptorArray)
        } else if kind == PTR {
            Some(Type::ByteBuffer)
        } else {
            None
        }
    }

    /// Number of bytes of an object header.
    pub fn bytes_needed() -> (n: usize)
        ensures
            n == header_size(),
    {
        4
    }

    /// Number of bytes that an object of this type takes, header included.
    /// Only the two strong references have a size here.
    pub fn type_size_with_header(&self) -> (n: usize)
        requires
            self.is_reference(),
        ensures
            n == object_ref_size(),
    {
        8 + 2 * word_bytes()
    }

    /// The type that a header announces, or an error where its kind is none
    /// of the known ones.
    pub fn try_from_bytes(bytes: &[u8]) -> (r: Result<Type, ()>)
        requires
            bytes@.len() == header_size(),
        ensures
            match type_of_header(native_order(), bytes@) {
                Some(t) => r == Ok::<Type, ()>(t),
                None => r is Err,
            },
    {
        let kind = get_uint(bytes, ByteOrder::native());
        proof {
            lemma_encode_decode_nat(native_order(), bytes@);
            lemma_radix_pow_values();
        }
        match Type::from_kind(kind as u32) {
            Some(t) => Ok(t),
            None => Err(()),
        }
    }

    /// The type that a header of a known kind announces.
    pub fn from_bytes(bytes: &[u8]) -> (t: Type)
        requires
            bytes@.len() == header_size(),
            type_of_header(native_order(), bytes@) is Some,
        ensures
            Some(t) == type_of_header(native_order(), bytes@),
    {
        match Type::try_from_bytes(bytes) {
            Ok(t) => t,
            Err(_) => {
                proof {
                    assert(false);
                }
                Type::ByteBuffer
            },
        }
    }
}

/// A reference to an object of this process: two words that the kernel
/// hands back untouched.
#[derive(Clone, Copy, Debug, PartialEq, Eq, Hash, Structural)]
pub struct ObjectRefLocal {
    pub data: usize,
    pub extra_data: usize,
}

/// A reference to an object of another process: the handle that the kernel
/// gave it.
#[derive(Clone, Copy, Debug, PartialEq, Eq, Hash, Structural)]
pub struct ObjectRefRemote {
    pub data_handle: u32,
}

/// A reference to an object, of this process or of another.
#[derive(Clone, Copy, Debug, PartialEq, Eq, Hash, Structural)]
pub enum ObjectRef {
    Local(ObjectRefLocal),
    Remote(ObjectRefRemote),
}

/// The third field of the record: a word for a local object, a handle in
/// the first four bytes of the word for a remote one.
#[derive(Clone, Copy, Debug, PartialEq, Eq, Structural)]
pub enum BinderOrHandle {
    Binder(usize),
    Handle(u32),
}

/// The record that stands for a reference on the wire.
#[derive(Clone, Copy, Debug, PartialEq, Eq, Structural)]
pub struct ObjectRefRaw {
    pub kind: u32,
    pub flags: u32,
    pub binder_or_handle: BinderOrHandle,
    pub extra_data: usize,
}

/// The handle of the context manager.
pub const CONTEXT_MANAGER_HANDLE: u32 = 0;

impl BinderOrHandle {
    /// The bytes of the field.
    pub open spec fn spec_bytes(self, order: ByteOrder) -> Seq<u8> {
        match self {
            BinderOrHandle::Binder(word) => encode_nat(order, word as nat, word_size()),
            BinderOrHandle::Handle(handle) => encode_nat(order, handle as nat, 4) + zeros(
                (word_size() - 4) as nat,
            ),
        }
    }
}

impl ObjectRefRaw {
    /// The bytes of the record.
    pub open spec fn spec_bytes(self, order: ByteOrder) -> Seq<u8> {
        encode_nat(order, self.kind as nat, 4) + encode_nat(order, self.flags as nat, 4)
            + self.binder_or_handle.spec_bytes(order) + encode_nat(
            order,
            self.extra_data as nat,
            word_size(),
        )
    }

    /// Appends the bytes of the record to `buf`.
    pub fn append_to(&self, buf: &mut Vec<u8>, order: ByteOrder)
        ensures
            final(buf)@ == old(buf)@ + self.spec_bytes(order),
    {
        proof {
            lemma_radix_pow_values();
        }
        put_uint(buf, order, self.kind as u64, 4);
        put_uint(buf, order, self.flags as u64, 4);
        match self.binder_or_handle {
            BinderOrHandle::Binder(word) => {
                put_word(buf, order, word);
            },
            BinderOrHandle::Handle(handle) => {
                put_uint(buf, order, handle as u64, 4);
                put_zeros(buf, word_bytes() - 4);
            },
        }
        put_word(buf, order, self.extra_data);
        assert(buf@ =~= old(buf)@ + self.spec_bytes(order));
    }
}

impl ObjectRefLocal {
    /// The record of a strong reference to the object.
    pub open spec fn spec_raw(self) -> ObjectRefRaw {
        ObjectRefRaw {
            kind: BINDER,
            flags: 0,
            binder_or_handle: BinderOrHandle::Binder(self.data),
            extra_data: self.extra_data,
        }
    }

    /// The record of a strong reference to the object.
    pub fn into_raw(&self) -> (raw: ObjectRefRaw)
        ensures
            raw == self.spec_raw(),
    {
        ObjectRefRaw {
            kind: BINDER,
            flags: 0,
            binder_or_handle: BinderOrHandle::Binder(self.data),
            extra_data: self.extra_data,
        }
    }
}

impl ObjectRefRemote {
    /// The record of a strong handle to the object.
    pub open spec fn spec_raw(self) -> ObjectRefRaw {
        ObjectRefRaw {
            kind: HANDLE,
            flags: 0,
            binder_or_handle: BinderOrHandle::Handle(self.data_handle),
            extra_data: 0,
        }
    }

    /// The record of a strong handle to the object.
    pub fn into_raw(&self) -> (raw: ObjectRefRaw)
        ensures
            raw == self.spec_raw(),
    {
        ObjectRefRaw {
            kind: HANDLE,
            flags: 0,
            binder_or_handle: BinderOrHandle::Handle(self.data_handle),
            extra_data: 0,
        }
    }

    /// The reference to the context manager.
    pub fn context_manager() -> (r: ObjectRefRemote)
        ensures
            r.data_handle == CONTEXT_MANAGER_HANDLE,
    {
        ObjectRefRemote { data_handle: CONTEXT_MANAGER_HANDLE }
    }
}

/// The reference that a record of `object_ref_size()` bytes holds, if its
/// kind is one of the two strong references.
pub open spec fn parse_object_ref(order: ByteOrder, bytes: Seq<u8>) -> Option<ObjectRef> {
    let w = word_size() as int;
    let kind = decode_nat(order, bytes.subrange(0, 4)) as u32;
    if bytes.len() != object_ref_size() {
        None
    } else if kind == BINDER {
        Some(
            ObjectRef::Local(
                ObjectRefLocal {
                    data: decode_nat(order, bytes.subrange(8, 8 + w)) as usize,
                    extra_data: decode_nat(order, bytes.subrange(8 + w, 8 + 2 * w)) as usize,
                },
            ),
        )
    } else if kind == HANDLE {
        Some(
            ObjectRef::Remote(
                ObjectRefRemote { data_handle: decode_nat(order, bytes.subrange(8, 12)) as u32 },
            ),
        )
    } else {
        None
    }
}

impl ObjectRef {
    /// The record of a strong reference to the object.
    pub open spec fn spec_raw(self) -> ObjectRefRaw {
        match self {
            ObjectRef::Local(local) => local.spec_raw(),
            ObjectRef::Remote(remote) => remote.spec_raw(),
        }
    }

    /// The bytes of the reference on the wire.
    pub open spec fn spec_bytes(self, order: ByteOrder) -> Seq<u8> {
        self.spec_raw().spec_bytes(order)
    }

    /// The record of a strong reference to the object.
    pub fn into_raw(&self) -> (raw: ObjectRefRaw)
        ensures
            raw == self.spec_raw(),
    {
        match self {
            ObjectRef::Local(local) => local.into_raw(),
            ObjectRef::Remote(remote) => remote.into_raw(),
        }
    }

    /// The bytes of the reference on the wire, in the machine's byte order.
    pub fn to_bytes(&self) -> (bytes: Vec<u8>)
        ensures
            bytes@ == self.spec_bytes(native_order()),
            bytes@.len() == object_ref_size(),
    {
        let mut bytes: Vec<u8> = Vec::new();
        self.into_raw().append_to(&mut bytes, ByteOrder::native());
        proof {
            lemma_object_ref_roundtrip(native_order(), *self);
            assert(bytes@ =~= self.spec_bytes(native_order()));
        }
        bytes
    }

    /// Hands the bytes of the reference on the wire to `func` and returns
    /// what it returns.
    pub fn with_raw_bytes<R, F: FnOnce(&[u8]) -> R>(&self, func: F) -> (r: R)
        requires
            forall|bytes: &[u8]|
                bytes@ == self.spec_bytes(native_order()) ==> call_requires(func, (bytes,)),
        ensures
            exists|bytes: &[u8]|
                bytes@ == self.spec_bytes(native_order()) && call_ensures(func, (bytes,), r),
    {
        let bytes = self.to_bytes();
        func(bytes.as_slice())
    }

    /// The reference that `bytes` hold: an error where they are not one
    /// record long or the kind is not a strong reference.
    pub fn try_from_bytes(bytes: &[u8]) -> (r: Result<ObjectRef, ()>)
        ensures
            match parse_object_ref(native_order(), bytes@) {
                Some(reference) => r == Ok::<ObjectRef, ()>(reference),
                None => r is Err,
            },
    {
        let order = ByteOrder::native();
        let w = word_bytes();
        if bytes.len() != 8 + 2 * w {
            return Err(());
        }
        proof {
            lemma_radix_pow_values();
        }
        let kind = get_uint_at(bytes, 0, 4, order) as u32;
        if kind == BINDER {
            let data = get_word_at(bytes, 8, order);
            let extra_data = get_word_at(bytes, 8 + w, order);
            Ok(ObjectRef::Local(ObjectRefLocal { data, extra_data }))
        } else if kind == HANDLE {
            let data_handle = get_uint_at(bytes, 8, 4, order) as u32;
            Ok(ObjectRef::Remote(ObjectRefRemote { data_handle }))
        } else {
            Err(())
        }
    }
}

/// A written reference is one record long and reads back as itself.
pub proof fn lemma_object_ref_roundtrip(order: ByteOrder, reference: ObjectRef)
    ensures
        reference.spec_bytes(order).len() == object_ref_size(),
        parse_object_ref(order, reference.spec_bytes(order)) == Some(reference),
{
    let w = word_size();
    let raw = reference.spec_raw();
    let bytes = reference.spec_bytes(order);
    let kind = encode_nat(order, raw.kind as nat, 4);
    let flags = encode_nat(order, raw.flags as nat, 4);
    let middle = raw.binder_or_handle.spec_bytes(order);
    let extra = encode_nat(order, raw.extra_data as nat, w);
    lemma_radix_pow_values();
    lemma_decode_encode_nat(order, raw.kind as nat, 4);
    lemma_decode_encode_nat(order, raw.flags as nat, 4);
    lemma_decode_encode_nat(order, raw.extra_data as nat, w);
    match reference {
        ObjectRef::Local(local) => {
            lemma_decode_encode_nat(order, local.data as nat, w);
            assert(middle.len() == w);
            assert(bytes.subrange(8, 8 + w as int) =~= middle);
        },
        ObjectRef::Remote(remote) => {
            lemma_decode_encode_nat(order, remote.data_handle as nat, 4);
            assert(middle.len() == w);
            assert(bytes.subrange(8, 12) =~= encode_nat(order, remote.data_handle as nat, 4));
        },
    }
    assert(bytes.subrange(0, 4) =~= kind);
    assert(bytes.subrange(8 + w as int, 8 + 2 * w as int) =~= extra);
}

/// One flag of an object reference. The eight priority bits together are
/// a number: the scheduling priority that is asked for, zero the highest.
#[derive(Clone, Copy, Debug, PartialEq, Eq, Structural)]
pub enum ObjectRefFlags {
    AcceptFds,
    SendSecurityContext,
    PriorityBit0,
    PriorityBit1,
    PriorityBit2,
    PriorityBit3,
    PriorityBit4,
    PriorityBit5,
    PriorityBit6,
    PriorityBit7,
}

/// A set of flags of an object reference.
#[derive(Clone, Copy, Debug, PartialEq, Eq, Structural)]
pub struct ObjectRefFlagSet {
    /// The number that the priority bits make.
    pub priority: u8,
    pub accept_fds: bool,
    pub send_security_context: bool,
}

impl ObjectRefFlags {
    /// The bit of the flag in the record.
    pub open spec fn spec_bit(self) -> u32 {
        match self {
            ObjectRefFlags::AcceptFds => 0x100,
            ObjectRefFlags::SendSecurityContext => 0x1000,
            ObjectRefFlags::PriorityBit0 => 0x01,
            ObjectRefFlags::PriorityBit1 => 0x02,
            ObjectRefFlags::PriorityBit2 => 0x04,
            ObjectRefFlags::PriorityBit3 => 0x08,
            ObjectRefFlags::PriorityBit4 => 0x10,
            ObjectRefFlags::PriorityBit5 => 0x20,
            ObjectRefFlags::PriorityBit6 => 0x40,
            ObjectRefFlags::PriorityBit7 => 0x80,
        }
    }

    /// The bit of the flag in the record.
    pub fn bit(self) -> (bit: u32)
        ensures
            bit == self.spec_bit(),
    {
        match self {
            ObjectRefFlags::AcceptFds => 0x100,
            ObjectRefFlags::SendSecurityContext => 0x1000,
            ObjectRefFlags::PriorityBit0 => 0x01,
            ObjectRefFlags::PriorityBit1 => 0x02,
            ObjectRefFlags::PriorityBit2 => 0x04,
            ObjectRefFlags::PriorityBit3 => 0x08,
            ObjectRefFlags::PriorityBit4 => 0x10,
            ObjectRefFlags::PriorityBit5 => 0x20,
            ObjectRefFlags::PriorityBit6 => 0x40,
            ObjectRefFlags::PriorityBit7 => 0x80,
        }
    }

    /// The priority that the set asks for.
    pub fn get_priority(obj: ObjectRefFlagSet) -> (priority: u8)
        ensures
            priority == obj.priority,
            priority == obj.spec_bits() % 0x100,
    {
        obj.priority
    }

    /// The set that asks for `priority` and for nothing else.
    pub fn from_priority_bits(priority: u8) -> (set: ObjectRefFlagSet)
        ensures
            set == (ObjectRefFlagSet {
                priority,
                accept_fds: false,
                send_security_context: false,
            }),
            set.spec_bits() == priority,
    {
        ObjectRefFlagSet { priority, accept_fds: false, send_security_context: false }
    }
}

impl ObjectRefFlagSet {
    /// The bits of the set in the record.
    pub open spec fn spec_bits(self) -> u32 {
        (self.priority + (if self.accept_fds {
            0x100int
        } else {
            0
        }) + (if self.send_security_context {
            0x1000int
        } else {
            0
        })) as u32
    }

    /// Whether `flag` is in the set.
    pub open spec fn spec_contains(self, flag: ObjectRefFlags) -> bool {
        match flag {
            ObjectRefFlags::AcceptFds => self.accept_fds,
            ObjectRefFlags::SendSecurityContext => self.send_security_context,
            _ => (self.priority as int / flag.spec_bit() as int) % 2 == 1,
        }
    }

    /// The bits of the set in the record.
    pub fn bits(&self) -> (bits: u32)
        ensures
            bits == self.spec_bits(),
    {
        let mut bits: u32 = self.priority as u32;
        if self.accept_fds {
            bits = bits + 0x100;
        }
        if self.send_security_context {
            bits = bits + 0x1000;
        }
        bits
    }

    /// Whether `flag` is in the set.
    pub fn contains(&self, flag: ObjectRefFlags) -> (yes: bool)
        ensures
            yes == self.spec_contains(flag),
    {
        match flag {
            ObjectRefFlags::AcceptFds => self.accept_fds,
            ObjectRefFlags::SendSecurityContext => self.send_security_context,
            _ => (self.priority as u32 / flag.bit()) % 2 == 1,
        }
    }
}

} // verus!
