//! The transaction record that travels with the send and reply commands and
//! with the transaction and reply returns, and the flags that it carries.

use crate::bytes::{
    decode_int, decode_nat, encode_int, encode_nat, get_uint_at, get_word_at,
    lemma_decode_encode_int, lemma_decode_encode_nat, lemma_four_parts, lemma_part_of_part,
    lemma_radix_pow_values, lemma_three_parts, native_order, put_uint, put_word, put_zeros,
    to_signed, to_unsigned, word_bytes, word_size, zeros, ByteOrder,
};
use crate::object::{ObjectRef, ObjectRefLocal, ObjectRefRemote};
use vstd::prelude::*;

verus! {

/// One flag of a transaction.
#[derive(Clone, Copy, Debug, PartialEq, Eq, Structural)]
pub enum TransactionFlag {
    /// No reply is expected.
    OneWay,
    RootObject,
    StatusCode,
    AcceptFds,
    ClearBuffer,
    UpdateTransaction,
}

impl TransactionFlag {
    /// The bit of the flag in the record.
    pub open spec fn spec_bit(self) -> u32 {
        match self {
            TransactionFlag::OneWay => 0x01,
            TransactionFlag::RootObject => 0x04,
            TransactionFlag::StatusCode => 0x08,
            TransactionFlag::AcceptFds => 0x10,
            TransactionFlag::ClearBuffer => 0x20,
            TransactionFlag::UpdateTransaction => 0x40,
        }
    }

    /// The bit of the flag in the record.
    pub fn bit(self) -> (b: u32)
        ensures
            b == self.spec_bit(),
    {
        match self {
            TransactionFlag::OneWay => 0x01,
            TransactionFlag::RootObject => 0x04,
            TransactionFlag::StatusCode => 0x08,
            TransactionFlag::AcceptFds => 0x10,
            TransactionFlag::ClearBuffer => 0x20,
            TransactionFlag::UpdateTransaction => 0x40,
        }
    }
}

/// A set of transaction flags.
#[derive(Clone, Copy, Debug, PartialEq, Eq, Structural)]
pub struct TransactionFlags {
    pub one_way: bool,
    pub root_object: bool,
    pub status_code: bool,
    pub accept_fds: bool,
    pub clear_buffer: bool,
    pub update_transaction: bool,
}

/// `bit` if `on`, else nothing.
pub open spec fn bit_if(on: bool, bit: u32) -> u32 {
    if on {
        bit
    } else {
        0
    }
}

impl TransactionFlags {
    /// Whether `flag` is in the set.
    pub open spec fn spec_contains(self, flag: TransactionFlag) -> bool {
        match flag {
            TransactionFlag::OneWay => self.one_way,
            TransactionFlag::RootObject => self.root_object,
            TransactionFlag::StatusCode => self.status_code,
            TransactionFlag::AcceptFds => self.accept_fds,
            TransactionFlag::ClearBuffer => self.clear_buffer,
            TransactionFlag::UpdateTransaction => self.update_transaction,
        }
    }

    /// The set without any flag.
    pub open spec fn spec_empty() -> TransactionFlags {
        TransactionFlags {
            one_way: false,
            root_object: false,
            status_code: false,
            accept_fds: false,
            clear_buffer: false,
            update_transaction: false,
        }
    }

    /// The set with `flag` added.
    pub open spec fn spec_with(self, flag: TransactionFlag) -> TransactionFlags {
        match flag {
            TransactionFlag::OneWay => TransactionFlags { one_way: true, ..self },
            TransactionFlag::RootObject => TransactionFlags { root_object: true, ..self },
            TransactionFlag::StatusCode => TransactionFlags { status_code: true, ..self },
            TransactionFlag::AcceptFds => TransactionFlags { accept_fds: true, ..self },
            TransactionFlag::ClearBuffer => TransactionFlags { clear_buffer: true, ..self },
            TransactionFlag::UpdateTransaction => TransactionFlags {
                update_transaction: true,
                ..self
            },
        }
    }

    /// The bits of the set in the record: the sum of the bits of its flags.
    pub open spec fn spec_bits(self) -> u32 {
        (bit_if(self.one_way, 0x01) + bit_if(self.root_object, 0x04) + bit_if(
            self.status_code,
            0x08,
        ) + bit_if(self.accept_fds, 0x10) + bit_if(self.clear_buffer, 0x20) + bit_if(
            self.update_transaction,
            0x40,
        )) as u32
    }

    /// Whether every bit of `bits` is the bit of a flag.
    pub open spec fn known_bits(bits: u32) -> bool {
        bits < 0x80 && (bits / 2) % 2 == 0
    }

    /// The set that `bits` stand for, if every bit is the bit of a flag.
    pub open spec fn spec_from_bits(bits: u32) -> Option<TransactionFlags> {
        if Self::known_bits(bits) {
            Some(
                TransactionFlags {
                    one_way: bits % 2 == 1,
                    root_object: (bits / 4) % 2 == 1,
                    status_code: (bits / 8) % 2 == 1,
                    accept_fds: (bits / 16) % 2 == 1,
                    clear_buffer: (bits / 32) % 2 == 1,
                    update_transaction: (bits / 64) % 2 == 1,
                },
            )
        } else {
            None
        }
    }

    /// The set without any flag.
    pub fn empty() -> (flags: TransactionFlags)
        ensures
            flags == Self::spec_empty(),
            flags.spec_bits() == 0,
    {
        TransactionFlags {
            one_way: false,
            root_object: false,
            status_code: false,
            accept_fds: false,
            clear_buffer: false,
            update_transaction: false,
        }
    }

    /// Whether `flag` is in the set.
    pub fn contains(&self, flag: TransactionFlag) -> (yes: bool)
        ensures
            yes == self.spec_contains(flag),
    {
        match flag {
            TransactionFlag::OneWay => self.one_way,
            TransactionFlag::RootObject => self.root_object,
            TransactionFlag::StatusCode => self.status_code,
            TransactionFlag::AcceptFds => self.accept_fds,
            TransactionFlag::ClearBuffer => self.clear_buffer,
            TransactionFlag::UpdateTransaction => self.update_transaction,
        }
    }

    /// The set with `flag` added.
    pub fn with(self, flag: TransactionFlag) -> (flags: TransactionFlags)
        ensures
            flags == self.spec_with(flag),
            flags.spec_contains(flag),
            forall|other: TransactionFlag|
                other != flag ==> flags.spec_contains(other) == self.spec_contains(other),
    {
        let mut flags = self;
        match flag {
            TransactionFlag::OneWay => {
                flags.one_way = true;
            },
            TransactionFlag::RootObject => {
                flags.root_object = true;
            },
            TransactionFlag::StatusCode => {
                flags.status_code = true;
            },
            TransactionFlag::AcceptFds => {
                flags.accept_fds = true;
            },
            TransactionFlag::ClearBuffer => {
                flags.clear_buffer = true;
            },
            TransactionFlag::UpdateTransaction => {
                flags.update_transaction = true;
            },
        }
        flags
    }

    /// The bits of the set in the record.
    pub fn bits(&self) -> (bits: u32)
        ensures
            bits == self.spec_bits(),
            Self::spec_from_bits(bits) == Some(*self),
    {
        let mut bits: u32 = 0;
        if self.one_way {
            bits = bits + 0x01;
        }
        if self.root_object {
            bits = bits + 0x04;
        }
        if self.status_code {
            bits = bits + 0x08;
        }
        if self.accept_fds {
            bits = bits + 0x10;
        }
        if self.clear_buffer {
            bits = bits + 0x20;
        }
        if self.update_transaction {
            bits = bits + 0x40;
        }
        bits
    }

    /// The set that `bits` stand for: `None` where a bit is not the bit of
    /// a flag.
    pub fn from_bits(bits: u32) -> (r: Option<TransactionFlags>)
        ensures
            r == Self::spec_from_bits(bits),
            r matches Some(flags) ==> flags.spec_bits() == bits,
    {
        if bits >= 0x80 || (bits / 2) % 2 != 0 {
            None
        } else {
            assert(bits == bits % 2 + 4 * ((bits / 4) % 2) + 8 * ((bits / 8) % 2) + 16 * ((bits
                / 16) % 2) + 32 * ((bits / 32) % 2) + 64 * ((bits / 64) % 2)) by (bit_vector)
                requires
                    bits < 0x80,
                    (bits / 2) % 2 == 0,
            ;
            Some(
                TransactionFlags {
                    one_way: bits % 2 == 1,
                    root_object: (bits / 4) % 2 == 1,
                    status_code: (bits / 8) % 2 == 1,
                    accept_fds: (bits / 16) % 2 == 1,
                    clear_buffer: (bits / 32) % 2 == 1,
                    update_transaction: (bits / 64) % 2 == 1,
                },
            )
        }
    }
}

/// The transaction record, field by field. The two addresses and the two
/// sizes speak of memory that the record itself does not hold.
#[derive(Clone, Copy, Debug, PartialEq, Eq, Structural)]
pub struct TransactionData {
    /// The object that the transaction is for.
    pub target: ObjectRef,
    pub code: u32,
    /// The flags as the record holds them.
    pub flags: u32,
    pub sender_pid: i32,
    pub sender_euid: u32,
    /// Number of payload bytes.
    pub data_size: usize,
    /// Number of bytes of the table of offsets.
    pub offsets_size: usize,
    /// Address of the payload.
    pub buffer: usize,
    /// Address of the table of offsets.
    pub offsets: usize,
}

/// How the first two fields of a record are to be read.
#[derive(Clone, Copy, Debug, PartialEq, Eq, Structural)]
pub enum TargetKind {
    /// As the two words of a local object.
    Local,
    /// As a handle.
    Remote,
}

/// Number of bytes of a transaction record.
pub open spec fn transaction_data_size() -> nat {
    16 + 6 * word_size()
}

/// The first two fields of a record whose target is `target`.
pub open spec fn target_bytes(order: ByteOrder, target: ObjectRef) -> Seq<u8> {
    match target {
        ObjectRef::Local(local) => encode_nat(order, local.data as nat, word_size()) + encode_nat(
            order,
            local.extra_data as nat,
            word_size(),
        ),
        ObjectRef::Remote(remote) => encode_nat(order, remote.data_handle as nat, 4) + zeros(
            (word_size() - 4) as nat,
        ) + encode_nat(order, 0, word_size()),
    }
}

/// The four fields of four bytes each in the middle of a record.
pub open spec fn fixed_bytes(
    order: ByteOrder,
    code: u32,
    flags: u32,
    sender_pid: i32,
    sender_euid: u32,
) -> Seq<u8> {
    encode_nat(order, code as nat, 4) + encode_nat(order, flags as nat, 4) + encode_int(
        order,
        sender_pid as int,
        4,
    ) + encode_nat(order, sender_euid as nat, 4)
}

/// The four words at the end of a record.
pub open spec fn tail_bytes(
    order: ByteOrder,
    data_size: usize,
    offsets_size: usize,
    buffer: usize,
    offsets: usize,
) -> Seq<u8> {
    encode_nat(order, data_size as nat, word_size()) + encode_nat(
        order,
        offsets_size as nat,
        word_size(),
    ) + encode_nat(order, buffer as nat, word_size()) + encode_nat(
        order,
        offsets as nat,
        word_size(),
    )
}

/// The target that the first two fields of a record hold.
pub open spec fn parse_target(order: ByteOrder, kind: TargetKind, bytes: Seq<u8>) -> ObjectRef {
    let w = word_size() as int;
    match kind {
        TargetKind::Local => ObjectRef::Local(
            ObjectRefLocal {
                data: decode_nat(order, bytes.subrange(0, w)) as usize,
                extra_data: decode_nat(order, bytes.subrange(w, 2 * w)) as usize,
            },
        ),
        TargetKind::Remote => ObjectRef::Remote(
            ObjectRefRemote { data_handle: decode_nat(order, bytes.subrange(0, 4)) as u32 },
        ),
    }
}

/// The record that `bytes` hold, if they are one record long.
pub open spec fn parse_transaction_data(
    order: ByteOrder,
    kind: TargetKind,
    bytes: Seq<u8>,
) -> Option<TransactionData> {
    let w = word_size() as int;
    let at = 2 * w;
    if bytes.len() != transaction_data_size() {
        None
    } else {
        Some(
            TransactionData {
                target: parse_target(order, kind, bytes),
                code: decode_nat(order, bytes.subrange(at, at + 4)) as u32,
                flags: decode_nat(order, bytes.subrange(at + 4, at + 8)) as u32,
                sender_pid: decode_int(order, bytes.subrange(at + 8, at + 12)) as i32,
                sender_euid: decode_nat(order, bytes.subrange(at + 12, at + 16)) as u32,
                data_size: decode_nat(order, bytes.subrange(at + 16, at + 16 + w)) as usize,
                offsets_size: decode_nat(
                    order,
                    bytes.subrange(at + 16 + w, at + 16 + 2 * w),
                ) as usize,
                buffer: decode_nat(
                    order,
                    bytes.subrange(at + 16 + 2 * w, at + 16 + 3 * w),
                ) as usize,
                offsets: decode_nat(
                    order,
                    bytes.subrange(at + 16 + 3 * w, at + 16 + 4 * w),
                ) as usize,
            },
        )
    }
}

/// Appends the first two fields of a record whose target is `target`.
fn append_target(buf: &mut Vec<u8>, order: ByteOrder, target: ObjectRef)
    ensures
        final(buf)@ == old(buf)@ + target_bytes(order, target),
{
    proof {
        lemma_radix_pow_values();
    }
    match target {
        ObjectRef::Local(local) => {
            put_word(buf, order, local.data);
            put_word(buf, order, local.extra_data);
        },
        ObjectRef::Remote(remote) => {
            put_uint(buf, order, remote.data_handle as u64, 4);
            put_zeros(buf, word_bytes() - 4);
            put_word(buf, order, 0);
        },
    }
    assert(buf@ =~= old(buf)@ + target_bytes(order, target));
}

/// Appends the four fields of four bytes each in the middle of a record.
fn append_fixed(
    buf: &mut Vec<u8>,
    order: ByteOrder,
    code: u32,
    flags: u32,
    sender_pid: i32,
    sender_euid: u32,
)
    ensures
        final(buf)@ == old(buf)@ + fixed_bytes(order, code, flags, sender_pid, sender_euid),
{
    proof {
        lemma_radix_pow_values();
    }
    put_uint(buf, order, code as u64, 4);
    put_uint(buf, order, flags as u64, 4);
    put_uint(buf, order, to_unsigned(sender_pid as i64, 4), 4);
    put_uint(buf, order, sender_euid as u64, 4);
    assert(buf@ =~= old(buf)@ + fixed_bytes(order, code, flags, sender_pid, sender_euid));
}

/// Appends the four words at the end of a record.
fn append_tail(
    buf: &mut Vec<u8>,
    order: ByteOrder,
    data_size: usize,
    offsets_size: usize,
    buffer: usize,
    offsets: usize,
)
    ensures
        final(buf)@ == old(buf)@ + tail_bytes(order, data_size, offsets_size, buffer, offsets),
{
    put_word(buf, order, data_size);
    put_word(buf, order, offsets_size);
    put_word(buf, order, buffer);
    put_word(buf, order, offsets);
    assert(buf@ =~= old(buf)@ + tail_bytes(order, data_size, offsets_size, buffer, offsets));
}

impl TransactionData {
    /// How the target of the record is to be read back.
    pub open spec fn target_kind(self) -> TargetKind {
        match self.target {
            ObjectRef::Local(_) => TargetKind::Local,
            ObjectRef::Remote(_) => TargetKind::Remote,
        }
    }

    /// The bytes of the record.
    pub open spec fn spec_bytes(self, order: ByteOrder) -> Seq<u8> {
        target_bytes(order, self.target) + fixed_bytes(
            order,
            self.code,
            self.flags,
            self.sender_pid,
            self.sender_euid,
        ) + tail_bytes(order, self.data_size, self.offsets_size, self.buffer, self.offsets)
    }

    /// Appends the bytes of the record to `buf`, in the machine's byte order.
    pub fn append_to(&self, buf: &mut Vec<u8>)
        ensures
            final(buf)@ == old(buf)@ + self.spec_bytes(native_order()),
            self.spec_bytes(native_order()).len() == transaction_data_size(),
    {
        let order = ByteOrder::native();
        proof {
            lemma_transaction_data_roundtrip(order, *self);
        }
        append_target(buf, order, self.target);
        append_fixed(buf, order, self.code, self.flags, self.sender_pid, self.sender_euid);
        append_tail(buf, order, self.data_size, self.offsets_size, self.buffer, self.offsets);
        assert(buf@ =~= old(buf)@ + self.spec_bytes(order));
    }

    /// The record that `bytes` hold, its target read as `kind` says: an
    /// error where `bytes` are not one record long.
    pub fn try_from_bytes(bytes: &[u8], kind: TargetKind) -> (r: Result<
        TransactionData,
        FromBytesError,
    >)
        ensures
            match parse_transaction_data(native_order(), kind, bytes@) {
                Some(record) => r == Ok::<TransactionData, FromBytesError>(record),
                None => r == Err::<TransactionData, FromBytesError>(FromBytesError::SizeMismatch),
            },
    {
        let order = ByteOrder::native();
        let w = word_bytes();
        if bytes.len() != 16 + 6 * w {
            return Err(FromBytesError::SizeMismatch);
        }
        proof {
            lemma_radix_pow_values();
        }
        let target = match kind {
            TargetKind::Local => ObjectRef::Local(
                ObjectRefLocal {
                    data: get_word_at(bytes, 0, order),
                    extra_data: get_word_at(bytes, w, order),
                },
            ),
            TargetKind::Remote => ObjectRef::Remote(
                ObjectRefRemote { data_handle: get_uint_at(bytes, 0, 4, order) as u32 },
            ),
        };
        let at = 2 * w;
        let code = get_uint_at(bytes, at, 4, order) as u32;
        let flags = get_uint_at(bytes, at + 4, 4, order) as u32;
        let sender_pid = to_signed(get_uint_at(bytes, at + 8, 4, order), 4) as i32;
        let sender_euid = get_uint_at(bytes, at + 12, 4, order) as u32;
        let data_size = get_word_at(bytes, at + 16, order);
        let offsets_size = get_word_at(bytes, at + 16 + w, order);
        let buffer = get_word_at(bytes, at + 16 + 2 * w, order);
        let offsets = get_word_at(bytes, at + 16 + 3 * w, order);
        Ok(
            TransactionData {
                target,
                code,
                flags,
                sender_pid,
                sender_euid,
                data_size,
                offsets_size,
                buffer,
                offsets,
            },
        )
    }
}

/// Why bytes could not be read as a record.
#[derive(Clone, Copy, Debug, PartialEq, Eq, Structural)]
pub enum FromBytesError {
    /// The bytes are not as many as the record has.
    SizeMismatch,
}

/// The first two fields of a record are two words long and read back as
/// the target.
pub proof fn lemma_target_roundtrip(order: ByteOrder, target: ObjectRef)
    ensures
        target_bytes(order, target).len() == 2 * word_size(),
        parse_target(
            order,
            match target {
                ObjectRef::Local(_) => TargetKind::Local,
                ObjectRef::Remote(_) => TargetKind::Remote,
            },
            target_bytes(order, target),
        ) == target,
{
    let w = word_size();
    lemma_radix_pow_values();
    lemma_decode_encode_nat(order, 0, w);
    match target {
        ObjectRef::Local(local) => {
            let a = encode_nat(order, local.data as nat, w);
            let b = encode_nat(order, local.extra_data as nat, w);
            lemma_decode_encode_nat(order, local.data as nat, w);
            lemma_decode_encode_nat(order, local.extra_data as nat, w);
            lemma_three_parts(a, b, Seq::empty());
            assert(a + b + Seq::<u8>::empty() =~= a + b);
        },
        ObjectRef::Remote(remote) => {
            let a = encode_nat(order, remote.data_handle as nat, 4);
            let b = zeros((w - 4) as nat);
            let c = encode_nat(order, 0, w);
            lemma_decode_encode_nat(order, remote.data_handle as nat, 4);
            lemma_three_parts(a, b, c);
        },
    }
}

/// A written record is one record long and reads back as itself.
pub proof fn lemma_transaction_data_roundtrip(order: ByteOrder, record: TransactionData)
    ensures
        record.spec_bytes(order).len() == transaction_data_size(),
        parse_transaction_data(order, record.target_kind(), record.spec_bytes(order)) == Some(
            record,
        ),
{
    let w = word_size();
    let wi = w as int;
    let at = 2 * wi;
    let bytes = record.spec_bytes(order);
    let head = target_bytes(order, record.target);
    let fixed = fixed_bytes(
        order,
        record.code,
        record.flags,
        record.sender_pid,
        record.sender_euid,
    );
    let tail = tail_bytes(
        order,
        record.data_size,
        record.offsets_size,
        record.buffer,
        record.offsets,
    );
    lemma_radix_pow_values();
    lemma_target_roundtrip(order, record.target);
    lemma_decode_encode_nat(order, record.code as nat, 4);
    lemma_decode_encode_nat(order, record.flags as nat, 4);
    lemma_decode_encode_int(order, record.sender_pid as int, 4);
    lemma_decode_encode_nat(order, record.sender_euid as nat, 4);
    lemma_decode_encode_nat(order, record.data_size as nat, w);
    lemma_decode_encode_nat(order, record.offsets_size as nat, w);
    lemma_decode_encode_nat(order, record.buffer as nat, w);
    lemma_decode_encode_nat(order, record.offsets as nat, w);
    lemma_four_parts(
        encode_nat(order, record.code as nat, 4),
        encode_nat(order, record.flags as nat, 4),
        encode_int(order, record.sender_pid as int, 4),
        encode_nat(order, record.sender_euid as nat, 4),
    );
    lemma_four_parts(
        encode_nat(order, record.data_size as nat, w),
        encode_nat(order, record.offsets_size as nat, w),
        encode_nat(order, record.buffer as nat, w),
        encode_nat(order, record.offsets as nat, w),
    );
    lemma_three_parts(head, fixed, tail);
    assert(bytes.len() == transaction_data_size());
    let end = at + 16 + 4 * wi;
    lemma_part_of_part(bytes, 0, at, 0, wi);
    lemma_part_of_part(bytes, 0, at, wi, 2 * wi);
    lemma_part_of_part(bytes, 0, at, 0, 4);
    lemma_part_of_part(bytes, at, at + 16, 0, 4);
    lemma_part_of_part(bytes, at, at + 16, 4, 8);
    lemma_part_of_part(bytes, at, at + 16, 8, 12);
    lemma_part_of_part(bytes, at, at + 16, 12, 16);
    lemma_part_of_part(bytes, at + 16, end, 0, wi);
    lemma_part_of_part(bytes, at + 16, end, wi, 2 * wi);
    lemma_part_of_part(bytes, at + 16, end, 2 * wi, 3 * wi);
    lemma_part_of_part(bytes, at + 16, end, 3 * wi, 4 * wi);
}

} // verus!
