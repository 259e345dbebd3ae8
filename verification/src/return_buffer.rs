//! The return buffer: the bytes that the kernel gave, read as returns.

use crate::bytes::{
    decode_int, decode_nat, get_uint_at, get_word_at, lemma_part_of_part,
    lemma_radix_pow_values, native_order, to_signed, word_bytes, word_size, ByteOrder,
};
use crate::object::ObjectRefLocal;
use crate::protocol::ReturnVal;
use crate::transaction::{parse_transaction_data, TargetKind, TransactionData};
use vstd::prelude::*;

verus! {

/// What the kernel tells a process.
#[derive(Clone, Copy, Debug, PartialEq, Eq, Structural)]
pub enum ReturnValue {
    /// A transaction for the local object, described by the record.
    Transaction(ObjectRefLocal, TransactionData),
    /// The reply to a transaction of this thread, described by the record.
    Reply(TransactionData),
    /// The transaction could not be delivered.
    TransactionFailed,
    Success,
    /// The kernel reports the error of this number.
    Error(i32),
    /// The kernel asks for another looper.
    SpawnLooper,
    /// The transaction or reply of this thread was taken.
    TransactionComplete,
    /// The target of the transaction is gone.
    DeadReply,
    Noop,
    /// The kernel takes a strong reference on the local object.
    Acquire(ObjectRefLocal),
    /// The kernel drops its strong reference on the local object.
    Release(ObjectRefLocal),
    /// The kernel takes a weak reference on the local object.
    AcquireWeak(ObjectRefLocal),
    /// The kernel drops its weak reference on the local object.
    ReleaseWeak(ObjectRefLocal),
    /// The object that a death notice was asked for is gone; the word is
    /// what was given when the notice was asked for.
    DeadBinder(usize),
}

/// Why the bytes that the kernel gave could not be read as returns.
#[derive(Clone, Copy, Debug, PartialEq, Eq, Structural)]
pub enum ReturnParseError {
    /// A code is none of the known ones, or the bytes end within a return.
    Malformed,
}

/// The local object that two words name.
pub open spec fn local_of(order: ByteOrder, payload: Seq<u8>) -> ObjectRefLocal {
    let w = word_size() as int;
    ObjectRefLocal {
        data: decode_nat(order, payload.subrange(0, w)) as usize,
        extra_data: decode_nat(order, payload.subrange(w, 2 * w)) as usize,
    }
}

/// The return of the kind `tag` whose payload is `payload`.
pub open spec fn return_of(order: ByteOrder, tag: ReturnVal, payload: Seq<u8>) -> Option<
    ReturnValue,
> {
    match tag {
        ReturnVal::Error => Some(ReturnValue::Error(decode_int(order, payload) as i32)),
        ReturnVal::Success => Some(ReturnValue::Success),
        ReturnVal::Transaction => match parse_transaction_data(order, TargetKind::Local, payload) {
            Some(record) => Some(ReturnValue::Transaction(local_of(order, payload), record)),
            None => None,
        },
        ReturnVal::Reply => match parse_transaction_data(order, TargetKind::Remote, payload) {
            Some(record) => Some(ReturnValue::Reply(record)),
            None => None,
        },
        ReturnVal::DeadReply => Some(ReturnValue::DeadReply),
        ReturnVal::TransactionComplete => Some(ReturnValue::TransactionComplete),
        ReturnVal::AcquireWeak => Some(ReturnValue::AcquireWeak(local_of(order, payload))),
        ReturnVal::Acquire => Some(ReturnValue::Acquire(local_of(order, payload))),
        ReturnVal::Release => Some(ReturnValue::Release(local_of(order, payload))),
        ReturnVal::ReleaseWeak => Some(ReturnValue::ReleaseWeak(local_of(order, payload))),
        ReturnVal::Noop => Some(ReturnValue::Noop),
        ReturnVal::SpawnLooper => Some(ReturnValue::SpawnLooper),
        ReturnVal::DeadBinder => Some(ReturnValue::DeadBinder(decode_nat(order, payload) as usize)),
        ReturnVal::Failed => Some(ReturnValue::TransactionFailed),
    }
}

/// The kind of the return at the start of `bytes`, if its code is known
/// and the bytes hold its payload.
pub open spec fn tag_of(order: ByteOrder, bytes: Seq<u8>) -> Option<ReturnVal> {
    if bytes.len() < 4 {
        None
    } else {
        match ReturnVal::spec_from_code(decode_nat(order, bytes.subrange(0, 4)) as u32) {
            Some(tag) => if bytes.len() < 4 + tag.spec_payload_size() {
                None
            } else {
                Some(tag)
            },
            None => None,
        }
    }
}

/// The returns that `bytes` hold, one behind the other, if they hold
/// nothing else.
pub open spec fn parse_returns(order: ByteOrder, bytes: Seq<u8>) -> Option<Seq<ReturnValue>>
    decreases bytes.len(),
{
    if bytes.len() == 0 {
        Some(Seq::empty())
    } else {
        match tag_of(order, bytes) {
            Some(tag) => {
                let used = 4 + tag.spec_payload_size() as int;
                match (
                    return_of(order, tag, bytes.subrange(4, used)),
                    parse_returns(order, bytes.skip(used)),
                ) {
                    (Some(first), Some(rest)) => Some(seq![first] + rest),
                    _ => None,
                }
            },
            None => None,
        }
    }
}

/// The local object that the two words at `at` name.
fn local_at(bytes: &[u8], at: usize, order: ByteOrder) -> (local: ObjectRefLocal)
    requires
        at + 2 * word_size() <= bytes@.len() <= usize::MAX,
    ensures
        forall|end: int|
            at + 2 * word_size() <= end <= bytes@.len() ==> local == local_of(
                order,
                #[trigger] bytes@.subrange(at as int, end),
            ),
{
    let w = word_bytes();
    assert forall|end: int| at + 2 * word_size() <= end <= bytes@.len() implies bytes@.subrange(
        at as int,
        at + w,
    ) == (#[trigger] bytes@.subrange(at as int, end)).subrange(0, w as int) && bytes@.subrange(
        at + w,
        at + 2 * w,
    ) == bytes@.subrange(at as int, end).subrange(w as int, 2 * w) by {
        lemma_part_of_part(bytes@, at as int, end, 0, w as int);
        lemma_part_of_part(bytes@, at as int, end, w as int, 2 * w);
    }
    ObjectRefLocal {
        data: get_word_at(bytes, at, order),
        extra_data: get_word_at(bytes, at + w, order),
    }
}

/// The return of the kind `tag` whose payload lies at `at`.
fn return_at(bytes: &[u8], at: usize, tag: ReturnVal, order: ByteOrder) -> (r: Option<ReturnValue>)
    requires
        order == native_order(),
        at + tag.spec_payload_size() <= bytes@.len() <= usize::MAX,
    ensures
        r == return_of(order, tag, bytes@.subrange(at as int, at + tag.spec_payload_size())),
{
    let size = tag.payload_size();
    proof {
        lemma_radix_pow_values();
    }
    match tag {
        ReturnVal::Error => {
            let pattern = get_uint_at(bytes, at, 4, order);
            Some(ReturnValue::Error(to_signed(pattern, 4) as i32))
        },
        ReturnVal::Success => Some(ReturnValue::Success),
        ReturnVal::Transaction => {
            let payload = vstd::slice::slice_subrange(bytes, at, at + size);
            let local = local_at(bytes, at, order);
            match TransactionData::try_from_bytes(payload, TargetKind::Local) {
                Ok(record) => Some(ReturnValue::Transaction(local, record)),
                Err(_) => None,
            }
        },
        ReturnVal::Reply => {
            let payload = vstd::slice::slice_subrange(bytes, at, at + size);
            match TransactionData::try_from_bytes(payload, TargetKind::Remote) {
                Ok(record) => Some(ReturnValue::Reply(record)),
                Err(_) => None,
            }
        },
        ReturnVal::DeadReply => Some(ReturnValue::DeadReply),
        ReturnVal::TransactionComplete => Some(ReturnValue::TransactionComplete),
        ReturnVal::AcquireWeak => Some(ReturnValue::AcquireWeak(local_at(bytes, at, order))),
        ReturnVal::Acquire => Some(ReturnValue::Acquire(local_at(bytes, at, order))),
        ReturnVal::Release => Some(ReturnValue::Release(local_at(bytes, at, order))),
        ReturnVal::ReleaseWeak => Some(ReturnValue::ReleaseWeak(local_at(bytes, at, order))),
        ReturnVal::Noop => Some(ReturnValue::Noop),
        ReturnVal::SpawnLooper => Some(ReturnValue::SpawnLooper),
        ReturnVal::DeadBinder => Some(ReturnValue::DeadBinder(get_word_at(bytes, at, order))),
        ReturnVal::Failed => Some(ReturnValue::TransactionFailed),
    }
}

/// The returns that `bytes` hold: an error where a code is none of the
/// known ones or the bytes end within a return.
pub fn parse_return_values(bytes: &[u8]) -> (r: Result<Vec<ReturnValue>, ReturnParseError>)
    ensures
        match parse_returns(native_order(), bytes@) {
            Some(values) => r matches Ok(parsed) && parsed@ == values,
            None => r is Err,
        },
{
    let order = ByteOrder::native();
    let total = bytes.len();
    let mut parsed: Vec<ReturnValue> = Vec::new();
    let mut at: usize = 0;
    assert(bytes@.skip(0) =~= bytes@);
    while at < total
        invariant
            at <= total,
            total == bytes@.len(),
            order == native_order(),
            parse_returns(order, bytes@) == match parse_returns(order, bytes@.skip(at as int)) {
                Some(rest) => Some(parsed@ + rest),
                None => None,
            },
        decreases total - at,
    {
        let ghost left = bytes@.skip(at as int);
        if total - at < 4 {
            return Err(ReturnParseError::Malformed);
        }
        proof {
            lemma_radix_pow_values();
            assert(left.subrange(0, 4) =~= bytes@.subrange(at as int, at + 4));
        }
        let code = get_uint_at(bytes, at, 4, order) as u32;
        let tag = match ReturnVal::from_code(code) {
            Some(tag) => tag,
            None => {
                return Err(ReturnParseError::Malformed);
            },
        };
        let size = tag.payload_size();
        if total - at - 4 < size {
            return Err(ReturnParseError::Malformed);
        }
        proof {
            assert(left.subrange(4, 4 + size) =~= bytes@.subrange(at + 4, at + 4 + size));
            assert(left.skip(4 + size) =~= bytes@.skip(at + 4 + size));
        }
        match return_at(bytes, at + 4, tag, order) {
            Some(value) => {
                let ghost before = parsed@;
                parsed.push(value);
                proof {
                    match parse_returns(order, bytes@.skip(at + 4 + size)) {
                        Some(rest) => {
                            assert(before + (seq![value] + rest) =~= parsed@ + rest);
                        },
                        None => {},
                    }
                }
            },
            None => {
                return Err(ReturnParseError::Malformed);
            },
        }
        at = at + 4 + size;
    }
    assert(parsed@ + Seq::<ReturnValue>::empty() =~= parsed@);
    Ok(parsed)
}

/// Room for the bytes that the kernel gives, and the returns read from
/// them.
pub struct ReturnBuffer {
    buffer: Vec<u8>,
    parsed: Vec<ReturnValue>,
}

impl ReturnBuffer {
    /// The bytes of the room.
    pub closed spec fn spec_buffer(&self) -> Seq<u8> {
        self.buffer@
    }

    /// The returns that were read.
    pub closed spec fn spec_parsed(&self) -> Seq<ReturnValue> {
        self.parsed@
    }

    /// Room for `size` bytes, all zero, and no returns.
    pub fn new(size: usize) -> (buffer: ReturnBuffer)
        ensures
            buffer.spec_buffer() == crate::bytes::zeros(size as nat),
            buffer.spec_parsed().len() == 0,
    {
        let mut bytes: Vec<u8> = Vec::new();
        crate::bytes::put_zeros(&mut bytes, size);
        assert(bytes@ =~= crate::bytes::zeros(size as nat));
        ReturnBuffer { buffer: bytes, parsed: Vec::new() }
    }

    /// Forgets the returns that were read.
    pub fn clear(&mut self)
        ensures
            final(self).spec_buffer() == old(self).spec_buffer(),
            final(self).spec_parsed() == Seq::<ReturnValue>::empty(),
    {
        self.parsed.clear();
    }

    /// Number of bytes of the room.
    pub fn capacity(&self) -> (size: usize)
        ensures
            size == self.spec_buffer().len(),
    {
        self.buffer.len()
    }

    /// The room, for the kernel to fill.
    pub fn buffer_mut(&mut self) -> (bytes: &mut Vec<u8>)
        ensures
            bytes@ == old(self).spec_buffer(),
            final(self).spec_buffer() == final(bytes)@,
            final(self).spec_parsed() == old(self).spec_parsed(),
    {
        &mut self.buffer
    }

    /// The returns that were read.
    pub fn get_parsed(&self) -> (parsed: &Vec<ReturnValue>)
        ensures
            parsed@ == self.spec_parsed(),
    {
        &self.parsed
    }

    /// Reads the first `read_bytes` bytes of the room as returns and puts
    /// them, in the order of the bytes, behind those read before; only
    /// `clear` forgets. Where the bytes cannot be read so, an error comes
    /// back and the returns are those read before.
    pub fn parse(&mut self, read_bytes: usize) -> (r: Result<(), ReturnParseError>)
        requires
            read_bytes <= old(self).spec_buffer().len(),
        ensures
            final(self).spec_buffer() == old(self).spec_buffer(),
            match parse_returns(
                native_order(),
                old(self).spec_buffer().subrange(0, read_bytes as int),
            ) {
                Some(values) => r is Ok && final(self).spec_parsed() == old(self).spec_parsed()
                    + values,
                None => r is Err && final(self).spec_parsed() == old(self).spec_parsed(),
            },
    {
        let bytes = vstd::slice::slice_subrange(self.buffer.as_slice(), 0, read_bytes);
        match parse_return_values(bytes) {
            Ok(parsed) => {
                let mut parsed = parsed;
                self.parsed.append(&mut parsed);
                Ok(())
            },
            Err(error) => Err(error),
        }
    }

    /// The returns and the room, taken apart.
    pub fn into_buffers(self) -> (parts: (Vec<ReturnValue>, Vec<u8>))
        ensures
            parts.0@ == self.spec_parsed(),
            parts.1@ == self.spec_buffer(),
    {
        (self.parsed, self.buffer)
    }

    /// Returns and room, put together.
    pub fn from_buffers(parts: (Vec<ReturnValue>, Vec<u8>)) -> (buffer: ReturnBuffer)
        ensures
            buffer.spec_parsed() == parts.0@,
            buffer.spec_buffer() == parts.1@,
    {
        ReturnBuffer { buffer: parts.1, parsed: parts.0 }
    }
}

} // verus!
