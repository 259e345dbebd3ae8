//! The dead simple format: values packed one behind the other in the byte
//! order of the machine, with no framing but the length in front of what
//! has none of its own.

use crate::bytes::{
    decode_element, encode_int, encode_nat, get_uint, get_uint_at, ints_of,
    lemma_encode_decode_nat, native_order, put_uint, word_size, zeros, ByteOrder, WireInt,
};
use crate::formats::{
    bytes_of_slices, bytes_of_strs, lemma_can_take_part, lemma_can_take_whole,
    overlaps_reference, InnerReader, ReadFormat, ReaderView, SliceReadResult, WriteFormat,
};
use crate::object::{object_ref_size, parse_object_ref, ObjectRef};
use vstd::prelude::*;
use vstd::string::StringSliceAdditionalSpecFns;

verus! {

/// Number of bytes to skip from `len` on to come to a multiple of four.
pub open spec fn padding(len: int) -> int {
    (4 - len % 4) % 4
}

/// A truth value: one byte, one for true and zero for false.
pub open spec fn enc_bool(value: bool) -> Seq<u8> {
    seq![if value { 1u8 } else { 0u8 }]
}

/// A length or a count: one machine word.
pub open spec fn enc_word(order: ByteOrder, value: nat) -> Seq<u8> {
    encode_nat(order, value, word_size())
}

/// A byte string: its length, then its bytes.
pub open spec fn enc_bytes(order: ByteOrder, bytes: Seq<u8>) -> Seq<u8> {
    enc_word(order, bytes.len()) + bytes
}

/// A string that a zero byte ends: its bytes, then the zero byte.
pub open spec fn enc_cstr(bytes: Seq<u8>) -> Seq<u8> {
    bytes.push(0u8)
}

/// Numbers of `width` bytes each, one behind the other.
pub open spec fn enc_elements(order: ByteOrder, values: Seq<int>, width: nat) -> Seq<u8>
    decreases values.len(),
{
    if values.len() == 0 {
        Seq::empty()
    } else {
        enc_elements(order, values.drop_last(), width) + encode_int(order, values.last(), width)
    }
}

/// A slice of numbers: their count, then the numbers.
pub open spec fn enc_slice(order: ByteOrder, values: Seq<int>, width: nat) -> Seq<u8> {
    enc_word(order, values.len()) + enc_elements(order, values, width)
}

/// Truth values, one byte each.
pub open spec fn enc_bools(values: Seq<bool>) -> Seq<u8> {
    Seq::new(values.len(), |i: int| if values[i] { 1u8 } else { 0u8 })
}

/// A slice of truth values: their count, then the values.
pub open spec fn enc_bool_slice(order: ByteOrder, values: Seq<bool>) -> Seq<u8> {
    enc_word(order, values.len()) + enc_bools(values)
}

/// Byte strings, each with its length in front, one behind the other.
pub open spec fn enc_strs(order: ByteOrder, items: Seq<Seq<u8>>) -> Seq<u8>
    decreases items.len(),
{
    if items.len() == 0 {
        Seq::empty()
    } else {
        enc_strs(order, items.drop_last()) + enc_bytes(order, items.last())
    }
}

/// A slice of byte strings: their count, then the strings.
pub open spec fn enc_str_slice(order: ByteOrder, items: Seq<Seq<u8>>) -> Seq<u8> {
    enc_word(order, items.len()) + enc_strs(order, items)
}

/// Strings that a zero byte ends, one behind the other.
pub open spec fn enc_cstrs(items: Seq<Seq<u8>>) -> Seq<u8>
    decreases items.len(),
{
    if items.len() == 0 {
        Seq::empty()
    } else {
        enc_cstrs(items.drop_last()) + enc_cstr(items.last())
    }
}

/// A slice of strings that a zero byte ends: their count, then the strings.
pub open spec fn enc_cstr_slice(order: ByteOrder, items: Seq<Seq<u8>>) -> Seq<u8> {
    enc_word(order, items.len()) + enc_cstrs(items)
}

/// A reference written where `at` bytes stand already: zero bytes up to the
/// next multiple of four, then the record.
pub open spec fn enc_reference(order: ByteOrder, at: int, reference: ObjectRef) -> Seq<u8> {
    zeros(padding(at) as nat) + reference.spec_bytes(order)
}

/// The number of `width` bytes at the cursor, and the place behind it.
pub open spec fn dec_int(order: ByteOrder, v: ReaderView, width: nat, signed: bool) -> Option<
    (int, int),
> {
    if v.can_take(0, width as int) {
        Some((decode_element(order, v.bytes_at(0, width as int), signed), v.pos + width))
    } else {
        None
    }
}

/// The truth value at the cursor, and the place behind it. A byte that is
/// neither zero nor one is no truth value.
pub open spec fn dec_bool(v: ReaderView) -> Option<(bool, int)> {
    if v.can_take(0, 1) && v.data[v.pos] <= 1 {
        Some((v.data[v.pos] == 1, v.pos + 1))
    } else {
        None
    }
}

/// The length or count at the cursor, and the place behind it.
pub open spec fn dec_len(order: ByteOrder, v: ReaderView) -> Option<(int, int)> {
    dec_int(order, v, word_size(), false)
}

/// The byte string at the cursor, and the place behind it.
pub open spec fn dec_bytes(order: ByteOrder, v: ReaderView) -> Option<(Seq<u8>, int)> {
    match dec_len(order, v) {
        Some((len, next)) => if v.at(next).can_take(0, len) {
            Some((v.at(next).bytes_at(0, len), next + len))
        } else {
            None
        },
        None => None,
    }
}

/// The string at the cursor, as its bytes, and the place behind it. Bytes
/// that are not UTF-8 are no string.
pub open spec fn dec_str(order: ByteOrder, v: ReaderView) -> Option<(Seq<u8>, int)> {
    match dec_bytes(order, v) {
        Some((bytes, next)) => if vstd::utf8::valid_utf8(bytes) {
            Some((bytes, next))
        } else {
            None
        },
        None => None,
    }
}

/// Number of bytes from `from` to the first zero byte of `data`, if there
/// is one.
pub open spec fn nul_distance(data: Seq<u8>, from: int) -> Option<int>
    decreases data.len() - from,
{
    if from < 0 || from >= data.len() {
        None
    } else if data[from] == 0 {
        Some(0)
    } else {
        match nul_distance(data, from + 1) {
            Some(distance) => Some(distance + 1),
            None => None,
        }
    }
}

/// The string at the cursor that a zero byte ends, without that byte, and
/// the place behind the zero byte.
pub open spec fn dec_cstr(v: ReaderView) -> Option<(Seq<u8>, int)> {
    match nul_distance(v.data, v.pos) {
        Some(distance) => if v.can_take(0, distance + 1) {
            Some((v.bytes_at(0, distance), v.pos + distance + 1))
        } else {
            None
        },
        None => None,
    }
}

/// The number that the element `i` of `bytes` holds, each element `width`
/// bytes long.
pub open spec fn element_at(
    order: ByteOrder,
    bytes: Seq<u8>,
    width: nat,
    signed: bool,
    i: int,
) -> int {
    decode_element(order, bytes.subrange(i * width, i * width + width), signed)
}

/// The `count` numbers of `width` bytes each that `bytes` hold.
pub open spec fn dec_elements(
    order: ByteOrder,
    bytes: Seq<u8>,
    width: nat,
    count: nat,
    signed: bool,
) -> Seq<int> {
    Seq::new(count, |i: int| element_at(order, bytes, width, signed, i))
}

/// The slice of numbers at the cursor, and the place behind it.
pub open spec fn dec_slice(order: ByteOrder, v: ReaderView, width: nat, signed: bool) -> Option<
    (Seq<int>, int),
> {
    match dec_len(order, v) {
        Some((count, next)) => if v.at(next).can_take(0, count * width) {
            Some(
                (
                    dec_elements(
                        order,
                        v.at(next).bytes_at(0, count * width),
                        width,
                        count as nat,
                        signed,
                    ),
                    next + count * width,
                ),
            )
        } else {
            None
        },
        None => None,
    }
}

/// Whether each byte of `bytes` is zero or one.
pub open spec fn all_bools(bytes: Seq<u8>) -> bool {
    forall|i: int| 0 <= i < bytes.len() ==> bytes[i] <= 1
}

/// The truth values that `bytes` hold, one in each byte.
pub open spec fn dec_bools(bytes: Seq<u8>) -> Seq<bool> {
    Seq::new(bytes.len(), |i: int| bytes[i] == 1)
}

/// The slice of truth values at the cursor, and the place behind it.
pub open spec fn dec_bool_slice(order: ByteOrder, v: ReaderView) -> Option<(Seq<bool>, int)> {
    match dec_bytes(order, v) {
        Some((bytes, next)) => if all_bools(bytes) {
            Some((dec_bools(bytes), next))
        } else {
            None
        },
        None => None,
    }
}

/// The `count` strings from the cursor on, and the place behind them.
pub open spec fn dec_strs(order: ByteOrder, v: ReaderView, count: nat) -> Option<
    (Seq<Seq<u8>>, int),
>
    decreases count,
{
    if count == 0 {
        Some((Seq::empty(), v.pos))
    } else {
        match dec_strs(order, v, (count - 1) as nat) {
            Some((items, next)) => match dec_str(order, v.at(next)) {
                Some((item, after)) => Some((items.push(item), after)),
                None => None,
            },
            None => None,
        }
    }
}

/// The slice of strings at the cursor, and the place behind it.
pub open spec fn dec_str_slice(order: ByteOrder, v: ReaderView) -> Option<(Seq<Seq<u8>>, int)> {
    match dec_len(order, v) {
        Some((count, next)) => dec_strs(order, v.at(next), count as nat),
        None => None,
    }
}

/// The `count` strings from the cursor on that a zero byte ends, and the
/// place behind them.
pub open spec fn dec_cstrs(v: ReaderView, count: nat) -> Option<(Seq<Seq<u8>>, int)>
    decreases count,
{
    if count == 0 {
        Some((Seq::empty(), v.pos))
    } else {
        match dec_cstrs(v, (count - 1) as nat) {
            Some((items, next)) => match dec_cstr(v.at(next)) {
                Some((item, after)) => Some((items.push(item), after)),
                None => None,
            },
            None => None,
        }
    }
}

/// The slice of strings at the cursor that a zero byte ends, and the place
/// behind it.
pub open spec fn dec_cstr_slice(order: ByteOrder, v: ReaderView) -> Option<(Seq<Seq<u8>>, int)> {
    match dec_len(order, v) {
        Some((count, next)) => dec_cstrs(v.at(next), count as nat),
        None => None,
    }
}

/// Whether the table `offsets` names the place `at`.
pub open spec fn is_offset(offsets: Seq<usize>, at: int) -> bool {
    exists|i: int| 0 <= i < offsets.len() && #[trigger] offsets[i] == at
}

/// The reference at the next multiple of four from the cursor on, and the
/// place behind it. The table of offsets must name that place, and the
/// bytes skipped must belong to no reference.
pub open spec fn dec_reference(order: ByteOrder, v: ReaderView) -> Option<(ObjectRef, int)> {
    let at = v.pos + padding(v.pos);
    if 0 <= v.pos && at + object_ref_size() <= v.data.len() && is_offset(v.offsets, at)
        && !overlaps_reference(v.offsets, v.pos, at - v.pos) {
        match parse_object_ref(order, v.data.subrange(at, at + object_ref_size())) {
            Some(reference) => Some((reference, at + object_ref_size())),
            None => None,
        }
    } else {
        None
    }
}

/// `core::str::from_utf8`: the string that `bytes` are, where they are
/// valid UTF-8, and nothing where they are not. The string has the bytes it
/// was made from.
#[verifier::external_body]
pub(crate) fn utf8_str<'a>(bytes: &'a [u8]) -> (r: Option<&'a str>)
    ensures
        r is Some <==> vstd::utf8::valid_utf8(bytes@),
        r matches Some(s) ==> s.spec_bytes() == bytes@,
{
    core::str::from_utf8(bytes).ok()
}

/// `bytemuck::cast_slice` from `u8` to `i8`: the same memory, each byte
/// read as a signed number. The two types have one size and one alignment,
/// so the cast cannot fail.
#[verifier::external_body]
pub(crate) fn borrow_i8s<'a>(bytes: &'a [u8]) -> (r: &'a [i8])
    ensures
        r@.len() == bytes@.len(),
        ints_of(r@) == dec_elements(native_order(), bytes@, 1, bytes@.len(), true),
{
    bytemuck::cast_slice::<u8, i8>(bytes)
}

/// `bytemuck::try_cast_slice` from `u8` to `u16`: where it succeeds, the
/// same memory as whole elements, each the number that its bytes hold in
/// the machine's byte order. Whether it succeeds depends on where the bytes
/// lie in memory.
#[verifier::external_body]
pub(crate) fn borrow_u16s<'a>(bytes: &'a [u8]) -> (r: Option<&'a [u16]>)
    ensures
        r matches Some(slice) ==> slice@.len() * 2 == bytes@.len() && ints_of(slice@)
            == dec_elements(native_order(), bytes@, 2, slice@.len(), false),
{
    bytemuck::try_cast_slice::<u8, u16>(bytes).ok()
}

/// `bytemuck::try_cast_slice` from `u8` to `u32`: where it succeeds, the
/// same memory as whole elements, each the number that its bytes hold in
/// the machine's byte order. Whether it succeeds depends on where the bytes
/// lie in memory.
#[verifier::external_body]
pub(crate) fn borrow_u32s<'a>(bytes: &'a [u8]) -> (r: Option<&'a [u32]>)
    ensures
        r matches Some(slice) ==> slice@.len() * 4 == bytes@.len() && ints_of(slice@)
            == dec_elements(native_order(), bytes@, 4, slice@.len(), false),
{
    bytemuck::try_cast_slice::<u8, u32>(bytes).ok()
}

/// `bytemuck::try_cast_slice` from `u8` to `u64`: where it succeeds, the
/// same memory as whole elements, each the number that its bytes hold in
/// the machine's byte order. Whether it succeeds depends on where the bytes
/// lie in memory.
#[verifier::external_body]
pub(crate) fn borrow_u64s<'a>(bytes: &'a [u8]) -> (r: Option<&'a [u64]>)
    ensures
        r matches Some(slice) ==> slice@.len() * 8 == bytes@.len() && ints_of(slice@)
            == dec_elements(native_order(), bytes@, 8, slice@.len(), false),
{
    bytemuck::try_cast_slice::<u8, u64>(bytes).ok()
}

/// `bytemuck::try_cast_slice` from `u8` to `usize`: where it succeeds, the
/// same memory as whole elements, each the number that its bytes hold in
/// the machine's byte order. Whether it succeeds depends on where the bytes
/// lie in memory.
#[verifier::external_body]
pub(crate) fn borrow_usizes<'a>(bytes: &'a [u8]) -> (r: Option<&'a [usize]>)
    ensures
        r matches Some(slice) ==> slice@.len() * word_size() == bytes@.len() && ints_of(slice@)
            == dec_elements(native_order(), bytes@, word_size(), slice@.len(), false),
{
    bytemuck::try_cast_slice::<u8, usize>(bytes).ok()
}

/// `bytemuck::try_cast_slice` from `u8` to `i16`: where it succeeds, the
/// same memory as whole elements, each the number that its bytes hold in
/// the machine's byte order. Whether it succeeds depends on where the bytes
/// lie in memory.
#[verifier::external_body]
pub(crate) fn borrow_i16s<'a>(bytes: &'a [u8]) -> (r: Option<&'a [i16]>)
    ensures
        r matches Some(slice) ==> slice@.len() * 2 == bytes@.len() && ints_of(slice@)
            == dec_elements(native_order(), bytes@, 2, slice@.len(), true),
{
    bytemuck::try_cast_slice::<u8, i16>(bytes).ok()
}

/// `bytemuck::try_cast_slice` from `u8` to `i32`: where it succeeds, the
/// same memory as whole elements, each the number that its bytes hold in
/// the machine's byte order. Whether it succeeds depends on where the bytes
/// lie in memory.
#[verifier::external_body]
pub(crate) fn borrow_i32s<'a>(bytes: &'a [u8]) -> (r: Option<&'a [i32]>)
    ensures
        r matches Some(slice) ==> slice@.len() * 4 == bytes@.len() && ints_of(slice@)
            == dec_elements(native_order(), bytes@, 4, slice@.len(), true),
{
    bytemuck::try_cast_slice::<u8, i32>(bytes).ok()
}

/// `bytemuck::try_cast_slice` from `u8` to `i64`: where it succeeds, the
/// same memory as whole elements, each the number that its bytes hold in
/// the machine's byte order. Whether it succeeds depends on where the bytes
/// lie in memory.
#[verifier::external_body]
pub(crate) fn borrow_i64s<'a>(bytes: &'a [u8]) -> (r: Option<&'a [i64]>)
    ensures
        r matches Some(slice) ==> slice@.len() * 8 == bytes@.len() && ints_of(slice@)
            == dec_elements(native_order(), bytes@, 8, slice@.len(), true),
{
    bytemuck::try_cast_slice::<u8, i64>(bytes).ok()
}

/// `bytemuck::try_cast_slice` from `u8` to `isize`: where it succeeds, the
/// same memory as whole elements, each the number that its bytes hold in
/// the machine's byte order. Whether it succeeds depends on where the bytes
/// lie in memory.
#[verifier::external_body]
pub(crate) fn borrow_isizes<'a>(bytes: &'a [u8]) -> (r: Option<&'a [isize]>)
    ensures
        r matches Some(slice) ==> slice@.len() * word_size() == bytes@.len() && ints_of(slice@)
            == dec_elements(native_order(), bytes@, word_size(), slice@.len(), true),
{
    bytemuck::try_cast_slice::<u8, isize>(bytes).ok()
}

/// Where no byte from `from` up to `from + distance` is zero, the first
/// zero byte from `from` on is the first from `from + distance` on.
pub proof fn lemma_nul_distance_skip(data: Seq<u8>, from: int, distance: int)
    requires
        0 <= from,
        0 <= distance,
        from + distance <= data.len(),
        forall|k: int| from <= k < from + distance ==> data[k] != 0,
    ensures
        nul_distance(data, from) == match nul_distance(data, from + distance) {
            Some(rest) => Some(rest + distance),
            None => None,
        },
    decreases distance,
{
    if distance > 0 {
        lemma_nul_distance_skip(data, from + 1, distance - 1);
    }
}

/// The distance to the first zero byte is not below zero.
pub proof fn lemma_nul_distance_positive(data: Seq<u8>, from: int)
    ensures
        nul_distance(data, from) matches Some(distance) ==> 0 <= distance && from + distance
            < data.len() && 0 <= from,
    decreases data.len() - from,
{
    if 0 <= from < data.len() && data[from] != 0 {
        lemma_nul_distance_positive(data, from + 1);
    }
}

/// The first zero byte behind bytes none of which is zero ends them.
pub proof fn lemma_nul_distance_found(data: Seq<u8>, from: int, distance: int)
    requires
        0 <= from,
        0 <= distance,
        from + distance < data.len(),
        forall|k: int| from <= k < from + distance ==> data[k] != 0,
        data[from + distance] == 0,
    ensures
        nul_distance(data, from) == Some(distance),
    decreases distance,
{
    if distance > 0 {
        lemma_nul_distance_found(data, from + 1, distance - 1);
    }
}

/// Where fewer strings cannot be read, more cannot be read either.
pub proof fn lemma_dec_strs_none(order: ByteOrder, v: ReaderView, fewer: nat, more: nat)
    requires
        fewer <= more,
        dec_strs(order, v, fewer) is None,
    ensures
        dec_strs(order, v, more) is None,
    decreases more,
{
    if fewer < more {
        lemma_dec_strs_none(order, v, fewer, (more - 1) as nat);
    }
}

/// Where fewer strings cannot be read, more cannot be read either.
pub proof fn lemma_dec_cstrs_none(v: ReaderView, fewer: nat, more: nat)
    requires
        fewer <= more,
        dec_cstrs(v, fewer) is None,
    ensures
        dec_cstrs(v, more) is None,
    decreases more,
{
    if fewer < more {
        lemma_dec_cstrs_none(v, fewer, (more - 1) as nat);
    }
}

/// Appends the bytes of the number `x`.
fn put_int<T: WireInt>(out: &mut Vec<u8>, order: ByteOrder, x: T)
    ensures
        final(out)@ == old(out)@ + encode_int(order, x.spec_int(), T::spec_width()),
{
    put_uint(out, order, x.to_pattern(), T::width());
}

/// Appends a length or a count.
fn put_len(out: &mut Vec<u8>, order: ByteOrder, len: usize)
    ensures
        final(out)@ == old(out)@ + enc_word(order, len as nat),
{
    put_int::<usize>(out, order, len);
}

/// Appends `bytes` as they are.
fn put_raw(out: &mut Vec<u8>, bytes: &[u8])
    ensures
        final(out)@ == old(out)@ + bytes@,
{
    out.extend_from_slice(bytes);
    assert(out@ =~= old(out)@ + bytes@);
}

/// Appends the byte of a truth value.
fn put_bool_byte(out: &mut Vec<u8>, value: bool)
    ensures
        final(out)@ == old(out)@ + enc_bool(value),
{
    out.push(if value { 1 } else { 0 });
    assert(out@ =~= old(out)@ + enc_bool(value));
}

/// Appends the length of `bytes`, then `bytes`.
fn put_bytes(out: &mut Vec<u8>, order: ByteOrder, bytes: &[u8])
    ensures
        final(out)@ == old(out)@ + enc_bytes(order, bytes@),
{
    put_len(out, order, bytes.len());
    put_raw(out, bytes);
    assert(out@ =~= old(out)@ + enc_bytes(order, bytes@));
}

/// Appends `bytes`, then a zero byte.
fn put_cstr(out: &mut Vec<u8>, bytes: &[u8])
    ensures
        final(out)@ == old(out)@ + enc_cstr(bytes@),
{
    put_raw(out, bytes);
    out.push(0);
    assert(out@ =~= old(out)@ + enc_cstr(bytes@));
}

/// Appends the count of the numbers of `data`, then the numbers.
fn put_ints<T: WireInt>(out: &mut Vec<u8>, order: ByteOrder, data: &[T])
    ensures
        final(out)@ == old(out)@ + enc_slice(order, ints_of(data@), T::spec_width()),
{
    let ghost values = ints_of(data@);
    let count = data.len();
    put_len(out, order, count);
    let ghost head = enc_word(order, count as nat);
    let mut i: usize = 0;
    assert(values.take(0) =~= Seq::<int>::empty());
    assert(out@ =~= old(out)@ + (head + enc_elements(order, values.take(0), T::spec_width())));
    while i < count
        invariant
            i <= count,
            count == data@.len(),
            values == ints_of(data@),
            head == enc_word(order, count as nat),
            out@ == old(out)@ + (head + enc_elements(
                order,
                values.take(i as int),
                T::spec_width(),
            )),
        decreases count - i,
    {
        put_int(out, order, data[i]);
        proof {
            let next = values.take(i as int + 1);
            assert(next.drop_last() =~= values.take(i as int));
            assert(next.last() == data@[i as int].spec_int());
            assert(out@ =~= old(out)@ + (head + enc_elements(order, next, T::spec_width())));
        }
        i = i + 1;
    }
    assert(values.take(count as int) =~= values);
}

/// The number at the cursor.
fn take_int<'reader, T: WireInt, R: InnerReader<'reader>>(order: ByteOrder, reader: &mut R) -> (r:
    Result<T, ()>)
    requires
        old(reader).wf(),
    ensures
        final(reader).wf(),
        match dec_int(order, old(reader).view(), T::spec_width(), T::spec_signed()) {
            Some((value, next)) => {
                &&& r matches Ok(x)
                &&& x.spec_int() == value
                &&& final(reader).view() == old(reader).view().at(next)
            },
            None => r is Err && final(reader).view() == old(reader).view(),
        },
{
    match reader.read(T::width()) {
        Ok(bytes) => {
            proof {
                lemma_encode_decode_nat(order, bytes@);
            }
            Ok(T::from_pattern(get_uint(bytes, order)))
        },
        Err(_) => Err(()),
    }
}

/// The length at the cursor and, behind it, as many bytes.
fn take_bytes<'reader, R: InnerReader<'reader>>(order: ByteOrder, reader: &mut R) -> (r: Result<
    &'reader [u8],
    (),
>)
    requires
        old(reader).wf(),
    ensures
        final(reader).wf(),
        match dec_bytes(order, old(reader).view()) {
            Some((value, next)) => {
                &&& r matches Ok(bytes)
                &&& bytes@ == value
                &&& final(reader).view() == old(reader).view().at(next)
            },
            None => r is Err && final(reader).view() == old(reader).view(),
        },
{
    let saved = reader.clone_reader();
    let len = match take_int::<usize, R>(order, reader) {
        Ok(len) => len,
        Err(_) => {
            return Err(());
        },
    };
    match reader.read(len) {
        Ok(bytes) => Ok(bytes),
        Err(_) => {
            *reader = saved;
            Err(())
        },
    }
}

/// The count at the cursor and, behind it, the bytes of as many numbers
/// of the type `T`.
fn take_elements<'reader, T: WireInt, R: InnerReader<'reader>>(
    order: ByteOrder,
    reader: &mut R,
) -> (r: Result<(usize, &'reader [u8]), ()>)
    requires
        old(reader).wf(),
    ensures
        final(reader).wf(),
        match dec_slice(order, old(reader).view(), T::spec_width(), T::spec_signed()) {
            Some((values, next)) => {
                &&& r matches Ok((count, bytes))
                &&& bytes@.len() == count * T::spec_width()
                &&& values == dec_elements(
                    order,
                    bytes@,
                    T::spec_width(),
                    count as nat,
                    T::spec_signed(),
                )
                &&& final(reader).view() == old(reader).view().at(next)
            },
            None => r is Err && final(reader).view() == old(reader).view(),
        },
{
    let saved = reader.clone_reader();
    let count = match take_int::<usize, R>(order, reader) {
        Ok(count) => count,
        Err(_) => {
            return Err(());
        },
    };
    let width = T::width();
    proof {
        reader.lemma_bounded();
    }
    if count > usize::MAX / width {
        assert(count * width > usize::MAX) by (nonlinear_arith)
            requires
                count > usize::MAX / width,
                width >= 1,
        ;
        *reader = saved;
        return Err(());
    }
    assert(count * width <= usize::MAX) by (nonlinear_arith)
        requires
            count <= usize::MAX / width,
            width >= 1,
    ;
    match reader.read(count * width) {
        Ok(bytes) => Ok((count, bytes)),
        Err(_) => {
            *reader = saved;
            Err(())
        },
    }
}

/// The `count` numbers of the type `T` that `bytes` hold.
fn decode_elements<T: WireInt>(bytes: &[u8], count: usize, order: ByteOrder) -> (values: Vec<T>)
    requires
        bytes@.len() == count * T::spec_width(),
    ensures
        ints_of(values@) == dec_elements(
            order,
            bytes@,
            T::spec_width(),
            count as nat,
            T::spec_signed(),
        ),
{
    let width = T::width();
    let total = bytes.len();
    let mut values: Vec<T> = Vec::new();
    let mut i: usize = 0;
    while i < count
        invariant
            i <= count,
            width == T::spec_width(),
            1 <= width <= 8,
            total == bytes@.len(),
            total == count * width,
            values@.len() == i,
            forall|k: int|
                0 <= k < i ==> (#[trigger] values@[k]).spec_int() == element_at(
                    order,
                    bytes@,
                    T::spec_width(),
                    T::spec_signed(),
                    k,
                ),
        decreases count - i,
    {
        assert(i * width + width <= count * width) by (nonlinear_arith)
            requires
                i < count,
                width >= 1,
        ;
        let pattern = get_uint_at(bytes, i * width, width, order);
        values.push(T::from_pattern(pattern));
        i = i + 1;
    }
    assert(ints_of(values@) =~= dec_elements(
        order,
        bytes@,
        T::spec_width(),
        count as nat,
        T::spec_signed(),
    ));
    values
}

/// The truth value at the cursor.
fn take_bool<'reader, R: InnerReader<'reader>>(reader: &mut R) -> (r: Result<bool, ()>)
    requires
        old(reader).wf(),
    ensures
        final(reader).wf(),
        match dec_bool(old(reader).view()) {
            Some((value, next)) => r == Ok::<bool, ()>(value) && final(reader).view() == old(
                reader,
            ).view().at(next),
            None => r is Err && final(reader).view() == old(reader).view(),
        },
{
    let saved = reader.clone_reader();
    match reader.read(1) {
        Ok(bytes) => {
            let byte = bytes[0];
            if byte > 1 {
                *reader = saved;
                Err(())
            } else {
                Ok(byte == 1)
            }
        },
        Err(_) => Err(()),
    }
}

/// The string at the cursor.
fn take_str<'reader, R: InnerReader<'reader>>(order: ByteOrder, reader: &mut R) -> (r: Result<
    &'reader str,
    (),
>)
    requires
        old(reader).wf(),
    ensures
        final(reader).wf(),
        match dec_str(order, old(reader).view()) {
            Some((value, next)) => {
                &&& r matches Ok(s)
                &&& s.spec_bytes() == value
                &&& final(reader).view() == old(reader).view().at(next)
            },
            None => r is Err && final(reader).view() == old(reader).view(),
        },
{
    let saved = reader.clone_reader();
    match take_bytes(order, reader) {
        Ok(bytes) => match utf8_str(bytes) {
            Some(s) => Ok(s),
            None => {
                *reader = saved;
                Err(())
            },
        },
        Err(_) => Err(()),
    }
}

/// The string at the cursor that a zero byte ends, without that byte.
fn take_cstr<'reader, R: InnerReader<'reader>>(reader: &mut R) -> (r: Result<&'reader [u8], ()>)
    requires
        old(reader).wf(),
    ensures
        final(reader).wf(),
        match dec_cstr(old(reader).view()) {
            Some((value, next)) => {
                &&& r matches Ok(bytes)
                &&& bytes@ == value
                &&& final(reader).view() == old(reader).view().at(next)
            },
            None => r is Err && final(reader).view() == old(reader).view(),
        },
{
    let ghost v = reader.view();
    let mut distance: usize = 0;
    proof {
        reader.lemma_bounded();
    }
    loop
        invariant
            reader.wf(),
            reader.view() == v,
            v == old(reader).view(),
            0 <= v.pos <= v.data.len() <= usize::MAX,
            v.pos + distance <= v.data.len(),
            forall|k: int| 0 <= k < distance ==> #[trigger] v.can_take(k, 1),
            forall|k: int| v.pos <= k < v.pos + distance ==> v.data[k] != 0,
        ensures
            v.can_take(distance as int, 1),
            v.data[v.pos + distance] == 0,
        decreases v.data.len() - v.pos - distance,
    {
        match reader.peek(1, distance) {
            Ok(byte) => {
                assert(byte@[0] == v.data[v.pos + distance]);
                if byte[0] == 0 {
                    break ;
                }
                distance = distance + 1;
            },
            Err(_) => {
                proof {
                    lemma_nul_distance_skip(v.data, v.pos, distance as int);
                    lemma_nul_distance_positive(v.data, v.pos + distance);
                    match nul_distance(v.data, v.pos) {
                        Some(found) => {
                            if v.can_take(0, found + 1) {
                                lemma_can_take_part(v, 0, found + 1, distance as int, 1);
                            }
                        },
                        None => {},
                    }
                }
                return Err(());
            },
        }
    }
    proof {
        assert(v.can_take(distance as int, 1));
        lemma_nul_distance_found(v.data, v.pos, distance as int);
        lemma_can_take_whole(v, distance + 1);
    }
    match reader.read(distance + 1) {
        Ok(bytes) => {
            let text = vstd::slice::slice_subrange(bytes, 0, distance);
            assert(text@ =~= v.bytes_at(0, distance as int));
            Ok(text)
        },
        Err(_) => Err(()),
    }
}

/// The slice of truth values at the cursor.
fn take_bools<'reader, R: InnerReader<'reader>>(order: ByteOrder, reader: &mut R) -> (r: Result<
    Vec<bool>,
    (),
>)
    requires
        old(reader).wf(),
    ensures
        final(reader).wf(),
        match dec_bool_slice(order, old(reader).view()) {
            Some((values, next)) => {
                &&& r matches Ok(vec)
                &&& vec@ == values
                &&& final(reader).view() == old(reader).view().at(next)
            },
            None => r is Err && final(reader).view() == old(reader).view(),
        },
{
    let saved = reader.clone_reader();
    let bytes = match take_bytes(order, reader) {
        Ok(bytes) => bytes,
        Err(_) => {
            return Err(());
        },
    };
    let count = bytes.len();
    let mut values: Vec<bool> = Vec::new();
    let mut i: usize = 0;
    while i < count
        invariant
            i <= count,
            count == bytes@.len(),
            values@.len() == i,
            forall|k: int| 0 <= k < i ==> bytes@[k] <= 1 && values@[k] == (bytes@[k] == 1),
            saved.wf(),
            saved.view() == old(reader).view(),
            reader.wf(),
            dec_bytes(order, old(reader).view()) == Some((bytes@, reader.view().pos)),
            reader.view() == old(reader).view().at(reader.view().pos),
        decreases count - i,
    {
        let byte = bytes[i];
        if byte > 1 {
            *reader = saved;
            return Err(());
        }
        values.push(byte == 1);
        i = i + 1;
    }
    assert(values@ =~= dec_bools(bytes@));
    Ok(values)
}

/// The slice of strings at the cursor.
fn take_strs<'reader, R: InnerReader<'reader>>(order: ByteOrder, reader: &mut R) -> (r: Result<
    Vec<&'reader str>,
    (),
>)
    requires
        old(reader).wf(),
    ensures
        final(reader).wf(),
        match dec_str_slice(order, old(reader).view()) {
            Some((values, next)) => r matches Ok(items) && bytes_of_strs(items@) == values
                && final(reader).view() == old(reader).view().at(next),
            None => r is Err && final(reader).view() == old(reader).view(),
        },
{
    let saved = reader.clone_reader();
    let count = match take_int::<usize, R>(order, reader) {
        Ok(count) => count,
        Err(_) => {
            return Err(());
        },
    };
    let ghost start = reader.view();
    let mut items: Vec<&'reader str> = Vec::new();
    let mut i: usize = 0;
    assert(bytes_of_strs(items@) =~= Seq::<Seq<u8>>::empty());
    while i < count
        invariant
            i <= count,
            reader.wf(),
            saved.wf(),
            saved.view() == old(reader).view(),
            reader.view() == start.at(reader.view().pos),
            dec_strs(order, start, i as nat) == Some((bytes_of_strs(items@), reader.view().pos)),
            dec_len(order, old(reader).view()) == Some((count as int, start.pos)),
            start == old(reader).view().at(start.pos),
        decreases count - i,
    {
        let ghost before = bytes_of_strs(items@);
        match take_str(order, reader) {
            Ok(item) => {
                items.push(item);
                assert(bytes_of_strs(items@) =~= before.push(item.spec_bytes()));
            },
            Err(_) => {
                proof {
                    lemma_dec_strs_none(order, start, (i + 1) as nat, count as nat);
                }
                *reader = saved;
                return Err(());
            },
        }
        i = i + 1;
    }
    Ok(items)
}

/// The slice of strings at the cursor that a zero byte ends.
fn take_cstrs<'reader, R: InnerReader<'reader>>(order: ByteOrder, reader: &mut R) -> (r: Result<
    Vec<&'reader [u8]>,
    (),
>)
    requires
        old(reader).wf(),
    ensures
        final(reader).wf(),
        match dec_cstr_slice(order, old(reader).view()) {
            Some((values, next)) => r matches Ok(items) && bytes_of_slices(items@) == values
                && final(reader).view() == old(reader).view().at(next),
            None => r is Err && final(reader).view() == old(reader).view(),
        },
{
    let saved = reader.clone_reader();
    let count = match take_int::<usize, R>(order, reader) {
        Ok(count) => count,
        Err(_) => {
            return Err(());
        },
    };
    let ghost start = reader.view();
    let mut items: Vec<&'reader [u8]> = Vec::new();
    let mut i: usize = 0;
    assert(bytes_of_slices(items@) =~= Seq::<Seq<u8>>::empty());
    while i < count
        invariant
            i <= count,
            reader.wf(),
            saved.wf(),
            saved.view() == old(reader).view(),
            reader.view() == start.at(reader.view().pos),
            dec_cstrs(start, i as nat) == Some((bytes_of_slices(items@), reader.view().pos)),
            dec_len(order, old(reader).view()) == Some((count as int, start.pos)),
            start == old(reader).view().at(start.pos),
        decreases count - i,
    {
        let ghost before = bytes_of_slices(items@);
        match take_cstr(reader) {
            Ok(item) => {
                items.push(item);
                assert(bytes_of_slices(items@) =~= before.push(item@));
            },
            Err(_) => {
                proof {
                    lemma_dec_cstrs_none(start, (i + 1) as nat, count as nat);
                }
                *reader = saved;
                return Err(());
            },
        }
        i = i + 1;
    }
    Ok(items)
}

/// Writes the dead simple format.
#[derive(Clone, Copy, Debug)]
pub struct DeadSimpleFormat {
    order: ByteOrder,
}

/// Reads the dead simple format.
#[derive(Clone, Copy, Debug)]
pub struct DeadSimpleFormatReader {
    order: ByteOrder,
}

impl DeadSimpleFormat {
    /// The format for the machine that runs the code.
    pub fn new() -> (format: DeadSimpleFormat)
        ensures
            format.wf(),
    {
        DeadSimpleFormat { order: ByteOrder::native() }
    }
}

impl DeadSimpleFormatReader {
    /// The format for the machine that runs the code.
    pub fn new() -> (format: DeadSimpleFormatReader)
        ensures
            format.wf(),
    {
        DeadSimpleFormatReader { order: ByteOrder::native() }
    }
}

impl WriteFormat for DeadSimpleFormat {
    closed spec fn wf(&self) -> bool {
        self.order == native_order()
    }

    open spec fn enc_int(&self, value: int, width: nat, signed: bool) -> Seq<u8> {
        encode_int(native_order(), value, width)
    }

    open spec fn enc_bool(&self, value: bool) -> Seq<u8> {
        enc_bool(value)
    }

    open spec fn enc_str(&self, bytes: Seq<u8>) -> Seq<u8> {
        enc_bytes(native_order(), bytes)
    }

    open spec fn enc_cstr(&self, bytes: Seq<u8>) -> Seq<u8> {
        enc_cstr(bytes)
    }

    open spec fn enc_bytes(&self, bytes: Seq<u8>) -> Seq<u8> {
        enc_bytes(native_order(), bytes)
    }

    open spec fn enc_slice(&self, values: Seq<int>, width: nat, signed: bool) -> Seq<u8> {
        enc_slice(native_order(), values, width)
    }

    open spec fn enc_bool_slice(&self, values: Seq<bool>) -> Seq<u8> {
        enc_bool_slice(native_order(), values)
    }

    open spec fn enc_str_slice(&self, items: Seq<Seq<u8>>) -> Seq<u8> {
        enc_str_slice(native_order(), items)
    }

    open spec fn enc_cstr_slice(&self, items: Seq<Seq<u8>>) -> Seq<u8> {
        enc_cstr_slice(native_order(), items)
    }

    fn write_u8(&self, out: &mut Vec<u8>, data: u8) {
        put_int(out, self.order, data);
    }

    fn write_u16(&self, out: &mut Vec<u8>, data: u16) {
        put_int(out, self.order, data);
    }

    fn write_u32(&self, out: &mut Vec<u8>, data: u32) {
        put_int(out, self.order, data);
    }

    fn write_u64(&self, out: &mut Vec<u8>, data: u64) {
        put_int(out, self.order, data);
    }

    fn write_usize(&self, out: &mut Vec<u8>, data: usize) {
        put_int(out, self.order, data);
    }

    fn write_i8(&self, out: &mut Vec<u8>, data: i8) {
        put_int(out, self.order, data);
    }

    fn write_i16(&self, out: &mut Vec<u8>, data: i16) {
        put_int(out, self.order, data);
    }

    fn write_i32(&self, out: &mut Vec<u8>, data: i32) {
        put_int(out, self.order, data);
    }

    fn write_i64(&self, out: &mut Vec<u8>, data: i64) {
        put_int(out, self.order, data);
    }

    fn write_isize(&self, out: &mut Vec<u8>, data: isize) {
        put_int(out, self.order, data);
    }

    fn write_bool(&self, out: &mut Vec<u8>, data: bool) {
        put_bool_byte(out, data);
    }

    fn write_str(&self, out: &mut Vec<u8>, data: &str) {
        put_bytes(out, self.order, data.as_bytes());
    }

    fn write_cstr(&self, out: &mut Vec<u8>, data: &[u8]) {
        put_cstr(out, data);
    }

    fn write_u8_slice(&self, out: &mut Vec<u8>, data: &[u8]) {
        put_bytes(out, self.order, data);
    }

    fn write_u16_slice(&self, out: &mut Vec<u8>, data: &[u16]) {
        put_ints(out, self.order, data);
    }

    fn write_u32_slice(&self, out: &mut Vec<u8>, data: &[u32]) {
        put_ints(out, self.order, data);
    }

    fn write_u64_slice(&self, out: &mut Vec<u8>, data: &[u64]) {
        put_ints(out, self.order, data);
    }

    fn write_usize_slice(&self, out: &mut Vec<u8>, data: &[usize]) {
        put_ints(out, self.order, data);
    }

    fn write_i8_slice(&self, out: &mut Vec<u8>, data: &[i8]) {
        put_ints(out, self.order, data);
    }

    fn write_i16_slice(&self, out: &mut Vec<u8>, data: &[i16]) {
        put_ints(out, self.order, data);
    }

    fn write_i32_slice(&self, out: &mut Vec<u8>, data: &[i32]) {
        put_ints(out, self.order, data);
    }

    fn write_i64_slice(&self, out: &mut Vec<u8>, data: &[i64]) {
        put_ints(out, self.order, data);
    }

    fn write_isize_slice(&self, out: &mut Vec<u8>, data: &[isize]) {
        put_ints(out, self.order, data);
    }

    fn write_bool_slice(&self, out: &mut Vec<u8>, data: &[bool]) {
        let count = data.len();
        put_len(out, self.order, count);
        let ghost head = enc_word(self.order, count as nat);
        let mut i: usize = 0;
        assert(out@ =~= old(out)@ + (head + enc_bools(data@.take(0))));
        while i < count
            invariant
                i <= count,
                count == data@.len(),
                head == enc_word(self.order, count as nat),
                out@ == old(out)@ + (head + enc_bools(data@.take(i as int))),
            decreases count - i,
        {
            put_bool_byte(out, data[i]);
            assert(out@ =~= old(out)@ + (head + enc_bools(data@.take(i as int + 1))));
            i = i + 1;
        }
        assert(data@.take(count as int) =~= data@);
    }

    fn write_str_slice(&self, out: &mut Vec<u8>, data: &[&str]) {
        let ghost items = bytes_of_strs(data@);
        let count = data.len();
        put_len(out, self.order, count);
        let ghost head = enc_word(self.order, count as nat);
        let mut i: usize = 0;
        assert(items.take(0) =~= Seq::<Seq<u8>>::empty());
        assert(out@ =~= old(out)@ + (head + enc_strs(self.order, items.take(0))));
        while i < count
            invariant
                i <= count,
                count == data@.len(),
                items == bytes_of_strs(data@),
                head == enc_word(self.order, count as nat),
                out@ == old(out)@ + (head + enc_strs(self.order, items.take(i as int))),
            decreases count - i,
        {
            put_bytes(out, self.order, data[i].as_bytes());
            proof {
                let next = items.take(i as int + 1);
                assert(next.drop_last() =~= items.take(i as int));
                assert(next.last() == data@[i as int].spec_bytes());
                assert(out@ =~= old(out)@ + (head + enc_strs(self.order, next)));
            }
            i = i + 1;
        }
        assert(items.take(count as int) =~= items);
    }

    fn write_cstr_slice(&self, out: &mut Vec<u8>, data: &[&[u8]]) {
        let ghost items = bytes_of_slices(data@);
        let count = data.len();
        put_len(out, self.order, count);
        let ghost head = enc_word(self.order, count as nat);
        let mut i: usize = 0;
        assert(items.take(0) =~= Seq::<Seq<u8>>::empty());
        assert(out@ =~= old(out)@ + (head + enc_cstrs(items.take(0))));
        while i < count
            invariant
                i <= count,
                count == data@.len(),
                items == bytes_of_slices(data@),
                head == enc_word(self.order, count as nat),
                out@ == old(out)@ + (head + enc_cstrs(items.take(i as int))),
            decreases count - i,
        {
            put_cstr(out, data[i]);
            proof {
                let next = items.take(i as int + 1);
                assert(next.drop_last() =~= items.take(i as int));
                assert(next.last() == data@[i as int]@);
                assert(out@ =~= old(out)@ + (head + enc_cstrs(next)));
            }
            i = i + 1;
        }
        assert(items.take(count as int) =~= items);
    }
}

impl ReadFormat for DeadSimpleFormatReader {
    closed spec fn wf(&self) -> bool {
        self.order == native_order()
    }

    open spec fn dec_int(&self, v: ReaderView, width: nat, signed: bool) -> Option<(int, int)> {
        dec_int(native_order(), v, width, signed)
    }

    open spec fn dec_bool(&self, v: ReaderView) -> Option<(bool, int)> {
        dec_bool(v)
    }

    open spec fn dec_str(&self, v: ReaderView) -> Option<(Seq<u8>, int)> {
        dec_str(native_order(), v)
    }

    open spec fn dec_cstr(&self, v: ReaderView) -> Option<(Seq<u8>, int)> {
        dec_cstr(v)
    }

    open spec fn dec_bytes(&self, v: ReaderView) -> Option<(Seq<u8>, int)> {
        dec_bytes(native_order(), v)
    }

    open spec fn dec_slice(&self, v: ReaderView, width: nat, signed: bool) -> Option<
        (Seq<int>, int),
    > {
        dec_slice(native_order(), v, width, signed)
    }

    open spec fn dec_bool_slice(&self, v: ReaderView) -> Option<(Seq<bool>, int)> {
        dec_bool_slice(native_order(), v)
    }

    open spec fn dec_str_slice(&self, v: ReaderView) -> Option<(Seq<Seq<u8>>, int)> {
        dec_str_slice(native_order(), v)
    }

    open spec fn dec_cstr_slice(&self, v: ReaderView) -> Option<(Seq<Seq<u8>>, int)> {
        dec_cstr_slice(native_order(), v)
    }

    fn read_u8<'reader, R: InnerReader<'reader>>(&self, reader: &mut R) -> (r: Result<u8, ()>) {
        take_int::<u8, R>(self.order, reader)
    }

    fn read_u16<'reader, R: InnerReader<'reader>>(&self, reader: &mut R) -> (r: Result<u16, ()>) {
        take_int::<u16, R>(self.order, reader)
    }

    fn read_u32<'reader, R: InnerReader<'reader>>(&self, reader: &mut R) -> (r: Result<u32, ()>) {
        take_int::<u32, R>(self.order, reader)
    }

    fn read_u64<'reader, R: InnerReader<'reader>>(&self, reader: &mut R) -> (r: Result<u64, ()>) {
        take_int::<u64, R>(self.order, reader)
    }

    fn read_usize<'reader, R: InnerReader<'reader>>(&self, reader: &mut R) -> (r: Result<
        usize,
        (),
    >) {
        take_int::<usize, R>(self.order, reader)
    }

    fn read_i8<'reader, R: InnerReader<'reader>>(&self, reader: &mut R) -> (r: Result<i8, ()>) {
        take_int::<i8, R>(self.order, reader)
    }

    fn read_i16<'reader, R: InnerReader<'reader>>(&self, reader: &mut R) -> (r: Result<i16, ()>) {
        take_int::<i16, R>(self.order, reader)
    }

    fn read_i32<'reader, R: InnerReader<'reader>>(&self, reader: &mut R) -> (r: Result<i32, ()>) {
        take_int::<i32, R>(self.order, reader)
    }

    fn read_i64<'reader, R: InnerReader<'reader>>(&self, reader: &mut R) -> (r: Result<i64, ()>) {
        take_int::<i64, R>(self.order, reader)
    }

    fn read_isize<'reader, R: InnerReader<'reader>>(&self, reader: &mut R) -> (r: Result<
        isize,
        (),
    >) {
        take_int::<isize, R>(self.order, reader)
    }

    fn read_bool<'reader, R: InnerReader<'reader>>(&self, reader: &mut R) -> (r: Result<bool, ()>) {
        take_bool(reader)
    }

    fn read_str<'reader, R: InnerReader<'reader>>(&self, reader: &mut R) -> (r: Result<
        &'reader str,
        (),
    >) {
        take_str(self.order, reader)
    }

    fn read_cstr<'reader, R: InnerReader<'reader>>(&self, reader: &mut R) -> (r: Result<
        &'reader [u8],
        (),
    >) {
        take_cstr(reader)
    }

    fn read_u8_slice<'reader, R: InnerReader<'reader>>(&self, reader: &mut R) -> (r: Result<
        &'reader [u8],
        (),
    >) {
        take_bytes(self.order, reader)
    }

    fn read_i8_slice<'reader, R: InnerReader<'reader>>(&self, reader: &mut R) -> (r: Result<
        &'reader [i8],
        (),
    >) {
        match take_elements::<i8, R>(self.order, reader) {
            Ok((count, bytes)) => Ok(borrow_i8s(bytes)),
            Err(_) => Err(()),
        }
    }

    fn read_u16_slice<'reader, R: InnerReader<'reader>>(&self, reader: &mut R) -> (r: Result<
        SliceReadResult<'reader, u16>,
        (),
    >) {
        match take_elements::<u16, R>(self.order, reader) {
            Ok((count, bytes)) => match borrow_u16s(bytes) {
                Some(slice) => {
                    assert(slice@.len() == count) by (nonlinear_arith)
                        requires
                            slice@.len() * 2 == count * 2,
                            2 >= 1,
                    ;
                    Ok(SliceReadResult::Borrowed(slice))
                },
                None => Ok(
                    SliceReadResult::Owned(decode_elements::<u16>(bytes, count, self.order)),
                ),
            },
            Err(_) => Err(()),
        }
    }

    fn read_u32_slice<'reader, R: InnerReader<'reader>>(&self, reader: &mut R) -> (r: Result<
        SliceReadResult<'reader, u32>,
        (),
    >) {
        match take_elements::<u32, R>(self.order, reader) {
            Ok((count, bytes)) => match borrow_u32s(bytes) {
                Some(slice) => {
                    assert(slice@.len() == count) by (nonlinear_arith)
                        requires
                            slice@.len() * 4 == count * 4,
                            4 >= 1,
                    ;
                    Ok(SliceReadResult::Borrowed(slice))
                },
                None => Ok(
                    SliceReadResult::Owned(decode_elements::<u32>(bytes, count, self.order)),
                ),
            },
            Err(_) => Err(()),
        }
    }

    fn read_u64_slice<'reader, R: InnerReader<'reader>>(&self, reader: &mut R) -> (r: Result<
        SliceReadResult<'reader, u64>,
        (),
    >) {
        match take_elements::<u64, R>(self.order, reader) {
            Ok((count, bytes)) => match borrow_u64s(bytes) {
                Some(slice) => {
                    assert(slice@.len() == count) by (nonlinear_arith)
                        requires
                            slice@.len() * 8 == count * 8,
                            8 >= 1,
                    ;
                    Ok(SliceReadResult::Borrowed(slice))
                },
                None => Ok(
                    SliceReadResult::Owned(decode_elements::<u64>(bytes, count, self.order)),
                ),
            },
            Err(_) => Err(()),
        }
    }

    fn read_usize_slice<'reader, R: InnerReader<'reader>>(&self, reader: &mut R) -> (r: Result<
        SliceReadResult<'reader, usize>,
        (),
    >) {
        match take_elements::<usize, R>(self.order, reader) {
            Ok((count, bytes)) => match borrow_usizes(bytes) {
                Some(slice) => {
                    assert(slice@.len() == count) by (nonlinear_arith)
                        requires
                            slice@.len() * word_size() == count * word_size(),
                            word_size() >= 1,
                    ;
                    Ok(SliceReadResult::Borrowed(slice))
                },
                None => Ok(
                    SliceReadResult::Owned(decode_elements::<usize>(bytes, count, self.order)),
                ),
            },
            Err(_) => Err(()),
        }
    }

    fn read_i16_slice<'reader, R: InnerReader<'reader>>(&self, reader: &mut R) -> (r: Result<
        SliceReadResult<'reader, i16>,
        (),
    >) {
        match take_elements::<i16, R>(self.order, reader) {
            Ok((count, bytes)) => match borrow_i16s(bytes) {
                Some(slice) => {
                    assert(slice@.len() == count) by (nonlinear_arith)
                        requires
                            slice@.len() * 2 == count * 2,
                            2 >= 1,
                    ;
                    Ok(SliceReadResult::Borrowed(slice))
                },
                None => Ok(
                    SliceReadResult::Owned(decode_elements::<i16>(bytes, count, self.order)),
                ),
            },
            Err(_) => Err(()),
        }
    }

    fn read_i32_slice<'reader, R: InnerReader<'reader>>(&self, reader: &mut R) -> (r: Result<
        SliceReadResult<'reader, i32>,
        (),
    >) {
        match take_elements::<i32, R>(self.order, reader) {
            Ok((count, bytes)) => match borrow_i32s(bytes) {
                Some(slice) => {
                    assert(slice@.len() == count) by (nonlinear_arith)
                        requires
                            slice@.len() * 4 == count * 4,
                            4 >= 1,
                    ;
                    Ok(SliceReadResult::Borrowed(slice))
                },
                None => Ok(
                    SliceReadResult::Owned(decode_elements::<i32>(bytes, count, self.order)),
                ),
            },
            Err(_) => Err(()),
        }
    }

    fn read_i64_slice<'reader, R: InnerReader<'reader>>(&self, reader: &mut R) -> (r: Result<
        SliceReadResult<'reader, i64>,
        (),
    >) {
        match take_elements::<i64, R>(self.order, reader) {
            Ok((count, bytes)) => match borrow_i64s(bytes) {
                Some(slice) => {
                    assert(slice@.len() == count) by (nonlinear_arith)
                        requires
                            slice@.len() * 8 == count * 8,
                            8 >= 1,
                    ;
                    Ok(SliceReadResult::Borrowed(slice))
                },
                None => Ok(
                    SliceReadResult::Owned(decode_elements::<i64>(bytes, count, self.order)),
                ),
            },
            Err(_) => Err(()),
        }
    }

    fn read_isize_slice<'reader, R: InnerReader<'reader>>(&self, reader: &mut R) -> (r: Result<
        SliceReadResult<'reader, isize>,
        (),
    >) {
        match take_elements::<isize, R>(self.order, reader) {
            Ok((count, bytes)) => match borrow_isizes(bytes) {
                Some(slice) => {
                    assert(slice@.len() == count) by (nonlinear_arith)
                        requires
                            slice@.len() * word_size() == count * word_size(),
                            word_size() >= 1,
                    ;
                    Ok(SliceReadResult::Borrowed(slice))
                },
                None => Ok(
                    SliceReadResult::Owned(decode_elements::<isize>(bytes, count, self.order)),
                ),
            },
            Err(_) => Err(()),
        }
    }

    fn read_bool_slice<'reader, R: InnerReader<'reader>>(&self, reader: &mut R) -> (r: Result<
        Vec<bool>,
        (),
    >) {
        take_bools(self.order, reader)
    }

    fn read_str_slice<'reader, R: InnerReader<'reader>>(&self, reader: &mut R) -> (r: Result<
        Vec<&'reader str>,
        (),
    >) {
        take_strs(self.order, reader)
    }

    fn read_cstr_slice<'reader, R: InnerReader<'reader>>(&self, reader: &mut R) -> (r: Result<
        Vec<&'reader [u8]>,
        (),
    >) {
        take_cstrs(self.order, reader)
    }
}

} // verus!
