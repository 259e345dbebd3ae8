//! Formats: the codecs that lay typed values out in bytes and read them
//! back, and what a codec needs from the bytes it reads, a cursor that
//! hands out bytes and refuses those that belong to an object reference.

use crate::bytes::{ints_of, word_size};
use crate::object::object_ref_size;
use vstd::prelude::*;
use vstd::string::StringSliceAdditionalSpecFns;

pub mod dead_simple;
pub mod roundtrip;

verus! {

/// A slice that was read: lent from the payload where that could be done,
/// copied where it could not.
pub enum SliceReadResult<'reader, T> {
    /// The elements as they lie in the payload.
    Borrowed(&'reader [T]),
    /// A copy of the elements.
    Owned(Vec<T>),
}

impl<'reader, T> View for SliceReadResult<'reader, T> {
    type V = Seq<T>;

    open spec fn view(&self) -> Seq<T> {
        match self {
            SliceReadResult::Borrowed(slice) => slice@,
            SliceReadResult::Owned(vec) => vec@,
        }
    }
}

impl<'reader, T> SliceReadResult<'reader, T> {
    /// The elements.
    pub fn as_slice(&self) -> (slice: &[T])
        ensures
            slice@ == self@,
    {
        match self {
            SliceReadResult::Borrowed(slice) => slice,
            SliceReadResult::Owned(vec) => vec.as_slice(),
        }
    }

    /// Whether the elements are lent from the payload.
    pub fn is_borrowed(&self) -> (yes: bool)
        ensures
            yes == (self is Borrowed),
    {
        match self {
            SliceReadResult::Borrowed(_) => true,
            SliceReadResult::Owned(_) => false,
        }
    }
}

/// Whether the `len` bytes from `start` on touch a reference that the table
/// `offsets` names.
pub open spec fn overlaps_reference(offsets: Seq<usize>, start: int, len: int) -> bool {
    len > 0 && exists|i: int|
        0 <= i < offsets.len() && (#[trigger] offsets[i]) < start + len && start < offsets[i]
            + object_ref_size()
}

/// A payload, its table of offsets, and a cursor into the payload.
pub struct ReaderView {
    pub data: Seq<u8>,
    pub offsets: Seq<usize>,
    pub pos: int,
}

impl ReaderView {
    /// Whether `len` bytes can be had `skip` bytes behind the cursor: they
    /// are there, and none of them belongs to a reference.
    pub open spec fn can_take(self, skip: int, len: int) -> bool {
        &&& 0 <= self.pos
        &&& 0 <= skip
        &&& 0 <= len
        &&& self.pos + skip + len <= self.data.len()
        &&& !overlaps_reference(self.offsets, self.pos + skip, len)
    }

    /// The `len` bytes that lie `skip` bytes behind the cursor.
    pub open spec fn bytes_at(self, skip: int, len: int) -> Seq<u8> {
        self.data.subrange(self.pos + skip, self.pos + skip + len)
    }

    /// The same payload with the cursor `len` bytes on.
    pub open spec fn advance(self, len: int) -> ReaderView {
        ReaderView { pos: self.pos + len, ..self }
    }

    /// The same payload with the cursor at `pos`.
    pub open spec fn at(self, pos: int) -> ReaderView {
        ReaderView { pos, ..self }
    }
}

/// A cursor over a payload that a codec reads through.
pub trait InnerReader<'reader>: Sized {
    /// The payload, its table of offsets and the place of the cursor.
    spec fn view(&self) -> ReaderView;

    /// Whether the cursor is in a state that its methods keep.
    spec fn wf(&self) -> bool;

    /// The cursor of a well-formed reader lies within the payload, whose
    /// length a machine word can count.
    proof fn lemma_bounded(&self)
        requires
            self.wf(),
        ensures
            0 <= self.view().pos <= self.view().data.len() <= usize::MAX,
    ;

    /// Another cursor at the same place over the same payload.
    fn clone_reader(&self) -> (copy: Self)
        requires
            self.wf(),
        ensures
            copy.wf(),
            copy.view() == self.view(),
    ;

    /// The `size` bytes that lie `offset` bytes behind the cursor, which
    /// stays where it is: an error where they cannot be had.
    fn peek(&self, size: usize, offset: usize) -> (r: Result<&'reader [u8], ()>)
        requires
            self.wf(),
        ensures
            match r {
                Ok(bytes) => self.view().can_take(offset as int, size as int) && bytes@
                    == self.view().bytes_at(offset as int, size as int),
                Err(_) => !self.view().can_take(offset as int, size as int),
            },
    ;

    /// The `size` bytes at the cursor, which moves behind them: an error
    /// where they cannot be had, and then the cursor stays.
    fn read(&mut self, size: usize) -> (r: Result<&'reader [u8], ()>)
        requires
            old(self).wf(),
        ensures
            final(self).wf(),
            match r {
                Ok(bytes) => old(self).view().can_take(0, size as int) && bytes@ == old(
                    self,
                ).view().bytes_at(0, size as int) && final(self).view() == old(
                    self,
                ).view().advance(size as int),
                Err(_) => !old(self).view().can_take(0, size as int) && final(self).view()
                    == old(self).view(),
            },
    ;
}

/// The byte strings of string slices.
pub open spec fn bytes_of_strs(items: Seq<&str>) -> Seq<Seq<u8>> {
    items.map_values(|s: &str| s.spec_bytes())
}

/// The byte strings of byte slices.
pub open spec fn bytes_of_slices(items: Seq<&[u8]>) -> Seq<Seq<u8>> {
    items.map_values(|s: &[u8]| s@)
}

/// Whether no byte of `bytes` is zero.
pub open spec fn no_nul(bytes: Seq<u8>) -> bool {
    forall|i: int| 0 <= i < bytes.len() ==> bytes[i] != 0
}

/// Bytes that can be had as a whole can be had in parts.
pub proof fn lemma_can_take_part(v: ReaderView, skip: int, len: int, from: int, part: int)
    requires
        v.can_take(skip, len),
        0 <= from,
        0 <= part,
        from + part <= len,
    ensures
        v.can_take(skip + from, part),
        v.at(v.pos + skip + from).can_take(0, part),
        v.at(v.pos + skip + from).bytes_at(0, part) == v.bytes_at(skip, len).subrange(
            from,
            from + part,
        ),
{
    if overlaps_reference(v.offsets, v.pos + skip + from, part) {
        let i = choose|i: int|
            0 <= i < v.offsets.len() && (#[trigger] v.offsets[i]) < v.pos + skip + from + part
                && v.pos + skip + from < v.offsets[i] + object_ref_size();
        assert(v.offsets[i] < v.pos + skip + len);
        assert(overlaps_reference(v.offsets, v.pos + skip, len));
    }
    assert(v.at(v.pos + skip + from).bytes_at(0, part) =~= v.bytes_at(skip, len).subrange(
        from,
        from + part,
    ));
}

/// Bytes that can be had one by one can be had as a whole.
pub proof fn lemma_can_take_whole(v: ReaderView, len: int)
    requires
        0 <= v.pos <= v.data.len(),
        0 <= len,
        forall|k: int| 0 <= k < len ==> #[trigger] v.can_take(k, 1),
    ensures
        v.can_take(0, len),
{
    if len > 0 {
        assert(v.can_take(len - 1, 1));
        if overlaps_reference(v.offsets, v.pos, len) {
            let i = choose|i: int|
                0 <= i < v.offsets.len() && (#[trigger] v.offsets[i]) < v.pos + len && v.pos
                    < v.offsets[i] + object_ref_size();
            let k = if v.offsets[i] >= v.pos {
                v.offsets[i] - v.pos
            } else {
                0
            };
            assert(v.can_take(k, 1));
            assert(overlaps_reference(v.offsets, v.pos + k, 1));
        }
    }
}

/// A codec for writing: it says how each kind of value is laid out in
/// bytes, and lays it out.
pub trait WriteFormat: Sized {
    /// Whether the format is in a state that its methods can work in.
    spec fn wf(&self) -> bool;

    /// The bytes of a number of `width` bytes, signed or unsigned.
    spec fn enc_int(&self, value: int, width: nat, signed: bool) -> Seq<u8>;

    /// The bytes of a truth value.
    spec fn enc_bool(&self, value: bool) -> Seq<u8>;

    /// The bytes of a string whose UTF-8 bytes are `bytes`.
    spec fn enc_str(&self, bytes: Seq<u8>) -> Seq<u8>;

    /// The bytes of a string that a zero byte ends.
    spec fn enc_cstr(&self, bytes: Seq<u8>) -> Seq<u8>;

    /// The bytes of a slice of bytes.
    spec fn enc_bytes(&self, bytes: Seq<u8>) -> Seq<u8>;

    /// The bytes of a slice of numbers of `width` bytes each.
    spec fn enc_slice(&self, values: Seq<int>, width: nat, signed: bool) -> Seq<u8>;

    /// The bytes of a slice of truth values.
    spec fn enc_bool_slice(&self, values: Seq<bool>) -> Seq<u8>;

    /// The bytes of a slice of strings.
    spec fn enc_str_slice(&self, items: Seq<Seq<u8>>) -> Seq<u8>;

    /// The bytes of a slice of strings that a zero byte ends.
    spec fn enc_cstr_slice(&self, items: Seq<Seq<u8>>) -> Seq<u8>;

    /// Appends an unsigned number of one byte to `out`.
    fn write_u8(&self, out: &mut Vec<u8>, data: u8)
        requires
            self.wf(),
        ensures
            final(out)@ == old(out)@ + self.enc_int(data as int, 1, false),
    ;

    /// Appends an unsigned number of two bytes to `out`.
    fn write_u16(&self, out: &mut Vec<u8>, data: u16)
        requires
            self.wf(),
        ensures
            final(out)@ == old(out)@ + self.enc_int(data as int, 2, false),
    ;

    /// Appends an unsigned number of four bytes to `out`.
    fn write_u32(&self, out: &mut Vec<u8>, data: u32)
        requires
            self.wf(),
        ensures
            final(out)@ == old(out)@ + self.enc_int(data as int, 4, false),
    ;

    /// Appends an unsigned number of eight bytes to `out`.
    fn write_u64(&self, out: &mut Vec<u8>, data: u64)
        requires
            self.wf(),
        ensures
            final(out)@ == old(out)@ + self.enc_int(data as int, 8, false),
    ;

    /// Appends an unsigned number of one machine word to `out`.
    fn write_usize(&self, out: &mut Vec<u8>, data: usize)
        requires
            self.wf(),
        ensures
            final(out)@ == old(out)@ + self.enc_int(data as int, word_size(), false),
    ;

    /// Appends a signed number of one byte to `out`.
    fn write_i8(&self, out: &mut Vec<u8>, data: i8)
        requires
            self.wf(),
        ensures
            final(out)@ == old(out)@ + self.enc_int(data as int, 1, true),
    ;

    /// Appends a signed number of two bytes to `out`.
    fn write_i16(&self, out: &mut Vec<u8>, data: i16)
        requires
            self.wf(),
        ensures
            final(out)@ == old(out)@ + self.enc_int(data as int, 2, true),
    ;

    /// Appends a signed number of four bytes to `out`.
    fn write_i32(&self, out: &mut Vec<u8>, data: i32)
        requires
            self.wf(),
        ensures
            final(out)@ == old(out)@ + self.enc_int(data as int, 4, true),
    ;

    /// Appends a signed number of eight bytes to `out`.
    fn write_i64(&self, out: &mut Vec<u8>, data: i64)
        requires
            self.wf(),
        ensures
            final(out)@ == old(out)@ + self.enc_int(data as int, 8, true),
    ;

    /// Appends a signed number of one machine word to `out`.
    fn write_isize(&self, out: &mut Vec<u8>, data: isize)
        requires
            self.wf(),
        ensures
            final(out)@ == old(out)@ + self.enc_int(data as int, word_size(), true),
    ;

    /// Appends a truth value to `out`.
    fn write_bool(&self, out: &mut Vec<u8>, data: bool)
        requires
            self.wf(),
        ensures
            final(out)@ == old(out)@ + self.enc_bool(data),
    ;

    /// Appends a string to `out`.
    fn write_str(&self, out: &mut Vec<u8>, data: &str)
        requires
            self.wf(),
        ensures
            final(out)@ == old(out)@ + self.enc_str(data.spec_bytes()),
    ;

    /// Appends to `out` a string that a zero byte ends, given as its
    /// bytes without that byte, none of which is zero.
    fn write_cstr(&self, out: &mut Vec<u8>, data: &[u8])
        requires
            self.wf(),
            no_nul(data@),
        ensures
            final(out)@ == old(out)@ + self.enc_cstr(data@),
    ;

    /// Appends a slice of bytes to `out`.
    fn write_u8_slice(&self, out: &mut Vec<u8>, data: &[u8])
        requires
            self.wf(),
        ensures
            final(out)@ == old(out)@ + self.enc_bytes(data@),
    ;

    /// Appends a slice of `u16` to `out`.
    fn write_u16_slice(&self, out: &mut Vec<u8>, data: &[u16])
        requires
            self.wf(),
        ensures
            final(out)@ == old(out)@ + self.enc_slice(ints_of(data@), 2, false),
    ;

    /// Appends a slice of `u32` to `out`.
    fn write_u32_slice(&self, out: &mut Vec<u8>, data: &[u32])
        requires
            self.wf(),
        ensures
            final(out)@ == old(out)@ + self.enc_slice(ints_of(data@), 4, false),
    ;

    /// Appends a slice of `u64` to `out`.
    fn write_u64_slice(&self, out: &mut Vec<u8>, data: &[u64])
        requires
            self.wf(),
        ensures
            final(out)@ == old(out)@ + self.enc_slice(ints_of(data@), 8, false),
    ;

    /// Appends a slice of `usize` to `out`.
    fn write_usize_slice(&self, out: &mut Vec<u8>, data: &[usize])
        requires
            self.wf(),
        ensures
            final(out)@ == old(out)@ + self.enc_slice(ints_of(data@), word_size(), false),
    ;

    /// Appends a slice of `i8` to `out`.
    fn write_i8_slice(&self, out: &mut Vec<u8>, data: &[i8])
        requires
            self.wf(),
        ensures
            final(out)@ == old(out)@ + self.enc_slice(ints_of(data@), 1, true),
    ;

    /// Appends a slice of `i16` to `out`.
    fn write_i16_slice(&self, out: &mut Vec<u8>, data: &[i16])
        requires
            self.wf(),
        ensures
            final(out)@ == old(out)@ + self.enc_slice(ints_of(data@), 2, true),
    ;

    /// Appends a slice of `i32` to `out`.
    fn write_i32_slice(&self, out: &mut Vec<u8>, data: &[i32])
        requires
            self.wf(),
        ensures
            final(out)@ == old(out)@ + self.enc_slice(ints_of(data@), 4, true),
    ;

    /// Appends a slice of `i64` to `out`.
    fn write_i64_slice(&self, out: &mut Vec<u8>, data: &[i64])
        requires
            self.wf(),
        ensures
            final(out)@ == old(out)@ + self.enc_slice(ints_of(data@), 8, true),
    ;

    /// Appends a slice of `isize` to `out`.
    fn write_isize_slice(&self, out: &mut Vec<u8>, data: &[isize])
        requires
            self.wf(),
        ensures
            final(out)@ == old(out)@ + self.enc_slice(ints_of(data@), word_size(), true),
    ;

    /// Appends a slice of truth values to `out`.
    fn write_bool_slice(&self, out: &mut Vec<u8>, data: &[bool])
        requires
            self.wf(),
        ensures
            final(out)@ == old(out)@ + self.enc_bool_slice(data@),
    ;

    /// Appends a slice of strings to `out`.
    fn write_str_slice(&self, out: &mut Vec<u8>, data: &[&str])
        requires
            self.wf(),
        ensures
            final(out)@ == old(out)@ + self.enc_str_slice(bytes_of_strs(data@)),
    ;

    /// Appends to `out` a slice of strings that a zero byte ends, each
    /// given as its bytes without that byte, none of which is zero.
    fn write_cstr_slice(&self, out: &mut Vec<u8>, data: &[&[u8]])
        requires
            self.wf(),
            forall|i: int| 0 <= i < data@.len() ==> no_nul(#[trigger] data@[i]@),
        ensures
            final(out)@ == old(out)@ + self.enc_cstr_slice(bytes_of_slices(data@)),
    ;
}

/// A codec for reading: it says what value of each kind lies at a cursor
/// and where the cursor comes to stand, and reads it. A read that fails
/// leaves the cursor where it was.
pub trait ReadFormat: Sized {
    /// Whether the format is in a state that its methods can work in.
    spec fn wf(&self) -> bool;

    /// The number of `width` bytes at the cursor, and the place behind it.
    spec fn dec_int(&self, v: ReaderView, width: nat, signed: bool) -> Option<(int, int)>;

    /// The truth value at the cursor, and the place behind it.
    spec fn dec_bool(&self, v: ReaderView) -> Option<(bool, int)>;

    /// The string at the cursor, as its UTF-8 bytes, and the place behind
    /// it.
    spec fn dec_str(&self, v: ReaderView) -> Option<(Seq<u8>, int)>;

    /// The string at the cursor that a zero byte ends, without that byte,
    /// and the place behind it.
    spec fn dec_cstr(&self, v: ReaderView) -> Option<(Seq<u8>, int)>;

    /// The slice of bytes at the cursor, and the place behind it.
    spec fn dec_bytes(&self, v: ReaderView) -> Option<(Seq<u8>, int)>;

    /// The slice of numbers of `width` bytes each at the cursor, and the
    /// place behind it.
    spec fn dec_slice(&self, v: ReaderView, width: nat, signed: bool) -> Option<(Seq<int>, int)>;

    /// The slice of truth values at the cursor, and the place behind it.
    spec fn dec_bool_slice(&self, v: ReaderView) -> Option<(Seq<bool>, int)>;

    /// The slice of strings at the cursor, and the place behind it.
    spec fn dec_str_slice(&self, v: ReaderView) -> Option<(Seq<Seq<u8>>, int)>;

    /// The slice of strings at the cursor that a zero byte ends, and the
    /// place behind it.
    spec fn dec_cstr_slice(&self, v: ReaderView) -> Option<(Seq<Seq<u8>>, int)>;

    /// Reads an unsigned number of one byte.
    fn read_u8<'reader, R: InnerReader<'reader>>(&self, reader: &mut R) -> (r: Result<u8, ()>)
        requires
            self.wf(),
            old(reader).wf(),
        ensures
            final(reader).wf(),
            match self.dec_int(old(reader).view(), 1, false) {
                Some((value, next)) => {
                    &&& r matches Ok(x)
                    &&& x as int == value
                    &&& final(reader).view() == old(reader).view().at(next)
                },
                None => r is Err && final(reader).view() == old(reader).view(),
            },
    ;

    /// Reads an unsigned number of two bytes.
    fn read_u16<'reader, R: InnerReader<'reader>>(&self, reader: &mut R) -> (r: Result<u16, ()>)
        requires
            self.wf(),
            old(reader).wf(),
        ensures
            final(reader).wf(),
            match self.dec_int(old(reader).view(), 2, false) {
                Some((value, next)) => {
                    &&& r matches Ok(x)
                    &&& x as int == value
                    &&& final(reader).view() == old(reader).view().at(next)
                },
                None => r is Err && final(reader).view() == old(reader).view(),
            },
    ;

    /// Reads an unsigned number of four bytes.
    fn read_u32<'reader, R: InnerReader<'reader>>(&self, reader: &mut R) -> (r: Result<u32, ()>)
        requires
            self.wf(),
            old(reader).wf(),
        ensures
            final(reader).wf(),
            match self.dec_int(old(reader).view(), 4, false) {
                Some((value, next)) => {
                    &&& r matches Ok(x)
                    &&& x as int == value
                    &&& final(reader).view() == old(reader).view().at(next)
                },
                None => r is Err && final(reader).view() == old(reader).view(),
            },
    ;

    /// Reads an unsigned number of eight bytes.
    fn read_u64<'reader, R: InnerReader<'reader>>(&self, reader: &mut R) -> (r: Result<u64, ()>)
        requires
            self.wf(),
            old(reader).wf(),
        ensures
            final(reader).wf(),
            match self.dec_int(old(reader).view(), 8, false) {
                Some((value, next)) => {
                    &&& r matches Ok(x)
                    &&& x as int == value
                    &&& final(reader).view() == old(reader).view().at(next)
                },
                None => r is Err && final(reader).view() == old(reader).view(),
            },
    ;

    /// Reads an unsigned number of one machine word.
    fn read_usize<'reader, R: InnerReader<'reader>>(&self, reader: &mut R) -> (r: Result<
        usize,
        (),
    >)
        requires
            self.wf(),
            old(reader).wf(),
        ensures
            final(reader).wf(),
            match self.dec_int(old(reader).view(), word_size(), false) {
                Some((value, next)) => {
                    &&& r matches Ok(x)
                    &&& x as int == value
                    &&& final(reader).view() == old(reader).view().at(next)
                },
                None => r is Err && final(reader).view() == old(reader).view(),
            },
    ;

    /// Reads a signed number of one byte.
    fn read_i8<'reader, R: InnerReader<'reader>>(&self, reader: &mut R) -> (r: Result<i8, ()>)
        requires
            self.wf(),
            old(reader).wf(),
        ensures
            final(reader).wf(),
            match self.dec_int(old(reader).view(), 1, true) {
                Some((value, next)) => {
                    &&& r matches Ok(x)
                    &&& x as int == value
                    &&& final(reader).view() == old(reader).view().at(next)
                },
                None => r is Err && final(reader).view() == old(reader).view(),
            },
    ;

    /// Reads a signed number of two bytes.
    fn read_i16<'reader, R: InnerReader<'reader>>(&self, reader: &mut R) -> (r: Result<i16, ()>)
        requires
            self.wf(),
            old(reader).wf(),
        ensures
            final(reader).wf(),
            match self.dec_int(old(reader).view(), 2, true) {
                Some((value, next)) => {
                    &&& r matches Ok(x)
                    &&& x as int == value
                    &&& final(reader).view() == old(reader).view().at(next)
                },
                None => r is Err && final(reader).view() == old(reader).view(),
            },
    ;

    /// Reads a signed number of four bytes.
    fn read_i32<'reader, R: InnerReader<'reader>>(&self, reader: &mut R) -> (r: Result<i32, ()>)
        requires
            self.wf(),
            old(reader).wf(),
        ensures
            final(reader).wf(),
            match self.dec_int(old(reader).view(), 4, true) {
                Some((value, next)) => {
                    &&& r matches Ok(x)
                    &&& x as int == value
                    &&& final(reader).view() == old(reader).view().at(next)
                },
                None => r is Err && final(reader).view() == old(reader).view(),
            },
    ;

    /// Reads a signed number of eight bytes.
    fn read_i64<'reader, R: InnerReader<'reader>>(&self, reader: &mut R) -> (r: Result<i64, ()>)
        requires
            self.wf(),
            old(reader).wf(),
        ensures
            final(reader).wf(),
            match self.dec_int(old(reader).view(), 8, true) {
                Some((value, next)) => {
                    &&& r matches Ok(x)
                    &&& x as int == value
                    &&& final(reader).view() == old(reader).view().at(next)
                },
                None => r is Err && final(reader).view() == old(reader).view(),
            },
    ;

    /// Reads a signed number of one machine word.
    fn read_isize<'reader, R: InnerReader<'reader>>(&self, reader: &mut R) -> (r: Result<
        isize,
        (),
    >)
        requires
            self.wf(),
            old(reader).wf(),
        ensures
            final(reader).wf(),
            match self.dec_int(old(reader).view(), word_size(), true) {
                Some((value, next)) => {
                    &&& r matches Ok(x)
                    &&& x as int == value
                    &&& final(reader).view() == old(reader).view().at(next)
                },
                None => r is Err && final(reader).view() == old(reader).view(),
            },
    ;

    /// Reads a truth value.
    fn read_bool<'reader, R: InnerReader<'reader>>(&self, reader: &mut R) -> (r: Result<
        bool,
        (),
    >)
        requires
            self.wf(),
            old(reader).wf(),
        ensures
            final(reader).wf(),
            match self.dec_bool(old(reader).view()) {
                Some((value, next)) => {
                    &&& r matches Ok(x)
                    &&& x == value
                    &&& final(reader).view() == old(reader).view().at(next)
                },
                None => r is Err && final(reader).view() == old(reader).view(),
            },
    ;

    /// Reads a string.
    fn read_str<'reader, R: InnerReader<'reader>>(&self, reader: &mut R) -> (r: Result<
        &'reader str,
        (),
    >)
        requires
            self.wf(),
            old(reader).wf(),
        ensures
            final(reader).wf(),
            match self.dec_str(old(reader).view()) {
                Some((value, next)) => {
                    &&& r matches Ok(x)
                    &&& x.spec_bytes() == value
                    &&& final(reader).view() == old(reader).view().at(next)
                },
                None => r is Err && final(reader).view() == old(reader).view(),
            },
    ;

    /// Reads a string that a zero byte ends, and returns it without that byte.
    fn read_cstr<'reader, R: InnerReader<'reader>>(&self, reader: &mut R) -> (r: Result<
        &'reader [u8],
        (),
    >)
        requires
            self.wf(),
            old(reader).wf(),
        ensures
            final(reader).wf(),
            match self.dec_cstr(old(reader).view()) {
                Some((value, next)) => {
                    &&& r matches Ok(x)
                    &&& x@ == value
                    &&& final(reader).view() == old(reader).view().at(next)
                },
                None => r is Err && final(reader).view() == old(reader).view(),
            },
    ;

    /// Reads a slice of bytes, lent from the payload.
    fn read_u8_slice<'reader, R: InnerReader<'reader>>(&self, reader: &mut R) -> (r: Result<
        &'reader [u8],
        (),
    >)
        requires
            self.wf(),
            old(reader).wf(),
        ensures
            final(reader).wf(),
            match self.dec_bytes(old(reader).view()) {
                Some((value, next)) => {
                    &&& r matches Ok(x)
                    &&& x@ == value
                    &&& final(reader).view() == old(reader).view().at(next)
                },
                None => r is Err && final(reader).view() == old(reader).view(),
            },
    ;

    /// Reads a slice of `i8`, lent from the payload.
    fn read_i8_slice<'reader, R: InnerReader<'reader>>(&self, reader: &mut R) -> (r: Result<
        &'reader [i8],
        (),
    >)
        requires
            self.wf(),
            old(reader).wf(),
        ensures
            final(reader).wf(),
            match self.dec_slice(old(reader).view(), 1, true) {
                Some((value, next)) => {
                    &&& r matches Ok(x)
                    &&& ints_of(x@) == value
                    &&& final(reader).view() == old(reader).view().at(next)
                },
                None => r is Err && final(reader).view() == old(reader).view(),
            },
    ;

    /// Reads a slice of `u16`, lent from the payload where that can be done and
    /// copied where it cannot.
    fn read_u16_slice<'reader, R: InnerReader<'reader>>(&self, reader: &mut R) -> (r: Result<
        SliceReadResult<'reader, u16>,
        (),
    >)
        requires
            self.wf(),
            old(reader).wf(),
        ensures
            final(reader).wf(),
            match self.dec_slice(old(reader).view(), 2, false) {
                Some((value, next)) => {
                    &&& r matches Ok(x)
                    &&& ints_of(x@) == value
                    &&& final(reader).view() == old(reader).view().at(next)
                },
                None => r is Err && final(reader).view() == old(reader).view(),
            },
    ;

    /// Reads a slice of `u32`, lent from the payload where that can be done and
    /// copied where it cannot.
    fn read_u32_slice<'reader, R: InnerReader<'reader>>(&self, reader: &mut R) -> (r: Result<
        SliceReadResult<'reader, u32>,
        (),
    >)
        requires
            self.wf(),
            old(reader).wf(),
        ensures
            final(reader).wf(),
            match self.dec_slice(old(reader).view(), 4, false) {
                Some((value, next)) => {
                    &&& r matches Ok(x)
                    &&& ints_of(x@) == value
                    &&& final(reader).view() == old(reader).view().at(next)
                },
                None => r is Err && final(reader).view() == old(reader).view(),
            },
    ;

    /// Reads a slice of `u64`, lent from the payload where that can be done and
    /// copied where it cannot.
    fn read_u64_slice<'reader, R: InnerReader<'reader>>(&self, reader: &mut R) -> (r: Result<
        SliceReadResult<'reader, u64>,
        (),
    >)
        requires
            self.wf(),
            old(reader).wf(),
        ensures
            final(reader).wf(),
            match self.dec_slice(old(reader).view(), 8, false) {
                Some((value, next)) => {
                    &&& r matches Ok(x)
                    &&& ints_of(x@) == value
                    &&& final(reader).view() == old(reader).view().at(next)
                },
                None => r is Err && final(reader).view() == old(reader).view(),
            },
    ;

    /// Reads a slice of `usize`, lent from the payload where that can be done
    /// and copied where it cannot.
    fn read_usize_slice<'reader, R: InnerReader<'reader>>(&self, reader: &mut R) -> (r: Result<
        SliceReadResult<'reader, usize>,
        (),
    >)
        requires
            self.wf(),
            old(reader).wf(),
        ensures
            final(reader).wf(),
            match self.dec_slice(old(reader).view(), word_size(), false) {
                Some((value, next)) => {
                    &&& r matches Ok(x)
                    &&& ints_of(x@) == value
                    &&& final(reader).view() == old(reader).view().at(next)
                },
                None => r is Err && final(reader).view() == old(reader).view(),
            },
    ;

    /// Reads a slice of `i16`, lent from the payload where that can be done and
    /// copied where it cannot.
    fn read_i16_slice<'reader, R: InnerReader<'reader>>(&self, reader: &mut R) -> (r: Result<
        SliceReadResult<'reader, i16>,
        (),
    >)
        requires
            self.wf(),
            old(reader).wf(),
        ensures
            final(reader).wf(),
            match self.dec_slice(old(reader).view(), 2, true) {
                Some((value, next)) => {
                    &&& r matches Ok(x)
                    &&& ints_of(x@) == value
                    &&& final(reader).view() == old(reader).view().at(next)
                },
                None => r is Err && final(reader).view() == old(reader).view(),
            },
    ;

    /// Reads a slice of `i32`, lent from the payload where that can be done and
    /// copied where it cannot.
    fn read_i32_slice<'reader, R: InnerReader<'reader>>(&self, reader: &mut R) -> (r: Result<
        SliceReadResult<'reader, i32>,
        (),
    >)
        requires
            self.wf(),
            old(reader).wf(),
        ensures
            final(reader).wf(),
            match self.dec_slice(old(reader).view(), 4, true) {
                Some((value, next)) => {
                    &&& r matches Ok(x)
                    &&& ints_of(x@) == value
                    &&& final(reader).view() == old(reader).view().at(next)
                },
                None => r is Err && final(reader).view() == old(reader).view(),
            },
    ;

    /// Reads a slice of `i64`, lent from the payload where that can be done and
    /// copied where it cannot.
    fn read_i64_slice<'reader, R: InnerReader<'reader>>(&self, reader: &mut R) -> (r: Result<
        SliceReadResult<'reader, i64>,
        (),
    >)
        requires
            self.wf(),
            old(reader).wf(),
        ensures
            final(reader).wf(),
            match self.dec_slice(old(reader).view(), 8, true) {
                Some((value, next)) => {
                    &&& r matches Ok(x)
                    &&& ints_of(x@) == value
                    &&& final(reader).view() == old(reader).view().at(next)
                },
                None => r is Err && final(reader).view() == old(reader).view(),
            },
    ;

    /// Reads a slice of `isize`, lent from the payload where that can be done
    /// and copied where it cannot.
    fn read_isize_slice<'reader, R: InnerReader<'reader>>(&self, reader: &mut R) -> (r: Result<
        SliceReadResult<'reader, isize>,
        (),
    >)
        requires
            self.wf(),
            old(reader).wf(),
        ensures
            final(reader).wf(),
            match self.dec_slice(old(reader).view(), word_size(), true) {
                Some((value, next)) => {
                    &&& r matches Ok(x)
                    &&& ints_of(x@) == value
                    &&& final(reader).view() == old(reader).view().at(next)
                },
                None => r is Err && final(reader).view() == old(reader).view(),
            },
    ;

    /// Reads a slice of truth values.
    fn read_bool_slice<'reader, R: InnerReader<'reader>>(&self, reader: &mut R) -> (r: Result<
        Vec<bool>,
        (),
    >)
        requires
            self.wf(),
            old(reader).wf(),
        ensures
            final(reader).wf(),
            match self.dec_bool_slice(old(reader).view()) {
                Some((value, next)) => {
                    &&& r matches Ok(x)
                    &&& x@ == value
                    &&& final(reader).view() == old(reader).view().at(next)
                },
                None => r is Err && final(reader).view() == old(reader).view(),
            },
    ;

    /// Reads a slice of strings.
    fn read_str_slice<'reader, R: InnerReader<'reader>>(&self, reader: &mut R) -> (r: Result<
        Vec<&'reader str>,
        (),
    >)
        requires
            self.wf(),
            old(reader).wf(),
        ensures
            final(reader).wf(),
            match self.dec_str_slice(old(reader).view()) {
                Some((value, next)) => {
                    &&& r matches Ok(x)
                    &&& bytes_of_strs(x@) == value
                    &&& final(reader).view() == old(reader).view().at(next)
                },
                None => r is Err && final(reader).view() == old(reader).view(),
            },
    ;

    /// Reads a slice of strings that a zero byte ends.
    fn read_cstr_slice<'reader, R: InnerReader<'reader>>(&self, reader: &mut R) -> (r: Result<
        Vec<&'reader [u8]>,
        (),
    >)
        requires
            self.wf(),
            old(reader).wf(),
        ensures
            final(reader).wf(),
            match self.dec_cstr_slice(old(reader).view()) {
                Some((value, next)) => {
                    &&& r matches Ok(x)
                    &&& bytes_of_slices(x@) == value
                    &&& final(reader).view() == old(reader).view().at(next)
                },
                None => r is Err && final(reader).view() == old(reader).view(),
            },
    ;
}

} // verus!
