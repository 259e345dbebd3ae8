//! The reader: typed values out of the data of a packet.

use crate::binder_object::FromProxy;
use crate::bytes::{ints_of, native_order, word_bytes, word_size};
use crate::formats::dead_simple::{dec_reference, is_offset, DeadSimpleFormatReader};
use crate::formats::{
    bytes_of_slices, bytes_of_strs, overlaps_reference, InnerReader, ReadFormat, ReaderView,
    SliceReadResult,
};
use crate::object::{object_ref_size, ObjectRef, ObjectRefLocal, ObjectRefRemote};
use crate::packet::Packet;
use crate::reference::{can_hold, counts_after_hold, RemoteHandles};
use vstd::prelude::*;
use vstd::string::StringSliceAdditionalSpecFns;

verus! {

/// A cursor over the data of a packet.
#[derive(Clone, Copy)]
pub struct ReaderState<'packet> {
    data: &'packet [u8],
    offsets: &'packet [usize],
    pos: usize,
}

impl<'packet> ReaderState<'packet> {
    /// A cursor at the start of `data`, whose references `offsets` names.
    pub fn new(data: &'packet [u8], offsets: &'packet [usize]) -> (state: ReaderState<'packet>)
        ensures
            state.wf(),
            state.view() == (ReaderView { data: data@, offsets: offsets@, pos: 0 }),
    {
        assert(vstd::slice::spec_slice_len(data) == data@.len());
        ReaderState { data, offsets, pos: 0 }
    }

    /// Whether the `len` bytes from `start` on touch a reference.
    fn touches_reference(&self, start: usize, len: usize) -> (yes: bool)
        ensures
            yes == overlaps_reference(self.offsets@, start as int, len as int),
    {
        if len == 0 {
            return false;
        }
        let size = 8 + 2 * word_bytes();
        let count = self.offsets.len();
        let mut i: usize = 0;
        while i < count
            invariant
                i <= count,
                count == self.offsets@.len(),
                size == object_ref_size(),
                len > 0,
                forall|k: int|
                    0 <= k < i ==> !((#[trigger] self.offsets@[k]) < start + len && start
                        < self.offsets@[k] + object_ref_size()),
            decreases count - i,
        {
            let at = self.offsets[i];
            let hit = if at >= start {
                at - start < len
            } else {
                start - at < size
            };
            if hit {
                return true;
            }
            i = i + 1;
        }
        false
    }

    /// Whether `len` bytes can be had at the cursor, or `is_peeking` bytes
    /// behind it: they are there and none belongs to a reference.
    pub fn check_for_primitive_read_safety(&self, len: usize, is_peeking: Option<usize>) -> (ok:
        bool)
        requires
            self.wf(),
        ensures
            ok == self.view().can_take(
                match is_peeking {
                    Some(skip) => skip as int,
                    None => 0,
                },
                len as int,
            ),
    {
        let skip = match is_peeking {
            Some(skip) => skip,
            None => 0,
        };
        let left = self.data.len() - self.pos;
        if skip > left || len > left - skip {
            return false;
        }
        !self.touches_reference(self.pos + skip, len)
    }

    /// Number of bytes from the start of the data to the cursor, or to
    /// `is_peeking` bytes behind it.
    pub fn get_cur_offset(&self, is_peeking: Option<usize>) -> (offset: usize)
        requires
            self.wf(),
            match is_peeking {
                Some(skip) => self.view().pos + skip <= self.view().data.len(),
                None => true,
            },
        ensures
            offset == self.view().pos + match is_peeking {
                Some(skip) => skip as int,
                None => 0,
            },
    {
        match is_peeking {
            Some(skip) => self.pos + skip,
            None => self.pos,
        }
    }
}

impl<'packet> InnerReader<'packet> for ReaderState<'packet> {
    closed spec fn view(&self) -> ReaderView {
        ReaderView { data: self.data@, offsets: self.offsets@, pos: self.pos as int }
    }

    closed spec fn wf(&self) -> bool {
        self.pos <= self.data@.len() <= usize::MAX
    }

    proof fn lemma_bounded(&self) {
    }

    fn clone_reader(&self) -> (copy: Self) {
        *self
    }

    fn peek(&self, size: usize, offset: usize) -> (r: Result<&'packet [u8], ()>) {
        if !self.check_for_primitive_read_safety(size, Some(offset)) {
            return Err(());
        }
        let from = self.pos + offset;
        Ok(vstd::slice::slice_subrange(self.data, from, from + size))
    }

    fn read(&mut self, size: usize) -> (r: Result<&'packet [u8], ()>) {
        if !self.check_for_primitive_read_safety(size, None) {
            return Err(());
        }
        let from = self.pos;
        self.pos = from + size;
        Ok(vstd::slice::slice_subrange(self.data, from, from + size))
    }
}

/// Reads typed values out of the data of a packet, laid out as the format
/// says.
pub struct Reader<'packet, F: ReadFormat = DeadSimpleFormatReader> {
    format: F,
    state: ReaderState<'packet>,
    packet: &'packet Packet,
}

impl<'packet, F: ReadFormat> View for Reader<'packet, F> {
    type V = ReaderView;

    closed spec fn view(&self) -> ReaderView {
        self.state.view()
    }
}

impl Packet {
    /// A reader at the start of the data of the packet.
    pub fn reader<'packet, F: ReadFormat>(&'packet self, format: F) -> (reader: Reader<'packet, F>)
        requires
            self.wf(),
            format.wf(),
        ensures
            reader.wf(),
            reader.spec_packet() == self,
            reader.spec_format() == format,
            reader@ == (ReaderView { data: self@.data, offsets: self@.offsets, pos: 0 }),
    {
        Reader::new(self, format)
    }
}

impl<'packet, F: ReadFormat> Reader<'packet, F> {
    /// The packet that the reader reads.
    pub closed spec fn spec_packet(&self) -> &'packet Packet {
        self.packet
    }

    /// The format that the reader reads in.
    pub closed spec fn spec_format(&self) -> F {
        self.format
    }

    /// Whether the format can work and the cursor is inside the data of a
    /// packet whose table of offsets names well-formed references.
    pub closed spec fn wf(&self) -> bool {
        &&& self.state.wf()
        &&& self.packet.wf()
        &&& self.state.view().data == self.packet@.data
        &&& self.state.view().offsets == self.packet@.offsets
        &&& self.format.wf()
    }

    /// A reader at the start of the data of `packet`.
    pub fn new(packet: &'packet Packet, format: F) -> (reader: Reader<'packet, F>)
        requires
            packet.wf(),
            format.wf(),
        ensures
            reader.wf(),
            reader.spec_packet() == packet,
            reader.spec_format() == format,
            reader@ == (ReaderView { data: packet@.data, offsets: packet@.offsets, pos: 0 }),
    {
        Reader { format, state: ReaderState::new(packet.get_data(), packet.get_offsets()), packet }
    }

    /// The packet that the reader reads.
    pub fn get_packet(&self) -> (packet: &'packet Packet)
        ensures
            packet == self.spec_packet(),
    {
        self.packet
    }

    /// Number of bytes from the start of the data to the cursor.
    pub fn get_current_offset(&self) -> (offset: usize)
        requires
            self.wf(),
        ensures
            offset == self@.pos,
    {
        self.state.get_cur_offset(None)
    }

    /// Whether the table of offsets names the place `at`.
    fn names_offset(&self, at: usize) -> (yes: bool)
        ensures
            yes == is_offset(self@.offsets, at as int),
    {
        let count = self.state.offsets.len();
        let mut i: usize = 0;
        while i < count
            invariant
                i <= count,
                count == self.state.offsets@.len(),
                forall|k: int| 0 <= k < i ==> (#[trigger] self.state.offsets@[k]) != at,
            decreases count - i,
        {
            if self.state.offsets[i] == at {
                return true;
            }
            i = i + 1;
        }
        false
    }

    /// Reads an unsigned number of one byte. Where the value cannot be had, the cursor stays.
    pub fn read_u8(&mut self) -> (r: Result<u8, ()>)
        requires
            old(self).wf(),
        ensures
            final(self).wf(),
            final(self).spec_packet() == old(self).spec_packet(),
            final(self).spec_format() == old(self).spec_format(),
            match old(self).spec_format().dec_int(old(self)@, 1, false) {
                Some((value, next)) => {
                    &&& r matches Ok(x)
                    &&& x as int == value
                    &&& final(self)@ == old(self)@.at(next)
                },
                None => r is Err && final(self)@ == old(self)@,
            },
    {
        self.format.read_u8(&mut self.state)
    }

    /// Reads an unsigned number of two bytes. Where the value cannot be had, the cursor stays.
    pub fn read_u16(&mut self) -> (r: Result<u16, ()>)
        requires
            old(self).wf(),
        ensures
            final(self).wf(),
            final(self).spec_packet() == old(self).spec_packet(),
            final(self).spec_format() == old(self).spec_format(),
            match old(self).spec_format().dec_int(old(self)@, 2, false) {
                Some((value, next)) => {
                    &&& r matches Ok(x)
                    &&& x as int == value
                    &&& final(self)@ == old(self)@.at(next)
                },
                None => r is Err && final(self)@ == old(self)@,
            },
    {
        self.format.read_u16(&mut self.state)
    }

    /// Reads an unsigned number of four bytes. Where the value cannot be had, the cursor stays.
    pub fn read_u32(&mut self) -> (r: Result<u32, ()>)
        requires
            old(self).wf(),
        ensures
            final(self).wf(),
            final(self).spec_packet() == old(self).spec_packet(),
            final(self).spec_format() == old(self).spec_format(),
            match old(self).spec_format().dec_int(old(self)@, 4, false) {
                Some((value, next)) => {
                    &&& r matches Ok(x)
                    &&& x as int == value
                    &&& final(self)@ == old(self)@.at(next)
                },
                None => r is Err && final(self)@ == old(self)@,
            },
    {
        self.format.read_u32(&mut self.state)
    }

    /// Reads an unsigned number of eight bytes. Where the value cannot be had, the cursor stays.
    pub fn read_u64(&mut self) -> (r: Result<u64, ()>)
        requires
            old(self).wf(),
        ensures
            final(self).wf(),
            final(self).spec_packet() == old(self).spec_packet(),
            final(self).spec_format() == old(self).spec_format(),
            match old(self).spec_format().dec_int(old(self)@, 8, false) {
                Some((value, next)) => {
                    &&& r matches Ok(x)
                    &&& x as int == value
                    &&& final(self)@ == old(self)@.at(next)
                },
                None => r is Err && final(self)@ == old(self)@,
            },
    {
        self.format.read_u64(&mut self.state)
    }

    /// Reads an unsigned number of one machine word. Where the value cannot be
    /// had, the cursor stays.
    pub fn read_usize(&mut self) -> (r: Result<usize, ()>)
        requires
            old(self).wf(),
        ensures
            final(self).wf(),
            final(self).spec_packet() == old(self).spec_packet(),
            final(self).spec_format() == old(self).spec_format(),
            match old(self).spec_format().dec_int(old(self)@, word_size(), false) {
                Some((value, next)) => {
                    &&& r matches Ok(x)
                    &&& x as int == value
                    &&& final(self)@ == old(self)@.at(next)
                },
                None => r is Err && final(self)@ == old(self)@,
            },
    {
        self.format.read_usize(&mut self.state)
    }

    /// Reads a signed number of one byte. Where the value cannot be had, the cursor stays.
    pub fn read_i8(&mut self) -> (r: Result<i8, ()>)
        requires
            old(self).wf(),
        ensures
            final(self).wf(),
            final(self).spec_packet() == old(self).spec_packet(),
            final(self).spec_format() == old(self).spec_format(),
            match old(self).spec_format().dec_int(old(self)@, 1, true) {
                Some((value, next)) => {
                    &&& r matches Ok(x)
                    &&& x as int == value
                    &&& final(self)@ == old(self)@.at(next)
                },
                None => r is Err && final(self)@ == old(self)@,
            },
    {
        self.format.read_i8(&mut self.state)
    }

    /// Reads a signed number of two bytes. Where the value cannot be had, the cursor stays.
    pub fn read_i16(&mut self) -> (r: Result<i16, ()>)
        requires
            old(self).wf(),
        ensures
            final(self).wf(),
            final(self).spec_packet() == old(self).spec_packet(),
            final(self).spec_format() == old(self).spec_format(),
            match old(self).spec_format().dec_int(old(self)@, 2, true) {
                Some((value, next)) => {
                    &&& r matches Ok(x)
                    &&& x as int == value
                    &&& final(self)@ == old(self)@.at(next)
                },
                None => r is Err && final(self)@ == old(self)@,
            },
    {
        self.format.read_i16(&mut self.state)
    }

    /// Reads a signed number of four bytes. Where the value cannot be had, the cursor stays.
    pub fn read_i32(&mut self) -> (r: Result<i32, ()>)
        requires
            old(self).wf(),
        ensures
            final(self).wf(),
            final(self).spec_packet() == old(self).spec_packet(),
            final(self).spec_format() == old(self).spec_format(),
            match old(self).spec_format().dec_int(old(self)@, 4, true) {
                Some((value, next)) => {
                    &&& r matches Ok(x)
                    &&& x as int == value
                    &&& final(self)@ == old(self)@.at(next)
                },
                None => r is Err && final(self)@ == old(self)@,
            },
    {
        self.format.read_i32(&mut self.state)
    }

    /// Reads a signed number of eight bytes. Where the value cannot be had, the cursor stays.
    pub fn read_i64(&mut self) -> (r: Result<i64, ()>)
        requires
            old(self).wf(),
        ensures
            final(self).wf(),
            final(self).spec_packet() == old(self).spec_packet(),
            final(self).spec_format() == old(self).spec_format(),
            match old(self).spec_format().dec_int(old(self)@, 8, true) {
                Some((value, next)) => {
                    &&& r matches Ok(x)
                    &&& x as int == value
                    &&& final(self)@ == old(self)@.at(next)
                },
                None => r is Err && final(self)@ == old(self)@,
            },
    {
        self.format.read_i64(&mut self.state)
    }

    /// Reads a signed number of one machine word. Where the value cannot be had, the cursor stays.
    pub fn read_isize(&mut self) -> (r: Result<isize, ()>)
        requires
            old(self).wf(),
        ensures
            final(self).wf(),
            final(self).spec_packet() == old(self).spec_packet(),
            final(self).spec_format() == old(self).spec_format(),
            match old(self).spec_format().dec_int(old(self)@, word_size(), true) {
                Some((value, next)) => {
                    &&& r matches Ok(x)
                    &&& x as int == value
                    &&& final(self)@ == old(self)@.at(next)
                },
                None => r is Err && final(self)@ == old(self)@,
            },
    {
        self.format.read_isize(&mut self.state)
    }

    /// Reads a truth value. Where the value cannot be had, the cursor stays.
    pub fn read_bool(&mut self) -> (r: Result<bool, ()>)
        requires
            old(self).wf(),
        ensures
            final(self).wf(),
            final(self).spec_packet() == old(self).spec_packet(),
            final(self).spec_format() == old(self).spec_format(),
            match old(self).spec_format().dec_bool(old(self)@) {
                Some((value, next)) => {
                    &&& r matches Ok(x)
                    &&& x == value
                    &&& final(self)@ == old(self)@.at(next)
                },
                None => r is Err && final(self)@ == old(self)@,
            },
    {
        self.format.read_bool(&mut self.state)
    }

    /// Reads a string. Where the value cannot be had, the cursor stays.
    pub fn read_str(&mut self) -> (r: Result<&'packet str, ()>)
        requires
            old(self).wf(),
        ensures
            final(self).wf(),
            final(self).spec_packet() == old(self).spec_packet(),
            final(self).spec_format() == old(self).spec_format(),
            match old(self).spec_format().dec_str(old(self)@) {
                Some((value, next)) => {
                    &&& r matches Ok(x)
                    &&& x.spec_bytes() == value
                    &&& final(self)@ == old(self)@.at(next)
                },
                None => r is Err && final(self)@ == old(self)@,
            },
    {
        self.format.read_str(&mut self.state)
    }

    /// Reads a string that a zero byte ends, and returns it without that byte.
    /// Where the value cannot be had, the cursor stays.
    pub fn read_cstr(&mut self) -> (r: Result<&'packet [u8], ()>)
        requires
            old(self).wf(),
        ensures
            final(self).wf(),
            final(self).spec_packet() == old(self).spec_packet(),
            final(self).spec_format() == old(self).spec_format(),
            match old(self).spec_format().dec_cstr(old(self)@) {
                Some((value, next)) => {
                    &&& r matches Ok(x)
                    &&& x@ == value
                    &&& final(self)@ == old(self)@.at(next)
                },
                None => r is Err && final(self)@ == old(self)@,
            },
    {
        self.format.read_cstr(&mut self.state)
    }

    /// Reads a slice of bytes, lent from the payload. Where the value cannot be
    /// had, the cursor stays.
    pub fn read_u8_slice(&mut self) -> (r: Result<&'packet [u8], ()>)
        requires
            old(self).wf(),
        ensures
            final(self).wf(),
            final(self).spec_packet() == old(self).spec_packet(),
            final(self).spec_format() == old(self).spec_format(),
            match old(self).spec_format().dec_bytes(old(self)@) {
                Some((value, next)) => {
                    &&& r matches Ok(x)
                    &&& x@ == value
                    &&& final(self)@ == old(self)@.at(next)
                },
                None => r is Err && final(self)@ == old(self)@,
            },
    {
        self.format.read_u8_slice(&mut self.state)
    }

    /// Reads a slice of `i8`, lent from the payload. Where the value cannot be
    /// had, the cursor stays.
    pub fn read_i8_slice(&mut self) -> (r: Result<&'packet [i8], ()>)
        requires
            old(self).wf(),
        ensures
            final(self).wf(),
            final(self).spec_packet() == old(self).spec_packet(),
            final(self).spec_format() == old(self).spec_format(),
            match old(self).spec_format().dec_slice(old(self)@, 1, true) {
                Some((value, next)) => {
                    &&& r matches Ok(x)
                    &&& ints_of(x@) == value
                    &&& final(self)@ == old(self)@.at(next)
                },
                None => r is Err && final(self)@ == old(self)@,
            },
    {
        self.format.read_i8_slice(&mut self.state)
    }

    /// Reads a slice of `u16`, lent from the payload where that can be done and
    /// copied where it cannot. Where the value cannot be had, the cursor stays.
    pub fn read_u16_slice(&mut self) -> (r: Result<SliceReadResult<'packet, u16>, ()>)
        requires
            old(self).wf(),
        ensures
            final(self).wf(),
            final(self).spec_packet() == old(self).spec_packet(),
            final(self).spec_format() == old(self).spec_format(),
            match old(self).spec_format().dec_slice(old(self)@, 2, false) {
                Some((value, next)) => {
                    &&& r matches Ok(x)
                    &&& ints_of(x@) == value
                    &&& final(self)@ == old(self)@.at(next)
                },
                None => r is Err && final(self)@ == old(self)@,
            },
    {
        self.format.read_u16_slice(&mut self.state)
    }

    /// Reads a slice of `u32`, lent from the payload where that can be done and
    /// copied where it cannot. Where the value cannot be had, the cursor stays.
    pub fn read_u32_slice(&mut self) -> (r: Result<SliceReadResult<'packet, u32>, ()>)
        requires
            old(self).wf(),
        ensures
            final(self).wf(),
            final(self).spec_packet() == old(self).spec_packet(),
            final(self).spec_format() == old(self).spec_format(),
            match old(self).spec_format().dec_slice(old(self)@, 4, false) {
                Some((value, next)) => {
                    &&& r matches Ok(x)
                    &&& ints_of(x@) == value
                    &&& final(self)@ == old(self)@.at(next)
                },
                None => r is Err && final(self)@ == old(self)@,
            },
    {
        self.format.read_u32_slice(&mut self.state)
    }

    /// Reads a slice of `u64`, lent from the payload where that can be done and
    /// copied where it cannot. Where the value cannot be had, the cursor stays.
    pub fn read_u64_slice(&mut self) -> (r: Result<SliceReadResult<'packet, u64>, ()>)
        requires
            old(self).wf(),
        ensures
            final(self).wf(),
            final(self).spec_packet() == old(self).spec_packet(),
            final(self).spec_format() == old(self).spec_format(),
            match old(self).spec_format().dec_slice(old(self)@, 8, false) {
                Some((value, next)) => {
                    &&& r matches Ok(x)
                    &&& ints_of(x@) == value
                    &&& final(self)@ == old(self)@.at(next)
                },
                None => r is Err && final(self)@ == old(self)@,
            },
    {
        self.format.read_u64_slice(&mut self.state)
    }

    /// Reads a slice of `usize`, lent from the payload where that can be done
    /// and copied where it cannot. Where the value cannot be had, the cursor
    /// stays.
    pub fn read_usize_slice(&mut self) -> (r: Result<SliceReadResult<'packet, usize>, ()>)
        requires
            old(self).wf(),
        ensures
            final(self).wf(),
            final(self).spec_packet() == old(self).spec_packet(),
            final(self).spec_format() == old(self).spec_format(),
            match old(self).spec_format().dec_slice(old(self)@, word_size(), false) {
                Some((value, next)) => {
                    &&& r matches Ok(x)
                    &&& ints_of(x@) == value
                    &&& final(self)@ == old(self)@.at(next)
                },
                None => r is Err && final(self)@ == old(self)@,
            },
    {
        self.format.read_usize_slice(&mut self.state)
    }

    /// Reads a slice of `i16`, lent from the payload where that can be done and
    /// copied where it cannot. Where the value cannot be had, the cursor stays.
    pub fn read_i16_slice(&mut self) -> (r: Result<SliceReadResult<'packet, i16>, ()>)
        requires
            old(self).wf(),
        ensures
            final(self).wf(),
            final(self).spec_packet() == old(self).spec_packet(),
            final(self).spec_format() == old(self).spec_format(),
            match old(self).spec_format().dec_slice(old(self)@, 2, true) {
                Some((value, next)) => {
                    &&& r matches Ok(x)
                    &&& ints_of(x@) == value
                    &&& final(self)@ == old(self)@.at(next)
                },
                None => r is Err && final(self)@ == old(self)@,
            },
    {
        self.format.read_i16_slice(&mut self.state)
    }

    /// Reads a slice of `i32`, lent from the payload where that can be done and
    /// copied where it cannot. Where the value cannot be had, the cursor stays.
    pub fn read_i32_slice(&mut self) -> (r: Result<SliceReadResult<'packet, i32>, ()>)
        requires
            old(self).wf(),
        ensures
            final(self).wf(),
            final(self).spec_packet() == old(self).spec_packet(),
            final(self).spec_format() == old(self).spec_format(),
            match old(self).spec_format().dec_slice(old(self)@, 4, true) {
                Some((value, next)) => {
                    &&& r matches Ok(x)
                    &&& ints_of(x@) == value
                    &&& final(self)@ == old(self)@.at(next)
                },
                None => r is Err && final(self)@ == old(self)@,
            },
    {
        self.format.read_i32_slice(&mut self.state)
    }

    /// Reads a slice of `i64`, lent from the payload where that can be done and
    /// copied where it cannot. Where the value cannot be had, the cursor stays.
    pub fn read_i64_slice(&mut self) -> (r: Result<SliceReadResult<'packet, i64>, ()>)
        requires
            old(self).wf(),
        ensures
            final(self).wf(),
            final(self).spec_packet() == old(self).spec_packet(),
            final(self).spec_format() == old(self).spec_format(),
            match old(self).spec_format().dec_slice(old(self)@, 8, true) {
                Some((value, next)) => {
                    &&& r matches Ok(x)
                    &&& ints_of(x@) == value
                    &&& final(self)@ == old(self)@.at(next)
                },
                None => r is Err && final(self)@ == old(self)@,
            },
    {
        self.format.read_i64_slice(&mut self.state)
    }

    /// Reads a slice of `isize`, lent from the payload where that can be done
    /// and copied where it cannot. Where the value cannot be had, the cursor
    /// stays.
    pub fn read_isize_slice(&mut self) -> (r: Result<SliceReadResult<'packet, isize>, ()>)
        requires
            old(self).wf(),
        ensures
            final(self).wf(),
            final(self).spec_packet() == old(self).spec_packet(),
            final(self).spec_format() == old(self).spec_format(),
            match old(self).spec_format().dec_slice(old(self)@, word_size(), true) {
                Some((value, next)) => {
                    &&& r matches Ok(x)
                    &&& ints_of(x@) == value
                    &&& final(self)@ == old(self)@.at(next)
                },
                None => r is Err && final(self)@ == old(self)@,
            },
    {
        self.format.read_isize_slice(&mut self.state)
    }

    /// Reads a slice of truth values. Where the value cannot be had, the cursor stays.
    pub fn read_bool_slice(&mut self) -> (r: Result<Vec<bool>, ()>)
        requires
            old(self).wf(),
        ensures
            final(self).wf(),
            final(self).spec_packet() == old(self).spec_packet(),
            final(self).spec_format() == old(self).spec_format(),
            match old(self).spec_format().dec_bool_slice(old(self)@) {
                Some((value, next)) => {
                    &&& r matches Ok(x)
                    &&& x@ == value
                    &&& final(self)@ == old(self)@.at(next)
                },
                None => r is Err && final(self)@ == old(self)@,
            },
    {
        self.format.read_bool_slice(&mut self.state)
    }

    /// Reads a slice of strings. Where the value cannot be had, the cursor stays.
    pub fn read_str_slice(&mut self) -> (r: Result<Vec<&'packet str>, ()>)
        requires
            old(self).wf(),
        ensures
            final(self).wf(),
            final(self).spec_packet() == old(self).spec_packet(),
            final(self).spec_format() == old(self).spec_format(),
            match old(self).spec_format().dec_str_slice(old(self)@) {
                Some((value, next)) => {
                    &&& r matches Ok(x)
                    &&& bytes_of_strs(x@) == value
                    &&& final(self)@ == old(self)@.at(next)
                },
                None => r is Err && final(self)@ == old(self)@,
            },
    {
        self.format.read_str_slice(&mut self.state)
    }

    /// Reads a slice of strings that a zero byte ends. Where the value cannot
    /// be had, the cursor stays.
    pub fn read_cstr_slice(&mut self) -> (r: Result<Vec<&'packet [u8]>, ()>)
        requires
            old(self).wf(),
        ensures
            final(self).wf(),
            final(self).spec_packet() == old(self).spec_packet(),
            final(self).spec_format() == old(self).spec_format(),
            match old(self).spec_format().dec_cstr_slice(old(self)@) {
                Some((value, next)) => {
                    &&& r matches Ok(x)
                    &&& bytes_of_slices(x@) == value
                    &&& final(self)@ == old(self)@.at(next)
                },
                None => r is Err && final(self)@ == old(self)@,
            },
    {
        self.format.read_cstr_slice(&mut self.state)
    }

    /// Reads a reference: skips to the next multiple of four, which the
    /// table of offsets must name, and reads the record there. Where there
    /// is none, the cursor stays.
    pub fn read_reference(&mut self) -> (r: Result<ObjectRef, ()>)
        requires
            old(self).wf(),
        ensures
            final(self).wf(),
            final(self).spec_packet() == old(self).spec_packet(),
            final(self).spec_format() == old(self).spec_format(),
            match dec_reference(native_order(), old(self)@) {
                Some((reference, next)) => r == Ok::<ObjectRef, ()>(reference) && final(self)@
                    == old(self)@.at(next),
                None => r is Err && final(self)@ == old(self)@,
            },
    {
        let total = self.state.data.len();
        let pos = self.state.pos;
        let pad = (4 - pos % 4) % 4;
        let size = 8 + 2 * word_bytes();
        if pad > total - pos || size > total - pos - pad {
            return Err(());
        }
        let at = pos + pad;
        if !self.names_offset(at) {
            return Err(());
        }
        if self.state.touches_reference(pos, pad) {
            return Err(());
        }
        let record = vstd::slice::slice_subrange(self.state.data, at, at + size);
        match ObjectRef::try_from_bytes(record) {
            Ok(reference) => {
                self.state.pos = at + size;
                Ok(reference)
            },
            Err(_) => Err(()),
        }
    }

    /// Reads a reference as `read_reference` does and asks `accept` whether
    /// to take it. Where `accept` says no, the cursor stays and the result
    /// is an error.
    pub fn read_reference_if<A: FnOnce(&ObjectRef) -> bool>(&mut self, accept: A) -> (r: Result<
        ObjectRef,
        (),
    >)
        requires
            old(self).wf(),
            forall|reference: ObjectRef| call_requires(accept, (&reference,)),
        ensures
            final(self).wf(),
            final(self).spec_packet() == old(self).spec_packet(),
            final(self).spec_format() == old(self).spec_format(),
            match dec_reference(native_order(), old(self)@) {
                Some((reference, next)) => {
                    ||| r == Ok::<ObjectRef, ()>(reference) && call_ensures(
                        accept,
                        (&reference,),
                        true,
                    ) && final(self)@ == old(self)@.at(next)
                    ||| r is Err && call_ensures(accept, (&reference,), false) && final(self)@
                        == old(self)@
                },
                None => r is Err && final(self)@ == old(self)@,
            },
    {
        let saved = self.state;
        match self.read_reference() {
            Ok(reference) => {
                if accept(&reference) {
                    Ok(reference)
                } else {
                    self.state = saved;
                    Err(())
                }
            },
            Err(_) => Err(()),
        }
    }

    /// Reads a reference and makes the typed object for it. For a handle
    /// that can get one holder more, `make_proxy` makes the proxy, and the
    /// result is what the type makes of it: where that is an object, the
    /// handle gets one holder more. For a local object, the result is the
    /// object that `resolve_local` finds. Where the reference cannot be
    /// read, the handle cannot get another holder, the type does not take
    /// the proxy, or no local object is found, the result is an error, the
    /// cursor stays and the handles are as before.
    pub fn read_reference_as<T, P, M, L>(
        &mut self,
        handles: &mut RemoteHandles,
        make_proxy: M,
        resolve_local: L,
    ) -> (r: Result<T, ()>) where
        T: FromProxy<P>,
        M: FnOnce(ObjectRefRemote) -> P,
        L: FnOnce(ObjectRefLocal) -> Option<T>,

        requires
            old(self).wf(),
            old(handles).wf(),
            forall|remote: ObjectRefRemote| call_requires(make_proxy, (remote,)),
            forall|local: ObjectRefLocal| call_requires(resolve_local, (local,)),
        ensures
            final(self).wf(),
            final(handles).wf(),
            final(self).spec_packet() == old(self).spec_packet(),
            final(self).spec_format() == old(self).spec_format(),
            r is Err ==> final(self)@ == old(self)@ && final(handles)@ == old(handles)@,
            match dec_reference(native_order(), old(self)@) {
                Some((ObjectRef::Remote(remote), next)) => if can_hold(
                    old(handles)@,
                    remote.data_handle,
                ) {
                    exists|proxy: P, made: Result<T, ()>|
                        {
                            &&& call_ensures(make_proxy, (remote,), proxy)
                            &&& #[trigger] T::makes(proxy, made)
                            &&& r == made
                            &&& r is Ok ==> final(self)@ == old(self)@.at(next) && final(handles)@
                                == counts_after_hold(old(handles)@, remote.data_handle)
                        }
                } else {
                    r is Err
                },
                Some((ObjectRef::Local(local), next)) => exists|found: Option<T>|
                    {
                        &&& #[trigger] call_ensures(resolve_local, (local,), found)
                        &&& match found {
                            Some(typed) => r == Ok::<T, ()>(typed) && final(self)@ == old(
                                self,
                            )@.at(next) && final(handles)@ == old(handles)@,
                            None => r is Err,
                        }
                    },
                None => r is Err,
            },
    {
        let saved = self.state;
        let reference = match self.read_reference() {
            Ok(reference) => reference,
            Err(_) => {
                return Err(());
            },
        };
        match reference {
            ObjectRef::Remote(remote) => {
                if remote.data_handle != crate::object::CONTEXT_MANAGER_HANDLE && handles.holders(
                    remote.data_handle,
                ) == usize::MAX {
                    self.state = saved;
                    return Err(());
                }
                let proxy = make_proxy(remote);
                let ghost given = proxy;
                let made = T::from_proxy(proxy);
                assert(call_ensures(make_proxy, (remote,), given) && T::makes(given, made));
                match made {
                    Ok(typed) => {
                        let counted = handles.acquire(remote.data_handle);
                        Ok(typed)
                    },
                    Err(refusal) => {
                        self.state = saved;
                        Err(refusal)
                    },
                }
            },
            ObjectRef::Local(local) => {
                let found = resolve_local(local);
                assert(call_ensures(resolve_local, (local,), found));
                match found {
                    Some(typed) => Ok(typed),
                    None => {
                        self.state = saved;
                        Err(())
                    },
                }
            },
        }
    }
}

} // verus!
