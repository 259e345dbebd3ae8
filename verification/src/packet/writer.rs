//! The writer: typed values into the data of a builder.

use crate::bytes::{ints_of, native_order, put_zeros, word_size};
use crate::formats::dead_simple::{enc_reference, DeadSimpleFormat};
use crate::formats::{bytes_of_slices, bytes_of_strs, no_nul, WriteFormat};
use crate::object::{lemma_object_ref_roundtrip, object_ref_size, ObjectRef};
use crate::packet::{lemma_append_keeps_references, reference_at, BuilderView, PacketBuilder};
use vstd::prelude::*;
use vstd::string::StringSliceAdditionalSpecFns;

verus! {

/// Adds typed values to the data of a builder, laid out as the format
/// says.
pub struct Writer<'packet, F: WriteFormat = DeadSimpleFormat> {
    /// The format that the writer writes in.
    pub format: F,
    /// The builder that the writer adds to.
    pub result: &'packet mut PacketBuilder,
}

impl<'packet, F: WriteFormat> View for Writer<'packet, F> {
    type V = BuilderView;

    open spec fn view(&self) -> BuilderView {
        self.result@
    }
}

impl<'packet, F: WriteFormat> Writer<'packet, F> {
    /// Whether the format can work and the table of offsets of the builder
    /// names well-formed references.
    pub open spec fn wf(&self) -> bool {
        &&& self.result.wf()
        &&& self.format.wf()
    }

    /// Number of bytes that the builder holds.
    pub fn get_current_offset(&self) -> (offset: usize)
        ensures
            offset == self@.data.len(),
    {
        self.result.data_buffer.len()
    }

    /// Writes an unsigned number of one byte.
    pub fn write_u8(&mut self, data: u8) -> (r: &mut Self)
        requires
            old(self).wf(),
        ensures
            r.wf(),
            r.format == old(self).format,
            r@ == old(self)@.appended(old(self).format.enc_int(data as int, 1, false)),
            *final(r.result) == *final(old(self).result),
            *final(self) == *final(r),
    {
        proof {
            lemma_append_keeps_references(
                native_order(),
                self@.data,
                self@.offsets,
                self.format.enc_int(data as int, 1, false),
            );
        }
        self.format.write_u8(&mut self.result.data_buffer, data);
        self
    }

    /// Writes an unsigned number of two bytes.
    pub fn write_u16(&mut self, data: u16) -> (r: &mut Self)
        requires
            old(self).wf(),
        ensures
            r.wf(),
            r.format == old(self).format,
            r@ == old(self)@.appended(old(self).format.enc_int(data as int, 2, false)),
            *final(r.result) == *final(old(self).result),
            *final(self) == *final(r),
    {
        proof {
            lemma_append_keeps_references(
                native_order(),
                self@.data,
                self@.offsets,
                self.format.enc_int(data as int, 2, false),
            );
        }
        self.format.write_u16(&mut self.result.data_buffer, data);
        self
    }

    /// Writes an unsigned number of four bytes.
    pub fn write_u32(&mut self, data: u32) -> (r: &mut Self)
        requires
            old(self).wf(),
        ensures
            r.wf(),
            r.format == old(self).format,
            r@ == old(self)@.appended(old(self).format.enc_int(data as int, 4, false)),
            *final(r.result) == *final(old(self).result),
            *final(self) == *final(r),
    {
        proof {
            lemma_append_keeps_references(
                native_order(),
                self@.data,
                self@.offsets,
                self.format.enc_int(data as int, 4, false),
            );
        }
        self.format.write_u32(&mut self.result.data_buffer, data);
        self
    }

    /// Writes an unsigned number of eight bytes.
    pub fn write_u64(&mut self, data: u64) -> (r: &mut Self)
        requires
            old(self).wf(),
        ensures
            r.wf(),
            r.format == old(self).format,
            r@ == old(self)@.appended(old(self).format.enc_int(data as int, 8, false)),
            *final(r.result) == *final(old(self).result),
            *final(self) == *final(r),
    {
        proof {
            lemma_append_keeps_references(
                native_order(),
                self@.data,
                self@.offsets,
                self.format.enc_int(data as int, 8, false),
            );
        }
        self.format.write_u64(&mut self.result.data_buffer, data);
        self
    }

    /// Writes an unsigned number of one machine word.
    pub fn write_usize(&mut self, data: usize) -> (r: &mut Self)
        requires
            old(self).wf(),
        ensures
            r.wf(),
            r.format == old(self).format,
            r@ == old(self)@.appended(old(self).format.enc_int(data as int, word_size(), false)),
            *final(r.result) == *final(old(self).result),
            *final(self) == *final(r),
    {
        proof {
            lemma_append_keeps_references(
                native_order(),
                self@.data,
                self@.offsets,
                self.format.enc_int(data as int, word_size(), false),
            );
        }
        self.format.write_usize(&mut self.result.data_buffer, data);
        self
    }

    /// Writes a signed number of one byte.
    pub fn write_i8(&mut self, data: i8) -> (r: &mut Self)
        requires
            old(self).wf(),
        ensures
            r.wf(),
            r.format == old(self).format,
            r@ == old(self)@.appended(old(self).format.enc_int(data as int, 1, true)),
            *final(r.result) == *final(old(self).result),
            *final(self) == *final(r),
    {
        proof {
            lemma_append_keeps_references(
                native_order(),
                self@.data,
                self@.offsets,
                self.format.enc_int(data as int, 1, true),
            );
        }
        self.format.write_i8(&mut self.result.data_buffer, data);
        self
    }

    /// Writes a signed number of two bytes.
    pub fn write_i16(&mut self, data: i16) -> (r: &mut Self)
        requires
            old(self).wf(),
        ensures
            r.wf(),
            r.format == old(self).format,
            r@ == old(self)@.appended(old(self).format.enc_int(data as int, 2, true)),
            *final(r.result) == *final(old(self).result),
            *final(self) == *final(r),
    {
        proof {
            lemma_append_keeps_references(
                native_order(),
                self@.data,
                self@.offsets,
                self.format.enc_int(data as int, 2, true),
            );
        }
        self.format.write_i16(&mut self.result.data_buffer, data);
        self
    }

    /// Writes a signed number of four bytes.
    pub fn write_i32(&mut self, data: i32) -> (r: &mut Self)
        requires
            old(self).wf(),
        ensures
            r.wf(),
            r.format == old(self).format,
            r@ == old(self)@.appended(old(self).format.enc_int(data as int, 4, true)),
            *final(r.result) == *final(old(self).result),
            *final(self) == *final(r),
    {
        proof {
            lemma_append_keeps_references(
                native_order(),
                self@.data,
                self@.offsets,
                self.format.enc_int(data as int, 4, true),
            );
        }
        self.format.write_i32(&mut self.result.data_buffer, data);
        self
    }

    /// Writes a signed number of eight bytes.
    pub fn write_i64(&mut self, data: i64) -> (r: &mut Self)
        requires
            old(self).wf(),
        ensures
            r.wf(),
            r.format == old(self).format,
            r@ == old(self)@.appended(old(self).format.enc_int(data as int, 8, true)),
            *final(r.result) == *final(old(self).result),
            *final(self) == *final(r),
    {
        proof {
            lemma_append_keeps_references(
                native_order(),
                self@.data,
                self@.offsets,
                self.format.enc_int(data as int, 8, true),
            );
        }
        self.format.write_i64(&mut self.result.data_buffer, data);
        self
    }

    /// Writes a signed number of one machine word.
    pub fn write_isize(&mut self, data: isize) -> (r: &mut Self)
        requires
            old(self).wf(),
        ensures
            r.wf(),
            r.format == old(self).format,
            r@ == old(self)@.appended(old(self).format.enc_int(data as int, word_size(), true)),
            *final(r.result) == *final(old(self).result),
            *final(self) == *final(r),
    {
        proof {
            lemma_append_keeps_references(
                native_order(),
                self@.data,
                self@.offsets,
                self.format.enc_int(data as int, word_size(), true),
            );
        }
        self.format.write_isize(&mut self.result.data_buffer, data);
        self
    }

    /// Writes a truth value.
    pub fn write_bool(&mut self, data: bool) -> (r: &mut Self)
        requires
            old(self).wf(),
        ensures
            r.wf(),
            r.format == old(self).format,
            r@ == old(self)@.appended(old(self).format.enc_bool(data)),
            *final(r.result) == *final(old(self).result),
            *final(self) == *final(r),
    {
        proof {
            lemma_append_keeps_references(
                native_order(),
                self@.data,
                self@.offsets,
                self.format.enc_bool(data),
            );
        }
        self.format.write_bool(&mut self.result.data_buffer, data);
        self
    }

    /// Writes a string.
    pub fn write_str(&mut self, data: &str) -> (r: &mut Self)
        requires
            old(self).wf(),
        ensures
            r.wf(),
            r.format == old(self).format,
            r@ == old(self)@.appended(old(self).format.enc_str(data.spec_bytes())),
            *final(r.result) == *final(old(self).result),
            *final(self) == *final(r),
    {
        proof {
            lemma_append_keeps_references(
                native_order(),
                self@.data,
                self@.offsets,
                self.format.enc_str(data.spec_bytes()),
            );
        }
        self.format.write_str(&mut self.result.data_buffer, data);
        self
    }

    /// Writes a string that a zero byte ends, given as its bytes without that
    /// byte, none of which is zero.
    pub fn write_cstr(&mut self, data: &[u8]) -> (r: &mut Self)
        requires
            old(self).wf(),
            no_nul(data@),
        ensures
            r.wf(),
            r.format == old(self).format,
            r@ == old(self)@.appended(old(self).format.enc_cstr(data@)),
            *final(r.result) == *final(old(self).result),
            *final(self) == *final(r),
    {
        proof {
            lemma_append_keeps_references(
                native_order(),
                self@.data,
                self@.offsets,
                self.format.enc_cstr(data@),
            );
        }
        self.format.write_cstr(&mut self.result.data_buffer, data);
        self
    }

    /// Writes a slice of bytes.
    pub fn write_u8_slice(&mut self, data: &[u8]) -> (r: &mut Self)
        requires
            old(self).wf(),
        ensures
            r.wf(),
            r.format == old(self).format,
            r@ == old(self)@.appended(old(self).format.enc_bytes(data@)),
            *final(r.result) == *final(old(self).result),
            *final(self) == *final(r),
    {
        proof {
            lemma_append_keeps_references(
                native_order(),
                self@.data,
                self@.offsets,
                self.format.enc_bytes(data@),
            );
        }
        self.format.write_u8_slice(&mut self.result.data_buffer, data);
        self
    }

    /// Writes a slice of `u16`.
    pub fn write_u16_slice(&mut self, data: &[u16]) -> (r: &mut Self)
        requires
            old(self).wf(),
        ensures
            r.wf(),
            r.format == old(self).format,
            r@ == old(self)@.appended(old(self).format.enc_slice(ints_of(data@), 2, false)),
            *final(r.result) == *final(old(self).result),
            *final(self) == *final(r),
    {
        proof {
            lemma_append_keeps_references(
                native_order(),
                self@.data,
                self@.offsets,
                self.format.enc_slice(ints_of(data@), 2, false),
            );
        }
        self.format.write_u16_slice(&mut self.result.data_buffer, data);
        self
    }

    /// Writes a slice of `u32`.
    pub fn write_u32_slice(&mut self, data: &[u32]) -> (r: &mut Self)
        requires
            old(self).wf(),
        ensures
            r.wf(),
            r.format == old(self).format,
            r@ == old(self)@.appended(old(self).format.enc_slice(ints_of(data@), 4, false)),
            *final(r.result) == *final(old(self).result),
            *final(self) == *final(r),
    {
        proof {
            lemma_append_keeps_references(
                native_order(),
                self@.data,
                self@.offsets,
                self.format.enc_slice(ints_of(data@), 4, false),
            );
        }
        self.format.write_u32_slice(&mut self.result.data_buffer, data);
        self
    }

    /// Writes a slice of `u64`.
    pub fn write_u64_slice(&mut self, data: &[u64]) -> (r: &mut Self)
        requires
            old(self).wf(),
        ensures
            r.wf(),
            r.format == old(self).format,
            r@ == old(self)@.appended(old(self).format.enc_slice(ints_of(data@), 8, false)),
            *final(r.result) == *final(old(self).result),
            *final(self) == *final(r),
    {
        proof {
            lemma_append_keeps_references(
                native_order(),
                self@.data,
                self@.offsets,
                self.format.enc_slice(ints_of(data@), 8, false),
            );
        }
        self.format.write_u64_slice(&mut self.result.data_buffer, data);
        self
    }

    /// Writes a slice of `usize`.
    pub fn write_usize_slice(&mut self, data: &[usize]) -> (r: &mut Self)
        requires
            old(self).wf(),
        ensures
            r.wf(),
            r.format == old(self).format,
            r@ == old(self)@.appended(
                old(self).format.enc_slice(ints_of(data@), word_size(), false),
            ),
            *final(r.result) == *final(old(self).result),
            *final(self) == *final(r),
    {
        proof {
            lemma_append_keeps_references(
                native_order(),
                self@.data,
                self@.offsets,
                self.format.enc_slice(ints_of(data@), word_size(), false),
            );
        }
        self.format.write_usize_slice(&mut self.result.data_buffer, data);
        self
    }

    /// Writes a slice of `i8`.
    pub fn write_i8_slice(&mut self, data: &[i8]) -> (r: &mut Self)
        requires
            old(self).wf(),
        ensures
            r.wf(),
            r.format == old(self).format,
            r@ == old(self)@.appended(old(self).format.enc_slice(ints_of(data@), 1, true)),
            *final(r.result) == *final(old(self).result),
            *final(self) == *final(r),
    {
        proof {
            lemma_append_keeps_references(
                native_order(),
                self@.data,
                self@.offsets,
                self.format.enc_slice(ints_of(data@), 1, true),
            );
        }
        self.format.write_i8_slice(&mut self.result.data_buffer, data);
        self
    }

    /// Writes a slice of `i16`.
    pub fn write_i16_slice(&mut self, data: &[i16]) -> (r: &mut Self)
        requires
            old(self).wf(),
        ensures
            r.wf(),
            r.format == old(self).format,
            r@ == old(self)@.appended(old(self).format.enc_slice(ints_of(data@), 2, true)),
            *final(r.result) == *final(old(self).result),
            *final(self) == *final(r),
    {
        proof {
            lemma_append_keeps_references(
                native_order(),
                self@.data,
                self@.offsets,
                self.format.enc_slice(ints_of(data@), 2, true),
            );
        }
        self.format.write_i16_slice(&mut self.result.data_buffer, data);
        self
    }

    /// Writes a slice of `i32`.
    pub fn write_i32_slice(&mut self, data: &[i32]) -> (r: &mut Self)
        requires
            old(self).wf(),
        ensures
            r.wf(),
            r.format == old(self).format,
            r@ == old(self)@.appended(old(self).format.enc_slice(ints_of(data@), 4, true)),
            *final(r.result) == *final(old(self).result),
            *final(self) == *final(r),
    {
        proof {
            lemma_append_keeps_references(
                native_order(),
                self@.data,
                self@.offsets,
                self.format.enc_slice(ints_of(data@), 4, true),
            );
        }
        self.format.write_i32_slice(&mut self.result.data_buffer, data);
        self
    }

    /// Writes a slice of `i64`.
    pub fn write_i64_slice(&mut self, data: &[i64]) -> (r: &mut Self)
        requires
            old(self).wf(),
        ensures
            r.wf(),
            r.format == old(self).format,
            r@ == old(self)@.appended(old(self).format.enc_slice(ints_of(data@), 8, true)),
            *final(r.result) == *final(old(self).result),
            *final(self) == *final(r),
    {
        proof {
            lemma_append_keeps_references(
                native_order(),
                self@.data,
                self@.offsets,
                self.format.enc_slice(ints_of(data@), 8, true),
            );
        }
        self.format.write_i64_slice(&mut self.result.data_buffer, data);
        self
    }

    /// Writes a slice of `isize`.
    pub fn write_isize_slice(&mut self, data: &[isize]) -> (r: &mut Self)
        requires
            old(self).wf(),
        ensures
            r.wf(),
            r.format == old(self).format,
            r@ == old(self)@.appended(
                old(self).format.enc_slice(ints_of(data@), word_size(), true),
            ),
            *final(r.result) == *final(old(self).result),
            *final(self) == *final(r),
    {
        proof {
            lemma_append_keeps_references(
                native_order(),
                self@.data,
                self@.offsets,
                self.format.enc_slice(ints_of(data@), word_size(), true),
            );
        }
        self.format.write_isize_slice(&mut self.result.data_buffer, data);
        self
    }

    /// Writes a slice of truth values.
    pub fn write_bool_slice(&mut self, data: &[bool]) -> (r: &mut Self)
        requires
            old(self).wf(),
        ensures
            r.wf(),
            r.format == old(self).format,
            r@ == old(self)@.appended(old(self).format.enc_bool_slice(data@)),
            *final(r.result) == *final(old(self).result),
            *final(self) == *final(r),
    {
        proof {
            lemma_append_keeps_references(
                native_order(),
                self@.data,
                self@.offsets,
                self.format.enc_bool_slice(data@),
            );
        }
        self.format.write_bool_slice(&mut self.result.data_buffer, data);
        self
    }

    /// Writes a slice of strings.
    pub fn write_str_slice(&mut self, data: &[&str]) -> (r: &mut Self)
        requires
            old(self).wf(),
        ensures
            r.wf(),
            r.format == old(self).format,
            r@ == old(self)@.appended(old(self).format.enc_str_slice(bytes_of_strs(data@))),
            *final(r.result) == *final(old(self).result),
            *final(self) == *final(r),
    {
        proof {
            lemma_append_keeps_references(
                native_order(),
                self@.data,
                self@.offsets,
                self.format.enc_str_slice(bytes_of_strs(data@)),
            );
        }
        self.format.write_str_slice(&mut self.result.data_buffer, data);
        self
    }

    /// Writes a slice of strings that a zero byte ends, each given as its bytes
    /// without that byte, none of which is zero.
    pub fn write_cstr_slice(&mut self, data: &[&[u8]]) -> (r: &mut Self)
        requires
            old(self).wf(),
            forall|i: int| 0 <= i < data@.len() ==> no_nul(#[trigger] data@[i]@),
        ensures
            r.wf(),
            r.format == old(self).format,
            r@ == old(self)@.appended(old(self).format.enc_cstr_slice(bytes_of_slices(data@))),
            *final(r.result) == *final(old(self).result),
            *final(self) == *final(r),
    {
        proof {
            lemma_append_keeps_references(
                native_order(),
                self@.data,
                self@.offsets,
                self.format.enc_cstr_slice(bytes_of_slices(data@)),
            );
        }
        self.format.write_cstr_slice(&mut self.result.data_buffer, data);
        self
    }

    /// Writes an array of bytes as the slice of its elements.
    pub fn write_u8_array<const LEN: usize>(&mut self, data: &[u8; LEN]) -> (r: &mut Self)
        requires
            old(self).wf(),
        ensures
            r.wf(),
            r.format == old(self).format,
            r@ == old(self)@.appended(old(self).format.enc_bytes(data@)),
            *final(r.result) == *final(old(self).result),
            *final(self) == *final(r),
    {
        self.write_u8_slice(data.as_slice())
    }

    /// Writes an array of `u16` as the slice of its elements.
    pub fn write_u16_array<const LEN: usize>(&mut self, data: &[u16; LEN]) -> (r: &mut Self)
        requires
            old(self).wf(),
        ensures
            r.wf(),
            r.format == old(self).format,
            r@ == old(self)@.appended(old(self).format.enc_slice(ints_of(data@), 2, false)),
            *final(r.result) == *final(old(self).result),
            *final(self) == *final(r),
    {
        self.write_u16_slice(data.as_slice())
    }

    /// Writes an array of `u32` as the slice of its elements.
    pub fn write_u32_array<const LEN: usize>(&mut self, data: &[u32; LEN]) -> (r: &mut Self)
        requires
            old(self).wf(),
        ensures
            r.wf(),
            r.format == old(self).format,
            r@ == old(self)@.appended(old(self).format.enc_slice(ints_of(data@), 4, false)),
            *final(r.result) == *final(old(self).result),
            *final(self) == *final(r),
    {
        self.write_u32_slice(data.as_slice())
    }

    /// Writes an array of `u64` as the slice of its elements.
    pub fn write_u64_array<const LEN: usize>(&mut self, data: &[u64; LEN]) -> (r: &mut Self)
        requires
            old(self).wf(),
        ensures
            r.wf(),
            r.format == old(self).format,
            r@ == old(self)@.appended(old(self).format.enc_slice(ints_of(data@), 8, false)),
            *final(r.result) == *final(old(self).result),
            *final(self) == *final(r),
    {
        self.write_u64_slice(data.as_slice())
    }

    /// Writes an array of `usize` as the slice of its elements.
    pub fn write_usize_array<const LEN: usize>(&mut self, data: &[usize; LEN]) -> (r: &mut Self)
        requires
            old(self).wf(),
        ensures
            r.wf(),
            r.format == old(self).format,
            r@ == old(self)@.appended(
                old(self).format.enc_slice(ints_of(data@), word_size(), false),
            ),
            *final(r.result) == *final(old(self).result),
            *final(self) == *final(r),
    {
        self.write_usize_slice(data.as_slice())
    }

    /// Writes an array of `i8` as the slice of its elements.
    pub fn write_i8_array<const LEN: usize>(&mut self, data: &[i8; LEN]) -> (r: &mut Self)
        requires
            old(self).wf(),
        ensures
            r.wf(),
            r.format == old(self).format,
            r@ == old(self)@.appended(old(self).format.enc_slice(ints_of(data@), 1, true)),
            *final(r.result) == *final(old(self).result),
            *final(self) == *final(r),
    {
        self.write_i8_slice(data.as_slice())
    }

    /// Writes an array of `i16` as the slice of its elements.
    pub fn write_i16_array<const LEN: usize>(&mut self, data: &[i16; LEN]) -> (r: &mut Self)
        requires
            old(self).wf(),
        ensures
            r.wf(),
            r.format == old(self).format,
            r@ == old(self)@.appended(old(self).format.enc_slice(ints_of(data@), 2, true)),
            *final(r.result) == *final(old(self).result),
            *final(self) == *final(r),
    {
        self.write_i16_slice(data.as_slice())
    }

    /// Writes an array of `i32` as the slice of its elements.
    pub fn write_i32_array<const LEN: usize>(&mut self, data: &[i32; LEN]) -> (r: &mut Self)
        requires
            old(self).wf(),
        ensures
            r.wf(),
            r.format == old(self).format,
            r@ == old(self)@.appended(old(self).format.enc_slice(ints_of(data@), 4, true)),
            *final(r.result) == *final(old(self).result),
            *final(self) == *final(r),
    {
        self.write_i32_slice(data.as_slice())
    }

    /// Writes an array of `i64` as the slice of its elements.
    pub fn write_i64_array<const LEN: usize>(&mut self, data: &[i64; LEN]) -> (r: &mut Self)
        requires
            old(self).wf(),
        ensures
            r.wf(),
            r.format == old(self).format,
            r@ == old(self)@.appended(old(self).format.enc_slice(ints_of(data@), 8, true)),
            *final(r.result) == *final(old(self).result),
            *final(self) == *final(r),
    {
        self.write_i64_slice(data.as_slice())
    }

    /// Writes an array of `isize` as the slice of its elements.
    pub fn write_isize_array<const LEN: usize>(&mut self, data: &[isize; LEN]) -> (r: &mut Self)
        requires
            old(self).wf(),
        ensures
            r.wf(),
            r.format == old(self).format,
            r@ == old(self)@.appended(
                old(self).format.enc_slice(ints_of(data@), word_size(), true),
            ),
            *final(r.result) == *final(old(self).result),
            *final(self) == *final(r),
    {
        self.write_isize_slice(data.as_slice())
    }

    /// Writes an array of truth values as the slice of its elements.
    pub fn write_bool_array<const LEN: usize>(&mut self, data: &[bool; LEN]) -> (r: &mut Self)
        requires
            old(self).wf(),
        ensures
            r.wf(),
            r.format == old(self).format,
            r@ == old(self)@.appended(old(self).format.enc_bool_slice(data@)),
            *final(r.result) == *final(old(self).result),
            *final(self) == *final(r),
    {
        self.write_bool_slice(data.as_slice())
    }

    /// Writes an array of strings as the slice of its elements.
    pub fn write_str_array<const LEN: usize>(&mut self, data: &[&str; LEN]) -> (r: &mut Self)
        requires
            old(self).wf(),
        ensures
            r.wf(),
            r.format == old(self).format,
            r@ == old(self)@.appended(old(self).format.enc_str_slice(bytes_of_strs(data@))),
            *final(r.result) == *final(old(self).result),
            *final(self) == *final(r),
    {
        self.write_str_slice(data.as_slice())
    }

    /// Writes a reference: zero bytes up to the next multiple of four, then
    /// the record of the reference, whose place goes into the table of
    /// offsets.
    pub fn write_obj_ref(&mut self, obj_ref: ObjectRef)
        requires
            old(self).wf(),
        ensures
            final(self).wf(),
            final(self)@ == old(self)@.with_reference(obj_ref),
            *final(final(self).result) == *final(old(self).result),
    {
        let ghost before = self@;
        let len = self.result.data_buffer.len();
        let pad = (4 - len % 4) % 4;
        put_zeros(&mut self.result.data_buffer, pad);
        let at = self.result.data_buffer.len();
        let record = obj_ref.to_bytes();
        let ghost padded = self.result.data_buffer@;
        self.result.data_buffer.extend_from_slice(record.as_slice());
        assert(self.result.data_buffer@ =~= padded + record@);
        self.result.offsets_buffer.push(at);
        proof {
            let order = native_order();
            let added = enc_reference(order, len as int, obj_ref);
            let data = before.data + added;
            let offsets = before.offsets.push(at);
            lemma_object_ref_roundtrip(order, obj_ref);
            lemma_append_keeps_references(order, before.data, before.offsets, added);
            assert(self@.data =~= data);
            assert(data.subrange(at as int, at + object_ref_size()) =~= obj_ref.spec_bytes(order));
            assert forall|i: int| 0 <= i < offsets.len() implies #[trigger] reference_at(
                order,
                data,
                offsets,
                i,
            ) by {
                if i < before.offsets.len() {
                    assert(reference_at(order, data, before.offsets, i));
                    assert(reference_at(order, before.data, before.offsets, i));
                }
            }
        }
    }
}

} // verus!
