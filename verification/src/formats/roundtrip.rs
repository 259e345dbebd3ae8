//! What was written reads back: for each kind of value of the dead simple
//! format, reading the bytes that writing produced gives the value and
//! leaves the cursor behind them.

use crate::bytes::{
    encode_int, fits, lemma_decode_encode_element, lemma_part_of_part, radix_pow, word_size,
    ByteOrder,
};
use crate::formats::dead_simple::{
    all_bools, dec_bool, dec_bool_slice, dec_bools, dec_bytes, dec_cstr, dec_cstr_slice,
    dec_cstrs, dec_elements, dec_int, dec_reference, dec_slice, dec_str, dec_str_slice,
    dec_strs, element_at, enc_bool, enc_bool_slice, enc_bools, enc_bytes, enc_cstr,
    enc_cstr_slice, enc_cstrs, enc_elements, enc_reference, enc_slice, enc_str_slice, enc_strs,
    enc_word, is_offset, lemma_nul_distance_found, padding,
};
use crate::formats::{lemma_can_take_part, no_nul, overlaps_reference, ReaderView};
use crate::object::{lemma_object_ref_roundtrip, object_ref_size, ObjectRef};
use crate::packet::{reference_at, references_well_formed};
use vstd::prelude::*;

verus! {

/// Bytes behind the data of a well-formed table touch no reference.
pub proof fn lemma_behind_references(
    order: ByteOrder,
    data: Seq<u8>,
    offsets: Seq<usize>,
    len: int,
)
    requires
        references_well_formed(order, data, offsets),
    ensures
        !overlaps_reference(offsets, data.len() as int, len),
{
    if overlaps_reference(offsets, data.len() as int, len) {
        let i = choose|i: int|
            0 <= i < offsets.len() && (#[trigger] offsets[i]) < data.len() + len && data.len()
                < offsets[i] + object_ref_size();
        assert(reference_at(order, data, offsets, i));
    }
}

/// A number that was written reads back.
pub proof fn lemma_int_roundtrip(order: ByteOrder, v: ReaderView, x: int, width: nat, signed: bool)
    requires
        fits(x, width, signed),
        v.can_take(0, width as int),
        v.bytes_at(0, width as int) == encode_int(order, x, width),
    ensures
        dec_int(order, v, width, signed) == Some((x, v.pos + width)),
{
    lemma_decode_encode_element(order, x, width, signed);
}

/// A truth value that was written reads back.
pub proof fn lemma_bool_roundtrip(v: ReaderView, value: bool)
    requires
        v.can_take(0, 1),
        v.bytes_at(0, 1) == enc_bool(value),
    ensures
        dec_bool(v) == Some((value, v.pos + 1)),
{
    assert(v.bytes_at(0, 1)[0] == v.data[v.pos]);
}

/// A byte string that was written reads back.
pub proof fn lemma_bytes_roundtrip(order: ByteOrder, v: ReaderView, bytes: Seq<u8>)
    requires
        bytes.len() < radix_pow(word_size()),
        v.can_take(0, (word_size() + bytes.len()) as int),
        v.bytes_at(0, (word_size() + bytes.len()) as int) == enc_bytes(order, bytes),
    ensures
        dec_bytes(order, v) == Some((bytes, v.pos + word_size() + bytes.len())),
{
    let w = word_size() as int;
    let total = w + bytes.len();
    let head = enc_word(order, bytes.len());
    lemma_decode_encode_element(order, bytes.len() as int, word_size(), false);
    lemma_can_take_part(v, 0, total, 0, w);
    lemma_can_take_part(v, 0, total, w, bytes.len() as int);
    assert(enc_bytes(order, bytes).subrange(0, w) =~= head);
    assert(enc_bytes(order, bytes).subrange(w, total) =~= bytes);
    assert(v.at(v.pos).bytes_at(0, w) == v.bytes_at(0, w));
    assert(v.at(v.pos) == v);
    lemma_int_roundtrip(order, v, bytes.len() as int, word_size(), false);
}

/// A string that was written reads back.
pub proof fn lemma_str_roundtrip(order: ByteOrder, v: ReaderView, bytes: Seq<u8>)
    requires
        vstd::utf8::valid_utf8(bytes),
        bytes.len() < radix_pow(word_size()),
        v.can_take(0, (word_size() + bytes.len()) as int),
        v.bytes_at(0, (word_size() + bytes.len()) as int) == enc_bytes(order, bytes),
    ensures
        dec_str(order, v) == Some((bytes, v.pos + word_size() + bytes.len())),
{
    lemma_bytes_roundtrip(order, v, bytes);
}

/// A string that a zero byte ends, once written, reads back.
pub proof fn lemma_cstr_roundtrip(v: ReaderView, bytes: Seq<u8>)
    requires
        no_nul(bytes),
        v.can_take(0, (bytes.len() + 1) as int),
        v.bytes_at(0, (bytes.len() + 1) as int) == enc_cstr(bytes),
    ensures
        dec_cstr(v) == Some((bytes, v.pos + bytes.len() + 1)),
{
    let len = bytes.len() as int;
    let written = v.bytes_at(0, len + 1);
    assert forall|k: int| v.pos <= k < v.pos + len implies v.data[k] != 0 by {
        assert(written[k - v.pos] == v.data[k]);
        assert(enc_cstr(bytes)[k - v.pos] == bytes[k - v.pos]);
    }
    assert(written[len] == v.data[v.pos + len]);
    lemma_nul_distance_found(v.data, v.pos, len);
    assert(v.bytes_at(0, len) =~= bytes) by {
        assert forall|k: int| 0 <= k < len implies v.bytes_at(0, len)[k] == bytes[k] by {
            assert(written[k] == v.data[v.pos + k]);
            assert(enc_cstr(bytes)[k] == bytes[k]);
        }
    }
}

/// Numbers of `width` bytes each, written one behind the other, take
/// `width` bytes each, and each reads back at its place.
pub proof fn lemma_elements_roundtrip(
    order: ByteOrder,
    values: Seq<int>,
    width: nat,
    signed: bool,
)
    requires
        forall|i: int| 0 <= i < values.len() ==> fits(#[trigger] values[i], width, signed),
    ensures
        enc_elements(order, values, width).len() == values.len() * width,
        dec_elements(order, enc_elements(order, values, width), width, values.len(), signed)
            == values,
    decreases values.len(),
{
    let all = enc_elements(order, values, width);
    if values.len() == 0 {
        assert(values.len() * width == 0) by (nonlinear_arith)
            requires
                values.len() == 0,
        ;
        assert(dec_elements(order, all, width, values.len(), signed) =~= values);
    } else {
        let front = values.drop_last();
        let head = enc_elements(order, front, width);
        let last = encode_int(order, values.last(), width);
        lemma_elements_roundtrip(order, front, width, signed);
        lemma_decode_encode_element(order, values.last(), width, signed);
        assert(values.len() * width == front.len() * width + width) by (nonlinear_arith)
            requires
                values.len() == front.len() + 1,
        ;
        assert forall|i: int| 0 <= i < values.len() implies element_at(
            order,
            all,
            width,
            signed,
            i,
        ) == values[i] by {
            if i < front.len() {
                assert(i * width + width <= front.len() * width) by (nonlinear_arith)
                    requires
                        0 <= i < front.len(),
                ;
                assert(0 <= i * width) by (nonlinear_arith)
                    requires
                        0 <= i,
                ;
                assert(all.subrange(i * width, i * width + width) =~= head.subrange(
                    i * width,
                    i * width + width,
                ));
                assert(dec_elements(order, head, width, front.len(), signed)[i] == front[i]);
            } else {
                assert(all.subrange(i * width, i * width + width) =~= last);
            }
        }
        assert(dec_elements(order, all, width, values.len(), signed) =~= values);
    }
}

/// A slice of numbers that was written reads back.
pub proof fn lemma_slice_roundtrip(
    order: ByteOrder,
    v: ReaderView,
    values: Seq<int>,
    width: nat,
    signed: bool,
)
    requires
        forall|i: int| 0 <= i < values.len() ==> fits(#[trigger] values[i], width, signed),
        values.len() < radix_pow(word_size()),
        v.can_take(0, (word_size() + values.len() * width) as int),
        v.bytes_at(0, (word_size() + values.len() * width) as int) == enc_slice(
            order,
            values,
            width,
        ),
    ensures
        dec_slice(order, v, width, signed) == Some(
            (values, v.pos + word_size() + values.len() * width),
        ),
{
    let w = word_size() as int;
    let body = (values.len() * width) as int;
    let total = w + body;
    let head = enc_word(order, values.len());
    let packed = enc_elements(order, values, width);
    lemma_elements_roundtrip(order, values, width, signed);
    lemma_decode_encode_element(order, values.len() as int, word_size(), false);
    lemma_can_take_part(v, 0, total, 0, w);
    lemma_can_take_part(v, 0, total, w, body);
    assert(enc_slice(order, values, width).subrange(0, w) =~= head);
    assert(enc_slice(order, values, width).subrange(w, total) =~= packed);
    assert(v.at(v.pos) == v);
    lemma_int_roundtrip(order, v, values.len() as int, word_size(), false);
}

/// A slice of truth values that was written reads back.
pub proof fn lemma_bool_slice_roundtrip(order: ByteOrder, v: ReaderView, values: Seq<bool>)
    requires
        values.len() < radix_pow(word_size()),
        v.can_take(0, (word_size() + values.len()) as int),
        v.bytes_at(0, (word_size() + values.len()) as int) == enc_bool_slice(order, values),
    ensures
        dec_bool_slice(order, v) == Some((values, v.pos + word_size() + values.len())),
{
    let bytes = enc_bools(values);
    assert(enc_bool_slice(order, values) == enc_bytes(order, bytes));
    lemma_bytes_roundtrip(order, v, bytes);
    assert(all_bools(bytes));
    assert(dec_bools(bytes) =~= values);
}

/// A reference that was written reads back: where the bytes from the
/// cursor on are what writing the reference at the cursor produces, the
/// table of offsets names the place of the record, and the bytes skipped
/// belong to no reference.
pub proof fn lemma_reference_roundtrip(order: ByteOrder, v: ReaderView, reference: ObjectRef)
    requires
        0 <= v.pos,
        v.pos + padding(v.pos) + object_ref_size() <= v.data.len(),
        v.data.subrange(v.pos, v.pos + padding(v.pos) + object_ref_size()) == enc_reference(
            order,
            v.pos,
            reference,
        ),
        is_offset(v.offsets, v.pos + padding(v.pos)),
        !overlaps_reference(v.offsets, v.pos, padding(v.pos)),
    ensures
        dec_reference(order, v) == Some(
            (reference, v.pos + padding(v.pos) + object_ref_size()),
        ),
{
    let pad = padding(v.pos);
    let at = v.pos + pad;
    let size = object_ref_size() as int;
    lemma_object_ref_roundtrip(order, reference);
    lemma_part_of_part(v.data, v.pos, at + size, pad, pad + size);
    assert(enc_reference(order, v.pos, reference).subrange(pad, pad + size)
        =~= reference.spec_bytes(order));
}

/// Whether each of `items` is UTF-8 and short enough for its length to be
/// written.
pub open spec fn all_strs(items: Seq<Seq<u8>>) -> bool {
    forall|i: int|
        0 <= i < items.len() ==> vstd::utf8::valid_utf8(#[trigger] items[i]) && items[i].len()
            < radix_pow(word_size())
}

/// Whether none of `items` holds a zero byte.
pub open spec fn all_cstrs(items: Seq<Seq<u8>>) -> bool {
    forall|i: int| 0 <= i < items.len() ==> no_nul(#[trigger] items[i])
}

/// Strings that were written one behind the other read back.
pub proof fn lemma_strs_roundtrip(order: ByteOrder, v: ReaderView, items: Seq<Seq<u8>>)
    requires
        all_strs(items),
        v.can_take(0, enc_strs(order, items).len() as int),
        v.bytes_at(0, enc_strs(order, items).len() as int) == enc_strs(order, items),
    ensures
        dec_strs(order, v, items.len()) == Some((items, v.pos + enc_strs(order, items).len())),
    decreases items.len(),
{
    if items.len() > 0 {
        let front = items.drop_last();
        let last = items.last();
        let head = enc_strs(order, front);
        let tail = enc_bytes(order, last);
        let total = (head.len() + tail.len()) as int;
        assert(enc_strs(order, items) == head + tail);
        assert(all_strs(front)) by {
            assert forall|i: int| 0 <= i < front.len() implies vstd::utf8::valid_utf8(
                #[trigger] front[i],
            ) && front[i].len() < radix_pow(word_size()) by {
                assert(front[i] == items[i]);
            }
        }
        lemma_can_take_part(v, 0, total, 0, head.len() as int);
        lemma_can_take_part(v, 0, total, head.len() as int, tail.len() as int);
        assert((head + tail).subrange(0, head.len() as int) =~= head);
        assert((head + tail).subrange(head.len() as int, total) =~= tail);
        assert(v.at(v.pos) == v);
        lemma_strs_roundtrip(order, v, front);
        let next = v.at(v.pos + head.len());
        lemma_decode_encode_element(order, last.len() as int, word_size(), false);
        lemma_str_roundtrip(order, next, last);
        assert(front.push(last) =~= items);
    } else {
        assert(items =~= Seq::<Seq<u8>>::empty());
    }
}

/// A slice of strings that was written reads back.
pub proof fn lemma_str_slice_roundtrip(order: ByteOrder, v: ReaderView, items: Seq<Seq<u8>>)
    requires
        all_strs(items),
        items.len() < radix_pow(word_size()),
        v.can_take(0, enc_str_slice(order, items).len() as int),
        v.bytes_at(0, enc_str_slice(order, items).len() as int) == enc_str_slice(order, items),
    ensures
        dec_str_slice(order, v) == Some(
            (items, v.pos + enc_str_slice(order, items).len()),
        ),
{
    let w = word_size() as int;
    let head = enc_word(order, items.len());
    let body = enc_strs(order, items);
    let total = (head.len() + body.len()) as int;
    lemma_decode_encode_element(order, items.len() as int, word_size(), false);
    lemma_can_take_part(v, 0, total, 0, w);
    lemma_can_take_part(v, 0, total, w, body.len() as int);
    assert((head + body).subrange(0, w) =~= head);
    assert((head + body).subrange(w, total) =~= body);
    assert(v.at(v.pos) == v);
    lemma_int_roundtrip(order, v, items.len() as int, word_size(), false);
    lemma_strs_roundtrip(order, v.at(v.pos + w), items);
}

/// Strings that a zero byte ends, written one behind the other, read
/// back.
pub proof fn lemma_cstrs_roundtrip(v: ReaderView, items: Seq<Seq<u8>>)
    requires
        all_cstrs(items),
        v.can_take(0, enc_cstrs(items).len() as int),
        v.bytes_at(0, enc_cstrs(items).len() as int) == enc_cstrs(items),
    ensures
        dec_cstrs(v, items.len()) == Some((items, v.pos + enc_cstrs(items).len())),
    decreases items.len(),
{
    if items.len() > 0 {
        let front = items.drop_last();
        let last = items.last();
        let head = enc_cstrs(front);
        let tail = enc_cstr(last);
        let total = (head.len() + tail.len()) as int;
        assert(enc_cstrs(items) == head + tail);
        assert(all_cstrs(front)) by {
            assert forall|i: int| 0 <= i < front.len() implies no_nul(#[trigger] front[i]) by {
                assert(front[i] == items[i]);
            }
        }
        lemma_can_take_part(v, 0, total, 0, head.len() as int);
        lemma_can_take_part(v, 0, total, head.len() as int, tail.len() as int);
        assert((head + tail).subrange(0, head.len() as int) =~= head);
        assert((head + tail).subrange(head.len() as int, total) =~= tail);
        assert(v.at(v.pos) == v);
        lemma_cstrs_roundtrip(v, front);
        lemma_cstr_roundtrip(v.at(v.pos + head.len()), last);
        assert(front.push(last) =~= items);
    } else {
        assert(items =~= Seq::<Seq<u8>>::empty());
    }
}

/// A slice of strings that a zero byte ends, once written, reads back.
pub proof fn lemma_cstr_slice_roundtrip(order: ByteOrder, v: ReaderView, items: Seq<Seq<u8>>)
    requires
        all_cstrs(items),
        items.len() < radix_pow(word_size()),
        v.can_take(0, enc_cstr_slice(order, items).len() as int),
        v.bytes_at(0, enc_cstr_slice(order, items).len() as int) == enc_cstr_slice(order, items),
    ensures
        dec_cstr_slice(order, v) == Some(
            (items, v.pos + enc_cstr_slice(order, items).len()),
        ),
{
    let w = word_size() as int;
    let head = enc_word(order, items.len());
    let body = enc_cstrs(items);
    let total = (head.len() + body.len()) as int;
    lemma_decode_encode_element(order, items.len() as int, word_size(), false);
    lemma_can_take_part(v, 0, total, 0, w);
    lemma_can_take_part(v, 0, total, w, body.len() as int);
    assert((head + body).subrange(0, w) =~= head);
    assert((head + body).subrange(w, total) =~= body);
    assert(v.at(v.pos) == v);
    lemma_int_roundtrip(order, v, items.len() as int, word_size(), false);
    lemma_cstrs_roundtrip(v.at(v.pos + w), items);
}

} // verus!
