//! What holds of the leaves of strings, and of leaves of width 0.
use vstd::prelude::*;

use crate::array::array_string_short::short_string_content;
use crate::array::integer_array::IntegerArray;
use crate::array::long_blobs_array::LongBlobsArray;
use crate::array::small_blobs_array::SmallBlobsArray;
use crate::utils::{lemma_slot_value_bound, strip_nul};

verus! {

/// In a leaf of short strings of width `width` above 0, the last byte of an
/// element counts the unused bytes. The element is null where the count
/// equals the width; else the count is below the width and the bytes before
/// the unused ones are the string.
pub proof fn lemma_short_string_layout(payload: Seq<u8>, width: int, index: int)
    requires
        width > 0,
        index >= 0,
        short_string_content(payload, width, index) is Some,
    ensures
        ({
            let zeroes = payload[index * width + width - 1] as int;
            match short_string_content(payload, width, index).unwrap() {
                None => zeroes == width,
                Some(content) => {
                    &&& zeroes <= width - 1
                    &&& content.len() == width - 1 - zeroes
                    &&& content == payload.subrange(index * width, index * width + content.len())
                },
            }
        }),
{
    let zeroes = payload[index * width + width - 1] as int;
    assert((index + 1) * width == index * width + width) by (nonlinear_arith);
    assert(index * width >= 0) by (nonlinear_arith)
        requires
            index >= 0,
            width > 0,
    ;
}

/// A short string whose count of unused bytes is one less than the width is
/// empty, and not null.
pub proof fn lemma_empty_short_string(payload: Seq<u8>, width: int, index: int)
    requires
        width > 0,
        index >= 0,
        (index + 1) * width <= payload.len(),
        payload[index * width + width - 1] == width - 1,
    ensures
        short_string_content(payload, width, index) == Some(Some(Seq::<u8>::empty())),
{
    assert((index + 1) * width == index * width + width && index * width >= 0)
        by (nonlinear_arith)
        requires
            index >= 0,
            width > 0,
    ;
    assert(payload.subrange(index * width, index * width + width - 1 - (width - 1))
        =~= Seq::<u8>::empty());
}

/// Every element of a leaf of width 0 that can hold nulls is null, and every
/// element of one that cannot is 0.
pub proof fn lemma_width_zero_integers(leaf: IntegerArray, index: int)
    requires
        leaf.wf(),
        leaf.array.width == 0,
    ensures
        0 <= index < leaf.array.spec_size() ==> leaf.signed_element(index) == Some(0i64),
        0 <= index && index + 1 < leaf.array.spec_size() ==> leaf.nullable_element(index) == Some(
            None::<i64>,
        ),
{
    leaf.array.lemma_wf();
    if 0 <= index < leaf.array.spec_size() {
        leaf.array.lemma_slot_readable(index);
        lemma_slot_value_bound(leaf.array.node.spec_payload(), 0, index);
    }
    if 0 <= index && index + 1 < leaf.array.spec_size() {
        leaf.array.lemma_slot_readable(index + 1);
        leaf.array.lemma_slot_readable(0);
        lemma_slot_value_bound(leaf.array.node.spec_payload(), 0, index + 1);
        lemma_slot_value_bound(leaf.array.node.spec_payload(), 0, 0);
    }
}

/// Every element of a leaf of short strings of width 0 is null.
pub proof fn lemma_width_zero_strings(payload: Seq<u8>, index: int)
    requires
        index >= 0,
    ensures
        short_string_content(payload, 0, index) == Some(None::<Seq<u8>>),
{
}

/// A string of medium or of great length that ends in a NUL is returned
/// without that NUL, and with nothing else taken off.
pub proof fn lemma_trailing_nul_is_stripped(bytes: Seq<u8>)
    requires
        bytes.len() > 0,
        bytes.last() == 0,
    ensures
        strip_nul(bytes).len() == bytes.len() - 1,
        strip_nul(bytes) == bytes.subrange(0, bytes.len() - 1),
        forall|i: int| 0 <= i < bytes.len() - 1 ==> strip_nul(bytes)[i] == bytes[i],
{
}

/// A blob of medium length is stored with its NUL and read without it.
pub proof fn lemma_medium_string_has_no_nul(leaf: SmallBlobsArray, index: int)
    requires
        leaf.element(index) matches Some(Some(bytes)) && bytes.len() > 0 && bytes.last() == 0,
    ensures
        leaf.text_element(index) == Some(Some(leaf.element(index).unwrap().unwrap().drop_last())),
{
}

/// A blob of great length is stored with its NUL and read without it.
pub proof fn lemma_long_string_has_no_nul(leaf: LongBlobsArray, index: int)
    requires
        leaf.element(index) matches Some(Some(bytes)) && bytes.len() > 0 && bytes.last() == 0,
    ensures
        leaf.text_element(index) == Some(Some(leaf.element(index).unwrap().unwrap().drop_last())),
{
}

} // verus!
