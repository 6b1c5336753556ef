//! Reading the slots of a bit-packed array, and searching a sorted one.
use vstd::prelude::*;
use vstd::slice::slice_subrange;
use vstd::utf8::{decode_utf8, encode_utf8, encode_utf8_decode_utf8, valid_utf8};

use crate::endian::{le_u16, le_u32, le_u64, read_u16, read_u32, read_u64};
use crate::error::{RealmFileError, RealmResult};

verus! {

/// Two to the power `k`, for the bit positions of a byte.
pub open spec fn two_to(k: int) -> int {
    if k <= 0 {
        1
    } else if k == 1 {
        2
    } else if k == 2 {
        4
    } else if k == 3 {
        8
    } else if k == 4 {
        16
    } else if k == 5 {
        32
    } else if k == 6 {
        64
    } else {
        128
    }
}

/// The widths, in bits, that a slot can have.
pub open spec fn valid_width(width: u8) -> bool {
    width == 0 || width == 1 || width == 2 || width == 4 || width == 8 || width == 16 || width
        == 32 || width == 64
}

/// Whether slot `index` of width `width` lies within a payload of `len` bytes.
pub open spec fn slot_readable(len: int, width: u8, index: int) -> bool {
    valid_width(width) && 0 <= index && (index + 1) * (width as int) <= 8 * len
}

/// The value of slot `index` in a payload whose slots are `width` bits wide.
///
/// Slots narrower than a byte are packed from the low bits of each byte
/// upwards; wider slots are little-endian integers. A slot of width 0 is 0.
#[verifier::opaque]
pub open spec fn slot_value(payload: Seq<u8>, width: u8, index: int) -> int
    recommends
        slot_readable(payload.len() as int, width, index),
{
    if width == 0 {
        0
    } else if width < 8 {
        let per_byte = 8int / (width as int);
        let byte = payload[index / per_byte] as int;
        (byte / two_to((width as int) * (index % per_byte))) % two_to(width as int)
    } else if width == 8 {
        payload[index] as int
    } else if width == 16 {
        le_u16(payload.subrange(2 * index, 2 * index + 2))
    } else if width == 32 {
        le_u32(payload.subrange(4 * index, 4 * index + 4))
    } else {
        le_u64(payload.subrange(8 * index, 8 * index + 8))
    }
}

/// A slot holds a number below two to the power of its width.
pub proof fn lemma_slot_value_bound(payload: Seq<u8>, width: u8, index: int)
    requires
        slot_readable(payload.len() as int, width, index),
    ensures
        0 <= slot_value(payload, width, index) <= u64::MAX,
        width == 0 ==> slot_value(payload, width, index) == 0,
        width == 1 ==> slot_value(payload, width, index) < 2,
        width == 2 ==> slot_value(payload, width, index) < 4,
        width == 4 ==> slot_value(payload, width, index) < 16,
        width == 8 ==> slot_value(payload, width, index) < 0x100,
        width == 16 ==> slot_value(payload, width, index) < 0x1_0000,
        width == 32 ==> slot_value(payload, width, index) < 0x1_0000_0000,
{
    reveal(slot_value);
    if width == 64 {
        let s = payload.subrange(8 * index, 8 * index + 8);
        assert(s.subrange(4, 8).len() == 4);
    }
}

/// Reads slot `index` of a payload whose slots are `width` bits wide.
pub fn read_array_value(payload: &[u8], width: u8, index: usize) -> (v: u64)
    requires
        slot_readable(payload@.len() as int, width, index as int),
    ensures
        v as int == slot_value(payload@, width, index as int),
{
    proof {
        reveal(slot_value);
        lemma_slot_value_bound(payload@, width, index as int);
        assert(payload@.len() == payload.len());
    }
    if width == 0 {
        0
    } else if width == 1 {
        let b: u8 = payload[index / 8];
        let shift: u8 = (index % 8) as u8;
        assert(((b >> shift) & 0x01) as int == (b as int / two_to(shift as int)) % 2) by {
            assert(shift < 8 ==> ((b >> shift) & 0x01) == (b / (1u8 << shift)) % 2) by (bit_vector);
            assert(shift < 8 ==> (1u8 << shift) as int == two_to(shift as int)) by {
                lemma_one_shl(shift);
            }
        }
        ((b >> shift) & 0x01) as u64
    } else if width == 2 {
        let b: u8 = payload[index / 4];
        let shift: u8 = ((index % 4) * 2) as u8;
        assert(((b >> shift) & 0x03) as int == (b as int / two_to(shift as int)) % 4) by {
            assert(shift < 8 ==> ((b >> shift) & 0x03) == (b / (1u8 << shift)) % 4) by (bit_vector);
            assert(shift < 8 ==> (1u8 << shift) as int == two_to(shift as int)) by {
                lemma_one_shl(shift);
            }
        }
        ((b >> shift) & 0x03) as u64
    } else if width == 4 {
        let b: u8 = payload[index / 2];
        let shift: u8 = ((index % 2) * 4) as u8;
        assert(((b >> shift) & 0x0F) as int == (b as int / two_to(shift as int)) % 16) by {
            assert(shift < 8 ==> ((b >> shift) & 0x0F) == (b / (1u8 << shift)) % 16) by (bit_vector);
            assert(shift < 8 ==> (1u8 << shift) as int == two_to(shift as int)) by {
                lemma_one_shl(shift);
            }
        }
        ((b >> shift) & 0x0F) as u64
    } else if width == 8 {
        payload[index] as u64
    } else if width == 16 {
        assert((index + 1) * 16 <= 8 * payload@.len());
        let offset = index * 2;
        read_u16(slice_subrange(payload, offset, offset + 2)) as u64
    } else if width == 32 {
        assert((index + 1) * 32 <= 8 * payload@.len());
        let offset = index * 4;
        read_u32(slice_subrange(payload, offset, offset + 4)) as u64
    } else {
        assert((index + 1) * 64 <= 8 * payload@.len());
        let offset = index * 8;
        read_u64(slice_subrange(payload, offset, offset + 8))
    }
}

/// One shifted left by `shift` places is two to the power `shift`.
proof fn lemma_one_shl(shift: u8)
    requires
        shift < 8,
    ensures
        (1u8 << shift) as int == two_to(shift as int),
{
    assert(shift < 8 ==> (1u8 << shift) == (if shift == 0 {
        1u8
    } else if shift == 1 {
        2u8
    } else if shift == 2 {
        4u8
    } else if shift == 3 {
        8u8
    } else if shift == 4 {
        16u8
    } else if shift == 5 {
        32u8
    } else if shift == 6 {
        64u8
    } else {
        128u8
    })) by (bit_vector);
}

/// Whether the first `size` slots of width `width` lie within `len` bytes.
pub open spec fn slots_readable(len: int, width: u8, size: int) -> bool {
    valid_width(width) && 0 <= size && size * (width as int) <= 8 * len
}

/// Each of the first `size` slots can be read where all of them can.
pub proof fn lemma_slots_readable(len: int, width: u8, size: int, index: int)
    requires
        slots_readable(len, width, size),
        0 <= index < size,
    ensures
        slot_readable(len, width, index),
{
    assert((index + 1) * (width as int) <= size * (width as int)) by (nonlinear_arith)
        requires
            0 <= index < size,
            0 <= width,
    ;
}

/// Whether the first `size` slots never decrease.
pub open spec fn sorted_slots(data: Seq<u8>, width: u8, size: int) -> bool {
    forall|i: int, j: int|
        0 <= i <= j < size ==> slot_value(data, width, i) <= slot_value(data, width, j)
}

/// Where the halving search for the first slot that is not below `value`
/// ends, when it has `size` slots left to look at, starting at `low`.
///
/// Each step probes the slot in the middle of what is left and keeps the
/// upper part if that slot is below `value`, the lower part if it is not.
pub open spec fn lower_bound_from(data: Seq<u8>, width: u8, low: int, size: int, value: u64) -> int
    decreases size,
{
    if size <= 0 {
        low
    } else {
        let half = size / 2;
        let next = if slot_value(data, width, low + half) < value {
            low + (size - half)
        } else {
            low
        };
        lower_bound_from(data, width, next, half, value)
    }
}

/// Where the halving search for the first slot above `value` ends, when it has
/// `size` slots left to look at, starting at `low`.
pub open spec fn upper_bound_from(data: Seq<u8>, width: u8, low: int, size: int, value: u64) -> int
    decreases size,
{
    if size <= 0 {
        low
    } else {
        let half = size / 2;
        let next = if value >= slot_value(data, width, low + half) {
            low + (size - half)
        } else {
            low
        };
        upper_bound_from(data, width, next, half, value)
    }
}

/// The search stays within the slots it was given.
pub proof fn lemma_lower_bound_range(data: Seq<u8>, width: u8, low: int, size: int, value: u64)
    requires
        0 <= size,
    ensures
        low <= lower_bound_from(data, width, low, size, value) <= low + size,
    decreases size,
{
    if size > 0 {
        let half = size / 2;
        let next = if slot_value(data, width, low + half) < value {
            low + (size - half)
        } else {
            low
        };
        lemma_lower_bound_range(data, width, next, half, value);
    }
}

/// The search stays within the slots it was given.
pub proof fn lemma_upper_bound_range(data: Seq<u8>, width: u8, low: int, size: int, value: u64)
    requires
        0 <= size,
    ensures
        low <= upper_bound_from(data, width, low, size, value) <= low + size,
    decreases size,
{
    if size > 0 {
        let half = size / 2;
        let next = if value >= slot_value(data, width, low + half) {
            low + (size - half)
        } else {
            low
        };
        lemma_upper_bound_range(data, width, next, half, value);
    }
}

/// On slots that never decrease, the search for the lower bound ends at the
/// one place that has every slot below `value` before it and none after it.
pub proof fn lemma_lower_bound_sorted(
    data: Seq<u8>,
    width: u8,
    total: int,
    low: int,
    size: int,
    value: u64,
)
    requires
        sorted_slots(data, width, total),
        0 <= low,
        0 <= size,
        low + size <= total,
        forall|i: int| 0 <= i < low ==> slot_value(data, width, i) < value,
        forall|i: int| low + size <= i < total ==> slot_value(data, width, i) >= value,
    ensures
        ({
            let r = lower_bound_from(data, width, low, size, value);
            &&& low <= r <= low + size
            &&& forall|i: int| 0 <= i < r ==> slot_value(data, width, i) < value
            &&& forall|i: int| r <= i < total ==> slot_value(data, width, i) >= value
        }),
    decreases size,
{
    if size > 0 {
        let half = size / 2;
        let probe = low + half;
        let next = if slot_value(data, width, probe) < value {
            low + (size - half)
        } else {
            low
        };
        if slot_value(data, width, probe) < value {
            assert forall|i: int| 0 <= i < next implies slot_value(data, width, i) < value by {
                if i >= low {
                    assert(slot_value(data, width, i) <= slot_value(data, width, probe));
                }
            }
        } else {
            assert forall|i: int| next + half <= i < total implies slot_value(data, width, i)
                >= value by {
                if i < low + size {
                    assert(slot_value(data, width, probe) <= slot_value(data, width, i));
                }
            }
        }
        lemma_lower_bound_sorted(data, width, total, next, half, value);
    }
}

/// On slots that never decrease, the search for the upper bound ends at the
/// one place that has every slot up to `value` before it and none after it.
pub proof fn lemma_upper_bound_sorted(
    data: Seq<u8>,
    width: u8,
    total: int,
    low: int,
    size: int,
    value: u64,
)
    requires
        sorted_slots(data, width, total),
        0 <= low,
        0 <= size,
        low + size <= total,
        forall|i: int| 0 <= i < low ==> slot_value(data, width, i) <= value,
        forall|i: int| low + size <= i < total ==> slot_value(data, width, i) > value,
    ensures
        ({
            let r = upper_bound_from(data, width, low, size, value);
            &&& low <= r <= low + size
            &&& forall|i: int| 0 <= i < r ==> slot_value(data, width, i) <= value
            &&& forall|i: int| r <= i < total ==> slot_value(data, width, i) > value
        }),
    decreases size,
{
    if size > 0 {
        let half = size / 2;
        let probe = low + half;
        let next = if value >= slot_value(data, width, probe) {
            low + (size - half)
        } else {
            low
        };
        if value >= slot_value(data, width, probe) {
            assert forall|i: int| 0 <= i < next implies slot_value(data, width, i) <= value by {
                if i >= low {
                    assert(slot_value(data, width, i) <= slot_value(data, width, probe));
                }
            }
        } else {
            assert forall|i: int| next + half <= i < total implies slot_value(data, width, i)
                > value by {
                if i < low + size {
                    assert(slot_value(data, width, probe) <= slot_value(data, width, i));
                }
            }
        }
        lemma_upper_bound_sorted(data, width, total, next, half, value);
    }
}

/// The index of the first of the first `size` slots of `data` that is not
/// below `value`, or `size` if there is none, found by halving.
///
/// On slots that never decrease this is the lower bound in the usual sense.
/// On other slots it is where the halving search happens to end.
pub fn lower_bound(data: &[u8], width: u8, size: usize, value: u64) -> (low: usize)
    requires
        slots_readable(data@.len() as int, width, size as int),
    ensures
        low as int == lower_bound_from(data@, width, 0, size as int, value),
        low <= size,
        sorted_slots(data@, width, size as int) ==> {
            &&& forall|i: int| 0 <= i < low ==> slot_value(data@, width, i) < value
            &&& forall|i: int| low <= i < size ==> slot_value(data@, width, i) >= value
        },
{
    let mut size = size;
    let ghost total = size as int;
    let mut low: usize = 0;
    proof {
        lemma_lower_bound_range(data@, width, 0, total, value);
        if sorted_slots(data@, width, total) {
            lemma_lower_bound_sorted(data@, width, total, 0, total, value);
        }
    }
    while size >= 8
        invariant
            slots_readable(data@.len() as int, width, total),
            low + size <= total,
            total <= usize::MAX,
            lower_bound_from(data@, width, low as int, size as int, value) == lower_bound_from(
                data@,
                width,
                0,
                total,
                value,
            ),
        decreases size,
    {
        let mut half = size / 2;
        let mut other_half = size - half;
        let mut probe = low + half;
        let mut other_low = low + other_half;
        proof {
            lemma_slots_readable(data@.len() as int, width, total, probe as int);
        }
        let mut v = read_array_value(data, width, probe);
        size = half;
        low = if v < value {
            other_low
        } else {
            low
        };
        assert(lower_bound_from(data@, width, low as int, size as int, value) == lower_bound_from(
            data@,
            width,
            0,
            total,
            value,
        ));

        half = size / 2;
        other_half = size - half;
        probe = low + half;
        other_low = low + other_half;
        proof {
            lemma_slots_readable(data@.len() as int, width, total, probe as int);
        }
        v = read_array_value(data, width, probe);
        size = half;
        low = if v < value {
            other_low
        } else {
            low
        };
        assert(lower_bound_from(data@, width, low as int, size as int, value) == lower_bound_from(
            data@,
            width,
            0,
            total,
            value,
        ));

        half = size / 2;
        other_half = size - half;
        probe = low + half;
        other_low = low + other_half;
        proof {
            lemma_slots_readable(data@.len() as int, width, total, probe as int);
        }
        v = read_array_value(data, width, probe);
        size = half;
        low = if v < value {
            other_low
        } else {
            low
        };
    }
    while size > 0
        invariant
            slots_readable(data@.len() as int, width, total),
            low + size <= total,
            total <= usize::MAX,
            lower_bound_from(data@, width, low as int, size as int, value) == lower_bound_from(
                data@,
                width,
                0,
                total,
                value,
            ),
        decreases size,
    {
        let half = size / 2;
        let other_half = size - half;
        let probe = low + half;
        let other_low = low + other_half;
        proof {
            lemma_slots_readable(data@.len() as int, width, total, probe as int);
        }
        let v = read_array_value(data, width, probe);
        size = half;
        low = if v < value {
            other_low
        } else {
            low
        };
    }
    low
}

/// The index of the first of the first `size` slots of `data` that is above
/// `value`, or `size` if there is none, found by halving.
///
/// On slots that never decrease this is the upper bound in the usual sense.
/// On other slots it is where the halving search happens to end.
pub fn upper_bound(data: &[u8], width: u8, size: usize, value: u64) -> (low: usize)
    requires
        slots_readable(data@.len() as int, width, size as int),
    ensures
        low as int == upper_bound_from(data@, width, 0, size as int, value),
        low <= size,
        sorted_slots(data@, width, size as int) ==> {
            &&& forall|i: int| 0 <= i < low ==> slot_value(data@, width, i) <= value
            &&& forall|i: int| low <= i < size ==> slot_value(data@, width, i) > value
        },
{
    let mut size = size;
    let ghost total = size as int;
    let mut low: usize = 0;
    proof {
        lemma_upper_bound_range(data@, width, 0, total, value);
        if sorted_slots(data@, width, total) {
            lemma_upper_bound_sorted(data@, width, total, 0, total, value);
        }
    }
    while size >= 8
        invariant
            slots_readable(data@.len() as int, width, total),
            low + size <= total,
            total <= usize::MAX,
            upper_bound_from(data@, width, low as int, size as int, value) == upper_bound_from(
                data@,
                width,
                0,
                total,
                value,
            ),
        decreases size,
    {
        let mut half = size / 2;
        let mut other_half = size - half;
        let mut probe = low + half;
        let mut other_low = low + other_half;
        proof {
            lemma_slots_readable(data@.len() as int, width, total, probe as int);
        }
        let mut v = read_array_value(data, width, probe);
        size = half;
        low = if value >= v {
            other_low
        } else {
            low
        };
        assert(upper_bound_from(data@, width, low as int, size as int, value) == upper_bound_from(
            data@,
            width,
            0,
            total,
            value,
        ));

        half = size / 2;
        other_half = size - half;
        probe = low + half;
        other_low = low + other_half;
        proof {
            lemma_slots_readable(data@.len() as int, width, total, probe as int);
        }
        v = read_array_value(data, width, probe);
        size = half;
        low = if value >= v {
            other_low
        } else {
            low
        };
        assert(upper_bound_from(data@, width, low as int, size as int, value) == upper_bound_from(
            data@,
            width,
            0,
            total,
            value,
        ));

        half = size / 2;
        other_half = size - half;
        probe = low + half;
        other_low = low + other_half;
        proof {
            lemma_slots_readable(data@.len() as int, width, total, probe as int);
        }
        v = read_array_value(data, width, probe);
        size = half;
        low = if value >= v {
            other_low
        } else {
            low
        };
    }
    while size > 0
        invariant
            slots_readable(data@.len() as int, width, total),
            low + size <= total,
            total <= usize::MAX,
            upper_bound_from(data@, width, low as int, size as int, value) == upper_bound_from(
                data@,
                width,
                0,
                total,
                value,
            ),
        decreases size,
    {
        let half = size / 2;
        let other_half = size - half;
        let probe = low + half;
        let other_low = low + other_half;
        proof {
            lemma_slots_readable(data@.len() as int, width, total, probe as int);
        }
        let v = read_array_value(data, width, probe);
        size = half;
        low = if value >= v {
            other_low
        } else {
            low
        };
    }
    low
}

/// Calls `String::from_utf8`, which gives the string that `bytes` encode in
/// UTF-8 and fails where they are no UTF-8.
#[verifier::external_body]
pub(crate) fn string_from_utf8(bytes: Vec<u8>) -> (r: Option<String>)
    ensures
        match r {
            Some(s) => valid_utf8(bytes@) && s@ == decode_utf8(bytes@),
            None => !valid_utf8(bytes@),
        },
{
    match String::from_utf8(bytes) {
        Ok(s) => Some(s),
        Err(_) => None,
    }
}

/// `bytes` without its last byte where that is a NUL, else `bytes` itself.
pub open spec fn strip_nul(bytes: Seq<u8>) -> Seq<u8> {
    if bytes.len() > 0 && bytes.last() == 0 {
        bytes.drop_last()
    } else {
        bytes
    }
}

/// `r` is the text that `content` encodes in UTF-8; it is an error where
/// there is no content or the content is no UTF-8.
pub open spec fn is_text(r: RealmResult<String>, content: Option<Seq<u8>>) -> bool {
    match content {
        Some(bytes) => if valid_utf8(bytes) {
            r matches Ok(s) && s@ == decode_utf8(bytes)
        } else {
            r matches Err(e) && e is InvalidRealmFile
        },
        None => r matches Err(e) && e is InvalidRealmFile,
    }
}

/// `r` is the text that `content` encodes in UTF-8, or `None` where the
/// content is null; it is an error where there is no content or it is no
/// UTF-8.
pub open spec fn is_optional_text(
    r: RealmResult<Option<String>>,
    content: Option<Option<Seq<u8>>>,
) -> bool {
    match content {
        Some(Some(bytes)) => if valid_utf8(bytes) {
            r matches Ok(Some(s)) && s@ == decode_utf8(bytes)
        } else {
            r matches Err(e) && e is InvalidRealmFile
        },
        Some(None) => r matches Ok(None),
        None => r matches Err(e) && e is InvalidRealmFile,
    }
}

/// `r` is the text that `content` encodes in UTF-8, or the empty string
/// where the content is null; it is an error where there is no content or it
/// is no UTF-8.
pub open spec fn is_text_or_empty(r: RealmResult<String>, content: Option<Option<Seq<u8>>>) -> bool {
    match content {
        Some(Some(bytes)) => is_text(r, Some(bytes)),
        Some(None) => r matches Ok(s) && s@ == Seq::<char>::empty(),
        None => r matches Err(e) && e is InvalidRealmFile,
    }
}

/// The text that `bytes` encode in UTF-8.
pub fn text_from_bytes(bytes: Vec<u8>) -> (r: RealmResult<String>)
    ensures
        is_text(r, Some(bytes@)),
{
    match string_from_utf8(bytes) {
        Some(s) => Ok(s),
        None => Err(RealmFileError::invalid("string is not valid UTF-8")),
    }
}

/// The text that `bytes` encode in UTF-8 once a trailing NUL is taken off.
pub fn string_from_bytes(bytes: Vec<u8>) -> (r: RealmResult<String>)
    ensures
        is_text(r, Some(strip_nul(bytes@))),
{
    let mut bytes = bytes;
    let len = bytes.len();
    if len > 0 && bytes[len - 1] == 0 {
        bytes.pop();
    }
    text_from_bytes(bytes)
}

/// The optional text that the optional `bytes` encode in UTF-8.
pub fn optional_text(bytes: Option<Vec<u8>>) -> (r: RealmResult<Option<String>>)
    ensures
        is_optional_text(
            r,
            Some(
                match bytes {
                    Some(b) => Some(b@),
                    None => None,
                },
            ),
        ),
{
    match bytes {
        Some(b) => {
            let s = text_from_bytes(b)?;
            Ok(Some(s))
        },
        None => Ok(None),
    }
}

/// `text`, or the empty string where there is none.
pub fn text_or_empty(text: Option<String>) -> (r: String)
    ensures
        match text {
            Some(s) => r@ == s@,
            None => r@ == Seq::<char>::empty(),
        },
{
    match text {
        Some(s) => s,
        None => String::new(),
    }
}

/// Whether `a` and `b` are the same text, found by comparing their bytes.
pub fn same_text(a: &str, b: &str) -> (r: bool)
    ensures
        r == (a@ == b@),
{
    let x = a.as_bytes();
    let y = b.as_bytes();
    proof {
        encode_utf8_decode_utf8(a@);
        encode_utf8_decode_utf8(b@);
    }
    if x.len() != y.len() {
        return false;
    }
    let mut i: usize = 0;
    while i < x.len()
        invariant
            x@ == encode_utf8(a@),
            y@ == encode_utf8(b@),
            x@.len() == y@.len(),
            i <= x@.len(),
            forall|j: int| 0 <= j < i ==> x@[j] == y@[j],
        decreases x@.len() - i,
    {
        if x[i] != y[i] {
            return false;
        }
        i += 1;
    }
    assert(x@ =~= y@);
    true
}

} // verus!
