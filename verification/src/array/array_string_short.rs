//! A leaf of short strings.
use vstd::prelude::*;
use vstd::slice::{slice_subrange, slice_to_vec};
use vstd::utf8::valid_utf8;

use crate::array::RealmRef;
use crate::error::{decodes, RealmFileError, RealmResult};
use crate::realm::{Realm, RealmNode};
use crate::utils::{
    is_optional_text, is_text_or_empty, optional_text, text_or_empty,
};

verus! {

/// The content of element `index` of a payload of short strings that are
/// `width` bytes each.
///
/// The last byte of an element counts the unused bytes before it. An element
/// whose count equals `width` is null; one with a lower count `z` holds the
/// first `width - 1 - z` bytes. There is no content where the element lies
/// outside the payload or its count exceeds `width`. With width 0 every
/// element is null.
pub open spec fn short_string_content(payload: Seq<u8>, width: int, index: int) -> Option<
    Option<Seq<u8>>,
> {
    if index < 0 {
        None
    } else if width == 0 {
        Some(None)
    } else if (index + 1) * width > payload.len() {
        None
    } else {
        let zeroes = payload[index * width + width - 1] as int;
        if zeroes == width {
            Some(None)
        } else if zeroes > width {
            None
        } else {
            Some(Some(payload.subrange(index * width, index * width + width - 1 - zeroes)))
        }
    }
}

/// A leaf of strings of a fixed width in bytes.
#[derive(Debug, Clone, Copy)]
pub struct ArrayStringShort<'a> {
    /// The node that holds the strings.
    pub node: RealmNode<'a>,
}

impl<'a> ArrayStringShort<'a> {
    /// The leaf at `ref_` in `realm`, where there is one.
    pub open spec fn at(realm: Realm<'a>, ref_: RealmRef) -> Option<ArrayStringShort<'a>> {
        match RealmNode::at(realm, ref_) {
            Some(node) => Some(ArrayStringShort { node }),
            None => None,
        }
    }

    /// The node is a node of the file.
    pub open spec fn wf(&self) -> bool {
        self.node.wf()
    }

    /// The number of elements.
    pub open spec fn spec_size(&self) -> int {
        self.node.header.size as int
    }

    /// The content of element `index`, or `None` in it where the element is
    /// null. There is none where the leaf has no such element.
    pub open spec fn element(&self, index: int) -> Option<Option<Seq<u8>>> {
        if 0 <= index < self.spec_size() {
            short_string_content(
                self.node.spec_payload(),
                self.node.header.spec_width() as int,
                index,
            )
        } else {
            None
        }
    }

    /// Loads the leaf at `ref_`.
    pub fn from_ref(realm: Realm<'a>, ref_: RealmRef) -> (r: RealmResult<ArrayStringShort<'a>>)
        ensures
            decodes(r, Self::at(realm, ref_)),
    {
        let node = RealmNode::from_ref(realm, ref_)?;
        Ok(ArrayStringShort { node })
    }

    /// The bytes of element `index`, or `None` where the element is null.
    pub fn get_bytes(&self, index: usize) -> (r: RealmResult<Option<Vec<u8>>>)
        requires
            self.wf(),
        ensures
            match self.element(index as int) {
                Some(Some(content)) => r matches Ok(Some(bytes)) && bytes@ == content,
                Some(None) => r matches Ok(None),
                None => r matches Err(e) && e is InvalidRealmFile,
            },
    {
        if index >= self.node.header.size as usize {
            return Err(RealmFileError::invalid("index outside leaf"));
        }
        let width = self.node.header.width() as usize;
        if width == 0 {
            return Ok(None);
        }
        let payload = self.node.payload();
        let per = payload.len() / width;
        let ghost len = payload@.len() as int;
        let ghost w = width as int;
        if per <= index {
            assert((index + 1) * w > len) by (nonlinear_arith)
                requires
                    len / w <= index,
                    w > 0,
                    len >= 0,
            ;
            return Err(RealmFileError::invalid("short string outside leaf"));
        }
        assert((index + 1) * w <= len && index * w + w == (index + 1) * w && index * w >= 0)
            by (nonlinear_arith)
            requires
                len / w > index,
                w > 0,
                len >= 0,
                index >= 0,
        ;
        let start = index * width;
        let zeroes = payload[start + width - 1] as usize;
        if zeroes == width {
            return Ok(None);
        }
        if zeroes > width {
            return Err(RealmFileError::invalid("short string with an invalid length"));
        }
        Ok(Some(slice_to_vec(slice_subrange(payload, start, start + width - 1 - zeroes))))
    }

    /// The string at `index`, or `None` where the element is null.
    pub fn get(&self, index: usize) -> (r: RealmResult<Option<String>>)
        requires
            self.wf(),
        ensures
            is_optional_text(r, self.element(index as int)),
    {
        let bytes = self.get_bytes(index)?;
        optional_text(bytes)
    }

    /// The string at `index` of the leaf at `ref_`, or `None` where the
    /// element is null.
    pub fn get_direct(realm: Realm<'a>, ref_: RealmRef, index: usize) -> (r: RealmResult<
        Option<String>,
    >)
        ensures
            is_optional_text(
                r,
                match Self::at(realm, ref_) {
                    Some(leaf) => leaf.element(index as int),
                    None => None,
                },
            ),
    {
        let leaf = Self::from_ref(realm, ref_)?;
        leaf.get(index)
    }

    /// The string at `index`, or the empty string where the element is null.
    pub fn get_or_default(&self, index: usize) -> (r: RealmResult<String>)
        requires
            self.wf(),
        ensures
            is_text_or_empty(r, self.element(index as int)),
    {
        let text = self.get(index)?;
        Ok(text_or_empty(text))
    }

    /// The string at `index` of the leaf at `ref_`, or the empty string
    /// where the element is null.
    pub fn get_or_default_direct(realm: Realm<'a>, ref_: RealmRef, index: usize) -> (r:
        RealmResult<String>)
        ensures
            is_text_or_empty(
                r,
                match Self::at(realm, ref_) {
                    Some(leaf) => leaf.element(index as int),
                    None => None,
                },
            ),
    {
        let leaf = Self::from_ref(realm, ref_)?;
        leaf.get_or_default(index)
    }

    /// Whether element `index` is null.
    pub fn is_null(&self, index: usize) -> (r: RealmResult<bool>)
        requires
            self.wf(),
        ensures
            decodes(
                r,
                match self.element(index as int) {
                    Some(content) => Some(content is None),
                    None => None,
                },
            ),
    {
        let bytes = self.get_bytes(index)?;
        Ok(bytes.is_none())
    }

    /// The number of elements.
    pub fn size(&self) -> (r: usize)
        ensures
            r == self.spec_size(),
    {
        self.node.header.size as usize
    }

    /// All strings of a leaf that holds no null, in order.
    pub fn get_all(&self) -> (r: RealmResult<Vec<String>>)
        requires
            self.wf(),
        ensures
            match r {
                Ok(names) => {
                    &&& names@.len() == self.spec_size()
                    &&& forall|i: int|
                        0 <= i < names@.len() ==> is_text_or_empty(
                            Ok::<String, RealmFileError>(#[trigger] names@[i]),
                            self.element(i),
                        )
                },
                Err(e) => {
                    &&& e is InvalidRealmFile
                    &&& exists|i: int|
                        0 <= i < self.spec_size() && !(#[trigger] self.readable(i))
                },
            },
    {
        let size = self.size();
        let mut out: Vec<String> = Vec::new();
        let mut i: usize = 0;
        while i < size
            invariant
                self.wf(),
                size == self.spec_size(),
                i <= size,
                out@.len() == i,
                forall|j: int|
                    0 <= j < i ==> is_text_or_empty(
                        Ok::<String, RealmFileError>(#[trigger] out@[j]),
                        self.element(j),
                    ),
            decreases size - i,
        {
            match self.get_or_default(i) {
                Ok(s) => {
                    out.push(s);
                },
                Err(e) => {
                    assert(!self.readable(i as int));
                    return Err(e);
                },
            }
            i += 1;
        }
        Ok(out)
    }

    /// Whether element `index` is null or holds UTF-8.
    pub open spec fn readable(&self, index: int) -> bool {
        match self.element(index) {
            Some(Some(bytes)) => valid_utf8(bytes),
            Some(None) => true,
            None => false,
        }
    }
}

/// Whether element `index` of a payload of elements of `width` bytes each
/// looks like a short string: it is null, or it holds at least one byte and
/// no byte below a space.
pub open spec fn element_looks_like_text(payload: Seq<u8>, width: int, index: int) -> bool {
    let zeroes = payload[index * width + width - 1] as int;
    zeroes == width || (zeroes + 1 < width && forall|j: int|
        0 <= j < width - 1 - zeroes ==> #[trigger] payload[index * width + j] >= 0x20)
}

/// Whether the first `size` elements of `payload`, of `width` bytes each,
/// all look like short strings. A payload that is too short for them, or a
/// width of 0, does not.
pub open spec fn looks_like_text(payload: Seq<u8>, width: int, size: int) -> bool {
    &&& width > 0
    &&& size * width <= payload.len()
    &&& forall|i: int| 0 <= i < size ==> #[trigger] element_looks_like_text(payload, width, i)
}

/// Whether the `size` elements of `payload`, of `width` bytes each, look like
/// the short strings of a leaf: a guess for those who print a node of which
/// they do not know the kind.
pub fn looks_like_short_array_string(payload: &[u8], width: u8, size: usize) -> (r: bool)
    ensures
        r == looks_like_text(payload@, width as int, size as int),
{
    let w = width as usize;
    if w == 0 {
        return false;
    }
    let ghost len = payload@.len() as int;
    let ghost wi = w as int;
    assert(payload@.len() == payload.len());
    if payload.len() / w < size {
        assert(size * wi > len) by (nonlinear_arith)
            requires
                len / wi < size,
                wi > 0,
                len >= 0,
        ;
        return false;
    }
    assert(size * wi <= len) by (nonlinear_arith)
        requires
            len / wi >= size,
            wi > 0,
            len >= 0,
    ;
    let mut i: usize = 0;
    while i < size
        invariant
            wi == w,
            wi == width,
            wi > 0,
            len == payload@.len(),
            len <= usize::MAX,
            size * wi <= len,
            i <= size,
            forall|k: int| 0 <= k < i ==> #[trigger] element_looks_like_text(payload@, wi, k),
        decreases size - i,
    {
        assert((i + 1) * wi <= size * wi && i * wi + wi == (i + 1) * wi && i * wi >= 0)
            by (nonlinear_arith)
            requires
                0 <= i < size,
                wi > 0,
        ;
        let start = i * w;
        let num_zeroes = payload[start + w - 1] as usize;
        if num_zeroes != w {
            if num_zeroes + 1 >= w {
                assert(!element_looks_like_text(payload@, wi, i as int));
                return false;
            }
            let text_len = w - 1 - num_zeroes;
            let mut j: usize = 0;
            while j < text_len
                invariant
                    start + w <= payload@.len(),
                    payload@.len() <= usize::MAX,
                    wi == w,
                    wi == width,
                    i < size,
                    num_zeroes == payload@[i * wi + wi - 1],
                    num_zeroes + 1 < w,
                    text_len == w - 1 - num_zeroes,
                    j <= text_len,
                    start == i * wi,
                    forall|k: int| 0 <= k < j ==> #[trigger] payload@[i * wi + k] >= 0x20,
                decreases text_len - j,
            {
                if payload[start + j] < 0x20 {
                    assert(payload@[i * wi + j] < 0x20);
                    assert(!element_looks_like_text(payload@, wi, i as int));
                    return false;
                }
                j += 1;
            }
        }
        assert(element_looks_like_text(payload@, wi, i as int));
        i += 1;
    }
    true
}

} // verus!
