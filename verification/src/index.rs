//! The index of a column: a trie keyed by four bytes of the value at a time.
use vstd::prelude::*;
use vstd::slice::{slice_subrange, slice_to_vec};
use vstd::utf8::encode_utf8;

use crate::array::{ref_in_slot, ref_or_tag_in_slot, Array, RealmRef, RefOrTaggedValue};
use crate::column::bptree::max_depth;
use crate::error::{decodes, RealmFileError, RealmResult};
use crate::realm::{lemma_len_fits, Realm};
use crate::utils::{
    lemma_lower_bound_range, lemma_slot_value_bound, lemma_slots_readable, lower_bound,
    lower_bound_from, read_array_value, slot_value, slots_readable,
};
use crate::value::{Value, ValueView};

verus! {

/// The first `count` bytes of `v`, low byte first.
pub open spec fn le_bytes(v: nat, count: nat) -> Seq<u8>
    decreases count,
{
    if count == 0 {
        Seq::empty()
    } else {
        seq![(v % 256) as u8] + le_bytes(v / 256, (count - 1) as nat)
    }
}

/// The unsigned number that has the same 64 bits as `v`.
pub open spec fn as_unsigned(v: i64) -> u64 {
    if v < 0 {
        (v + 0x1_0000_0000_0000_0000) as u64
    } else {
        v as u64
    }
}

/// Whether an index can be probed for the value `v`: it is an integer, a
/// boolean, a string or a timestamp.
pub open spec fn can_probe(v: ValueView) -> bool {
    v is Int || v is Bool || v is String || v is Timestamp
}

/// The bytes under which an index files the value `v`: the UTF-8 bytes of a
/// string, the eight little-endian bytes of an integer, one byte 0 or 1 for a
/// boolean, the eight little-endian bytes of the seconds and the four of the
/// nanoseconds for a timestamp.
pub open spec fn probe_bytes(v: ValueView) -> Seq<u8> {
    match v {
        ValueView::String(s) => encode_utf8(s),
        ValueView::Int(n) => le_bytes(as_unsigned(n) as nat, 8),
        ValueView::Bool(b) => if b {
            seq![1u8]
        } else {
            seq![0u8]
        },
        ValueView::Timestamp(t) => le_bytes(as_unsigned(t.seconds) as nat, 8) + le_bytes(
            t.nanoseconds as nat,
            4,
        ),
        _ => Seq::empty(),
    }
}

/// Byte `at` of `value` with an `X` put behind it and zeroes after that.
pub open spec fn key_byte(value: Seq<u8>, at: int) -> u8 {
    if 0 <= at < value.len() {
        value[at]
    } else if at == value.len() {
        0x58
    } else {
        0
    }
}

/// The key of `value` at `offset`: the four bytes from `offset` on of `value`
/// with an `X` behind it, high byte first, with zeroes for what is missing.
/// Past the end of `value` the key is 0.
pub open spec fn key_at(value: Seq<u8>, offset: int) -> u32 {
    if offset > value.len() {
        0
    } else {
        (key_byte(value, offset) as int * 0x100_0000 + key_byte(value, offset + 1) as int * 0x1_0000
            + key_byte(value, offset + 2) as int * 0x100 + key_byte(value, offset + 3) as int) as u32
    }
}

/// The first `count` bytes of `v`, low byte first.
pub fn to_le_bytes(v: u64, count: usize) -> (r: Vec<u8>)
    ensures
        r@ == le_bytes(v as nat, count as nat),
{
    let mut out: Vec<u8> = Vec::with_capacity(count);
    let mut rest = v;
    let mut i: usize = 0;
    while i < count
        invariant
            i <= count,
            out@.len() == i,
            out@ + le_bytes(rest as nat, (count - i) as nat) == le_bytes(v as nat, count as nat),
        decreases count - i,
    {
        let ghost before = out@;
        out.push((rest % 256) as u8);
        assert(before + le_bytes(rest as nat, (count - i) as nat) =~= out@ + le_bytes(
            (rest / 256) as nat,
            (count - i - 1) as nat,
        ));
        rest = rest / 256;
        i += 1;
    }
    assert(out@ + le_bytes(rest as nat, 0) =~= out@);
    out
}

/// The unsigned number that has the same 64 bits as `v`.
pub fn reinterpret_unsigned(v: i64) -> (r: u64)
    ensures
        r == as_unsigned(v),
{
    if v < 0 {
        (v - i64::MIN) as u64 + 0x8000_0000_0000_0000
    } else {
        v as u64
    }
}

/// The index of a column. Each node of the trie is an array whose slot 0
/// refers to the sorted keys of the node and whose later slots hold what is
/// filed under each key.
#[derive(Debug, Clone, Copy)]
pub struct Index<'a> {
    /// The node: a reference to the keys, then one slot for each key.
    pub array: Array<'a>,
    /// The keys of the node, 32 bits each, in rising order.
    pub offsets: Array<'a>,
}

impl<'a> Index<'a> {
    /// The number of bytes of a key.
    pub const KEY_SIZE: u8 = 4;

    /// The number of bits of a key.
    pub const KEY_SIZE_BITS: u8 = 32;

    /// The index node at `ref_` in `realm`, where there is one: an array
    /// whose slot 0 refers to an array that holds its keys at 32 bits each.
    pub open spec fn at(realm: Realm<'a>, ref_: RealmRef) -> Option<Index<'a>> {
        match Array::at(realm, ref_) {
            Some(array) => if array.spec_size() < 1 {
                None
            } else {
                match array.spec_array(0) {
                    Some(Some(offsets)) => if slots_readable(
                        offsets.node.spec_payload().len() as int,
                        32,
                        offsets.spec_size(),
                    ) {
                        Some(Index { array, offsets })
                    } else {
                        None
                    },
                    _ => None,
                }
            },
            None => None,
        }
    }

    /// This is the index node that the file holds at the array's reference.
    pub open spec fn wf(&self) -> bool {
        Self::at(self.array.node.realm, self.array.node.ref_) == Some(*self)
    }

    /// The parts of an index node are arrays of the file, and the keys can be
    /// read at 32 bits each.
    pub proof fn lemma_wf(&self)
        requires
            self.wf(),
        ensures
            self.array.wf(),
            self.offsets.wf(),
            self.offsets.node.wf(),
            self.offsets.node.realm == self.array.node.realm,
            self.array.spec_size() >= 1,
            slots_readable(
                self.offsets.node.spec_payload().len() as int,
                32,
                self.offsets.spec_size(),
            ),
    {
        self.offsets.lemma_wf();
    }

    /// Key `pos` of the node.
    pub open spec fn key(&self, pos: int) -> int {
        slot_value(self.offsets.node.spec_payload(), 32, pos)
    }

    /// Where the key `key` stands or would stand among the keys of the node.
    pub open spec fn position(&self, key: u32) -> int {
        lower_bound_from(
            self.offsets.node.spec_payload(),
            32,
            0,
            self.offsets.spec_size(),
            key as u64,
        )
    }

    /// The first row that the trie under this node files under `value`, from
    /// byte `offset` of the value on, when the search may still go `fuel`
    /// nodes down. `Some(None)` says that no row is filed under the value;
    /// `None` says that the trie is damaged or deeper than the fuel reaches.
    ///
    /// The key at `offset` is looked up among the keys of the node. In an
    /// inner node of a B+Tree the slot found leads to a node that is searched
    /// with the same key. Elsewhere the key must be there. A tagged slot then
    /// holds the row; a reference to a node with the context flag clear leads
    /// to a list of rows, of which the first is taken; a reference to a node
    /// with the context flag set leads to the trie for the next four bytes.
    pub open spec fn find_from(self, value: Seq<u8>, offset: int, fuel: nat) -> Option<Option<usize>>
        decreases fuel,
    {
        let key = key_at(value, offset);
        let pos = self.position(key);
        let realm = self.array.node.realm;
        if pos == self.offsets.spec_size() {
            Some(None)
        } else if pos + 1 >= self.array.spec_size() {
            None
        } else {
            let slot = self.array.slot(pos + 1);
            if self.array.node.header.spec_is_inner_bptree() {
                match ref_in_slot(realm@.len() as int, slot) {
                    Some(Some(sub_ref)) => match Index::at(realm, sub_ref) {
                        Some(sub) => if fuel == 0 {
                            None
                        } else {
                            sub.find_from(value, offset, (fuel - 1) as nat)
                        },
                        None => None,
                    },
                    _ => None,
                }
            } else if self.key(pos) != key {
                Some(None)
            } else {
                match ref_or_tag_in_slot(realm@.len() as int, slot) {
                    Some(Some(RefOrTaggedValue::TaggedValue(row))) => if row > usize::MAX {
                        None
                    } else {
                        Some(Some(row as usize))
                    },
                    Some(Some(RefOrTaggedValue::Ref(target_ref))) => match Array::at(
                        realm,
                        target_ref,
                    ) {
                        Some(target) => if !target.node.header.spec_context_flag() {
                            if target.spec_size() == 0 || target.slot(0) > usize::MAX {
                                None
                            } else {
                                Some(Some(target.slot(0) as usize))
                            }
                        } else {
                            match Index::at(realm, target_ref) {
                                Some(sub) => if fuel == 0 {
                                    None
                                } else {
                                    sub.find_from(value, offset + 4, (fuel - 1) as nat)
                                },
                                None => None,
                            }
                        },
                        None => None,
                    },
                    _ => None,
                }
            }
        }
    }

    /// The first row that the index files under `value`.
    pub open spec fn first_row(self, value: Seq<u8>) -> Option<Option<usize>> {
        self.find_from(value, 0, max_depth(self.array.node.realm))
    }

    /// Loads the index node at `ref_`.
    pub fn from_ref(realm: Realm<'a>, ref_: RealmRef) -> (r: RealmResult<Index<'a>>)
        ensures
            decodes(r, Self::at(realm, ref_)),
    {
        let array = Array::from_ref(realm, ref_)?;
        if array.size() < 1 {
            return Err(RealmFileError::invalid("an index node needs its keys"));
        }
        let offsets = match array.get_array(0)? {
            Some(a) => a,
            None => {
                return Err(RealmFileError::invalid("an index node needs its keys"));
            },
        };
        proof {
            lemma_len_fits(realm.bytes);
            offsets.lemma_wf();
            offsets.node.lemma_wf();
            assert(offsets.node.spec_payload().len() == offsets.node.cached_payload_len);
            assert(slots_readable(
                offsets.node.spec_payload().len() as int,
                32,
                offsets.spec_size(),
            ) == (offsets.spec_size() * 32 <= 8 * offsets.node.cached_payload_len));
        }
        if (offsets.size() as u64) * 4 > offsets.node.cached_payload_len as u64 {
            return Err(RealmFileError::invalid("the keys of an index node are 32 bits each"));
        }
        Ok(Index { array, offsets })
    }

    /// The first row that the index files under `value`, or `None` where it
    /// files no row under it.
    pub fn find_first(&self, value: &Value) -> (r: RealmResult<Option<usize>>)
        requires
            self.wf(),
            can_probe(value@),
        ensures
            decodes(r, self.first_row(probe_bytes(value@))),
    {
        let bytes = Self::coerce_to_string(value);
        self.find_first_bytes(bytes.as_slice())
    }

    /// The first row that the index files under the bytes `value`, or `None`
    /// where it files no row under them.
    pub fn find_first_bytes(&self, value: &[u8]) -> (r: RealmResult<Option<usize>>)
        requires
            self.wf(),
        ensures
            decodes(r, self.first_row(value@)),
    {
        let realm = self.array.node.realm;
        let mut current: Index<'a> = *self;
        let mut value_offset: usize = 0;
        let mut fuel: usize = realm.bytes.len() / 8;
        assert(fuel as nat == max_depth(realm));
        loop
            invariant
                realm == self.array.node.realm,
                current.array.node.realm == realm,
                current.wf(),
                value_offset <= 4 * (max_depth(realm) - fuel),
                fuel <= max_depth(realm),
                current.find_from(value@, value_offset as int, fuel as nat) == self.first_row(
                    value@,
                ),
            decreases fuel,
        {
            proof {
                current.lemma_wf();
                lemma_len_fits(realm.bytes);
                lemma_lower_bound_range(
                    current.offsets.node.spec_payload(),
                    32,
                    0,
                    current.offsets.spec_size(),
                    key_at(value@, value_offset as int) as u64,
                );
            }
            let key = Self::create_key_with_offset(value, value_offset);
            // Find the position matching the key.
            let pos = lower_bound(
                current.offsets.node.payload(),
                Self::KEY_SIZE_BITS,
                current.offsets.size(),
                key as u64,
            );
            // If the key is outside the range, there can be no match.
            if pos == current.offsets.size() {
                return Ok(None);
            }
            if pos + 1 >= current.array.size() {
                return Err(RealmFileError::invalid("an index node with more keys than slots"));
            }
            if current.array.node.header.is_inner_bptree() {
                let sub_ref = match current.array.get_ref(pos + 1)? {
                    Some(r) => r,
                    None => {
                        return Err(RealmFileError::invalid("an index node with a missing child"));
                    },
                };
                let sub = Index::from_ref(realm, sub_ref)?;
                if fuel == 0 {
                    return Err(RealmFileError::invalid("index is deeper than the file has nodes"));
                }
                current = sub;
                fuel = fuel - 1;
                continue ;
            }
            proof {
                lemma_slots_readable(
                    current.offsets.node.spec_payload().len() as int,
                    32,
                    current.offsets.spec_size(),
                    pos as int,
                );
                lemma_slot_value_bound(current.offsets.node.spec_payload(), 32, pos as int);
            }
            let stored_key = read_array_value(current.offsets.node.payload(), 32, pos);
            if stored_key != key as u64 {
                return Ok(None);
            }
            match current.array.get_ref_or_tagged_value(pos + 1)? {
                Some(RefOrTaggedValue::TaggedValue(row)) => {
                    if row > usize::MAX as u64 {
                        return Err(RealmFileError::invalid("row number too large"));
                    }
                    return Ok(Some(row as usize));
                },
                Some(RefOrTaggedValue::Ref(target_ref)) => {
                    let target = Array::from_ref(realm, target_ref)?;
                    if !target.node.header.context_flag() {
                        if target.size() == 0 {
                            return Err(RealmFileError::invalid("an empty list of rows"));
                        }
                        let row = target.get(0);
                        if row > usize::MAX as u64 {
                            return Err(RealmFileError::invalid("row number too large"));
                        }
                        return Ok(Some(row as usize));
                    }
                    // Otherwise, go into the sub-index for the next part of
                    // the value.
                    let sub = Index::from_ref(realm, target_ref)?;
                    if fuel == 0 {
                        return Err(
                            RealmFileError::invalid("index is deeper than the file has nodes"),
                        );
                    }
                    current = sub;
                    value_offset = value_offset + Self::KEY_SIZE as usize;
                    fuel = fuel - 1;
                },
                None => {
                    return Err(RealmFileError::invalid("an index slot that holds nothing"));
                },
            }
        }
    }

    /// The key of the first four bytes of `value`, high byte first, with
    /// zeroes for what is missing.
    pub fn create_key(value: &[u8]) -> (key: u32)
        ensures
            key as int == Self::byte_or_zero(value@, 0) as int * 0x100_0000 + Self::byte_or_zero(
                value@,
                1,
            ) as int * 0x1_0000 + Self::byte_or_zero(value@, 2) as int * 0x100
                + Self::byte_or_zero(value@, 3) as int,
    {
        let b0: u32 = if value.len() > 0 {
            value[0] as u32
        } else {
            0
        };
        let b1: u32 = if value.len() > 1 {
            value[1] as u32
        } else {
            0
        };
        let b2: u32 = if value.len() > 2 {
            value[2] as u32
        } else {
            0
        };
        let b3: u32 = if value.len() > 3 {
            value[3] as u32
        } else {
            0
        };
        b0 * 0x100_0000 + b1 * 0x1_0000 + b2 * 0x100 + b3
    }

    /// Byte `at` of `value`, or 0 past its end.
    pub open spec fn byte_or_zero(value: Seq<u8>, at: int) -> u8 {
        if 0 <= at < value.len() {
            value[at]
        } else {
            0
        }
    }

    /// The key of `value` at `offset`. All values are filed as if they had an
    /// `X` behind them: `foo` as `fooX`, the empty string as `X`.
    pub fn create_key_with_offset(value: &[u8], offset: usize) -> (key: u32)
        ensures
            key == key_at(value@, offset as int),
    {
        if offset > value.len() {
            return 0;
        }
        let tail = value.len() - offset;
        if tail < Self::KEY_SIZE as usize {
            // For very short strings.
            let mut buf: Vec<u8> = Vec::with_capacity(4);
            let mut i: usize = 0;
            assert(value@.len() == value.len());
            while i < tail
                invariant
                    i <= tail,
                    value@.len() <= usize::MAX,
                    tail == value@.len() - offset,
                    offset <= value@.len(),
                    buf@.len() == i,
                    forall|j: int| 0 <= j < i ==> buf@[j] == value@[offset + j],
                decreases tail - i,
            {
                buf.push(value[offset + i]);
                i += 1;
            }
            buf.push(0x58);
            return Self::create_key(buf.as_slice());
        }
        Self::create_key(slice_subrange(value, offset, value.len()))
    }

    /// The bytes under which the index files `value`.
    pub fn coerce_to_string(value: &Value) -> (r: Vec<u8>)
        requires
            can_probe(value@),
        ensures
            r@ == probe_bytes(value@),
    {
        match value {
            Value::String(s) => slice_to_vec(s.as_str().as_bytes()),
            Value::Int(n) => to_le_bytes(reinterpret_unsigned(*n), 8),
            Value::Bool(b) => {
                let mut out: Vec<u8> = Vec::new();
                out.push(
                    if *b {
                        1
                    } else {
                        0
                    },
                );
                assert(out@ =~= probe_bytes(value@));
                out
            },
            Value::Timestamp(t) => {
                let mut out = to_le_bytes(reinterpret_unsigned(t.seconds), 8);
                let mut nanos = to_le_bytes(t.nanoseconds as u64, 4);
                out.append(&mut nanos);
                out
            },
            _ => Vec::new(),
        }
    }
}

} // verus!
