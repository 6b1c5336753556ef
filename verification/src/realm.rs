//! The file header, the node header and access to the bytes of a file.
use vstd::prelude::*;

use vstd::slice::slice_subrange;

use crate::array::RealmRef;
use crate::endian::{le_u32, le_u64, read_u32, read_u64};
use crate::error::{decodes, RealmFileError, RealmResult};
use crate::utils::{read_array_value, slot_readable, slot_value};

verus! {

/// The width in bits that the three low bits of a node's flags select:
/// 0, 1, 2, 4, 8, 16, 32 or 64.
pub open spec fn width_of_index(width_index: int) -> int {
    if width_index == 0 {
        0
    } else if width_index == 1 {
        1
    } else if width_index == 2 {
        2
    } else if width_index == 3 {
        4
    } else if width_index == 4 {
        8
    } else if width_index == 5 {
        16
    } else if width_index == 6 {
        32
    } else {
        64
    }
}

/// The 8-byte header of a node.
#[derive(Clone, Copy, Debug)]
pub struct NodeHeader {
    /// The constant `0x4141_4141` in current files.
    pub checksum: u32,
    /// The flags byte.
    pub flags: u8,
    /// The number of elements, a 24-bit count.
    pub size: u32,
}

/// What the flags of a node say of its kind.
#[derive(Clone, Copy, Debug, PartialEq, Eq, Structural)]
pub enum NodeType {
    /// An inner node of a B+Tree.
    InnerBptree,
    /// A node whose slots hold references.
    HasRefs,
    /// Any other node.
    Normal,
}

/// The node header that the first eight bytes of `buf` hold: the checksum (a
/// little-endian constant), the flags byte, and the element count in three
/// big-endian bytes. There is none where `buf` is too short, the checksum is
/// wrong or the width scheme is 3.
pub open spec fn parse_node_header(buf: Seq<u8>) -> Option<NodeHeader> {
    let header = NodeHeader {
        checksum: le_u32(buf) as u32,
        flags: buf[4],
        size: (buf[5] as int * 0x1_0000 + buf[6] as int * 0x100 + buf[7] as int) as u32,
    };
    if buf.len() < 8 || le_u32(buf) != 0x4141_4141 || header.spec_width_scheme() == 3 {
        None
    } else {
        Some(header)
    }
}

impl NodeHeader {
    /// The number of bytes of a node header.
    pub const SIZE: usize = 8;

    /// The checksum that every node header carries.
    pub const DUMMY_CHECKSUM: u32 = 0x4141_4141;

    /// Bit 7 of the flags.
    pub open spec fn spec_is_inner_bptree(&self) -> bool {
        self.flags >= 128
    }

    /// Bit 6 of the flags.
    pub open spec fn spec_has_refs(&self) -> bool {
        (self.flags as int / 64) % 2 == 1
    }

    /// Bit 5 of the flags.
    pub open spec fn spec_context_flag(&self) -> bool {
        (self.flags as int / 32) % 2 == 1
    }

    /// Bits 4 and 3 of the flags.
    pub open spec fn spec_width_scheme(&self) -> u8 {
        ((self.flags as int / 8) % 4) as u8
    }

    /// The element width that bits 2 to 0 of the flags select.
    pub open spec fn spec_width(&self) -> u8 {
        width_of_index(self.flags as int % 8) as u8
    }

    /// The length in bytes of the payload, by the three width schemes.
    pub open spec fn spec_payload_len(&self) -> int {
        let scheme = self.spec_width_scheme();
        if scheme == 0 {
            (self.size as int * self.spec_width() as int + 7) / 8
        } else if scheme == 1 {
            self.size as int * self.spec_width() as int
        } else {
            self.size as int
        }
    }

    /// Whether this node is an inner node of a B+Tree.
    #[verifier::when_used_as_spec(spec_is_inner_bptree)]
    pub fn is_inner_bptree(&self) -> (r: bool)
        ensures
            r == self.spec_is_inner_bptree(),
    {
        let f = self.flags;
        assert((f & 0x80 != 0) == (f >= 128)) by (bit_vector);
        self.flags & 0x80 != 0
    }

    /// Whether the slots of this node hold references.
    #[verifier::when_used_as_spec(spec_has_refs)]
    pub fn has_refs(&self) -> (r: bool)
        ensures
            r == self.spec_has_refs(),
    {
        let f = self.flags;
        assert((f & 0x40 != 0) == ((f / 64) % 2 == 1)) by (bit_vector);
        self.flags & 0x40 != 0
    }

    /// The context flag, whose meaning depends on where the node stands.
    #[verifier::when_used_as_spec(spec_context_flag)]
    pub fn context_flag(&self) -> (r: bool)
        ensures
            r == self.spec_context_flag(),
    {
        let f = self.flags;
        assert((f & 0x20 != 0) == ((f / 32) % 2 == 1)) by (bit_vector);
        self.flags & 0x20 != 0
    }

    /// The width scheme, 0 to 3.
    #[verifier::when_used_as_spec(spec_width_scheme)]
    pub fn width_scheme(&self) -> (r: u8)
        ensures
            r == self.spec_width_scheme(),
            r < 4,
    {
        let f = self.flags;
        assert((f & 0x18) >> 3 == (f / 8) % 4) by (bit_vector);
        (self.flags & 0x18) >> 3
    }

    /// The width of one element: in bits under scheme 0, in bytes under
    /// scheme 1.
    #[verifier::when_used_as_spec(spec_width)]
    pub fn width(&self) -> (r: u8)
        ensures
            r == self.spec_width(),
    {
        let f = self.flags;
        let k: u8 = f & 0x07;
        assert(k == f % 8) by (bit_vector)
            requires
                k == f & 0x07,
        ;
        let one: u8 = 1;
        assert(k < 8 ==> (one << k) >> 1 == if k == 0 {
            0u8
        } else if k == 1 {
            1u8
        } else if k == 2 {
            2u8
        } else if k == 3 {
            4u8
        } else if k == 4 {
            8u8
        } else if k == 5 {
            16u8
        } else if k == 6 {
            32u8
        } else {
            64u8
        }) by (bit_vector)
            requires
                one == 1u8,
        ;
        (one << k) >> 1
    }

    /// The length in bytes of the payload.
    pub fn payload_len(&self) -> (r: usize)
        requires
            self.spec_width_scheme() < 3,
            self.spec_width_scheme() < 2 ==> self.size < 0x100_0000,
        ensures
            r == self.spec_payload_len(),
    {
        let width: u32 = self.width() as u32;
        let scheme = self.width_scheme();
        assert(self.size < 0x100_0000 ==> self.size * width < 0x4000_0000) by (nonlinear_arith)
            requires
                width <= 64,
        ;
        let num_bytes: u32 = if scheme == 0 {
            let num_bits: u32 = self.size * width;
            assert((num_bits + 7) as u32 >> 3 == (num_bits + 7) / 8) by (bit_vector)
                requires
                    num_bits < 0x4000_0000,
            ;
            (num_bits + 7) >> 3
        } else if scheme == 1 {
            self.size * width
        } else {
            self.size
        };
        num_bytes as usize
    }

    /// Decodes a node header from the first eight bytes of `buf`.
    ///
    /// Fails where `buf` is shorter than a header, where the checksum is not
    /// the constant, and where the width scheme is the reserved value 3.
    pub fn parse(buf: &[u8]) -> (r: RealmResult<NodeHeader>)
        ensures
            decodes(r, parse_node_header(buf@)),
    {
        if buf.len() < Self::SIZE {
            return Err(RealmFileError::invalid("node too small"));
        }
        let checksum = read_u32(buf);
        let flags = buf[4];
        let b5: u32 = buf[5] as u32;
        let b6: u32 = buf[6] as u32;
        let b7: u32 = buf[7] as u32;
        assert((b5 << 16) | (b6 << 8) | b7 == b5 * 0x1_0000 + b6 * 0x100 + b7) by (bit_vector)
            requires
                b5 < 256,
                b6 < 256,
                b7 < 256,
        ;
        let size: u32 = (b5 << 16) | (b6 << 8) | b7;
        if checksum != Self::DUMMY_CHECKSUM {
            return Err(RealmFileError::invalid("invalid checksum"));
        }
        let header = NodeHeader { checksum, flags, size };
        if header.width_scheme() == 3 {
            return Err(RealmFileError::invalid("invalid width scheme"));
        }
        Ok(header)
    }

    /// The kind of node that the flags describe.
    pub fn get_type(&self) -> (r: NodeType)
        ensures
            r == (if self.spec_is_inner_bptree() {
                NodeType::InnerBptree
            } else if self.spec_has_refs() {
                NodeType::HasRefs
            } else {
                NodeType::Normal
            }),
    {
        if self.is_inner_bptree() {
            NodeType::InnerBptree
        } else if self.has_refs() {
            NodeType::HasRefs
        } else {
            NodeType::Normal
        }
    }
}

/// The 24-byte header at the start of a file.
#[derive(Clone, Copy, Debug)]
pub struct Header {
    /// The two top references, of which the flags select one.
    pub top_ref: (u64, u64),
    /// The four magic bytes.
    pub magic: (u8, u8, u8, u8),
    /// The two bytes of the file format version.
    pub fmt_ver: (u8, u8),
    /// A reserved byte.
    pub reserved: u8,
    /// The flags: bit 0 selects the top reference, bit 7 marks encryption.
    pub flags: u8,
}

/// The file header that the first 24 bytes of `bytes` hold.
pub open spec fn header_of(bytes: Seq<u8>) -> Header
    recommends
        bytes.len() >= 24,
{
    Header {
        top_ref: (le_u64(bytes.subrange(0, 8)) as u64, le_u64(bytes.subrange(8, 16)) as u64),
        magic: (bytes[16], bytes[17], bytes[18], bytes[19]),
        fmt_ver: (bytes[20], bytes[21]),
        reserved: bytes[22],
        flags: bytes[23],
    }
}

/// Whether `bytes` start with a file header that carries the magic `T-DB`.
pub open spec fn has_file_header(bytes: Seq<u8>) -> bool {
    bytes.len() >= 24 && header_of(bytes).magic == (0x54u8, 0x2Du8, 0x44u8, 0x42u8)
}

impl Header {
    /// The number of bytes of a file header.
    pub const SIZE: usize = 24;

    /// The top reference that bit 0 of the flags selects.
    pub open spec fn spec_active_top_ref(&self) -> u64 {
        if self.flags as int % 2 == 1 {
            self.top_ref.1
        } else {
            self.top_ref.0
        }
    }

    /// Whether bit 7 of the flags is set.
    pub open spec fn spec_is_encrypted(&self) -> bool {
        self.flags >= 128
    }

    /// Whether the active top reference can be followed: it is a multiple
    /// of 8 that fits a machine offset.
    pub open spec fn top_ref_usable(&self) -> bool {
        self.spec_active_top_ref() % 8 == 0 && self.spec_active_top_ref() <= usize::MAX
    }

    /// Decodes the file header from the first 24 bytes of `buf`.
    ///
    /// Fails where `buf` is shorter than a header or the magic bytes are not
    /// `T-DB`.
    pub fn parse(buf: &[u8]) -> (r: RealmResult<Header>)
        ensures
            decodes(
                r,
                if has_file_header(buf@) {
                    Some(header_of(buf@))
                } else {
                    None
                },
            ),
    {
        if buf.len() < Self::SIZE {
            return Err(RealmFileError::invalid("file too small for Realm header"));
        }
        let h = Header {
            top_ref: (read_u64(slice_subrange(buf, 0, 8)), read_u64(slice_subrange(buf, 8, 16))),
            magic: (buf[16], buf[17], buf[18], buf[19]),
            fmt_ver: (buf[20], buf[21]),
            reserved: buf[22],
            flags: buf[23],
        };
        if h.magic.0 != 0x54 || h.magic.1 != 0x2D || h.magic.2 != 0x44 || h.magic.3 != 0x42 {
            return Err(RealmFileError::invalid("not a Realm file (magic mismatch)"));
        }
        Ok(h)
    }

    /// Choose the active top ref using the switch bit (bit 0 of `flags`).
    pub fn current_top_ref(&self) -> (r: RealmRef)
        requires
            self.top_ref_usable(),
        ensures
            r.offset() == self.spec_active_top_ref(),
    {
        let f = self.flags;
        assert((f & 1 == 1) == (f % 2 == 1)) by (bit_vector);
        let top = if self.flags & 1 == 1 {
            self.top_ref.1
        } else {
            self.top_ref.0
        };
        RealmRef::new(top as usize)
    }

    /// Whether the file is encrypted.
    #[verifier::when_used_as_spec(spec_is_encrypted)]
    pub fn is_encrypted(&self) -> (r: bool)
        ensures
            r == self.spec_is_encrypted(),
    {
        let f = self.flags;
        assert((f & 0x80 != 0) == (f >= 128)) by (bit_vector);
        self.flags & 0x80 != 0
    }

    /// The two bytes of the file format version.
    pub fn file_format_version(&self) -> (r: (u8, u8))
        ensures
            r == self.fmt_ver,
    {
        (self.fmt_ver.0, self.fmt_ver.1)
    }
}

/// One slot of a node, read by its low bit.
#[derive(Clone, Copy, Debug, PartialEq, Eq, Structural)]
pub enum SlotValue {
    /// An even slot: a reference, or 0 for none.
    Ref(u64),
    /// An odd slot: the number that is left when the low bit is dropped.
    Inline(u64),
}

/// What a slot of value `v` means: a reference where `v` is even, an inline
/// number, `v` halved, where it is odd.
pub open spec fn slot_meaning(v: u64) -> SlotValue {
    if v % 2 == 0 {
        SlotValue::Ref(v)
    } else {
        SlotValue::Inline(v / 2)
    }
}

/// Reads slot `index` of `buf` and tells a reference from an inline number.
pub fn decode_slot(buf: &[u8], width: u8, index: usize) -> (r: SlotValue)
    requires
        slot_readable(buf@.len() as int, width, index as int),
    ensures
        r == slot_meaning(slot_value(buf@, width, index as int) as u64),
{
    let v = read_array_value(buf, width, index);
    assert((v & 1 == 0) == (v % 2 == 0) && v >> 1 == v / 2) by (bit_vector);
    if v & 1 == 0 {
        SlotValue::Ref(v)
    } else {
        SlotValue::Inline(v >> 1)
    }
}

/// The node header at byte offset `offset` of `bytes`, where the offset is a
/// multiple of 8, the eight bytes lie within the file and they decode.
pub open spec fn header_at(bytes: Seq<u8>, offset: int) -> Option<NodeHeader> {
    if offset < 0 || offset % 8 != 0 || offset + 8 > bytes.len() {
        None
    } else {
        parse_node_header(bytes.subrange(offset, offset + 8))
    }
}

/// The header of the node at byte offset `offset` of `bytes`, where the header
/// decodes and the payload that it announces lies within the file.
#[verifier::opaque]
pub open spec fn node_at(bytes: Seq<u8>, offset: int) -> Option<NodeHeader> {
    match header_at(bytes, offset) {
        Some(header) => if offset + 8 + header.spec_payload_len() <= bytes.len() {
            Some(header)
        } else {
            None
        },
        None => None,
    }
}

/// The payload of the node at byte offset `offset` whose header is `header`.
pub open spec fn payload_at(bytes: Seq<u8>, offset: int, header: NodeHeader) -> Seq<u8> {
    bytes.subrange(offset + 8, offset + 8 + header.spec_payload_len())
}

/// The bytes of a file, with its decoded header.
#[derive(Clone, Copy, Debug)]
pub struct Realm<'a> {
    /// All bytes of the file.
    pub bytes: &'a [u8],
    /// The file header, decoded from the first 24 bytes.
    pub hdr: Header,
}

impl<'a> Realm<'a> {
    /// The bytes of the file as a sequence.
    pub open spec fn view(&self) -> Seq<u8> {
        self.bytes@
    }

    /// The header belongs to the bytes, the file is not encrypted, and the
    /// active top reference can be followed.
    pub open spec fn wf(&self) -> bool {
        &&& has_file_header(self@)
        &&& self.hdr == header_of(self@)
        &&& !self.hdr.spec_is_encrypted()
        &&& self.hdr.top_ref_usable()
    }

    /// Takes the bytes of a file and decodes its header.
    ///
    /// Fails with `InvalidRealmFile` where there are fewer than 24 bytes or
    /// the magic is wrong; then with `Unsupported` where the file is
    /// encrypted; then with `InvalidRealmFile` where the active top reference
    /// is no multiple of 8 or does not fit a machine offset.
    pub fn from_bytes(bytes: &'a [u8]) -> (r: RealmResult<Realm<'a>>)
        ensures
            match r {
                Ok(realm) => realm.wf() && realm@ == bytes@,
                Err(e) => if has_file_header(bytes@) && header_of(bytes@).spec_is_encrypted() {
                    e is Unsupported
                } else {
                    &&& e is InvalidRealmFile
                    &&& !(has_file_header(bytes@) && header_of(bytes@).top_ref_usable())
                },
            },
    {
        let hdr = Header::parse(bytes)?;
        if hdr.is_encrypted() {
            return Err(RealmFileError::unsupported("encrypted files"));
        }
        let f = hdr.flags;
        assert((f & 1 == 1) == (f % 2 == 1)) by (bit_vector);
        let top = if hdr.flags & 1 == 1 {
            hdr.top_ref.1
        } else {
            hdr.top_ref.0
        };
        if top % 8 != 0 || top > usize::MAX as u64 {
            return Err(RealmFileError::invalid("top reference is not usable"));
        }
        Ok(Realm { bytes, hdr })
    }

    /// The `len` bytes that start at the offset of `ref_`.
    pub fn slice(&self, ref_: RealmRef, len: usize) -> (r: &'a [u8])
        requires
            ref_.offset() + len <= self@.len(),
        ensures
            r@ == self@.subrange(ref_.offset(), ref_.offset() + len),
    {
        assert(self.bytes@.len() == self.bytes.len());
        let o = ref_.to_offset();
        slice_subrange(self.bytes, o, o + len)
    }

    /// The `payload_len` bytes that follow the header of the node at `ref_`.
    pub fn payload(&self, ref_: RealmRef, payload_len: usize) -> (r: &'a [u8])
        requires
            ref_.offset() + 8 + payload_len <= self@.len(),
        ensures
            r@ == self@.subrange(ref_.offset() + 8, ref_.offset() + 8 + payload_len),
    {
        assert(self.bytes@.len() == self.bytes.len());
        let o = ref_.to_offset() + NodeHeader::SIZE;
        slice_subrange(self.bytes, o, o + payload_len)
    }

    /// The header of the node at `ref_`.
    ///
    /// Fails where `ref_` is no multiple of 8, where the eight bytes do not
    /// lie within the file, and where they do not decode.
    pub fn header(&self, ref_: RealmRef) -> (r: RealmResult<NodeHeader>)
        ensures
            decodes(r, header_at(self@, ref_.offset())),
    {
        let o = ref_.to_offset();
        if o % 8 != 0 {
            return Err(RealmFileError::invalid("reference is not a multiple of 8"));
        }
        if o > self.bytes.len() || self.bytes.len() - o < NodeHeader::SIZE {
            return Err(RealmFileError::invalid("offset outside file"));
        }
        NodeHeader::parse(self.slice(ref_, NodeHeader::SIZE))
    }

    /// The active top reference.
    pub fn top_ref(&self) -> (r: RealmRef)
        requires
            self.wf(),
        ensures
            r.offset() == self.hdr.spec_active_top_ref(),
    {
        self.hdr.current_top_ref()
    }
}

/// The length of a byte slice fits a machine offset.
pub proof fn lemma_len_fits(bytes: &[u8])
    ensures
        bytes@.len() <= usize::MAX,
{
    assert(bytes@.len() == bytes.len());
}

/// A node of the file: a decoded header and the place of its payload.
#[derive(Clone, Copy, Debug)]
pub struct RealmNode<'a> {
    /// The file that holds the node.
    pub realm: Realm<'a>,
    /// Where the node starts.
    pub ref_: RealmRef,
    /// The decoded header.
    pub header: NodeHeader,
    /// The length of the payload in bytes.
    pub cached_payload_len: usize,
}

impl<'a> RealmNode<'a> {
    /// The node at `ref_` in `realm`, where there is one: its header decodes
    /// and its payload lies within the file.
    pub open spec fn at(realm: Realm<'a>, ref_: RealmRef) -> Option<RealmNode<'a>> {
        match node_at(realm@, ref_.offset()) {
            Some(header) => Some(
                RealmNode {
                    realm,
                    ref_,
                    header,
                    cached_payload_len: header.spec_payload_len() as usize,
                },
            ),
            None => None,
        }
    }

    /// This is the node that the file holds at `ref_`.
    pub open spec fn wf(&self) -> bool {
        Self::at(self.realm, self.ref_) == Some(*self)
    }

    /// A node of the file has a header that decodes at a place that is a
    /// multiple of 8, and a payload of the announced length within the file.
    pub proof fn lemma_wf(&self)
        requires
            self.wf(),
        ensures
            header_at(self.realm@, self.ref_.offset()) == Some(self.header),
            self.ref_.offset() % 8 == 0,
            self.ref_.offset() + 8 + self.header.spec_payload_len() <= self.realm@.len(),
            self.cached_payload_len == self.header.spec_payload_len(),
            self.spec_payload().len() == self.cached_payload_len,
            self.header.size < 0x100_0000,
            self.header.spec_width_scheme() < 3,
    {
        reveal(node_at);
        lemma_len_fits(self.realm.bytes);
    }

    /// The bytes of the payload.
    pub open spec fn spec_payload(&self) -> Seq<u8> {
        payload_at(self.realm@, self.ref_.offset(), self.header)
    }

    /// Loads the node at `ref_`: decodes its header and checks that its
    /// payload lies within the file.
    pub fn from_ref(realm: Realm<'a>, ref_: RealmRef) -> (r: RealmResult<RealmNode<'a>>)
        ensures
            decodes(r, Self::at(realm, ref_)),
    {
        proof {
            reveal(node_at);
            lemma_len_fits(realm.bytes);
        }
        let header = realm.header(ref_)?;
        let cached_payload_len = header.payload_len();
        let o = ref_.to_offset();
        if realm.bytes.len() - o - NodeHeader::SIZE < cached_payload_len {
            return Err(RealmFileError::invalid("node payload outside file"));
        }
        Ok(RealmNode { realm, ref_, header, cached_payload_len })
    }

    /// The bytes of the payload.
    pub fn payload(&self) -> (r: &'a [u8])
        requires
            self.wf(),
        ensures
            r@ == self.spec_payload(),
    {
        proof {
            self.lemma_wf();
        }
        self.realm.payload(self.ref_, self.cached_payload_len)
    }
}

} // verus!
