//! The attributes of a column.
use vstd::prelude::*;

verus! {

/// The attributes of a column, one bit each.
#[derive(Copy, Clone, Debug, PartialEq, Eq, Structural)]
pub struct ColumnAttributes(pub u64);

impl ColumnAttributes {
    /// The column has an index.
    pub const INDEXED: u64 = 1;

    /// The values of the column are unique.
    pub const UNIQUE: u64 = 2;

    /// Reserved.
    pub const RESERVED: u64 = 4;

    /// The links of the column are strong.
    pub const STRONG_LINKS: u64 = 8;

    /// The column can hold nulls.
    pub const NULLABLE: u64 = 16;

    /// The column holds lists.
    pub const LIST: u64 = 32;

    /// The column holds dictionaries.
    pub const DICTIONARY: u64 = 64;

    /// The column holds sets.
    pub const SET: u64 = 128;

    /// The column has a full-text index.
    pub const FULLTEXT_INDEXED: u64 = 256;

    /// Mask for the collection type (list, dictionary, set).
    pub const COLLECTION_TYPE_MASK: u64 = 224;

    /// Whether any bit of `mask` is set.
    pub open spec fn has(&self, mask: u64) -> bool {
        self.0 & mask != 0
    }

    /// Whether the bit for an index is set.
    pub open spec fn spec_is_indexed(&self) -> bool {
        self.has(Self::INDEXED)
    }

    /// Whether the bit for nulls is set.
    pub open spec fn spec_is_nullable(&self) -> bool {
        self.has(Self::NULLABLE)
    }

    /// The attributes that the bits of `attributes` stand for.
    pub fn new(attributes: u64) -> (r: ColumnAttributes)
        ensures
            r.0 == attributes,
    {
        ColumnAttributes(attributes)
    }

    /// The attributes that the bits of `attributes` stand for.
    pub fn from_u64(attributes: u64) -> (r: ColumnAttributes)
        ensures
            r.0 == attributes,
    {
        Self::new(attributes)
    }

    /// Whether the column has an index.
    #[verifier::when_used_as_spec(spec_is_indexed)]
    pub fn is_indexed(&self) -> (r: bool)
        ensures
            r == self.has(Self::INDEXED),
    {
        self.0 & Self::INDEXED != 0
    }

    /// Whether the values of the column are unique.
    pub fn is_unique(&self) -> (r: bool)
        ensures
            r == self.has(Self::UNIQUE),
    {
        self.0 & Self::UNIQUE != 0
    }

    /// Whether the reserved bit is set.
    pub fn is_reserved(&self) -> (r: bool)
        ensures
            r == self.has(Self::RESERVED),
    {
        self.0 & Self::RESERVED != 0
    }

    /// Whether the links of the column are strong.
    pub fn is_strong_links(&self) -> (r: bool)
        ensures
            r == self.has(Self::STRONG_LINKS),
    {
        self.0 & Self::STRONG_LINKS != 0
    }

    /// Whether the column can hold nulls.
    #[verifier::when_used_as_spec(spec_is_nullable)]
    pub fn is_nullable(&self) -> (r: bool)
        ensures
            r == self.has(Self::NULLABLE),
    {
        self.0 & Self::NULLABLE != 0
    }

    /// Whether the column holds lists.
    pub fn is_list(&self) -> (r: bool)
        ensures
            r == self.has(Self::LIST),
    {
        self.0 & Self::LIST != 0
    }

    /// Whether the column holds dictionaries.
    pub fn is_dictionary(&self) -> (r: bool)
        ensures
            r == self.has(Self::DICTIONARY),
    {
        self.0 & Self::DICTIONARY != 0
    }

    /// Whether the column holds sets.
    pub fn is_set(&self) -> (r: bool)
        ensures
            r == self.has(Self::SET),
    {
        self.0 & Self::SET != 0
    }

    /// Whether the column has a full-text index.
    pub fn is_fulltext_indexed(&self) -> (r: bool)
        ensures
            r == self.has(Self::FULLTEXT_INDEXED),
    {
        self.0 & Self::FULLTEXT_INDEXED != 0
    }

    /// Whether the column holds lists, dictionaries or sets.
    pub fn is_collection(&self) -> (r: bool)
        ensures
            r == self.has(Self::COLLECTION_TYPE_MASK),
            r == (self.has(Self::LIST) || self.has(Self::DICTIONARY) || self.has(Self::SET)),
    {
        let v = self.0;
        assert((v & 224 != 0) == (v & 32 != 0 || v & 64 != 0 || v & 128 != 0)) by (bit_vector);
        self.0 & Self::COLLECTION_TYPE_MASK != 0
    }
}

} // verus!
