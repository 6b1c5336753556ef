//! The leaf of a column of lists of links.
use vstd::prelude::*;

use crate::array::{ref_or_tag_in_slot, Array, RealmRef, RefOrTaggedValue};
use crate::error::{decodes, RealmFileError, RealmResult};
use crate::realm::Realm;
use crate::value::Link;

verus! {

/// The row numbers that the array `list` holds, one in each slot. There are
/// none where `list` is an inner node of a B+Tree or a slot does not fit a
/// machine word.
pub open spec fn row_numbers(list: Array) -> Option<Seq<usize>> {
    if list.node.header.spec_is_inner_bptree() || exists|i: int|
        0 <= i < list.spec_size() && #[trigger] list.slot(i) > usize::MAX {
        None
    } else {
        Some(Seq::new(list.spec_size() as nat, |i: int| list.slot(i) as usize))
    }
}

/// The row numbers that the array `list` holds, one in each slot.
pub fn read_row_numbers<'a>(list: &Array<'a>) -> (r: RealmResult<Vec<usize>>)
    requires
        list.wf(),
    ensures
        match row_numbers(*list) {
            Some(rows) => r matches Ok(v) && v@ == rows,
            None => r matches Err(e) && e is InvalidRealmFile,
        },
{
    if list.node.header.is_inner_bptree() {
        return Err(RealmFileError::invalid("a list of rows in a B+Tree is not supported"));
    }
    let size = list.size();
    let mut rows: Vec<usize> = Vec::with_capacity(size);
    let mut i: usize = 0;
    while i < size
        invariant
            list.wf(),
            !list.node.header.spec_is_inner_bptree(),
            size == list.spec_size(),
            i <= size,
            rows@.len() == i,
            forall|j: int| 0 <= j < i ==> list.slot(j) <= usize::MAX && rows@[j] == list.slot(j),
        decreases size - i,
    {
        let v = list.get(i);
        if v > usize::MAX as u64 {
            return Err(RealmFileError::invalid("row number too large"));
        }
        rows.push(v as usize);
        i += 1;
    }
    assert(rows@ =~= row_numbers(*list).unwrap());
    Ok(rows)
}

/// The links into table `target` to each of `rows`, in order.
pub open spec fn links_to(target: usize, rows: Seq<usize>) -> Seq<Link> {
    Seq::new(rows.len(), |i: int| Link { target_table_number: target, row_number: rows[i] })
}

/// The links into table `target` to each of `rows`, in order.
pub fn make_links(target: usize, rows: &Vec<usize>) -> (r: Vec<Link>)
    ensures
        r@ == links_to(target, rows@),
{
    let mut links: Vec<Link> = Vec::with_capacity(rows.len());
    let mut i: usize = 0;
    while i < rows.len()
        invariant
            i <= rows@.len(),
            links@.len() == i,
            forall|j: int|
                0 <= j < i ==> links@[j] == (Link {
                    target_table_number: target,
                    row_number: rows@[j],
                }),
        decreases rows@.len() - i,
    {
        links.push(Link::new(target, rows[i]));
        i += 1;
    }
    assert(links@ =~= links_to(target, rows@));
    links
}

/// What a leaf of lists of links needs to know of its column.
#[derive(Debug, Copy, Clone, PartialEq, Eq, Structural)]
pub struct LinkListColumnContext {
    /// The number of the table that the links point into.
    pub target_table_index: usize,
}

/// A leaf of lists of links. A slot is 0 for an empty list, a tagged row
/// number for a list of one link, or a reference to an array of row numbers.
#[derive(Debug, Clone, Copy)]
pub struct LinkListLeaf<'a> {
    /// The slots.
    pub root: Array<'a>,
    /// The table that the links point into.
    pub context: LinkListColumnContext,
}

impl<'a> LinkListLeaf<'a> {
    /// The leaf at `ref_` in `realm`, where there is one.
    pub open spec fn at(realm: Realm<'a>, ref_: RealmRef, context: LinkListColumnContext) -> Option<
        LinkListLeaf<'a>,
    > {
        match Array::at(realm, ref_) {
            Some(root) => Some(LinkListLeaf { root, context }),
            None => None,
        }
    }

    /// The slots are an array of the file.
    pub open spec fn wf(&self) -> bool {
        self.root.wf()
    }

    /// The rows that the list at `index` links to.
    pub open spec fn rows(&self, index: int) -> Option<Seq<usize>> {
        if !(0 <= index < self.root.spec_size()) {
            None
        } else {
            match ref_or_tag_in_slot(self.root.bytes().len() as int, self.root.slot(index)) {
                Some(Some(RefOrTaggedValue::Ref(list_ref))) => match Array::at(
                    self.root.node.realm,
                    list_ref,
                ) {
                    Some(list) => row_numbers(list),
                    None => None,
                },
                Some(Some(RefOrTaggedValue::TaggedValue(row))) => if row > usize::MAX {
                    None
                } else {
                    Some(seq![row as usize])
                },
                Some(None) => Some(Seq::empty()),
                None => None,
            }
        }
    }

    /// The list of links at `index`: empty for slot 0, one link for a tagged
    /// row number, else a link to each row of the array that the slot refers
    /// to.
    pub open spec fn element(&self, index: int) -> Option<Seq<Link>> {
        match self.rows(index) {
            Some(rows) => Some(links_to(self.context.target_table_index, rows)),
            None => None,
        }
    }

    /// Loads the leaf at `ref_`.
    pub fn from_ref_with_context(
        realm: Realm<'a>,
        ref_: RealmRef,
        context: LinkListColumnContext,
    ) -> (r: RealmResult<LinkListLeaf<'a>>)
        ensures
            decodes(r, Self::at(realm, ref_, context)),
    {
        let root = Array::from_ref(realm, ref_)?;
        Ok(LinkListLeaf { root, context })
    }

    /// The list of links at `index`.
    pub fn get(&self, index: usize) -> (r: RealmResult<Vec<Link>>)
        requires
            self.wf(),
        ensures
            match self.element(index as int) {
                Some(links) => r matches Ok(v) && v@ == links,
                None => r matches Err(e) && e is InvalidRealmFile,
            },
    {
        if index >= self.root.size() {
            return Err(RealmFileError::invalid("index outside leaf"));
        }
        let rows: Vec<usize> = match self.root.get_ref_or_tagged_value(index)? {
            Some(RefOrTaggedValue::Ref(list_ref)) => {
                let list = Array::from_ref(self.root.node.realm, list_ref)?;
                read_row_numbers(&list)?
            },
            Some(RefOrTaggedValue::TaggedValue(row)) => {
                if row > usize::MAX as u64 {
                    return Err(RealmFileError::invalid("row number too large"));
                }
                let mut one: Vec<usize> = Vec::new();
                one.push(row as usize);
                assert(one@ =~= seq![row as usize]);
                one
            },
            None => Vec::new(),
        };
        Ok(make_links(self.context.target_table_index, &rows))
    }

    /// The list of links at `index` of the leaf at `ref_`.
    pub fn get_direct(
        realm: Realm<'a>,
        ref_: RealmRef,
        index: usize,
        context: LinkListColumnContext,
    ) -> (r: RealmResult<Vec<Link>>)
        ensures
            match Self::at(realm, ref_, context) {
                Some(leaf) => match leaf.element(index as int) {
                    Some(links) => r matches Ok(v) && v@ == links,
                    None => r matches Err(e) && e is InvalidRealmFile,
                },
                None => r matches Err(e) && e is InvalidRealmFile,
            },
    {
        let leaf = Self::from_ref_with_context(realm, ref_, context)?;
        leaf.get(index)
    }

    /// A list of links is never null.
    pub fn is_null(&self, _index: usize) -> (r: RealmResult<bool>)
        ensures
            r == Ok::<bool, RealmFileError>(false),
    {
        Ok(false)
    }

    /// The number of elements.
    pub fn size(&self) -> (r: usize)
        ensures
            r == self.root.spec_size(),
    {
        self.root.size()
    }
}

} // verus!
