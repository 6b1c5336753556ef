//! One row of a table.
use vstd::prelude::*;

use crate::cells::has_name;
use crate::utils::same_text;
use crate::value::{Backlink, BacklinkView, Value, ValueView};

verus! {

/// A single row in a Realm table: its named values, in the order of the
/// table's columns, and the backlinks that point to it.
#[derive(Debug)]
pub struct Row {
    /// The column names, none of them twice, each with its value.
    pub fields: Vec<(String, Value)>,
    /// The backlinks of the row.
    pub backlinks: Vec<Backlink>,
}

/// What a [`Row`] holds.
pub struct RowView {
    /// The column names with their values, in the order of the columns.
    pub fields: Seq<(Seq<char>, ValueView)>,
    /// The backlinks of the row.
    pub backlinks: Seq<BacklinkView>,
}

impl View for Row {
    type V = RowView;

    open spec fn view(&self) -> RowView
        decreases self,
    {
        RowView {
            fields: Seq::new(
                self.fields@.len(),
                |i: int|
                    if 0 <= i < self.fields@.len() {
                        (self.fields@[i].0@, self.fields@[i].1.view())
                    } else {
                        arbitrary()
                    },
            ),
            backlinks: Seq::new(self.backlinks@.len(), |i: int| self.backlinks@[i]@),
        }
    }
}

impl Clone for Row {
    fn clone(&self) -> (r: Row)
        ensures
            r@ == self@,
        decreases self,
    {
        let mut fields: Vec<(String, Value)> = Vec::new();
        let mut backlinks: Vec<Backlink> = Vec::new();
        let mut i: usize = 0;
        while i < self.fields.len()
            invariant
                i <= self.fields@.len(),
                fields@.len() == i,
                forall|j: int|
                    0 <= j < i ==> fields@[j].0@ == self.fields@[j].0@ && fields@[j].1@
                        == self.fields@[j].1@,
            decreases self.fields@.len() - i,
        {
            assert(decreases_to!(self.fields => self.fields[i as int]));
            assert(decreases_to!(self.fields[i as int] => self.fields[i as int].1));
            let name = self.fields[i].0.clone();
            let value = self.fields[i].1.clone();
            fields.push((name, value));
            i += 1;
        }
        i = 0;
        while i < self.backlinks.len()
            invariant
                i <= self.backlinks@.len(),
                backlinks@.len() == i,
                forall|j: int| 0 <= j < i ==> backlinks@[j]@ == self.backlinks@[j]@,
            decreases self.backlinks@.len() - i,
        {
            backlinks.push(self.backlinks[i].clone());
            i += 1;
        }
        let r = Row { fields, backlinks };
        assert(r@.fields =~= self@.fields);
        assert(r@.backlinks =~= self@.backlinks);
        r
    }
}

/// The views of `rows`, in order.
pub open spec fn row_views(rows: Seq<Row>) -> Seq<RowView> {
    Seq::new(rows.len(), |i: int| rows[i]@)
}

/// The views of `values`, in order.
pub open spec fn value_views(values: Seq<Value>) -> Seq<ValueView> {
    Seq::new(values.len(), |i: int| values[i]@)
}

/// The views of `backlinks`, in order.
pub open spec fn backlink_views(backlinks: Seq<Backlink>) -> Seq<BacklinkView> {
    Seq::new(backlinks.len(), |i: int| backlinks[i]@)
}

/// The characters of each of `names`, in order.
pub open spec fn name_views(names: Seq<String>) -> Seq<Seq<char>> {
    Seq::new(names.len(), |i: int| names[i]@)
}

/// Whether no two of `fields` have the same name.
pub open spec fn distinct_names(fields: Seq<(Seq<char>, ValueView)>) -> bool {
    forall|i: int, j: int| 0 <= i < j < fields.len() ==> fields[i].0 != fields[j].0
}

/// Where the field named `name` stands in `fields`, looking from `from` on,
/// or the length of `fields` where there is none.
pub open spec fn position_from(fields: Seq<(Seq<char>, ValueView)>, name: Seq<char>, from: int) -> int
    decreases fields.len() - from,
{
    if from >= fields.len() {
        fields.len() as int
    } else if fields[from].0 == name {
        from
    } else {
        position_from(fields, name, from + 1)
    }
}

/// The search for a name ends at the first field that has it.
pub proof fn lemma_position_from(fields: Seq<(Seq<char>, ValueView)>, name: Seq<char>, from: int)
    requires
        0 <= from <= fields.len(),
    ensures
        ({
            let p = position_from(fields, name, from);
            &&& from <= p <= fields.len()
            &&& p < fields.len() ==> fields[p].0 == name
            &&& forall|i: int| from <= i < p ==> fields[i].0 != name
        }),
    decreases fields.len() - from,
{
    if from < fields.len() && fields[from].0 != name {
        lemma_position_from(fields, name, from + 1);
    }
}

/// The values among the first `count` of `values` that are backlinks.
pub open spec fn backlinks_among(values: Seq<ValueView>, count: int) -> Seq<BacklinkView>
    decreases count,
{
    if count <= 0 {
        Seq::empty()
    } else {
        let before = backlinks_among(values, count - 1);
        match values[count - 1] {
            ValueView::BackLink(b) => before.push(b),
            _ => before,
        }
    }
}

/// The values among the first `count` of `values` that are no backlinks.
pub open spec fn others_among(values: Seq<ValueView>, count: int) -> Seq<ValueView>
    decreases count,
{
    if count <= 0 {
        Seq::empty()
    } else {
        let before = others_among(values, count - 1);
        match values[count - 1] {
            ValueView::BackLink(_) => before,
            _ => before.push(values[count - 1]),
        }
    }
}

/// The first `count` of `names`, each with the value at its place in
/// `values`, where a name that came before is not taken again.
pub open spec fn named_upto(names: Seq<Seq<char>>, values: Seq<ValueView>, count: int) -> Seq<
    (Seq<char>, ValueView),
>
    decreases count,
{
    if count <= 0 {
        Seq::empty()
    } else {
        let before = named_upto(names, values, count - 1);
        if has_name(before, names[count - 1]) {
            before
        } else {
            before.push((names[count - 1], values[count - 1]))
        }
    }
}

/// Fields made by [`named_upto`] have distinct names.
pub proof fn lemma_named_upto_distinct(names: Seq<Seq<char>>, values: Seq<ValueView>, count: int)
    ensures
        distinct_names(named_upto(names, values, count)),
    decreases count,
{
    if count > 0 {
        lemma_named_upto_distinct(names, values, count - 1);
    }
}

impl RowView {
    /// No two fields have the same name.
    pub open spec fn wf(&self) -> bool {
        distinct_names(self.fields)
    }

    /// The value of the field named `name`, where the row has one.
    pub open spec fn field(&self, name: Seq<char>) -> Option<ValueView> {
        let p = position_from(self.fields, name, 0);
        if p < self.fields.len() {
            Some(self.fields[p].1)
        } else {
            None
        }
    }

    /// The row without the field named `name`.
    pub open spec fn without(&self, name: Seq<char>) -> RowView {
        let p = position_from(self.fields, name, 0);
        if p < self.fields.len() {
            RowView { fields: self.fields.remove(p), backlinks: self.backlinks }
        } else {
            *self
        }
    }
}

/// The elements of `v` in reverse order.
pub fn reversed<T>(v: Vec<T>) -> (r: Vec<T>)
    ensures
        r@ == v@.reverse(),
{
    let mut v = v;
    let ghost all = v@;
    let mut out: Vec<T> = Vec::with_capacity(v.len());
    while v.len() > 0
        invariant
            v@.len() + out@.len() == all.len(),
            v@ == all.subrange(0, v@.len() as int),
            forall|j: int| 0 <= j < out@.len() ==> out@[j] == all[all.len() - 1 - j],
        decreases v@.len(),
    {
        match v.pop() {
            Some(x) => {
                out.push(x);
            },
            None => {},
        }
    }
    assert(out@ =~= all.reverse());
    out
}

impl Row {
    /// Whether the fields of the row have the name `name` from place `from`
    /// on.
    fn position(&self, name: &str) -> (p: usize)
        ensures
            p == position_from(self@.fields, name@, 0),
            p <= self.fields@.len(),
    {
        let mut i: usize = 0;
        proof {
            lemma_position_from(self@.fields, name@, 0);
        }
        while i < self.fields.len()
            invariant
                i <= self.fields@.len(),
                position_from(self@.fields, name@, i as int) == position_from(
                    self@.fields,
                    name@,
                    0,
                ),
            decreases self.fields@.len() - i,
        {
            if same_text(self.fields[i].0.as_str(), name) {
                return i;
            }
            i += 1;
        }
        i
    }

    /// Makes a row of the values `row` of the columns of a table and of the
    /// names `column_names` of those columns that have one.
    ///
    /// The backlinks among the values become the backlinks of the row. Each
    /// name takes the next of the other values; a name that came before is
    /// not taken again.
    pub fn new(row: Vec<Value>, column_names: Vec<String>) -> (r: Row)
        requires
            column_names@.len() <= others_among(value_views(row@), row@.len() as int).len(),
        ensures
            r@.wf(),
            r@.backlinks == backlinks_among(value_views(row@), row@.len() as int),
            r@.fields == named_upto(
                name_views(column_names@),
                others_among(value_views(row@), row@.len() as int),
                column_names@.len() as int,
            ),
    {
        let ghost values = value_views(row@);
        let ghost names = name_views(column_names@);
        let ghost total = row@.len() as int;
        let ghost name_count = column_names@.len() as int;
        let mut rest = reversed(row);
        let mut names_left = reversed(column_names);
        let mut backlinks: Vec<Backlink> = Vec::new();
        let mut others: Vec<Value> = Vec::new();
        let ghost mut k: int = 0;
        while rest.len() > 0
            invariant
                0 <= k,
                k + rest@.len() == total,
                values.len() == total,
                forall|j: int| 0 <= j < rest@.len() ==> rest@[j]@ == values[total - 1 - j],
                backlink_views(backlinks@) == backlinks_among(values, k),
                value_views(others@) == others_among(values, k),
            decreases rest@.len(),
        {
            let ghost before_b = backlink_views(backlinks@);
            let ghost before_o = value_views(others@);
            let ghost top = rest@[rest@.len() - 1];
            assert(top@ == values[k]);
            match rest.pop() {
                Some(Value::BackLink(b)) => {
                    assert(values[k] == ValueView::BackLink(b@));
                    backlinks.push(b);
                    assert(backlink_views(backlinks@) =~= before_b.push(b@));
                    assert(value_views(others@) =~= before_o);
                },
                Some(v) => {
                    assert(v == top);
                    assert(!(values[k] is BackLink));
                    others.push(v);
                    assert(value_views(others@) =~= before_o.push(v@));
                    assert(backlink_views(backlinks@) =~= before_b);
                },
                None => {},
            }
            proof {
                k = k + 1;
            }
        }
        let ghost other_views = value_views(others@);
        let mut others_left = reversed(others);
        let mut fields: Vec<(String, Value)> = Vec::new();
        let ghost mut n: int = 0;
        assert(fields_view(fields@) =~= named_upto(names, other_views, 0));
        while names_left.len() > 0
            invariant
                0 <= n,
                n + names_left@.len() == name_count,
                names.len() == name_count,
                name_count <= other_views.len(),
                others_left@.len() + n == other_views.len(),
                forall|j: int|
                    0 <= j < names_left@.len() ==> names_left@[j]@ == names[name_count - 1 - j],
                forall|j: int|
                    0 <= j < others_left@.len() ==> others_left@[j]@ == other_views[
                        other_views.len() - 1 - j],
                fields_view(fields@) == named_upto(names, other_views, n),
            decreases names_left@.len(),
        {
            let ghost before = fields_view(fields@);
            let ghost top_name = names_left@[names_left@.len() - 1];
            let ghost top_value = others_left@[others_left@.len() - 1];
            assert(top_name@ == names[n]);
            assert(top_value@ == other_views[n]);
            let name = names_left.pop();
            let value = others_left.pop();
            match (name, value) {
                (Some(name), Some(value)) => {
                    let taken = has_field_named(&fields, name.as_str());
                    if !taken {
                        fields.push((name, value));
                        assert(fields_view(fields@) =~= before.push((name@, value@)));
                    } else {
                        assert(fields_view(fields@) =~= before);
                    }
                },
                _ => {},
            }
            proof {
                n = n + 1;
            }
        }
        let r = Row { fields, backlinks };
        proof {
            lemma_named_upto_distinct(names, other_views, name_count);
            assert(r@.fields =~= fields_view(fields@));
            assert(r@.backlinks =~= backlink_views(backlinks@));
        }
        r
    }

    /// The column names and values in this row, in the order of the columns.
    pub fn entries(&self) -> (r: Vec<(&String, &Value)>)
        ensures
            r@.len() == self@.fields.len(),
            forall|i: int|
                0 <= i < r@.len() ==> (#[trigger] r@[i]).0@ == self@.fields[i].0 && r@[i].1@
                    == self@.fields[i].1,
    {
        let mut out: Vec<(&String, &Value)> = Vec::with_capacity(self.fields.len());
        let mut i: usize = 0;
        while i < self.fields.len()
            invariant
                i <= self.fields@.len(),
                out@.len() == i,
                forall|j: int|
                    0 <= j < i ==> (#[trigger] out@[j]).0@ == self@.fields[j].0 && out@[j].1@
                        == self@.fields[j].1,
            decreases self.fields@.len() - i,
        {
            out.push((&self.fields[i].0, &self.fields[i].1));
            i += 1;
        }
        out
    }

    /// The values in this row, in the order of the columns.
    pub fn values(&self) -> (r: Vec<&Value>)
        ensures
            r@.len() == self@.fields.len(),
            forall|i: int| 0 <= i < r@.len() ==> (#[trigger] r@[i])@ == self@.fields[i].1,
    {
        let mut out: Vec<&Value> = Vec::with_capacity(self.fields.len());
        let mut i: usize = 0;
        while i < self.fields.len()
            invariant
                i <= self.fields@.len(),
                out@.len() == i,
                forall|j: int| 0 <= j < i ==> (#[trigger] out@[j])@ == self@.fields[j].1,
            decreases self.fields@.len() - i,
        {
            out.push(&self.fields[i].1);
            i += 1;
        }
        out
    }

    /// Get the value of a column by its name. Returns `None` if the column
    /// does not exist.
    pub fn get(&self, column_name: &str) -> (r: Option<&Value>)
        ensures
            match self@.field(column_name@) {
                Some(v) => r matches Some(x) && x@ == v,
                None => r is None,
            },
    {
        let p = self.position(column_name);
        if p < self.fields.len() {
            Some(&self.fields[p].1)
        } else {
            None
        }
    }

    /// Take the value of a column by its name. Returns `None` if the column
    /// does not exist. This method consumes the value, removing it from the
    /// row.
    pub fn take(&mut self, column_name: &str) -> (r: Option<Value>)
        ensures
            match old(self)@.field(column_name@) {
                Some(v) => r matches Some(x) && x@ == v,
                None => r is None,
            },
            final(self)@ == old(self)@.without(column_name@),
    {
        let p = self.position(column_name);
        if p < self.fields.len() {
            let ghost before = self@;
            let (_, value) = self.fields.remove(p);
            assert(self@.fields =~= before.fields.remove(p as int));
            assert(self@.backlinks =~= before.backlinks);
            Some(value)
        } else {
            None
        }
    }

    /// The backlinks in this row.
    pub fn backlinks(&self) -> (r: &Vec<Backlink>)
        ensures
            backlink_views(r@) == self@.backlinks,
    {
        assert(backlink_views(self.backlinks@) =~= self@.backlinks);
        &self.backlinks
    }

    /// Take the backlinks in this row. This method consumes the backlinks,
    /// removing them from the row.
    pub fn take_backlinks(&mut self) -> (r: Vec<Backlink>)
        ensures
            backlink_views(r@) == old(self)@.backlinks,
            final(self)@.backlinks.len() == 0,
            final(self)@.fields == old(self)@.fields,
    {
        let mut out: Vec<Backlink> = Vec::new();
        let ghost before = self@;
        core::mem::swap(&mut self.backlinks, &mut out);
        assert(backlink_views(out@) =~= before.backlinks);
        assert(self@.fields =~= before.fields);
        out
    }

    /// Check if the row has a field with the given name.
    pub fn has_field(&self, key: &str) -> (r: bool)
        ensures
            r == (self@.field(key@) is Some),
            r == has_name(self@.fields, key@),
    {
        let p = self.position(key);
        proof {
            lemma_position_from(self@.fields, key@, 0);
        }
        p < self.fields.len()
    }

    /// Convert this row into an owned row. A row owns its names already, so
    /// this is the row itself.
    pub fn into_owned(self) -> (r: Row)
        ensures
            r@ == self@,
    {
        self
    }
}

/// The names of `fields` with the views of their values.
pub open spec fn fields_view(fields: Seq<(String, Value)>) -> Seq<(Seq<char>, ValueView)> {
    Seq::new(fields.len(), |i: int| (fields[i].0@, fields[i].1@))
}

/// Whether one of `fields` has the name `name`.
pub fn has_field_named(fields: &Vec<(String, Value)>, name: &str) -> (r: bool)
    ensures
        r == has_name(fields_view(fields@), name@),
{
    let mut i: usize = 0;
    while i < fields.len()
        invariant
            i <= fields@.len(),
            forall|j: int| 0 <= j < i ==> (#[trigger] fields_view(fields@)[j]).0 != name@,
        decreases fields@.len() - i,
    {
        if same_text(fields[i].0.as_str(), name) {
            assert(fields_view(fields@)[i as int].0 == name@);
            return true;
        }
        i += 1;
    }
    false
}

} // verus!
