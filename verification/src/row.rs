//! The row model: typed cells and tagged records.
use crate::number::{equal, num_eq};
use crate::text::same_text;
use vstd::prelude::*;

verus! {

/// Where a row comes from.
#[derive(Debug, Clone, Copy, PartialEq, Eq, Structural)]
pub enum RowKind {
    BGM,
    NAD,
    LIN,
    UNH,
    UNS,
    UNT,
}

/// One cell of a row.
#[derive(Debug)]
pub enum Value {
    Text(String),
    /// A binary64 number, held by its encoding (see [`crate::number`]).
    Number(u64),
}

/// What a [`Value`] holds.
pub enum ValueView {
    Text(Seq<char>),
    Number(u64),
}

impl View for Value {
    type V = ValueView;

    open spec fn view(&self) -> ValueView {
        match self {
            Value::Text(s) => ValueView::Text(s@),
            Value::Number(n) => ValueView::Number(*n),
        }
    }
}

/// Equality of two cells: texts are equal when their characters are, numbers
/// when they are numerically equal, and a text never equals a number.
pub open spec fn value_eq(a: ValueView, b: ValueView) -> bool {
    match (a, b) {
        (ValueView::Text(s), ValueView::Text(t)) => s == t,
        (ValueView::Number(m), ValueView::Number(n)) => num_eq(m, n),
        _ => false,
    }
}

impl Clone for Value {
    fn clone(&self) -> (r: Self)
        ensures
            r@ == self@,
    {
        match self {
            Value::Text(s) => Value::Text(s.clone()),
            Value::Number(n) => Value::Number(*n),
        }
    }
}

impl PartialEq for Value {
    fn eq(&self, other: &Self) -> (r: bool) {
        match (self, other) {
            (Value::Text(s), Value::Text(t)) => same_text(s.as_str(), t.as_str()),
            (Value::Number(m), Value::Number(n)) => equal(*m, *n),
            _ => false,
        }
    }
}

impl vstd::std_specs::cmp::PartialEqSpecImpl for Value {
    open spec fn obeys_eq_spec() -> bool {
        true
    }

    open spec fn eq_spec(&self, other: &Self) -> bool {
        value_eq(self@, other@)
    }
}

/// A record: its kind, and its cells by name. Where a name occurs in
/// `fields` more than once, its last entry is the cell that the row holds
/// under it; [`Row::insert`] puts a cell in the place of that entry.
#[derive(Debug)]
pub struct Row {
    pub kind: RowKind,
    pub fields: Vec<(String, Value)>,
}

/// What a [`Row`] holds: a name is either absent or bound to one cell.
pub struct RowView {
    pub kind: RowKind,
    pub fields: Map<Seq<char>, ValueView>,
}

/// The cells that a list of entries binds, a later entry of a name taking
/// the place of an earlier one.
pub open spec fn bindings(entries: Seq<(String, Value)>) -> Map<Seq<char>, ValueView>
    decreases entries.len(),
{
    if entries.len() == 0 {
        Map::empty()
    } else {
        bindings(entries.drop_last()).insert(entries.last().0@, entries.last().1@)
    }
}

/// The name of the entry at `i`.
pub open spec fn name_at(entries: Seq<(String, Value)>, i: int) -> Seq<char> {
    entries[i].0@
}

/// No entry from `from` on carries `name`.
pub open spec fn absent_from(entries: Seq<(String, Value)>, name: Seq<char>, from: int) -> bool {
    forall|j: int| from <= j < entries.len() ==> #[trigger] name_at(entries, j) != name
}

/// A name that no entry carries is not bound.
pub proof fn unbound_name(entries: Seq<(String, Value)>, name: Seq<char>)
    requires
        absent_from(entries, name, 0),
    ensures
        !bindings(entries).contains_key(name),
    decreases entries.len(),
{
    if entries.len() > 0 {
        let front = entries.drop_last();
        assert forall|j: int| 0 <= j < front.len() implies #[trigger] name_at(front, j)
            != name by {
            assert(name_at(entries, j) != name);
        }
        unbound_name(front, name);
        assert(name_at(entries, entries.len() - 1) != name);
    }
}

/// A name is bound to the cell of the last entry that carries it.
pub proof fn bound_name(entries: Seq<(String, Value)>, name: Seq<char>, i: int)
    requires
        0 <= i < entries.len(),
        name_at(entries, i) == name,
        absent_from(entries, name, i + 1),
    ensures
        bindings(entries).contains_key(name),
        bindings(entries)[name] == entries[i].1@,
    decreases entries.len(),
{
    if i < entries.len() - 1 {
        let front = entries.drop_last();
        assert forall|j: int| i + 1 <= j < front.len() implies #[trigger] name_at(front, j)
            != name by {
            assert(name_at(entries, j) != name);
        }
        assert(name_at(front, i) == name);
        bound_name(front, name, i);
        assert(name_at(entries, entries.len() - 1) != name);
    }
}

/// To put a new cell in the place of the last entry of a name binds the
/// name to the new cell and leaves every other name as it was.
pub proof fn rebound_name(entries: Seq<(String, Value)>, name: Seq<char>, i: int, entry: (String, Value))
    requires
        0 <= i < entries.len(),
        name_at(entries, i) == name,
        entry.0@ == name,
        absent_from(entries, name, i + 1),
    ensures
        bindings(entries.update(i, entry)) == bindings(entries).insert(name, entry.1@),
    decreases entries.len(),
{
    let now = entries.update(i, entry);
    if i < entries.len() - 1 {
        let front = entries.drop_last();
        assert forall|j: int| i + 1 <= j < front.len() implies #[trigger] name_at(front, j)
            != name by {
            assert(name_at(entries, j) != name);
        }
        assert(name_at(front, i) == name);
        rebound_name(front, name, i, entry);
        assert(now.drop_last() =~= front.update(i, entry));
        assert(now.last() == entries.last());
        assert(name_at(entries, entries.len() - 1) != name);
        assert(bindings(now) =~= bindings(entries).insert(name, entry.1@));
    } else {
        assert(now.drop_last() =~= entries.drop_last());
        assert(bindings(now) =~= bindings(entries).insert(name, entry.1@));
    }
}

impl View for Row {
    type V = RowView;

    open spec fn view(&self) -> RowView {
        RowView { kind: self.kind, fields: bindings(self.fields@) }
    }
}

/// What a list of rows holds, row by row.
pub open spec fn rows_view(rows: Seq<Row>) -> Seq<RowView> {
    Seq::new(rows.len(), |i: int| rows[i]@)
}

/// To take a row out of a list takes what it holds out of what the list
/// holds.
pub proof fn rows_view_remove(rows: Seq<Row>, i: int)
    requires
        0 <= i < rows.len(),
    ensures
        rows_view(rows.remove(i)) == rows_view(rows).remove(i),
{
    assert(rows_view(rows.remove(i)) =~= rows_view(rows).remove(i));
}

/// To put a row into a list puts what it holds into what the list holds.
pub proof fn rows_view_insert(rows: Seq<Row>, i: int, row: Row)
    requires
        0 <= i <= rows.len(),
    ensures
        rows_view(rows.insert(i, row)) == rows_view(rows).insert(i, row@),
{
    assert(rows_view(rows.insert(i, row)) =~= rows_view(rows).insert(i, row@));
}

impl Clone for Row {
    fn clone(&self) -> (r: Self)
        ensures
            r@ == self@,
    {
        let mut fields: Vec<(String, Value)> = Vec::new();
        let mut i: usize = 0;
        while i < self.fields.len()
            invariant
                i <= self.fields.len(),
                bindings(fields@) == bindings(self.fields@.subrange(0, i as int)),
            decreases self.fields.len() - i,
        {
            let entry = &self.fields[i];
            let ghost before = fields@;
            fields.push((entry.0.clone(), entry.1.clone()));
            proof {
                let upto = self.fields@.subrange(0, i + 1);
                assert(upto.drop_last() =~= self.fields@.subrange(0, i as int));
                assert(fields@.drop_last() =~= before);
            }
            i += 1;
        }
        assert(self.fields@.subrange(0, i as int) =~= self.fields@);
        Row { kind: self.kind, fields }
    }
}

impl Row {
    /// A row of the given kind without cells.
    pub fn new(kind: RowKind) -> (r: Self)
        ensures
            r@.kind == kind,
            r@.fields == Map::<Seq<char>, ValueView>::empty(),
    {
        Row { kind, fields: Vec::new() }
    }

    /// Binds `key` to `value`, in place of the cell that `key` had, if any.
    /// Every other name keeps its cell.
    pub fn insert(&mut self, key: &str, value: Value)
        ensures
            final(self)@.kind == old(self)@.kind,
            final(self)@.fields == old(self)@.fields.insert(key@, value@),
    {
        let mut i: usize = self.fields.len();
        while i > 0
            invariant
                i <= self.fields.len(),
                self.fields == old(self).fields,
                self.kind == old(self).kind,
                absent_from(self.fields@, key@, i as int),
            decreases i,
        {
            i -= 1;
            if same_text(self.fields[i].0.as_str(), key) {
                let entry = (key.to_owned(), value);
                proof {
                    rebound_name(self.fields@, key@, i as int, entry);
                }
                self.fields.set(i, entry);
                return ;
            }
        }
        let ghost before = self.fields@;
        self.fields.push((key.to_owned(), value));
        assert(self.fields@.drop_last() =~= before);
    }

    /// The cell that the row holds under `key`, or `None` where it holds none.
    pub fn get(&self, key: &str) -> (r: Option<&Value>)
        ensures
            r is Some <==> self@.fields.contains_key(key@),
            r matches Some(v) ==> v@ == self@.fields[key@],
    {
        let mut i: usize = self.fields.len();
        while i > 0
            invariant
                i <= self.fields.len(),
                absent_from(self.fields@, key@, i as int),
            decreases i,
        {
            i -= 1;
            if same_text(self.fields[i].0.as_str(), key) {
                proof {
                    bound_name(self.fields@, key@, i as int);
                }
                return Some(&self.fields[i].1);
            }
        }
        proof {
            unbound_name(self.fields@, key@);
        }
        None
    }
}

} // verus!
