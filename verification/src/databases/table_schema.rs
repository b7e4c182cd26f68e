//! Inference of a table's columns from the contents of its rows.
//!
//! Columns come in the order in which their keys first appear. The type of a
//! column is the join of the types of its non-null values along the chain
//! `bool < int < real < text`, so it depends on which kinds of value were
//! seen and not on the order in which they were seen.

use crate::databases::row_content::{Field, FieldView, RowContent, ValueKind};
use vstd::prelude::*;

verus! {

/// The type of an inferred column.
#[derive(Clone, Copy, PartialEq, Eq, Structural, Debug)]
pub enum ColumnType {
    Int,
    Real,
    Text,
    Bool,
}

impl ColumnType {
    /// Position in the promotion chain `bool < int < real < text`.
    pub open spec fn rank(self) -> int {
        match self {
            ColumnType::Bool => 0,
            ColumnType::Int => 1,
            ColumnType::Real => 2,
            ColumnType::Text => 3,
        }
    }

    /// The least type that holds values of both types.
    pub open spec fn join(self, other: ColumnType) -> ColumnType {
        if self.rank() >= other.rank() {
            self
        } else {
            other
        }
    }

    pub fn promote(self, other: ColumnType) -> (joined: ColumnType)
        ensures
            joined == self.join(other),
    {
        match (self, other) {
            (ColumnType::Text, _) => ColumnType::Text,
            (_, ColumnType::Text) => ColumnType::Text,
            (ColumnType::Real, _) => ColumnType::Real,
            (_, ColumnType::Real) => ColumnType::Real,
            (ColumnType::Int, _) => ColumnType::Int,
            (_, ColumnType::Int) => ColumnType::Int,
            (ColumnType::Bool, ColumnType::Bool) => ColumnType::Bool,
        }
    }
}

/// The column type that a single value asks for; a null asks for none.
pub open spec fn kind_type(kind: ValueKind) -> Option<ColumnType> {
    match kind {
        ValueKind::Null => None,
        ValueKind::Bool => Some(ColumnType::Bool),
        ValueKind::Int => Some(ColumnType::Int),
        ValueKind::Real => Some(ColumnType::Real),
        ValueKind::Text => Some(ColumnType::Text),
    }
}

/// The join of two optional types, where `None` is below every type.
pub open spec fn join_seen(seen: Option<ColumnType>, next: Option<ColumnType>) -> Option<
    ColumnType,
> {
    match (seen, next) {
        (None, _) => next,
        (_, None) => seen,
        (Some(a), Some(b)) => Some(a.join(b)),
    }
}

/// All fields of all rows, in the order in which a walk over the rows meets
/// them.
pub open spec fn observations(rows: Seq<Seq<FieldView>>) -> Seq<FieldView>
    decreases rows.len(),
{
    if rows.len() == 0 {
        Seq::empty()
    } else {
        observations(rows.drop_last()) + rows.last()
    }
}

/// Some field named `key` holds a value of kind `kind`.
pub open spec fn observed(obs: Seq<FieldView>, key: Seq<char>, kind: ValueKind) -> bool {
    exists|i: int| 0 <= i < obs.len() && (#[trigger] obs[i]).0 == key && obs[i].1.kind() == kind
}

/// The keys in the order of their first appearance.
pub open spec fn first_keys(obs: Seq<FieldView>) -> Seq<Seq<char>>
    decreases obs.len(),
{
    if obs.len() == 0 {
        Seq::empty()
    } else {
        let earlier = first_keys(obs.drop_last());
        if earlier.contains(obs.last().0) {
            earlier
        } else {
            earlier.push(obs.last().0)
        }
    }
}

/// The join of the types of the non-null values seen under `key`, if any.
pub open spec fn joined_type(obs: Seq<FieldView>, key: Seq<char>) -> Option<ColumnType> {
    if observed(obs, key, ValueKind::Text) {
        Some(ColumnType::Text)
    } else if observed(obs, key, ValueKind::Real) {
        Some(ColumnType::Real)
    } else if observed(obs, key, ValueKind::Int) {
        Some(ColumnType::Int)
    } else if observed(obs, key, ValueKind::Bool) {
        Some(ColumnType::Bool)
    } else {
        None
    }
}

/// A column of an inferred schema.
#[derive(Debug)]
pub struct InferredColumn {
    pub name: String,
    pub column_type: ColumnType,
    pub nullable: bool,
}

pub struct ColumnView {
    pub name: Seq<char>,
    pub column_type: ColumnType,
    pub nullable: bool,
}

impl View for InferredColumn {
    type V = ColumnView;

    open spec fn view(&self) -> ColumnView {
        ColumnView { name: self.name@, column_type: self.column_type, nullable: self.nullable }
    }
}

/// The column inferred for `key`: the join of what was seen, `text` where
/// only nulls were seen, and nullable exactly if a null was seen.
pub open spec fn column_of(obs: Seq<FieldView>, key: Seq<char>) -> ColumnView {
    ColumnView {
        name: key,
        column_type: match joined_type(obs, key) {
            Some(t) => t,
            None => ColumnType::Text,
        },
        nullable: observed(obs, key, ValueKind::Null),
    }
}

pub open spec fn inferred_columns(obs: Seq<FieldView>) -> Seq<ColumnView> {
    first_keys(obs).map_values(|key: Seq<char>| column_of(obs, key))
}

/// The schema of a table whose rows have these contents.
pub open spec fn inferred_schema(rows: Seq<Seq<FieldView>>) -> Seq<ColumnView> {
    inferred_columns(observations(rows))
}

/// Appending a field adds exactly that field's observation.
pub proof fn lemma_observed_push(obs: Seq<FieldView>, field: FieldView)
    ensures
        forall|key: Seq<char>, kind: ValueKind| #[trigger]
            observed(obs.push(field), key, kind) <==> (observed(obs, key, kind) || (field.0 == key
                && field.1.kind() == kind)),
{
    let longer = obs.push(field);
    assert forall|key: Seq<char>, kind: ValueKind| #[trigger]
        observed(longer, key, kind) <==> (observed(obs, key, kind) || (field.0 == key
            && field.1.kind() == kind)) by {
        if observed(longer, key, kind) {
            let i = choose|i: int|
                0 <= i < longer.len() && (#[trigger] longer[i]).0 == key && longer[i].1.kind()
                    == kind;
            if i < obs.len() {
                assert(obs[i] == longer[i]);
            }
        }
        if observed(obs, key, kind) {
            let i = choose|i: int|
                0 <= i < obs.len() && (#[trigger] obs[i]).0 == key && obs[i].1.kind() == kind;
            assert(longer[i] == obs[i]);
        }
        if field.0 == key && field.1.kind() == kind {
            assert(longer[obs.len() as int] == field);
        }
    }
}

/// A key is among the first keys exactly if some field carries it.
pub proof fn lemma_first_keys_contains(obs: Seq<FieldView>, key: Seq<char>)
    ensures
        first_keys(obs).contains(key) <==> exists|i: int|
            0 <= i < obs.len() && (#[trigger] obs[i]).0 == key,
    decreases obs.len(),
{
    if obs.len() > 0 {
        let shorter = obs.drop_last();
        lemma_first_keys_contains(shorter, key);
        let earlier = first_keys(shorter);
        if first_keys(obs).contains(key) {
            if earlier.contains(key) {
                let i = choose|i: int| 0 <= i < shorter.len() && (#[trigger] shorter[i]).0 == key;
                assert(obs[i] == shorter[i]);
            } else {
                assert(!earlier.contains(obs.last().0));
                let at = choose|at: int|
                    0 <= at < first_keys(obs).len() && first_keys(obs)[at] == key;
                assert(at == earlier.len());
                assert(obs[obs.len() - 1].0 == key);
            }
        }
        if exists|i: int| 0 <= i < obs.len() && (#[trigger] obs[i]).0 == key {
            let i = choose|i: int| 0 <= i < obs.len() && (#[trigger] obs[i]).0 == key;
            if i < shorter.len() {
                assert(shorter[i] == obs[i]);
                assert(earlier.contains(key));
                if !earlier.contains(obs.last().0) {
                    let at = choose|at: int| 0 <= at < earlier.len() && earlier[at] == key;
                    assert(first_keys(obs)[at] == key);
                }
            } else {
                if !earlier.contains(obs.last().0) {
                    assert(first_keys(obs)[earlier.len() as int] == key);
                }
            }
        }
    }
}

/// No key is listed twice.
pub proof fn lemma_first_keys_distinct(obs: Seq<FieldView>)
    ensures
        first_keys(obs).no_duplicates(),
    decreases obs.len(),
{
    if obs.len() > 0 {
        lemma_first_keys_distinct(obs.drop_last());
    }
}

/// A key that no field carries has nothing observed under it.
pub proof fn lemma_unlisted_key_unobserved(obs: Seq<FieldView>, key: Seq<char>)
    requires
        !first_keys(obs).contains(key),
    ensures
        forall|kind: ValueKind| !observed(obs, key, kind),
{
    lemma_first_keys_contains(obs, key);
}

/// What is known of a column while rows are still being read.
struct ColumnState {
    name: String,
    seen: Option<ColumnType>,
    nullable: bool,
}

/// The states describe, column by column, what `obs` shows.
spec fn states_match(states: Seq<ColumnState>, obs: Seq<FieldView>) -> bool {
    &&& states.len() == first_keys(obs).len()
    &&& forall|c: int|
        0 <= c < states.len() ==> {
            &&& (#[trigger] states[c]).name@ == first_keys(obs)[c]
            &&& states[c].seen == joined_type(obs, first_keys(obs)[c])
            &&& states[c].nullable == observed(obs, first_keys(obs)[c], ValueKind::Null)
        }
}

fn kind_column_type(kind: ValueKind) -> (asked: Option<ColumnType>)
    ensures
        asked == kind_type(kind),
{
    match kind {
        ValueKind::Null => None,
        ValueKind::Bool => Some(ColumnType::Bool),
        ValueKind::Int => Some(ColumnType::Int),
        ValueKind::Real => Some(ColumnType::Real),
        ValueKind::Text => Some(ColumnType::Text),
    }
}

fn promote_seen(seen: Option<ColumnType>, next: Option<ColumnType>) -> (joined: Option<ColumnType>)
    ensures
        joined == join_seen(seen, next),
{
    match (seen, next) {
        (None, _) => next,
        (_, None) => seen,
        (Some(a), Some(b)) => Some(a.promote(b)),
    }
}

/// The position of the column named `key`, if there is one.
fn find_column(states: &Vec<ColumnState>, key: &String) -> (found: Option<usize>)
    ensures
        match found {
            Some(c) => c < states@.len() && states@[c as int].name@ == key@,
            None => forall|c: int| 0 <= c < states@.len() ==> (#[trigger] states@[c]).name@ != key@,
        },
{
    let mut c: usize = 0;
    while c < states.len()
        invariant
            c <= states@.len(),
            forall|k: int| 0 <= k < c ==> (#[trigger] states@[k]).name@ != key@,
        decreases states@.len() - c,
    {
        if states[c].name == *key {
            return Some(c);
        }
        c += 1;
    }
    None
}

/// Takes one more field into account.
fn observe(states: &mut Vec<ColumnState>, field: &Field, Ghost(obs): Ghost<Seq<FieldView>>)
    requires
        states_match(old(states)@, obs),
    ensures
        states_match(final(states)@, obs.push(field@)),
{
    let ghost longer = obs.push(field@);
    let ghost key = field.key@;
    proof {
        lemma_observed_push(obs, field@);
        lemma_first_keys_distinct(obs);
        assert(longer.drop_last() =~= obs);
        assert(longer.last() == field@);
    }
    let kind = field.value.kind();
    let asked = kind_column_type(kind);
    let is_null = kind == ValueKind::Null;
    match find_column(states, &field.key) {
        Some(c) => {
            proof {
                assert(first_keys(obs)[c as int] == key);
                assert(first_keys(obs).contains(key));
                assert(first_keys(longer) == first_keys(obs));
            }
            let name = states[c].name.clone();
            let seen = promote_seen(states[c].seen, asked);
            let nullable = states[c].nullable || is_null;
            states.set(c, ColumnState { name, seen, nullable });
            proof {
                assert forall|k: int| 0 <= k < states@.len() implies {
                    &&& (#[trigger] states@[k]).name@ == first_keys(longer)[k]
                    &&& states@[k].seen == joined_type(longer, first_keys(longer)[k])
                    &&& states@[k].nullable == observed(
                        longer,
                        first_keys(longer)[k],
                        ValueKind::Null,
                    )
                } by {
                    if k != c {
                        assert(old(states)@[k] == states@[k]);
                        assert(first_keys(obs)[k] != key);
                    }
                }
            }
        },
        None => {
            proof {
                assert(!first_keys(obs).contains(key)) by {
                    if first_keys(obs).contains(key) {
                        let at = choose|at: int|
                            0 <= at < first_keys(obs).len() && first_keys(obs)[at] == key;
                        assert(old(states)@[at].name@ == key);
                    }
                }
                lemma_unlisted_key_unobserved(obs, key);
                assert(first_keys(longer) == first_keys(obs).push(key));
            }
            states.push(ColumnState { name: field.key.clone(), seen: asked, nullable: is_null });
            proof {
                assert forall|k: int| 0 <= k < states@.len() implies {
                    &&& (#[trigger] states@[k]).name@ == first_keys(longer)[k]
                    &&& states@[k].seen == joined_type(longer, first_keys(longer)[k])
                    &&& states@[k].nullable == observed(
                        longer,
                        first_keys(longer)[k],
                        ValueKind::Null,
                    )
                } by {
                    if k < old(states)@.len() {
                        assert(old(states)@[k] == states@[k]);
                        assert(first_keys(obs)[k] != key) by {
                            if first_keys(obs)[k] == key {
                                assert(first_keys(obs).contains(key));
                            }
                        }
                    }
                }
            }
        },
    }
}

/// The contents of a list of rows as sequences of fields.
pub open spec fn contents_of(rows: Seq<&RowContent>) -> Seq<Seq<FieldView>> {
    rows.map_values(|row: &RowContent| row@)
}

/// The inferred schema of one table: its columns in order.
#[derive(Debug)]
pub struct TableSchema {
    columns: Vec<InferredColumn>,
}

impl View for TableSchema {
    type V = Seq<ColumnView>;

    closed spec fn view(&self) -> Seq<ColumnView> {
        self.columns@.map_values(|column: InferredColumn| column@)
    }
}

impl TableSchema {
    /// The schema of a table without rows: no column.
    pub fn empty() -> (schema: TableSchema)
        ensures
            schema@ == Seq::<ColumnView>::empty(),
            schema@ == inferred_schema(Seq::empty()),
    {
        let schema = TableSchema { columns: Vec::new() };
        assert(schema@ =~= Seq::<ColumnView>::empty());
        assert(inferred_schema(Seq::empty()) =~= Seq::<ColumnView>::empty());
        schema
    }

    /// Infers the schema of a table from the contents of its rows.
    pub fn from_rows(rows: &Vec<&RowContent>) -> (schema: TableSchema)
        ensures
            schema@ == inferred_schema(contents_of(rows@)),
    {
        let ghost contents = contents_of(rows@);
        let mut states: Vec<ColumnState> = Vec::new();
        let ghost mut obs: Seq<FieldView> = Seq::empty();
        let mut i: usize = 0;
        while i < rows.len()
            invariant
                i <= rows@.len(),
                contents == contents_of(rows@),
                obs == observations(contents.take(i as int)),
                states_match(states@, obs),
            decreases rows@.len() - i,
        {
            let row: &RowContent = rows[i];
            let ghost before = obs;
            let mut j: usize = 0;
            while j < row.fields.len()
                invariant
                    j <= row.fields@.len(),
                    obs == before + row@.take(j as int),
                    states_match(states@, obs),
                decreases row.fields@.len() - j,
            {
                observe(&mut states, &row.fields[j], Ghost(obs));
                proof {
                    assert(row@[j as int] == row.fields@[j as int]@);
                    assert(row@.take(j + 1) =~= row@.take(j as int).push(row@[j as int]));
                    assert(obs.push(row@[j as int]) =~= before + row@.take(j + 1));
                    obs = obs.push(row@[j as int]);
                }
                j += 1;
            }
            proof {
                assert(row@.take(j as int) =~= row@);
                assert(contents[i as int] == row@);
                assert(contents.take(i + 1).drop_last() =~= contents.take(i as int));
                assert(contents.take(i + 1).last() == row@);
            }
            i += 1;
        }
        proof {
            assert(contents.take(i as int) =~= contents);
        }
        let mut columns: Vec<InferredColumn> = Vec::new();
        let mut c: usize = 0;
        while c < states.len()
            invariant
                c <= states@.len(),
                states_match(states@, obs),
                columns@.len() == c,
                forall|k: int|
                    0 <= k < c ==> (#[trigger] columns@[k])@ == column_of(obs, first_keys(obs)[k]),
            decreases states@.len() - c,
        {
            let column_type = match states[c].seen {
                Some(t) => t,
                None => ColumnType::Text,
            };
            columns.push(
                InferredColumn {
                    name: states[c].name.clone(),
                    column_type,
                    nullable: states[c].nullable,
                },
            );
            c += 1;
        }
        let schema = TableSchema { columns };
        assert(schema@ =~= inferred_columns(obs));
        schema
    }

    /// The columns, in the order of first appearance of their keys.
    pub fn columns(&self) -> (columns: &Vec<InferredColumn>)
        ensures
            columns@.map_values(|column: InferredColumn| column@) == self@,
    {
        &self.columns
    }

    pub fn is_empty(&self) -> (empty: bool)
        ensures
            empty == (self@.len() == 0),
    {
        self.columns.len() == 0
    }
}

/// What is observed in the rows together is what is observed in some row.
pub proof fn lemma_observed_in_some_row(rows: Seq<Seq<FieldView>>, key: Seq<char>, kind: ValueKind)
    ensures
        observed(observations(rows), key, kind) <==> exists|r: int|
            0 <= r < rows.len() && observed(#[trigger] rows[r], key, kind),
    decreases rows.len(),
{
    if rows.len() > 0 {
        let shorter = rows.drop_last();
        let last = rows.last();
        let all = observations(rows);
        lemma_observed_in_some_row(shorter, key, kind);
        if observed(all, key, kind) {
            let i = choose|i: int|
                0 <= i < all.len() && (#[trigger] all[i]).0 == key && all[i].1.kind() == kind;
            if i < observations(shorter).len() {
                assert(observations(shorter)[i] == all[i]);
                let r = choose|r: int|
                    0 <= r < shorter.len() && observed(#[trigger] shorter[r], key, kind);
                assert(rows[r] == shorter[r]);
            } else {
                assert(last[i - observations(shorter).len()] == all[i]);
                assert(observed(rows[rows.len() - 1], key, kind));
            }
        }
        if exists|r: int| 0 <= r < rows.len() && observed(#[trigger] rows[r], key, kind) {
            let r = choose|r: int| 0 <= r < rows.len() && observed(#[trigger] rows[r], key, kind);
            if r < shorter.len() {
                assert(shorter[r] == rows[r]);
                let i = choose|i: int|
                    0 <= i < observations(shorter).len() && (#[trigger] observations(
                        shorter,
                    )[i]).0 == key && observations(shorter)[i].1.kind() == kind;
                assert(all[i] == observations(shorter)[i]);
            } else {
                let j = choose|j: int|
                    0 <= j < last.len() && (#[trigger] last[j]).0 == key && last[j].1.kind()
                        == kind;
                assert(all[observations(shorter).len() + j] == last[j]);
            }
        }
    }
}

/// Inference does not depend on the order of the rows beyond the order in
/// which keys first appear: two lists that hold the same rows, each as often
/// as the other, and in which the keys first appear in the same order, have
/// the same schema.
pub proof fn lemma_schema_ignores_row_order(
    rows: Seq<Seq<FieldView>>,
    permuted: Seq<Seq<FieldView>>,
)
    requires
        rows.to_multiset() == permuted.to_multiset(),
        first_keys(observations(rows)) == first_keys(observations(permuted)),
    ensures
        inferred_schema(rows) == inferred_schema(permuted),
{
    let a = observations(rows);
    let b = observations(permuted);
    rows.to_multiset_ensures();
    permuted.to_multiset_ensures();
    assert forall|key: Seq<char>, kind: ValueKind|
        observed(a, key, kind) == observed(b, key, kind) by {
        lemma_observed_in_some_row(rows, key, kind);
        lemma_observed_in_some_row(permuted, key, kind);
        if observed(a, key, kind) {
            let r = choose|r: int| 0 <= r < rows.len() && observed(#[trigger] rows[r], key, kind);
            assert(rows.contains(rows[r]));
            assert(rows.to_multiset().count(rows[r]) > 0);
            assert(permuted.to_multiset().count(rows[r]) > 0);
            assert(permuted.contains(rows[r]));
            let q = choose|q: int| 0 <= q < permuted.len() && permuted[q] == rows[r];
            assert(observed(permuted[q], key, kind));
        }
        if observed(b, key, kind) {
            let r = choose|r: int|
                0 <= r < permuted.len() && observed(#[trigger] permuted[r], key, kind);
            assert(permuted.contains(permuted[r]));
            assert(permuted.to_multiset().count(permuted[r]) > 0);
            assert(rows.to_multiset().count(permuted[r]) > 0);
            assert(rows.contains(permuted[r]));
            let q = choose|q: int| 0 <= q < rows.len() && rows[q] == permuted[r];
            assert(observed(rows[q], key, kind));
        }
    }
    assert forall|key: Seq<char>| column_of(a, key) == column_of(b, key) by {
        assert(observed(a, key, ValueKind::Text) == observed(b, key, ValueKind::Text));
        assert(observed(a, key, ValueKind::Real) == observed(b, key, ValueKind::Real));
        assert(observed(a, key, ValueKind::Int) == observed(b, key, ValueKind::Int));
        assert(observed(a, key, ValueKind::Bool) == observed(b, key, ValueKind::Bool));
        assert(observed(a, key, ValueKind::Null) == observed(b, key, ValueKind::Null));
    }
    assert(inferred_columns(a) =~= inferred_columns(b));
}

} // verus!
