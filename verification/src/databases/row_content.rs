//! The content of a row: an ordered list of top-level fields, each holding an
//! untyped value.

use vstd::prelude::*;

verus! {

/// What a value is, as far as schema inference looks at it.
#[derive(Clone, Copy, PartialEq, Eq, Structural, Debug)]
pub enum ValueKind {
    Null,
    Bool,
    Int,
    Real,
    Text,
}

/// A value of a row. A real number is carried as its decimal text, and a
/// nested array or object as its JSON encoding.
#[derive(Debug)]
pub enum RowValue {
    Null,
    Bool(bool),
    Int(i64),
    Real(String),
    Text(String),
    Json(String),
}

/// The mathematical value of a `RowValue`.
pub enum RowValueView {
    Null,
    Bool(bool),
    Int(i64),
    Real(Seq<char>),
    Text(Seq<char>),
    Json(Seq<char>),
}

impl RowValueView {
    /// Strings, arrays and objects all count as text.
    pub open spec fn kind(self) -> ValueKind {
        match self {
            RowValueView::Null => ValueKind::Null,
            RowValueView::Bool(_) => ValueKind::Bool,
            RowValueView::Int(_) => ValueKind::Int,
            RowValueView::Real(_) => ValueKind::Real,
            RowValueView::Text(_) => ValueKind::Text,
            RowValueView::Json(_) => ValueKind::Text,
        }
    }
}

impl View for RowValue {
    type V = RowValueView;

    open spec fn view(&self) -> RowValueView {
        match self {
            RowValue::Null => RowValueView::Null,
            RowValue::Bool(b) => RowValueView::Bool(*b),
            RowValue::Int(n) => RowValueView::Int(*n),
            RowValue::Real(text) => RowValueView::Real(text@),
            RowValue::Text(text) => RowValueView::Text(text@),
            RowValue::Json(text) => RowValueView::Json(text@),
        }
    }
}

impl RowValue {
    pub fn kind(&self) -> (kind: ValueKind)
        ensures
            kind == self@.kind(),
    {
        match self {
            RowValue::Null => ValueKind::Null,
            RowValue::Bool(_) => ValueKind::Bool,
            RowValue::Int(_) => ValueKind::Int,
            RowValue::Real(_) => ValueKind::Real,
            RowValue::Text(_) => ValueKind::Text,
            RowValue::Json(_) => ValueKind::Text,
        }
    }
}

impl Clone for RowValue {
    fn clone(&self) -> (copy: Self)
        ensures
            copy == *self,
    {
        match self {
            RowValue::Null => RowValue::Null,
            RowValue::Bool(b) => RowValue::Bool(*b),
            RowValue::Int(n) => RowValue::Int(*n),
            RowValue::Real(text) => RowValue::Real(text.clone()),
            RowValue::Text(text) => RowValue::Text(text.clone()),
            RowValue::Json(text) => RowValue::Json(text.clone()),
        }
    }
}

/// One top-level field of a row.
#[derive(Debug)]
pub struct Field {
    pub key: String,
    pub value: RowValue,
}

/// A field as a pair of its key and its value.
pub type FieldView = (Seq<char>, RowValueView);

impl View for Field {
    type V = FieldView;

    open spec fn view(&self) -> FieldView {
        (self.key@, self.value@)
    }
}

impl Clone for Field {
    fn clone(&self) -> (copy: Self)
        ensures
            copy == *self,
    {
        Field { key: self.key.clone(), value: self.value.clone() }
    }
}

/// The fields of a row in the order in which the row lists them.
#[derive(Debug)]
pub struct RowContent {
    pub fields: Vec<Field>,
}

impl View for RowContent {
    type V = Seq<FieldView>;

    open spec fn view(&self) -> Seq<FieldView> {
        self.fields@.map_values(|field: Field| field@)
    }
}

impl RowContent {
    pub fn new(fields: Vec<Field>) -> (content: Self)
        ensures
            content.fields == fields,
    {
        RowContent { fields }
    }
}

impl Clone for RowContent {
    fn clone(&self) -> (copy: Self)
        ensures
            copy@ == self@,
    {
        let mut fields: Vec<Field> = Vec::new();
        let mut i: usize = 0;
        while i < self.fields.len()
            invariant
                i <= self.fields.len(),
                fields@.len() == i,
                forall|k: int| 0 <= k < i ==> fields@[k] == self.fields@[k],
            decreases self.fields.len() - i,
        {
            fields.push(self.fields[i].clone());
            i += 1;
        }
        let copy = RowContent { fields };
        assert(copy@ =~= self@);
        copy
    }
}

} // verus!
