use vstd::prelude::*;

verus! {

/// A single typed scalar cell, the unit of data every table exchanges
/// with the SQL engine.
///
/// A `Real` cell carries the IEEE 754 bit pattern of the number, so the
/// library can hold and move such cells without doing floating-point
/// arithmetic itself; the host layer converts at the engine boundary.
#[derive(Debug, PartialEq, Eq)]
pub enum Value {
    Null,
    Integer(i64),
    Real(u64),
    Text(String),
    Blob(Vec<u8>),
}

/// The mathematical abstraction of a cell: the same five shapes, with
/// strings and byte vectors replaced by their sequences.
#[verifier::ext_equal]
pub ghost enum ValueModel {
    Null,
    Integer(int),
    Real(u64),
    Text(Seq<char>),
    Blob(Seq<u8>),
}

impl View for Value {
    type V = ValueModel;

    open spec fn view(&self) -> ValueModel {
        match self {
            Value::Null => ValueModel::Null,
            Value::Integer(i) => ValueModel::Integer(*i as int),
            Value::Real(bits) => ValueModel::Real(*bits),
            Value::Text(s) => ValueModel::Text(s@),
            Value::Blob(b) => ValueModel::Blob(b@),
        }
    }
}

impl DeepView for Value {
    type V = ValueModel;

    open spec fn deep_view(&self) -> ValueModel {
        self.view()
    }
}

/// The abstraction of one row: its cells, in order.
pub open spec fn row_model(row: Seq<Value>) -> Seq<ValueModel> {
    row.map_values(|v: Value| v@)
}

/// The abstraction of a row set: one cell sequence per row, in order.
pub open spec fn rows_model(rows: Seq<Vec<Value>>) -> Seq<Seq<ValueModel>> {
    rows.map_values(|r: Vec<Value>| row_model(r@))
}

/// Copy one cell; the copy denotes the same abstract value.
pub fn clone_value(v: &Value) -> (r: Value)
    ensures
        r@ == v@,
{
    match v {
        Value::Null => Value::Null,
        Value::Integer(i) => Value::Integer(*i),
        Value::Real(bits) => Value::Real(*bits),
        Value::Text(s) => Value::Text(s.clone()),
        Value::Blob(b) => Value::Blob(clone_bytes(b)),
    }
}

/// Copy a byte vector element by element.
pub fn clone_bytes(b: &Vec<u8>) -> (r: Vec<u8>)
    ensures
        r@ == b@,
{
    let mut out: Vec<u8> = Vec::new();
    let mut i: usize = 0;
    while i < b.len()
        invariant
            i <= b.len(),
            out@ == b@.subrange(0, i as int),
        decreases b.len() - i,
    {
        out.push(b[i]);
        i = i + 1;
        proof {
            assert(out@ =~= b@.subrange(0, i as int));
        }
    }
    proof {
        assert(out@ =~= b@);
    }
    out
}

/// Copy one row of cells; the copy denotes the same abstract row.
pub fn clone_row(row: &Vec<Value>) -> (r: Vec<Value>)
    ensures
        row_model(r@) == row_model(row@),
{
    let mut out: Vec<Value> = Vec::new();
    let mut i: usize = 0;
    while i < row.len()
        invariant
            i <= row.len(),
            out@.len() == i,
            forall|k: int| 0 <= k < i ==> out@[k]@ == row@[k]@,
        decreases row.len() - i,
    {
        out.push(clone_value(&row[i]));
        i = i + 1;
    }
    proof {
        assert(row_model(out@) =~= row_model(row@));
    }
    out
}

/// Copy a whole row set; the copy denotes the same abstract rows.
pub fn clone_rows(rows: &Vec<Vec<Value>>) -> (r: Vec<Vec<Value>>)
    ensures
        rows_model(r@) == rows_model(rows@),
{
    let mut out: Vec<Vec<Value>> = Vec::new();
    let mut i: usize = 0;
    while i < rows.len()
        invariant
            i <= rows.len(),
            out@.len() == i,
            forall|k: int| 0 <= k < i ==> row_model(#[trigger] out@[k]@) == row_model(rows@[k]@),
        decreases rows.len() - i,
    {
        out.push(clone_row(&rows[i]));
        i = i + 1;
    }
    proof {
        assert(rows_model(out@) =~= rows_model(rows@));
    }
    out
}

} // verus!
