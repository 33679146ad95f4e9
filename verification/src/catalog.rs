use vstd::prelude::*;
use crate::text::str_eq;
use crate::value::Value;
use crate::value::ValueModel;
use crate::value::clone_value;

verus! {

/// Static per-table column metadata: the ordered column names and the
/// SQL type strings, aligned by index.
///
/// A column identifier is a `u64` with exactly one bit set: bit `i`
/// stands for column `i`. Zero is the sentinel for "no such column";
/// the one-bit-per-column scheme caps a table at 64 columns.
pub struct ColumnCatalog {
    pub names: Vec<String>,
    pub types: Vec<String>,
}

impl ColumnCatalog {
    /// Number of columns.
    pub open spec fn spec_width(self) -> nat {
        self.names@.len()
    }

    pub open spec fn name_at(self, i: int) -> Seq<char> {
        self.names@[i]@
    }

    pub open spec fn type_at(self, i: int) -> Seq<char> {
        self.types@[i]@
    }

    /// Well-formed: a type for every name, at most 64 columns, and no
    /// name repeated.
    pub open spec fn wf(self) -> bool {
        &&& self.types@.len() == self.names@.len()
        &&& self.names@.len() <= 64
        &&& forall|i: int, j: int|
            0 <= i < j < self.names@.len() ==> self.name_at(i) != self.name_at(j)
    }

    pub open spec fn has_name(self, n: Seq<char>) -> bool {
        exists|i: int| 0 <= i < self.spec_width() && self.name_at(i) == n
    }

    /// The index of the column called `n`, or -1 if there is none.
    pub open spec fn idx_of(self, n: Seq<char>) -> int {
        if self.has_name(n) {
            choose|i: int| 0 <= i < self.spec_width() && self.name_at(i) == n
        } else {
            -1
        }
    }

    /// The identifier `id_of` hands out for the name `n`: one shifted
    /// by the column's index, or the zero sentinel for an unknown name.
    pub open spec fn spec_id_of(self, n: Seq<char>) -> u64 {
        if self.has_name(n) {
            1u64 << (self.idx_of(n) as u64)
        } else {
            0u64
        }
    }

    /// The column index an identifier stands for, or -1 if the
    /// identifier belongs to no column of this catalog.
    pub open spec fn idx_of_id(self, id: u64) -> int {
        if exists|i: int| 0 <= i < self.spec_width() && id == #[trigger] (1u64 << (i as u64)) {
            choose|i: int| 0 <= i < self.spec_width() && id == #[trigger] (1u64 << (i as u64))
        } else {
            -1
        }
    }

    /// The cell an identifier addresses in `row`: the cell at the
    /// identifier's column index, or null when the identifier belongs
    /// to no column or the row is too short.
    pub open spec fn spec_value_of(self, row: Seq<Value>, id: u64) -> ValueModel {
        cell_model(row, self.idx_of_id(id))
    }

    /// Number of columns.
    pub fn width(&self) -> (r: usize)
        ensures
            r == self.spec_width(),
    {
        self.names.len()
    }

    /// Decide well-formedness: as many types as names, at most 64
    /// columns, and no repeated name.
    pub fn is_wf(&self) -> (b: bool)
        ensures
            b == self.wf(),
    {
        if self.types.len() != self.names.len() {
            return false;
        }
        if self.names.len() > 64 {
            return false;
        }
        let mut i: usize = 0;
        while i < self.names.len()
            invariant
                i <= self.names@.len(),
                self.types@.len() == self.names@.len(),
                self.names@.len() <= 64,
                forall|p: int, q: int| 0 <= p < q < i ==> self.name_at(p) != self.name_at(q),
            decreases self.names@.len() - i,
        {
            let mut j: usize = 0;
            while j < i
                invariant
                    j <= i < self.names@.len(),
                    forall|q: int| 0 <= q < j ==> self.name_at(q) != self.name_at(i as int),
                decreases i - j,
            {
                if str_eq(self.names[j].as_str(), self.names[i].as_str()) {
                    proof {
                        assert(self.name_at(j as int) == self.name_at(i as int));
                        assert(!self.wf());
                    }
                    return false;
                }
                j = j + 1;
            }
            i = i + 1;
        }
        true
    }

    /// Build a catalog after checking that it is well formed.
    pub fn new(names: Vec<String>, types: Vec<String>) -> (r: Option<ColumnCatalog>)
        ensures
            (match r {
                Some(c) => c == (ColumnCatalog { names, types }) && c.wf(),
                None => !(ColumnCatalog { names, types }).wf(),
            }),
    {
        let c = ColumnCatalog { names, types };
        if c.is_wf() {
            Some(c)
        } else {
            None
        }
    }

    /// Resolve a column name to its identifier; unknown names get the
    /// zero sentinel. Matching is case-sensitive and exact.
    pub fn id_of(&self, name: &str) -> (r: u64)
        requires
            self.wf(),
        ensures
            r == self.spec_id_of(name@),
    {
        let mut i: usize = 0;
        while i < self.names.len()
            invariant
                self.wf(),
                i <= self.spec_width(),
                forall|k: int| 0 <= k < i ==> self.name_at(k) != name@,
            decreases self.spec_width() - i,
        {
            if str_eq(self.names[i].as_str(), name) {
                proof {
                    assert(self.name_at(i as int) == name@);
                    assert(self.has_name(name@));
                    let w = self.idx_of(name@);
                    assert(0 <= w < self.spec_width() && self.name_at(w) == name@);
                    assert(w == i as int);
                }
                return 1u64 << (i as u64);
            }
            i = i + 1;
        }
        proof {
            assert(!self.has_name(name@));
        }
        0u64
    }

    /// Look a cell up by column identifier; an identifier of no column
    /// of this catalog, or a row too short for it, yields null.
    pub fn value_of(&self, row: &Vec<Value>, id: u64) -> (r: Value)
        requires
            self.wf(),
        ensures
            r@ == self.spec_value_of(row@, id),
    {
        let mut i: usize = 0;
        while i < self.names.len()
            invariant
                self.wf(),
                i <= self.spec_width(),
                forall|k: int| 0 <= k < i ==> id != #[trigger] (1u64 << (k as u64)),
            decreases self.spec_width() - i,
        {
            if id == 1u64 << (i as u64) {
                proof {
                    assert(self.idx_of_id(id) == i as int) by {
                        let w = choose|w: int|
                            0 <= w < self.spec_width() && id == #[trigger] (1u64 << (w as u64));
                        assert(0 <= w < self.spec_width() && id == (1u64 << (w as u64)));
                        lemma_one_bit_injective(w as u64, i as u64);
                    }
                }
                if i < row.len() {
                    return clone_value(&row[i]);
                } else {
                    return Value::Null;
                }
            }
            i = i + 1;
        }
        Value::Null
    }
}

/// The cell at index `i` of a row, null when the index is out of range.
pub open spec fn cell_model(row: Seq<Value>, i: int) -> ValueModel {
    if 0 <= i < row.len() {
        row[i]@
    } else {
        ValueModel::Null
    }
}

/// Two single-bit identifiers agree only on the same bit position.
proof fn lemma_one_bit_injective(i: u64, j: u64)
    requires
        i < 64,
        j < 64,
        (1u64 << i) == (1u64 << j),
    ensures
        i == j,
{
    assert(i < 64 && j < 64 && (1u64 << i) == (1u64 << j) ==> i == j) by (bit_vector);
}

/// A single-bit identifier is never the zero sentinel.
proof fn lemma_one_bit_nonzero(i: u64)
    requires
        i < 64,
    ensures
        (1u64 << i) != 0u64,
{
    assert(i < 64 ==> (1u64 << i) != 0u64) by (bit_vector);
}

/// The identifier carrying bit `i` addresses column `i`.
pub proof fn lemma_bit_id_index(c: ColumnCatalog, i: int)
    requires
        c.wf(),
        0 <= i < c.spec_width(),
    ensures
        c.idx_of_id(1u64 << (i as u64)) == i,
{
    let id = 1u64 << (i as u64);
    assert(exists|w: int| 0 <= w < c.spec_width() && id == #[trigger] (1u64 << (w as u64)));
    let w = choose|w: int| 0 <= w < c.spec_width() && id == #[trigger] (1u64 << (w as u64));
    lemma_one_bit_injective(w as u64, i as u64);
}

/// Resolving a known name and then following its identifier lands on
/// the column the name resolves to.
pub proof fn lemma_id_roundtrip(c: ColumnCatalog, n: Seq<char>)
    requires
        c.wf(),
        c.has_name(n),
    ensures
        c.idx_of_id(c.spec_id_of(n)) == c.idx_of(n),
{
    let i = c.idx_of(n);
    assert(0 <= i < c.spec_width() && c.name_at(i) == n);
    lemma_bit_id_index(c, i);
}

/// Column addressing is a bijection: a name is known exactly when its
/// identifier is not the sentinel, and distinct known names get
/// distinct identifiers (each identifier naming the column it came
/// from).
pub proof fn lemma_id_of_bijection(c: ColumnCatalog)
    requires
        c.wf(),
    ensures
        forall|n: Seq<char>| c.has_name(n) <==> #[trigger] c.spec_id_of(n) != 0u64,
        forall|n1: Seq<char>, n2: Seq<char>|
            c.has_name(n1) && c.has_name(n2) && n1 != n2 ==> #[trigger] c.spec_id_of(n1)
                != #[trigger] c.spec_id_of(n2),
{
    assert forall|n: Seq<char>| c.has_name(n) implies #[trigger] c.spec_id_of(n) != 0u64 by {
        let i = c.idx_of(n);
        assert(0 <= i < c.spec_width() && c.name_at(i) == n);
        lemma_one_bit_nonzero(i as u64);
    }
    assert forall|n1: Seq<char>, n2: Seq<char>|
        c.has_name(n1) && c.has_name(n2) && n1 != n2 implies #[trigger] c.spec_id_of(n1)
        != #[trigger] c.spec_id_of(n2) by {
        let i1 = c.idx_of(n1);
        let i2 = c.idx_of(n2);
        assert(0 <= i1 < c.spec_width() && c.name_at(i1) == n1);
        assert(0 <= i2 < c.spec_width() && c.name_at(i2) == n2);
        if (1u64 << (i1 as u64)) == (1u64 << (i2 as u64)) {
            lemma_one_bit_injective(i1 as u64, i2 as u64);
        }
    }
}

} // verus!
