use vstd::prelude::*;
use crate::catalog::cell_model;
use crate::registry::Collector;
use crate::registry::TableRegistry;
use crate::registry::fetch_result_ok;
use crate::value::Value;
use crate::value::clone_row;
use crate::value::clone_value;
use crate::value::row_model;
use crate::value::rows_model;

verus! {

/// The oldest engine version whose virtual-table module interface the
/// bridge supports.
pub const MIN_ENGINE_VERSION: i32 = 3008012;

/// Whether an engine version is recent enough to register virtual
/// tables against. Registration must not be attempted below the
/// minimum: skipping it silently would leave later queries failing on
/// missing tables.
pub fn version_supported(version: i32) -> (b: bool)
    ensures
        b == (version >= MIN_ENGINE_VERSION),
{
    version >= MIN_ENGINE_VERSION
}

/// The statement registering one table with the engine's module.
pub open spec fn spec_registration_sql(name: Seq<char>) -> Seq<char> {
    ("CREATE VIRTUAL TABLE ")@ + name + (" USING siquery(table_name=")@ + name + (")")@
}

/// Render the registration statement for one table name.
pub fn registration_sql(name: &str) -> (r: String)
    ensures
        r@ == spec_registration_sql(name@),
{
    let mut sql = String::new();
    sql.append("CREATE VIRTUAL TABLE ");
    sql.append(name);
    sql.append(" USING siquery(table_name=");
    sql.append(name);
    sql.append(")");
    proof {
        assert(sql@ =~= spec_registration_sql(name@));
    }
    sql
}

/// Cursor state for one query against one virtual table: the rows the
/// filter step materialized, and the zero-based position. Closing a
/// cursor is dropping it; the row buffer goes with it.
pub struct CursorState {
    pub rows: Vec<Vec<Value>>,
    pub pos: usize,
}

impl CursorState {
    /// The position never runs past the row buffer.
    pub open spec fn wf(self) -> bool {
        self.pos <= self.rows@.len()
    }

    /// Open a cursor: nothing materialized, position at the start.
    pub fn open() -> (c: CursorState)
        ensures
            c.rows@.len() == 0,
            c.pos == 0,
            c.wf(),
    {
        CursorState { rows: Vec::new(), pos: 0 }
    }

    /// The filter step: eagerly materialize every column of every row
    /// of the named table — column lists are never pushed down — and
    /// rewind. An unregistered table leaves the cursor empty.
    pub fn filter<C: Collector>(&mut self, reg: &mut TableRegistry<C>, name: &str)
        requires
            old(reg).wf(),
        ensures
            final(reg).wf(),
            old(reg).same_tables(*final(reg)),
            final(self).wf(),
            final(self).pos == 0,
            !old(reg).has_table(name@) ==> final(self).rows@.len() == 0,
            old(reg).has_table(name@) ==> fetch_result_ok(
                old(reg).catalog_of(old(reg).spec_find(name@)),
                Seq::<Seq<char>>::empty(),
                rows_model(final(self).rows@),
            ),
    {
        let no_columns: Vec<String> = Vec::new();
        proof {
            assert(no_columns.deep_view() =~= Seq::<Seq<char>>::empty());
        }
        let rows = reg.query_table(name, &no_columns);
        self.rows = rows;
        self.pos = 0;
    }

    /// Whether the cursor has run past its last row.
    pub fn eof(&self) -> (b: bool)
        ensures
            b == (self.pos >= self.rows@.len()),
    {
        self.pos >= self.rows.len()
    }

    /// Step to the next row. The engine only steps a cursor that has
    /// not reached the end.
    pub fn next(&mut self)
        requires
            old(self).pos < old(self).rows@.len(),
        ensures
            final(self).rows == old(self).rows,
            final(self).pos == old(self).pos + 1,
            final(self).wf(),
    {
        if self.pos < self.rows.len() {
            self.pos = self.pos + 1;
        }
    }

    /// The current row's `i`-th cell — the `i`-th catalog column, the
    /// buffer holding every column in declaration order — or null past
    /// the row's width. The engine only reads columns before the end.
    pub fn column(&self, i: usize) -> (v: Value)
        requires
            self.pos < self.rows@.len(),
        ensures
            v@ == cell_model(self.rows@[self.pos as int]@, i as int),
    {
        let row = &self.rows[self.pos];
        if i < row.len() {
            clone_value(&row[i])
        } else {
            Value::Null
        }
    }

    /// Drive the cursor to exhaustion, as the engine does for a full
    /// scan, collecting every remaining row in order.
    pub fn drain(&mut self) -> (out: Vec<Vec<Value>>)
        requires
            old(self).wf(),
        ensures
            final(self).rows == old(self).rows,
            final(self).pos == final(self).rows@.len(),
            rows_model(out@) == rows_model(old(self).rows@.skip(old(self).pos as int)),
    {
        let mut out: Vec<Vec<Value>> = Vec::new();
        while self.pos < self.rows.len()
            invariant
                self.rows == old(self).rows,
                old(self).pos <= self.pos <= self.rows@.len(),
                out@.len() == self.pos - old(self).pos,
                forall|k: int|
                    0 <= k < out@.len() ==> row_model((#[trigger] out@[k])@) == row_model(
                        self.rows@[old(self).pos + k]@,
                    ),
            decreases self.rows@.len() - self.pos,
        {
            out.push(clone_row(&self.rows[self.pos]));
            self.pos = self.pos + 1;
        }
        proof {
            assert(rows_model(out@) =~= rows_model(old(self).rows@.skip(old(self).pos as int)));
        }
        out
    }
}

/// A freshly filtered cursor, driven to exhaustion, yields its whole
/// buffer: nothing is skipped, reordered or invented on the way out.
pub proof fn lemma_cursor_roundtrip(c: CursorState)
    requires
        c.pos == 0,
    ensures
        rows_model(c.rows@.skip(c.pos as int)) == rows_model(c.rows@),
{
    assert(c.rows@.skip(0) =~= c.rows@);
}

/// The whole protocol for a full scan, as the engine drives it:
/// open a cursor, filter, then read rows until the end. What comes out
/// is exactly what fetching the table with no column list returns.
pub fn select_star<C: Collector>(reg: &mut TableRegistry<C>, name: &str) -> (res: Vec<Vec<Value>>)
    requires
        old(reg).wf(),
    ensures
        final(reg).wf(),
        old(reg).same_tables(*final(reg)),
        !old(reg).has_table(name@) ==> res@.len() == 0,
        old(reg).has_table(name@) ==> fetch_result_ok(
            old(reg).catalog_of(old(reg).spec_find(name@)),
            Seq::<Seq<char>>::empty(),
            rows_model(res@),
        ),
{
    let mut cur = CursorState::open();
    cur.filter(reg, name);
    let res = cur.drain();
    proof {
        assert(cur.rows@.skip(0) =~= cur.rows@);
        assert(rows_model(res@).len() == res@.len());
        assert(rows_model(cur.rows@).len() == cur.rows@.len());
    }
    res
}

} // verus!
