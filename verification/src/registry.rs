use vstd::prelude::*;
use crate::catalog::ColumnCatalog;
use crate::projection::header_model;
use crate::projection::select;
use crate::projection::select_header;
use crate::projection::select_model;
use crate::schema::create_schema;
use crate::schema::spec_schema;
use crate::text::str_eq;
use crate::value::Value;
use crate::value::ValueModel;
use crate::value::clone_rows;
use crate::value::rows_model;

verus! {

/// What a table's data provider offers the registry: one fresh, full
/// collection pass per call. Which rows come back is the provider's
/// business alone — a failing or unimplemented provider returns no
/// rows rather than failing its caller — so nothing is promised of
/// the result; projection holds every row to the catalog regardless.
pub trait Collector {
    /// Materialize all rows for one call; nothing is cached across
    /// calls.
    fn get_rows(&mut self) -> Vec<Vec<Value>>;
}

/// A provider over a fixed row set, which it hands out unchanged on
/// every collection pass.
pub struct StaticCollector {
    pub rows: Vec<Vec<Value>>,
}

impl Collector for StaticCollector {
    fn get_rows(&mut self) -> (rows: Vec<Vec<Value>>)
        ensures
            rows_model(rows@) == rows_model(old(self).rows@),
            *final(self) == *old(self),
    {
        clone_rows(&self.rows)
    }
}

/// A fetched result is right for a catalog and a request when it is
/// the projection of some row set the collection pass produced: which
/// rows came back is the provider's business alone.
pub open spec fn fetch_result_ok(
    cat: ColumnCatalog,
    req: Seq<Seq<char>>,
    out: Seq<Seq<ValueModel>>,
) -> bool {
    exists|rows: Seq<Vec<Value>>|
        #![trigger select_model(cat, rows, req)]
        out == select_model(cat, rows, req)
}

/// One registered table: its logical name, its column metadata, and
/// the provider that collects its rows.
pub struct TableEntry<C> {
    pub name: String,
    pub catalog: ColumnCatalog,
    pub collector: C,
}

/// The name-keyed table registry: built once, then consulted per
/// query. Lookup is by exact name; registration order is kept.
pub struct TableRegistry<C> {
    pub tables: Vec<TableEntry<C>>,
}

impl<C: Collector> TableRegistry<C> {
    pub open spec fn table_count(self) -> nat {
        self.tables@.len()
    }

    pub open spec fn name_of(self, t: int) -> Seq<char> {
        self.tables@[t].name@
    }

    pub open spec fn catalog_of(self, t: int) -> ColumnCatalog {
        self.tables@[t].catalog
    }

    /// Well-formed: every catalog is well formed and has at least one
    /// column, and no table name repeats.
    pub open spec fn wf(self) -> bool {
        &&& forall|t: int| 0 <= t < self.table_count() ==> (#[trigger] self.catalog_of(t)).wf()
        &&& forall|t: int|
            0 <= t < self.table_count() ==> (#[trigger] self.catalog_of(t)).spec_width() > 0
        &&& forall|t1: int, t2: int|
            0 <= t1 < t2 < self.table_count() ==> self.name_of(t1) != self.name_of(t2)
    }

    /// The registered names, in registration order.
    pub open spec fn spec_names(self) -> Seq<Seq<char>> {
        Seq::new(self.table_count(), |t: int| self.name_of(t))
    }

    pub open spec fn has_table(self, n: Seq<char>) -> bool {
        exists|t: int| 0 <= t < self.table_count() && self.name_of(t) == n
    }

    /// The index of the table called `n`, or -1 if none is registered.
    pub open spec fn spec_find(self, n: Seq<char>) -> int {
        if self.has_table(n) {
            choose|t: int| 0 <= t < self.table_count() && self.name_of(t) == n
        } else {
            -1
        }
    }

    /// The same tables as `other`: equal names and catalogs in equal
    /// order; the providers may have moved on.
    pub open spec fn same_tables(self, other: Self) -> bool {
        &&& other.table_count() == self.table_count()
        &&& forall|t: int| 0 <= t < self.table_count() ==> other.name_of(t) == self.name_of(t)
        &&& forall|t: int|
            0 <= t < self.table_count() ==> (#[trigger] other.catalog_of(t)) == self.catalog_of(t)
    }

    /// An empty registry.
    pub fn new() -> (r: Self)
        ensures
            r.table_count() == 0,
            r.wf(),
    {
        TableRegistry { tables: Vec::new() }
    }

    /// Find a table by exact name.
    fn find_table(&self, name: &str) -> (r: Option<usize>)
        requires
            self.wf(),
        ensures
            (match r {
                Some(i) => self.has_table(name@) && i == self.spec_find(name@) && i
                    < self.table_count() && self.name_of(i as int) == name@,
                None => !self.has_table(name@),
            }),
    {
        let mut t: usize = 0;
        while t < self.tables.len()
            invariant
                self.wf(),
                t <= self.table_count(),
                forall|k: int| 0 <= k < t ==> self.name_of(k) != name@,
            decreases self.table_count() - t,
        {
            if str_eq(self.tables[t].name.as_str(), name) {
                proof {
                    assert(self.name_of(t as int) == name@);
                    assert(self.has_table(name@));
                    let w = self.spec_find(name@);
                    assert(0 <= w < self.table_count() && self.name_of(w) == name@);
                    assert(w == t as int);
                }
                return Some(t);
            }
            t = t + 1;
        }
        proof {
            assert(!self.has_table(name@));
        }
        None
    }

    /// Register one table. Registration fails — and changes nothing —
    /// on a duplicate name or a malformed or empty catalog.
    pub fn register(&mut self, name: String, catalog: ColumnCatalog, collector: C) -> (r: bool)
        requires
            old(self).wf(),
        ensures
            final(self).wf(),
            r == (!old(self).has_table(name@) && catalog.wf() && catalog.spec_width() > 0),
            r ==> final(self).tables@ == old(self).tables@.push(
                (TableEntry { name, catalog, collector }),
            ),
            !r ==> *final(self) == *old(self),
    {
        if !catalog.is_wf() {
            return false;
        }
        if catalog.width() == 0 {
            return false;
        }
        if let Some(_) = self.find_table(name.as_str()) {
            return false;
        }
        let ghost pre = *self;
        self.tables.push(TableEntry { name, catalog, collector });
        proof {
            assert forall|t: int| 0 <= t < self.table_count() implies (
            #[trigger] self.catalog_of(t)).wf() && self.catalog_of(t).spec_width() > 0 by {
                if t < pre.table_count() {
                    assert(self.tables@[t] == pre.tables@[t]);
                    assert(pre.catalog_of(t).wf());
                }
            }
            assert forall|t1: int, t2: int| 0 <= t1 < t2 < self.table_count() implies self.name_of(
                t1,
            ) != self.name_of(t2) by {
                if t2 < pre.table_count() {
                    assert(pre.name_of(t1) != pre.name_of(t2));
                } else {
                    assert(!pre.has_table(self.name_of(t2)));
                    assert(pre.name_of(t1) == self.name_of(t1));
                }
            }
        }
        true
    }

    /// Every registered name, in registration order.
    pub fn get_table_list(&self) -> (r: Vec<String>)
        requires
            self.wf(),
        ensures
            r.deep_view() == self.spec_names(),
    {
        let mut out: Vec<String> = Vec::new();
        let mut t: usize = 0;
        while t < self.tables.len()
            invariant
                t <= self.table_count(),
                out@.len() == t,
                forall|k: int| 0 <= k < t ==> (#[trigger] out@[k])@ == self.name_of(k),
            decreases self.table_count() - t,
        {
            out.push(self.tables[t].name.clone());
            t = t + 1;
        }
        proof {
            assert(out.deep_view() =~= self.spec_names());
        }
        out
    }

    /// Fetch a table's rows, projected to the requested columns. An
    /// unregistered name yields an empty result, never an error; a
    /// registered one triggers a fresh collection pass, whose rows are
    /// then projected.
    pub fn query_table(&mut self, name: &str, columns: &Vec<String>) -> (res: Vec<Vec<Value>>)
        requires
            old(self).wf(),
        ensures
            final(self).wf(),
            old(self).same_tables(*final(self)),
            !old(self).has_table(name@) ==> res@.len() == 0,
            old(self).has_table(name@) ==> fetch_result_ok(
                old(self).catalog_of(old(self).spec_find(name@)),
                columns.deep_view(),
                rows_model(res@),
            ),
    {
        let idx = match self.find_table(name) {
            None => {
                return Vec::new();
            },
            Some(i) => i,
        };
        let ghost pre = *self;
        let mut entry = self.tables.remove(idx);
        proof {
            assert(pre.catalog_of(idx as int).wf());
            assert(entry.catalog == pre.catalog_of(idx as int));
        }
        let rows = entry.collector.get_rows();
        let res = select(&entry.catalog, &rows, columns);
        self.tables.insert(idx, entry);
        proof {
            assert forall|t: int| 0 <= t < self.table_count() implies self.tables@[t].name
                == pre.tables@[t].name && (#[trigger] self.tables@[t]).catalog
                == pre.tables@[t].catalog by {
                if t < idx {
                    assert(self.tables@[t] == pre.tables@[t]);
                } else if t == idx {
                } else {
                    assert(self.tables@[t] == pre.tables@[t]);
                }
            }
            assert(pre.same_tables(*self));
            assert(self.wf());
            assert(rows_model(res@) == select_model(
                pre.catalog_of(idx as int),
                rows@,
                columns.deep_view(),
            ));
            assert(fetch_result_ok(
                pre.catalog_of(idx as int),
                columns.deep_view(),
                rows_model(res@),
            ));
        }
        res
    }

    /// The header a request would get from a table: resolution is
    /// against the catalog alone, so it works for a table with no rows
    /// and costs no collection pass. An unregistered name yields an
    /// empty header.
    pub fn query_header(&self, name: &str, columns: &Vec<String>) -> (res: Vec<String>)
        requires
            self.wf(),
        ensures
            !self.has_table(name@) ==> res@.len() == 0,
            self.has_table(name@) ==> res.deep_view() == header_model(
                self.catalog_of(self.spec_find(name@)),
                columns.deep_view(),
            ),
    {
        match self.find_table(name) {
            None => Vec::new(),
            Some(i) => {
                proof {
                    assert(self.catalog_of(i as int).wf());
                }
                select_header(&self.tables[i].catalog, columns)
            },
        }
    }

    /// The `CREATE TABLE` DDL for a registered table's catalog; an
    /// unregistered name has none.
    pub fn get_schema(&self, name: &str) -> (r: Option<String>)
        requires
            self.wf(),
        ensures
            (match r {
                Some(s) => self.has_table(name@) && s@ == spec_schema(
                    self.catalog_of(self.spec_find(name@)),
                ),
                None => !self.has_table(name@),
            }),
    {
        match self.find_table(name) {
            None => None,
            Some(i) => {
                proof {
                    assert(self.catalog_of(i as int).wf());
                    assert(self.catalog_of(i as int).spec_width() > 0);
                }
                Some(create_schema(&self.tables[i].catalog))
            },
        }
    }
}

} // verus!
