use vstd::prelude::*;
use crate::catalog::ColumnCatalog;
use crate::catalog::cell_model;
use crate::catalog::lemma_bit_id_index;
use crate::catalog::lemma_id_of_bijection;
use crate::catalog::lemma_id_roundtrip;
use crate::value::Value;
use crate::value::ValueModel;
use crate::value::row_model;
use crate::value::rows_model;

verus! {

/// The catalog's column names, in declaration order.
pub open spec fn catalog_names(c: ColumnCatalog) -> Seq<Seq<char>> {
    Seq::new(c.spec_width(), |i: int| c.name_at(i))
}

/// The requested names the catalog knows, in request order: unknown
/// names are dropped, nothing else changes.
pub open spec fn known_names(c: ColumnCatalog, req: Seq<Seq<char>>) -> Seq<Seq<char>> {
    req.filter(|n: Seq<char>| c.has_name(n))
}

/// One row projected to every catalog column, in declaration order.
pub open spec fn row_all_model(c: ColumnCatalog, row: Seq<Value>) -> Seq<ValueModel> {
    Seq::new(c.spec_width(), |i: int| cell_model(row, i))
}

/// One row projected to the known requested columns, in request order.
pub open spec fn project_row_model(c: ColumnCatalog, row: Seq<Value>, req: Seq<Seq<char>>) -> Seq<
    ValueModel,
> {
    known_names(c, req).map_values(|n: Seq<char>| cell_model(row, c.idx_of(n)))
}

/// What projecting every column returns: every row, every column.
pub open spec fn select_all_model(c: ColumnCatalog, rows: Seq<Vec<Value>>) -> Seq<
    Seq<ValueModel>,
> {
    rows.map_values(|r: Vec<Value>| row_all_model(c, r@))
}

/// What projecting a requested-name list returns: with no names
/// requested, every column; otherwise the known requested columns,
/// for every row.
pub open spec fn select_model(
    c: ColumnCatalog,
    rows: Seq<Vec<Value>>,
    req: Seq<Seq<char>>,
) -> Seq<Seq<ValueModel>> {
    if req.len() == 0 {
        select_all_model(c, rows)
    } else {
        rows.map_values(|r: Vec<Value>| project_row_model(c, r@, req))
    }
}

/// The header belonging to a requested-name list: the catalog names
/// when nothing is requested, otherwise the known requested names.
pub open spec fn header_model(c: ColumnCatalog, req: Seq<Seq<char>>) -> Seq<Seq<char>> {
    if req.len() == 0 {
        catalog_names(c)
    } else {
        known_names(c, req)
    }
}

/// A one-element sequence filters to itself or to nothing.
proof fn lemma_filter_one(c: ColumnCatalog, x: Seq<char>)
    ensures
        seq![x].filter(|n: Seq<char>| c.has_name(n)) == if c.has_name(x) {
            seq![x]
        } else {
            Seq::<Seq<char>>::empty()
        },
{
    reveal_with_fuel(Seq::filter, 3);
    let s = seq![x];
    assert(s.drop_last() =~= Seq::<Seq<char>>::empty());
    if c.has_name(x) {
        assert(s.filter(|n: Seq<char>| c.has_name(n)) =~= seq![x]);
    } else {
        assert(s.filter(|n: Seq<char>| c.has_name(n)) =~= Seq::<Seq<char>>::empty());
    }
}

/// Extending the request by one name extends the known names by that
/// name exactly when the catalog knows it.
proof fn lemma_known_names_step(c: ColumnCatalog, req: Seq<Seq<char>>, k: int)
    requires
        0 <= k < req.len(),
    ensures
        known_names(c, req.subrange(0, k + 1)) == if c.has_name(req[k]) {
            known_names(c, req.subrange(0, k)).push(req[k])
        } else {
            known_names(c, req.subrange(0, k))
        },
{
    let pred = |n: Seq<char>| c.has_name(n);
    assert(req.subrange(0, k + 1) =~= req.subrange(0, k) + seq![req[k]]);
    Seq::filter_distributes_over_add(req.subrange(0, k), seq![req[k]], pred);
    lemma_filter_one(c, req[k]);
    if c.has_name(req[k]) {
        assert(req.subrange(0, k).filter(pred) + seq![req[k]] =~= req.subrange(0, k).filter(
            pred,
        ).push(req[k]));
    } else {
        assert(req.subrange(0, k).filter(pred) + Seq::<Seq<char>>::empty() =~= req.subrange(
            0,
            k,
        ).filter(pred));
    }
}

/// Project one row to the cells the given identifiers address, in
/// the identifiers' order.
pub fn project_row(c: &ColumnCatalog, row: &Vec<Value>, ids: &Vec<u64>) -> (res: Vec<Value>)
    requires
        c.wf(),
    ensures
        res@.len() == ids@.len(),
        forall|t: int| 0 <= t < ids@.len() ==> (#[trigger] res@[t])@ == c.spec_value_of(
            row@,
            ids@[t],
        ),
{
    let mut res: Vec<Value> = Vec::new();
    let mut t: usize = 0;
    while t < ids.len()
        invariant
            c.wf(),
            t <= ids@.len(),
            res@.len() == t,
            forall|k: int| 0 <= k < t ==> (#[trigger] res@[k])@ == c.spec_value_of(
                row@,
                ids@[k],
            ),
        decreases ids@.len() - t,
    {
        res.push(c.value_of(row, ids[t]));
        t = t + 1;
    }
    res
}

/// Emit every column of every row, in catalog declaration order.
pub fn select_all(c: &ColumnCatalog, rows: &Vec<Vec<Value>>) -> (res: Vec<Vec<Value>>)
    requires
        c.wf(),
    ensures
        rows_model(res@) == select_all_model(*c, rows@),
{
    let width = c.width();
    let mut ids: Vec<u64> = Vec::new();
    let mut i: usize = 0;
    while i < width
        invariant
            c.wf(),
            width == c.spec_width(),
            i <= width,
            ids@.len() == i,
            forall|k: int| 0 <= k < i ==> ids@[k] == #[trigger] (1u64 << (k as u64)),
        decreases width - i,
    {
        ids.push(1u64 << (i as u64));
        i = i + 1;
    }
    let mut res: Vec<Vec<Value>> = Vec::new();
    let mut j: usize = 0;
    while j < rows.len()
        invariant
            c.wf(),
            ids@.len() == c.spec_width(),
            forall|k: int| 0 <= k < ids@.len() ==> ids@[k] == #[trigger] (1u64 << (k as u64)),
            j <= rows@.len(),
            res@.len() == j,
            forall|p: int| 0 <= p < j ==> row_model((#[trigger] res@[p])@) == row_all_model(
                *c,
                rows@[p]@,
            ),
        decreases rows@.len() - j,
    {
        let r = project_row(c, &rows[j], &ids);
        proof {
            assert forall|t: int| 0 <= t < c.spec_width() implies (#[trigger] r@[t])@
                == cell_model(rows@[j as int]@, t) by {
                lemma_bit_id_index(*c, t);
            }
            assert(row_model(r@) =~= row_all_model(*c, rows@[j as int]@));
        }
        res.push(r);
        j = j + 1;
    }
    proof {
        assert(rows_model(res@) =~= select_all_model(*c, rows@));
    }
    res
}

/// Emit, for every row, one cell per known requested column, in
/// request order; with an empty request, every column. Unknown names
/// are dropped silently: resolution is against the catalog alone, once,
/// never against a particular row.
pub fn select(c: &ColumnCatalog, rows: &Vec<Vec<Value>>, columns: &Vec<String>) -> (res: Vec<
    Vec<Value>,
>)
    requires
        c.wf(),
    ensures
        rows_model(res@) == select_model(*c, rows@, columns.deep_view()),
{
    let ghost req = columns.deep_view();
    if columns.len() < 1 {
        proof {
            assert(req.len() == 0);
        }
        return select_all(c, rows);
    }
    let ghost f = |n: Seq<char>| c.spec_id_of(n);
    let mut ids: Vec<u64> = Vec::new();
    let mut k: usize = 0;
    while k < columns.len()
        invariant
            c.wf(),
            req == columns.deep_view(),
            k <= columns@.len(),
            f == (|n: Seq<char>| c.spec_id_of(n)),
            ids@ == known_names(*c, req.subrange(0, k as int)).map_values(f),
        decreases columns@.len() - k,
    {
        let id = c.id_of(columns[k].as_str());
        proof {
            assert(req[k as int] == columns@[k as int]@);
            lemma_known_names_step(*c, req, k as int);
        }
        if id != 0 {
            ids.push(id);
            proof {
                assert(c.has_name(req[k as int]));
                assert(ids@ =~= known_names(*c, req.subrange(0, k as int + 1)).map_values(f));
            }
        } else {
            proof {
                lemma_id_of_bijection(*c);
                assert(!c.has_name(req[k as int]));
                assert(ids@ =~= known_names(*c, req.subrange(0, k as int + 1)).map_values(f));
            }
        }
        k = k + 1;
    }
    proof {
        assert(req.subrange(0, req.len() as int) =~= req);
    }
    let ghost kn = known_names(*c, req);
    let mut res: Vec<Vec<Value>> = Vec::new();
    let mut j: usize = 0;
    while j < rows.len()
        invariant
            c.wf(),
            req == columns.deep_view(),
            req.len() > 0,
            f == (|n: Seq<char>| c.spec_id_of(n)),
            kn == known_names(*c, req),
            ids@ == kn.map_values(f),
            j <= rows@.len(),
            res@.len() == j,
            forall|p: int| 0 <= p < j ==> row_model((#[trigger] res@[p])@) == project_row_model(
                *c,
                rows@[p]@,
                req,
            ),
        decreases rows@.len() - j,
    {
        let r = project_row(c, &rows[j], &ids);
        proof {
            assert forall|t: int| 0 <= t < kn.len() implies (#[trigger] r@[t])@ == cell_model(
                rows@[j as int]@,
                c.idx_of(kn[t]),
            ) by {
                req.lemma_filter_pred(|n: Seq<char>| c.has_name(n), t);
                assert(c.has_name(kn[t]));
                assert(ids@[t] == c.spec_id_of(kn[t]));
                lemma_id_roundtrip(*c, kn[t]);
            }
            assert(row_model(r@) =~= project_row_model(*c, rows@[j as int]@, req));
        }
        res.push(r);
        j = j + 1;
    }
    proof {
        assert(rows_model(res@) =~= select_model(*c, rows@, req));
    }
    res
}

/// The header for a requested-name list: the known requested names in
/// request order, or every catalog name when nothing is requested.
/// Resolution is against the catalog alone, so a table with no rows
/// still gets its header.
pub fn select_header(c: &ColumnCatalog, columns: &Vec<String>) -> (res: Vec<String>)
    requires
        c.wf(),
    ensures
        res.deep_view() == header_model(*c, columns.deep_view()),
{
    let ghost req = columns.deep_view();
    let mut hdr: Vec<String> = Vec::new();
    if columns.len() < 1 {
        let mut i: usize = 0;
        while i < c.names.len()
            invariant
                c.wf(),
                i <= c.spec_width(),
                hdr@.len() == i,
                forall|k: int| 0 <= k < i ==> (#[trigger] hdr@[k])@ == c.name_at(k),
            decreases c.spec_width() - i,
        {
            hdr.push(c.names[i].clone());
            i = i + 1;
        }
        proof {
            assert(hdr.deep_view() =~= catalog_names(*c));
        }
        return hdr;
    }
    let mut k: usize = 0;
    while k < columns.len()
        invariant
            c.wf(),
            req == columns.deep_view(),
            k <= columns@.len(),
            hdr.deep_view() == known_names(*c, req.subrange(0, k as int)),
        decreases columns@.len() - k,
    {
        let id = c.id_of(columns[k].as_str());
        proof {
            assert(req[k as int] == columns@[k as int]@);
            lemma_known_names_step(*c, req, k as int);
        }
        if id != 0 {
            hdr.push(columns[k].clone());
            proof {
                assert(c.has_name(req[k as int]));
                assert(hdr.deep_view() =~= known_names(*c, req.subrange(0, k as int + 1)));
            }
        } else {
            proof {
                lemma_id_of_bijection(*c);
                assert(!c.has_name(req[k as int]));
                assert(hdr.deep_view() =~= known_names(*c, req.subrange(0, k as int + 1)));
            }
        }
        k = k + 1;
    }
    proof {
        assert(req.subrange(0, req.len() as int) =~= req);
    }
    hdr
}

/// Projecting every column keeps every row, and gives each projected
/// row one cell per catalog column, in declaration order.
pub proof fn lemma_project_all_shape(c: ColumnCatalog, rows: Seq<Vec<Value>>)
    requires
        c.wf(),
    ensures
        select_all_model(c, rows).len() == rows.len(),
        forall|j: int| 0 <= j < rows.len() ==> (#[trigger] select_all_model(c, rows)[j]).len()
            == c.spec_width(),
        forall|j: int, i: int|
            0 <= j < rows.len() && 0 <= i < c.spec_width() ==> select_all_model(c, rows)[j][i]
                == cell_model(rows[j]@, i),
{
}

/// A request with unknown names loses exactly those names: every
/// projected row has one cell per known requested name, and the header
/// is the known requested names in their request order.
pub proof fn lemma_unknown_names_dropped(
    c: ColumnCatalog,
    rows: Seq<Vec<Value>>,
    req: Seq<Seq<char>>,
)
    requires
        c.wf(),
        req.len() > 0,
    ensures
        header_model(c, req) == known_names(c, req),
        select_model(c, rows, req).len() == rows.len(),
        forall|j: int| 0 <= j < rows.len() ==> (#[trigger] select_model(c, rows, req)[j]).len()
            == known_names(c, req).len(),
        forall|t: int| 0 <= t < known_names(c, req).len() ==> c.has_name(
            #[trigger] known_names(c, req)[t],
        ),
{
    assert forall|t: int| 0 <= t < known_names(c, req).len() implies c.has_name(
        #[trigger] known_names(c, req)[t],
    ) by {
        req.lemma_filter_pred(|n: Seq<char>| c.has_name(n), t);
    }
}

/// An empty requested-name list asks for everything: projection and
/// header agree with the full-catalog forms.
pub proof fn lemma_empty_request(c: ColumnCatalog, rows: Seq<Vec<Value>>)
    requires
        c.wf(),
    ensures
        select_model(c, rows, Seq::<Seq<char>>::empty()) == select_all_model(c, rows),
        header_model(c, Seq::<Seq<char>>::empty()) == catalog_names(c),
{
}

} // verus!
