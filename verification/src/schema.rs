use vstd::prelude::*;
use crate::catalog::ColumnCatalog;
use crate::projection::catalog_names;

verus! {

/// The catalog's SQL type strings, in declaration order.
pub open spec fn catalog_types(c: ColumnCatalog) -> Seq<Seq<char>> {
    Seq::new(c.spec_width(), |i: int| c.type_at(i))
}

/// One column of the DDL: the name in double quotes, then the type
/// string verbatim, with no separator of its own.
pub open spec fn spec_column_ddl(c: ColumnCatalog, i: int) -> Seq<char> {
    ("\"")@ + c.name_at(i) + ("\"")@ + c.type_at(i)
}

/// The first `n` columns of the DDL, joined by a comma and a space.
pub open spec fn spec_columns_ddl(c: ColumnCatalog, n: int) -> Seq<char>
    decreases n,
{
    if n <= 0 {
        Seq::<char>::empty()
    } else if n == 1 {
        spec_column_ddl(c, 0)
    } else {
        spec_columns_ddl(c, n - 1) + (", ")@ + spec_column_ddl(c, n - 1)
    }
}

/// The whole DDL statement for a catalog.
pub open spec fn spec_schema(c: ColumnCatalog) -> Seq<char> {
    ("CREATE TABLE x(")@ + spec_columns_ddl(c, c.spec_width() as int) + (");")@
}

/// Render the `CREATE TABLE` DDL for a catalog. A catalog with no
/// columns has no valid DDL, so emptiness is a precondition, not a
/// silently malformed string.
pub fn create_schema(c: &ColumnCatalog) -> (r: String)
    requires
        c.wf(),
        c.spec_width() > 0,
    ensures
        r@ == spec_schema(*c),
{
    let mut sql = String::new();
    sql.append("CREATE TABLE x(");
    let width = c.width();
    let mut i: usize = 0;
    while i < width
        invariant
            c.wf(),
            width == c.spec_width(),
            i <= width,
            sql@ == ("CREATE TABLE x(")@ + spec_columns_ddl(*c, i as int),
        decreases width - i,
    {
        if i > 0 {
            sql.append(", ");
        }
        sql.append("\"");
        sql.append(c.names[i].as_str());
        sql.append("\"");
        sql.append(c.types[i].as_str());
        proof {
            assert(sql@ =~= ("CREATE TABLE x(")@ + spec_columns_ddl(*c, i as int + 1));
        }
        i = i + 1;
    }
    sql.append(");");
    proof {
        assert(sql@ =~= spec_schema(*c));
    }
    sql
}

/// The DDL depends on the column names and types alone: two catalogs
/// that agree on them get the same string, whatever else differs.
pub proof fn lemma_schema_deterministic(c1: ColumnCatalog, c2: ColumnCatalog)
    requires
        catalog_names(c1) == catalog_names(c2),
        catalog_types(c1) == catalog_types(c2),
    ensures
        spec_schema(c1) == spec_schema(c2),
{
    assert(catalog_names(c1).len() == c1.spec_width());
    assert(catalog_names(c2).len() == c2.spec_width());
    lemma_columns_ddl_deterministic(c1, c2, c1.spec_width() as int);
}

proof fn lemma_columns_ddl_deterministic(c1: ColumnCatalog, c2: ColumnCatalog, n: int)
    requires
        catalog_names(c1) == catalog_names(c2),
        catalog_types(c1) == catalog_types(c2),
        n <= c1.spec_width(),
        c1.spec_width() == c2.spec_width(),
    ensures
        spec_columns_ddl(c1, n) == spec_columns_ddl(c2, n),
    decreases n,
{
    if n > 0 {
        lemma_columns_ddl_deterministic(c1, c2, n - 1);
        assert(c1.name_at(n - 1) == catalog_names(c1)[n - 1]);
        assert(c2.name_at(n - 1) == catalog_names(c2)[n - 1]);
        assert(c1.type_at(n - 1) == catalog_types(c1)[n - 1]);
        assert(c2.type_at(n - 1) == catalog_types(c2)[n - 1]);
        if n == 1 {
            assert(spec_column_ddl(c1, 0) == spec_column_ddl(c2, 0));
        }
    }
}

} // verus!
