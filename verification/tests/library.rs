use siquery::bridge::{registration_sql, select_star, version_supported, CursorState};
use siquery::catalog::ColumnCatalog;
use siquery::interface_details::InterfaceDetails;
use siquery::projection::{select, select_all, select_header};
use siquery::registry::{StaticCollector, TableRegistry};
use siquery::sqltext::extract_table_name;
use siquery::value::Value;

fn strings(items: &[&str]) -> Vec<String> {
    items.iter().map(|s| s.to_string()).collect()
}

fn abc_catalog() -> ColumnCatalog {
    ColumnCatalog::new(strings(&["a", "b", "c"]), strings(&[" TEXT", " TEXT", " TEXT"])).unwrap()
}

fn abc_row(a: i64, b: i64, c: i64) -> Vec<Value> {
    vec![Value::Integer(a), Value::Integer(b), Value::Integer(c)]
}

#[test]
fn id_of_is_injective_and_sentinel_on_unknown() {
    let cat = abc_catalog();
    let ia = cat.id_of("a");
    let ib = cat.id_of("b");
    let ic = cat.id_of("c");
    assert_eq!(ia, 1);
    assert_eq!(ib, 2);
    assert_eq!(ic, 4);
    assert_ne!(ia, ib);
    assert_ne!(ib, ic);
    assert_ne!(ia, ic);
    assert_eq!(cat.id_of("nonexistent"), 0);
    assert_eq!(cat.id_of("A"), 0, "matching is case-sensitive");
}

#[test]
fn catalog_rejects_misshapen_input() {
    assert!(ColumnCatalog::new(strings(&["a", "b"]), strings(&[" TEXT"])).is_none());
    assert!(ColumnCatalog::new(strings(&["a", "a"]), strings(&[" TEXT", " TEXT"])).is_none());
    let many: Vec<String> = (0..65).map(|i| format!("c{}", i)).collect();
    let types: Vec<String> = (0..65).map(|_| " TEXT".to_string()).collect();
    assert!(ColumnCatalog::new(many, types).is_none());
}

#[test]
fn value_of_pads_and_rejects_foreign_ids() {
    let cat = abc_catalog();
    let row = vec![Value::Integer(7)];
    assert_eq!(cat.value_of(&row, 1), Value::Integer(7));
    // column exists in the catalog but the row is too short
    assert_eq!(cat.value_of(&row, 4), Value::Null);
    // identifier of no column of this catalog
    assert_eq!(cat.value_of(&row, 8), Value::Null);
    assert_eq!(cat.value_of(&row, 0), Value::Null);
}

#[test]
fn project_all_single_row_has_catalog_width() {
    let cat = abc_catalog();
    let rows = vec![abc_row(1, 2, 3)];
    let out = select_all(&cat, &rows);
    assert_eq!(out.len(), 1);
    assert_eq!(out[0].len(), 3);
    assert_eq!(out[0], abc_row(1, 2, 3));
}

#[test]
fn unknown_requested_names_are_dropped_in_order() {
    let cat = abc_catalog();
    let rows = vec![abc_row(1, 2, 3), abc_row(4, 5, 6)];
    let req = strings(&["c", "z", "a"]);
    let hdr = select_header(&cat, &req);
    assert_eq!(hdr, strings(&["c", "a"]));
    let out = select(&cat, &rows, &req);
    assert_eq!(out, vec![
        vec![Value::Integer(3), Value::Integer(1)],
        vec![Value::Integer(6), Value::Integer(4)],
    ]);
}

#[test]
fn empty_request_means_every_column() {
    let cat = abc_catalog();
    let rows = vec![abc_row(1, 2, 3)];
    let empty: Vec<String> = Vec::new();
    assert_eq!(select(&cat, &rows, &empty), select_all(&cat, &rows));
    assert_eq!(select_header(&cat, &empty), strings(&["a", "b", "c"]));
    // a table with zero rows still resolves names and yields a header
    let none: Vec<Vec<Value>> = Vec::new();
    assert_eq!(select(&cat, &none, &empty), Vec::<Vec<Value>>::new());
    assert_eq!(select_header(&cat, &empty), strings(&["a", "b", "c"]));
}

fn demo_registry() -> TableRegistry<StaticCollector> {
    let mut reg = TableRegistry::new();
    let processes = ColumnCatalog::new(
        strings(&["pid", "name"]),
        strings(&[" INTEGER", " TEXT"]),
    )
    .unwrap();
    let rows = vec![
        vec![Value::Integer(1), Value::Text("init".to_string())],
        vec![Value::Integer(42), Value::Text("worker".to_string())],
    ];
    let coll = StaticCollector { rows };
    assert!(reg.register("processes".to_string(), processes, coll));
    let iface = ColumnCatalog::new(
        strings(&["interface", "mac", "mtu", "enabled"]),
        strings(&[" TEXT", " TEXT", " INTEGER", " INTEGER"]),
    )
    .unwrap();
    let empty = StaticCollector { rows: Vec::new() };
    assert!(reg.register("interface_details".to_string(), iface, empty));
    reg
}

#[test]
fn unknown_table_yields_empty_never_fails() {
    let mut reg = demo_registry();
    let cols = strings(&["anything"]);
    assert_eq!(reg.query_table("no_such_table", &cols), Vec::<Vec<Value>>::new());
    assert_eq!(reg.query_header("no_such_table", &cols), Vec::<String>::new());
    assert_eq!(reg.get_schema("no_such_table"), None);
}

#[test]
fn degraded_collector_still_answers_with_no_rows() {
    let mut reg = demo_registry();
    let empty: Vec<String> = Vec::new();
    let out = reg.query_table("interface_details", &empty);
    assert_eq!(out, Vec::<Vec<Value>>::new());
    // the healthy table is untouched by the degraded one
    let out = reg.query_table("processes", &empty);
    assert_eq!(out.len(), 2);
    let hdr = reg.query_header("interface_details", &empty);
    assert_eq!(hdr, strings(&["interface", "mac", "mtu", "enabled"]));
}

#[test]
fn duplicate_or_malformed_registration_fails() {
    let mut reg = demo_registry();
    let cat = abc_catalog();
    let coll = StaticCollector { rows: Vec::new() };
    assert!(!reg.register("processes".to_string(), cat, coll));
    // an empty catalog has no valid DDL and is refused
    let empty_cat = ColumnCatalog::new(Vec::new(), Vec::new()).unwrap();
    let none = StaticCollector { rows: Vec::new() };
    assert!(!reg.register("hollow".to_string(), empty_cat, none));
    assert_eq!(reg.get_table_list(), strings(&["processes", "interface_details"]));
}

#[test]
fn header_through_registry_drops_unknown_names() {
    let reg = demo_registry();
    let hdr = reg.query_header("processes", &strings(&["name", "zzz"]));
    assert_eq!(hdr, strings(&["name"]));
}

#[test]
fn table_list_keeps_registration_order() {
    let reg = demo_registry();
    assert_eq!(reg.get_table_list(), strings(&["processes", "interface_details"]));
}

#[test]
fn schema_matches_expected_bytes() {
    let reg = demo_registry();
    let ddl = reg.get_schema("processes").unwrap();
    assert_eq!(ddl, "CREATE TABLE x(\"pid\" INTEGER, \"name\" TEXT);");
}

#[test]
fn schema_is_deterministic_across_calls() {
    let reg = demo_registry();
    let first = reg.get_schema("processes").unwrap();
    let second = reg.get_schema("processes").unwrap();
    let third = reg.get_schema("processes").unwrap();
    assert_eq!(first, second);
    assert_eq!(second, third);
}

#[test]
fn select_star_roundtrips_through_the_cursor_protocol() {
    let mut reg = demo_registry();
    let empty: Vec<String> = Vec::new();
    let fetched = reg.query_table("processes", &empty);
    let scanned = select_star(&mut reg, "processes");
    assert_eq!(scanned, fetched);
    assert_eq!(scanned, vec![
        vec![Value::Integer(1), Value::Text("init".to_string())],
        vec![Value::Integer(42), Value::Text("worker".to_string())],
    ]);
}

#[test]
fn cursor_protocol_step_by_step() {
    let mut reg = demo_registry();
    let mut cur = CursorState::open();
    assert!(cur.eof());
    cur.filter(&mut reg, "processes");
    assert!(!cur.eof());
    assert_eq!(cur.column(0), Value::Integer(1));
    assert_eq!(cur.column(1), Value::Text("init".to_string()));
    assert_eq!(cur.column(9), Value::Null);
    cur.next();
    assert!(!cur.eof());
    assert_eq!(cur.column(0), Value::Integer(42));
    cur.next();
    assert!(cur.eof());
}

#[test]
fn uptime_scenario() {
    let mut reg = TableRegistry::new();
    let cat = ColumnCatalog::new(strings(&["seconds"]), strings(&[" INTEGER"])).unwrap();
    let coll = StaticCollector { rows: vec![vec![Value::Integer(120)]] };
    assert!(reg.register("uptime".to_string(), cat, coll));
    let table = extract_table_name("SELECT seconds FROM uptime").unwrap();
    assert_eq!(table, "uptime");
    let out = reg.query_table(&table, &strings(&["seconds"]));
    assert_eq!(out, vec![vec![Value::Integer(120)]]);
}

#[test]
fn extract_table_name_scenarios() {
    assert_eq!(
        extract_table_name("SELECT a, b FROM processes WHERE pid=1").as_deref(),
        Some("processes")
    );
    assert_eq!(extract_table_name("UPDATE x SET y=1"), None);
}

#[test]
fn extract_table_name_edges() {
    assert_eq!(extract_table_name("SeLeCt x FrOm MixedCase").as_deref(), Some("MixedCase"));
    assert_eq!(extract_table_name("select * from"), None, "nothing follows the keyword");
    assert_eq!(
        extract_table_name("select x from a from b").as_deref(),
        Some("b"),
        "the last occurrence wins"
    );
    assert_eq!(extract_table_name(""), None);
    assert_eq!(extract_table_name("   "), None);
    assert_eq!(extract_table_name("select x where y"), None, "no from token");
    assert_eq!(
        extract_table_name("  SELECT a FROM t  ").as_deref(),
        Some("t"),
        "surrounding whitespace is immaterial"
    );
}

#[test]
fn registration_statement_bytes() {
    assert_eq!(
        registration_sql("uptime"),
        "CREATE VIRTUAL TABLE uptime USING siquery(table_name=uptime)"
    );
}

#[test]
fn version_gate() {
    assert!(!version_supported(3008011));
    assert!(version_supported(3008012));
    assert!(version_supported(3045000));
}

#[test]
fn interface_details_defaults_and_stub() {
    let d = InterfaceDetails::new();
    assert_eq!(d.interface, "");
    assert_eq!(d.mac, "");
    assert_eq!(d.mtu, 1500);
    assert_eq!(d.enabled, 1);
    assert!(InterfaceDetails::get_interfaces().is_empty());
}

#[test]
fn real_and_blob_cells_survive_projection() {
    let cat = ColumnCatalog::new(strings(&["r", "b"]), strings(&[" REAL", " BLOB"])).unwrap();
    let bits = 1.5f64.to_bits();
    let rows = vec![vec![Value::Real(bits), Value::Blob(vec![1, 2, 3])]];
    let out = select(&cat, &rows, &strings(&["b", "r"]));
    assert_eq!(out, vec![vec![Value::Blob(vec![1, 2, 3]), Value::Real(bits)]]);
    assert_eq!(f64::from_bits(bits), 1.5);
}
