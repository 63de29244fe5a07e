use flatlite::db::{
    count_rows_sql, create_order_index_sql, create_table_sql, groups_sql, insert_row_sql,
    related_title_sql, QueryBuilder, WhereBuilder,
};
use rusqlite::types::Value;

#[test]
fn test_query_builder() {
    let conn = rusqlite::Connection::open_in_memory().unwrap();

    let _ = conn.execute("CREATE TABLE test (thing INT, blah INTEGER)", []).unwrap();
    let _ = conn.execute("INSERT INTO test (thing, blah) VALUES (1, 2)", []).unwrap();
    let _ = conn.execute("INSERT INTO test (thing, blah) VALUES (10, 20)", []).unwrap();

    let builder = QueryBuilder::with("SELECT *, rowid FROM test")
        .add_where(
            &WhereBuilder::with("thing = ?")
                .param(Value::Integer(10))
                .and("blah = ?")
                .param(Value::Integer(20)),
        )
        .add("LIMIT 10");

    assert_eq!(
        builder.as_query(),
        "SELECT *, rowid FROM test WHERE (thing = ?) AND (blah = ?) LIMIT 10"
    );

    let mut stmt = conn.prepare(&builder.as_query()).unwrap();
    let result: i32 = stmt.query_row(builder.params_iter(), |row| row.get(0)).unwrap();

    assert_eq!(result, 10);
}

#[test]
fn where_builder_without_clauses_is_empty() {
    let w = WhereBuilder::new();
    assert_eq!(w.as_query(), "");
    assert!(w.param_values().is_empty());
}

#[test]
fn where_builder_joins_clauses() {
    let w = WhereBuilder::new().or("a = 1").and("b = 2").or("c = 3");
    assert_eq!(w.as_query(), "WHERE (a = 1) AND (b = 2) OR (c = 3)");
    let w = WhereBuilder::with("x");
    assert_eq!(w.as_query(), "WHERE (x)");
}

#[test]
fn where_builder_keeps_params_in_order() {
    let w = WhereBuilder::with("a = ?")
        .params(&[Value::Integer(1), Value::Text("two".to_string())])
        .param(Value::Null);
    assert_eq!(
        w.param_values(),
        &vec![Value::Integer(1), Value::Text("two".to_string()), Value::Null]
    );
    let c = w.clone();
    assert_eq!(c.as_query(), w.as_query());
    assert_eq!(c.param_values(), w.param_values());
}

#[test]
fn adding_a_clause_extends_the_where_text() {
    let w = WhereBuilder::with("a");
    let before = w.as_query();
    let after = w.or("b").as_query();
    assert_eq!(after, format!("{} OR (b)", before));
}

#[test]
fn query_builder_collects_params_of_where_and_own() {
    let q = QueryBuilder::with("SELECT 1")
        .param(Value::Integer(1))
        .add_where(&WhereBuilder::new())
        .params(&[Value::Integer(2)])
        .add_where(&WhereBuilder::with("x = ?").param(Value::Integer(3)));
    // An empty WHERE part leaves an empty part, and so a doubled space.
    assert_eq!(q.as_query(), "SELECT 1  WHERE (x = ?)");
    assert_eq!(
        q.param_values(),
        &vec![Value::Integer(1), Value::Integer(2), Value::Integer(3)]
    );
}

#[test]
fn table_creation_statements() {
    let headers = vec!["id".to_string(), "title".to_string()];
    assert_eq!(
        create_table_sql("todo", &headers),
        "CREATE TABLE todo (__order INTEGER, id TEXT, title TEXT)"
    );
    assert_eq!(
        create_order_index_sql("todo"),
        "CREATE INDEX todo_order_idx ON todo (__order)"
    );
    assert_eq!(
        insert_row_sql("todo", &headers, 7, 2),
        "INSERT INTO todo (__order, id, title) VALUES (7, ?,?)"
    );
    assert_eq!(
        insert_row_sql("todo", &headers, -12, 1),
        "INSERT INTO todo (__order, id, title) VALUES (-12, ?)"
    );
}

#[test]
fn lookup_statements() {
    assert_eq!(groups_sql("todo", "status"), "SELECT status FROM todo GROUP BY status");
    assert_eq!(
        related_title_sql("milestone", "id", "title"),
        "SELECT title FROM milestone WHERE id = ?"
    );
    assert_eq!(count_rows_sql("todo"), "SELECT COUNT(*) FROM todo");
}

#[test]
fn statements_run_on_sqlite() {
    let conn = rusqlite::Connection::open_in_memory().unwrap();
    let headers = vec!["id".to_string(), "title".to_string()];
    conn.execute(&create_table_sql("todo", &headers), []).unwrap();
    conn.execute(&create_order_index_sql("todo"), []).unwrap();
    conn.execute(
        &insert_row_sql("todo", &headers, 0, 2),
        rusqlite::params_from_iter(["a", "first"].iter()),
    )
    .unwrap();
    conn.execute(
        &insert_row_sql("todo", &headers, 1, 2),
        rusqlite::params_from_iter(["b", "second"].iter()),
    )
    .unwrap();
    let count: i64 = conn.query_row(&count_rows_sql("todo"), [], |r| r.get(0)).unwrap();
    assert_eq!(count, 2);
    let title: String = conn
        .query_row(&related_title_sql("todo", "id", "title"), ["b"], |r| r.get(0))
        .unwrap();
    assert_eq!(title, "second");
}

#[test]
fn csv_text_becomes_load_statements() {
    let statements = match flatlite::ingest::csv_load_statements("todo", b"id,title\nt1,first\nt2,\"second, quoted\"\n") {
        Ok(s) => s,
        Err(_) => panic!("the CSV text must parse"),
    };
    assert_eq!(statements.len(), 4);
    assert_eq!(statements[0].sql, "CREATE TABLE todo (__order INTEGER, id TEXT, title TEXT)");
    assert!(statements[0].params.is_empty());
    assert_eq!(statements[1].sql, "CREATE INDEX todo_order_idx ON todo (__order)");
    assert_eq!(statements[2].sql, "INSERT INTO todo (__order, id, title) VALUES (0, ?,?)");
    assert_eq!(statements[2].params, vec!["t1", "first"]);
    assert_eq!(statements[3].sql, "INSERT INTO todo (__order, id, title) VALUES (1, ?,?)");
    assert_eq!(statements[3].params, vec!["t2", "second, quoted"]);

    let conn = rusqlite::Connection::open_in_memory().unwrap();
    for s in &statements {
        conn.execute(&s.sql, rusqlite::params_from_iter(s.params.iter())).unwrap();
    }
    let title: String = conn
        .query_row("SELECT title FROM todo WHERE __order = 1", [], |r| r.get(0))
        .unwrap();
    assert_eq!(title, "second, quoted");
}

#[test]
fn csv_errors_are_reported() {
    // a record with fewer fields than the header
    assert!(flatlite::ingest::csv_load_statements("t", b"a,b\n1\n").is_err());
    // a header alone loads an empty table
    match flatlite::ingest::csv_load_statements("t", b"a,b\n") {
        Ok(s) => assert_eq!(s.len(), 2),
        Err(_) => panic!("a header alone is a valid CSV text"),
    }
}

#[test]
fn written_csv_reads_back() {
    let header = vec!["id".to_string(), "title".to_string()];
    let rows = vec![
        vec!["1".to_string(), "plain".to_string()],
        vec!["2".to_string(), "with, comma and \"quotes\"".to_string()],
    ];
    let bytes = match flatlite::ingest::csv_file_text(&header, &rows) {
        Ok(b) => b,
        Err(_) => panic!("the records must be written"),
    };
    assert_eq!(
        String::from_utf8(bytes.clone()).unwrap(),
        "id,title\n1,plain\n2,\"with, comma and \"\"quotes\"\"\"\n"
    );
    let statements = match flatlite::ingest::csv_load_statements("t", &bytes) {
        Ok(s) => s,
        Err(_) => panic!("the text must read back"),
    };
    assert_eq!(statements[2].params, rows[0]);
    assert_eq!(statements[3].params, rows[1]);
    // records of unequal length are refused by the writer
    let ragged = vec![vec!["1".to_string()]];
    assert!(flatlite::ingest::csv_file_text(&header, &ragged).is_err());
}
