use dbcooper::sql::{
    build_delete_statement, build_insert_statement, build_update_statement,
    escape_sql_identifier, escape_sql_text, format_sql_value, quoted_ident, sql_number,
    table_ref, validate_raw_sql_value, FieldValue, MutationError, MutationField, SqlValue,
};

fn typed(column: &str, value: SqlValue) -> MutationField {
    MutationField {
        column: column.to_string(),
        value: FieldValue::Typed(value),
    }
}

fn raw(column: &str, fragment: &str) -> MutationField {
    MutationField {
        column: column.to_string(),
        value: FieldValue::Raw(fragment.to_string()),
    }
}

#[test]
fn escaping_doubles_double_quotes() {
    assert_eq!(escape_sql_identifier("users"), "users");
    assert_eq!(escape_sql_identifier("we\"ird"), "we\"\"ird");
    assert_eq!(escape_sql_identifier("\"\""), "\"\"\"\"");
    assert_eq!(escape_sql_identifier(""), "");
}

#[test]
fn escaping_doubles_single_quotes_in_text() {
    assert_eq!(escape_sql_text("O'Brien"), "O''Brien");
    assert_eq!(escape_sql_text("no quotes"), "no quotes");
}

#[test]
fn quoted_identifier_never_leaves_a_lone_quote() {
    // A table name carrying a double quote is neutralized before it is
    // spliced into a double-quoted segment.
    let q = quoted_ident("users\" WHERE 1=1 --");
    assert_eq!(q, "\"users\"\" WHERE 1=1 --\"");
    let inner = &q[1..q.len() - 1];
    assert!(!inner.replace("\"\"", "").contains('"'));
}

#[test]
fn table_ref_is_single_segment_for_sqlite() {
    assert_eq!(table_ref("sqlite", "main", "users"), "\"users\"");
    assert_eq!(table_ref("sqlite3", "main", "users"), "\"users\"");
    assert_eq!(table_ref("postgres", "public", "users"), "\"public\".\"users\"");
    assert_eq!(table_ref("clickhouse", "default", "t"), "\"default\".\"t\"");
}

#[test]
fn values_are_rendered_through_the_typed_formatter() {
    assert_eq!(format_sql_value(&SqlValue::Null), "NULL");
    assert_eq!(format_sql_value(&SqlValue::Bool(true)), "true");
    assert_eq!(format_sql_value(&SqlValue::Bool(false)), "false");
    assert_eq!(format_sql_value(&SqlValue::Int(0)), "0");
    assert_eq!(format_sql_value(&SqlValue::Int(12345)), "12345");
    assert_eq!(format_sql_value(&SqlValue::Int(-42)), "-42");
    assert_eq!(
        format_sql_value(&SqlValue::Int(i64::MIN)),
        "-9223372036854775808"
    );
    assert_eq!(
        format_sql_value(&SqlValue::Int(i64::MAX)),
        "9223372036854775807"
    );
    assert_eq!(
        format_sql_value(&SqlValue::Text("O'Brien".to_string())),
        "'O''Brien'"
    );
    let num = sql_number("3.25e-1").expect("numeric literal");
    assert_eq!(format_sql_value(&num), "3.25e-1");
}

#[test]
fn numeric_literals_are_checked_by_their_characters() {
    assert!(sql_number("3.14").is_some());
    assert!(sql_number("-2E+8").is_some());
    assert!(sql_number("").is_none());
    assert!(sql_number("1; DROP TABLE x").is_none());
    assert!(sql_number("12'3").is_none());
}

#[test]
fn raw_fragments_pass_or_are_rejected_before_sql_is_built() {
    assert!(validate_raw_sql_value("NOW()", "postgres").is_ok());
    assert!(validate_raw_sql_value("CURRENT_TIMESTAMP", "sqlite").is_ok());
    let term = validate_raw_sql_value("NOW(); DROP TABLE users", "postgres");
    assert_eq!(term.unwrap_err(), "contains a statement terminator");
    let line = validate_raw_sql_value("1 -- comment", "postgres");
    assert_eq!(line.unwrap_err(), "contains a line comment");
    let block = validate_raw_sql_value("1 /* comment */", "postgres");
    assert_eq!(block.unwrap_err(), "contains a block comment");
}

#[test]
fn update_round_trip_binds_key_and_escapes_apostrophe() {
    let fields = vec![
        typed("id", SqlValue::Int(1)),
        typed("name", SqlValue::Text("O'Brien".to_string())),
    ];
    let pk_columns = vec!["id".to_string()];
    let pk_values = vec![SqlValue::Int(1)];
    let sql = build_update_statement("postgres", "public", "users", &fields, &pk_columns, &pk_values)
        .expect("statement");
    assert_eq!(
        sql,
        "UPDATE \"public\".\"users\" SET \"id\" = 1, \"name\" = 'O''Brien' WHERE \"id\" = 1"
    );
}

#[test]
fn update_on_sqlite_uses_a_single_segment_table() {
    let fields = vec![typed("name", SqlValue::Text("x".to_string()))];
    let pk_columns = vec!["id".to_string()];
    let pk_values = vec![SqlValue::Int(7)];
    let sql = build_update_statement("sqlite", "main", "people", &fields, &pk_columns, &pk_values)
        .expect("statement");
    assert_eq!(sql, "UPDATE \"people\" SET \"name\" = 'x' WHERE \"id\" = 7");
}

#[test]
fn update_quotes_a_table_name_carrying_a_double_quote() {
    let fields = vec![typed("a", SqlValue::Int(1))];
    let pk_columns = vec!["id".to_string()];
    let pk_values = vec![SqlValue::Int(1)];
    let sql = build_update_statement("sqlite", "", "us\"ers", &fields, &pk_columns, &pk_values)
        .expect("statement");
    assert_eq!(sql, "UPDATE \"us\"\"ers\" SET \"a\" = 1 WHERE \"id\" = 1");
}

#[test]
fn update_requires_matching_key_columns_and_values() {
    let fields = vec![typed("a", SqlValue::Int(1))];
    let r = build_update_statement(
        "postgres",
        "public",
        "t",
        &fields,
        &vec![],
        &vec![],
    );
    assert!(matches!(r, Err(MutationError::KeyMismatch)));
    let r = build_update_statement(
        "postgres",
        "public",
        "t",
        &fields,
        &vec!["id".to_string()],
        &vec![SqlValue::Int(1), SqlValue::Int(2)],
    );
    assert!(matches!(r, Err(MutationError::KeyMismatch)));
    assert_eq!(
        MutationError::KeyMismatch.message(),
        "Primary key columns and values must match"
    );
}

#[test]
fn update_requires_at_least_one_field() {
    let r = build_update_statement(
        "postgres",
        "public",
        "t",
        &vec![],
        &vec!["id".to_string()],
        &vec![SqlValue::Int(1)],
    );
    assert!(matches!(r, Err(MutationError::NoUpdates)));
    assert_eq!(MutationError::NoUpdates.message(), "No updates provided");
}

#[test]
fn flagged_raw_value_passes_through_verbatim_when_valid() {
    let fields = vec![raw("created_at", "NOW()")];
    let pk_columns = vec!["id".to_string()];
    let pk_values = vec![SqlValue::Int(3)];
    let sql = build_update_statement("postgres", "public", "t", &fields, &pk_columns, &pk_values)
        .expect("statement");
    assert_eq!(
        sql,
        "UPDATE \"public\".\"t\" SET \"created_at\" = NOW() WHERE \"id\" = 3"
    );
}

#[test]
fn flagged_raw_value_with_terminator_is_rejected_before_any_sql() {
    let fields = vec![raw("created_at", "NOW(); DELETE FROM t")];
    let pk_columns = vec!["id".to_string()];
    let pk_values = vec![SqlValue::Int(3)];
    let r = build_update_statement("postgres", "public", "t", &fields, &pk_columns, &pk_values);
    match r {
        Err(MutationError::InvalidRaw(m)) => {
            assert_eq!(m, "contains a statement terminator");
            assert_eq!(
                MutationError::InvalidRaw(m).message(),
                "Invalid raw SQL value: contains a statement terminator"
            );
        }
        _ => panic!("expected a rejected raw fragment"),
    }
}

#[test]
fn delete_builds_an_and_joined_key_predicate() {
    let pk_columns = vec!["a".to_string(), "b".to_string()];
    let pk_values = vec![SqlValue::Int(1), SqlValue::Text("x".to_string())];
    let sql = build_delete_statement("postgres", "public", "t", &pk_columns, &pk_values)
        .expect("statement");
    assert_eq!(
        sql,
        "DELETE FROM \"public\".\"t\" WHERE \"a\" = 1 AND \"b\" = 'x'"
    );
}

#[test]
fn delete_requires_matching_key_columns_and_values() {
    let r = build_delete_statement("postgres", "public", "t", &vec![], &vec![]);
    assert!(matches!(r, Err(MutationError::KeyMismatch)));
}

#[test]
fn insert_lists_columns_and_values_in_order() {
    let fields = vec![
        typed("id", SqlValue::Int(1)),
        typed("name", SqlValue::Text("O'Brien".to_string())),
        raw("created_at", "NOW()"),
    ];
    let sql = build_insert_statement("postgres", "public", "t", &fields).expect("statement");
    assert_eq!(
        sql,
        "INSERT INTO \"public\".\"t\" (\"id\", \"name\", \"created_at\") VALUES (1, 'O''Brien', NOW())"
    );
}

#[test]
fn insert_requires_at_least_one_value() {
    let r = build_insert_statement("postgres", "public", "t", &vec![]);
    assert!(matches!(r, Err(MutationError::NoValues)));
    assert_eq!(MutationError::NoValues.message(), "No values provided");
}

#[test]
fn insert_rejects_a_bad_raw_fragment() {
    let fields = vec![typed("id", SqlValue::Int(1)), raw("x", "a /* b */")];
    let r = build_insert_statement("postgres", "public", "t", &fields);
    assert!(matches!(r, Err(MutationError::InvalidRaw(_))));
}
