use dbcooper::ai_support::{
    chat_completions_url, clean_sql_response, fallback_tables, resolve_ai_settings,
    schema_description, selection_prompt, split_complete_lines, sse_data_payload,
    system_prompt, table_list, user_prompt, ColumnSchema, Setting, SimpleTableInfo,
    TableSchema,
};

fn setting(key: &str, value: &str) -> Setting {
    Setting {
        key: key.to_string(),
        value: value.to_string(),
    }
}

fn simple(schema: &str, name: &str) -> SimpleTableInfo {
    SimpleTableInfo {
        schema: schema.to_string(),
        name: name.to_string(),
    }
}

#[test]
fn schema_description_lists_tables_and_columns() {
    let tables = vec![
        TableSchema {
            schema: "public".to_string(),
            name: "users".to_string(),
            columns: Some(vec![
                ColumnSchema {
                    name: "id".to_string(),
                    column_type: "bigint".to_string(),
                    nullable: false,
                },
                ColumnSchema {
                    name: "email".to_string(),
                    column_type: "text".to_string(),
                    nullable: true,
                },
            ]),
        },
        TableSchema {
            schema: "public".to_string(),
            name: "orders".to_string(),
            columns: None,
        },
    ];
    assert_eq!(
        schema_description(&tables),
        "public.users\n  Columns: id (bigint), email (text, nullable)\n\npublic.orders"
    );
}

#[test]
fn table_list_is_one_qualified_name_per_line() {
    let tables = vec![simple("public", "users"), simple("sales", "orders")];
    assert_eq!(table_list(&tables), "public.users\nsales.orders");
    assert_eq!(table_list(&vec![]), "");
}

#[test]
fn fallback_selection_takes_at_most_five_tables() {
    let tables: Vec<SimpleTableInfo> = (0..7)
        .map(|i| simple("public", &format!("t{}", i)))
        .collect();
    let picked = fallback_tables(&tables);
    assert_eq!(
        picked,
        vec!["public.t0", "public.t1", "public.t2", "public.t3", "public.t4"]
    );
    let few = fallback_tables(&vec![simple("a", "b")]);
    assert_eq!(few, vec!["a.b"]);
}

#[test]
fn settings_resolution_requires_the_key_and_fills_defaults() {
    assert!(resolve_ai_settings(&vec![]).is_none());
    assert!(resolve_ai_settings(&vec![setting("openai_api_key", "")]).is_none());

    let resolved = resolve_ai_settings(&vec![setting("openai_api_key", "test-key-1")])
        .expect("key configured");
    assert_eq!(resolved.api_key, "test-key-1");
    assert_eq!(resolved.endpoint, "https://api.openai.com/v1");
    assert_eq!(resolved.model, "gpt-4.1");

    let resolved = resolve_ai_settings(&vec![
        setting("openai_api_key", "test-key-1"),
        setting("openai_endpoint", "https://proxy.local/v1"),
        setting("openai_model", "m-large"),
        setting("openai_model", "m-small"),
    ])
    .expect("key configured");
    assert_eq!(resolved.endpoint, "https://proxy.local/v1");
    // The last stored row for a key wins, as in a map built from the rows.
    assert_eq!(resolved.model, "m-small");
}

#[test]
fn completions_url_strips_trailing_slashes() {
    assert_eq!(
        chat_completions_url("https://api.openai.com/v1"),
        "https://api.openai.com/v1/chat/completions"
    );
    assert_eq!(
        chat_completions_url("https://proxy.local/v1///"),
        "https://proxy.local/v1/chat/completions"
    );
}

#[test]
fn generation_prompts_follow_the_templates() {
    let prompt = system_prompt("SQLite", "public.users");
    assert!(prompt.starts_with("You are a SQLite SQL expert."));
    assert!(prompt.contains("Available tables and schemas:\npublic.users\n"));
    assert!(prompt.contains("- Use SQLite syntax\n"));
    let prompt = system_prompt("REDIS", "k");
    assert!(prompt.starts_with("You are a Redis SQL expert."));
    assert!(prompt.contains("- Generate Redis commands\n"));
    let prompt = system_prompt("mystery", "k");
    assert!(prompt.starts_with("You are a PostgreSQL SQL expert."));

    assert_eq!(
        user_prompt("", "count the users"),
        "Generate SQL query: count the users"
    );
    assert_eq!(
        user_prompt("SELECT 1", "add a limit"),
        "Modify this SQL query:\n```sql\nSELECT 1\n```\n\nInstruction: add a limit"
    );
    assert_eq!(
        selection_prompt("count the users", "public.users"),
        "Query instruction: count the users\n\nAvailable tables:\npublic.users"
    );
}

#[test]
fn streamed_buffers_split_into_complete_lines_and_a_remainder() {
    let (lines, rest) = split_complete_lines("a\nbb\nccc");
    assert_eq!(lines, vec!["a", "bb"]);
    assert_eq!(rest, "ccc");
    let (lines, rest) = split_complete_lines("one line\n");
    assert_eq!(lines, vec!["one line"]);
    assert_eq!(rest, "");
    let (lines, rest) = split_complete_lines("partial");
    assert!(lines.is_empty());
    assert_eq!(rest, "partial");
    let (lines, rest) = split_complete_lines("\n\n");
    assert_eq!(lines, vec!["", ""]);
    assert_eq!(rest, "");
}

#[test]
fn event_lines_yield_their_payload_unless_the_stream_is_done() {
    assert_eq!(
        sse_data_payload("data: {\"choices\":[]}"),
        Some("{\"choices\":[]}".to_string())
    );
    assert_eq!(sse_data_payload("data: [DONE]"), None);
    assert_eq!(sse_data_payload(": keep-alive"), None);
    assert_eq!(sse_data_payload(""), None);
    assert_eq!(sse_data_payload("data:"), None);
}

#[test]
fn assistant_answers_are_cleaned_of_fences_and_white_space() {
    assert_eq!(clean_sql_response("SELECT 1"), "SELECT 1");
    assert_eq!(clean_sql_response("  SELECT 1  \n"), "SELECT 1");
    assert_eq!(clean_sql_response("```sql\nSELECT 1\n```"), "SELECT 1");
    assert_eq!(clean_sql_response("```\nSELECT 1\n```"), "SELECT 1");
    assert_eq!(clean_sql_response("   ```sql\nSELECT 1\n```   "), "SELECT 1");
    assert_eq!(clean_sql_response(""), "");
}
