//! Pure support for the assisted-SQL commands: resolving their settings,
//! describing schemas and table lists for the prompt, and choosing the
//! fallback table selection.  The network streaming around these lives
//! outside the crate.

use vstd::prelude::*;

use crate::text::{eq_ignore_ascii_case, join_with, seq_join, spec_lower, str_eq};

verus! {

/// A table with its columns, as handed to the prompt builder.
pub struct TableSchema {
    pub schema: String,
    pub name: String,
    pub columns: Option<Vec<ColumnSchema>>,
}

/// One column of a table.
pub struct ColumnSchema {
    pub name: String,
    pub column_type: String,
    pub nullable: bool,
}

/// A table name without columns, for the table-selection prompt.
pub struct SimpleTableInfo {
    pub schema: String,
    pub name: String,
}

/// One row of the settings store.
pub struct Setting {
    pub key: String,
    pub value: String,
}

/// The description of one column: `name (type)`, with `, nullable` appended
/// when the column is nullable.
pub open spec fn spec_column_desc(c: ColumnSchema) -> Seq<char> {
    c.name@ + " ("@ + c.column_type@ + (if c.nullable {
        ", nullable"@
    } else {
        Seq::<char>::empty()
    }) + ")"@
}

/// The description of one table: `schema.name`, with an indented column list
/// when columns are known.
pub open spec fn spec_table_desc(t: TableSchema) -> Seq<char> {
    t.schema@ + "."@ + t.name@ + (match t.columns {
        Some(cols) => "\n  Columns: "@ + seq_join(
            cols@.map_values(|c: ColumnSchema| spec_column_desc(c)),
            ", "@,
        ),
        None => Seq::<char>::empty(),
    })
}

/// The schema description handed to the prompt: the table descriptions
/// separated by blank lines.
pub open spec fn spec_schema_description(tables: Seq<TableSchema>) -> Seq<char> {
    seq_join(tables.map_values(|t: TableSchema| spec_table_desc(t)), "\n\n"@)
}

/// The qualified name of a table: `schema.name`.
pub open spec fn spec_table_name(schema: Seq<char>, name: Seq<char>) -> Seq<char> {
    schema + "."@ + name
}

/// Render the description of one column.
fn column_desc(c: &ColumnSchema) -> (r: String)
    ensures
        r@ == spec_column_desc(*c),
{
    let mut r = c.name.clone();
    r.append(" (");
    r.append(c.column_type.as_str());
    if c.nullable {
        r.append(", nullable");
    }
    r.append(")");
    proof {
        assert(r@ =~= spec_column_desc(*c));
    }
    r
}

/// Render the description of one table.
fn table_desc(t: &TableSchema) -> (r: String)
    ensures
        r@ == spec_table_desc(*t),
{
    let mut r = t.schema.clone();
    r.append(".");
    r.append(t.name.as_str());
    match &t.columns {
        Some(cols) => {
            let mut parts: Vec<String> = Vec::new();
            let mut i: usize = 0;
            proof {
                assert(cols@.take(0) =~= Seq::<ColumnSchema>::empty());
                assert(parts@.map_values(|p: String| p@) =~= cols@.take(0).map_values(
                    |c: ColumnSchema| spec_column_desc(c),
                ));
            }
            while i < cols.len()
                invariant
                    i <= cols@.len(),
                    parts@.map_values(|p: String| p@) == cols@.take(i as int).map_values(
                        |c: ColumnSchema| spec_column_desc(c),
                    ),
                decreases cols@.len() - i,
            {
                let ghost parts_old = parts@;
                let d = column_desc(&cols[i]);
                parts.push(d);
                proof {
                    assert(parts@.map_values(|p: String| p@)
                        =~= parts_old.map_values(|p: String| p@).push(
                            spec_column_desc(cols@[i as int]),
                        ));
                    assert(cols@.take(i + 1).map_values(|c: ColumnSchema| spec_column_desc(c))
                        =~= cols@.take(i as int).map_values(
                            |c: ColumnSchema| spec_column_desc(c),
                        ).push(spec_column_desc(cols@[i as int])));
                }
                i = i + 1;
            }
            proof {
                assert(cols@.take(cols@.len() as int) =~= cols@);
            }
            let joined = join_with(&parts, ", ");
            r.append("\n  Columns: ");
            r.append(joined.as_str());
            proof {
                assert(r@ =~= spec_table_desc(*t));
            }
            r
        },
        None => {
            proof {
                assert(r@ =~= spec_table_desc(*t));
            }
            r
        },
    }
}

/// Render the schema description handed to the SQL-generation prompt.
pub fn schema_description(tables: &Vec<TableSchema>) -> (r: String)
    ensures
        r@ == spec_schema_description(tables@),
{
    let mut parts: Vec<String> = Vec::new();
    let mut i: usize = 0;
    proof {
        assert(tables@.take(0) =~= Seq::<TableSchema>::empty());
        assert(parts@.map_values(|p: String| p@) =~= tables@.take(0).map_values(
            |t: TableSchema| spec_table_desc(t),
        ));
    }
    while i < tables.len()
        invariant
            i <= tables@.len(),
            parts@.map_values(|p: String| p@) == tables@.take(i as int).map_values(
                |t: TableSchema| spec_table_desc(t),
            ),
        decreases tables@.len() - i,
    {
        let ghost parts_old = parts@;
        let d = table_desc(&tables[i]);
        parts.push(d);
        proof {
            assert(parts@.map_values(|p: String| p@)
                =~= parts_old.map_values(|p: String| p@).push(spec_table_desc(tables@[i as int])));
            assert(tables@.take(i + 1).map_values(|t: TableSchema| spec_table_desc(t))
                =~= tables@.take(i as int).map_values(|t: TableSchema| spec_table_desc(t)).push(
                    spec_table_desc(tables@[i as int]),
                ));
        }
        i = i + 1;
    }
    proof {
        assert(tables@.take(tables@.len() as int) =~= tables@);
    }
    join_with(&parts, "\n\n")
}

/// Render the qualified name of one table.
pub fn table_name(t: &SimpleTableInfo) -> (r: String)
    ensures
        r@ == spec_table_name(t.schema@, t.name@),
{
    let mut r = t.schema.clone();
    r.append(".");
    r.append(t.name.as_str());
    proof {
        assert(r@ =~= spec_table_name(t.schema@, t.name@));
    }
    r
}

/// Render the available-tables list handed to the table-selection prompt:
/// one qualified name per line.
pub fn table_list(tables: &Vec<SimpleTableInfo>) -> (r: String)
    ensures
        r@ == seq_join(
            tables@.map_values(|t: SimpleTableInfo| spec_table_name(t.schema@, t.name@)),
            "\n"@,
        ),
{
    let mut parts: Vec<String> = Vec::new();
    let mut i: usize = 0;
    proof {
        assert(tables@.take(0) =~= Seq::<SimpleTableInfo>::empty());
        assert(parts@.map_values(|p: String| p@) =~= tables@.take(0).map_values(
            |t: SimpleTableInfo| spec_table_name(t.schema@, t.name@),
        ));
    }
    while i < tables.len()
        invariant
            i <= tables@.len(),
            parts@.map_values(|p: String| p@) == tables@.take(i as int).map_values(
                |t: SimpleTableInfo| spec_table_name(t.schema@, t.name@),
            ),
        decreases tables@.len() - i,
    {
        let ghost parts_old = parts@;
        let d = table_name(&tables[i]);
        parts.push(d);
        proof {
            assert(parts@.map_values(|p: String| p@)
                =~= parts_old.map_values(|p: String| p@).push(
                    spec_table_name(tables@[i as int].schema@, tables@[i as int].name@),
                ));
            assert(tables@.take(i + 1).map_values(
                |t: SimpleTableInfo| spec_table_name(t.schema@, t.name@),
            ) =~= tables@.take(i as int).map_values(
                |t: SimpleTableInfo| spec_table_name(t.schema@, t.name@),
            ).push(spec_table_name(tables@[i as int].schema@, tables@[i as int].name@)));
        }
        i = i + 1;
    }
    proof {
        assert(tables@.take(tables@.len() as int) =~= tables@);
    }
    join_with(&parts, "\n")
}

/// The fallback table selection when the assistant's answer cannot be
/// parsed: the first five qualified table names.
pub fn fallback_tables(tables: &Vec<SimpleTableInfo>) -> (r: Vec<String>)
    ensures
        r@.len() == if tables@.len() < 5 { tables@.len() } else { 5nat },
        forall|k: int| 0 <= k < r@.len() ==> (#[trigger] r@[k])@ == spec_table_name(
            tables@[k].schema@,
            tables@[k].name@,
        ),
{
    let mut r: Vec<String> = Vec::new();
    let mut i: usize = 0;
    let count: usize = if tables.len() < 5 { tables.len() } else { 5 };
    while i < count
        invariant
            count == if tables@.len() < 5 { tables@.len() } else { 5nat },
            i <= count,
            r@.len() == i,
            forall|k: int| 0 <= k < i ==> (#[trigger] r@[k])@ == spec_table_name(
                tables@[k].schema@,
                tables@[k].name@,
            ),
        decreases count - i,
    {
        let d = table_name(&tables[i]);
        r.push(d);
        i = i + 1;
    }
    r
}

/// The value stored under `key`: the last occurrence wins, as when the rows
/// are collected into a map.
pub open spec fn spec_setting(settings: Seq<Setting>, key: Seq<char>) -> Option<Seq<char>>
    decreases settings.len(),
{
    if settings.len() == 0 {
        None
    } else if settings.last().key@ == key {
        Some(settings.last().value@)
    } else {
        spec_setting(settings.drop_last(), key)
    }
}

/// The value stored under `key`, with the empty string treated as missing.
pub open spec fn spec_setting_nonempty(settings: Seq<Setting>, key: Seq<char>) -> Option<
    Seq<char>,
> {
    match spec_setting(settings, key) {
        Some(v) => if v.len() > 0 {
            Some(v)
        } else {
            None
        },
        None => None,
    }
}

/// Look up the value stored under `key`, the empty string counting as
/// missing.
fn setting_nonempty(settings: &Vec<Setting>, key: &str) -> (r: Option<String>)
    ensures
        match r {
            Some(v) => spec_setting_nonempty(settings@, key@) == Some(v@),
            None => spec_setting_nonempty(settings@, key@) is None,
        },
{
    let mut found: Option<usize> = None;
    let mut i: usize = 0;
    proof {
        assert(settings@.take(0) =~= Seq::<Setting>::empty());
    }
    while i < settings.len()
        invariant
            i <= settings@.len(),
            match found {
                Some(j) => j < i && settings@[j as int].key@ == key@ && spec_setting(
                    settings@.take(i as int),
                    key@,
                ) == Some(settings@[j as int].value@),
                None => spec_setting(settings@.take(i as int), key@) is None,
            },
        decreases settings@.len() - i,
    {
        proof {
            assert(settings@.take(i + 1).last() == settings@[i as int]);
            assert(settings@.take(i + 1).drop_last() =~= settings@.take(i as int));
        }
        if str_eq(settings[i].key.as_str(), key) {
            found = Some(i);
        }
        i = i + 1;
    }
    proof {
        assert(settings@.take(settings@.len() as int) =~= settings@);
    }
    match found {
        Some(j) => {
            if settings[j].value.as_str().is_empty() {
                None
            } else {
                Some(settings[j].value.clone())
            }
        },
        None => None,
    }
}

/// The settings the assisted-SQL commands run with.
pub struct AiSettings {
    pub api_key: String,
    pub endpoint: String,
    pub model: String,
}

/// Resolve the assistant settings from the stored rows: the key is
/// required, while the endpoint and the model fall back to their defaults.
/// `None` means the key is not configured.
pub fn resolve_ai_settings(settings: &Vec<Setting>) -> (r: Option<AiSettings>)
    ensures
        r is Some <==> spec_setting_nonempty(settings@, "openai_api_key"@) is Some,
        r matches Some(a) ==> Some(a.api_key@) == spec_setting_nonempty(
            settings@,
            "openai_api_key"@,
        ) && a.endpoint@ == match spec_setting_nonempty(settings@, "openai_endpoint"@) {
            Some(v) => v,
            None => "https://api.openai.com/v1"@,
        } && a.model@ == match spec_setting_nonempty(settings@, "openai_model"@) {
            Some(v) => v,
            None => "gpt-4.1"@,
        },
{
    let api_key = match setting_nonempty(settings, "openai_api_key") {
        Some(v) => v,
        None => {
            return None;
        },
    };
    let endpoint = match setting_nonempty(settings, "openai_endpoint") {
        Some(v) => v,
        None => String::from_str("https://api.openai.com/v1"),
    };
    let model = match setting_nonempty(settings, "openai_model") {
        Some(v) => v,
        None => String::from_str("gpt-4.1"),
    };
    Some(AiSettings { api_key, endpoint, model })
}

/// The engine name used in the SQL-generation prompt, selected by the
/// backend kind compared without regard to case; an unrecognized kind is
/// prompted as the relational default.
pub open spec fn spec_db_name(t: Seq<char>) -> Seq<char> {
    if spec_lower(t) == spec_lower("sqlite"@) || spec_lower(t) == spec_lower("sqlite3"@) {
        "SQLite"@
    } else if spec_lower(t) == spec_lower("mysql"@) {
        "MySQL"@
    } else if spec_lower(t) == spec_lower("redis"@) {
        "Redis"@
    } else {
        "PostgreSQL"@
    }
}

/// The syntax instruction matching [`spec_db_name`].
pub open spec fn spec_syntax_note(t: Seq<char>) -> Seq<char> {
    if spec_lower(t) == spec_lower("sqlite"@) || spec_lower(t) == spec_lower("sqlite3"@) {
        "Use SQLite syntax"@
    } else if spec_lower(t) == spec_lower("mysql"@) {
        "Use MySQL syntax"@
    } else if spec_lower(t) == spec_lower("redis"@) {
        "Generate Redis commands"@
    } else {
        "Use PostgreSQL syntax"@
    }
}

/// The system prompt of the SQL-generation request, assembled from the
/// engine name, the schema description and the engine's syntax note.
pub open spec fn spec_system_prompt(db_type: Seq<char>, schema_desc: Seq<char>) -> Seq<char> {
    "You are a "@ + spec_db_name(db_type)
        + " SQL expert. Generate SQL queries based on user instructions.\n\nAvailable tables and schemas:\n"@
        + schema_desc
        + "\n\nRules:\n- Return ONLY the raw SQL query, no markdown formatting, no code blocks, no explanations\n- "@
        + spec_syntax_note(db_type) + "\n- Consider the existing SQL if provided as context"@
}

/// Assemble the system prompt of the SQL-generation request.
pub fn system_prompt(db_type: &str, schema_desc: &str) -> (r: String)
    ensures
        r@ == spec_system_prompt(db_type@, schema_desc@),
{
    let sqlite_like = eq_ignore_ascii_case(db_type, "sqlite") || eq_ignore_ascii_case(
        db_type,
        "sqlite3",
    );
    let (db_name, syntax_note): (&str, &str) = if sqlite_like {
        ("SQLite", "Use SQLite syntax")
    } else if eq_ignore_ascii_case(db_type, "mysql") {
        ("MySQL", "Use MySQL syntax")
    } else if eq_ignore_ascii_case(db_type, "redis") {
        ("Redis", "Generate Redis commands")
    } else {
        ("PostgreSQL", "Use PostgreSQL syntax")
    };
    let mut r = String::from_str("You are a ");
    r.append(db_name);
    r.append(
        " SQL expert. Generate SQL queries based on user instructions.\n\nAvailable tables and schemas:\n",
    );
    r.append(schema_desc);
    r.append(
        "\n\nRules:\n- Return ONLY the raw SQL query, no markdown formatting, no code blocks, no explanations\n- ",
    );
    r.append(syntax_note);
    r.append("\n- Consider the existing SQL if provided as context");
    proof {
        assert(r@ =~= spec_system_prompt(db_type@, schema_desc@));
    }
    r
}

/// The user prompt of the SQL-generation request: a fresh generation
/// request, or a modification request quoting the existing SQL.
pub open spec fn spec_user_prompt(existing_sql: Seq<char>, instruction: Seq<char>) -> Seq<char> {
    if existing_sql.len() == 0 {
        "Generate SQL query: "@ + instruction
    } else {
        "Modify this SQL query:\n```sql\n"@ + existing_sql + "\n```\n\nInstruction: "@
            + instruction
    }
}

/// Assemble the user prompt of the SQL-generation request.
pub fn user_prompt(existing_sql: &str, instruction: &str) -> (r: String)
    ensures
        r@ == spec_user_prompt(existing_sql@, instruction@),
{
    if existing_sql.is_empty() {
        let mut r = String::from_str("Generate SQL query: ");
        r.append(instruction);
        proof {
            assert(r@ =~= spec_user_prompt(existing_sql@, instruction@));
        }
        r
    } else {
        let mut r = String::from_str("Modify this SQL query:\n```sql\n");
        r.append(existing_sql);
        r.append("\n```\n\nInstruction: ");
        r.append(instruction);
        proof {
            assert(r@ =~= spec_user_prompt(existing_sql@, instruction@));
        }
        r
    }
}

/// The user prompt of the table-selection request: the instruction followed
/// by the available tables.
pub open spec fn spec_selection_prompt(instruction: Seq<char>, tables: Seq<char>) -> Seq<char> {
    "Query instruction: "@ + instruction + "\n\nAvailable tables:\n"@ + tables
}

/// Assemble the user prompt of the table-selection request.
pub fn selection_prompt(instruction: &str, tables: &str) -> (r: String)
    ensures
        r@ == spec_selection_prompt(instruction@, tables@),
{
    let mut r = String::from_str("Query instruction: ");
    r.append(instruction);
    r.append("\n\nAvailable tables:\n");
    r.append(tables);
    proof {
        assert(r@ =~= spec_selection_prompt(instruction@, tables@));
    }
    r
}

/// The position of the first line break in `s`, or a negative value when
/// there is none.
pub open spec fn first_newline(s: Seq<char>) -> int
    decreases s.len(),
{
    if s.len() == 0 {
        -1
    } else if s[0] == '\n' {
        0
    } else if first_newline(s.skip(1)) < 0 {
        -1
    } else {
        first_newline(s.skip(1)) + 1
    }
}

proof fn lemma_first_newline_at(s: Seq<char>, j: int)
    requires
        0 <= j < s.len(),
        s[j] == '\n',
        forall|k: int| 0 <= k < j ==> s[k] != '\n',
    ensures
        first_newline(s) == j,
    decreases j,
{
    if j > 0 {
        lemma_first_newline_at(s.skip(1), j - 1);
    }
}

proof fn lemma_first_newline_none(s: Seq<char>)
    requires
        forall|k: int| 0 <= k < s.len() ==> s[k] != '\n',
    ensures
        first_newline(s) < 0,
    decreases s.len(),
{
    if s.len() > 0 {
        lemma_first_newline_none(s.skip(1));
    }
}

/// The complete lines of a streamed buffer, and the unterminated remainder
/// to carry into the next read.
pub open spec fn spec_split_lines(s: Seq<char>) -> (Seq<Seq<char>>, Seq<char>)
    decreases s.len(),
{
    if 0 <= first_newline(s) < s.len() {
        let nl = first_newline(s);
        let rest = spec_split_lines(s.skip(nl + 1));
        (seq![s.take(nl)] + rest.0, rest.1)
    } else {
        (Seq::<Seq<char>>::empty(), s)
    }
}

/// Split a streamed buffer at its line breaks: the complete lines, and the
/// unterminated remainder to carry into the next read.
pub fn split_complete_lines(s: &str) -> (r: (Vec<String>, String))
    ensures
        r.0@.map_values(|l: String| l@) == spec_split_lines(s@).0,
        r.1@ == spec_split_lines(s@).1,
{
    let len: usize = s.unicode_len();
    let mut lines: Vec<String> = Vec::new();
    let mut cur: usize = 0;
    proof {
        assert(s@.skip(0) =~= s@);
        assert(lines@.map_values(|l: String| l@) =~= Seq::<Seq<char>>::empty());
    }
    loop
        invariant
            len == s@.len(),
            cur <= len,
            spec_split_lines(s@).0 == lines@.map_values(|l: String| l@) + spec_split_lines(
                s@.skip(cur as int),
            ).0,
            spec_split_lines(s@).1 == spec_split_lines(s@.skip(cur as int)).1,
        ensures
            cur <= len,
            len == s@.len(),
            spec_split_lines(s@).0 == lines@.map_values(|l: String| l@),
            spec_split_lines(s@).1 == s@.skip(cur as int),
        decreases len - cur,
    {
        let ghost tail = s@.skip(cur as int);
        let mut j: usize = cur;
        while j < len && s.get_char(j) != '\n'
            invariant
                len == s@.len(),
                cur <= j <= len,
                forall|k: int| cur <= k < j ==> s@[k] != '\n',
            decreases len - j,
        {
            j = j + 1;
        }
        if j >= len {
            proof {
                assert(forall|k: int| 0 <= k < tail.len() ==> tail[k] != '\n');
                lemma_first_newline_none(tail);
                assert(spec_split_lines(tail).0 =~= Seq::<Seq<char>>::empty());
                assert(lines@.map_values(|l: String| l@) + Seq::<Seq<char>>::empty()
                    =~= lines@.map_values(|l: String| l@));
            }
            break;
        }
        proof {
            assert(tail[j - cur] == s@[j as int]);
            assert(forall|k: int| 0 <= k < j - cur ==> tail[k] != '\n');
            lemma_first_newline_at(tail, j - cur);
            assert(tail.take(j - cur) =~= s@.subrange(cur as int, j as int));
            assert(tail.skip(j - cur + 1) =~= s@.skip(j + 1));
        }
        let line = String::from_str(s.substring_char(cur, j));
        let ghost lines_old = lines@;
        lines.push(line);
        proof {
            assert(lines@.map_values(|l: String| l@)
                =~= lines_old.map_values(|l: String| l@).push(tail.take(j - cur)));
            assert(lines_old.map_values(|l: String| l@) + spec_split_lines(tail).0
                =~= lines@.map_values(|l: String| l@) + spec_split_lines(s@.skip(j + 1)).0);
        }
        cur = j + 1;
    }
    let remainder = String::from_str(s.substring_char(cur, len));
    proof {
        assert(s@.subrange(cur as int, len as int) =~= s@.skip(cur as int));
    }
    (lines, remainder)
}

/// The payload of one streamed event line: the text after the data marker,
/// unless the line is no data line or carries the end-of-stream token.
pub open spec fn spec_sse_payload(line: Seq<char>) -> Option<Seq<char>> {
    if line.len() >= 6 && line.take(6) == "data: "@ {
        if line.skip(6) == "[DONE]"@ {
            None
        } else {
            Some(line.skip(6))
        }
    } else {
        None
    }
}

/// Extract the payload of one streamed event line.
pub fn sse_data_payload(line: &str) -> (r: Option<String>)
    ensures
        match r {
            Some(p) => spec_sse_payload(line@) == Some(p@),
            None => spec_sse_payload(line@) is None,
        },
{
    let len: usize = line.unicode_len();
    if len < 6 {
        return None;
    }
    let head = line.substring_char(0, 6);
    proof {
        assert(line@.subrange(0, 6) =~= line@.take(6));
    }
    if !str_eq(head, "data: ") {
        return None;
    }
    let data = line.substring_char(6, len);
    proof {
        assert(line@.subrange(6, len as int) =~= line@.skip(6));
    }
    if str_eq(data, "[DONE]") {
        None
    } else {
        Some(String::from_str(data))
    }
}

/// The assistant's answer cleaned for use as SQL: surrounding white space
/// and surrounding code-fence markers are removed.
pub open spec fn spec_clean_sql(s: Seq<char>) -> Seq<char> {
    crate::text::spec_trim(
        crate::text::spec_strip_suffix_rep(
            crate::text::spec_strip_prefix_rep(
                crate::text::spec_strip_prefix_rep(crate::text::spec_trim(s), "```sql"@),
                "```"@,
            ),
            "```"@,
        ),
    )
}

/// Clean the assistant's answer for use as SQL: trim it, remove leading
/// `sql` code-fence openers and plain fence markers, remove trailing fence
/// markers, and trim again.
pub fn clean_sql_response(s: &str) -> (r: String)
    ensures
        r@ == spec_clean_sql(s@),
{
    let t1 = crate::text::trim_of(s);
    let t2 = crate::text::strip_prefix_rep(t1.as_str(), "```sql");
    let t3 = crate::text::strip_prefix_rep(t2.as_str(), "```");
    let t4 = crate::text::strip_suffix_rep(t3.as_str(), "```");
    crate::text::trim_of(t4.as_str())
}

/// `s` without its trailing occurrences of `c`.
pub open spec fn spec_strip_trailing(s: Seq<char>, c: char) -> Seq<char>
    decreases s.len(),
{
    if s.len() > 0 && s.last() == c {
        spec_strip_trailing(s.drop_last(), c)
    } else {
        s
    }
}

/// The chat-completions URL under an endpoint: trailing slashes are stripped
/// before the path is appended.
pub fn chat_completions_url(endpoint: &str) -> (r: String)
    ensures
        r@ == spec_strip_trailing(endpoint@, '/') + "/chat/completions"@,
{
    let len: usize = endpoint.unicode_len();
    let mut end: usize = len;
    proof {
        assert(endpoint@.take(len as int) =~= endpoint@);
    }
    while end > 0 && endpoint.get_char(end - 1) == '/'
        invariant
            end <= len,
            len == endpoint@.len(),
            spec_strip_trailing(endpoint@, '/') == spec_strip_trailing(
                endpoint@.take(end as int),
                '/',
            ),
        decreases end,
    {
        proof {
            assert(endpoint@.take(end as int).last() == endpoint@[end - 1]);
            assert(endpoint@.take(end as int).drop_last() =~= endpoint@.take(end - 1));
        }
        end = end - 1;
    }
    proof {
        if end > 0 {
            assert(endpoint@.take(end as int).last() == endpoint@[end - 1]);
            assert(spec_strip_trailing(endpoint@.take(end as int), '/')
                == endpoint@.take(end as int));
        } else {
            assert(endpoint@.take(0).len() == 0);
        }
    }
    let mut r = String::from_str(endpoint.substring_char(0, end));
    r.append("/chat/completions");
    proof {
        assert(endpoint@.subrange(0, end as int) =~= endpoint@.take(end as int));
    }
    r
}

} // verus!
