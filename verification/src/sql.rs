//! Safe construction of dynamic SQL fragments.
//!
//! Identifiers are neutralized before they are spliced into a double-quoted
//! segment, values are rendered through a typed formatter, and raw fragments
//! pass a validator that rejects statement-terminating patterns.

use vstd::prelude::*;

use crate::text::{format_i64, is_digit_char, spec_dec_int};

verus! {

/// `s` with every occurrence of `q` doubled.
pub open spec fn spec_double_char(s: Seq<char>, q: char) -> Seq<char>
    decreases s.len(),
{
    if s.len() == 0 {
        Seq::<char>::empty()
    } else if s[0] == q {
        seq![q, q] + spec_double_char(s.skip(1), q)
    } else {
        seq![s[0]] + spec_double_char(s.skip(1), q)
    }
}

/// The escaped form of an identifier: every double quote is doubled, so the
/// result can stand inside a double-quoted SQL segment without terminating it.
pub open spec fn spec_escape_ident(s: Seq<char>) -> Seq<char> {
    spec_double_char(s, '"')
}

/// The escaped form of a string literal body: every single quote is doubled.
pub open spec fn spec_escape_text(s: Seq<char>) -> Seq<char> {
    spec_double_char(s, '\'')
}

/// Every occurrence of `q` in `s` is immediately part of an adjacent pair, so
/// no occurrence can terminate a surrounding `q`-quoted segment on its own.
pub open spec fn char_doubled(s: Seq<char>, q: char) -> bool
    decreases s.len(),
{
    if s.len() == 0 {
        true
    } else if s[0] == q {
        s.len() >= 2 && s[1] == q && char_doubled(s.skip(2), q)
    } else {
        char_doubled(s.skip(1), q)
    }
}

/// An input identifier containing a double quote never reaches the generated
/// SQL unescaped: the escaped rendering always keeps the quote character in
/// adjacent pairs.
pub proof fn lemma_escape_keeps_quotes_doubled(s: Seq<char>, q: char)
    ensures
        char_doubled(spec_double_char(s, q), q),
    decreases s.len(),
{
    if s.len() == 0 {
    } else {
        lemma_escape_keeps_quotes_doubled(s.skip(1), q);
        if s[0] == q {
            assert((seq![q, q] + spec_double_char(s.skip(1), q)).skip(2)
                =~= spec_double_char(s.skip(1), q));
        } else {
            assert((seq![s[0]] + spec_double_char(s.skip(1), q)).skip(1)
                =~= spec_double_char(s.skip(1), q));
        }
    }
}

/// Append to `out` the text of `s` with every occurrence of `q` doubled.
/// `twice` must hold the two-character string `qq`.
fn append_doubled(out: &mut String, s: &str, q: char, twice: &str)
    requires
        twice@ == seq![q, q],
    ensures
        final(out)@ == old(out)@ + spec_double_char(s@, q),
{
    let len: usize = s.unicode_len();
    let ghost base = out@;
    let mut i: usize = 0;
    proof {
        assert(s@.skip(0) =~= s@);
        assert(base + spec_double_char(s@, q)
            =~= out@ + spec_double_char(s@.skip(0), q));
    }
    while i < len
        invariant
            len == s@.len(),
            i <= len,
            twice@ == seq![q, q],
            base + spec_double_char(s@, q) == out@ + spec_double_char(s@.skip(i as int), q),
        decreases len - i,
    {
        let ghost tail = s@.skip(i as int);
        proof {
            assert(tail[0] == s@[i as int]);
            assert(tail.skip(1) =~= s@.skip(i + 1));
        }
        let c = s.get_char(i);
        if c == q {
            let ghost out_old = out@;
            out.append(twice);
            proof {
                assert(spec_double_char(tail, q)
                    == seq![q, q] + spec_double_char(s@.skip(i + 1), q));
                assert(out@ + spec_double_char(s@.skip(i + 1), q)
                    =~= out_old + spec_double_char(tail, q));
            }
        } else {
            let piece = s.substring_char(i, i + 1);
            let ghost out_old = out@;
            out.append(piece);
            proof {
                assert(piece@ =~= seq![s@[i as int]]);
                assert(spec_double_char(tail, q)
                    == seq![tail[0]] + spec_double_char(s@.skip(i + 1), q));
                assert(out@ + spec_double_char(s@.skip(i + 1), q)
                    =~= out_old + spec_double_char(tail, q));
            }
        }
        i = i + 1;
    }
    proof {
        assert(s@.skip(len as int) =~= Seq::<char>::empty());
        assert(out@ + spec_double_char(s@.skip(len as int), q) =~= out@);
    }
}

/// Escape an identifier for use inside a double-quoted SQL segment by
/// doubling every double quote.
pub fn escape_sql_identifier(s: &str) -> (r: String)
    ensures
        r@ == spec_escape_ident(s@),
{
    let mut r = String::new();
    proof {
        reveal_strlit("\"\"");
        assert("\"\""@ =~= seq!['"', '"']);
    }
    append_doubled(&mut r, s, '"', "\"\"");
    proof {
        assert(r@ =~= spec_escape_ident(s@));
    }
    r
}

/// Escape the body of a SQL string literal by doubling every single quote.
pub fn escape_sql_text(s: &str) -> (r: String)
    ensures
        r@ == spec_escape_text(s@),
{
    let mut r = String::new();
    proof {
        reveal_strlit("''");
        assert("''"@ =~= seq!['\'', '\'']);
    }
    append_doubled(&mut r, s, '\'', "''");
    proof {
        assert(r@ =~= spec_escape_text(s@));
    }
    r
}

/// Whether a character may appear in the text of a numeric literal.
pub open spec fn is_num_char(c: char) -> bool {
    is_digit_char(c) || c == '.' || c == '-' || c == '+' || c == 'e' || c == 'E'
}

/// Whether every character of `s` may appear in a numeric literal.
pub open spec fn all_num_chars(s: Seq<char>) -> bool {
    forall|k: int| 0 <= k < s.len() ==> is_num_char(#[trigger] s[k])
}

/// A typed SQL value, rendered by [`format_sql_value`].
///
/// `Num` carries the decimal text of a number that is not an integer, such as
/// the rendering of a fractional JSON number; its well-formedness restricts
/// the text to numeric-literal characters.
pub enum SqlValue {
    Null,
    Bool(bool),
    Int(i64),
    Num(String),
    Text(String),
}

impl SqlValue {
    /// Validity of the value: the text of a `Num` consists of
    /// numeric-literal characters only.
    pub open spec fn wf(&self) -> bool {
        match self {
            SqlValue::Num(t) => t@.len() > 0 && all_num_chars(t@),
            _ => true,
        }
    }
}

/// Build a `Num` value after checking that the text has the shape of a
/// numeric literal.
pub fn sql_number(text: &str) -> (r: Option<SqlValue>)
    ensures
        r matches Some(v) ==> v matches SqlValue::Num(t) && t@ == text@ && v.wf(),
        r is Some <==> text@.len() > 0 && all_num_chars(text@),
{
    let len: usize = s_len(text);
    if len == 0 {
        return None;
    }
    let mut i: usize = 0;
    while i < len
        invariant
            len == text@.len(),
            i <= len,
            forall|k: int| 0 <= k < i ==> is_num_char(#[trigger] text@[k]),
        decreases len - i,
    {
        let c = text.get_char(i);
        let ok = ('0' <= c && c <= '9') || c == '.' || c == '-' || c == '+' || c == 'e'
            || c == 'E';
        if !ok {
            proof {
                assert(!is_num_char(text@[i as int]));
            }
            return None;
        }
        i = i + 1;
    }
    Some(SqlValue::Num(text.to_owned()))
}

/// The number of characters of a string slice.
fn s_len(s: &str) -> (l: usize)
    ensures
        l == s@.len(),
{
    s.unicode_len()
}

/// The rendering of a typed SQL value: `NULL` for the null value, a bare
/// token for booleans and numbers, and a single-quoted escaped literal for
/// text.
pub open spec fn spec_format_value(v: SqlValue) -> Seq<char> {
    match v {
        SqlValue::Null => "NULL"@,
        SqlValue::Bool(b) => if b { "true"@ } else { "false"@ },
        SqlValue::Int(i) => spec_dec_int(i as int),
        SqlValue::Num(t) => t@,
        SqlValue::Text(t) => seq!['\''] + spec_escape_text(t@) + seq!['\''],
    }
}

/// Render a typed value as a SQL token: `NULL`, a boolean or numeric
/// literal, or a quoted and escaped string literal.
pub fn format_sql_value(v: &SqlValue) -> (r: String)
    ensures
        r@ == spec_format_value(*v),
{
    match v {
        SqlValue::Null => String::from_str("NULL"),
        SqlValue::Bool(b) => {
            if *b {
                String::from_str("true")
            } else {
                String::from_str("false")
            }
        },
        SqlValue::Int(i) => format_i64(*i),
        SqlValue::Num(t) => t.clone(),
        SqlValue::Text(t) => {
            let mut r = String::from_str("'");
            proof {
                reveal_strlit("'");
            }
            let ghost r0 = r@;
            proof {
                reveal_strlit("''");
                assert("''"@ =~= seq!['\'', '\'']);
            }
            append_doubled(&mut r, t.as_str(), '\'', "''");
            r.append("'");
            proof {
                assert(r0 =~= seq!['\'']);
                assert(r@ =~= seq!['\''] + spec_escape_text(t@) + seq!['\'']);
            }
            r
        },
    }
}

/// Whether `c` occurs in `s`.
pub open spec fn has_char(s: Seq<char>, c: char) -> bool {
    exists|k: int| 0 <= k < s.len() && s[k] == c
}

/// Whether the two-character pattern `a b` occurs in `s`.
pub open spec fn has_pair(s: Seq<char>, a: char, b: char) -> bool {
    exists|k: int| 0 <= k && k + 1 < s.len() && #[trigger] s[k] == a && s[k + 1] == b
}

/// A raw fragment is acceptable when it contains no statement terminator and
/// no comment opener, the patterns that could smuggle a second statement.
pub open spec fn spec_raw_ok(s: Seq<char>) -> bool {
    !has_char(s, ';') && !has_pair(s, '-', '-') && !has_pair(s, '/', '*')
}

/// The message reported for an unacceptable raw fragment, by the order in
/// which the patterns are checked.
pub open spec fn spec_raw_error(s: Seq<char>) -> Seq<char> {
    if has_char(s, ';') {
        "contains a statement terminator"@
    } else if has_pair(s, '-', '-') {
        "contains a line comment"@
    } else {
        "contains a block comment"@
    }
}

/// Check a caller-flagged raw SQL fragment before it is spliced verbatim:
/// reject a statement terminator or the opening of a line or block comment.
/// The check does not depend on the backend kind.
pub fn validate_raw_sql_value(raw: &str, db_type: &str) -> (r: Result<(), String>)
    ensures
        r is Ok <==> spec_raw_ok(raw@),
        r matches Err(m) ==> m@ == spec_raw_error(raw@),
{
    let len: usize = s_len(raw);
    let mut i: usize = 0;
    while i < len
        invariant
            len == raw@.len(),
            i <= len,
            forall|k: int| 0 <= k < i ==> raw@[k] != ';',
        decreases len - i,
    {
        let c = raw.get_char(i);
        if c == ';' {
            proof {
                assert(has_char(raw@, ';'));
            }
            return Err(String::from_str("contains a statement terminator"));
        }
        i = i + 1;
    }
    proof {
        assert(!has_char(raw@, ';'));
    }
    if find_pair(raw, '-', '-') {
        return Err(String::from_str("contains a line comment"));
    }
    if find_pair(raw, '/', '*') {
        return Err(String::from_str("contains a block comment"));
    }
    Ok(())
}

/// Why a mutation statement could not be built.
#[derive(Debug)]
pub enum MutationError {
    /// The primary-key columns are empty or their count differs from the
    /// count of primary-key values.
    KeyMismatch,
    /// An update was requested with no fields to set.
    NoUpdates,
    /// An insert was requested with no values.
    NoValues,
    /// A raw SQL fragment was rejected; the payload is the validator's
    /// message.
    InvalidRaw(String),
}

impl MutationError {
    /// The user-facing message for the error.
    pub fn message(&self) -> (m: String)
        ensures
            match self {
                MutationError::KeyMismatch =>
                    m@ == "Primary key columns and values must match"@,
                MutationError::NoUpdates => m@ == "No updates provided"@,
                MutationError::NoValues => m@ == "No values provided"@,
                MutationError::InvalidRaw(e) =>
                    m@ == "Invalid raw SQL value: "@ + e@,
            },
    {
        match self {
            MutationError::KeyMismatch => {
                String::from_str("Primary key columns and values must match")
            },
            MutationError::NoUpdates => String::from_str("No updates provided"),
            MutationError::NoValues => String::from_str("No values provided"),
            MutationError::InvalidRaw(e) => {
                let mut m = String::from_str("Invalid raw SQL value: ");
                m.append(e.as_str());
                m
            },
        }
    }
}

/// One field of a mutation: either a typed value or a caller-flagged raw
/// fragment that must pass validation before it is spliced verbatim.
pub enum FieldValue {
    Typed(SqlValue),
    Raw(String),
}

/// A column together with the value it receives.
pub struct MutationField {
    pub column: String,
    pub value: FieldValue,
}

/// The rendering of a field's value: the typed formatter's output, or the
/// raw fragment verbatim.
pub open spec fn spec_field_text(v: FieldValue) -> Seq<char> {
    match v {
        FieldValue::Typed(sv) => spec_format_value(sv),
        FieldValue::Raw(t) => t@,
    }
}

/// The raw text of the field when it is a rejected raw fragment.
pub open spec fn bad_field(f: MutationField) -> Option<Seq<char>> {
    match f.value {
        FieldValue::Raw(t) => if !spec_raw_ok(t@) { Some(t@) } else { None },
        FieldValue::Typed(_) => None,
    }
}

/// The text of the first rejected raw fragment among `fields`, if any.
pub open spec fn first_bad_raw(fields: Seq<MutationField>) -> Option<Seq<char>>
    decreases fields.len(),
{
    if fields.len() == 0 {
        None
    } else if bad_field(fields[0]) is Some {
        bad_field(fields[0])
    } else {
        first_bad_raw(fields.skip(1))
    }
}

proof fn lemma_first_bad_push(s: Seq<MutationField>, x: MutationField)
    ensures
        first_bad_raw(s.push(x)) == if first_bad_raw(s) is Some {
            first_bad_raw(s)
        } else {
            bad_field(x)
        },
    decreases s.len(),
{
    if s.len() == 0 {
        assert(s.push(x)[0] == x);
        assert(s.push(x).skip(1) =~= Seq::<MutationField>::empty());
        assert(first_bad_raw(s.push(x).skip(1)) is None);
        if bad_field(x) is Some {
            assert(first_bad_raw(s.push(x)) == bad_field(x));
        } else {
            assert(first_bad_raw(s.push(x)) == first_bad_raw(s.push(x).skip(1)));
        }
    } else {
        assert(s.push(x)[0] == s[0]);
        assert(s.push(x).skip(1) =~= s.skip(1).push(x));
        lemma_first_bad_push(s.skip(1), x);
        if bad_field(s[0]) is Some {
            assert(first_bad_raw(s.push(x)) == bad_field(s[0]));
            assert(first_bad_raw(s) == bad_field(s[0]));
        } else {
            assert(first_bad_raw(s.push(x)) == first_bad_raw(s.skip(1).push(x)));
            assert(first_bad_raw(s) == first_bad_raw(s.skip(1)));
        }
    }
}

/// A double-quoted identifier segment.
pub open spec fn spec_quoted_ident(s: Seq<char>) -> Seq<char> {
    "\""@ + spec_escape_ident(s) + "\""@
}

/// One `"column" = value` pair.
pub open spec fn spec_assignment(col: Seq<char>, val: Seq<char>) -> Seq<char> {
    spec_quoted_ident(col) + " = "@ + val
}

/// Whether the backend kind addresses tables by a single unqualified name.
pub open spec fn is_sqlite_kind(s: Seq<char>) -> bool {
    s == "sqlite"@ || s == "sqlite3"@
}

/// The table reference: a single quoted segment for backends without schema
/// namespacing, a schema-qualified pair otherwise.
pub open spec fn spec_table_ref(single: bool, schema: Seq<char>, table: Seq<char>) -> Seq<char> {
    if single {
        spec_quoted_ident(table)
    } else {
        spec_quoted_ident(schema) + "."@ + spec_quoted_ident(table)
    }
}

/// The rendered `SET` fragments, one per field.
pub open spec fn spec_set_parts(fields: Seq<MutationField>) -> Seq<Seq<char>> {
    fields.map_values(|f: MutationField| spec_assignment(f.column@, spec_field_text(f.value)))
}

/// The rendered `WHERE` fragments, one exact-match predicate per primary-key
/// column.
pub open spec fn spec_where_parts(cols: Seq<String>, vals: Seq<SqlValue>) -> Seq<Seq<char>> {
    Seq::new(cols.len(), |i: int| spec_assignment(cols[i]@, spec_format_value(vals[i])))
}

/// The full text of an `UPDATE` statement.
pub open spec fn spec_update_sql(
    db_type: Seq<char>,
    schema: Seq<char>,
    table: Seq<char>,
    fields: Seq<MutationField>,
    pk_cols: Seq<String>,
    pk_vals: Seq<SqlValue>,
) -> Seq<char> {
    "UPDATE "@ + spec_table_ref(is_sqlite_kind(db_type), schema, table) + " SET "@
        + crate::text::seq_join(spec_set_parts(fields), ", "@) + " WHERE "@
        + crate::text::seq_join(spec_where_parts(pk_cols, pk_vals), " AND "@)
}

/// The full text of a `DELETE` statement.
pub open spec fn spec_delete_sql(
    db_type: Seq<char>,
    schema: Seq<char>,
    table: Seq<char>,
    pk_cols: Seq<String>,
    pk_vals: Seq<SqlValue>,
) -> Seq<char> {
    "DELETE FROM "@ + spec_table_ref(is_sqlite_kind(db_type), schema, table) + " WHERE "@
        + crate::text::seq_join(spec_where_parts(pk_cols, pk_vals), " AND "@)
}

/// The full text of an `INSERT` statement.
pub open spec fn spec_insert_sql(
    db_type: Seq<char>,
    schema: Seq<char>,
    table: Seq<char>,
    fields: Seq<MutationField>,
) -> Seq<char> {
    "INSERT INTO "@ + spec_table_ref(is_sqlite_kind(db_type), schema, table) + " ("@
        + crate::text::seq_join(
            fields.map_values(|f: MutationField| spec_quoted_ident(f.column@)),
            ", "@,
        ) + ") VALUES ("@
        + crate::text::seq_join(
            fields.map_values(|f: MutationField| spec_field_text(f.value)),
            ", "@,
        ) + ")"@
}

/// Render a double-quoted identifier segment.
pub fn quoted_ident(s: &str) -> (r: String)
    ensures
        r@ == spec_quoted_ident(s@),
{
    let mut r = String::from_str("\"");
    proof {
        reveal_strlit("\"\"");
        assert("\"\""@ =~= seq!['"', '"']);
    }
    append_doubled(&mut r, s, '"', "\"\"");
    r.append("\"");
    proof {
        assert(r@ =~= spec_quoted_ident(s@));
    }
    r
}

/// Render one `"column" = value` pair.
fn assignment_of(col: &str, val: &str) -> (r: String)
    ensures
        r@ == spec_assignment(col@, val@),
{
    let mut r = quoted_ident(col);
    r.append(" = ");
    r.append(val);
    proof {
        assert(r@ =~= spec_assignment(col@, val@));
    }
    r
}

/// Render the table reference for the backend kind.
pub fn table_ref(db_type: &str, schema: &str, table: &str) -> (r: String)
    ensures
        r@ == spec_table_ref(is_sqlite_kind(db_type@), schema@, table@),
{
    let single = crate::text::str_eq(db_type, "sqlite") || crate::text::str_eq(
        db_type,
        "sqlite3",
    );
    if single {
        quoted_ident(table)
    } else {
        let mut r = quoted_ident(schema);
        r.append(".");
        let q = quoted_ident(table);
        r.append(q.as_str());
        proof {
            assert(r@ =~= spec_quoted_ident(schema@) + "."@ + spec_quoted_ident(table@));
        }
        r
    }
}

/// Render the fields of a mutation as `SET` fragments, validating every raw
/// fragment.  Returns the fragments, or the composed message for the first
/// rejected fragment.
fn render_set_parts(db_type: &str, fields: &Vec<MutationField>) -> (r: Result<
    Vec<String>,
    String,
>)
    ensures
        match first_bad_raw(fields@) {
            Some(t) => r matches Err(m) && m@ == spec_raw_error(t),
            None => r matches Ok(parts) && parts@.map_values(|p: String| p@)
                == spec_set_parts(fields@),
        },
{
    let mut parts: Vec<String> = Vec::new();
    let mut i: usize = 0;
    proof {
        assert(fields@.take(0) =~= Seq::<MutationField>::empty());
        assert(parts@.map_values(|p: String| p@) =~= spec_set_parts(fields@.take(0)));
    }
    while i < fields.len()
        invariant
            i <= fields@.len(),
            first_bad_raw(fields@.take(i as int)) is None,
            parts@.map_values(|p: String| p@) == spec_set_parts(fields@.take(i as int)),
        decreases fields@.len() - i,
    {
        let f = &fields[i];
        let rendered: String = match &f.value {
            FieldValue::Raw(t) => {
                match validate_raw_sql_value(t.as_str(), db_type) {
                    Err(m) => {
                        proof {
                            lemma_first_bad_push(fields@.take(i as int), fields@[i as int]);
                            assert(fields@.take(i + 1) =~= fields@.take(i as int).push(
                                fields@[i as int],
                            ));
                            assert(first_bad_raw(fields@.take(i + 1)) == Some(t@));
                            lemma_first_bad_take_some(fields@, i + 1);
                        }
                        return Err(m);
                    },
                    Ok(()) => t.clone(),
                }
            },
            FieldValue::Typed(v) => format_sql_value(v),
        };
        let part = assignment_of(f.column.as_str(), rendered.as_str());
        let ghost parts_old = parts@;
        parts.push(part);
        proof {
            lemma_first_bad_push(fields@.take(i as int), fields@[i as int]);
            assert(fields@.take(i + 1) =~= fields@.take(i as int).push(fields@[i as int]));
            assert(parts@.map_values(|p: String| p@)
                =~= parts_old.map_values(|p: String| p@).push(part@));
            assert(spec_set_parts(fields@.take(i + 1))
                =~= spec_set_parts(fields@.take(i as int)).push(
                    spec_assignment(f.column@, spec_field_text(f.value)),
                ));
        }
        i = i + 1;
    }
    proof {
        assert(fields@.take(fields@.len() as int) =~= fields@);
    }
    Ok(parts)
}

/// If a prefix of `s` already contains a rejected raw fragment, the whole
/// sequence reports the same one.
proof fn lemma_first_bad_take_some(s: Seq<MutationField>, j: int)
    requires
        0 <= j <= s.len(),
        first_bad_raw(s.take(j)) is Some,
    ensures
        first_bad_raw(s) == first_bad_raw(s.take(j)),
    decreases s.len(),
{
    if j == 0 {
    } else {
        assert(s.take(j)[0] == s[0]);
        if bad_field(s[0]) is Some {
        } else {
            assert(s.take(j).skip(1) =~= s.skip(1).take(j - 1));
            lemma_first_bad_take_some(s.skip(1), j - 1);
        }
    }
}

/// Render the `WHERE` fragments for the primary-key columns and values.
fn render_where_parts(pk_columns: &Vec<String>, pk_values: &Vec<SqlValue>) -> (r: Vec<String>)
    requires
        pk_columns@.len() == pk_values@.len(),
    ensures
        r@.map_values(|p: String| p@) == spec_where_parts(pk_columns@, pk_values@),
{
    let mut parts: Vec<String> = Vec::new();
    let mut i: usize = 0;
    while i < pk_columns.len()
        invariant
            pk_columns@.len() == pk_values@.len(),
            i <= pk_columns@.len(),
            parts@.map_values(|p: String| p@) =~= Seq::new(
                i as nat,
                |k: int| spec_assignment(pk_columns@[k]@, spec_format_value(pk_values@[k])),
            ),
        decreases pk_columns@.len() - i,
    {
        let v = format_sql_value(&pk_values[i]);
        let part = assignment_of(pk_columns[i].as_str(), v.as_str());
        let ghost parts_old = parts@;
        parts.push(part);
        proof {
            assert(parts@.map_values(|p: String| p@)
                =~= parts_old.map_values(|p: String| p@).push(part@));
            assert(parts@.map_values(|p: String| p@) =~= Seq::new(
                (i + 1) as nat,
                |k: int| spec_assignment(pk_columns@[k]@, spec_format_value(pk_values@[k])),
            ));
        }
        i = i + 1;
    }
    proof {
        assert(parts@.map_values(|p: String| p@) =~= spec_where_parts(pk_columns@, pk_values@));
    }
    parts
}

/// Build the text of an `UPDATE` statement from structured input.
///
/// The primary-key column and value counts must match and at least one field
/// must be given; every raw fragment must pass validation.  On success the
/// result is exactly the statement text described by [`spec_update_sql`].
pub fn build_update_statement(
    db_type: &str,
    schema: &str,
    table: &str,
    fields: &Vec<MutationField>,
    pk_columns: &Vec<String>,
    pk_values: &Vec<SqlValue>,
) -> (r: Result<String, MutationError>)
    ensures
        pk_columns@.len() == 0 || pk_columns@.len() != pk_values@.len()
            ==> r == Err::<String, MutationError>(MutationError::KeyMismatch),
        pk_columns@.len() > 0 && pk_columns@.len() == pk_values@.len() && fields@.len() == 0
            ==> r == Err::<String, MutationError>(MutationError::NoUpdates),
        pk_columns@.len() > 0 && pk_columns@.len() == pk_values@.len() && fields@.len() > 0
            ==> match first_bad_raw(fields@) {
                Some(t) => r matches Err(e) && e matches MutationError::InvalidRaw(m)
                    && m@ == spec_raw_error(t),
                None => r matches Ok(s) && s@ == spec_update_sql(
                    db_type@,
                    schema@,
                    table@,
                    fields@,
                    pk_columns@,
                    pk_values@,
                ),
            },
{
    if pk_columns.len() == 0 || pk_columns.len() != pk_values.len() {
        return Err(MutationError::KeyMismatch);
    }
    if fields.len() == 0 {
        return Err(MutationError::NoUpdates);
    }
    let set_parts = match render_set_parts(db_type, fields) {
        Ok(parts) => parts,
        Err(m) => {
            return Err(MutationError::InvalidRaw(m));
        },
    };
    let set_clause = crate::text::join_with(&set_parts, ", ");
    let where_parts = render_where_parts(pk_columns, pk_values);
    let where_clause = crate::text::join_with(&where_parts, " AND ");
    let tref = table_ref(db_type, schema, table);
    let mut r = String::from_str("UPDATE ");
    r.append(tref.as_str());
    r.append(" SET ");
    r.append(set_clause.as_str());
    r.append(" WHERE ");
    r.append(where_clause.as_str());
    proof {
        assert(r@ =~= spec_update_sql(
            db_type@,
            schema@,
            table@,
            fields@,
            pk_columns@,
            pk_values@,
        ));
    }
    Ok(r)
}

/// Build the text of a `DELETE` statement from the primary-key columns and
/// values.  The counts must match and be non-zero; on success the result is
/// exactly the statement text described by [`spec_delete_sql`].
pub fn build_delete_statement(
    db_type: &str,
    schema: &str,
    table: &str,
    pk_columns: &Vec<String>,
    pk_values: &Vec<SqlValue>,
) -> (r: Result<String, MutationError>)
    ensures
        pk_columns@.len() == 0 || pk_columns@.len() != pk_values@.len()
            ==> r == Err::<String, MutationError>(MutationError::KeyMismatch),
        pk_columns@.len() > 0 && pk_columns@.len() == pk_values@.len()
            ==> (r matches Ok(s) && s@ == spec_delete_sql(
                db_type@,
                schema@,
                table@,
                pk_columns@,
                pk_values@,
            )),
{
    if pk_columns.len() == 0 || pk_columns.len() != pk_values.len() {
        return Err(MutationError::KeyMismatch);
    }
    let where_parts = render_where_parts(pk_columns, pk_values);
    let where_clause = crate::text::join_with(&where_parts, " AND ");
    let tref = table_ref(db_type, schema, table);
    let mut r = String::from_str("DELETE FROM ");
    r.append(tref.as_str());
    r.append(" WHERE ");
    r.append(where_clause.as_str());
    proof {
        assert(r@ =~= spec_delete_sql(db_type@, schema@, table@, pk_columns@, pk_values@));
    }
    Ok(r)
}

/// Build the text of an `INSERT` statement from structured input.  At least
/// one value must be given and every raw fragment must pass validation; on
/// success the result is exactly the statement text described by
/// [`spec_insert_sql`].
pub fn build_insert_statement(
    db_type: &str,
    schema: &str,
    table: &str,
    fields: &Vec<MutationField>,
) -> (r: Result<String, MutationError>)
    ensures
        fields@.len() == 0 ==> r == Err::<String, MutationError>(MutationError::NoValues),
        fields@.len() > 0 ==> match first_bad_raw(fields@) {
            Some(t) => r matches Err(e) && e matches MutationError::InvalidRaw(m)
                && m@ == spec_raw_error(t),
            None => r matches Ok(s) && s@ == spec_insert_sql(
                db_type@,
                schema@,
                table@,
                fields@,
            ),
        },
{
    if fields.len() == 0 {
        return Err(MutationError::NoValues);
    }
    let mut col_parts: Vec<String> = Vec::new();
    let mut val_parts: Vec<String> = Vec::new();
    let mut i: usize = 0;
    proof {
        assert(fields@.take(0) =~= Seq::<MutationField>::empty());
        assert(col_parts@.map_values(|p: String| p@) =~= fields@.take(0).map_values(
            |f: MutationField| spec_quoted_ident(f.column@),
        ));
        assert(val_parts@.map_values(|p: String| p@) =~= fields@.take(0).map_values(
            |f: MutationField| spec_field_text(f.value),
        ));
    }
    while i < fields.len()
        invariant
            i <= fields@.len(),
            first_bad_raw(fields@.take(i as int)) is None,
            col_parts@.map_values(|p: String| p@) == fields@.take(i as int).map_values(
                |f: MutationField| spec_quoted_ident(f.column@),
            ),
            val_parts@.map_values(|p: String| p@) == fields@.take(i as int).map_values(
                |f: MutationField| spec_field_text(f.value),
            ),
        decreases fields@.len() - i,
    {
        let f = &fields[i];
        let rendered: String = match &f.value {
            FieldValue::Raw(t) => {
                match validate_raw_sql_value(t.as_str(), db_type) {
                    Err(m) => {
                        proof {
                            lemma_first_bad_push(fields@.take(i as int), fields@[i as int]);
                            assert(fields@.take(i + 1) =~= fields@.take(i as int).push(
                                fields@[i as int],
                            ));
                            assert(first_bad_raw(fields@.take(i + 1)) == Some(t@));
                            lemma_first_bad_take_some(fields@, i + 1);
                        }
                        return Err(MutationError::InvalidRaw(m));
                    },
                    Ok(()) => t.clone(),
                }
            },
            FieldValue::Typed(v) => format_sql_value(v),
        };
        let col = quoted_ident(f.column.as_str());
        let ghost cols_old = col_parts@;
        let ghost vals_old = val_parts@;
        col_parts.push(col);
        val_parts.push(rendered);
        proof {
            lemma_first_bad_push(fields@.take(i as int), fields@[i as int]);
            assert(fields@.take(i + 1) =~= fields@.take(i as int).push(fields@[i as int]));
            assert(col_parts@.map_values(|p: String| p@)
                =~= cols_old.map_values(|p: String| p@).push(spec_quoted_ident(f.column@)));
            assert(fields@.take(i + 1).map_values(
                |f: MutationField| spec_quoted_ident(f.column@),
            ) =~= fields@.take(i as int).map_values(
                |f: MutationField| spec_quoted_ident(f.column@),
            ).push(spec_quoted_ident(f.column@)));
            assert(val_parts@.map_values(|p: String| p@)
                =~= vals_old.map_values(|p: String| p@).push(spec_field_text(f.value)));
            assert(fields@.take(i + 1).map_values(
                |f: MutationField| spec_field_text(f.value),
            ) =~= fields@.take(i as int).map_values(
                |f: MutationField| spec_field_text(f.value),
            ).push(spec_field_text(f.value)));
        }
        i = i + 1;
    }
    proof {
        assert(fields@.take(fields@.len() as int) =~= fields@);
    }
    let cols_clause = crate::text::join_with(&col_parts, ", ");
    let vals_clause = crate::text::join_with(&val_parts, ", ");
    let tref = table_ref(db_type, schema, table);
    let mut r = String::from_str("INSERT INTO ");
    r.append(tref.as_str());
    r.append(" (");
    r.append(cols_clause.as_str());
    r.append(") VALUES (");
    r.append(vals_clause.as_str());
    r.append(")");
    proof {
        assert(r@ =~= spec_insert_sql(db_type@, schema@, table@, fields@));
    }
    Ok(r)
}

/// Scan for a two-character pattern.
fn find_pair(s: &str, a: char, b: char) -> (r: bool)
    ensures
        r == has_pair(s@, a, b),
{
    let len: usize = s_len(s);
    if len < 2 {
        return false;
    }
    let mut i: usize = 0;
    while i + 1 < len
        invariant
            len == s@.len(),
            i + 1 <= len,
            forall|k: int| 0 <= k < i ==> !(#[trigger] s@[k] == a && s@[k + 1] == b),
        decreases len - i,
    {
        let c0 = s.get_char(i);
        let c1 = s.get_char(i + 1);
        if c0 == a && c1 == b {
            proof {
                assert(has_pair(s@, a, b));
            }
            return true;
        }
        i = i + 1;
    }
    proof {
        assert(!has_pair(s@, a, b));
    }
    false
}

} // verus!
