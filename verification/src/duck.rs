//! The local DuckDB store: which statements to run for extracted
//! documents, and how query rows read back as JSON. The statements are
//! executed by the caller.
use vstd::prelude::*;
use crate::json::{JsonValue, JsonNumber, entries_get, remove_field, unique_keys, object_insert};
use crate::naming::{sanitize_spec, safe_chars, safe_char, col_prefix, unnamed, is_safe_identifier};
use crate::chars::{is_alphanumeric, is_numeric};
use crate::text::{push_char, push_str, concat2, concat3, to_owned_string, path_join, path_join_spec, u64_to_decimal, decimal, first_char, starts_with, str_starts_with};
use crate::chars::{trim, to_uppercase, trimmed, uppercased};
use crate::home::home_dir;

verus! {

/// Why a DuckDB operation could not be planned.
#[derive(Debug, Clone, Copy, PartialEq, Eq, Structural)]
pub enum DbError {
    /// No home directory could be found.
    HomeDirUnavailable,
    /// A table schema needs at least one document.
    NoDocuments,
    /// The first document is not a JSON object.
    InvalidDocumentFormat,
}

/// Counts tables named `extraction_history` in the main schema.
pub const EXTRACTION_HISTORY_EXISTS_SQL: &'static str = "SELECT COUNT(*) FROM information_schema.tables
                 WHERE table_schema = 'main' AND table_name = 'extraction_history'";

/// Creates the sequence of extraction job identifiers.
pub const CREATE_HISTORY_SEQUENCE_SQL: &'static str = "CREATE SEQUENCE IF NOT EXISTS extraction_history_seq START 1";

/// Creates the extraction history table.
pub const CREATE_HISTORY_TABLE_SQL: &'static str = "CREATE TABLE extraction_history (
                    id INTEGER PRIMARY KEY DEFAULT nextval('extraction_history_seq'),
                    profile_name TEXT NOT NULL,
                    index_name TEXT NOT NULL,
                    query TEXT NOT NULL,
                    table_name TEXT NOT NULL,
                    record_count INTEGER NOT NULL,
                    created_at TEXT NOT NULL,
                    status TEXT NOT NULL
                )";

/// Records an extraction job and returns its identifier.
pub const INSERT_EXTRACTION_JOB_SQL: &'static str = "INSERT INTO extraction_history (profile_name, index_name, query, table_name, record_count, created_at, status)
             VALUES (?, ?, ?, ?, ?, ?, ?)
             RETURNING id";

/// The latest hundred extraction jobs, newest first.
pub const EXTRACTION_HISTORY_SQL: &'static str = "SELECT id, profile_name, index_name, query, table_name, record_count, created_at, status
             FROM extraction_history
             ORDER BY created_at DESC
             LIMIT 100";

/// The tables of the main schema.
pub const LIST_TABLES_SQL: &'static str = "SELECT table_name FROM information_schema.tables WHERE table_schema = 'main'";

/// The parts joined with a separator between each two.
pub open spec fn join(parts: Seq<Seq<char>>, sep: Seq<char>) -> Seq<char>
    decreases parts.len(),
{
    if parts.len() == 0 {
        Seq::<char>::empty()
    } else if parts.len() == 1 {
        parts[0]
    } else {
        join(parts.drop_last(), sep) + sep + parts.last()
    }
}

/// The views of a list of strings.
pub open spec fn views(v: Seq<String>) -> Seq<Seq<char>> {
    Seq::new(v.len(), |i: int| v[i]@)
}

/// Joins strings with a separator between each two.
pub fn join_strings(parts: &Vec<String>, sep: &str) -> (r: String)
    ensures
        r@ == join(views(parts@), sep@),
{
    let mut r = String::new();
    let mut i: usize = 0;
    while i < parts.len()
        invariant
            i <= parts@.len(),
            r@ == join(views(parts@).take(i as int), sep@),
        decreases parts@.len() - i,
    {
        proof {
            assert(views(parts@).take(i + 1).drop_last() =~= views(parts@).take(i as int));
        }
        if i > 0 {
            push_str(&mut r, sep);
        } else {
            proof {
                assert(views(parts@).take(0) =~= Seq::<Seq<char>>::empty());
            }
        }
        push_str(&mut r, parts[i].as_str());
        i = i + 1;
    }
    proof {
        assert(views(parts@).take(parts@.len() as int) =~= views(parts@));
    }
    r
}

/// An identifier in double quotes.
pub open spec fn quoted(s: Seq<char>) -> Seq<char> {
    seq!['"'] + s + seq!['"']
}

/// `s` in double quotes.
pub fn quote(s: &str) -> (r: String)
    ensures
        r@ == quoted(s@),
{
    let mut r = String::new();
    push_char(&mut r, '"');
    push_str(&mut r, s);
    push_char(&mut r, '"');
    proof {
        assert(r@ =~= quoted(s@));
    }
    r
}

/// The column type a JSON value gives: `DOUBLE` for a floating-point
/// number, `BIGINT` for another number, `BOOLEAN` for a boolean, and
/// `TEXT` for anything else.
pub open spec fn column_type_spec(v: JsonValue) -> Seq<char> {
    match v {
        JsonValue::Number(JsonNumber::Float(_)) => "DOUBLE"@,
        JsonValue::Number(_) => "BIGINT"@,
        JsonValue::Bool(_) => "BOOLEAN"@,
        _ => "TEXT"@,
    }
}

/// The column type a JSON value gives.
pub fn column_type(v: &JsonValue) -> (r: &'static str)
    ensures
        r@ == column_type_spec(*v),
{
    match v {
        JsonValue::Number(n) => if n.is_f64() {
            "DOUBLE"
        } else {
            "BIGINT"
        },
        JsonValue::Bool(_) => "BOOLEAN",
        _ => "TEXT",
    }
}

/// The column definitions that object entries give: each key made safe,
/// in double quotes, and its type.
pub open spec fn column_defs(entries: Seq<(String, JsonValue)>) -> Seq<Seq<char>> {
    Seq::new(entries.len(), |i: int| quoted(sanitize_spec(entries[i].0@)) + seq![' '] + column_type_spec(entries[i].1))
}

/// The column definitions of the first document: none when it is not an
/// object.
pub open spec fn first_doc_columns(doc: JsonValue) -> Seq<Seq<char>> {
    match doc {
        JsonValue::Object(entries) => column_defs(entries@),
        _ => Seq::<Seq<char>>::empty(),
    }
}

/// The statement that drops a table if it exists.
pub open spec fn drop_table_sql(table: Seq<char>) -> Seq<char> {
    "DROP TABLE IF EXISTS "@ + quoted(table)
}

/// The statement that creates a table with the given column definitions.
pub open spec fn create_table_sql(table: Seq<char>, columns: Seq<Seq<char>>) -> Seq<char> {
    "CREATE TABLE "@ + quoted(table) + " ("@ + join(columns, ", "@) + ")"@
}

/// The columns an insertion names are the columns its table was made
/// with: for the same first document, each column definition of the
/// table is the insertion's column, a space, and the column's type.
pub proof fn law_insert_matches_table(entries: Seq<(String, JsonValue)>)
    ensures
        column_defs(entries).len() == keys_of(entries).len(),
        forall|j: int| 0 <= j < entries.len() ==> #[trigger] column_defs(entries)[j]
            == quoted(sanitize_spec(keys_of(entries)[j])) + seq![' '] + column_type_spec(entries[j].1),
{
}

/// The `SELECT` statement for a whole table, or its first `limit` rows.
pub open spec fn select_table_sql(table: Seq<char>, limit: Option<usize>) -> Seq<char> {
    match limit {
        Some(l) => "SELECT * FROM "@ + quoted(table) + " LIMIT "@ + decimal(l as nat),
        None => "SELECT * FROM "@ + quoted(table),
    }
}

/// A value bound to a statement parameter. `Double` holds the number to
/// bind as a double; `Json` holds a value to bind as its JSON text.
#[derive(Debug)]
pub enum SqlValue {
    Null,
    BigInt(i64),
    Double(JsonNumber),
    Boolean(bool),
    Text(String),
    Json(JsonValue),
}

/// The parameter a JSON value binds as: an integer that fits as a big
/// integer, another number as a double, a boolean as a boolean, a string
/// as text, an array or object as its JSON text, and `null` as NULL.
pub open spec fn sql_value_of(v: JsonValue) -> SqlValue {
    match v {
        JsonValue::Number(n) => match n {
            JsonNumber::PosInt(u) => if u <= i64::MAX as u64 {
                SqlValue::BigInt(u as i64)
            } else {
                SqlValue::Double(n)
            },
            JsonNumber::NegInt(i) => SqlValue::BigInt(i),
            JsonNumber::Float(_) => SqlValue::Double(n),
        },
        JsonValue::Bool(b) => SqlValue::Boolean(b),
        JsonValue::String(s) => SqlValue::Text(s),
        JsonValue::Null => SqlValue::Null,
        _ => SqlValue::Json(v),
    }
}

/// What a document's value is stored as: only `null` binds as NULL; an
/// object or an array keeps its whole content as its JSON text; a string,
/// a boolean and an integer that fits bind as themselves; any other
/// number binds as a double.
pub proof fn law_values_bind_by_kind(v: JsonValue)
    ensures
        sql_value_of(v) is Null <==> v is Null,
        v is Object ==> sql_value_of(v) == SqlValue::Json(v),
        v is Array ==> sql_value_of(v) == SqlValue::Json(v),
        v is String ==> sql_value_of(v) == SqlValue::Text(v->String_0),
        v is Bool ==> sql_value_of(v) == SqlValue::Boolean(v->Bool_0),
        v is Number && v->Number_0 is NegInt ==> sql_value_of(v) == SqlValue::BigInt(v->Number_0->NegInt_0),
        v is Number && v->Number_0 is PosInt && v->Number_0->PosInt_0 <= 9223372036854775807
            ==> sql_value_of(v) is BigInt && sql_value_of(v)->BigInt_0 == v->Number_0->PosInt_0,
        v is Number && v->Number_0 is PosInt && v->Number_0->PosInt_0 > 9223372036854775807
            ==> sql_value_of(v) == SqlValue::Double(v->Number_0),
        v is Number && v->Number_0 is Float ==> sql_value_of(v) == SqlValue::Double(v->Number_0),
{
}

/// The parameter a JSON value binds as.
pub fn to_sql_value(v: JsonValue) -> (r: SqlValue)
    ensures
        r == sql_value_of(v),
{
    match v {
        JsonValue::Number(n) => match n.as_i64() {
            Some(i) => SqlValue::BigInt(i),
            None => SqlValue::Double(n),
        },
        JsonValue::Bool(b) => SqlValue::Boolean(b),
        JsonValue::String(s) => SqlValue::Text(s),
        JsonValue::Null => SqlValue::Null,
        other => SqlValue::Json(other),
    }
}

/// The value of an entry lookup, or `null` when there is none.
pub open spec fn value_or_null(v: Option<JsonValue>) -> JsonValue {
    match v {
        Some(x) => x,
        None => JsonValue::Null,
    }
}

/// The parameters of one row: for each key, what the document's value
/// under it binds as (`null` when missing).
pub open spec fn row_values(keys: Seq<Seq<char>>, entries: Seq<(String, JsonValue)>) -> Seq<SqlValue> {
    Seq::new(keys.len(), |j: int| sql_value_of(value_or_null(entries_get(entries, keys[j]))))
}

/// The rows of the documents that are objects, in order.
pub open spec fn object_rows(keys: Seq<Seq<char>>, docs: Seq<JsonValue>) -> Seq<Seq<SqlValue>>
    decreases docs.len(),
{
    if docs.len() == 0 {
        Seq::<Seq<SqlValue>>::empty()
    } else {
        match docs.last() {
            JsonValue::Object(e) => object_rows(keys, docs.drop_last()).push(row_values(keys, e@)),
            _ => object_rows(keys, docs.drop_last()),
        }
    }
}

/// The views of a list of rows.
pub open spec fn rows_view(rows: Seq<Vec<SqlValue>>) -> Seq<Seq<SqlValue>> {
    Seq::new(rows.len(), |k: int| rows[k]@)
}

/// The statement that inserts one row into a table, with one parameter
/// per column.
pub open spec fn insert_sql_spec(table: Seq<char>, keys: Seq<Seq<char>>) -> Seq<char> {
    "INSERT INTO "@ + quoted(table) + " ("@
        + join(Seq::new(keys.len(), |j: int| quoted(sanitize_spec(keys[j]))), ", "@)
        + ") VALUES ("@ + join(Seq::new(keys.len(), |j: int| "?"@), ", "@) + ")"@
}

/// The keys of object entries, in order.
pub open spec fn keys_of(entries: Seq<(String, JsonValue)>) -> Seq<Seq<char>> {
    Seq::new(entries.len(), |i: int| entries[i].0@)
}

/// An insertion of documents: the statement, and the parameters of each
/// row to run it with. Nothing is to be run when there are no rows.
#[derive(Debug)]
pub struct InsertPlan {
    pub sql: String,
    pub rows: Vec<Vec<SqlValue>>,
}

/// The row of one document.
fn document_row(keys: &Vec<String>, entries: Vec<(String, JsonValue)>) -> (r: Vec<SqlValue>)
    requires
        forall|a: int, b: int| 0 <= a < b < keys@.len() ==> (#[trigger] keys@[a])@ != (#[trigger] keys@[b])@,
    ensures
        r@ == row_values(views(keys@), entries@),
{
    let mut entries = entries;
    let ghost initial = entries@;
    let mut row: Vec<SqlValue> = Vec::new();
    let mut j: usize = 0;
    while j < keys.len()
        invariant
            j <= keys@.len(),
            forall|a: int, b: int| 0 <= a < b < keys@.len() ==> (#[trigger] keys@[a])@ != (#[trigger] keys@[b])@,
            row@ == row_values(views(keys@), initial).take(j as int),
            forall|m: int| j <= m < keys@.len() ==> entries_get(entries@, (#[trigger] keys@[m])@) == entries_get(initial, keys@[m]@),
        decreases keys@.len() - j,
    {
        let ghost before = entries@;
        let v = match remove_field(&mut entries, keys[j].as_str()) {
            Some(x) => x,
            None => JsonValue::Null,
        };
        proof {
            assert forall|m: int| j + 1 <= m < keys@.len() implies entries_get(entries@, (#[trigger] keys@[m])@) == entries_get(initial, keys@[m]@) by {
                assert(keys@[m]@ != keys@[j as int]@);
            }
        }
        row.push(to_sql_value(v));
        proof {
            assert(row_values(views(keys@), initial).take(j + 1) =~= row_values(views(keys@), initial).take(j as int).push(row@.last()));
        }
        j = j + 1;
    }
    proof {
        assert(row_values(views(keys@), initial).take(keys@.len() as int) =~= row_values(views(keys@), initial));
    }
    row
}

/// A value read from a query result. A double comes with its IEEE-754
/// bits and whether it is finite; `Other` is any other kind of value.
#[derive(Debug)]
pub enum DbCell {
    BigInt(i64),
    Int(i32),
    Double(u64, bool),
    Text(String),
    Boolean(bool),
    Other,
}

/// The JSON number of a signed integer.
pub open spec fn int_json(n: i64) -> JsonValue {
    if n < 0 {
        JsonValue::Number(JsonNumber::NegInt(n))
    } else {
        JsonValue::Number(JsonNumber::PosInt(n as u64))
    }
}

/// The JSON number of a signed integer.
pub fn to_int_json(n: i64) -> (r: JsonValue)
    ensures
        r == int_json(n),
{
    if n < 0 {
        JsonValue::Number(JsonNumber::NegInt(n))
    } else {
        JsonValue::Number(JsonNumber::PosInt(n as u64))
    }
}

/// The JSON value of a cell of a table read: big integers, finite
/// doubles, text and booleans as themselves; anything else as `null`.
pub open spec fn table_cell_json(c: DbCell) -> JsonValue {
    match c {
        DbCell::BigInt(n) => int_json(n),
        DbCell::Double(bits, finite) => if finite {
            JsonValue::Number(JsonNumber::Float(bits))
        } else {
            JsonValue::Null
        },
        DbCell::Text(t) => JsonValue::String(t),
        DbCell::Boolean(b) => JsonValue::Bool(b),
        _ => JsonValue::Null,
    }
}

/// The JSON value of a cell of a query result: as for a table read, and
/// 32-bit integers as numbers too.
pub open spec fn query_cell_json(c: DbCell) -> JsonValue {
    match c {
        DbCell::Int(n) => int_json(n as i64),
        _ => table_cell_json(c),
    }
}

/// A cell reads back as the JSON value of what it holds: a big integer
/// (and, in a query result, a 32-bit integer) as the number of the same
/// value, a finite double as that double, text as the string, a boolean as
/// itself; only a non-finite double and a kind without a JSON form read as
/// `null` (and, in a table read, a 32-bit integer).
pub proof fn law_cells_read_as_their_values(c: DbCell)
    ensures
        c is BigInt && c->BigInt_0 >= 0 ==> table_cell_json(c) == JsonValue::Number(JsonNumber::PosInt(c->BigInt_0 as u64))
            && query_cell_json(c) == JsonValue::Number(JsonNumber::PosInt(c->BigInt_0 as u64)),
        c is BigInt && c->BigInt_0 < 0 ==> table_cell_json(c) == JsonValue::Number(JsonNumber::NegInt(c->BigInt_0))
            && query_cell_json(c) == JsonValue::Number(JsonNumber::NegInt(c->BigInt_0)),
        c is Int && c->Int_0 >= 0 ==> query_cell_json(c) == JsonValue::Number(JsonNumber::PosInt(c->Int_0 as u64)),
        c is Int && c->Int_0 < 0 ==> query_cell_json(c) == JsonValue::Number(JsonNumber::NegInt(c->Int_0 as i64)),
        c is Double && c->Double_1 ==> table_cell_json(c) == JsonValue::Number(JsonNumber::Float(c->Double_0))
            && query_cell_json(c) == JsonValue::Number(JsonNumber::Float(c->Double_0)),
        c is Text ==> table_cell_json(c) == JsonValue::String(c->Text_0) && query_cell_json(c) == JsonValue::String(c->Text_0),
        c is Boolean ==> table_cell_json(c) == JsonValue::Bool(c->Boolean_0) && query_cell_json(c) == JsonValue::Bool(c->Boolean_0),
        table_cell_json(c) is Null <==> (c is Int || c is Other || (c is Double && !c->Double_1)),
        query_cell_json(c) is Null <==> (c is Other || (c is Double && !c->Double_1)),
{
}

fn to_table_cell_json(c: DbCell) -> (r: JsonValue)
    ensures
        r == table_cell_json(c),
{
    match c {
        DbCell::BigInt(n) => to_int_json(n),
        DbCell::Double(bits, finite) => if finite {
            JsonValue::Number(JsonNumber::Float(bits))
        } else {
            JsonValue::Null
        },
        DbCell::Text(t) => JsonValue::String(t),
        DbCell::Boolean(b) => JsonValue::Bool(b),
        _ => JsonValue::Null,
    }
}

fn to_query_cell_json(c: DbCell) -> (r: JsonValue)
    ensures
        r == query_cell_json(c),
{
    match c {
        DbCell::Int(n) => to_int_json(n as i64),
        other => to_table_cell_json(other),
    }
}

/// The value an object gets under `k` from inserting, in order, each
/// named value that is present: the last one inserted under `k`.
pub open spec fn last_inserted(pairs: Seq<(Seq<char>, Option<JsonValue>)>, k: Seq<char>) -> Option<JsonValue>
    decreases pairs.len(),
{
    if pairs.len() == 0 {
        None
    } else if pairs.last().0 == k && pairs.last().1 is Some {
        pairs.last().1
    } else {
        last_inserted(pairs.drop_last(), k)
    }
}

/// The keys an object gets from inserting, in order, each named value
/// that is present: each key once, where it first came.
pub open spec fn inserted_keys(pairs: Seq<(Seq<char>, Option<JsonValue>)>) -> Seq<Seq<char>>
    decreases pairs.len(),
{
    if pairs.len() == 0 {
        Seq::<Seq<char>>::empty()
    } else {
        let before = inserted_keys(pairs.drop_last());
        if pairs.last().1 is Some && !before.contains(pairs.last().0) {
            before.push(pairs.last().0)
        } else {
            before
        }
    }
}

/// Whether an object holds exactly what inserting the named values in
/// order gives.
pub open spec fn holds_inserted(v: JsonValue, pairs: Seq<(Seq<char>, Option<JsonValue>)>) -> bool {
    &&& v is Object
    &&& crate::json::entry_keys(v->Object_0@) == inserted_keys(pairs)
    &&& forall|k: Seq<char>| #[trigger] entries_get(v->Object_0@, k) == last_inserted(pairs, k)
}

/// Names paired with the JSON values of a row's cells.
pub open spec fn table_row_pairs(names: Seq<String>, cells: Seq<Option<DbCell>>) -> Seq<(Seq<char>, Option<JsonValue>)> {
    Seq::new(cells.len(), |i: int| (names[i]@, match cells[i] {
        Some(c) => Some(table_cell_json(c)),
        None => None,
    }))
}

/// The name of a query result column: the described name, or `col_` and
/// its position when there is none.
pub open spec fn column_name_at(names: Seq<String>, i: int) -> Seq<char> {
    if 0 <= i < names.len() {
        names[i]@
    } else {
        "col_"@ + decimal(i as nat)
    }
}

/// Names paired with the JSON values of a query result row.
pub open spec fn query_row_pairs(names: Seq<String>, cells: Seq<DbCell>) -> Seq<(Seq<char>, Option<JsonValue>)> {
    Seq::new(cells.len(), |i: int| (column_name_at(names, i), Some(query_cell_json(cells[i]))))
}

/// Inserts named values into a fresh object, in order.
fn object_of_pairs(names: Vec<String>, values: Vec<Option<JsonValue>>) -> (r: JsonValue)
    requires
        names@.len() == values@.len(),
    ensures
        holds_inserted(r, Seq::new(names@.len(), |i: int| (names@[i]@, values@[i]))),
{
    let ghost pairs = Seq::new(names@.len(), |i: int| (names@[i]@, values@[i]));
    let mut entries: Vec<(String, JsonValue)> = Vec::new();
    let mut names = names;
    let mut values = values;
    let ghost all_names = names@;
    let ghost all_values = values@;
    let mut i: usize = 0;
    let n = names.len();
    while names.len() > 0
        invariant
            n == all_names.len(),
            all_names.len() == all_values.len(),
            names@.len() == values@.len(),
            i + names@.len() == n,
            names@ == all_names.subrange(i as int, n as int),
            values@ == all_values.subrange(i as int, n as int),
            pairs == Seq::new(all_names.len(), |j: int| (all_names[j]@, all_values[j])),
            crate::json::entry_keys(entries@) == inserted_keys(pairs.take(i as int)),
            forall|k: Seq<char>| #[trigger] entries_get(entries@, k) == last_inserted(pairs.take(i as int), k),
        decreases names@.len(),
    {
        let name = names.remove(0);
        let value = values.remove(0);
        proof {
            assert(pairs.take(i + 1).drop_last() =~= pairs.take(i as int));
            assert(pairs.take(i + 1).last() == (name@, value));
        }
        match value {
            Some(v) => {
                let ghost key = name@;
                let ghost before = entries@;
                object_insert(&mut entries, name, v);
                proof {
                    assert forall|k: Seq<char>| #[trigger] entries_get(entries@, k) == last_inserted(pairs.take(i + 1), k) by {
                        if k != key {
                            assert(entries_get(entries@, k) == entries_get(before, k));
                        }
                    }
                }
            },
            None => {},
        }
        i = i + 1;
    }
    proof {
        assert(pairs.take(n as int) =~= pairs);
    }
    JsonValue::Object(entries)
}

/// The name of a table read column: the name the statement gives, or
/// `unknown` when it gives none.
pub fn column_name_or_unknown(name: Option<String>) -> (r: String)
    ensures
        name matches Some(s) ==> r == s,
        name is None ==> r@ == "unknown"@,
{
    match name {
        Some(s) => s,
        None => to_owned_string("unknown"),
    }
}

/// A row of a table read as a JSON object: each cell that could be read,
/// under its column name (a later column of the same name wins).
pub fn table_row_to_json(column_names: &Vec<String>, cells: Vec<Option<DbCell>>) -> (r: JsonValue)
    requires
        cells@.len() == column_names@.len(),
    ensures
        holds_inserted(r, table_row_pairs(column_names@, cells@)),
{
    let mut names: Vec<String> = Vec::new();
    let mut values: Vec<Option<JsonValue>> = Vec::new();
    let ghost all_cells = cells@;
    let mut cells = cells;
    let mut i: usize = 0;
    let n = cells.len();
    while cells.len() > 0
        invariant
            n == all_cells.len(),
            all_cells.len() == column_names@.len(),
            i + cells@.len() == n,
            cells@ == all_cells.subrange(i as int, n as int),
            names@.len() == i,
            values@.len() == i,
            forall|j: int| 0 <= j < i ==> (#[trigger] names@[j])@ == column_names@[j]@,
            forall|j: int| 0 <= j < i ==> #[trigger] values@[j] == table_row_pairs(column_names@, all_cells)[j].1,
        decreases cells@.len(),
    {
        let cell = cells.remove(0);
        names.push(column_names[i].clone());
        let v = match cell {
            Some(c) => Some(to_table_cell_json(c)),
            None => None,
        };
        values.push(v);
        i = i + 1;
    }
    let r = object_of_pairs(names, values);
    proof {
        assert(Seq::new(names@.len(), |j: int| (names@[j]@, values@[j])) =~= table_row_pairs(column_names@, all_cells));
    }
    r
}

/// The statement that describes the columns a query gives.
pub fn describe_sql(sql: &str) -> (r: String)
    ensures
        r@ == "DESCRIBE ("@ + sql@ + ")"@,
{
    concat3("DESCRIBE (", sql, ")")
}

/// `col_` and a position.
pub fn generic_column_name(i: usize) -> (r: String)
    ensures
        r@ == "col_"@ + decimal(i as nat),
{
    let digits = u64_to_decimal(i as u64);
    concat2("col_", digits.as_str())
}

/// The column names of a query result: the described names, or `col_0`
/// to `col_99` when the description gives none.
pub fn result_column_names(described: Vec<String>) -> (r: Vec<String>)
    ensures
        described@.len() > 0 ==> r == described,
        described@.len() == 0 ==> r@.len() == 100 && forall|i: int| 0 <= i < 100 ==> (#[trigger] r@[i])@ == "col_"@ + decimal(i as nat),
{
    if described.len() > 0 {
        return described;
    }
    let mut r: Vec<String> = Vec::new();
    let mut i: usize = 0;
    while i < 100
        invariant
            i <= 100,
            r@.len() == i,
            forall|j: int| 0 <= j < i ==> (#[trigger] r@[j])@ == "col_"@ + decimal(j as nat),
        decreases 100 - i,
    {
        r.push(generic_column_name(i));
        i = i + 1;
    }
    r
}

/// A query result row as a JSON object: each value under its column name,
/// or under `col_` and its position past the known names (a later column
/// of the same name wins).
pub fn query_row_to_json(column_names: &Vec<String>, cells: Vec<DbCell>) -> (r: JsonValue)
    ensures
        holds_inserted(r, query_row_pairs(column_names@, cells@)),
{
    let mut names: Vec<String> = Vec::new();
    let mut values: Vec<Option<JsonValue>> = Vec::new();
    let ghost all_cells = cells@;
    let mut cells = cells;
    let mut i: usize = 0;
    let n = cells.len();
    while cells.len() > 0
        invariant
            n == all_cells.len(),
            i + cells@.len() == n,
            cells@ == all_cells.subrange(i as int, n as int),
            names@.len() == i,
            values@.len() == i,
            forall|j: int| 0 <= j < i ==> (#[trigger] names@[j])@ == column_name_at(column_names@, j),
            forall|j: int| 0 <= j < i ==> #[trigger] values@[j] == Some(query_cell_json(all_cells[j])),
        decreases cells@.len(),
    {
        let cell = cells.remove(0);
        let name = if i < column_names.len() {
            column_names[i].clone()
        } else {
            generic_column_name(i)
        };
        names.push(name);
        values.push(Some(to_query_cell_json(cell)));
        i = i + 1;
    }
    let r = object_of_pairs(names, values);
    proof {
        assert(Seq::new(names@.len(), |j: int| (names@[j]@, values@[j])) =~= query_row_pairs(column_names@, all_cells));
    }
    r
}

/// Where the local database lives.
pub struct DuckDBService {
    db_path: String,
}

impl DuckDBService {
    /// The database file.
    pub closed spec fn path(&self) -> Seq<char> {
        self.db_path@
    }

    /// The store in `.es_client/data.duckdb` under the home directory. The
    /// caller creates the directory and runs `init_tables`.
    pub fn new() -> (r: Result<DuckDBService, DbError>)
        ensures
            r matches Ok(s) ==> exists|home: Seq<char>|
                #[trigger] path_join_spec(path_join_spec(home, ".es_client"@), "data.duckdb"@) == s.path(),
            r matches Err(e) ==> e == DbError::HomeDirUnavailable,
    {
        match home_dir() {
            None => Err(DbError::HomeDirUnavailable),
            Some(home) => Ok(Self::new_under(home.as_str())),
        }
    }

    /// The store in `.es_client/data.duckdb` under the given home
    /// directory.
    pub fn new_under(home: &str) -> (r: DuckDBService)
        ensures
            r.path() == path_join_spec(path_join_spec(home@, ".es_client"@), "data.duckdb"@),
    {
        let dir = path_join(home, ".es_client");
        DuckDBService { db_path: path_join(dir.as_str(), "data.duckdb") }
    }

    /// The safe identifier for `name`: non-alphanumeric characters other than
    /// `_` become `_`; a result starting with a number gets `col_` in front; an
    /// empty one becomes `col_unnamed`.
    pub fn sanitize_column_name(name: &str) -> (r: String)
        ensures
            r@ == sanitize_spec(name@),
            is_safe_identifier(r@),
    {
        let mut s = String::new();
        let mut first: Option<char> = None;
        for c in it: name.chars()
            invariant
                it.seq() == name@,
                s@ == safe_chars(name@.take(it.index() as int)),
                it.index() == 0 ==> first is None,
                it.index() > 0 ==> first == Some(s@[0]),
        {
            let keep = is_alphanumeric(c) || c == '_';
            let d = if keep { c } else { '_' };
            push_char(&mut s, d);
            if first.is_none() {
                first = Some(d);
            }
            proof {
                assert(safe_chars(name@.take(it.index() + 1)) =~= safe_chars(name@.take(it.index() as int)).push(safe_char(c)));
            }
        }
        proof {
            assert(name@.take(name@.len() as int) =~= name@);
            crate::naming::law_sanitize_is_safe(name@);
        }
        let starts_numeric = match first {
            Some(c) => is_numeric(c),
            None => false,
        };
        if starts_numeric {
            let r = concat2("col_", s.as_str());
            proof {
                reveal_strlit("col_");
                assert("col_"@ =~= col_prefix());
            }
            r
        } else if first.is_none() {
            let r = "col_unnamed".to_owned();
            proof {
                reveal_strlit("col_unnamed");
                assert("col_unnamed"@ =~= unnamed());
            }
            r
        } else {
            s
        }
    }

    /// The database file.
    pub fn db_path(&self) -> (r: &str)
        ensures
            r@ == self.path(),
    {
        self.db_path.as_str()
    }

    /// The statements that prepare the extraction history: none when its
    /// table exists, else the identifier sequence and the table.
    pub fn init_tables(&self, table_exists: bool) -> (r: Vec<String>)
        ensures
            table_exists ==> r@.len() == 0,
            !table_exists ==> r@.len() == 2 && r@[0]@ == CREATE_HISTORY_SEQUENCE_SQL@ && r@[1]@ == CREATE_HISTORY_TABLE_SQL@,
    {
        let mut r: Vec<String> = Vec::new();
        if !table_exists {
            r.push(to_owned_string(CREATE_HISTORY_SEQUENCE_SQL));
            r.push(to_owned_string(CREATE_HISTORY_TABLE_SQL));
        }
        r
    }

    /// The statements that make a fresh table for the documents: drop any
    /// table of the safe name, then create it with one column per entry of
    /// the first document, typed by that entry's value.
    pub fn create_data_table(&self, table_name: &str, documents: &Vec<JsonValue>) -> (r: Result<Vec<String>, DbError>)
        ensures
            documents@.len() == 0 ==> r is Err && r->Err_0 == DbError::NoDocuments,
            documents@.len() > 0 ==> r is Ok && r->Ok_0@.len() == 2
                && r->Ok_0@[0]@ == drop_table_sql(sanitize_spec(table_name@))
                && r->Ok_0@[1]@ == create_table_sql(sanitize_spec(table_name@), first_doc_columns(documents@[0])),
    {
        if documents.len() == 0 {
            return Err(DbError::NoDocuments);
        }
        let safe_table = Self::sanitize_column_name(table_name);
        let quoted_table = quote(safe_table.as_str());
        let drop_sql = concat2("DROP TABLE IF EXISTS ", quoted_table.as_str());
        let mut columns: Vec<String> = Vec::new();
        match &documents[0] {
            JsonValue::Object(entries) => {
                let mut i: usize = 0;
                while i < entries.len()
                    invariant
                        i <= entries@.len(),
                        columns@.len() == i,
                        forall|j: int| 0 <= j < i ==> (#[trigger] columns@[j])@ == column_defs(entries@)[j],
                    decreases entries@.len() - i,
                {
                    let col = Self::sanitize_column_name(entries[i].0.as_str());
                    let quoted_col = quote(col.as_str());
                    let def = concat3(quoted_col.as_str(), " ", column_type(&entries[i].1));
                    proof {
                        reveal_strlit(" ");
                    }
                    columns.push(def);
                    i = i + 1;
                }
                proof {
                    assert(views(columns@) =~= column_defs(entries@));
                }
            },
            _ => {
                proof {
                    assert(views(columns@) =~= Seq::<Seq<char>>::empty());
                }
            },
        }
        let joined = join_strings(&columns, ", ");
        let mut create_sql = concat3("CREATE TABLE ", quoted_table.as_str(), " (");
        push_str(&mut create_sql, joined.as_str());
        push_str(&mut create_sql, ")");
        let mut r: Vec<String> = Vec::new();
        r.push(drop_sql);
        r.push(create_sql);
        Ok(r)
    }

    /// The `SELECT` statement for a table of the safe name, limited to
    /// `limit` rows when given.
    pub fn query_table(&self, table_name: &str, limit: Option<usize>) -> (r: String)
        ensures
            r@ == select_table_sql(sanitize_spec(table_name@), limit),
    {
        let safe_table = Self::sanitize_column_name(table_name);
        let quoted_table = quote(safe_table.as_str());
        let mut sql = concat2("SELECT * FROM ", quoted_table.as_str());
        match limit {
            Some(l) => {
                push_str(&mut sql, " LIMIT ");
                let digits = u64_to_decimal(l as u64);
                push_str(&mut sql, digits.as_str());
            },
            None => {},
        }
        sql
    }

    /// The insertion of the documents into the table of the safe name:
    /// one column per entry of the first document, and one row per
    /// document that is an object. Nothing is inserted when there are no
    /// documents.
    pub fn insert_data(&self, table_name: &str, documents: Vec<JsonValue>) -> (r: Result<InsertPlan, DbError>)
        requires
            documents@.len() > 0 && documents@[0] is Object ==> unique_keys(documents@[0]->Object_0@),
        ensures
            documents@.len() == 0 ==> r is Ok && r->Ok_0.rows@.len() == 0,
            documents@.len() > 0 && !(documents@[0] is Object) ==> r is Err && r->Err_0 == DbError::InvalidDocumentFormat,
            documents@.len() > 0 && documents@[0] is Object ==> r is Ok
                && r->Ok_0.sql@ == insert_sql_spec(sanitize_spec(table_name@), keys_of(documents@[0]->Object_0@))
                && rows_view(r->Ok_0.rows@) == object_rows(keys_of(documents@[0]->Object_0@), documents@),
    {
        if documents.len() == 0 {
            return Ok(InsertPlan { sql: String::new(), rows: Vec::new() });
        }
        let mut keys: Vec<String> = Vec::new();
        match &documents[0] {
            JsonValue::Object(entries) => {
                let mut i: usize = 0;
                while i < entries.len()
                    invariant
                        i <= entries@.len(),
                        views(keys@) == keys_of(entries@).take(i as int),
                    decreases entries@.len() - i,
                {
                    let ghost before = keys@;
                    let k = entries[i].0.clone();
                    keys.push(k);
                    proof {
                        assert(keys@ == before.push(k));
                        assert(views(keys@) =~= views(before).push(k@));
                        assert(keys_of(entries@).take(i + 1) =~= keys_of(entries@).take(i as int).push(entries@[i as int].0@));
                    }
                    i = i + 1;
                }
                proof {
                    assert(keys_of(entries@).take(entries@.len() as int) =~= keys_of(entries@));
                }
            },
            _ => return Err(DbError::InvalidDocumentFormat),
        }
        let ghost first_keys = views(keys@);
        let mut columns: Vec<String> = Vec::new();
        let mut marks: Vec<String> = Vec::new();
        let mut i: usize = 0;
        while i < keys.len()
            invariant
                i <= keys@.len(),
                columns@.len() == i,
                marks@.len() == i,
                forall|j: int| 0 <= j < i ==> (#[trigger] columns@[j])@ == quoted(sanitize_spec(keys@[j]@)),
                forall|j: int| 0 <= j < i ==> (#[trigger] marks@[j])@ == "?"@,
            decreases keys@.len() - i,
        {
            let safe = Self::sanitize_column_name(keys[i].as_str());
            columns.push(quote(safe.as_str()));
            marks.push(to_owned_string("?"));
            i = i + 1;
        }
        proof {
            assert(views(columns@) =~= Seq::new(keys@.len(), |j: int| quoted(sanitize_spec(first_keys[j]))));
            assert(views(marks@) =~= Seq::new(keys@.len(), |j: int| "?"@));
        }
        let safe_table = Self::sanitize_column_name(table_name);
        let quoted_table = quote(safe_table.as_str());
        let mut sql = concat3("INSERT INTO ", quoted_table.as_str(), " (");
        let column_list = join_strings(&columns, ", ");
        push_str(&mut sql, column_list.as_str());
        push_str(&mut sql, ") VALUES (");
        let mark_list = join_strings(&marks, ", ");
        push_str(&mut sql, mark_list.as_str());
        push_str(&mut sql, ")");
        proof {
            assert forall|a: int, b: int| 0 <= a < b < keys@.len() implies (#[trigger] keys@[a])@ != (#[trigger] keys@[b])@ by {
                let e = documents@[0]->Object_0@;
                assert(keys@[a]@ == keys_of(e)[a]);
                assert(keys@[b]@ == keys_of(e)[b]);
            }
        }
        let ghost docs = documents@;
        let mut rows: Vec<Vec<SqlValue>> = Vec::new();
        let mut remaining = documents;
        let mut taken: usize = 0;
        let total = remaining.len();
        while remaining.len() > 0
            invariant
                total == docs.len(),
                taken + remaining@.len() == docs.len(),
                remaining@ == docs.subrange(taken as int, docs.len() as int),
                rows_view(rows@) == object_rows(first_keys, docs.take(taken as int)),
                first_keys == views(keys@),
                forall|a: int, b: int| 0 <= a < b < keys@.len() ==> (#[trigger] keys@[a])@ != (#[trigger] keys@[b])@,
            decreases remaining@.len(),
        {
            let doc = remaining.remove(0);
            proof {
                assert(docs.take(taken + 1).drop_last() =~= docs.take(taken as int));
                assert(docs.take(taken + 1).last() == doc);
            }
            match doc {
                JsonValue::Object(entries) => {
                    let row = document_row(&keys, entries);
                    let ghost before = rows@;
                    rows.push(row);
                    proof {
                        assert(rows_view(rows@) =~= rows_view(before).push(row_values(first_keys, entries@)));
                    }
                },
                _ => {},
            }
            taken = taken + 1;
        }
        proof {
            assert(docs.take(docs.len() as int) =~= docs);
        }
        Ok(InsertPlan { sql, rows })
    }

    /// The Parquet export of a query or a table, and the message that
    /// reports it. A path starting with `/` or `~` is used as given;
    /// another is taken under the home directory. Text starting, after
    /// trimming and upper-casing, with `SELECT` is exported as a query;
    /// other text names a table, made safe.
    pub fn export_to_parquet(&self, sql_or_table: &str, output_path: &str) -> (r: Result<ParquetExport, DbError>)
        ensures
            r is Ok ==> r->Ok_0.message@ == "Exported to "@ + r->Ok_0.full_path@,
            r is Ok ==> r->Ok_0.sql@ == copy_sql(sql_or_table@, r->Ok_0.full_path@),
            is_absolute_output(output_path@) ==> r is Ok && r->Ok_0.full_path@ == output_path@,
            !is_absolute_output(output_path@) && r is Ok ==> exists|home: Seq<char>|
                #[trigger] path_join_spec(home, output_path@) == r->Ok_0.full_path@,
            r matches Err(e) ==> e == DbError::HomeDirUnavailable && !is_absolute_output(output_path@),
    {
        let home = if absolute_output(output_path) { None } else { home_dir() };
        self.parquet_export(sql_or_table, output_path, home)
    }

    /// The Parquet export of a query or a table with the home directory
    /// given (or missing): the file is the output path when it is
    /// absolute, else the output path under the home directory; without a
    /// home directory a relative path cannot be placed.
    pub fn parquet_export(&self, sql_or_table: &str, output_path: &str, home: Option<String>) -> (r: Result<ParquetExport, DbError>)
        ensures
            is_absolute_output(output_path@) ==> r is Ok && r->Ok_0.full_path@ == output_path@,
            !is_absolute_output(output_path@) && home is None ==> r is Err && r->Err_0 == DbError::HomeDirUnavailable,
            !is_absolute_output(output_path@) && home is Some ==> r is Ok && r->Ok_0.full_path@ == path_join_spec(home->Some_0@, output_path@),
            r is Ok ==> r->Ok_0.message@ == "Exported to "@ + r->Ok_0.full_path@,
            r is Ok ==> r->Ok_0.sql@ == copy_sql(sql_or_table@, r->Ok_0.full_path@),
    {
        let full_path = if absolute_output(output_path) {
            to_owned_string(output_path)
        } else {
            match home {
                None => return Err(DbError::HomeDirUnavailable),
                Some(h) => path_join(h.as_str(), output_path),
            }
        };
        let sql = if starts_with_select(sql_or_table) {
            let mut q = concat3("COPY (", sql_or_table, ") TO '");
            push_str(&mut q, full_path.as_str());
            push_str(&mut q, "' (FORMAT PARQUET)");
            q
        } else {
            let safe_table = Self::sanitize_column_name(sql_or_table);
            let quoted_table = quote(safe_table.as_str());
            let mut q = concat3("COPY ", quoted_table.as_str(), " TO '");
            push_str(&mut q, full_path.as_str());
            push_str(&mut q, "' (FORMAT PARQUET)");
            q
        };
        let message = concat2("Exported to ", full_path.as_str());
        Ok(ParquetExport { sql, full_path, message })
    }
}

/// Whether an output path is used as given: it starts with `/` or `~`.
pub open spec fn is_absolute_output(path: Seq<char>) -> bool {
    starts_with(path, "/"@) || starts_with(path, "~"@)
}

/// Whether an output path is used as given.
pub fn absolute_output(path: &str) -> (r: bool)
    ensures
        r == is_absolute_output(path@),
{
    let first = first_char(path);
    let absolute = match first {
        Some(c) => c == '/' || c == '~',
        None => false,
    };
    proof {
        reveal_strlit("/");
        reveal_strlit("~");
        if starts_with(path@, "/"@) {
            assert(path@.subrange(0, 1)[0] == path@[0]);
        }
        if starts_with(path@, "~"@) {
            assert(path@.subrange(0, 1)[0] == path@[0]);
        }
        if path@.len() > 0 && path@[0] == '/' {
            assert(path@.subrange(0, 1) =~= "/"@);
        }
        if path@.len() > 0 && path@[0] == '~' {
            assert(path@.subrange(0, 1) =~= "~"@);
        }
    }
    absolute
}

/// A Parquet export: the statement to run, the file, and the message that
/// reports it.
#[derive(Debug)]
pub struct ParquetExport {
    pub sql: String,
    pub full_path: String,
    pub message: String,
}

/// Whether export text is a query: trimmed and upper-cased, it starts with
/// `SELECT`.
pub open spec fn is_select(text: Seq<char>) -> bool {
    starts_with(uppercased(trimmed(text)), "SELECT"@)
}

/// The statement that exports a query, or a table of the safe name, to a
/// Parquet file.
pub open spec fn copy_sql(text: Seq<char>, path: Seq<char>) -> Seq<char> {
    if is_select(text) {
        "COPY ("@ + text + ") TO '"@ + path + "' (FORMAT PARQUET)"@
    } else {
        "COPY "@ + quoted(sanitize_spec(text)) + " TO '"@ + path + "' (FORMAT PARQUET)"@
    }
}

/// Whether export text is a query.
pub fn starts_with_select(text: &str) -> (r: bool)
    ensures
        r == is_select(text@),
{
    let upper = to_uppercase(trim(text));
    str_starts_with(upper.as_str(), "SELECT")
}

} // verus!
