//! Portable JSON export/import of the whole user database.
//!
//! A single versioned envelope holds every row of every user table:
//!
//! ```json
//! { "format": "pkdump-collection", "version": 1,
//!   "exported_at": "2026-07-31T04:18:44Z",
//!   "collection": [ { "id": 1, "printing_id": "sv3pt5-6-normal" } ] }
//! ```
//!
//! Importing is a whole-database replace. Before a single row is touched
//! the envelope is validated against the live schema — its discriminator
//! and version, every table it names, every column of every row, every cell
//! a scalar — and staged as `(column, value)` pairs ready to insert. The
//! parsed JSON is handed in as a [`JsonValue`]; the schema as the user
//! tables with their columns, in schema order.

use vstd::prelude::*;
use crate::error::DbError;
use crate::text::{owned, cat, cat3, str_eq, nat_to_string, nat_digits, push_char};
use crate::seqs::{lemma_filter_push, lemma_take_push};

verus! {

/// The envelope's `format` discriminator.
pub const FORMAT: &'static str = "pkdump-collection";

/// The envelope schema version.
pub const VERSION: u64 = 1;

/// What to do when the target database already holds rows.
#[derive(Debug, Clone, Copy, PartialEq, Eq, Structural)]
pub enum OnExisting {
    /// Refuse the import: an envelope import replaces, never merges.
    Fail,
    /// Wipe every user table first, then load the envelope.
    Replace,
}

/// Rows written per table by an import, in schema order.
#[derive(Debug, Clone, PartialEq, Eq)]
pub struct ImportSummary {
    pub tables: Vec<(String, usize)>,
}

/// The sum of the row counts.
pub open spec fn spec_total(t: Seq<(String, usize)>) -> int
    decreases t.len(),
{
    if t.len() == 0 {
        0
    } else {
        spec_total(t.drop_last()) + t.last().1
    }
}

proof fn lemma_total_monotone(t: Seq<(String, usize)>, i: int)
    requires
        0 <= i <= t.len(),
    ensures
        spec_total(t.take(i)) <= spec_total(t),
    decreases t.len() - i,
{
    if i < t.len() {
        lemma_total_monotone(t, i + 1);
        assert(t.take(i + 1).drop_last() =~= t.take(i));
    } else {
        assert(t.take(i) =~= t);
    }
}

impl ImportSummary {
    /// Total rows inserted across all tables.
    pub fn total(&self) -> (r: usize)
        requires
            spec_total(self.tables@) <= usize::MAX,
        ensures
            r == spec_total(self.tables@),
    {
        let mut sum: usize = 0;
        let mut i: usize = 0;
        while i < self.tables.len()
            invariant
                i <= self.tables@.len(),
                spec_total(self.tables@) <= usize::MAX,
                sum == spec_total(self.tables@.take(i as int)),
            decreases self.tables.len() - i,
        {
            proof {
                assert(self.tables@.take(i + 1).drop_last() =~= self.tables@.take(i as int));
                lemma_total_monotone(self.tables@, i + 1);
            }
            sum = sum + self.tables[i].1;
            i = i + 1;
        }
        assert(self.tables@.take(self.tables@.len() as int) =~= self.tables@);
        sum
    }
}

// ── the parsed envelope ──────────────────────────────────────────────────

/// A JSON number as the parser reads it: as an `i64` when it is one, as a
/// `u64` when it is one, as the bits of an `f64` when it has one, and its
/// text.
#[derive(Debug, Clone, PartialEq, Eq)]
pub struct JsonNumber {
    pub as_i64: Option<i64>,
    pub as_u64: Option<u64>,
    pub as_f64_bits: Option<u64>,
    pub text: String,
}

/// A parsed JSON value. An object's entries come in the parser's order,
/// each key once.
#[derive(Debug, PartialEq, Eq)]
pub enum JsonValue {
    Null,
    Bool(bool),
    Number(JsonNumber),
    Str(String),
    Array(Vec<JsonValue>),
    Object(Vec<(String, JsonValue)>),
}

/// A value as it is bound into an `INSERT`. A real is carried as the bits
/// of its `f64`.
#[derive(Debug, Clone, PartialEq, Eq)]
pub enum SqlValue {
    Null,
    Integer(i64),
    Real(u64),
    Text(String),
}

/// One user table of the live schema: its name and its columns in
/// declaration order.
#[derive(Debug, Clone, PartialEq, Eq)]
pub struct TableSchema {
    pub name: String,
    pub columns: Vec<String>,
}

/// One envelope row staged for insert: `(column, value)` pairs.
pub type StagedRow = Vec<(String, SqlValue)>;

/// One table's staged rows, with its name.
pub type StagedTable = (String, Vec<StagedRow>);

/// A top-level key that carries envelope metadata rather than a table.
pub open spec fn is_meta(k: Seq<char>) -> bool {
    k == "format"@ || k == "version"@ || k == "exported_at"@
}

/// The value of the first entry with key `key`.
pub open spec fn obj_get(entries: Seq<(String, JsonValue)>, key: Seq<char>) -> Option<JsonValue>
    decreases entries.len(),
{
    if entries.len() == 0 {
        None
    } else if entries[0].0@ == key {
        Some(entries[0].1)
    } else {
        obj_get(entries.drop_first(), key)
    }
}

/// The `format` entry is the string `"pkdump-collection"`.
pub open spec fn format_ok(entries: Seq<(String, JsonValue)>) -> bool {
    obj_get(entries, "format"@) matches Some(JsonValue::Str(s)) && s@ == FORMAT@
}

/// The `version` entry is the unsigned integer `1`.
pub open spec fn version_ok(entries: Seq<(String, JsonValue)>) -> bool {
    obj_get(entries, "version"@) matches Some(JsonValue::Number(n)) && n.as_u64 == Some(VERSION)
}

/// A cell as a bound value: null, a boolean as 0/1, an integer, a real, or
/// text. Nested arrays and objects — and a number with neither an integer
/// nor a float reading — have none.
pub open spec fn spec_cell(v: JsonValue) -> Option<SqlValue> {
    match v {
        JsonValue::Null => Some(SqlValue::Null),
        JsonValue::Bool(b) => Some(SqlValue::Integer(if b { 1 } else { 0 })),
        JsonValue::Number(n) => match n.as_i64 {
            Some(i) => Some(SqlValue::Integer(i)),
            None => match n.as_f64_bits {
                Some(f) => Some(SqlValue::Real(f)),
                None => None,
            },
        },
        JsonValue::Str(s) => Some(SqlValue::Text(s)),
        _ => None,
    }
}

/// The columns of the first schema table named `key`.
pub open spec fn schema_cols(schema: Seq<TableSchema>, key: Seq<char>) -> Option<Seq<String>>
    decreases schema.len(),
{
    if schema.len() == 0 {
        None
    } else if schema[0].name@ == key {
        Some(schema[0].columns@)
    } else {
        schema_cols(schema.drop_first(), key)
    }
}

/// `c` is one of `cols`.
pub open spec fn has_col(cols: Seq<String>, c: Seq<char>) -> bool {
    exists|j: int| 0 <= j < cols.len() && (#[trigger] cols[j])@ == c
}

/// A row stages cleanly: an object whose every key is a column and whose
/// every value is a scalar.
pub open spec fn row_ok(cols: Seq<String>, row: JsonValue) -> bool {
    match row {
        JsonValue::Object(cells) => forall|j: int|
            0 <= j < cells@.len() ==> has_col(cols, (#[trigger] cells@[j]).0@) && spec_cell(
                cells@[j].1,
            ) is Some,
        _ => false,
    }
}

/// An envelope entry stages cleanly: it names a table of the schema, holds
/// an array, and every row in it stages cleanly.
pub open spec fn table_ok(schema: Seq<TableSchema>, key: Seq<char>, value: JsonValue) -> bool {
    &&& schema_cols(schema, key) is Some
    &&& value is Array
    &&& forall|i: int|
        0 <= i < value->Array_0@.len() ==> row_ok(schema_cols(schema, key).unwrap(), #[trigger] value->Array_0@[i])
}

/// The whole envelope stages: a top-level object with the right format and
/// version, whose every non-metadata entry stages cleanly.
pub open spec fn envelope_ok(schema: Seq<TableSchema>, v: JsonValue) -> bool {
    &&& v matches JsonValue::Object(entries)
    &&& format_ok(entries@)
    &&& version_ok(entries@)
    &&& forall|k: int|
        0 <= k < entries@.len() && !is_meta((#[trigger] entries@[k]).0@) ==> table_ok(
            schema,
            entries@[k].0@,
            entries@[k].1,
        )
}

/// A staged row holds exactly the object's cells, in order, as bound values.
pub open spec fn staged_row_ok(row: JsonValue, s: Seq<(String, SqlValue)>) -> bool {
    row matches JsonValue::Object(cells) && s.len() == cells@.len() && forall|j: int|
        0 <= j < s.len() ==> (#[trigger] s[j]).0 == cells@[j].0 && spec_cell(cells@[j].1) == Some(
            s[j].1,
        )
}

/// A staged table holds its entry's name and every row, staged, in order.
pub open spec fn staged_table_ok(entry: (String, JsonValue), t: StagedTable) -> bool {
    &&& t.0 == entry.0
    &&& entry.1 matches JsonValue::Array(rows)
    &&& t.1@.len() == rows@.len()
    &&& forall|i: int| 0 <= i < rows@.len() ==> staged_row_ok(rows@[i], (#[trigger] t.1@[i])@)
}

/// The entries of an envelope that name tables.
pub open spec fn table_entries(entries: Seq<(String, JsonValue)>) -> Seq<(String, JsonValue)> {
    entries.filter(|e: (String, JsonValue)| !is_meta(e.0@))
}

// ── staging, implemented ─────────────────────────────────────────────────

fn import_err(msg: &str) -> (e: DbError)
    ensures
        e is Import,
{
    DbError::Import(owned(msg))
}

fn is_meta_exec(k: &str) -> (r: bool)
    ensures
        r == is_meta(k@),
{
    str_eq(k, "format") || str_eq(k, "version") || str_eq(k, "exported_at")
}

fn get_entry<'a>(entries: &'a Vec<(String, JsonValue)>, key: &str) -> (r: Option<&'a JsonValue>)
    ensures
        r matches Some(v) ==> obj_get(entries@, key@) == Some(*v),
        r is None ==> obj_get(entries@, key@) is None,
{
    let mut i: usize = 0;
    assert(entries@.skip(0) =~= entries@);
    while i < entries.len()
        invariant
            i <= entries@.len(),
            obj_get(entries@, key@) == obj_get(entries@.skip(i as int), key@),
        decreases entries.len() - i,
    {
        assert(entries@.skip(i as int)[0] == entries@[i as int]);
        assert(entries@.skip(i as int).drop_first() =~= entries@.skip(i + 1));
        if str_eq(entries[i].0.as_str(), key) {
            return Some(&entries[i].1);
        }
        i = i + 1;
    }
    None
}

fn find_columns<'a>(schema: &'a Vec<TableSchema>, key: &str) -> (r: Option<&'a Vec<String>>)
    ensures
        r matches Some(c) ==> schema_cols(schema@, key@) == Some(c@),
        r is None ==> schema_cols(schema@, key@) is None,
{
    let mut i: usize = 0;
    assert(schema@.skip(0) =~= schema@);
    while i < schema.len()
        invariant
            i <= schema@.len(),
            schema_cols(schema@, key@) == schema_cols(schema@.skip(i as int), key@),
        decreases schema.len() - i,
    {
        assert(schema@.skip(i as int)[0] == schema@[i as int]);
        assert(schema@.skip(i as int).drop_first() =~= schema@.skip(i + 1));
        if str_eq(schema[i].name.as_str(), key) {
            return Some(&schema[i].columns);
        }
        i = i + 1;
    }
    None
}

fn column_known(cols: &Vec<String>, c: &str) -> (r: bool)
    ensures
        r == has_col(cols@, c@),
{
    let mut j: usize = 0;
    while j < cols.len()
        invariant
            j <= cols@.len(),
            forall|t: int| 0 <= t < j ==> (#[trigger] cols@[t])@ != c@,
        decreases cols.len() - j,
    {
        if str_eq(cols[j].as_str(), c) {
            return true;
        }
        j = j + 1;
    }
    false
}

/// A JSON cell as a bound value; nested JSON and unrepresentable numbers
/// are import errors.
fn to_sql(v: &JsonValue) -> (r: Result<SqlValue, DbError>)
    ensures
        r matches Ok(s) ==> spec_cell(*v) == Some(s),
        r is Err ==> spec_cell(*v) is None,
        r matches Err(e) ==> e is Import,
{
    match v {
        JsonValue::Null => Ok(SqlValue::Null),
        JsonValue::Bool(b) => Ok(SqlValue::Integer(if *b { 1 } else { 0 })),
        JsonValue::Number(n) => match n.as_i64 {
            Some(i) => Ok(SqlValue::Integer(i)),
            None => match n.as_f64_bits {
                Some(f) => Ok(SqlValue::Real(f)),
                None => Err(import_err("number is out of range for SQLite")),
            },
        },
        JsonValue::Str(s) => Ok(SqlValue::Text(s.clone())),
        _ => Err(import_err("nested JSON is not a SQLite value")),
    }
}

/// Stage one row against `cols`.
fn stage_row(cols: &Vec<String>, row: &JsonValue) -> (r: Result<StagedRow, DbError>)
    ensures
        r is Ok <==> row_ok(cols@, *row),
        r matches Ok(s) ==> staged_row_ok(*row, s@),
        r matches Err(e) ==> e is Import,
{
    match row {
        JsonValue::Object(cells) => {
            let mut out: StagedRow = Vec::new();
            let mut j: usize = 0;
            while j < cells.len()
                invariant
                    *row == JsonValue::Object(*cells),
                    j <= cells@.len(),
                    out@.len() == j,
                    forall|t: int| 0 <= t < j ==> has_col(cols@, (#[trigger] cells@[t]).0@) && spec_cell(
                        cells@[t].1,
                    ) is Some,
                    forall|t: int| 0 <= t < j ==> (#[trigger] out@[t]).0 == cells@[t].0 && spec_cell(
                        cells@[t].1,
                    ) == Some(out@[t].1),
                decreases cells.len() - j,
            {
                if !column_known(cols, cells[j].0.as_str()) {
                    proof {
                        let t = j as int;
                        assert(!(has_col(cols@, cells@[t].0@) && spec_cell(cells@[t].1) is Some));
                    }
                    return Err(import_err("a key of the row is not a column of its table"));
                }
                match to_sql(&cells[j].1) {
                    Ok(s) => out.push((cells[j].0.clone(), s)),
                    Err(e) => {
                        proof {
                            let t = j as int;
                            assert(!(has_col(cols@, cells@[t].0@) && spec_cell(cells@[t].1) is Some));
                        }
                        return Err(e);
                    },
                }
                j = j + 1;
            }
            Ok(out)
        },
        _ => Err(import_err("expected a JSON object")),
    }
}

/// Stage one table's rows.
fn stage_table(schema: &Vec<TableSchema>, key: &String, value: &JsonValue) -> (r: Result<StagedTable, DbError>)
    ensures
        r is Ok <==> table_ok(schema@, key@, *value),
        r matches Ok(t) ==> staged_table_ok((*key, *value), t),
        r matches Err(e) ==> e is Import,
{
    let cols = match find_columns(schema, key.as_str()) {
        Some(c) => c,
        None => {
            return Err(import_err("envelope holds an unknown table"));
        },
    };
    match value {
        JsonValue::Array(rows) => {
            let mut out: Vec<StagedRow> = Vec::new();
            let mut i: usize = 0;
            while i < rows.len()
                invariant
                    *value == JsonValue::Array(*rows),
                    schema_cols(schema@, key@) == Some(cols@),
                    i <= rows@.len(),
                    out@.len() == i,
                    forall|t: int| 0 <= t < i ==> row_ok(cols@, #[trigger] rows@[t]),
                    forall|t: int| 0 <= t < i ==> staged_row_ok(rows@[t], (#[trigger] out@[t])@),
                decreases rows.len() - i,
            {
                match stage_row(cols, &rows[i]) {
                    Ok(s) => out.push(s),
                    Err(e) => {
                        proof {
                            let t = i as int;
                            assert(value->Array_0@ == rows@);
                            assert(!row_ok(cols@, value->Array_0@[t]));
                        }
                        return Err(e);
                    },
                }
                i = i + 1;
            }
            Ok((key.clone(), out))
        },
        _ => Err(import_err("a table must hold an array of rows")),
    }
}

/// Validate a parsed envelope against the live schema and stage its rows,
/// before anything is written: the top level must be an object whose
/// `format` is `"pkdump-collection"` and whose `version` is `1`, and every
/// other entry (but `exported_at`) must name a user table and hold an array
/// of objects whose keys are that table's columns and whose values are
/// scalars. Returns the staged tables in envelope order; anything else is an
/// import error.
pub fn stage_envelope(envelope: &JsonValue, schema: &Vec<TableSchema>) -> (r: Result<Vec<StagedTable>, DbError>)
    ensures
        r is Ok <==> envelope_ok(schema@, *envelope),
        r matches Err(e) ==> e is Import,
        r matches Ok(ts) ==> (envelope matches JsonValue::Object(entries) && ts@.len() == table_entries(
            entries@,
        ).len() && forall|k: int|
            0 <= k < ts@.len() ==> staged_table_ok(table_entries(entries@)[k], #[trigger] ts@[k])),
{
    let entries = match envelope {
        JsonValue::Object(e) => e,
        _ => {
            return Err(import_err("expected a JSON object at the top level"));
        },
    };
    match get_entry(entries, "format") {
        Some(JsonValue::Str(s)) => {
            if !str_eq(s.as_str(), FORMAT) {
                return Err(import_err("not a PokeDumpster collection export: wrong format"));
            }
        },
        _ => {
            return Err(import_err("missing 'format' \u{2014} not a PokeDumpster collection export"));
        },
    }
    match get_entry(entries, "version") {
        Some(JsonValue::Number(n)) => match n.as_u64 {
            Some(v) => {
                if v != VERSION {
                    return Err(import_err("unsupported envelope version"));
                }
            },
            None => {
                return Err(import_err("missing 'version'"));
            },
        },
        _ => {
            return Err(import_err("missing 'version'"));
        },
    }
    let ghost p = |e: (String, JsonValue)| !is_meta(e.0@);
    let mut out: Vec<StagedTable> = Vec::new();
    let mut k: usize = 0;
    while k < entries.len()
        invariant
            *envelope == JsonValue::Object(*entries),
            format_ok(entries@),
            version_ok(entries@),
            k <= entries@.len(),
            p == (|e: (String, JsonValue)| !is_meta(e.0@)),
            forall|t: int| 0 <= t < k && !is_meta((#[trigger] entries@[t]).0@) ==> table_ok(
                schema@,
                entries@[t].0@,
                entries@[t].1,
            ),
            out@.len() == entries@.take(k as int).filter(p).len(),
            forall|t: int| 0 <= t < out@.len() ==> staged_table_ok(entries@.take(k as int).filter(p)[t], #[trigger] out@[t]),
        decreases entries.len() - k,
    {
        proof {
            lemma_take_push(entries@, k as int);
            lemma_filter_push(entries@.take(k as int), entries@[k as int], p);
        }
        if !is_meta_exec(entries[k].0.as_str()) {
            match stage_table(schema, &entries[k].0, &entries[k].1) {
                Ok(t) => out.push(t),
                Err(e) => {
                    proof {
                        let t = k as int;
                        assert(!is_meta(entries@[t].0@) && !table_ok(schema@, entries@[t].0@, entries@[t].1));
                    }
                    return Err(e);
                },
            }
        }
        k = k + 1;
    }
    assert(entries@.take(entries@.len() as int) =~= entries@);
    Ok(out)
}

// ── exporting ────────────────────────────────────────────────────────────

/// Check the tables an export would write against the envelope's own keys:
/// the first user table named `format`, `version` or `exported_at` would
/// collide with the metadata and is an import error naming it; otherwise
/// the export may proceed.
pub fn check_export_tables(tables: &Vec<String>) -> (r: Result<(), DbError>)
    ensures
        r is Ok <==> forall|i: int| 0 <= i < tables@.len() ==> !is_meta((#[trigger] tables@[i])@),
        r matches Err(e) ==> exists|i: int|
            0 <= i < tables@.len() && is_meta((#[trigger] tables@[i])@) && (forall|j: int|
                0 <= j < i ==> !is_meta(tables@[j]@)) && e is Import && e->Import_0@ == "table '"@ + tables@[i]@
                + "' collides with a reserved envelope key"@,
{
    let mut i: usize = 0;
    while i < tables.len()
        invariant
            i <= tables@.len(),
            forall|j: int| 0 <= j < i ==> !is_meta((#[trigger] tables@[j])@),
        decreases tables.len() - i,
    {
        if is_meta_exec(tables[i].as_str()) {
            return Err(DbError::Import(cat3("table '", tables[i].as_str(), "' collides with a reserved envelope key")));
        }
        i = i + 1;
    }
    Ok(())
}

// ── the target, and the inserts ──────────────────────────────────────────

/// Table `i` holds more rows than a brand-new collection is born with (a
/// table the newborn lacks counts as born empty).
pub open spec fn beyond_birth(counts: Seq<i64>, baseline: Seq<Option<i64>>, i: int) -> bool {
    counts[i] > match baseline[i] {
        Some(b) => b,
        None => 0,
    }
}

/// The first of `tables` holding more rows than a brand-new collection is
/// born with: the question "would this import destroy something". `counts`
/// are the target's row counts, `baseline` a newborn collection's (`None`
/// where the newborn has no such table), both by table.
pub fn first_beyond_birth_state(tables: &Vec<String>, counts: &Vec<i64>, baseline: &Vec<Option<i64>>) -> (r: Option<String>)
    requires
        counts@.len() == tables@.len(),
        baseline@.len() == tables@.len(),
    ensures
        r matches Some(t) ==> exists|i: int|
            0 <= i < tables@.len() && beyond_birth(counts@, baseline@, i) && t == tables@[i] && forall|j: int|
                0 <= j < i ==> !beyond_birth(counts@, baseline@, j),
        r is None ==> forall|i: int| 0 <= i < tables@.len() ==> !beyond_birth(counts@, baseline@, i),
{
    let mut i: usize = 0;
    while i < tables.len()
        invariant
            counts@.len() == tables@.len(),
            baseline@.len() == tables@.len(),
            i <= tables@.len(),
            forall|j: int| 0 <= j < i ==> !beyond_birth(counts@, baseline@, j),
        decreases tables.len() - i,
    {
        let base = match baseline[i] {
            Some(b) => b,
            None => 0,
        };
        if counts[i] > base {
            return Some(tables[i].clone());
        }
        i = i + 1;
    }
    None
}

/// The refusal of a target holding more than its birth state in `table`.
pub open spec fn target_refusal(table: Seq<char>) -> Seq<char> {
    "target database is not empty (rows in '"@ + table
        + "'); importing an envelope replaces the whole collection"@
}

/// Refuse to load into a target holding more than its birth state unless
/// asked to replace it: a conflict exactly when `on_existing` is `Fail` and
/// some table is beyond its birth state, naming that table.
pub fn check_target(on_existing: OnExisting, beyond: &Option<String>) -> (r: Result<(), DbError>)
    ensures
        r is Err <==> on_existing == OnExisting::Fail && beyond is Some,
        r matches Err(e) ==> e is Conflict && e->Conflict_0@ == target_refusal(beyond.unwrap()@),
{
    if on_existing == OnExisting::Fail {
        if let Some(t) = beyond {
            return Err(DbError::Conflict(cat3(
                "target database is not empty (rows in '",
                t.as_str(),
                "'); importing an envelope replaces the whole collection",
            )));
        }
    }
    Ok(())
}

/// `"c"` — an identifier quoted.
pub open spec fn quote_ident(c: Seq<char>) -> Seq<char> {
    seq!['"'] + c + seq!['"']
}

/// The quoted column names, joined with `", "`.
pub open spec fn column_list(cols: Seq<String>) -> Seq<char>
    decreases cols.len(),
{
    if cols.len() == 0 {
        Seq::empty()
    } else if cols.len() == 1 {
        quote_ident(cols[0]@)
    } else {
        column_list(cols.drop_last()) + seq![',', ' '] + quote_ident(cols.last()@)
    }
}

/// `?1, ?2, …, ?n`.
pub open spec fn placeholders(n: nat) -> Seq<char>
    decreases n,
{
    if n == 0 {
        Seq::empty()
    } else if n == 1 {
        seq!['?', '1']
    } else {
        placeholders((n - 1) as nat) + seq![',', ' ', '?'] + nat_digits(n)
    }
}

/// `INSERT INTO "t" ("a", "b") VALUES (?1, ?2)`, or a bare-defaults insert
/// for a row with no cells.
pub open spec fn spec_insert_sql(table: Seq<char>, cols: Seq<String>) -> Seq<char> {
    if cols.len() == 0 {
        "INSERT INTO "@ + quote_ident(table) + " DEFAULT VALUES"@
    } else {
        "INSERT INTO "@ + quote_ident(table) + " ("@ + column_list(cols) + ") VALUES ("@
            + placeholders(cols.len()) + ")"@
    }
}

fn append_quoted(out: &mut String, c: &str)
    ensures
        final(out)@ == old(out)@ + quote_ident(c@),
{
    push_char(out, '"');
    out.append(c);
    push_char(out, '"');
    assert(out@ =~= old(out)@ + quote_ident(c@));
}

/// The statement that inserts one staged row into `table`.
pub fn insert_sql(table: &str, cols: &Vec<String>) -> (r: String)
    requires
        cols@.len() < u64::MAX,
    ensures
        r@ == spec_insert_sql(table@, cols@),
{
    let mut r = owned("INSERT INTO ");
    append_quoted(&mut r, table);
    if cols.len() == 0 {
        r.append(" DEFAULT VALUES");
        return r;
    }
    r.append(" (");
    let mut names = String::new();
    let mut holes = String::new();
    let mut i: usize = 0;
    while i < cols.len()
        invariant
            i <= cols@.len(),
            cols@.len() < u64::MAX,
            names@ == column_list(cols@.take(i as int)),
            holes@ == placeholders(i as nat),
        decreases cols.len() - i,
    {
        assert(cols@.take(i + 1).drop_last() =~= cols@.take(i as int));
        if i > 0 {
            names.append(", ");
            holes.append(", ");
            proof {
                reveal_strlit(", ");
            }
        }
        append_quoted(&mut names, cols[i].as_str());
        push_char(&mut holes, '?');
        let digits = nat_to_string((i + 1) as u64);
        holes.append(digits.as_str());
        proof {
            if i == 0 {
                assert(names@ =~= quote_ident(cols@[0]@));
                assert(nat_digits(1) =~= seq!['1']);
                assert(holes@ =~= seq!['?', '1']);
            } else {
                assert(names@ =~= column_list(cols@.take(i as int)) + seq![',', ' '] + quote_ident(cols@[i as int]@));
                assert(holes@ =~= placeholders(i as nat) + seq![',', ' ', '?'] + nat_digits((i + 1) as nat));
            }
        }
        i = i + 1;
    }
    assert(cols@.take(cols@.len() as int) =~= cols@);
    r.append(names.as_str());
    r.append(") VALUES (");
    r.append(holes.as_str());
    r.append(")");
    r
}

/// The summary of a load: each user table, in schema order, with the rows
/// it holds after the load, read as a `usize`.
pub fn summarize(tables: &Vec<String>, counts: &Vec<i64>) -> (r: ImportSummary)
    requires
        counts@.len() == tables@.len(),
    ensures
        r.tables@.len() == tables@.len(),
        forall|i: int| 0 <= i < tables@.len() ==> (#[trigger] r.tables@[i]).0 == tables@[i] && r.tables@[i].1
            == counts@[i] as usize,
{
    let mut out: Vec<(String, usize)> = Vec::new();
    let mut i: usize = 0;
    while i < tables.len()
        invariant
            counts@.len() == tables@.len(),
            i <= tables@.len(),
            out@.len() == i,
            forall|t: int| 0 <= t < i ==> (#[trigger] out@[t]).0 == tables@[t] && out@[t].1 == counts@[t] as usize,
        decreases tables.len() - i,
    {
        out.push((tables[i].clone(), #[verifier::truncate] (counts[i] as usize)));
        i = i + 1;
    }
    ImportSummary { tables: out }
}

/// Decide an envelope import: validate and stage the envelope against the
/// schema (an import error when it does not stage), then refuse — as a
/// conflict — a target beyond its birth state unless `on_existing` is
/// `Replace`. `beyond` is [`first_beyond_birth_state`] of the target.
/// Returns the staged tables to write after emptying every user table.
pub fn import(envelope: &JsonValue, schema: &Vec<TableSchema>, on_existing: OnExisting, beyond: &Option<String>) -> (r: Result<Vec<StagedTable>, DbError>)
    ensures
        !envelope_ok(schema@, *envelope) ==> (r matches Err(e) && e is Import),
        envelope_ok(schema@, *envelope) && on_existing == OnExisting::Fail && beyond is Some ==> (r matches Err(e)
            && e is Conflict && e->Conflict_0@ == target_refusal(beyond.unwrap()@)),
        r is Ok <==> envelope_ok(schema@, *envelope) && !(on_existing == OnExisting::Fail && beyond is Some),
        r matches Ok(ts) ==> (envelope matches JsonValue::Object(entries) && ts@.len() == table_entries(
            entries@,
        ).len() && forall|k: int|
            0 <= k < ts@.len() ==> staged_table_ok(table_entries(entries@)[k], #[trigger] ts@[k])),
        import_outcome(*envelope, schema@, on_existing, *beyond, r),
{
    let staged = match stage_envelope(envelope, schema) {
        Ok(t) => t,
        Err(e) => {
            return Err(e);
        },
    };
    match check_target(on_existing, beyond) {
        Ok(()) => Ok(staged),
        Err(e) => Err(e),
    }
}

// ── the envelope's text ──────────────────────────────────────────────────

/// `serde_json::Value`, declared so that a parsed value can be handed on.
#[verifier::external_type_specification]
#[verifier::external_body]
pub struct ExJsonValue(serde_json::Value);

/// What a `serde_json::Value` holds, read as a [`JsonValue`]: the same
/// tree, each number with its `as_i64`, `as_u64`, `as_f64` (as bits) and
/// its text, each object's entries in the value's order.
pub uninterp spec fn json_view(v: serde_json::Value) -> JsonValue;

/// What `serde_json::from_str` reads `text` as: the value it parses,
/// read as a [`JsonValue`], or `None` when the text is not JSON.
pub uninterp spec fn json_of(text: Seq<char>) -> Option<JsonValue>;

/// Calls `serde_json::from_str` for a `serde_json::Value`; its error is
/// passed on as its message. The value parsed is named `json_of` of the
/// text.
#[verifier::external_body]
fn json_from_str(text: &str) -> (r: Result<serde_json::Value, String>)
    ensures
        r is Err <==> json_of(text@) is None,
        r matches Ok(v) ==> json_of(text@) == Some(json_view(v)),
{
    serde_json::from_str::<serde_json::Value>(text).map_err(|e| e.to_string())
}

/// Converts a `serde_json::Value` one for one into a [`JsonValue`]: each
/// variant to its own, a number through `Number::as_i64`, `as_u64`,
/// `as_f64` and its text, an array's items and an object's entries in
/// order.
#[verifier::external_body]
fn json_value(v: serde_json::Value) -> (r: JsonValue)
    ensures
        r == json_view(v),
{
    match v {
        serde_json::Value::Null => JsonValue::Null,
        serde_json::Value::Bool(b) => JsonValue::Bool(b),
        serde_json::Value::Number(n) => JsonValue::Number(JsonNumber {
            as_i64: n.as_i64(),
            as_u64: n.as_u64(),
            as_f64_bits: n.as_f64().map(|x| x.to_bits()),
            text: n.to_string(),
        }),
        serde_json::Value::String(s) => JsonValue::Str(s),
        serde_json::Value::Array(a) => JsonValue::Array(a.into_iter().map(json_value).collect()),
        serde_json::Value::Object(o) => JsonValue::Object(o.into_iter().map(|(k, x)| (k, json_value(x))).collect()),
    }
}

/// What [`import`] decides for the envelope `envelope`: an import error
/// when it does not stage; a conflict naming the table when the target is
/// beyond its birth state and not to be replaced; otherwise every table
/// entry staged, in order.
pub open spec fn import_outcome(
    envelope: JsonValue,
    schema: Seq<TableSchema>,
    on_existing: OnExisting,
    beyond: Option<String>,
    r: Result<Vec<StagedTable>, DbError>,
) -> bool {
    &&& !envelope_ok(schema, envelope) ==> (r matches Err(e) && e is Import)
    &&& envelope_ok(schema, envelope) && on_existing == OnExisting::Fail && beyond is Some ==> (r matches Err(e)
        && e is Conflict && e->Conflict_0@ == target_refusal(beyond.unwrap()@))
    &&& r is Ok <==> envelope_ok(schema, envelope) && !(on_existing == OnExisting::Fail && beyond is Some)
    &&& r matches Ok(ts) ==> (envelope matches JsonValue::Object(entries) && ts@.len() == table_entries(
        entries@,
    ).len() && forall|k: int|
        0 <= k < ts@.len() ==> staged_table_ok(table_entries(entries@)[k], #[trigger] ts@[k]))
}

/// Import an envelope from its text: text that is not JSON is an import
/// error (`malformed JSON: ` and the parser's message); otherwise what
/// [`import`] decides for the value it reads as.
pub fn import_text(text: &str, schema: &Vec<TableSchema>, on_existing: OnExisting, beyond: &Option<String>) -> (r: Result<Vec<StagedTable>, DbError>)
    ensures
        json_of(text@) is None ==> (r matches Err(e) && e is Import && "malformed JSON: "@.is_prefix_of(
            e->Import_0@,
        )),
        json_of(text@) matches Some(v) ==> import_outcome(v, schema@, on_existing, *beyond, r),
{
    let parsed = match json_from_str(text) {
        Ok(v) => v,
        Err(m) => {
            let msg = cat("malformed JSON: ", m.as_str());
            proof {
                assert(msg@.subrange(0, "malformed JSON: "@.len() as int) =~= "malformed JSON: "@);
            }
            return Err(DbError::Import(msg));
        },
    };
    let envelope = json_value(parsed);
    import(&envelope, schema, on_existing, beyond)
}

// ── round trip ───────────────────────────────────────────────────────────

/// `j` is how the exporter writes the stored value `v`: NULL as null, an
/// integer as a JSON integer, a (finite) real as a JSON float — which reads
/// back as no integer and the same `f64` — and text as a string.
pub open spec fn exports_as(v: SqlValue, j: JsonValue) -> bool {
    match v {
        SqlValue::Null => j is Null,
        SqlValue::Integer(i) => j matches JsonValue::Number(n) && n.as_i64 == Some(i),
        SqlValue::Real(b) => j matches JsonValue::Number(n) && n.as_i64 is None && n.as_f64_bits == Some(b),
        SqlValue::Text(t) => j matches JsonValue::Str(s) && s == t,
    }
}

/// Export then import reproduces a cell: every stored value the exporter
/// writes stages back to the same value.
pub proof fn lemma_cell_round_trip(v: SqlValue, j: JsonValue)
    requires
        exports_as(v, j),
    ensures
        spec_cell(j) == Some(v),
{
}

/// Export then import reproduces a row: an exported row — an object with
/// one entry per stored column, each value written by the exporter — stages
/// cleanly against its table's columns, back to the same `(column, value)`
/// pairs.
pub proof fn lemma_row_round_trip(cols: Seq<String>, stored: Seq<(String, SqlValue)>, row: JsonValue)
    requires
        forall|j: int| 0 <= j < stored.len() ==> has_col(cols, (#[trigger] stored[j]).0@),
        row matches JsonValue::Object(cells) && cells@.len() == stored.len() && forall|j: int|
            0 <= j < stored.len() ==> (#[trigger] cells@[j]).0 == stored[j].0 && exports_as(
                stored[j].1,
                cells@[j].1,
            ),
    ensures
        row_ok(cols, row),
        staged_row_ok(row, stored),
{
    let cells = row->Object_0;
    assert forall|j: int| 0 <= j < cells@.len() implies has_col(cols, (#[trigger] cells@[j]).0@)
        && spec_cell(cells@[j].1) is Some by {
        assert(has_col(cols, stored[j].0@));
        lemma_cell_round_trip(stored[j].1, cells@[j].1);
    }
    assert forall|j: int| 0 <= j < stored.len() implies (#[trigger] stored[j]).0 == cells@[j].0 && spec_cell(
        cells@[j].1,
    ) == Some(stored[j].1) by {
        lemma_cell_round_trip(stored[j].1, cells@[j].1);
    }
}

/// `row` is how the exporter writes the stored row `stored`: an object with
/// one entry per stored column, in order, each value exported.
pub open spec fn exported_row(row: JsonValue, stored: Seq<(String, SqlValue)>) -> bool {
    row matches JsonValue::Object(cells) && cells@.len() == stored.len() && forall|j: int|
        0 <= j < stored.len() ==> (#[trigger] cells@[j]).0 == stored[j].0 && exports_as(stored[j].1, cells@[j].1)
}

/// `entry` is how the exporter writes a table of the schema holding the
/// stored rows `stored`, each cell in one of the table's columns.
pub open spec fn exported_table(
    schema: Seq<TableSchema>,
    entry: (String, JsonValue),
    stored: Seq<Seq<(String, SqlValue)>>,
) -> bool {
    &&& schema_cols(schema, entry.0@) is Some
    &&& forall|r: int, j: int|
        0 <= r < stored.len() && 0 <= j < stored[r].len() ==> has_col(
            schema_cols(schema, entry.0@).unwrap(),
            (#[trigger] stored[r][j]).0@,
        )
    &&& exported_rows(entry.1, stored)
}

/// `value` is how the exporter writes a table's stored rows: an array with
/// each row exported, in order.
pub open spec fn exported_rows(value: JsonValue, stored: Seq<Seq<(String, SqlValue)>>) -> bool {
    value matches JsonValue::Array(rows) && rows@.len() == stored.len() && forall|r: int|
        0 <= r < stored.len() ==> exported_row(#[trigger] rows@[r], stored[r])
}

/// A real the exporter can write: finite (its exponent bits not all set).
pub open spec fn finite_real(b: u64) -> bool {
    (b >> 52u64) & 0x7ffu64 != 0x7ffu64
}

/// Every real among `stored`'s cells is finite.
pub open spec fn cells_finite(stored: Seq<Seq<(String, SqlValue)>>) -> bool {
    forall|r: int, j: int|
        0 <= r < stored.len() && 0 <= j < stored[r].len() ==> ((#[trigger] stored[r][j]).1 matches SqlValue::Real(b)
            ==> finite_real(b))
}

/// How a non-finite `f64` is written: `NaN` (a payload in the fraction
/// bits), `-inf` (the sign bit set) or `inf`.
pub open spec fn non_finite_name(b: u64) -> Seq<char> {
    if b & 0xf_ffff_ffff_ffffu64 != 0 {
        "NaN"@
    } else if b >> 63u64 == 1 {
        "-inf"@
    } else {
        "inf"@
    }
}

/// A cell the exporter can write: anything but a non-finite real.
pub open spec fn cell_finite(c: (String, SqlValue)) -> bool {
    c.1 matches SqlValue::Real(b) ==> finite_real(b)
}

/// Row `r`, column `j` holds the first non-finite real of `stored`, rows
/// in order and each row's cells in order.
pub open spec fn first_bad_cell(stored: Seq<Seq<(String, SqlValue)>>, r: int, j: int) -> bool {
    &&& 0 <= r < stored.len() && 0 <= j < stored[r].len()
    &&& !cell_finite(stored[r][j])
    &&& forall|r2: int, j2: int| 0 <= r2 < r && 0 <= j2 < stored[r2].len() ==> cell_finite(#[trigger] stored[r2][j2])
    &&& forall|j2: int| 0 <= j2 < j ==> cell_finite(#[trigger] stored[r][j2])
}

/// The refusal of table `table`'s rows `stored`: its first non-finite real
/// as `<table>.<column>: <NaN|inf|-inf> has no JSON representation`.
pub open spec fn non_finite_refusal(table: Seq<char>, stored: Seq<Seq<(String, SqlValue)>>, msg: Seq<char>) -> bool {
    exists|r: int, j: int|
        first_bad_cell(stored, r, j) && msg == table + "."@ + (#[trigger] stored[r][j]).0@ + ": "@ + non_finite_name(
            stored[r][j].1->Real_0,
        ) + " has no JSON representation"@
}

/// How a non-finite `f64` is written: `NaN`, `inf` or `-inf`.
fn non_finite_text(b: u64) -> (r: &'static str)
    ensures
        r@ == non_finite_name(b),
{
    if b & 0xf_ffff_ffff_ffffu64 != 0 {
        "NaN"
    } else if b >> 63u64 == 1 {
        "-inf"
    } else {
        "inf"
    }
}

/// A stored value as the exporter writes it: null, an integer (its text in
/// decimal), a real (by its bits; its text is left to the serializer), or
/// a string.
fn export_cell(v: &SqlValue) -> (j: JsonValue)
    ensures
        exports_as(*v, j),
{
    match v {
        SqlValue::Null => JsonValue::Null,
        SqlValue::Integer(i) => JsonValue::Number(JsonNumber {
            as_i64: Some(*i),
            as_u64: if *i >= 0 {
                Some(*i as u64)
            } else {
                None
            },
            as_f64_bits: None,
            text: crate::text::int_to_string(*i),
        }),
        SqlValue::Real(b) => JsonValue::Number(JsonNumber { as_i64: None, as_u64: None, as_f64_bits: Some(*b), text: String::new() }),
        SqlValue::Text(t) => JsonValue::Str(t.clone()),
    }
}

/// Export one table's rows, or refuse the first non-finite real as having
/// no JSON form: `<table>.<column>: <NaN|inf|-inf> has no JSON
/// representation`.
fn export_rows(table: &String, rows: &Vec<Vec<(String, SqlValue)>>) -> (r: Result<JsonValue, DbError>)
    ensures
        r is Ok <==> cells_finite(rows@.map_values(|row: Vec<(String, SqlValue)>| row@)),
        r matches Ok(j) ==> exported_rows(j, rows@.map_values(|row: Vec<(String, SqlValue)>| row@)),
        r matches Err(e) ==> e is Import && non_finite_refusal(
            table@,
            rows@.map_values(|row: Vec<(String, SqlValue)>| row@),
            e->Import_0@,
        ),
{
    let ghost stored = rows@.map_values(|row: Vec<(String, SqlValue)>| row@);
    let mut out: Vec<JsonValue> = Vec::new();
    let mut i: usize = 0;
    while i < rows.len()
        invariant
            stored == rows@.map_values(|row: Vec<(String, SqlValue)>| row@),
            i <= rows@.len(),
            out@.len() == i,
            forall|r: int| 0 <= r < i ==> exported_row(#[trigger] out@[r], stored[r]),
            forall|r: int, j: int|
                0 <= r < i && 0 <= j < stored[r].len() ==> ((#[trigger] stored[r][j]).1 matches SqlValue::Real(b)
                    ==> finite_real(b)),
        decreases rows.len() - i,
    {
        let row = &rows[i];
        assert(stored[i as int] == row@);
        let mut cells: Vec<(String, JsonValue)> = Vec::new();
        let mut j: usize = 0;
        while j < row.len()
            invariant
                stored == rows@.map_values(|row: Vec<(String, SqlValue)>| row@),
                i < rows@.len(),
                row@ == stored[i as int],
                j <= row@.len(),
                cells@.len() == j,
                forall|k: int| 0 <= k < j ==> (#[trigger] cells@[k]).0 == row@[k].0 && exports_as(row@[k].1, cells@[k].1),
                forall|k: int| 0 <= k < j ==> ((#[trigger] row@[k]).1 matches SqlValue::Real(b) ==> finite_real(b)),
                forall|r: int, k: int|
                    0 <= r < i && 0 <= k < stored[r].len() ==> ((#[trigger] stored[r][k]).1 matches SqlValue::Real(b)
                        ==> finite_real(b)),
            decreases row.len() - j,
        {
            let (col, v) = (&row[j].0, &row[j].1);
            if let SqlValue::Real(b) = v {
                if (*b >> 52u64) & 0x7ffu64 == 0x7ffu64 {
                    let mut m = cat3(table.as_str(), ".", col.as_str());
                    m.append(": ");
                    m.append(non_finite_text(*b));
                    m.append(" has no JSON representation");
                    proof {
                        assert(stored[i as int][j as int] == row@[j as int]);
                        assert forall|j2: int| 0 <= j2 < j implies cell_finite(#[trigger] stored[i as int][j2]) by {
                            assert(stored[i as int][j2] == row@[j2]);
                        }
                        assert(first_bad_cell(stored, i as int, j as int));
                        assert(m@ == table@ + "."@ + (stored[i as int][j as int]).0@ + ": "@ + non_finite_name(
                            stored[i as int][j as int].1->Real_0,
                        ) + " has no JSON representation"@);
                    }
                    return Err(DbError::Import(m));
                }
            }
            cells.push((col.clone(), export_cell(v)));
            j = j + 1;
        }
        out.push(JsonValue::Object(cells));
        proof {
            assert forall|k: int| 0 <= k < stored[i as int].len() implies ((#[trigger] stored[i as int][k]).1 matches SqlValue::Real(b)
                ==> finite_real(b)) by {
                assert(stored[i as int][k] == row@[k]);
            }
        }
        i = i + 1;
    }
    Ok(JsonValue::Array(out))
}

/// The stored rows of a table, each as its `(column, value)` pairs.
pub open spec fn stored_rows(rows: Vec<Vec<(String, SqlValue)>>) -> Seq<Seq<(String, SqlValue)>> {
    rows@.map_values(|row: Vec<(String, SqlValue)>| row@)
}

/// `v` is the envelope written for `tables` at `exported_at`: an object
/// whose first three entries are `format`, `version` and `exported_at`
/// (the right format and version, and the time given), then one entry per
/// table, in order, holding its rows exported; no table is named like one
/// of those three entries.
pub open spec fn envelope_written(
    v: JsonValue,
    tables: Seq<(String, Vec<Vec<(String, SqlValue)>>)>,
    exported_at: Seq<char>,
) -> bool {
    &&& v matches JsonValue::Object(entries)
    &&& format_ok(v->Object_0@)
    &&& version_ok(v->Object_0@)
    &&& obj_get(v->Object_0@, "exported_at"@) matches Some(JsonValue::Str(t))
    &&& obj_get(v->Object_0@, "exported_at"@)->Some_0->Str_0@ == exported_at
    &&& v->Object_0@.len() == tables.len() + 3
    &&& forall|k: int| 0 <= k < 3 ==> is_meta(#[trigger] v->Object_0@[k].0@)
    &&& forall|k: int| 0 <= k < tables.len() ==> !is_meta((#[trigger] tables[k]).0@)
    &&& forall|k: int|
        0 <= k < tables.len() ==> (#[trigger] v->Object_0@[k + 3]).0 == tables[k].0 && exported_rows(
            v->Object_0@[k + 3].1,
            stored_rows(tables[k].1),
        )
}

/// The envelope an export writes for `tables` — each user table with its
/// stored rows, in order — at `exported_at`: the `format`, `version` and
/// `exported_at` entries, then each table exported. A table named like one
/// of those three entries, or a non-finite real, has no place in an
/// envelope and is an import error: for the first table, in order, that
/// has either, `table '<name>' collides with a reserved envelope key`, or
/// its first non-finite real refused.
pub fn export_envelope(tables: &Vec<(String, Vec<Vec<(String, SqlValue)>>)>, exported_at: &str) -> (r: Result<JsonValue, DbError>)
    ensures
        r is Ok <==> (forall|k: int| 0 <= k < tables@.len() ==> !is_meta((#[trigger] tables@[k]).0@)) && (forall|k: int|
            0 <= k < tables@.len() ==> cells_finite(stored_rows((#[trigger] tables@[k]).1))),
        r matches Err(e) ==> e is Import && exists|k: int|
            0 <= k < tables@.len() && (forall|t: int|
                0 <= t < k ==> !is_meta((#[trigger] tables@[t]).0@) && cells_finite(stored_rows(tables@[t].1)))
                && (if is_meta((#[trigger] tables@[k]).0@) {
                e->Import_0@ == "table '"@ + tables@[k].0@ + "' collides with a reserved envelope key"@
            } else {
                non_finite_refusal(tables@[k].0@, stored_rows(tables@[k].1), e->Import_0@)
            }),
        r matches Ok(v) ==> envelope_written(v, tables@, exported_at@),
{
    proof {
        reveal_strlit("format");
        reveal_strlit("version");
        reveal_strlit("exported_at");
    }
    let mut entries: Vec<(String, JsonValue)> = Vec::new();
    entries.push((owned("format"), JsonValue::Str(owned(FORMAT))));
    entries.push(
        (
            owned("version"),
            JsonValue::Number(JsonNumber { as_i64: Some(1), as_u64: Some(VERSION), as_f64_bits: None, text: owned("1") }),
        ),
    );
    entries.push((owned("exported_at"), JsonValue::Str(owned(exported_at))));
    let ghost head = entries@;
    let mut k: usize = 0;
    while k < tables.len()
        invariant
            k <= tables@.len(),
            entries@.len() == k + 3,
            entries@.subrange(0, 3) == head,
            head.len() == 3,
            head[0].0@ == "format"@ && head[1].0@ == "version"@ && head[2].0@ == "exported_at"@,
            head[0].1 matches JsonValue::Str(f) && f@ == FORMAT@,
            head[1].1 matches JsonValue::Number(n) && n.as_u64 == Some(VERSION),
            head[2].1 matches JsonValue::Str(t) && t@ == exported_at@,
            forall|t: int| 0 <= t < k ==> !is_meta((#[trigger] tables@[t]).0@),
            forall|t: int| 0 <= t < k ==> cells_finite(
                (#[trigger] tables@[t]).1@.map_values(|row: Vec<(String, SqlValue)>| row@),
            ),
            forall|t: int|
                0 <= t < k ==> (#[trigger] entries@[t + 3]).0 == tables@[t].0 && exported_rows(
                    entries@[t + 3].1,
                    tables@[t].1@.map_values(|row: Vec<(String, SqlValue)>| row@),
                ),
        decreases tables.len() - k,
    {
        let name = &tables[k].0;
        if is_meta_exec(name.as_str()) {
            let e = DbError::Import(cat3("table '", name.as_str(), "' collides with a reserved envelope key"));
            proof {
                assert(exists|t: int| #![trigger tables@[t]] t == k as int && 0 <= t < tables@.len());
            }
            return Err(e);
        }
        let rows = match export_rows(name, &tables[k].1) {
            Ok(j) => j,
            Err(e) => {
                proof {
                    assert(tables@[k as int].0@ == name@);
                }
                return Err(e);
            },
        };
        let ghost before = entries@;
        entries.push((name.clone(), rows));
        proof {
            assert(entries@.subrange(0, 3) =~= before.subrange(0, 3));
            assert forall|t: int|
                0 <= t < k + 1 implies (#[trigger] entries@[t + 3]).0 == tables@[t].0 && exported_rows(
                    entries@[t + 3].1,
                    tables@[t].1@.map_values(|row: Vec<(String, SqlValue)>| row@),
                ) by {
                if t < k {
                    assert(entries@[t + 3] == before[t + 3]);
                }
            }
        }
        k = k + 1;
    }
    let ghost fin = entries@;
    proof {
        reveal_strlit("format");
        reveal_strlit("version");
        reveal_strlit("exported_at");
        assert(fin[0] == head[0] && fin[1] == head[1] && fin[2] == head[2]);
        assert(obj_get(fin.drop_first().drop_first(), "exported_at"@) == Some(head[2].1)) by {
            assert(fin.drop_first().drop_first()[0] == head[2]);
        }
        assert(obj_get(fin.drop_first(), "version"@) == Some(head[1].1)) by {
            assert(fin.drop_first()[0] == head[1]);
        }
        assert("format"@ != "version"@ && "format"@ != "exported_at"@ && "version"@ != "exported_at"@) by {
            assert("format"@.len() != "version"@.len());
            assert("version"@.len() != "exported_at"@.len());
            assert("format"@.len() != "exported_at"@.len());
        }
        assert(fin[0].0@ != "version"@);
        assert(obj_get(fin, "version"@) == Some(head[1].1));
        assert(fin.drop_first()[0].0@ != "exported_at"@);
        assert(obj_get(fin.drop_first(), "exported_at"@) == Some(head[2].1));
        assert(obj_get(fin, "exported_at"@) == Some(head[2].1));
        assert(obj_get(fin, "format"@) == Some(head[0].1));
        assert(format_ok(fin));
        assert(version_ok(fin));
        assert(forall|k: int| 0 <= k < 3 ==> is_meta(#[trigger] fin[k].0@));
    }
    Ok(JsonValue::Object(entries))
}


/// An exported table stages cleanly.
pub proof fn lemma_table_stages(schema: Seq<TableSchema>, entry: (String, JsonValue), stored: Seq<Seq<(String, SqlValue)>>)
    requires
        exported_table(schema, entry, stored),
    ensures
        table_ok(schema, entry.0@, entry.1),
{
    let cols = schema_cols(schema, entry.0@).unwrap();
    let rows = entry.1->Array_0;
    assert forall|r: int| 0 <= r < rows@.len() implies row_ok(cols, #[trigger] rows@[r]) by {
        assert forall|j: int| 0 <= j < stored[r].len() implies has_col(cols, (#[trigger] stored[r][j]).0@) by {}
        lemma_row_round_trip(cols, stored[r], rows@[r]);
    }
}

/// Export then import reproduces a table: what an exported table stages
/// is its name and the stored rows, in order.
pub proof fn lemma_table_round_trip(
    schema: Seq<TableSchema>,
    entry: (String, JsonValue),
    stored: Seq<Seq<(String, SqlValue)>>,
    staged: StagedTable,
)
    requires
        exported_table(schema, entry, stored),
        staged_table_ok(entry, staged),
    ensures
        staged.0 == entry.0,
        staged.1@.len() == stored.len(),
        forall|r: int| 0 <= r < stored.len() ==> (#[trigger] staged.1@[r])@ == stored[r],
{
    let cols = schema_cols(schema, entry.0@).unwrap();
    let rows = entry.1->Array_0;
    assert forall|r: int| 0 <= r < stored.len() implies (#[trigger] staged.1@[r])@ == stored[r] by {
        assert forall|j: int| 0 <= j < stored[r].len() implies has_col(cols, (#[trigger] stored[r][j]).0@) by {}
        lemma_row_round_trip(cols, stored[r], rows@[r]);
        let s = staged.1@[r]@;
        let cells = rows@[r]->Object_0;
        assert forall|j: int| 0 <= j < s.len() implies #[trigger] s[j] == stored[r][j] by {
            lemma_cell_round_trip(stored[r][j].1, cells@[j].1);
        }
        assert(s =~= stored[r]);
    }
}

/// Export then import reproduces every table: an envelope with the right
/// format and version whose every table entry is an exported table of the
/// schema stages cleanly — so the import goes ahead unless refused for a
/// non-empty target — and, by [`lemma_table_round_trip`], stages each
/// table back to its stored rows.
pub proof fn lemma_envelope_round_trip(
    schema: Seq<TableSchema>,
    envelope: JsonValue,
    stored: Seq<Seq<Seq<(String, SqlValue)>>>,
)
    requires
        envelope matches JsonValue::Object(entries) && format_ok(entries@) && version_ok(entries@)
            && entries@.len() == stored.len() && forall|k: int|
            0 <= k < entries@.len() && !is_meta((#[trigger] entries@[k]).0@) ==> exported_table(
                schema,
                entries@[k],
                stored[k],
            ),
    ensures
        envelope_ok(schema, envelope),
{
    let entries = envelope->Object_0;
    assert forall|k: int| 0 <= k < entries@.len() && !is_meta((#[trigger] entries@[k]).0@) implies table_ok(
        schema,
        entries@[k].0@,
        entries@[k].1,
    ) by {
        lemma_table_stages(schema, entries@[k], stored[k]);
    }
}


/// Every stored cell of the table `table` lies in one of the schema's
/// columns for it.
pub open spec fn fits_schema(schema: Seq<TableSchema>, table: (String, Vec<Vec<(String, SqlValue)>>)) -> bool {
    &&& schema_cols(schema, table.0@) is Some
    &&& forall|r: int, j: int|
        0 <= r < stored_rows(table.1).len() && 0 <= j < stored_rows(table.1)[r].len() ==> has_col(
            schema_cols(schema, table.0@).unwrap(),
            (#[trigger] stored_rows(table.1)[r][j]).0@,
        )
}

proof fn lemma_filter_keeps_all(s: Seq<(String, JsonValue)>)
    requires
        forall|i: int| 0 <= i < s.len() ==> !is_meta((#[trigger] s[i]).0@),
    ensures
        s.filter(|e: (String, JsonValue)| !is_meta(e.0@)) == s,
    decreases s.len(),
{
    reveal(Seq::filter);
    if s.len() > 0 {
        lemma_filter_keeps_all(s.drop_last());
        assert(s.drop_last().push(s.last()) =~= s);
    }
}

proof fn lemma_filter_drops_all(s: Seq<(String, JsonValue)>)
    requires
        forall|i: int| 0 <= i < s.len() ==> is_meta((#[trigger] s[i]).0@),
    ensures
        s.filter(|e: (String, JsonValue)| !is_meta(e.0@)) == Seq::<(String, JsonValue)>::empty(),
    decreases s.len(),
{
    reveal(Seq::filter);
    if s.len() > 0 {
        lemma_filter_drops_all(s.drop_last());
    }
}

/// Export then import reproduces every table: the envelope the exporter
/// writes for tables of the schema (each stored cell in one of its table's
/// columns) stages cleanly, so its import goes ahead unless refused for a
/// non-empty target; and an import that goes ahead stages exactly those
/// tables, in order, each back to its stored rows.
pub proof fn lemma_export_import_round_trip(
    schema: Seq<TableSchema>,
    tables: Seq<(String, Vec<Vec<(String, SqlValue)>>)>,
    exported_at: Seq<char>,
    v: JsonValue,
    on_existing: OnExisting,
    beyond: Option<String>,
    r: Result<Vec<StagedTable>, DbError>,
)
    requires
        envelope_written(v, tables, exported_at),
        forall|k: int| 0 <= k < tables.len() ==> fits_schema(schema, #[trigger] tables[k]),
        import_outcome(v, schema, on_existing, beyond, r),
    ensures
        envelope_ok(schema, v),
        r is Ok <==> !(on_existing == OnExisting::Fail && beyond is Some),
        r matches Ok(ts) ==> ts@.len() == tables.len() && forall|k: int|
            0 <= k < tables.len() ==> (#[trigger] ts@[k]).0 == tables[k].0 && ts@[k].1@.len() == stored_rows(
                tables[k].1,
            ).len() && forall|i: int|
                0 <= i < ts@[k].1@.len() ==> (#[trigger] ts@[k].1@[i])@ == stored_rows(tables[k].1)[i],
{
    let entries = v->Object_0@;
    let stored = Seq::new(
        entries.len(),
        |k: int|
            if k < 3 {
                Seq::<Seq<(String, SqlValue)>>::empty()
            } else {
                stored_rows(tables[k - 3].1)
            },
    );
    assert forall|k: int| 0 <= k < entries.len() && !is_meta((#[trigger] entries[k]).0@) implies exported_table(
        schema,
        entries[k],
        stored[k],
    ) by {
        let t = k - 3;
        assert(entries[t + 3] == entries[k]);
        assert(fits_schema(schema, tables[t]));
    }
    lemma_envelope_round_trip(schema, v, stored);
    let head = entries.subrange(0, 3);
    let rest = entries.subrange(3, entries.len() as int);
    assert(entries =~= head + rest);
    Seq::filter_distributes_over_add(head, rest, |e: (String, JsonValue)| !is_meta(e.0@));
    lemma_filter_drops_all(head);
    assert forall|i: int| 0 <= i < rest.len() implies !is_meta((#[trigger] rest[i]).0@) by {
        assert(rest[i] == entries[i + 3]);
        assert(entries[i + 3].0 == tables[i].0);
    }
    lemma_filter_keeps_all(rest);
    assert(table_entries(entries) =~= rest);
    if r is Ok {
        let ts = r->Ok_0;
        assert forall|k: int| 0 <= k < tables.len() implies (#[trigger] ts@[k]).0 == tables[k].0 && ts@[k].1@.len()
            == stored_rows(tables[k].1).len() && forall|i: int|
            0 <= i < ts@[k].1@.len() ==> (#[trigger] ts@[k].1@[i])@ == stored_rows(tables[k].1)[i] by {
            assert(rest[k] == entries[k + 3]);
            assert(staged_table_ok(table_entries(entries)[k], ts@[k]));
            assert(fits_schema(schema, tables[k]));
            assert(exported_table(schema, entries[k + 3], stored_rows(tables[k].1)));
            lemma_table_round_trip(schema, entries[k + 3], stored_rows(tables[k].1), ts@[k]);
        }
    }
}

} // verus!
