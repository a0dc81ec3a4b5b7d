//! CSV exports of the collection: a ManaBox-shaped file that re-imports
//! through the ManaBox importer, and the two Collectr-shaped files — singles
//! and sealed kept apart, each a valid Collectr CSV on its own.
//!
//! Each exported row is laid out here, cell by cell, from the values read
//! for it; the money cells arrive already written with two decimals, and a
//! grade's value already written without a trailing `.0`. The CSV text
//! itself is written by the `csv` crate.

use vstd::prelude::*;
use vstd::utf8::{decode_utf8, valid_utf8};
use crate::error::DbError;
use crate::text::{owned, cat, cat3, int_to_string, decimal, chars_of, string_from, contains, contains_exec};

verus! {

// ── the CSV writer ───────────────────────────────────────────────────────

/// A `csv::Writer` over a byte vector. Verus refuses a declaration of the
/// writer type (its `io::Write` bound), so it is held in a private field.
#[verifier::external_body]
pub struct CsvOut {
    w: csv::Writer<Vec<u8>>,
}

/// The records a CSV writer over a byte vector has been given, each as its
/// fields' characters.
pub uninterp spec fn csv_records(w: CsvOut) -> Seq<Seq<Seq<char>>>;

/// What `csv::Writer` (default settings) has written for `records` once it
/// is flushed.
pub uninterp spec fn csv_bytes(records: Seq<Seq<Seq<char>>>) -> Seq<u8>;

/// The text a CSV file of `records` reads as.
pub open spec fn csv_text(records: Seq<Seq<Seq<char>>>) -> Seq<char> {
    decode_utf8(csv_bytes(records))
}

/// The characters of each cell of each record.
pub open spec fn records_view(records: Seq<Vec<String>>) -> Seq<Seq<Seq<char>>> {
    records.map_values(|r: Vec<String>| r@.map_values(|c: String| c@))
}

/// Calls `csv::Writer::from_writer` on an empty byte vector: a writer that
/// has been given no record.
#[verifier::external_body]
fn csv_writer() -> (w: CsvOut)
    ensures
        csv_records(w) == Seq::<Seq<Seq<char>>>::empty(),
{
    CsvOut { w: csv::Writer::from_writer(Vec::new()) }
}

/// Every record has as many fields as the first.
pub open spec fn uniform(records: Seq<Seq<Seq<char>>>) -> bool {
    forall|i: int| 0 <= i < records.len() ==> (#[trigger] records[i]).len() == records[0].len()
}

/// Calls `csv::Writer::write_record` with the fields of `record`. The
/// default writer is not flexible: it refuses (`UnequalLengths`) a record
/// whose field count differs from the first record's, and that is its only
/// failure over a byte vector, whose writes cannot fail. On success the
/// writer, handed back, has been given the record; on failure it is dropped.
#[verifier::external_body]
fn csv_write_record(w: CsvOut, record: &Vec<String>) -> (r: Result<CsvOut, String>)
    ensures
        r is Ok <==> csv_records(w).len() == 0 || record@.len() == csv_records(w)[0].len(),
        r matches Ok(w2) ==> csv_records(w2) == csv_records(w).push(record@.map_values(|c: String| c@)),
{
    let mut w = w;
    match w.w.write_record(record) {
        Ok(()) => Ok(w),
        Err(e) => Err(e.to_string()),
    }
}

/// Calls `csv::Writer::into_inner`, which flushes the writer and hands back
/// its byte vector: the bytes written for the records it was given. The
/// flush writes into the byte vector, which cannot fail. The bytes are the
/// records' fields — valid UTF-8, being `String`s — copied with only ASCII
/// delimiters, quotes and terminators put between and around them, so they
/// are valid UTF-8.
#[verifier::external_body]
fn csv_into_bytes(w: CsvOut) -> (r: Result<Vec<u8>, String>)
    ensures
        r is Ok,
        r matches Ok(b) ==> b@ == csv_bytes(csv_records(w)) && valid_utf8(b@),
{
    w.w.into_inner().map_err(|e| e.to_string())
}

/// Calls `String::from_utf8`: the text the bytes encode when they are valid
/// UTF-8, and an error otherwise.
#[verifier::external_body]
fn utf8_string(bytes: Vec<u8>) -> (r: Result<String, String>)
    ensures
        r is Ok <==> valid_utf8(bytes@),
        r matches Ok(s) ==> s@ == decode_utf8(bytes@),
{
    String::from_utf8(bytes).map_err(|e| e.to_string())
}

/// Write `records` as CSV text, in order. It succeeds exactly when every
/// record has as many fields as the first; otherwise the writer's refusal
/// is passed on as its message.
fn write_csv(records: &Vec<Vec<String>>) -> (r: Result<String, String>)
    ensures
        r is Ok <==> uniform(records_view(records@)),
        r matches Ok(s) ==> s@ == csv_text(records_view(records@)),
{
    let mut w = csv_writer();
    let mut i: usize = 0;
    while i < records.len()
        invariant
            i <= records@.len(),
            csv_records(w) == records_view(records@.take(i as int)),
            uniform(records_view(records@.take(i as int))),
        decreases records.len() - i,
    {
        let ghost before = records_view(records@.take(i as int));
        w = match csv_write_record(w, &records[i]) {
            Ok(w2) => w2,
            Err(e) => {
                proof {
                    let all = records_view(records@);
                    assert(all[0] == before[0]);
                    assert(all[i as int] == records@[i as int]@.map_values(|c: String| c@));
                    assert(!uniform(all));
                }
                return Err(e);
            },
        };
        assert(records_view(records@.take(i + 1)) =~= records_view(records@.take(i as int)).push(
            records@[i as int]@.map_values(|c: String| c@),
        ));
        proof {
            let after = records_view(records@.take(i + 1));
            assert forall|k: int| 0 <= k < after.len() implies (#[trigger] after[k]).len() == after[0].len() by {
                if k < i {
                    assert(after[k] == before[k]);
                }
                if i > 0 {
                    assert(after[0] == before[0]);
                }
            }
        }
        i = i + 1;
    }
    assert(records@.take(records@.len() as int) =~= records@);
    let bytes = match csv_into_bytes(w) {
        Ok(b) => b,
        Err(e) => {
            return Err(e);
        },
    };
    utf8_string(bytes)
}

fn text_vec(cells: &Vec<&str>) -> (r: Vec<String>)
    ensures
        r@.map_values(|c: String| c@) == cells@.map_values(|c: &str| c@),
{
    let mut out: Vec<String> = Vec::new();
    let mut i: usize = 0;
    while i < cells.len()
        invariant
            i <= cells@.len(),
            out@.len() == i,
            forall|k: int| 0 <= k < i ==> (#[trigger] out@[k])@ == cells@[k]@,
        decreases cells.len() - i,
    {
        out.push(owned(cells[i]));
        i = i + 1;
    }
    assert(out@.map_values(|c: String| c@) =~= cells@.map_values(|c: &str| c@));
    out
}

// ── cells ────────────────────────────────────────────────────────────────

/// `"true"` or `"false"`.
pub open spec fn spec_bool_str(b: bool) -> Seq<char> {
    if b {
        "true"@
    } else {
        "false"@
    }
}

pub fn bool_str(b: bool) -> (r: &'static str)
    ensures
        r@ == spec_bool_str(b),
{
    if b {
        "true"
    } else {
        "false"
    }
}

/// `number/printed_total` when the set's printed total is known — the
/// `221/217` shape — and the bare number otherwise.
pub open spec fn spec_card_number(number: Seq<char>, printed_total: Option<i64>) -> Seq<char> {
    match printed_total {
        Some(t) => number + "/"@ + decimal(t as int),
        None => number,
    }
}

pub fn card_number(number: &str, printed_total: Option<i64>) -> (r: String)
    ensures
        r@ == spec_card_number(number@, printed_total),
{
    match printed_total {
        Some(t) => {
            let d = int_to_string(t);
            cat3(number, "/", d.as_str())
        },
        None => owned(number),
    }
}

/// A variant code as a Collectr `Variance`: `normal` and `reverse_holo` by
/// name, every other (holo) treatment as `Holofoil`.
pub open spec fn spec_variance(variant: Seq<char>) -> Seq<char> {
    if variant == "normal"@ {
        "Normal"@
    } else if variant == "reverse_holo"@ {
        "Reverse Holofoil"@
    } else {
        "Holofoil"@
    }
}

pub fn variant_to_collectr(variant: &str) -> (r: &'static str)
    ensures
        r@ == spec_variance(variant@),
        variant@ == "normal"@ ==> r@ == "Normal"@,
        variant@ == "reverse_holo"@ ==> r@ == "Reverse Holofoil"@,
        variant@ != "normal"@ && variant@ != "reverse_holo"@ ==> r@ == "Holofoil"@,
{
    proof {
        reveal_strlit("normal");
        reveal_strlit("reverse_holo");
        assert("normal"@.len() != "reverse_holo"@.len());
    }
    if crate::text::str_eq(variant, "normal") {
        "Normal"
    } else if crate::text::str_eq(variant, "reverse_holo") {
        "Reverse Holofoil"
    } else {
        "Holofoil"
    }
}

/// The date part of a stored timestamp: its first ten characters (all of
/// it when shorter); empty when there is none.
pub open spec fn spec_date_only(ts: Option<Seq<char>>) -> Seq<char> {
    match ts {
        Some(t) => if t.len() <= 10 {
            t
        } else {
            t.take(10)
        },
        None => Seq::empty(),
    }
}

pub fn date_only(ts: Option<&str>) -> (r: String)
    ensures
        r@ == spec_date_only(match ts { Some(t) => Some(t@), None => None }),
{
    match ts {
        Some(t) => {
            let cs = chars_of(t);
            let end = if cs.len() <= 10 {
                cs.len()
            } else {
                10
            };
            let r = string_from(&cs, 0, end);
            assert(cs@.subrange(0, end as int) =~= if cs@.len() <= 10 {
                cs@
            } else {
                cs@.take(10)
            });
            r
        },
        None => String::new(),
    }
}

/// A Collectr `Grade` cell: `Ungraded`; the company and the value written
/// as text (`PSA 10`); the company alone; or `Graded`.
pub open spec fn spec_grade(graded: i64, company: Option<Seq<char>>, value: Option<Seq<char>>) -> Seq<char> {
    if graded == 0 {
        "Ungraded"@
    } else {
        match (company, value) {
            (Some(c), Some(v)) => c + " "@ + v,
            (Some(c), None) => c,
            _ => "Graded"@,
        }
    }
}

pub fn grade(graded: i64, company: Option<&str>, value: Option<&str>) -> (r: String)
    ensures
        r@ == spec_grade(
            graded,
            match company { Some(c) => Some(c@), None => None },
            match value { Some(v) => Some(v@), None => None },
        ),
{
    if graded == 0 {
        return owned("Ungraded");
    }
    match (company, value) {
        (Some(c), Some(v)) => cat3(c, " ", v),
        (Some(c), None) => owned(c),
        _ => owned("Graded"),
    }
}

fn or_empty(o: &Option<String>) -> (r: String)
    ensures
        r@ == match o { Some(s) => s@, None => Seq::<char>::empty() },
{
    match o {
        Some(s) => s.clone(),
        None => String::new(),
    }
}

pub open spec fn opt_chars(o: Option<String>) -> Option<Seq<char>> {
    match o {
        Some(s) => Some(s@),
        None => None,
    }
}

pub open spec fn or_empty_spec(o: Option<String>) -> Seq<char> {
    match o {
        Some(s) => s@,
        None => Seq::empty(),
    }
}

// ── ManaBox ──────────────────────────────────────────────────────────────

/// One physical copy as the ManaBox export reads it. `price` is the
/// purchase price already written with two decimals, when there is one.
#[derive(Debug, Clone, PartialEq, Eq)]
pub struct ManaboxRow {
    pub set_code: String,
    pub set_name: String,
    pub number: String,
    pub variant: String,
    pub rarity: Option<String>,
    pub price: Option<String>,
    pub condition: String,
    pub language: String,
    pub tags: Option<String>,
}

/// The ManaBox header, in ManaBox's column order.
pub open spec fn manabox_header() -> Seq<Seq<char>> {
    seq![
        "Set code"@, "Set name"@, "Collector number"@, "Foil"@, "Rarity"@, "Quantity"@,
        "ManaBox ID"@, "Scryfall ID"@, "Purchase price"@, "Misprint"@, "Altered"@, "Condition"@,
        "Language"@, "Purchase price currency"@,
    ]
}

/// The ManaBox record of one copy: quantity always 1, the variant code in
/// `Foil`, the misprint/altered flags read off the tags, and `USD` beside
/// a price.
pub open spec fn manabox_record(r: ManaboxRow) -> Seq<Seq<char>> {
    let tags = or_empty_spec(r.tags);
    seq![
        r.set_code@, r.set_name@, r.number@, r.variant@, or_empty_spec(r.rarity), "1"@, ""@, ""@,
        or_empty_spec(r.price), spec_bool_str(contains(tags, "misprint"@)), spec_bool_str(
            contains(tags, "altered"@),
        ), r.condition@, r.language@, if r.price is Some {
            "USD"@
        } else {
            ""@
        },
    ]
}

fn manabox_cells(r: &ManaboxRow) -> (v: Vec<String>)
    ensures
        v@.map_values(|c: String| c@) == manabox_record(*r),
{
    let tags = or_empty(&r.tags);
    let tv = chars_of(tags.as_str());
    let misprint = contains_exec(&tv, &chars_of("misprint"));
    let altered = contains_exec(&tv, &chars_of("altered"));
    let mut v: Vec<String> = Vec::new();
    v.push(r.set_code.clone());
    v.push(r.set_name.clone());
    v.push(r.number.clone());
    v.push(r.variant.clone());
    v.push(or_empty(&r.rarity));
    v.push(owned("1"));
    v.push(owned(""));
    v.push(owned(""));
    v.push(or_empty(&r.price));
    v.push(owned(bool_str(misprint)));
    v.push(owned(bool_str(altered)));
    v.push(r.condition.clone());
    v.push(r.language.clone());
    v.push(owned(if r.price.is_some() { "USD" } else { "" }));
    assert(v@.map_values(|c: String| c@) =~= manabox_record(*r));
    v
}


/// The CSV text of `records` after `header`.
pub open spec fn spec_csv(header: Seq<Seq<char>>, records: Seq<Seq<Seq<char>>>) -> Seq<char> {
    csv_text(seq![header] + records)
}

/// Export copies as a ManaBox-shaped CSV: the header, then one row per
/// copy in the order given. Every record has the header's fields, so the
/// writer accepts them all and the export succeeds.
pub fn manabox_csv(rows: &Vec<ManaboxRow>) -> (r: Result<String, DbError>)
    ensures
        r matches Ok(s) ==> s@ == spec_csv(manabox_header(), rows@.map_values(|x: ManaboxRow| manabox_record(x))),
        r is Ok,
        r matches Err(e) ==> e is Import,
{
    let hv: Vec<&str> = vec![
        "Set code", "Set name", "Collector number", "Foil", "Rarity", "Quantity", "ManaBox ID",
        "Scryfall ID", "Purchase price", "Misprint", "Altered", "Condition", "Language",
        "Purchase price currency",
    ];
    assert(hv@.map_values(|c: &str| c@) =~= manabox_header());
    let mut records: Vec<Vec<String>> = Vec::new();
    records.push(text_vec(&hv));
    let mut i: usize = 0;
    while i < rows.len()
        invariant
            i <= rows@.len(),
            records@.len() == i + 1,
            records@[0]@.map_values(|c: String| c@) == manabox_header(),
            forall|k: int| 0 <= k < i ==> (#[trigger] records@[k + 1])@.map_values(|c: String| c@)
                == manabox_record(rows@[k]),
        decreases rows.len() - i,
    {
        records.push(manabox_cells(&rows[i]));
        i = i + 1;
    }
    assert(records_view(records@) =~= seq![manabox_header()] + rows@.map_values(|x: ManaboxRow| manabox_record(x))) by {
        assert forall|k: int| 0 <= k < records@.len() implies #[trigger] records_view(records@)[k] == (seq![manabox_header()]
            + rows@.map_values(|x: ManaboxRow| manabox_record(x)))[k] by {
            if k > 0 {
                assert(records@[(k - 1) + 1]@.map_values(|c: String| c@) == manabox_record(rows@[k - 1]));
            }
        }
    }
    assert(uniform(records_view(records@))) by {
        let all = records_view(records@);
        assert forall|k: int| 0 <= k < all.len() implies (#[trigger] all[k]).len() == all[0].len() by {
            assert(all[0] == manabox_header());
            if k > 0 {
                assert(all[k] == manabox_record(rows@[k - 1]));
            }
        }
    }
    match write_csv(&records) {
        Ok(s) => Ok(s),
        Err(e) => Err(DbError::Import(cat("CSV write error: ", e.as_str()))),
    }
}

// ── Collectr ─────────────────────────────────────────────────────────────

/// Collectr's column order, verbatim.
pub open spec fn collectr_header() -> Seq<Seq<char>> {
    seq![
        "Portfolio Name"@, "Category"@, "Set"@, "Product Name"@, "Card Number"@, "Rarity"@,
        "Variance"@, "Grade"@, "Card Condition"@, "Average Cost Paid"@, "Quantity"@,
        "Market Price"@, "Price Override"@, "Watchlist"@, "Date Added"@, "Notes"@,
    ]
}

fn collectr_header_cells() -> (v: Vec<String>)
    ensures
        v@.map_values(|c: String| c@) == collectr_header(),
{
    let hv: Vec<&str> = vec![
        "Portfolio Name", "Category", "Set", "Product Name", "Card Number", "Rarity", "Variance",
        "Grade", "Card Condition", "Average Cost Paid", "Quantity", "Market Price", "Price Override",
        "Watchlist", "Date Added", "Notes",
    ];
    assert(hv@.map_values(|c: &str| c@) =~= collectr_header());
    text_vec(&hv)
}

/// One owned single copy as the Collectr export reads it. `cost` is the
/// purchase price already written with two decimals (empty when unknown);
/// `grade_value` the grade already written without a trailing `.0`.
#[derive(Debug, Clone, PartialEq, Eq)]
pub struct SinglesExportRow {
    pub set_name: String,
    pub printed_total: Option<i64>,
    pub card_name: String,
    pub number: String,
    pub rarity: Option<String>,
    pub variant: String,
    pub condition: String,
    pub cost: String,
    pub acquired_at: Option<String>,
    pub graded: i64,
    pub grade_company: Option<String>,
    pub grade_value: Option<String>,
    pub notes: Option<String>,
}

/// The Collectr record of one single: portfolio `Main`, quantity always 1,
/// no market price (Collectr recomputes it), no override, not watched.
pub open spec fn singles_record(r: SinglesExportRow) -> Seq<Seq<char>> {
    seq![
        "Main"@, "Pokemon"@, r.set_name@, r.card_name@, spec_card_number(r.number@, r.printed_total),
        or_empty_spec(r.rarity), spec_variance(r.variant@), spec_grade(
            r.graded,
            opt_chars(r.grade_company),
            opt_chars(r.grade_value),
        ), r.condition@, r.cost@, "1"@, ""@, "0"@, "false"@, spec_date_only(opt_chars(r.acquired_at)),
        or_empty_spec(r.notes),
    ]
}

fn opt_str(o: &Option<String>) -> (r: Option<&str>)
    ensures
        match r { Some(x) => Some(x@), None => None } == opt_chars(*o),
{
    match o {
        Some(s) => Some(s.as_str()),
        None => None,
    }
}

fn singles_cells(r: &SinglesExportRow) -> (v: Vec<String>)
    ensures
        v@.map_values(|c: String| c@) == singles_record(*r),
{
    let mut v: Vec<String> = Vec::new();
    v.push(owned("Main"));
    v.push(owned("Pokemon"));
    v.push(r.set_name.clone());
    v.push(r.card_name.clone());
    v.push(card_number(r.number.as_str(), r.printed_total));
    v.push(or_empty(&r.rarity));
    v.push(owned(variant_to_collectr(r.variant.as_str())));
    v.push(grade(r.graded, opt_str(&r.grade_company), opt_str(&r.grade_value)));
    v.push(r.condition.clone());
    v.push(r.cost.clone());
    v.push(owned("1"));
    v.push(owned(""));
    v.push(owned("0"));
    v.push(owned("false"));
    v.push(date_only(opt_str(&r.acquired_at)));
    v.push(or_empty(&r.notes));
    assert(v@.map_values(|c: String| c@) =~= singles_record(*r));
    v
}

/// One owned sealed product as the Collectr export reads it; `cost` as for
/// singles.
#[derive(Debug, Clone, PartialEq, Eq)]
pub struct SealedExportRow {
    pub set_name: Option<String>,
    pub product_name: String,
    pub quantity: i64,
    pub condition: Option<String>,
    pub cost: String,
    pub purchase_date: Option<String>,
    pub notes: Option<String>,
}

/// The Collectr record of one sealed product: portfolio `Sealed Pokemon
/// TCG`, a blank card number and rarity (which is what marks it sealed),
/// `Normal`, `Ungraded`, `Near Mint` unless a condition is stored, and its
/// quantity kept.
pub open spec fn sealed_record(r: SealedExportRow) -> Seq<Seq<char>> {
    seq![
        "Sealed Pokemon TCG"@, "Pokemon"@, or_empty_spec(r.set_name), r.product_name@, ""@, ""@,
        "Normal"@, "Ungraded"@, match r.condition {
            Some(c) => c@,
            None => "Near Mint"@,
        }, r.cost@, decimal(r.quantity as int), ""@, "0"@, "false"@, spec_date_only(
            opt_chars(r.purchase_date),
        ), or_empty_spec(r.notes),
    ]
}

fn sealed_cells(r: &SealedExportRow) -> (v: Vec<String>)
    ensures
        v@.map_values(|c: String| c@) == sealed_record(*r),
{
    let mut v: Vec<String> = Vec::new();
    v.push(owned("Sealed Pokemon TCG"));
    v.push(owned("Pokemon"));
    v.push(or_empty(&r.set_name));
    v.push(r.product_name.clone());
    v.push(owned(""));
    v.push(owned(""));
    v.push(owned("Normal"));
    v.push(owned("Ungraded"));
    v.push(
        match &r.condition {
            Some(c) => c.clone(),
            None => owned("Near Mint"),
        },
    );
    v.push(r.cost.clone());
    v.push(int_to_string(r.quantity));
    v.push(owned(""));
    v.push(owned("0"));
    v.push(owned("false"));
    v.push(date_only(opt_str(&r.purchase_date)));
    v.push(or_empty(&r.notes));
    assert(v@.map_values(|c: String| c@) =~= sealed_record(*r));
    v
}

/// Export owned single cards as a Collectr-shaped CSV (portfolio `Main`),
/// one row per copy in the order given; it succeeds, every record having
/// the header's fields.
pub fn collectr_singles_csv(rows: &Vec<SinglesExportRow>) -> (r: Result<String, DbError>)
    ensures
        r matches Ok(s) ==> s@ == spec_csv(collectr_header(), rows@.map_values(|x: SinglesExportRow| singles_record(x))),
        r is Ok,
        r matches Err(e) ==> e is Import,
{
    let mut records: Vec<Vec<String>> = Vec::new();
    records.push(collectr_header_cells());
    let mut i: usize = 0;
    while i < rows.len()
        invariant
            i <= rows@.len(),
            records@.len() == i + 1,
            records@[0]@.map_values(|c: String| c@) == collectr_header(),
            forall|k: int| 0 <= k < i ==> (#[trigger] records@[k + 1])@.map_values(|c: String| c@)
                == singles_record(rows@[k]),
        decreases rows.len() - i,
    {
        records.push(singles_cells(&rows[i]));
        i = i + 1;
    }
    assert(records_view(records@) =~= seq![collectr_header()] + rows@.map_values(|x: SinglesExportRow| singles_record(x))) by {
        assert forall|k: int| 0 <= k < records@.len() implies #[trigger] records_view(records@)[k] == (seq![collectr_header()]
            + rows@.map_values(|x: SinglesExportRow| singles_record(x)))[k] by {
            if k > 0 {
                assert(records@[(k - 1) + 1]@.map_values(|c: String| c@) == singles_record(rows@[k - 1]));
            }
        }
    }
    assert(uniform(records_view(records@))) by {
        let all = records_view(records@);
        assert forall|k: int| 0 <= k < all.len() implies (#[trigger] all[k]).len() == all[0].len() by {
            assert(all[0] == collectr_header());
            if k > 0 {
                assert(all[k] == singles_record(rows@[k - 1]));
            }
        }
    }
    match write_csv(&records) {
        Ok(s) => Ok(s),
        Err(e) => Err(DbError::Import(cat("CSV write failed: ", e.as_str()))),
    }
}

/// Export owned sealed products as a Collectr-shaped CSV (portfolio
/// `Sealed Pokemon TCG`), one row per stored row — quantity kept, never
/// expanded; it succeeds, every record having the header's fields.
pub fn collectr_sealed_csv(rows: &Vec<SealedExportRow>) -> (r: Result<String, DbError>)
    ensures
        r matches Ok(s) ==> s@ == spec_csv(collectr_header(), rows@.map_values(|x: SealedExportRow| sealed_record(x))),
        r is Ok,
        r matches Err(e) ==> e is Import,
{
    let mut records: Vec<Vec<String>> = Vec::new();
    records.push(collectr_header_cells());
    let mut i: usize = 0;
    while i < rows.len()
        invariant
            i <= rows@.len(),
            records@.len() == i + 1,
            records@[0]@.map_values(|c: String| c@) == collectr_header(),
            forall|k: int| 0 <= k < i ==> (#[trigger] records@[k + 1])@.map_values(|c: String| c@)
                == sealed_record(rows@[k]),
        decreases rows.len() - i,
    {
        records.push(sealed_cells(&rows[i]));
        i = i + 1;
    }
    assert(records_view(records@) =~= seq![collectr_header()] + rows@.map_values(|x: SealedExportRow| sealed_record(x))) by {
        assert forall|k: int| 0 <= k < records@.len() implies #[trigger] records_view(records@)[k] == (seq![collectr_header()]
            + rows@.map_values(|x: SealedExportRow| sealed_record(x)))[k] by {
            if k > 0 {
                assert(records@[(k - 1) + 1]@.map_values(|c: String| c@) == sealed_record(rows@[k - 1]));
            }
        }
    }
    assert(uniform(records_view(records@))) by {
        let all = records_view(records@);
        assert forall|k: int| 0 <= k < all.len() implies (#[trigger] all[k]).len() == all[0].len() by {
            assert(all[0] == collectr_header());
            if k > 0 {
                assert(all[k] == sealed_record(rows@[k - 1]));
            }
        }
    }
    match write_csv(&records) {
        Ok(s) => Ok(s),
        Err(e) => Err(DbError::Import(cat("CSV write failed: ", e.as_str()))),
    }
}

/// Singles and sealed never share a file: every singles record is in the
/// `Main` portfolio with a card number, every sealed record in the sealed
/// portfolio with a blank one.
pub proof fn lemma_garden_wall(single: SinglesExportRow, sealed: SealedExportRow)
    ensures
        singles_record(single)[0] == "Main"@,
        sealed_record(sealed)[0] == "Sealed Pokemon TCG"@,
        sealed_record(sealed)[4].len() == 0,
        singles_record(single)[4].len() >= single.number@.len(),
        singles_record(single)[10] == "1"@,
{
    reveal_strlit("");
}


/// `record`'s cell in the column that `header` names `name` is `cell`.
pub open spec fn column_holds(header: Seq<Seq<char>>, record: Seq<Seq<char>>, name: Seq<char>, cell: Seq<char>) -> bool {
    exists|k: int| 0 <= k < header.len() && k < record.len() && #[trigger] header[k] == name && record[k] == cell
}

/// A Collectr single's `Variance` column names its treatment: `normal` is
/// `Normal`, `reverse_holo` is `Reverse Holofoil`, any other (holo) variant
/// is `Holofoil`.
pub proof fn lemma_collectr_variance_column(r: SinglesExportRow)
    ensures
        r.variant@ == "normal"@ ==> column_holds(collectr_header(), singles_record(r), "Variance"@, "Normal"@),
        r.variant@ == "reverse_holo"@ ==> column_holds(
            collectr_header(),
            singles_record(r),
            "Variance"@,
            "Reverse Holofoil"@,
        ),
        r.variant@ != "normal"@ && r.variant@ != "reverse_holo"@ ==> column_holds(
            collectr_header(),
            singles_record(r),
            "Variance"@,
            "Holofoil"@,
        ),
{
    reveal_strlit("normal");
    reveal_strlit("reverse_holo");
    assert("normal"@.len() != "reverse_holo"@.len());
    assert(collectr_header()[6] == "Variance"@);
}

/// A ManaBox record's `Misprint` and `Altered` columns read the copy's tags:
/// `true` exactly when the tags mention `misprint`, respectively `altered`
/// (no tags reading as empty).
pub proof fn lemma_manabox_flag_columns(r: ManaboxRow)
    ensures
        column_holds(
            manabox_header(),
            manabox_record(r),
            "Misprint"@,
            if contains(or_empty_spec(r.tags), "misprint"@) {
                "true"@
            } else {
                "false"@
            },
        ),
        column_holds(
            manabox_header(),
            manabox_record(r),
            "Altered"@,
            if contains(or_empty_spec(r.tags), "altered"@) {
                "true"@
            } else {
                "false"@
            },
        ),
{
    assert(manabox_header()[9] == "Misprint"@);
    assert(manabox_header()[10] == "Altered"@);
}


/// Each ManaBox column holds what its header names: the copy's set, number,
/// variant (`Foil`), rarity, price and condition and language; quantity
/// `1`; blank ids; the misprint/altered flags read off the tags; `USD`
/// beside a price.
pub proof fn lemma_manabox_columns(r: ManaboxRow)
    ensures
        column_holds(manabox_header(), manabox_record(r), "Set code"@, r.set_code@),
        column_holds(manabox_header(), manabox_record(r), "Set name"@, r.set_name@),
        column_holds(manabox_header(), manabox_record(r), "Collector number"@, r.number@),
        column_holds(manabox_header(), manabox_record(r), "Foil"@, r.variant@),
        column_holds(manabox_header(), manabox_record(r), "Rarity"@, match r.rarity { Some(x) => x@, None => Seq::<char>::empty() }),
        column_holds(manabox_header(), manabox_record(r), "Quantity"@, "1"@),
        column_holds(manabox_header(), manabox_record(r), "ManaBox ID"@, ""@),
        column_holds(manabox_header(), manabox_record(r), "Scryfall ID"@, ""@),
        column_holds(manabox_header(), manabox_record(r), "Purchase price"@, match r.price { Some(x) => x@, None => Seq::<char>::empty() }),
        column_holds(manabox_header(), manabox_record(r), "Misprint"@, if contains(match r.tags { Some(x) => x@, None => Seq::<char>::empty() }, "misprint"@) { "true"@ } else { "false"@ }),
        column_holds(manabox_header(), manabox_record(r), "Altered"@, if contains(match r.tags { Some(x) => x@, None => Seq::<char>::empty() }, "altered"@) { "true"@ } else { "false"@ }),
        column_holds(manabox_header(), manabox_record(r), "Condition"@, r.condition@),
        column_holds(manabox_header(), manabox_record(r), "Language"@, r.language@),
        column_holds(manabox_header(), manabox_record(r), "Purchase price currency"@, if r.price is Some { "USD"@ } else { ""@ }),
{
    reveal_strlit("");
    assert(manabox_header()[0] == "Set code"@);
    assert(manabox_header()[1] == "Set name"@);
    assert(manabox_header()[2] == "Collector number"@);
    assert(manabox_header()[3] == "Foil"@);
    assert(manabox_header()[4] == "Rarity"@);
    assert(manabox_header()[5] == "Quantity"@);
    assert(manabox_header()[6] == "ManaBox ID"@);
    assert(manabox_header()[7] == "Scryfall ID"@);
    assert(manabox_header()[8] == "Purchase price"@);
    assert(manabox_header()[9] == "Misprint"@);
    assert(manabox_header()[10] == "Altered"@);
    assert(manabox_header()[11] == "Condition"@);
    assert(manabox_header()[12] == "Language"@);
    assert(manabox_header()[13] == "Purchase price currency"@);
}

/// Each Collectr column of a single holds what its header names: portfolio
/// `Main`, the card's set, name, number over the printed total, rarity,
/// treatment, grade, condition and cost, quantity `1`, no market price,
/// override `0`, not watched, the date acquired and the notes.
pub proof fn lemma_collectr_single_columns(r: SinglesExportRow)
    ensures
        column_holds(collectr_header(), singles_record(r), "Portfolio Name"@, "Main"@),
        column_holds(collectr_header(), singles_record(r), "Category"@, "Pokemon"@),
        column_holds(collectr_header(), singles_record(r), "Set"@, r.set_name@),
        column_holds(collectr_header(), singles_record(r), "Product Name"@, r.card_name@),
        column_holds(collectr_header(), singles_record(r), "Card Number"@, match r.printed_total { Some(t) => r.number@ + "/"@ + decimal(t as int), None => r.number@ }),
        column_holds(collectr_header(), singles_record(r), "Rarity"@, match r.rarity { Some(x) => x@, None => Seq::<char>::empty() }),
        column_holds(collectr_header(), singles_record(r), "Variance"@, if r.variant@ == "normal"@ { "Normal"@ } else if r.variant@ == "reverse_holo"@ { "Reverse Holofoil"@ } else { "Holofoil"@ }),
        column_holds(collectr_header(), singles_record(r), "Grade"@, if r.graded == 0 { "Ungraded"@ } else { match (r.grade_company, r.grade_value) { (Some(c), Some(v)) => c@ + " "@ + v@, (Some(c), None) => c@, _ => "Graded"@ } }),
        column_holds(collectr_header(), singles_record(r), "Card Condition"@, r.condition@),
        column_holds(collectr_header(), singles_record(r), "Average Cost Paid"@, r.cost@),
        column_holds(collectr_header(), singles_record(r), "Quantity"@, "1"@),
        column_holds(collectr_header(), singles_record(r), "Market Price"@, ""@),
        column_holds(collectr_header(), singles_record(r), "Price Override"@, "0"@),
        column_holds(collectr_header(), singles_record(r), "Watchlist"@, "false"@),
        column_holds(collectr_header(), singles_record(r), "Date Added"@, match r.acquired_at { Some(t) => if t@.len() <= 10 { t@ } else { t@.take(10) }, None => Seq::<char>::empty() }),
        column_holds(collectr_header(), singles_record(r), "Notes"@, match r.notes { Some(x) => x@, None => Seq::<char>::empty() }),
{
    reveal_strlit("");
    assert(collectr_header()[0] == "Portfolio Name"@);
    assert(collectr_header()[1] == "Category"@);
    assert(collectr_header()[2] == "Set"@);
    assert(collectr_header()[3] == "Product Name"@);
    assert(collectr_header()[4] == "Card Number"@);
    assert(collectr_header()[5] == "Rarity"@);
    assert(collectr_header()[6] == "Variance"@);
    assert(collectr_header()[7] == "Grade"@);
    assert(collectr_header()[8] == "Card Condition"@);
    assert(collectr_header()[9] == "Average Cost Paid"@);
    assert(collectr_header()[10] == "Quantity"@);
    assert(collectr_header()[11] == "Market Price"@);
    assert(collectr_header()[12] == "Price Override"@);
    assert(collectr_header()[13] == "Watchlist"@);
    assert(collectr_header()[14] == "Date Added"@);
    assert(collectr_header()[15] == "Notes"@);
}

/// Each Collectr column of a sealed product holds what its header names:
/// the sealed portfolio, its set and name, blank card number and rarity,
/// `Normal`, `Ungraded`, its condition (`Near Mint` when unknown), cost and
/// quantity, override `0`, not watched, the purchase date and the notes.
pub proof fn lemma_collectr_sealed_columns(r: SealedExportRow)
    ensures
        column_holds(collectr_header(), sealed_record(r), "Portfolio Name"@, "Sealed Pokemon TCG"@),
        column_holds(collectr_header(), sealed_record(r), "Category"@, "Pokemon"@),
        column_holds(collectr_header(), sealed_record(r), "Set"@, match r.set_name { Some(x) => x@, None => Seq::<char>::empty() }),
        column_holds(collectr_header(), sealed_record(r), "Product Name"@, r.product_name@),
        column_holds(collectr_header(), sealed_record(r), "Card Number"@, ""@),
        column_holds(collectr_header(), sealed_record(r), "Rarity"@, ""@),
        column_holds(collectr_header(), sealed_record(r), "Variance"@, "Normal"@),
        column_holds(collectr_header(), sealed_record(r), "Grade"@, "Ungraded"@),
        column_holds(collectr_header(), sealed_record(r), "Card Condition"@, match r.condition { Some(c) => c@, None => "Near Mint"@ }),
        column_holds(collectr_header(), sealed_record(r), "Average Cost Paid"@, r.cost@),
        column_holds(collectr_header(), sealed_record(r), "Quantity"@, decimal(r.quantity as int)),
        column_holds(collectr_header(), sealed_record(r), "Market Price"@, ""@),
        column_holds(collectr_header(), sealed_record(r), "Price Override"@, "0"@),
        column_holds(collectr_header(), sealed_record(r), "Watchlist"@, "false"@),
        column_holds(collectr_header(), sealed_record(r), "Date Added"@, match r.purchase_date { Some(t) => if t@.len() <= 10 { t@ } else { t@.take(10) }, None => Seq::<char>::empty() }),
        column_holds(collectr_header(), sealed_record(r), "Notes"@, match r.notes { Some(x) => x@, None => Seq::<char>::empty() }),
{
    reveal_strlit("");
    assert(collectr_header()[0] == "Portfolio Name"@);
    assert(collectr_header()[1] == "Category"@);
    assert(collectr_header()[2] == "Set"@);
    assert(collectr_header()[3] == "Product Name"@);
    assert(collectr_header()[4] == "Card Number"@);
    assert(collectr_header()[5] == "Rarity"@);
    assert(collectr_header()[6] == "Variance"@);
    assert(collectr_header()[7] == "Grade"@);
    assert(collectr_header()[8] == "Card Condition"@);
    assert(collectr_header()[9] == "Average Cost Paid"@);
    assert(collectr_header()[10] == "Quantity"@);
    assert(collectr_header()[11] == "Market Price"@);
    assert(collectr_header()[12] == "Price Override"@);
    assert(collectr_header()[13] == "Watchlist"@);
    assert(collectr_header()[14] == "Date Added"@);
    assert(collectr_header()[15] == "Notes"@);
}

} // verus!
