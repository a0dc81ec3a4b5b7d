//! CSV import: resolve parsed rows against the catalog into a preview
//! report, then plan the commit of the matched rows.
//!
//! The catalog is handed in as the rows of its `sets`, `cards` and
//! `printings` tables, in table-scan order; a lookup answers what the
//! original `query_row` answers — the first row that matches. Set codes and
//! names are compared as SQLite's `COLLATE NOCASE` compares them (ASCII case
//! folded); card numbers, card ids and variants compare exactly.

use vstd::prelude::*;
use crate::error::DbError;
use crate::seqs::{is_first, first_index, lemma_first_found, lemma_first_none, lemma_filter_push, lemma_take_push};
use crate::sealed_import::SealedCommitResult;
use crate::text::{
    ascii_lower, unicode_lower, trim, chars_of, trim_vec, string_from, to_lowercase, str_eq,
    owned, cat, cat3, clone_opt, clone_strings, eq_nocase, push_char,
};

verus! {

/// A supported import file format.
#[derive(Debug, Clone, Copy, PartialEq, Eq, Structural)]
pub enum ImportFormat {
    Manabox,
    Tcgplayer,
    /// PokeDumpster-native — what the pkmn.gg export writes.
    Pokedumpster,
    /// Collectr (getcollectr.com): singles and sealed in one file.
    Collectr,
}

/// The format a normalised wire name names, if any.
pub open spec fn format_named(key: Seq<char>) -> Option<ImportFormat> {
    if key == "manabox"@ {
        Some(ImportFormat::Manabox)
    } else if key == "tcgplayer"@ {
        Some(ImportFormat::Tcgplayer)
    } else if key == "pokedumpster"@ || key == "pkmngg"@ {
        Some(ImportFormat::Pokedumpster)
    } else if key == "collectr"@ {
        Some(ImportFormat::Collectr)
    } else {
        None
    }
}

/// A wire name as it is compared: trimmed, then lowercased.
pub open spec fn format_key(name: Seq<char>) -> Seq<char> {
    unicode_lower(trim(name))
}

impl ImportFormat {
    /// The `collection.source` value for copies imported in this format.
    pub open spec fn spec_source(self) -> Seq<char> {
        match self {
            ImportFormat::Manabox => "csv_manabox"@,
            ImportFormat::Tcgplayer => "csv_tcgplayer"@,
            ImportFormat::Pokedumpster => "csv_pokedumpster"@,
            ImportFormat::Collectr => "csv_collectr"@,
        }
    }

    /// Parse the wire name (`"manabox"`, `"tcgplayer"`, `"pokedumpster"`,
    /// `"collectr"`), after trimming and lowercasing. `"pkmngg"` is an alias
    /// for `"pokedumpster"`.
    pub fn parse(name: &str) -> (r: Result<ImportFormat, DbError>)
        ensures
            match format_named(format_key(name@)) {
                Some(f) => r == Ok::<ImportFormat, DbError>(f),
                None => r matches Err(DbError::Import(m)) && m@ == "unknown import format '"@
                    + format_key(name@) + "'"@,
            },
    {
        let v = chars_of(name);
        let t = trim_vec(&v);
        let ts = string_from(&t, 0, t.len());
        let key = to_lowercase(ts.as_str());
        assert(ts@ =~= trim(name@));
        assert(key@ == format_key(name@));
        proof {
            reveal_strlit("manabox");
            reveal_strlit("tcgplayer");
            reveal_strlit("pokedumpster");
            reveal_strlit("pkmngg");
            reveal_strlit("collectr");
        }
        if str_eq(key.as_str(), "manabox") {
            Ok(ImportFormat::Manabox)
        } else if str_eq(key.as_str(), "tcgplayer") {
            Ok(ImportFormat::Tcgplayer)
        } else if str_eq(key.as_str(), "pokedumpster") || str_eq(key.as_str(), "pkmngg") {
            Ok(ImportFormat::Pokedumpster)
        } else if str_eq(key.as_str(), "collectr") {
            Ok(ImportFormat::Collectr)
        } else {
            Err(DbError::Import(cat3("unknown import format '", key.as_str(), "'")))
        }
    }

    /// The `collection.source` value for copies imported in this format.
    pub fn source(self) -> (r: &'static str)
        ensures
            r@ == self.spec_source(),
    {
        match self {
            ImportFormat::Manabox => "csv_manabox",
            ImportFormat::Tcgplayer => "csv_tcgplayer",
            ImportFormat::Pokedumpster => "csv_pokedumpster",
            ImportFormat::Collectr => "csv_collectr",
        }
    }

    /// The `batches.batch_type` value for this format's import batches —
    /// the same spelling as its source.
    pub fn batch_type(self) -> (r: &'static str)
        ensures
            r@ == self.spec_source(),
    {
        self.source()
    }
}

// ── catalog rows ─────────────────────────────────────────────────────────

/// One row of the catalog's `sets` table, as resolution reads it.
#[derive(Debug, Clone)]
pub struct SetRow {
    pub set_code: String,
    pub ptcgo_code: Option<String>,
    pub name: String,
}

/// One row of the catalog's `cards` table, as resolution reads it.
#[derive(Debug, Clone)]
pub struct CardRow {
    pub card_id: String,
    pub set_code: String,
    pub number: String,
    pub name: String,
}

/// One row of the catalog's `printings` table; `deprecated` is whether
/// `deprecated_at` is set.
#[derive(Debug, Clone)]
pub struct PrintingRow {
    pub printing_id: String,
    pub card_id: String,
    pub variant: String,
    pub deprecated: bool,
}

/// The catalog tables import resolution consults, in table-scan order.
#[derive(Debug, Clone)]
pub struct Catalog {
    pub sets: Vec<SetRow>,
    pub cards: Vec<CardRow>,
    pub printings: Vec<PrintingRow>,
}

/// A parsed import line before resolution. A purchase price is carried as
/// the bit pattern of its `f64` (`f64::to_bits`), which round-trips exactly.
#[derive(Debug, Clone)]
pub struct ParsedRow {
    pub source_line: u32,
    pub set_hint: String,
    pub set_name: Option<String>,
    pub number: String,
    pub variant: String,
    pub condition: String,
    pub language: String,
    pub purchase_price_bits: Option<u64>,
    pub acquired_at: Option<String>,
    pub tags: Vec<String>,
}

/// A row that resolved cleanly to a catalog printing — ready to commit.
#[derive(Debug)]
pub struct ResolvedRow {
    pub source_line: u32,
    pub printing_id: String,
    pub card_name: String,
    pub set_code: String,
    pub number: String,
    pub variant: String,
    pub condition: String,
    pub language: String,
    pub purchase_price_bits: Option<u64>,
    pub acquired_at: Option<String>,
    pub tags: Vec<String>,
    /// Owned copies of this printing already in the collection; filled by
    /// [`annotate_owned`], `0` straight out of [`resolve`].
    pub already_owned: u32,
}

/// A row that could not be resolved, with a human-readable reason.
#[derive(Debug, Clone)]
pub struct UnmatchedRow {
    pub source_line: u32,
    pub set_hint: String,
    pub number: String,
    pub variant: String,
    pub reason: String,
}

/// The outcome of resolving an import file — a preview shown before commit.
#[derive(Debug)]
pub struct ResolutionReport {
    pub matched: Vec<ResolvedRow>,
    pub unmatched: Vec<UnmatchedRow>,
}

/// The outcome of committing an import.
#[derive(Debug, Clone, Copy, PartialEq, Eq)]
pub struct CommitResult {
    pub batch_id: i64,
    pub added: u32,
    pub skipped: u32,
}

/// A row skipped during a combined import (e.g. a non-Pokémon Collectr row).
#[derive(Debug, Clone)]
pub struct SkippedRow {
    pub source_line: u32,
    pub category: String,
    pub name: String,
    pub reason: String,
}

// ── resolution, specified ────────────────────────────────────────────────

/// Equality as SQLite's `COLLATE NOCASE` decides it.
pub open spec fn nocase(a: Seq<char>, b: Seq<char>) -> bool {
    ascii_lower(a) == ascii_lower(b)
}

pub open spec fn code_is(hint: Seq<char>) -> spec_fn(SetRow) -> bool {
    |s: SetRow| nocase(s.set_code@, hint)
}

pub open spec fn ptcgo_is(hint: Seq<char>) -> spec_fn(SetRow) -> bool {
    |s: SetRow| s.ptcgo_code is Some && nocase(s.ptcgo_code.unwrap()@, hint)
}

pub open spec fn name_is(n: Seq<char>) -> spec_fn(SetRow) -> bool {
    |s: SetRow| nocase(s.name@, n)
}

/// The set a hint resolves to: exact code, then PTCGO code, then set name
/// (the explicit name field, then the hint read as a name) — each the first
/// matching row, case-insensitively.
pub open spec fn spec_resolve_set(sets: Seq<SetRow>, hint: Seq<char>, name: Option<Seq<char>>) -> Option<int> {
    if first_index(sets, code_is(hint)) is Some {
        first_index(sets, code_is(hint))
    } else if first_index(sets, ptcgo_is(hint)) is Some {
        first_index(sets, ptcgo_is(hint))
    } else if name is Some && first_index(sets, name_is(name.unwrap())) is Some {
        first_index(sets, name_is(name.unwrap()))
    } else {
        first_index(sets, name_is(hint))
    }
}

pub open spec fn opt_view(o: Option<String>) -> Option<Seq<char>> {
    match o {
        Some(s) => Some(s@),
        None => None,
    }
}

pub open spec fn card_is(code: Seq<char>, number: Seq<char>) -> spec_fn(CardRow) -> bool {
    |c: CardRow| c.set_code@ == code && c.number@ == number
}

pub open spec fn printing_is(card_id: Seq<char>, variant: Seq<char>) -> spec_fn(PrintingRow) -> bool {
    |p: PrintingRow| p.card_id@ == card_id && p.variant@ == variant && !p.deprecated
}

/// How one parsed row resolves, by catalog row positions.
pub enum Outcome {
    UnknownSet,
    NoCard { set: int },
    NoPrinting { set: int, card: int },
    Matched { set: int, card: int, printing: int },
}

/// Resolve one row: its set, then the card with its number in that set,
/// then the non-deprecated printing of that card in its variant.
pub open spec fn spec_outcome(cat: Catalog, row: ParsedRow) -> Outcome {
    match spec_resolve_set(cat.sets@, row.set_hint@, opt_view(row.set_name)) {
        None => Outcome::UnknownSet,
        Some(s) => {
            let code = cat.sets@[s].set_code@;
            match first_index(cat.cards@, card_is(code, row.number@)) {
                None => Outcome::NoCard { set: s },
                Some(c) => match first_index(
                    cat.printings@,
                    printing_is(cat.cards@[c].card_id@, row.variant@),
                ) {
                    None => Outcome::NoPrinting { set: s, card: c },
                    Some(p) => Outcome::Matched { set: s, card: c, printing: p },
                },
            }
        },
    }
}

pub open spec fn is_matched(cat: Catalog) -> spec_fn(ParsedRow) -> bool {
    |r: ParsedRow| spec_outcome(cat, r) is Matched
}

pub open spec fn is_unmatched(cat: Catalog) -> spec_fn(ParsedRow) -> bool {
    |r: ParsedRow| !(spec_outcome(cat, r) is Matched)
}

/// `m` is the resolved form of `row`: catalog values from the rows the
/// resolution found, everything else carried over, no owned copies counted.
pub open spec fn matched_ok(cat: Catalog, row: ParsedRow, m: ResolvedRow) -> bool {
    match spec_outcome(cat, row) {
        Outcome::Matched { set, card, printing } => {
            &&& m.source_line == row.source_line
            &&& m.printing_id@ == cat.printings@[printing].printing_id@
            &&& m.card_name@ == cat.cards@[card].name@
            &&& m.set_code@ == cat.sets@[set].set_code@
            &&& m.number@ == row.number@
            &&& m.variant@ == row.variant@
            &&& m.condition@ == row.condition@
            &&& m.language@ == row.language@
            &&& m.purchase_price_bits == row.purchase_price_bits
            &&& m.acquired_at == row.acquired_at
            &&& m.tags@ == row.tags@
            &&& m.already_owned == 0
        },
        _ => false,
    }
}

/// The reason an unmatched row reports.
pub open spec fn spec_reason(cat: Catalog, row: ParsedRow) -> Seq<char> {
    match spec_outcome(cat, row) {
        Outcome::UnknownSet => "unknown set '"@ + row.set_hint@ + "'"@,
        Outcome::NoCard { set } => "card #"@ + row.number@ + " not found in "@
            + cat.sets@[set].set_code@,
        Outcome::NoPrinting { set, card } => "variant '"@ + row.variant@
            + "' not available for "@ + cat.cards@[card].name@,
        Outcome::Matched { .. } => Seq::empty(),
    }
}

pub open spec fn unmatched_ok(cat: Catalog, row: ParsedRow, u: UnmatchedRow) -> bool {
    &&& !(spec_outcome(cat, row) is Matched)
    &&& u.source_line == row.source_line
    &&& u.set_hint@ == row.set_hint@
    &&& u.number@ == row.number@
    &&& u.variant@ == row.variant@
    &&& u.reason@ == spec_reason(cat, row)
}

/// `report` is the resolution of `rows`: the matched rows in file order,
/// each resolved, and the rest in file order, each with its reason.
pub open spec fn report_of(cat: Catalog, rows: Seq<ParsedRow>, report: ResolutionReport) -> bool {
    let ms = rows.filter(is_matched(cat));
    let us = rows.filter(is_unmatched(cat));
    &&& report.matched@.len() == ms.len()
    &&& forall|i: int| 0 <= i < ms.len() ==> matched_ok(cat, ms[i], #[trigger] report.matched@[i])
    &&& report.unmatched@.len() == us.len()
    &&& forall|i: int|
        0 <= i < us.len() ==> unmatched_ok(cat, us[i], #[trigger] report.unmatched@[i])
}

// ── resolution, implemented ──────────────────────────────────────────────

fn find_set_by_code(sets: &Vec<SetRow>, hint: &String) -> (r: Option<usize>)
    ensures
        r matches Some(i) ==> first_index(sets@, code_is(hint@)) == Some(i as int),
        r is None ==> first_index(sets@, code_is(hint@)) is None,
{
    let ghost p = code_is(hint@);
    let mut i: usize = 0;
    while i < sets.len()
        invariant
            i <= sets@.len(),
            p == code_is(hint@),
            forall|j: int| 0 <= j < i ==> !p(#[trigger] sets@[j]),
        decreases sets.len() - i,
    {
        if eq_nocase(sets[i].set_code.as_str(), hint.as_str()) {
            proof {
                lemma_first_found(sets@, p, i as int);
            }
            return Some(i);
        }
        i = i + 1;
    }
    proof {
        lemma_first_none(sets@, p);
    }
    None
}

fn find_set_by_ptcgo(sets: &Vec<SetRow>, hint: &String) -> (r: Option<usize>)
    ensures
        r matches Some(i) ==> first_index(sets@, ptcgo_is(hint@)) == Some(i as int),
        r is None ==> first_index(sets@, ptcgo_is(hint@)) is None,
{
    let ghost p = ptcgo_is(hint@);
    let mut i: usize = 0;
    while i < sets.len()
        invariant
            i <= sets@.len(),
            p == ptcgo_is(hint@),
            forall|j: int| 0 <= j < i ==> !p(#[trigger] sets@[j]),
        decreases sets.len() - i,
    {
        let hit = match &sets[i].ptcgo_code {
            Some(code) => eq_nocase(code.as_str(), hint.as_str()),
            None => false,
        };
        if hit {
            proof {
                lemma_first_found(sets@, p, i as int);
            }
            return Some(i);
        }
        i = i + 1;
    }
    proof {
        lemma_first_none(sets@, p);
    }
    None
}

fn find_set_by_name(sets: &Vec<SetRow>, n: &String) -> (r: Option<usize>)
    ensures
        r matches Some(i) ==> first_index(sets@, name_is(n@)) == Some(i as int),
        r is None ==> first_index(sets@, name_is(n@)) is None,
{
    let ghost p = name_is(n@);
    let mut i: usize = 0;
    while i < sets.len()
        invariant
            i <= sets@.len(),
            p == name_is(n@),
            forall|j: int| 0 <= j < i ==> !p(#[trigger] sets@[j]),
        decreases sets.len() - i,
    {
        if eq_nocase(sets[i].name.as_str(), n.as_str()) {
            proof {
                lemma_first_found(sets@, p, i as int);
            }
            return Some(i);
        }
        i = i + 1;
    }
    proof {
        lemma_first_none(sets@, p);
    }
    None
}

/// Resolve a set hint to a position in the catalog's `sets`: exact code,
/// then PTCGO code, then set name (the explicit name field, then the hint
/// read as a name).
pub fn resolve_set(cat: &Catalog, hint: &String, name: &Option<String>) -> (r: Option<usize>)
    ensures
        r matches Some(i) ==> spec_resolve_set(cat.sets@, hint@, opt_view(*name)) == Some(i as int),
        r is None ==> spec_resolve_set(cat.sets@, hint@, opt_view(*name)) is None,
{
    if let Some(i) = find_set_by_code(&cat.sets, hint) {
        return Some(i);
    }
    if let Some(i) = find_set_by_ptcgo(&cat.sets, hint) {
        return Some(i);
    }
    if let Some(n) = name {
        if let Some(i) = find_set_by_name(&cat.sets, n) {
            return Some(i);
        }
    }
    find_set_by_name(&cat.sets, hint)
}

fn find_card(cards: &Vec<CardRow>, code: &String, number: &String) -> (r: Option<usize>)
    ensures
        r matches Some(i) ==> first_index(cards@, card_is(code@, number@)) == Some(i as int),
        r is None ==> first_index(cards@, card_is(code@, number@)) is None,
{
    let ghost p = card_is(code@, number@);
    let mut i: usize = 0;
    while i < cards.len()
        invariant
            i <= cards@.len(),
            p == card_is(code@, number@),
            forall|j: int| 0 <= j < i ==> !p(#[trigger] cards@[j]),
        decreases cards.len() - i,
    {
        if cards[i].set_code == *code && cards[i].number == *number {
            proof {
                lemma_first_found(cards@, p, i as int);
            }
            return Some(i);
        }
        i = i + 1;
    }
    proof {
        lemma_first_none(cards@, p);
    }
    None
}

fn find_printing(printings: &Vec<PrintingRow>, card_id: &String, variant: &String) -> (r: Option<usize>)
    ensures
        r matches Some(i) ==> first_index(printings@, printing_is(card_id@, variant@)) == Some(i as int),
        r is None ==> first_index(printings@, printing_is(card_id@, variant@)) is None,
{
    let ghost p = printing_is(card_id@, variant@);
    let mut i: usize = 0;
    while i < printings.len()
        invariant
            i <= printings@.len(),
            p == printing_is(card_id@, variant@),
            forall|j: int| 0 <= j < i ==> !p(#[trigger] printings@[j]),
        decreases printings.len() - i,
    {
        if printings[i].card_id == *card_id && printings[i].variant == *variant
            && !printings[i].deprecated {
            proof {
                lemma_first_found(printings@, p, i as int);
            }
            return Some(i);
        }
        i = i + 1;
    }
    proof {
        lemma_first_none(printings@, p);
    }
    None
}

/// Resolve one parsed row against the catalog.
pub fn resolve_row(cat: &Catalog, row: &ParsedRow) -> (r: Result<ResolvedRow, UnmatchedRow>)
    ensures
        r matches Ok(m) ==> matched_ok(*cat, *row, m),
        r matches Err(u) ==> unmatched_ok(*cat, *row, u),
        r is Ok <==> spec_outcome(*cat, *row) is Matched,
{
    proof {
        reveal_strlit("unknown set '");
        reveal_strlit("'");
        reveal_strlit("card #");
        reveal_strlit(" not found in ");
        reveal_strlit("variant '");
        reveal_strlit("' not available for ");
    }
    let s = match resolve_set(cat, &row.set_hint, &row.set_name) {
        None => {
            return Err(UnmatchedRow {
                source_line: row.source_line,
                set_hint: row.set_hint.clone(),
                number: row.number.clone(),
                variant: row.variant.clone(),
                reason: cat3("unknown set '", row.set_hint.as_str(), "'"),
            });
        },
        Some(s) => s,
    };
    let code = &cat.sets[s].set_code;
    let c = match find_card(&cat.cards, code, &row.number) {
        None => {
            let mut reason = cat3("card #", row.number.as_str(), " not found in ");
            reason.append(code.as_str());
            return Err(UnmatchedRow {
                source_line: row.source_line,
                set_hint: row.set_hint.clone(),
                number: row.number.clone(),
                variant: row.variant.clone(),
                reason,
            });
        },
        Some(c) => c,
    };
    let card = &cat.cards[c];
    let p = match find_printing(&cat.printings, &card.card_id, &row.variant) {
        None => {
            let mut reason = cat3("variant '", row.variant.as_str(), "' not available for ");
            reason.append(card.name.as_str());
            return Err(UnmatchedRow {
                source_line: row.source_line,
                set_hint: row.set_hint.clone(),
                number: row.number.clone(),
                variant: row.variant.clone(),
                reason,
            });
        },
        Some(p) => p,
    };
    Ok(ResolvedRow {
        source_line: row.source_line,
        printing_id: cat.printings[p].printing_id.clone(),
        card_name: card.name.clone(),
        set_code: code.clone(),
        number: row.number.clone(),
        variant: row.variant.clone(),
        condition: row.condition.clone(),
        language: row.language.clone(),
        purchase_price_bits: row.purchase_price_bits,
        acquired_at: clone_opt(&row.acquired_at),
        tags: clone_strings(&row.tags),
        already_owned: 0,
    })
}

/// Resolve parsed rows against the catalog, partitioning them into matched
/// printings and unmatched rows with reasons, each in file order.
pub fn resolve(cat: &Catalog, rows: &Vec<ParsedRow>) -> (report: ResolutionReport)
    ensures
        report_of(*cat, rows@, report),
{
    let mut matched: Vec<ResolvedRow> = Vec::new();
    let mut unmatched: Vec<UnmatchedRow> = Vec::new();
    let ghost pm = is_matched(*cat);
    let ghost pu = is_unmatched(*cat);
    let mut i: usize = 0;
    while i < rows.len()
        invariant
            i <= rows@.len(),
            pm == is_matched(*cat),
            pu == is_unmatched(*cat),
            matched@.len() == rows@.take(i as int).filter(pm).len(),
            forall|k: int|
                0 <= k < matched@.len() ==> matched_ok(
                    *cat,
                    rows@.take(i as int).filter(pm)[k],
                    #[trigger] matched@[k],
                ),
            unmatched@.len() == rows@.take(i as int).filter(pu).len(),
            forall|k: int|
                0 <= k < unmatched@.len() ==> unmatched_ok(
                    *cat,
                    rows@.take(i as int).filter(pu)[k],
                    #[trigger] unmatched@[k],
                ),
        decreases rows.len() - i,
    {
        let row = &rows[i];
        proof {
            lemma_take_push(rows@, i as int);
            lemma_filter_push(rows@.take(i as int), rows@[i as int], pm);
            lemma_filter_push(rows@.take(i as int), rows@[i as int], pu);
        }
        match resolve_row(cat, row) {
            Ok(m) => {
                matched.push(m);
            },
            Err(u) => {
                unmatched.push(u);
            },
        }
        i = i + 1;
    }
    assert(rows@.take(rows@.len() as int) =~= rows@);
    ResolutionReport { matched, unmatched }
}

// ── annotation and selection ─────────────────────────────────────────────

/// The owned-copy count the `GROUP BY printing_id` result gives `id`: the
/// count of the last row for that id (a map keeps the last insert), read as
/// a `u32`; `0` when the id has no row.
pub open spec fn owned_count(counts: Seq<(String, i64)>, id: Seq<char>) -> u32 {
    let hits = counts.filter(|e: (String, i64)| e.0@ == id);
    if hits.len() == 0 {
        0
    } else {
        hits.last().1 as u32
    }
}

/// All fields of two resolved rows agree except `already_owned`.
pub open spec fn same_except_owned(a: ResolvedRow, b: ResolvedRow) -> bool {
    &&& a.source_line == b.source_line
    &&& a.printing_id@ == b.printing_id@
    &&& a.card_name@ == b.card_name@
    &&& a.set_code@ == b.set_code@
    &&& a.number@ == b.number@
    &&& a.variant@ == b.variant@
    &&& a.condition@ == b.condition@
    &&& a.language@ == b.language@
    &&& a.purchase_price_bits == b.purchase_price_bits
    &&& a.acquired_at == b.acquired_at
    &&& a.tags@ == b.tags@
}

fn lookup_owned(counts: &Vec<(String, i64)>, id: &String) -> (n: u32)
    ensures
        n == owned_count(counts@, id@),
{
    let ghost p = |e: (String, i64)| e.0@ == id@;
    let mut n: u32 = 0;
    let mut i: usize = 0;
    while i < counts.len()
        invariant
            i <= counts@.len(),
            p == (|e: (String, i64)| e.0@ == id@),
            n == owned_count(counts@.take(i as int), id@),
        decreases counts.len() - i,
    {
        proof {
            lemma_take_push(counts@, i as int);
            lemma_filter_push(counts@.take(i as int), counts@[i as int], p);
        }
        if counts[i].0 == *id {
            n = #[verifier::truncate] (counts[i].1 as u32);
        }
        i = i + 1;
    }
    assert(counts@.take(counts@.len() as int) =~= counts@);
    n
}

/// Annotate each matched row with how many `owned` copies of its printing
/// already sit in the collection. `counts` is the `(printing_id, count)`
/// result of grouping the collection's owned rows by printing.
pub fn annotate_owned(report: &mut ResolutionReport, counts: &Vec<(String, i64)>)
    ensures
        final(report).unmatched@ == old(report).unmatched@,
        final(report).matched@.len() == old(report).matched@.len(),
        forall|i: int|
            0 <= i < old(report).matched@.len() ==> {
                let a = #[trigger] final(report).matched@[i];
                let b = old(report).matched@[i];
                same_except_owned(a, b) && a.already_owned == owned_count(counts@, b.printing_id@)
            },
{
    let mut rest: Vec<ResolvedRow> = Vec::new();
    std::mem::swap(&mut rest, &mut report.matched);
    let ghost orig = rest@;
    let n = rest.len();
    let mut out: Vec<ResolvedRow> = Vec::new();
    let mut i: usize = 0;
    while i < n
        invariant
            n == orig.len(),
            i <= n,
            rest@ == orig.subrange(i as int, n as int),
            out@.len() == i,
            forall|k: int|
                0 <= k < i ==> {
                    let a = #[trigger] out@[k];
                    same_except_owned(a, orig[k]) && a.already_owned == owned_count(
                        counts@,
                        orig[k].printing_id@,
                    )
                },
        decreases n - i,
    {
        let mut row = rest.remove(0);
        assert(row == orig[i as int]);
        row.already_owned = lookup_owned(counts, &row.printing_id);
        out.push(row);
        i = i + 1;
        assert(rest@ =~= orig.subrange(i as int, n as int));
    }
    report.matched = out;
}

/// A copy of a resolved row.
pub fn copy_row(r: &ResolvedRow) -> (c: ResolvedRow)
    ensures
        same_except_owned(c, *r),
        c.already_owned == r.already_owned,
{
    ResolvedRow {
        source_line: r.source_line,
        printing_id: r.printing_id.clone(),
        card_name: r.card_name.clone(),
        set_code: r.set_code.clone(),
        number: r.number.clone(),
        variant: r.variant.clone(),
        condition: r.condition.clone(),
        language: r.language.clone(),
        purchase_price_bits: r.purchase_price_bits,
        acquired_at: clone_opt(&r.acquired_at),
        tags: clone_strings(&r.tags),
        already_owned: r.already_owned,
    }
}

pub fn contains_line(selected: &Vec<u32>, line: u32) -> (r: bool)
    ensures
        r == selected@.contains(line),
{
    let mut i: usize = 0;
    while i < selected.len()
        invariant
            i <= selected@.len(),
            forall|j: int| 0 <= j < i ==> selected@[j] != line,
        decreases selected.len() - i,
    {
        if selected[i] == line {
            return true;
        }
        i = i + 1;
    }
    false
}

pub open spec fn line_in(selected: Seq<u32>) -> spec_fn(ResolvedRow) -> bool {
    |r: ResolvedRow| selected.contains(r.source_line)
}

/// Keep only the matched rows whose `source_line` is in `selected`, in order;
/// drop every unmatched row.
pub fn filter_report(report: &ResolutionReport, selected: &Vec<u32>) -> (r: ResolutionReport)
    ensures
        r.unmatched@.len() == 0,
        ({
            let kept = report.matched@.filter(line_in(selected@));
            &&& r.matched@.len() == kept.len()
            &&& forall|i: int|
                0 <= i < kept.len() ==> {
                    let a = #[trigger] r.matched@[i];
                    same_except_owned(a, kept[i]) && a.already_owned == kept[i].already_owned
                }
        }),
{
    let ghost p = line_in(selected@);
    let mut out: Vec<ResolvedRow> = Vec::new();
    let mut i: usize = 0;
    while i < report.matched.len()
        invariant
            i <= report.matched@.len(),
            p == line_in(selected@),
            out@.len() == report.matched@.take(i as int).filter(p).len(),
            forall|k: int|
                0 <= k < out@.len() ==> {
                    let a = #[trigger] out@[k];
                    let b = report.matched@.take(i as int).filter(p)[k];
                    same_except_owned(a, b) && a.already_owned == b.already_owned
                },
        decreases report.matched.len() - i,
    {
        proof {
            lemma_take_push(report.matched@, i as int);
            lemma_filter_push(report.matched@.take(i as int), report.matched@[i as int], p);
        }
        if contains_line(selected, report.matched[i].source_line) {
            out.push(copy_row(&report.matched[i]));
        }
        i = i + 1;
    }
    assert(report.matched@.take(report.matched@.len() as int) =~= report.matched@);
    ResolutionReport { matched: out, unmatched: Vec::new() }
}

// ── tags ─────────────────────────────────────────────────────────────────

/// `"t"` — one tag quoted.
pub open spec fn quoted(t: Seq<char>) -> Seq<char> {
    seq!['"'] + t + seq!['"']
}

/// The quoted tags joined by commas.
pub open spec fn quoted_list(tags: Seq<String>) -> Seq<char>
    decreases tags.len(),
{
    if tags.len() == 0 {
        Seq::empty()
    } else if tags.len() == 1 {
        quoted(tags[0]@)
    } else {
        quoted_list(tags.drop_last()) + seq![','] + quoted(tags.last()@)
    }
}

/// A JSON array literal for tag strings: `["a","b"]`. Tags are simple
/// identifiers, so no escaping is applied.
pub open spec fn spec_tags_json(tags: Seq<String>) -> Seq<char> {
    seq!['['] + quoted_list(tags) + seq![']']
}

/// A JSON array literal for tag strings. Tags are simple identifiers
/// (`misprint`, `altered`), so no escaping is needed.
pub fn tags_json(tags: &Vec<String>) -> (r: String)
    ensures
        r@ == spec_tags_json(tags@),
{
    let mut body = String::new();
    let mut i: usize = 0;
    while i < tags.len()
        invariant
            i <= tags@.len(),
            body@ == quoted_list(tags@.take(i as int)),
        decreases tags.len() - i,
    {
        let ghost before = body@;
        if i > 0 {
            push_char(&mut body, ',');
        }
        push_char(&mut body, '"');
        body.append(tags[i].as_str());
        push_char(&mut body, '"');
        proof {
            assert(tags@.take(i + 1).drop_last() =~= tags@.take(i as int));
            if i == 0 {
                assert(body@ =~= quoted(tags@[0]@));
            } else {
                assert(body@ =~= before + seq![','] + quoted(tags@[i as int]@));
            }
        }
        i = i + 1;
    }
    assert(tags@.take(tags@.len() as int) =~= tags@);
    let mut r = String::new();
    push_char(&mut r, '[');
    r.append(body.as_str());
    push_char(&mut r, ']');
    assert(r@ =~= spec_tags_json(tags@));
    r
}

// ── commit plan ──────────────────────────────────────────────────────────

/// One copy a commit adds, as the collection insert needs it.
#[derive(Debug)]
pub struct PlannedCopy {
    pub printing_id: String,
    pub condition: String,
    pub language: String,
    pub purchase_price_bits: Option<u64>,
    pub acquired_at: Option<String>,
    pub source: String,
    /// The tags as the JSON written to `collection.tags`, when there are any.
    pub tags_json: Option<String>,
}

/// What a commit writes: one batch, and under it one copy per matched row.
#[derive(Debug)]
pub struct CommitPlan {
    pub batch_type: String,
    pub batch_name: Option<String>,
    pub copies: Vec<PlannedCopy>,
    /// Unmatched rows, reported as skipped.
    pub skipped: u32,
}

/// `c` is what committing resolved row `m` under `source` adds.
pub open spec fn planned_ok(m: ResolvedRow, source: Seq<char>, c: PlannedCopy) -> bool {
    &&& c.printing_id@ == m.printing_id@
    &&& c.condition@ == m.condition@
    &&& c.language@ == m.language@
    &&& c.purchase_price_bits == m.purchase_price_bits
    &&& c.acquired_at == m.acquired_at
    &&& c.source@ == source
    &&& (if m.tags@.len() == 0 {
        c.tags_json is None
    } else {
        c.tags_json matches Some(j) && j@ == spec_tags_json(m.tags@)
    })
}

/// Plan the commit of a resolution: a batch of `batch_type` named
/// `batch_name`, one copy per matched row in order (tags written only when
/// the row has any), and the unmatched rows counted as skipped.
pub fn plan_commit(
    report: &ResolutionReport,
    source: &str,
    batch_type: &str,
    batch_name: &Option<String>,
) -> (plan: CommitPlan)
    requires
        report.unmatched@.len() <= u32::MAX,
    ensures
        plan.batch_type@ == batch_type@,
        plan.batch_name == *batch_name,
        plan.skipped == report.unmatched@.len(),
        plan.copies@.len() == report.matched@.len(),
        forall|i: int|
            0 <= i < report.matched@.len() ==> planned_ok(
                report.matched@[i],
                source@,
                #[trigger] plan.copies@[i],
            ),
{
    let mut copies: Vec<PlannedCopy> = Vec::new();
    let mut i: usize = 0;
    while i < report.matched.len()
        invariant
            i <= report.matched@.len(),
            copies@.len() == i,
            forall|k: int|
                0 <= k < i ==> planned_ok(report.matched@[k], source@, #[trigger] copies@[k]),
        decreases report.matched.len() - i,
    {
        let m = &report.matched[i];
        let tj = if m.tags.len() == 0 {
            None
        } else {
            Some(tags_json(&m.tags))
        };
        copies.push(PlannedCopy {
            printing_id: m.printing_id.clone(),
            condition: m.condition.clone(),
            language: m.language.clone(),
            purchase_price_bits: m.purchase_price_bits,
            acquired_at: clone_opt(&m.acquired_at),
            source: owned(source),
            tags_json: tj,
        });
        i = i + 1;
    }
    CommitPlan {
        batch_type: owned(batch_type),
        batch_name: clone_opt(batch_name),
        copies,
        skipped: report.unmatched.len() as u32,
    }
}

/// The outcome of committing a combined import: the singles and sealed
/// halves kept apart, plus how many rows were dropped as out of scope.
#[derive(Debug)]
pub struct CombinedCommitResult {
    pub singles: CommitResult,
    pub sealed: SealedCommitResult,
    pub skipped: u32,
}

/// Combine the two halves' results; the out-of-scope rows are counted as a
/// `u32`.
pub fn combined_commit_result(singles: CommitResult, sealed: SealedCommitResult, skipped_rows: usize) -> (r: CombinedCommitResult)
    ensures
        r.singles == singles,
        r.sealed == sealed,
        r.skipped == skipped_rows as u32,
{
    CombinedCommitResult { singles, sealed, skipped: #[verifier::truncate] (skipped_rows as u32) }
}


/// Each format's source (and batch type) is `csv_` followed by the wire
/// name that parses back to that format, so copies record which file they
/// came from.
pub proof fn lemma_source_names_the_format(f: ImportFormat)
    ensures
        "csv_"@.is_prefix_of(f.spec_source()),
        format_named(f.spec_source().skip(4)) == Some(f),
{
    reveal_strlit("csv_");
    reveal_strlit("csv_manabox");
    reveal_strlit("csv_tcgplayer");
    reveal_strlit("csv_pokedumpster");
    reveal_strlit("csv_collectr");
    reveal_strlit("manabox");
    reveal_strlit("tcgplayer");
    reveal_strlit("pokedumpster");
    reveal_strlit("pkmngg");
    reveal_strlit("collectr");
    let name = f.spec_source().skip(4);
    match f {
        ImportFormat::Manabox => {
            assert(name =~= "manabox"@);
        },
        ImportFormat::Tcgplayer => {
            assert(name =~= "tcgplayer"@);
            assert("tcgplayer"@.len() != "manabox"@.len());
        },
        ImportFormat::Pokedumpster => {
            assert(name =~= "pokedumpster"@);
            assert("pokedumpster"@.len() != "manabox"@.len() && "pokedumpster"@.len() != "tcgplayer"@.len());
        },
        ImportFormat::Collectr => {
            assert(name =~= "collectr"@);
            assert("collectr"@.len() == 8 && "manabox"@.len() == 7 && "tcgplayer"@.len() == 9);
            assert("pokedumpster"@.len() == 12 && "pkmngg"@.len() == 6);
        },
    }
}

} // verus!
