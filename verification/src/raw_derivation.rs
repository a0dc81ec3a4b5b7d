//! Which raw runs produced this catalog: a row per `(ingest_date, source,
//! dataset)` naming the run that was replayed, how many parts it held, and
//! when the derive ran. Recording a date *replaces* that date, so deriving
//! it twice leaves what deriving it once left.

use vstd::prelude::*;
use crate::seqs::{lemma_filter_push, lemma_take_push};
use crate::order::{sort_by_key, sorted_by};
use crate::text::{chars_of, str_eq};

verus! {

/// One raw partition a derive consumed.
#[derive(Debug, Clone, PartialEq, Eq)]
pub struct RawDerivation {
    pub ingest_date: String,
    pub source: String,
    pub dataset: String,
    pub run_id: String,
    pub parts: i64,
    pub complete: bool,
    pub observed_at: String,
}

/// A stored provenance row: the partition and when the derive ran.
#[derive(Debug, Clone, PartialEq, Eq)]
pub struct ProvenanceRow {
    pub row: RawDerivation,
    pub derived_at: String,
}

/// A stored row from a date other than `date`.
pub open spec fn other_date(date: Seq<char>) -> spec_fn(ProvenanceRow) -> bool {
    |p: ProvenanceRow| p.row.ingest_date@ != date
}

/// The table after recording `rows` for `date` at `derived_at`: every other
/// date's rows as they were, then `rows`, each stamped.
pub open spec fn spec_record(table: Seq<ProvenanceRow>, date: Seq<char>, derived_at: String, rows: Seq<RawDerivation>) -> Seq<ProvenanceRow> {
    table.filter(other_date(date)) + rows.map_values(|r: RawDerivation| ProvenanceRow { row: r, derived_at })
}

fn copy_str(s: &String) -> (r: String)
    ensures
        r == *s,
{
    s.clone()
}

fn copy_raw(r: &RawDerivation) -> (c: RawDerivation)
    ensures
        c == *r,
{
    RawDerivation {
        ingest_date: r.ingest_date.clone(),
        source: r.source.clone(),
        dataset: r.dataset.clone(),
        run_id: r.run_id.clone(),
        parts: r.parts,
        complete: r.complete,
        observed_at: r.observed_at.clone(),
    }
}

/// Replace the provenance for one `ingest_date` with `rows`, stamped
/// `derived_at`. Returns how many rows were recorded.
pub fn record(table: &mut Vec<ProvenanceRow>, ingest_date: &str, derived_at: &String, rows: &Vec<RawDerivation>) -> (n: usize)
    ensures
        final(table)@ == spec_record(old(table)@, ingest_date@, *derived_at, rows@),
        n == rows@.len(),
{
    let ghost t0 = table@;
    let mut kept: Vec<ProvenanceRow> = Vec::new();
    let mut i: usize = 0;
    while i < table.len()
        invariant
            *table == *old(table),
            i <= table@.len(),
            kept@ == table@.take(i as int).filter(other_date(ingest_date@)),
        decreases table.len() - i,
    {
        proof {
            lemma_take_push(table@, i as int);
            lemma_filter_push(table@.take(i as int), table@[i as int], other_date(ingest_date@));
        }
        if !str_eq(table[i].row.ingest_date.as_str(), ingest_date) {
            kept.push(ProvenanceRow { row: copy_raw(&table[i].row), derived_at: copy_str(&table[i].derived_at) });
        }
        i = i + 1;
    }
    assert(t0.take(t0.len() as int) =~= t0);
    let ghost base = kept@;
    let mut j: usize = 0;
    while j < rows.len()
        invariant
            j <= rows@.len(),
            kept@ == base + rows@.take(j as int).map_values(|r: RawDerivation| ProvenanceRow { row: r, derived_at: *derived_at }),
        decreases rows.len() - j,
    {
        kept.push(ProvenanceRow { row: copy_raw(&rows[j]), derived_at: copy_str(derived_at) });
        j = j + 1;
        assert(kept@ =~= base + rows@.take(j as int).map_values(|r: RawDerivation| ProvenanceRow { row: r, derived_at: *derived_at }));
    }
    assert(rows@.take(rows@.len() as int) =~= rows@);
    *table = kept;
    rows.len()
}

/// Re-deriving a date replaces it: recording the same rows for a date twice
/// leaves the table recording them once left — when every row belongs to
/// that date.
pub proof fn lemma_record_twice_is_once(table: Seq<ProvenanceRow>, date: Seq<char>, derived_at: String, rows: Seq<RawDerivation>)
    requires
        forall|i: int| 0 <= i < rows.len() ==> (#[trigger] rows[i]).ingest_date@ == date,
    ensures
        spec_record(spec_record(table, date, derived_at, rows), date, derived_at, rows) == spec_record(table, date, derived_at, rows),
{
    let once = spec_record(table, date, derived_at, rows);
    let kept = table.filter(other_date(date));
    let stamped = rows.map_values(|r: RawDerivation| ProvenanceRow { row: r, derived_at });
    assert(once == kept + stamped);
    lemma_filter_concat(kept, stamped, other_date(date));
    assert forall|i: int| 0 <= i < stamped.len() implies !other_date(date)(#[trigger] stamped[i]) by {
        assert(stamped[i].row == rows[i]);
    }
    lemma_filter_none(stamped, other_date(date));
    lemma_filter_all(table, other_date(date));
    assert(kept.filter(other_date(date)) == kept);
    assert(kept + Seq::<ProvenanceRow>::empty() =~= kept);
    assert(once.filter(other_date(date)) =~= kept);
}

proof fn lemma_filter_concat<T>(a: Seq<T>, b: Seq<T>, p: spec_fn(T) -> bool)
    ensures
        (a + b).filter(p) == a.filter(p) + b.filter(p),
    decreases b.len(),
{
    if b.len() == 0 {
        assert(a + b =~= a);
        assert(b.filter(p) =~= Seq::<T>::empty()) by {
            reveal(Seq::filter);
        }
        assert(a.filter(p) + b.filter(p) =~= a.filter(p));
    } else {
        let bl = b.drop_last();
        lemma_filter_concat(a, bl, p);
        assert((a + b) =~= (a + bl).push(b.last()));
        lemma_filter_push(a + bl, b.last(), p);
        assert(b =~= bl.push(b.last()));
        lemma_filter_push(bl, b.last(), p);
        if p(b.last()) {
            assert((a.filter(p) + bl.filter(p)).push(b.last()) =~= a.filter(p) + bl.filter(p).push(b.last()));
        }
    }
}

proof fn lemma_filter_none<T>(s: Seq<T>, p: spec_fn(T) -> bool)
    requires
        forall|i: int| 0 <= i < s.len() ==> !p(#[trigger] s[i]),
    ensures
        s.filter(p) == Seq::<T>::empty(),
    decreases s.len(),
{
    if s.len() == 0 {
        reveal(Seq::filter);
        assert(s.filter(p) =~= Seq::<T>::empty());
    } else {
        let sl = s.drop_last();
        assert forall|i: int| 0 <= i < sl.len() implies !p(#[trigger] sl[i]) by {
            assert(sl[i] == s[i]);
        }
        lemma_filter_none(sl, p);
        assert(s =~= sl.push(s.last()));
        lemma_filter_push(sl, s.last(), p);
    }
}

proof fn lemma_filter_all<T>(s: Seq<T>, p: spec_fn(T) -> bool)
    ensures
        s.filter(p).filter(p) == s.filter(p),
    decreases s.len(),
{
    if s.len() == 0 {
        reveal(Seq::filter);
        assert(s.filter(p) =~= Seq::<T>::empty());
        assert(s.filter(p).filter(p) =~= Seq::<T>::empty());
    } else {
        let sl = s.drop_last();
        lemma_filter_all(sl, p);
        assert(s =~= sl.push(s.last()));
        lemma_filter_push(sl, s.last(), p);
        if p(s.last()) {
            lemma_filter_push(sl.filter(p), s.last(), p);
        }
    }
}

/// The partition a stored row records.
pub open spec fn row_of() -> spec_fn(ProvenanceRow) -> RawDerivation {
    |p: ProvenanceRow| p.row
}

/// A stored row of the date `date`.
pub open spec fn of_date(date: Seq<char>) -> spec_fn(ProvenanceRow) -> bool {
    |p: ProvenanceRow| p.row.ingest_date@ == date
}

pub open spec fn dataset_key() -> spec_fn(RawDerivation) -> Seq<char> {
    |r: RawDerivation| r.dataset@
}

pub open spec fn source_key() -> spec_fn(RawDerivation) -> Seq<char> {
    |r: RawDerivation| r.source@
}

/// Every partition recorded for one `ingest_date`, ordered by source and,
/// within a source, by dataset: a stable sort by dataset followed by a
/// stable sort by source.
pub fn for_date(table: &Vec<ProvenanceRow>, ingest_date: &str) -> (r: Vec<RawDerivation>)
    ensures
        exists|mid: Seq<RawDerivation>|
            #[trigger] sorted_by(
                table@.filter(of_date(ingest_date@)).map_values(row_of()),
                dataset_key(),
                mid,
            ) && sorted_by(mid, source_key(), r@),
{
    let ghost sel = table@.filter(of_date(ingest_date@));
    let mut rows: Vec<RawDerivation> = Vec::new();
    let mut i: usize = 0;
    while i < table.len()
        invariant
            i <= table@.len(),
            rows@ == table@.take(i as int).filter(of_date(ingest_date@)).map_values(row_of()),
        decreases table.len() - i,
    {
        proof {
            lemma_take_push(table@, i as int);
            lemma_filter_push(table@.take(i as int), table@[i as int], of_date(ingest_date@));
        }
        let ghost before = rows@;
        if str_eq(table[i].row.ingest_date.as_str(), ingest_date) {
            rows.push(copy_raw(&table[i].row));
            assert(rows@ =~= table@.take(i + 1).filter(of_date(ingest_date@)).map_values(row_of()));
        } else {
            assert(rows@ =~= table@.take(i + 1).filter(of_date(ingest_date@)).map_values(row_of()));
        }
        i = i + 1;
    }
    assert(table@.take(table@.len() as int) =~= table@);
    let mut keys: Vec<Vec<char>> = Vec::new();
    let mut k: usize = 0;
    while k < rows.len()
        invariant
            k <= rows@.len(),
            keys@.len() == k,
            forall|t: int| 0 <= t < k ==> (#[trigger] keys@[t])@ == rows@[t].dataset@,
        decreases rows.len() - k,
    {
        keys.push(chars_of(rows[k].dataset.as_str()));
        k = k + 1;
    }
    let mid = sort_by_key(rows, &keys, Ghost(dataset_key()));
    let mut keys2: Vec<Vec<char>> = Vec::new();
    let mut m: usize = 0;
    while m < mid.len()
        invariant
            m <= mid@.len(),
            keys2@.len() == m,
            forall|t: int| 0 <= t < m ==> (#[trigger] keys2@[t])@ == mid@[t].source@,
        decreases mid.len() - m,
    {
        keys2.push(chars_of(mid[m].source.as_str()));
        m = m + 1;
    }
    let ghost mv = mid@;
    sort_by_key(mid, &keys2, Ghost(source_key()))
}

} // verus!
