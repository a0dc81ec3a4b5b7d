//! Sealed-product import: the mirror of the singles importer for booster
//! boxes, trainer boxes, bundles and tins.
//!
//! Parsed sealed rows are resolved against the sealed-product catalog by
//! *name*: first within the row's stated set (when it resolves), and —
//! only when that finds nothing — across the whole catalog, products with no
//! set included. Names are compared after [`normalize_name`]: case folded,
//! curly apostrophes straightened, the accent of `é` dropped, hyphens and
//! dashes read as spaces, and whitespace runs collapsed. An exact normalized
//! match wins; otherwise a unique substring match in either direction.
//! Sealed items keep their quantity: one row per line, never expanded.

use vstd::prelude::*;
use crate::import::{Catalog, spec_resolve_set, opt_view, resolve_set, nocase};
use crate::text::{chars_of, contains, contains_exec, eq_nocase, string_from, cat, cat3, seq_eq};
use crate::seqs::{lemma_filter_push, lemma_take_push};
use crate::sealed::NewSealed;
use crate::text::clone_opt;

verus! {

// ── name normalization ───────────────────────────────────────────────────

/// What `char::to_lowercase` yields for `c`: its Unicode lowercase mapping.
pub uninterp spec fn char_lower(c: char) -> Seq<char>;

/// What `char::is_whitespace` says of `c`: the Unicode `White_Space` property.
pub uninterp spec fn char_is_ws(c: char) -> bool;

/// Calls `char::to_lowercase` and collects the characters it yields; they
/// are named `char_lower` of the argument.
#[verifier::external_body]
fn lower_chars(c: char) -> (r: Vec<char>)
    ensures
        r@ == char_lower(c),
{
    c.to_lowercase().collect()
}

/// Calls `char::is_whitespace`; its answer is named `char_is_ws`.
#[verifier::external_body]
fn is_whitespace(c: char) -> (r: bool)
    ensures
        r == char_is_ws(c),
{
    c.is_whitespace()
}

/// The platform-spelling folds applied before comparing: curly and modifier
/// apostrophes and the backtick to `'`, `é É è È ë Ë` to `e` (both cases,
/// so that the fold agrees with the case fold after it), hyphens and dashes
/// to a space.
pub open spec fn fold_char(c: char) -> char {
    if c == '\u{2019}' || c == '\u{2018}' || c == '`' || c == '\u{02bc}' {
        '\''
    } else if c == '\u{e9}' || c == '\u{c9}' || c == '\u{e8}' || c == '\u{c8}' || c == '\u{eb}' || c
        == '\u{cb}' {
        'e'
    } else if c == '-' || c == '\u{2010}' || c == '\u{2011}' || c == '\u{2013}' || c == '\u{2014}' {
        ' '
    } else {
        c
    }
}

fn fold_char_exec(c: char) -> (r: char)
    ensures
        r == fold_char(c),
{
    if c == '\u{2019}' || c == '\u{2018}' || c == '`' || c == '\u{02bc}' {
        '\''
    } else if c == '\u{e9}' || c == '\u{c9}' || c == '\u{e8}' || c == '\u{c8}' || c == '\u{eb}' || c
        == '\u{cb}' {
        'e'
    } else if c == '-' || c == '\u{2010}' || c == '\u{2011}' || c == '\u{2013}' || c == '\u{2014}'
    {
        ' '
    } else {
        c
    }
}

/// Reading `s` left to right: the text so far, and whether the last
/// character read was whitespace. A whitespace run becomes one space (none
/// at the start); anything else is appended lowercased.
pub open spec fn norm_scan(s: Seq<char>) -> (Seq<char>, bool)
    decreases s.len(),
{
    if s.len() == 0 {
        (Seq::empty(), false)
    } else {
        let (out, prev_ws) = norm_scan(s.drop_last());
        let c = fold_char(s.last());
        if char_is_ws(c) {
            (if !prev_ws && out.len() > 0 {
                out.push(' ')
            } else {
                out
            }, true)
        } else {
            (out + char_lower(c), false)
        }
    }
}

/// `s` without its trailing spaces.
pub open spec fn strip_trailing_spaces(s: Seq<char>) -> Seq<char>
    decreases s.len(),
{
    if s.len() > 0 && s.last() == ' ' {
        strip_trailing_spaces(s.drop_last())
    } else {
        s
    }
}

/// The normalized form of a product name.
pub open spec fn spec_normalize(s: Seq<char>) -> Seq<char> {
    strip_trailing_spaces(norm_scan(s).0)
}

fn extend_chars(out: &mut Vec<char>, more: &Vec<char>)
    ensures
        final(out)@ == old(out)@ + more@,
{
    let mut i: usize = 0;
    while i < more.len()
        invariant
            i <= more@.len(),
            out@ == old(out)@ + more@.take(i as int),
        decreases more.len() - i,
    {
        out.push(more[i]);
        i = i + 1;
        assert(out@ =~= old(out)@ + more@.take(i as int));
    }
    assert(more@.take(more@.len() as int) =~= more@);
}

/// The normalized characters of a product name.
fn normalize_chars(name: &str) -> (r: Vec<char>)
    ensures
        r@ == spec_normalize(name@),
{
    let chars = chars_of(name);
    let mut out: Vec<char> = Vec::new();
    let mut prev_ws = false;
    let mut i: usize = 0;
    while i < chars.len()
        invariant
            chars@ == name@,
            i <= chars@.len(),
            (out@, prev_ws) == norm_scan(name@.take(i as int)),
        decreases chars.len() - i,
    {
        assert(name@.take(i + 1).drop_last() =~= name@.take(i as int));
        assert(name@.take(i + 1).last() == name@[i as int]);
        let c = fold_char_exec(chars[i]);
        if is_whitespace(c) {
            if !prev_ws && out.len() > 0 {
                out.push(' ');
            }
            prev_ws = true;
        } else {
            let l = lower_chars(c);
            extend_chars(&mut out, &l);
            prev_ws = false;
        }
        i = i + 1;
    }
    assert(name@.take(chars@.len() as int) =~= name@);
    let ghost scanned = out@;
    while out.len() > 0 && out[out.len() - 1] == ' '
        invariant
            strip_trailing_spaces(out@) == strip_trailing_spaces(scanned),
        decreases out.len(),
    {
        assert(out@.drop_last() =~= out@.subrange(0, out@.len() - 1));
        out.pop();
    }
    out
}

/// Normalize a product name for tolerant matching across platforms: fold
/// case, straighten curly apostrophes, drop the accent on `é`, read hyphens
/// and dashes as spaces, and collapse runs of whitespace.
pub fn normalize_name(name: &str) -> (r: String)
    ensures
        r@ == spec_normalize(name@),
{
    let v = normalize_chars(name);
    string_from(&v, 0, v.len())
}

// ── matching a name against candidates ───────────────────────────────────

/// One catalog product, as loaded for name-matching.
#[derive(Debug, Clone, PartialEq, Eq)]
pub struct SealedCandidate {
    pub product_id: i64,
    pub name: String,
    pub category: String,
    pub set_code: Option<String>,
}

/// The positions below `n` that satisfy `p`, ascending.
pub open spec fn hits(p: spec_fn(int) -> bool, n: nat) -> Seq<int>
    decreases n,
{
    if n == 0 {
        Seq::empty()
    } else {
        let h = hits(p, (n - 1) as nat);
        if p(n - 1) {
            h.push(n - 1)
        } else {
            h
        }
    }
}

/// Candidate `i`'s normalized name equals `want`.
pub open spec fn exact_p(cs: Seq<SealedCandidate>, want: Seq<char>) -> spec_fn(int) -> bool {
    |i: int| spec_normalize(cs[i].name@) == want
}

/// Candidate `i`'s normalized name contains `want`, or is contained in it.
pub open spec fn loose_p(cs: Seq<SealedCandidate>, want: Seq<char>) -> spec_fn(int) -> bool {
    |i: int| contains(spec_normalize(cs[i].name@), want) || contains(want, spec_normalize(cs[i].name@))
}

/// The candidates a name matches: the exact normalized matches if there are
/// any, else the substring matches.
pub open spec fn spec_hits(cs: Seq<SealedCandidate>, name: Seq<char>) -> Seq<int> {
    let want = spec_normalize(name);
    let ex = hits(exact_p(cs, want), cs.len());
    if ex.len() > 0 {
        ex
    } else {
        hits(loose_p(cs, want), cs.len())
    }
}

/// The result of matching one name against candidates.
#[derive(Debug)]
pub enum NameMatch {
    /// Exactly one product: its position.
    One(usize),
    /// More than one plausible product — the user must disambiguate.
    Ambiguous(Vec<usize>),
    /// Nothing plausible.
    NoMatch,
}

/// `m` reports the matches `h`.
pub open spec fn match_ok(h: Seq<int>, m: NameMatch) -> bool {
    match m {
        NameMatch::One(k) => h.len() == 1 && h[0] == k,
        NameMatch::Ambiguous(v) => h.len() > 1 && v@.len() == h.len() && forall|j: int|
            0 <= j < h.len() ==> #[trigger] v@[j] == h[j],
        NameMatch::NoMatch => h.len() == 0,
    }
}

proof fn lemma_hits_bounded(p: spec_fn(int) -> bool, n: nat)
    ensures
        hits(p, n).len() <= n,
        forall|j: int| 0 <= j < hits(p, n).len() ==> 0 <= #[trigger] hits(p, n)[j] < n,
    decreases n,
{
    if n > 0 {
        lemma_hits_bounded(p, (n - 1) as nat);
    }
}

/// The positions of `cs` whose normalized name `p` accepts, given the
/// normalized names.
fn collect_hits(norms: &Vec<Vec<char>>, want: &Vec<char>, exact: bool, Ghost(p): Ghost<spec_fn(int) -> bool>) -> (r: Vec<usize>)
    requires
        forall|i: int| 0 <= i < norms@.len() ==> #[trigger] p(i) == (if exact {
            norms@[i]@ == want@
        } else {
            contains(norms@[i]@, want@) || contains(want@, norms@[i]@)
        }),
    ensures
        r@.len() == hits(p, norms@.len()).len(),
        forall|j: int| 0 <= j < r@.len() ==> #[trigger] r@[j] == hits(p, norms@.len())[j],
{
    let mut out: Vec<usize> = Vec::new();
    let mut i: usize = 0;
    while i < norms.len()
        invariant
            i <= norms@.len(),
            forall|t: int| 0 <= t < norms@.len() ==> #[trigger] p(t) == (if exact {
                norms@[t]@ == want@
            } else {
                contains(norms@[t]@, want@) || contains(want@, norms@[t]@)
            }),
            out@.len() == hits(p, i as nat).len(),
            forall|j: int| 0 <= j < out@.len() ==> #[trigger] out@[j] == hits(p, i as nat)[j],
        decreases norms.len() - i,
    {
        let hit = if exact {
            seq_eq(&norms[i], want)
        } else {
            contains_exec(&norms[i], want) || contains_exec(want, &norms[i])
        };
        assert(hit == p(i as int));
        if hit {
            out.push(i);
        }
        i = i + 1;
    }
    out
}

/// Match a product name against candidates: exact normalized name first,
/// then a unique substring match in either direction.
pub fn match_name(name: &str, cs: &Vec<SealedCandidate>) -> (m: NameMatch)
    ensures
        match_ok(spec_hits(cs@, name@), m),
{
    let want = normalize_chars(name);
    let mut norms: Vec<Vec<char>> = Vec::new();
    let mut i: usize = 0;
    while i < cs.len()
        invariant
            i <= cs@.len(),
            norms@.len() == i,
            forall|t: int| 0 <= t < i ==> (#[trigger] norms@[t])@ == spec_normalize(cs@[t].name@),
        decreases cs.len() - i,
    {
        norms.push(normalize_chars(cs[i].name.as_str()));
        i = i + 1;
    }
    let ghost wv = spec_normalize(name@);
    let ex = collect_hits(&norms, &want, true, Ghost(exact_p(cs@, wv)));
    let found = if ex.len() > 0 {
        ex
    } else {
        collect_hits(&norms, &want, false, Ghost(loose_p(cs@, wv)))
    };
    if found.len() == 1 {
        NameMatch::One(found[0])
    } else if found.len() == 0 {
        NameMatch::NoMatch
    } else {
        NameMatch::Ambiguous(found)
    }
}

// ── resolving rows ───────────────────────────────────────────────────────

/// A parsed sealed row, as the import file gave it. The purchase price is
/// carried as the bit pattern of its `f64`.
#[derive(Debug, Clone, PartialEq, Eq)]
pub struct ParsedSealedRow {
    pub source_line: u32,
    pub name: String,
    pub set_hint: String,
    pub set_name: Option<String>,
    pub category_hint: Option<String>,
    pub quantity: u32,
    pub condition: String,
    pub purchase_price_bits: Option<u64>,
    pub purchase_date: Option<String>,
    pub notes: Option<String>,
}

/// A sealed row that resolved cleanly to a catalog product — ready to commit.
#[derive(Debug, Clone, PartialEq, Eq)]
pub struct ResolvedSealedRow {
    pub source_line: u32,
    pub product_id: i64,
    pub name: String,
    pub category: String,
    pub set_code: Option<String>,
    pub quantity: u32,
    pub condition: String,
    pub purchase_price_bits: Option<u64>,
    pub purchase_date: Option<String>,
    pub notes: Option<String>,
    /// Copies of this product already owned; filled by
    /// [`annotate_owned_sealed`].
    pub already_owned: u32,
}

/// A sealed row that could not be resolved, with a human-readable reason.
#[derive(Debug, Clone, PartialEq, Eq)]
pub struct UnmatchedSealedRow {
    pub source_line: u32,
    pub name: String,
    pub set_hint: String,
    pub reason: String,
}

/// The outcome of resolving the sealed rows of an import file.
#[derive(Debug, Clone, PartialEq, Eq)]
pub struct SealedResolutionReport {
    pub matched: Vec<ResolvedSealedRow>,
    pub unmatched: Vec<UnmatchedSealedRow>,
}

/// The outcome of committing the sealed half of an import.
#[derive(Debug, Clone, Copy, PartialEq, Eq, Structural)]
pub struct SealedCommitResult {
    pub added: u32,
    pub skipped: u32,
}

/// A product listed under the set `sc` (compared without ASCII case).
pub open spec fn in_set_p(sc: Seq<char>) -> spec_fn(SealedCandidate) -> bool {
    |p: SealedCandidate| p.set_code is Some && nocase(p.set_code.unwrap()@, sc)
}

/// The names of the candidates at `idx`, joined with `", "`.
pub open spec fn names_of(cs: Seq<SealedCandidate>, idx: Seq<int>) -> Seq<char>
    decreases idx.len(),
{
    if idx.len() == 0 {
        Seq::empty()
    } else if idx.len() == 1 {
        cs[idx[0]].name@
    } else {
        names_of(cs, idx.drop_last()) + seq![',', ' '] + cs[idx.last()].name@
    }
}

/// Where one sealed row ends up.
pub enum SealedOutcome {
    Matched(SealedCandidate),
    Unmatched(Seq<char>),
}

/// The search across the whole catalog; `sc` is the stated set's code when
/// it resolved.
pub open spec fn global_outcome(products: Seq<SealedCandidate>, row: ParsedSealedRow, sc: Option<Seq<char>>) -> SealedOutcome {
    let h = spec_hits(products, row.name@);
    if h.len() == 1 {
        SealedOutcome::Matched(products[h[0]])
    } else if h.len() > 1 {
        SealedOutcome::Unmatched("ambiguous across all sets: matches "@ + names_of(products, h))
    } else {
        SealedOutcome::Unmatched(
            match sc {
                Some(c) => "no sealed product '"@ + row.name@ + "' in "@ + c + " or any set"@,
                None => "no sealed product '"@ + row.name@ + "' in any set (set '"@ + row.set_hint@
                    + "' unknown)"@,
            },
        )
    }
}

/// Resolve one row: within its stated set when that resolves (a hit or an
/// in-set ambiguity is final), otherwise — or on an in-set miss — across
/// the whole catalog.
pub open spec fn sealed_outcome(cat: Catalog, products: Seq<SealedCandidate>, row: ParsedSealedRow) -> SealedOutcome {
    match spec_resolve_set(cat.sets@, row.set_hint@, opt_view(row.set_name)) {
        Some(si) => {
            let sc = cat.sets@[si].set_code@;
            let cs = products.filter(in_set_p(sc));
            let h = spec_hits(cs, row.name@);
            if h.len() == 1 {
                SealedOutcome::Matched(cs[h[0]])
            } else if h.len() > 1 {
                SealedOutcome::Unmatched("ambiguous in "@ + sc + ": matches "@ + names_of(cs, h))
            } else {
                global_outcome(products, row, Some(sc))
            }
        },
        None => global_outcome(products, row, None),
    }
}

/// `m` is `row` resolved to the product `c`.
pub open spec fn sealed_matched_ok(row: ParsedSealedRow, c: SealedCandidate, m: ResolvedSealedRow) -> bool {
    &&& m.source_line == row.source_line
    &&& m.product_id == c.product_id
    &&& m.name == c.name
    &&& m.category == c.category
    &&& m.set_code == c.set_code
    &&& m.quantity == row.quantity
    &&& m.condition == row.condition
    &&& m.purchase_price_bits == row.purchase_price_bits
    &&& m.purchase_date == row.purchase_date
    &&& m.notes == row.notes
    &&& m.already_owned == 0
}

/// `u` reports `row` unmatched for `reason`.
pub open spec fn sealed_unmatched_ok(row: ParsedSealedRow, reason: Seq<char>, u: UnmatchedSealedRow) -> bool {
    &&& u.source_line == row.source_line
    &&& u.name == row.name
    &&& u.set_hint == row.set_hint
    &&& u.reason@ == reason
}

pub open spec fn is_sealed_matched(cat: Catalog, products: Seq<SealedCandidate>) -> spec_fn(ParsedSealedRow) -> bool {
    |r: ParsedSealedRow| sealed_outcome(cat, products, r) is Matched
}

pub open spec fn is_sealed_unmatched(cat: Catalog, products: Seq<SealedCandidate>) -> spec_fn(ParsedSealedRow) -> bool {
    |r: ParsedSealedRow| !(sealed_outcome(cat, products, r) is Matched)
}

/// `report` is the resolution of `rows`: matched rows in file order, each
/// resolved to its product, and the rest in file order with their reasons.
pub open spec fn sealed_report_of(
    cat: Catalog,
    products: Seq<SealedCandidate>,
    rows: Seq<ParsedSealedRow>,
    report: SealedResolutionReport,
) -> bool {
    let ms = rows.filter(is_sealed_matched(cat, products));
    let us = rows.filter(is_sealed_unmatched(cat, products));
    &&& report.matched@.len() == ms.len()
    &&& forall|i: int| 0 <= i < ms.len() ==> (sealed_outcome(cat, products, ms[i]) matches SealedOutcome::Matched(c)
        && sealed_matched_ok(ms[i], c, #[trigger] report.matched@[i]))
    &&& report.unmatched@.len() == us.len()
    &&& forall|i: int| 0 <= i < us.len() ==> (sealed_outcome(cat, products, us[i]) matches SealedOutcome::Unmatched(why)
        && sealed_unmatched_ok(us[i], why, #[trigger] report.unmatched@[i]))
}

fn copy_candidate(c: &SealedCandidate) -> (r: SealedCandidate)
    ensures
        r == *c,
{
    SealedCandidate {
        product_id: c.product_id,
        name: c.name.clone(),
        category: c.category.clone(),
        set_code: match &c.set_code {
            Some(s) => Some(s.clone()),
            None => None,
        },
    }
}

fn copy_opt(o: &Option<String>) -> (r: Option<String>)
    ensures
        r == *o,
{
    match o {
        Some(s) => Some(s.clone()),
        None => None,
    }
}

/// The products listed under the set `sc`.
fn candidates_in_set(products: &Vec<SealedCandidate>, sc: &str) -> (r: Vec<SealedCandidate>)
    ensures
        r@ == products@.filter(in_set_p(sc@)),
{
    let mut out: Vec<SealedCandidate> = Vec::new();
    let mut i: usize = 0;
    while i < products.len()
        invariant
            i <= products@.len(),
            out@ == products@.take(i as int).filter(in_set_p(sc@)),
        decreases products.len() - i,
    {
        proof {
            lemma_take_push(products@, i as int);
            lemma_filter_push(products@.take(i as int), products@[i as int], in_set_p(sc@));
        }
        let keep = match &products[i].set_code {
            Some(s) => eq_nocase(s.as_str(), sc),
            None => false,
        };
        if keep {
            out.push(copy_candidate(&products[i]));
        }
        i = i + 1;
    }
    assert(products@.take(products@.len() as int) =~= products@);
    out
}

/// The names of the candidates at `idx`, joined with `", "`.
fn join_names(cs: &Vec<SealedCandidate>, idx: &Vec<usize>, Ghost(h): Ghost<Seq<int>>) -> (r: String)
    requires
        idx@.len() == h.len(),
        forall|j: int| 0 <= j < h.len() ==> #[trigger] idx@[j] == h[j] && 0 <= h[j] < cs@.len(),
    ensures
        r@ == names_of(cs@, h),
{
    let mut out = String::new();
    let mut j: usize = 0;
    while j < idx.len()
        invariant
            j <= idx@.len(),
            idx@.len() == h.len(),
            forall|t: int| 0 <= t < h.len() ==> #[trigger] idx@[t] == h[t] && 0 <= h[t] < cs@.len(),
            out@ == names_of(cs@, h.take(j as int)),
        decreases idx.len() - j,
    {
        assert(h.take(j + 1).drop_last() =~= h.take(j as int));
        let k = idx[j];
        if j == 0 {
            out = cs[k].name.clone();
        } else {
            out = cat3(out.as_str(), ", ", cs[k].name.as_str());
            proof {
                reveal_strlit(", ");
                assert(", "@ =~= seq![',', ' ']);
            }
        }
        j = j + 1;
    }
    assert(h.take(h.len() as int) =~= h);
    out
}

fn resolved_row(row: &ParsedSealedRow, c: &SealedCandidate) -> (m: ResolvedSealedRow)
    ensures
        sealed_matched_ok(*row, *c, m),
{
    ResolvedSealedRow {
        source_line: row.source_line,
        product_id: c.product_id,
        name: c.name.clone(),
        category: c.category.clone(),
        set_code: copy_opt(&c.set_code),
        quantity: row.quantity,
        condition: row.condition.clone(),
        purchase_price_bits: row.purchase_price_bits,
        purchase_date: copy_opt(&row.purchase_date),
        notes: copy_opt(&row.notes),
        already_owned: 0,
    }
}

fn missed_row(row: &ParsedSealedRow, reason: String) -> (u: UnmatchedSealedRow)
    ensures
        sealed_unmatched_ok(*row, reason@, u),
{
    UnmatchedSealedRow {
        source_line: row.source_line,
        name: row.name.clone(),
        set_hint: row.set_hint.clone(),
        reason,
    }
}

/// The search across the whole catalog for one row.
fn resolve_globally(products: &Vec<SealedCandidate>, row: &ParsedSealedRow, sc: Option<&str>) -> (r: Result<ResolvedSealedRow, UnmatchedSealedRow>)
    ensures
        match global_outcome(products@, *row, match sc { Some(c) => Some(c@), None => None }) {
            SealedOutcome::Matched(c) => r matches Ok(m) && sealed_matched_ok(*row, c, m),
            SealedOutcome::Unmatched(why) => r matches Err(u) && sealed_unmatched_ok(*row, why, u),
        },
{
    let ghost h = spec_hits(products@, row.name@);
    proof {
        let want = spec_normalize(row.name@);
        lemma_hits_bounded(exact_p(products@, want), products@.len());
        lemma_hits_bounded(loose_p(products@, want), products@.len());
    }
    match match_name(row.name.as_str(), products) {
        NameMatch::One(k) => Ok(resolved_row(row, &products[k])),
        NameMatch::Ambiguous(ks) => {
            let names = join_names(products, &ks, Ghost(h));
            Err(missed_row(row, cat("ambiguous across all sets: matches ", names.as_str())))
        },
        NameMatch::NoMatch => {
            let reason = match sc {
                Some(c) => {
                    let a = cat3("no sealed product '", row.name.as_str(), "' in ");
                    cat3(a.as_str(), c, " or any set")
                },
                None => {
                    let a = cat3("no sealed product '", row.name.as_str(), "' in any set (set '");
                    cat3(a.as_str(), row.set_hint.as_str(), "' unknown)")
                },
            };
            Err(missed_row(row, reason))
        },
    }
}

/// Resolve one sealed row against the catalog.
pub fn resolve_sealed_row(cat: &Catalog, products: &Vec<SealedCandidate>, row: &ParsedSealedRow) -> (r: Result<ResolvedSealedRow, UnmatchedSealedRow>)
    ensures
        match sealed_outcome(*cat, products@, *row) {
            SealedOutcome::Matched(c) => r matches Ok(m) && sealed_matched_ok(*row, c, m),
            SealedOutcome::Unmatched(why) => r matches Err(u) && sealed_unmatched_ok(*row, why, u),
        },
{
    match resolve_set(cat, &row.set_hint, &row.set_name) {
        Some(si) => {
            let sc = cat.sets[si].set_code.as_str();
            let cs = candidates_in_set(products, sc);
            let ghost h = spec_hits(cs@, row.name@);
            proof {
                let want = spec_normalize(row.name@);
                lemma_hits_bounded(exact_p(cs@, want), cs@.len());
                lemma_hits_bounded(loose_p(cs@, want), cs@.len());
            }
            match match_name(row.name.as_str(), &cs) {
                NameMatch::One(k) => Ok(resolved_row(row, &cs[k])),
                NameMatch::Ambiguous(ks) => {
                    let names = join_names(&cs, &ks, Ghost(h));
                    let a = cat3("ambiguous in ", sc, ": matches ");
                    Err(missed_row(row, crate::text::cat(a.as_str(), names.as_str())))
                },
                NameMatch::NoMatch => resolve_globally(products, row, Some(sc)),
            }
        },
        None => resolve_globally(products, row, None),
    }
}

/// Resolve parsed sealed rows against the catalog (`cat` for the sets,
/// `products` for the sealed products), partitioning them into matched
/// products and unmatched rows with reasons, each in file order.
pub fn resolve_sealed(cat: &Catalog, products: &Vec<SealedCandidate>, rows: &Vec<ParsedSealedRow>) -> (report: SealedResolutionReport)
    ensures
        sealed_report_of(*cat, products@, rows@, report),
{
    let mut matched: Vec<ResolvedSealedRow> = Vec::new();
    let mut unmatched: Vec<UnmatchedSealedRow> = Vec::new();
    let ghost pm = is_sealed_matched(*cat, products@);
    let ghost pu = is_sealed_unmatched(*cat, products@);
    let mut i: usize = 0;
    while i < rows.len()
        invariant
            i <= rows@.len(),
            pm == is_sealed_matched(*cat, products@),
            pu == is_sealed_unmatched(*cat, products@),
            matched@.len() == rows@.take(i as int).filter(pm).len(),
            forall|k: int| 0 <= k < matched@.len() ==> (sealed_outcome(*cat, products@, rows@.take(i as int).filter(pm)[k])
                matches SealedOutcome::Matched(c) && sealed_matched_ok(rows@.take(i as int).filter(pm)[k], c, #[trigger] matched@[k])),
            unmatched@.len() == rows@.take(i as int).filter(pu).len(),
            forall|k: int| 0 <= k < unmatched@.len() ==> (sealed_outcome(*cat, products@, rows@.take(i as int).filter(pu)[k])
                matches SealedOutcome::Unmatched(why) && sealed_unmatched_ok(rows@.take(i as int).filter(pu)[k], why, #[trigger] unmatched@[k])),
        decreases rows.len() - i,
    {
        proof {
            lemma_take_push(rows@, i as int);
            lemma_filter_push(rows@.take(i as int), rows@[i as int], pm);
            lemma_filter_push(rows@.take(i as int), rows@[i as int], pu);
        }
        match resolve_sealed_row(cat, products, &rows[i]) {
            Ok(m) => matched.push(m),
            Err(u) => unmatched.push(u),
        }
        i = i + 1;
    }
    assert(rows@.take(rows@.len() as int) =~= rows@);
    SealedResolutionReport { matched, unmatched }
}

/// The counts of committing a sealed resolution: one collection row per
/// matched line (quantity preserved), the unmatched lines skipped — their
/// count read as a `u32`.
pub fn sealed_commit_result(report: &SealedResolutionReport) -> (r: SealedCommitResult)
    requires
        report.matched@.len() <= u32::MAX,
    ensures
        r.added == report.matched@.len(),
        r.skipped == report.unmatched@.len() as u32,
{
    SealedCommitResult {
        added: report.matched.len() as u32,
        skipped: #[verifier::truncate] (report.unmatched.len() as u32),
    }
}

/// The owned quantity the `GROUP BY product_id` result gives `id`: the sum
/// of the last row for that id (a map keeps the last insert), read as a
/// `u32`; `0` when the product has no row.
pub open spec fn owned_quantity(counts: Seq<(i64, i64)>, id: i64) -> u32 {
    let hits = counts.filter(product_is(id));
    if hits.len() == 0 {
        0
    } else {
        hits.last().1 as u32
    }
}

/// A grouped row for the product `id`.
pub open spec fn product_is(id: i64) -> spec_fn((i64, i64)) -> bool {
    |e: (i64, i64)| e.0 == id
}

fn lookup_owned_quantity(counts: &Vec<(i64, i64)>, id: i64) -> (n: u32)
    ensures
        n == owned_quantity(counts@, id),
{
    let ghost p = product_is(id);
    let mut n: u32 = 0;
    let mut i: usize = 0;
    while i < counts.len()
        invariant
            i <= counts@.len(),
            p == product_is(id),
            n == owned_quantity(counts@.take(i as int), id),
        decreases counts.len() - i,
    {
        proof {
            lemma_take_push(counts@, i as int);
            lemma_filter_push(counts@.take(i as int), counts@[i as int], p);
        }
        let ghost before = counts@.take(i as int).filter(p);
        let ghost after = counts@.take(i + 1).filter(p);
        if counts[i].0 == id {
            n = #[verifier::truncate] (counts[i].1 as u32);
            assert(after == before.push(counts@[i as int]));
            assert(after.last() == counts@[i as int]);
        } else {
            assert(after == before);
        }
        i = i + 1;
    }
    assert(counts@.take(counts@.len() as int) =~= counts@);
    n
}

/// Annotate each matched sealed row with the owned quantity of its product
/// already in the collection. `counts` is the `(product_id, quantity)`
/// result of summing the collection's owned sealed rows by product.
pub fn annotate_owned_sealed(report: &mut SealedResolutionReport, counts: &Vec<(i64, i64)>)
    ensures
        final(report).unmatched@ == old(report).unmatched@,
        final(report).matched@.len() == old(report).matched@.len(),
        forall|i: int|
            0 <= i < old(report).matched@.len() ==> #[trigger] final(report).matched@[i] == (ResolvedSealedRow {
                already_owned: owned_quantity(counts@, old(report).matched@[i].product_id),
                ..old(report).matched@[i]
            }),
{
    let mut rest: Vec<ResolvedSealedRow> = Vec::new();
    std::mem::swap(&mut rest, &mut report.matched);
    let ghost orig = rest@;
    let n = rest.len();
    let mut out: Vec<ResolvedSealedRow> = Vec::new();
    let mut i: usize = 0;
    while i < n
        invariant
            n == orig.len(),
            i <= n,
            rest@ == orig.subrange(i as int, n as int),
            out@.len() == i,
            forall|k: int|
                0 <= k < i ==> #[trigger] out@[k] == (ResolvedSealedRow {
                    already_owned: owned_quantity(counts@, orig[k].product_id),
                    ..orig[k]
                }),
        decreases n - i,
    {
        let mut row = rest.remove(0);
        assert(row == orig[i as int]);
        row.already_owned = lookup_owned_quantity(counts, row.product_id);
        out.push(row);
        i = i + 1;
        assert(rest@ =~= orig.subrange(i as int, n as int));
    }
    report.matched = out;
}

fn copy_resolved(r: &ResolvedSealedRow) -> (c: ResolvedSealedRow)
    ensures
        c == *r,
{
    ResolvedSealedRow {
        source_line: r.source_line,
        product_id: r.product_id,
        name: r.name.clone(),
        category: r.category.clone(),
        set_code: copy_opt(&r.set_code),
        quantity: r.quantity,
        condition: r.condition.clone(),
        purchase_price_bits: r.purchase_price_bits,
        purchase_date: copy_opt(&r.purchase_date),
        notes: copy_opt(&r.notes),
        already_owned: r.already_owned,
    }
}

/// A resolved sealed row whose line was selected.
pub open spec fn sealed_line_in(selected: Seq<u32>) -> spec_fn(ResolvedSealedRow) -> bool {
    |r: ResolvedSealedRow| selected.contains(r.source_line)
}

/// Keep only the matched rows whose `source_line` is in `selected`, in
/// order; drop every unmatched row.
pub fn filter_sealed(report: &SealedResolutionReport, selected: &Vec<u32>) -> (r: SealedResolutionReport)
    ensures
        r.unmatched@.len() == 0,
        r.matched@ == report.matched@.filter(sealed_line_in(selected@)),
{
    let ghost p = sealed_line_in(selected@);
    let mut out: Vec<ResolvedSealedRow> = Vec::new();
    let mut i: usize = 0;
    while i < report.matched.len()
        invariant
            i <= report.matched@.len(),
            p == sealed_line_in(selected@),
            out@ == report.matched@.take(i as int).filter(p),
        decreases report.matched.len() - i,
    {
        proof {
            lemma_take_push(report.matched@, i as int);
            lemma_filter_push(report.matched@.take(i as int), report.matched@[i as int], p);
        }
        if crate::import::contains_line(selected, report.matched[i].source_line) {
            out.push(copy_resolved(&report.matched[i]));
        }
        i = i + 1;
    }
    assert(report.matched@.take(report.matched@.len() as int) =~= report.matched@);
    SealedResolutionReport { matched: out, unmatched: Vec::new() }
}

/// What committing matched sealed row `m` under `source` adds: its product,
/// its quantity kept, its condition, price, date and notes, with the import
/// source and no seller.
pub open spec fn sealed_planned_ok(m: ResolvedSealedRow, source: Seq<char>, n: NewSealed) -> bool {
    &&& n.product_id == m.product_id
    &&& n.quantity == Some(m.quantity as i64)
    &&& n.condition == Some(m.condition)
    &&& n.purchase_price_bits == m.purchase_price_bits
    &&& n.purchase_date == m.purchase_date
    &&& n.source matches Some(s) && s@ == source
    &&& n.seller_name is None
    &&& n.notes == m.notes
}

/// The sealed rows a commit adds, one per matched row, in order.
pub fn plan_sealed_commit(report: &SealedResolutionReport, source: &str) -> (r: Vec<NewSealed>)
    ensures
        r@.len() == report.matched@.len(),
        forall|i: int| 0 <= i < r@.len() ==> sealed_planned_ok(report.matched@[i], source@, #[trigger] r@[i]),
{
    let mut out: Vec<NewSealed> = Vec::new();
    let mut i: usize = 0;
    while i < report.matched.len()
        invariant
            i <= report.matched@.len(),
            out@.len() == i,
            forall|k: int| 0 <= k < i ==> sealed_planned_ok(report.matched@[k], source@, #[trigger] out@[k]),
        decreases report.matched.len() - i,
    {
        let m = &report.matched[i];
        out.push(NewSealed {
            product_id: m.product_id,
            quantity: Some(m.quantity as i64),
            condition: Some(m.condition.clone()),
            purchase_price_bits: m.purchase_price_bits,
            purchase_date: clone_opt(&m.purchase_date),
            source: Some(crate::text::owned(source)),
            seller_name: None,
            notes: clone_opt(&m.notes),
        });
        i = i + 1;
    }
    out
}


/// `e` and its accented spellings `é É è È ë Ë`.
pub open spec fn e_like(c: char) -> bool {
    c == 'e' || c == '\u{e9}' || c == '\u{c9}' || c == '\u{e8}' || c == '\u{c8}' || c == '\u{eb}' || c == '\u{cb}'
}

/// The straight apostrophe and its curly, modifier and backtick spellings.
pub open spec fn apostrophe_like(c: char) -> bool {
    c == '\'' || c == '\u{2019}' || c == '\u{2018}' || c == '`' || c == '\u{02bc}'
}

/// A space, a hyphen, or a dash.
pub open spec fn dash_like(c: char) -> bool {
    c == ' ' || c == '-' || c == '\u{2010}' || c == '\u{2011}' || c == '\u{2013}' || c == '\u{2014}'
}

/// Two characters that only spell the same thing differently.
pub open spec fn spelling_variant(x: char, y: char) -> bool {
    x == y || (e_like(x) && e_like(y)) || (apostrophe_like(x) && apostrophe_like(y)) || (dash_like(x) && dash_like(
        y,
    ))
}

proof fn lemma_scan_congruent(a: Seq<char>, b: Seq<char>)
    requires
        a.len() == b.len(),
        forall|i: int| 0 <= i < a.len() ==> fold_char(#[trigger] a[i]) == fold_char(b[i]),
    ensures
        norm_scan(a) == norm_scan(b),
    decreases a.len(),
{
    if a.len() > 0 {
        assert forall|i: int| 0 <= i < a.drop_last().len() implies fold_char(#[trigger] a.drop_last()[i]) == fold_char(
            b.drop_last()[i],
        ) by {
            assert(a.drop_last()[i] == a[i] && b.drop_last()[i] == b[i]);
        }
        lemma_scan_congruent(a.drop_last(), b.drop_last());
        assert(fold_char(a[a.len() - 1]) == fold_char(b[b.len() - 1]));
    }
}

/// Names that differ only in how they spell an `e` (accented or not), an
/// apostrophe (straight, curly, modifier or backtick) or a separator (a
/// space, hyphen or dash) normalize to the same text.
pub proof fn lemma_spelling_variants_normalize_alike(a: Seq<char>, b: Seq<char>)
    requires
        a.len() == b.len(),
        forall|i: int| 0 <= i < a.len() ==> spelling_variant(#[trigger] a[i], b[i]),
    ensures
        spec_normalize(a) == spec_normalize(b),
{
    assert forall|i: int| 0 <= i < a.len() implies fold_char(#[trigger] a[i]) == fold_char(b[i]) by {
        assert(spelling_variant(a[i], b[i]));
    }
    lemma_scan_congruent(a, b);
}

} // verus!
