//! Binder-page assembly: a set rendered as ordered slots, one per card
//! number, with per-printing ownership and master-set progress.
//!
//! The catalog rows a page is built from are handed in — the set's header,
//! its cards in `number_sortable` order, and every printing of those cards
//! with its owned count and market price — and everything from there on is
//! decided here: which section a card falls in, which sections show, the
//! progress bars, the sort, the search and ownership filters, and the page.

use vstd::prelude::*;
use crate::seqs::{lemma_filter_push, lemma_take_push};
use crate::text::{ascii_lower, trim, contains, chars_of, trim_vec, ascii_lower_vec, contains_exec, str_eq, owned, cat, push_char, clone_opt};
use crate::order::{lex_lt, lex_compare, lemma_lex_irreflexive, lemma_lex_transitive, lemma_lex_total, price_key, price_key_exec};

verus! {

/// `number_sortable` offset of the subset namespaces (Galarian, Trainer
/// Gallery).
pub const SUBSET_FLOOR: i64 = 1000;

/// `number_sortable` offset of promos.
pub const PROMO_FLOOR: i64 = 9000;

/// Header shown above a binder: a real set (`kind` "set") or a bundle
/// container (`kind` "bundle").
#[derive(Debug)]
pub struct BinderSetInfo {
    pub set_code: String,
    pub name: String,
    pub series: String,
    pub total: Option<i64>,
    pub printed_total: Option<i64>,
    pub kind: String,
}

/// One printing within a slot. The market price is carried as the bit
/// pattern of its `f64`.
#[derive(Debug)]
pub struct SlotPrinting {
    pub printing_id: String,
    pub variant: String,
    pub deprecated: bool,
    pub owned_count: i64,
    pub market_price_bits: Option<u64>,
}

/// The home set of a bundle slot's card.
#[derive(Debug)]
pub struct ExternalSet {
    pub set_code: String,
    pub name: String,
}

/// One binder slot — a single card number and all its printings.
#[derive(Debug)]
pub struct BinderSlot {
    pub card_id: String,
    pub number: String,
    pub name: String,
    pub rarity: Option<String>,
    pub image_large: Option<String>,
    /// `base` | `secret` | `subset` | `promo`.
    pub section: String,
    pub printings: Vec<SlotPrinting>,
    pub external_set: Option<ExternalSet>,
}

/// A single rendered binder page with master-set progress.
#[derive(Debug)]
pub struct BinderPage {
    pub set: BinderSetInfo,
    pub layout: i64,
    pub page: i64,
    pub total_pages: i64,
    pub base_total: i64,
    pub base_owned: i64,
    pub master_total: i64,
    pub master_owned: i64,
    pub slots: Vec<BinderSlot>,
}

/// How to sort, filter, and paginate a binder page.
#[derive(Debug)]
pub struct BinderQuery {
    pub page: i64,
    pub layout: i64,
    pub include_secret: bool,
    pub include_subset: bool,
    pub include_promos: bool,
    /// `number` | `number_desc` | `name` | `name_desc` | `price` |
    /// `price_asc` | `rarity` | `rarity_asc`; anything else is `number`.
    pub sort: String,
    /// Case-insensitive card-name substring; empty means no search.
    pub search: String,
    /// `all` | `have` | `need` | `dupes`.
    pub filter: String,
}

impl Default for BinderQuery {
    fn default() -> (q: Self)
        ensures
            q.page == 1,
            q.layout == 9,
            q.include_secret && q.include_subset && q.include_promos,
            q.sort@ == "number"@,
            q.search@.len() == 0,
            q.filter@ == "all"@,
    {
        BinderQuery {
            page: 1,
            layout: 9,
            include_secret: true,
            include_subset: true,
            include_promos: true,
            sort: owned("number"),
            search: String::new(),
            filter: owned("all"),
        }
    }
}

/// A catalog card row read while assembling a binder.
#[derive(Debug)]
pub struct CardRow {
    pub card_id: String,
    pub number: String,
    pub number_sortable: i64,
    pub name: String,
    pub rarity: Option<String>,
    pub image_large: Option<String>,
}

/// A printing row, tagged with the card it belongs to.
#[derive(Debug)]
pub struct CardPrinting {
    pub card_id: String,
    pub printing: SlotPrinting,
}

// ── sections ─────────────────────────────────────────────────────────────

/// The section a card number falls in, given the set's printed total.
pub open spec fn spec_section(number_sortable: i64, printed_total: i64) -> Seq<char> {
    if number_sortable <= printed_total {
        "base"@
    } else if number_sortable < 1000 {
        "secret"@
    } else if number_sortable < 9000 {
        "subset"@
    } else {
        "promo"@
    }
}

/// The section a card number falls in: numbers up to the printed total are
/// base, beyond it secret, then the subset and promo namespaces.
pub fn section_of(number_sortable: i64, printed_total: i64) -> (r: &'static str)
    ensures
        r@ == spec_section(number_sortable, printed_total),
{
    if number_sortable <= printed_total {
        "base"
    } else if number_sortable < SUBSET_FLOOR {
        "secret"
    } else if number_sortable < PROMO_FLOOR {
        "subset"
    } else {
        "promo"
    }
}

/// Whether the query shows a section.
pub open spec fn shows_section(q: BinderQuery, section: Seq<char>) -> bool {
    if section == "secret"@ {
        q.include_secret
    } else if section == "subset"@ {
        q.include_subset
    } else if section == "promo"@ {
        q.include_promos
    } else {
        true
    }
}

// ── mass entry and rarity ────────────────────────────────────────────────

/// The TCGplayer Mass Entry line for a card.
pub open spec fn spec_mass_entry_line(name: Seq<char>, code: Seq<char>, collector_number: Option<Seq<char>>) -> Seq<char> {
    match collector_number {
        Some(num) => "1 "@ + name + " - "@ + num + " ["@ + code + "]"@,
        None => "1 "@ + name + " ["@ + code + "]"@,
    }
}

/// Build a card's TCGplayer Mass Entry line: `1 {name} - {number} [{code}]`
/// when the card has a collector number, else `1 {name} [{code}]`.
pub fn mass_entry_line(name: &str, code: &str, collector_number: Option<&str>) -> (r: String)
    ensures
        r@ == spec_mass_entry_line(name@, code@, match collector_number {
            Some(n) => Some(n@),
            None => None,
        }),
{
    let mut r = owned("1 ");
    r.append(name);
    match collector_number {
        Some(num) => {
            r.append(" - ");
            r.append(num);
        },
        None => {},
    }
    r.append(" [");
    r.append(code);
    r.append("]");
    r
}

/// Rank of a lowercased rarity name, low (common) → high (chase).
pub open spec fn rank_of(r: Seq<char>) -> i64 {
    if r == "common"@ {
        1
    } else if r == "uncommon"@ {
        2
    } else if r == "rare"@ {
        3
    } else if r == "promo"@ || r == "classic collection"@ {
        4
    } else if r == "rare holo"@ {
        5
    } else if r == "radiant rare"@ {
        6
    } else if r == "rare holo ex"@ || r == "rare holo gx"@ || r == "rare holo v"@ || r
        == "double rare"@ {
        7
    } else if r == "rare holo vmax"@ || r == "rare holo vstar"@ || r == "ultra rare"@ {
        8
    } else if r == "amazing rare"@ || r == "rare shiny"@ || r == "rare shiny gx"@ {
        9
    } else if r == "illustration rare"@ {
        10
    } else if r == "trainer gallery rare holo"@ {
        11
    } else if r == "rare secret"@ || r == "rare rainbow"@ {
        12
    } else if r == "special illustration rare"@ {
        13
    } else if r == "hyper rare"@ || r == "rare holo star"@ {
        14
    } else {
        6
    }
}

/// Rank of a rarity, compared case-insensitively; no rarity ranks 0 and an
/// unrecognised one 6, just above the staple rares.
pub open spec fn spec_rarity_rank(rarity: Option<String>) -> i64 {
    match rarity {
        None => 0,
        Some(r) => rank_of(ascii_lower(r@)),
    }
}

/// Rank a Pokémon rarity low (common) → high (chase).
pub fn rarity_rank(rarity: &Option<String>) -> (r: i64)
    ensures
        r == spec_rarity_rank(*rarity),
{
    let r = match rarity {
        None => {
            return 0;
        },
        Some(r) => r,
    };
    let v = chars_of(r.as_str());
    let lv = ascii_lower_vec(&v);
    let ls = crate::text::string_from(&lv, 0, lv.len());
    assert(ls@ =~= ascii_lower(r@));
    let l = ls.as_str();
    if str_eq(l, "common") {
        1
    } else if str_eq(l, "uncommon") {
        2
    } else if str_eq(l, "rare") {
        3
    } else if str_eq(l, "promo") || str_eq(l, "classic collection") {
        4
    } else if str_eq(l, "rare holo") {
        5
    } else if str_eq(l, "radiant rare") {
        6
    } else if str_eq(l, "rare holo ex") || str_eq(l, "rare holo gx") || str_eq(l, "rare holo v")
        || str_eq(l, "double rare") {
        7
    } else if str_eq(l, "rare holo vmax") || str_eq(l, "rare holo vstar") || str_eq(
        l,
        "ultra rare",
    ) {
        8
    } else if str_eq(l, "amazing rare") || str_eq(l, "rare shiny") || str_eq(l, "rare shiny gx") {
        9
    } else if str_eq(l, "illustration rare") {
        10
    } else if str_eq(l, "trainer gallery rare holo") {
        11
    } else if str_eq(l, "rare secret") || str_eq(l, "rare rainbow") {
        12
    } else if str_eq(l, "special illustration rare") {
        13
    } else if str_eq(l, "hyper rare") || str_eq(l, "rare holo star") {
        14
    } else {
        6
    }
}

// ── slot properties ──────────────────────────────────────────────────────

/// The user owns at least one copy of some printing.
pub open spec fn owns_one(ps: Seq<SlotPrinting>) -> bool {
    exists|i: int| 0 <= i < ps.len() && (#[trigger] ps[i]).owned_count > 0
}

/// The user owns two or more copies of some printing.
pub open spec fn has_dupe(ps: Seq<SlotPrinting>) -> bool {
    exists|i: int| 0 <= i < ps.len() && (#[trigger] ps[i]).owned_count >= 2
}

/// The dearest market price across printings, as a position in `f64`'s
/// total order, counting from a price of `0.0`.
pub open spec fn max_price(ps: Seq<SlotPrinting>) -> int
    decreases ps.len(),
{
    if ps.len() == 0 {
        price_key(0)
    } else {
        let m = max_price(ps.drop_last());
        match ps.last().market_price_bits {
            Some(b) => if price_key(b) > m {
                price_key(b)
            } else {
                m
            },
            None => m,
        }
    }
}

pub fn owns_one_exec(ps: &Vec<SlotPrinting>) -> (r: bool)
    ensures
        r == owns_one(ps@),
{
    let mut i: usize = 0;
    while i < ps.len()
        invariant
            i <= ps@.len(),
            forall|j: int| 0 <= j < i ==> (#[trigger] ps@[j]).owned_count <= 0,
        decreases ps.len() - i,
    {
        if ps[i].owned_count > 0 {
            return true;
        }
        i = i + 1;
    }
    false
}

pub fn has_dupe_exec(ps: &Vec<SlotPrinting>) -> (r: bool)
    ensures
        r == has_dupe(ps@),
{
    let mut i: usize = 0;
    while i < ps.len()
        invariant
            i <= ps@.len(),
            forall|j: int| 0 <= j < i ==> (#[trigger] ps@[j]).owned_count < 2,
        decreases ps.len() - i,
    {
        if ps[i].owned_count >= 2 {
            return true;
        }
        i = i + 1;
    }
    false
}

pub fn max_price_exec(ps: &Vec<SlotPrinting>) -> (r: u64)
    ensures
        r == max_price(ps@),
{
    let mut m: u64 = price_key_exec(0);
    let mut i: usize = 0;
    assert(ps@.take(0) =~= Seq::<SlotPrinting>::empty());
    while i < ps.len()
        invariant
            i <= ps@.len(),
            m == max_price(ps@.take(i as int)),
        decreases ps.len() - i,
    {
        assert(ps@.take(i + 1).drop_last() =~= ps@.take(i as int));
        match ps[i].market_price_bits {
            Some(b) => {
                let k = price_key_exec(b);
                if k > m {
                    m = k;
                }
            },
            None => {},
        }
        i = i + 1;
    }
    assert(ps@.take(ps@.len() as int) =~= ps@);
    m
}

// ── sorting ──────────────────────────────────────────────────────────────

/// How a binder view is sorted.
#[derive(Debug, Clone, Copy, PartialEq, Eq, Structural)]
pub enum SortMode {
    Number,
    NumberDesc,
    Name,
    NameDesc,
    Price,
    PriceAsc,
    Rarity,
    RarityAsc,
}

/// The sort a query names; unknown names (and, where rarity sorting is not
/// offered, the rarity names) fall back to collector-number order.
pub open spec fn spec_sort_mode(s: Seq<char>, with_rarity: bool) -> SortMode {
    if s == "number_desc"@ {
        SortMode::NumberDesc
    } else if s == "name"@ {
        SortMode::Name
    } else if s == "name_desc"@ {
        SortMode::NameDesc
    } else if s == "price"@ {
        SortMode::Price
    } else if s == "price_asc"@ {
        SortMode::PriceAsc
    } else if with_rarity && s == "rarity"@ {
        SortMode::Rarity
    } else if with_rarity && s == "rarity_asc"@ {
        SortMode::RarityAsc
    } else {
        SortMode::Number
    }
}

pub fn sort_mode(s: &String, with_rarity: bool) -> (m: SortMode)
    ensures
        m == spec_sort_mode(s@, with_rarity),
{
    let s = s.as_str();
    if str_eq(s, "number_desc") {
        SortMode::NumberDesc
    } else if str_eq(s, "name") {
        SortMode::Name
    } else if str_eq(s, "name_desc") {
        SortMode::NameDesc
    } else if str_eq(s, "price") {
        SortMode::Price
    } else if str_eq(s, "price_asc") {
        SortMode::PriceAsc
    } else if with_rarity && str_eq(s, "rarity") {
        SortMode::Rarity
    } else if with_rarity && str_eq(s, "rarity_asc") {
        SortMode::RarityAsc
    } else {
        SortMode::Number
    }
}

/// Slot `a` has a strictly smaller sort key than `b` under `mode`.
pub open spec fn key_lt(mode: SortMode, a: BinderSlot, b: BinderSlot) -> bool {
    match mode {
        SortMode::Name => lex_lt(ascii_lower(a.name@), ascii_lower(b.name@)),
        SortMode::NameDesc => lex_lt(ascii_lower(b.name@), ascii_lower(a.name@)),
        SortMode::Price => max_price(b.printings@) < max_price(a.printings@),
        SortMode::PriceAsc => max_price(a.printings@) < max_price(b.printings@),
        SortMode::Rarity => spec_rarity_rank(b.rarity) < spec_rarity_rank(a.rarity),
        SortMode::RarityAsc => spec_rarity_rank(a.rarity) < spec_rarity_rank(b.rarity),
        _ => false,
    }
}

/// Slots `a` and `b` have equal sort keys under `mode`.
pub open spec fn key_eq(mode: SortMode, a: BinderSlot, b: BinderSlot) -> bool {
    match mode {
        SortMode::Name | SortMode::NameDesc => ascii_lower(a.name@) == ascii_lower(b.name@),
        SortMode::Price | SortMode::PriceAsc => max_price(a.printings@) == max_price(
            b.printings@,
        ),
        SortMode::Rarity | SortMode::RarityAsc => spec_rarity_rank(a.rarity) == spec_rarity_rank(
            b.rarity,
        ),
        _ => true,
    }
}

/// In a stable sort, the slot from position `ia` lands before the one from
/// position `ib`: a smaller key, or an equal key and an earlier position.
pub open spec fn before(mode: SortMode, a: BinderSlot, ia: int, b: BinderSlot, ib: int) -> bool {
    key_lt(mode, a, b) || (key_eq(mode, a, b) && ia < ib)
}

/// `out` is `input` stably sorted under `mode`: `perm[k]` is the position in
/// `input` that `out[k]` came from, every position is used once, and no two
/// slots are out of order. Number order keeps the input (already in
/// collector-number order) and its descending form reverses it.
pub open spec fn sorted_ok(mode: SortMode, input: Seq<BinderSlot>, out: Seq<BinderSlot>) -> bool {
    match mode {
        SortMode::Number => out == input,
        SortMode::NumberDesc => out == input.reverse(),
        _ => exists|perm: Seq<int>|
            {
                &&& perm.len() == input.len()
                &&& out.len() == input.len()
                &&& forall|k: int| 0 <= k < perm.len() ==> 0 <= #[trigger] perm[k] < input.len()
                &&& forall|k: int, l: int|
                    0 <= k < l < perm.len() ==> #[trigger] perm[k] != #[trigger] perm[l]
                &&& forall|k: int| 0 <= k < out.len() ==> #[trigger] out[k] == input[perm[k]]
                &&& forall|k: int, l: int|
                    0 <= k < l < out.len() ==> before(
                        mode,
                        #[trigger] out[k],
                        perm[k],
                        #[trigger] out[l],
                        perm[l],
                    )
            },
    }
}

proof fn lemma_before_total(mode: SortMode, a: BinderSlot, ia: int, b: BinderSlot, ib: int)
    requires
        ia != ib,
        mode != SortMode::Number && mode != SortMode::NumberDesc,
    ensures
        before(mode, a, ia, b, ib) || before(mode, b, ib, a, ia),
{
    lemma_lex_total(ascii_lower(a.name@), ascii_lower(b.name@));
}

proof fn lemma_before_trans(
    mode: SortMode,
    a: BinderSlot,
    ia: int,
    b: BinderSlot,
    ib: int,
    c: BinderSlot,
    ic: int,
)
    requires
        before(mode, a, ia, b, ib),
        before(mode, b, ib, c, ic),
        mode != SortMode::Number && mode != SortMode::NumberDesc,
    ensures
        before(mode, a, ia, c, ic),
{
    let la = ascii_lower(a.name@);
    let lb = ascii_lower(b.name@);
    let lc = ascii_lower(c.name@);
    match mode {
        SortMode::Name => {
            if lex_lt(la, lb) && lex_lt(lb, lc) {
                lemma_lex_transitive(la, lb, lc);
            }
        },
        SortMode::NameDesc => {
            if lex_lt(lb, la) && lex_lt(lc, lb) {
                lemma_lex_transitive(lc, lb, la);
            }
        },
        _ => {},
    }
}

/// The name a slot is sorted by: its ASCII-lowercased characters.
fn sort_name(s: &BinderSlot) -> (v: Vec<char>)
    ensures
        v@ == ascii_lower(s.name@),
{
    let c = chars_of(s.name.as_str());
    ascii_lower_vec(&c)
}

/// Whether slot `a` (from position `ia`) sorts before slot `b` (from `ib`).
fn before_exec(mode: SortMode, a: &BinderSlot, ia: usize, b: &BinderSlot, ib: usize) -> (r: bool)
    requires
        mode != SortMode::Number && mode != SortMode::NumberDesc,
    ensures
        r == before(mode, *a, ia as int, *b, ib as int),
{
    match mode {
        SortMode::Name | SortMode::NameDesc => {
            let na = sort_name(a);
            let nb = sort_name(b);
            let c = lex_compare(&na, &nb);
            if mode == SortMode::Name {
                c < 0 || (c == 0 && ia < ib)
            } else {
                c > 0 || (c == 0 && ia < ib)
            }
        },
        SortMode::Price | SortMode::PriceAsc => {
            let pa = max_price_exec(&a.printings);
            let pb = max_price_exec(&b.printings);
            if mode == SortMode::Price {
                pb < pa || (pa == pb && ia < ib)
            } else {
                pa < pb || (pa == pb && ia < ib)
            }
        },
        _ => {
            let ra = rarity_rank(&a.rarity);
            let rb = rarity_rank(&b.rarity);
            if mode == SortMode::Rarity {
                rb < ra || (ra == rb && ia < ib)
            } else {
                ra < rb || (ra == rb && ia < ib)
            }
        },
    }
}

/// Reverse a list of slots.
fn reverse_slots(v: Vec<BinderSlot>) -> (r: Vec<BinderSlot>)
    ensures
        r@ == v@.reverse(),
{
    let mut v = v;
    let ghost orig = v@;
    let mut r: Vec<BinderSlot> = Vec::new();
    while v.len() > 0
        invariant
            v@ == orig.subrange(0, v@.len() as int),
            r@.len() + v@.len() == orig.len(),
            forall|k: int| 0 <= k < r@.len() ==> #[trigger] r@[k] == orig[orig.len() - 1 - k],
        decreases v.len(),
    {
        let x = v.pop().unwrap();
        r.push(x);
        assert(v@ =~= orig.subrange(0, v@.len() as int));
    }
    assert(r@ =~= orig.reverse());
    r
}

/// Sort slots stably under `mode`.
pub fn sort_slots(mode: SortMode, input: Vec<BinderSlot>) -> (out: Vec<BinderSlot>)
    ensures
        sorted_ok(mode, input@, out@),
{
    if mode == SortMode::Number {
        return input;
    }
    if mode == SortMode::NumberDesc {
        return reverse_slots(input);
    }
    let ghost orig = input@;
    let n = input.len();
    let mut rest = input;
    let mut out: Vec<BinderSlot> = Vec::new();
    let mut origin: Vec<usize> = Vec::new();
    let mut i: usize = 0;
    while i < n
        invariant
            mode != SortMode::Number && mode != SortMode::NumberDesc,
            n == orig.len(),
            i <= n,
            rest@ == orig.subrange(i as int, n as int),
            out@.len() == i,
            origin@.len() == i,
            forall|k: int| 0 <= k < i ==> (#[trigger] origin@[k]) < i,
            forall|k: int, l: int|
                0 <= k < l < i ==> #[trigger] origin@[k] != #[trigger] origin@[l],
            forall|k: int| 0 <= k < i ==> #[trigger] out@[k] == orig[origin@[k] as int],
            forall|k: int, l: int|
                0 <= k < l < i ==> before(
                    mode,
                    #[trigger] out@[k],
                    origin@[k] as int,
                    #[trigger] out@[l],
                    origin@[l] as int,
                ),
        decreases n - i,
    {
        let x = rest.remove(0);
        assert(x == orig[i as int]);
        assert(rest@ =~= orig.subrange(i + 1, n as int));
        // Find the first position whose slot x sorts before.
        let mut p: usize = 0;
        while p < out.len() && !before_exec(mode, &x, i, &out[p], origin[p])
            invariant
                mode != SortMode::Number && mode != SortMode::NumberDesc,
                p <= out@.len(),
                out@.len() == i,
                origin@.len() == i,
                forall|k: int| 0 <= k < p ==> !before(mode, x, i as int, #[trigger] out@[k], origin@[k] as int),
            decreases out.len() - p,
        {
            p = p + 1;
        }
        let ghost old_out = out@;
        let ghost old_origin = origin@;
        proof {
            assert forall|k: int| 0 <= k < p implies before(mode, #[trigger] old_out[k], old_origin[k] as int, x, i as int) by {
                assert(old_origin[k] < i);
                lemma_before_total(mode, x, i as int, old_out[k], old_origin[k] as int);
            }
            assert forall|k: int| p <= k < i implies before(mode, x, i as int, #[trigger] old_out[k], old_origin[k] as int) by {
                if k > p {
                    lemma_before_trans(mode, x, i as int, old_out[p as int], old_origin[p as int] as int, old_out[k], old_origin[k] as int);
                }
            }
        }
        out.insert(p, x);
        origin.insert(p, i);
        proof {
            old_out.insert_ensures(p as int, x);
            old_origin.insert_ensures(p as int, i);
            assert forall|k: int, l: int| 0 <= k < l < i + 1 implies before(
                mode,
                #[trigger] out@[k],
                origin@[k] as int,
                #[trigger] out@[l],
                origin@[l] as int,
            ) by {
                if l < p {
                } else if l == p {
                    assert(out@[l] == x);
                } else if k < p {
                    assert(out@[l] == old_out[l - 1]);
                } else if k == p {
                    assert(out@[l] == old_out[l - 1]);
                } else {
                    assert(out@[k] == old_out[k - 1]);
                    assert(out@[l] == old_out[l - 1]);
                }
            }
            assert forall|k: int| 0 <= k < i + 1 implies (#[trigger] origin@[k]) < i + 1 by {
                if k < p {
                } else if k == p {
                } else {
                    assert(origin@[k] == old_origin[k - 1]);
                }
            }
            assert forall|k: int, l: int| 0 <= k < l < i + 1 implies #[trigger] origin@[k] != #[trigger] origin@[l] by {
                if k == p {
                    assert(origin@[l] == old_origin[l - 1]);
                } else if l == p {
                    assert(origin@[k] == old_origin[k]);
                } else if k < p && l < p {
                } else if k < p {
                    assert(origin@[l] == old_origin[l - 1]);
                } else {
                    assert(origin@[k] == old_origin[k - 1]);
                    assert(origin@[l] == old_origin[l - 1]);
                }
            }
            assert forall|k: int| 0 <= k < i + 1 implies #[trigger] out@[k] == orig[origin@[k] as int] by {
                if k < p {
                } else if k == p {
                } else {
                    assert(out@[k] == old_out[k - 1]);
                    assert(origin@[k] == old_origin[k - 1]);
                }
            }
        }
        i = i + 1;
    }
    let ghost perm = origin@.map_values(|u: usize| u as int);
    assert(sorted_ok(mode, orig, out@)) by {
        assert(perm.len() == orig.len());
        assert forall|k: int| 0 <= k < perm.len() implies 0 <= #[trigger] perm[k] < orig.len() by {
            assert(origin@[k] < n);
        }
        assert forall|k: int, l: int| 0 <= k < l < perm.len() implies #[trigger] perm[k] != #[trigger] perm[l] by {
            assert(origin@[k] != origin@[l]);
        }
        assert forall|k: int| 0 <= k < out@.len() implies #[trigger] out@[k] == orig[perm[k]] by {}
        assert forall|k: int, l: int| 0 <= k < l < out@.len() implies before(
            mode,
            #[trigger] out@[k],
            perm[k],
            #[trigger] out@[l],
            perm[l],
        ) by {}
    }
    out
}


// ── visible slots ────────────────────────────────────────────────────────

/// The printings of card `id`, in the order the catalog listed them.
pub open spec fn prs_of(prs: Seq<CardPrinting>, id: Seq<char>) -> Seq<SlotPrinting> {
    prs.filter(|e: CardPrinting| e.card_id@ == id).map_values(|e: CardPrinting| e.printing)
}

/// `slot` is card `c` laid out in a set whose printed total is `pt`.
pub open spec fn slot_from(slot: BinderSlot, c: CardRow, prs: Seq<CardPrinting>, pt: i64) -> bool {
    &&& slot.card_id == c.card_id
    &&& slot.number == c.number
    &&& slot.name == c.name
    &&& slot.rarity == c.rarity
    &&& slot.image_large == c.image_large
    &&& slot.section@ == spec_section(c.number_sortable, pt)
    &&& slot.printings@ == prs_of(prs, c.card_id@)
    &&& slot.external_set is None
}

/// A card whose section the query shows.
pub open spec fn shown(q: BinderQuery, pt: i64) -> spec_fn(CardRow) -> bool {
    |c: CardRow| shows_section(q, spec_section(c.number_sortable, pt))
}

/// `vis` holds one slot per shown card, in catalog order.
pub open spec fn visible_ok(cards: Seq<CardRow>, prs: Seq<CardPrinting>, pt: i64, q: BinderQuery, vis: Seq<BinderSlot>) -> bool {
    let kept = cards.filter(shown(q, pt));
    &&& vis.len() == kept.len()
    &&& forall|i: int| 0 <= i < vis.len() ==> slot_from(#[trigger] vis[i], kept[i], prs, pt)
}

fn copy_printing(p: &SlotPrinting) -> (r: SlotPrinting)
    ensures
        r == *p,
{
    SlotPrinting {
        printing_id: p.printing_id.clone(),
        variant: p.variant.clone(),
        deprecated: p.deprecated,
        owned_count: p.owned_count,
        market_price_bits: p.market_price_bits,
    }
}

/// The printings of card `id`, in catalog order.
pub fn printings_for(prs: &Vec<CardPrinting>, id: &String) -> (r: Vec<SlotPrinting>)
    ensures
        r@ == prs_of(prs@, id@),
{
    let ghost p = |e: CardPrinting| e.card_id@ == id@;
    let ghost f = |e: CardPrinting| e.printing;
    let mut r: Vec<SlotPrinting> = Vec::new();
    let mut j: usize = 0;
    while j < prs.len()
        invariant
            j <= prs@.len(),
            p == (|e: CardPrinting| e.card_id@ == id@),
            f == (|e: CardPrinting| e.printing),
            r@ == prs@.take(j as int).filter(p).map_values(f),
        decreases prs.len() - j,
    {
        proof {
            lemma_take_push(prs@, j as int);
            lemma_filter_push(prs@.take(j as int), prs@[j as int], p);
        }
        if prs[j].card_id == *id {
            let ghost before = prs@.take(j as int).filter(p);
            r.push(copy_printing(&prs[j].printing));
            assert(before.push(prs@[j as int]).map_values(f) =~= before.map_values(f).push(f(prs@[j as int])));
        }
        j = j + 1;
    }
    assert(prs@.take(prs@.len() as int) =~= prs@);
    r
}

fn shows_section_exec(q: &BinderQuery, section: &str) -> (r: bool)
    ensures
        r == shows_section(*q, section@),
{
    if str_eq(section, "secret") {
        q.include_secret
    } else if str_eq(section, "subset") {
        q.include_subset
    } else if str_eq(section, "promo") {
        q.include_promos
    } else {
        true
    }
}

/// One slot per card whose section the query shows, in catalog order, each
/// carrying its printings.
pub fn build_visible(cards: Vec<CardRow>, prs: &Vec<CardPrinting>, pt: i64, q: &BinderQuery) -> (vis: Vec<BinderSlot>)
    ensures
        visible_ok(cards@, prs@, pt, *q, vis@),
{
    let ghost orig = cards@;
    let ghost p = shown(*q, pt);
    let n = cards.len();
    let mut rest = cards;
    let mut vis: Vec<BinderSlot> = Vec::new();
    let mut i: usize = 0;
    while i < n
        invariant
            n == orig.len(),
            i <= n,
            p == shown(*q, pt),
            rest@ == orig.subrange(i as int, n as int),
            vis@.len() == orig.take(i as int).filter(p).len(),
            forall|k: int| 0 <= k < vis@.len() ==> slot_from(#[trigger] vis@[k], orig.take(i as int).filter(p)[k], prs@, pt),
        decreases n - i,
    {
        proof {
            lemma_take_push(orig, i as int);
            lemma_filter_push(orig.take(i as int), orig[i as int], p);
        }
        let c = rest.remove(0);
        assert(c == orig[i as int]);
        assert(rest@ =~= orig.subrange(i + 1, n as int));
        let section = section_of(c.number_sortable, pt);
        if shows_section_exec(q, section) {
            let printings = printings_for(prs, &c.card_id);
            vis.push(BinderSlot {
                card_id: c.card_id,
                number: c.number,
                name: c.name,
                rarity: c.rarity,
                image_large: c.image_large,
                section: owned(section),
                printings,
                external_set: None,
            });
        }
        i = i + 1;
    }
    assert(orig.take(n as int) =~= orig);
    vis
}

// ── progress ─────────────────────────────────────────────────────────────

pub open spec fn is_base(s: BinderSlot) -> bool {
    s.section@ == "base"@
}

/// Base-section slots.
pub open spec fn count_base(vis: Seq<BinderSlot>) -> nat
    decreases vis.len(),
{
    if vis.len() == 0 {
        0
    } else {
        count_base(vis.drop_last()) + if is_base(vis.last()) { 1nat } else { 0nat }
    }
}

/// Base-section slots with at least one owned printing.
pub open spec fn count_base_owned(vis: Seq<BinderSlot>) -> nat
    decreases vis.len(),
{
    if vis.len() == 0 {
        0
    } else {
        count_base_owned(vis.drop_last()) + if is_base(vis.last()) && owns_one(
            vis.last().printings@,
        ) {
            1nat
        } else {
            0nat
        }
    }
}

/// Owned printings among `ps`.
pub open spec fn owned_printings(ps: Seq<SlotPrinting>) -> nat
    decreases ps.len(),
{
    if ps.len() == 0 {
        0
    } else {
        owned_printings(ps.drop_last()) + if ps.last().owned_count > 0 { 1nat } else { 0nat }
    }
}

/// Printings across every slot.
pub open spec fn sum_printings(vis: Seq<BinderSlot>) -> nat
    decreases vis.len(),
{
    if vis.len() == 0 {
        0
    } else {
        sum_printings(vis.drop_last()) + vis.last().printings@.len()
    }
}

/// Owned printings across every slot.
pub open spec fn sum_owned(vis: Seq<BinderSlot>) -> nat
    decreases vis.len(),
{
    if vis.len() == 0 {
        0
    } else {
        sum_owned(vis.drop_last()) + owned_printings(vis.last().printings@)
    }
}

proof fn lemma_owned_le(ps: Seq<SlotPrinting>)
    ensures
        owned_printings(ps) <= ps.len(),
    decreases ps.len(),
{
    if ps.len() > 0 {
        lemma_owned_le(ps.drop_last());
    }
}

/// The master-set progress of the visible slots:
/// `(base_total, base_owned, master_total, master_owned)`.
pub fn progress(vis: &Vec<BinderSlot>) -> (r: (i64, i64, i64, i64))
    requires
        vis@.len() <= 0x8000_0000,
        forall|i: int| 0 <= i < vis@.len() ==> (#[trigger] vis@[i]).printings@.len() <= 0x8000_0000,
    ensures
        r.0 == count_base(vis@),
        r.1 == count_base_owned(vis@),
        r.2 == sum_printings(vis@),
        r.3 == sum_owned(vis@),
{
    let mut bt: i64 = 0;
    let mut bo: i64 = 0;
    let mut mt: i64 = 0;
    let mut mo: i64 = 0;
    let mut i: usize = 0;
    assert(vis@.take(0) =~= Seq::<BinderSlot>::empty());
    while i < vis.len()
        invariant
            i <= vis@.len(),
            vis@.len() <= 0x8000_0000,
            forall|k: int| 0 <= k < vis@.len() ==> (#[trigger] vis@[k]).printings@.len() <= 0x8000_0000,
            bt == count_base(vis@.take(i as int)),
            bo == count_base_owned(vis@.take(i as int)),
            mt == sum_printings(vis@.take(i as int)),
            mo == sum_owned(vis@.take(i as int)),
            bt <= i,
            bo <= i,
            mt <= i * 0x8000_0000,
            mo <= mt,
        decreases vis.len() - i,
    {
        let s = &vis[i];
        assert(vis@.take(i + 1).drop_last() =~= vis@.take(i as int));
        let base = str_eq(s.section.as_str(), "base");
        let own = owns_one_exec(&s.printings);
        if base {
            bt = bt + 1;
            if own {
                bo = bo + 1;
            }
        }
        let mut owned_here: i64 = 0;
        let mut j: usize = 0;
        assert(s.printings@.take(0) =~= Seq::<SlotPrinting>::empty());
        while j < s.printings.len()
            invariant
                j <= s.printings@.len(),
                s.printings@.len() <= 0x8000_0000,
                owned_here == owned_printings(s.printings@.take(j as int)),
                owned_here <= j,
            decreases s.printings.len() - j,
        {
            assert(s.printings@.take(j + 1).drop_last() =~= s.printings@.take(j as int));
            if s.printings[j].owned_count > 0 {
                owned_here = owned_here + 1;
            }
            j = j + 1;
        }
        assert(s.printings@.take(s.printings@.len() as int) =~= s.printings@);
        proof {
            lemma_owned_le(s.printings@);
        }
        mt = mt + s.printings.len() as i64;
        mo = mo + owned_here;
        i = i + 1;
    }
    assert(vis@.take(vis@.len() as int) =~= vis@);
    (bt, bo, mt, mo)
}

// ── filtering and paging ─────────────────────────────────────────────────

/// The search a query runs: trimmed and ASCII-lowercased.
pub open spec fn search_key(q: BinderQuery) -> Seq<char> {
    ascii_lower(trim(q.search@))
}

/// Whether a slot passes the query's name search and ownership tab.
pub open spec fn passes(q: BinderQuery, s: BinderSlot) -> bool {
    let k = search_key(q);
    &&& (k.len() == 0 || contains(ascii_lower(s.name@), k))
    &&& if q.filter@ == "have"@ {
        owns_one(s.printings@)
    } else if q.filter@ == "need"@ {
        !owns_one(s.printings@)
    } else if q.filter@ == "dupes"@ {
        has_dupe(s.printings@)
    } else {
        true
    }
}

pub open spec fn passes_q(q: BinderQuery) -> spec_fn(BinderSlot) -> bool {
    |s: BinderSlot| passes(q, s)
}

fn passes_exec(q: &BinderQuery, key: &Vec<char>, s: &BinderSlot) -> (r: bool)
    requires
        key@ == search_key(*q),
    ensures
        r == passes(*q, *s),
{
    if key.len() > 0 {
        let name = sort_name(s);
        if !contains_exec(&name, key) {
            return false;
        }
    }
    let f = q.filter.as_str();
    if str_eq(f, "have") {
        owns_one_exec(&s.printings)
    } else if str_eq(f, "need") {
        !owns_one_exec(&s.printings)
    } else if str_eq(f, "dupes") {
        has_dupe_exec(&s.printings)
    } else {
        true
    }
}

/// Keep the slots that pass the query's search and ownership tab, in order.
pub fn filter_slots(slots: Vec<BinderSlot>, q: &BinderQuery) -> (r: Vec<BinderSlot>)
    ensures
        r@ == slots@.filter(passes_q(*q)),
{
    let sv = chars_of(q.search.as_str());
    let t = trim_vec(&sv);
    let key = ascii_lower_vec(&t);
    let ghost orig = slots@;
    let ghost p = passes_q(*q);
    let n = slots.len();
    let mut rest = slots;
    let mut out: Vec<BinderSlot> = Vec::new();
    let mut i: usize = 0;
    while i < n
        invariant
            n == orig.len(),
            i <= n,
            key@ == search_key(*q),
            p == passes_q(*q),
            rest@ == orig.subrange(i as int, n as int),
            out@ == orig.take(i as int).filter(p),
        decreases n - i,
    {
        proof {
            lemma_take_push(orig, i as int);
            lemma_filter_push(orig.take(i as int), orig[i as int], p);
        }
        let s = rest.remove(0);
        assert(s == orig[i as int]);
        assert(rest@ =~= orig.subrange(i + 1, n as int));
        if passes_exec(q, &key, &s) {
            out.push(s);
        }
        i = i + 1;
    }
    assert(orig.take(n as int) =~= orig);
    out
}

pub open spec fn clamp(x: int, lo: int, hi: int) -> int {
    if x < lo {
        lo
    } else if x > hi {
        hi
    } else {
        x
    }
}

/// Slots per page: the query's layout, held to 1..=60.
pub open spec fn page_layout(q: BinderQuery) -> int {
    clamp(q.layout as int, 1, 60)
}

/// Pages needed for `count` slots, never fewer than one.
pub open spec fn page_count(count: int, layout: int) -> int {
    let t = (count + layout - 1) / layout;
    if t < 1 {
        1
    } else {
        t
    }
}

/// `page` shows the query's page of `filtered`.
pub open spec fn paged_ok(q: BinderQuery, filtered: Seq<BinderSlot>, page: BinderPage) -> bool {
    let layout = page_layout(q);
    let total = page_count(filtered.len() as int, layout);
    let p = clamp(q.page as int, 1, total);
    let start = (p - 1) * layout;
    let end = if start + layout < filtered.len() {
        start + layout
    } else {
        filtered.len() as int
    };
    &&& page.layout == layout
    &&& page.total_pages == total
    &&& page.page == p
    &&& page.slots@ == filtered.subrange(start, end)
}

proof fn lemma_start_in_range(count: int, layout: int, p: int)
    requires
        0 <= count,
        1 <= layout <= 60,
        1 <= p <= page_count(count, layout),
    ensures
        0 <= (p - 1) * layout <= count,
        (p - 1) * layout + layout <= count + 60,
{
    let t = (count + layout - 1) / layout;
    assert(t * layout <= count + layout - 1) by (nonlinear_arith)
        requires
            layout >= 1,
            count + layout - 1 >= 0,
            t == (count + layout - 1) / layout;
    if t >= 1 {
        assert((p - 1) * layout <= (t - 1) * layout) by (nonlinear_arith)
            requires
                1 <= p <= t,
                layout >= 1;
        assert((t - 1) * layout == t * layout - layout) by (nonlinear_arith);
    } else {
        assert(p == 1);
    }
    assert(0 <= (p - 1) * layout) by (nonlinear_arith)
        requires
            p >= 1,
            layout >= 1;
}

fn clamp_exec(x: i64, lo: i64, hi: i64) -> (r: i64)
    requires
        lo <= hi,
    ensures
        r == clamp(x as int, lo as int, hi as int),
{
    if x < lo {
        lo
    } else if x > hi {
        hi
    } else {
        x
    }
}

/// Cut the query's page out of the filtered slots:
/// `(layout, page, total_pages, slots)`.
pub fn paginate(filtered: Vec<BinderSlot>, q: &BinderQuery) -> (r: (i64, i64, i64, Vec<BinderSlot>))
    requires
        filtered@.len() <= 0x8000_0000,
    ensures
        r.0 == page_layout(*q),
        r.2 == page_count(filtered@.len() as int, r.0 as int),
        r.1 == clamp(q.page as int, 1, r.2 as int),
        ({
            let start = (r.1 - 1) * r.0;
            let end = if start + r.0 < filtered@.len() {
                start + r.0
            } else {
                filtered@.len() as int
            };
            r.3@ == filtered@.subrange(start, end)
        }),
{
    let layout = clamp_exec(q.layout, 1, 60);
    let count = filtered.len() as i64;
    let t = (count + layout - 1) / layout;
    let total = if t < 1 {
        1
    } else {
        t
    };
    let page = clamp_exec(q.page, 1, total);
    proof {
        lemma_start_in_range(count as int, layout as int, page as int);
    }
    let start = ((page - 1) * layout) as usize;
    let mut filtered = filtered;
    let ghost orig = filtered@;
    let mut tail = filtered.split_off(start);
    if tail.len() > layout as usize {
        let _dropped = tail.split_off(layout as usize);
    }
    (layout, page, total, tail)
}

// ── the page ─────────────────────────────────────────────────────────────

/// The printed total a set's sections are measured against: its own, or
/// no limit when the catalog does not know it.
pub open spec fn effective_total(set: BinderSetInfo) -> i64 {
    match set.printed_total {
        Some(t) => t,
        None => i64::MAX,
    }
}

/// `page` is the binder page for `set` whose shown cards are laid out as
/// `vis`, sorted as `sorted`.
pub open spec fn page_from(
    cards: Seq<CardRow>,
    prs: Seq<CardPrinting>,
    q: BinderQuery,
    page: BinderPage,
    vis: Seq<BinderSlot>,
    sorted: Seq<BinderSlot>,
) -> bool {
    let pt = effective_total(page.set);
    &&& visible_ok(cards, prs, pt, q, vis)
    &&& sorted_ok(spec_sort_mode(q.sort@, true), vis, sorted)
    &&& page.base_total == count_base(vis)
    &&& page.base_owned == count_base_owned(vis)
    &&& page.master_total == sum_printings(vis)
    &&& page.master_owned == sum_owned(vis)
    &&& paged_ok(q, sorted.filter(passes_q(q)), page)
}

/// The binder page for a set: the shown cards as slots, progress over all of
/// them, then the query's sort, search, ownership tab and page. `None` when
/// the set is unknown (`set` is `None`).
///
/// `cards` are the set's cards in `number_sortable` order and `printings`
/// every printing of them (catalog and user-created), each with its owned
/// count and market price, ordered by card then variant.
pub fn get_binder_page(
    set: Option<BinderSetInfo>,
    cards: Vec<CardRow>,
    printings: &Vec<CardPrinting>,
    q: &BinderQuery,
) -> (r: Option<BinderPage>)
    requires
        cards@.len() <= 0x8000_0000,
        printings@.len() <= 0x8000_0000,
    ensures
        set is None ==> r is None,
        set matches Some(s) ==> r matches Some(page) && page.set == s && exists|
            vis: Seq<BinderSlot>,
            sorted: Seq<BinderSlot>,
        | #[trigger] page_from(cards@, printings@, *q, page, vis, sorted),
{
    let set = match set {
        None => {
            return None;
        },
        Some(s) => s,
    };
    let pt = match set.printed_total {
        Some(t) => t,
        None => i64::MAX,
    };
    let ghost cards_v = cards@;
    let vis = build_visible(cards, printings, pt, q);
    proof {
        let kept = cards_v.filter(shown(*q, pt));
        kept.lemma_filter_len(shown(*q, pt));
        assert forall|i: int| 0 <= i < vis@.len() implies (#[trigger] vis@[i]).printings@.len() <= 0x8000_0000 by {
            let id = kept[i].card_id@;
            printings@.filter(|e: CardPrinting| e.card_id@ == id).lemma_filter_len(|e: CardPrinting| e.card_id@ == id);
        }
    }
    let (base_total, base_owned, master_total, master_owned) = progress(&vis);
    let ghost vis_v = vis@;
    let mode = sort_mode(&q.sort, true);
    let sorted = sort_slots(mode, vis);
    let ghost sorted_v = sorted@;
    let filtered = filter_slots(sorted, q);
    proof {
        sorted_v.lemma_filter_len(passes_q(*q));
        if mode != SortMode::Number && mode != SortMode::NumberDesc {
        } else if mode == SortMode::NumberDesc {
            assert(sorted_v.len() == vis_v.len());
        }
    }
    let (layout, page, total_pages, slots) = paginate(filtered, q);
    let out = BinderPage {
        set,
        layout,
        page,
        total_pages,
        base_total,
        base_owned,
        master_total,
        master_owned,
        slots,
    };
    assert(page_from(cards_v, printings@, *q, out, vis_v, sorted_v));
    Some(out)
}

// ── missing cards ────────────────────────────────────────────────────────

/// The set of cards a user is missing, ready for a TCGplayer Mass Entry
/// paste.
#[derive(Debug)]
pub struct MissingExport {
    pub set_code: String,
    pub set_name: String,
    /// The code used in the Mass Entry lines: TCGplayer's abbreviation when
    /// known, else the PTCGO code; `None` when the set has neither.
    pub ptcgo_code: Option<String>,
    pub cards: Vec<MissingCard>,
}

/// One card the user owns no copy of, with its Mass Entry line (`None`
/// when the set has no code to anchor it).
#[derive(Debug)]
pub struct MissingCard {
    pub card_id: String,
    pub number: String,
    pub name: String,
    pub section: String,
    pub mass_entry_line: Option<String>,
}

/// The set header the missing-card export reads.
#[derive(Debug)]
pub struct MissingSetInfo {
    pub name: String,
    pub ptcgo_code: Option<String>,
    pub printed_total: Option<i64>,
    /// TCGplayer's own abbreviation for the set, preferring its primary group.
    pub tcg_abbrev: Option<String>,
}

/// A card of the set as the export reads it: `owned` is whether any of its
/// printings (catalog or user-created) has a collection row, and
/// `tcg_number` the collector number of a linked TCGplayer product.
#[derive(Debug)]
pub struct ExportCardRow {
    pub card_id: String,
    pub number: String,
    pub number_sortable: i64,
    pub name: String,
    pub tcg_number: Option<String>,
    pub owned: bool,
}

pub open spec fn not_owned() -> spec_fn(ExportCardRow) -> bool {
    |c: ExportCardRow| !c.owned
}

/// The code Mass Entry lines use: TCGplayer's abbreviation, else PTCGO.
pub open spec fn entry_code(set: MissingSetInfo) -> Option<String> {
    match set.tcg_abbrev {
        Some(a) => Some(a),
        None => set.ptcgo_code,
    }
}

/// `m` is the export line for card `c` of a set with printed total `pt`
/// and Mass Entry code `code`.
pub open spec fn missing_ok(m: MissingCard, c: ExportCardRow, pt: i64, code: Option<String>) -> bool {
    &&& m.card_id == c.card_id
    &&& m.number == c.number
    &&& m.name@ == c.name@
    &&& m.section@ == spec_section(c.number_sortable, pt)
    &&& match code {
        Some(k) => m.mass_entry_line matches Some(l) && l@ == spec_mass_entry_line(
            c.name@,
            k@,
            match c.tcg_number {
                Some(n) => Some(n@),
                None => None,
            },
        ),
        None => m.mass_entry_line is None,
    }
}

/// Every card of the set the user owns no copy of, in catalog order, with
/// its Mass Entry line. `None` when the set is unknown.
pub fn missing_for_export(set_code: &str, set: Option<MissingSetInfo>, cards: Vec<ExportCardRow>) -> (r: Option<MissingExport>)
    ensures
        set is None ==> r is None,
        set matches Some(s) ==> r matches Some(e) && {
            let pt = match s.printed_total {
                Some(t) => t,
                None => i64::MAX,
            };
            let missing = cards@.filter(not_owned());
            &&& e.set_code@ == set_code@
            &&& e.set_name == s.name
            &&& e.ptcgo_code == entry_code(s)
            &&& e.cards@.len() == missing.len()
            &&& forall|i: int| 0 <= i < missing.len() ==> missing_ok(#[trigger] e.cards@[i], missing[i], pt, entry_code(s))
        },
{
    let s = match set {
        None => {
            return None;
        },
        Some(s) => s,
    };
    let pt = match s.printed_total {
        Some(t) => t,
        None => i64::MAX,
    };
    let code = match s.tcg_abbrev {
        Some(a) => Some(a),
        None => s.ptcgo_code,
    };
    let ghost orig = cards@;
    let ghost p = not_owned();
    let n = cards.len();
    let mut rest = cards;
    let mut out: Vec<MissingCard> = Vec::new();
    let mut i: usize = 0;
    while i < n
        invariant
            n == orig.len(),
            i <= n,
            p == not_owned(),
            rest@ == orig.subrange(i as int, n as int),
            out@.len() == orig.take(i as int).filter(p).len(),
            forall|k: int| 0 <= k < out@.len() ==> missing_ok(#[trigger] out@[k], orig.take(i as int).filter(p)[k], pt, code),
        decreases n - i,
    {
        proof {
            lemma_take_push(orig, i as int);
            lemma_filter_push(orig.take(i as int), orig[i as int], p);
        }
        let c = rest.remove(0);
        assert(c == orig[i as int]);
        assert(rest@ =~= orig.subrange(i + 1, n as int));
        if !c.owned {
            let section = section_of(c.number_sortable, pt);
            let line = match &code {
                Some(k) => Some(mass_entry_line(c.name.as_str(), k.as_str(), match &c.tcg_number {
                    Some(t) => Some(t.as_str()),
                    None => None,
                })),
                None => None,
            };
            out.push(MissingCard {
                card_id: c.card_id,
                number: c.number,
                name: c.name,
                section: owned(section),
                mass_entry_line: line,
            });
        }
        i = i + 1;
    }
    assert(orig.take(n as int) =~= orig);
    Some(MissingExport { set_code: owned(set_code), set_name: s.name, ptcgo_code: code, cards: out })
}


/// Slot lists that agree, slot by slot, on section and printings make the
/// same progress.
proof fn lemma_progress_congruent(a: Seq<BinderSlot>, b: Seq<BinderSlot>)
    requires
        a.len() == b.len(),
        forall|i: int| 0 <= i < a.len() ==> (#[trigger] a[i]).section@ == b[i].section@ && a[i].printings@ == b[i].printings@,
    ensures
        count_base(a) == count_base(b),
        count_base_owned(a) == count_base_owned(b),
        sum_printings(a) == sum_printings(b),
        sum_owned(a) == sum_owned(b),
    decreases a.len(),
{
    if a.len() > 0 {
        assert(a.last() == a[a.len() - 1] && b.last() == b[b.len() - 1]);
        lemma_progress_congruent(a.drop_last(), b.drop_last());
    }
}

/// A binder page's progress — base cards, base cards owned, printings and
/// printings owned — depends only on the set, its cards and printings, and
/// which sections the query includes: two queries that include the same
/// sections give the same four totals, whatever their sort, search,
/// ownership tab, page or layout.
pub proof fn lemma_progress_ignores_view(
    cards: Seq<CardRow>,
    prs: Seq<CardPrinting>,
    q1: BinderQuery,
    q2: BinderQuery,
    p1: BinderPage,
    p2: BinderPage,
)
    requires
        q1.include_secret == q2.include_secret,
        q1.include_subset == q2.include_subset,
        q1.include_promos == q2.include_promos,
        p1.set == p2.set,
        exists|vis: Seq<BinderSlot>, sorted: Seq<BinderSlot>| #[trigger] page_from(cards, prs, q1, p1, vis, sorted),
        exists|vis: Seq<BinderSlot>, sorted: Seq<BinderSlot>| #[trigger] page_from(cards, prs, q2, p2, vis, sorted),
    ensures
        p1.base_total == p2.base_total,
        p1.base_owned == p2.base_owned,
        p1.master_total == p2.master_total,
        p1.master_owned == p2.master_owned,
{
    let (vis1, s1) = choose|vis: Seq<BinderSlot>, sorted: Seq<BinderSlot>| #[trigger] page_from(cards, prs, q1, p1, vis, sorted);
    let (vis2, s2) = choose|vis: Seq<BinderSlot>, sorted: Seq<BinderSlot>| #[trigger] page_from(cards, prs, q2, p2, vis, sorted);
    let pt = effective_total(p1.set);
    assert(shown(q1, pt) =~= shown(q2, pt));
    let kept = cards.filter(shown(q1, pt));
    assert forall|i: int| 0 <= i < vis1.len() implies (#[trigger] vis1[i]).section@ == vis2[i].section@
        && vis1[i].printings@ == vis2[i].printings@ by {
        assert(slot_from(vis1[i], kept[i], prs, pt));
        assert(slot_from(vis2[i], kept[i], prs, pt));
    }
    lemma_progress_congruent(vis1, vis2);
}


/// One of the rarity names the binder knows (lowercase).
pub open spec fn documented_rarity(x: Seq<char>) -> bool {
    x == "common"@ || x == "uncommon"@ || x == "rare"@ || x == "promo"@ || x == "classic collection"@ || x == "rare holo"@ || x == "radiant rare"@ || x == "rare holo ex"@ || x == "rare holo gx"@ || x == "rare holo v"@ || x == "double rare"@ || x == "rare holo vmax"@ || x == "rare holo vstar"@ || x == "ultra rare"@ || x == "amazing rare"@ || x == "rare shiny"@ || x == "rare shiny gx"@ || x == "illustration rare"@ || x == "trainer gallery rare holo"@ || x == "rare secret"@ || x == "rare rainbow"@ || x == "special illustration rare"@ || x == "hyper rare"@ || x == "rare holo star"@
}

/// `r` is the rarity `name`, in any ASCII case.
pub open spec fn names_rarity(r: Option<String>, name: Seq<char>) -> bool {
    r matches Some(s) && ascii_lower(s@) == name
}

/// Sorting by rarity follows the documented tiers, common to chase: a card
/// with no rarity ranks below any with one; common < uncommon < rare <
/// promo = classic collection < rare holo < radiant rare < rare holo ex =
/// rare holo gx = rare holo v = double rare < rare holo vmax = rare holo
/// vstar = ultra rare < amazing rare = rare shiny = rare shiny gx <
/// illustration rare < trainer gallery rare holo < rare secret = rare
/// rainbow < special illustration rare < hyper rare = rare holo star; an
/// unknown rarity ranks with radiant rare; and the case of a name does not
/// matter.
pub proof fn lemma_rarity_rank_follows_the_tiers(a: Option<String>, b: Option<String>)
    ensures
        a is None && b is Some ==> spec_rarity_rank(a) < spec_rarity_rank(b),
        names_rarity(a, "common"@) && names_rarity(b, "uncommon"@) ==> spec_rarity_rank(a) < spec_rarity_rank(b),
        names_rarity(a, "uncommon"@) && names_rarity(b, "rare"@) ==> spec_rarity_rank(a) < spec_rarity_rank(b),
        names_rarity(a, "rare"@) && names_rarity(b, "promo"@) ==> spec_rarity_rank(a) < spec_rarity_rank(b),
        names_rarity(a, "promo"@) && names_rarity(b, "classic collection"@) ==> spec_rarity_rank(a) == spec_rarity_rank(b),
        names_rarity(a, "promo"@) && names_rarity(b, "rare holo"@) ==> spec_rarity_rank(a) < spec_rarity_rank(b),
        names_rarity(a, "rare holo"@) && names_rarity(b, "radiant rare"@) ==> spec_rarity_rank(a) < spec_rarity_rank(b),
        names_rarity(a, "radiant rare"@) && names_rarity(b, "rare holo ex"@) ==> spec_rarity_rank(a) < spec_rarity_rank(b),
        names_rarity(a, "rare holo ex"@) && names_rarity(b, "rare holo gx"@) ==> spec_rarity_rank(a) == spec_rarity_rank(b),
        names_rarity(a, "rare holo ex"@) && names_rarity(b, "rare holo v"@) ==> spec_rarity_rank(a) == spec_rarity_rank(b),
        names_rarity(a, "rare holo ex"@) && names_rarity(b, "double rare"@) ==> spec_rarity_rank(a) == spec_rarity_rank(b),
        names_rarity(a, "rare holo ex"@) && names_rarity(b, "rare holo vmax"@) ==> spec_rarity_rank(a) < spec_rarity_rank(b),
        names_rarity(a, "rare holo vmax"@) && names_rarity(b, "rare holo vstar"@) ==> spec_rarity_rank(a) == spec_rarity_rank(b),
        names_rarity(a, "rare holo vmax"@) && names_rarity(b, "ultra rare"@) ==> spec_rarity_rank(a) == spec_rarity_rank(b),
        names_rarity(a, "rare holo vmax"@) && names_rarity(b, "amazing rare"@) ==> spec_rarity_rank(a) < spec_rarity_rank(b),
        names_rarity(a, "amazing rare"@) && names_rarity(b, "rare shiny"@) ==> spec_rarity_rank(a) == spec_rarity_rank(b),
        names_rarity(a, "amazing rare"@) && names_rarity(b, "rare shiny gx"@) ==> spec_rarity_rank(a) == spec_rarity_rank(b),
        names_rarity(a, "amazing rare"@) && names_rarity(b, "illustration rare"@) ==> spec_rarity_rank(a) < spec_rarity_rank(b),
        names_rarity(a, "illustration rare"@) && names_rarity(b, "trainer gallery rare holo"@) ==> spec_rarity_rank(a) < spec_rarity_rank(b),
        names_rarity(a, "trainer gallery rare holo"@) && names_rarity(b, "rare secret"@) ==> spec_rarity_rank(a) < spec_rarity_rank(b),
        names_rarity(a, "rare secret"@) && names_rarity(b, "rare rainbow"@) ==> spec_rarity_rank(a) == spec_rarity_rank(b),
        names_rarity(a, "rare secret"@) && names_rarity(b, "special illustration rare"@) ==> spec_rarity_rank(a) < spec_rarity_rank(b),
        names_rarity(a, "special illustration rare"@) && names_rarity(b, "hyper rare"@) ==> spec_rarity_rank(a) < spec_rarity_rank(b),
        names_rarity(a, "hyper rare"@) && names_rarity(b, "rare holo star"@) ==> spec_rarity_rank(a) == spec_rarity_rank(b),
        (a matches Some(s) && !documented_rarity(ascii_lower(s@))) && names_rarity(b, "radiant rare"@)
            ==> spec_rarity_rank(a) == spec_rarity_rank(b),
        (a matches Some(s) && b matches Some(t) && ascii_lower(s@) == ascii_lower(t@)) ==> spec_rarity_rank(a)
            == spec_rarity_rank(b),
{
    reveal_strlit("common");
    reveal_strlit("uncommon");
    reveal_strlit("rare");
    reveal_strlit("promo");
    reveal_strlit("classic collection");
    reveal_strlit("rare holo");
    reveal_strlit("radiant rare");
    reveal_strlit("rare holo ex");
    reveal_strlit("rare holo gx");
    reveal_strlit("rare holo v");
    reveal_strlit("double rare");
    reveal_strlit("rare holo vmax");
    reveal_strlit("rare holo vstar");
    reveal_strlit("ultra rare");
    reveal_strlit("amazing rare");
    reveal_strlit("rare shiny");
    reveal_strlit("rare shiny gx");
    reveal_strlit("illustration rare");
    reveal_strlit("trainer gallery rare holo");
    reveal_strlit("rare secret");
    reveal_strlit("rare rainbow");
    reveal_strlit("special illustration rare");
    reveal_strlit("hyper rare");
    reveal_strlit("rare holo star");
    assert("common"@.len() == 6);
    assert("uncommon"@.len() == 8);
    assert("rare"@.len() == 4);
    assert("promo"@.len() == 5);
    assert("classic collection"@.len() == 18);
    assert("rare holo"@.len() == 9);
    assert("radiant rare"@.len() == 12);
    assert("rare holo ex"@.len() == 12);
    assert("rare holo gx"@.len() == 12);
    assert("rare holo v"@.len() == 11);
    assert("double rare"@.len() == 11);
    assert("rare holo vmax"@.len() == 14);
    assert("rare holo vstar"@.len() == 15);
    assert("ultra rare"@.len() == 10);
    assert("amazing rare"@.len() == 12);
    assert("rare shiny"@.len() == 10);
    assert("rare shiny gx"@.len() == 13);
    assert("illustration rare"@.len() == 17);
    assert("trainer gallery rare holo"@.len() == 25);
    assert("rare secret"@.len() == 11);
    assert("rare rainbow"@.len() == 12);
    assert("special illustration rare"@.len() == 25);
    assert("hyper rare"@.len() == 10);
    assert("rare holo star"@.len() == 14);
    assert(rank_of("common"@) == 1);
    assert(rank_of("uncommon"@) == 2);
    assert(rank_of("rare"@) == 3);
    assert(rank_of("promo"@) == 4);
    assert(rank_of("classic collection"@) == 4);
    assert(rank_of("rare holo"@) == 5);
    assert(rank_of("radiant rare"@) == 6);
    assert("rare holo ex"@[2] != "radiant rare"@[2]);
    assert(rank_of("rare holo ex"@) == 7);
    assert("rare holo gx"@[2] != "radiant rare"@[2]);
    assert("rare holo gx"@[10] != "rare holo ex"@[10]);
    assert(rank_of("rare holo gx"@) == 7);
    assert(rank_of("rare holo v"@) == 7);
    assert("double rare"@[0] != "rare holo v"@[0]);
    assert(rank_of("double rare"@) == 7);
    assert(rank_of("rare holo vmax"@) == 8);
    assert(rank_of("rare holo vstar"@) == 8);
    assert(rank_of("ultra rare"@) == 8);
    assert("amazing rare"@[0] != "radiant rare"@[0]);
    assert("amazing rare"@[0] != "rare holo ex"@[0]);
    assert("amazing rare"@[0] != "rare holo gx"@[0]);
    assert(rank_of("amazing rare"@) == 9);
    assert("rare shiny"@[0] != "ultra rare"@[0]);
    assert(rank_of("rare shiny"@) == 9);
    assert(rank_of("rare shiny gx"@) == 9);
    assert(rank_of("illustration rare"@) == 10);
    assert(rank_of("trainer gallery rare holo"@) == 11);
    assert("rare secret"@[5] != "rare holo v"@[5]);
    assert("rare secret"@[0] != "double rare"@[0]);
    assert(rank_of("rare secret"@) == 12);
    assert("rare rainbow"@[2] != "radiant rare"@[2]);
    assert("rare rainbow"@[5] != "rare holo ex"@[5]);
    assert("rare rainbow"@[5] != "rare holo gx"@[5]);
    assert("rare rainbow"@[0] != "amazing rare"@[0]);
    assert(rank_of("rare rainbow"@) == 12);
    assert("special illustration rare"@[0] != "trainer gallery rare holo"@[0]);
    assert(rank_of("special illustration rare"@) == 13);
    assert("hyper rare"@[0] != "ultra rare"@[0]);
    assert("hyper rare"@[0] != "rare shiny"@[0]);
    assert(rank_of("hyper rare"@) == 14);
    assert("rare holo star"@[10] != "rare holo vmax"@[10]);
    assert(rank_of("rare holo star"@) == 14);
}


/// What each sort name does to a page's slots: `rarity` lists rarer cards
/// first and `rarity_asc` commoner first; `name` and `name_desc` order by
/// lowercased name; `price` lists the dearest first and `price_asc` the
/// cheapest; `number` keeps collector-number order and `number_desc`
/// reverses it.
pub proof fn lemma_sort_names(sort: Seq<char>, input: Seq<BinderSlot>, out: Seq<BinderSlot>, k: int, l: int)
    requires
        sorted_ok(spec_sort_mode(sort, true), input, out),
        0 <= k < l < out.len(),
    ensures
        sort == "rarity"@ ==> spec_rarity_rank(out[l].rarity) <= spec_rarity_rank(out[k].rarity),
        sort == "rarity_asc"@ ==> spec_rarity_rank(out[k].rarity) <= spec_rarity_rank(out[l].rarity),
        sort == "name"@ ==> !lex_lt(ascii_lower(out[l].name@), ascii_lower(out[k].name@)),
        sort == "name_desc"@ ==> !lex_lt(ascii_lower(out[k].name@), ascii_lower(out[l].name@)),
        sort == "price"@ ==> max_price(out[l].printings@) <= max_price(out[k].printings@),
        sort == "price_asc"@ ==> max_price(out[k].printings@) <= max_price(out[l].printings@),
        sort == "number"@ ==> out == input,
        sort == "number_desc"@ ==> out == input.reverse(),
{
    reveal_strlit("number");
    reveal_strlit("number_desc");
    reveal_strlit("name");
    reveal_strlit("name_desc");
    reveal_strlit("price");
    reveal_strlit("price_asc");
    reveal_strlit("rarity");
    reveal_strlit("rarity_asc");
    assert("number"@.len() == 6 && "number_desc"@.len() == 11 && "name"@.len() == 4 && "name_desc"@.len() == 9);
    assert("price"@.len() == 5 && "price_asc"@.len() == 9 && "rarity"@.len() == 6 && "rarity_asc"@.len() == 10);
    assert("price_asc"@[0] != "name_desc"@[0]);
    assert("rarity"@[0] != "number"@[0]);
    let mode = spec_sort_mode(sort, true);
    if mode != SortMode::Number && mode != SortMode::NumberDesc {
        let perm = choose|perm: Seq<int>|
            {
                &&& perm.len() == input.len()
                &&& out.len() == input.len()
                &&& forall|k: int| 0 <= k < perm.len() ==> 0 <= #[trigger] perm[k] < input.len()
                &&& forall|k: int, l: int|
                    0 <= k < l < perm.len() ==> #[trigger] perm[k] != #[trigger] perm[l]
                &&& forall|k: int| 0 <= k < out.len() ==> #[trigger] out[k] == input[perm[k]]
                &&& forall|k: int, l: int|
                    0 <= k < l < out.len() ==> before(
                        mode,
                        #[trigger] out[k],
                        perm[k],
                        #[trigger] out[l],
                        perm[l],
                    )
            };
        assert(before(mode, out[k], perm[k], out[l], perm[l]));
        if sort == "name"@ && lex_lt(ascii_lower(out[l].name@), ascii_lower(out[k].name@)) {
            if lex_lt(ascii_lower(out[k].name@), ascii_lower(out[l].name@)) {
                lemma_lex_transitive(ascii_lower(out[k].name@), ascii_lower(out[l].name@), ascii_lower(out[k].name@));
            }
            lemma_lex_irreflexive(ascii_lower(out[k].name@));
        }
        if sort == "name_desc"@ && lex_lt(ascii_lower(out[k].name@), ascii_lower(out[l].name@)) {
            if lex_lt(ascii_lower(out[l].name@), ascii_lower(out[k].name@)) {
                lemma_lex_transitive(ascii_lower(out[l].name@), ascii_lower(out[k].name@), ascii_lower(out[l].name@));
            }
            lemma_lex_irreflexive(ascii_lower(out[l].name@));
        }
    }
}


/// A card's section: numbers up to the printed total are `base`; past it,
/// below 1000 `secret`, from 1000 below 9000 `subset`, from 9000 `promo`.
pub proof fn lemma_sections(n: i64, printed_total: i64)
    ensures
        n <= printed_total ==> spec_section(n, printed_total) == "base"@,
        printed_total < n && n < 1000 ==> spec_section(n, printed_total) == "secret"@,
        printed_total < n && 1000 <= n && n < 9000 ==> spec_section(n, printed_total) == "subset"@,
        printed_total < n && 9000 <= n ==> spec_section(n, printed_total) == "promo"@,
{
}

/// A page shows only the sections its query asks for: no secret, subset
/// or promo slot unless the query includes that section; base cards are
/// always shown.
pub proof fn lemma_page_keeps_asked_sections(
    cards: Seq<CardRow>,
    prs: Seq<CardPrinting>,
    pt: i64,
    q: BinderQuery,
    vis: Seq<BinderSlot>,
    i: int,
)
    requires
        visible_ok(cards, prs, pt, q, vis),
        0 <= i < vis.len(),
    ensures
        vis[i].section@ == "secret"@ ==> q.include_secret,
        vis[i].section@ == "subset"@ ==> q.include_subset,
        vis[i].section@ == "promo"@ ==> q.include_promos,
        forall|j: int|
            0 <= j < cards.len() && (#[trigger] cards[j]).number_sortable <= pt ==> cards.filter(shown(q, pt)).contains(
                cards[j],
            ),
{
    reveal_strlit("base");
    reveal_strlit("secret");
    reveal_strlit("subset");
    reveal_strlit("promo");
    assert("base"@.len() == 4 && "secret"@.len() == 6 && "subset"@.len() == 6 && "promo"@.len() == 5);
    assert("secret"@[1] != "subset"@[1]);
    let kept = cards.filter(shown(q, pt));
    assert(slot_from(vis[i], kept[i], prs, pt));
    kept.lemma_filter_len(shown(q, pt));
    cards.lemma_filter_pred(shown(q, pt), i);
    assert forall|j: int| 0 <= j < cards.len() && (#[trigger] cards[j]).number_sortable <= pt implies cards.filter(
        shown(q, pt),
    ).contains(cards[j]) by {
        assert(shown(q, pt)(cards[j]));
        cards.lemma_filter_contains(shown(q, pt), j);
    }
}

} // verus!
