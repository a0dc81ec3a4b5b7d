//! Logical-set containers for bundle products like the Trick or Trade
//! BOOster Bundles: groups whose products are reprints of cards from other
//! sets with a distinguishing treatment. A bundle projects into the same
//! binder page real sets use, kind-discriminated by `"bundle"`: one slot per
//! product, in collector-number order, each resolved to the card its
//! printing bridges to when there is one.

use vstd::prelude::*;
use crate::binder::{
    BinderPage, BinderQuery, BinderSetInfo, BinderSlot, ExternalSet, SlotPrinting, SortMode,
    sort_mode, sort_slots, sorted_ok, spec_sort_mode, filter_slots, passes_q, paginate, paged_ok,
    progress, count_base, count_base_owned, owns_one, owns_one_exec, is_base,
};
use crate::text::{owned, cat, int_to_string, decimal, chars_of, string_from, is_ascii_digit, str_eq};
use crate::seqs::{lemma_filter_push, lemma_take_push, count};

verus! {

/// One bundle of the registry.
#[derive(Debug, Clone, PartialEq, Eq)]
pub struct Bundle {
    pub slug: String,
    pub name: String,
    pub year: i64,
    pub tcgcsv_group_id: i64,
    pub series: String,
}

/// The series a registry entry gets when it names none.
pub fn default_series() -> (r: String)
    ensures
        r@ == "Trick or Trade Bundle"@,
{
    owned("Trick or Trade Bundle")
}

/// The release date a bundle is listed under: October 1st of its year
/// (the bundles ship in October).
pub fn bundle_release_date(year: i64) -> (r: String)
    ensures
        r@ == decimal(year as int) + "-10-01"@,
{
    let y = int_to_string(year);
    cat(y.as_str(), "-10-01")
}

// ── collector numbers ────────────────────────────────────────────────────

/// The value of a string of decimal digits.
pub open spec fn digits_value(s: Seq<char>) -> int
    decreases s.len(),
{
    if s.len() == 0 {
        0
    } else {
        digits_value(s.drop_last()) * 10 + ((s.last() as u32) as int - 48)
    }
}

/// Every character is a decimal digit.
pub open spec fn all_digits(s: Seq<char>) -> bool {
    forall|i: int| 0 <= i < s.len() ==> is_ascii_digit(#[trigger] s[i])
}

/// What `str::parse::<i64>` accepts: an optional `+` or `-`, then one or
/// more decimal digits, of a value that fits an `i64`.
pub open spec fn spec_parse_i64(s: Seq<char>) -> Option<int> {
    let neg = s.len() > 0 && s[0] == '-';
    let body = if s.len() > 0 && (s[0] == '-' || s[0] == '+') {
        s.drop_first()
    } else {
        s
    };
    let v = if neg {
        -digits_value(body)
    } else {
        digits_value(body)
    };
    if body.len() == 0 || !all_digits(body) || v < i64::MIN || v > i64::MAX {
        None
    } else {
        Some(v)
    }
}

proof fn lemma_digits_nonneg(s: Seq<char>)
    requires
        all_digits(s),
    ensures
        0 <= digits_value(s),
    decreases s.len(),
{
    if s.len() > 0 {
        assert(all_digits(s.drop_last()));
        lemma_digits_nonneg(s.drop_last());
        assert(is_ascii_digit(s.last()));
    }
}

proof fn lemma_digits_grow(s: Seq<char>, i: int, j: int)
    requires
        all_digits(s),
        0 <= i <= j <= s.len(),
    ensures
        digits_value(s.take(i)) <= digits_value(s.take(j)),
    decreases j - i,
{
    if i < j {
        lemma_digits_grow(s, i, j - 1);
        assert(s.take(j).drop_last() =~= s.take(j - 1));
        assert(is_ascii_digit(s[j - 1]));
        assert(all_digits(s.take(j - 1)));
        lemma_digits_nonneg(s.take(j - 1));
    }
}

fn is_digit_exec(c: char) -> (r: bool)
    ensures
        r == is_ascii_digit(c),
{
    let u = c as u32;
    48 <= u && u <= 57
}

/// Parse a decimal `i64` the way `str::parse::<i64>` does.
pub fn parse_i64(s: &str) -> (r: Option<i64>)
    ensures
        r matches Some(v) ==> spec_parse_i64(s@) == Some(v as int),
        r is None ==> spec_parse_i64(s@) is None,
{
    let chars = chars_of(s);
    let n = chars.len();
    let mut start: usize = 0;
    let mut neg = false;
    if n > 0 && (chars[0] == '-' || chars[0] == '+') {
        neg = chars[0] == '-';
        start = 1;
    }
    let ghost body = if n > 0 && (s@[0] == '-' || s@[0] == '+') {
        s@.drop_first()
    } else {
        s@
    };
    assert(body =~= s@.subrange(start as int, n as int));
    if start == n {
        return None;
    }
    let mut k: usize = start;
    while k < n
        invariant
            chars@ == s@,
            n == s@.len(),
            start <= k <= n,
            body == s@.subrange(start as int, n as int),
            body == (if s@.len() > 0 && (s@[0] == '-' || s@[0] == '+') { s@.drop_first() } else { s@ }),
            body.len() > 0,
            forall|t: int| 0 <= t < k - start ==> is_ascii_digit(#[trigger] body[t]),
        decreases n - k,
    {
        if !is_digit_exec(chars[k]) {
            proof {
                assert(body[k - start] == s@[k as int]);
                assert(!is_ascii_digit(body[k - start]));
                assert(!all_digits(body));
            }
            return None;
        }
        k = k + 1;
    }
    assert(all_digits(body));
    let mut acc: i128 = 0;
    let mut i: usize = start;
    while i < n
        invariant
            chars@ == s@,
            n == s@.len(),
            start <= i <= n,
            body == s@.subrange(start as int, n as int),
            body == (if s@.len() > 0 && (s@[0] == '-' || s@[0] == '+') { s@.drop_first() } else { s@ }),
            neg == (s@.len() > 0 && s@[0] == '-'),
            all_digits(body),
            acc == digits_value(body.take(i - start)),
            0 <= acc <= 9223372036854775808,
        decreases n - i,
    {
        assert(body.take(i - start + 1).drop_last() =~= body.take(i - start));
        assert(body[i - start] == s@[i as int]);
        let d: u32 = (chars[i] as u32) - 48;
        acc = acc * 10 + (d as i128);
        i = i + 1;
        if acc > 9223372036854775808 {
            proof {
                lemma_digits_grow(body, i - start, body.len() as int);
                assert(body.take(body.len() as int) =~= body);
            }
            return None;
        }
    }
    assert(body.take(n - start) =~= body);
    if neg {
        Some((-acc) as i64)
    } else {
        if acc > 9223372036854775807 {
            return None;
        }
        Some(acc as i64)
    }
}

/// The text before the first `/` of a collector number (`"130/197"` →
/// `"130"`), or all of it.
pub open spec fn before_slash(s: Seq<char>) -> Seq<char>
    decreases s.len(),
{
    if s.len() == 0 {
        s
    } else if s[0] == '/' {
        Seq::empty()
    } else {
        seq![s[0]] + before_slash(s.drop_first())
    }
}

/// `s` without its leading `0`s.
pub open spec fn strip_leading_zeros(s: Seq<char>) -> Seq<char>
    decreases s.len(),
{
    if s.len() > 0 && s[0] == '0' {
        strip_leading_zeros(s.drop_first())
    } else {
        s
    }
}

/// The sortable number of a bundle product's collector number: the part
/// before any `/`, without leading zeros, parsed as an integer; `0` when
/// that does not parse.
pub open spec fn spec_number_sortable(collector_number: Seq<char>) -> int {
    match spec_parse_i64(strip_leading_zeros(before_slash(collector_number))) {
        Some(v) => v,
        None => 0,
    }
}

/// The sortable number of a collector number such as `"130/197"`.
pub fn number_sortable_of(collector_number: &str) -> (r: i64)
    ensures
        r == spec_number_sortable(collector_number@),
{
    let chars = chars_of(collector_number);
    let n = chars.len();
    let mut end: usize = 0;
    while end < n && chars[end] != '/'
        invariant
            chars@ == collector_number@,
            n == chars@.len(),
            end <= n,
            forall|t: int| 0 <= t < end ==> chars@[t] != '/',
        decreases n - end,
    {
        end = end + 1;
    }
    proof {
        lemma_before_slash(collector_number@, end as int);
    }
    let mut lo: usize = 0;
    while lo < end && chars[lo] == '0'
        invariant
            chars@ == collector_number@,
            end <= n == chars@.len(),
            lo <= end,
            strip_leading_zeros(chars@.subrange(0, end as int)) == strip_leading_zeros(
                chars@.subrange(lo as int, end as int),
            ),
        decreases end - lo,
    {
        assert(chars@.subrange(lo as int, end as int).drop_first() =~= chars@.subrange(lo + 1, end as int));
        lo = lo + 1;
    }
    let digits = string_from(&chars, lo, end);
    match parse_i64(digits.as_str()) {
        Some(v) => v,
        None => 0,
    }
}

proof fn lemma_before_slash(s: Seq<char>, end: int)
    requires
        0 <= end <= s.len(),
        forall|t: int| 0 <= t < end ==> s[t] != '/',
        end == s.len() || s[end] == '/',
    ensures
        before_slash(s) == s.subrange(0, end),
    decreases s.len(),
{
    if s.len() == 0 {
    } else if s[0] == '/' {
        assert(end == 0);
    } else {
        lemma_before_slash(s.drop_first(), end - 1);
        assert(s.subrange(0, end) =~= seq![s[0]] + s.drop_first().subrange(0, end - 1));
    }
}

// ── slots ────────────────────────────────────────────────────────────────

/// One bundle product as it comes back from the catalog join: the product,
/// and the printing, card and home set it bridges to when there is one.
/// The market price is carried as the bit pattern of its `f64`.
#[derive(Debug, Clone, PartialEq, Eq)]
pub struct BundleProductRow {
    pub product_id: i64,
    pub product_name: String,
    pub product_image: Option<String>,
    pub number_sortable: i64,
    pub printing_id: Option<String>,
    pub variant: Option<String>,
    pub deprecated_at: Option<String>,
    pub market_price_bits: Option<u64>,
    pub card_id: Option<String>,
    pub card_name: Option<String>,
    pub card_number: Option<String>,
    pub card_rarity: Option<String>,
    pub card_image_large: Option<String>,
    pub home_set_code: Option<String>,
    pub home_set_name: Option<String>,
    pub owned_count: i64,
}

/// `slot` is the projection of `row`: the bridged card's identity, number,
/// name, rarity and artwork where there is one and the product's own
/// otherwise; a single printing when the product is bridged; the home set
/// when it is known; always in the base section.
pub open spec fn slot_of_product(row: BundleProductRow, slot: BinderSlot) -> bool {
    &&& slot.card_id@ == match row.card_id {
        Some(c) => c@,
        None => "bundle-product-"@ + decimal(row.product_id as int),
    }
    &&& slot.number@ == match row.card_number {
        Some(n) => n@,
        None => decimal(row.number_sortable as int),
    }
    &&& slot.name@ == match row.card_name {
        Some(n) => n@,
        None => row.product_name@,
    }
    &&& slot.rarity == row.card_rarity
    &&& slot.image_large == match row.card_image_large {
        Some(i) => Some(i),
        None => row.product_image,
    }
    &&& slot.section@ == "base"@
    &&& (if row.printing_id is Some && row.variant is Some {
        slot.printings@.len() == 1 && slot.printings@[0].printing_id == row.printing_id.unwrap()
            && slot.printings@[0].variant == row.variant.unwrap() && slot.printings@[0].deprecated
            == row.deprecated_at is Some && slot.printings@[0].owned_count == row.owned_count
            && slot.printings@[0].market_price_bits == row.market_price_bits
    } else {
        slot.printings@.len() == 0
    })
    &&& match (row.home_set_code, row.home_set_name) {
        (Some(c), Some(n)) => slot.external_set matches Some(e) && e.set_code == c && e.name == n,
        _ => slot.external_set is None,
    }
}

/// Project a bundle product row into a binder slot.
pub fn slot_from_product(row: BundleProductRow) -> (slot: BinderSlot)
    ensures
        slot_of_product(row, slot),
{
    let ghost r0 = row;
    let mut printings: Vec<SlotPrinting> = Vec::new();
    let deprecated = row.deprecated_at.is_some();
    match (row.printing_id, row.variant) {
        (Some(printing_id), Some(variant)) => {
            printings.push(
                SlotPrinting {
                    printing_id,
                    variant,
                    deprecated,
                    owned_count: row.owned_count,
                    market_price_bits: row.market_price_bits,
                },
            );
        },
        _ => {},
    }
    let external_set = match (row.home_set_code, row.home_set_name) {
        (Some(set_code), Some(name)) => Some(ExternalSet { set_code, name }),
        _ => None,
    };
    let card_id = match row.card_id {
        Some(c) => c,
        None => {
            let d = int_to_string(row.product_id);
            cat("bundle-product-", d.as_str())
        },
    };
    let number = match row.card_number {
        Some(n) => n,
        None => int_to_string(row.number_sortable),
    };
    let name = match row.card_name {
        Some(n) => n,
        None => row.product_name,
    };
    let image_large = match row.card_image_large {
        Some(i) => Some(i),
        None => row.product_image,
    };
    BinderSlot {
        card_id,
        number,
        name,
        rarity: row.card_rarity,
        image_large,
        section: owned("base"),
        printings,
        external_set,
    }
}

proof fn lemma_all_base(vis: Seq<BinderSlot>)
    requires
        forall|i: int| 0 <= i < vis.len() ==> is_base(#[trigger] vis[i]),
    ensures
        count_base(vis) == vis.len(),
    decreases vis.len(),
{
    if vis.len() > 0 {
        lemma_all_base(vis.drop_last());
    }
}

/// `page` is the binder page of `bundle` for the query, its slots projected
/// from `rows` as `vis` and sorted as `sorted`: every slot counts toward
/// progress, master equals base, and the query's sort (no rarity sort for
/// bundles), search, ownership tab and page apply.
pub open spec fn bundle_page_from(
    bundle: Bundle,
    rows: Seq<BundleProductRow>,
    q: BinderQuery,
    page: BinderPage,
    vis: Seq<BinderSlot>,
    sorted: Seq<BinderSlot>,
) -> bool {
    &&& vis.len() == rows.len()
    &&& forall|i: int| 0 <= i < rows.len() ==> slot_of_product(rows[i], #[trigger] vis[i])
    &&& page.set.set_code == bundle.slug
    &&& page.set.name == bundle.name
    &&& page.set.series == bundle.series
    &&& page.set.total == Some(rows.len() as i64)
    &&& page.set.printed_total is None
    &&& page.set.kind@ == "bundle"@
    &&& page.base_total == rows.len()
    &&& page.base_owned == count_base_owned(vis)
    &&& page.master_total == page.base_total
    &&& page.master_owned == page.base_owned
    &&& sorted_ok(spec_sort_mode(q.sort@, false), vis, sorted)
    &&& paged_ok(q, sorted.filter(passes_q(q)), page)
}

/// Assemble the binder page of a bundle from its product rows (in
/// collector-number order, then product id). `None` when the slug names no
/// registered bundle (`bundle` is `None`). The query's section switches do
/// not apply: a bundle has a single section.
pub fn get_bundle_binder(bundle: Option<Bundle>, rows: Vec<BundleProductRow>, q: &BinderQuery) -> (r: Option<BinderPage>)
    requires
        rows@.len() <= 0x8000_0000,
    ensures
        bundle is None ==> r is None,
        bundle matches Some(b) ==> r matches Some(page) && exists|vis: Seq<BinderSlot>, sorted: Seq<BinderSlot>|
            #[trigger] bundle_page_from(b, rows@, *q, page, vis, sorted),
{
    let bundle = match bundle {
        None => {
            return None;
        },
        Some(b) => b,
    };
    let ghost rows_v = rows@;
    let n = rows.len();
    let mut rest = rows;
    let mut vis: Vec<BinderSlot> = Vec::new();
    let mut i: usize = 0;
    while i < n
        invariant
            n == rows_v.len(),
            n <= 0x8000_0000,
            i <= n,
            rest@ == rows_v.subrange(i as int, n as int),
            vis@.len() == i,
            forall|k: int| 0 <= k < i ==> slot_of_product(rows_v[k], #[trigger] vis@[k]),
            forall|k: int| 0 <= k < i ==> (#[trigger] vis@[k]).printings@.len() <= 1,
        decreases n - i,
    {
        let row = rest.remove(0);
        assert(row == rows_v[i as int]);
        assert(rest@ =~= rows_v.subrange(i + 1, n as int));
        vis.push(slot_from_product(row));
        i = i + 1;
    }
    proof {
        assert forall|k: int| 0 <= k < vis@.len() implies is_base(#[trigger] vis@[k]) by {
            assert(slot_of_product(rows_v[k], vis@[k]));
        }
        lemma_all_base(vis@);
    }
    let (base_total, base_owned, _mt, _mo) = progress(&vis);
    let set = BinderSetInfo {
        set_code: bundle.slug,
        name: bundle.name,
        series: bundle.series,
        total: Some(base_total),
        printed_total: None,
        kind: owned("bundle"),
    };
    let ghost vis_v = vis@;
    let mode = sort_mode(&q.sort, false);
    let sorted = sort_slots(mode, vis);
    let ghost sorted_v = sorted@;
    let filtered = filter_slots(sorted, q);
    proof {
        sorted_v.lemma_filter_len(passes_q(*q));
        if mode == SortMode::NumberDesc {
            assert(sorted_v.len() == vis_v.len());
        }
    }
    let (layout, page, total_pages, slots) = paginate(filtered, q);
    let out = BinderPage {
        set,
        layout,
        page,
        total_pages,
        base_total,
        base_owned,
        master_total: base_total,
        master_owned: base_owned,
        slots,
    };
    assert(bundle_page_from(bundle, rows_v, *q, out, vis_v, sorted_v));
    Some(out)
}

// ── analytics ────────────────────────────────────────────────────────────

/// The whole-number part of a bundle's analytics: a bundle has no
/// base/secret split, so base equals master.
#[derive(Debug, Clone, Copy, PartialEq, Eq, Structural)]
pub struct BundleTotals {
    pub total_cards: i64,
    pub owned_cards: i64,
    pub total_printings: i64,
    pub owned_printings: i64,
    pub owned_copies: i64,
}

pub open spec fn row_owned() -> spec_fn(BundleProductRow) -> bool {
    |r: BundleProductRow| r.owned_count > 0
}

pub open spec fn row_bridged() -> spec_fn(BundleProductRow) -> bool {
    |r: BundleProductRow| r.printing_id is Some
}

/// Copies owned across the rows.
pub open spec fn copies_of(rows: Seq<BundleProductRow>) -> int
    decreases rows.len(),
{
    if rows.len() == 0 {
        0
    } else {
        copies_of(rows.drop_last()) + rows.last().owned_count
    }
}

/// Count a bundle's slots, owned slots, bridged printings, owned printings
/// (each slot has at most one, so these are the owned slots) and owned
/// copies.
pub fn bundle_totals(rows: &Vec<BundleProductRow>) -> (t: BundleTotals)
    requires
        rows@.len() <= 0x8000_0000,
        forall|i: int| 0 <= i < rows@.len() ==> 0 <= (#[trigger] rows@[i]).owned_count <= 0x8000_0000,
    ensures
        t.total_cards == rows@.len(),
        t.owned_cards == rows@.filter(row_owned()).len(),
        t.total_printings == rows@.filter(row_bridged()).len(),
        t.owned_printings == t.owned_cards,
        t.owned_copies == copies_of(rows@),
{
    let mut owned_cards: i64 = 0;
    let mut bridged: i64 = 0;
    let mut copies: i64 = 0;
    let mut i: usize = 0;
    while i < rows.len()
        invariant
            i <= rows@.len(),
            rows@.len() <= 0x8000_0000,
            forall|k: int| 0 <= k < rows@.len() ==> 0 <= (#[trigger] rows@[k]).owned_count <= 0x8000_0000,
            owned_cards == rows@.take(i as int).filter(row_owned()).len(),
            bridged == rows@.take(i as int).filter(row_bridged()).len(),
            copies == copies_of(rows@.take(i as int)),
            0 <= owned_cards <= i,
            0 <= bridged <= i,
            0 <= copies <= i * 0x8000_0000,
        decreases rows.len() - i,
    {
        proof {
            lemma_take_push(rows@, i as int);
            lemma_filter_push(rows@.take(i as int), rows@[i as int], row_owned());
            lemma_filter_push(rows@.take(i as int), rows@[i as int], row_bridged());
            assert(rows@.take(i + 1).drop_last() =~= rows@.take(i as int));
        }
        if rows[i].owned_count > 0 {
            owned_cards = owned_cards + 1;
        }
        if rows[i].printing_id.is_some() {
            bridged = bridged + 1;
        }
        copies = copies + rows[i].owned_count;
        i = i + 1;
    }
    assert(rows@.take(rows@.len() as int) =~= rows@);
    BundleTotals {
        total_cards: rows.len() as i64,
        owned_cards,
        total_printings: bridged,
        owned_printings: owned_cards,
        owned_copies: copies,
    }
}

/// A slot's copy count on the stats page: its number (the card's, or the
/// sortable number in decimal), the sortable number, and the copies owned.
#[derive(Debug, Clone, PartialEq, Eq)]
pub struct SlotCopies {
    pub number: String,
    pub number_sortable: i64,
    pub copies: i64,
}

/// Per-slot copy counts, one per product row in order.
pub fn copy_counts(rows: &Vec<BundleProductRow>) -> (r: Vec<SlotCopies>)
    ensures
        r@.len() == rows@.len(),
        forall|i: int| 0 <= i < rows@.len() ==> {
            let c = #[trigger] r@[i];
            let row = rows@[i];
            &&& c.number@ == match row.card_number {
                Some(n) => n@,
                None => decimal(row.number_sortable as int),
            }
            &&& c.number_sortable == row.number_sortable
            &&& c.copies == row.owned_count
        },
{
    let mut out: Vec<SlotCopies> = Vec::new();
    let mut i: usize = 0;
    while i < rows.len()
        invariant
            i <= rows@.len(),
            out@.len() == i,
            forall|k: int| 0 <= k < i ==> {
                let c = #[trigger] out@[k];
                let row = rows@[k];
                &&& c.number@ == match row.card_number {
                    Some(n) => n@,
                    None => decimal(row.number_sortable as int),
                }
                &&& c.number_sortable == row.number_sortable
                &&& c.copies == row.owned_count
            },
        decreases rows.len() - i,
    {
        let number = match &rows[i].card_number {
            Some(n) => n.clone(),
            None => int_to_string(rows[i].number_sortable),
        };
        out.push(SlotCopies { number, number_sortable: rows[i].number_sortable, copies: rows[i].owned_count });
        i = i + 1;
    }
    out
}


/// How many of a bundle's slots have cards of one rarity, and how many of
/// those are owned.
#[derive(Debug, Clone, PartialEq, Eq)]
pub struct RarityCount {
    pub rarity: String,
    pub total: i64,
    pub owned: i64,
}

/// A row whose card has rarity `r`.
pub open spec fn has_rarity(r: Seq<char>) -> spec_fn(BundleProductRow) -> bool {
    |x: BundleProductRow| x.card_rarity matches Some(s) && s@ == r
}

/// An owned row whose card has rarity `r`.
pub open spec fn owned_of_rarity(r: Seq<char>) -> spec_fn(BundleProductRow) -> bool {
    |x: BundleProductRow| x.card_rarity matches Some(s) && s@ == r && x.owned_count > 0
}

/// `out` is the rarity split of `rows`: each rarity a row's card has, once,
/// with the rows of that rarity and the owned ones among them; rows whose
/// card has no rarity are in no entry.
pub open spec fn tally_ok(rows: Seq<BundleProductRow>, out: Seq<RarityCount>) -> bool {
    &&& forall|a: int, b: int| 0 <= a < b < out.len() ==> (#[trigger] out[a]).rarity@ != (#[trigger] out[b]).rarity@
    &&& forall|k: int|
        0 <= k < out.len() ==> (#[trigger] out[k]).total == count(rows, has_rarity(out[k].rarity@)) && out[k].owned
            == count(rows, owned_of_rarity(out[k].rarity@)) && out[k].total >= 1
    &&& forall|j: int|
        0 <= j < rows.len() && (#[trigger] rows[j]).card_rarity is Some ==> exists|k: int|
            0 <= k < out.len() && (#[trigger] out[k]).rarity@ == rows[j].card_rarity->0@
}

proof fn lemma_count_none<T>(s: Seq<T>, p: spec_fn(T) -> bool)
    requires
        forall|j: int| 0 <= j < s.len() ==> !p(#[trigger] s[j]),
    ensures
        count(s, p) == 0,
    decreases s.len(),
{
    reveal(Seq::filter);
    if s.len() > 0 {
        assert forall|j: int| 0 <= j < s.drop_last().len() implies !p(#[trigger] s.drop_last()[j]) by {
            assert(s.drop_last()[j] == s[j]);
        }
        lemma_count_none(s.drop_last(), p);
        assert(!p(s[s.len() - 1]));
    }
}

fn find_rarity(out: &Vec<RarityCount>, r: &str) -> (p: Option<usize>)
    ensures
        p matches Some(k) ==> k < out@.len() && out@[k as int].rarity@ == r@,
        p is None ==> forall|k: int| 0 <= k < out@.len() ==> (#[trigger] out@[k]).rarity@ != r@,
{
    let mut k: usize = 0;
    while k < out.len()
        invariant
            k <= out@.len(),
            forall|t: int| 0 <= t < k ==> (#[trigger] out@[t]).rarity@ != r@,
        decreases out.len() - k,
    {
        if str_eq(out[k].rarity.as_str(), r) {
            return Some(k);
        }
        k = k + 1;
    }
    None
}

/// The rarity split of a bundle's slots: for each rarity a slot's card
/// has, once, how many slots have it and how many of those are owned.
/// Slots without a bridged card's rarity count nowhere.
pub fn rarity_tally(rows: &Vec<BundleProductRow>) -> (r: Vec<RarityCount>)
    requires
        rows@.len() <= 0x8000_0000,
    ensures
        tally_ok(rows@, r@),
{
    let mut out: Vec<RarityCount> = Vec::new();
    let mut i: usize = 0;
    while i < rows.len()
        invariant
            i <= rows@.len(),
            rows@.len() <= 0x8000_0000,
            tally_ok(rows@.take(i as int), out@),
            forall|k: int| 0 <= k < out@.len() ==> (#[trigger] out@[k]).total <= i && 0 <= out@[k].owned,
        decreases rows.len() - i,
    {
        let ghost before = out@;
        let ghost seen = rows@.take(i as int);
        let ghost row = rows@[i as int];
        proof {
            lemma_take_push(rows@, i as int);
        }
        match &rows[i].card_rarity {
            None => {
                proof {
                    assert forall|k: int| 0 <= k < out@.len() implies (#[trigger] out@[k]).total == count(
                        seen.push(row),
                        has_rarity(out@[k].rarity@),
                    ) && out@[k].owned == count(seen.push(row), owned_of_rarity(out@[k].rarity@)) by {
                        lemma_filter_push(seen, row, has_rarity(out@[k].rarity@));
                        lemma_filter_push(seen, row, owned_of_rarity(out@[k].rarity@));
                    }
                    assert forall|j: int|
                        0 <= j < seen.push(row).len() && (#[trigger] seen.push(row)[j]).card_rarity is Some implies exists|k: int|
                        0 <= k < out@.len() && (#[trigger] out@[k]).rarity@ == seen.push(row)[j].card_rarity->0@ by {
                        assert(seen.push(row)[j] == seen[j]);
                    }
                }
            },
            Some(rarity) => {
                let owned_one: i64 = if rows[i].owned_count > 0 {
                    1
                } else {
                    0
                };
                match find_rarity(&out, rarity.as_str()) {
                    Some(p) => {
                        let e = RarityCount {
                            rarity: out[p].rarity.clone(),
                            total: out[p].total + 1,
                            owned: out[p].owned + owned_one,
                        };
                        out.set(p, e);
                        proof {
                            assert forall|k: int| 0 <= k < out@.len() implies (#[trigger] out@[k]).total == count(
                                seen.push(row),
                                has_rarity(out@[k].rarity@),
                            ) && out@[k].owned == count(seen.push(row), owned_of_rarity(out@[k].rarity@))
                                && out@[k].total >= 1 by {
                                lemma_filter_push(seen, row, has_rarity(out@[k].rarity@));
                                lemma_filter_push(seen, row, owned_of_rarity(out@[k].rarity@));
                                if k != p {
                                    assert(out@[k] == before[k]);
                                    if k < p {
                                        assert(before[k].rarity@ != before[p as int].rarity@);
                                    } else {
                                        assert(before[p as int].rarity@ != before[k].rarity@);
                                    }
                                }
                            }
                            assert forall|a: int, b: int| 0 <= a < b < out@.len() implies (#[trigger] out@[a]).rarity@
                                != (#[trigger] out@[b]).rarity@ by {
                                assert(out@[a].rarity@ == before[a].rarity@);
                                assert(out@[b].rarity@ == before[b].rarity@);
                                assert(before[a].rarity@ != before[b].rarity@);
                            }
                            assert forall|j: int|
                                0 <= j < seen.push(row).len() && (#[trigger] seen.push(row)[j]).card_rarity is Some implies exists|k: int|
                                0 <= k < out@.len() && (#[trigger] out@[k]).rarity@ == seen.push(row)[j].card_rarity->0@ by {
                                if j < seen.len() {
                                    assert(seen.push(row)[j] == seen[j]);
                                    let k = choose|k: int| 0 <= k < before.len() && (#[trigger] before[k]).rarity@ == seen[j].card_rarity->0@;
                                    assert(out@[k].rarity@ == before[k].rarity@);
                                } else {
                                    assert(out@[p as int].rarity@ == before[p as int].rarity@);
                                }
                            }
                        }
                    },
                    None => {
                        proof {
                            assert forall|j: int| 0 <= j < seen.len() implies !has_rarity(rarity@)(#[trigger] seen[j]) by {
                                if has_rarity(rarity@)(seen[j]) {
                                    let k = choose|k: int| 0 <= k < before.len() && (#[trigger] before[k]).rarity@ == seen[j].card_rarity->0@;
                                    assert(before[k].rarity@ != rarity@);
                                }
                            }
                            lemma_count_none(seen, has_rarity(rarity@));
                            assert forall|j: int| 0 <= j < seen.len() implies !owned_of_rarity(rarity@)(#[trigger] seen[j]) by {
                                assert(!has_rarity(rarity@)(seen[j]));
                            }
                            lemma_count_none(seen, owned_of_rarity(rarity@));
                            lemma_filter_push(seen, row, has_rarity(rarity@));
                            lemma_filter_push(seen, row, owned_of_rarity(rarity@));
                        }
                        out.push(RarityCount { rarity: rarity.clone(), total: 1, owned: owned_one });
                        proof {
                            assert forall|k: int| 0 <= k < out@.len() implies (#[trigger] out@[k]).total == count(
                                seen.push(row),
                                has_rarity(out@[k].rarity@),
                            ) && out@[k].owned == count(seen.push(row), owned_of_rarity(out@[k].rarity@))
                                && out@[k].total >= 1 by {
                                if k < before.len() {
                                    assert(out@[k] == before[k]);
                                    lemma_filter_push(seen, row, has_rarity(out@[k].rarity@));
                                    lemma_filter_push(seen, row, owned_of_rarity(out@[k].rarity@));
                                    assert(before[k].rarity@ != rarity@);
                                }
                            }
                            assert forall|a: int, b: int| 0 <= a < b < out@.len() implies (#[trigger] out@[a]).rarity@
                                != (#[trigger] out@[b]).rarity@ by {
                                assert(out@[a] == before[a]);
                                if b < before.len() {
                                    assert(out@[b] == before[b]);
                                }
                            }
                            assert forall|j: int|
                                0 <= j < seen.push(row).len() && (#[trigger] seen.push(row)[j]).card_rarity is Some implies exists|k: int|
                                0 <= k < out@.len() && (#[trigger] out@[k]).rarity@ == seen.push(row)[j].card_rarity->0@ by {
                                if j < seen.len() {
                                    assert(seen.push(row)[j] == seen[j]);
                                    let k = choose|k: int| 0 <= k < before.len() && (#[trigger] before[k]).rarity@ == seen[j].card_rarity->0@;
                                    assert(out@[k] == before[k]);
                                } else {
                                    assert(out@[before.len() as int].rarity@ == rarity@);
                                }
                            }
                        }
                    },
                }
            },
        }
        i = i + 1;
    }
    assert(rows@.take(rows@.len() as int) =~= rows@);
    out
}

} // verus!
