//! The materialized latest prices: one row per product, sub-type, source
//! and price type, at its newest observation. Rebuilding is a full replace
//! from the price history, so rebuilding twice is rebuilding once.
//! Observation times are ISO-8601 text, newest by text order; prices are
//! carried as the bit patterns of their `f64`s.

use vstd::prelude::*;
use crate::order::{lex_compare, lex_lt, lemma_lex_irreflexive, lemma_lex_transitive};
use crate::seqs::{lemma_filter_push, lemma_take_push};
use crate::text::{chars_of, str_eq};

verus! {

/// One observed price.
#[derive(Debug, Clone, PartialEq, Eq)]
pub struct PriceObservation {
    pub tcgplayer_product_id: i64,
    pub sub_type_name: String,
    pub source: String,
    pub price_type: String,
    pub price_bits: u64,
    pub observed_at: String,
}

/// Two observations of the same series.
pub open spec fn same_key(a: PriceObservation, b: PriceObservation) -> bool {
    &&& a.tcgplayer_product_id == b.tcgplayer_product_id
    &&& a.sub_type_name@ == b.sub_type_name@
    &&& a.source@ == b.source@
    &&& a.price_type@ == b.price_type@
}

/// No observation in `prices` of `p`'s series is newer than `p`.
pub open spec fn is_latest(prices: Seq<PriceObservation>, p: PriceObservation) -> bool {
    forall|j: int| 0 <= j < prices.len() && same_key(#[trigger] prices[j], p) ==> !lex_lt(
        p.observed_at@,
        prices[j].observed_at@,
    )
}

pub open spec fn latest_in(prices: Seq<PriceObservation>) -> spec_fn(PriceObservation) -> bool {
    |p: PriceObservation| is_latest(prices, p)
}

fn copy_observation(p: &PriceObservation) -> (c: PriceObservation)
    ensures
        c == *p,
{
    PriceObservation {
        tcgplayer_product_id: p.tcgplayer_product_id,
        sub_type_name: p.sub_type_name.clone(),
        source: p.source.clone(),
        price_type: p.price_type.clone(),
        price_bits: p.price_bits,
        observed_at: p.observed_at.clone(),
    }
}

fn same_key_exec(a: &PriceObservation, b: &PriceObservation) -> (r: bool)
    ensures
        r == same_key(*a, *b),
{
    a.tcgplayer_product_id == b.tcgplayer_product_id && str_eq(a.sub_type_name.as_str(), b.sub_type_name.as_str())
        && str_eq(a.source.as_str(), b.source.as_str()) && str_eq(a.price_type.as_str(), b.price_type.as_str())
}

fn latest_exec(prices: &Vec<PriceObservation>, p: &PriceObservation) -> (r: bool)
    ensures
        r == is_latest(prices@, *p),
{
    let key = chars_of(p.observed_at.as_str());
    let mut j: usize = 0;
    while j < prices.len()
        invariant
            j <= prices@.len(),
            key@ == p.observed_at@,
            forall|k: int| 0 <= k < j && same_key(#[trigger] prices@[k], *p) ==> !lex_lt(
                p.observed_at@,
                prices@[k].observed_at@,
            ),
        decreases prices.len() - j,
    {
        if same_key_exec(&prices[j], p) {
            let other = chars_of(prices[j].observed_at.as_str());
            if lex_compare(&key, &other) < 0 {
                return false;
            }
        }
        j = j + 1;
    }
    true
}

/// Rebuild the latest prices from the price history `prices`: every
/// observation that no newer one of its series follows, in history order.
/// Their number is what the rebuild reports.
pub fn refresh_latest_prices(prices: &Vec<PriceObservation>) -> (latest: Vec<PriceObservation>)
    ensures
        latest@ == prices@.filter(latest_in(prices@)),
{
    let mut out: Vec<PriceObservation> = Vec::new();
    let mut i: usize = 0;
    while i < prices.len()
        invariant
            i <= prices@.len(),
            out@ == prices@.take(i as int).filter(latest_in(prices@)),
        decreases prices.len() - i,
    {
        proof {
            lemma_take_push(prices@, i as int);
            lemma_filter_push(prices@.take(i as int), prices@[i as int], latest_in(prices@));
        }
        if latest_exec(prices, &prices[i]) {
            out.push(copy_observation(&prices[i]));
        }
        i = i + 1;
    }
    assert(prices@.take(prices@.len() as int) =~= prices@);
    out
}

proof fn lemma_filter_keeps_all(s: Seq<PriceObservation>, p: spec_fn(PriceObservation) -> bool)
    requires
        forall|i: int| 0 <= i < s.len() ==> p(#[trigger] s[i]),
    ensures
        s.filter(p) == s,
    decreases s.len(),
{
    if s.len() == 0 {
        reveal(Seq::filter);
        assert(s.filter(p) =~= s);
    } else {
        let sl = s.drop_last();
        assert forall|i: int| 0 <= i < sl.len() implies p(#[trigger] sl[i]) by {
            assert(sl[i] == s[i]);
        }
        lemma_filter_keeps_all(sl, p);
        assert(s =~= sl.push(s.last()));
        lemma_filter_push(sl, s.last(), p);
    }
}

/// The latest prices are their own latest: rebuilding from a table that
/// already holds only the newest observation of each series keeps every
/// row of it.
pub proof fn lemma_latest_is_stable(prices: Seq<PriceObservation>)
    ensures
        prices.filter(latest_in(prices)).filter(latest_in(prices.filter(latest_in(prices))))
            == prices.filter(latest_in(prices)),
{
    let l = prices.filter(latest_in(prices));
    assert forall|i: int| 0 <= i < l.len() implies is_latest(prices, #[trigger] l[i]) by {
        prices.lemma_filter_pred(latest_in(prices), i);
    }
    assert forall|i: int| 0 <= i < l.len() implies #[trigger] latest_in(l)(l[i]) by {
        assert(is_latest(prices, l[i]));
        assert forall|j: int| 0 <= j < l.len() && same_key(#[trigger] l[j], l[i]) implies !lex_lt(
            l[i].observed_at@,
            l[j].observed_at@,
        ) by {
            assert(l.contains(l[j]));
            prices.lemma_filter_contains_rev(latest_in(prices), l[j]);
            let k = choose|k: int| 0 <= k < prices.len() && prices[k] == l[j];
            assert(same_key(prices[k], l[i]));
        }
    }
    lemma_filter_keeps_all(l, latest_in(l));
}


/// `a` and `b` observe the same series: same product, sub-type, source and
/// price type.
pub open spec fn one_series(a: PriceObservation, b: PriceObservation) -> bool {
    a.tcgplayer_product_id == b.tcgplayer_product_id && a.sub_type_name@ == b.sub_type_name@ && a.source@
        == b.source@ && a.price_type@ == b.price_type@
}

/// Among the first `n` observations, one of `p`'s series that none of that
/// series is newer than.
proof fn lemma_newest_in_prefix(prices: Seq<PriceObservation>, p: PriceObservation, n: int) -> (m: int)
    requires
        0 <= n <= prices.len(),
        exists|i: int| 0 <= i < n && one_series(#[trigger] prices[i], p),
    ensures
        0 <= m < n,
        one_series(prices[m], p),
        forall|j: int| 0 <= j < n && one_series(#[trigger] prices[j], p) ==> !lex_lt(
            prices[m].observed_at@,
            prices[j].observed_at@,
        ),
    decreases n,
{
    let last = n - 1;
    if exists|i: int| 0 <= i < last && one_series(#[trigger] prices[i], p) {
        let m0 = lemma_newest_in_prefix(prices, p, last);
        if one_series(prices[last], p) && lex_lt(prices[m0].observed_at@, prices[last].observed_at@) {
            assert forall|j: int| 0 <= j < n && one_series(#[trigger] prices[j], p) implies !lex_lt(
                prices[last].observed_at@,
                prices[j].observed_at@,
            ) by {
                if j == last {
                    lemma_lex_irreflexive(prices[last].observed_at@);
                } else if lex_lt(prices[last].observed_at@, prices[j].observed_at@) {
                    lemma_lex_transitive(prices[m0].observed_at@, prices[last].observed_at@, prices[j].observed_at@);
                }
            }
            last
        } else {
            m0
        }
    } else {
        assert forall|j: int| 0 <= j < n && one_series(#[trigger] prices[j], p) implies !lex_lt(
            prices[last].observed_at@,
            prices[j].observed_at@,
        ) by {
            lemma_lex_irreflexive(prices[last].observed_at@);
        }
        last
    }
}

/// Every series of the history keeps a row: for each observation, the
/// rebuilt table holds one with the same product, sub-type, source and
/// price type, observed no earlier.
pub proof fn lemma_every_series_keeps_its_newest(prices: Seq<PriceObservation>, i: int)
    requires
        0 <= i < prices.len(),
    ensures
        exists|q: PriceObservation|
            #[trigger] prices.filter(latest_in(prices)).contains(q) && q.tcgplayer_product_id
                == prices[i].tcgplayer_product_id && q.sub_type_name@ == prices[i].sub_type_name@ && q.source@
                == prices[i].source@ && q.price_type@ == prices[i].price_type@ && !lex_lt(
                q.observed_at@,
                prices[i].observed_at@,
            ),
{
    let p = prices[i];
    assert(one_series(prices[i], p));
    let m = lemma_newest_in_prefix(prices, p, prices.len() as int);
    let q = prices[m];
    assert(latest_in(prices)(q)) by {
        assert forall|j: int| 0 <= j < prices.len() && same_key(#[trigger] prices[j], q) implies !lex_lt(
            q.observed_at@,
            prices[j].observed_at@,
        ) by {
            assert(one_series(prices[j], p));
        }
    }
    prices.lemma_filter_contains(latest_in(prices), m);
}

/// Every row of the rebuilt table comes from the history and is the newest
/// of its own series: no observation with the same product, sub-type,
/// source and price type is newer.
pub proof fn lemma_each_row_is_newest_of_its_series(prices: Seq<PriceObservation>, q: PriceObservation)
    requires
        prices.filter(latest_in(prices)).contains(q),
    ensures
        prices.contains(q),
        forall|j: int|
            0 <= j < prices.len() && (#[trigger] prices[j]).tcgplayer_product_id == q.tcgplayer_product_id
                && prices[j].sub_type_name@ == q.sub_type_name@ && prices[j].source@ == q.source@
                && prices[j].price_type@ == q.price_type@ ==> !lex_lt(q.observed_at@, prices[j].observed_at@),
{
    prices.lemma_filter_contains_rev(latest_in(prices), q);
    let k = choose|k: int| 0 <= k < prices.filter(latest_in(prices)).len() && prices.filter(latest_in(prices))[k] == q;
    prices.lemma_filter_pred(latest_in(prices), k);
    assert(is_latest(prices, q));
    assert forall|j: int|
        0 <= j < prices.len() && (#[trigger] prices[j]).tcgplayer_product_id == q.tcgplayer_product_id
            && prices[j].sub_type_name@ == q.sub_type_name@ && prices[j].source@ == q.source@
            && prices[j].price_type@ == q.price_type@ implies !lex_lt(q.observed_at@, prices[j].observed_at@) by {
        assert(same_key(prices[j], q));
    }
}

} // verus!
