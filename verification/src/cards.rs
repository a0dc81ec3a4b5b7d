//! Catalog cards and their price history. A card's price snapshots arrive
//! as rows ordered by printing, price type and date; they are grouped into
//! one series per run of rows sharing a printing and a price type, every
//! point kept, in order.

use vstd::prelude::*;
use crate::text::owned;

verus! {

/// A catalog card. JSON-typed columns are passed through as raw JSON.
#[derive(Debug, Clone, PartialEq, Eq)]
pub struct Card {
    pub card_id: String,
    pub set_code: String,
    pub number: String,
    pub number_sortable: i64,
    pub name: String,
    pub supertype: Option<String>,
    pub subtypes: Option<String>,
    pub hp: Option<i64>,
    pub types: Option<String>,
    pub rarity: Option<String>,
    pub artist: Option<String>,
    pub flavor_text: Option<String>,
    pub attacks: Option<String>,
    pub abilities: Option<String>,
    pub weaknesses: Option<String>,
    pub resistances: Option<String>,
    pub retreat_cost: Option<String>,
    pub regulation_mark: Option<String>,
    pub national_pokedex_numbers: Option<String>,
    pub legalities: Option<String>,
    pub image_small: Option<String>,
    pub image_large: Option<String>,
    pub evolves_from: Option<String>,
    pub evolves_to: Option<String>,
    pub set_ptcgo_code: Option<String>,
    pub set_symbol_url: Option<String>,
    pub set_name: String,
}

/// One price snapshot row of a card's printings. The price is carried as
/// the bit pattern of its `f64`.
#[derive(Debug, Clone, PartialEq, Eq)]
pub struct PriceRow {
    pub printing_id: String,
    pub variant: String,
    pub sub_type_name: Option<String>,
    pub price_type: String,
    pub date: String,
    pub price_bits: u64,
}

/// One snapshot in a series.
#[derive(Debug, Clone, PartialEq, Eq)]
pub struct PricePoint {
    pub date: String,
    pub price_bits: u64,
}

/// The history of one printing for one price type.
#[derive(Debug, Clone, PartialEq, Eq)]
pub struct PriceSeries {
    pub printing_id: String,
    pub variant: String,
    pub sub_type_name: String,
    pub price_type: String,
    pub points: Vec<PricePoint>,
}

/// Two rows belong to one series: same printing, same price type.
pub open spec fn same_series(a: PriceRow, b: PriceRow) -> bool {
    a.printing_id@ == b.printing_id@ && a.price_type@ == b.price_type@
}

/// Series `s` is the run `rows[lo..hi]`: named after its first row (an
/// unknown sub-type as empty), holding every row's date and price in order.
pub open spec fn series_of(rows: Seq<PriceRow>, lo: int, hi: int, s: PriceSeries) -> bool {
    &&& s.printing_id == rows[lo].printing_id
    &&& s.variant == rows[lo].variant
    &&& s.sub_type_name@ == match rows[lo].sub_type_name {
        Some(t) => t@,
        None => Seq::<char>::empty(),
    }
    &&& s.price_type == rows[lo].price_type
    &&& s.points@.len() == hi - lo
    &&& forall|j: int| 0 <= j < hi - lo ==> (#[trigger] s.points@[j]).date == rows[lo + j].date
        && s.points@[j].price_bits == rows[lo + j].price_bits
}

/// `out` groups `rows` into maximal runs: `bounds` cut the rows into
/// consecutive non-empty runs, each of one series, where each run starts a
/// new series.
pub open spec fn grouped(rows: Seq<PriceRow>, out: Seq<PriceSeries>, bounds: Seq<int>) -> bool {
    &&& bounds.len() == out.len() + 1
    &&& bounds[0] == 0
    &&& bounds[out.len() as int] == rows.len()
    &&& forall|k: int| 0 <= k < out.len() ==> bounds[k] < #[trigger] bounds[k + 1]
    &&& forall|k: int, j: int| 0 <= k < out.len() && bounds[k] <= j < bounds[k + 1] ==> #[trigger] same_series(
        rows[bounds[k]],
        rows[j],
    )
    &&& forall|k: int| 0 < k < out.len() ==> !same_series(rows[#[trigger] bounds[k] - 1], rows[bounds[k]])
    &&& forall|k: int| 0 <= k < out.len() ==> series_of(rows, bounds[k], bounds[k + 1], #[trigger] out[k])
}

fn copy_point(r: &PriceRow) -> (p: PricePoint)
    ensures
        p.date == r.date,
        p.price_bits == r.price_bits,
{
    PricePoint { date: r.date.clone(), price_bits: r.price_bits }
}

/// Group a card's price rows (ordered by printing, price type, date) into
/// series: a new series whenever the printing or the price type changes.
pub fn group_price_series(rows: &Vec<PriceRow>) -> (out: Vec<PriceSeries>)
    ensures
        exists|bounds: Seq<int>| #[trigger] grouped(rows@, out@, bounds),
{
    let mut out: Vec<PriceSeries> = Vec::new();
    let ghost mut bounds: Seq<int> = seq![0];
    let mut i: usize = 0;
    while i < rows.len()
        invariant
            i <= rows@.len(),
            grouped(rows@.take(i as int), out@, bounds),
            bounds.len() == out@.len() + 1,
            bounds[out@.len() as int] == i,
            forall|k: int| 0 <= k < out@.len() ==> series_of(rows@, bounds[k], bounds[k + 1], #[trigger] out@[k]),
            forall|k: int| 0 <= k <= out@.len() ==> 0 <= #[trigger] bounds[k] <= i,
        decreases rows.len() - i,
    {
        let r = &rows[i];
        let n = out.len();
        let extend = n > 0 && out[n - 1].printing_id == r.printing_id && out[n - 1].price_type == r.price_type;
        let ghost old_out = out@;
        let ghost old_bounds = bounds;
        if extend {
            let mut last = out.pop().unwrap();
            last.points.push(copy_point(r));
            out.push(last);
            proof {
                bounds = old_bounds.update(n as int, i + 1);
                let lo = old_bounds[n - 1];
                assert(series_of(rows@, lo, i as int, old_out[n - 1]));
                assert forall|j: int| 0 <= j < i + 1 - lo implies (#[trigger] out@[n - 1].points@[j]).date
                    == rows@[lo + j].date && out@[n - 1].points@[j].price_bits == rows@[lo + j].price_bits by {
                    if j < i - lo {
                        assert(out@[n - 1].points@[j] == old_out[n - 1].points@[j]);
                    }
                }
                assert(series_of(rows@, lo, i + 1, out@[n - 1]));
                assert forall|k: int| 0 <= k < out@.len() implies series_of(rows@, bounds[k], bounds[k + 1], #[trigger] out@[k]) by {
                    if k < n - 1 {
                        assert(out@[k] == old_out[k]);
                    }
                }
            }
        } else {
            let sub = match &r.sub_type_name {
                Some(t) => t.clone(),
                None => String::new(),
            };
            let mut pts: Vec<PricePoint> = Vec::new();
            pts.push(copy_point(r));
            out.push(PriceSeries {
                printing_id: r.printing_id.clone(),
                variant: r.variant.clone(),
                sub_type_name: sub,
                price_type: r.price_type.clone(),
                points: pts,
            });
            proof {
                bounds = old_bounds.push(i + 1);
                assert forall|k: int| 0 <= k < out@.len() implies series_of(rows@, bounds[k], bounds[k + 1], #[trigger] out@[k]) by {
                    if k < n {
                        assert(out@[k] == old_out[k]);
                        assert(bounds[k] == old_bounds[k] && bounds[k + 1] == old_bounds[k + 1]);
                    }
                }
            }
        }
        proof {
            let t = rows@.take(i + 1);
            let m = out@.len();
            assert forall|k: int| 0 <= k <= m implies 0 <= #[trigger] bounds[k] <= i + 1 by {
                if k < m {
                    assert(bounds[k] == old_bounds[k]);
                }
            }
            assert forall|k: int| 0 <= k < m implies bounds[k] < #[trigger] bounds[k + 1] by {
                if k + 1 < old_bounds.len() && k + 1 < m {
                    assert(bounds[k] == old_bounds[k] && bounds[k + 1] == old_bounds[k + 1]);
                    assert(old_bounds[k] < old_bounds[k + 1]);
                }
                if extend && k == m - 1 && k > 0 {
                    assert(bounds[k] == old_bounds[k]);
                }
            }
            assert forall|k: int, j: int| 0 <= k < m && bounds[k] <= j < bounds[k + 1] implies #[trigger] same_series(
                t[bounds[k]],
                t[j],
            ) by {
                if j < i {
                    if k < m - 1 || (extend && k == m - 1) {
                        assert(bounds[k] == old_bounds[k]);
                        if k < old_out.len() && j < old_bounds[k + 1] {
                            assert(same_series(rows@.take(i as int)[old_bounds[k]], rows@.take(i as int)[j]));
                        }
                    }
                } else {
                    if extend {
                        assert(bounds[k] == old_bounds[k]);
                    }
                }
            }
            assert forall|k: int| 0 < k < m implies !same_series(t[#[trigger] bounds[k] - 1], t[bounds[k]]) by {
                if k < old_out.len() {
                    assert(bounds[k] == old_bounds[k]);
                    assert(old_bounds[k] < old_bounds[k + 1]);
                    assert(0 <= old_bounds[k + 1] <= i);
                    let km = k - 1;
                    assert(old_bounds[km] < old_bounds[km + 1]);
                    assert(0 <= old_bounds[km]);
                    assert(!same_series(rows@.take(i as int)[old_bounds[k] - 1], rows@.take(i as int)[old_bounds[k]]));
                    assert(t[old_bounds[k] - 1] == rows@.take(i as int)[old_bounds[k] - 1]);
                    assert(t[old_bounds[k]] == rows@.take(i as int)[old_bounds[k]]);
                } else {
                    assert(bounds[k] == i);
                    assert(!extend);
                    assert(series_of(rows@, old_bounds[n - 1], i as int, old_out[n - 1]));
                    assert(same_series(rows@.take(i as int)[old_bounds[n - 1]], rows@.take(i as int)[i - 1]));
                }
            }
            assert forall|k: int| 0 <= k < m implies series_of(t, bounds[k], bounds[k + 1], #[trigger] out@[k]) by {
                assert(series_of(rows@, bounds[k], bounds[k + 1], out@[k]));
                assert forall|j: int| 0 <= j < bounds[k + 1] - bounds[k] implies (#[trigger] out@[k].points@[j]).date
                    == t[bounds[k] + j].date && out@[k].points@[j].price_bits == t[bounds[k] + j].price_bits by {
                    assert(t[bounds[k] + j] == rows@[bounds[k] + j]);
                }
            }
            assert(grouped(t, out@, bounds));
        }
        i = i + 1;
    }
    assert(rows@.take(rows@.len() as int) =~= rows@);
    out
}

} // verus!
