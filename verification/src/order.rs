//! Orders the binder views sort by: character sequences compared as
//! `String`'s `Ord` compares them (code point by code point, a prefix first),
//! and prices compared as `f64::total order` compares them, through the bit
//! pattern of the `f64`.

use vstd::prelude::*;

verus! {

/// `a` sorts strictly before `b` lexicographically by code point — the
/// order `str`'s `Ord` gives, UTF-8 preserving code point order.
pub open spec fn lex_lt(a: Seq<char>, b: Seq<char>) -> bool
    decreases a.len(),
{
    if a.len() == 0 {
        b.len() > 0
    } else if b.len() == 0 {
        false
    } else if (a[0] as u32) < (b[0] as u32) {
        true
    } else if (a[0] as u32) > (b[0] as u32) {
        false
    } else {
        lex_lt(a.drop_first(), b.drop_first())
    }
}

pub proof fn lemma_lex_irreflexive(a: Seq<char>)
    ensures
        !lex_lt(a, a),
    decreases a.len(),
{
    if a.len() > 0 {
        lemma_lex_irreflexive(a.drop_first());
    }
}

pub proof fn lemma_lex_transitive(a: Seq<char>, b: Seq<char>, c: Seq<char>)
    requires
        lex_lt(a, b),
        lex_lt(b, c),
    ensures
        lex_lt(a, c),
    decreases a.len(),
{
    if a.len() > 0 && b.len() > 0 && c.len() > 0 {
        if (a[0] as u32) == (b[0] as u32) && (b[0] as u32) == (c[0] as u32) {
            lemma_lex_transitive(a.drop_first(), b.drop_first(), c.drop_first());
        }
    }
}

proof fn lemma_char_eq(x: char, y: char)
    requires
        x as u32 == y as u32,
    ensures
        x == y,
{
}

pub proof fn lemma_lex_total(a: Seq<char>, b: Seq<char>)
    ensures
        a == b || lex_lt(a, b) || lex_lt(b, a),
    decreases a.len(),
{
    if a.len() > 0 && b.len() > 0 && (a[0] as u32) == (b[0] as u32) {
        lemma_lex_total(a.drop_first(), b.drop_first());
        lemma_char_eq(a[0], b[0]);
        if a.drop_first() == b.drop_first() {
            assert(a =~= seq![a[0]] + a.drop_first());
            assert(b =~= seq![b[0]] + b.drop_first());
        }
    } else if a.len() == 0 && b.len() == 0 {
        assert(a =~= b);
    }
}

pub proof fn lemma_lex_asym(a: Seq<char>, b: Seq<char>)
    requires
        lex_lt(a, b),
    ensures
        !lex_lt(b, a),
{
    if lex_lt(b, a) {
        lemma_lex_transitive(a, b, a);
        lemma_lex_irreflexive(a);
    }
}

proof fn lemma_lex_step(a: Seq<char>, b: Seq<char>, i: int)
    requires
        0 <= i < a.len(),
        i < b.len(),
        a[i] == b[i],
    ensures
        lex_lt(a.skip(i), b.skip(i)) == lex_lt(a.skip(i + 1), b.skip(i + 1)),
{
    assert(a.skip(i).drop_first() =~= a.skip(i + 1));
    assert(b.skip(i).drop_first() =~= b.skip(i + 1));
}

/// Three-way comparison of character sequences: negative, zero or
/// positive as `a` sorts before, equal to, or after `b`.
pub fn lex_compare(a: &Vec<char>, b: &Vec<char>) -> (r: i8)
    ensures
        (r < 0) == lex_lt(a@, b@),
        (r == 0) == (a@ == b@),
        (r > 0) == lex_lt(b@, a@),
{
    let mut i: usize = 0;
    assert(a@.skip(0) =~= a@);
    assert(b@.skip(0) =~= b@);
    while i < a.len() && i < b.len()
        invariant
            i <= a@.len(),
            i <= b@.len(),
            forall|j: int| 0 <= j < i ==> a@[j] == b@[j],
            lex_lt(a@, b@) == lex_lt(a@.skip(i as int), b@.skip(i as int)),
            lex_lt(b@, a@) == lex_lt(b@.skip(i as int), a@.skip(i as int)),
        decreases a.len() - i,
    {
        let x = a[i] as u32;
        let y = b[i] as u32;
        if x < y {
            return -1;
        }
        if x > y {
            return 1;
        }
        proof {
            lemma_char_eq(a@[i as int], b@[i as int]);
            lemma_lex_step(a@, b@, i as int);
            lemma_lex_step(b@, a@, i as int);
        }
        i = i + 1;
    }
    if a.len() == b.len() {
        assert(a@ =~= b@);
        proof {
            lemma_lex_irreflexive(a@);
        }
        0
    } else if a.len() < b.len() {
        proof {
            lemma_lex_asym(a@, b@);
        }
        -1
    } else {
        proof {
            lemma_lex_asym(b@, a@);
        }
        1
    }
}

/// The position of an `f64`, given by its bit pattern, in the order
/// `f64::total order` defines: negative values by descending magnitude, then
/// `-0.0`, `+0.0`, positive values by ascending magnitude.
pub open spec fn price_key(bits: u64) -> int {
    if bits >= 0x8000_0000_0000_0000u64 {
        0xFFFF_FFFF_FFFF_FFFFu64 - bits
    } else {
        bits + 0x8000_0000_0000_0000u64
    }
}

pub fn price_key_exec(bits: u64) -> (k: u64)
    ensures
        k == price_key(bits),
{
    if bits >= 0x8000_0000_0000_0000u64 {
        0xFFFF_FFFF_FFFF_FFFFu64 - bits
    } else {
        bits + 0x8000_0000_0000_0000u64
    }
}


/// In a stable sort by `key`, the element at position `i` of `input` lands
/// before the one at position `j`: a smaller key, or an equal key and an
/// earlier position.
pub open spec fn key_before<T>(input: Seq<T>, key: spec_fn(T) -> Seq<char>, i: int, j: int) -> bool {
    lex_lt(key(input[i]), key(input[j])) || (key(input[i]) == key(input[j]) && i < j)
}

/// `out` is `input` stably sorted by `key`, ascending: `perm[k]` is the
/// position in `input` that `out[k]` came from, every position is used
/// once, and no two elements are out of order.
pub open spec fn sorted_by<T>(input: Seq<T>, key: spec_fn(T) -> Seq<char>, out: Seq<T>) -> bool {
    exists|perm: Seq<int>|
        {
            &&& perm.len() == input.len()
            &&& out.len() == input.len()
            &&& forall|k: int| 0 <= k < perm.len() ==> 0 <= #[trigger] perm[k] < input.len()
            &&& forall|k: int, l: int|
                0 <= k < l < perm.len() ==> #[trigger] perm[k] != #[trigger] perm[l]
            &&& forall|k: int| 0 <= k < out.len() ==> #[trigger] out[k] == input[perm[k]]
            &&& forall|k: int, l: int|
                0 <= k < l < out.len() ==> #[trigger] key_before(input, key, perm[k], perm[l]) && out[l] == out[l]
        }
}

proof fn lemma_key_before_total<T>(input: Seq<T>, key: spec_fn(T) -> Seq<char>, i: int, j: int)
    requires
        i != j,
    ensures
        key_before(input, key, i, j) || key_before(input, key, j, i),
{
    lemma_lex_total(key(input[i]), key(input[j]));
}

proof fn lemma_key_before_trans<T>(input: Seq<T>, key: spec_fn(T) -> Seq<char>, i: int, j: int, k: int)
    requires
        key_before(input, key, i, j),
        key_before(input, key, j, k),
    ensures
        key_before(input, key, i, k),
{
    let a = key(input[i]);
    let b = key(input[j]);
    let c = key(input[k]);
    if lex_lt(a, b) && lex_lt(b, c) {
        lemma_lex_transitive(a, b, c);
    }
}

/// Sort `items` stably by the character keys `keys` (one per item).
pub fn sort_by_key<T>(items: Vec<T>, keys: &Vec<Vec<char>>, Ghost(key): Ghost<spec_fn(T) -> Seq<char>>) -> (out: Vec<T>)
    requires
        keys@.len() == items@.len(),
        forall|i: int| 0 <= i < items@.len() ==> (#[trigger] keys@[i])@ == key(items@[i]),
    ensures
        sorted_by(items@, key, out@),
{
    let ghost orig = items@;
    let n = items.len();
    let mut rest = items;
    let mut out: Vec<T> = Vec::new();
    let mut origin: Vec<usize> = Vec::new();
    let mut i: usize = 0;
    while i < n
        invariant
            n == orig.len(),
            n == keys@.len(),
            forall|t: int| 0 <= t < orig.len() ==> (#[trigger] keys@[t])@ == key(orig[t]),
            i <= n,
            rest@ == orig.subrange(i as int, n as int),
            out@.len() == i,
            origin@.len() == i,
            forall|k: int| 0 <= k < i ==> (#[trigger] origin@[k]) < i,
            forall|k: int, l: int|
                0 <= k < l < i ==> #[trigger] origin@[k] != #[trigger] origin@[l],
            forall|k: int| 0 <= k < i ==> #[trigger] out@[k] == orig[origin@[k] as int],
            forall|k: int, l: int|
                0 <= k < l < i ==> key_before(orig, key, #[trigger] origin@[k] as int, #[trigger] origin@[l] as int),
        decreases n - i,
    {
        let x = rest.remove(0);
        assert(x == orig[i as int]);
        assert(rest@ =~= orig.subrange(i + 1, n as int));
        let mut p: usize = 0;
        loop
            invariant
                p <= out@.len(),
                out@.len() == i,
                origin@.len() == i,
                i < n,
                n == keys@.len(),
                n == orig.len(),
                forall|k: int| 0 <= k < i ==> (#[trigger] origin@[k]) < i,
                forall|t: int| 0 <= t < orig.len() ==> (#[trigger] keys@[t])@ == key(orig[t]),
                forall|k: int| 0 <= k < p ==> !key_before(orig, key, i as int, #[trigger] origin@[k] as int),
            ensures
                p <= out@.len(),
                forall|k: int| 0 <= k < p ==> !key_before(orig, key, i as int, #[trigger] origin@[k] as int),
                p < out@.len() ==> key_before(orig, key, i as int, origin@[p as int] as int),
            decreases out.len() - p,
        {
            if p >= out.len() {
                break;
            }
            let o = origin[p];
            assert(o < i);
            assert(keys@[i as int]@ == key(orig[i as int]));
            assert(keys@[o as int]@ == key(orig[o as int]));
            let c = lex_compare(&keys[i], &keys[o]);
            if c < 0 || (c == 0 && i < o) {
                break;
            }
            p = p + 1;
        }
        let ghost old_out = out@;
        let ghost old_origin = origin@;
        proof {
            assert forall|k: int| 0 <= k < p implies key_before(orig, key, #[trigger] old_origin[k] as int, i as int) by {
                assert(old_origin[k] < i);
                lemma_key_before_total(orig, key, i as int, old_origin[k] as int);
            }
            assert forall|k: int| p <= k < i implies key_before(orig, key, i as int, #[trigger] old_origin[k] as int) by {
                if k > p {
                    lemma_key_before_trans(orig, key, i as int, old_origin[p as int] as int, old_origin[k] as int);
                }
            }
        }
        out.insert(p, x);
        origin.insert(p, i);
        proof {
            old_out.insert_ensures(p as int, x);
            old_origin.insert_ensures(p as int, i);
            assert forall|k: int, l: int| 0 <= k < l < i + 1 implies key_before(orig, key, #[trigger] origin@[k] as int, #[trigger] origin@[l] as int) by {
                if l < p {
                } else if l == p {
                } else if k < p {
                    assert(origin@[l] == old_origin[l - 1]);
                } else if k == p {
                    assert(origin@[l] == old_origin[l - 1]);
                } else {
                    assert(origin@[k] == old_origin[k - 1]);
                    assert(origin@[l] == old_origin[l - 1]);
                }
            }
            assert forall|k: int| 0 <= k < i + 1 implies (#[trigger] origin@[k]) < i + 1 by {
                if k > p {
                    assert(origin@[k] == old_origin[k - 1]);
                }
            }
            assert forall|k: int, l: int| 0 <= k < l < i + 1 implies #[trigger] origin@[k] != #[trigger] origin@[l] by {
                if k == p {
                    assert(origin@[l] == old_origin[l - 1]);
                } else if l == p {
                    assert(origin@[k] == old_origin[k]);
                } else if k < p && l < p {
                } else if k < p {
                    assert(origin@[l] == old_origin[l - 1]);
                } else {
                    assert(origin@[k] == old_origin[k - 1]);
                    assert(origin@[l] == old_origin[l - 1]);
                }
            }
            assert forall|k: int| 0 <= k < i + 1 implies #[trigger] out@[k] == orig[origin@[k] as int] by {
                if k > p {
                    assert(out@[k] == old_out[k - 1]);
                    assert(origin@[k] == old_origin[k - 1]);
                }
            }
        }
        i = i + 1;
    }
    let ghost perm = origin@.map_values(|u: usize| u as int);
    assert(sorted_by(orig, key, out@)) by {
        assert forall|k: int| 0 <= k < perm.len() implies 0 <= #[trigger] perm[k] < orig.len() by {
            assert(origin@[k] < n);
        }
        assert forall|k: int, l: int| 0 <= k < l < perm.len() implies #[trigger] perm[k] != #[trigger] perm[l] by {
            assert(origin@[k] != origin@[l]);
        }
        assert forall|k: int, l: int| 0 <= k < l < out@.len() implies #[trigger] key_before(orig, key, perm[k], perm[l]) && out@[l] == out@[l] by {
            assert(key_before(orig, key, origin@[k] as int, origin@[l] as int));
        }
    }
    out
}

} // verus!
