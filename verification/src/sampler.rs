//! Top-K sampling of the next token.
//!
//! Logits are ranked by integer keys and drawn from by integer weights, so
//! that every decision of the sampler is exact. The key of a logit is
//! computed from its bit pattern by `logit_order_key`; the weight of a
//! candidate is its unnormalised probability on a fixed integer scale, which
//! the caller computes. The draw is a number of millionths.

use vstd::prelude::*;
use crate::error::FastVLMError;

verus! {

/// Number of candidates the next token is drawn from.
pub const TOP_K: usize = 50;

/// A draw of `d` stands for the probability `d / DRAW_SCALE`.
pub const DRAW_SCALE: u32 = 1_000_000;

/// The weight of the best candidate: weights are unnormalised
/// probabilities in units of one part in `WEIGHT_SCALE` of the best one's.
pub const WEIGHT_SCALE: u32 = 16_777_216;

/// Key of every bit pattern that is not a number; it ranks below all others.
pub const NAN_KEY: i64 = -2147483648;

/// The key of the single-precision bit pattern `bits`. Keys order bit
/// patterns as the numbers they encode are ordered: a set sign bit negates
/// the magnitude, so both zeros get the key 0, and a pattern that encodes no
/// number gets `NAN_KEY`.
pub open spec fn order_key_of(bits: u32) -> int {
    let magnitude: int = if bits >= 0x8000_0000 { bits - 0x8000_0000 } else { bits as int };
    if magnitude > 0x7F80_0000 {
        NAN_KEY as int
    } else if bits >= 0x8000_0000 {
        -magnitude
    } else {
        magnitude
    }
}

/// Computes the key by which a logit with the bit pattern `bits` is ranked.
pub fn logit_order_key(bits: u32) -> (key: i64)
    ensures
        key == order_key_of(bits),
{
    let negative: bool = bits >= 0x8000_0000;
    let magnitude: u32 = if negative { bits - 0x8000_0000 } else { bits };
    if magnitude > 0x7F80_0000 {
        NAN_KEY
    } else if negative {
        -(magnitude as i64)
    } else {
        magnitude as i64
    }
}

/// Whether index `a` is ranked before index `b`: by the higher key, and
/// among equal keys by the lower index.
pub open spec fn ranks_before(keys: Seq<i64>, a: int, b: int) -> bool {
    keys[a] > keys[b] || (keys[a] == keys[b] && a < b)
}

/// Whether `picked` lists, best first, the `k` best indices among the first
/// `n` keys, or all `n` of them where `n` is smaller than `k`.
pub open spec fn is_top_k_of_prefix(keys: Seq<i64>, n: int, k: int, picked: Seq<usize>) -> bool {
    &&& picked.len() == if n <= k { n } else { k }
    &&& forall|i: int| 0 <= i < picked.len() ==> (#[trigger] picked[i]) < n
    &&& forall|i: int, j: int|
        0 <= i < j < picked.len() ==> ranks_before(keys, #[trigger] picked[i] as int, #[trigger] picked[j] as int)
    &&& forall|x: usize, i: int|
        x < n && 0 <= i < picked.len() && !(#[trigger] picked.contains(x)) ==> ranks_before(
            keys,
            #[trigger] picked[i] as int,
            x as int,
        )
}

/// Whether `picked` lists, best first, the `k` best indices of `keys`.
pub open spec fn is_top_k(keys: Seq<i64>, k: int, picked: Seq<usize>) -> bool {
    is_top_k_of_prefix(keys, keys.len() as int, k, picked)
}

proof fn lemma_insert_contains(s: Seq<usize>, p: int, a: usize)
    requires
        0 <= p <= s.len(),
    ensures
        forall|x: usize| #[trigger] s.insert(p, a).contains(x) <==> (x == a || s.contains(x)),
{
    s.insert_ensures(p, a);
    let t = s.insert(p, a);
    assert forall|x: usize| #[trigger] t.contains(x) <==> (x == a || s.contains(x)) by {
        if s.contains(x) {
            let i = choose|i: int| 0 <= i < s.len() && s[i] == x;
            if i < p {
                assert(t[i] == x);
            }
        }
    }
}

/// Ranks the logits: returns, best first, the indices of the `k` highest
/// keys. Among equal keys the lower index is the better one.
pub fn top_k_indices(keys: &Vec<i64>, k: usize) -> (picked: Vec<usize>)
    ensures
        is_top_k(keys@, k as int, picked@),
{
    let n: usize = keys.len();
    let mut picked: Vec<usize> = Vec::new();
    let mut m: usize = 0;
    while m < n
        invariant
            m <= n == keys@.len(),
            is_top_k_of_prefix(keys@, m as int, k as int, picked@),
            picked@.len() < k ==> forall|x: usize| x < m ==> picked@.contains(x),
        decreases n - m,
    {
        let key: i64 = keys[m];
        let len: usize = picked.len();
        let ghost old_picked = picked@;
        if len == k && (k == 0 || keys[picked[len - 1]] >= key) {
            // The new index ranks after all that are kept.
        } else {
            let mut p: usize = 0;
            while p < len && keys[picked[p]] >= key
                invariant
                    p <= len == picked@.len(),
                    m < n == keys@.len(),
                    key == keys@[m as int],
                    forall|i: int| 0 <= i < picked@.len() ==> (#[trigger] picked@[i]) < m,
                    forall|i: int| 0 <= i < p ==> keys@[(#[trigger] picked@[i]) as int] >= key,
                decreases len - p,
            {
                p = p + 1;
            }
            picked.insert(p, m);
            proof {
                old_picked.insert_ensures(p as int, m);
                lemma_insert_contains(old_picked, p as int, m);
            }
            if len == k {
                picked.pop();
                proof {
                    let kept = picked@;
                    assert(kept[p as int] == m);
                    assert forall|x: usize, i: int|
                        x < m + 1 && 0 <= i < kept.len() && !(#[trigger] kept.contains(x)) implies ranks_before(
                        keys@,
                        #[trigger] kept[i] as int,
                        x as int,
                    ) by {
                        if old_picked.contains(x) {
                            // Of the old list only the last was dropped.
                            let q = choose|q: int| 0 <= q < old_picked.len() && old_picked[q] == x;
                            if q < p {
                                assert(kept[q] == x);
                            } else if q + 1 < kept.len() {
                                assert(kept[q + 1] == x);
                            }
                        }
                    }
                }
            }
        }
        m = m + 1;
    }
    picked
}

/// Sum of the first `n` weights.
pub open spec fn weight_sum(weights: Seq<u32>, n: int) -> int
    decreases n,
{
    if n <= 0 {
        0
    } else {
        weight_sum(weights, n - 1) + weights[n - 1]
    }
}

/// Whether the first `n` candidates together are at least as probable as
/// the draw: their share of the whole weight is at least `draw / DRAW_SCALE`.
pub open spec fn reaches(weights: Seq<u32>, n: int, draw: u32) -> bool {
    draw * weight_sum(weights, weights.len() as int) <= weight_sum(weights, n) * DRAW_SCALE
}

/// The first position from `from` on at which the cumulative probability
/// reaches the draw, or the number of weights where none does.
pub open spec fn first_reaching(weights: Seq<u32>, draw: u32, from: int) -> int
    decreases weights.len() - from,
{
    if from >= weights.len() {
        weights.len() as int
    } else if reaches(weights, from + 1, draw) {
        from
    } else {
        first_reaching(weights, draw, from + 1)
    }
}

/// The position that a draw selects: the first at which the cumulative
/// probability reaches the draw, and the first of all where none does.
pub open spec fn picked_position(weights: Seq<u32>, draw: u32) -> int {
    if first_reaching(weights, draw, 0) < weights.len() {
        first_reaching(weights, draw, 0)
    } else {
        0
    }
}

proof fn lemma_weight_sum_bounds(weights: Seq<u32>, n: int)
    requires
        0 <= n <= weights.len(),
    ensures
        0 <= weight_sum(weights, n) <= n * 0xFFFF_FFFF,
    decreases n,
{
    if n > 0 {
        lemma_weight_sum_bounds(weights, n - 1);
    }
}

/// Walks the candidates in rank order and returns the position the draw
/// selects.
pub fn pick_position(weights: &Vec<u32>, draw: u32) -> (pos: usize)
    requires
        weights@.len() > 0,
    ensures
        pos == picked_position(weights@, draw),
        pos < weights@.len(),
{
    let len: usize = weights.len();
    let mut total: u128 = 0;
    let mut i: usize = 0;
    while i < len
        invariant
            i <= len == weights@.len(),
            total == weight_sum(weights@, i as int),
        decreases len - i,
    {
        proof {
            lemma_weight_sum_bounds(weights@, i as int);
        }
        total = total + weights[i] as u128;
        i = i + 1;
    }
    proof {
        lemma_weight_sum_bounds(weights@, len as int);
    }
    assert(draw * total <= 0xFFFF_FFFF * (0xFFFF_FFFF_FFFF_FFFF * 0xFFFF_FFFF)) by (nonlinear_arith)
        requires
            0 <= draw <= 0xFFFF_FFFF,
            0 <= total <= len * 0xFFFF_FFFF,
            len <= 0xFFFF_FFFF_FFFF_FFFF,
    ;
    let target: u128 = draw as u128 * total;
    let mut cumulative: u128 = 0;
    let mut j: usize = 0;
    while j < len
        invariant
            j <= len == weights@.len(),
            total == weight_sum(weights@, len as int),
            target == draw * total,
            cumulative == weight_sum(weights@, j as int),
            first_reaching(weights@, draw, 0) == first_reaching(weights@, draw, j as int),
        decreases len - j,
    {
        proof {
            lemma_weight_sum_bounds(weights@, j as int);
            lemma_weight_sum_bounds(weights@, j + 1);
        }
        cumulative = cumulative + weights[j] as u128;
        assert(cumulative * DRAW_SCALE <= (0xFFFF_FFFF_FFFF_FFFF * 0xFFFF_FFFF) * 1_000_000)
            by (nonlinear_arith)
            requires
                0 <= cumulative <= (j + 1) * 0xFFFF_FFFF,
                j + 1 <= 0xFFFF_FFFF_FFFF_FFFF,
                DRAW_SCALE == 1_000_000,
        ;
        if target <= cumulative * (DRAW_SCALE as u128) {
            return j;
        }
        j = j + 1;
    }
    0
}

/// Draws the next token. `candidates` are the ranked indices and
/// `weights[i]` is the weight of `candidates[i]`. The walk goes through the
/// candidates best first, adding up their probabilities, and returns the
/// first at which the sum reaches the draw; where no sum does, the best
/// candidate is returned. Fails without candidates, or when the weights do
/// not match them.
pub fn sample_token(candidates: &Vec<usize>, weights: &Vec<u32>, draw: u32) -> (r: Result<usize, FastVLMError>)
    ensures
        candidates@.len() == 0 || weights@.len() != candidates@.len() ==> r == Err::<usize, FastVLMError>(
            FastVLMError::TensorShapeMismatch,
        ),
        candidates@.len() > 0 && weights@.len() == candidates@.len() ==> r == Ok::<usize, FastVLMError>(
            candidates@[picked_position(weights@, draw)],
        ),
{
    if candidates.len() == 0 || weights.len() != candidates.len() {
        return Err(FastVLMError::TensorShapeMismatch);
    }
    let pos: usize = pick_position(weights, draw);
    Ok(candidates[pos])
}

/// The draw that a seed gives: one step of a linear congruential generator
/// on 64 bits, reduced to millionths.
pub open spec fn draw_of_seed(seed: u64) -> int {
    ((seed * 1103515245 + 12345) % 0x1_0000_0000_0000_0000) % 1_000_000
}

/// Turns a seed into a draw below `DRAW_SCALE`.
pub fn draw_from_seed(seed: u64) -> (draw: u32)
    ensures
        draw == draw_of_seed(seed),
        draw < DRAW_SCALE,
{
    let stepped: u128 = (seed as u128 * 1103515245 + 12345) % 0x1_0000_0000_0000_0000;
    (stepped % 1_000_000) as u32
}

/// A draw of zero selects the best candidate.
pub proof fn lemma_zero_draw_picks_best(weights: Seq<u32>)
    requires
        weights.len() > 0,
    ensures
        picked_position(weights, 0) == 0,
{
    lemma_weight_sum_bounds(weights, 1);
}

/// The probabilities of the candidates add up to one: the cumulative
/// probability of all of them reaches every draw of at most `DRAW_SCALE`,
/// so for such a draw the walk finds its candidate and needs no fallback.
pub proof fn lemma_walk_reaches_every_draw(weights: Seq<u32>, draw: u32)
    requires
        weights.len() > 0,
        draw <= DRAW_SCALE,
    ensures
        reaches(weights, weights.len() as int, draw),
        first_reaching(weights, draw, 0) < weights.len(),
        reaches(weights, picked_position(weights, draw) + 1, draw),
{
    let total = weight_sum(weights, weights.len() as int);
    lemma_weight_sum_bounds(weights, weights.len() as int);
    assert(draw * total <= total * DRAW_SCALE) by (nonlinear_arith)
        requires
            0 <= draw <= DRAW_SCALE,
            0 <= total,
    ;
    lemma_first_reaching_is_first(weights, draw, 0, weights.len() - 1);
    lemma_first_reaching_range(weights, draw, 0);
}

/// The walk stops at the first position that reaches the draw: at or before
/// any position `at` that does, and at a position that does.
proof fn lemma_first_reaching_is_first(weights: Seq<u32>, draw: u32, from: int, at: int)
    requires
        0 <= from <= at < weights.len(),
        reaches(weights, at + 1, draw),
    ensures
        from <= first_reaching(weights, draw, from) <= at,
        reaches(weights, first_reaching(weights, draw, from) + 1, draw),
    decreases at - from,
{
    if !reaches(weights, from + 1, draw) {
        lemma_first_reaching_is_first(weights, draw, from + 1, at);
    }
}

/// The sampled index is one of the ranked candidates, and no index outside
/// them has a higher key than it.
pub proof fn lemma_sample_is_among_top_k(keys: Seq<i64>, k: int, candidates: Seq<usize>, weights: Seq<u32>, draw: u32)
    requires
        is_top_k(keys, k, candidates),
        candidates.len() > 0,
        weights.len() == candidates.len(),
    ensures
        0 <= picked_position(weights, draw) < candidates.len(),
        candidates.contains(candidates[picked_position(weights, draw)]),
        candidates[picked_position(weights, draw)] < keys.len(),
        forall|x: usize|
            x < keys.len() && !candidates.contains(x) ==> keys[x as int] <= keys[candidates[picked_position(
                weights,
                draw,
            )] as int],
{
    lemma_first_reaching_range(weights, draw, 0);
    let pos = picked_position(weights, draw);
    let id = candidates[pos];
    assert forall|x: usize| x < keys.len() && !candidates.contains(x) implies keys[x as int] <= keys[id as int] by {
    }
}

proof fn lemma_first_reaching_range(weights: Seq<u32>, draw: u32, from: int)
    requires
        0 <= from <= weights.len(),
    ensures
        from <= first_reaching(weights, draw, from) <= weights.len(),
    decreases weights.len() - from,
{
    if from < weights.len() && !reaches(weights, from + 1, draw) {
        lemma_first_reaching_range(weights, draw, from + 1);
    }
}

} // verus!
