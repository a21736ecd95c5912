use vstd::prelude::*;
use rand::distributions::{Distribution, WeightedIndex};

verus! {

/// The sum of the weights.
pub open spec fn total(w: Seq<u64>) -> int
    decreases w.len(),
{
    if w.len() == 0 {
        0
    } else {
        total(w.drop_last()) + w.last()
    }
}

/// No weight is above zero (which holds of no weights at all).
pub open spec fn all_zero(w: Seq<u64>) -> bool {
    forall|i: int| 0 <= i < w.len() ==> w[i] == 0
}

/// Why a draw could not be made.
#[derive(Clone, Copy, Debug, PartialEq, Eq, Structural)]
pub enum DrawError {
    /// The weights add up to more than a `u64` holds.
    TotalTooLarge,
}

/// Relies on rand's `WeightedIndex` over `u64` weights whose sum fits in a `u64`
/// and is not zero, and on `thread_rng`: the index drawn is one whose weight is
/// not zero. Which index comes out is chance.
#[verifier::external_body]
fn weighted_index(weights: &Vec<u64>) -> (r: usize)
    requires
        total(weights@) <= u64::MAX,
        !all_zero(weights@),
    ensures
        r < weights@.len(),
        weights@[r as int] != 0,
{
    let index = WeightedIndex::new(weights.iter().copied()).unwrap();
    index.sample(&mut rand::thread_rng())
}

proof fn lemma_total_push(w: Seq<u64>, x: u64)
    ensures
        total(w.push(x)) == total(w) + x,
{
    assert(w.push(x).drop_last() == w);
}

proof fn lemma_total_nonneg(w: Seq<u64>)
    ensures
        total(w) >= 0,
    decreases w.len(),
{
    if w.len() > 0 {
        lemma_total_nonneg(w.drop_last());
    }
}

/// Draws an index with probability proportional to its weight.
///
/// Returns `None` (exhausted) exactly where every weight is zero, the empty list
/// included; else an index whose weight is not zero. Fails where the weights add
/// up to more than a `u64` holds.
pub fn draw(weights: &Vec<u64>) -> (r: Result<Option<usize>, DrawError>)
    ensures
        r is Err <==> total(weights@) > u64::MAX,
        r matches Ok(None) <==> all_zero(weights@),
        r matches Ok(Some(i)) ==> i < weights@.len() && weights@[i as int] != 0,
{
    let n = weights.len();
    let mut sum: u64 = 0;
    let mut i: usize = 0;
    while i < n
        invariant
            i <= n == weights@.len(),
            sum == total(weights@.take(i as int)),
        decreases n - i,
    {
        proof {
            lemma_total_push(weights@.take(i as int), weights@[i as int]);
            assert(weights@.take(i as int + 1) == weights@.take(i as int).push(weights@[i as int]));
        }
        if weights[i] > u64::MAX - sum {
            proof {
                lemma_total_bound(weights@, i as int + 1);
            }
            return Err(DrawError::TotalTooLarge);
        }
        sum = sum + weights[i];
        i = i + 1;
    }
    assert(weights@.take(n as int) == weights@);
    proof {
        lemma_total_zero(weights@);
    }
    if sum == 0 {
        return Ok(None);
    }
    Ok(Some(weighted_index(weights)))
}

/// Weights of at most `b` each add up to at most `b` times their number.
pub proof fn lemma_total_at_most(w: Seq<u64>, b: int)
    requires
        forall|i: int| 0 <= i < w.len() ==> w[i] <= b,
    ensures
        total(w) <= b * w.len(),
    decreases w.len(),
{
    if w.len() > 0 {
        lemma_total_at_most(w.drop_last(), b);
        assert(b * w.len() == b * (w.len() - 1) + b) by (nonlinear_arith);
    }
}

/// A prefix never weighs more than the whole.
proof fn lemma_total_bound(w: Seq<u64>, k: int)
    requires
        0 <= k <= w.len(),
    ensures
        total(w.take(k)) <= total(w),
    decreases w.len() - k,
{
    if k < w.len() {
        lemma_total_bound(w, k + 1);
        assert(w.take(k + 1) == w.take(k).push(w[k]));
        lemma_total_push(w.take(k), w[k]);
    } else {
        assert(w.take(k) == w);
    }
}

/// The sum is zero exactly where every weight is.
proof fn lemma_total_zero(w: Seq<u64>)
    ensures
        total(w) == 0 <==> all_zero(w),
    decreases w.len(),
{
    if w.len() > 0 {
        lemma_total_zero(w.drop_last());
        lemma_total_nonneg(w.drop_last());
        if all_zero(w) {
            assert(all_zero(w.drop_last()));
        }
        if total(w) == 0 {
            assert forall|i: int| 0 <= i < w.len() implies w[i] == 0 by {
                if i < w.len() - 1 {
                    assert(w.drop_last()[i] == w[i]);
                }
            }
        }
    }
}

} // verus!
