//! The sample model and the counting functions over it.
//!
//! A sample is one monitoring interval's response time in milliseconds;
//! zero encodes "the service was down during this interval". Samples are
//! stored one per interval with the window to be inspected first, so
//! every trailing-window computation takes a prefix of the stored order.

use crate::rounding::div_round_half_even;
use vstd::arithmetic::mul::{lemma_mul_inequality, lemma_mul_is_commutative};
use vstd::prelude::*;

verus! {

/// Largest sample value the store can produce: samples arrive as
/// non-negative `i32` readings.
pub const MAX_SAMPLE: u32 = 0x7fff_ffff;

/// How many of the samples are "up" (strictly positive).
pub open spec fn count_up(s: Seq<u32>) -> int
    decreases s.len(),
{
    if s.len() == 0 {
        0
    } else {
        count_up(s.drop_last()) + if s.last() > 0 {
            1int
        } else {
            0int
        }
    }
}

/// The sum of the "up" (strictly positive) samples.
pub open spec fn sum_up(s: Seq<u32>) -> int
    decreases s.len(),
{
    if s.len() == 0 {
        0
    } else {
        sum_up(s.drop_last()) + if s.last() > 0 {
            s.last() as int
        } else {
            0int
        }
    }
}

/// The subsequence of "up" (strictly positive) samples, order kept.
pub open spec fn positives(s: Seq<u32>) -> Seq<u32>
    decreases s.len(),
{
    if s.len() == 0 {
        Seq::empty()
    } else {
        positives(s.drop_last()) + if s.last() > 0 {
            seq![s.last()]
        } else {
            Seq::empty()
        }
    }
}

/// The sum of all samples.
pub open spec fn seq_sum(s: Seq<u32>) -> int
    decreases s.len(),
{
    if s.len() == 0 {
        0
    } else {
        seq_sum(s.drop_last()) + s.last() as int
    }
}

/// The largest sample, zero when there is none.
pub open spec fn max_sample(s: Seq<u32>) -> int
    decreases s.len(),
{
    if s.len() == 0 {
        0
    } else if s.last() as int >= max_sample(s.drop_last()) {
        s.last() as int
    } else {
        max_sample(s.drop_last())
    }
}

/// The smallest strictly positive sample, zero when there is none.
pub open spec fn min_positive(s: Seq<u32>) -> int
    decreases s.len(),
{
    if s.len() == 0 {
        0
    } else {
        let rest = min_positive(s.drop_last());
        if s.last() > 0 && (rest == 0 || s.last() < rest) {
            s.last() as int
        } else {
            rest
        }
    }
}

pub proof fn lemma_count_up_bounds(s: Seq<u32>)
    ensures
        0 <= count_up(s) <= s.len(),
    decreases s.len(),
{
    if s.len() > 0 {
        lemma_count_up_bounds(s.drop_last());
    }
}

pub proof fn lemma_count_up_take_step(s: Seq<u32>, i: int)
    requires
        0 <= i < s.len(),
    ensures
        count_up(s.take(i + 1)) == count_up(s.take(i)) + if s[i] > 0 {
            1int
        } else {
            0int
        },
{
    assert(s.take(i + 1).drop_last() =~= s.take(i));
    assert(s.take(i + 1).last() == s[i]);
}

pub proof fn lemma_sum_up_take_step(s: Seq<u32>, i: int)
    requires
        0 <= i < s.len(),
    ensures
        sum_up(s.take(i + 1)) == sum_up(s.take(i)) + if s[i] > 0 {
            s[i] as int
        } else {
            0int
        },
{
    assert(s.take(i + 1).drop_last() =~= s.take(i));
    assert(s.take(i + 1).last() == s[i]);
}

/// A bound on every sample bounds the sum of the positive ones.
pub proof fn lemma_sum_up_bound(s: Seq<u32>, b: int)
    requires
        forall|i: int| 0 <= i < s.len() ==> s[i] <= b,
        0 <= b,
    ensures
        0 <= sum_up(s) <= s.len() * b,
    decreases s.len(),
{
    if s.len() == 0 {
    } else {
        lemma_sum_up_bound(s.drop_last(), b);
        assert((s.len() - 1) * b + b == s.len() * b) by (nonlinear_arith)
            requires 0 <= b && s.len() >= 1;
    }
}

pub proof fn lemma_seq_sum_take_step(s: Seq<u32>, i: int)
    requires
        0 <= i < s.len(),
    ensures
        seq_sum(s.take(i + 1)) == seq_sum(s.take(i)) + s[i] as int,
{
    assert(s.take(i + 1).drop_last() =~= s.take(i));
    assert(s.take(i + 1).last() == s[i]);
}

/// A bound on every sample bounds the sum.
pub proof fn lemma_seq_sum_bound(s: Seq<u32>, b: int)
    requires
        forall|i: int| 0 <= i < s.len() ==> s[i] <= b,
        0 <= b,
    ensures
        0 <= seq_sum(s) <= s.len() * b,
    decreases s.len(),
{
    if s.len() == 0 {
    } else {
        lemma_seq_sum_bound(s.drop_last(), b);
        assert((s.len() - 1) * b + b == s.len() * b) by (nonlinear_arith)
            requires 0 <= b && s.len() >= 1;
    }
}

/// The sum of the positive samples is bounded by their count times a
/// bound on the sample values.
pub proof fn lemma_sum_up_le_count_mul(s: Seq<u32>, b: int)
    requires
        forall|i: int| 0 <= i < s.len() ==> s[i] <= b,
        0 <= b,
    ensures
        0 <= sum_up(s) <= count_up(s) * b,
    decreases s.len(),
{
    lemma_count_up_bounds(s);
    if s.len() == 0 {
    } else {
        lemma_sum_up_le_count_mul(s.drop_last(), b);
        lemma_count_up_bounds(s.drop_last());
        let c = count_up(s.drop_last());
        if s.last() > 0 {
            assert(c * b + b == (c + 1) * b) by (nonlinear_arith);
        }
    }
}

/// The smallest positive sample never exceeds the largest sample.
pub proof fn lemma_min_positive_le_max_sample(s: Seq<u32>)
    ensures
        0 <= min_positive(s),
        0 <= max_sample(s),
        min_positive(s) <= max_sample(s),
    decreases s.len(),
{
    if s.len() > 0 {
        lemma_min_positive_le_max_sample(s.drop_last());
    }
}

/// The positive samples are a subsequence: no longer than the input,
/// every element strictly positive, every bound on the input kept.
pub proof fn lemma_positives_facts(s: Seq<u32>, b: int)
    requires
        forall|i: int| 0 <= i < s.len() ==> s[i] <= b,
    ensures
        positives(s).len() <= s.len(),
        forall|i: int| 0 <= i < positives(s).len() ==> positives(s)[i] > 0,
        forall|i: int| 0 <= i < positives(s).len() ==> positives(s)[i] <= b,
    decreases s.len(),
{
    if s.len() > 0 {
        lemma_positives_facts(s.drop_last(), b);
    }
}

pub proof fn lemma_positives_take_step(s: Seq<u32>, i: int)
    requires
        0 <= i < s.len(),
    ensures
        positives(s.take(i + 1)) == positives(s.take(i)) + if s[i] > 0 {
            seq![s[i]]
        } else {
            Seq::<u32>::empty()
        },
{
    assert(s.take(i + 1).drop_last() =~= s.take(i));
    assert(s.take(i + 1).last() == s[i]);
}

pub proof fn lemma_max_sample_take_step(s: Seq<u32>, i: int)
    requires
        0 <= i < s.len(),
    ensures
        max_sample(s.take(i + 1)) == if s[i] as int >= max_sample(s.take(i)) {
            s[i] as int
        } else {
            max_sample(s.take(i))
        },
{
    assert(s.take(i + 1).drop_last() =~= s.take(i));
    assert(s.take(i + 1).last() == s[i]);
}

pub proof fn lemma_min_positive_take_step(s: Seq<u32>, i: int)
    requires
        0 <= i < s.len(),
    ensures
        min_positive(s.take(i + 1)) == ({
            let rest = min_positive(s.take(i));
            if s[i] > 0 && (rest == 0 || (s[i] as int) < rest) {
                s[i] as int
            } else {
                rest
            }
        }),
{
    assert(s.take(i + 1).drop_last() =~= s.take(i));
    assert(s.take(i + 1).last() == s[i]);
}

pub proof fn lemma_max_sample_bounds(s: Seq<u32>, b: int)
    requires
        forall|i: int| 0 <= i < s.len() ==> s[i] <= b,
        0 <= b,
    ensures
        0 <= max_sample(s) <= b,
    decreases s.len(),
{
    if s.len() > 0 {
        lemma_max_sample_bounds(s.drop_last(), b);
    }
}

pub proof fn lemma_min_positive_bounds(s: Seq<u32>, b: int)
    requires
        forall|i: int| 0 <= i < s.len() ==> s[i] <= b,
        0 <= b,
    ensures
        0 <= min_positive(s) <= b,
    decreases s.len(),
{
    if s.len() > 0 {
        lemma_min_positive_bounds(s.drop_last(), b);
    }
}

/// The stored readings clamped into samples: positive readings kept,
/// everything else (down markers and bad values) mapped to zero.
pub open spec fn clamped(s: Seq<i32>) -> Seq<u32> {
    Seq::new(s.len(), |i: int| if s[i] > 0 {
        s[i] as u32
    } else {
        0u32
    })
}

/// Turns the store's raw readings into the sample window the
/// aggregation functions consume.
pub fn clamp_samples(raw: &Vec<i32>) -> (r: std::collections::VecDeque<u32>)
    ensures
        r@ == clamped(raw@),
        forall|i: int| 0 <= i < r@.len() ==> r@[i] <= MAX_SAMPLE,
{
    let mut r = std::collections::VecDeque::<u32>::new();
    let n = raw.len();
    for idx in 0..n
        invariant
            n == raw@.len(),
            r@.len() == idx,
            forall|j: int| 0 <= j < idx ==> r@[j] == clamped(raw@)[j],
    {
        let x = raw[idx];
        if x > 0 {
            r.push_back(x as u32);
        } else {
            r.push_back(0);
        }
    }
    proof {
        assert(r@ =~= clamped(raw@));
        assert forall|i: int| 0 <= i < r@.len() implies r@[i] <= MAX_SAMPLE by {
            assert(r@[i] == clamped(raw@)[i]);
        }
    }
    r
}

/// Uptime over a trailing window, in hundredths of a percent.
///
/// An empty sample set reports full health; otherwise the window clamps
/// to the stored length and the share of "up" samples in the first
/// `window` stored samples is rounded to the nearest hundredth.
pub open spec fn spec_uptime(s: Seq<u32>, window: int) -> int
    recommends
        1 <= window,
{
    if s.len() == 0 {
        10000
    } else {
        let w = if window < s.len() {
            window
        } else {
            s.len() as int
        };
        div_round_half_even(count_up(s.take(w)) * 10000, w)
    }
}

/// The uptime is a percentage: between zero and one hundred percent.
pub proof fn lemma_uptime_in_range(s: Seq<u32>, window: int)
    requires
        1 <= window,
    ensures
        0 <= spec_uptime(s, window) <= 10000,
{
    if s.len() > 0 {
        let w = if window < s.len() {
            window
        } else {
            s.len() as int
        };
        lemma_count_up_bounds(s.take(w));
        let up = count_up(s.take(w));
        lemma_mul_inequality(up, w, 10000);
        lemma_mul_is_commutative(w, 10000);
        crate::rounding::lemma_div_round_le_bound(up * 10000, w, 10000);
        crate::rounding::lemma_div_round_le_self(up * 10000, w);
    }
}

/// Percentage of "up" samples within a trailing window of `window`
/// samples, in hundredths of a percent (`7500` is `75.00%`).
pub fn calculate_uptime(data: &std::collections::VecDeque<u32>, window: usize) -> (r: u32)
    requires
        1 <= window,
    ensures
        r == spec_uptime(data@, window as int),
        r <= 10000,
        data@.len() == 0 ==> r == 10000,
{
    proof {
        lemma_uptime_in_range(data@, window as int);
    }
    if data.len() == 0 {
        return 10000;
    }
    let actual_window = if window < data.len() {
        window
    } else {
        data.len()
    };
    let mut up_count: usize = 0;
    for i in 0..actual_window
        invariant
            1 <= actual_window <= data@.len(),
            actual_window == if (window as int) < data@.len() {
                window as int
            } else {
                data@.len() as int
            },
            up_count == count_up(data@.take(i as int)),
            up_count <= i,
    {
        proof {
            lemma_count_up_take_step(data@, i as int);
        }
        if data[i] > 0 {
            up_count = up_count + 1;
        }
    }
    let q = crate::rounding::rounded_div_u128((up_count as u128) * 10000, actual_window as u128);
    proof {
        assert(data@.take(actual_window as int).len() == actual_window);
    }
    q as u32
}

} // verus!
