//! The response-time trend graph: daily averages over a bounded recent
//! window, downsampling to a fixed point budget, normalized plot
//! coordinates and axis tick values.

use crate::rounding::{div_round_half_even, lemma_div_round_le_bound, lemma_div_round_le_self};
use crate::samples::{
    count_up, lemma_count_up_bounds, lemma_count_up_take_step, lemma_max_sample_bounds,
    lemma_max_sample_take_step, lemma_min_positive_bounds, lemma_min_positive_le_max_sample,
    lemma_min_positive_take_step, lemma_positives_facts, lemma_positives_take_step,
    lemma_seq_sum_bound, lemma_seq_sum_take_step, lemma_sum_up_bound, lemma_sum_up_le_count_mul,
    lemma_sum_up_take_step, max_sample, min_positive, positives, seq_sum, sum_up, MAX_SAMPLE,
};
use crate::segments::{ceil_div, day_slice, lemma_day_start_in_range};
use vstd::arithmetic::div_mod::{
    lemma_div_is_ordered, lemma_div_multiples_vanish, lemma_div_pos_is_pos,
    lemma_fundamental_div_mod, lemma_mod_division_less_than_divisor,
};
use vstd::arithmetic::mul::{lemma_mul_inequality, lemma_mul_is_commutative};
use vstd::prelude::*;

verus! {

/// One plotted point: horizontal and vertical positions in tenths of a
/// percent of the plot area, and the raw millisecond value.
#[derive(Clone, Copy, Debug, PartialEq, Eq, Structural)]
pub struct GraphPoint {
    pub left_tenths: u32,
    pub bottom_tenths: u32,
    pub value: u32,
}

/// The render-ready trend graph for one service.
#[derive(Clone, Debug)]
pub struct TrendGraph {
    pub points: Vec<GraphPoint>,
    pub y_axis_steps: Vec<u32>,
    pub max_response: u32,
    pub min_response: u32,
    pub avg_response: u32,
}

/// The recent window: the first `window` stored samples.
pub open spec fn spec_recent(s: Seq<u32>, window: int) -> Seq<u32> {
    if window < s.len() {
        s.take(window)
    } else {
        s
    }
}

/// The daily-average entry of one day bucket: the truncated mean of its
/// positive samples, or nothing when the bucket has none.
pub open spec fn bucket_avg_entry(s: Seq<u32>, day_length: int, day: int) -> Seq<u32> {
    let sl = day_slice(s, day_length, day);
    if count_up(sl) > 0 {
        seq![((sum_up(sl) / count_up(sl)) as u32)]
    } else {
        Seq::empty()
    }
}

/// The daily averages of the first `d` day buckets, in day order.
pub open spec fn daily_avgs_upto(s: Seq<u32>, day_length: int, d: int) -> Seq<u32>
    decreases d,
{
    if d <= 0 {
        Seq::empty()
    } else {
        daily_avgs_upto(s, day_length, d - 1) + bucket_avg_entry(s, day_length, d - 1)
    }
}

/// The per-day positive-sample averages of the whole sample sequence.
pub open spec fn spec_daily_avgs(s: Seq<u32>, day_length: int) -> Seq<u32> {
    daily_avgs_upto(s, day_length, ceil_div(s.len() as int, day_length))
}

/// Upper axis bound: the largest daily average plus a 50 ms margin.
pub open spec fn spec_max_daily(avgs: Seq<u32>) -> int {
    if avgs.len() == 0 {
        0
    } else {
        max_sample(avgs) + 50
    }
}

/// Lower axis bound: the smallest positive daily average minus a 50 ms
/// margin, floored at zero.
pub open spec fn spec_min_daily(avgs: Seq<u32>) -> int {
    if avgs.len() == 0 {
        0
    } else {
        let mp = min_positive(avgs);
        if mp > 50 {
            mp - 50
        } else {
            0
        }
    }
}

/// The plotted values: all valid points when they fit the budget,
/// otherwise the averages of `budget` contiguous equal-size chunks.
pub open spec fn plotted_values(vp: Seq<u32>, budget: int) -> Seq<u32>
    recommends
        1 <= budget,
{
    if vp.len() <= budget {
        vp
    } else {
        let step = vp.len() as int / budget;
        Seq::new(budget as nat, |i: int| ((seq_sum(vp.subrange(i * step, i * step + step)) / step) as u32))
    }
}

/// Horizontal position of point `i` of `n`, in tenths of a percent:
/// a 2.5% margin each side, the rest spread evenly.
pub open spec fn left_tenths_at(i: int, n: int) -> int {
    25 + div_round_half_even(950 * i, if n - 1 >= 1 {
        n - 1
    } else {
        1
    })
}

/// Vertical position in tenths of a percent: the value scaled into the
/// axis range over 80% of the plot height, capped at 80%.
pub open spec fn bottom_tenths_at(v: int, min_avg: int, range: int) -> int {
    if v > min_avg && range > 0 {
        let b = div_round_half_even((v - min_avg) * 800, range);
        if b > 800 {
            800
        } else {
            b
        }
    } else {
        0
    }
}

/// The plotted points for a value sequence and axis bounds.
pub open spec fn spec_points(values: Seq<u32>, min_avg: int, range: int) -> Seq<GraphPoint> {
    Seq::new(
        values.len(),
        |i: int|
            (GraphPoint {
                left_tenths: left_tenths_at(i, values.len() as int) as u32,
                bottom_tenths: bottom_tenths_at(values[i] as int, min_avg, range) as u32,
                value: values[i],
            }),
    )
}

/// The five y-axis tick values: the lower bound plus quarter-range
/// steps, truncating division.
pub open spec fn spec_y_steps(min_avg: int, range: int) -> Seq<u32> {
    Seq::new(5, |i: int| ((min_avg + (range / 4) * i) as u32))
}

/// Copies the first `window` stored samples.
fn take_recent(samples: &std::collections::VecDeque<u32>, window: usize) -> (r: Vec<u32>)
    ensures
        r@ == spec_recent(samples@, window as int),
        r@.len() <= samples@.len(),
        forall|i: int| 0 <= i < r@.len() ==> r@[i] == samples@[i],
{
    let n = if window < samples.len() {
        window
    } else {
        samples.len()
    };
    let mut r: Vec<u32> = Vec::new();
    for i in 0..n
        invariant
            n <= samples@.len(),
            r@.len() == i,
            forall|j: int| 0 <= j < i ==> r@[j] == samples@[j],
    {
        r.push(samples[i]);
    }
    proof {
        if (window as int) < samples@.len() {
            assert(r@ =~= samples@.take(window as int));
        } else {
            assert(r@ =~= samples@);
        }
    }
    r
}

/// The strictly positive samples, order kept.
fn collect_positives(v: &Vec<u32>) -> (r: Vec<u32>)
    ensures
        r@ == positives(v@),
{
    let mut r: Vec<u32> = Vec::new();
    let n = v.len();
    for i in 0..n
        invariant
            n == v@.len(),
            r@ == positives(v@.take(i as int)),
    {
        proof {
            lemma_positives_take_step(v@, i as int);
        }
        if v[i] > 0 {
            r.push(v[i]);
        }
        proof {
            assert(r@ =~= positives(v@.take(i as int + 1)));
        }
    }
    proof {
        assert(v@.take(n as int) =~= v@);
    }
    r
}

/// The largest element, zero when there is none.
fn max_of(v: &Vec<u32>) -> (r: u32)
    ensures
        r == max_sample(v@),
{
    let mut r: u32 = 0;
    let n = v.len();
    for i in 0..n
        invariant
            n == v@.len(),
            r == max_sample(v@.take(i as int)),
    {
        proof {
            lemma_max_sample_take_step(v@, i as int);
        }
        if v[i] >= r {
            r = v[i];
        }
    }
    proof {
        assert(v@.take(n as int) =~= v@);
    }
    r
}

/// The smallest strictly positive element, zero when there is none.
fn min_pos_of(v: &Vec<u32>) -> (r: u32)
    ensures
        r == min_positive(v@),
{
    let mut r: u32 = 0;
    let n = v.len();
    for i in 0..n
        invariant
            n == v@.len(),
            r == min_positive(v@.take(i as int)),
    {
        proof {
            lemma_min_positive_take_step(v@, i as int);
        }
        if v[i] > 0 && (r == 0 || v[i] < r) {
            r = v[i];
        }
    }
    proof {
        assert(v@.take(n as int) =~= v@);
    }
    r
}

/// The truncated mean of the daily averages, zero when there are none.
pub open spec fn spec_avg_response(avgs: Seq<u32>) -> int {
    if avgs.len() == 0 {
        0
    } else {
        seq_sum(avgs) / avgs.len() as int
    }
}

/// The daily averages of the recent window.
pub open spec fn spec_graph_avgs(s: Seq<u32>, window: int, day_length: int) -> Seq<u32> {
    spec_daily_avgs(spec_recent(s, window), day_length)
}

/// The plotted value sequence of the recent window.
pub open spec fn spec_graph_plotted(s: Seq<u32>, window: int, budget: int) -> Seq<u32> {
    plotted_values(positives(spec_recent(s, window)), budget)
}

/// Computes the per-day averages of the positive samples, one entry
/// per day bucket that has any positive sample.
fn daily_averages(recent: &Vec<u32>, day_length: usize) -> (r: Vec<u32>)
    requires
        1 <= day_length,
        recent@.len() + day_length <= usize::MAX,
        forall|i: int| 0 <= i < recent@.len() ==> recent@[i] <= MAX_SAMPLE,
    ensures
        r@ == spec_daily_avgs(recent@, day_length as int),
        forall|i: int| 0 <= i < r@.len() ==> #[trigger] r@[i] <= MAX_SAMPLE,
{
    let ghost s = recent@;
    let ghost dl = day_length as int;
    let total = recent.len();
    let days = (total + day_length - 1) / day_length;
    let mut r: Vec<u32> = Vec::new();
    for day in 0..days
        invariant
            s == recent@,
            dl == day_length as int,
            1 <= day_length,
            total == s.len(),
            s.len() + dl <= usize::MAX,
            days == ceil_div(s.len() as int, dl),
            forall|i: int| 0 <= i < s.len() ==> s[i] <= MAX_SAMPLE,
            r@ == daily_avgs_upto(s, dl, day as int),
            forall|i: int| 0 <= i < r@.len() ==> #[trigger] r@[i] <= MAX_SAMPLE,
    {
        proof {
            lemma_day_start_in_range(total as int, dl, day as int);
        }
        let start = day * day_length;
        let end = if total - start > day_length {
            start + day_length
        } else {
            total
        };
        let ghost sl = day_slice(s, dl, day as int);
        proof {
            assert(sl =~= s.subrange(start as int, end as int));
        }
        let mut sum: u128 = 0;
        let mut cnt: usize = 0;
        for j in start..end
            invariant
                s == recent@,
                start <= j <= end,
                start < end <= s.len(),
                sl == s.subrange(start as int, end as int),
                forall|i: int| 0 <= i < s.len() ==> s[i] <= MAX_SAMPLE,
                sum == sum_up(sl.take(j - start)),
                cnt == count_up(sl.take(j - start)),
                cnt <= j - start,
        {
            proof {
                lemma_sum_up_take_step(sl, j - start);
                lemma_count_up_take_step(sl, j - start);
                lemma_count_up_bounds(sl.take(j - start));
                assert(sl[j - start] == s[j as int]);
                lemma_sum_up_bound(sl.take(j - start), MAX_SAMPLE as int);
                assert(sl.take(j - start).len() * (MAX_SAMPLE as int) + (MAX_SAMPLE as int)
                    <= u128::MAX) by (nonlinear_arith)
                    requires 0 <= sl.take(j - start).len() < 0x1_0000_0000_0000_0000;
            }
            let x = recent[j];
            if x > 0 {
                sum = sum + (x as u128);
                cnt = cnt + 1;
            }
        }
        proof {
            assert(sl.take(end - start) =~= sl);
        }
        if cnt > 0 {
            proof {
                lemma_sum_up_le_count_mul(sl, MAX_SAMPLE as int);
                lemma_div_is_ordered(sum_up(sl), count_up(sl) * (MAX_SAMPLE as int), count_up(sl));
                lemma_div_multiples_vanish(MAX_SAMPLE as int, count_up(sl));
                lemma_div_pos_is_pos(sum_up(sl), count_up(sl));
            }
            let avg = (sum / (cnt as u128)) as u32;
            r.push(avg);
        }
        proof {
            assert(r@ =~= daily_avgs_upto(s, dl, day as int + 1));
        }
    }
    r
}

/// Downsamples the valid points to the point budget by averaging
/// equal-size contiguous chunks; short inputs pass through unchanged.
fn downsample(vp: &Vec<u32>, budget: usize) -> (r: Vec<u32>)
    requires
        1 <= budget,
        forall|i: int| 0 <= i < vp@.len() ==> vp@[i] <= MAX_SAMPLE,
    ensures
        r@ == plotted_values(vp@, budget as int),
        r@.len() == if vp@.len() <= budget {
            vp@.len() as int
        } else {
            budget as int
        },
        forall|i: int| 0 <= i < r@.len() ==> #[trigger] r@[i] <= MAX_SAMPLE,
{
    let ghost s = vp@;
    let n = vp.len();
    if n <= budget {
        let mut r: Vec<u32> = Vec::new();
        for i in 0..n
            invariant
                n == s.len(),
                s == vp@,
                r@.len() == i,
                forall|j: int| 0 <= j < i ==> r@[j] == s[j],
        {
            r.push(vp[i]);
        }
        proof {
            assert(r@ =~= s);
        }
        return r;
    }
    let step = n / budget;
    proof {
        lemma_div_is_ordered(budget as int, n as int, budget as int);
        vstd::arithmetic::div_mod::lemma_div_by_self(budget as int);
        lemma_fundamental_div_mod(n as int, budget as int);
        lemma_mod_division_less_than_divisor(n as int, budget as int);
        assert((budget as int) * (step as int) <= n);
    }
    let ghost plotted = plotted_values(s, budget as int);
    let mut r: Vec<u32> = Vec::new();
    for i in 0..budget
        invariant
            s == vp@,
            n == s.len(),
            budget < n,
            1 <= step == s.len() as int / budget as int,
            (budget as int) * (step as int) <= s.len(),
            plotted == plotted_values(s, budget as int),
            plotted.len() == budget,
            forall|k: int| 0 <= k < s.len() ==> s[k] <= MAX_SAMPLE,
            r@.len() == i,
            forall|k: int| 0 <= k < i ==> r@[k] == plotted[k],
            forall|k: int| 0 <= k < i ==> #[trigger] r@[k] <= MAX_SAMPLE,
    {
        proof {
            lemma_mul_inequality(i as int + 1, budget as int, step as int);
            lemma_mul_is_commutative(i as int + 1, step as int);
            lemma_mul_is_commutative(budget as int, step as int);
            assert((i as int + 1) * (step as int) == (i as int) * (step as int) + step as int)
                by (nonlinear_arith);
            lemma_mul_is_commutative(i as int, step as int);
        }
        let start = i * step;
        let end = start + step;
        let ghost chunk = s.subrange(start as int, end as int);
        let mut sum: u128 = 0;
        for j in start..end
            invariant
                s == vp@,
                start <= j <= end,
                start < end <= s.len(),
                chunk == s.subrange(start as int, end as int),
                forall|k: int| 0 <= k < s.len() ==> s[k] <= MAX_SAMPLE,
                sum == seq_sum(chunk.take(j - start)),
        {
            proof {
                lemma_seq_sum_take_step(chunk, j - start);
                assert(chunk[j - start] == s[j as int]);
                lemma_seq_sum_bound(chunk.take(j - start), MAX_SAMPLE as int);
                assert(chunk.take(j - start).len() * (MAX_SAMPLE as int) + (MAX_SAMPLE as int)
                    <= u128::MAX) by (nonlinear_arith)
                    requires 0 <= chunk.take(j - start).len() < 0x1_0000_0000_0000_0000;
            }
            sum = sum + (vp[j] as u128);
        }
        proof {
            assert(chunk.take(end - start) =~= chunk);
            assert(chunk.len() == step);
            lemma_seq_sum_bound(chunk, MAX_SAMPLE as int);
            lemma_div_is_ordered(seq_sum(chunk), (step as int) * (MAX_SAMPLE as int), step as int);
            lemma_div_multiples_vanish(MAX_SAMPLE as int, step as int);
            lemma_div_pos_is_pos(seq_sum(chunk), step as int);
        }
        let avg = (sum / (step as u128)) as u32;
        proof {
            assert(avg <= MAX_SAMPLE);
        }
        r.push(avg);
        proof {
            assert(r@[i as int] == plotted[i as int]);
        }
    }
    proof {
        assert(r@ =~= plotted);
    }
    r
}

/// Maps each plotted value to its normalized plot coordinates.
fn plot_points(values: &Vec<u32>, min_avg: u32, range: u32) -> (r: Vec<GraphPoint>)
    requires
        forall|i: int| 0 <= i < values@.len() ==> values@[i] <= MAX_SAMPLE,
    ensures
        r@ == spec_points(values@, min_avg as int, range as int),
{
    let ghost s = values@;
    let n = values.len();
    let denom = if n >= 2 {
        n - 1
    } else {
        1
    };
    let mut r: Vec<GraphPoint> = Vec::new();
    for i in 0..n
        invariant
            s == values@,
            n == s.len(),
            denom == if n as int - 1 >= 1 {
                n as int - 1
            } else {
                1int
            },
            forall|k: int| 0 <= k < s.len() ==> s[k] <= MAX_SAMPLE,
            r@.len() == i,
            forall|k: int| 0 <= k < i ==> r@[k] == spec_points(s, min_avg as int, range as int)[k],
    {
        proof {
            lemma_mul_inequality(i as int, denom as int, 950);
            lemma_mul_is_commutative(i as int, 950);
            lemma_mul_is_commutative(denom as int, 950);
            lemma_div_round_le_bound(950 * (i as int), denom as int, 950);
            lemma_div_round_le_self(950 * (i as int), denom as int);
        }
        let lt = 25 + (crate::rounding::rounded_div_u128(950 * (i as u128), denom as u128) as u32);
        let v = values[i];
        let bt: u32 = if v > min_avg && range > 0 {
            proof {
                lemma_div_round_le_self(((v - min_avg) as int) * 800, range as int);
            }
            let b = crate::rounding::rounded_div_u128(((v - min_avg) as u128) * 800, range as u128);
            if b > 800 {
                800
            } else {
                b as u32
            }
        } else {
            0
        };
        r.push(GraphPoint { left_tenths: lt, bottom_tenths: bt, value: v });
        proof {
            assert(r@[i as int] == spec_points(s, min_avg as int, range as int)[i as int]);
        }
    }
    proof {
        assert(r@ =~= spec_points(s, min_avg as int, range as int));
    }
    r
}

/// The five y-axis tick values.
fn y_axis_steps(min_avg: u32, range: u32) -> (r: Vec<u32>)
    requires
        min_avg + range <= u32::MAX,
    ensures
        r@ == spec_y_steps(min_avg as int, range as int),
{
    proof {
        lemma_fundamental_div_mod(range as int, 4);
        lemma_mod_division_less_than_divisor(range as int, 4);
    }
    let step = range / 4;
    let mut r: Vec<u32> = Vec::new();
    r.push(min_avg);
    r.push(min_avg + step);
    r.push(min_avg + step * 2);
    r.push(min_avg + step * 3);
    r.push(min_avg + step * 4);
    proof {
        let sy = spec_y_steps(min_avg as int, range as int);
        assert(r@[0] == sy[0]);
        assert(r@[1] == sy[1]);
        assert(r@[2] == sy[2]);
        assert(r@[3] == sy[3]);
        assert(r@[4] == sy[4]);
        assert(r@ =~= sy);
    }
    r
}

/// The full statement of what a built graph holds for a sample
/// sequence: plotted points, axis ticks and the response summary, all
/// pinned to their defining functions.
pub open spec fn graph_matches(g: TrendGraph, s: Seq<u32>, window: int, day_length: int, budget: int) -> bool {
    let avgs = spec_graph_avgs(s, window, day_length);
    let min_avg = spec_min_daily(avgs);
    let range = spec_max_daily(avgs) - min_avg;
    &&& g.points@ == spec_points(spec_graph_plotted(s, window, budget), min_avg, range)
    &&& g.y_axis_steps@ == spec_y_steps(min_avg, range)
    &&& g.max_response == max_sample(spec_recent(s, window))
    &&& g.min_response == min_positive(spec_recent(s, window))
    &&& g.avg_response == spec_avg_response(avgs)
}

/// Builds the response-time trend graph over the first `recent_window`
/// stored samples: daily positive-sample averages set the axis bounds
/// and the reported average; the positive raw samples, downsampled to
/// `point_budget` points, are scaled into plot coordinates.
pub fn build_graph(
    samples: &std::collections::VecDeque<u32>,
    recent_window: usize,
    day_length: usize,
    point_budget: usize,
) -> (g: TrendGraph)
    requires
        1 <= day_length,
        1 <= point_budget,
        forall|i: int| 0 <= i < samples@.len() ==> samples@[i] <= MAX_SAMPLE,
        samples@.len() + day_length <= usize::MAX,
    ensures
        graph_matches(g, samples@, recent_window as int, day_length as int, point_budget as int),
        g.points@.len() <= point_budget,
        positives(spec_recent(samples@, recent_window as int)).len() <= point_budget
            ==> g.points@.len() == positives(spec_recent(samples@, recent_window as int)).len(),
{
    let recent = take_recent(samples, recent_window);
    let avgs = daily_averages(&recent, day_length);
    let ghost gavgs = spec_graph_avgs(samples@, recent_window as int, day_length as int);
    proof {
        assert(avgs@ == gavgs);
        lemma_min_positive_le_max_sample(avgs@);
        lemma_min_positive_bounds(avgs@, MAX_SAMPLE as int);
        lemma_max_sample_bounds(avgs@, MAX_SAMPLE as int);
    }
    let (min_avg, max_avg): (u32, u32) = if avgs.len() == 0 {
        (0, 0)
    } else {
        let mx = max_of(&avgs) + 50;
        let mp = min_pos_of(&avgs);
        let mn = if mp > 50 {
            mp - 50
        } else {
            0
        };
        (mn, mx)
    };
    proof {
        assert(min_avg == spec_min_daily(gavgs));
        assert(max_avg == spec_max_daily(gavgs));
        assert(min_avg <= max_avg);
    }
    let range = max_avg - min_avg;
    let valid = collect_positives(&recent);
    proof {
        lemma_positives_facts(recent@, MAX_SAMPLE as int);
    }
    let vals = downsample(&valid, point_budget);
    let points = plot_points(&vals, min_avg, range);
    let y_steps = y_axis_steps(min_avg, range);
    let max_response = max_of(&recent);
    let min_response = min_pos_of(&recent);
    let avg_response: u32 = if avgs.len() > 0 {
        proof {
            lemma_seq_sum_bound(avgs@, MAX_SAMPLE as int);
            lemma_div_is_ordered(
                seq_sum(avgs@),
                avgs@.len() as int * (MAX_SAMPLE as int),
                avgs@.len() as int,
            );
            lemma_div_multiples_vanish(MAX_SAMPLE as int, avgs@.len() as int);
            lemma_mul_is_commutative(avgs@.len() as int, MAX_SAMPLE as int);
            lemma_div_pos_is_pos(seq_sum(avgs@), avgs@.len() as int);
        }
        (sum_of(&avgs) / (avgs.len() as u128)) as u32
    } else {
        0
    };
    TrendGraph { points, y_axis_steps: y_steps, max_response, min_response, avg_response }
}

/// The sum of all elements.
fn sum_of(v: &Vec<u32>) -> (r: u128)
    ensures
        r == seq_sum(v@),
{
    let mut r: u128 = 0;
    let n = v.len();
    for i in 0..n
        invariant
            n == v@.len(),
            r == seq_sum(v@.take(i as int)),
    {
        proof {
            lemma_seq_sum_take_step(v@, i as int);
            lemma_seq_sum_bound(v@.take(i as int), u32::MAX as int);
            assert(v@.take(i as int).len() * (u32::MAX as int) + (u32::MAX as int) <= u128::MAX)
                by (nonlinear_arith)
                requires 0 <= v@.take(i as int).len() < 0x1_0000_0000_0000_0000;
        }
        r = r + (v[i] as u128);
    }
    proof {
        assert(v@.take(n as int) =~= v@);
    }
    r
}

} // verus!
