//! The daily status timeline: samples bucketed into fixed-size day
//! buckets, each classified as up, partial, down or no-data, padded at
//! the front to a fixed day count.

use crate::rounding::{div_round_half_even, lemma_div_round_le_bound, lemma_div_round_le_self};
use crate::samples::{count_up, lemma_count_up_bounds, lemma_count_up_take_step};
use crate::text::tenths_percent_str;
use vstd::arithmetic::div_mod::{
    lemma_fundamental_div_mod, lemma_mod_division_less_than_divisor,
};
use vstd::arithmetic::mul::{lemma_mul_inequality, lemma_mul_is_commutative};
use vstd::prelude::*;

verus! {

/// Health classification of one day bucket.
#[derive(Clone, Copy, Debug, PartialEq, Eq, Structural)]
pub enum SegmentKind {
    Up,
    Partial,
    Down,
    NoData,
}

/// One day of the status strip: a classification and the human-readable
/// uptime description shown for it.
#[derive(Clone, Debug)]
pub struct DaySegment {
    pub kind: SegmentKind,
    pub description: String,
}

/// Days needed to hold `n` samples at `d` samples per day, rounded up.
pub open spec fn ceil_div(n: int, d: int) -> int
    recommends
        0 <= n,
        1 <= d,
{
    (n + d - 1) / d
}

/// The samples of one day bucket: a `points_per_day`-sized slice, the
/// last bucket possibly shorter.
pub open spec fn day_slice(s: Seq<u32>, points_per_day: int, day: int) -> Seq<u32>
    recommends
        1 <= points_per_day,
        0 <= day,
        day * points_per_day < s.len(),
{
    let lo = day * points_per_day;
    let hi = if lo + points_per_day < s.len() {
        lo + points_per_day
    } else {
        s.len() as int
    };
    s.subrange(lo, hi)
}

/// Classification of a day bucket: more than half the samples down is
/// `Down`, more than a quarter `Partial`, otherwise `Up`; an empty
/// bucket has no data.
pub open spec fn kind_of_day(day: Seq<u32>) -> SegmentKind {
    if day.len() == 0 {
        SegmentKind::NoData
    } else {
        let down = day.len() - count_up(day);
        if 2 * down > day.len() {
            SegmentKind::Down
        } else if 4 * down > day.len() {
            SegmentKind::Partial
        } else {
            SegmentKind::Up
        }
    }
}

/// The day's uptime share in tenths of a percent, rounded to nearest.
pub open spec fn day_up_tenths(day: Seq<u32>) -> int
    recommends
        day.len() > 0,
{
    div_round_half_even(count_up(day) * 1000, day.len() as int)
}

/// The description shown for a day bucket: its uptime percentage with
/// one decimal, or `"No data"`.
pub open spec fn desc_of_day(day: Seq<u32>) -> Seq<char> {
    if day.len() == 0 {
        "No data"@
    } else {
        tenths_percent_str(day_up_tenths(day))
    }
}

/// Leading no-data entries when fewer days of history exist than the
/// strip displays.
pub open spec fn pad_len(s: Seq<u32>, points_per_day: int, max_days: int) -> int {
    let avail = ceil_div(s.len() as int, points_per_day);
    if avail < max_days {
        max_days - avail
    } else {
        0
    }
}

/// Classification of entry `i` of the strip: front padding first, then
/// the day buckets oldest-first.
pub open spec fn segment_kind_at(s: Seq<u32>, points_per_day: int, max_days: int, i: int) -> SegmentKind {
    if i < pad_len(s, points_per_day, max_days) {
        SegmentKind::NoData
    } else {
        kind_of_day(day_slice(s, points_per_day, i - pad_len(s, points_per_day, max_days)))
    }
}

/// Description of entry `i` of the strip.
pub open spec fn segment_desc_at(s: Seq<u32>, points_per_day: int, max_days: int, i: int) -> Seq<char> {
    if i < pad_len(s, points_per_day, max_days) {
        "No data"@
    } else {
        desc_of_day(day_slice(s, points_per_day, i - pad_len(s, points_per_day, max_days)))
    }
}

/// A day index below the rounded-up day count starts inside the stored
/// samples.
pub(crate) proof fn lemma_day_start_in_range(total: int, points_per_day: int, day: int)
    requires
        0 <= total,
        1 <= points_per_day,
        0 <= day < ceil_div(total, points_per_day),
    ensures
        day * points_per_day < total,
        day * points_per_day <= (ceil_div(total, points_per_day) - 1) * points_per_day,
{
    let avail = ceil_div(total, points_per_day);
    lemma_fundamental_div_mod(total + points_per_day - 1, points_per_day);
    lemma_mod_division_less_than_divisor(total + points_per_day - 1, points_per_day);
    assert(points_per_day * avail <= total + points_per_day - 1);
    lemma_mul_inequality(day, avail - 1, points_per_day);
    lemma_mul_is_commutative(avail - 1, points_per_day);
    lemma_mul_is_commutative(avail, points_per_day);
    assert((avail - 1) * points_per_day == avail * points_per_day - points_per_day)
        by (nonlinear_arith);
}

/// Buckets the samples into day-sized slices, classifies each, and pads
/// the front with no-data entries so that exactly `max_days` entries
/// come back, the most recent history at the end.
#[verifier::rlimit(60)]
pub fn segment_days(samples: &std::collections::VecDeque<u32>, points_per_day: usize, max_days: usize) -> (r:
    Vec<DaySegment>)
    requires
        1 <= points_per_day,
        samples@.len() + points_per_day <= usize::MAX,
    ensures
        r@.len() == max_days,
        forall|i: int|
            0 <= i < max_days ==> #[trigger] r@[i].kind == segment_kind_at(
                samples@,
                points_per_day as int,
                max_days as int,
                i,
            ),
        forall|i: int|
            0 <= i < max_days ==> #[trigger] r@[i].description@ == segment_desc_at(
                samples@,
                points_per_day as int,
                max_days as int,
                i,
            ),
{
    let ghost s = samples@;
    let ghost ppd = points_per_day as int;
    let total = samples.len();
    let avail = (total + points_per_day - 1) / points_per_day;
    let limit = if avail < max_days {
        avail
    } else {
        max_days
    };
    let pad = max_days - limit;
    proof {
        assert(pad == pad_len(s, ppd, max_days as int));
    }
    let mut segs: Vec<DaySegment> = Vec::new();
    for k in 0..pad
        invariant
            pad <= max_days,
            pad == pad_len(s, ppd, max_days as int),
            segs@.len() == k,
            forall|i: int| 0 <= i < k ==> #[trigger] segs@[i].kind == SegmentKind::NoData,
            forall|i: int| 0 <= i < k ==> #[trigger] segs@[i].description@ == "No data"@,
    {
        segs.push(DaySegment { kind: SegmentKind::NoData, description: String::from_str("No data") });
    }
    for day in 0..limit
        invariant
            s == samples@,
            ppd == points_per_day as int,
            1 <= points_per_day,
            total == s.len(),
            s.len() + ppd <= usize::MAX,
            avail == ceil_div(s.len() as int, ppd),
            limit == if avail < max_days {
                avail as int
            } else {
                max_days as int
            },
            pad == pad_len(s, ppd, max_days as int),
            pad + limit == max_days,
            segs@.len() == pad + day,
            forall|i: int|
                0 <= i < pad + day ==> #[trigger] segs@[i].kind == segment_kind_at(
                    s,
                    ppd,
                    max_days as int,
                    i,
                ),
            forall|i: int|
                0 <= i < pad + day ==> #[trigger] segs@[i].description@ == segment_desc_at(
                    s,
                    ppd,
                    max_days as int,
                    i,
                ),
    {
        proof {
            lemma_day_start_in_range(total as int, ppd, day as int);
        }
        let start = day * points_per_day;
        let end = if total - start > points_per_day {
            start + points_per_day
        } else {
            total
        };
        let ghost slice = day_slice(s, ppd, day as int);
        proof {
            assert(slice =~= s.subrange(start as int, end as int));
            assert(slice.len() == end - start);
        }
        let mut up_count: usize = 0;
        for j in start..end
            invariant
                s == samples@,
                start <= j <= end,
                start < end <= s.len(),
                slice == s.subrange(start as int, end as int),
                up_count == count_up(slice.take(j - start)),
                up_count <= j - start,
        {
            proof {
                lemma_count_up_take_step(slice, j - start);
                assert(slice[j - start] == s[j as int]);
            }
            if samples[j] > 0 {
                up_count = up_count + 1;
            }
        }
        proof {
            assert(slice.take(end - start) =~= slice);
            lemma_count_up_bounds(slice);
        }
        let len = end - start;
        let down = len - up_count;
        let kind = if (down as u128) * 2 > (len as u128) {
            SegmentKind::Down
        } else if (down as u128) * 4 > (len as u128) {
            SegmentKind::Partial
        } else {
            SegmentKind::Up
        };
        proof {
            assert(kind == kind_of_day(slice));
            lemma_mul_inequality(count_up(slice), slice.len() as int, 1000);
            lemma_mul_is_commutative(slice.len() as int, 1000);
            lemma_div_round_le_bound(count_up(slice) * 1000, slice.len() as int, 1000);
            lemma_div_round_le_self(count_up(slice) * 1000, slice.len() as int);
        }
        let tenths = crate::rounding::rounded_div_u128((up_count as u128) * 1000, len as u128);
        let description = crate::text::format_tenths_percent(tenths as u32);
        segs.push(DaySegment { kind, description });
        proof {
            assert(segs@[pad + day].kind == segment_kind_at(s, ppd, max_days as int, pad + day));
            assert(segs@[pad + day].description@ == segment_desc_at(
                s,
                ppd,
                max_days as int,
                pad + day,
            ));
        }
    }
    segs
}

} // verus!
