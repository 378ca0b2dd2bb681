//! Threshold selection on a histogram.
//!
//! The samples are counted into `HISTOGRAM_BINS` bins. Every bin `t` that has
//! samples at or below it and samples above it is a candidate split of the
//! samples into a background (bins `0..=t`) and a foreground (the bins above
//! `t`). The caller scores a split and ranks a score against the best one so
//! far; the selection walks the bins upwards, remembers the first and the last
//! bin that reached the best score, and returns the bin halfway between them.

use vstd::prelude::*;
use crate::ops::{
    is_function1,
    is_function2,
    lemma_result1,
    lemma_result2,
    result1,
    result2,
    returns1,
    returns2,
};

verus! {

/// Number of bins of a histogram.
pub const HISTOGRAM_BINS: usize = 256;

/// The bin that counts a sample whose raw bin is `raw`: bins past the last one
/// are counted in the last one.
pub open spec fn clamped_bin(raw: usize) -> int {
    if raw < HISTOGRAM_BINS {
        raw as int
    } else {
        HISTOGRAM_BINS - 1
    }
}

/// Number of samples among `values` that fall in bin `b`, where `bin_of` gives
/// the raw bin of a sample.
pub open spec fn tally<T, B: Fn(T) -> usize>(values: Seq<T>, bin_of: B, b: int) -> nat
    decreases values.len(),
{
    if values.len() == 0 {
        0
    } else {
        let rest = tally(values.drop_last(), bin_of, b);
        if clamped_bin(result1(bin_of, values.last())) == b {
            rest + 1
        } else {
            rest
        }
    }
}

/// Number of samples in the bins below `upto`.
pub open spec fn count_below(counts: Seq<u64>, upto: int) -> nat
    decreases upto,
{
    if upto <= 0 {
        0
    } else {
        count_below(counts, upto - 1) + counts[upto - 1] as nat
    }
}

/// Sum of the bin indices of the samples in the bins below `upto`.
pub open spec fn sum_below(counts: Seq<u64>, upto: int) -> nat
    decreases upto,
{
    if upto <= 0 {
        0
    } else {
        sum_below(counts, upto - 1) + ((upto - 1) * counts[upto - 1]) as nat
    }
}

/// The counts below a bin do not exceed the counts below a later bin.
pub proof fn lemma_count_below_monotone(counts: Seq<u64>, from: int, to: int)
    requires
        from <= to,
    ensures
        count_below(counts, from) <= count_below(counts, to),
    decreases to - from,
{
    if from < to {
        lemma_count_below_monotone(counts, from, to - 1);
    }
}

/// The sum of the bin indices below `upto` is at most the largest index times
/// the number of samples.
pub proof fn lemma_sum_below_bound(counts: Seq<u64>, upto: int)
    requires
        0 <= upto,
    ensures
        sum_below(counts, upto) <= upto * count_below(counts, upto),
    decreases upto,
{
    if upto > 0 {
        lemma_sum_below_bound(counts, upto - 1);
        let c = counts[upto - 1] as nat;
        let below = count_below(counts, upto - 1);
        assert((upto - 1) * below + (upto - 1) * c <= upto * (below + c)) by (nonlinear_arith)
            requires
                upto >= 1,
                below >= 0,
                c >= 0,
        ;
        assert((upto - 1) * c >= 0) by (nonlinear_arith)
            requires
                upto >= 1,
                c >= 0,
        ;
    }
}

/// The sums of bin indices below a bin do not exceed those below a later bin.
pub proof fn lemma_sum_below_monotone(counts: Seq<u64>, from: int, to: int)
    requires
        0 <= from <= to,
    ensures
        sum_below(counts, from) <= sum_below(counts, to),
    decreases to - from,
{
    if from < to {
        lemma_sum_below_monotone(counts, from, to - 1);
        assert((to - 1) * counts[to - 1] >= 0) by (nonlinear_arith)
            requires
                to - 1 >= 0,
                counts[to - 1] >= 0,
        ;
    }
}

/// Counting one more sample in bin `b` raises the count below `upto` by one if
/// `b` lies below `upto`, and leaves it otherwise.
proof fn lemma_count_below_update(counts: Seq<u64>, b: int, upto: int)
    requires
        0 <= b < counts.len(),
        0 <= upto <= counts.len(),
        counts[b] < u64::MAX,
    ensures
        count_below(counts.update(b, (counts[b] + 1) as u64), upto) == count_below(counts, upto)
            + if b < upto {
            1nat
        } else {
            0nat
        },
    decreases upto,
{
    if upto > 0 {
        lemma_count_below_update(counts, b, upto - 1);
    }
}

/// A bin holds no more samples than all bins up to and including it.
proof fn lemma_count_at_most_below(counts: Seq<u64>, b: int, upto: int)
    requires
        0 <= b < upto,
    ensures
        counts[b] <= count_below(counts, upto),
    decreases upto,
{
    if b < upto - 1 {
        lemma_count_at_most_below(counts, b, upto - 1);
    }
}

/// Counts of samples by bin.
#[derive(Debug)]
pub struct Histogram {
    counts: Vec<u64>,
    total: u64,
}

impl View for Histogram {
    type V = Seq<u64>;

    /// The count of each bin.
    closed spec fn view(&self) -> Seq<u64> {
        self.counts@
    }
}

impl Histogram {
    #[verifier::type_invariant]
    spec fn inv(self) -> bool {
        &&& self.counts@.len() == HISTOGRAM_BINS
        &&& self.total == count_below(self.counts@, HISTOGRAM_BINS as int)
    }

    /// There is one count for each bin, and the number of samples fits 64
    /// bits. Holds of every histogram a program can hold.
    pub open spec fn wf(&self) -> bool {
        &&& self@.len() == HISTOGRAM_BINS
        &&& count_below(self@, HISTOGRAM_BINS as int) <= u64::MAX
    }

    /// Number of samples counted.
    pub open spec fn spec_total(&self) -> nat {
        count_below(self@, HISTOGRAM_BINS as int)
    }

    /// The histogram with the given count for each bin, if there is one count
    /// for each bin and the number of samples fits 64 bits.
    pub fn from_counts(counts: Vec<u64>) -> (r: Option<Histogram>)
        ensures
            r is Some <==> counts@.len() == HISTOGRAM_BINS && count_below(
                counts@,
                HISTOGRAM_BINS as int,
            ) <= u64::MAX,
            r matches Some(h) ==> h@ == counts@ && h.wf(),
    {
        if counts.len() != HISTOGRAM_BINS {
            return None;
        }
        let mut total: u64 = 0;
        let mut t: usize = 0;
        while t < HISTOGRAM_BINS
            invariant
                t <= HISTOGRAM_BINS,
                counts@.len() == HISTOGRAM_BINS,
                total == count_below(counts@, t as int),
            decreases HISTOGRAM_BINS - t,
        {
            match total.checked_add(counts[t]) {
                Some(sum) => {
                    total = sum;
                },
                None => {
                    proof {
                        lemma_count_below_monotone(counts@, t + 1, HISTOGRAM_BINS as int);
                    }
                    return None;
                },
            }
            t = t + 1;
        }
        Some(Histogram { counts, total })
    }

    /// Counts `values` by bin: `bin_of` gives the raw bin of a sample, and raw
    /// bins past the last bin are counted in the last bin.
    pub fn build<T: Copy, B: Fn(T) -> usize>(values: &Vec<T>, bin_of: B) -> (h: Histogram)
        requires
            is_function1(bin_of),
        ensures
            h.wf(),
            h.spec_total() == values@.len(),
            forall|b: int| 0 <= b < HISTOGRAM_BINS ==> #[trigger] h@[b] == tally(values@, bin_of, b),
            forall|i: int| 0 <= i < values@.len() ==> returns1(bin_of, #[trigger] values@[i]),
    {
        let mut counts: Vec<u64> = Vec::new();
        let mut t: usize = 0;
        while t < HISTOGRAM_BINS
            invariant
                t <= HISTOGRAM_BINS,
                counts@.len() == t,
                forall|b: int| 0 <= b < t ==> #[trigger] counts@[b] == 0,
                count_below(counts@, t as int) == 0,
            decreases HISTOGRAM_BINS - t,
        {
            let ghost before = counts@;
            counts.push(0);
            proof {
                lemma_count_below_push(before, 0, t as int);
            }
            t = t + 1;
        }
        let n = values.len();
        let mut i: usize = 0;
        while i < n
            invariant
                i <= n,
                n == values@.len(),
                is_function1(bin_of),
                counts@.len() == HISTOGRAM_BINS,
                count_below(counts@, HISTOGRAM_BINS as int) == i,
                forall|b: int|
                    0 <= b < HISTOGRAM_BINS ==> #[trigger] counts@[b] == tally(
                        values@.take(i as int),
                        bin_of,
                        b,
                    ),
                forall|j: int| 0 <= j < i ==> returns1(bin_of, #[trigger] values@[j]),
            decreases n - i,
        {
            let raw = bin_of(values[i]);
            let bin = if raw < HISTOGRAM_BINS {
                raw
            } else {
                HISTOGRAM_BINS - 1
            };
            proof {
                lemma_result1(bin_of, values@[i as int], raw);
                lemma_count_at_most_below(counts@, bin as int, HISTOGRAM_BINS as int);
                lemma_count_below_update(counts@, bin as int, HISTOGRAM_BINS as int);
                assert(values@.take(i + 1).drop_last() =~= values@.take(i as int));
                assert(values@.take(i + 1).last() == values@[i as int]);
            }
            let next = counts[bin] + 1;
            counts.set(bin, next);
            i = i + 1;
        }
        proof {
            assert(values@.take(n as int) =~= values@);
        }
        Histogram { counts, total: n as u64 }
    }

    /// The count of each bin.
    pub fn counts(&self) -> (c: &Vec<u64>)
        ensures
            c@ == self@,
            self.wf(),
    {
        proof {
            use_type_invariant(self);
        }
        &self.counts
    }

    /// Number of samples counted.
    pub fn total(&self) -> (n: u64)
        ensures
            n == self.spec_total(),
            self.wf(),
    {
        proof {
            use_type_invariant(self);
        }
        self.total
    }
}

/// A split of the samples at a bin: how many samples lie at or below the bin
/// (the background) and above it (the foreground), and the sums of their bin
/// indices.
#[derive(Debug, Clone, Copy, PartialEq, Eq)]
pub struct ClassSplit {
    pub background_count: u64,
    pub foreground_count: u64,
    pub background_sum: u128,
    pub foreground_sum: u128,
}

/// How a score stands against the best score so far.
#[derive(Debug, Clone, Copy, PartialEq, Eq)]
pub enum Rank {
    /// It beats the best score.
    Better,
    /// It counts as equal to the best score.
    Tied,
    /// Neither.
    Worse,
}

/// Whether bin `t` is a candidate: there are samples at or below it and
/// samples above it.
pub open spec fn is_candidate(counts: Seq<u64>, t: int) -> bool {
    0 < count_below(counts, t + 1) < count_below(counts, HISTOGRAM_BINS as int)
}

/// The split at bin `t`.
pub open spec fn split_at(counts: Seq<u64>, t: int) -> ClassSplit {
    ClassSplit {
        background_count: count_below(counts, t + 1) as u64,
        foreground_count: (count_below(counts, HISTOGRAM_BINS as int) - count_below(
            counts,
            t + 1,
        )) as u64,
        background_sum: sum_below(counts, t + 1) as u128,
        foreground_sum: (sum_below(counts, HISTOGRAM_BINS as int) - sum_below(counts, t + 1)) as u128,
    }
}

/// The state of the selection after the bins below `upto`: the best score so
/// far, the first bin that reached it and the last bin that reached or tied
/// it. Before any candidate the best score is `floor` and both bins are 0. A
/// candidate that ranks `Better` than the best score takes its place and both
/// bins; one that ranks `Tied` moves the last bin only.
pub open spec fn selection<S, F: Fn(ClassSplit) -> S, C: Fn(S, S) -> Rank>(
    counts: Seq<u64>,
    floor: S,
    score: F,
    compare: C,
    upto: int,
) -> (S, int, int)
    decreases upto,
{
    if upto <= 0 {
        (floor, 0, 0)
    } else {
        let before = selection(counts, floor, score, compare, upto - 1);
        let t = upto - 1;
        if is_candidate(counts, t) {
            let value = result1(score, split_at(counts, t));
            match result2(compare, value, before.0) {
                Rank::Better => (value, t, t),
                Rank::Tied => (before.0, before.1, t),
                Rank::Worse => before,
            }
        } else {
            before
        }
    }
}

/// Whether the results named by `selection` for the bins below `upto` are
/// values that `score` and `compare` can return, candidate by candidate.
pub open spec fn selection_realized<S, F: Fn(ClassSplit) -> S, C: Fn(S, S) -> Rank>(
    counts: Seq<u64>,
    floor: S,
    score: F,
    compare: C,
    upto: int,
) -> bool
    decreases upto,
{
    if upto <= 0 {
        true
    } else {
        let before = selection(counts, floor, score, compare, upto - 1);
        let t = upto - 1;
        &&& selection_realized(counts, floor, score, compare, upto - 1)
        &&& is_candidate(counts, t) ==> {
            &&& returns1(score, split_at(counts, t))
            &&& returns2(compare, result1(score, split_at(counts, t)), before.0)
        }
    }
}

/// The selected bin: halfway between the first and the last bin that reached
/// the best score, rounded down.
pub open spec fn selected_bin<S, F: Fn(ClassSplit) -> S, C: Fn(S, S) -> Rank>(
    counts: Seq<u64>,
    floor: S,
    score: F,
    compare: C,
) -> int {
    let end = selection(counts, floor, score, compare, HISTOGRAM_BINS as int);
    (end.1 + end.2) / 2
}

/// The bins that the selection remembers lie below the bins it has walked.
pub proof fn lemma_selection_bounds<S, F: Fn(ClassSplit) -> S, C: Fn(S, S) -> Rank>(
    counts: Seq<u64>,
    floor: S,
    score: F,
    compare: C,
    upto: int,
)
    ensures
        0 <= selection(counts, floor, score, compare, upto).1 <= selection(
            counts,
            floor,
            score,
            compare,
            upto,
        ).2,
        selection(counts, floor, score, compare, upto).2 < upto || upto <= 0,
        upto <= 0 ==> selection(counts, floor, score, compare, upto).2 == 0,
    decreases upto,
{
    if upto > 0 {
        lemma_selection_bounds(counts, floor, score, compare, upto - 1);
    }
}

impl Histogram {
    /// Selects the split bin: walks the bins upwards, scores every candidate
    /// split with `score`, ranks the score against the best so far with
    /// `compare` (the best so far is `floor` before the first candidate), and
    /// returns the bin halfway between the first and the last bin that reached
    /// the best score. Without a candidate the bin is 0.
    pub fn select_bin<S: Copy, F: Fn(ClassSplit) -> S, C: Fn(S, S) -> Rank>(
        &self,
        floor: S,
        score: F,
        compare: C,
    ) -> (bin: usize)
        requires
            is_function1(score),
            is_function2(compare),
        ensures
            bin == selected_bin(self@, floor, score, compare),
            bin < HISTOGRAM_BINS,
            selection_realized(self@, floor, score, compare, HISTOGRAM_BINS as int),
    {
        proof {
            use_type_invariant(self);
        }
        let total = self.total;
        let mut sum_all: u128 = 0;
        let mut t: usize = 0;
        while t < HISTOGRAM_BINS
            invariant
                t <= HISTOGRAM_BINS,
                self.counts@.len() == HISTOGRAM_BINS,
                total == count_below(self.counts@, HISTOGRAM_BINS as int),
                sum_all == sum_below(self.counts@, t as int),
            decreases HISTOGRAM_BINS - t,
        {
            proof {
                lemma_sum_below_bound(self.counts@, t + 1);
                lemma_count_below_monotone(self.counts@, t + 1, HISTOGRAM_BINS as int);
                assert((t + 1) * count_below(self.counts@, t + 1) <= 256 * 0xffff_ffff_ffff_ffff)
                    by (nonlinear_arith)
                    requires
                        0 <= t + 1 <= 256,
                        0 <= count_below(self.counts@, t + 1) <= 0xffff_ffff_ffff_ffff,
                ;
                assert(t * self.counts@[t as int] >= 0) by (nonlinear_arith)
                    requires
                        t >= 0,
                        self.counts@[t as int] >= 0,
                ;
            }
            sum_all = sum_all + (t as u128) * (self.counts[t] as u128);
            t = t + 1;
        }
        let mut best = floor;
        let mut first: usize = 0;
        let mut last: usize = 0;
        let mut below: u64 = 0;
        let mut sum: u128 = 0;
        let mut t: usize = 0;
        while t < HISTOGRAM_BINS
            invariant
                t <= HISTOGRAM_BINS,
                is_function1(score),
                is_function2(compare),
                self.counts@.len() == HISTOGRAM_BINS,
                self.counts@ == self@,
                total == count_below(self@, HISTOGRAM_BINS as int),
                sum_all == sum_below(self@, HISTOGRAM_BINS as int),
                below == count_below(self@, t as int),
                sum == sum_below(self@, t as int),
                (best, first as int, last as int) == selection(
                    self@,
                    floor,
                    score,
                    compare,
                    t as int,
                ),
                selection_realized(self@, floor, score, compare, t as int),
                first <= last,
                last < HISTOGRAM_BINS,
            decreases HISTOGRAM_BINS - t,
        {
            proof {
                lemma_sum_below_monotone(self@, t + 1, HISTOGRAM_BINS as int);
                lemma_count_below_monotone(self@, t + 1, HISTOGRAM_BINS as int);
                assert(t * self@[t as int] >= 0) by (nonlinear_arith)
                    requires
                        t >= 0,
                        self@[t as int] >= 0,
                ;
            }
            below = below + self.counts[t];
            sum = sum + (t as u128) * (self.counts[t] as u128);
            if 0 < below && below < total {
                let split = ClassSplit {
                    background_count: below,
                    foreground_count: total - below,
                    background_sum: sum,
                    foreground_sum: sum_all - sum,
                };
                assert(split == split_at(self@, t as int));
                let value = score(split);
                let rank = compare(value, best);
                proof {
                    lemma_result1(score, split, value);
                    lemma_result2(compare, value, best, rank);
                }
                match rank {
                    Rank::Better => {
                        best = value;
                        first = t;
                        last = t;
                    },
                    Rank::Tied => {
                        proof {
                            lemma_selection_bounds(self@, floor, score, compare, t as int);
                        }
                        last = t;
                    },
                    Rank::Worse => {},
                }
            }
            t = t + 1;
        }
        (first + last) / 2
    }
}

/// Without a candidate the selection stays where it began, and the selected
/// bin is 0.
pub proof fn lemma_no_candidate<S, F: Fn(ClassSplit) -> S, C: Fn(S, S) -> Rank>(
    counts: Seq<u64>,
    floor: S,
    score: F,
    compare: C,
    upto: int,
)
    requires
        forall|t: int| 0 <= t < upto ==> !#[trigger] is_candidate(counts, t),
    ensures
        selection(counts, floor, score, compare, upto) == (floor, 0int, 0int),
        upto == HISTOGRAM_BINS ==> selected_bin(counts, floor, score, compare) == 0,
    decreases upto,
{
    if upto > 0 {
        lemma_no_candidate(counts, floor, score, compare, upto - 1);
        assert(!is_candidate(counts, upto - 1));
    }
}

/// Where all samples lie in one bin, the counts below a bin are none up to
/// that bin and all samples past it.
proof fn lemma_one_bin_prefix(counts: Seq<u64>, only: int, upto: int)
    requires
        0 <= only,
        forall|b: int| 0 <= b < upto && b != only ==> #[trigger] counts[b] == 0,
    ensures
        count_below(counts, upto) == if upto <= only {
            0
        } else {
            counts[only] as nat
        },
    decreases upto,
{
    if upto > 0 {
        lemma_one_bin_prefix(counts, only, upto - 1);
        if upto - 1 != only {
            assert(counts[upto - 1] == 0);
        }
    }
}

/// Where all samples lie in one bin (or there are none) no bin splits them,
/// and the selected bin is 0.
pub proof fn lemma_one_bin<S, F: Fn(ClassSplit) -> S, C: Fn(S, S) -> Rank>(
    counts: Seq<u64>,
    floor: S,
    score: F,
    compare: C,
    only: int,
)
    requires
        counts.len() == HISTOGRAM_BINS,
        0 <= only < HISTOGRAM_BINS,
        forall|b: int| 0 <= b < HISTOGRAM_BINS && b != only ==> #[trigger] counts[b] == 0,
    ensures
        selected_bin(counts, floor, score, compare) == 0,
{
    assert forall|t: int| 0 <= t < HISTOGRAM_BINS implies !#[trigger] is_candidate(counts, t) by {
        lemma_one_bin_prefix(counts, only, t + 1);
        lemma_one_bin_prefix(counts, only, HISTOGRAM_BINS as int);
    }
    lemma_no_candidate(counts, floor, score, compare, HISTOGRAM_BINS as int);
}

/// Where all samples lie in the two bins `lo` and `hi`, the counts and sums
/// below a bin change only past `lo` and past `hi`.
proof fn lemma_two_bins_prefix(counts: Seq<u64>, lo: int, hi: int, upto: int)
    requires
        0 <= lo < hi,
        0 <= upto,
        forall|b: int| 0 <= b < upto && b != lo && b != hi ==> #[trigger] counts[b] == 0,
    ensures
        count_below(counts, upto) == if upto <= lo {
            0
        } else if upto <= hi {
            counts[lo] as nat
        } else {
            (counts[lo] + counts[hi]) as nat
        },
        sum_below(counts, upto) == if upto <= lo {
            0
        } else if upto <= hi {
            (lo * counts[lo]) as nat
        } else {
            (lo * counts[lo] + hi * counts[hi]) as nat
        },
    decreases upto,
{
    if upto > 0 {
        lemma_two_bins_prefix(counts, lo, hi, upto - 1);
        let b = upto - 1;
        if b != lo && b != hi {
            assert(counts[b] == 0);
            assert(b * counts[b] == 0) by (nonlinear_arith)
                requires
                    counts[b] == 0,
            ;
        }
        assert(lo * counts[lo] >= 0) by (nonlinear_arith)
            requires
                lo >= 0,
                counts[lo] >= 0,
        ;
        assert(hi * counts[hi] >= 0) by (nonlinear_arith)
            requires
                hi >= 0,
                counts[hi] >= 0,
        ;
    }
}

/// Where all samples lie in the two bins `lo` and `hi`, every bin from `lo`
/// up to the one before `hi` is a candidate with the split of `lo`, and no
/// other bin is a candidate.
proof fn lemma_two_bins_candidates(counts: Seq<u64>, lo: int, hi: int, t: int)
    requires
        counts.len() == HISTOGRAM_BINS,
        0 <= lo < hi < HISTOGRAM_BINS,
        0 <= t < HISTOGRAM_BINS,
        counts[lo] > 0,
        counts[hi] > 0,
        forall|b: int|
            0 <= b < HISTOGRAM_BINS && b != lo && b != hi ==> #[trigger] counts[b] == 0,
    ensures
        is_candidate(counts, t) <==> lo <= t < hi,
        lo <= t < hi ==> split_at(counts, t) == split_at(counts, lo),
{
    lemma_two_bins_prefix(counts, lo, hi, t + 1);
    lemma_two_bins_prefix(counts, lo, hi, lo + 1);
    lemma_two_bins_prefix(counts, lo, hi, HISTOGRAM_BINS as int);
}

/// The selection on samples that lie in the two bins `lo` and `hi`.
proof fn lemma_two_bins_selection<S, F: Fn(ClassSplit) -> S, C: Fn(S, S) -> Rank>(
    counts: Seq<u64>,
    floor: S,
    score: F,
    compare: C,
    lo: int,
    hi: int,
    upto: int,
)
    requires
        counts.len() == HISTOGRAM_BINS,
        0 <= lo < hi < HISTOGRAM_BINS,
        0 <= upto <= HISTOGRAM_BINS,
        counts[lo] > 0,
        counts[hi] > 0,
        forall|b: int|
            0 <= b < HISTOGRAM_BINS && b != lo && b != hi ==> #[trigger] counts[b] == 0,
        result2(compare, result1(score, split_at(counts, lo)), floor) == Rank::Better,
        result2(
            compare,
            result1(score, split_at(counts, lo)),
            result1(score, split_at(counts, lo)),
        ) == Rank::Tied,
    ensures
        selection(counts, floor, score, compare, upto) == if upto <= lo {
            (floor, 0int, 0int)
        } else if upto <= hi {
            (result1(score, split_at(counts, lo)), lo, upto - 1)
        } else {
            (result1(score, split_at(counts, lo)), lo, hi - 1)
        },
    decreases upto,
{
    if upto > 0 {
        lemma_two_bins_selection(counts, floor, score, compare, lo, hi, upto - 1);
        lemma_two_bins_candidates(counts, lo, hi, upto - 1);
    }
}

/// Two clusters are split between them: where all samples lie in the two
/// bins `lo < hi`, the score of their split beats `floor` and ties with
/// itself, the selected bin is the middle of `lo..hi`, at or above `lo` and
/// below `hi`.
pub proof fn lemma_two_clusters<S, F: Fn(ClassSplit) -> S, C: Fn(S, S) -> Rank>(
    counts: Seq<u64>,
    floor: S,
    score: F,
    compare: C,
    lo: int,
    hi: int,
)
    requires
        counts.len() == HISTOGRAM_BINS,
        0 <= lo < hi < HISTOGRAM_BINS,
        counts[lo] > 0,
        counts[hi] > 0,
        forall|b: int|
            0 <= b < HISTOGRAM_BINS && b != lo && b != hi ==> #[trigger] counts[b] == 0,
        result2(compare, result1(score, split_at(counts, lo)), floor) == Rank::Better,
        result2(
            compare,
            result1(score, split_at(counts, lo)),
            result1(score, split_at(counts, lo)),
        ) == Rank::Tied,
    ensures
        selected_bin(counts, floor, score, compare) == (lo + hi - 1) / 2,
        lo <= selected_bin(counts, floor, score, compare) < hi,
{
    lemma_two_bins_selection(counts, floor, score, compare, lo, hi, HISTOGRAM_BINS as int);
}

/// Appending a bin leaves the count below `upto` as it was, for `upto` up to
/// the old number of bins.
proof fn lemma_count_below_push(counts: Seq<u64>, c: u64, upto: int)
    requires
        0 <= upto <= counts.len(),
    ensures
        count_below(counts.push(c), upto) == count_below(counts, upto),
        upto == counts.len() ==> count_below(counts.push(c), upto + 1) == count_below(
            counts,
            upto,
        ) + c,
    decreases upto,
{
    if upto > 0 {
        lemma_count_below_push(counts, c, upto - 1);
        assert(counts.push(c)[upto - 1] == counts[upto - 1]);
    }
    if upto == counts.len() {
        assert(counts.push(c)[upto] == c);
        assert(count_below(counts.push(c), upto + 1) == count_below(counts.push(c), upto) + c);
    }
}

} // verus!
