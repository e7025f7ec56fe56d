//! Time windows of interest: the partition of a reference interval into
//! equal-width sub-windows, the point/window overlap predicate, and the
//! adjusted duration that weighted averaging uses.
//!
//! All instants are milliseconds since the Unix epoch.

use vstd::prelude::*;
use vstd::arithmetic::div_mod::{
    lemma_div_is_ordered_by_denominator, lemma_div_pos_is_pos, lemma_fundamental_div_mod,
};
use vstd::arithmetic::mul::{lemma_mul_inequality, lemma_mul_is_distributive_add_other_way};

verus! {

/// Whether a data point `[pb, pf)` overlaps a window `[wb, wf)`: the point
/// begins strictly inside, ends strictly inside, or strictly spans the
/// window.  Boundary-exact equality does not count as overlap; downstream
/// consumers depend on these exact edge semantics.
pub open spec fn spec_overlaps(pb: int, pf: int, wb: int, wf: int) -> bool {
    ||| (wb < pb && pb < wf)
    ||| (wb < pf && pf < wf)
    ||| (pb < wb && pf > wf)
}

/// Whether a data point overlaps a window (see [`spec_overlaps`]).
pub fn overlaps(pb: i64, pf: i64, wb: i64, wf: i64) -> (r: bool)
    ensures
        r == spec_overlaps(pb as int, pf as int, wb as int, wf as int),
{
    (wb < pb && pb < wf) || (wb < pf && pf < wf) || (pb < wb && pf > wf)
}

/// The duration a point contributes to a window: its reported duration less
/// the portions of the point that fall outside the window on either edge,
/// so only the time actually inside the window counts.
pub open spec fn spec_adjusted_duration(duration: int, pb: int, pf: int, wb: int, wf: int) -> int {
    duration - (if wb > pb {
        wb - pb
    } else {
        0
    }) - (if pf > wf {
        pf - wf
    } else {
        0
    })
}

/// The duration a point contributes to a window (see
/// [`spec_adjusted_duration`]).
pub fn adjusted_duration(duration: i64, pb: i64, pf: i64, wb: i64, wf: i64) -> (r: i64)
    requires
        i64::MIN <= wb - pb <= i64::MAX,
        i64::MIN <= pf - wf <= i64::MAX,
        i64::MIN <= spec_adjusted_duration(
            duration as int,
            pb as int,
            pf as int,
            wb as int,
            wf as int,
        ) <= i64::MAX,
        i64::MIN <= duration - (if wb > pb { wb - pb } else { 0 }) <= i64::MAX,
    ensures
        r == spec_adjusted_duration(duration as int, pb as int, pf as int, wb as int, wf as int),
{
    let left: i64 = if wb > pb {
        wb - pb
    } else {
        0
    };
    let right: i64 = if pf > wf {
        pf - wf
    } else {
        0
    };
    duration - left - right
}

/// A point fully inside the window contributes its full duration.
pub proof fn lemma_full_overlap_contributes_all(duration: int, pb: int, pf: int, wb: int, wf: int)
    requires
        duration == pf - pb,
        wb <= pb,
        pf <= wf,
    ensures
        spec_adjusted_duration(duration, pb, pf, wb, wf) == duration,
{
}

/// A point overlapping only the window's trailing edge contributes exactly
/// the overlapping portion.
pub proof fn lemma_trailing_overlap_contributes_part(
    duration: int,
    pb: int,
    pf: int,
    wb: int,
    wf: int,
)
    requires
        duration == pf - pb,
        wb <= pb,
        pb < wf,
        wf < pf,
    ensures
        spec_adjusted_duration(duration, pb, pf, wb, wf) == wf - pb,
{
}

/// A point overlapping only the window's leading edge contributes exactly
/// the overlapping portion.
pub proof fn lemma_leading_overlap_contributes_part(
    duration: int,
    pb: int,
    pf: int,
    wb: int,
    wf: int,
)
    requires
        duration == pf - pb,
        pb < wb,
        wb < pf,
        pf <= wf,
    ensures
        spec_adjusted_duration(duration, pb, pf, wb, wf) == pf - wb,
{
}

/// The width of each of `k` windows spanning `[b, f)`.
pub open spec fn window_width(b: int, f: int, k: int) -> int {
    (f - b) / k
}

/// Window `i` of the partition of `[b, f)` into `k` windows.
pub open spec fn window_at(b: int, f: int, k: int, i: int) -> (int, int) {
    (b + i * window_width(b, f, k), b + (i + 1) * window_width(b, f, k))
}

/// The partition of a reference interval `[t0, t1)` into `resolution`
/// contiguous, equal-width windows: window `i` is
/// `[t0 + i*w, t0 + (i+1)*w)` with `w = (t1 - t0) / resolution`.
pub fn compute_windows(begin: i64, finish: i64, resolution: u64) -> (r: Vec<(i64, i64)>)
    requires
        1 <= resolution <= i64::MAX,
        begin <= finish,
        finish - begin <= i64::MAX,
    ensures
        r@.len() == resolution,
        forall|i: int|
            0 <= i < resolution ==> ((#[trigger] r@[i]).0 as int, r@[i].1 as int) == window_at(
                begin as int,
                finish as int,
                resolution as int,
                i,
            ),
{
    let k: i64 = resolution as i64;
    let w: i64 = (finish - begin) / k;
    proof {
        if finish - begin > 0 {
            lemma_div_pos_is_pos(finish - begin, k as int);
        }
        lemma_div_is_ordered_by_denominator(finish - begin, 1, k as int);
        assert((finish - begin) as int / 1 == finish - begin);
        assert(w == window_width(begin as int, finish as int, resolution as int));
        assert(0 <= w <= finish - begin);
    }
    let mut r: Vec<(i64, i64)> = Vec::new();
    let mut i: u64 = 0;
    while i < resolution
        invariant
            0 <= i <= resolution,
            resolution <= i64::MAX,
            begin <= finish,
            finish - begin <= i64::MAX,
            0 <= w <= finish - begin,
            w == window_width(begin as int, finish as int, resolution as int),
            r@.len() == i,
            forall|j: int|
                0 <= j < i ==> ((#[trigger] r@[j]).0 as int, r@[j].1 as int) == window_at(
                    begin as int,
                    finish as int,
                    resolution as int,
                    j,
                ),
        decreases resolution - i,
    {
        proof {
            assert((i + 1) * w <= resolution * w) by (nonlinear_arith)
                requires
                    0 <= w,
                    i + 1 <= resolution,
            ;
            assert(resolution * w <= finish - begin) by {
                lemma_fundamental_div_mod(finish - begin, resolution as int);
                assert(finish - begin == resolution * w + (finish - begin) % (resolution as int));
                assert((finish - begin) % (resolution as int) >= 0) by (nonlinear_arith)
                    requires
                        resolution >= 1,
                        finish - begin >= 0,
                ;
            }
            assert(i * w >= 0) by (nonlinear_arith)
                requires
                    0 <= w,
                    0 <= i,
            ;
            assert(i * w <= (i + 1) * w) by (nonlinear_arith)
                requires
                    0 <= w,
            ;
        }
        let wb: i64 = begin + (i as i64) * w;
        proof {
            lemma_mul_is_distributive_add_other_way(w as int, i as int, 1);
            assert((i + 1) * w == i * w + w);
            assert(wb + w == begin + (i + 1) * w);
        }
        let wfin: i64 = wb + w;
        r.push((wb, wfin));
        i = i + 1;
    }
    r
}

/// The window partition law: for a reference interval `[t0, t1)` whose
/// width is a multiple of the resolution, the generated windows are
/// `resolution` contiguous, equal-width, non-overlapping intervals spanning
/// exactly `[t0, t1)`.
pub proof fn lemma_window_partition(t0: int, t1: int, k: int)
    requires
        k >= 1,
        t0 <= t1,
        (t1 - t0) % k == 0,
    ensures
        window_at(t0, t1, k, 0).0 == t0,
        window_at(t0, t1, k, k - 1).1 == t1,
        forall|i: int|
            0 <= i < k ==> (#[trigger] window_at(t0, t1, k, i)).1 - window_at(t0, t1, k, i).0
                == window_width(t0, t1, k),
        forall|i: int|
            0 <= i < k - 1 ==> (#[trigger] window_at(t0, t1, k, i)).1 == window_at(
                t0,
                t1,
                k,
                i + 1,
            ).0,
        forall|i: int, j: int|
            0 <= i < j < k ==> (#[trigger] window_at(t0, t1, k, i)).1 <= (#[trigger] window_at(
                t0,
                t1,
                k,
                j,
            )).0,
{
    let w = window_width(t0, t1, k);
    if t1 - t0 > 0 {
        lemma_div_pos_is_pos(t1 - t0, k);
    }
    lemma_fundamental_div_mod(t1 - t0, k);
    assert(k * w == t1 - t0);
    assert((k - 1 + 1) * w == k * w);
    assert forall|i: int| 0 <= i < k implies (#[trigger] window_at(t0, t1, k, i)).1 - window_at(
        t0,
        t1,
        k,
        i,
    ).0 == w by {
        lemma_mul_is_distributive_add_other_way(w, i, 1);
    }
    assert forall|i: int, j: int| 0 <= i < j < k implies (#[trigger] window_at(t0, t1, k, i)).1
        <= (#[trigger] window_at(t0, t1, k, j)).0 by {
        lemma_mul_inequality(i + 1, j, w);
    }
}

} // verus!
