//! The circular window engine: given one flag per position of a circular
//! sequence, count the flagged positions inside each window.

use vstd::arithmetic::div_mod::{lemma_fundamental_div_mod, lemma_fundamental_div_mod_converse};
use vstd::prelude::*;

verus! {

/// Window length and distance between consecutive window starts.
#[derive(Clone, Copy, Debug, PartialEq, Eq, Structural)]
pub struct WindowSpec {
    pub window_size: usize,
    pub step_size: usize,
}

/// One window's aggregate: the window starts at `position` (in the
/// sequence's own coordinates) and `hits` of its `window_size` positions are
/// flagged. The density is `hits / window_size`.
#[derive(Clone, Copy, Debug, PartialEq, Eq, Structural)]
pub struct DensityPoint {
    pub position: usize,
    pub hits: usize,
    pub window_size: usize,
}

/// Position `start + offset` on a circle of `n` positions.
pub open spec fn circular(start: int, offset: int, n: int) -> int {
    (start + offset) % n
}

/// Number of flagged positions among the first `len` positions of the window
/// that starts at `start`, read circularly.
pub open spec fn hits_in(flags: Seq<bool>, start: int, len: nat) -> nat
    decreases len,
{
    if len == 0 {
        0
    } else {
        hits_in(flags, start, (len - 1) as nat) + if flags[circular(
            start,
            len - 1,
            flags.len() as int,
        )] {
            1nat
        } else {
            0nat
        }
    }
}

/// Number of windows over a sequence of `n` positions: `floor(n / step)`.
pub open spec fn window_count(n: nat, step: nat) -> nat {
    n / step
}

/// The windows of a scan, in order of their start.
pub open spec fn expected_points(flags: Seq<bool>, spec: WindowSpec) -> Seq<DensityPoint> {
    Seq::new(
        window_count(flags.len(), spec.step_size as nat),
        |w: int|
            DensityPoint {
                position: (w * spec.step_size) as usize,
                hits: hits_in(flags, w * spec.step_size, spec.window_size as nat) as usize,
                window_size: spec.window_size,
            },
    )
}

/// A window never counts more positions than it holds.
pub proof fn lemma_hits_bounded(flags: Seq<bool>, start: int, len: nat)
    ensures
        hits_in(flags, start, len) <= len,
    decreases len,
{
    if len > 0 {
        lemma_hits_bounded(flags, start, (len - 1) as nat);
    }
}

/// A window whose span runs past the end of the sequence wraps: each
/// position `j` before `start + len - n` is covered, at offset `n - start + j`.
pub proof fn lemma_window_wraps(n: int, start: int, len: int, j: int)
    requires
        0 <= start < n,
        0 <= j < n,
        j < start + len - n,
    ensures
        0 <= n - start + j < len,
        circular(start, n - start + j, n) == j,
{
    lemma_fundamental_div_mod_converse(start + (n - start + j), n, 1, j);
}

proof fn lemma_circular_next(start: int, i: int, n: int)
    requires
        n > 0,
        0 <= start,
        0 <= i,
    ensures
        circular(start, i + 1, n) == if circular(start, i, n) + 1 == n {
            0
        } else {
            circular(start, i, n) + 1
        },
{
    let x = start + i;
    lemma_fundamental_div_mod(x, n);
    let q = x / n;
    let r = x % n;
    assert(0 <= r < n);
    if r + 1 == n {
        assert(x + 1 == (q + 1) * n + 0) by (nonlinear_arith)
            requires
                x == n * q + r,
                r + 1 == n,
        ;
        lemma_fundamental_div_mod_converse(x + 1, n, q + 1, 0);
    } else {
        assert(x + 1 == q * n + (r + 1)) by (nonlinear_arith)
            requires
                x == n * q + r,
        ;
        lemma_fundamental_div_mod_converse(x + 1, n, q, r + 1);
    }
}

/// Counts the flagged positions of the window of `window_size` positions
/// that starts at `start`, wrapping past the end of `flags`.
pub fn window_hits(flags: &Vec<bool>, start: usize, window_size: usize) -> (r: usize)
    requires
        flags.len() > 0,
        start < flags.len(),
    ensures
        r == hits_in(flags@, start as int, window_size as nat),
        r <= window_size,
{
    let n = flags.len();
    let mut hits: usize = 0;
    let mut idx: usize = start;
    let mut i: usize = 0;
    proof {
        lemma_fundamental_div_mod_converse(start as int, n as int, 0, start as int);
    }
    while i < window_size
        invariant
            n == flags.len(),
            n > 0,
            i <= window_size,
            idx < n,
            idx == circular(start as int, i as int, n as int),
            hits == hits_in(flags@, start as int, i as nat),
            hits <= i,
        decreases window_size - i,
    {
        if flags[idx] {
            hits = hits + 1;
        }
        proof {
            lemma_circular_next(start as int, i as int, n as int);
        }
        idx = if idx + 1 == n {
            0
        } else {
            idx + 1
        };
        i = i + 1;
    }
    hits
}

/// Scans `flags` with windows of `spec.window_size` positions starting every
/// `spec.step_size` positions: `floor(n / step_size)` windows, in order.
pub fn scan_windows(flags: &Vec<bool>, spec: WindowSpec) -> (r: Vec<DensityPoint>)
    requires
        flags.len() > 0,
        spec.step_size > 0,
    ensures
        r@ == expected_points(flags@, spec),
        r@.len() == flags@.len() / (spec.step_size as nat),
        forall|w: int|
            0 <= w < r@.len() ==> (#[trigger] r@[w]).position == w * spec.step_size
                && r@[w].hits <= r@[w].window_size,
{
    let n = flags.len();
    let step = spec.step_size;
    let num_windows = n / step;
    let mut points: Vec<DensityPoint> = Vec::new();
    let mut w: usize = 0;
    let mut start: usize = 0;
    while w < num_windows
        invariant
            n == flags.len(),
            n > 0,
            step == spec.step_size,
            step > 0,
            num_windows == n / step,
            w <= num_windows,
            start == w * step,
            points@.len() == w,
            forall|v: int|
                0 <= v < w ==> (#[trigger] points@[v]) == expected_points(flags@, spec)[v],
        decreases num_windows - w,
    {
        proof {
            lemma_fundamental_div_mod(n as int, step as int);
            assert((w + 1) * step <= (n / step) * step) by (nonlinear_arith)
                requires
                    w + 1 <= n / step,
                    step > 0,
            ;
            assert((w + 1) * step == w * step + step) by (nonlinear_arith);
            assert(n as int == step * (n / step) + n % step);
            assert((n / step) * step == step * (n / step)) by (nonlinear_arith);
        }
        let hits = window_hits(flags, start, spec.window_size);
        points.push(DensityPoint { position: start, hits, window_size: spec.window_size });
        w = w + 1;
        start = start + step;
    }
    assert(points@ =~= expected_points(flags@, spec));
    proof {
        assert forall|v: int| 0 <= v < points@.len() implies (#[trigger] points@[v]).position
            == v * spec.step_size && points@[v].hits <= points@[v].window_size by {
            lemma_hits_bounded(flags@, v * spec.step_size, spec.window_size as nat);
            lemma_fundamental_div_mod(n as int, step as int);
            assert(v * step <= (n / step) * step) by (nonlinear_arith)
                requires
                    v < n / step,
                    step > 0,
            ;
            assert((n / step) * step == step * (n / step)) by (nonlinear_arith);
        }
    }
    points
}

} // verus!
