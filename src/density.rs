//! Validated entry points: one metric over one circular sequence.

use crate::engine::{expected_points, scan_windows, DensityPoint, WindowSpec};
use crate::metric::{gc_flags, metric_flags, palindrome_flags, Metric};
use vstd::prelude::*;

verus! {

/// Why a computation was refused.
#[derive(Clone, Copy, Debug, PartialEq, Eq, Structural)]
pub enum DensityError {
    /// The sequence has no positions.
    EmptySequence,
    /// The window holds no positions, so its density is undefined.
    ZeroWindowSize,
    /// Consecutive windows would start at the same position.
    ZeroStepSize,
    /// The palindrome length is zero.
    ZeroK,
    /// The palindrome length exceeds the sequence length.
    KExceedsLength,
}

/// The error for a sequence of `n` positions, or `None` where the inputs are
/// valid. Checked in the order listed.
pub open spec fn input_error(n: nat, metric: Metric, spec: WindowSpec) -> Option<DensityError> {
    if n == 0 {
        Some(DensityError::EmptySequence)
    } else if spec.window_size == 0 {
        Some(DensityError::ZeroWindowSize)
    } else if spec.step_size == 0 {
        Some(DensityError::ZeroStepSize)
    } else {
        match metric {
            Metric::Gc => None,
            Metric::Palindrome { k } => if k == 0 {
                Some(DensityError::ZeroK)
            } else if k > n {
                Some(DensityError::KExceedsLength)
            } else {
                None
            },
        }
    }
}

/// The windows of `metric` over `s`.
pub open spec fn windows_of(s: Seq<u8>, metric: Metric, spec: WindowSpec) -> Seq<DensityPoint> {
    expected_points(metric_flags(s, metric), spec)
}

/// What `compute_windows` returns on `s`: the error that the inputs call
/// for, else exactly the windows of `metric` over `s`.
pub open spec fn windows_outcome(
    s: Seq<u8>,
    metric: Metric,
    spec: WindowSpec,
    r: Result<Vec<DensityPoint>, DensityError>,
) -> bool {
    match r {
        Ok(points) => input_error(s.len(), metric, spec) is None && points@ == windows_of(
            s,
            metric,
            spec,
        ),
        Err(e) => input_error(s.len(), metric, spec) == Some(e),
    }
}

/// Checks the inputs, precomputes one flag per position and scans the
/// circular windows.
pub fn compute_windows(seq: &Vec<u8>, metric: Metric, spec: WindowSpec) -> (r: Result<
    Vec<DensityPoint>,
    DensityError,
>)
    ensures
        windows_outcome(seq@, metric, spec, r),
        r is Ok <==> input_error(seq@.len(), metric, spec) is None,
        r matches Ok(points) ==> points@.len() == seq@.len() / (spec.step_size as nat),
        r matches Ok(points) ==> forall|w: int|
            0 <= w < points@.len() ==> (#[trigger] points@[w]).position == w * spec.step_size
                && points@[w].hits <= points@[w].window_size && points@[w].window_size
                == spec.window_size && points@[w].window_size > 0,
{
    let n = seq.len();
    if n == 0 {
        return Err(DensityError::EmptySequence);
    }
    if spec.window_size == 0 {
        return Err(DensityError::ZeroWindowSize);
    }
    if spec.step_size == 0 {
        return Err(DensityError::ZeroStepSize);
    }
    let flags = match metric {
        Metric::Gc => gc_flags(seq),
        Metric::Palindrome { k } => {
            if k == 0 {
                return Err(DensityError::ZeroK);
            }
            if k > n {
                return Err(DensityError::KExceedsLength);
            }
            palindrome_flags(seq, k)
        },
    };
    let points = scan_windows(&flags, spec);
    Ok(points)
}

/// G/C fraction of each circular window.
pub fn gc_content_circular(seq: &Vec<u8>, window_size: usize, step_size: usize) -> (r: Result<
    Vec<DensityPoint>,
    DensityError,
>)
    ensures
        windows_outcome(seq@, Metric::Gc, WindowSpec { window_size, step_size }, r),
{
    compute_windows(seq, Metric::Gc, WindowSpec { window_size, step_size })
}

/// Density of length-`k` palindrome starts in each circular window.
pub fn compute_density_circular(
    seq: &Vec<u8>,
    k: usize,
    window_size: usize,
    step_size: usize,
) -> (r: Result<Vec<DensityPoint>, DensityError>)
    ensures
        windows_outcome(seq@, Metric::Palindrome { k }, WindowSpec { window_size, step_size }, r),
{
    compute_windows(seq, Metric::Palindrome { k }, WindowSpec { window_size, step_size })
}

/// The computation is a function of its inputs: two runs on the same
/// sequence, metric and window spec give the same result.
pub proof fn lemma_rerun_identical(
    s: Seq<u8>,
    metric: Metric,
    spec: WindowSpec,
    r1: Result<Vec<DensityPoint>, DensityError>,
    r2: Result<Vec<DensityPoint>, DensityError>,
)
    requires
        windows_outcome(s, metric, spec, r1),
        windows_outcome(s, metric, spec, r2),
    ensures
        r1 is Ok <==> r2 is Ok,
        r1 matches Ok(p1) ==> r2 matches Ok(p2) && p1@ == p2@,
        r1 matches Err(e1) ==> r2 matches Err(e2) && e1 == e2,
{
}

} // verus!
