//! Many sequences at once: the sequences are computed in parallel, and their
//! windows come out as one contiguous block per sequence, in input order.

use crate::density::{compute_windows, input_error, windows_of, windows_outcome, DensityError};
use crate::engine::{DensityPoint, WindowSpec};
use crate::metric::Metric;
use rayon::iter::{IntoParallelRefIterator, ParallelIterator};
use vstd::prelude::*;

verus! {

/// One output row: a window of the sequence at index `sequence` of the batch.
#[derive(Clone, Copy, Debug, PartialEq, Eq, Structural)]
pub struct BatchRow {
    pub sequence: usize,
    pub point: DensityPoint,
}

/// A batch refused because of the sequence at `index`.
#[derive(Clone, Copy, Debug, PartialEq, Eq, Structural)]
pub struct BatchError {
    pub index: usize,
    pub error: DensityError,
}

/// The rows of `blocks`: block `b` in order, each of its points labelled `b`.
pub open spec fn flatten_rows(blocks: Seq<Seq<DensityPoint>>) -> Seq<BatchRow>
    decreases blocks.len(),
{
    if blocks.len() == 0 {
        Seq::empty()
    } else {
        let b = blocks.len() - 1;
        flatten_rows(blocks.drop_last()) + blocks.last().map_values(
            |p: DensityPoint| BatchRow { sequence: b as usize, point: p },
        )
    }
}

/// Index of the first row of block `b`.
pub open spec fn block_start(blocks: Seq<Seq<DensityPoint>>, b: int) -> int {
    flatten_rows(blocks.subrange(0, b)).len() as int
}

/// The windows of each sequence of a batch.
pub open spec fn batch_windows(seqs: Seq<Seq<u8>>, metric: Metric, spec: WindowSpec) -> Seq<
    Seq<DensityPoint>,
> {
    seqs.map_values(|s: Seq<u8>| windows_of(s, metric, spec))
}

/// Whether every sequence of the batch is valid input.
pub open spec fn batch_valid(seqs: Seq<Seq<u8>>, metric: Metric, spec: WindowSpec) -> bool {
    forall|i: int| 0 <= i < seqs.len() ==> (#[trigger] input_error(seqs[i].len(), metric, spec)) is None
}

proof fn lemma_flatten_labels(blocks: Seq<Seq<DensityPoint>>)
    requires
        blocks.len() <= usize::MAX,
    ensures
        forall|i: int|
            0 <= i < flatten_rows(blocks).len() ==> (#[trigger] flatten_rows(blocks)[i]).sequence
                < blocks.len(),
    decreases blocks.len(),
{
    if blocks.len() > 0 {
        let prefix = blocks.drop_last();
        let last = blocks.len() - 1;
        lemma_flatten_labels(prefix);
        let head = flatten_rows(prefix);
        let tail = blocks.last().map_values(
            |p: DensityPoint| BatchRow { sequence: last as usize, point: p },
        );
        let rows = flatten_rows(blocks);
        assert(rows == head + tail);
        assert forall|i: int| 0 <= i < rows.len() implies (#[trigger] rows[i]).sequence
            < blocks.len() by {
            if i < head.len() {
                assert(rows[i] == head[i]);
            } else {
                assert(rows[i] == tail[i - head.len()]);
            }
        }
    }
}

proof fn lemma_rows_ordered(blocks: Seq<Seq<DensityPoint>>)
    requires
        blocks.len() <= usize::MAX,
    ensures
        forall|i: int, j: int|
            0 <= i <= j < flatten_rows(blocks).len() ==> (#[trigger] flatten_rows(blocks)[i]).sequence
                <= (#[trigger] flatten_rows(blocks)[j]).sequence,
    decreases blocks.len(),
{
    if blocks.len() > 0 {
        let prefix = blocks.drop_last();
        let last = blocks.len() - 1;
        lemma_rows_ordered(prefix);
        lemma_flatten_labels(prefix);
        let head = flatten_rows(prefix);
        let tail = blocks.last().map_values(
            |p: DensityPoint| BatchRow { sequence: last as usize, point: p },
        );
        let rows = flatten_rows(blocks);
        assert(rows == head + tail);
        assert forall|i: int, j: int| 0 <= i <= j < rows.len() implies (#[trigger] rows[i]).sequence
            <= (#[trigger] rows[j]).sequence by {
            if j < head.len() {
                assert(rows[i] == head[i] && rows[j] == head[j]);
            } else if i < head.len() {
                assert(rows[i] == head[i]);
                assert(rows[j] == tail[j - head.len()]);
            } else {
                assert(rows[i] == tail[i - head.len()]);
                assert(rows[j] == tail[j - head.len()]);
            }
        }
    }
}

proof fn lemma_rows_prefix(blocks: Seq<Seq<DensityPoint>>, b: int)
    requires
        0 <= b <= blocks.len(),
    ensures
        flatten_rows(blocks.subrange(0, b)).len() <= flatten_rows(blocks).len(),
        forall|i: int|
            0 <= i < flatten_rows(blocks.subrange(0, b)).len() ==> #[trigger] flatten_rows(
                blocks.subrange(0, b),
            )[i] == flatten_rows(blocks)[i],
    decreases blocks.len(),
{
    if b == blocks.len() {
        assert(blocks.subrange(0, b) =~= blocks);
    } else {
        let prefix = blocks.drop_last();
        lemma_rows_prefix(prefix, b);
        assert(prefix.subrange(0, b) =~= blocks.subrange(0, b));
    }
}

/// Rows never interleave: the rows of a batch are grouped by sequence, the
/// groups in input order, and block `b` holds exactly the windows of
/// sequence `b`, each once and in their own order.
pub proof fn lemma_blocks_contiguous(blocks: Seq<Seq<DensityPoint>>)
    requires
        blocks.len() <= usize::MAX,
    ensures
        flatten_rows(blocks).len() == block_start(blocks, blocks.len() as int),
        forall|i: int, j: int|
            0 <= i <= j < flatten_rows(blocks).len() ==> (#[trigger] flatten_rows(blocks)[i]).sequence
                <= (#[trigger] flatten_rows(blocks)[j]).sequence,
        forall|b: int, j: int|
            0 <= b < blocks.len() && 0 <= j < blocks[b].len() ==> #[trigger] flatten_rows(
                blocks,
            )[block_start(blocks, b) + j] == (BatchRow { sequence: b as usize, point: #[trigger] blocks[b][j] }),
{
    assert(blocks.subrange(0, blocks.len() as int) =~= blocks);
    lemma_rows_ordered(blocks);
    assert forall|b: int, j: int|
        0 <= b < blocks.len() && 0 <= j < blocks[b].len() implies #[trigger] flatten_rows(
            blocks,
        )[block_start(blocks, b) + j] == (BatchRow { sequence: b as usize, point: #[trigger] blocks[b][j] }) by {
        let upto = blocks.subrange(0, b + 1);
        let head = flatten_rows(blocks.subrange(0, b));
        let tail = blocks[b].map_values(
            |p: DensityPoint| BatchRow { sequence: b as usize, point: p },
        );
        assert(upto.drop_last() =~= blocks.subrange(0, b));
        assert(upto.last() == blocks[b]);
        assert(flatten_rows(upto) == head + tail);
        assert(flatten_rows(upto)[head.len() + j] == tail[j]);
        lemma_rows_prefix(blocks, b + 1);
    }
}

/// Computes every sequence of the batch, in parallel.
///
/// Relies on rayon: `par_iter().map(..).collect()` over a slice hands each
/// element to the closure and collects the results into a `Vec` in the
/// slice's order.
#[verifier::external_body]
fn compute_all(seqs: &Vec<Vec<u8>>, metric: Metric, spec: WindowSpec) -> (r: Vec<
    Result<Vec<DensityPoint>, DensityError>,
>)
    ensures
        r@.len() == seqs@.len(),
        forall|i: int| 0 <= i < r@.len() ==> windows_outcome(seqs@[i]@, metric, spec, #[trigger] r@[i]),
{
    seqs.par_iter().map(|s| compute_windows(s, metric, spec)).collect()
}

/// Lays out the blocks of a batch as rows, block after block.
pub fn batch_rows(blocks: &Vec<Vec<DensityPoint>>) -> (r: Vec<BatchRow>)
    ensures
        r@ == flatten_rows(blocks@.map_values(|b: Vec<DensityPoint>| b@)),
{
    let ghost views = blocks@.map_values(|b: Vec<DensityPoint>| b@);
    let mut rows: Vec<BatchRow> = Vec::new();
    let mut b: usize = 0;
    while b < blocks.len()
        invariant
            b <= blocks.len(),
            views == blocks@.map_values(|v: Vec<DensityPoint>| v@),
            rows@ == flatten_rows(views.subrange(0, b as int)),
        decreases blocks.len() - b,
    {
        let block = &blocks[b];
        let ghost before = rows@;
        let mut j: usize = 0;
        while j < block.len()
            invariant
                b < blocks.len(),
                block == blocks@[b as int],
                j <= block.len(),
                rows@ == before + block@.subrange(0, j as int).map_values(
                    |p: DensityPoint| BatchRow { sequence: b, point: p },
                ),
            decreases block.len() - j,
        {
            rows.push(BatchRow { sequence: b, point: block[j] });
            j = j + 1;
            assert(rows@ =~= before + block@.subrange(0, j as int).map_values(
                |p: DensityPoint| BatchRow { sequence: b, point: p },
            ));
        }
        proof {
            let next = views.subrange(0, b + 1);
            assert(next.drop_last() =~= views.subrange(0, b as int));
            assert(block@.subrange(0, j as int) =~= block@);
            assert(next.last() == block@);
        }
        b = b + 1;
    }
    assert(views.subrange(0, b as int) =~= views);
    rows
}

/// Copies a block of windows.
fn copy_points(points: &Vec<DensityPoint>) -> (r: Vec<DensityPoint>)
    ensures
        r@ == points@,
{
    let mut out: Vec<DensityPoint> = Vec::new();
    let mut i: usize = 0;
    while i < points.len()
        invariant
            i <= points.len(),
            out@ == points@.subrange(0, i as int),
        decreases points.len() - i,
    {
        out.push(points[i]);
        i = i + 1;
        assert(out@ =~= points@.subrange(0, i as int));
    }
    assert(points@.subrange(0, i as int) =~= points@);
    out
}

/// Computes `metric` over every sequence of the batch, in parallel, and lays
/// the results out as one block of rows per sequence, in input order.
/// Fails on the first sequence, in input order, that is not valid input.
pub fn compute_batch(seqs: &Vec<Vec<u8>>, metric: Metric, spec: WindowSpec) -> (r: Result<
    Vec<BatchRow>,
    BatchError,
>)
    ensures
        r is Ok <==> batch_valid(seqs@.map_values(|s: Vec<u8>| s@), metric, spec),
        r matches Ok(rows) ==> rows@ == flatten_rows(
            batch_windows(seqs@.map_values(|s: Vec<u8>| s@), metric, spec),
        ),
        r matches Err(e) ==> e.index < seqs@.len() && input_error(
            seqs@[e.index as int]@.len(),
            metric,
            spec,
        ) == Some(e.error) && forall|i: int|
            0 <= i < e.index ==> (#[trigger] input_error(seqs@[i]@.len(), metric, spec)) is None,
{
    let ghost views = seqs@.map_values(|s: Vec<u8>| s@);
    let results = compute_all(seqs, metric, spec);
    let mut blocks: Vec<Vec<DensityPoint>> = Vec::new();
    let mut i: usize = 0;
    while i < results.len()
        invariant
            results@.len() == seqs@.len(),
            views == seqs@.map_values(|s: Vec<u8>| s@),
            forall|t: int|
                0 <= t < results@.len() ==> windows_outcome(seqs@[t]@, metric, spec, #[trigger] results@[t]),
            i <= results.len(),
            blocks@.len() == i,
            forall|t: int|
                0 <= t < i ==> (#[trigger] input_error(seqs@[t]@.len(), metric, spec)) is None,
            forall|t: int| 0 <= t < i ==> (#[trigger] blocks@[t])@ == windows_of(seqs@[t]@, metric, spec),
        decreases results.len() - i,
    {
        match &results[i] {
            Ok(points) => {
                blocks.push(copy_points(points));
            },
            Err(e) => {
                assert(views[i as int] == seqs@[i as int]@);
                assert(!(input_error(views[i as int].len(), metric, spec) is None));
                return Err(BatchError { index: i, error: *e });
            },
        }
        i = i + 1;
    }
    let rows = batch_rows(&blocks);
    proof {
        assert(blocks@.map_values(|b: Vec<DensityPoint>| b@) =~= batch_windows(views, metric, spec));
        assert forall|t: int| 0 <= t < views.len() implies (#[trigger] input_error(
            views[t].len(),
            metric,
            spec,
        )) is None by {
            assert(views[t] == seqs@[t]@);
        }
    }
    Ok(rows)
}

} // verus!
