use plasmid_density::batch::{compute_batch, BatchError, BatchRow};
use plasmid_density::density::{
    compute_density_circular, compute_windows, gc_content_circular, DensityError,
};
use plasmid_density::engine::{scan_windows, window_hits, DensityPoint, WindowSpec};
use plasmid_density::metric::{
    complement, gc_flags, is_palindrome_circular, pairs_with, palindrome_flags, Metric,
};

fn bases(s: &str) -> Vec<u8> {
    s.as_bytes().to_vec()
}

fn values(points: &[DensityPoint]) -> Vec<f64> {
    points
        .iter()
        .map(|p| p.hits as f64 / p.window_size as f64)
        .collect()
}

fn positions(points: &[DensityPoint]) -> Vec<usize> {
    points.iter().map(|p| p.position).collect()
}

#[test]
fn gc_windows_of_blocks() {
    let points = gc_content_circular(&bases("GGGGCCCCAAAA"), 4, 4).unwrap();
    assert_eq!(positions(&points), vec![0, 4, 8]);
    assert_eq!(values(&points), vec![1.0, 1.0, 0.0]);
}

#[test]
fn window_count_is_floor_of_length_over_step() {
    let seq = bases("ACGTACGTAC");
    let gc = gc_content_circular(&seq, 4, 3).unwrap();
    assert_eq!(gc.len(), 3);
    assert_eq!(positions(&gc), vec![0, 3, 6]);
    let pal = compute_density_circular(&seq, 2, 4, 3).unwrap();
    assert_eq!(pal.len(), 3);
    let single_step = gc_content_circular(&seq, 1, 1).unwrap();
    assert_eq!(single_step.len(), 10);
    let wide_step = gc_content_circular(&seq, 5, 11).unwrap();
    assert!(wide_step.is_empty());
}

#[test]
fn values_stay_between_zero_and_one() {
    let seq = bases("GCGCATATNNGCCGTAAT");
    for window_size in 1..40 {
        for step_size in 1..6 {
            let gc = gc_content_circular(&seq, window_size, step_size).unwrap();
            let pal = compute_density_circular(&seq, 4, window_size, step_size).unwrap();
            for v in values(&gc).into_iter().chain(values(&pal)) {
                assert!((0.0..=1.0).contains(&v));
            }
        }
    }
}

#[test]
fn window_wraps_past_the_end() {
    // positions 0 and 1 are G; the one window, at 0, has 12 positions:
    // 0..9 and then 0, 1 once more.
    let seq = bases("GGAAAAAAAA");
    let points = gc_content_circular(&seq, 12, 8).unwrap();
    assert_eq!(points.len(), 1);
    assert_eq!(points[0].position, 0);
    assert_eq!(points[0].hits, 4);
    let shifted = gc_content_circular(&bases("AAAAAAAAGG"), 3, 5).unwrap();
    // windows at 0 (0,1,2) and 5 (5,6,7)
    assert_eq!(values(&shifted), vec![0.0, 0.0]);
    let tail = gc_content_circular(&bases("GAAAAAAAAA"), 3, 9).unwrap();
    // the window at 9 is not emitted: floor(10 / 9) = 1
    assert_eq!(tail.len(), 1);
    let wrap = gc_content_circular(&bases("GAAAAAAAAA"), 3, 2).unwrap();
    // the window at 8 covers 8, 9, 0
    assert_eq!(wrap[4].position, 8);
    assert_eq!(wrap[4].hits, 1);
}

#[test]
fn palindrome_at_start_of_aatt() {
    let seq = bases("AATT");
    assert!(is_palindrome_circular(&seq, 0, 4));
    assert_eq!(palindrome_flags(&seq, 4), vec![true, false, true, false]);
    let points = compute_density_circular(&seq, 4, 4, 4).unwrap();
    assert_eq!(points.len(), 1);
    assert!(points[0].hits > 0);
    assert_eq!(values(&points), vec![0.5]);
}

#[test]
fn odd_palindrome_ignores_middle_base() {
    let seq = bases("AXTGGG");
    assert!(is_palindrome_circular(&seq, 0, 3));
    assert!(!is_palindrome_circular(&seq, 3, 3));
}

#[test]
fn unknown_symbols_never_match() {
    assert_eq!(complement(b'N'), b'N');
    assert!(!pairs_with(b'N', b'N'));
    assert!(!pairs_with(b'X', b'N'));
    assert!(!pairs_with(b'A', b'N'));
    let seq = bases("NNNN");
    assert_eq!(gc_flags(&seq), vec![false; 4]);
    assert_eq!(palindrome_flags(&seq, 2), vec![false; 4]);
    let points = compute_density_circular(&seq, 2, 2, 1).unwrap();
    assert!(points.iter().all(|p| p.hits == 0));
    // an unknown base on either side of a mirror pair breaks the palindrome
    assert!(!is_palindrome_circular(&bases("ANGT"), 0, 4));
    assert!(!is_palindrome_circular(&bases("ACNT"), 0, 4));
    assert!(is_palindrome_circular(&bases("ACGT"), 0, 4));
}

#[test]
fn complement_pairs_bases() {
    assert_eq!(complement(b'A'), b'T');
    assert_eq!(complement(b'T'), b'A');
    assert_eq!(complement(b'G'), b'C');
    assert_eq!(complement(b'C'), b'G');
    assert_eq!(complement(b'a'), b'N');
    assert!(pairs_with(b'G', b'C'));
    assert!(!pairs_with(b'G', b'G'));
}

#[test]
fn invalid_inputs_are_refused() {
    let seq = bases("ACGT");
    assert_eq!(gc_content_circular(&Vec::new(), 4, 1), Err(DensityError::EmptySequence));
    assert_eq!(gc_content_circular(&seq, 0, 1), Err(DensityError::ZeroWindowSize));
    assert_eq!(gc_content_circular(&seq, 4, 0), Err(DensityError::ZeroStepSize));
    assert_eq!(compute_density_circular(&seq, 0, 4, 1), Err(DensityError::ZeroK));
    assert_eq!(compute_density_circular(&seq, 5, 4, 1), Err(DensityError::KExceedsLength));
    assert!(compute_density_circular(&seq, 4, 4, 1).is_ok());
}

#[test]
fn engine_counts_flags_circularly() {
    let flags = vec![true, false, false, true];
    assert_eq!(window_hits(&flags, 3, 2), 2);
    assert_eq!(window_hits(&flags, 1, 2), 0);
    assert_eq!(window_hits(&flags, 0, 9), 5);
    let spec = WindowSpec { window_size: 2, step_size: 2 };
    let points = scan_windows(&flags, spec);
    assert_eq!(
        points,
        vec![
            DensityPoint { position: 0, hits: 1, window_size: 2 },
            DensityPoint { position: 2, hits: 1, window_size: 2 },
        ]
    );
}

#[test]
fn rerun_is_identical() {
    let seq = bases("GATTACAGCGCGTTAACCGG");
    let spec = WindowSpec { window_size: 7, step_size: 3 };
    for metric in [Metric::Gc, Metric::Palindrome { k: 4 }] {
        let first = compute_windows(&seq, metric, spec);
        let second = compute_windows(&seq, metric, spec);
        assert_eq!(first, second);
        assert_eq!(format!("{:?}", first), format!("{:?}", second));
    }
}

#[test]
fn batch_of_three_gives_three_blocks() {
    let seqs = vec![bases("GGGGCCCCAAAA"), bases("AATT"), bases("GCGCGCGCGC")];
    let spec = WindowSpec { window_size: 4, step_size: 2 };
    let rows = compute_batch(&seqs, Metric::Gc, spec).unwrap();
    let labels: Vec<usize> = rows.iter().map(|r| r.sequence).collect();
    assert_eq!(labels, vec![0, 0, 0, 0, 0, 0, 1, 1, 2, 2, 2, 2, 2]);
    for (index, seq) in seqs.iter().enumerate() {
        let block: Vec<DensityPoint> =
            rows.iter().filter(|r| r.sequence == index).map(|r| r.point).collect();
        assert_eq!(block, gc_content_circular(seq, 4, 2).unwrap());
        let block_positions = positions(&block);
        assert!(block_positions.windows(2).all(|w| w[0] < w[1]));
    }
    assert_eq!(
        rows[6],
        BatchRow { sequence: 1, point: DensityPoint { position: 0, hits: 0, window_size: 4 } }
    );
}

#[test]
fn batch_palindromes_match_single_runs() {
    let seqs = vec![bases("AATTGCGC"), bases("GAATTCAA"), bases("ACGTACGT")];
    let spec = WindowSpec { window_size: 3, step_size: 2 };
    let rows = compute_batch(&seqs, Metric::Palindrome { k: 4 }, spec).unwrap();
    assert_eq!(rows.len(), 12);
    for (index, seq) in seqs.iter().enumerate() {
        let block: Vec<DensityPoint> =
            rows.iter().filter(|r| r.sequence == index).map(|r| r.point).collect();
        assert_eq!(block, compute_density_circular(seq, 4, 3, 2).unwrap());
    }
    assert!(rows.iter().any(|r| r.point.hits > 0));
}

#[test]
fn batch_fails_on_first_bad_sequence() {
    let seqs = vec![bases("ACGTACGT"), bases("AC"), Vec::new()];
    let spec = WindowSpec { window_size: 3, step_size: 1 };
    assert_eq!(
        compute_batch(&seqs, Metric::Palindrome { k: 4 }, spec),
        Err(BatchError { index: 1, error: DensityError::KExceedsLength })
    );
    assert_eq!(
        compute_batch(&seqs, Metric::Gc, spec),
        Err(BatchError { index: 2, error: DensityError::EmptySequence })
    );
    assert_eq!(compute_batch(&Vec::new(), Metric::Gc, spec), Ok(Vec::new()));
}
