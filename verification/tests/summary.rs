use decoreco::encode::{replace_plan, ReplacePlan};
use decoreco::summary::{
    aggregate, classify, larger_note, percent_larger, percent_smaller, row_cells, saved_percent,
    smaller_note, time_per_mb, totals_cells, JobStatus, RunSummary,
};

const MIB: u64 = 1024 * 1024;

#[test]
fn shrunk_file_is_improved_and_logged() {
    // a 10 MiB input the transcoder shrank to 6 MiB
    let outcome = classify("big.mp4".to_string(), 10 * MIB, 6 * MIB);
    assert!(matches!(outcome.status, JobStatus::Improved));

    let mut summary = RunSummary::new();
    summary.record(outcome);
    assert_eq!(summary.saved_bytes, 4 * MIB);
    assert_eq!(summary.total_bytes, 10 * MIB);
    assert_eq!(summary.processed.len(), 1);
    assert_eq!(summary.processed[0].file, "big.mp4");
    assert_eq!(summary.processed[0].old_size, 10 * MIB);
    assert_eq!(summary.processed[0].new_size, 6 * MIB);

    // outside a dry run the improved file is replaced
    assert!(matches!(
        replace_plan(false, false, "big.mp4"),
        ReplacePlan::Move { remove_original: false, .. }
    ));

    // the table row shows old, new and saved sizes
    let (old, new, saved) = row_cells(&summary.processed[0]);
    assert_eq!(old, "10 MiB");
    assert_eq!(new, "6 MiB");
    assert_eq!(saved, "4 MiB");
}

#[test]
fn grown_file_is_not_improved_and_not_counted() {
    // a 2 MiB input the transcoder grew by half a MiB
    let outcome = classify("small.mp4".to_string(), 2 * MIB, 2 * MIB + 512 * 1024);
    assert!(matches!(outcome.status, JobStatus::NotImproved));

    let mut summary = RunSummary::new();
    summary.record(outcome);
    assert_eq!(summary.saved_bytes, 0);
    assert_eq!(summary.total_bytes, 0);
    assert!(summary.processed.is_empty());
}

#[test]
fn equal_size_is_not_improved() {
    let outcome = classify("same.mp4".to_string(), MIB, MIB);
    assert!(matches!(outcome.status, JobStatus::NotImproved));
}

#[test]
fn failed_outcome_leaves_the_summary_untouched() {
    let mut summary = RunSummary::new();
    summary.record(decoreco::summary::JobOutcome {
        file: "bad.mp4".to_string(),
        original_size: 0,
        new_size: 0,
        status: JobStatus::Failed("boom".to_string()),
    });
    assert_eq!(summary.saved_bytes, 0);
    assert_eq!(summary.total_bytes, 0);
    assert!(summary.processed.is_empty());
}

#[test]
fn aggregate_is_bounded_by_the_dispatched_work() {
    let outcomes = vec![
        classify("a".to_string(), 10 * MIB, 6 * MIB),
        classify("b".to_string(), 2 * MIB, 3 * MIB),
        decoreco::summary::JobOutcome {
            file: "c".to_string(),
            original_size: 0,
            new_size: 0,
            status: JobStatus::Failed("exit 1".to_string()),
        },
        classify("d".to_string(), 5 * MIB, 4 * MIB),
    ];
    let n = outcomes.len();
    let s = aggregate(outcomes);
    assert!(s.processed.len() <= n);
    assert_eq!(s.processed.len(), 2);
    assert!(s.saved_bytes <= s.total_bytes);
    assert_eq!(s.saved_bytes, 5 * MIB);
    assert_eq!(s.total_bytes, 15 * MIB);
}

#[test]
fn aggregate_of_no_outcomes_is_empty() {
    let s = aggregate(Vec::new());
    assert_eq!(s.saved_bytes, 0);
    assert_eq!(s.total_bytes, 0);
    assert!(s.processed.is_empty());
}

#[test]
fn dry_runs_repeat_identically() {
    let make = || {
        vec![
            classify("a".to_string(), 10 * MIB, 6 * MIB),
            classify("b".to_string(), 2 * MIB, 3 * MIB),
        ]
    };
    let first = aggregate(make());
    let second = aggregate(make());
    assert_eq!(first.saved_bytes, second.saved_bytes);
    assert_eq!(first.total_bytes, second.total_bytes);
    assert_eq!(first.processed.len(), second.processed.len());
    for (x, y) in first.processed.iter().zip(second.processed.iter()) {
        assert_eq!(x.file, y.file);
        assert_eq!(x.old_size, y.old_size);
        assert_eq!(x.new_size, y.new_size);
    }
}

#[test]
fn percentages_round_like_the_report() {
    assert_eq!(percent_smaller(10_000_000, 6_000_000), 40);
    assert_eq!(percent_smaller(3, 2), 34);
    assert_eq!(percent_larger(2_000_000, 2_500_000), 80);
    assert_eq!(percent_larger(MIB, MIB), 100);
    assert_eq!(saved_percent(4 * MIB, 10 * MIB), 40);
    assert_eq!(saved_percent(1, u64::MAX), 0);
}

#[test]
fn progress_notes() {
    assert_eq!(smaller_note(10_000_000, 6_000_000), "smaller by 40% ");
    assert_eq!(larger_note(2_000_000, 2_500_000), " larger by 80% ");
}

#[test]
fn totals_row_shows_before_after_and_saved() {
    let (total, after, saved) = totals_cells(4 * MIB, 10 * MIB);
    assert_eq!(total, "10 MiB");
    assert_eq!(after, "6 MiB");
    assert_eq!(saved, "4 MiB");
}

#[test]
fn rate_guards_the_division() {
    assert_eq!(time_per_mb(9000, 3_000_000), 3000);
    assert_eq!(time_per_mb(5000, 500_000), 5000);
    assert_eq!(time_per_mb(5000, 0), 5000);
    assert_eq!(time_per_mb(0, 3_000_000), 0);
}
