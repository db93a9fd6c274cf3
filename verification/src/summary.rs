//! The result aggregator and the final report: classifying each job's
//! outcome by size comparison, accumulating saved and total bytes with
//! the processed-file log, and the report's percentages and rates.

use vstd::prelude::*;
use vstd::string::*;

use vstd::arithmetic::div_mod::{lemma_multiply_divide_le, lemma_multiply_divide_lt};

use crate::text::{dec_rep, dec_u64, humanize_bytes, humanize_rep};

verus! {

/// The terminal classification of one dispatched file.
#[derive(Debug)]
pub enum JobStatus {
    /// The re-encoded output is strictly smaller than the original.
    Improved,
    /// The re-encoded output is as large as the original or larger.
    NotImproved,
    /// The external command failed; the reason is reported and the
    /// file is excluded from aggregation.
    Failed(String),
}

/// What one worker hands to the aggregator for one file.
#[derive(Debug)]
pub struct JobOutcome {
    pub file: String,
    pub original_size: u64,
    pub new_size: u64,
    pub status: JobStatus,
}

/// An outcome is consistent when an `Improved` status really means the
/// new size is strictly smaller.
pub open spec fn outcome_consistent(o: JobOutcome) -> bool {
    o.status is Improved ==> o.new_size < o.original_size
}

/// Classifies a successfully transcoded file by comparing the sizes
/// read back from the filesystem: `Improved` exactly when the new file
/// is strictly smaller.
pub fn classify(file: String, original_size: u64, new_size: u64) -> (o: JobOutcome)
    requires
        original_size >= 1,
    ensures
        o.file == file,
        o.original_size == original_size,
        o.new_size == new_size,
        o.status is Improved <==> new_size < original_size,
        new_size >= original_size ==> o.status is NotImproved,
        outcome_consistent(o),
{
    if new_size < original_size {
        JobOutcome { file, original_size, new_size, status: JobStatus::Improved }
    } else {
        JobOutcome { file, original_size, new_size, status: JobStatus::NotImproved }
    }
}

fn ratio100(a: u64, b: u64) -> (r: u64)
    requires
        1 <= b,
        a <= b,
    ensures
        r as int == (a as int * 100) / (b as int),
        r <= 100,
{
    proof {
        lemma_multiply_divide_le(a as int * 100, b as int, 100);
    }
    ((a as u128 * 100) / (b as u128)) as u64
}

/// The percentage by which an improved file shrank, rounded as the
/// report rounds it: `100 - (new * 100) / original`.
pub fn percent_smaller(original_size: u64, new_size: u64) -> (p: u64)
    requires
        new_size < original_size,
    ensures
        p as int == 100 - (new_size as int * 100) / (original_size as int),
        p <= 100,
{
    proof {
        lemma_multiply_divide_lt(new_size as int * 100, original_size as int, 100);
    }
    100 - ratio100(new_size, original_size)
}

/// The percentage the report shows for a file that did not improve:
/// `(original * 100) / new`.
pub fn percent_larger(original_size: u64, new_size: u64) -> (p: u64)
    requires
        1 <= original_size <= new_size,
    ensures
        p as int == (original_size as int * 100) / (new_size as int),
        p <= 100,
{
    ratio100(original_size, new_size)
}

/// The progress note for an improved file.
pub fn smaller_note(original_size: u64, new_size: u64) -> (r: String)
    requires
        new_size < original_size,
    ensures
        r@ == "smaller by "@ + dec_rep(100 - (new_size as int * 100) / (original_size as int))
            + "% "@,
{
    let p = percent_smaller(original_size, new_size);
    "smaller by ".to_owned().concat(dec_u64(p).as_str()).concat("% ")
}

/// The progress note for a file that did not improve.
pub fn larger_note(original_size: u64, new_size: u64) -> (r: String)
    requires
        1 <= original_size <= new_size,
    ensures
        r@ == " larger by "@ + dec_rep((original_size as int * 100) / (new_size as int)) + "% "@,
{
    let p = percent_larger(original_size, new_size);
    " larger by ".to_owned().concat(dec_u64(p).as_str()).concat("% ")
}

/// One line of the processed-file log: a file that improved, with its
/// sizes before and after.
#[derive(Debug)]
pub struct ProcessedFile {
    pub file: String,
    pub old_size: u64,
    pub new_size: u64,
}

/// A log entry is well formed when the file really shrank.
pub open spec fn entry_ok(p: ProcessedFile) -> bool {
    p.new_size < p.old_size
}

/// The bytes the logged files saved.
pub open spec fn sum_saved(s: Seq<ProcessedFile>) -> int
    decreases s.len(),
{
    if s.len() == 0 {
        0
    } else {
        sum_saved(s.drop_last()) + s.last().old_size - s.last().new_size
    }
}

/// The original bytes of the logged files.
pub open spec fn sum_old(s: Seq<ProcessedFile>) -> int
    decreases s.len(),
{
    if s.len() == 0 {
        0
    } else {
        sum_old(s.drop_last()) + s.last().old_size
    }
}

proof fn lemma_sums_bounded(s: Seq<ProcessedFile>)
    requires
        forall|i: int| 0 <= i < s.len() ==> entry_ok(#[trigger] s[i]),
    ensures
        0 <= sum_saved(s) <= sum_old(s),
    decreases s.len(),
{
    if s.len() > 0 {
        assert(entry_ok(s.last()));
        lemma_sums_bounded(s.drop_last());
    }
}

/// The shared accumulator of the run: saved and total byte counters
/// and the log of improved files, mutated once per completed job.
#[derive(Debug)]
pub struct RunSummary {
    pub saved_bytes: u64,
    pub total_bytes: u64,
    pub processed: Vec<ProcessedFile>,
}

impl RunSummary {
    /// The counters agree with the log: every logged file shrank,
    /// `saved_bytes` is the bytes saved over the log and `total_bytes`
    /// the original bytes of the logged files.
    pub open spec fn wf(self) -> bool {
        &&& forall|i: int| 0 <= i < self.processed@.len() ==> entry_ok(#[trigger] self.processed@[i])
        &&& self.saved_bytes as int == sum_saved(self.processed@)
        &&& self.total_bytes as int == sum_old(self.processed@)
    }

    /// Saved bytes never exceed the improved files' total bytes.
    pub proof fn lemma_saved_le_total(self)
        requires
            self.wf(),
        ensures
            self.saved_bytes <= self.total_bytes,
    {
        lemma_sums_bounded(self.processed@);
    }

    /// The empty summary a run starts from.
    pub fn new() -> (s: Self)
        ensures
            s.wf(),
            s.saved_bytes == 0,
            s.total_bytes == 0,
            s.processed@.len() == 0,
    {
        RunSummary { saved_bytes: 0, total_bytes: 0, processed: Vec::new() }
    }

    /// Consumes one job outcome: an improved file adds its savings and
    /// its original size to the counters and is appended to the log;
    /// any other outcome leaves the summary untouched.  Both counters
    /// are monotonically non-decreasing and the saved bytes stay
    /// bounded by the total.
    pub fn record(&mut self, outcome: JobOutcome)
        requires
            old(self).wf(),
            outcome_consistent(outcome),
            outcome.status is Improved ==> old(self).total_bytes + outcome.original_size
                <= u64::MAX,
        ensures
            final(self).wf(),
            outcome.status is Improved ==> (final(self).saved_bytes == old(self).saved_bytes + (
            outcome.original_size - outcome.new_size) && final(self).total_bytes == old(
                self,
            ).total_bytes + outcome.original_size && final(self).processed@ == old(
                self,
            ).processed@.push(
                (ProcessedFile {
                    file: outcome.file,
                    old_size: outcome.original_size,
                    new_size: outcome.new_size,
                }),
            )),
            !(outcome.status is Improved) ==> *final(self) == *old(self),
            final(self).saved_bytes >= old(self).saved_bytes,
            final(self).total_bytes >= old(self).total_bytes,
            final(self).saved_bytes <= final(self).total_bytes,
    {
        proof {
            lemma_sums_bounded(self.processed@);
        }
        match outcome.status {
            JobStatus::Improved => {
                let entry = ProcessedFile {
                    file: outcome.file,
                    old_size: outcome.original_size,
                    new_size: outcome.new_size,
                };
                proof {
                    assert(self.processed@.push(entry).drop_last() =~= self.processed@);
                }
                self.saved_bytes = self.saved_bytes + (outcome.original_size - outcome.new_size);
                self.total_bytes = self.total_bytes + outcome.original_size;
                self.processed.push(entry);
                proof {
                    lemma_sums_bounded(self.processed@);
                }
            },
            _ => {},
        }
    }
}

/// The log an outcome sequence produces: one entry per improved
/// outcome, in outcome order.
pub open spec fn processed_of(outcomes: Seq<JobOutcome>) -> Seq<ProcessedFile>
    decreases outcomes.len(),
{
    if outcomes.len() == 0 {
        Seq::empty()
    } else {
        let rest = processed_of(outcomes.drop_last());
        let last = outcomes.last();
        if last.status is Improved {
            rest.push(
                ProcessedFile {
                    file: last.file,
                    old_size: last.original_size,
                    new_size: last.new_size,
                },
            )
        } else {
            rest
        }
    }
}

/// The summary is bounded by the dispatched work: it never logs more
/// files than there were outcomes, and it never claims more saved
/// bytes than the improved files' total bytes.
pub proof fn lemma_summary_bounded(outcomes: Seq<JobOutcome>)
    requires
        forall|i: int| 0 <= i < outcomes.len() ==> outcome_consistent(#[trigger] outcomes[i]),
    ensures
        processed_of(outcomes).len() <= outcomes.len(),
        0 <= sum_saved(processed_of(outcomes)) <= sum_old(processed_of(outcomes)),
    decreases outcomes.len(),
{
    lemma_processed_entries_ok(outcomes);
    lemma_sums_bounded(processed_of(outcomes));
    if outcomes.len() > 0 {
        lemma_summary_bounded(outcomes.drop_last());
    }
}

/// Every logged entry of a consistent outcome sequence shrank.
pub proof fn lemma_processed_entries_ok(outcomes: Seq<JobOutcome>)
    requires
        forall|i: int| 0 <= i < outcomes.len() ==> outcome_consistent(#[trigger] outcomes[i]),
    ensures
        forall|i: int| 0 <= i < processed_of(outcomes).len() ==> entry_ok(
            #[trigger] processed_of(outcomes)[i],
        ),
    decreases outcomes.len(),
{
    if outcomes.len() > 0 {
        assert(outcome_consistent(outcomes.last()));
        lemma_processed_entries_ok(outcomes.drop_last());
        let rest = processed_of(outcomes.drop_last());
        let p = processed_of(outcomes);
        assert forall|i: int| 0 <= i < p.len() implies entry_ok(#[trigger] p[i]) by {
            if outcomes.last().status is Improved {
                if i < rest.len() {
                    assert(p[i] == rest[i]);
                } else {
                    assert(p[i] == p.last());
                }
            } else {
                assert(p[i] == rest[i]);
            }
        }
    }
}

/// The summary is a pure function of the job outcomes.  A dry run
/// mutates no file (its replacement plan is always to skip), so a
/// repeated dry run over the same files with a deterministic
/// transcoder sees the same outcomes — and therefore reports the
/// identical summary.
pub proof fn lemma_dry_run_idempotent(first: Seq<JobOutcome>, second: Seq<JobOutcome>)
    requires
        second == first,
    ensures
        processed_of(second) == processed_of(first),
        sum_saved(processed_of(second)) == sum_saved(processed_of(first)),
        sum_old(processed_of(second)) == sum_old(processed_of(first)),
{
}

/// A run over no files aggregates to the empty summary: nothing saved,
/// nothing logged, no side effects to report.
pub proof fn lemma_empty_run()
    ensures
        processed_of(Seq::<JobOutcome>::empty()) == Seq::<ProcessedFile>::empty(),
        sum_saved(processed_of(Seq::<JobOutcome>::empty())) == 0,
        sum_old(processed_of(Seq::<JobOutcome>::empty())) == 0,
{
}

proof fn lemma_sum_old_take_monotone(outcomes: Seq<JobOutcome>, i: int)
    requires
        0 <= i <= outcomes.len(),
    ensures
        sum_old(processed_of(outcomes.take(i))) <= sum_old(processed_of(outcomes)),
        sum_old(processed_of(outcomes.take(i))) >= 0,
    decreases outcomes.len() - i,
{
    lemma_sum_old_nonneg(processed_of(outcomes.take(i)));
    if i == outcomes.len() {
        assert(outcomes.take(i) =~= outcomes);
    } else {
        lemma_sum_old_take_monotone(outcomes, i + 1);
        let prev = processed_of(outcomes.take(i));
        let cur = processed_of(outcomes.take(i + 1));
        assert(outcomes.take(i + 1).drop_last() =~= outcomes.take(i));
        assert(outcomes.take(i + 1).last() == outcomes[i]);
        if outcomes[i].status is Improved {
            assert(cur == prev.push(cur.last()));
            assert(prev.push(cur.last()).drop_last() =~= prev);
            assert(sum_old(cur) == sum_old(prev) + outcomes[i].original_size);
        } else {
            assert(cur == prev);
        }
    }
}

proof fn lemma_sum_old_nonneg(s: Seq<ProcessedFile>)
    ensures
        sum_old(s) >= 0,
    decreases s.len(),
{
    if s.len() > 0 {
        lemma_sum_old_nonneg(s.drop_last());
    }
}

/// Folds a whole outcome list into a summary, as the collector task
/// owning the accumulator would.
pub fn aggregate(outcomes: Vec<JobOutcome>) -> (s: RunSummary)
    requires
        forall|i: int| 0 <= i < outcomes@.len() ==> outcome_consistent(#[trigger] outcomes@[i]),
        sum_old(processed_of(outcomes@)) <= u64::MAX,
    ensures
        s.wf(),
        s.processed@ == processed_of(outcomes@),
        s.saved_bytes as int == sum_saved(processed_of(outcomes@)),
        s.total_bytes as int == sum_old(processed_of(outcomes@)),
{
    let ghost all = outcomes@;
    let mut outcomes = outcomes;
    let mut s = RunSummary::new();
    proof {
        assert(outcomes@ =~= all.subrange(all.len() - outcomes@.len(), all.len() as int));
        assert(all.take(0) =~= Seq::<JobOutcome>::empty());
    }
    while outcomes.len() > 0
        invariant
            outcomes@.len() <= all.len(),
            outcomes@ == all.subrange(all.len() - outcomes@.len(), all.len() as int),
            forall|i: int| 0 <= i < all.len() ==> outcome_consistent(#[trigger] all[i]),
            sum_old(processed_of(all)) <= u64::MAX,
            s.wf(),
            s.processed@ == processed_of(all.take(all.len() - outcomes@.len())),
            s.saved_bytes as int == sum_saved(s.processed@),
            s.total_bytes as int == sum_old(s.processed@),
        decreases outcomes@.len(),
    {
        let ghost k = all.len() - outcomes@.len();
        let o = outcomes.remove(0);
        proof {
            assert(o == all[k]);
            assert(outcomes@ =~= all.subrange(k + 1, all.len() as int));
            assert(all.take(k + 1).drop_last() =~= all.take(k));
            assert(all.take(k + 1).last() == all[k]);
            assert(outcome_consistent(all[k]));
            let prev = processed_of(all.take(k));
            let cur = processed_of(all.take(k + 1));
            if o.status is Improved {
                assert(cur == prev.push(cur.last()));
                assert(prev.push(cur.last()).drop_last() =~= prev);
                assert(sum_old(cur) == sum_old(prev) + o.original_size);
                lemma_sum_old_take_monotone(all, k + 1);
            }
        }
        s.record(o);
        proof {
            assert(s.processed@ == processed_of(all.take(k + 1)));
        }
    }
    proof {
        assert(all.take(all.len() as int) =~= all);
    }
    s
}

/// The share of the original bytes that the run saved, as the summary
/// line prints it: `(saved * 100) / total`.
pub fn saved_percent(saved_bytes: u64, total_bytes: u64) -> (p: u64)
    requires
        1 <= saved_bytes <= total_bytes,
    ensures
        p as int == (saved_bytes as int * 100) / (total_bytes as int),
        p <= 100,
{
    ratio100(saved_bytes, total_bytes)
}

/// The three size cells of one table row: old size, new size and saved
/// size, humanized.
pub fn row_cells(p: &ProcessedFile) -> (r: (String, String, String))
    requires
        entry_ok(*p),
    ensures
        r.0@ == humanize_rep(p.old_size as int),
        r.1@ == humanize_rep(p.new_size as int),
        r.2@ == humanize_rep(p.old_size - p.new_size),
{
    (
        humanize_bytes(p.old_size),
        humanize_bytes(p.new_size),
        humanize_bytes(p.old_size - p.new_size),
    )
}

/// The totals row of the table: total original bytes, total bytes
/// after the run, and total saved bytes, humanized.
pub fn totals_cells(saved_bytes: u64, total_bytes: u64) -> (r: (String, String, String))
    requires
        saved_bytes <= total_bytes,
    ensures
        r.0@ == humanize_rep(total_bytes as int),
        r.1@ == humanize_rep(total_bytes - saved_bytes),
        r.2@ == humanize_rep(saved_bytes as int),
{
    (
        humanize_bytes(total_bytes),
        humanize_bytes(total_bytes - saved_bytes),
        humanize_bytes(saved_bytes),
    )
}

/// The denominator of the time-per-megabyte rate: the processed
/// megabytes, floored, but never zero.
pub open spec fn mb_divisor(total_bytes: int) -> int {
    if total_bytes / 1000000 == 0 {
        1
    } else {
        total_bytes / 1000000
    }
}

/// Milliseconds per megabyte processed, guarding the division against
/// a run whose total is below one megabyte.
pub fn time_per_mb(elapsed_ms: u128, total_bytes: u64) -> (r: u128)
    ensures
        r as int == elapsed_ms as int / mb_divisor(total_bytes as int),
{
    let mb = total_bytes / 1000000;
    let divisor: u128 = if mb == 0 {
        1
    } else {
        mb as u128
    };
    elapsed_ms / divisor
}

} // verus!
