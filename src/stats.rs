//! Per-file outcomes and the summary counts they add up to.

use vstd::prelude::*;

verus! {

/// How a file that was not rejected ended.
#[derive(PartialEq, Eq, Structural, Clone, Copy, Debug)]
pub enum CopyOutcome {
    /// New bytes, or a link to them, now stand at the destination.
    Copied,
    /// A file of that name already stood at the destination; it was left alone.
    SkippedExisting,
}

/// Where the work on a single file failed.
#[derive(PartialEq, Eq, Structural, Clone, Copy, Debug)]
pub enum CopyFailure {
    /// The file's metadata or modification time could not be read.
    Metadata,
    /// The modification time has no calendar date.
    Timestamp,
    /// The dated destination directory could not be created.
    CreateDir,
    /// Neither a link nor a byte copy could be made.
    Copy,
}

/// The outcome of the work on one file.
#[derive(PartialEq, Eq, Structural, Clone, Copy, Debug)]
pub enum FileResult {
    Outcome(CopyOutcome),
    SkippedUnsupported,
    Failed(CopyFailure),
}

/// Summary counts of a run, or of a part of one.
#[derive(Clone, Copy, Debug)]
pub struct CopyStats {
    pub processed: usize,
    pub copied: usize,
    pub skipped: usize,
    pub errors: usize,
}

/// The counts as unbounded numbers.
pub struct Counts {
    pub processed: nat,
    pub copied: nat,
    pub skipped: nat,
    pub errors: nat,
}

impl View for CopyStats {
    type V = Counts;

    open spec fn view(&self) -> Counts {
        Counts {
            processed: self.processed as nat,
            copied: self.copied as nat,
            skipped: self.skipped as nat,
            errors: self.errors as nat,
        }
    }
}

pub open spec fn zero() -> Counts {
    Counts { processed: 0, copied: 0, skipped: 0, errors: 0 }
}

/// Every file counted once, under exactly one of its three ends.
pub open spec fn consistent(c: Counts) -> bool {
    c.processed == c.copied + c.skipped + c.errors
}

/// Field-wise sum of two counts.
pub open spec fn combine(a: Counts, b: Counts) -> Counts {
    Counts {
        processed: a.processed + b.processed,
        copied: a.copied + b.copied,
        skipped: a.skipped + b.skipped,
        errors: a.errors + b.errors,
    }
}

/// The counts after one more file with result `r`.
pub open spec fn count_one(c: Counts, r: FileResult) -> Counts {
    match r {
        FileResult::Outcome(CopyOutcome::Copied) => Counts { processed: c.processed + 1, copied: c.copied + 1, ..c },
        FileResult::Outcome(CopyOutcome::SkippedExisting) => Counts { processed: c.processed + 1, skipped: c.skipped + 1, ..c },
        FileResult::SkippedUnsupported => Counts { processed: c.processed + 1, skipped: c.skipped + 1, ..c },
        FileResult::Failed(_) => Counts { processed: c.processed + 1, errors: c.errors + 1, ..c },
    }
}

/// The counts of a sequence of results, taken from the front.
pub open spec fn tally(rs: Seq<FileResult>) -> Counts
    decreases rs.len(),
{
    if rs.len() == 0 {
        zero()
    } else {
        count_one(tally(rs.drop_last()), rs.last())
    }
}

/// The counts of each part, combined from the front.
pub open spec fn combine_all(parts: Seq<Counts>) -> Counts
    decreases parts.len(),
{
    if parts.len() == 0 {
        zero()
    } else {
        combine(combine_all(parts.drop_last()), parts.last())
    }
}

/// The parts laid end to end.
pub open spec fn concat_all(parts: Seq<Seq<FileResult>>) -> Seq<FileResult>
    decreases parts.len(),
{
    if parts.len() == 0 {
        Seq::empty()
    } else {
        concat_all(parts.drop_last()) + parts.last()
    }
}

/// The counts with a run's traversal errors added.
pub open spec fn add_traversal_errors(c: Counts, n: nat) -> Counts {
    Counts { errors: c.errors + n, ..c }
}

impl CopyStats {
    pub open spec fn fits(c: Counts) -> bool {
        c.processed <= usize::MAX && c.copied <= usize::MAX && c.skipped <= usize::MAX
            && c.errors <= usize::MAX
    }

    /// Counts of nothing, the identity of `merge`.
    pub fn new() -> (r: CopyStats)
        ensures
            r@ == zero(),
    {
        CopyStats { processed: 0, copied: 0, skipped: 0, errors: 0 }
    }

    /// Counts one more file: `processed` and the field of its end go up by one.
    pub fn record(self, r: FileResult) -> (out: CopyStats)
        requires
            consistent(self@),
            self.processed < usize::MAX,
        ensures
            out@ == count_one(self@, r),
            consistent(out@),
    {
        let mut acc = self;
        acc.processed = acc.processed + 1;
        match r {
            FileResult::Outcome(CopyOutcome::Copied) => {
                acc.copied = acc.copied + 1;
            },
            FileResult::Outcome(CopyOutcome::SkippedExisting) => {
                acc.skipped = acc.skipped + 1;
            },
            FileResult::SkippedUnsupported => {
                acc.skipped = acc.skipped + 1;
            },
            FileResult::Failed(_) => {
                acc.errors = acc.errors + 1;
            },
        }
        acc
    }

    /// Field-wise sum of the counts of two parts of a run.
    pub fn merge(self, other: CopyStats) -> (out: CopyStats)
        requires
            Self::fits(combine(self@, other@)),
        ensures
            out@ == combine(self@, other@),
    {
        CopyStats {
            processed: self.processed + other.processed,
            copied: self.copied + other.copied,
            skipped: self.skipped + other.skipped,
            errors: self.errors + other.errors,
        }
    }

    /// Adds the errors met while walking the source tree, which count as
    /// errors but not as processed files.
    pub fn with_traversal_errors(self, n: usize) -> (out: CopyStats)
        requires
            self.errors + n <= usize::MAX,
        ensures
            out@ == add_traversal_errors(self@, n as nat),
    {
        CopyStats { errors: self.errors + n, ..self }
    }

    /// The counts of a list of per-file results.
    pub fn tally_results(results: &Vec<FileResult>) -> (out: CopyStats)
        ensures
            out@ == tally(results@),
    {
        let mut acc = CopyStats::new();
        let mut i: usize = 0;
        while i < results.len()
            invariant
                i <= results@.len(),
                acc@ == tally(results@.subrange(0, i as int)),
                consistent(acc@),
                acc.processed == i,
            decreases results@.len() - i,
        {
            proof {
                lemma_tally_consistent(results@.subrange(0, i as int));
                assert(results@.subrange(0, i + 1).drop_last() =~= results@.subrange(0, i as int));
            }
            acc = acc.record(results[i]);
            i = i + 1;
        }
        assert(results@.subrange(0, i as int) =~= results@);
        acc
    }
}

/// Counting a sequence of results counts each once: `processed` is its
/// length and equals `copied + skipped + errors`.
pub proof fn lemma_tally_consistent(rs: Seq<FileResult>)
    ensures
        tally(rs).processed == rs.len(),
        consistent(tally(rs)),
    decreases rs.len(),
{
    if rs.len() > 0 {
        lemma_tally_consistent(rs.drop_last());
    }
}

/// Counting two lists one after the other is merging their counts.
pub proof fn lemma_tally_append(a: Seq<FileResult>, b: Seq<FileResult>)
    ensures
        tally(a + b) == combine(tally(a), tally(b)),
    decreases b.len(),
{
    if b.len() == 0 {
        assert(a + b =~= a);
    } else {
        assert((a + b).drop_last() =~= a + b.drop_last());
        lemma_tally_append(a, b.drop_last());
    }
}

/// `merge` is commutative.
pub proof fn lemma_combine_commutative(a: Counts, b: Counts)
    ensures
        combine(a, b) == combine(b, a),
{
}

/// `merge` is associative.
pub proof fn lemma_combine_associative(a: Counts, b: Counts, c: Counts)
    ensures
        combine(combine(a, b), c) == combine(a, combine(b, c)),
{
}

/// The empty counts are the identity of `merge`.
pub proof fn lemma_combine_identity(a: Counts)
    ensures
        combine(zero(), a) == a,
        combine(a, zero()) == a,
{
}

/// However the results of a run are split among workers, merging each
/// worker's counts gives the counts of the whole run: `processed` is the
/// number of files and equals `copied + skipped + errors`.
pub proof fn lemma_partition_counts(parts: Seq<Seq<FileResult>>)
    ensures
        combine_all(parts.map_values(|p: Seq<FileResult>| tally(p))) == tally(concat_all(parts)),
        combine_all(parts.map_values(|p: Seq<FileResult>| tally(p))).processed == concat_all(parts).len(),
        consistent(combine_all(parts.map_values(|p: Seq<FileResult>| tally(p)))),
    decreases parts.len(),
{
    let f = |p: Seq<FileResult>| tally(p);
    if parts.len() > 0 {
        lemma_partition_counts(parts.drop_last());
        assert(parts.map_values(f).drop_last() =~= parts.drop_last().map_values(f));
        lemma_tally_append(concat_all(parts.drop_last()), parts.last());
    }
    lemma_tally_consistent(concat_all(parts));
}

proof fn lemma_combine_all_remove(parts: Seq<Counts>, k: int)
    requires
        0 <= k < parts.len(),
    ensures
        combine_all(parts) == combine(combine_all(parts.remove(k)), parts[k]),
    decreases parts.len(),
{
    if k < parts.len() - 1 {
        let init = parts.drop_last();
        lemma_combine_all_remove(init, k);
        assert(parts.remove(k).drop_last() =~= init.remove(k));
        assert(parts.remove(k).last() == parts.last());
    } else {
        assert(parts.remove(k) =~= parts.drop_last());
    }
}

/// Merging the counts of the parts in any order gives the same counts:
/// the order in which workers finish does not matter.
pub proof fn lemma_combine_any_order(parts: Seq<Counts>, reordered: Seq<Counts>)
    requires
        parts.to_multiset() == reordered.to_multiset(),
    ensures
        combine_all(parts) == combine_all(reordered),
    decreases parts.len(),
{
    parts.to_multiset_ensures();
    reordered.to_multiset_ensures();
    assert(parts.len() == reordered.len());
    if parts.len() > 0 {
        let x = parts.last();
        let init = parts.drop_last();
        assert(parts =~= init.push(x));
        assert(parts.contains(x));
        assert(reordered.to_multiset().count(x) > 0);
        assert(reordered.contains(x));
        let k = choose|k: int| 0 <= k < reordered.len() && reordered[k] == x;
        init.to_multiset_ensures();
        assert(init.to_multiset() =~= reordered.remove(k).to_multiset());
        lemma_combine_any_order(init, reordered.remove(k));
        lemma_combine_all_remove(reordered, k);
    } else {
        assert(reordered =~= Seq::<Counts>::empty());
    }
}

} // verus!
