//! The decisions of a whole run: whether the source may be walked, which
//! walked entries are files to process, how many workers to use, and the
//! final counts.

use vstd::prelude::*;
use crate::stats::{
    add_traversal_errors, combine_all, concat_all, consistent, lemma_partition_counts, tally,
    Counts, CopyStats, FileResult,
};

verus! {

/// Why a run cannot start.
#[derive(PartialEq, Eq, Structural, Clone, Copy, Debug)]
pub enum SourceError {
    /// The source path does not exist.
    Missing,
    /// The source path exists but is not a directory.
    NotADirectory,
}

/// Checks the source path before any work: it must exist and be a
/// directory.
pub fn check_source(exists: bool, is_dir: bool) -> (r: Result<(), SourceError>)
    ensures
        !exists ==> r == Err::<(), SourceError>(SourceError::Missing),
        exists && !is_dir ==> r == Err::<(), SourceError>(SourceError::NotADirectory),
        exists && is_dir ==> r is Ok,
{
    if !exists {
        Err(SourceError::Missing)
    } else if !is_dir {
        Err(SourceError::NotADirectory)
    } else {
        Ok(())
    }
}

/// One entry met while walking the source tree.
#[derive(Debug)]
pub enum WalkEntry<P> {
    /// A regular file, at this path.
    File(P),
    /// A directory or another entry that is not a regular file.
    Other,
    /// An entry that could not be read.
    Unreadable,
}

/// The paths of the regular files among `es`, in order.
pub open spec fn file_paths<P>(es: Seq<WalkEntry<P>>) -> Seq<P>
    decreases es.len(),
{
    if es.len() == 0 {
        Seq::empty()
    } else {
        match es.last() {
            WalkEntry::File(p) => file_paths(es.drop_last()).push(p),
            _ => file_paths(es.drop_last()),
        }
    }
}

/// The number of unreadable entries among `es`.
pub open spec fn unreadable_count<P>(es: Seq<WalkEntry<P>>) -> nat
    decreases es.len(),
{
    if es.len() == 0 {
        0
    } else {
        unreadable_count(es.drop_last()) + if es.last() is Unreadable { 1nat } else { 0nat }
    }
}

proof fn lemma_unreadable_bound<P>(es: Seq<WalkEntry<P>>)
    ensures
        unreadable_count(es) <= es.len(),
    decreases es.len(),
{
    if es.len() > 0 {
        lemma_unreadable_bound(es.drop_last());
    }
}

/// Splits the entries of a walk into the regular files to process, in the
/// order met, and the number of entries that could not be read.
pub fn collect_files<P>(entries: Vec<WalkEntry<P>>) -> (r: (Vec<P>, usize))
    ensures
        r.0@ == file_paths(entries@),
        r.1 == unreadable_count(entries@),
{
    let ghost all = entries@;
    let n: usize = entries.len();
    let mut files: Vec<P> = Vec::new();
    let mut errors: usize = 0;
    for e in it: entries
        invariant
            it.seq() == all,
            all.len() == n,
            files@ == file_paths(all.take(it.index() as int)),
            errors == unreadable_count(all.take(it.index() as int)),
    {
        proof {
            let k = it.index() as int;
            assert(all.take(k + 1).drop_last() =~= all.take(k));
            lemma_unreadable_bound(all.take(k));
            assert(k < n);
        }
        match e {
            WalkEntry::File(p) => {
                files.push(p);
            },
            WalkEntry::Other => {},
            WalkEntry::Unreadable => {
                errors = errors + 1;
            },
        }
    }
    assert(all.take(all.len() as int) =~= all);
    (files, errors)
}

/// The number of workers to run: the hint where it is positive, otherwise
/// `None`, which leaves the choice to the platform.
pub fn worker_count(jobs: Option<usize>) -> (r: Option<usize>)
    ensures
        r == (match jobs {
            Some(n) => if n > 0 { Some(n) } else { None },
            None => None,
        }),
{
    match jobs {
        Some(n) => if n > 0 { Some(n) } else { None },
        None => None,
    }
}

/// The final counts of a run: the merged per-file counts with the walk's
/// unreadable entries added to `errors` only.
pub fn finish(per_file: CopyStats, traversal_errors: usize) -> (r: CopyStats)
    requires
        per_file.errors + traversal_errors <= usize::MAX,
    ensures
        r@ == add_traversal_errors(per_file@, traversal_errors as nat),
{
    per_file.with_traversal_errors(traversal_errors)
}

/// However the files of a run are split among workers, the final counts
/// have one `processed` per file, every file under exactly one of
/// `copied`, `skipped` and `errors`, and the walk's unreadable entries in
/// `errors` besides. So `processed == copied + skipped + errors` holds
/// exactly when the walk met no unreadable entry.
pub proof fn lemma_run_counts(parts: Seq<Seq<FileResult>>, traversal_errors: nat)
    ensures
        ({
            let merged = combine_all(parts.map_values(|p: Seq<FileResult>| tally(p)));
            let total = add_traversal_errors(merged, traversal_errors);
            &&& merged == tally(concat_all(parts))
            &&& consistent(merged)
            &&& total.processed == concat_all(parts).len()
            &&& total.copied + total.skipped + total.errors == total.processed + traversal_errors
            &&& (consistent(total) <==> traversal_errors == 0)
        }),
{
    lemma_partition_counts(parts);
}

} // verus!
