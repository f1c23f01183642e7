//! The steps of copying one file, as a machine that the caller drives: it
//! performs the step that the machine names, reports what happened, and
//! gets the next step back, until the machine has finished.
//!
//! A file is linked where the file system allows it, which copies no bytes;
//! where linking fails for any reason the bytes are copied instead. A file
//! whose name is already taken at the destination is never overwritten.

use vstd::prelude::*;
use crate::classify::{opt_view, should_skip, skipped};
use crate::layout::{date_key, date_key_spec, local_date, CalendarDate};
use crate::stats::{CopyFailure, CopyOutcome, FileResult};

verus! {

/// What the caller does next for one file.
#[derive(Debug)]
pub enum CopyStep {
    /// Read the file's last modification time.
    ReadModified,
    /// Make sure that the dated directory, this path below the destination
    /// root, exists, creating it and its ancestors where they are missing.
    PrepareDir(String),
    /// Look whether a file of the same name stands in the dated directory.
    CheckExisting,
    /// Link the destination name to the source file.
    Link,
    /// Copy the source file's bytes to the destination name.
    ByteCopy,
    /// Nothing: the work on this file ended with this result.
    Finished(FileResult),
}

/// What the caller found when it performed a step.
#[derive(PartialEq, Eq, Structural, Clone, Copy, Debug)]
pub enum StepEvent {
    /// The modification time, in seconds and nanoseconds since the Unix epoch.
    Modified { secs: i64, nanos: u32 },
    /// The step was carried out.
    Succeeded,
    /// The step failed.
    Failed,
    /// A file of that name exists at the destination.
    Found,
    /// No file of that name exists at the destination.
    NotFound,
}

/// The first step for a file with the given final path component.
pub open spec fn first_step(file_name: Option<Seq<char>>) -> CopyStep {
    if skipped(file_name) {
        CopyStep::Finished(FileResult::SkippedUnsupported)
    } else {
        CopyStep::ReadModified
    }
}

/// The step after a modification time whose local date is `date`.
pub open spec fn dated_step(date: Option<CalendarDate>, next: CopyStep) -> bool {
    match date {
        Some(d) => next is PrepareDir && next->PrepareDir_0@ == date_key_spec(d),
        None => next == CopyStep::Finished(FileResult::Failed(CopyFailure::Timestamp)),
    }
}

/// The step after `step` on `event`, for every pair but a modification time
/// reported while it is being read, whose step depends on the time zone.
pub open spec fn next_step(step: CopyStep, event: StepEvent) -> CopyStep {
    match (step, event) {
        (CopyStep::ReadModified, StepEvent::Failed) => CopyStep::Finished(
            FileResult::Failed(CopyFailure::Metadata),
        ),
        (CopyStep::PrepareDir(_), StepEvent::Succeeded) => CopyStep::CheckExisting,
        (CopyStep::PrepareDir(_), StepEvent::Failed) => CopyStep::Finished(
            FileResult::Failed(CopyFailure::CreateDir),
        ),
        (CopyStep::CheckExisting, StepEvent::Found) => CopyStep::Finished(
            FileResult::Outcome(CopyOutcome::SkippedExisting),
        ),
        (CopyStep::CheckExisting, StepEvent::NotFound) => CopyStep::Link,
        (CopyStep::Link, StepEvent::Succeeded) => CopyStep::Finished(
            FileResult::Outcome(CopyOutcome::Copied),
        ),
        (CopyStep::Link, StepEvent::Failed) => CopyStep::ByteCopy,
        (CopyStep::ByteCopy, StepEvent::Succeeded) => CopyStep::Finished(
            FileResult::Outcome(CopyOutcome::Copied),
        ),
        (CopyStep::ByteCopy, StepEvent::Failed) => CopyStep::Finished(
            FileResult::Failed(CopyFailure::Copy),
        ),
        _ => step,
    }
}

/// Whether `step` is waiting for a modification time and `event` brings one.
pub open spec fn is_dating(step: CopyStep, event: StepEvent) -> bool {
    step is ReadModified && event is Modified
}

/// The first step for a file: files that are left out finish at once as
/// unsupported; the others start by reading their modification time.
pub fn begin(file_name: Option<&str>) -> (r: CopyStep)
    ensures
        r == first_step(opt_view(file_name)),
{
    if should_skip(file_name) {
        CopyStep::Finished(FileResult::SkippedUnsupported)
    } else {
        CopyStep::ReadModified
    }
}

/// The step after the local date of the modification time is known: the
/// dated directory `YYYY/MM-DD` is prepared next; without a date the file
/// fails.
pub fn after_date(date: Option<CalendarDate>) -> (r: CopyStep)
    ensures
        dated_step(date, r),
{
    match date {
        Some(d) => CopyStep::PrepareDir(date_key(d)),
        None => CopyStep::Finished(FileResult::Failed(CopyFailure::Timestamp)),
    }
}

/// The step after `step`, given what the caller found performing it. An
/// event that does not answer the step leaves the step as it was.
pub fn advance(step: CopyStep, event: StepEvent) -> (r: CopyStep)
    ensures
        !is_dating(step, event) ==> r == next_step(step, event),
        is_dating(step, event) ==> exists|d: Option<CalendarDate>|
            (d is Some ==> d->0.wf()) && #[trigger] dated_step(d, r),
{
    match (step, event) {
        (CopyStep::ReadModified, StepEvent::Modified { secs, nanos }) => {
            let date = local_date(secs, nanos);
            let r = after_date(date);
            assert(dated_step(date, r));
            r
        },
        (CopyStep::ReadModified, StepEvent::Failed) => CopyStep::Finished(
            FileResult::Failed(CopyFailure::Metadata),
        ),
        (CopyStep::PrepareDir(_), StepEvent::Succeeded) => CopyStep::CheckExisting,
        (CopyStep::PrepareDir(_), StepEvent::Failed) => CopyStep::Finished(
            FileResult::Failed(CopyFailure::CreateDir),
        ),
        (CopyStep::CheckExisting, StepEvent::Found) => CopyStep::Finished(
            FileResult::Outcome(CopyOutcome::SkippedExisting),
        ),
        (CopyStep::CheckExisting, StepEvent::NotFound) => CopyStep::Link,
        (CopyStep::Link, StepEvent::Succeeded) => CopyStep::Finished(
            FileResult::Outcome(CopyOutcome::Copied),
        ),
        (CopyStep::Link, StepEvent::Failed) => CopyStep::ByteCopy,
        (CopyStep::ByteCopy, StepEvent::Succeeded) => CopyStep::Finished(
            FileResult::Outcome(CopyOutcome::Copied),
        ),
        (CopyStep::ByteCopy, StepEvent::Failed) => CopyStep::Finished(
            FileResult::Failed(CopyFailure::Copy),
        ),
        (s, _) => s,
    }
}

} // verus!
