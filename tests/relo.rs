use relo::classify::{classify, should_skip, Verdict};
use relo::copy_plan::{advance, after_date, begin, CopyStep, StepEvent};
use relo::layout::{date_key, CalendarDate};
use relo::run::{check_source, collect_files, finish, worker_count, SourceError, WalkEntry};
use relo::stats::{CopyFailure, CopyOutcome, CopyStats, FileResult};

fn date(year: i32, month: u32, day: u32) -> CalendarDate {
    CalendarDate { year, month, day }
}

fn finished(step: &CopyStep) -> Option<FileResult> {
    match step {
        CopyStep::Finished(r) => Some(*r),
        _ => None,
    }
}

/// Drives the steps of one file with the answers of a file system in which
/// linking fails and copying succeeds, and where `existing` tells whether
/// the destination name is taken.
fn drive(name: &str, day: CalendarDate, existing: bool) -> FileResult {
    let mut step = begin(Some(name));
    let mut turns = 0;
    loop {
        turns += 1;
        assert!(turns < 10);
        step = match step {
            CopyStep::Finished(r) => return r,
            CopyStep::ReadModified => after_date(Some(day)),
            CopyStep::PrepareDir(_) => advance(step, StepEvent::Succeeded),
            CopyStep::CheckExisting => {
                advance(step, if existing { StepEvent::Found } else { StepEvent::NotFound })
            }
            CopyStep::Link => advance(step, StepEvent::Failed),
            CopyStep::ByteCopy => advance(step, StepEvent::Succeeded),
        };
    }
}

#[test]
fn skips_and_accepts_expected_extensions() {
    assert!(!should_skip(Some("a.JPG")));
    assert!(should_skip(Some("note.txt")));
    assert!(should_skip(Some("Thumbs.db")));
}

#[test]
fn classify_examples() {
    assert_eq!(classify("photo.JPG", Some("JPG")), Verdict::Accept);
    assert_eq!(classify("note.txt", Some("txt")), Verdict::Reject);
    assert_eq!(classify("Thumbs.db", Some("db")), Verdict::Reject);
    assert_eq!(classify("video.MKV", Some("MKV")), Verdict::Accept);
    assert_eq!(classify("README", None), Verdict::Reject);
}

#[test]
fn ignored_names_match_without_case() {
    assert_eq!(classify("thumbs.DB", Some("DB")), Verdict::Reject);
    assert_eq!(classify(".ds_store", None), Verdict::Reject);
    assert_eq!(classify("THUMBS.DB", Some("jpg")), Verdict::Reject);
    assert!(should_skip(Some(".DS_STORE")));
}

#[test]
fn every_media_extension_is_accepted() {
    let exts = [
        "jpg", "mp4", "png", "gif", "bmp", "tiff", "tif", "webp", "svg", "ico", "mp3", "wav",
        "aac", "ogg", "flac", "m4a", "mov", "avi", "wmv", "mkv", "webm",
    ];
    for e in exts {
        assert_eq!(classify("x", Some(e)), Verdict::Accept);
        assert_eq!(classify("x", Some(&e.to_uppercase())), Verdict::Accept);
    }
    assert_eq!(classify("x", Some("jpeg")), Verdict::Reject);
    assert_eq!(classify("x", Some("")), Verdict::Reject);
}

#[test]
fn extension_follows_the_last_dot() {
    assert!(!should_skip(Some("archive.tar.png")));
    assert!(should_skip(Some("photo.png.bak")));
    assert!(should_skip(Some(".png")));
    assert!(!should_skip(Some("..png")));
    assert!(should_skip(Some("photo.")));
    assert!(should_skip(Some("photo")));
    assert!(should_skip(None));
}

#[test]
fn date_key_pads_month_and_day() {
    assert_eq!(date_key(date(2024, 3, 7)), "2024/03-07");
    assert_eq!(date_key(date(1999, 12, 31)), "1999/12-31");
    assert_eq!(date_key(date(987, 10, 1)), "0987/10-01");
}

#[test]
fn date_key_signs_years_outside_four_digits() {
    assert_eq!(date_key(date(12345, 1, 2)), "+12345/01-02");
    assert_eq!(date_key(date(-5, 6, 9)), "-0005/06-09");
    assert_eq!(date_key(date(0, 1, 1)), "0000/01-01");
}

#[test]
fn copy_single_writes_to_dated_directory() {
    let step = begin(Some("photo.jpg"));
    assert!(matches!(step, CopyStep::ReadModified));
    let step = after_date(Some(date(2024, 3, 7)));
    match &step {
        CopyStep::PrepareDir(key) => assert_eq!(key, "2024/03-07"),
        other => panic!("unexpected step {:?}", other),
    }
    let step = advance(step, StepEvent::Succeeded);
    assert!(matches!(step, CopyStep::CheckExisting));
    let step = advance(step, StepEvent::NotFound);
    assert!(matches!(step, CopyStep::Link));
    let linked = advance(CopyStep::Link, StepEvent::Succeeded);
    assert_eq!(finished(&linked), Some(FileResult::Outcome(CopyOutcome::Copied)));
    let step = advance(step, StepEvent::Failed);
    assert!(matches!(step, CopyStep::ByteCopy));
    let step = advance(step, StepEvent::Succeeded);
    assert_eq!(finished(&step), Some(FileResult::Outcome(CopyOutcome::Copied)));
}

#[test]
fn second_copy_skips_existing() {
    let d = date(2024, 3, 7);
    assert_eq!(drive("photo.jpg", d, false), FileResult::Outcome(CopyOutcome::Copied));
    assert_eq!(drive("photo.jpg", d, true), FileResult::Outcome(CopyOutcome::SkippedExisting));
}

#[test]
fn failures_name_their_step() {
    let r = advance(CopyStep::ReadModified, StepEvent::Failed);
    assert_eq!(finished(&r), Some(FileResult::Failed(CopyFailure::Metadata)));
    let r = advance(CopyStep::PrepareDir("2024/03-07".to_string()), StepEvent::Failed);
    assert_eq!(finished(&r), Some(FileResult::Failed(CopyFailure::CreateDir)));
    let r = advance(CopyStep::ByteCopy, StepEvent::Failed);
    assert_eq!(finished(&r), Some(FileResult::Failed(CopyFailure::Copy)));
    let r = after_date(None);
    assert_eq!(finished(&r), Some(FileResult::Failed(CopyFailure::Timestamp)));
    assert_eq!(finished(&begin(Some("b.txt"))), Some(FileResult::SkippedUnsupported));
}

#[test]
fn unanswered_event_keeps_the_step() {
    let r = advance(CopyStep::Link, StepEvent::Found);
    assert!(matches!(r, CopyStep::Link));
    let done = CopyStep::Finished(FileResult::SkippedUnsupported);
    let r = advance(done, StepEvent::Succeeded);
    assert_eq!(finished(&r), Some(FileResult::SkippedUnsupported));
}

#[test]
fn modification_time_gives_a_dated_directory() {
    // 2024-03-07 12:00:00 UTC is 2024-03-07 or 2024-03-08 in every time zone
    let step = advance(CopyStep::ReadModified, StepEvent::Modified { secs: 1709812800, nanos: 0 });
    match step {
        CopyStep::PrepareDir(key) => {
            assert!(key == "2024/03-07" || key == "2024/03-08", "{}", key);
        }
        other => panic!("unexpected step {:?}", other),
    }
}

#[test]
fn out_of_range_time_fails() {
    let step = advance(CopyStep::ReadModified, StepEvent::Modified { secs: i64::MAX, nanos: 0 });
    assert_eq!(finished(&step), Some(FileResult::Failed(CopyFailure::Timestamp)));
    let step = advance(CopyStep::ReadModified, StepEvent::Modified { secs: 0, nanos: 2_000_000_000 });
    assert_eq!(finished(&step), Some(FileResult::Failed(CopyFailure::Timestamp)));
}

#[test]
fn record_counts_each_end() {
    let s = CopyStats::new()
        .record(FileResult::Outcome(CopyOutcome::Copied))
        .record(FileResult::Outcome(CopyOutcome::SkippedExisting))
        .record(FileResult::SkippedUnsupported)
        .record(FileResult::Failed(CopyFailure::Copy));
    assert_eq!((s.processed, s.copied, s.skipped, s.errors), (4, 1, 2, 1));
}

#[test]
fn any_split_gives_the_same_counts() {
    let results = vec![
        FileResult::Outcome(CopyOutcome::Copied),
        FileResult::SkippedUnsupported,
        FileResult::Failed(CopyFailure::Metadata),
        FileResult::Outcome(CopyOutcome::Copied),
        FileResult::Outcome(CopyOutcome::SkippedExisting),
    ];
    let whole = CopyStats::tally_results(&results);
    assert_eq!((whole.processed, whole.copied, whole.skipped, whole.errors), (5, 2, 2, 1));
    for cut in 0..=results.len() {
        let a = CopyStats::tally_results(&results[..cut].to_vec());
        let b = CopyStats::tally_results(&results[cut..].to_vec());
        for m in [a.merge(b), b.merge(a)] {
            assert_eq!((m.processed, m.copied, m.skipped, m.errors), (5, 2, 2, 1));
            assert_eq!(m.processed, m.copied + m.skipped + m.errors);
        }
    }
    let empty = CopyStats::tally_results(&Vec::new());
    assert_eq!((empty.processed, empty.copied, empty.skipped, empty.errors), (0, 0, 0, 0));
}

#[test]
fn traversal_errors_count_as_errors_only() {
    let s = CopyStats::new().record(FileResult::SkippedUnsupported);
    let f = finish(s, 3);
    assert_eq!((f.processed, f.copied, f.skipped, f.errors), (1, 0, 1, 3));
}

#[test]
fn relocate_tracks_stats() {
    let d = date(2024, 3, 7);
    let results = vec![drive("a.png", d, false), drive("b.txt", d, false)];
    let per_file = CopyStats::tally_results(&results);
    let stats = finish(per_file, 0);
    assert_eq!(stats.processed, 2);
    assert_eq!(stats.copied, 1);
    assert_eq!(stats.skipped, 1);
    assert_eq!(stats.errors, 0);
}

#[test]
fn missing_source_is_fatal() {
    assert_eq!(check_source(false, false), Err(SourceError::Missing));
    assert_eq!(check_source(true, false), Err(SourceError::NotADirectory));
    assert_eq!(check_source(true, true), Ok(()));
}

#[test]
fn walk_keeps_files_and_counts_unreadable() {
    let entries = vec![
        WalkEntry::Other,
        WalkEntry::File("a.png"),
        WalkEntry::Unreadable,
        WalkEntry::File("b.txt"),
        WalkEntry::Unreadable,
    ];
    let (files, errors) = collect_files(entries);
    assert_eq!(files, vec!["a.png", "b.txt"]);
    assert_eq!(errors, 2);
    let (files, errors) = collect_files(Vec::<WalkEntry<u8>>::new());
    assert!(files.is_empty());
    assert_eq!(errors, 0);
}

#[test]
fn positive_job_hint_sets_workers() {
    assert_eq!(worker_count(Some(4)), Some(4));
    assert_eq!(worker_count(Some(0)), None);
    assert_eq!(worker_count(None), None);
}
