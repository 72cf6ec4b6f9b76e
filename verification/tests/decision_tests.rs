use book_core::decision::{
    count_decisions, note_seen_hash, Decision, DecisionContext, DecisionEngine, DedupePolicy, Work,
};
use book_core::hashing::hash_bytes;
use book_core::registry::BookRecord;
use book_core::types::{BookFile, FileStatus, FileType, MetadataSource};

fn file(size: u64, hash: Option<&str>) -> BookFile {
    BookFile {
        path: "/in/a.epub".to_string(),
        name: "a.epub".to_string(),
        ext: "epub".to_string(),
        size,
        file_type: FileType::Ebook,
        metadata: None,
        inferred: None,
        chosen_source: MetadataSource::Unknown,
        content_hash: hash.map(|h| h.to_string()),
        status: FileStatus::Scanned,
        cleaned_name: None,
    }
}

fn record(hash: &str, size: u64, last_seen: i64) -> BookRecord {
    BookRecord {
        content_hash: hash.to_string(),
        title: Some(format!("t-{}", hash)),
        author: Some("A".to_string()),
        file_path: format!("/in/{}", hash),
        output_path: None,
        size,
        file_type: "ebook".to_string(),
        last_seen,
        status: "discovered".to_string(),
    }
}

fn ctx(f: BookFile, reg: Option<BookRecord>, seen: Vec<String>, out: bool) -> DecisionContext {
    DecisionContext { file: f, registry_record: reg, run_seen_hashes: seen, output_exists: out }
}

#[test]
fn empty_or_unhashed_files_are_quarantined() {
    let e = DecisionEngine::new(DedupePolicy::KeepLargest);
    assert_eq!(e.decide(&ctx(file(0, Some("h")), None, vec![], false)), Decision::Quarantine);
    assert_eq!(e.decide(&ctx(file(10, None), None, vec![], false)), Decision::Quarantine);
}

#[test]
fn registered_files_are_skipped_or_reprocessed() {
    let e = DecisionEngine::new(DedupePolicy::KeepLargest);
    let r = record("h", 10, 0);
    assert_eq!(e.decide(&ctx(file(10, Some("h")), Some(r.clone()), vec![], true)), Decision::Skip);
    assert_eq!(e.decide(&ctx(file(10, Some("h")), Some(r), vec![], false)), Decision::Reprocess);
}

#[test]
fn seen_hashes_make_duplicates() {
    let e = DecisionEngine::new(DedupePolicy::KeepLargest);
    let seen = vec!["x".to_string(), "h".to_string()];
    assert_eq!(
        e.decide(&ctx(file(10, Some("h")), None, seen, false)),
        Decision::Duplicate { of_hash: "h".to_string() }
    );
    assert_eq!(
        e.decide(&ctx(file(10, Some("h")), None, vec!["x".to_string()], false)),
        Decision::Process
    );
}

#[test]
fn noting_a_hash_makes_the_next_copy_a_duplicate() {
    let e = DecisionEngine::new(DedupePolicy::KeepAll);
    let mut seen: Vec<String> = Vec::new();
    let first = e.decide(&ctx(file(10, Some("h")), None, seen.clone(), false));
    assert_eq!(first, Decision::Process);
    note_seen_hash(&mut seen, "h".to_string());
    note_seen_hash(&mut seen, "h".to_string());
    assert_eq!(seen, vec!["h".to_string()]);
    let second = e.decide(&ctx(file(10, Some("h")), None, seen.clone(), false));
    assert_eq!(second, Decision::Duplicate { of_hash: "h".to_string() });
}

#[test]
fn keep_largest_keeps_first_largest() {
    let e = DecisionEngine::new(DedupePolicy::KeepLargest);
    let rs = vec![record("a", 10, 4), record("b", 30, 3), record("c", 30, 2), record("d", 5, 1)];
    let kept = e.evaluate_duplicate_group(rs);
    assert_eq!(kept.len(), 1);
    assert_eq!(kept[0].content_hash, "b");
    let e = DecisionEngine::new(DedupePolicy::KeepBestBitrate);
    let kept = e.evaluate_duplicate_group(vec![record("a", 1, 0), record("b", 2, 0)]);
    assert_eq!(kept[0].content_hash, "b");
}

#[test]
fn keep_first_keeps_earliest_seen() {
    let e = DecisionEngine::new(DedupePolicy::KeepFirst);
    let rs = vec![record("a", 1, 5), record("b", 1, 3), record("c", 1, 3), record("d", 1, 9)];
    let kept = e.evaluate_duplicate_group(rs);
    assert_eq!(kept.len(), 1);
    assert_eq!(kept[0].content_hash, "b");
}

#[test]
fn keep_all_and_small_groups_keep_everything() {
    let e = DecisionEngine::new(DedupePolicy::KeepAll);
    let kept = e.evaluate_duplicate_group(vec![record("a", 1, 0), record("b", 2, 0)]);
    assert_eq!(kept.len(), 2);
    let e = DecisionEngine::new(DedupePolicy::KeepLargest);
    let kept = e.evaluate_duplicate_group(vec![record("a", 1, 0)]);
    assert_eq!(kept.len(), 1);
    assert!(e.evaluate_duplicate_group(vec![]).is_empty());
}

#[test]
fn integrity_accepts_own_hash_only() {
    let e = DecisionEngine::new(DedupePolicy::KeepLargest);
    let h = hash_bytes(b"some book");
    assert!(e.verify_file_integrity(&h, b"some book"));
    assert!(!e.verify_file_integrity(&h, b"some book!"));
    assert!(!e.verify_file_integrity("not-a-hash", b"some book"));
}

#[test]
fn policies_by_name() {
    assert_eq!(DedupePolicy::from_name("largest"), DedupePolicy::KeepLargest);
    assert_eq!(DedupePolicy::from_name("bitrate"), DedupePolicy::KeepBestBitrate);
    assert_eq!(DedupePolicy::from_name("first"), DedupePolicy::KeepFirst);
    assert_eq!(DedupePolicy::from_name("all"), DedupePolicy::KeepAll);
    assert_eq!(DedupePolicy::from_name("whatever"), DedupePolicy::KeepLargest);
}

#[test]
fn decisions_are_counted() {
    let ds = vec![
        Decision::Process,
        Decision::Skip,
        Decision::Process,
        Decision::Duplicate { of_hash: "h".to_string() },
        Decision::Quarantine,
        Decision::Reprocess,
    ];
    let c = count_decisions(&ds);
    assert_eq!((c.process, c.skip, c.reprocess, c.duplicates, c.quarantine), (2, 1, 1, 1, 1));
}

#[test]
fn decisions_sort_files_into_work() {
    assert_eq!(Decision::Process.work(false), Work::Merge);
    assert_eq!(Decision::Process.work(true), Work::Merge);
    assert_eq!(Decision::Reprocess.work(false), Work::Organize);
    assert_eq!(Decision::Reprocess.work(true), Work::Nothing);
    assert_eq!(Decision::Skip.work(false), Work::Nothing);
    assert_eq!(Decision::Quarantine.work(false), Work::Nothing);
    assert_eq!(Decision::Duplicate { of_hash: "h".to_string() }.work(false), Work::Nothing);
}
