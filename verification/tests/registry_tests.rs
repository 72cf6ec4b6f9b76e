use book_core::decision::{DecisionEngine, DedupePolicy};
use book_core::registry::{author_lookup, group_duplicates, AuthorLookup, BookRecord};
use book_core::types::{BookFile, BookStatus, BookUnit, FileStatus, FileType, Metadata, MetadataSource};

fn rec(hash: &str, author: Option<&str>, size: u64) -> BookRecord {
    BookRecord {
        content_hash: hash.to_string(),
        title: None,
        author: author.map(|a| a.to_string()),
        file_path: format!("/f/{}", hash),
        output_path: None,
        size,
        file_type: "audio".to_string(),
        last_seen: 0,
        status: "discovered".to_string(),
    }
}

fn hashes(rs: &[BookRecord]) -> Vec<String> {
    rs.iter().map(|r| r.content_hash.clone()).collect()
}

#[test]
fn duplicates_grouped_by_author_in_first_appearance_order() {
    let records = vec![
        rec("1", Some("A"), 1),
        rec("2", Some("B"), 1),
        rec("3", Some("A"), 1),
        rec("4", None, 1),
        rec("5", Some("B"), 1),
        rec("6", Some("C"), 1),
    ];
    let groups = group_duplicates(records);
    assert_eq!(groups.len(), 2);
    assert_eq!(groups[0].0, "A");
    assert_eq!(hashes(&groups[0].1), vec!["1", "3"]);
    assert_eq!(groups[1].0, "B");
    assert_eq!(hashes(&groups[1].1), vec!["2", "5"]);
}

#[test]
fn no_duplicates_without_shared_authors() {
    let records = vec![rec("1", Some("A"), 1), rec("2", None, 1), rec("3", None, 1)];
    assert!(group_duplicates(records).is_empty());
    assert!(group_duplicates(vec![]).is_empty());
}

#[test]
fn deduplicated_groups_keep_one_record_per_author() {
    let records = vec![
        rec("1", Some("A"), 5),
        rec("2", Some("A"), 9),
        rec("3", Some("B"), 1),
        rec("4", Some("B"), 1),
        rec("5", Some("A"), 2),
    ];
    let e = DecisionEngine::new(DedupePolicy::KeepLargest);
    for (author, group) in group_duplicates(records) {
        let kept = e.evaluate_duplicate_group(group);
        assert_eq!(kept.len(), 1);
        assert_eq!(kept[0].author.as_deref(), Some(author.as_str()));
        if author == "A" {
            assert_eq!(kept[0].content_hash, "2");
        } else {
            assert_eq!(kept[0].content_hash, "3");
        }
    }
}

#[test]
fn discovered_record() {
    let f = BookFile {
        path: "/in/a.m4b".to_string(),
        name: "a.m4b".to_string(),
        ext: "m4b".to_string(),
        size: 77,
        file_type: FileType::Audio,
        metadata: Some(Metadata::empty()),
        inferred: None,
        chosen_source: MetadataSource::Unknown,
        content_hash: Some("h".to_string()),
        status: FileStatus::Scanned,
        cleaned_name: None,
    };
    let r = BookRecord::discovered(&f, "h", Some("T".to_string()), None, 42);
    assert_eq!(r.content_hash, "h");
    assert_eq!(r.title.as_deref(), Some("T"));
    assert_eq!(r.author, None);
    assert_eq!(r.file_path, "/in/a.m4b");
    assert_eq!(r.output_path, None);
    assert_eq!(r.size, 77);
    assert_eq!(r.file_type, "audio");
    assert_eq!(r.last_seen, 42);
    assert_eq!(r.status, "discovered");
}

#[test]
fn record_filters() {
    let r = rec("1", Some("A"), 1);
    assert!(r.matches_filter(&None, &None));
    assert!(r.matches_filter(&Some("A".to_string()), &None));
    assert!(!r.matches_filter(&Some("B".to_string()), &None));
    assert!(r.matches_filter(&Some("A".to_string()), &Some("discovered".to_string())));
    assert!(!r.matches_filter(&None, &Some("processed".to_string())));
    let anon = rec("2", None, 1);
    assert!(!anon.matches_filter(&Some("A".to_string()), &None));
}

#[test]
fn failed_unit_record() {
    let unit = BookUnit {
        id: "u-1".to_string(),
        title: Some("Book".to_string()),
        author: Some("A".to_string()),
        series: None,
        source_files: vec!["/in/01.mp3".to_string(), "/in/02.mp3".to_string()],
        merged_output: None,
        file_type: FileType::Audio,
        work_hash: Some("w".to_string()),
        status: BookStatus::Discovered,
        metadata: None,
    };
    let r = BookRecord::for_failed_unit(&unit, "quarantined");
    assert_eq!(r.content_hash, "u-1");
    assert_eq!(r.title.as_deref(), Some("Book"));
    assert_eq!(r.author.as_deref(), Some("A"));
    assert_eq!(r.file_path, "/in/01.mp3");
    assert_eq!(r.size, 0);
    assert_eq!(r.file_type, "audio");
    assert_eq!(r.status, "quarantined");
    let mut empty = unit.clone();
    empty.source_files.clear();
    assert_eq!(BookRecord::for_failed_unit(&empty, "hung").file_path, "");
}

fn scanned(path: &str, author: Option<&str>) -> BookFile {
    let mut inferred = Metadata::empty();
    inferred.author = author.map(|a| a.to_string());
    BookFile {
        path: path.to_string(),
        name: "x.mp3".to_string(),
        ext: "mp3".to_string(),
        size: 1,
        file_type: FileType::Audio,
        metadata: None,
        inferred: Some(inferred),
        chosen_source: MetadataSource::Unknown,
        content_hash: None,
        status: FileStatus::Scanned,
        cleaned_name: None,
    }
}

#[test]
fn authors_are_looked_up_by_inference_then_folder() {
    let f = scanned("/b/Cormac McCarthy - Border/x.mp3", Some("C. McCarthy"));
    assert_eq!(author_lookup(&f), AuthorLookup::Inferred("C. McCarthy".to_string()));
    let g = scanned("/b/Cormac McCarthy - Border/x.mp3", None);
    assert_eq!(author_lookup(&g), AuthorLookup::FromPath("Cormac McCarthy".to_string()));
    let h = scanned("/x/12/34/x.mp3", None);
    assert_eq!(author_lookup(&h), AuthorLookup::NoAuthor);
}

#[test]
fn failed_lookups_keep_only_inferred_names() {
    assert_eq!(AuthorLookup::Inferred("A".to_string()).fallback(), Some("A".to_string()));
    assert_eq!(AuthorLookup::FromPath("B".to_string()).fallback(), None);
    assert_eq!(AuthorLookup::NoAuthor.fallback(), None);
}
