use book_core::hashing::hash_bytes;
use book_core::types::{BookStatus, FileType};
use book_core::unit::{merge_source_dir, mergeable_units, UnitBuilder};

fn s(x: &str) -> String {
    x.to_string()
}

#[test]
fn builder_defaults() {
    let b = UnitBuilder::new();
    assert_eq!(b.min_mp3s, 2);
    assert_eq!(b.max_depth, 3);
    assert_eq!(UnitBuilder::default().min_mp3s, 2);
}

#[test]
fn mp3_folders_become_audiobooks() {
    let b = UnitBuilder::new();
    let files = vec![
        s("/b/d1/01.mp3"),
        s("/b/d1/02.mp3"),
        s("/b/d2/x.mp3"),
        s("/b/e.EPUB"),
        s("/b/noext"),
    ];
    let hashes = vec![Some(s("h1")), Some(s("h2")), Some(s("h3")), None, Some(s("h5"))];
    let units = b.group_files(&files, &hashes);
    assert_eq!(units.len(), 3);

    let u = &units[0];
    assert_eq!(u.title.as_deref(), Some("d1"));
    assert_eq!(u.source_files, vec![s("/b/d1/01.mp3"), s("/b/d1/02.mp3")]);
    assert_eq!(u.file_type, FileType::Audio);
    assert_eq!(u.work_hash, Some(hash_bytes(b"h1h2")));
    assert_eq!(u.status, BookStatus::Discovered);
    assert!(u.author.is_none() && u.series.is_none() && u.merged_output.is_none());

    let u = &units[1];
    assert_eq!(u.title.as_deref(), Some("x.mp3"));
    assert_eq!(u.source_files, vec![s("/b/d2/x.mp3")]);
    assert_eq!(u.file_type, FileType::Audio);
    assert_eq!(u.work_hash.as_deref(), Some("h3"));

    let u = &units[2];
    assert_eq!(u.title.as_deref(), Some("e.EPUB"));
    assert_eq!(u.file_type, FileType::Ebook);
    assert_eq!(u.work_hash, None);

    let mut ids: Vec<&String> = units.iter().map(|u| &u.id).collect();
    ids.dedup();
    assert_eq!(ids.len(), 3);
}

#[test]
fn audiobook_hash_skips_missing_hashes() {
    let b = UnitBuilder::new();
    let files = vec![s("/d/1.mp3"), s("/d/2.mp3"), s("/d/3.mp3")];
    let hashes = vec![Some(s("a")), None, Some(s("c"))];
    let units = b.group_files(&files, &hashes);
    assert_eq!(units.len(), 1);
    assert_eq!(units[0].work_hash, Some(hash_bytes(b"ac")));
}

#[test]
fn every_file_with_an_extension_is_in_exactly_one_unit() {
    let b = UnitBuilder::new();
    let files = vec![
        s("/a/1.mp3"),
        s("/c/z.cbz"),
        s("/b/1.mp3"),
        s("/a/2.mp3"),
        s("/c/y.pdf"),
        s("/b/readme"),
    ];
    let hashes = vec![None; files.len()];
    let units = b.group_files(&files, &hashes);
    for f in &files {
        let n = units.iter().filter(|u| u.source_files.contains(f)).count();
        if f.ends_with("readme") {
            assert_eq!(n, 0);
        } else {
            assert_eq!(n, 1, "{}", f);
        }
    }
    assert!(units.iter().all(|u| u.source_files.len() == 1 || u.source_files.len() >= b.min_mp3s));
}

#[test]
fn larger_minimum_splits_small_groups() {
    let b = UnitBuilder { min_mp3s: 3, max_depth: 3 };
    let files = vec![s("/a/1.mp3"), s("/a/2.mp3")];
    let units = b.group_files(&files, &vec![None, None]);
    assert_eq!(units.len(), 2);
    assert_eq!(units[0].source_files, vec![s("/a/1.mp3")]);
    assert_eq!(units[1].source_files, vec![s("/a/2.mp3")]);
}

#[test]
fn only_multi_file_audiobooks_are_mergeable() {
    let b = UnitBuilder::new();
    let files = vec![s("/d/1.mp3"), s("/d/2.mp3"), s("/e/3.mp3"), s("/f/x.epub")];
    let units = b.group_files(&files, &vec![None, None, None, None]);
    assert_eq!(units.len(), 3);
    let m = mergeable_units(units);
    assert_eq!(m.len(), 1);
    assert_eq!(m[0].title.as_deref(), Some("d"));
}

#[test]
fn upper_case_mp3_chapters_form_one_audiobook() {
    let b = UnitBuilder::new();
    let files = vec![s("/d/01.MP3"), s("/d/02.Mp3")];
    let units = b.group_files(&files, &vec![None, None]);
    assert_eq!(units.len(), 1);
    assert_eq!(units[0].source_files, files);
    assert_eq!(units[0].file_type, FileType::Audio);
    assert_eq!(units[0].title.as_deref(), Some("d"));
}

#[test]
fn audiobooks_merge_from_their_folder() {
    let b = UnitBuilder::new();
    let files = vec![s("/lib/Dune/01.mp3"), s("/lib/Dune/02.mp3")];
    let units = b.group_files(&files, &vec![None, None]);
    assert_eq!(merge_source_dir(&units[0]), Some(s("/lib/Dune")));
    let mut empty = units[0].clone();
    empty.source_files.clear();
    assert_eq!(merge_source_dir(&empty), None);
}
