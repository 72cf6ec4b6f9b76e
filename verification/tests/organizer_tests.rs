use book_core::organizer::{
    organized_path_for, Cleanup, CopyFailure, DuplicateHandling, OrganizationStructure, Organizer,
    Placement,
};
use book_core::types::{BookFile, FileStatus, FileType, Metadata, MetadataSource};

fn file(name: &str, ext: &str, author: Option<&str>, title: Option<&str>, series: Option<&str>) -> BookFile {
    let metadata = if author.is_none() && title.is_none() && series.is_none() {
        None
    } else {
        let mut m = Metadata::empty();
        m.author = author.map(|s| s.to_string());
        m.title = title.map(|s| s.to_string());
        m.series = series.map(|s| s.to_string());
        Some(m)
    };
    BookFile {
        path: format!("/src/{}", name),
        name: name.to_string(),
        ext: ext.to_string(),
        size: 10,
        file_type: FileType::Ebook,
        metadata,
        inferred: None,
        chosen_source: MetadataSource::Unknown,
        content_hash: None,
        status: FileStatus::Scanned,
        cleaned_name: None,
    }
}

#[test]
fn new_organizer_copies_and_verifies() {
    let o = Organizer::new("/out".to_string());
    assert_eq!(o.output_dir, "/out");
    assert_eq!(o.structure, OrganizationStructure::AuthorTitle);
    assert!(!o.move_files);
    assert_eq!(o.handle_duplicates, DuplicateHandling::Rename);
    assert!(!o.dry_run);
    assert!(o.verify);
}

#[test]
fn destination_author_title() {
    let o = Organizer::new("/out".to_string());
    let f = file("x.epub", "epub", Some("Frank Herbert"), Some("Dune.epub"), None);
    assert_eq!(o.destination_path(&f), "/out/Frank Herbert/Dune.epub");
}

#[test]
fn destination_without_metadata() {
    let o = Organizer::new("/out".to_string());
    let f = file("x.pdf", "pdf", None, None, None);
    assert_eq!(o.destination_path(&f), "/out/Unknown Author/x.pdf");
}

#[test]
fn destination_strips_every_known_extension() {
    let o = Organizer::new("/out".to_string());
    let f = file("a.mp3", "m4b", Some("A"), Some("Book.mp3.m4b.azw3"), None);
    assert_eq!(o.destination_path(&f), "/out/A/Book.m4b");
}

#[test]
fn destination_with_series_and_title_structures() {
    let mut o = Organizer::new("/out".to_string());
    o.structure = OrganizationStructure::AuthorSeriesTitle;
    let f = file("x.epub", "epub", Some("Frank Herbert"), Some("Dune"), None);
    assert_eq!(o.destination_path(&f), "/out/Frank Herbert/Unknown Series/Dune.epub");
    let g = file("x.epub", "epub", Some("Frank Herbert"), Some("Dune"), Some("Dune Saga"));
    assert_eq!(o.destination_path(&g), "/out/Frank Herbert/Dune Saga/Dune.epub");
    o.structure = OrganizationStructure::Title;
    assert_eq!(o.destination_path(&g), "/out/Dune.epub");
}

#[test]
fn placement_follows_policy() {
    let mut o = Organizer::new("/out".to_string());
    assert_eq!(o.placement(FileType::Junk, true, false), Placement::Ignore);
    assert_eq!(o.placement(FileType::Ebook, false, false), Placement::MarkFailed);
    assert_eq!(
        o.placement(FileType::Ebook, true, false),
        Placement::Copy { rename: false, replace_existing: false }
    );
    assert_eq!(
        o.placement(FileType::Ebook, true, true),
        Placement::Copy { rename: true, replace_existing: false }
    );
    o.handle_duplicates = DuplicateHandling::Skip;
    assert_eq!(o.placement(FileType::Audio, true, true), Placement::Ignore);
    o.handle_duplicates = DuplicateHandling::Overwrite;
    assert_eq!(
        o.placement(FileType::Audio, true, true),
        Placement::Copy { rename: false, replace_existing: true }
    );
}

#[test]
fn dry_run_only_reports() {
    let mut o = Organizer::new("/out".to_string());
    o.dry_run = true;
    for t in [FileType::Audio, FileType::Ebook, FileType::Junk] {
        for s in [false, true] {
            for d in [false, true] {
                assert!(!matches!(o.placement(t, s, d), Placement::Copy { .. }));
            }
        }
    }
    assert_eq!(o.placement(FileType::Ebook, true, true), Placement::Report { rename: true });
    assert_eq!(o.placement(FileType::Ebook, true, false), Placement::Report { rename: false });
    o.handle_duplicates = DuplicateHandling::Overwrite;
    assert_eq!(o.placement(FileType::Ebook, true, true), Placement::Report { rename: false });
}

#[test]
fn copied_status_depends_on_verification() {
    let mut o = Organizer::new("/out".to_string());
    assert_eq!(o.copied_status(), FileStatus::Verified);
    o.verify = false;
    assert_eq!(o.copied_status(), FileStatus::Organized);
}

#[test]
fn verify_copy_compares_hashes() {
    let o = Organizer::new("/out".to_string());
    assert_eq!(o.verify_copy("abc", "abc"), Ok(()));
    assert_eq!(o.verify_copy("abc", "abd"), Err("Hash mismatch: abc != abd".to_string()));
}

#[test]
fn duplicate_candidates_count_up() {
    let o = Organizer::new("/out".to_string());
    assert_eq!(o.duplicate_candidate("/out/A/Dune.epub", 1), "/out/A/Dune_1.epub");
    assert_eq!(o.duplicate_candidate("/out/A/Dune.epub", 12), "/out/A/Dune_12.epub");
}

#[test]
fn organized_path_lookup() {
    let organized = vec!["/out/A/Dune.epub".to_string(), "/out/B/Other.m4b".to_string()];
    assert_eq!(organized_path_for(&organized, "Other.m4b"), Some(1));
    assert_eq!(organized_path_for(&organized, "Dune.epub"), Some(0));
    assert_eq!(organized_path_for(&organized, "Missing.pdf"), None);
    assert_eq!(organized_path_for(&vec![], "x"), None);
}

#[test]
fn statuses_after_placement() {
    let mut o = Organizer::new("/out".to_string());
    let copy = Placement::Copy { rename: false, replace_existing: false };
    assert_eq!(o.status_after(FileStatus::Scanned, copy), FileStatus::Verified);
    assert_eq!(o.status_after(FileStatus::Scanned, Placement::MarkFailed), FileStatus::Failed);
    assert_eq!(o.status_after(FileStatus::Cleaned, Placement::Ignore), FileStatus::Cleaned);
    assert_eq!(o.status_after(FileStatus::Cleaned, Placement::Report { rename: true }), FileStatus::Cleaned);
    o.verify = false;
    assert_eq!(o.status_after(FileStatus::Scanned, copy), FileStatus::Organized);
}

#[test]
fn failed_copies_leave_no_temporary_or_bad_file() {
    let o = Organizer::new("/out".to_string());
    let none = Cleanup { remove_temp: false, remove_dest: false };
    let temp = Cleanup { remove_temp: true, remove_dest: false };
    let dest = Cleanup { remove_temp: false, remove_dest: true };
    assert_eq!(o.cleanup_after(CopyFailure::CopyFailed), temp);
    assert_eq!(o.cleanup_after(CopyFailure::RenameFailed), temp);
    assert_eq!(o.cleanup_after(CopyFailure::TempMissing), none);
    assert_eq!(o.cleanup_after(CopyFailure::DestMissing), none);
    assert_eq!(o.cleanup_after(CopyFailure::DestEmpty), dest);
    assert_eq!(o.cleanup_after(CopyFailure::HashMismatch), dest);
}

#[test]
fn temporary_copies_sit_beside_the_destination() {
    let o = Organizer::new("/out".to_string());
    let t = o.temp_copy_path("/out/A/Dune.epub").unwrap();
    assert!(t.starts_with("/out/A/.tmp_"));
    assert_eq!(t.len(), "/out/A/.tmp_".len() + 36);
    assert_ne!(t, o.temp_copy_path("/out/A/Dune.epub").unwrap());
    assert_eq!(o.temp_copy_path("/"), None);
}
