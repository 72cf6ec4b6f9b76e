use book_core::scanner::{extract_author_from_path, EntryKind, ScanEntry, Scanner};
use book_core::types::{FileStatus, FileType, MetadataSource};

fn entry(path: &str, size: u64, hash: Option<&str>) -> ScanEntry {
    ScanEntry { path: path.to_string(), size, content_hash: hash.map(|h| h.to_string()) }
}

#[test]
fn default_scanner_settings() {
    let s = Scanner::new();
    assert_eq!(s.patterns.len(), 10);
    assert_eq!(s.exclude_patterns.len(), 10);
    assert_eq!(s.patterns[0], "*.mp3");
    assert_eq!(s.exclude_patterns[1], "*.jpg");
    assert_eq!(s.min_size, 1024);
    assert_eq!(s.max_size, u64::MAX);
    let d = Scanner::default();
    assert_eq!(d.patterns, s.patterns);
}

#[test]
fn detect_type_by_extension() {
    let s = Scanner::new();
    assert_eq!(s.detect_type("mp3"), FileType::Audio);
    assert_eq!(s.detect_type("ogg"), FileType::Audio);
    assert_eq!(s.detect_type("azw"), FileType::Ebook);
    assert_eq!(s.detect_type("cbt"), FileType::Comic);
    assert_eq!(s.detect_type("rtf"), FileType::Document);
    assert_eq!(s.detect_type("txt"), FileType::Document);
    assert_eq!(s.detect_type("tmp"), FileType::Junk);
    assert_eq!(s.detect_type("xyz"), FileType::Unknown);
    assert_eq!(s.detect_type("MP3"), FileType::Unknown);
}

#[test]
fn entry_kinds() {
    let s = Scanner::new();
    assert_eq!(s.entry_kind("/a/tiny.mp3", 100), EntryKind::Skipped);
    assert_eq!(s.entry_kind("/a/cover.jpg", 5000), EntryKind::Junk);
    assert_eq!(s.entry_kind("/a/notes.xyz", 5000), EntryKind::Unknown);
    assert_eq!(s.entry_kind("/a/book.epub", 5000), EntryKind::Included);
    assert_eq!(s.entry_kind("/a/book.epub", 1024), EntryKind::Included);
}

#[test]
fn scan_lists_books_and_counts_everything_else() {
    let s = Scanner::new();
    let entries = vec![
        entry("/lib/Isaac Asimov - Foundation.epub", 4096, Some("aaa")),
        entry("/lib/cover.jpg", 5000, None),
        entry("/lib/notes.xyz", 5000, None),
        entry("/lib/tiny.mp3", 100, None),
        entry("/lib/Dune/01 - Chapter.mp3", 3000, None),
    ];
    let m = s.scan("/lib", &entries, "2024-01-01T00:00:00Z".to_string());
    assert_eq!(m.source, "/lib");
    assert_eq!(m.generated, "2024-01-01T00:00:00Z");
    assert_eq!(m.files.len(), 2);

    let f = &m.files[0];
    assert_eq!(f.path, "/lib/Isaac Asimov - Foundation.epub");
    assert_eq!(f.name, "Isaac Asimov - Foundation.epub");
    assert_eq!(f.ext, "epub");
    assert_eq!(f.size, 4096);
    assert_eq!(f.file_type, FileType::Ebook);
    assert!(f.metadata.is_none());
    let inf = f.inferred.as_ref().unwrap();
    assert_eq!(inf.author.as_deref(), Some("Isaac Asimov"));
    assert_eq!(inf.title.as_deref(), Some("Foundation.epub"));
    assert_eq!(f.chosen_source, MetadataSource::Folder);
    assert_eq!(f.content_hash.as_deref(), Some("aaa"));
    assert_eq!(f.status, FileStatus::Scanned);
    assert!(f.cleaned_name.is_none());

    let g = &m.files[1];
    assert_eq!(g.file_type, FileType::Audio);
    let inf = g.inferred.as_ref().unwrap();
    assert_eq!(inf.author, None);
    assert_eq!(inf.title.as_deref(), Some("01 - Chapter.mp3"));
    assert_eq!(g.chosen_source, MetadataSource::Unknown);
    assert_eq!(g.content_hash, None);

    assert_eq!(m.stats.total_files, 4);
    assert_eq!(m.stats.total_size, 4096 + 5000 + 5000 + 3000);
    assert_eq!(m.stats.ebook_files, 1);
    assert_eq!(m.stats.audio_files, 1);
    assert_eq!(m.stats.junk_files, 1);
    assert_eq!(m.stats.unknown_files, 1);
    assert_eq!(m.stats.comic_files, 0);
    assert_eq!(m.stats.duplicates, 0);
}

#[test]
fn scan_stats_are_tallied() {
    let s = Scanner::new();
    let entries = vec![
        entry("/x/a.mp3", 2000, None),
        entry("/x/b.cbz", 2000, None),
        entry("/x/c.nfo", 2000, None),
        entry("/x/d.bin", 2000, None),
        entry("/x/e.pdf", 10, None),
    ];
    let m = s.scan("/x", &entries, String::new());
    let st = m.stats;
    assert_eq!(
        st.total_files,
        st.audio_files + st.ebook_files + st.comic_files + st.document_files + st.junk_files
            + st.unknown_files
    );
    assert!(m.files.len() <= st.total_files);
    assert_eq!(st.total_files, 4);
}

#[test]
fn scan_infers_author_from_folder() {
    let s = Scanner::new();
    let entries = vec![entry("/lib/Stephen King - It/01.mp3", 2000, None)];
    let m = s.scan("/lib", &entries, String::new());
    let inf = m.files[0].inferred.as_ref().unwrap();
    assert_eq!(inf.author.as_deref(), Some("Stephen King"));
    assert_eq!(inf.title.as_deref(), Some("It"));
}

#[test]
fn scan_infers_title_by_author() {
    let s = Scanner::new();
    let entries = vec![entry("/lib/Dune by Frank Herbert.epub", 2000, None)];
    let m = s.scan("/lib", &entries, String::new());
    let inf = m.files[0].inferred.as_ref().unwrap();
    assert_eq!(inf.author.as_deref(), Some("Frank Herbert.epub"));
    assert_eq!(inf.title.as_deref(), Some("Dune"));
}

#[test]
fn author_from_parent_folder() {
    assert_eq!(
        extract_author_from_path("/books/Cormac McCarthy - Border Trilogy/01.mp3"),
        Some("Cormac McCarthy".to_string())
    );
}

#[test]
fn author_from_grandparent_folder() {
    assert_eq!(
        extract_author_from_path("/books/Ursula Le Guin/Earthsea/1234/01.mp3"),
        Some("Earthsea".to_string())
    );
    assert_eq!(
        extract_author_from_path("/books/Ursula Le Guin/007/01.mp3"),
        Some("Ursula Le Guin".to_string())
    );
}

#[test]
fn no_author_from_short_or_numeric_folders() {
    assert_eq!(extract_author_from_path("/x/1234/5678/a.mp3"), None);
    assert_eq!(extract_author_from_path("/abc/file.mp3"), None);
}

#[test]
fn scan_infers_author_in_parentheses_of_folder() {
    let s = Scanner::new();
    let entries = vec![entry("/lib/Dune (Frank Herbert)/01.mp3", 2000, None)];
    let m = s.scan("/lib", &entries, String::new());
    let inf = m.files[0].inferred.as_ref().unwrap();
    assert_eq!(inf.author.as_deref(), Some("Frank Herbert"));
    assert_eq!(inf.title.as_deref(), Some("Dune"));
}

#[test]
fn extensions_match_in_any_case() {
    let s = Scanner::new();
    assert_eq!(s.entry_kind("/lib/BOOK.EPUB", 5000), EntryKind::Included);
    assert_eq!(s.entry_kind("/lib/Cover.JPG", 5000), EntryKind::Junk);
    assert_eq!(s.entry_kind("/lib/notes.XYZ", 5000), EntryKind::Unknown);
}

#[test]
fn upper_case_mp3_is_scanned_as_audio() {
    let s = Scanner::new();
    let entries = vec![entry("/lib/Book.MP3", 2048, Some("h"))];
    let m = s.scan("/lib", &entries, String::new());
    assert_eq!(m.files.len(), 1);
    assert_eq!(m.files[0].ext, "mp3");
    assert_eq!(m.files[0].file_type, FileType::Audio);
    assert_eq!(m.stats.audio_files, 1);
    assert_eq!(m.stats.unknown_files, 0);
}

#[test]
fn type_counters_count_listed_files() {
    let mut s = Scanner::new();
    s.patterns.push("*.txt".to_string());
    s.exclude_patterns.clear();
    let entries = vec![
        entry("/x/a.mp3", 2000, None),
        entry("/x/b.TXT", 2000, None),
        entry("/x/c.epub", 2000, None),
        entry("/x/d.mp3", 2000, None),
        entry("/x/e.bin", 2000, None),
    ];
    let m = s.scan("/x", &entries, String::new());
    let count = |t: FileType| m.files.iter().filter(|f| f.file_type == t).count();
    assert_eq!(m.stats.audio_files, count(FileType::Audio));
    assert_eq!(m.stats.ebook_files, count(FileType::Ebook));
    assert_eq!(m.stats.document_files, count(FileType::Document));
    assert_eq!(m.stats.document_files, 1);
    assert_eq!(m.stats.unknown_files, 1);
}
