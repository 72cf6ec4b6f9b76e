use book_core::cleaner::Cleaner;
use book_core::config::MappingsConfig;
use book_core::types::{BookFile, FileStatus, FileType, MetadataSource};
use std::collections::HashMap;

fn book(name: &str, ext: &str) -> BookFile {
    BookFile {
        path: format!("/books/{}", name),
        name: name.to_string(),
        ext: ext.to_string(),
        size: 4096,
        file_type: FileType::Ebook,
        metadata: None,
        inferred: None,
        chosen_source: MetadataSource::Unknown,
        content_hash: None,
        status: FileStatus::Scanned,
        cleaned_name: None,
    }
}

fn some(s: &str) -> Option<String> {
    Some(s.to_string())
}

#[test]
fn clean_filename_removes_tags_and_normalises() {
    let c = Cleaner::new();
    assert_eq!(c.clean_filename("Some_Book [2020] (Unabridged)"), "Some - Book");
    assert_eq!(c.clean_filename("  A   Tale\tOf  Two "), "A Tale Of Two");
}

#[test]
fn clean_filename_respects_disabled_steps() {
    let mut c = Cleaner::new();
    c.remove_brackets = false;
    c.remove_parentheses = false;
    c.normalize_underscores = false;
    c.normalize_spaces = false;
    assert_eq!(c.clean_filename("A_B [x] (y)  "), "A_B [x] (y)  ");
}

#[test]
fn clean_filename_of_empty_name() {
    assert_eq!(Cleaner::new().clean_filename(""), "");
}

#[test]
fn extract_author_then_title() {
    let c = Cleaner::new();
    let r = c.extract_metadata(&book("Isaac Asimov - Foundation.epub", "epub"));
    assert_eq!(r, (some("Isaac Asimov"), some("Foundation"), None, None));
}

#[test]
fn extract_title_then_author() {
    let c = Cleaner::new();
    let r = c.extract_metadata(&book("The Hobbit - J.R.R. Tolkien.m4b", "m4b"));
    assert_eq!(r, (some("J.R.R. Tolkien"), some("The Hobbit"), None, None));
}

#[test]
fn extract_known_narrator() {
    let mappings = MappingsConfig {
        authors: vec![],
        narrators: vec!["Kate Reading".to_string()],
        audiobook_patterns: HashMap::new(),
    };
    let c = Cleaner::with_mappings(mappings);
    let r = c.extract_metadata(&book("Brandon Sanderson - The Way of Kings_Kate Reading.m4b", "m4b"));
    assert_eq!(
        r,
        (some("Brandon Sanderson"), some("The Way of Kings"), some("Kate Reading"), None)
    );
}

#[test]
fn extract_title_with_author_in_parentheses() {
    let mut c = Cleaner::new();
    c.remove_parentheses = false;
    let r = c.extract_metadata(&book("Dune (Frank Herbert).epub", "epub"));
    assert_eq!(r, (some("Frank Herbert"), some("Dune"), None, None));
}

#[test]
fn extract_falls_back_to_title() {
    let c = Cleaner::new();
    let r = c.extract_metadata(&book("Untitled.pdf", "pdf"));
    assert_eq!(r, (None, some("Untitled"), None, None));
}

#[test]
fn extract_mapped_author_wins_over_long_name() {
    let mappings = MappingsConfig {
        authors: vec!["Pratchett".to_string()],
        narrators: vec![],
        audiobook_patterns: HashMap::new(),
    };
    let c = Cleaner::with_mappings(mappings);
    let r = c.extract_metadata(&book(
        "Sir Terry Pratchett And Friends Of Discworld - Mort.epub",
        "epub",
    ));
    assert_eq!(
        r,
        (some("Sir Terry Pratchett And Friends Of Discworld"), some("Mort"), None, None)
    );
}

#[test]
fn default_cleaner_equals_new() {
    let a = Cleaner::default();
    assert!(a.remove_brackets && a.remove_parentheses && a.normalize_underscores && a.normalize_spaces);
    assert!(a.mappings.authors.is_empty() && a.mappings.narrators.is_empty());
}

#[test]
fn extract_title_with_author_in_brackets() {
    let mut c = Cleaner::new();
    c.remove_brackets = false;
    let r = c.extract_metadata(&book("Dune [Frank Herbert].epub", "epub"));
    assert_eq!(r, (some("Frank Herbert"), some("Dune"), None, None));
}
