use book_core::author::{add_alias_to, normalize_name};
use book_core::config::Config;
use book_core::grouping::shared_key_groups;
use book_core::hashing::{hash_bytes, StreamHasher};
use book_core::matching::{any_glob_matches, replace_all_or_keep};
use book_core::report::generate_text_report;
use book_core::types::{
    choose_metadata, inferred_metadata, title_author, BookFile, FileStatus, FileType, Manifest,
    Metadata, MetadataSource, Stats,
};
use book_core::watch::Debouncer;
use book_core::{Context, Tool};

fn some(s: &str) -> Option<String> {
    Some(s.to_string())
}

#[test]
fn author_names_are_normalised() {
    assert_eq!(normalize_name("  Tolkien, J.R.R. (Author) "), "J.R.R. Tolkien");
    assert_eq!(normalize_name("Stephen   King"), "Stephen King");
    assert_eq!(normalize_name("Kate Reading (Narrator)"), "Kate Reading");
    assert_eq!(normalize_name("Someone (editor)"), "Someone");
    assert_eq!(normalize_name("Artist (illustrator)"), "Artist");
    assert_eq!(normalize_name(""), "");
    assert_eq!(normalize_name("Le Guin,Ursula K."), "Ursula K. Le Guin");
}

#[test]
fn aliases_are_added_once() {
    let mut aliases = vec!["Steve".to_string()];
    assert!(!add_alias_to(&mut aliases, "Steve"));
    assert!(add_alias_to(&mut aliases, "S. King"));
    assert!(!add_alias_to(&mut aliases, "S. King"));
    assert_eq!(aliases, vec!["Steve".to_string(), "S. King".to_string()]);
}

#[test]
fn hashing_is_blake3_hex() {
    let h = hash_bytes(b"abc");
    assert_eq!(h, "6437b3ac38465133ffb63b75273a8db548c558465d79db03fd359c6cd5bd9d85");
    assert_eq!(h.len(), 64);
    assert_ne!(hash_bytes(b"abd"), h);
}

#[test]
fn hash_digests_are_lower_hex() {
    for data in [&b""[..], &b"x"[..], &b"some longer content"[..]] {
        let h = hash_bytes(data);
        assert_eq!(h.len(), 64);
        assert!(h.chars().all(|c| c.is_ascii_digit() || ('a'..='f').contains(&c)));
    }
}

#[test]
fn streamed_hash_equals_whole_hash() {
    let data = b"the quick brown fox jumps over the lazy dog";
    let mut s = StreamHasher::new();
    s.update(&data[..10]);
    s.update(&data[10..11]);
    s.update(&[]);
    s.update(&data[11..]);
    assert_eq!(s.hex(), hash_bytes(data));
    assert_eq!(StreamHasher::new().hex(), hash_bytes(b""));
}

#[test]
fn regex_replace_and_globs() {
    assert_eq!(replace_all_or_keep(r"\[[^\]]*\]", "a [b] c [d]", ""), "a  c ");
    assert_eq!(replace_all_or_keep(r"(", "keep me", "x"), "keep me");
    let pats = vec!["*.mp3".to_string(), "[".to_string()];
    assert!(any_glob_matches(&pats, "a.mp3"));
    assert!(any_glob_matches(&pats, "A.MP3"));
    assert!(!any_glob_matches(&pats, "a.mp4"));
    assert!(!any_glob_matches(&vec![], "a.mp3"));
}

#[test]
fn shared_groups_of_keys() {
    let keys = vec![some("x"), None, some("y"), some("x"), some("z"), some("y"), some("x")];
    let g = shared_key_groups(&keys);
    assert_eq!(g, vec![("x".to_string(), vec![0, 3, 6]), ("y".to_string(), vec![2, 5])]);
}

#[test]
fn default_configuration() {
    let c = Config::default_config();
    assert!(c.paths.source.is_none() && c.paths.output.is_none());
    assert!(c.cleaning.remove_brackets && c.cleaning.normalize_spaces);
    assert!(c.merging.enabled);
    assert_eq!(c.merging.mode, "copy");
    assert_eq!(c.merging.bitrate, 128);
    assert!(c.metadata.extract_from_id3);
    assert_eq!(c.organization.structure, "author/title");
    assert_eq!(c.organization.handle_duplicates, "rename");
    assert!(!c.organization.move_files);
    assert!(c.mappings.authors.is_empty() && c.mappings.audiobook_patterns.is_empty());
}

#[test]
fn stats_count_each_file_once() {
    let mut s = Stats::default();
    s.add_file(&FileType::Audio, 100);
    s.add_file(&FileType::Junk, 5);
    s.add_file(&FileType::Audio, 1);
    assert_eq!(s.total_files, 3);
    assert_eq!(s.total_size, 106);
    assert_eq!(s.audio_files, 2);
    assert_eq!(s.junk_files, 1);
    assert_eq!(
        s.total_files,
        s.audio_files + s.ebook_files + s.comic_files + s.document_files + s.junk_files + s.unknown_files
    );
}

fn manifest() -> Manifest {
    let mut stats = Stats::default();
    stats.add_file(&FileType::Audio, 1048576);
    stats.add_file(&FileType::Ebook, 10);
    Manifest {
        source: "/lib".to_string(),
        files: vec![],
        stats,
        generated: "now".to_string(),
    }
}

#[test]
fn text_report() {
    let r = generate_text_report(&manifest(), "1.00");
    let expected = "📚 LIBRARY REPORT\n================\n\nSource: /lib\nGenerated: now\n\n📊 STATISTICS\n-------------\nTotal files: 2\nTotal size: 1.00 MB\n  🎵 Audio: 1 files\n  📖 Ebooks: 1 files\n  🎨 Comics: 0 files\n  🗑️  Junk: 0 files\n";
    assert_eq!(r, expected);
}

#[test]
fn embedded_metadata_preferred_and_completed() {
    let mut e = Metadata::empty();
    e.title = some("Dune");
    e.duration = Some(60);
    let mut i = Metadata::empty();
    i.author = some("Frank Herbert");
    i.title = some("Other");
    i.series = some("Saga");
    let (src, m) = choose_metadata(e, &i, "file.mp3");
    assert_eq!(src, MetadataSource::Embedded);
    assert_eq!(m.title.as_deref(), Some("Dune"));
    assert_eq!(m.author.as_deref(), Some("Frank Herbert"));
    assert_eq!(m.series.as_deref(), Some("Saga"));
    assert_eq!(m.duration, Some(60));
}

#[test]
fn inferred_metadata_is_the_fallback() {
    let mut i = Metadata::empty();
    i.author = some("A");
    i.title = some("T");
    let mut e = Metadata::empty();
    e.title = some("E");
    let (src, m) = choose_metadata(e, &i, "f");
    assert_eq!(src, MetadataSource::Mapping);
    assert_eq!(m.title.as_deref(), Some("T"));
    let (src, m) = choose_metadata(Metadata::empty(), &Metadata::empty(), "file.pdf");
    assert_eq!(src, MetadataSource::Filename);
    assert_eq!(m.title.as_deref(), Some("file.pdf"));
    assert!(m.author.is_none());
}

#[test]
fn inferred_fields() {
    let m = inferred_metadata((some("A"), some("T"), None, some("S")));
    assert_eq!(m.author.as_deref(), Some("A"));
    assert_eq!(m.title.as_deref(), Some("T"));
    assert_eq!(m.narrator, None);
    assert_eq!(m.series.as_deref(), Some("S"));
    assert!(m.tags.is_empty());
}

fn bare_file() -> BookFile {
    BookFile {
        path: "/p/x.epub".to_string(),
        name: "x.epub".to_string(),
        ext: "epub".to_string(),
        size: 1,
        file_type: FileType::Ebook,
        metadata: None,
        inferred: None,
        chosen_source: MetadataSource::Folder,
        content_hash: None,
        status: FileStatus::Scanned,
        cleaned_name: None,
    }
}

#[test]
fn adopting_inferred_metadata() {
    let mut f = bare_file();
    f.adopt_inferred(inferred_metadata((some("A"), some("T"), None, None)));
    assert_eq!(f.chosen_source, MetadataSource::Filename);
    assert_eq!(f.metadata.as_ref().unwrap().author.as_deref(), Some("A"));
    assert_eq!(f.inferred.as_ref().unwrap().title.as_deref(), Some("T"));
    assert_eq!(f.best_title_author(), (some("T"), some("A")));

    let mut g = bare_file();
    let mut chosen = Metadata::empty();
    chosen.title = some("Chosen");
    g.metadata = Some(chosen);
    g.adopt_inferred(inferred_metadata((some("A"), some("T"), None, None)));
    assert_eq!(g.metadata.as_ref().unwrap().title.as_deref(), Some("Chosen"));
    assert_eq!(g.best_title_author(), (some("Chosen"), None));
    assert_eq!(title_author(&g.inferred), (some("T"), some("A")));
    assert_eq!(title_author(&None), (None, None));
}

#[test]
fn registry_names_of_types() {
    assert_eq!(FileType::Audio.registry_name(), "audio");
    assert_eq!(FileType::Document.registry_name(), "document");
    assert_eq!(FileType::Unknown.registry_name(), "unknown");
}

#[test]
fn debounced_changes_run_once_per_window() {
    let mut d = Debouncer::new(10, 0);
    assert!(!d.on_change(5));
    assert!(!d.on_change(10));
    assert!(d.on_change(11));
    assert_eq!(d.last_run, 11);
    assert!(!d.on_change(15));
    assert!(!d.on_change(21));
    assert!(d.on_change(22));
    assert!(!d.on_change(3));
}

struct Noop;

impl Tool for Noop {
    fn run(&self) -> Result<(), String> {
        Ok(())
    }
    fn dry_run(&self) -> Result<(), String> {
        Ok(())
    }
    fn validate(&self) -> Result<(), String> {
        Err("nothing to do".to_string())
    }
}

#[test]
fn tools_share_a_context() {
    let ctx = Context { config: Config::default_config(), manifest: manifest(), output: "/out".to_string() };
    let copy = ctx.clone();
    assert_eq!(copy.output, "/out");
    assert_eq!(copy.manifest.stats.total_files, 2);
    let t = Noop;
    assert!(t.run().is_ok() && t.dry_run().is_ok());
    assert!(t.validate().is_err());
}
