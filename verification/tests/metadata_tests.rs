use book_core::metadata::{AudioTags, MetadataExtractor, TaggedAudio};
use book_core::types::Metadata;

fn tags(title: Option<&str>, album: Option<&str>, genre: Option<&str>) -> AudioTags {
    AudioTags {
        title: title.map(|s| s.to_string()),
        artist: Some("Frank Herbert".to_string()),
        album: album.map(|s| s.to_string()),
        year: Some(1965),
        track: Some(3),
        genre: genre.map(|s| s.to_string()),
    }
}

#[test]
fn audio_extensions_read_tags() {
    let x = MetadataExtractor::new();
    assert!(x.reads_audio_tags("/a/b.mp3"));
    assert!(x.reads_audio_tags("/a/b.FLAC"));
    assert!(x.reads_audio_tags("/a/b.wav"));
    assert!(!x.reads_audio_tags("/a/b.epub"));
    assert!(!x.reads_audio_tags("/a/mp3"));
}

#[test]
fn tags_become_metadata() {
    let x = MetadataExtractor::new();
    let audio = TaggedAudio {
        tag: Some(tags(Some("Dune"), Some("Dune Chronicles"), Some("SciFi"))),
        duration_secs: 3600,
        audio_bitrate: Some(128000),
    };
    let m = x.extract_from_file("/a/dune.m4b", Some(audio));
    assert_eq!(m.title.as_deref(), Some("Dune"));
    assert_eq!(m.author.as_deref(), Some("Frank Herbert"));
    assert_eq!(m.series.as_deref(), Some("Dune Chronicles"));
    assert_eq!(m.year, Some(1965));
    assert_eq!(m.track_number, Some(3));
    assert_eq!(m.tags, vec!["SciFi".to_string()]);
    assert_eq!(m.duration, Some(3600));
    assert_eq!(m.bitrate, Some(128));
    assert!(m.narrator.is_none() && m.isbn.is_none() && m.chapters.is_empty());
}

#[test]
fn album_equal_to_title_is_no_series() {
    let x = MetadataExtractor::new();
    let audio = TaggedAudio { tag: Some(tags(Some("Dune"), Some("Dune"), Some(""))), duration_secs: 5, audio_bitrate: None };
    let m = x.extract_from_file("/a/dune.mp3", Some(audio));
    assert_eq!(m.series, None);
    assert!(m.tags.is_empty());
    assert_eq!(m.bitrate, None);
    let audio = TaggedAudio { tag: Some(tags(None, Some("Dune"), None)), duration_secs: 5, audio_bitrate: None };
    let m = x.extract_from_file("/a/dune.mp3", Some(audio));
    assert_eq!(m.series.as_deref(), Some("Dune"));
}

#[test]
fn untagged_audio_keeps_properties() {
    let x = MetadataExtractor::new();
    let audio = TaggedAudio { tag: None, duration_secs: 42, audio_bitrate: Some(64000) };
    let m = x.extract_from_file("/a/x.ogg", Some(audio));
    assert_eq!(m.title, None);
    assert_eq!(m.duration, Some(42));
    assert_eq!(m.bitrate, Some(64));
}

fn empty(m: &Metadata) -> bool {
    m.title.is_none() && m.author.is_none() && m.narrator.is_none() && m.series.is_none()
        && m.series_index.is_none() && m.disc_number.is_none() && m.track_number.is_none()
        && m.year.is_none() && m.publisher.is_none() && m.isbn.is_none() && m.language.is_none()
        && m.tags.is_empty() && m.cover.is_none() && m.bitrate.is_none() && m.duration.is_none()
        && m.chapters.is_empty()
}

#[test]
fn unreadable_or_other_files_give_empty_metadata() {
    let x = MetadataExtractor::new();
    assert!(empty(&x.extract_from_file("/a/x.mp3", None)));
    let audio = TaggedAudio { tag: None, duration_secs: 42, audio_bitrate: None };
    assert!(empty(&x.extract_from_file("/a/x.epub", Some(audio))));
    assert!(empty(&x.extract_from_file("/a/x.pdf", None)));
}

#[test]
fn normalize_author_and_title() {
    let x = MetadataExtractor::new();
    let mut m = Metadata::empty();
    m.author = Some("Herbert, Frank".to_string());
    m.title = Some("dune".to_string());
    x.normalize(&mut m);
    assert_eq!(m.author.as_deref(), Some("Frank Herbert"));
    assert_eq!(m.title.as_deref(), Some("Dune"));

    let mut m = Metadata::empty();
    m.author = Some("Herbert,".to_string());
    m.title = Some("".to_string());
    x.normalize(&mut m);
    assert_eq!(m.author.as_deref(), Some("Herbert"));
    assert_eq!(m.title.as_deref(), Some(""));

    let mut m = Metadata::empty();
    m.author = Some(", Frank".to_string());
    m.title = Some("1984".to_string());
    x.normalize(&mut m);
    assert_eq!(m.author.as_deref(), Some(", Frank"));
    assert_eq!(m.title.as_deref(), Some("1984"));
}
