use book_core::merger::{
    ext_is_mp3, merge_title, MergeInputError, MergeMode, MergeOutputError, MergeStart, Merger,
};
use book_core::types::{BookFile, FileStatus, FileType, MetadataSource};

fn audio_file(name: &str, cleaned: Option<&str>) -> BookFile {
    BookFile {
        path: format!("/in/{}", name),
        name: name.to_string(),
        ext: "mp3".to_string(),
        size: 10,
        file_type: FileType::Audio,
        metadata: None,
        inferred: None,
        chosen_source: MetadataSource::Unknown,
        content_hash: None,
        status: FileStatus::Scanned,
        cleaned_name: cleaned.map(|s| s.to_string()),
    }
}

#[test]
fn new_merger_encodes_at_128k() {
    let m = Merger::new();
    assert_eq!(m.mode, MergeMode::Encode);
    assert_eq!(m.bitrate, 128);
    let d = Merger::default();
    assert_eq!(d.mode, MergeMode::Encode);
}

#[test]
fn input_count_checks() {
    let m = Merger::new();
    assert_eq!(m.check_input_count(0), Err(MergeInputError::NoMp3Files));
    assert_eq!(m.check_input_count(1), Err(MergeInputError::TooFewMp3Files(1)));
    assert_eq!(m.check_input_count(2), Ok(()));
    assert_eq!(m.check_input_count(30), Ok(()));
}

#[test]
fn output_checks() {
    let m = Merger::new();
    assert_eq!(m.check_output(false, 0), Err(MergeOutputError::NotCreated));
    assert_eq!(m.check_output(false, 7), Err(MergeOutputError::NotCreated));
    assert_eq!(m.check_output(true, 0), Err(MergeOutputError::Empty));
    assert_eq!(m.check_output(true, 7), Ok(()));
}

#[test]
fn mp3_paths_in_any_case() {
    let m = Merger::new();
    assert!(m.is_mp3_path("a/B.MP3"));
    assert!(m.is_mp3_path("a/b.Mp3"));
    assert!(!m.is_mp3_path("a/b.mp4"));
    assert!(!m.is_mp3_path("a/mp3"));
    assert!(!m.is_mp3_path("a/b.mp33"));
}

#[test]
fn output_path_appends_m4b() {
    let m = Merger::new();
    assert_eq!(m.output_path("/out", "Book"), "/out/Book.m4b");
}

#[test]
fn concat_file_is_fresh_and_in_input_dir() {
    let m = Merger::new();
    let a = m.concat_file_path("/in");
    let b = m.concat_file_path("/in");
    assert!(a.starts_with("/in/.concat_"));
    assert!(a.ends_with(".txt"));
    assert_eq!(a.len(), "/in/.concat_".len() + 36 + ".txt".len());
    assert_ne!(a, b);
}

#[test]
fn concat_list_escapes_quotes() {
    let m = Merger::new();
    let files = vec!["/a/it's.mp3".to_string(), "/a/b.mp3".to_string()];
    assert_eq!(m.concat_list(&files), "file '/a/it'\\''s.mp3'\nfile '/a/b.mp3'\n");
    assert_eq!(m.concat_list(&vec![]), "");
}

#[test]
fn ffmpeg_args_encode() {
    let m = Merger::new();
    let args = m.build_ffmpeg_args("/tmp/c.txt", "/out/B.m4b");
    let expected = vec![
        "-f", "concat", "-safe", "0", "-i", "/tmp/c.txt", "-vn", "-c:a", "aac", "-b:a", "128k",
        "-movflags", "+faststart", "-map_metadata", "-1", "/out/B.m4b",
    ];
    assert_eq!(args, expected);
}

#[test]
fn ffmpeg_args_copy() {
    let mut m = Merger::new();
    m.mode = MergeMode::Copy;
    let args = m.build_ffmpeg_args("c.txt", "o.m4b");
    let expected = vec![
        "-f", "concat", "-safe", "0", "-i", "c.txt", "-vn", "-c:a", "copy", "-movflags",
        "+faststart", "-map_metadata", "-1", "o.m4b",
    ];
    assert_eq!(args, expected);
}

#[test]
fn ffmpeg_args_other_bitrate() {
    let mut m = Merger::new();
    m.bitrate = 64;
    let args = m.build_ffmpeg_args("c.txt", "o.m4b");
    assert_eq!(args[10], "64k");
}

#[test]
fn merge_titles() {
    assert_eq!(merge_title(&audio_file("Book.mp3", None)), "Book");
    assert_eq!(merge_title(&audio_file("Book.mp3", Some("Clean Book.m4b"))), "Clean Book");
}

#[test]
fn mp3_extensions_in_any_case() {
    assert!(ext_is_mp3("mp3") && ext_is_mp3("MP3") && ext_is_mp3("mP3"));
    assert!(!ext_is_mp3("mp4") && !ext_is_mp3("mp33") && !ext_is_mp3(""));
}

#[test]
fn existing_output_is_kept() {
    let m = Merger::new();
    assert_eq!(m.start(true), MergeStart::UseExisting);
    assert_eq!(m.start(false), MergeStart::Run);
}
