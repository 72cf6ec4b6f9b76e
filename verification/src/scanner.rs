//! Scanning: which files of a directory tree are books, their type, and the
//! author and title that their names and folders suggest.
use crate::cleaner::{
    capture_title_author, captured_title_author, contains_any, opt_views2, part_sep, sep_vec,
    title_paren_author_pattern,
};
use crate::matching::{any_glob_accepts, any_glob_matches, regex_captures};
use crate::paths::{lowercase, or_empty, path_extension, path_file_name, path_parent};
use crate::text::{
    all_ascii_digits, all_ascii_digits_vec, chars_of, clone_opt, contains, contains_vec, find,
    find_vec, is_ascii_digit, join, lemma_find_props, lemma_join_split, lemma_split_step,
    occurs_at, opt_string_of, same_str, slice_of, split, split_once_vec, string_of, string_views, trim,
    trim_vec, utf8_len, utf8_len_below,
};
use crate::types::{BookFile, FileStatus, FileType, Manifest, Metadata, MetadataSource, Stats};
use vstd::prelude::*;
use vstd::string::StringExecFns;

verus! {

/// Which files a scan takes, and which sizes.
pub struct Scanner {
    pub patterns: Vec<String>,
    pub exclude_patterns: Vec<String>,
    pub min_size: u64,
    pub max_size: u64,
}

/// A regular file met while walking a directory tree: its path, its size,
/// and its content hash when one was computed.
pub struct ScanEntry {
    pub path: String,
    pub size: u64,
    pub content_hash: Option<String>,
}

/// How a scan treats a file.
#[derive(Debug, Clone, Copy, PartialEq, Eq, Structural)]
pub enum EntryKind {
    /// Outside the size bounds: ignored.
    Skipped,
    /// Matches an exclude pattern: counted as junk.
    Junk,
    /// Matches no include pattern: counted as unknown.
    Unknown,
    /// A book file: listed in the manifest.
    Included,
}

pub open spec fn default_patterns() -> Seq<Seq<char>> {
    seq![
        "*.mp3"@, "*.m4a"@, "*.m4b"@, "*.flac"@, "*.epub"@,
        "*.pdf"@, "*.mobi"@, "*.azw3"@, "*.cbz"@, "*.cbr"@,
    ]
}

pub open spec fn default_exclude_patterns() -> Seq<Seq<char>> {
    seq![
        "*.nfo"@, "*.jpg"@, "*.jpeg"@, "*.png"@, "*.gif"@,
        "*.sfv"@, "*.txt"@, "*.log"@, "*.bak"@, "*.tmp"@,
    ]
}

/// The file type that an extension (already lowercased) denotes.
pub open spec fn file_type_for_ext(ext: Seq<char>) -> FileType {
    if ext == "mp3"@ || ext == "m4a"@ || ext == "m4b"@ || ext == "flac"@ || ext == "wav"@ || ext
        == "aac"@ || ext == "ogg"@ {
        FileType::Audio
    } else if ext == "epub"@ || ext == "pdf"@ || ext == "mobi"@ || ext == "azw"@ || ext == "azw3"@
        || ext == "ibooks"@ {
        FileType::Ebook
    } else if ext == "cbz"@ || ext == "cbr"@ || ext == "cbt"@ || ext == "cba"@ {
        FileType::Comic
    } else if ext == "doc"@ || ext == "docx"@ || ext == "rtf"@ || ext == "txt"@ {
        FileType::Document
    } else if ext == "nfo"@ || ext == "jpg"@ || ext == "jpeg"@ || ext == "png"@ || ext == "gif"@
        || ext == "sfv"@ || ext == "log"@ || ext == "bak"@ || ext == "tmp"@ {
        FileType::Junk
    } else {
        FileType::Unknown
    }
}

pub open spec fn common_author_words() -> Seq<Seq<char>> {
    seq!["King"@, "Dick"@, "Asimov"@, "Bradbury"@, "Heinlein"@, "Tolkien"@]
}

/// `" by "`.
pub open spec fn by_sep() -> Seq<char> {
    seq![' ', 'b', 'y', ' ']
}

/// Whether a name may be an author's: not all digits, longer than two
/// bytes, and either holding a comma or a well-known author's name, or at
/// least four bytes long.
pub open spec fn author_shaped(name: Seq<char>) -> bool {
    if all_ascii_digits(name) {
        false
    } else if utf8_len(name) <= 2 {
        false
    } else if contains(name, seq![',']) {
        true
    } else if contains_any(name, common_author_words()) {
        true
    } else if utf8_len(name) < 4 {
        false
    } else {
        true
    }
}

/// `Title by Author` or `Title (Author)` (result: author, title).
pub open spec fn title_author_in(name: Seq<char>) -> Option<(Seq<char>, Seq<char>)> {
    let by_form = match find(name, by_sep()) {
        Some(pos) => {
            let title = trim(name.take(pos));
            let author = trim(name.skip(pos + 4));
            if author.len() > 0 && author_shaped(author) {
                Some((author, title))
            } else {
                None
            }
        },
        None => None,
    };
    match by_form {
        Some(r) => Some(r),
        None => match captured_title_author(title_paren_author_pattern(), name) {
            Some((t, a)) => if author_shaped(a) {
                Some((a, t))
            } else {
                None
            },
            None => None,
        },
    }
}

/// Author and title read from a file or folder name (result: author, title):
/// none when the name starts with a digit; `Author - Title` when the first
/// part is author-shaped; else `Title by Author` or `Title (Author)`.
pub open spec fn author_title_in(name: Seq<char>) -> Option<(Seq<char>, Seq<char>)> {
    if name.len() > 0 && is_ascii_digit(name[0]) {
        None
    } else {
        let parts = split(name, part_sep());
        if parts.len() >= 2 && author_shaped(trim(parts[0])) {
            Some((trim(parts[0]), join(parts.drop_first(), part_sep())))
        } else {
            title_author_in(name)
        }
    }
}

/// Name of the directory holding the file at `path`.
pub open spec fn parent_dir_name(path: Seq<char>) -> Option<Seq<char>> {
    match path_parent(path) {
        Some(p) => path_file_name(p),
        None => None,
    }
}

/// Name of the directory two levels above the file at `path`.
pub open spec fn grandparent_dir_name(path: Seq<char>) -> Option<Seq<char>> {
    match path_parent(path) {
        Some(p) => match path_parent(p) {
            Some(g) => path_file_name(g),
            None => None,
        },
        None => None,
    }
}

/// Author and title for a file: from its name, else from its folder's name,
/// else from its grandparent folder's name, else no author and the file
/// name as title.
pub open spec fn path_author_title(path: Seq<char>, filename: Seq<char>) -> (Option<Seq<char>>, Option<Seq<char>>) {
    match author_title_in(filename) {
        Some((a, t)) => (Some(a), Some(t)),
        None => {
            let from_parent = match parent_dir_name(path) {
                Some(d) => author_title_in(d),
                None => None,
            };
            match from_parent {
                Some((a, t)) => (Some(a), Some(t)),
                None => {
                    let from_grand = match grandparent_dir_name(path) {
                        Some(d) => author_title_in(d),
                        None => None,
                    };
                    match from_grand {
                        Some((a, t)) => (Some(a), Some(t)),
                        None => (None, Some(filename)),
                    }
                },
            }
        },
    }
}

/// Author suggested by a folder name: its first `" - "` part, trimmed, when
/// that is not all digits and longer than three bytes.
pub open spec fn author_in_dir(dir: Seq<char>) -> Option<Seq<char>> {
    let first = trim(split(dir, part_sep())[0]);
    if !all_ascii_digits(first) && utf8_len(first) > 3 {
        Some(first)
    } else {
        None
    }
}

/// Author suggested by the folder, else the grandparent folder, of a file.
pub open spec fn author_in_path(path: Seq<char>) -> Option<Seq<char>> {
    let from_parent = match parent_dir_name(path) {
        Some(d) => author_in_dir(d),
        None => None,
    };
    match from_parent {
        Some(a) => Some(a),
        None => match grandparent_dir_name(path) {
            Some(d) => author_in_dir(d),
            None => None,
        },
    }
}

/// The file name of a path, or the empty string.
pub open spec fn name_of_path(path: Seq<char>) -> Seq<char> {
    or_empty(path_file_name(path))
}

/// The lowercased extension of a path, or the empty string.
pub open spec fn ext_of_path(path: Seq<char>) -> Seq<char> {
    lowercase(or_empty(path_extension(path)))
}

/// Metadata holding only the given author and title.
pub open spec fn only_author_title(m: Metadata, author: Option<Seq<char>>, title: Option<Seq<char>>) -> bool {
    &&& m.title.deep_view() == title
    &&& m.author.deep_view() == author
    &&& m.narrator is None
    &&& m.series is None
    &&& m.series_index is None
    &&& m.disc_number is None
    &&& m.track_number is None
    &&& m.year is None
    &&& m.publisher is None
    &&& m.isbn is None
    &&& m.language is None
    &&& m.tags@.len() == 0
    &&& m.cover is None
    &&& m.bitrate is None
    &&& m.duration is None
    &&& m.chapters@.len() == 0
}

fn lit_eq(v: &Vec<char>, lit: &str) -> (b: bool)
    ensures
        b == (v@ == lit@),
{
    crate::text::eq_vec(v, &chars_of(lit))
}

fn parent_dir(path: &str) -> (r: Option<String>)
    ensures
        r.deep_view() == parent_dir_name(path@),
{
    match crate::paths::parent(path) {
        Some(p) => crate::paths::file_name(p.as_str()),
        None => None,
    }
}

fn grandparent_dir(path: &str) -> (r: Option<String>)
    ensures
        r.deep_view() == grandparent_dir_name(path@),
{
    match crate::paths::parent(path) {
        Some(p) => match crate::paths::parent(p.as_str()) {
            Some(g) => crate::paths::file_name(g.as_str()),
            None => None,
        },
        None => None,
    }
}

fn dir_author(dir: &Option<String>) -> (r: Option<String>)
    ensures
        r.deep_view() == match dir.deep_view() {
            Some(d) => author_in_dir(d),
            None => None,
        },
{
    match dir {
        Some(d) => {
            let v = chars_of(d.as_str());
            let sep = sep_vec();
            proof {
                lemma_split_step(v@, part_sep());
            }
            let first = match split_once_vec(&v, &sep) {
                Some((a, _b)) => a,
                None => v,
            };
            let f = trim_vec(&first);
            if !all_ascii_digits_vec(&f) && !utf8_len_below(&f, 4) {
                Some(string_of(&f))
            } else {
                None
            }
        },
        None => None,
    }
}

/// The author suggested by the folders above the file at `path`.
pub fn extract_author_from_path(path: &str) -> (r: Option<String>)
    ensures
        r.deep_view() == author_in_path(path@),
{
    let pdir = parent_dir(path);
    if let Some(a) = dir_author(&pdir) {
        return Some(a);
    }
    let gdir = grandparent_dir(path);
    dir_author(&gdir)
}

impl Default for Scanner {
    fn default() -> (r: Self)
        ensures
            string_views(r.patterns@) == default_patterns(),
            string_views(r.exclude_patterns@) == default_exclude_patterns(),
            r.min_size == 1024,
            r.max_size == u64::MAX,
    {
        Scanner::new()
    }
}

impl Scanner {
    /// How a file of the given path and size is treated: its name is
    /// matched against the patterns with ASCII letters compared ignoring
    /// case, so `Book.MP3` is taken as `*.mp3`.
    pub open spec fn kind_of(self, path: Seq<char>, size: u64) -> EntryKind {
        let name = name_of_path(path);
        if size < self.min_size || size > self.max_size {
            EntryKind::Skipped
        } else if any_glob_accepts(string_views(self.exclude_patterns@), name) {
            EntryKind::Junk
        } else if !any_glob_accepts(string_views(self.patterns@), name) {
            EntryKind::Unknown
        } else {
            EntryKind::Included
        }
    }

    /// Entries that the statistics count (all but the skipped ones).
    pub open spec fn counted(self, e: ScanEntry) -> bool {
        self.kind_of(e.path@, e.size) != EntryKind::Skipped
    }

    /// The type under which an entry is counted.
    pub open spec fn counted_type(self, e: ScanEntry) -> FileType {
        match self.kind_of(e.path@, e.size) {
            EntryKind::Junk => FileType::Junk,
            EntryKind::Unknown => FileType::Unknown,
            _ => file_type_for_ext(ext_of_path(e.path@)),
        }
    }

    /// Statistics of a scan over `entries`.
    pub open spec fn scan_stats(self, entries: Seq<ScanEntry>) -> Stats
        decreases entries.len(),
    {
        if entries.len() == 0 {
            Stats::zero()
        } else {
            let s = self.scan_stats(entries.drop_last());
            let e = entries.last();
            if self.counted(e) {
                s.added(self.counted_type(e), e.size)
            } else {
                s
            }
        }
    }

    /// How many of the entries that the manifest lists have type `t`.
    pub open spec fn listed_of_type(self, entries: Seq<ScanEntry>, t: FileType) -> nat
        decreases entries.len(),
    {
        if entries.len() == 0 {
            0
        } else {
            let e = entries.last();
            self.listed_of_type(entries.drop_last(), t) + if self.kind_of(e.path@, e.size)
                == EntryKind::Included && file_type_for_ext(ext_of_path(e.path@)) == t {
                1nat
            } else {
                0nat
            }
        }
    }

    /// Total size of the counted entries.
    pub open spec fn counted_size(self, entries: Seq<ScanEntry>) -> nat
        decreases entries.len(),
    {
        if entries.len() == 0 {
            0
        } else {
            self.counted_size(entries.drop_last()) + if self.counted(entries.last()) {
                entries.last().size as nat
            } else {
                0nat
            }
        }
    }

    /// The entries that the manifest lists, in order.
    pub open spec fn included(self, entries: Seq<ScanEntry>) -> Seq<ScanEntry>
        decreases entries.len(),
    {
        if entries.len() == 0 {
            Seq::empty()
        } else {
            let prev = self.included(entries.drop_last());
            if self.kind_of(entries.last().path@, entries.last().size) == EntryKind::Included {
                prev.push(entries.last())
            } else {
                prev
            }
        }
    }

    /// `f` is the manifest record of the included entry `e`.
    pub open spec fn describes(self, f: BookFile, e: ScanEntry) -> bool {
        let name = name_of_path(e.path@);
        let ext = ext_of_path(e.path@);
        let (author, title) = path_author_title(e.path@, name);
        &&& f.path@ == e.path@
        &&& f.name@ == name
        &&& f.ext@ == ext
        &&& f.size == e.size
        &&& f.file_type == file_type_for_ext(ext)
        &&& f.metadata is None
        &&& f.inferred matches Some(m) && only_author_title(m, author, title)
        &&& f.chosen_source == if author is Some {
            MetadataSource::Folder
        } else {
            MetadataSource::Unknown
        }
        &&& f.content_hash.deep_view() == e.content_hash.deep_view()
        &&& f.status == FileStatus::Scanned
        &&& f.cleaned_name is None
    }

    /// The default scanner: audio, ebook and comic extensions, common junk
    /// excluded, files of at least 1024 bytes.
    pub fn new() -> (r: Self)
        ensures
            string_views(r.patterns@) == default_patterns(),
            string_views(r.exclude_patterns@) == default_exclude_patterns(),
            r.min_size == 1024,
            r.max_size == u64::MAX,
    {
        let mut patterns: Vec<String> = Vec::new();
        patterns.push(String::from_str("*.mp3"));
        patterns.push(String::from_str("*.m4a"));
        patterns.push(String::from_str("*.m4b"));
        patterns.push(String::from_str("*.flac"));
        patterns.push(String::from_str("*.epub"));
        patterns.push(String::from_str("*.pdf"));
        patterns.push(String::from_str("*.mobi"));
        patterns.push(String::from_str("*.azw3"));
        patterns.push(String::from_str("*.cbz"));
        patterns.push(String::from_str("*.cbr"));
        let mut exclude_patterns: Vec<String> = Vec::new();
        exclude_patterns.push(String::from_str("*.nfo"));
        exclude_patterns.push(String::from_str("*.jpg"));
        exclude_patterns.push(String::from_str("*.jpeg"));
        exclude_patterns.push(String::from_str("*.png"));
        exclude_patterns.push(String::from_str("*.gif"));
        exclude_patterns.push(String::from_str("*.sfv"));
        exclude_patterns.push(String::from_str("*.txt"));
        exclude_patterns.push(String::from_str("*.log"));
        exclude_patterns.push(String::from_str("*.bak"));
        exclude_patterns.push(String::from_str("*.tmp"));
        assert(string_views(patterns@) =~= default_patterns());
        assert(string_views(exclude_patterns@) =~= default_exclude_patterns());
        Scanner { patterns, exclude_patterns, min_size: 1024, max_size: u64::MAX }
    }


    fn looks_like_author(&self, name: &Vec<char>) -> (b: bool)
        ensures
            b == author_shaped(name@),
    {
        if all_ascii_digits_vec(name) {
            return false;
        }
        if utf8_len_below(name, 3) {
            return false;
        }
        let mut comma: Vec<char> = Vec::new();
        comma.push(',');
        assert(comma@ =~= seq![',']);
        if contains_vec(name, &comma) {
            return true;
        }
        let ghost words = common_author_words();
        if contains_vec(name, &chars_of("King")) || contains_vec(name, &chars_of("Dick"))
            || contains_vec(name, &chars_of("Asimov")) || contains_vec(name, &chars_of("Bradbury"))
            || contains_vec(name, &chars_of("Heinlein")) || contains_vec(name, &chars_of("Tolkien")) {
            proof {
                if contains(name@, "King"@) {
                    assert(contains(name@, words[0]));
                } else if contains(name@, "Dick"@) {
                    assert(contains(name@, words[1]));
                } else if contains(name@, "Asimov"@) {
                    assert(contains(name@, words[2]));
                } else if contains(name@, "Bradbury"@) {
                    assert(contains(name@, words[3]));
                } else if contains(name@, "Heinlein"@) {
                    assert(contains(name@, words[4]));
                } else {
                    assert(contains(name@, words[5]));
                }
            }
            return true;
        }
        assert(!contains_any(name@, words)) by {
            assert forall|i: int| 0 <= i < words.len() implies !contains(name@, #[trigger] words[i]) by {
                if i == 0 {
                } else if i == 1 {
                } else if i == 2 {
                } else if i == 3 {
                } else if i == 4 {
                } else {
                }
            }
        }
        !utf8_len_below(name, 4)
    }

    fn parse_title_author(&self, name: &Vec<char>) -> (r: Option<(Vec<char>, Vec<char>)>)
        ensures
            opt_views2(r) == title_author_in(name@),
    {
        let mut by: Vec<char> = Vec::new();
        by.push(' ');
        by.push('b');
        by.push('y');
        by.push(' ');
        assert(by@ =~= by_sep());
        let mut by_form: Option<(Vec<char>, Vec<char>)> = None;
        match find_vec(name, &by) {
            Some(pos) => {
                proof {
                    lemma_find_props(name@, by@);
                    assert(occurs_at(name@, by@, pos as int));
                    assert(pos + 4 <= name@.len());
                }
                assert(pos + 4 <= name.len());
                let title = trim_vec(&slice_of(name, 0, pos));
                let author = trim_vec(&slice_of(name, pos + 4, name.len()));
                proof {
                    assert(name@.subrange(0, pos as int) =~= name@.take(pos as int));
                    assert(name@.subrange(pos + 4, name@.len() as int) =~= name@.skip(pos + 4));
                }
                if author.len() > 0 && self.looks_like_author(&author) {
                    by_form = Some((author, title));
                }
            },
            None => {},
        }
        if by_form.is_some() {
            return by_form;
        }
        match capture_title_author(r"^(.+?)\s*\(([^)]+)\)$", name) {
            Some((t, a)) => {
                if self.looks_like_author(&a) {
                    Some((a, t))
                } else {
                    None
                }
            },
            None => None,
        }
    }

    fn parse_filename(&self, name: &Vec<char>) -> (r: Option<(Vec<char>, Vec<char>)>)
        ensures
            opt_views2(r) == author_title_in(name@),
    {
        if name.len() > 0 && '0' <= name[0] && name[0] <= '9' {
            return None;
        }
        let sep = sep_vec();
        proof {
            lemma_split_step(name@, part_sep());
        }
        match split_once_vec(name, &sep) {
            Some((first, rest)) => {
                proof {
                    lemma_join_split(rest@, part_sep());
                }
                let f = trim_vec(&first);
                if self.looks_like_author(&f) {
                    return Some((f, rest));
                }
            },
            None => {},
        }
        self.parse_title_author(name)
    }

    fn dir_author_title(&self, dir: &Option<String>) -> (r: Option<(Vec<char>, Vec<char>)>)
        ensures
            opt_views2(r) == match dir.deep_view() {
                Some(d) => author_title_in(d),
                None => None,
            },
    {
        match dir {
            Some(d) => self.parse_filename(&chars_of(d.as_str())),
            None => None,
        }
    }

    /// Author and title for the file at `path` named `filename`.
    fn extract_author_title(&self, path: &str, filename: &str) -> (r: (Option<String>, Option<String>))
        ensures
            (r.0.deep_view(), r.1.deep_view()) == path_author_title(path@, filename@),
    {
        if let Some((a, t)) = self.parse_filename(&chars_of(filename)) {
            return (Some(string_of(&a)), Some(string_of(&t)));
        }
        let pdir = parent_dir(path);
        if let Some((a, t)) = self.dir_author_title(&pdir) {
            return (Some(string_of(&a)), Some(string_of(&t)));
        }
        let gdir = grandparent_dir(path);
        if let Some((a, t)) = self.dir_author_title(&gdir) {
            return (Some(string_of(&a)), Some(string_of(&t)));
        }
        (None, Some(String::from_str(filename)))
    }

    /// How a file of the given path and size is treated by a scan.
    pub fn entry_kind(&self, path: &str, size: u64) -> (k: EntryKind)
        ensures
            k == self.kind_of(path@, size),
    {
        if size < self.min_size || size > self.max_size {
            return EntryKind::Skipped;
        }
        let name = crate::paths::unwrap_or_empty(crate::paths::file_name(path));
        if any_glob_matches(&self.exclude_patterns, name.as_str()) {
            EntryKind::Junk
        } else if !any_glob_matches(&self.patterns, name.as_str()) {
            EntryKind::Unknown
        } else {
            EntryKind::Included
        }
    }

    fn scanned_file(&self, e: &ScanEntry) -> (f: BookFile)
        ensures
            self.describes(f, *e),
    {
        let name = crate::paths::unwrap_or_empty(crate::paths::file_name(e.path.as_str()));
        let raw_ext = crate::paths::unwrap_or_empty(crate::paths::extension(e.path.as_str()));
        let ext = crate::paths::to_lowercase(raw_ext.as_str());
        let file_type = self.detect_type(ext.as_str());
        let (author, title) = self.extract_author_title(e.path.as_str(), name.as_str());
        let chosen_source = if author.is_some() {
            MetadataSource::Folder
        } else {
            MetadataSource::Unknown
        };
        let mut inferred = Metadata::empty();
        inferred.author = author;
        inferred.title = title;
        BookFile {
            path: e.path.clone(),
            name,
            ext,
            size: e.size,
            file_type,
            metadata: None,
            inferred: Some(inferred),
            chosen_source,
            content_hash: clone_opt(&e.content_hash),
            status: FileStatus::Scanned,
            cleaned_name: None,
        }
    }

    /// The manifest of a scan of `root` that met `entries`, stamped `generated`.
    pub fn scan(&self, root: &str, entries: &Vec<ScanEntry>, generated: String) -> (m: Manifest)
        requires
            self.counted_size(entries@) <= u64::MAX,
        ensures
            m.source@ == root@,
            m.generated == generated,
            m.stats == self.scan_stats(entries@),
            m.files@.len() == self.included(entries@).len(),
            forall|k: int|
                0 <= k < m.files@.len() ==> self.describes(#[trigger] m.files@[k], self.included(entries@)[k]),
    {
        let mut files: Vec<BookFile> = Vec::new();
        let mut stats = Stats::default();
        let mut i: usize = 0;
        while i < entries.len()
            invariant
                i <= entries.len(),
                self.counted_size(entries@) <= u64::MAX,
                stats == self.scan_stats(entries@.take(i as int)),
                stats.total_size == self.counted_size(entries@.take(i as int)),
                stats.total_files <= i,
                stats.audio_files <= stats.total_files,
                stats.ebook_files <= stats.total_files,
                stats.comic_files <= stats.total_files,
                stats.document_files <= stats.total_files,
                stats.junk_files <= stats.total_files,
                stats.unknown_files <= stats.total_files,
                files@.len() == self.included(entries@.take(i as int)).len(),
                forall|k: int|
                    0 <= k < files@.len() ==> self.describes(
                        #[trigger] files@[k],
                        self.included(entries@.take(i as int))[k],
                    ),
            decreases entries.len() - i,
        {
            let e = &entries[i];
            let ghost prefix = entries@.take(i as int);
            let ghost next = entries@.take(i + 1);
            proof {
                assert(next.drop_last() =~= prefix);
                assert(next.last() == entries@[i as int]);
                self.lemma_counted_size_mono(entries@, i + 1, entries@.len() as int);
                assert(entries@.take(entries@.len() as int) =~= entries@);
            }
            let kind = self.entry_kind(e.path.as_str(), e.size);
            match kind {
                EntryKind::Skipped => {},
                EntryKind::Junk => {
                    stats.add_file(&FileType::Junk, e.size);
                },
                EntryKind::Unknown => {
                    stats.add_file(&FileType::Unknown, e.size);
                },
                EntryKind::Included => {
                    let f = self.scanned_file(e);
                    let t = f.file_type;
                    files.push(f);
                    stats.add_file(&t, e.size);
                },
            }
            i += 1;
        }
        proof {
            assert(entries@.take(entries@.len() as int) =~= entries@);
        }
        Manifest { source: String::from_str(root), files, stats, generated }
    }

    proof fn lemma_counted_size_mono(self, entries: Seq<ScanEntry>, i: int, j: int)
        requires
            0 <= i <= j <= entries.len(),
        ensures
            self.counted_size(entries.take(i)) <= self.counted_size(entries.take(j)),
        decreases j - i,
    {
        if i < j {
            self.lemma_counted_size_mono(entries, i, j - 1);
            assert(entries.take(j).drop_last() =~= entries.take(j - 1));
        }
    }

    /// The file type of a lowercased extension.
    pub fn detect_type(&self, ext: &str) -> (t: FileType)
        ensures
            t == file_type_for_ext(ext@),
    {
        let e = chars_of(ext);
        if lit_eq(&e, "mp3") || lit_eq(&e, "m4a") || lit_eq(&e, "m4b") || lit_eq(&e, "flac")
            || lit_eq(&e, "wav") || lit_eq(&e, "aac") || lit_eq(&e, "ogg") {
            FileType::Audio
        } else if lit_eq(&e, "epub") || lit_eq(&e, "pdf") || lit_eq(&e, "mobi") || lit_eq(&e, "azw")
            || lit_eq(&e, "azw3") || lit_eq(&e, "ibooks") {
            FileType::Ebook
        } else if lit_eq(&e, "cbz") || lit_eq(&e, "cbr") || lit_eq(&e, "cbt") || lit_eq(&e, "cba") {
            FileType::Comic
        } else if lit_eq(&e, "doc") || lit_eq(&e, "docx") || lit_eq(&e, "rtf") || lit_eq(&e, "txt") {
            FileType::Document
        } else if lit_eq(&e, "nfo") || lit_eq(&e, "jpg") || lit_eq(&e, "jpeg") || lit_eq(&e, "png")
            || lit_eq(&e, "gif") || lit_eq(&e, "sfv") || lit_eq(&e, "log") || lit_eq(&e, "bak")
            || lit_eq(&e, "tmp") {
            FileType::Junk
        } else {
            FileType::Unknown
        }
    }
}

} // verus!
