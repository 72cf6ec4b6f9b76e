//! The data model: scanned files, their metadata, manifests and statistics.
use vstd::prelude::*;
use vstd::string::StringExecFns;

verus! {

/// The result of scanning a directory tree.
#[derive(Debug, Clone)]
pub struct Manifest {
    pub source: String,
    pub files: Vec<BookFile>,
    pub stats: Stats,
    pub generated: String,
}

/// One file found by a scan, with the metadata gathered for it so far.
#[derive(Debug, Clone)]
pub struct BookFile {
    pub path: String,
    pub name: String,
    pub ext: String,
    pub size: u64,
    pub file_type: FileType,
    pub metadata: Option<Metadata>,
    pub inferred: Option<Metadata>,
    pub chosen_source: MetadataSource,
    pub content_hash: Option<String>,
    pub status: FileStatus,
    pub cleaned_name: Option<String>,
}

#[derive(Debug, Clone, Copy, PartialEq, Eq, Structural)]
pub enum FileType {
    Audio,
    Ebook,
    Comic,
    Document,
    Unknown,
    Junk,
}

/// Bibliographic and technical metadata of a book.
#[derive(Debug, Clone)]
pub struct Metadata {
    pub title: Option<String>,
    pub author: Option<String>,
    pub narrator: Option<String>,
    pub series: Option<String>,
    pub series_index: Option<u32>,
    pub disc_number: Option<u32>,
    pub track_number: Option<u32>,
    pub year: Option<u32>,
    pub publisher: Option<String>,
    pub isbn: Option<String>,
    pub language: Option<String>,
    pub tags: Vec<String>,
    pub cover: Option<String>,
    pub bitrate: Option<u32>,
    pub duration: Option<u64>,
    pub chapters: Vec<Chapter>,
}

#[derive(Debug, Clone)]
pub struct Chapter {
    pub title: String,
    pub start: u64,
    pub end: Option<u64>,
}

/// Where the chosen metadata of a file came from.
#[derive(Debug, Clone, Copy, PartialEq, Eq, Structural)]
pub enum MetadataSource {
    Embedded,
    Mapping,
    Folder,
    Filename,
    Unknown,
}

/// Pipeline state of a file.
#[derive(Debug, Clone, Copy, PartialEq, Eq, Structural)]
pub enum FileStatus {
    Pending,
    Scanned,
    Cleaned,
    Merged,
    Organized,
    Verified,
    Quarantined,
    Failed,
}

/// Lifecycle state of a book unit.
#[derive(Debug, Clone, Copy, PartialEq, Eq, Structural)]
pub enum BookStatus {
    Discovered,
    Merged,
    Organized,
    Quarantined,
}

/// A logical book: one file, or the chapter files of one audiobook.
#[derive(Debug, Clone)]
pub struct BookUnit {
    pub id: String,
    pub title: Option<String>,
    pub author: Option<String>,
    pub series: Option<String>,
    pub source_files: Vec<String>,
    pub merged_output: Option<String>,
    pub file_type: FileType,
    pub work_hash: Option<String>,
    pub status: BookStatus,
    pub metadata: Option<Metadata>,
}

/// Counters kept while scanning.
#[derive(Debug, Clone, Copy, PartialEq, Eq, Structural)]
pub struct Stats {
    pub total_files: usize,
    pub total_size: u64,
    pub audio_files: usize,
    pub ebook_files: usize,
    pub comic_files: usize,
    pub document_files: usize,
    pub junk_files: usize,
    pub unknown_files: usize,
    pub duplicates: usize,
}

impl Default for FileStatus {
    fn default() -> (r: Self)
        ensures
            r == FileStatus::Pending,
    {
        FileStatus::Pending
    }
}

impl Default for Stats {
    fn default() -> (r: Self)
        ensures
            r == Stats::zero(),
    {
        Stats {
            total_files: 0,
            total_size: 0,
            audio_files: 0,
            ebook_files: 0,
            comic_files: 0,
            document_files: 0,
            junk_files: 0,
            unknown_files: 0,
            duplicates: 0,
        }
    }
}

impl Default for Metadata {
    fn default() -> (r: Self)
        ensures
            r.is_empty(),
    {
        Metadata::empty()
    }
}

impl Metadata {
    /// No field is set.
    pub open spec fn is_empty(self) -> bool {
        &&& self.title is None
        &&& self.author is None
        &&& self.narrator is None
        &&& self.series is None
        &&& self.series_index is None
        &&& self.disc_number is None
        &&& self.track_number is None
        &&& self.year is None
        &&& self.publisher is None
        &&& self.isbn is None
        &&& self.language is None
        &&& self.tags@.len() == 0
        &&& self.cover is None
        &&& self.bitrate is None
        &&& self.duration is None
        &&& self.chapters@.len() == 0
    }

    /// Metadata with no field set.
    pub fn empty() -> (r: Self)
        ensures
            r.is_empty(),
    {
        Metadata {
            title: None,
            author: None,
            narrator: None,
            series: None,
            series_index: None,
            disc_number: None,
            track_number: None,
            year: None,
            publisher: None,
            isbn: None,
            language: None,
            tags: Vec::new(),
            cover: None,
            bitrate: None,
            duration: None,
            chapters: Vec::new(),
        }
    }
}

impl Stats {
    pub open spec fn zero() -> Stats {
        Stats {
            total_files: 0,
            total_size: 0,
            audio_files: 0,
            ebook_files: 0,
            comic_files: 0,
            document_files: 0,
            junk_files: 0,
            unknown_files: 0,
            duplicates: 0,
        }
    }

    /// Every counted file is counted under exactly one type: the total is
    /// the sum of the per-type counters.
    pub open spec fn tallied(self) -> bool {
        self.total_files == self.audio_files + self.ebook_files + self.comic_files
            + self.document_files + self.junk_files + self.unknown_files
    }

    /// The counter of files of type `t`.
    pub open spec fn count_of(self, t: FileType) -> usize {
        match t {
            FileType::Audio => self.audio_files,
            FileType::Ebook => self.ebook_files,
            FileType::Comic => self.comic_files,
            FileType::Document => self.document_files,
            FileType::Junk => self.junk_files,
            FileType::Unknown => self.unknown_files,
        }
    }

    /// The counters may take one more file of `size` bytes without overflow.
    pub open spec fn can_add(self, file_type: FileType, size: u64) -> bool {
        &&& self.total_files < usize::MAX
        &&& self.total_size + size <= u64::MAX
        &&& match file_type {
            FileType::Audio => self.audio_files < usize::MAX,
            FileType::Ebook => self.ebook_files < usize::MAX,
            FileType::Comic => self.comic_files < usize::MAX,
            FileType::Document => self.document_files < usize::MAX,
            FileType::Junk => self.junk_files < usize::MAX,
            FileType::Unknown => self.unknown_files < usize::MAX,
        }
    }

    /// The counters after one more file of the given type and size.
    pub open spec fn added(self, file_type: FileType, size: u64) -> Stats {
        let s = Stats {
            total_files: (self.total_files + 1) as usize,
            total_size: (self.total_size + size) as u64,
            ..self
        };
        match file_type {
            FileType::Audio => Stats { audio_files: (s.audio_files + 1) as usize, ..s },
            FileType::Ebook => Stats { ebook_files: (s.ebook_files + 1) as usize, ..s },
            FileType::Comic => Stats { comic_files: (s.comic_files + 1) as usize, ..s },
            FileType::Document => Stats { document_files: (s.document_files + 1) as usize, ..s },
            FileType::Junk => Stats { junk_files: (s.junk_files + 1) as usize, ..s },
            FileType::Unknown => Stats { unknown_files: (s.unknown_files + 1) as usize, ..s },
        }
    }

    /// Counts one more file of the given type and size.
    pub fn add_file(&mut self, file_type: &FileType, size: u64)
        requires
            old(self).can_add(*file_type, size),
        ensures
            *final(self) == old(self).added(*file_type, size),
    {
        self.total_files += 1;
        self.total_size += size;
        match file_type {
            FileType::Audio => self.audio_files += 1,
            FileType::Ebook => self.ebook_files += 1,
            FileType::Comic => self.comic_files += 1,
            FileType::Document => self.document_files += 1,
            FileType::Junk => self.junk_files += 1,
            FileType::Unknown => self.unknown_files += 1,
        }
    }
}

/// The chapters have the same titles and bounds.
pub open spec fn same_chapters(a: Seq<Chapter>, b: Seq<Chapter>) -> bool {
    &&& a.len() == b.len()
    &&& forall|k: int|
        0 <= k < a.len() ==> (#[trigger] a[k]).title@ == b[k].title@ && a[k].start == b[k].start
            && a[k].end == b[k].end
}

impl Metadata {
    /// Both hold the same values.
    pub open spec fn same_as(self, o: Metadata) -> bool {
        &&& self.title.deep_view() == o.title.deep_view()
        &&& self.author.deep_view() == o.author.deep_view()
        &&& self.narrator.deep_view() == o.narrator.deep_view()
        &&& self.series.deep_view() == o.series.deep_view()
        &&& self.series_index == o.series_index
        &&& self.disc_number == o.disc_number
        &&& self.track_number == o.track_number
        &&& self.year == o.year
        &&& self.publisher.deep_view() == o.publisher.deep_view()
        &&& self.isbn.deep_view() == o.isbn.deep_view()
        &&& self.language.deep_view() == o.language.deep_view()
        &&& crate::text::string_views(self.tags@) == crate::text::string_views(o.tags@)
        &&& self.cover.deep_view() == o.cover.deep_view()
        &&& self.bitrate == o.bitrate
        &&& self.duration == o.duration
        &&& same_chapters(self.chapters@, o.chapters@)
    }

    /// A copy holding the same values.
    pub fn copy(&self) -> (r: Metadata)
        ensures
            r.same_as(*self),
    {
        let mut tags: Vec<String> = Vec::new();
        let mut i: usize = 0;
        while i < self.tags.len()
            invariant
                i <= self.tags@.len(),
                tags@.len() == i,
                forall|k: int| 0 <= k < i ==> (#[trigger] tags@[k])@ == self.tags@[k]@,
            decreases self.tags@.len() - i,
        {
            let t = self.tags[i].clone();
            tags.push(t);
            i += 1;
        }
        assert(crate::text::string_views(tags@) =~= crate::text::string_views(self.tags@));
        let mut chapters: Vec<Chapter> = Vec::new();
        let mut j: usize = 0;
        while j < self.chapters.len()
            invariant
                j <= self.chapters@.len(),
                same_chapters(chapters@, self.chapters@.take(j as int)),
            decreases self.chapters@.len() - j,
        {
            let c = &self.chapters[j];
            let ghost before = chapters@;
            chapters.push(Chapter { title: c.title.clone(), start: c.start, end: c.end });
            assert(self.chapters@.take(j + 1) == self.chapters@.take(j as int).push(self.chapters@[j as int]));
            j += 1;
        }
        assert(self.chapters@.take(self.chapters@.len() as int) =~= self.chapters@);
        Metadata {
            title: crate::text::clone_opt(&self.title),
            author: crate::text::clone_opt(&self.author),
            narrator: crate::text::clone_opt(&self.narrator),
            series: crate::text::clone_opt(&self.series),
            series_index: self.series_index,
            disc_number: self.disc_number,
            track_number: self.track_number,
            year: self.year,
            publisher: crate::text::clone_opt(&self.publisher),
            isbn: crate::text::clone_opt(&self.isbn),
            language: crate::text::clone_opt(&self.language),
            tags,
            cover: crate::text::clone_opt(&self.cover),
            bitrate: self.bitrate,
            duration: self.duration,
            chapters,
        }
    }
}

/// The title and author that optional metadata gives.
pub open spec fn title_author_of(m: Option<Metadata>) -> (Option<Seq<char>>, Option<Seq<char>>) {
    match m {
        Some(m) => (m.title.deep_view(), m.author.deep_view()),
        None => (None, None),
    }
}

/// The title and author of optional metadata (`title_author_of`).
pub fn title_author(m: &Option<Metadata>) -> (r: (Option<String>, Option<String>))
    ensures
        (r.0.deep_view(), r.1.deep_view()) == title_author_of(*m),
{
    match m {
        Some(m) => (crate::text::clone_opt(&m.title), crate::text::clone_opt(&m.author)),
        None => (None, None),
    }
}

impl BookFile {
    /// The title and author known of the file: those of its chosen
    /// metadata when it has some, else those of its inferred metadata.
    pub open spec fn known_title_author(self) -> (Option<Seq<char>>, Option<Seq<char>>) {
        if self.metadata is Some {
            title_author_of(self.metadata)
        } else {
            title_author_of(self.inferred)
        }
    }

    /// The title and author known of the file (`known_title_author`).
    pub fn best_title_author(&self) -> (r: (Option<String>, Option<String>))
        ensures
            (r.0.deep_view(), r.1.deep_view()) == self.known_title_author(),
    {
        if self.metadata.is_some() {
            title_author(&self.metadata)
        } else {
            title_author(&self.inferred)
        }
    }

    /// Records metadata inferred from the file's name as its source of
    /// truth: the inferred metadata is kept, the source becomes the file
    /// name, and the inferred metadata becomes the chosen one when the file
    /// has none.
    pub fn adopt_inferred(&mut self, inferred: Metadata)
        ensures
            final(self).inferred matches Some(i) && i == inferred,
            final(self).chosen_source == MetadataSource::Filename,
            old(self).metadata matches Some(m) ==> final(self).metadata == Some(m),
            old(self).metadata is None ==> (final(self).metadata matches Some(m) && m.same_as(inferred)),
            final(self).path == old(self).path,
            final(self).name == old(self).name,
            final(self).ext == old(self).ext,
            final(self).size == old(self).size,
            final(self).file_type == old(self).file_type,
            final(self).content_hash == old(self).content_hash,
            final(self).status == old(self).status,
            final(self).cleaned_name == old(self).cleaned_name,
    {
        if self.metadata.is_none() {
            self.metadata = Some(inferred.copy());
        }
        self.inferred = Some(inferred);
        self.chosen_source = MetadataSource::Filename;
    }
}

impl FileType {
    /// The name under which the registry stores the type.
    pub open spec fn registry_name_of(self) -> Seq<char> {
        match self {
            FileType::Audio => "audio"@,
            FileType::Ebook => "ebook"@,
            FileType::Comic => "comic"@,
            FileType::Document => "document"@,
            FileType::Junk => "junk"@,
            FileType::Unknown => "unknown"@,
        }
    }

    /// Whether files of this type are compared by content for duplicates:
    /// audio and ebooks.
    pub fn is_deduplicated(&self) -> (b: bool)
        ensures
            b == (*self == FileType::Audio || *self == FileType::Ebook),
    {
        match self {
            FileType::Audio | FileType::Ebook => true,
            _ => false,
        }
    }

    /// The name under which the registry stores the type.
    pub fn registry_name(&self) -> (r: String)
        ensures
            r@ == self.registry_name_of(),
    {
        match self {
            FileType::Audio => String::from_str("audio"),
            FileType::Ebook => String::from_str("ebook"),
            FileType::Comic => String::from_str("comic"),
            FileType::Document => String::from_str("document"),
            FileType::Junk => String::from_str("junk"),
            FileType::Unknown => String::from_str("unknown"),
        }
    }
}

/// Metadata holding just an author, title, narrator and series.
pub open spec fn holds_fields(m: Metadata, author: Option<Seq<char>>, title: Option<Seq<char>>, narrator: Option<Seq<char>>, series: Option<Seq<char>>) -> bool {
    &&& m.author.deep_view() == author
    &&& m.title.deep_view() == title
    &&& m.narrator.deep_view() == narrator
    &&& m.series.deep_view() == series
    &&& m.series_index is None
    &&& m.disc_number is None
    &&& m.track_number is None
    &&& m.year is None
    &&& m.publisher is None
    &&& m.isbn is None
    &&& m.language is None
    &&& m.tags@.len() == 0
    &&& m.cover is None
    &&& m.bitrate is None
    &&& m.duration is None
    &&& m.chapters@.len() == 0
}

/// The metadata inferred from a name: its author, title, narrator and series.
pub fn inferred_metadata(fields: (Option<String>, Option<String>, Option<String>, Option<String>)) -> (m: Metadata)
    ensures
        holds_fields(m, fields.0.deep_view(), fields.1.deep_view(), fields.2.deep_view(), fields.3.deep_view()),
{
    let (author, title, narrator, series) = fields;
    let mut m = Metadata::empty();
    m.author = author;
    m.title = title;
    m.narrator = narrator;
    m.series = series;
    m
}

/// How many of author, title and duration embedded metadata has.
pub open spec fn embedded_score(m: Metadata) -> nat {
    (if m.author is Some { 1nat } else { 0nat }) + (if m.title is Some { 1nat } else { 0nat }) + (
    if m.duration is Some { 1nat } else { 0nat })
}

/// How many of author and title inferred metadata has.
pub open spec fn inferred_score(m: Metadata) -> nat {
    (if m.author is Some { 1nat } else { 0nat }) + (if m.title is Some { 1nat } else { 0nat })
}

/// The source chosen between embedded and inferred metadata: embedded when
/// it scores at least as high and above zero, else inferred (as mapping)
/// when that scores above zero, else the file name.
pub open spec fn chosen_source_of(embedded: Metadata, inferred: Metadata) -> MetadataSource {
    if embedded_score(embedded) >= inferred_score(inferred) && embedded_score(embedded) > 0 {
        MetadataSource::Embedded
    } else if inferred_score(inferred) > 0 {
        MetadataSource::Mapping
    } else {
        MetadataSource::Filename
    }
}

/// `Some` of the first option, else the second.
pub open spec fn or_else(a: Option<Seq<char>>, b: Option<Seq<char>>) -> Option<Seq<char>> {
    match a {
        Some(x) => Some(x),
        None => b,
    }
}

/// Chooses between embedded and inferred metadata. Chosen embedded metadata
/// takes author, title, series and narrator from the inferred metadata where
/// it has none; with neither, the metadata is just the file name as title.
pub fn choose_metadata(embedded: Metadata, inferred: &Metadata, file_name: &str) -> (r: (MetadataSource, Metadata))
    ensures
        r.0 == chosen_source_of(embedded, *inferred),
        r.0 == MetadataSource::Embedded ==> {
            &&& r.1.author.deep_view() == or_else(embedded.author.deep_view(), inferred.author.deep_view())
            &&& r.1.title.deep_view() == or_else(embedded.title.deep_view(), inferred.title.deep_view())
            &&& r.1.series.deep_view() == or_else(embedded.series.deep_view(), inferred.series.deep_view())
            &&& r.1.narrator.deep_view() == or_else(embedded.narrator.deep_view(), inferred.narrator.deep_view())
            &&& r.1.series_index == embedded.series_index
            &&& r.1.disc_number == embedded.disc_number
            &&& r.1.track_number == embedded.track_number
            &&& r.1.year == embedded.year
            &&& r.1.publisher == embedded.publisher
            &&& r.1.isbn == embedded.isbn
            &&& r.1.language == embedded.language
            &&& r.1.tags == embedded.tags
            &&& r.1.cover == embedded.cover
            &&& r.1.bitrate == embedded.bitrate
            &&& r.1.duration == embedded.duration
            &&& r.1.chapters == embedded.chapters
        },
        r.0 == MetadataSource::Mapping ==> r.1.same_as(*inferred),
        r.0 == MetadataSource::Filename ==> holds_fields(r.1, None, Some(file_name@), None, None),
{
    let e: u8 = (if embedded.author.is_some() { 1u8 } else { 0u8 }) + (if embedded.title.is_some() {
        1u8
    } else {
        0u8
    }) + (if embedded.duration.is_some() { 1u8 } else { 0u8 });
    let i: u8 = (if inferred.author.is_some() { 1u8 } else { 0u8 }) + (if inferred.title.is_some() {
        1u8
    } else {
        0u8
    });
    if e >= i && e > 0 {
        let mut meta = embedded;
        if meta.author.is_none() {
            meta.author = crate::text::clone_opt(&inferred.author);
        }
        if meta.title.is_none() {
            meta.title = crate::text::clone_opt(&inferred.title);
        }
        if meta.series.is_none() && inferred.series.is_some() {
            meta.series = crate::text::clone_opt(&inferred.series);
        }
        if meta.narrator.is_none() && inferred.narrator.is_some() {
            meta.narrator = crate::text::clone_opt(&inferred.narrator);
        }
        (MetadataSource::Embedded, meta)
    } else if i > 0 {
        (MetadataSource::Mapping, inferred.copy())
    } else {
        let mut fallback = Metadata::empty();
        fallback.title = Some(String::from_str(file_name));
        (MetadataSource::Filename, fallback)
    }
}

} // verus!
