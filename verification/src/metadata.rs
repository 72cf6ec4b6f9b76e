//! Embedded metadata: what the audio tags of a file give, and the
//! normalisation of author and title.
use crate::paths::{lowercase, or_empty, path_extension};
use crate::text::{
    chars_of, clone_opt, ends_with, find, find_vec, lemma_find_props, occurs_at, push_all,
    slice_of, string_of, trim, trim_vec,
};
use crate::types::Metadata;
use vstd::prelude::*;

verus! {

/// Reads metadata embedded in book files.
pub struct MetadataExtractor;

/// The tag fields of an audio file, as its primary (else first) tag holds them.
pub struct AudioTags {
    pub title: Option<String>,
    pub artist: Option<String>,
    pub album: Option<String>,
    pub year: Option<u32>,
    pub track: Option<u32>,
    pub genre: Option<String>,
}

/// What reading an audio file gave: its tag, if it has one, and its
/// properties.
pub struct TaggedAudio {
    pub tag: Option<AudioTags>,
    /// Duration in whole seconds.
    pub duration_secs: u64,
    /// Audio bitrate as the tag reader reports it.
    pub audio_bitrate: Option<u32>,
}

/// Extensions whose files are read as audio.
pub open spec fn is_audio_ext(ext: Seq<char>) -> bool {
    ext == "mp3"@ || ext == "m4a"@ || ext == "m4b"@ || ext == "flac"@ || ext == "ogg"@ || ext
        == "wav"@
}

/// The series that an album gives: the album, unless it equals the title.
pub open spec fn series_from(title: Option<Seq<char>>, album: Option<Seq<char>>) -> Option<Seq<char>> {
    match album {
        Some(a) => match title {
            Some(t) => if a != t {
                Some(a)
            } else {
                None
            },
            None => Some(a),
        },
        None => None,
    }
}

/// `m` is the metadata that reading the audio file gave: the tag's title,
/// artist (as author), album (as series, unless equal to the title), year,
/// track and non-empty genre (as the one tag); duration in seconds and the
/// reported bitrate divided by 1000; nothing else. No reading gives empty metadata.
pub open spec fn from_audio(m: Metadata, audio: Option<TaggedAudio>) -> bool {
    match audio {
        None => m.is_empty(),
        Some(a) => {
            let title = match a.tag {
                Some(t) => t.title.deep_view(),
                None => None,
            };
            let author = match a.tag {
                Some(t) => t.artist.deep_view(),
                None => None,
            };
            let series = match a.tag {
                Some(t) => series_from(t.title.deep_view(), t.album.deep_view()),
                None => None,
            };
            let year = match a.tag {
                Some(t) => t.year,
                None => None,
            };
            let track = match a.tag {
                Some(t) => t.track,
                None => None,
            };
            let genre = match a.tag {
                Some(t) => match t.genre {
                    Some(g) => if g@.len() > 0 {
                        seq![g@]
                    } else {
                        Seq::empty()
                    },
                    None => Seq::empty(),
                },
                None => Seq::empty(),
            };
            &&& m.title.deep_view() == title
            &&& m.author.deep_view() == author
            &&& m.narrator is None
            &&& m.series.deep_view() == series
            &&& m.series_index is None
            &&& m.disc_number is None
            &&& m.track_number == track
            &&& m.year == year
            &&& m.publisher is None
            &&& m.isbn is None
            &&& m.language is None
            &&& crate::text::string_views(m.tags@) == genre
            &&& m.cover is None
            &&& m.bitrate == match a.audio_bitrate {
                Some(b) => Some((b / 1000) as u32),
                None => None,
            }
            &&& m.duration == Some(a.duration_secs)
            &&& m.chapters@.len() == 0
        },
    }
}

/// `c` in upper case, for an ASCII letter; else `c`.
pub open spec fn ascii_upper(c: char) -> char {
    if 'a' <= c <= 'z' {
        ((c as u32) - 32) as char
    } else {
        c
    }
}

/// The author name without one trailing comma, and `Last, First` turned
/// into `First Last` when both parts are non-empty after trimming.
pub open spec fn normalized_author(a: Seq<char>) -> Seq<char> {
    let n = if ends_with(a, seq![',']) {
        a.drop_last()
    } else {
        a
    };
    match find(n, seq![',']) {
        Some(pos) => {
            let last = trim(n.take(pos));
            let first = trim(n.skip(pos + 1));
            if first.len() > 0 && last.len() > 0 {
                first + seq![' '] + last
            } else {
                n
            }
        },
        None => n,
    }
}

/// The title with its first character in upper case.
pub open spec fn normalized_title(t: Seq<char>) -> Seq<char> {
    if t.len() > 0 {
        seq![ascii_upper(t[0])] + t.drop_first()
    } else {
        t
    }
}

/// The title can be normalised: empty, or starting with an ASCII character.
pub open spec fn title_normalizable(m: Metadata) -> bool {
    m.title matches Some(t) ==> (t@.len() > 0 ==> (t@[0] as u32) < 0x80)
}

fn upper_ascii(c: char) -> (r: char)
    ensures
        r == ascii_upper(c),
{
    if 'a' <= c && c <= 'z' {
        let u = c as u32 - 32;
        assert(u < 0x80);
        let b = u as u8;
        b as char
    } else {
        c
    }
}

impl MetadataExtractor {
    pub fn new() -> (r: Self) {
        MetadataExtractor
    }

    /// Whether metadata of the file at `path` is read from its audio tags.
    pub fn reads_audio_tags(&self, path: &str) -> (b: bool)
        ensures
            b == is_audio_ext(lowercase(or_empty(path_extension(path@)))),
    {
        let raw = crate::paths::unwrap_or_empty(crate::paths::extension(path));
        let ext = crate::paths::to_lowercase(raw.as_str());
        let e = chars_of(ext.as_str());
        let eq = |lit: &str| -> (b: bool)
            ensures
                b == (e@ == lit@),
            { crate::text::eq_vec(&e, &chars_of(lit)) };
        eq("mp3") || eq("m4a") || eq("m4b") || eq("flac") || eq("ogg") || eq("wav")
    }

    /// The metadata of the file at `path`: read from `audio` (what reading
    /// its tags gave) for audio files, empty otherwise.
    pub fn extract_from_file(&self, path: &str, audio: Option<TaggedAudio>) -> (m: Metadata)
        ensures
            if is_audio_ext(lowercase(or_empty(path_extension(path@)))) {
                from_audio(m, audio)
            } else {
                m.is_empty()
            },
    {
        if self.reads_audio_tags(path) {
            self.extract_audio_metadata(audio)
        } else {
            let raw = crate::paths::unwrap_or_empty(crate::paths::extension(path));
            let ext = crate::paths::to_lowercase(raw.as_str());
            if crate::text::same_str(ext.as_str(), "epub") {
                self.extract_epub_metadata()
            } else {
                Metadata::empty()
            }
        }
    }

    fn extract_audio_metadata(&self, audio: Option<TaggedAudio>) -> (m: Metadata)
        ensures
            from_audio(m, audio),
    {
        let mut metadata = Metadata::empty();
        match audio {
            Some(a) => {
                match &a.tag {
                    Some(tag) => {
                        if let Some(title) = &tag.title {
                            metadata.title = Some(title.clone());
                        }
                        if let Some(artist) = &tag.artist {
                            metadata.author = Some(artist.clone());
                        }
                        if let Some(album) = &tag.album {
                            match &metadata.title {
                                Some(title) => {
                                    if !crate::text::same_str(album.as_str(), title.as_str()) {
                                        metadata.series = Some(album.clone());
                                    }
                                },
                                None => {
                                    metadata.series = Some(album.clone());
                                },
                            }
                        }
                        if let Some(year) = tag.year {
                            metadata.year = Some(year);
                        }
                        if let Some(track) = tag.track {
                            metadata.track_number = Some(track);
                        }
                        if let Some(genre) = &tag.genre {
                            if genre.as_str().unicode_len() > 0 {
                                metadata.tags.push(genre.clone());
                            }
                        }
                        assert(crate::text::string_views(metadata.tags@) =~= match tag.genre {
                            Some(g) => if g@.len() > 0 {
                                seq![g@]
                            } else {
                                Seq::<Seq<char>>::empty()
                            },
                            None => Seq::<Seq<char>>::empty(),
                        });
                    },
                    None => {
                        assert(crate::text::string_views(metadata.tags@) =~= Seq::<Seq<char>>::empty());
                    },
                }
                metadata.duration = Some(a.duration_secs);
                if let Some(bitrate) = a.audio_bitrate {
                    metadata.bitrate = Some(bitrate / 1000);
                }
            },
            None => {},
        }
        metadata
    }

    fn extract_epub_metadata(&self) -> (m: Metadata)
        ensures
            m.is_empty(),
    {
        Metadata::empty()
    }

    /// Normalises the author (`Last, First` to `First Last`) and the title
    /// (first character in upper case); other fields stay as they are.
    pub fn normalize(&self, metadata: &mut Metadata)
        requires
            title_normalizable(*old(metadata)),
        ensures
            final(metadata).author.deep_view() == match old(metadata).author {
                Some(a) => Some(normalized_author(a@)),
                None => None,
            },
            final(metadata).title.deep_view() == match old(metadata).title {
                Some(t) => Some(normalized_title(t@)),
                None => None,
            },
            final(metadata).narrator == old(metadata).narrator,
            final(metadata).series == old(metadata).series,
            final(metadata).series_index == old(metadata).series_index,
            final(metadata).disc_number == old(metadata).disc_number,
            final(metadata).track_number == old(metadata).track_number,
            final(metadata).year == old(metadata).year,
            final(metadata).publisher == old(metadata).publisher,
            final(metadata).isbn == old(metadata).isbn,
            final(metadata).language == old(metadata).language,
            final(metadata).tags == old(metadata).tags,
            final(metadata).cover == old(metadata).cover,
            final(metadata).bitrate == old(metadata).bitrate,
            final(metadata).duration == old(metadata).duration,
            final(metadata).chapters == old(metadata).chapters,
    {
        let new_author = match &metadata.author {
            Some(author) => Some(string_of(&normalize_author_chars(&chars_of(author.as_str())))),
            None => None,
        };
        let new_title = match &metadata.title {
            Some(title) => {
                let t = chars_of(title.as_str());
                let mut r: Vec<char> = Vec::new();
                if t.len() > 0 {
                    r.push(upper_ascii(t[0]));
                    let rest = slice_of(&t, 1, t.len());
                    push_all(&mut r, &rest);
                    assert(r@ =~= seq![ascii_upper(t@[0])] + t@.drop_first());
                } else {
                    assert(r@ =~= t@);
                }
                Some(string_of(&r))
            },
            None => None,
        };
        if new_author.is_some() {
            metadata.author = new_author;
        }
        if new_title.is_some() {
            metadata.title = new_title;
        }
    }
}

fn normalize_author_chars(a: &Vec<char>) -> (r: Vec<char>)
    ensures
        r@ == normalized_author(a@),
{
    let mut comma: Vec<char> = Vec::new();
    comma.push(',');
    assert(comma@ =~= seq![',']);
    let n = if crate::text::ends_with_vec(a, &comma) {
        slice_of(a, 0, a.len() - 1)
    } else {
        slice_of(a, 0, a.len())
    };
    assert(n@ =~= if ends_with(a@, seq![',']) {
        a@.drop_last()
    } else {
        a@
    });
    match find_vec(&n, &comma) {
        Some(pos) => {
            proof {
                lemma_find_props(n@, comma@);
                assert(occurs_at(n@, comma@, pos as int));
            }
            let last = trim_vec(&slice_of(&n, 0, pos));
            let first = trim_vec(&slice_of(&n, pos + 1, n.len()));
            proof {
                assert(n@.subrange(0, pos as int) =~= n@.take(pos as int));
                assert(n@.subrange(pos + 1, n@.len() as int) =~= n@.skip(pos + 1));
            }
            if first.len() > 0 && last.len() > 0 {
                let mut r = first;
                r.push(' ');
                push_all(&mut r, &last);
                r
            } else {
                n
            }
        },
        None => n,
    }
}

} // verus!
