//! Merging of MP3 chapter files into one M4B audiobook with ffmpeg: the
//! checks, names, concat list and command line.
use crate::paths::{path_extension, path_join};
use crate::text::{chars_of, decimal, decimal_vec, push_all, replace, replace_vec, string_of, string_views};
use crate::types::BookFile;
use vstd::prelude::*;
use vstd::string::StringExecFns;

verus! {

/// Merges chapter files.
pub struct Merger {
    pub mode: MergeMode,
    pub bitrate: u32,
}

/// Copy the audio stream as it is, or encode it as AAC.
#[derive(Debug, Clone, Copy, PartialEq, Eq, Structural)]
pub enum MergeMode {
    Copy,
    Encode,
}

/// Why a merge cannot start.
#[derive(Debug, Clone, Copy, PartialEq, Eq, Structural)]
pub enum MergeInputError {
    /// No MP3 file was found.
    NoMp3Files,
    /// Fewer than two MP3 files were found (the count).
    TooFewMp3Files(usize),
}

/// How a merge that may start goes on.
#[derive(Debug, Clone, Copy, PartialEq, Eq, Structural)]
pub enum MergeStart {
    /// The output already exists: it is the result, and nothing is merged.
    UseExisting,
    /// Run ffmpeg.
    Run,
}

/// Why a finished merge is rejected.
#[derive(Debug, Clone, Copy, PartialEq, Eq, Structural)]
pub enum MergeOutputError {
    /// The output file was not created.
    NotCreated,
    /// The output file is empty; it is removed.
    Empty,
}

/// The title under which a file's audiobook is merged: its cleaned name, or
/// else its name, without `.mp3` and then without `.m4b`.
pub open spec fn merge_title_of(file: BookFile) -> Seq<char> {
    let name = match file.cleaned_name {
        Some(c) => c@,
        None => file.name@,
    };
    replace(replace(name, ".mp3"@, ""@), ".m4b"@, ""@)
}

/// The title under which a file's audiobook is merged (`merge_title_of`).
pub fn merge_title(file: &BookFile) -> (r: String)
    ensures
        r@ == merge_title_of(*file),
{
    let name = match &file.cleaned_name {
        Some(c) => chars_of(c.as_str()),
        None => chars_of(file.name.as_str()),
    };
    let empty: Vec<char> = Vec::new();
    proof {
        reveal_strlit(".mp3");
        reveal_strlit(".m4b");
        reveal_strlit("");
    }
    assert(empty@ =~= ""@);
    let mp3 = chars_of(".mp3");
    let m4b = chars_of(".m4b");
    let t = replace_vec(&name, &mp3, &empty);
    let t = replace_vec(&t, &m4b, &empty);
    string_of(&t)
}

/// The ffmpeg arguments for a merge.
pub open spec fn ffmpeg_args(mode: MergeMode, bitrate: u32, concat_file: Seq<char>, output: Seq<char>) -> Seq<Seq<char>> {
    let head = seq!["-f"@, "concat"@, "-safe"@, "0"@, "-i"@, concat_file, "-vn"@];
    let codec = match mode {
        MergeMode::Copy => seq!["-c:a"@, "copy"@],
        MergeMode::Encode => seq!["-c:a"@, "aac"@, "-b:a"@, decimal(bitrate as nat) + seq!['k']],
    };
    head + codec + seq!["-movflags"@, "+faststart"@, "-map_metadata"@, "-1"@, output]
}

/// One line of an ffmpeg concat list: `file '<path>'` with each `'` of the
/// path written as `'\''`.
pub open spec fn concat_line(path: Seq<char>) -> Seq<char> {
    "file '"@ + replace(path, seq!['\''], "'\\''"@) + "'\n"@
}

/// The concat list of the files, one line each.
pub open spec fn concat_list(paths: Seq<Seq<char>>) -> Seq<char>
    decreases paths.len(),
{
    if paths.len() == 0 {
        Seq::empty()
    } else {
        concat_list(paths.drop_last()) + concat_line(paths.last())
    }
}

/// Whether an extension reads `mp3` ignoring ASCII case.
pub open spec fn is_mp3_ext(e: Seq<char>) -> bool {
    &&& e.len() == 3
    &&& (e[0] == 'm' || e[0] == 'M')
    &&& (e[1] == 'p' || e[1] == 'P')
    &&& e[2] == '3'
}

/// Whether an extension reads `mp3` ignoring ASCII case (`is_mp3_ext`).
pub fn ext_is_mp3(e: &str) -> (b: bool)
    ensures
        b == is_mp3_ext(e@),
{
    let v = chars_of(e);
    v.len() == 3 && (v[0] == 'm' || v[0] == 'M') && (v[1] == 'p' || v[1] == 'P') && v[2] == '3'
}

fn push_string(v: &mut Vec<String>, s: String)
    ensures
        string_views(final(v)@) == string_views(old(v)@).push(s@),
{
    v.push(s);
    assert(string_views(v@) =~= string_views(old(v)@).push(s@));
}

fn push_str(v: &mut Vec<String>, s: &str)
    ensures
        string_views(final(v)@) == string_views(old(v)@).push(s@),
{
    push_string(v, String::from_str(s));
}

impl Default for Merger {
    fn default() -> (r: Self)
        ensures
            r.mode == MergeMode::Encode,
            r.bitrate == 128,
    {
        Merger::new()
    }
}

impl Merger {
    /// A merger that encodes AAC at 128 kbit/s.
    pub fn new() -> (r: Self)
        ensures
            r.mode == MergeMode::Encode,
            r.bitrate == 128,
    {
        Merger { mode: MergeMode::Encode, bitrate: 128 }
    }

    /// Whether `found` MP3 files are enough for a merge: at least two.
    pub fn check_input_count(&self, found: usize) -> (r: Result<(), MergeInputError>)
        ensures
            found == 0 ==> r == Err::<(), MergeInputError>(MergeInputError::NoMp3Files),
            found == 1 ==> r == Err::<(), MergeInputError>(MergeInputError::TooFewMp3Files(1)),
            found >= 2 ==> r is Ok,
    {
        if found == 0 {
            return Err(MergeInputError::NoMp3Files);
        }
        if found < 2 {
            return Err(MergeInputError::TooFewMp3Files(found));
        }
        Ok(())
    }

    /// How a merge goes on once its inputs are enough: an output that
    /// already exists is kept as the result, else ffmpeg runs.
    pub fn start(&self, output_exists: bool) -> (m: MergeStart)
        ensures
            m == if output_exists {
                MergeStart::UseExisting
            } else {
                MergeStart::Run
            },
    {
        if output_exists {
            MergeStart::UseExisting
        } else {
            MergeStart::Run
        }
    }

    /// Whether a finished merge produced its output: it must exist and be
    /// non-empty.
    pub fn check_output(&self, exists: bool, size: u64) -> (r: Result<(), MergeOutputError>)
        ensures
            !exists ==> r == Err::<(), MergeOutputError>(MergeOutputError::NotCreated),
            exists && size == 0 ==> r == Err::<(), MergeOutputError>(MergeOutputError::Empty),
            exists && size > 0 ==> r is Ok,
    {
        if !exists {
            Err(MergeOutputError::NotCreated)
        } else if size == 0 {
            Err(MergeOutputError::Empty)
        } else {
            Ok(())
        }
    }

    /// Whether the file at `path` has the extension `mp3`, in any ASCII case.
    pub fn is_mp3_path(&self, path: &str) -> (b: bool)
        ensures
            b == match path_extension(path@) {
                Some(e) => is_mp3_ext(e),
                None => false,
            },
    {
        match crate::paths::extension(path) {
            Some(e) => ext_is_mp3(e.as_str()),
            None => false,
        }
    }

    /// The merged audiobook's path: `<output_dir>/<output_name>.m4b`.
    pub fn output_path(&self, output_dir: &str, output_name: &str) -> (r: String)
        ensures
            r@ == path_join(output_dir@, output_name@ + ".m4b"@),
    {
        let mut name = chars_of(output_name);
        push_all(&mut name, &chars_of(".m4b"));
        crate::paths::join(output_dir, string_of(&name).as_str())
    }

    /// A fresh name for the concat list in `input_dir`:
    /// `<input_dir>/.concat_<random id>.txt`.
    pub fn concat_file_path(&self, input_dir: &str) -> (r: String)
        ensures
            exists|id: Seq<char>| r@ == path_join(input_dir@, ".concat_"@ + id + ".txt"@),
    {
        let id = crate::ids::new_uuid();
        let mut name = chars_of(".concat_");
        push_all(&mut name, &chars_of(id.as_str()));
        push_all(&mut name, &chars_of(".txt"));
        let r = crate::paths::join(input_dir, string_of(&name).as_str());
        assert(r@ == path_join(input_dir@, ".concat_"@ + id@ + ".txt"@));
        r
    }

    /// The ffmpeg concat list naming the files in order.
    pub fn concat_list(&self, mp3s: &Vec<String>) -> (r: String)
        ensures
            r@ == concat_list(string_views(mp3s@)),
    {
        let mut out: Vec<char> = Vec::new();
        let mut quote: Vec<char> = Vec::new();
        quote.push('\'');
        assert(quote@ =~= seq!['\'']);
        let escaped_quote = chars_of("'\\''");
        let mut i: usize = 0;
        while i < mp3s.len()
            invariant
                i <= mp3s.len(),
                quote@ == seq!['\''],
                escaped_quote@ == "'\\''"@,
                out@ == concat_list(string_views(mp3s@).take(i as int)),
            decreases mp3s.len() - i,
        {
            push_all(&mut out, &chars_of("file '"));
            let p = chars_of(mp3s[i].as_str());
            push_all(&mut out, &replace_vec(&p, &quote, &escaped_quote));
            push_all(&mut out, &chars_of("'\n"));
            proof {
                let ps = string_views(mp3s@);
                assert(ps.take(i + 1).drop_last() =~= ps.take(i as int));
                assert(ps.take(i + 1).last() == mp3s@[i as int]@);
            }
            assert(out@ =~= concat_list(string_views(mp3s@).take(i + 1)));
            i += 1;
        }
        assert(string_views(mp3s@).take(mp3s.len() as int) =~= string_views(mp3s@));
        string_of(&out)
    }

    /// The ffmpeg arguments that concatenate the files listed in
    /// `concat_file` into `output`, without video or metadata.
    pub fn build_ffmpeg_args(&self, concat_file: &str, output: &str) -> (r: Vec<String>)
        ensures
            string_views(r@) == ffmpeg_args(self.mode, self.bitrate, concat_file@, output@),
    {
        let mut args: Vec<String> = Vec::new();
        push_str(&mut args, "-f");
        push_str(&mut args, "concat");
        push_str(&mut args, "-safe");
        push_str(&mut args, "0");
        push_str(&mut args, "-i");
        push_str(&mut args, concat_file);
        push_str(&mut args, "-vn");
        let ghost head = string_views(args@);
        assert(head =~= seq!["-f"@, "concat"@, "-safe"@, "0"@, "-i"@, concat_file@, "-vn"@]);
        match self.mode {
            MergeMode::Copy => {
                push_str(&mut args, "-c:a");
                push_str(&mut args, "copy");
            },
            MergeMode::Encode => {
                push_str(&mut args, "-c:a");
                push_str(&mut args, "aac");
                push_str(&mut args, "-b:a");
                let mut rate = decimal_vec(self.bitrate as u64);
                rate.push('k');
                assert(rate@ =~= decimal(self.bitrate as nat) + seq!['k']);
                push_string(&mut args, string_of(&rate));
            },
        }
        let ghost mid = string_views(args@);
        assert(mid =~= head + match self.mode {
            MergeMode::Copy => seq!["-c:a"@, "copy"@],
            MergeMode::Encode => seq!["-c:a"@, "aac"@, "-b:a"@, decimal(self.bitrate as nat) + seq!['k']],
        });
        push_str(&mut args, "-movflags");
        push_str(&mut args, "+faststart");
        push_str(&mut args, "-map_metadata");
        push_str(&mut args, "-1");
        push_str(&mut args, output);
        assert(string_views(args@) =~= ffmpeg_args(self.mode, self.bitrate, concat_file@, output@));
        args
    }
}

} // verus!
