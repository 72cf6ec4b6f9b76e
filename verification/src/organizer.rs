//! Where organised files go, and what organising does with each file.
use crate::paths::{
    or_empty, path_extension, path_file_name, path_file_stem, path_join, path_parent,
};
use crate::text::{
    chars_of, contains, contains_vec, decimal, decimal_vec, push_all, replace, replace_vec, same_str,
    string_of,
};
use crate::types::{BookFile, FileStatus, FileType};
use vstd::prelude::*;
use vstd::string::StringExecFns;

verus! {

/// Copies book files into a tidy directory structure.
pub struct Organizer {
    pub output_dir: String,
    pub structure: OrganizationStructure,
    pub move_files: bool,
    pub handle_duplicates: DuplicateHandling,
    pub dry_run: bool,
    pub verify: bool,
}

#[derive(Debug, Clone, Copy, PartialEq, Eq, Structural)]
pub enum OrganizationStructure {
    AuthorTitle,
    AuthorSeriesTitle,
    Title,
}

/// What to do when the destination already exists.
#[derive(Debug, Clone, Copy, PartialEq, Eq, Structural)]
pub enum DuplicateHandling {
    Rename,
    Skip,
    Overwrite,
}

/// What organising does with one file.
#[derive(Debug, Clone, Copy, PartialEq, Eq, Structural)]
pub enum Placement {
    /// Leave the file alone and list nothing.
    Ignore,
    /// The source is missing: mark the file failed.
    MarkFailed,
    /// Dry run: list the destination (a free name beside it when `rename`)
    /// without copying.
    Report { rename: bool },
    /// Copy the file to its destination (a free name beside it when
    /// `rename`), removing an existing destination first when
    /// `replace_existing`, then list it.
    Copy { rename: bool, replace_existing: bool },
}

/// A step of copying a file into place that failed.
#[derive(Debug, Clone, Copy, PartialEq, Eq, Structural)]
pub enum CopyFailure {
    /// Copying the source to the temporary file failed.
    CopyFailed,
    /// The temporary file is missing after the copy.
    TempMissing,
    /// Renaming the temporary file to the destination failed.
    RenameFailed,
    /// The destination is missing after the rename.
    DestMissing,
    /// The destination is empty after the rename.
    DestEmpty,
    /// The destination's content hash differs from the source's.
    HashMismatch,
}

/// What to remove after a failed copy step.
#[derive(Debug, Clone, Copy, PartialEq, Eq, Structural)]
pub struct Cleanup {
    /// Remove the temporary file.
    pub remove_temp: bool,
    /// Remove the destination.
    pub remove_dest: bool,
}

/// Whether a failed step may leave the temporary file behind: a copy that
/// failed part way, or a rename that did not happen.
pub open spec fn leaves_temp(f: CopyFailure) -> bool {
    f == CopyFailure::CopyFailed || f == CopyFailure::RenameFailed
}

/// Whether a failed step leaves a destination that is not a true copy of
/// the source: empty, or with another content hash.
pub open spec fn leaves_bad_copy(f: CopyFailure) -> bool {
    f == CopyFailure::DestEmpty || f == CopyFailure::HashMismatch
}

/// Extensions removed from a title before the file's own is appended.
pub open spec fn strip_known_exts(t: Seq<char>) -> Seq<char> {
    replace(
        replace(
            replace(
                replace(replace(replace(t, ".epub"@, ""@), ".pdf"@, ""@), ".mobi"@, ""@),
                ".azw3"@,
                ""@,
            ),
            ".m4b"@,
            ""@,
        ),
        ".mp3"@,
        ""@,
    )
}

/// A free name tried for `path` when it is taken:
/// `<parent>/<stem>_<counter>.<ext>`.
pub open spec fn duplicate_name(path: Seq<char>, counter: nat) -> Seq<char> {
    path_join(
        or_empty(path_parent(path)),
        or_empty(path_file_stem(path)) + seq!['_'] + decimal(counter) + seq!['.'] + or_empty(
            path_extension(path),
        ),
    )
}

fn nonempty(lit: &str) -> (v: Vec<char>)
    requires
        lit@.len() > 0,
    ensures
        v@ == lit@,
        v.len() > 0,
{
    chars_of(lit)
}

/// Whether the organised path `p` is the one of a file named `name`: its
/// file name holds `name` without `.m4b`.
pub open spec fn names_file(p: Seq<char>, name: Seq<char>) -> bool {
    match path_file_name(p) {
        Some(n) => contains(n, replace(name, ".m4b"@, ""@)),
        None => false,
    }
}

/// The position of the first organised path of the file named `name`.
pub fn organized_path_for(organized: &Vec<String>, name: &str) -> (r: Option<usize>)
    ensures
        match r {
            Some(k) => k < organized@.len() && names_file(organized@[k as int]@, name@) && forall|j: int|
                0 <= j < k ==> !names_file(#[trigger] organized@[j]@, name@),
            None => forall|j: int| 0 <= j < organized@.len() ==> !names_file(#[trigger] organized@[j]@, name@),
        },
{
    let empty: Vec<char> = Vec::new();
    proof {
        reveal_strlit(".m4b");
        reveal_strlit("");
    }
    assert(empty@ =~= ""@);
    let needle = replace_vec(&chars_of(name), &nonempty(".m4b"), &empty);
    let mut k: usize = 0;
    while k < organized.len()
        invariant
            k <= organized@.len(),
            needle@ == replace(name@, ".m4b"@, ""@),
            forall|j: int| 0 <= j < k ==> !names_file(#[trigger] organized@[j]@, name@),
        decreases organized@.len() - k,
    {
        let found = match crate::paths::file_name(organized[k].as_str()) {
            Some(n) => contains_vec(&chars_of(n.as_str()), &needle),
            None => false,
        };
        if found {
            return Some(k);
        }
        k += 1;
    }
    None
}

impl Organizer {
    /// The author folder of a file: its metadata's author, else `Unknown Author`.
    pub open spec fn author_of(file: BookFile) -> Seq<char> {
        match file.metadata {
            Some(m) => match m.author {
                Some(a) => a@,
                None => "Unknown Author"@,
            },
            None => "Unknown Author"@,
        }
    }

    /// The series folder of a file: its metadata's series, else `Unknown Series`.
    pub open spec fn series_of(file: BookFile) -> Seq<char> {
        match file.metadata {
            Some(m) => match m.series {
                Some(s) => s@,
                None => "Unknown Series"@,
            },
            None => "Unknown Series"@,
        }
    }

    /// The title of a file: its metadata's title, else its name.
    pub open spec fn title_of(file: BookFile) -> Seq<char> {
        match file.metadata {
            Some(m) => match m.title {
                Some(t) => t@,
                None => file.name@,
            },
            None => file.name@,
        }
    }

    /// The destination file name: the title without known book extensions,
    /// then `.` and the file's extension.
    pub open spec fn dest_file_name(file: BookFile) -> Seq<char> {
        strip_known_exts(Self::title_of(file)) + seq!['.'] + file.ext@
    }

    /// Where the file goes under the output directory.
    pub open spec fn destination(self, file: BookFile) -> Seq<char> {
        let name = Self::dest_file_name(file);
        match self.structure {
            OrganizationStructure::AuthorTitle => path_join(
                path_join(self.output_dir@, Self::author_of(file)),
                name,
            ),
            OrganizationStructure::AuthorSeriesTitle => path_join(
                path_join(path_join(self.output_dir@, Self::author_of(file)), Self::series_of(file)),
                name,
            ),
            OrganizationStructure::Title => path_join(self.output_dir@, name),
        }
    }

    /// What organising does with a file of the given type, given whether its
    /// source and its destination exist.
    pub open spec fn placement_for(self, file_type: FileType, source_exists: bool, dest_exists: bool) -> Placement {
        if file_type == FileType::Junk {
            Placement::Ignore
        } else if !source_exists {
            Placement::MarkFailed
        } else if dest_exists {
            match self.handle_duplicates {
                DuplicateHandling::Rename => if self.dry_run {
                    Placement::Report { rename: true }
                } else {
                    Placement::Copy { rename: true, replace_existing: false }
                },
                DuplicateHandling::Skip => Placement::Ignore,
                DuplicateHandling::Overwrite => if self.dry_run {
                    Placement::Report { rename: false }
                } else {
                    Placement::Copy { rename: false, replace_existing: true }
                },
            }
        } else if self.dry_run {
            Placement::Report { rename: false }
        } else {
            Placement::Copy { rename: false, replace_existing: false }
        }
    }

    /// An organiser into `output_dir`: author/title folders, copying,
    /// renaming on name clashes, verifying copies.
    pub fn new(output_dir: String) -> (r: Self)
        ensures
            r.output_dir == output_dir,
            r.structure == OrganizationStructure::AuthorTitle,
            !r.move_files,
            r.handle_duplicates == DuplicateHandling::Rename,
            !r.dry_run,
            r.verify,
    {
        Organizer {
            output_dir,
            structure: OrganizationStructure::AuthorTitle,
            move_files: false,
            handle_duplicates: DuplicateHandling::Rename,
            dry_run: false,
            verify: true,
        }
    }

    /// Where the file goes.
    pub fn destination_path(&self, file: &BookFile) -> (r: String)
        ensures
            r@ == self.destination(*file),
    {
        let author: String = match &file.metadata {
            Some(m) => match &m.author {
                Some(a) => a.clone(),
                None => String::from_str("Unknown Author"),
            },
            None => String::from_str("Unknown Author"),
        };
        let title: String = match &file.metadata {
            Some(m) => match &m.title {
                Some(t) => t.clone(),
                None => file.name.clone(),
            },
            None => file.name.clone(),
        };
        let empty: Vec<char> = Vec::new();
        let mut t = chars_of(title.as_str());
        proof {
            reveal_strlit(".epub");
            reveal_strlit(".pdf");
            reveal_strlit(".mobi");
            reveal_strlit(".azw3");
            reveal_strlit(".m4b");
            reveal_strlit(".mp3");
            reveal_strlit("");
        }
        assert(empty@ =~= ""@);
        t = replace_vec(&t, &nonempty(".epub"), &empty);
        t = replace_vec(&t, &nonempty(".pdf"), &empty);
        t = replace_vec(&t, &nonempty(".mobi"), &empty);
        t = replace_vec(&t, &nonempty(".azw3"), &empty);
        t = replace_vec(&t, &nonempty(".m4b"), &empty);
        t = replace_vec(&t, &nonempty(".mp3"), &empty);
        assert(t@ == strip_known_exts(Self::title_of(*file)));
        t.push('.');
        push_all(&mut t, &chars_of(file.ext.as_str()));
        assert(t@ =~= Self::dest_file_name(*file));
        assert(author@ == Self::author_of(*file));
        let filename = string_of(&t);
        match self.structure {
            OrganizationStructure::AuthorTitle => {
                let dir = crate::paths::join(self.output_dir.as_str(), author.as_str());
                crate::paths::join(dir.as_str(), filename.as_str())
            },
            OrganizationStructure::AuthorSeriesTitle => {
                let series: String = match &file.metadata {
                    Some(m) => match &m.series {
                        Some(s) => s.clone(),
                        None => String::from_str("Unknown Series"),
                    },
                    None => String::from_str("Unknown Series"),
                };
                let dir = crate::paths::join(self.output_dir.as_str(), author.as_str());
                let dir = crate::paths::join(dir.as_str(), series.as_str());
                crate::paths::join(dir.as_str(), filename.as_str())
            },
            OrganizationStructure::Title => crate::paths::join(
                self.output_dir.as_str(),
                filename.as_str(),
            ),
        }
    }

    /// What organising does with a file of the given type, given whether its
    /// source and its destination exist.
    pub fn placement(&self, file_type: FileType, source_exists: bool, dest_exists: bool) -> (p: Placement)
        ensures
            p == self.placement_for(file_type, source_exists, dest_exists),
    {
        if file_type == FileType::Junk {
            Placement::Ignore
        } else if !source_exists {
            Placement::MarkFailed
        } else if dest_exists {
            match self.handle_duplicates {
                DuplicateHandling::Rename => if self.dry_run {
                    Placement::Report { rename: true }
                } else {
                    Placement::Copy { rename: true, replace_existing: false }
                },
                DuplicateHandling::Skip => Placement::Ignore,
                DuplicateHandling::Overwrite => if self.dry_run {
                    Placement::Report { rename: false }
                } else {
                    Placement::Copy { rename: false, replace_existing: true }
                },
            }
        } else if self.dry_run {
            Placement::Report { rename: false }
        } else {
            Placement::Copy { rename: false, replace_existing: false }
        }
    }

    /// The status of a file once copied: verified when copies are verified.
    pub fn copied_status(&self) -> (s: FileStatus)
        ensures
            s == if self.verify {
                FileStatus::Verified
            } else {
                FileStatus::Organized
            },
    {
        if self.verify {
            FileStatus::Verified
        } else {
            FileStatus::Organized
        }
    }

    /// A fresh name for the temporary copy beside `dest`:
    /// `<folder of dest>/.tmp_<random id>`; `None` when `dest` has no folder.
    pub fn temp_copy_path(&self, dest: &str) -> (r: Option<String>)
        ensures
            r is None <==> path_parent(dest@) is None,
            r matches Some(t) ==> exists|id: Seq<char>|
                t@ == path_join(or_empty(path_parent(dest@)), ".tmp_"@ + id),
    {
        match crate::paths::parent(dest) {
            None => None,
            Some(dir) => {
                let id = crate::ids::new_uuid();
                let mut name = chars_of(".tmp_");
                push_all(&mut name, &chars_of(id.as_str()));
                let r = crate::paths::join(dir.as_str(), string_of(&name).as_str());
                assert(r@ == path_join(or_empty(path_parent(dest@)), ".tmp_"@ + id@));
                Some(r)
            },
        }
    }

    /// Checks a copy by the content hashes of its source and destination:
    /// `Ok` when they are equal, else `Hash mismatch: <src> != <dst>`.
    pub fn verify_copy(&self, src_hash: &str, dst_hash: &str) -> (r: Result<(), String>)
        ensures
            r is Ok <==> src_hash@ == dst_hash@,
            r matches Err(e) ==> e@ == "Hash mismatch: "@ + src_hash@ + " != "@ + dst_hash@,
    {
        if same_str(src_hash, dst_hash) {
            Ok(())
        } else {
            let mut msg = chars_of("Hash mismatch: ");
            push_all(&mut msg, &chars_of(src_hash));
            push_all(&mut msg, &chars_of(" != "));
            push_all(&mut msg, &chars_of(dst_hash));
            Err(string_of(&msg))
        }
    }

    /// What to remove after a failed copy step, so that no temporary file
    /// and no empty or corrupted copy is left: the temporary file when the
    /// step may have left it, the destination when it is no true copy.
    pub fn cleanup_after(&self, failure: CopyFailure) -> (c: Cleanup)
        ensures
            c.remove_temp == leaves_temp(failure),
            c.remove_dest == leaves_bad_copy(failure),
    {
        match failure {
            CopyFailure::CopyFailed | CopyFailure::RenameFailed => Cleanup {
                remove_temp: true,
                remove_dest: false,
            },
            CopyFailure::DestEmpty | CopyFailure::HashMismatch => Cleanup {
                remove_temp: false,
                remove_dest: true,
            },
            CopyFailure::TempMissing | CopyFailure::DestMissing => Cleanup {
                remove_temp: false,
                remove_dest: false,
            },
        }
    }

    /// The status of a file after organising placed it as `p`: failed when
    /// its source is missing, the copied status once copied, else unchanged.
    pub open spec fn status_after_spec(self, current: FileStatus, p: Placement) -> FileStatus {
        match p {
            Placement::MarkFailed => FileStatus::Failed,
            Placement::Copy { .. } => if self.verify {
                FileStatus::Verified
            } else {
                FileStatus::Organized
            },
            _ => current,
        }
    }

    /// The status of a file after organising placed it as `p` (once a copy,
    /// if any, succeeded).
    pub fn status_after(&self, current: FileStatus, p: Placement) -> (s: FileStatus)
        ensures
            s == self.status_after_spec(current, p),
    {
        match p {
            Placement::MarkFailed => FileStatus::Failed,
            Placement::Copy { .. } => self.copied_status(),
            _ => current,
        }
    }

    /// The `counter`-th free name tried for a taken destination `path`.
    pub fn duplicate_candidate(&self, path: &str, counter: u64) -> (r: String)
        ensures
            r@ == duplicate_name(path@, counter as nat),
    {
        let stem = crate::paths::unwrap_or_empty(crate::paths::file_stem(path));
        let ext = crate::paths::unwrap_or_empty(crate::paths::extension(path));
        let parent = crate::paths::unwrap_or_empty(crate::paths::parent(path));
        let mut name = chars_of(stem.as_str());
        name.push('_');
        push_all(&mut name, &decimal_vec(counter));
        name.push('.');
        push_all(&mut name, &chars_of(ext.as_str()));
        assert(name@ =~= stem@ + seq!['_'] + decimal(counter as nat) + seq!['.'] + ext@);
        let name = string_of(&name);
        crate::paths::join(parent.as_str(), name.as_str())
    }
}

} // verus!
