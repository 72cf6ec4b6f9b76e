//! Grouping of scanned files into book units: the MP3 chapters of one folder
//! form one audiobook, every other file is a unit of its own.
use crate::grouping::{
    first_keys, group_indices, ints, lemma_members_increasing, lemma_members_valid, members,
};
use crate::hashing::{blake3_hex, hash_bytes};
use crate::merger::{ext_is_mp3, is_mp3_ext};
use crate::paths::{lowercase, or_empty, path_extension, path_file_name, path_parent};
use crate::text::{chars_of, clone_opt, same_str, string_views};
use crate::types::{BookStatus, BookUnit, FileType};
use vstd::prelude::*;

verus! {

/// Builds book units from file lists.
pub struct UnitBuilder {
    pub min_mp3s: usize,
    pub max_depth: usize,
}

/// How one unit is made: from the MP3 files (by index) of a folder, or from
/// one file (by index).
pub enum UnitPlan {
    Audio(Seq<char>, Seq<int>),
    Single(int),
}

/// Whether an optional extension reads `mp3` ignoring ASCII case.
pub open spec fn mp3_ext(e: Option<Seq<char>>) -> bool {
    match e {
        Some(x) => is_mp3_ext(x),
        None => false,
    }
}

/// For each file, the folder by which it is grouped: its parent, when its
/// extension is `mp3` in any ASCII case.
pub open spec fn mp3_dir_keys(files: Seq<Seq<char>>) -> Seq<Option<Seq<char>>> {
    Seq::new(
        files.len(),
        |i: int|
            if mp3_ext(path_extension(files[i])) {
                path_parent(files[i])
            } else {
                None
            },
    )
}

/// The units of the files that have an extension other than `mp3` (in any
/// ASCII case), in order.
pub open spec fn other_plans(files: Seq<Seq<char>>) -> Seq<UnitPlan>
    decreases files.len(),
{
    if files.len() == 0 {
        Seq::empty()
    } else {
        let prev = other_plans(files.drop_last());
        match path_extension(files.last()) {
            Some(e) => if !is_mp3_ext(e) {
                prev.push(UnitPlan::Single(files.len() - 1))
            } else {
                prev
            },
            None => prev,
        }
    }
}

/// Single-file units of the given files.
pub open spec fn singles(idx: Seq<int>) -> Seq<UnitPlan> {
    idx.map_values(|j: int| UnitPlan::Single(j))
}

/// The bytes hashed for an audiobook: the hexadecimal hashes of its files
/// that have one, in order, as UTF-8.
pub open spec fn joined_hash_bytes(idx: Seq<int>, hashes: Seq<Option<Seq<char>>>) -> Seq<u8>
    decreases idx.len(),
{
    if idx.len() == 0 {
        Seq::empty()
    } else {
        joined_hash_bytes(idx.drop_last(), hashes) + match hashes[idx.last()] {
            Some(h) => vstd::utf8::encode_utf8(h),
            None => Seq::empty(),
        }
    }
}

/// The unit type of a lowercased extension.
pub open spec fn unit_type_for_ext(ext: Seq<char>) -> FileType {
    if ext == "mp3"@ || ext == "m4a"@ || ext == "m4b"@ || ext == "flac"@ {
        FileType::Audio
    } else if ext == "epub"@ || ext == "pdf"@ || ext == "mobi"@ || ext == "azw3"@ {
        FileType::Ebook
    } else if ext == "cbz"@ || ext == "cbr"@ {
        FileType::Comic
    } else {
        FileType::Unknown
    }
}

/// Each unit is the one that the plan at its position describes.
pub open spec fn realizes_all(us: Seq<BookUnit>, ps: Seq<UnitPlan>, files: Seq<Seq<char>>, hashes: Seq<Option<Seq<char>>>) -> bool {
    &&& us.len() == ps.len()
    &&& forall|k: int| 0 <= k < us.len() ==> realizes(#[trigger] us[k], ps[k], files, hashes)
}

/// `u` is the unit that `p` describes; its id is free.
pub open spec fn realizes(u: BookUnit, p: UnitPlan, files: Seq<Seq<char>>, hashes: Seq<Option<Seq<char>>>) -> bool {
    &&& u.author is None
    &&& u.series is None
    &&& u.merged_output is None
    &&& u.status == BookStatus::Discovered
    &&& u.metadata is None
    &&& match p {
        UnitPlan::Audio(dir, idx) => {
            &&& u.title.deep_view() == Some(or_empty(path_file_name(dir)))
            &&& string_views(u.source_files@) == idx.map_values(|j: int| files[j])
            &&& u.file_type == FileType::Audio
            &&& u.work_hash.deep_view() == Some(blake3_hex(joined_hash_bytes(idx, hashes)))
        },
        UnitPlan::Single(i) => {
            &&& u.title.deep_view() == Some(or_empty(path_file_name(files[i])))
            &&& string_views(u.source_files@) == seq![files[i]]
            &&& u.file_type == unit_type_for_ext(lowercase(or_empty(path_extension(files[i]))))
            &&& u.work_hash.deep_view() == hashes[i]
        },
    }
}

/// Whether plan `p` puts file `i` in its unit.
pub open spec fn covers(p: UnitPlan, i: int) -> bool {
    match p {
        UnitPlan::Audio(_, idx) => idx.contains(i),
        UnitPlan::Single(j) => j == i,
    }
}

/// Whether a file is put in some unit: it has an extension, and an MP3
/// file also a folder.
pub open spec fn unit_eligible(f: Seq<char>) -> bool {
    match path_extension(f) {
        Some(e) => !is_mp3_ext(e) || path_parent(f) is Some,
        None => false,
    }
}

/// Plan `p` is well made for `files`: an audiobook of at least `min_mp3s`
/// MP3 files of its folder, or a single file with an extension.
pub open spec fn sound_plan(min_mp3s: usize, files: Seq<Seq<char>>, p: UnitPlan) -> bool {
    match p {
        UnitPlan::Audio(dir, idx) => {
            &&& idx.len() >= min_mp3s
            &&& forall|j: int|
                0 <= j < idx.len() ==> 0 <= #[trigger] idx[j] < files.len() && mp3_dir_keys(files)[idx[j]]
                    == Some(dir)
        },
        UnitPlan::Single(i) => 0 <= i < files.len() && unit_eligible(files[i]),
    }
}

/// Whether a file has an extension other than `mp3` (in any ASCII case).
pub open spec fn non_mp3(f: Seq<char>) -> bool {
    match path_extension(f) {
        Some(e) => !is_mp3_ext(e),
        None => false,
    }
}

/// A single-file plan of a file with an extension other than `mp3` (in any
/// ASCII case).
pub open spec fn other_plan_ok(files: Seq<Seq<char>>, p: UnitPlan) -> bool {
    match p {
        UnitPlan::Single(i) => 0 <= i < files.len() && non_mp3(files[i]),
        _ => false,
    }
}

/// The plans of other files are sound, and list every file with an
/// extension other than `mp3` (in any ASCII case).
pub proof fn lemma_other_plans(files: Seq<Seq<char>>)
    ensures
        forall|k: int| 0 <= k < other_plans(files).len() ==> other_plan_ok(files, #[trigger] other_plans(files)[k]),
        forall|i: int|
            0 <= i < files.len() && non_mp3(#[trigger] files[i]) ==> other_plans(files).contains(UnitPlan::Single(i)),
    decreases files.len(),
{
    if files.len() > 0 {
        let init = files.drop_last();
        lemma_other_plans(init);
        let prev = other_plans(init);
        let cur = other_plans(files);
        assert forall|k: int| 0 <= k < cur.len() implies other_plan_ok(files, #[trigger] cur[k]) by {
            if k < prev.len() {
                assert(cur[k] == prev[k]);
                if let UnitPlan::Single(i) = prev[k] {
                    assert(init[i] == files[i]);
                }
            }
        }
        assert forall|i: int|
            0 <= i < files.len() && non_mp3(#[trigger] files[i]) implies cur.contains(UnitPlan::Single(i)) by {
            if i < init.len() {
                assert(init[i] == files[i]);
                let k = choose|k: int| 0 <= k < prev.len() && prev[k] == UnitPlan::Single(i);
                assert(cur[k] == prev[k]);
            } else {
                assert(cur[prev.len() as int] == UnitPlan::Single(i));
            }
        }
    }
}

/// The plans of folder groups are sound, and put every member of a listed
/// folder in a unit.
pub proof fn lemma_group_plans(b: UnitBuilder, files: Seq<Seq<char>>, ks: Seq<Seq<char>>)
    ensures
        forall|k: int| 0 <= k < b.group_plans(ks, mp3_dir_keys(files)).len() ==> sound_plan(b.min_mp3s, files, #[trigger] b.group_plans(ks, mp3_dir_keys(files))[k]),
        forall|d: Seq<char>, i: int|
            ks.contains(d) && #[trigger] members(mp3_dir_keys(files), d).contains(i) ==> exists|k: int|
                0 <= k < b.group_plans(ks, mp3_dir_keys(files)).len() && covers(#[trigger] b.group_plans(ks, mp3_dir_keys(files))[k], i),
    decreases ks.len(),
{
    let keys = mp3_dir_keys(files);
    if ks.len() > 0 {
        let init = ks.drop_last();
        lemma_group_plans(b, files, init);
        let prev = b.group_plans(init, keys);
        let cur = b.group_plans(ks, keys);
        let d = ks.last();
        let m = members(keys, d);
        lemma_members_valid(keys, d);
        assert forall|j: int| 0 <= j < m.len() implies unit_eligible(files[#[trigger] m[j]]) by {
            assert(keys[m[j]] == Some(d));
        }
        assert forall|k: int| 0 <= k < cur.len() implies sound_plan(b.min_mp3s, files, #[trigger] cur[k]) by {
            if k < prev.len() {
                assert(cur[k] == prev[k]);
            } else if m.len() < b.min_mp3s {
                assert(cur[k] == UnitPlan::Single(m[k - prev.len()]));
            }
        }
        assert forall|d2: Seq<char>, i: int|
            ks.contains(d2) && #[trigger] members(keys, d2).contains(i) implies exists|k: int|
                0 <= k < cur.len() && covers(#[trigger] cur[k], i) by {
            if init.contains(d2) {
                let k = choose|k: int| 0 <= k < prev.len() && covers(#[trigger] prev[k], i);
                assert(cur[k] == prev[k]);
            } else {
                let p = choose|p: int| 0 <= p < ks.len() && ks[p] == d2;
                if p < init.len() {
                    assert(init[p] == d2);
                }
                assert(d2 == d);
                if m.len() >= b.min_mp3s {
                    assert(covers(cur[prev.len() as int], i));
                } else {
                    let a = choose|a: int| 0 <= a < m.len() && m[a] == i;
                    assert(cur[prev.len() + a] == UnitPlan::Single(i));
                    assert(covers(cur[prev.len() + a], i));
                }
            }
        }
    }
}

/// The file index of a single-file plan.
pub open spec fn single_index(p: UnitPlan) -> int {
    match p {
        UnitPlan::Single(i) => i,
        UnitPlan::Audio(_, _) => -1,
    }
}

/// An audiobook plan lists each of its files once.
pub open spec fn distinct_files(p: UnitPlan) -> bool {
    match p {
        UnitPlan::Audio(_, idx) => idx.no_duplicates(),
        UnitPlan::Single(_) => true,
    }
}

/// File `i` is grouped under a folder of `ks`.
pub open spec fn keyed_in(keys: Seq<Option<Seq<char>>>, i: int, ks: Seq<Seq<char>>) -> bool {
    0 <= i < keys.len() && match keys[i] {
        Some(d) => ks.contains(d),
        None => false,
    }
}

/// The plans of other files name their files in increasing order.
pub proof fn lemma_other_plans_increasing(files: Seq<Seq<char>>)
    ensures
        forall|a: int, b: int|
            0 <= a < b < other_plans(files).len() ==> single_index(#[trigger] other_plans(files)[a])
                < single_index(#[trigger] other_plans(files)[b]),
    decreases files.len(),
{
    if files.len() > 0 {
        let init = files.drop_last();
        lemma_other_plans_increasing(init);
        lemma_other_plans(init);
        let prev = other_plans(init);
        let cur = other_plans(files);
        assert forall|a: int, b: int| 0 <= a < b < cur.len() implies single_index(#[trigger] cur[a]) < single_index(#[trigger] cur[b]) by {
            assert(cur[a] == prev[a]);
            assert(other_plan_ok(init, prev[a]));
            if b < prev.len() {
                assert(cur[b] == prev[b]);
            }
        }
    }
}

/// The plans of distinct folder groups put each file in at most one unit,
/// only files of those folders, and each once.
pub proof fn lemma_group_plans_disjoint(b: UnitBuilder, files: Seq<Seq<char>>, ks: Seq<Seq<char>>)
    requires
        ks.no_duplicates(),
    ensures
        forall|k: int, i: int|
            0 <= k < b.group_plans(ks, mp3_dir_keys(files)).len() && #[trigger] covers(b.group_plans(ks, mp3_dir_keys(files))[k], i)
                ==> keyed_in(mp3_dir_keys(files), i, ks),
        forall|k1: int, k2: int, i: int|
            0 <= k1 < k2 < b.group_plans(ks, mp3_dir_keys(files)).len() && #[trigger] covers(b.group_plans(ks, mp3_dir_keys(files))[k1], i)
                ==> !#[trigger] covers(b.group_plans(ks, mp3_dir_keys(files))[k2], i),
        forall|k: int| 0 <= k < b.group_plans(ks, mp3_dir_keys(files)).len() ==> distinct_files(#[trigger] b.group_plans(ks, mp3_dir_keys(files))[k]),
    decreases ks.len(),
{
    let keys = mp3_dir_keys(files);
    if ks.len() > 0 {
        let init = ks.drop_last();
        assert(init.no_duplicates()) by {
            assert forall|x: int, y: int| 0 <= x < y < init.len() implies init[x] != init[y] by {
                assert(init[x] == ks[x] && init[y] == ks[y]);
            }
        }
        lemma_group_plans_disjoint(b, files, init);
        let prev = b.group_plans(init, keys);
        let cur = b.group_plans(ks, keys);
        let d = ks.last();
        let m = members(keys, d);
        lemma_members_valid(keys, d);
        lemma_members_increasing(keys, d);
        assert(!init.contains(d)) by {
            if init.contains(d) {
                let p = choose|p: int| 0 <= p < init.len() && init[p] == d;
                assert(ks[p] == ks[ks.len() - 1]);
            }
        }
        assert forall|x: Seq<char>| init.contains(x) implies ks.contains(x) by {
            let p = choose|p: int| 0 <= p < init.len() && init[p] == x;
            assert(ks[p] == x);
        }
        assert(ks.contains(d)) by {
            assert(ks[ks.len() - 1] == d);
        }
        // files covered by the new block carry the key `d`
        assert forall|k: int, i: int| prev.len() <= k < cur.len() && #[trigger] covers(cur[k], i) implies 0 <= i < keys.len() && keys[i] == Some(d) by {
            if m.len() >= b.min_mp3s {
                let a = choose|a: int| 0 <= a < m.len() && m[a] == i;
            } else {
                assert(cur[k] == UnitPlan::Single(m[k - prev.len()]));
            }
        }
        assert forall|k: int, i: int| 0 <= k < cur.len() && #[trigger] covers(cur[k], i) implies keyed_in(keys, i, ks) by {
            if k < prev.len() {
                assert(cur[k] == prev[k]);
                assert(keyed_in(keys, i, init));
            }
        }
        assert forall|k1: int, k2: int, i: int|
            0 <= k1 < k2 < cur.len() && #[trigger] covers(cur[k1], i) implies !#[trigger] covers(cur[k2], i) by {
            if k2 < prev.len() {
                assert(cur[k1] == prev[k1] && cur[k2] == prev[k2]);
            } else if k1 < prev.len() {
                assert(cur[k1] == prev[k1]);
                assert(keyed_in(keys, i, init));
                if covers(cur[k2], i) {
                    assert(keys[i] == Some(d));
                }
            } else {
                if m.len() < b.min_mp3s {
                    assert(cur[k1] == UnitPlan::Single(m[k1 - prev.len()]));
                    assert(cur[k2] == UnitPlan::Single(m[k2 - prev.len()]));
                    assert(m[k1 - prev.len()] < m[k2 - prev.len()]);
                }
            }
        }
        assert forall|k: int| 0 <= k < cur.len() implies distinct_files(#[trigger] cur[k]) by {
            if k < prev.len() {
                assert(cur[k] == prev[k]);
            } else if m.len() >= b.min_mp3s {
                assert(cur[k] == UnitPlan::Audio(d, m));
                assert forall|x: int, y: int| 0 <= x < y < m.len() implies m[x] != m[y] by {
                    assert(m[x] < m[y]);
                }
            }
        }
    }
}

/// The folder from which a unit's audiobook is merged: the folder of its
/// first file.
pub open spec fn source_dir_of(u: BookUnit) -> Option<Seq<char>> {
    if u.source_files@.len() > 0 {
        path_parent(u.source_files@[0]@)
    } else {
        None
    }
}

/// The folder from which a unit's audiobook is merged (`source_dir_of`).
pub fn merge_source_dir(unit: &BookUnit) -> (r: Option<String>)
    ensures
        r.deep_view() == source_dir_of(*unit),
{
    if unit.source_files.len() > 0 {
        crate::paths::parent(unit.source_files[0].as_str())
    } else {
        None
    }
}

/// An audiobook unit of at least two files: one that a merge can make a
/// single book of.
pub open spec fn mergeable(u: BookUnit) -> bool {
    u.file_type == FileType::Audio && u.source_files@.len() >= 2
}

/// The units that can be merged, in order.
pub fn mergeable_units(units: Vec<BookUnit>) -> (r: Vec<BookUnit>)
    ensures
        r@ == units@.filter(|u: BookUnit| mergeable(u)),
{
    let ghost orig = units@;
    let ghost pred = |u: BookUnit| mergeable(u);
    let mut rest = units;
    let mut out: Vec<BookUnit> = Vec::new();
    let n = rest.len();
    let mut i: usize = 0;
    proof {
        assert(orig.skip(0) =~= orig);
        reveal(Seq::filter);
        assert(orig.take(0).filter(pred) =~= Seq::<BookUnit>::empty());
    }
    while i < n
        invariant
            i <= n,
            n == orig.len(),
            rest@ == orig.skip(i as int),
            pred == (|u: BookUnit| mergeable(u)),
            out@ == orig.take(i as int).filter(pred),
        decreases n - i,
    {
        let u = rest.remove(0);
        proof {
            assert(u == orig[i as int]);
            assert(orig.skip(i as int).remove(0) =~= orig.skip(i + 1));
            assert(orig.take(i + 1).drop_last() =~= orig.take(i as int));
            assert(orig.take(i + 1).last() == orig[i as int]);
        }
        let keep = u.file_type == FileType::Audio && u.source_files.len() >= 2;
        let ghost before = out@;
        let ghost gu = u;
        if keep {
            out.push(u);
        }
        proof {
            reveal(Seq::filter);
            assert(pred(gu) == keep);
            let t = orig.take(i + 1);
            assert(t.filter(pred) == if pred(t.last()) {
                t.drop_last().filter(pred).push(t.last())
            } else {
                t.drop_last().filter(pred)
            });
            assert(out@ == if keep { before.push(gu) } else { before });
        }
        i += 1;
    }
    proof {
        assert(orig.take(n as int) =~= orig);
    }
    out
}

impl Default for UnitBuilder {
    fn default() -> (r: Self)
        ensures
            r.min_mp3s == 2,
            r.max_depth == 3,
    {
        UnitBuilder::new()
    }
}

impl UnitBuilder {
    /// Units of the folder groups `ks`: one audiobook for a group of at least
    /// `min_mp3s` files, else one unit per file.
    pub open spec fn group_plans(self, ks: Seq<Seq<char>>, keys: Seq<Option<Seq<char>>>) -> Seq<UnitPlan>
        decreases ks.len(),
    {
        if ks.len() == 0 {
            Seq::empty()
        } else {
            let prev = self.group_plans(ks.drop_last(), keys);
            let m = members(keys, ks.last());
            if m.len() >= self.min_mp3s {
                prev.push(UnitPlan::Audio(ks.last(), m))
            } else {
                prev + singles(m)
            }
        }
    }

    /// The units made of `files`: the folder groups of MP3 files in order of
    /// first appearance, then every file with another extension, in order.
    pub open spec fn plans(self, files: Seq<Seq<char>>) -> Seq<UnitPlan> {
        let keys = mp3_dir_keys(files);
        self.group_plans(first_keys(keys), keys) + other_plans(files)
    }

    /// A builder that needs two MP3 files for an audiobook.
    pub fn new() -> (r: Self)
        ensures
            r.min_mp3s == 2,
            r.max_depth == 3,
    {
        UnitBuilder { min_mp3s: 2, max_depth: 3 }
    }


    /// The units of `files` (with `hashes[i]` the content hash of
    /// `files[i]`, when it could be computed), as `plans` describes them.
    pub fn group_files(&self, files: &Vec<String>, hashes: &Vec<Option<String>>) -> (units: Vec<BookUnit>)
        requires
            files@.len() == hashes@.len(),
        ensures
            realizes_all(units@, self.plans(string_views(files@)), string_views(files@), hashes.deep_view()),
    {
        let ghost fv = string_views(files@);
        let ghost hv = hashes.deep_view();
        let ghost kv = mp3_dir_keys(fv);
        let mut keys: Vec<Option<String>> = Vec::new();
        let mut i: usize = 0;
        while i < files.len()
            invariant
                i <= files@.len(),
                fv == string_views(files@),
                kv == mp3_dir_keys(fv),
                keys.deep_view() == kv.take(i as int),
            decreases files@.len() - i,
        {
            let ext = crate::paths::extension(files[i].as_str());
            let is_mp3 = match &ext {
                Some(e) => ext_is_mp3(e.as_str()),
                None => false,
            };
            let key = if is_mp3 {
                crate::paths::parent(files[i].as_str())
            } else {
                None
            };
            let ghost old_keys = keys.deep_view();
            keys.push(key);
            proof {
                assert(kv[i as int] == key.deep_view());
                assert(keys.deep_view() =~= old_keys.push(key.deep_view()));
                assert(kv.take(i + 1) =~= kv.take(i as int).push(kv[i as int]));
            }
            i += 1;
        }
        proof {
            assert(kv.take(files@.len() as int) =~= kv);
        }
        let (ks, ms) = group_indices(&keys);
        let ghost fk = first_keys(kv);
        let mut units: Vec<BookUnit> = Vec::new();
        let mut g: usize = 0;
        proof {
            assert(fk.take(0) =~= Seq::<Seq<char>>::empty());
        }
        while g < ks.len()
            invariant
                g <= ks@.len(),
                files@.len() == hashes@.len(),
                fv == string_views(files@),
                hv == hashes.deep_view(),
                kv == mp3_dir_keys(fv),
                kv.len() == files@.len(),
                fk == first_keys(kv),
                ks@.len() == ms@.len(),
                ks@.len() == fk.len(),
                forall|h: int| 0 <= h < ks@.len() ==> (#[trigger] ks@[h])@ == fk[h],
                forall|h: int| 0 <= h < ms@.len() ==> ints((#[trigger] ms@[h])@) == members(kv, fk[h]),
                realizes_all(units@, self.group_plans(fk.take(g as int), kv), fv, hv),
            decreases ks@.len() - g,
        {
            let ghost m = members(kv, fk[g as int]);
            proof {
                lemma_members_valid(kv, fk[g as int]);
                assert(fk.take(g + 1).drop_last() =~= fk.take(g as int));
                assert(fk.take(g + 1).last() == fk[g as int]);
                assert(ints(ms@[g as int]@) == m);
                assert forall|j: int| 0 <= j < ms@[g as int]@.len() implies #[trigger] ms@[g as int]@[j] < files@.len() by {
                    assert(ints(ms@[g as int]@)[j] == m[j]);
                }
            }
            if ms[g].len() >= self.min_mp3s {
                let u = self.create_audio_unit(&ks[g], &ms[g], files, hashes);
                let ghost old_units = units@;
                units.push(u);
                proof {
                    assert forall|k: int| 0 <= k < units@.len() implies realizes(
                        #[trigger] units@[k],
                        self.group_plans(fk.take(g + 1), kv)[k],
                        fv,
                        hv,
                    ) by {
                        if k < old_units.len() {
                            assert(units@[k] == old_units[k]);
                        }
                    }
                }
            } else {
                let ghost base = units@.len();
                let ghost prev_plans = self.group_plans(fk.take(g as int), kv);
                let mut q: usize = 0;
                while q < ms[g].len()
                    invariant
                        q <= ms@[g as int]@.len(),
                        g < ms@.len(),
                        files@.len() == hashes@.len(),
                        fv == string_views(files@),
                        hv == hashes.deep_view(),
                        forall|j: int| 0 <= j < ms@[g as int]@.len() ==> #[trigger] ms@[g as int]@[j] < files@.len(),
                        ints(ms@[g as int]@) == m,
                        realizes_all(units@, prev_plans + singles(m.take(q as int)), fv, hv),
                    decreases ms@[g as int]@.len() - q,
                {
                    let j = ms[g][q];
                    let u = self.create_single_file_unit(&files[j], &hashes[j]);
                    let ghost old_units = units@;
                    units.push(u);
                    proof {
                        assert(m[q as int] == j as int);
                        assert(singles(m.take(q + 1)) =~= singles(m.take(q as int)).push(UnitPlan::Single(j as int)));
                        assert(fv[j as int] == files@[j as int]@);
                        assert(hv[j as int] == hashes@[j as int].deep_view());
                        assert forall|k: int| 0 <= k < units@.len() implies realizes(
                            #[trigger] units@[k],
                            (prev_plans + singles(m.take(q + 1)))[k],
                            fv,
                            hv,
                        ) by {
                            if k < old_units.len() {
                                assert(units@[k] == old_units[k]);
                            }
                        }
                    }
                    q += 1;
                }
                proof {
                    assert(m.take(m.len() as int) =~= m);
                }
            }
            g += 1;
        }
        proof {
            assert(fk.take(fk.len() as int) =~= fk);
        }
        let ghost gp = self.group_plans(fk, kv);
        let mut i: usize = 0;
        proof {
            assert(fv.take(0) =~= Seq::<Seq<char>>::empty());
            assert(gp + other_plans(fv.take(0)) =~= gp);
        }
        while i < files.len()
            invariant
                i <= files@.len(),
                files@.len() == hashes@.len(),
                fv == string_views(files@),
                hv == hashes.deep_view(),
                realizes_all(units@, gp + other_plans(fv.take(i as int)), fv, hv),
            decreases files@.len() - i,
        {
            let ghost prev = gp + other_plans(fv.take(i as int));
            proof {
                assert(fv.take(i + 1).drop_last() =~= fv.take(i as int));
                assert(fv.take(i + 1).last() == fv[i as int]);
                assert(fv[i as int] == files@[i as int]@);
                assert(hv[i as int] == hashes@[i as int].deep_view());
            }
            let ext = crate::paths::extension(files[i].as_str());
            let other = match &ext {
                Some(e) => !ext_is_mp3(e.as_str()),
                None => false,
            };
            if other {
                let u = self.create_single_file_unit(&files[i], &hashes[i]);
                let ghost old_units = units@;
                units.push(u);
                proof {
                    assert(gp + other_plans(fv.take(i + 1)) =~= prev.push(UnitPlan::Single(i as int)));
                    assert forall|k: int| 0 <= k < units@.len() implies realizes(
                        #[trigger] units@[k],
                        (gp + other_plans(fv.take(i + 1)))[k],
                        fv,
                        hv,
                    ) by {
                        if k < old_units.len() {
                            assert(units@[k] == old_units[k]);
                        }
                    }
                }
            } else {
                proof {
                    assert(gp + other_plans(fv.take(i + 1)) =~= prev);
                }
            }
            i += 1;
        }
        proof {
            assert(fv.take(files@.len() as int) =~= fv);
        }
        units
    }

    fn create_audio_unit(&self, dir: &String, idx: &Vec<usize>, files: &Vec<String>, hashes: &Vec<Option<String>>) -> (u: BookUnit)
        requires
            files@.len() == hashes@.len(),
            forall|j: int| 0 <= j < idx@.len() ==> #[trigger] idx@[j] < files@.len(),
        ensures
            realizes(u, UnitPlan::Audio(dir@, ints(idx@)), string_views(files@), hashes.deep_view()),
    {
        let id = crate::ids::new_uuid();
        let name = crate::paths::unwrap_or_empty(crate::paths::file_name(dir.as_str()));
        let mut sources: Vec<String> = Vec::new();
        let mut bytes: Vec<u8> = Vec::new();
        let ghost fv = string_views(files@);
        let ghost hv = hashes.deep_view();
        let mut k: usize = 0;
        while k < idx.len()
            invariant
                k <= idx@.len(),
                files@.len() == hashes@.len(),
                fv == string_views(files@),
                hv == hashes.deep_view(),
                forall|j: int| 0 <= j < idx@.len() ==> #[trigger] idx@[j] < files@.len(),
                string_views(sources@) == ints(idx@).take(k as int).map_values(|j: int| fv[j]),
                bytes@ == joined_hash_bytes(ints(idx@).take(k as int), hv),
            decreases idx@.len() - k,
        {
            let j = idx[k];
            let ghost old_sources = string_views(sources@);
            sources.push(files[j].clone());
            if let Some(h) = &hashes[j] {
                let b = h.as_str().as_bytes();
                let mut m: usize = 0;
                let ghost before = bytes@;
                while m < b.len()
                    invariant
                        m <= b@.len(),
                        bytes@ == before + b@.take(m as int),
                    decreases b@.len() - m,
                {
                    bytes.push(b[m]);
                    assert(b@.take(m + 1) =~= b@.take(m as int).push(b@[m as int]));
                    m += 1;
                }
                assert(b@.take(b@.len() as int) =~= b@);
            }
            proof {
                let t = ints(idx@).take(k + 1);
                assert(t.drop_last() =~= ints(idx@).take(k as int));
                assert(t.last() == j as int);
                assert(hv[j as int] == hashes@[j as int].deep_view());
                assert(string_views(sources@) =~= old_sources.push(fv[j as int]));
                assert(t.map_values(|x: int| fv[x]) =~= ints(idx@).take(k as int).map_values(|x: int| fv[x]).push(fv[j as int]));
            }
            k += 1;
        }
        proof {
            assert(ints(idx@).take(idx@.len() as int) =~= ints(idx@));
        }
        let work_hash = hash_bytes(bytes.as_slice());
        BookUnit {
            id,
            title: Some(name),
            author: None,
            series: None,
            source_files: sources,
            merged_output: None,
            file_type: FileType::Audio,
            work_hash: Some(work_hash),
            status: BookStatus::Discovered,
            metadata: None,
        }
    }

    fn create_single_file_unit(&self, file: &String, hash: &Option<String>) -> (u: BookUnit)
        ensures
            realizes(u, UnitPlan::Single(0), seq![file@], seq![hash.deep_view()]),
    {
        let id = crate::ids::new_uuid();
        let name = crate::paths::unwrap_or_empty(crate::paths::file_name(file.as_str()));
        let raw = crate::paths::unwrap_or_empty(crate::paths::extension(file.as_str()));
        let ext = crate::paths::to_lowercase(raw.as_str());
        let e = ext.as_str();
        let file_type = if same_str(e, "mp3") || same_str(e, "m4a") || same_str(e, "m4b") || same_str(
            e,
            "flac",
        ) {
            FileType::Audio
        } else if same_str(e, "epub") || same_str(e, "pdf") || same_str(e, "mobi") || same_str(
            e,
            "azw3",
        ) {
            FileType::Ebook
        } else if same_str(e, "cbz") || same_str(e, "cbr") {
            FileType::Comic
        } else {
            FileType::Unknown
        };
        let mut sources: Vec<String> = Vec::new();
        sources.push(file.clone());
        assert(string_views(sources@) =~= seq![file@]);
        BookUnit {
            id,
            title: Some(name),
            author: None,
            series: None,
            source_files: sources,
            merged_output: None,
            file_type,
            work_hash: clone_opt(hash),
            status: BookStatus::Discovered,
            metadata: None,
        }
    }
}

} // verus!
