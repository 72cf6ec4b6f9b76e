//! Properties that hold across the library's operations, each proved from
//! the specifications that the operations themselves satisfy.
use crate::cleaner::{part_sep, space_pattern, Cleaner};
use crate::decision::{
    earliest_at, largest_at, lemma_earliest_index, lemma_largest_index, DecisionContext,
    DecisionEngine, DecisionKind, DedupePolicy,
};
use crate::grouping::{
    first_keys, lemma_first_keys_contains, lemma_first_keys_distinct, lemma_members_complete,
    lemma_members_valid, lemma_shared_keys, members, shared_keys,
};
use crate::hashing::{blake3_hex, joined, StreamHasher};
use crate::matching::{replaced_or_same, without_groups};
use crate::organizer::{
    strip_known_exts, DuplicateHandling, OrganizationStructure, Organizer, Placement,
};
use crate::paths::{lowercase, or_empty, path_extension, path_join, path_parent};
use crate::registry::{author_keys, duplicate_groups, pick, BookRecord};
use crate::scanner::{default_patterns, file_type_for_ext, ScanEntry, Scanner};
use crate::text::{
    contains, lemma_find_unique, lemma_first_where_found, lemma_join_split, lemma_split_step,
    find, occurs_at, replace, starts_with, string_views, trim,
};
use crate::types::{
    BookFile, BookUnit,
    chosen_source_of, embedded_score, inferred_score, FileStatus, FileType, Metadata, MetadataSource,
    Stats,
};
use crate::unit::{
    realizes, unit_type_for_ext,
    covers, distinct_files, keyed_in, lemma_group_plans, lemma_group_plans_disjoint,
    lemma_other_plans, lemma_other_plans_increasing, mp3_dir_keys, non_mp3, other_plan_ok,
    other_plans, single_index, sound_plan, unit_eligible, UnitBuilder, UnitPlan,
};
use crate::watch::Debouncer;
use vstd::prelude::*;

verus! {

/// Counting a file keeps the statistics tallied: the total stays the sum of
/// the per-type counters, and the size grows by the file's size.
pub proof fn law_add_file_keeps_tally(s: Stats, file_type: FileType, size: u64)
    requires
        s.tallied(),
        s.can_add(file_type, size),
    ensures
        s.added(file_type, size).tallied(),
        s.added(file_type, size).total_files == s.total_files + 1,
        s.added(file_type, size).total_size == s.total_size + size,
{
}

/// The statistics of a scan are tallied, and count at least every file
/// that the manifest lists.
pub proof fn law_scan_stats_tallied(scanner: Scanner, entries: Seq<ScanEntry>)
    requires
        entries.len() <= usize::MAX,
    ensures
        scanner.scan_stats(entries).tallied(),
        scanner.included(entries).len() <= scanner.scan_stats(entries).total_files
            <= entries.len(),
    decreases entries.len(),
{
    if entries.len() > 0 {
        law_scan_stats_tallied(scanner, entries.drop_last());
    }
}

/// The audio, ebook, comic and document counters of a scan count exactly
/// the listed files of that type (junk and unknown files are counted but
/// never listed under these types).
pub proof fn law_scan_type_counts(scanner: Scanner, entries: Seq<ScanEntry>, t: FileType)
    requires
        entries.len() <= usize::MAX,
        t == FileType::Audio || t == FileType::Ebook || t == FileType::Comic || t
            == FileType::Document,
    ensures
        scanner.scan_stats(entries).count_of(t) == scanner.listed_of_type(entries, t),
    decreases entries.len(),
{
    if entries.len() > 0 {
        law_scan_type_counts(scanner, entries.drop_last(), t);
        law_scan_stats_tallied(scanner, entries.drop_last());
    }
}

/// A dry run never copies or replaces anything.
pub proof fn law_dry_run_copies_nothing(
    o: Organizer,
    file_type: FileType,
    source_exists: bool,
    dest_exists: bool,
)
    requires
        o.dry_run,
    ensures
        !(o.placement_for(file_type, source_exists, dest_exists) is Copy),
{
}

/// Junk is never organised, and an existing destination is replaced only
/// under the overwrite policy.
pub proof fn law_existing_destination_kept(
    o: Organizer,
    file_type: FileType,
    source_exists: bool,
    dest_exists: bool,
)
    ensures
        file_type == FileType::Junk ==> o.placement_for(file_type, source_exists, dest_exists)
            == Placement::Ignore,
        o.placement_for(file_type, source_exists, dest_exists) matches Placement::Copy {
            replace_existing,
            ..
        } && replace_existing ==> dest_exists && o.handle_duplicates
            == DuplicateHandling::Overwrite,
        !dest_exists ==> !(o.placement_for(file_type, source_exists, dest_exists) matches Placement::Copy {
            rename,
            ..
        } && rename),
{
}

/// Deduplication keeps records of the group only: all of them under
/// `KeepAll` or for a group of one, else exactly one, which is a largest
/// record (`KeepLargest`, `KeepBestBitrate`) or an earliest seen one
/// (`KeepFirst`).
pub proof fn law_dedupe_keeps_one(e: DecisionEngine, rs: Seq<BookRecord>)
    ensures
        forall|k: int| 0 <= k < e.kept(rs).len() ==> rs.contains(#[trigger] e.kept(rs)[k]),
        e.policy() == DedupePolicy::KeepAll || rs.len() <= 1 ==> e.kept(rs) == rs,
        e.policy() != DedupePolicy::KeepAll && rs.len() >= 2 ==> e.kept(rs).len() == 1,
        (e.policy() == DedupePolicy::KeepLargest || e.policy() == DedupePolicy::KeepBestBitrate)
            && rs.len() >= 2 ==> forall|j: int|
            0 <= j < rs.len() ==> #[trigger] rs[j].size <= e.kept(rs)[0].size,
        e.policy() == DedupePolicy::KeepFirst && rs.len() >= 2 ==> forall|j: int|
            0 <= j < rs.len() ==> e.kept(rs)[0].last_seen <= #[trigger] rs[j].last_seen,
{
    if rs.len() >= 2 {
        match e.policy() {
            DedupePolicy::KeepLargest | DedupePolicy::KeepBestBitrate => {
                let i = lemma_largest_index(rs);
                lemma_first_where_found(rs.len() as int, largest_at(rs), i);
                let k = e.kept(rs)[0];
                assert(rs.contains(k));
            },
            DedupePolicy::KeepFirst => {
                let i = lemma_earliest_index(rs);
                lemma_first_where_found(rs.len() as int, earliest_at(rs), i);
                let k = e.kept(rs)[0];
                assert(rs.contains(k));
            },
            DedupePolicy::KeepAll => {},
        }
    }
    assert forall|k: int| 0 <= k < e.kept(rs).len() implies rs.contains(#[trigger] e.kept(rs)[k]) by {
        if e.kept(rs) == rs {
            assert(rs[k] == e.kept(rs)[k]);
        }
    }
}

/// Once a hash is noted as seen in a run, a later unregistered, non-empty
/// file with that hash is decided a duplicate of it.
pub proof fn law_noted_hash_makes_duplicate(
    before: Seq<Seq<char>>,
    hash: Seq<char>,
    ctx: DecisionContext,
)
    requires
        string_views(ctx.run_seen_hashes@).to_set() == before.to_set().insert(hash),
        ctx.file.size != 0,
        ctx.registry_record is None,
        ctx.file.content_hash matches Some(h) && h@ == hash,
    ensures
        ctx.decision() == DecisionKind::Duplicate(hash),
{
    assert(string_views(ctx.run_seen_hashes@).to_set().contains(hash));
}


/// Duplicate groups name distinct authors; each holds at least two records,
/// all of its author; and every author that two records share has a group.
pub proof fn law_duplicate_groups(records: Seq<BookRecord>)
    ensures
        forall|g: int, h: int|
            0 <= g < h < duplicate_groups(records).len() ==> (#[trigger] duplicate_groups(records)[g]).0
                != (#[trigger] duplicate_groups(records)[h]).0,
        forall|g: int|
            0 <= g < duplicate_groups(records).len() ==> (#[trigger] duplicate_groups(records)[g]).1.len()
                >= 2,
        forall|g: int, j: int|
            0 <= g < duplicate_groups(records).len() && 0 <= j < duplicate_groups(records)[g].1.len()
                ==> (#[trigger] duplicate_groups(records)[g].1[j]).author.deep_view() == Some(
                duplicate_groups(records)[g].0,
            ),
        forall|i: int, j: int|
            0 <= i < j < records.len() && (#[trigger] records[i]).author is Some && records[i].author.deep_view()
                == (#[trigger] records[j]).author.deep_view() ==> exists|g: int|
                0 <= g < duplicate_groups(records).len() && Some(
                    (#[trigger] duplicate_groups(records)[g]).0,
                ) == records[i].author.deep_view(),
{
    let keys = author_keys(records);
    let fk = first_keys(keys);
    let sk = shared_keys(fk, keys);
    let dg = duplicate_groups(records);
    lemma_first_keys_distinct(keys);
    lemma_shared_keys(fk, keys);
    assert(dg.len() == sk.len());
    assert forall|g: int| 0 <= g < dg.len() implies (#[trigger] dg[g]).1.len() >= 2 by {
        assert(dg[g].1 == pick(records, members(keys, sk[g])));
        assert(members(keys, sk[g]).len() > 1);
    }
    assert forall|g: int, h: int| 0 <= g < h < dg.len() implies (#[trigger] dg[g]).0 != (#[trigger] dg[h]).0 by {
        assert(dg[g].0 == sk[g] && dg[h].0 == sk[h]);
    }
    assert forall|g: int, j: int|
        0 <= g < dg.len() && 0 <= j < dg[g].1.len() implies (#[trigger] dg[g].1[j]).author.deep_view() == Some(dg[g].0) by {
        let k = sk[g];
        let m = members(keys, k);
        lemma_members_valid(keys, k);
        assert(dg[g].1 == pick(records, m));
        assert(dg[g].1[j] == records[m[j]]);
        assert(keys[m[j]] == Some(k));
    }
    assert forall|i: int, j: int|
        0 <= i < j < records.len() && (#[trigger] records[i]).author is Some && records[i].author.deep_view()
            == (#[trigger] records[j]).author.deep_view() implies exists|g: int|
            0 <= g < dg.len() && Some((#[trigger] dg[g]).0) == records[i].author.deep_view() by {
        let k = records[i].author.deep_view().unwrap();
        assert(keys[i] == Some(k));
        assert(keys[j] == Some(k));
        lemma_members_complete(keys, k, i);
        lemma_members_complete(keys, k, j);
        let m = members(keys, k);
        let a = choose|a: int| 0 <= a < m.len() && m[a] == i;
        let b = choose|b: int| 0 <= b < m.len() && m[b] == j;
        assert(a != b);
        assert(m.len() > 1);
        lemma_first_keys_contains(keys, k);
        assert(sk.contains(k));
        let g = choose|g: int| 0 <= g < sk.len() && sk[g] == k;
        assert(dg[g].0 == k);
    }
}


/// Every unit of a file list is well made (an audiobook of at least
/// `min_mp3s` MP3 files of one folder, or one file with an extension), and
/// every file with an extension (an MP3 file also with a folder) is in some
/// unit.
pub proof fn law_units_cover_files(b: UnitBuilder, files: Seq<Seq<char>>)
    ensures
        forall|k: int| 0 <= k < b.plans(files).len() ==> sound_plan(b.min_mp3s, files, #[trigger] b.plans(files)[k]),
        forall|i: int|
            0 <= i < files.len() && unit_eligible(#[trigger] files[i]) ==> exists|k: int|
                0 <= k < b.plans(files).len() && covers(#[trigger] b.plans(files)[k], i),
{
    let keys = mp3_dir_keys(files);
    let fk = first_keys(keys);
    let gp = b.group_plans(fk, keys);
    let op = other_plans(files);
    let ps = b.plans(files);
    lemma_group_plans(b, files, fk);
    lemma_other_plans(files);
    assert(ps == gp + op);
    assert forall|k: int| 0 <= k < ps.len() implies sound_plan(b.min_mp3s, files, #[trigger] ps[k]) by {
        if k < gp.len() {
            assert(ps[k] == gp[k]);
        } else {
            assert(ps[k] == op[k - gp.len()]);
            assert(other_plan_ok(files, op[k - gp.len()]));
        }
    }
    assert forall|i: int| 0 <= i < files.len() && unit_eligible(#[trigger] files[i]) implies exists|k: int|
        0 <= k < ps.len() && covers(#[trigger] ps[k], i) by {
        if non_mp3(files[i]) {
            let k = choose|k: int| 0 <= k < op.len() && op[k] == UnitPlan::Single(i);
            assert(ps[gp.len() + k] == op[k]);
            assert(covers(ps[gp.len() + k], i));
        } else {
            let d = path_parent(files[i]).unwrap();
            assert(keys[i] == Some(d));
            lemma_members_complete(keys, d, i);
            lemma_first_keys_contains(keys, d);
            assert(fk.contains(d));
            let k = choose|k: int| 0 <= k < gp.len() && covers(#[trigger] gp[k], i);
            assert(ps[k] == gp[k]);
        }
    }
}


/// Deduplicating each duplicate group under any policy but `KeepAll` keeps
/// exactly one record per author, a record of that author.
pub proof fn law_one_record_per_author(e: DecisionEngine, records: Seq<BookRecord>)
    requires
        e.policy() != DedupePolicy::KeepAll,
    ensures
        forall|g: int|
            0 <= g < duplicate_groups(records).len() ==> e.kept(
                (#[trigger] duplicate_groups(records)[g]).1,
            ).len() == 1 && e.kept(duplicate_groups(records)[g].1)[0].author.deep_view() == Some(
                duplicate_groups(records)[g].0,
            ),
{
    let dg = duplicate_groups(records);
    law_duplicate_groups(records);
    assert forall|g: int| 0 <= g < dg.len() implies e.kept((#[trigger] dg[g]).1).len() == 1
        && e.kept(dg[g].1)[0].author.deep_view() == Some(dg[g].0) by {
        let rs = dg[g].1;
        law_dedupe_keeps_one(e, rs);
        assert(rs.contains(e.kept(rs)[0]));
        let j = choose|j: int| 0 <= j < rs.len() && rs[j] == e.kept(rs)[0];
        assert(dg[g].1[j].author.deep_view() == Some(dg[g].0));
    }
}

/// Embedded metadata is preferred: it is chosen whenever it has an author
/// and a title; inferred metadata is the fallback when the embedded has
/// no author, title or duration; with neither, the file name is the source.
pub proof fn law_embedded_preferred(embedded: Metadata, inferred: Metadata)
    ensures
        embedded.author is Some && embedded.title is Some ==> chosen_source_of(embedded, inferred)
            == MetadataSource::Embedded,
        embedded_score(embedded) == 0 && inferred_score(inferred) > 0 ==> chosen_source_of(
            embedded,
            inferred,
        ) == MetadataSource::Mapping,
        embedded_score(embedded) == 0 && inferred_score(inferred) == 0 ==> chosen_source_of(
            embedded,
            inferred,
        ) == MetadataSource::Filename,
{
}


/// Once a change starts processing, no further change within the window
/// starts it again.
pub proof fn law_debounce_once_per_window(d: Debouncer, now: u128, later: u128)
    requires
        d.fires(now),
        now <= later,
        later - now <= d.window,
    ensures
        !(Debouncer { window: d.window, last_run: now }).fires(later),
{
}


/// No file is in two units, and an audiobook unit lists each of its files
/// once.
pub proof fn law_units_disjoint(b: UnitBuilder, files: Seq<Seq<char>>)
    ensures
        forall|k1: int, k2: int, i: int|
            0 <= k1 < k2 < b.plans(files).len() && #[trigger] covers(b.plans(files)[k1], i) ==> !#[trigger] covers(
                b.plans(files)[k2],
                i,
            ),
        forall|k: int| 0 <= k < b.plans(files).len() ==> distinct_files(#[trigger] b.plans(files)[k]),
{
    let keys = mp3_dir_keys(files);
    let fk = first_keys(keys);
    let gp = b.group_plans(fk, keys);
    let op = other_plans(files);
    let ps = b.plans(files);
    lemma_first_keys_distinct(keys);
    lemma_group_plans_disjoint(b, files, fk);
    lemma_other_plans(files);
    lemma_other_plans_increasing(files);
    assert(ps == gp + op);
    assert forall|k1: int, k2: int, i: int|
        0 <= k1 < k2 < ps.len() && #[trigger] covers(ps[k1], i) implies !#[trigger] covers(ps[k2], i) by {
        if k2 < gp.len() {
            assert(ps[k1] == gp[k1] && ps[k2] == gp[k2]);
        } else if k1 < gp.len() {
            assert(ps[k1] == gp[k1]);
            assert(keyed_in(keys, i, fk));
            assert(ps[k2] == op[k2 - gp.len()]);
            assert(other_plan_ok(files, op[k2 - gp.len()]));
            if covers(ps[k2], i) {
                assert(!non_mp3(files[i]));
            }
        } else {
            assert(ps[k1] == op[k1 - gp.len()] && ps[k2] == op[k2 - gp.len()]);
            assert(other_plan_ok(files, op[k1 - gp.len()]));
            assert(other_plan_ok(files, op[k2 - gp.len()]));
            assert(single_index(op[k1 - gp.len()]) < single_index(op[k2 - gp.len()]));
        }
    }
    assert forall|k: int| 0 <= k < ps.len() implies distinct_files(#[trigger] ps[k]) by {
        if k < gp.len() {
            assert(ps[k] == gp[k]);
        } else {
            assert(ps[k] == op[k - gp.len()]);
            assert(other_plan_ok(files, op[k - gp.len()]));
        }
    }
}


/// Organising marks a file verified only by copying it with verification
/// on, and a dry run marks no file organised or verified.
pub proof fn law_verified_only_by_checked_copy(
    o: Organizer,
    current: FileStatus,
    file_type: FileType,
    source_exists: bool,
    dest_exists: bool,
)
    ensures
        ({
            let p = o.placement_for(file_type, source_exists, dest_exists);
            &&& o.status_after_spec(current, p) == FileStatus::Verified && current != FileStatus::Verified
                ==> p is Copy && o.verify
            &&& o.dry_run ==> (o.status_after_spec(current, p) == current || o.status_after_spec(
                current,
                p,
            ) == FileStatus::Failed)
        }),
{
}


/// However a stream is split into pieces, a hasher fed the pieces in order
/// (each state the one before updated with the next piece, as
/// `StreamHasher::update` ensures, from a new hasher) holds the whole
/// stream, so its `hex` is the content hash of the whole, as `hash_bytes`
/// gives it.
pub proof fn law_stream_hash_any_split(states: Seq<StreamHasher>, pieces: Seq<Seq<u8>>)
    requires
        states.len() == pieces.len() + 1,
        states[0].input() == Seq::<u8>::empty(),
        forall|k: int|
            0 <= k < pieces.len() ==> states[k + 1].input() == states[k].input() + #[trigger] pieces[k],
    ensures
        states.last().input() == joined(pieces),
        blake3_hex(states.last().input()) == blake3_hex(joined(pieces)),
    decreases pieces.len(),
{
    if pieces.len() > 0 {
        let n = pieces.len() - 1;
        assert forall|k: int| 0 <= k < pieces.drop_last().len() implies states.drop_last()[k + 1].input()
            == states.drop_last()[k].input() + #[trigger] pieces.drop_last()[k] by {
            assert(pieces.drop_last()[k] == pieces[k]);
        }
        law_stream_hash_any_split(states.drop_last(), pieces.drop_last());
        assert(states[n + 1].input() == states[n].input() + pieces[n]);
    }
}


/// In the `Author - Title` form no text of the name is lost: when the
/// narrator form does not apply and the text before the first `" - "` of
/// the base name is taken for an author, the author is that text trimmed
/// and the title is everything after that first `" - "`, so that
/// author-part + `" - "` + title is the whole base name.
pub proof fn law_author_title_keeps_name(c: Cleaner, name: Seq<char>, ext: Seq<char>, i: int)
    requires
        c.split_narrator(c.base_name(name, ext)) is None,
        occurs_at(c.base_name(name, ext), part_sep(), i),
        forall|j: int| 0 <= j < i ==> !occurs_at(c.base_name(name, ext), part_sep(), j),
        c.author_like(trim(c.base_name(name, ext).take(i))),
    ensures
        c.fields_from_name(name, ext) == (
            Some(trim(c.base_name(name, ext).take(i))),
            Some(c.base_name(name, ext).skip(i + 3)),
            None::<Seq<char>>,
            None::<Seq<char>>,
        ),
        c.base_name(name, ext) == c.base_name(name, ext).take(i) + part_sep() + c.base_name(
            name,
            ext,
        ).skip(i + 3),
{
    let base = c.base_name(name, ext);
    let sep = part_sep();
    lemma_find_unique(base, sep, i);
    lemma_split_step(base, sep);
    lemma_join_split(base.skip(i + 3), sep);
    assert(base.subrange(i, i + 3) == sep);
    assert(base =~= base.take(i) + sep + base.skip(i + 3));
}


/// The type of the files that the `k`-th default include pattern takes: the
/// first four patterns are audio, the next four ebooks, the last two
/// comics.
pub open spec fn default_pattern_type(k: int) -> FileType {
    if k < 4 {
        FileType::Audio
    } else if k < 8 {
        FileType::Ebook
    } else {
        FileType::Comic
    }
}

/// Every default include pattern is `*.` and an extension, and a file with
/// that extension is typed as the pattern's kind of book: audio for mp3,
/// m4a, m4b and flac, ebook for epub, pdf, mobi and azw3, comic for cbz and
/// cbr. So no file that the default patterns take is typed unknown.
pub proof fn law_default_patterns_typed(k: int)
    requires
        0 <= k < default_patterns().len(),
    ensures
        default_patterns().len() == 10,
        default_patterns()[k].len() > 2,
        default_patterns()[k].take(2) == seq!['*', '.'],
        file_type_for_ext(default_patterns()[k].skip(2)) == default_pattern_type(k),
        file_type_for_ext(default_patterns()[k].skip(2)) != FileType::Unknown,
{
    reveal_strlit("*.mp3");
    reveal_strlit("*.m4a");
    reveal_strlit("*.m4b");
    reveal_strlit("*.flac");
    reveal_strlit("*.epub");
    reveal_strlit("*.pdf");
    reveal_strlit("*.mobi");
    reveal_strlit("*.azw3");
    reveal_strlit("*.cbz");
    reveal_strlit("*.cbr");
    reveal_strlit("mp3");
    reveal_strlit("m4a");
    reveal_strlit("m4b");
    reveal_strlit("flac");
    reveal_strlit("epub");
    reveal_strlit("pdf");
    reveal_strlit("mobi");
    reveal_strlit("azw3");
    reveal_strlit("cbz");
    reveal_strlit("cbr");
    reveal_strlit("wav");
    reveal_strlit("aac");
    reveal_strlit("ogg");
    reveal_strlit("azw");
    reveal_strlit("ibooks");
    reveal_strlit("cbt");
    reveal_strlit("cba");
    let e = default_patterns()[k].skip(2);
    if k == 0 {
        assert(e =~= "mp3"@);
    }
    if k == 1 {
        assert(e =~= "m4a"@);
        assert("m4a"@ != "mp3"@) by { assert("m4a"@[1] != "mp3"@[1]); }
    }
    if k == 2 {
        assert(e =~= "m4b"@);
        assert("m4b"@ != "mp3"@) by { assert("m4b"@[1] != "mp3"@[1]); }
        assert("m4b"@ != "m4a"@) by { assert("m4b"@[2] != "m4a"@[2]); }
    }
    if k == 3 {
        assert(e =~= "flac"@);
        assert("flac"@ != "mp3"@) by { assert("flac"@.len() != "mp3"@.len()); }
        assert("flac"@ != "m4a"@) by { assert("flac"@.len() != "m4a"@.len()); }
        assert("flac"@ != "m4b"@) by { assert("flac"@.len() != "m4b"@.len()); }
    }
    if k == 4 {
        assert(e =~= "epub"@);
        assert("epub"@ != "mp3"@) by { assert("epub"@.len() != "mp3"@.len()); }
        assert("epub"@ != "m4a"@) by { assert("epub"@.len() != "m4a"@.len()); }
        assert("epub"@ != "m4b"@) by { assert("epub"@.len() != "m4b"@.len()); }
        assert("epub"@ != "flac"@) by { assert("epub"@[0] != "flac"@[0]); }
        assert("epub"@ != "wav"@) by { assert("epub"@.len() != "wav"@.len()); }
        assert("epub"@ != "aac"@) by { assert("epub"@.len() != "aac"@.len()); }
        assert("epub"@ != "ogg"@) by { assert("epub"@.len() != "ogg"@.len()); }
    }
    if k == 5 {
        assert(e =~= "pdf"@);
        assert("pdf"@ != "mp3"@) by { assert("pdf"@[0] != "mp3"@[0]); }
        assert("pdf"@ != "m4a"@) by { assert("pdf"@[0] != "m4a"@[0]); }
        assert("pdf"@ != "m4b"@) by { assert("pdf"@[0] != "m4b"@[0]); }
        assert("pdf"@ != "flac"@) by { assert("pdf"@.len() != "flac"@.len()); }
        assert("pdf"@ != "wav"@) by { assert("pdf"@[0] != "wav"@[0]); }
        assert("pdf"@ != "aac"@) by { assert("pdf"@[0] != "aac"@[0]); }
        assert("pdf"@ != "ogg"@) by { assert("pdf"@[0] != "ogg"@[0]); }
        assert("pdf"@ != "epub"@) by { assert("pdf"@.len() != "epub"@.len()); }
    }
    if k == 6 {
        assert(e =~= "mobi"@);
        assert("mobi"@ != "mp3"@) by { assert("mobi"@.len() != "mp3"@.len()); }
        assert("mobi"@ != "m4a"@) by { assert("mobi"@.len() != "m4a"@.len()); }
        assert("mobi"@ != "m4b"@) by { assert("mobi"@.len() != "m4b"@.len()); }
        assert("mobi"@ != "flac"@) by { assert("mobi"@[0] != "flac"@[0]); }
        assert("mobi"@ != "wav"@) by { assert("mobi"@.len() != "wav"@.len()); }
        assert("mobi"@ != "aac"@) by { assert("mobi"@.len() != "aac"@.len()); }
        assert("mobi"@ != "ogg"@) by { assert("mobi"@.len() != "ogg"@.len()); }
        assert("mobi"@ != "epub"@) by { assert("mobi"@[0] != "epub"@[0]); }
        assert("mobi"@ != "pdf"@) by { assert("mobi"@.len() != "pdf"@.len()); }
    }
    if k == 7 {
        assert(e =~= "azw3"@);
        assert("azw3"@ != "mp3"@) by { assert("azw3"@.len() != "mp3"@.len()); }
        assert("azw3"@ != "m4a"@) by { assert("azw3"@.len() != "m4a"@.len()); }
        assert("azw3"@ != "m4b"@) by { assert("azw3"@.len() != "m4b"@.len()); }
        assert("azw3"@ != "flac"@) by { assert("azw3"@[0] != "flac"@[0]); }
        assert("azw3"@ != "wav"@) by { assert("azw3"@.len() != "wav"@.len()); }
        assert("azw3"@ != "aac"@) by { assert("azw3"@.len() != "aac"@.len()); }
        assert("azw3"@ != "ogg"@) by { assert("azw3"@.len() != "ogg"@.len()); }
        assert("azw3"@ != "epub"@) by { assert("azw3"@[0] != "epub"@[0]); }
        assert("azw3"@ != "pdf"@) by { assert("azw3"@.len() != "pdf"@.len()); }
        assert("azw3"@ != "mobi"@) by { assert("azw3"@[0] != "mobi"@[0]); }
        assert("azw3"@ != "azw"@) by { assert("azw3"@.len() != "azw"@.len()); }
    }
    if k == 8 {
        assert(e =~= "cbz"@);
        assert("cbz"@ != "mp3"@) by { assert("cbz"@[0] != "mp3"@[0]); }
        assert("cbz"@ != "m4a"@) by { assert("cbz"@[0] != "m4a"@[0]); }
        assert("cbz"@ != "m4b"@) by { assert("cbz"@[0] != "m4b"@[0]); }
        assert("cbz"@ != "flac"@) by { assert("cbz"@.len() != "flac"@.len()); }
        assert("cbz"@ != "wav"@) by { assert("cbz"@[0] != "wav"@[0]); }
        assert("cbz"@ != "aac"@) by { assert("cbz"@[0] != "aac"@[0]); }
        assert("cbz"@ != "ogg"@) by { assert("cbz"@[0] != "ogg"@[0]); }
        assert("cbz"@ != "epub"@) by { assert("cbz"@.len() != "epub"@.len()); }
        assert("cbz"@ != "pdf"@) by { assert("cbz"@[0] != "pdf"@[0]); }
        assert("cbz"@ != "mobi"@) by { assert("cbz"@.len() != "mobi"@.len()); }
        assert("cbz"@ != "azw"@) by { assert("cbz"@[0] != "azw"@[0]); }
        assert("cbz"@ != "azw3"@) by { assert("cbz"@.len() != "azw3"@.len()); }
        assert("cbz"@ != "ibooks"@) by { assert("cbz"@.len() != "ibooks"@.len()); }
    }
    if k == 9 {
        assert(e =~= "cbr"@);
        assert("cbr"@ != "mp3"@) by { assert("cbr"@[0] != "mp3"@[0]); }
        assert("cbr"@ != "m4a"@) by { assert("cbr"@[0] != "m4a"@[0]); }
        assert("cbr"@ != "m4b"@) by { assert("cbr"@[0] != "m4b"@[0]); }
        assert("cbr"@ != "flac"@) by { assert("cbr"@.len() != "flac"@.len()); }
        assert("cbr"@ != "wav"@) by { assert("cbr"@[0] != "wav"@[0]); }
        assert("cbr"@ != "aac"@) by { assert("cbr"@[0] != "aac"@[0]); }
        assert("cbr"@ != "ogg"@) by { assert("cbr"@[0] != "ogg"@[0]); }
        assert("cbr"@ != "epub"@) by { assert("cbr"@.len() != "epub"@.len()); }
        assert("cbr"@ != "pdf"@) by { assert("cbr"@[0] != "pdf"@[0]); }
        assert("cbr"@ != "mobi"@) by { assert("cbr"@.len() != "mobi"@.len()); }
        assert("cbr"@ != "azw"@) by { assert("cbr"@[0] != "azw"@[0]); }
        assert("cbr"@ != "azw3"@) by { assert("cbr"@.len() != "azw3"@.len()); }
        assert("cbr"@ != "ibooks"@) by { assert("cbr"@.len() != "ibooks"@.len()); }
        assert("cbr"@ != "cbz"@) by { assert("cbr"@[2] != "cbz"@[2]); }
    }
    assert(default_patterns()[k].take(2) =~= seq!['*', '.']);
}


/// A single-file unit is typed as the scanner types its file for every
/// extension that a default include pattern takes (in any case, as the unit
/// lower-cases it): audio for mp3, m4a, m4b and flac, ebook for epub, pdf,
/// mobi and azw3, comic for cbz and cbr.
pub proof fn law_single_unit_type(
    u: BookUnit,
    files: Seq<Seq<char>>,
    hashes: Seq<Option<Seq<char>>>,
    i: int,
    k: int,
)
    requires
        realizes(u, UnitPlan::Single(i), files, hashes),
        0 <= k < default_patterns().len(),
        lowercase(or_empty(path_extension(files[i]))) == default_patterns()[k].skip(2),
    ensures
        u.file_type == default_pattern_type(k),
        u.file_type == file_type_for_ext(default_patterns()[k].skip(2)),
{
    law_default_patterns_typed(k);
    reveal_strlit("*.mp3");
    reveal_strlit("mp3");
    reveal_strlit("*.m4a");
    reveal_strlit("m4a");
    reveal_strlit("*.m4b");
    reveal_strlit("m4b");
    reveal_strlit("*.flac");
    reveal_strlit("flac");
    reveal_strlit("*.epub");
    reveal_strlit("epub");
    reveal_strlit("*.pdf");
    reveal_strlit("pdf");
    reveal_strlit("*.mobi");
    reveal_strlit("mobi");
    reveal_strlit("*.azw3");
    reveal_strlit("azw3");
    reveal_strlit("*.cbz");
    reveal_strlit("cbz");
    reveal_strlit("*.cbr");
    reveal_strlit("cbr");
    let e = default_patterns()[k].skip(2);
    if k == 0 {
        assert(e =~= "mp3"@);
    }
    if k == 1 {
        assert(e =~= "m4a"@);
        assert("m4a"@ != "mp3"@) by { assert("m4a"@[1] != "mp3"@[1]); }
    }
    if k == 2 {
        assert(e =~= "m4b"@);
        assert("m4b"@ != "mp3"@) by { assert("m4b"@[1] != "mp3"@[1]); }
        assert("m4b"@ != "m4a"@) by { assert("m4b"@[2] != "m4a"@[2]); }
    }
    if k == 3 {
        assert(e =~= "flac"@);
        assert("flac"@ != "mp3"@) by { assert("flac"@.len() != "mp3"@.len()); }
        assert("flac"@ != "m4a"@) by { assert("flac"@.len() != "m4a"@.len()); }
        assert("flac"@ != "m4b"@) by { assert("flac"@.len() != "m4b"@.len()); }
    }
    if k == 4 {
        assert(e =~= "epub"@);
        assert("epub"@ != "mp3"@) by { assert("epub"@.len() != "mp3"@.len()); }
        assert("epub"@ != "m4a"@) by { assert("epub"@.len() != "m4a"@.len()); }
        assert("epub"@ != "m4b"@) by { assert("epub"@.len() != "m4b"@.len()); }
        assert("epub"@ != "flac"@) by { assert("epub"@[0] != "flac"@[0]); }
    }
    if k == 5 {
        assert(e =~= "pdf"@);
        assert("pdf"@ != "mp3"@) by { assert("pdf"@[0] != "mp3"@[0]); }
        assert("pdf"@ != "m4a"@) by { assert("pdf"@[0] != "m4a"@[0]); }
        assert("pdf"@ != "m4b"@) by { assert("pdf"@[0] != "m4b"@[0]); }
        assert("pdf"@ != "flac"@) by { assert("pdf"@.len() != "flac"@.len()); }
        assert("pdf"@ != "epub"@) by { assert("pdf"@.len() != "epub"@.len()); }
    }
    if k == 6 {
        assert(e =~= "mobi"@);
        assert("mobi"@ != "mp3"@) by { assert("mobi"@.len() != "mp3"@.len()); }
        assert("mobi"@ != "m4a"@) by { assert("mobi"@.len() != "m4a"@.len()); }
        assert("mobi"@ != "m4b"@) by { assert("mobi"@.len() != "m4b"@.len()); }
        assert("mobi"@ != "flac"@) by { assert("mobi"@[0] != "flac"@[0]); }
        assert("mobi"@ != "epub"@) by { assert("mobi"@[0] != "epub"@[0]); }
        assert("mobi"@ != "pdf"@) by { assert("mobi"@.len() != "pdf"@.len()); }
    }
    if k == 7 {
        assert(e =~= "azw3"@);
        assert("azw3"@ != "mp3"@) by { assert("azw3"@.len() != "mp3"@.len()); }
        assert("azw3"@ != "m4a"@) by { assert("azw3"@.len() != "m4a"@.len()); }
        assert("azw3"@ != "m4b"@) by { assert("azw3"@.len() != "m4b"@.len()); }
        assert("azw3"@ != "flac"@) by { assert("azw3"@[0] != "flac"@[0]); }
        assert("azw3"@ != "epub"@) by { assert("azw3"@[0] != "epub"@[0]); }
        assert("azw3"@ != "pdf"@) by { assert("azw3"@.len() != "pdf"@.len()); }
        assert("azw3"@ != "mobi"@) by { assert("azw3"@[0] != "mobi"@[0]); }
    }
    if k == 8 {
        assert(e =~= "cbz"@);
        assert("cbz"@ != "mp3"@) by { assert("cbz"@[0] != "mp3"@[0]); }
        assert("cbz"@ != "m4a"@) by { assert("cbz"@[0] != "m4a"@[0]); }
        assert("cbz"@ != "m4b"@) by { assert("cbz"@[0] != "m4b"@[0]); }
        assert("cbz"@ != "flac"@) by { assert("cbz"@.len() != "flac"@.len()); }
        assert("cbz"@ != "epub"@) by { assert("cbz"@.len() != "epub"@.len()); }
        assert("cbz"@ != "pdf"@) by { assert("cbz"@[0] != "pdf"@[0]); }
        assert("cbz"@ != "mobi"@) by { assert("cbz"@.len() != "mobi"@.len()); }
        assert("cbz"@ != "azw3"@) by { assert("cbz"@.len() != "azw3"@.len()); }
    }
    if k == 9 {
        assert(e =~= "cbr"@);
        assert("cbr"@ != "mp3"@) by { assert("cbr"@[0] != "mp3"@[0]); }
        assert("cbr"@ != "m4a"@) by { assert("cbr"@[0] != "m4a"@[0]); }
        assert("cbr"@ != "m4b"@) by { assert("cbr"@[0] != "m4b"@[0]); }
        assert("cbr"@ != "flac"@) by { assert("cbr"@.len() != "flac"@.len()); }
        assert("cbr"@ != "epub"@) by { assert("cbr"@.len() != "epub"@.len()); }
        assert("cbr"@ != "pdf"@) by { assert("cbr"@[0] != "pdf"@[0]); }
        assert("cbr"@ != "mobi"@) by { assert("cbr"@.len() != "mobi"@.len()); }
        assert("cbr"@ != "azw3"@) by { assert("cbr"@.len() != "azw3"@.len()); }
        assert("cbr"@ != "cbz"@) by { assert("cbr"@[2] != "cbz"@[2]); }
    }
    assert(u.file_type == unit_type_for_ext(e));
}


/// The known book extensions that organising removes from titles, without
/// their dot: epub, pdf, mobi, azw3, m4b and mp3.
pub open spec fn known_book_exts() -> Seq<Seq<char>> {
    seq![
        seq!['e', 'p', 'u', 'b'],
        seq!['p', 'd', 'f'],
        seq!['m', 'o', 'b', 'i'],
        seq!['a', 'z', 'w', '3'],
        seq!['m', '4', 'b'],
        seq!['m', 'p', '3'],
    ]
}

/// `.` and the `j`-th known book extension.
pub open spec fn dotted_ext(j: int) -> Seq<char> {
    seq!['.'] + known_book_exts()[j]
}

/// Replacing text that does not occur changes nothing.
proof fn lemma_replace_absent(s: Seq<char>, p: Seq<char>, to: Seq<char>)
    requires
        p.len() > 0,
        !contains(s, p),
    ensures
        replace(s, p, to) == s,
    decreases s.len(),
{
    if s.len() > 0 {
        if starts_with(s, p) {
            assert(s.subrange(0, p.len() as int) =~= s.take(p.len() as int));
            assert(occurs_at(s, p, 0));
        }
        assert forall|i: int| occurs_at(s.drop_first(), p, i) implies occurs_at(s, p, i + 1) by {
            assert(s.subrange(i + 1, i + 1 + p.len()) =~= s.drop_first().subrange(i, i + p.len()));
        }
        lemma_replace_absent(s.drop_first(), p, to);
        assert(s =~= seq![s[0]] + s.drop_first());
    }
}

/// Removing a text that occurs only at the very end of `a + p` leaves `a`.
proof fn lemma_replace_final(a: Seq<char>, p: Seq<char>)
    requires
        p.len() > 0,
        forall|i: int| 0 <= i < a.len() ==> !occurs_at(a + p, p, i),
    ensures
        replace(a + p, p, Seq::empty()) == a,
    decreases a.len(),
{
    let s = a + p;
    if a.len() == 0 {
        assert(s =~= p);
        assert(s.take(p.len() as int) =~= p);
        assert(s.skip(p.len() as int) =~= Seq::<char>::empty());
        assert(starts_with(s, p));
        assert(replace(s.skip(p.len() as int), p, Seq::empty()) == Seq::<char>::empty());
        assert(replace(s, p, Seq::empty()) == Seq::<char>::empty() + replace(
            s.skip(p.len() as int),
            p,
            Seq::empty(),
        ));
        assert(Seq::<char>::empty() + Seq::<char>::empty() =~= a);
    } else {
        assert(!occurs_at(s, p, 0));
        if starts_with(s, p) {
            assert(s.subrange(0, p.len() as int) =~= s.take(p.len() as int));
        }
        let b = a.drop_first();
        assert(s.drop_first() =~= b + p);
        assert forall|i: int| 0 <= i < b.len() implies !occurs_at(b + p, p, i) by {
            assert(!occurs_at(s, p, i + 1));
            if i + p.len() <= (b + p).len() {
                assert((b + p).subrange(i, i + p.len()) =~= s.subrange(i + 1, i + 1 + p.len()));
            }
        }
        lemma_replace_final(b, p);
        assert(s[0] == a[0]);
        assert(replace(s, p, Seq::empty()) == seq![s[0]] + replace(s.drop_first(), p, Seq::empty()));
        assert(a =~= seq![a[0]] + b);
    }
}

/// A dotted known extension holds no other one.
proof fn lemma_dotted_exts_distinct(k: int, j: int)
    requires
        0 <= k < 6,
        0 <= j < 6,
        j != k,
    ensures
        !contains(dotted_ext(k), dotted_ext(j)),
{
    let q_k = dotted_ext(k);
    let q_j = dotted_ext(j);
    assert forall|m: int| 0 < m < q_k.len() implies q_k[m] != '.' by {}
    assert forall|m: int| occurs_at(q_k, q_j, m) implies false by {
        assert(q_k.subrange(m, m + q_j.len())[0] == q_j[0]);
        if m == 0 {
    if k == 0 && j == 1 { assert(q_k.subrange(0, q_j.len() as int)[1] != q_j[1]); }
    if k == 0 && j == 2 { assert(q_k.subrange(0, q_j.len() as int)[1] != q_j[1]); }
    if k == 0 && j == 3 { assert(q_k.subrange(0, q_j.len() as int)[1] != q_j[1]); }
    if k == 0 && j == 4 { assert(q_k.subrange(0, q_j.len() as int)[1] != q_j[1]); }
    if k == 0 && j == 5 { assert(q_k.subrange(0, q_j.len() as int)[1] != q_j[1]); }
    if k == 1 && j == 0 { assert(q_j.len() > q_k.len()); }
    if k == 1 && j == 2 { assert(q_j.len() > q_k.len()); }
    if k == 1 && j == 3 { assert(q_j.len() > q_k.len()); }
    if k == 1 && j == 4 { assert(q_k.subrange(0, q_j.len() as int)[1] != q_j[1]); }
    if k == 1 && j == 5 { assert(q_k.subrange(0, q_j.len() as int)[1] != q_j[1]); }
    if k == 2 && j == 0 { assert(q_k.subrange(0, q_j.len() as int)[1] != q_j[1]); }
    if k == 2 && j == 1 { assert(q_k.subrange(0, q_j.len() as int)[1] != q_j[1]); }
    if k == 2 && j == 3 { assert(q_k.subrange(0, q_j.len() as int)[1] != q_j[1]); }
    if k == 2 && j == 4 { assert(q_k.subrange(0, q_j.len() as int)[2] != q_j[2]); }
    if k == 2 && j == 5 { assert(q_k.subrange(0, q_j.len() as int)[2] != q_j[2]); }
    if k == 3 && j == 0 { assert(q_k.subrange(0, q_j.len() as int)[1] != q_j[1]); }
    if k == 3 && j == 1 { assert(q_k.subrange(0, q_j.len() as int)[1] != q_j[1]); }
    if k == 3 && j == 2 { assert(q_k.subrange(0, q_j.len() as int)[1] != q_j[1]); }
    if k == 3 && j == 4 { assert(q_k.subrange(0, q_j.len() as int)[1] != q_j[1]); }
    if k == 3 && j == 5 { assert(q_k.subrange(0, q_j.len() as int)[1] != q_j[1]); }
    if k == 4 && j == 0 { assert(q_j.len() > q_k.len()); }
    if k == 4 && j == 1 { assert(q_k.subrange(0, q_j.len() as int)[1] != q_j[1]); }
    if k == 4 && j == 2 { assert(q_j.len() > q_k.len()); }
    if k == 4 && j == 3 { assert(q_j.len() > q_k.len()); }
    if k == 4 && j == 5 { assert(q_k.subrange(0, q_j.len() as int)[2] != q_j[2]); }
    if k == 5 && j == 0 { assert(q_j.len() > q_k.len()); }
    if k == 5 && j == 1 { assert(q_k.subrange(0, q_j.len() as int)[1] != q_j[1]); }
    if k == 5 && j == 2 { assert(q_j.len() > q_k.len()); }
    if k == 5 && j == 3 { assert(q_j.len() > q_k.len()); }
    if k == 5 && j == 4 { assert(q_k.subrange(0, q_j.len() as int)[2] != q_j[2]); }
            assert(q_k.subrange(0, q_j.len() as int) != q_j);
        }
    }
}

/// A file without metadata named `stem.ext`, with `ext` a known book
/// extension and no known book extension inside the stem, keeps exactly
/// its name as its destination file name; under the author/title structure
/// it goes to `<output>/Unknown Author/<name>`.
pub proof fn law_destination_keeps_plain_name(o: Organizer, file: BookFile, stem: Seq<char>, k: int)
    requires
        0 <= k < 6,
        file.metadata is None,
        file.ext@ == known_book_exts()[k],
        file.name@ == stem + dotted_ext(k),
        forall|j: int, i: int|
            0 <= j < 6 && 0 <= i < stem.len() ==> !occurs_at(file.name@, dotted_ext(j), i),
    ensures
        Organizer::dest_file_name(file) == file.name@,
        o.structure == OrganizationStructure::AuthorTitle ==> o.destination(file) == path_join(
            path_join(o.output_dir@, "Unknown Author"@),
            file.name@,
        ),
{
    reveal_strlit(".epub");
    reveal_strlit(".pdf");
    reveal_strlit(".mobi");
    reveal_strlit(".azw3");
    reveal_strlit(".m4b");
    reveal_strlit(".mp3");
    reveal_strlit("");
    assert(".epub"@ =~= dotted_ext(0));
    assert(".pdf"@ =~= dotted_ext(1));
    assert(".mobi"@ =~= dotted_ext(2));
    assert(".azw3"@ =~= dotted_ext(3));
    assert(".m4b"@ =~= dotted_ext(4));
    assert(".mp3"@ =~= dotted_ext(5));
    assert(""@ =~= Seq::<char>::empty());
    let name = file.name@;
    // step j: the title before and after removing the j-th extension
    assert forall|j: int| 0 <= j < 6 implies #[trigger] replace(name, dotted_ext(j), Seq::empty()) == (if j == k {
        stem
    } else {
        name
    }) && replace(stem, dotted_ext(j), Seq::empty()) == stem by {
        assert(!contains(stem, dotted_ext(j))) by {
            assert forall|i: int| occurs_at(stem, dotted_ext(j), i) implies false by {
                assert(name.subrange(i, i + dotted_ext(j).len()) =~= stem.subrange(i, i + dotted_ext(j).len()));
                assert(occurs_at(name, dotted_ext(j), i));
            }
        }
        lemma_replace_absent(stem, dotted_ext(j), Seq::empty());
        if j == k {
            lemma_replace_final(stem, dotted_ext(k));
        } else {
            lemma_dotted_exts_distinct(k, j);
            assert(!contains(name, dotted_ext(j))) by {
                assert forall|i: int| occurs_at(name, dotted_ext(j), i) implies false by {
                    if i >= stem.len() {
                        assert(dotted_ext(k).subrange(i - stem.len(), i - stem.len() + dotted_ext(j).len())
                            =~= name.subrange(i, i + dotted_ext(j).len()));
                        assert(occurs_at(dotted_ext(k), dotted_ext(j), i - stem.len()));
                    }
                }
            }
            lemma_replace_absent(name, dotted_ext(j), Seq::empty());
        }
    }
    assert(replace(name, dotted_ext(0), Seq::empty()) == (if 0 == k { stem } else { name }));
    assert(replace(stem, dotted_ext(0), Seq::empty()) == stem);
    let t1 = replace(name, dotted_ext(0), Seq::empty());
    assert(t1 == if k <= 0 { stem } else { name });
    assert(replace(name, dotted_ext(1), Seq::empty()) == (if 1 == k { stem } else { name }));
    assert(replace(stem, dotted_ext(1), Seq::empty()) == stem);
    let t2 = replace(t1, dotted_ext(1), Seq::empty());
    assert(t2 == if k <= 1 { stem } else { name });
    assert(replace(name, dotted_ext(2), Seq::empty()) == (if 2 == k { stem } else { name }));
    assert(replace(stem, dotted_ext(2), Seq::empty()) == stem);
    let t3 = replace(t2, dotted_ext(2), Seq::empty());
    assert(t3 == if k <= 2 { stem } else { name });
    assert(replace(name, dotted_ext(3), Seq::empty()) == (if 3 == k { stem } else { name }));
    assert(replace(stem, dotted_ext(3), Seq::empty()) == stem);
    let t4 = replace(t3, dotted_ext(3), Seq::empty());
    assert(t4 == if k <= 3 { stem } else { name });
    assert(replace(name, dotted_ext(4), Seq::empty()) == (if 4 == k { stem } else { name }));
    assert(replace(stem, dotted_ext(4), Seq::empty()) == stem);
    let t5 = replace(t4, dotted_ext(4), Seq::empty());
    assert(t5 == if k <= 4 { stem } else { name });
    assert(replace(name, dotted_ext(5), Seq::empty()) == (if 5 == k { stem } else { name }));
    assert(replace(stem, dotted_ext(5), Seq::empty()) == stem);
    let t6 = replace(t5, dotted_ext(5), Seq::empty());
    assert(t6 == if k <= 5 { stem } else { name });
    assert(strip_known_exts(name) == t6);
    assert(Organizer::title_of(file) == name);
    assert(stem + seq!['.'] + file.ext@ =~= name);
}


/// Text without `open` passes group removal unchanged, whatever follows.
proof fn lemma_groups_plain_prefix(a: Seq<char>, b: Seq<char>, open: char, close: char)
    requires
        forall|i: int| 0 <= i < a.len() ==> a[i] != open,
    ensures
        without_groups(a + b, open, close) == a + without_groups(b, open, close),
    decreases a.len(),
{
    if a.len() > 0 {
        let t = a + b;
        assert(t[0] == a[0]);
        assert(t.drop_first() =~= a.drop_first() + b);
        lemma_groups_plain_prefix(a.drop_first(), b, open, close);
        assert(a =~= seq![a[0]] + a.drop_first());
    } else {
        assert(a + b =~= b);
    }
}

/// A group `open x close`, with `x` free of `close`, is removed whole.
proof fn lemma_group_removed(x: Seq<char>, b: Seq<char>, open: char, close: char)
    requires
        forall|i: int| 0 <= i < x.len() ==> x[i] != close,
    ensures
        without_groups(seq![open] + x + seq![close] + b, open, close) == without_groups(
            b,
            open,
            close,
        ),
{
    let t = seq![open] + x + seq![close] + b;
    let rest = t.drop_first();
    assert(rest =~= x + seq![close] + b);
    assert(rest.subrange(x.len() as int, x.len() + 1 as int) =~= seq![close]);
    assert forall|j: int| 0 <= j < x.len() implies !occurs_at(rest, seq![close], j) by {
        assert(rest.subrange(j, j + 1)[0] == x[j]);
    }
    lemma_find_unique(rest, seq![close], x.len() as int);
    assert(find(rest, seq![close]) == Some(x.len() as int));
    assert(t.skip(x.len() + 2 as int) =~= b);
}

/// Removing bracketed tags deletes only the tags: cleaning `[x] s [y]`, the
/// tag texts free of `]` and `s` free of `[`, gives what cleaning `s` gives;
/// with every step on and `s` also free of parentheses and underscores,
/// that is `s` with its white space collapsed and trimmed.
pub proof fn law_bracket_tags_removed(c: Cleaner, x: Seq<char>, s: Seq<char>, y: Seq<char>)
    requires
        c.remove_brackets,
        forall|i: int| 0 <= i < x.len() ==> x[i] != ']',
        forall|i: int| 0 <= i < y.len() ==> y[i] != ']',
        forall|i: int| 0 <= i < s.len() ==> s[i] != '[',
    ensures
        c.cleaned(seq!['['] + x + seq![']'] + s + seq!['['] + y + seq![']']) == c.cleaned(s),
        c.all_steps() && (forall|i: int| 0 <= i < s.len() ==> s[i] != '(' && s[i] != '_')
            ==> c.cleaned(s) == trim(replaced_or_same(space_pattern(), s, " "@)),
{
    let tail = seq!['['] + y + seq![']'];
    let name = seq!['['] + x + seq![']'] + s + tail;
    assert(name =~= seq!['['] + x + seq![']'] + (s + tail));
    lemma_group_removed(x, s + tail, '[', ']');
    lemma_groups_plain_prefix(s, tail, '[', ']');
    assert(tail =~= seq!['['] + y + seq![']'] + Seq::<char>::empty());
    lemma_group_removed(y, Seq::<char>::empty(), '[', ']');
    assert(without_groups(Seq::<char>::empty(), '[', ']') == Seq::<char>::empty());
    assert(s + Seq::<char>::empty() =~= s);
    lemma_groups_plain_prefix(s, Seq::<char>::empty(), '[', ']');
    assert(without_groups(name, '[', ']') == s);
    assert(without_groups(s, '[', ']') == s);
    assert(seq!['['] + x + seq![']'] + s + seq!['['] + y + seq![']'] =~= name);
    assert(c.cleaned(name) == c.cleaned(s));
    if c.all_steps() && (forall|i: int| 0 <= i < s.len() ==> s[i] != '(' && s[i] != '_') {
        lemma_groups_plain_prefix(s, Seq::<char>::empty(), '(', ')');
        assert(without_groups(Seq::<char>::empty(), '(', ')') == Seq::<char>::empty());
        assert(without_groups(s, '(', ')') == s);
        assert(!contains(s, seq!['_'])) by {
            assert forall|i: int| occurs_at(s, seq!['_'], i) implies false by {
                assert(s.subrange(i, i + 1)[0] == s[i]);
            }
        }
        lemma_replace_absent(s, seq!['_'], part_sep());
    }
}

} // verus!
