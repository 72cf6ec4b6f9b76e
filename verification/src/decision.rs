//! The decision engine: what to do with a scanned file, which copy of a
//! duplicate group to keep, and whether a file still has its hash.
use crate::hashing::{blake3_hex, hash_bytes};
use crate::registry::BookRecord;
use crate::text::{first_where, is_first, lemma_first_where_some, same_str, string_views};
use crate::types::BookFile;
use vstd::prelude::*;

verus! {

/// What to do with a file.
#[derive(Debug, Clone, PartialEq, Eq)]
pub enum Decision {
    Process,
    Skip,
    Reprocess,
    Quarantine,
    Duplicate { of_hash: String },
}

/// What the engine knows when deciding about a file: the file, its
/// registry record if any, the hashes already seen in this run (each once),
/// and whether the registered output still exists.
pub struct DecisionContext {
    pub file: BookFile,
    pub registry_record: Option<BookRecord>,
    pub run_seen_hashes: Vec<String>,
    pub output_exists: bool,
}

/// Which copies of a duplicate group to keep.
#[derive(Debug, Clone, Copy, PartialEq, Eq, Structural)]
pub enum DedupePolicy {
    KeepLargest,
    KeepBestBitrate,
    KeepFirst,
    KeepAll,
}

pub struct DecisionEngine {
    dedupe_policy: DedupePolicy,
}

/// The outcome of a decision, with the hash that a duplicate repeats.
pub enum DecisionKind {
    Process,
    Skip,
    Reprocess,
    Quarantine,
    Duplicate(Seq<char>),
}

impl Decision {
    pub open spec fn kind(self) -> DecisionKind {
        match self {
            Decision::Process => DecisionKind::Process,
            Decision::Skip => DecisionKind::Skip,
            Decision::Reprocess => DecisionKind::Reprocess,
            Decision::Quarantine => DecisionKind::Quarantine,
            Decision::Duplicate { of_hash } => DecisionKind::Duplicate(of_hash@),
        }
    }
}

impl DecisionContext {
    /// The decision owed for this context: empty or unhashed files are
    /// quarantined; registered files are skipped when their output exists
    /// and reprocessed otherwise; a hash already seen in this run makes a
    /// duplicate; anything else is processed.
    pub open spec fn decision(self) -> DecisionKind {
        if self.file.size == 0 {
            DecisionKind::Quarantine
        } else {
            match self.file.content_hash {
                None => DecisionKind::Quarantine,
                Some(h) => if self.registry_record is Some {
                    if self.output_exists {
                        DecisionKind::Skip
                    } else {
                        DecisionKind::Reprocess
                    }
                } else if string_views(self.run_seen_hashes@).contains(h@) {
                    DecisionKind::Duplicate(h@)
                } else {
                    DecisionKind::Process
                },
            }
        }
    }
}

/// Records `hash` as seen in this run, unless it already is.
pub fn note_seen_hash(seen: &mut Vec<String>, hash: String)
    requires
        string_views(old(seen)@).no_duplicates(),
    ensures
        string_views(final(seen)@).no_duplicates(),
        string_views(final(seen)@).to_set() == string_views(old(seen)@).to_set().insert(hash@),
{
    let ghost old_v = string_views(seen@);
    let mut i: usize = 0;
    while i < seen.len()
        invariant
            i <= seen@.len(),
            old_v == string_views(seen@),
            old_v.no_duplicates(),
            forall|k: int| 0 <= k < i ==> old_v[k] != hash@,
        decreases seen@.len() - i,
    {
        if same_str(seen[i].as_str(), hash.as_str()) {
            proof {
                assert(old_v.to_set().insert(hash@) =~= old_v.to_set()) by {
                    assert(old_v.to_set().contains(old_v[i as int]));
                }
            }
            return;
        }
        i += 1;
    }
    seen.push(hash);
    proof {
        let new_v = string_views(seen@);
        assert(new_v =~= old_v.push(hash@));
        assert(!old_v.contains(hash@));
        assert(new_v.to_set() =~= old_v.to_set().insert(hash@)) by {
            assert forall|x: Seq<char>| new_v.contains(x) <==> old_v.contains(x) || x == hash@ by {
                if new_v.contains(x) {
                    let k = choose|k: int| 0 <= k < new_v.len() && new_v[k] == x;
                    if k < old_v.len() {
                        assert(old_v[k] == x);
                    }
                }
                if old_v.contains(x) {
                    let k = choose|k: int| 0 <= k < old_v.len() && old_v[k] == x;
                    assert(new_v[k] == x);
                }
                if x == hash@ {
                    assert(new_v[old_v.len() as int] == x);
                }
            }
        }
    }
}

/// Index predicate: record `i` is at least as large as every record.
pub open spec fn largest_at(rs: Seq<BookRecord>) -> spec_fn(int) -> bool {
    |i: int| forall|j: int| 0 <= j < rs.len() ==> #[trigger] rs[j].size <= rs[i].size
}

/// Index predicate: record `i` was seen no later than every record.
pub open spec fn earliest_at(rs: Seq<BookRecord>) -> spec_fn(int) -> bool {
    |i: int| forall|j: int| 0 <= j < rs.len() ==> rs[i].last_seen <= #[trigger] rs[j].last_seen
}

/// What a run does next with a file.
#[derive(Debug, Clone, Copy, PartialEq, Eq, Structural)]
pub enum Work {
    /// Merge it into an audiobook.
    Merge,
    /// Organise it again.
    Organize,
    /// Nothing more.
    Nothing,
}

impl Decision {
    /// The work a decision asks for: a file to process is merged; a file to
    /// reprocess is organised again when its registered output is gone;
    /// everything else needs nothing.
    pub open spec fn work_of(self, output_exists: bool) -> Work {
        match self {
            Decision::Process => Work::Merge,
            Decision::Reprocess => if output_exists {
                Work::Nothing
            } else {
                Work::Organize
            },
            _ => Work::Nothing,
        }
    }

    /// The work this decision asks for (`work_of`).
    pub fn work(&self, output_exists: bool) -> (w: Work)
        ensures
            w == self.work_of(output_exists),
    {
        match self {
            Decision::Process => Work::Merge,
            Decision::Reprocess => if output_exists {
                Work::Nothing
            } else {
                Work::Organize
            },
            _ => Work::Nothing,
        }
    }
}

impl DedupePolicy {
    /// The policy named `largest`, `bitrate`, `first` or `all`; any other
    /// name means `KeepLargest`.
    pub open spec fn named(name: Seq<char>) -> DedupePolicy {
        if name == "bitrate"@ {
            DedupePolicy::KeepBestBitrate
        } else if name == "first"@ {
            DedupePolicy::KeepFirst
        } else if name == "all"@ {
            DedupePolicy::KeepAll
        } else {
            DedupePolicy::KeepLargest
        }
    }

    /// The policy of a command-line name (see `named`).
    pub fn from_name(name: &str) -> (p: DedupePolicy)
        ensures
            p == Self::named(name@),
    {
        if same_str(name, "bitrate") {
            DedupePolicy::KeepBestBitrate
        } else if same_str(name, "first") {
            DedupePolicy::KeepFirst
        } else if same_str(name, "all") {
            DedupePolicy::KeepAll
        } else {
            DedupePolicy::KeepLargest
        }
    }
}

/// How many decisions of each kind a run made.
#[derive(Debug, Clone, Copy, PartialEq, Eq, Structural)]
pub struct DecisionCounts {
    pub process: usize,
    pub skip: usize,
    pub reprocess: usize,
    pub duplicates: usize,
    pub quarantine: usize,
}

/// The number of decisions of `ds` for which `f` holds.
pub open spec fn count_where(ds: Seq<Decision>, f: spec_fn(Decision) -> bool) -> nat
    decreases ds.len(),
{
    if ds.len() == 0 {
        0
    } else {
        count_where(ds.drop_last(), f) + if f(ds.last()) { 1nat } else { 0nat }
    }
}

pub proof fn lemma_count_where_bound(ds: Seq<Decision>, f: spec_fn(Decision) -> bool)
    ensures
        count_where(ds, f) <= ds.len(),
    decreases ds.len(),
{
    if ds.len() > 0 {
        lemma_count_where_bound(ds.drop_last(), f);
    }
}

/// Counts the decisions of each kind.
pub fn count_decisions(ds: &Vec<Decision>) -> (c: DecisionCounts)
    ensures
        c.process == count_where(ds@, |d: Decision| d is Process),
        c.skip == count_where(ds@, |d: Decision| d is Skip),
        c.reprocess == count_where(ds@, |d: Decision| d is Reprocess),
        c.duplicates == count_where(ds@, |d: Decision| d is Duplicate),
        c.quarantine == count_where(ds@, |d: Decision| d is Quarantine),
{
    let mut c = DecisionCounts { process: 0, skip: 0, reprocess: 0, duplicates: 0, quarantine: 0 };
    let mut i: usize = 0;
    while i < ds.len()
        invariant
            i <= ds@.len(),
            c.process == count_where(ds@.take(i as int), |d: Decision| d is Process),
            c.skip == count_where(ds@.take(i as int), |d: Decision| d is Skip),
            c.reprocess == count_where(ds@.take(i as int), |d: Decision| d is Reprocess),
            c.duplicates == count_where(ds@.take(i as int), |d: Decision| d is Duplicate),
            c.quarantine == count_where(ds@.take(i as int), |d: Decision| d is Quarantine),
        decreases ds@.len() - i,
    {
        let ghost pre = ds@.take(i as int);
        let ghost post = ds@.take(i + 1);
        proof {
            assert(post.drop_last() =~= pre);
            assert(post.last() == ds@[i as int]);
            lemma_count_where_bound(pre, |d: Decision| d is Process);
            lemma_count_where_bound(pre, |d: Decision| d is Skip);
            lemma_count_where_bound(pre, |d: Decision| d is Reprocess);
            lemma_count_where_bound(pre, |d: Decision| d is Duplicate);
            lemma_count_where_bound(pre, |d: Decision| d is Quarantine);
        }
        match &ds[i] {
            Decision::Process => c.process = c.process + 1,
            Decision::Skip => c.skip = c.skip + 1,
            Decision::Reprocess => c.reprocess = c.reprocess + 1,
            Decision::Duplicate { .. } => c.duplicates = c.duplicates + 1,
            Decision::Quarantine => c.quarantine = c.quarantine + 1,
        }
        i += 1;
    }
    proof {
        assert(ds@.take(ds@.len() as int) =~= ds@);
    }
    c
}

/// A non-empty group has a largest record.
pub proof fn lemma_largest_index(rs: Seq<BookRecord>) -> (i: int)
    requires
        rs.len() > 0,
    ensures
        0 <= i < rs.len(),
        largest_at(rs)(i),
    decreases rs.len(),
{
    if rs.len() == 1 {
        0
    } else {
        let p = rs.drop_last();
        let i0 = lemma_largest_index(p);
        assert(largest_at(p)(i0));
        let n = rs.len() - 1;
        if rs[n].size <= rs[i0].size {
            assert forall|j: int| 0 <= j < rs.len() implies #[trigger] rs[j].size <= rs[i0].size by {
                if j < n {
                    assert(p[j] == rs[j]);
                }
            }
            i0
        } else {
            assert forall|j: int| 0 <= j < rs.len() implies #[trigger] rs[j].size <= rs[n].size by {
                if j < n {
                    assert(p[j] == rs[j]);
                }
            }
            n
        }
    }
}

/// A non-empty group has an earliest seen record.
pub proof fn lemma_earliest_index(rs: Seq<BookRecord>) -> (i: int)
    requires
        rs.len() > 0,
    ensures
        0 <= i < rs.len(),
        earliest_at(rs)(i),
    decreases rs.len(),
{
    if rs.len() == 1 {
        0
    } else {
        let p = rs.drop_last();
        let i0 = lemma_earliest_index(p);
        assert(earliest_at(p)(i0));
        let n = rs.len() - 1;
        if rs[i0].last_seen <= rs[n].last_seen {
            assert forall|j: int| 0 <= j < rs.len() implies rs[i0].last_seen <= #[trigger] rs[j].last_seen by {
                if j < n {
                    assert(p[j] == rs[j]);
                }
            }
            i0
        } else {
            assert forall|j: int| 0 <= j < rs.len() implies rs[n].last_seen <= #[trigger] rs[j].last_seen by {
                if j < n {
                    assert(p[j] == rs[j]);
                }
            }
            n
        }
    }
}

impl DecisionEngine {
    pub closed spec fn policy(self) -> DedupePolicy {
        self.dedupe_policy
    }

    /// The records kept of a duplicate group: all of them when there are at
    /// most one or the policy keeps all; else the first largest (by size) or
    /// the first earliest seen (by `last_seen`).
    pub open spec fn kept(self, rs: Seq<BookRecord>) -> Seq<BookRecord> {
        if rs.len() <= 1 {
            rs
        } else {
            match self.policy() {
                DedupePolicy::KeepLargest | DedupePolicy::KeepBestBitrate => match first_where(
                    rs.len() as int,
                    largest_at(rs),
                ) {
                    Some(i) => seq![rs[i]],
                    None => rs,
                },
                DedupePolicy::KeepFirst => match first_where(rs.len() as int, earliest_at(rs)) {
                    Some(i) => seq![rs[i]],
                    None => rs,
                },
                DedupePolicy::KeepAll => rs,
            }
        }
    }

    pub fn new(policy: DedupePolicy) -> (r: Self)
        ensures
            r.policy() == policy,
    {
        DecisionEngine { dedupe_policy: policy }
    }

    /// Decides what to do with the file of `ctx`.
    pub fn decide(&self, ctx: &DecisionContext) -> (d: Decision)
        ensures
            d.kind() == ctx.decision(),
    {
        if ctx.file.size == 0 {
            return Decision::Quarantine;
        }
        let hash = match &ctx.file.content_hash {
            Some(h) => h,
            None => return Decision::Quarantine,
        };
        if ctx.registry_record.is_some() {
            if ctx.output_exists {
                return Decision::Skip;
            } else {
                return Decision::Reprocess;
            }
        }
        let ghost seen = string_views(ctx.run_seen_hashes@);
        let mut i: usize = 0;
        while i < ctx.run_seen_hashes.len()
            invariant
                i <= ctx.run_seen_hashes@.len(),
                seen == string_views(ctx.run_seen_hashes@),
                forall|k: int| 0 <= k < i ==> seen[k] != hash@,
                ctx.file.size != 0,
                ctx.registry_record is None,
                ctx.file.content_hash matches Some(h) && h@ == hash@,
            decreases ctx.run_seen_hashes@.len() - i,
        {
            if same_str(ctx.run_seen_hashes[i].as_str(), hash.as_str()) {
                assert(seen[i as int] == hash@);
                assert(seen.contains(hash@));
                let d = Decision::Duplicate { of_hash: hash.clone() };
                assert(d.kind() == DecisionKind::Duplicate(hash@));
                return d;
            }
            i += 1;
        }
        Decision::Process
    }

    /// The records of a duplicate group that the policy keeps.
    pub fn evaluate_duplicate_group(&self, records: Vec<BookRecord>) -> (r: Vec<BookRecord>)
        ensures
            r@ == self.kept(records@),
    {
        if records.len() <= 1 {
            return records;
        }
        let ghost rs = records@;
        let mut records = records;
        match self.dedupe_policy {
            DedupePolicy::KeepLargest | DedupePolicy::KeepBestBitrate => {
                let mut best: usize = 0;
                let mut i: usize = 1;
                while i < records.len()
                    invariant
                        records@ == rs,
                        1 <= i <= rs.len(),
                        best < i,
                        forall|j: int| 0 <= j < i ==> #[trigger] rs[j].size <= rs[best as int].size,
                        forall|j: int| 0 <= j < best ==> #[trigger] rs[j].size < rs[best as int].size,
                    decreases rs.len() - i,
                {
                    if records[i].size > records[best].size {
                        best = i;
                    }
                    i += 1;
                }
                proof {
                    let f = largest_at(rs);
                    assert(f(best as int));
                    assert forall|j: int| 0 <= j < best implies !#[trigger] f(j) by {
                        assert(!(rs[best as int].size <= rs[j].size));
                    }
                    lemma_first_where_some(rs.len() as int, f, best as int);
                }
                let kept = records.remove(best);
                let mut out: Vec<BookRecord> = Vec::new();
                out.push(kept);
                assert(out@ =~= seq![rs[best as int]]);
                out
            },
            DedupePolicy::KeepFirst => {
                let mut best: usize = 0;
                let mut i: usize = 1;
                while i < records.len()
                    invariant
                        records@ == rs,
                        1 <= i <= rs.len(),
                        best < i,
                        forall|j: int| 0 <= j < i ==> rs[best as int].last_seen <= #[trigger] rs[j].last_seen,
                        forall|j: int| 0 <= j < best ==> rs[best as int].last_seen < #[trigger] rs[j].last_seen,
                    decreases rs.len() - i,
                {
                    if records[i].last_seen < records[best].last_seen {
                        best = i;
                    }
                    i += 1;
                }
                proof {
                    let f = earliest_at(rs);
                    assert(f(best as int));
                    assert forall|j: int| 0 <= j < best implies !#[trigger] f(j) by {
                        assert(!(rs[j].last_seen <= rs[best as int].last_seen));
                    }
                    lemma_first_where_some(rs.len() as int, f, best as int);
                }
                let kept = records.remove(best);
                let mut out: Vec<BookRecord> = Vec::new();
                out.push(kept);
                assert(out@ =~= seq![rs[best as int]]);
                out
            },
            DedupePolicy::KeepAll => records,
        }
    }

    /// Whether `contents` (the bytes of a file) still hash to `expected_hash`.
    pub fn verify_file_integrity(&self, expected_hash: &str, contents: &[u8]) -> (b: bool)
        ensures
            b == (blake3_hex(contents@) == expected_hash@),
    {
        let actual = hash_bytes(contents);
        same_str(actual.as_str(), expected_hash)
    }
}

} // verus!
