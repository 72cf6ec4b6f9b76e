//! Records of the book registry, and the grouping of its records into
//! duplicate groups.
use crate::grouping::{
    first_keys, lemma_first_keys_contains, lemma_first_keys_distinct, members, shared_keys,
};
use crate::scanner::{author_in_path, extract_author_from_path};
use crate::types::{title_author, title_author_of, BookFile, BookUnit};
use vstd::prelude::*;
use vstd::string::StringExecFns;

verus! {

/// One registered book file, keyed by its content hash.
#[derive(Debug, Clone)]
pub struct BookRecord {
    pub content_hash: String,
    pub title: Option<String>,
    pub author: Option<String>,
    pub file_path: String,
    pub output_path: Option<String>,
    pub size: u64,
    pub file_type: String,
    pub last_seen: i64,
    pub status: String,
}

/// The author of each record.
pub open spec fn author_keys(records: Seq<BookRecord>) -> Seq<Option<Seq<char>>> {
    records.map_values(|r: BookRecord| r.author.deep_view())
}

/// The records at the given indices.
pub open spec fn pick(records: Seq<BookRecord>, idx: Seq<int>) -> Seq<BookRecord> {
    idx.map_values(|j: int| records[j])
}

/// The duplicate groups of `records`: for each author that more than one
/// record names, in order of first appearance, that author and its records
/// in order.
pub open spec fn duplicate_groups(records: Seq<BookRecord>) -> Seq<(Seq<char>, Seq<BookRecord>)> {
    let keys = author_keys(records);
    shared_keys(first_keys(keys), keys).map_values(
        |k: Seq<char>| (k, pick(records, members(keys, k))),
    )
}

proof fn lemma_keys_take(records: Seq<BookRecord>, i: int)
    requires
        0 <= i < records.len(),
    ensures
        author_keys(records).take(i + 1).drop_last() == author_keys(records).take(i),
        author_keys(records).take(i + 1).last() == records[i].author.deep_view(),
        author_keys(records).take(i + 1).len() == i + 1,
{
    assert(author_keys(records).take(i + 1).drop_last() =~= author_keys(records).take(i));
}

/// Groups records by author and keeps the groups of more than one record.
pub fn group_duplicates(records: Vec<BookRecord>) -> (r: Vec<(String, Vec<BookRecord>)>)
    ensures
        r@.len() == duplicate_groups(records@).len(),
        forall|g: int|
            0 <= g < r@.len() ==> (#[trigger] r@[g]).0@ == duplicate_groups(records@)[g].0
                && r@[g].1@ == duplicate_groups(records@)[g].1,
{
    let ghost orig = records@;
    let ghost keys = author_keys(orig);
    let n = records.len();
    let mut records = records;
    let mut ks: Vec<String> = Vec::new();
    let mut ms: Vec<Vec<BookRecord>> = Vec::new();
    let mut i: usize = 0;
    proof {
        assert(orig.skip(0) =~= orig);
        assert(keys.take(0) =~= Seq::<Option<Seq<char>>>::empty());
    }
    while i < n
        invariant
            i <= n,
            n == orig.len(),
            keys == author_keys(orig),
            records@ == orig.skip(i as int),
            ks@.len() == ms@.len(),
            ks@.len() == first_keys(keys.take(i as int)).len(),
            forall|g: int| 0 <= g < ks@.len() ==> (#[trigger] ks@[g])@ == first_keys(keys.take(i as int))[g],
            forall|g: int|
                0 <= g < ms@.len() ==> (#[trigger] ms@[g])@ == pick(
                    orig,
                    members(keys.take(i as int), first_keys(keys.take(i as int))[g]),
                ),
        decreases n - i,
    {
        let rec = records.remove(0);
        let ghost fk = first_keys(keys.take(i as int));
        let ghost fk2 = first_keys(keys.take(i + 1));
        proof {
            assert(rec == orig[i as int]);
            assert(orig.skip(i as int).remove(0) =~= orig.skip(i + 1));
            lemma_keys_take(orig, i as int);
            lemma_first_keys_distinct(keys.take(i as int));
        }
        match &rec.author {
            None => {
                proof {
                    assert(fk2 == fk);
                    assert forall|k: Seq<char>| members(keys.take(i + 1), k) == members(keys.take(i as int), k) by {}
                }
                i += 1;
            },
            Some(a) => {
                let mut g: usize = 0;
                let mut found = false;
                while g < ks.len() && !found
                    invariant
                        g <= ks@.len(),
                        ks@.len() == fk.len(),
                        forall|h: int| 0 <= h < ks@.len() ==> (#[trigger] ks@[h])@ == fk[h],
                        found ==> g < ks@.len() && ks@[g as int]@ == a@,
                        !found ==> forall|h: int| 0 <= h < g ==> fk[h] != a@,
                    decreases ks@.len() - g + if found { 0int } else { 1int },
                {
                    if crate::text::same_str(ks[g].as_str(), a.as_str()) {
                        found = true;
                    } else {
                        g += 1;
                    }
                }
                if found {
                    let ghost old_ms = ms@;
                    let mut m = ms.remove(g);
                    m.push(rec);
                    ms.insert(g, m);
                    proof {
                        assert(fk.contains(a@));
                        assert(fk2 == fk);
                        assert forall|h: int| 0 <= h < ms@.len() implies (#[trigger] ms@[h])@ == pick(
                            orig,
                            members(keys.take(i + 1), fk2[h]),
                        ) by {
                            if h == g {
                                assert(members(keys.take(i + 1), fk[h]) == members(keys.take(i as int), fk[h]).push(i as int));
                                assert(pick(orig, members(keys.take(i + 1), fk[h])) =~= pick(orig, members(keys.take(i as int), fk[h])).push(orig[i as int]));
                            } else {
                                assert(ms@[h] == old_ms[h]);
                                assert(fk[h] != fk[g as int]);
                                assert(members(keys.take(i + 1), fk[h]) == members(keys.take(i as int), fk[h]));
                            }
                        }
                    }
                } else {
                    let key = a.clone();
                    let mut m: Vec<BookRecord> = Vec::new();
                    m.push(rec);
                    let ghost old_ms = ms@;
                    let ghost old_ks = ks@;
                    ks.push(key);
                    ms.push(m);
                    proof {
                        assert forall|h: int| 0 <= h < fk.len() implies fk[h] != a@ by {}
                        assert(!fk.contains(a@));
                        assert(fk2 == fk.push(a@));
                        lemma_first_keys_contains(keys.take(i as int), a@);
                        assert(members(keys.take(i as int), a@).len() == 0);
                        assert forall|h: int| 0 <= h < ks@.len() implies (#[trigger] ks@[h])@ == fk2[h] by {
                            if h < old_ks.len() {
                                assert(ks@[h] == old_ks[h]);
                            }
                        }
                        assert forall|h: int| 0 <= h < ms@.len() implies (#[trigger] ms@[h])@ == pick(
                            orig,
                            members(keys.take(i + 1), fk2[h]),
                        ) by {
                            if h < old_ms.len() {
                                assert(ms@[h] == old_ms[h]);
                                assert(fk[h] != a@);
                                assert(members(keys.take(i + 1), fk[h]) == members(keys.take(i as int), fk[h]));
                            } else {
                                assert(members(keys.take(i + 1), a@) =~= seq![i as int]);
                                assert(pick(orig, seq![i as int]) =~= seq![orig[i as int]]);
                            }
                        }
                    }
                }
                i += 1;
            },
        }
    }
    proof {
        assert(keys.take(n as int) =~= keys);
    }
    let ghost fk = first_keys(keys);
    let mut result: Vec<(String, Vec<BookRecord>)> = Vec::new();
    let total = ks.len();
    let mut g: usize = 0;
    proof {
        assert(fk.take(0) =~= Seq::<Seq<char>>::empty());
    }
    while g < total
        invariant
            g <= total,
            total == fk.len(),
            fk == first_keys(keys),
            keys == author_keys(orig),
            ks@.len() == total - g,
            ms@.len() == total - g,
            forall|h: int| 0 <= h < ks@.len() ==> (#[trigger] ks@[h])@ == fk[h + g],
            forall|h: int| 0 <= h < ms@.len() ==> (#[trigger] ms@[h])@ == pick(orig, members(keys, fk[h + g])),
            result@.len() == shared_keys(fk.take(g as int), keys).len(),
            forall|h: int|
                0 <= h < result@.len() ==> (#[trigger] result@[h]).0@ == shared_keys(fk.take(g as int), keys)[h]
                    && result@[h].1@ == pick(orig, members(keys, shared_keys(fk.take(g as int), keys)[h])),
        decreases total - g,
    {
        let ghost old_ks = ks@;
        let ghost old_ms = ms@;
        let k = ks.remove(0);
        let m = ms.remove(0);
        proof {
            assert(fk.take(g + 1).drop_last() =~= fk.take(g as int));
            assert(fk.take(g + 1).last() == fk[g as int]);
            assert(k@ == fk[g as int]);
            assert forall|h: int| 0 <= h < ks@.len() implies (#[trigger] ks@[h])@ == fk[h + g + 1] by {
                assert(ks@[h] == old_ks[h + 1]);
            }
            assert forall|h: int| 0 <= h < ms@.len() implies (#[trigger] ms@[h])@ == pick(orig, members(keys, fk[h + g + 1])) by {
                assert(ms@[h] == old_ms[h + 1]);
            }
        }
        if m.len() > 1 {
            let ghost old_result = result@;
            result.push((k, m));
            proof {
                assert forall|h: int|
                    0 <= h < result@.len() implies (#[trigger] result@[h]).0@ == shared_keys(fk.take(g + 1), keys)[h]
                        && result@[h].1@ == pick(orig, members(keys, shared_keys(fk.take(g + 1), keys)[h])) by {
                    if h < old_result.len() {
                        assert(result@[h] == old_result[h]);
                    }
                }
            }
        }
        g += 1;
    }
    proof {
        assert(fk.take(total as int) =~= fk);
    }
    result
}

/// Which author name a newly registered file is looked up under in the
/// author database.
#[derive(Debug, Clone, PartialEq, Eq)]
pub enum AuthorLookup {
    /// The author inferred for the file.
    Inferred(String),
    /// The author suggested by the folders above the file.
    FromPath(String),
    /// No author is known.
    NoAuthor,
}

impl AuthorLookup {
    /// The lookup as a tag and a name: 0 for inferred, 1 for the path, 2
    /// for none.
    pub open spec fn parts(self) -> (int, Seq<char>) {
        match self {
            AuthorLookup::Inferred(n) => (0, n@),
            AuthorLookup::FromPath(n) => (1, n@),
            AuthorLookup::NoAuthor => (2, Seq::empty()),
        }
    }

    /// The author recorded when the lookup fails: an inferred name is
    /// kept, a name from the path is dropped.
    pub fn fallback(self) -> (r: Option<String>)
        ensures
            r.deep_view() == if self.parts().0 == 0 {
                Some(self.parts().1)
            } else {
                None::<Seq<char>>
            },
    {
        match self {
            AuthorLookup::Inferred(n) => Some(n),
            _ => None,
        }
    }
}

/// The lookup for a file: its inferred author when it has one, else the
/// author that its folders suggest, else none.
pub open spec fn author_lookup_of(file: BookFile) -> (int, Seq<char>) {
    match title_author_of(file.inferred).1 {
        Some(a) => (0, a),
        None => match author_in_path(file.path@) {
            Some(p) => (1, p),
            None => (2, Seq::empty()),
        },
    }
}

/// The author name under which a newly registered file is looked up
/// (`author_lookup_of`).
pub fn author_lookup(file: &BookFile) -> (r: AuthorLookup)
    ensures
        r.parts() == author_lookup_of(*file),
{
    let (_title, author) = title_author(&file.inferred);
    match author {
        Some(a) => AuthorLookup::Inferred(a),
        None => match extract_author_from_path(file.path.as_str()) {
            Some(p) => AuthorLookup::FromPath(p),
            None => AuthorLookup::NoAuthor,
        },
    }
}

impl BookRecord {
    /// The record of a newly discovered file with content hash `hash`: the
    /// given title and author, the file's path, size and type, no output,
    /// seen at `last_seen`, with status `discovered`.
    pub fn discovered(
        file: &BookFile,
        hash: &str,
        title: Option<String>,
        author: Option<String>,
        last_seen: i64,
    ) -> (r: BookRecord)
        ensures
            r.content_hash@ == hash@,
            r.title == title,
            r.author == author,
            r.file_path@ == file.path@,
            r.output_path is None,
            r.size == file.size,
            r.file_type@ == file.file_type.registry_name_of(),
            r.last_seen == last_seen,
            r.status@ == "discovered"@,
    {
        BookRecord {
            content_hash: String::from_str(hash),
            title,
            author,
            file_path: file.path.clone(),
            output_path: None,
            size: file.size,
            file_type: file.file_type.registry_name(),
            last_seen,
            status: String::from_str("discovered"),
        }
    }

    /// Whether the record has the given author and the given status, where
    /// each is asked for.
    pub open spec fn passes(self, author: Option<Seq<char>>, status: Option<Seq<char>>) -> bool {
        &&& (author matches Some(a) ==> self.author.deep_view() == Some(a))
        &&& (status matches Some(s) ==> self.status@ == s)
    }

    /// Whether the record passes the author and status filters (`passes`).
    pub fn matches_filter(&self, author: &Option<String>, status: &Option<String>) -> (b: bool)
        ensures
            b == self.passes(author.deep_view(), status.deep_view()),
    {
        if let Some(a) = author {
            match &self.author {
                Some(mine) => {
                    if !crate::text::same_str(mine.as_str(), a.as_str()) {
                        return false;
                    }
                },
                None => return false,
            }
        }
        if let Some(st) = status {
            if !crate::text::same_str(self.status.as_str(), st.as_str()) {
                return false;
            }
        }
        true
    }

    /// The record kept for an audio unit that could not be merged: keyed by
    /// the unit's id, with its title, author and first source file, no
    /// output, size 0, type `audio`, and the given status.
    pub fn for_failed_unit(unit: &BookUnit, status: &str) -> (r: BookRecord)
        ensures
            r.content_hash@ == unit.id@,
            r.title.deep_view() == unit.title.deep_view(),
            r.author.deep_view() == unit.author.deep_view(),
            r.file_path@ == if unit.source_files@.len() > 0 {
                unit.source_files@[0]@
            } else {
                Seq::empty()
            },
            r.output_path is None,
            r.size == 0,
            r.file_type@ == "audio"@,
            r.last_seen == 0,
            r.status@ == status@,
    {
        let file_path = if unit.source_files.len() > 0 {
            unit.source_files[0].clone()
        } else {
            String::new()
        };
        BookRecord {
            content_hash: unit.id.clone(),
            title: crate::text::clone_opt(&unit.title),
            author: crate::text::clone_opt(&unit.author),
            file_path,
            output_path: None,
            size: 0,
            file_type: String::from_str("audio"),
            last_seen: 0,
            status: String::from_str(status),
        }
    }
}

} // verus!
