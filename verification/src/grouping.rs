//! Grouping of items by an optional text key, groups in order of first
//! appearance and members in input order.
use vstd::prelude::*;

verus! {

/// The distinct present keys, in order of first appearance.
pub open spec fn first_keys(keys: Seq<Option<Seq<char>>>) -> Seq<Seq<char>>
    decreases keys.len(),
{
    if keys.len() == 0 {
        Seq::empty()
    } else {
        let prev = first_keys(keys.drop_last());
        match keys.last() {
            Some(k) => if prev.contains(k) {
                prev
            } else {
                prev.push(k)
            },
            None => prev,
        }
    }
}

/// Indices, in increasing order, of the items whose key is `k`.
pub open spec fn members(keys: Seq<Option<Seq<char>>>, k: Seq<char>) -> Seq<int>
    decreases keys.len(),
{
    if keys.len() == 0 {
        Seq::empty()
    } else {
        let prev = members(keys.drop_last(), k);
        if keys.last() == Some(k) {
            prev.push(keys.len() - 1)
        } else {
            prev
        }
    }
}

/// The keys of `ks` that more than one item has.
pub open spec fn shared_keys(ks: Seq<Seq<char>>, keys: Seq<Option<Seq<char>>>) -> Seq<Seq<char>>
    decreases ks.len(),
{
    if ks.len() == 0 {
        Seq::empty()
    } else {
        let prev = shared_keys(ks.drop_last(), keys);
        if members(keys, ks.last()).len() > 1 {
            prev.push(ks.last())
        } else {
            prev
        }
    }
}

/// Keys appear once in `first_keys`.
pub proof fn lemma_first_keys_distinct(keys: Seq<Option<Seq<char>>>)
    ensures
        first_keys(keys).no_duplicates(),
    decreases keys.len(),
{
    if keys.len() > 0 {
        lemma_first_keys_distinct(keys.drop_last());
    }
}

/// A key is listed exactly when some item has it.
pub proof fn lemma_first_keys_contains(keys: Seq<Option<Seq<char>>>, k: Seq<char>)
    ensures
        first_keys(keys).contains(k) <==> members(keys, k).len() > 0,
    decreases keys.len(),
{
    if keys.len() > 0 {
        lemma_first_keys_contains(keys.drop_last(), k);
        let prev = first_keys(keys.drop_last());
        if keys.last() == Some(k) && !prev.contains(k) {
            assert(prev.push(k).contains(k)) by {
                assert(prev.push(k)[prev.len() as int] == k);
            }
        }
        if keys.last() != Some(k) {
            match keys.last() {
                Some(k2) => if !prev.contains(k2) {
                    if prev.push(k2).contains(k) {
                        let i = choose|i: int| 0 <= i < prev.push(k2).len() && prev.push(k2)[i] == k;
                        if i < prev.len() {
                            assert(prev.contains(k));
                        }
                    }
                    if prev.contains(k) {
                        let i = choose|i: int| 0 <= i < prev.len() && prev[i] == k;
                        assert(prev.push(k2)[i] == k);
                    }
                },
                None => {},
            }
        }
    }
}

/// Members are valid indices carrying the key.
pub proof fn lemma_members_valid(keys: Seq<Option<Seq<char>>>, k: Seq<char>)
    ensures
        forall|j: int|
            0 <= j < members(keys, k).len() ==> 0 <= #[trigger] members(keys, k)[j] < keys.len()
                && keys[members(keys, k)[j]] == Some(k),
    decreases keys.len(),
{
    if keys.len() > 0 {
        lemma_members_valid(keys.drop_last(), k);
    }
}

/// Every item with key `k` is a member of `k`.
pub proof fn lemma_members_complete(keys: Seq<Option<Seq<char>>>, k: Seq<char>, i: int)
    requires
        0 <= i < keys.len(),
        keys[i] == Some(k),
    ensures
        members(keys, k).contains(i),
    decreases keys.len(),
{
    let prev = members(keys.drop_last(), k);
    if i == keys.len() - 1 {
        assert(prev.push(i)[prev.len() as int] == i);
    } else {
        assert(keys.drop_last()[i] == keys[i]);
        lemma_members_complete(keys.drop_last(), k, i);
        let p = choose|p: int| 0 <= p < prev.len() && prev[p] == i;
        if keys.last() == Some(k) {
            assert(prev.push(keys.len() - 1)[p] == i);
        }
    }
}

/// The members of a key are in increasing order.
pub proof fn lemma_members_increasing(keys: Seq<Option<Seq<char>>>, k: Seq<char>)
    ensures
        forall|a: int, b: int|
            0 <= a < b < members(keys, k).len() ==> #[trigger] members(keys, k)[a] < #[trigger] members(
                keys,
                k,
            )[b],
    decreases keys.len(),
{
    if keys.len() > 0 {
        let init = keys.drop_last();
        lemma_members_increasing(init, k);
        lemma_members_valid(init, k);
    }
}

/// The shared keys are keys of `ks` that more than one item has, each once
/// when `ks` holds each once, and every such key of `ks` is among them.
pub proof fn lemma_shared_keys(ks: Seq<Seq<char>>, keys: Seq<Option<Seq<char>>>)
    ensures
        forall|g: int|
            0 <= g < shared_keys(ks, keys).len() ==> ks.contains(#[trigger] shared_keys(ks, keys)[g])
                && members(keys, shared_keys(ks, keys)[g]).len() > 1,
        ks.no_duplicates() ==> shared_keys(ks, keys).no_duplicates(),
        forall|k: Seq<char>|
            ks.contains(k) && members(keys, k).len() > 1 ==> #[trigger] shared_keys(ks, keys).contains(k),
    decreases ks.len(),
{
    if ks.len() > 0 {
        let init = ks.drop_last();
        let prev = shared_keys(init, keys);
        lemma_shared_keys(init, keys);
        let cur = shared_keys(ks, keys);
        assert forall|g: int| 0 <= g < cur.len() implies ks.contains(#[trigger] cur[g]) && members(keys, cur[g]).len() > 1 by {
            if g < prev.len() {
                assert(cur[g] == prev[g]);
                let p = choose|p: int| 0 <= p < init.len() && init[p] == prev[g];
                assert(ks[p] == init[p]);
            } else {
                assert(cur[g] == ks.last());
                assert(ks[ks.len() - 1] == ks.last());
            }
        }
        if ks.no_duplicates() {
            assert(init.no_duplicates()) by {
                assert forall|a: int, b: int| 0 <= a < b < init.len() implies init[a] != init[b] by {
                    assert(init[a] == ks[a] && init[b] == ks[b]);
                }
            }
            if members(keys, ks.last()).len() > 1 {
                assert(!prev.contains(ks.last())) by {
                    if prev.contains(ks.last()) {
                        let g = choose|g: int| 0 <= g < prev.len() && prev[g] == ks.last();
                        assert(init.contains(prev[g]));
                        let p = choose|p: int| 0 <= p < init.len() && init[p] == prev[g];
                        assert(ks[p] == ks[ks.len() - 1]);
                    }
                }
                assert forall|a: int, b: int| 0 <= a < b < cur.len() implies cur[a] != cur[b] by {
                    if b == prev.len() {
                        assert(cur[a] == prev[a]);
                    } else {
                        assert(cur[a] == prev[a] && cur[b] == prev[b]);
                    }
                }
            }
        }
        assert forall|k: Seq<char>| ks.contains(k) && members(keys, k).len() > 1 implies #[trigger] cur.contains(k) by {
            let p = choose|p: int| 0 <= p < ks.len() && ks[p] == k;
            if p < init.len() {
                assert(init[p] == k);
                assert(prev.contains(k));
                let g = choose|g: int| 0 <= g < prev.len() && prev[g] == k;
                assert(cur[g] == k);
            } else {
                assert(cur[prev.len() as int] == k);
            }
        }
    }
}

/// Indices as integers.
pub open spec fn ints(v: Seq<usize>) -> Seq<int> {
    v.map_values(|x: usize| x as int)
}

/// The distinct present keys in order of first appearance, and for each the
/// indices of the items that have it.
pub fn group_indices(keys: &Vec<Option<String>>) -> (r: (Vec<String>, Vec<Vec<usize>>))
    ensures
        r.0@.len() == r.1@.len(),
        r.0@.len() == first_keys(keys.deep_view()).len(),
        forall|g: int| 0 <= g < r.0@.len() ==> (#[trigger] r.0@[g])@ == first_keys(keys.deep_view())[g],
        forall|g: int|
            0 <= g < r.1@.len() ==> ints((#[trigger] r.1@[g])@) == members(
                keys.deep_view(),
                first_keys(keys.deep_view())[g],
            ),
{
    let ghost kv = keys.deep_view();
    let mut ks: Vec<String> = Vec::new();
    let mut ms: Vec<Vec<usize>> = Vec::new();
    let mut i: usize = 0;
    proof {
        assert(kv.take(0) =~= Seq::<Option<Seq<char>>>::empty());
    }
    while i < keys.len()
        invariant
            i <= keys@.len(),
            kv == keys.deep_view(),
            kv.len() == keys@.len(),
            ks@.len() == ms@.len(),
            ks@.len() == first_keys(kv.take(i as int)).len(),
            forall|g: int| 0 <= g < ks@.len() ==> (#[trigger] ks@[g])@ == first_keys(kv.take(i as int))[g],
            forall|g: int|
                0 <= g < ms@.len() ==> ints((#[trigger] ms@[g])@) == members(
                    kv.take(i as int),
                    first_keys(kv.take(i as int))[g],
                ),
        decreases keys@.len() - i,
    {
        let ghost fk = first_keys(kv.take(i as int));
        let ghost fk2 = first_keys(kv.take(i + 1));
        proof {
            assert(kv.take(i + 1).drop_last() =~= kv.take(i as int));
            assert(kv.take(i + 1).last() == kv[i as int]);
            assert(kv[i as int] == keys@[i as int].deep_view());
            lemma_first_keys_distinct(kv.take(i as int));
        }
        match &keys[i] {
            None => {
                proof {
                    assert(fk2 == fk);
                    assert forall|k: Seq<char>| members(kv.take(i + 1), k) == members(kv.take(i as int), k) by {}
                }
            },
            Some(a) => {
                let mut g: usize = 0;
                let mut found = false;
                while g < ks.len() && !found
                    invariant
                        g <= ks@.len(),
                        ks@.len() == fk.len(),
                        forall|h: int| 0 <= h < ks@.len() ==> (#[trigger] ks@[h])@ == fk[h],
                        found ==> g < ks@.len() && ks@[g as int]@ == a@,
                        !found ==> forall|h: int| 0 <= h < g ==> fk[h] != a@,
                    decreases ks@.len() - g + if found { 0int } else { 1int },
                {
                    if crate::text::same_str(ks[g].as_str(), a.as_str()) {
                        found = true;
                    } else {
                        g += 1;
                    }
                }
                if found {
                    let ghost old_ms = ms@;
                    let mut m = ms.remove(g);
                    m.push(i);
                    ms.insert(g, m);
                    proof {
                        assert(fk.contains(a@));
                        assert(fk2 == fk);
                        assert forall|h: int| 0 <= h < ms@.len() implies ints((#[trigger] ms@[h])@) == members(
                            kv.take(i + 1),
                            fk2[h],
                        ) by {
                            if h == g {
                                assert(ints(ms@[h]@) =~= ints(old_ms[h]@).push(i as int));
                            } else {
                                assert(ms@[h] == old_ms[h]);
                                assert(fk[h] != fk[g as int]);
                            }
                        }
                    }
                } else {
                    let key = a.clone();
                    let mut m: Vec<usize> = Vec::new();
                    m.push(i);
                    let ghost old_ms = ms@;
                    let ghost old_ks = ks@;
                    ks.push(key);
                    ms.push(m);
                    proof {
                        assert forall|h: int| 0 <= h < fk.len() implies fk[h] != a@ by {}
                        assert(!fk.contains(a@));
                        assert(fk2 == fk.push(a@));
                        lemma_first_keys_contains(kv.take(i as int), a@);
                        assert forall|h: int| 0 <= h < ks@.len() implies (#[trigger] ks@[h])@ == fk2[h] by {
                            if h < old_ks.len() {
                                assert(ks@[h] == old_ks[h]);
                            }
                        }
                        assert forall|h: int| 0 <= h < ms@.len() implies ints((#[trigger] ms@[h])@) == members(
                            kv.take(i + 1),
                            fk2[h],
                        ) by {
                            if h < old_ms.len() {
                                assert(ms@[h] == old_ms[h]);
                                assert(fk[h] != a@);
                            } else {
                                assert(members(kv.take(i + 1), a@) =~= seq![i as int]);
                                assert(ints(ms@[h]@) =~= seq![i as int]);
                            }
                        }
                    }
                }
            },
        }
        i += 1;
    }
    proof {
        assert(kv.take(keys@.len() as int) =~= kv);
    }
    (ks, ms)
}


/// The keys that more than one item has, in order of first appearance, each
/// with the indices of its items.
pub fn shared_key_groups(keys: &Vec<Option<String>>) -> (r: Vec<(String, Vec<usize>)>)
    ensures
        r@.len() == shared_keys(first_keys(keys.deep_view()), keys.deep_view()).len(),
        forall|g: int|
            0 <= g < r@.len() ==> (#[trigger] r@[g]).0@ == shared_keys(
                first_keys(keys.deep_view()),
                keys.deep_view(),
            )[g] && ints(r@[g].1@) == members(
                keys.deep_view(),
                shared_keys(first_keys(keys.deep_view()), keys.deep_view())[g],
            ),
{
    let ghost kv = keys.deep_view();
    let ghost fk = first_keys(kv);
    let (ks, ms) = group_indices(keys);
    let mut ks = ks;
    let mut ms = ms;
    let total = ks.len();
    let mut out: Vec<(String, Vec<usize>)> = Vec::new();
    let mut g: usize = 0;
    proof {
        assert(fk.take(0) =~= Seq::<Seq<char>>::empty());
    }
    while g < total
        invariant
            g <= total,
            total == fk.len(),
            kv == keys.deep_view(),
            fk == first_keys(kv),
            ks@.len() == total - g,
            ms@.len() == total - g,
            forall|h: int| 0 <= h < ks@.len() ==> (#[trigger] ks@[h])@ == fk[g + h],
            forall|h: int| 0 <= h < ms@.len() ==> ints((#[trigger] ms@[h])@) == members(kv, fk[g + h]),
            out@.len() == shared_keys(fk.take(g as int), kv).len(),
            forall|h: int|
                0 <= h < out@.len() ==> (#[trigger] out@[h]).0@ == shared_keys(fk.take(g as int), kv)[h]
                    && ints(out@[h].1@) == members(kv, shared_keys(fk.take(g as int), kv)[h]),
        decreases total - g,
    {
        let ghost old_ks = ks@;
        let ghost old_ms = ms@;
        let k = ks.remove(0);
        let m = ms.remove(0);
        let ghost old_out = out@;
        proof {
            assert(k@ == fk[g as int]);
            assert(ints(m@) == members(kv, fk[g as int]));
            assert(fk.take(g + 1).drop_last() =~= fk.take(g as int));
            assert(fk.take(g + 1).last() == fk[g as int]);
            assert forall|h: int| 0 <= h < ks@.len() implies (#[trigger] ks@[h])@ == fk[g + 1 + h] by {
                assert(ks@[h] == old_ks[h + 1]);
            }
            assert forall|h: int| 0 <= h < ms@.len() implies ints((#[trigger] ms@[h])@) == members(kv, fk[g + 1 + h]) by {
                assert(ms@[h] == old_ms[h + 1]);
            }
        }
        if m.len() > 1 {
            out.push((k, m));
            proof {
                assert forall|h: int| 0 <= h < out@.len() implies (#[trigger] out@[h]).0@ == shared_keys(fk.take(g + 1), kv)[h]
                    && ints(out@[h].1@) == members(kv, shared_keys(fk.take(g + 1), kv)[h]) by {
                    if h < old_out.len() {
                        assert(out@[h] == old_out[h]);
                    }
                }
            }
        }
        g += 1;
    }
    proof {
        assert(fk.take(total as int) =~= fk);
    }
    out
}

} // verus!
