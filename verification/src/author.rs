//! Authors: canonical names and aliases.
use crate::text::{
    chars_of, ends_with, ends_with_vec, find, find_vec, is_whitespace, is_ws, join,
    lemma_find_props, lemma_join_push, lemma_trim_start_skip, occurs_at, push_all, same_str,
    slice_of, string_of, string_views, trim, trim_start, trim_start_by, trim_vec, ws_fn,
};
use vstd::prelude::*;
use vstd::string::StringExecFns;

verus! {

/// An author with the names the author is also known by.
#[derive(Debug, Clone)]
pub struct Author {
    pub id: i64,
    pub canonical_name: String,
    pub aliases: Vec<String>,
    pub created_at: i64,
    pub updated_at: i64,
}

/// Index of the first white-space character of `s`, or its length.
pub open spec fn word_end(s: Seq<char>) -> int
    decreases s.len(),
{
    if s.len() == 0 || is_ws(s[0]) {
        0
    } else {
        1 + word_end(s.drop_first())
    }
}

pub proof fn lemma_word_end(s: Seq<char>)
    ensures
        0 <= word_end(s) <= s.len(),
        s.len() > 0 && !is_ws(s[0]) ==> word_end(s) >= 1,
        forall|k: int| 0 <= k < word_end(s) ==> !is_ws(#[trigger] s[k]),
        word_end(s) < s.len() ==> is_ws(s[word_end(s)]),
    decreases s.len(),
{
    if s.len() > 0 && !is_ws(s[0]) {
        lemma_word_end(s.drop_first());
        assert forall|k: int| 0 <= k < word_end(s) implies !is_ws(#[trigger] s[k]) by {
            if k > 0 {
                assert(s[k] == s.drop_first()[k - 1]);
            }
        }
    }
}

pub proof fn lemma_trim_start_len(s: Seq<char>)
    ensures
        trim_start(s).len() <= s.len(),
        trim_start(s).len() > 0 ==> !is_ws(trim_start(s)[0]),
    decreases s.len(),
{
    if s.len() > 0 && is_ws(s[0]) {
        lemma_trim_start_len(s.drop_first());
    }
}

/// The white-space separated words of `s` (`str::split_whitespace`).
pub open spec fn words(s: Seq<char>) -> Seq<Seq<char>>
    decreases s.len(),
{
    let t = trim_start(s);
    if t.len() == 0 {
        Seq::empty()
    } else {
        proof {
            lemma_trim_start_len(s);
            lemma_word_end(t);
        }
        let e = word_end(t);
        if 1 <= e <= t.len() && t.len() <= s.len() {
            seq![t.take(e)] + words(t.skip(e))
        } else {
            Seq::empty()
        }
    }
}

/// The words of `s` joined by single spaces.
pub open spec fn collapse_spaces(s: Seq<char>) -> Seq<char> {
    join(words(s), seq![' '])
}

pub open spec fn role_suffixes() -> Seq<Seq<char>> {
    seq!["(Author)"@, "(Narrator)"@, "(editor)"@, "(illustrator)"@]
}

/// `s` without the suffix `p` (then trimmed) when it ends with it.
pub open spec fn cut_suffix(s: Seq<char>, p: Seq<char>) -> Seq<char> {
    if ends_with(s, p) {
        trim(s.take(s.len() - p.len()))
    } else {
        s
    }
}

/// The canonical form of an author's name: trimmed; the role suffixes
/// `(Author)`, `(Narrator)`, `(editor)`, `(illustrator)` cut off in that
/// order; `Last, First` turned into `First Last`; white space collapsed.
pub open spec fn canonical_name(name: Seq<char>) -> Seq<char> {
    let a = trim(name);
    let b = cut_suffix(a, role_suffixes()[0]);
    let c = cut_suffix(b, role_suffixes()[1]);
    let d = cut_suffix(c, role_suffixes()[2]);
    let e = cut_suffix(d, role_suffixes()[3]);
    let f = match find(e, seq![',']) {
        Some(pos) => trim(e.skip(pos + 1)) + seq![' '] + trim(e.take(pos)),
        None => e,
    };
    collapse_spaces(f)
}

fn cut_suffix_vec(s: Vec<char>, p: &str) -> (r: Vec<char>)
    ensures
        r@ == cut_suffix(s@, p@),
{
    let pv = chars_of(p);
    if ends_with_vec(&s, &pv) {
        trim_vec(&slice_of(&s, 0, s.len() - pv.len()))
    } else {
        s
    }
}

/// `str::split_whitespace` joined by single spaces.
pub fn collapse_spaces_vec(s: &Vec<char>) -> (r: Vec<char>)
    ensures
        r@ == collapse_spaces(s@),
{
    let ghost sv = s@;
    let mut out: Vec<char> = Vec::new();
    let ghost mut done: Seq<Seq<char>> = Seq::empty();
    let mut i: usize = 0;
    let n = s.len();
    proof {
        assert(sv.skip(0) =~= sv);
    }
    while i < n
        invariant
            i <= n,
            n == sv.len(),
            sv == s@,
            out@ == join(done, seq![' ']),
            (done.len() == 0) == (out@.len() == 0),
            words(sv) == done + words(sv.skip(i as int)),
        ensures
            i == n,
            out@ == join(done, seq![' ']),
            words(sv) == done + words(sv.skip(i as int)),
        decreases n - i,
    {
        let start0 = i;
        while i < n && is_whitespace(s[i])
            invariant
                start0 <= i <= n,
                n == sv.len(),
                sv == s@,
                forall|k: int| start0 <= k < i ==> is_ws(#[trigger] sv[k]),
            decreases n - i,
        {
            i += 1;
        }
        proof {
            let t0 = sv.skip(start0 as int);
            assert forall|k: int| 0 <= k < i - start0 implies (ws_fn())(t0[k]) by {
                assert(t0[k] == sv[start0 + k]);
            }
            lemma_trim_start_skip(t0, ws_fn(), i - start0);
            assert(t0.skip(i - start0) =~= sv.skip(i as int));
            if i < n {
                assert(!is_ws(sv.skip(i as int)[0]));
            }
            assert(trim_start(t0) == trim_start(sv.skip(i as int)));
            assert(trim_start(sv.skip(i as int)) == sv.skip(i as int));
        }
        if i == n {
            proof {
                assert(sv.skip(n as int).len() == 0);
                assert(trim_start(sv.skip(start0 as int)).len() == 0);
                assert(words(sv.skip(start0 as int)) =~= Seq::<Seq<char>>::empty());
                assert(done + Seq::<Seq<char>>::empty() =~= done);
            }
            break;
        }
        let start = i;
        while i < n && !is_whitespace(s[i])
            invariant
                start <= i <= n,
                n == sv.len(),
                sv == s@,
                forall|k: int| start <= k < i ==> !is_ws(#[trigger] sv[k]),
            decreases n - i,
        {
            i += 1;
        }
        let word = slice_of(s, start, i);
        proof {
            let t = sv.skip(start as int);
            lemma_word_end(t);
            lemma_trim_start_len(sv.skip(start0 as int));
            assert(t[0] == sv[start as int]);
            assert(word_end(t) == i - start) by {
                if word_end(t) < i - start {
                    assert(is_ws(t[word_end(t)]));
                    assert(t[word_end(t)] == sv[start + word_end(t)]);
                }
                if word_end(t) > i - start {
                    assert(!is_ws(t[i - start]));
                    assert(t[i - start] == sv[i as int]);
                }
            }
            assert(t.take(i - start) =~= word@);
            assert(t.skip(i - start) =~= sv.skip(i as int));
            assert(words(sv.skip(start0 as int)) == seq![word@] + words(sv.skip(i as int)));
        }
        let ghost old_done = done;
        assert(word@.len() >= 1);
        if out.len() > 0 {
            out.push(' ');
            push_all(&mut out, &word);
            proof {
                lemma_join_push(old_done, seq![' '], word@);
                assert(out@ =~= join(old_done, seq![' ']) + seq![' '] + word@);
            }
        } else {
            out = word;
            proof {
                assert(old_done.push(out@) =~= seq![out@]);
            }
        }
        proof {
            done = old_done.push(word@);
            assert(done + words(sv.skip(i as int)) =~= old_done + (seq![word@] + words(sv.skip(i as int))));
        }
    }
    proof {
        assert(i == n);
        let z = sv.skip(n as int);
        assert(z.len() == 0);
        assert(trim_start(z) == z);
        assert(words(z) =~= Seq::<Seq<char>>::empty());
        assert(done + Seq::<Seq<char>>::empty() =~= done);
    }
    out
}

/// The canonical form of an author's name.
pub fn normalize_name(name: &str) -> (r: String)
    ensures
        r@ == canonical_name(name@),
{
    let a = trim_vec(&chars_of(name));
    let b = cut_suffix_vec(a, "(Author)");
    let c = cut_suffix_vec(b, "(Narrator)");
    let d = cut_suffix_vec(c, "(editor)");
    let e = cut_suffix_vec(d, "(illustrator)");
    assert(role_suffixes()[0] == "(Author)"@);
    assert(role_suffixes()[1] == "(Narrator)"@);
    assert(role_suffixes()[2] == "(editor)"@);
    assert(role_suffixes()[3] == "(illustrator)"@);
    let mut comma: Vec<char> = Vec::new();
    comma.push(',');
    assert(comma@ =~= seq![',']);
    let f = match find_vec(&e, &comma) {
        Some(pos) => {
            proof {
                lemma_find_props(e@, comma@);
                assert(occurs_at(e@, comma@, pos as int));
            }
            let last = trim_vec(&slice_of(&e, 0, pos));
            let mut first = trim_vec(&slice_of(&e, pos + 1, e.len()));
            proof {
                assert(e@.subrange(0, pos as int) =~= e@.take(pos as int));
                assert(e@.subrange(pos + 1, e@.len() as int) =~= e@.skip(pos + 1));
            }
            first.push(' ');
            push_all(&mut first, &last);
            assert(first@ =~= trim(e@.skip(pos + 1)) + seq![' '] + trim(e@.take(pos as int)));
            first
        },
        None => e,
    };
    string_of(&collapse_spaces_vec(&f))
}

/// Adds `alias` to `aliases` unless present; tells whether it was added.
pub fn add_alias_to(aliases: &mut Vec<String>, alias: &str) -> (added: bool)
    ensures
        added == !string_views(old(aliases)@).contains(alias@),
        string_views(final(aliases)@) == if added {
            string_views(old(aliases)@).push(alias@)
        } else {
            string_views(old(aliases)@)
        },
{
    let ghost v = string_views(aliases@);
    let mut i: usize = 0;
    while i < aliases.len()
        invariant
            i <= aliases@.len(),
            v == string_views(aliases@),
            forall|k: int| 0 <= k < i ==> v[k] != alias@,
        decreases aliases@.len() - i,
    {
        if same_str(aliases[i].as_str(), alias) {
            assert(v[i as int] == alias@);
            return false;
        }
        i += 1;
    }
    aliases.push(String::from_str(alias));
    assert(string_views(aliases@) =~= v.push(alias@));
    true
}

} // verus!
