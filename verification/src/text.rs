//! Character-sequence operations used throughout the library, each stated
//! over `Seq<char>` and implemented on `Vec<char>`.
use vstd::prelude::*;

verus! {

// ---------------------------------------------------------------------------
// Specifications
// ---------------------------------------------------------------------------

/// Unicode `White_Space`, the property that `char::is_whitespace` tests.
pub open spec fn is_ws(c: char) -> bool {
    let u = c as u32;
    ||| 9 <= u <= 13
    ||| u == 32
    ||| u == 0x85
    ||| u == 0xa0
    ||| u == 0x1680
    ||| 0x2000 <= u <= 0x200a
    ||| u == 0x2028
    ||| u == 0x2029
    ||| u == 0x202f
    ||| u == 0x205f
    ||| u == 0x3000
}

/// `s` without its leading characters that satisfy `f`.
pub open spec fn trim_start_by(s: Seq<char>, f: spec_fn(char) -> bool) -> Seq<char>
    decreases s.len(),
{
    if s.len() > 0 && f(s[0]) {
        trim_start_by(s.drop_first(), f)
    } else {
        s
    }
}

/// `s` without its trailing characters that satisfy `f`.
pub open spec fn trim_end_by(s: Seq<char>, f: spec_fn(char) -> bool) -> Seq<char>
    decreases s.len(),
{
    if s.len() > 0 && f(s.last()) {
        trim_end_by(s.drop_last(), f)
    } else {
        s
    }
}

pub open spec fn ws_fn() -> spec_fn(char) -> bool {
    |c: char| is_ws(c)
}

/// `str::trim_start`.
pub open spec fn trim_start(s: Seq<char>) -> Seq<char> {
    trim_start_by(s, ws_fn())
}

/// `str::trim_end`.
pub open spec fn trim_end(s: Seq<char>) -> Seq<char> {
    trim_end_by(s, ws_fn())
}

/// `str::trim`: leading and trailing white space removed.
pub open spec fn trim(s: Seq<char>) -> Seq<char> {
    trim_end(trim_start(s))
}

pub open spec fn starts_with(s: Seq<char>, p: Seq<char>) -> bool {
    p.len() <= s.len() && s.take(p.len() as int) == p
}

pub open spec fn ends_with(s: Seq<char>, p: Seq<char>) -> bool {
    p.len() <= s.len() && s.skip(s.len() - p.len()) == p
}

/// `p` occurs in `s` starting at index `i`.
pub open spec fn occurs_at(s: Seq<char>, p: Seq<char>, i: int) -> bool {
    0 <= i && i + p.len() <= s.len() && s.subrange(i, i + p.len()) == p
}

/// `str::contains` with a string pattern.
pub open spec fn contains(s: Seq<char>, p: Seq<char>) -> bool {
    exists|i: int| occurs_at(s, p, i)
}

/// Index of the first occurrence of `p` in `s` (`str::find`, counted in characters).
pub open spec fn find(s: Seq<char>, p: Seq<char>) -> Option<int>
    decreases s.len(),
{
    if p.len() > s.len() {
        None
    } else if p.len() == 0 || s.take(p.len() as int) == p {
        Some(0)
    } else {
        match find(s.drop_first(), p) {
            Some(j) => Some(j + 1),
            None => None,
        }
    }
}


/// Pieces of `s` between the occurrences of `sep` (`str::split` with a
/// non-empty string pattern).
pub open spec fn split(s: Seq<char>, sep: Seq<char>) -> Seq<Seq<char>>
    decreases s.len(),
{
    if sep.len() == 0 {
        seq![s]
    } else {
        match find(s, sep) {
            Some(i) => if 0 <= i && i + sep.len() <= s.len() {
                seq![s.take(i)] + split(s.skip(i + sep.len()), sep)
            } else {
                seq![s]
            },
            None => seq![s],
        }
    }
}

/// The pieces joined with `sep` between consecutive pieces (`[T]::join`).
pub open spec fn join(parts: Seq<Seq<char>>, sep: Seq<char>) -> Seq<char>
    decreases parts.len(),
{
    if parts.len() == 0 {
        Seq::empty()
    } else if parts.len() == 1 {
        parts[0]
    } else {
        parts[0] + sep + join(parts.drop_first(), sep)
    }
}

/// `str::trim_end_matches` with a non-empty string pattern: the suffix `p`
/// removed as long as it is present.
pub open spec fn strip_suffixes(s: Seq<char>, p: Seq<char>) -> Seq<char>
    decreases s.len(),
{
    if p.len() > 0 && ends_with(s, p) {
        strip_suffixes(s.take(s.len() - p.len()), p)
    } else {
        s
    }
}

/// `str::replace` with a string pattern: non-overlapping occurrences of
/// `from`, found left to right, each replaced by `to`.
pub open spec fn replace(s: Seq<char>, from: Seq<char>, to: Seq<char>) -> Seq<char>
    decreases s.len(),
{
    if s.len() == 0 {
        s
    } else if from.len() > 0 && starts_with(s, from) {
        to + replace(s.skip(from.len() as int), from, to)
    } else {
        seq![s[0]] + replace(s.drop_first(), from, to)
    }
}

/// Number of bytes of the UTF-8 encoding of `c` (`char::len_utf8`).
pub open spec fn char_utf8_len(c: char) -> nat {
    let u = c as u32;
    if u < 0x80 {
        1
    } else if u < 0x800 {
        2
    } else if u < 0x10000 {
        3
    } else {
        4
    }
}

/// Number of bytes of the UTF-8 encoding of `s` (`str::len`).
pub open spec fn utf8_len(s: Seq<char>) -> nat
    decreases s.len(),
{
    if s.len() == 0 {
        0
    } else {
        utf8_len(s.drop_last()) + char_utf8_len(s.last())
    }
}

pub open spec fn is_ascii_digit(c: char) -> bool {
    '0' <= c <= '9'
}

/// Every character is an ASCII digit (true of the empty sequence).
pub open spec fn all_ascii_digits(s: Seq<char>) -> bool {
    forall|i: int| 0 <= i < s.len() ==> is_ascii_digit(#[trigger] s[i])
}

/// Some character is an ASCII digit.
pub open spec fn any_ascii_digit(s: Seq<char>) -> bool {
    exists|i: int| 0 <= i < s.len() && is_ascii_digit(#[trigger] s[i])
}

/// The character views of a sequence of character vectors.
pub open spec fn views(v: Seq<Vec<char>>) -> Seq<Seq<char>> {
    v.map_values(|x: Vec<char>| x@)
}

/// The views of a sequence of strings.
pub open spec fn string_views(v: Seq<String>) -> Seq<Seq<char>> {
    v.map_values(|x: String| x@)
}

/// Decimal digits of `n` without leading zeros (`u64`'s `Display`).
pub open spec fn decimal(n: nat) -> Seq<char>
    decreases n,
{
    if n < 10 {
        seq![digit_char(n)]
    } else {
        decimal(n / 10).push(digit_char(n % 10))
    }
}

pub open spec fn digit_char(d: nat) -> char {
    if d == 0 { '0' } else if d == 1 { '1' } else if d == 2 { '2' } else if d == 3 { '3' }
    else if d == 4 { '4' } else if d == 5 { '5' } else if d == 6 { '6' } else if d == 7 { '7' }
    else if d == 8 { '8' } else { '9' }
}


/// `i` is the first index below `n` at which `f` holds.
pub open spec fn is_first(n: int, f: spec_fn(int) -> bool, i: int) -> bool {
    0 <= i < n && f(i) && forall|j: int| 0 <= j < i ==> !#[trigger] f(j)
}

/// The first index below `n` at which `f` holds, if any.
pub open spec fn first_where(n: int, f: spec_fn(int) -> bool) -> Option<int> {
    if exists|i: int| is_first(n, f, i) {
        Some(choose|i: int| is_first(n, f, i))
    } else {
        None
    }
}

pub proof fn lemma_first_where_some(n: int, f: spec_fn(int) -> bool, i: int)
    requires
        is_first(n, f, i),
    ensures
        first_where(n, f) == Some(i),
{
    let k = choose|k: int| is_first(n, f, k);
    assert(is_first(n, f, k));
    if k < i {
        assert(!f(k));
    } else if k > i {
        assert(!f(i));
    }
}

/// Where `f` holds somewhere below `n`, `first_where` finds the first such index.
pub proof fn lemma_first_where_found(n: int, f: spec_fn(int) -> bool, i: int)
    requires
        0 <= i < n,
        f(i),
    ensures
        first_where(n, f) matches Some(k) && is_first(n, f, k),
    decreases i,
{
    if exists|j: int| 0 <= j < i && #[trigger] f(j) {
        let j = choose|j: int| 0 <= j < i && #[trigger] f(j);
        lemma_first_where_found(n, f, j);
    } else {
        assert(is_first(n, f, i));
        lemma_first_where_some(n, f, i);
    }
}

pub proof fn lemma_first_where_none(n: int, f: spec_fn(int) -> bool)
    requires
        forall|i: int| 0 <= i < n ==> !#[trigger] f(i),
    ensures
        first_where(n, f) is None,
{
    if exists|i: int| is_first(n, f, i) {
        let k = choose|k: int| is_first(n, f, k);
        assert(f(k));
    }
}

// ---------------------------------------------------------------------------
// Lemmas
// ---------------------------------------------------------------------------

pub proof fn lemma_trim_start_skip(s: Seq<char>, f: spec_fn(char) -> bool, a: int)
    requires
        0 <= a <= s.len(),
        forall|k: int| 0 <= k < a ==> f(s[k]),
    ensures
        trim_start_by(s, f) == trim_start_by(s.skip(a), f),
    decreases a,
{
    if a > 0 {
        assert(s.skip(a) == s.drop_first().skip(a - 1));
        lemma_trim_start_skip(s.drop_first(), f, a - 1);
    } else {
        assert(s.skip(0) == s);
    }
}

pub proof fn lemma_trim_end_take(s: Seq<char>, f: spec_fn(char) -> bool, b: int)
    requires
        0 <= b <= s.len(),
        forall|k: int| b <= k < s.len() ==> f(s[k]),
    ensures
        trim_end_by(s, f) == trim_end_by(s.take(b), f),
    decreases s.len() - b,
{
    if b < s.len() {
        assert(s.drop_last().take(b) == s.take(b));
        lemma_trim_end_take(s.drop_last(), f, b);
    } else {
        assert(s.take(b) == s);
    }
}

pub proof fn lemma_find_props(s: Seq<char>, p: Seq<char>)
    ensures
        match find(s, p) {
            Some(i) => occurs_at(s, p, i) && forall|j: int| 0 <= j < i ==> !occurs_at(s, p, j),
            None => !contains(s, p),
        },
    decreases s.len(),
{
    if p.len() > s.len() {
        assert(!contains(s, p));
    } else if p.len() == 0 || s.take(p.len() as int) == p {
        assert(s.subrange(0, p.len() as int) =~= s.take(p.len() as int));
        if p.len() == 0 {
            assert(s.subrange(0, 0) =~= p);
        }
        assert(occurs_at(s, p, 0));
    } else {
        lemma_find_props(s.drop_first(), p);
        assert(!occurs_at(s, p, 0)) by {
            assert(s.subrange(0, p.len() as int) =~= s.take(p.len() as int));
        }
        assert forall|j: int| 1 <= j && occurs_at(s, p, j) implies occurs_at(s.drop_first(), p, j - 1) by {
            assert(s.drop_first().subrange(j - 1, j - 1 + p.len()) =~= s.subrange(j, j + p.len()));
        }
        match find(s.drop_first(), p) {
            Some(i) => {
                assert(s.drop_first().subrange(i, i + p.len()) =~= s.subrange(i + 1, i + 1 + p.len()));
                assert(occurs_at(s, p, i + 1));
                assert forall|j: int| 0 <= j < i + 1 implies !occurs_at(s, p, j) by {
                    if j >= 1 && occurs_at(s, p, j) {
                        assert(occurs_at(s.drop_first(), p, j - 1));
                    }
                }
            },
            None => {
                if contains(s, p) {
                    let j = choose|j: int| occurs_at(s, p, j);
                    assert(occurs_at(s.drop_first(), p, j - 1));
                }
            },
        }
    }
}


pub proof fn lemma_find_unique(s: Seq<char>, p: Seq<char>, i: int)
    requires
        occurs_at(s, p, i),
        forall|j: int| 0 <= j < i ==> !occurs_at(s, p, j),
    ensures
        find(s, p) == Some(i),
{
    lemma_find_props(s, p);
    match find(s, p) {
        Some(k) => {
            if k < i {
                assert(!occurs_at(s, p, k));
            } else if k > i {
                assert(!occurs_at(s, p, i));
            }
        },
        None => {
            assert(contains(s, p));
        },
    }
}

/// One step of `split`: the first piece, then the pieces of the remainder.
pub proof fn lemma_split_step(s: Seq<char>, sep: Seq<char>)
    requires
        sep.len() > 0,
    ensures
        split(s, sep).len() >= 1,
        match find(s, sep) {
            Some(i) => 0 <= i && i + sep.len() <= s.len() && split(s, sep) == seq![s.take(i)] + split(
                s.skip(i + sep.len()),
                sep,
            ) && split(s, sep).len() >= 2 && split(s, sep)[0] == s.take(i) && split(s, sep).drop_first()
                == split(s.skip(i + sep.len()), sep),
            None => split(s, sep) == seq![s],
        },
    decreases s.len(),
{
    lemma_find_props(s, sep);
    match find(s, sep) {
        Some(i) => {
            lemma_split_step(s.skip(i + sep.len()), sep);
            let r = seq![s.take(i)] + split(s.skip(i + sep.len()), sep);
            assert(r.drop_first() =~= split(s.skip(i + sep.len()), sep));
        },
        None => {},
    }
}

/// Joining the pieces of `s` gives back `s`.
pub proof fn lemma_join_split(s: Seq<char>, sep: Seq<char>)
    requires
        sep.len() > 0,
    ensures
        join(split(s, sep), sep) == s,
    decreases s.len(),
{
    lemma_split_step(s, sep);
    lemma_find_props(s, sep);
    match find(s, sep) {
        Some(i) => {
            let rest = s.skip(i + sep.len());
            lemma_join_split(rest, sep);
            lemma_split_step(rest, sep);
            assert(s.subrange(i, i + sep.len()) == sep);
            assert(s =~= s.take(i) + sep + rest);
        },
        None => {},
    }
}

/// Joining one more piece appends the separator and the piece.
pub proof fn lemma_join_push(ps: Seq<Seq<char>>, sep: Seq<char>, x: Seq<char>)
    requires
        ps.len() >= 1,
    ensures
        join(ps.push(x), sep) == join(ps, sep) + sep + x,
    decreases ps.len(),
{
    let q = ps.push(x);
    assert(q[0] == ps[0]);
    if ps.len() == 1 {
        assert(q.drop_first() =~= seq![x]);
        assert(join(q.drop_first(), sep) == x);
    } else {
        assert(q.drop_first() =~= ps.drop_first().push(x));
        lemma_join_push(ps.drop_first(), sep, x);
        assert(join(q, sep) == ps[0] + sep + (join(ps.drop_first(), sep) + sep + x));
        assert(ps[0] + sep + (join(ps.drop_first(), sep) + sep + x) =~= (ps[0] + sep + join(
            ps.drop_first(),
            sep,
        )) + sep + x);
    }
}

pub proof fn lemma_utf8_len_mono(s: Seq<char>, i: int, j: int)
    requires
        0 <= i <= j <= s.len(),
    ensures
        utf8_len(s.take(i)) <= utf8_len(s.take(j)),
    decreases j - i,
{
    if i < j {
        lemma_utf8_len_mono(s, i, j - 1);
        assert(s.take(j).drop_last() =~= s.take(j - 1));
    }
}

// ---------------------------------------------------------------------------
// Executable operations
// ---------------------------------------------------------------------------

/// Appends one character to a `String` (std `String::push`).
#[verifier::external_body]
pub(crate) fn push_char(s: &mut String, c: char)
    ensures
        final(s)@ == old(s)@.push(c),
{
    s.push(c);
}

/// The characters of a string slice, in order.
pub fn chars_of(s: &str) -> (v: Vec<char>)
    ensures
        v@ == s@,
{
    let mut v: Vec<char> = Vec::new();
    for c in it: s.chars()
        invariant
            v@ == it.seq().take(it.index() as int),
            it.seq() == s@,
    {
        v.push(c);
    }
    v
}

/// Builds a `String` holding exactly the given characters.
pub fn string_of(v: &Vec<char>) -> (s: String)
    ensures
        s@ == v@,
{
    let mut s = String::new();
    let mut i: usize = 0;
    while i < v.len()
        invariant
            i <= v.len(),
            s@ == v@.take(i as int),
        decreases v.len() - i,
    {
        push_char(&mut s, v[i]);
        assert(v@.take(i as int + 1) == v@.take(i as int).push(v@[i as int]));
        i += 1;
    }
    assert(v@.take(v.len() as int) == v@);
    s
}

/// `char::is_whitespace`.
pub fn is_whitespace(c: char) -> (b: bool)
    ensures
        b == is_ws(c),
{
    let u = c as u32;
    (9 <= u && u <= 13) || u == 32 || u == 0x85 || u == 0xa0 || u == 0x1680 || (0x2000 <= u && u
        <= 0x200a) || u == 0x2028 || u == 0x2029 || u == 0x202f || u == 0x205f || u == 0x3000
}

/// The characters `v[a..b]`.
pub fn slice_of(v: &Vec<char>, a: usize, b: usize) -> (r: Vec<char>)
    requires
        a <= b <= v.len(),
    ensures
        r@ == v@.subrange(a as int, b as int),
{
    let mut r: Vec<char> = Vec::new();
    let mut i = a;
    while i < b
        invariant
            a <= i <= b,
            b <= v.len(),
            r@ == v@.subrange(a as int, i as int),
        decreases b - i,
    {
        r.push(v[i]);
        assert(v@.subrange(a as int, i + 1) == v@.subrange(a as int, i as int).push(v@[i as int]));
        i += 1;
    }
    r
}

/// `str::trim`.
pub fn trim_vec(v: &Vec<char>) -> (r: Vec<char>)
    ensures
        r@ == trim(v@),
{
    let n = v.len();
    let mut a: usize = 0;
    while a < n && is_whitespace(v[a])
        invariant
            a <= n,
            n == v.len(),
            forall|k: int| 0 <= k < a ==> is_ws(v@[k]),
        decreases n - a,
    {
        a += 1;
    }
    let mut b: usize = n;
    while b > a && is_whitespace(v[b - 1])
        invariant
            a <= b <= n,
            n == v.len(),
            forall|k: int| b <= k < n ==> is_ws(v@[k]),
        decreases b,
    {
        b -= 1;
    }
    let r = slice_of(v, a, b);
    proof {
        let s = v@;
        let f = ws_fn();
        lemma_trim_start_skip(s, f, a as int);
        let t = s.skip(a as int);
        if a < n {
            assert(!f(t[0]));
        }
        assert(trim_start(s) == t);
        lemma_trim_end_take(t, f, b - a);
        let u = t.take(b - a);
        assert(u == s.subrange(a as int, b as int));
        if b > a {
            assert(!f(u.last()));
        }
    }
    r
}

/// Whether `p` occurs in `s` at index `i`.
pub fn matches_at(s: &Vec<char>, p: &Vec<char>, i: usize) -> (b: bool)
    requires
        i <= s.len(),
    ensures
        b == occurs_at(s@, p@, i as int),
{
    if p.len() > s.len() - i {
        return false;
    }
    let mut k: usize = 0;
    while k < p.len()
        invariant
            k <= p.len(),
            i + p.len() <= s.len(),
            forall|m: int| 0 <= m < k ==> s@[i + m] == p@[m],
        decreases p.len() - k,
    {
        if s[i + k] != p[k] {
            assert(s@.subrange(i as int, i + p.len())[k as int] != p@[k as int]);
            return false;
        }
        k += 1;
    }
    assert(s@.subrange(i as int, i + p.len()) =~= p@);
    true
}

/// First occurrence of `p` in `s` (`str::find`, as a character index).
pub fn find_vec(s: &Vec<char>, p: &Vec<char>) -> (r: Option<usize>)
    ensures
        match r {
            Some(i) => find(s@, p@) == Some(i as int),
            None => find(s@, p@) == None::<int>,
        },
{
    proof {
        lemma_find_props(s@, p@);
    }
    if p.len() > s.len() {
        return None;
    }
    if p.len() == 0 {
        proof {
            assert(s@.subrange(0, 0) =~= p@);
            lemma_find_unique(s@, p@, 0);
        }
        return Some(0);
    }
    let last = s.len() - p.len();
    let mut i: usize = 0;
    while i <= last
        invariant
            last + p.len() == s.len(),
            p.len() > 0,
            i <= last + 1,
            forall|j: int| 0 <= j < i ==> !occurs_at(s@, p@, j),
        decreases last + 1 - i,
    {
        if matches_at(s, p, i) {
            proof {
                lemma_find_unique(s@, p@, i as int);
            }
            return Some(i);
        }
        i += 1;
    }
    proof {
        if let Some(k) = find(s@, p@) {
            assert(occurs_at(s@, p@, k));
        }
    }
    None
}

/// `str::contains`.
pub fn contains_vec(s: &Vec<char>, p: &Vec<char>) -> (b: bool)
    ensures
        b == contains(s@, p@),
{
    proof {
        lemma_find_props(s@, p@);
    }
    find_vec(s, p).is_some()
}

/// `str::starts_with`.
pub fn starts_with_vec(s: &Vec<char>, p: &Vec<char>) -> (b: bool)
    ensures
        b == starts_with(s@, p@),
{
    let b = matches_at(s, p, 0);
    proof {
        if p@.len() <= s@.len() {
            assert(s@.subrange(0, p@.len() as int) =~= s@.take(p@.len() as int));
        }
    }
    b
}

/// `str::ends_with`.
pub fn ends_with_vec(s: &Vec<char>, p: &Vec<char>) -> (b: bool)
    ensures
        b == ends_with(s@, p@),
{
    if p.len() > s.len() {
        return false;
    }
    let b = matches_at(s, p, s.len() - p.len());
    proof {
        assert(s@.subrange(s@.len() - p@.len(), s@.len() as int) =~= s@.skip(s@.len() - p@.len()));
    }
    b
}

/// Character-wise equality.
pub fn eq_vec(a: &Vec<char>, b: &Vec<char>) -> (r: bool)
    ensures
        r == (a@ == b@),
{
    if a.len() != b.len() {
        return false;
    }
    let r = matches_at(a, b, 0);
    proof {
        assert(a@.subrange(0, b@.len() as int) =~= a@);
    }
    r
}

/// Appends all characters of `src` to `dst`.
pub fn push_all(dst: &mut Vec<char>, src: &Vec<char>)
    ensures
        final(dst)@ == old(dst)@ + src@,
{
    let mut i: usize = 0;
    while i < src.len()
        invariant
            i <= src.len(),
            dst@ == old(dst)@ + src@.take(i as int),
        decreases src.len() - i,
    {
        dst.push(src[i]);
        assert(src@.take(i + 1) =~= src@.take(i as int).push(src@[i as int]));
        i += 1;
    }
    assert(src@.take(src.len() as int) =~= src@);
}

/// Splits at the first occurrence of `sep`: the part before it and the part after it.
pub fn split_once_vec(s: &Vec<char>, sep: &Vec<char>) -> (r: Option<(Vec<char>, Vec<char>)>)
    requires
        sep.len() > 0,
    ensures
        match find(s@, sep@) {
            Some(i) => r matches Some((a, b)) && a@ == s@.take(i) && b@ == s@.skip(i + sep@.len()),
            None => r is None,
        },
{
    match find_vec(s, sep) {
        Some(i) => {
            proof {
                lemma_find_props(s@, sep@);
                assert(occurs_at(s@, sep@, i as int));
                assert(i + sep@.len() <= s@.len());
            }
            assert(i + sep.len() <= s.len());
            let a = slice_of(s, 0, i);
            let b = slice_of(s, i + sep.len(), s.len());
            assert(a@ =~= s@.take(i as int));
            assert(b@ =~= s@.skip(i + sep@.len()));
            Some((a, b))
        },
        None => None,
    }
}

/// All pieces of `s` between occurrences of `sep`.
pub fn split_vec(s: &Vec<char>, sep: &Vec<char>) -> (r: Vec<Vec<char>>)
    requires
        sep.len() > 0,
    ensures
        views(r@) == split(s@, sep@),
{
    let mut parts: Vec<Vec<char>> = Vec::new();
    let mut rest: Vec<char> = s.clone();
    proof {
        assert(views(parts@) + split(rest@, sep@) =~= split(s@, sep@));
    }
    loop
        invariant
            sep.len() > 0,
            views(parts@) + split(rest@, sep@) == split(s@, sep@),
        decreases rest.len(),
    {
        proof {
            lemma_split_step(rest@, sep@);
            lemma_find_props(rest@, sep@);
        }
        match split_once_vec(&rest, sep) {
            Some((a, b)) => {
                let ghost old_parts = parts@;
                let ghost old_rest = rest@;
                parts.push(a);
                proof {
                    assert(views(parts@) =~= views(old_parts).push(a@));
                    assert(views(parts@) + split(b@, sep@) =~= views(old_parts) + (seq![a@] + split(b@, sep@)));
                }
                rest = b;
            },
            None => {
                let ghost old_parts = parts@;
                parts.push(rest);
                proof {
                    assert(views(parts@) =~= views(old_parts) + split(s@, sep@).skip(old_parts.len() as int));
                    assert(views(parts@) =~= split(s@, sep@));
                }
                return parts;
            },
        }
    }
}

/// The first `n` pieces joined with `sep`.
pub fn join_prefix_vec(parts: &Vec<Vec<char>>, n: usize, sep: &Vec<char>) -> (r: Vec<char>)
    requires
        n <= parts.len(),
    ensures
        r@ == join(views(parts@).take(n as int), sep@),
{
    let mut r: Vec<char> = Vec::new();
    if n == 0 {
        assert(views(parts@).take(0).len() == 0);
        return r;
    }
    push_all(&mut r, &parts[0]);
    proof {
        assert(views(parts@).take(1) =~= seq![parts@[0]@]);
    }
    let mut i: usize = 1;
    while i < n
        invariant
            1 <= i <= n,
            n <= parts.len(),
            r@ == join(views(parts@).take(i as int), sep@),
        decreases n - i,
    {
        push_all(&mut r, sep);
        push_all(&mut r, &parts[i]);
        proof {
            assert(views(parts@).take(i + 1) =~= views(parts@).take(i as int).push(parts@[i as int]@));
            lemma_join_push(views(parts@).take(i as int), sep@, parts@[i as int]@);
        }
        i += 1;
    }
    r
}

/// The characters a title loses at its end after a narrator's name is cut off.
pub open spec fn title_sep_fn() -> spec_fn(char) -> bool {
    |c: char| c == ' ' || c == '_' || c == '-'
}

/// `str::trim_end_matches(|c| c == ' ' || c == '_' || c == '-')`.
pub fn trim_end_title_seps(v: &Vec<char>) -> (r: Vec<char>)
    ensures
        r@ == trim_end_by(v@, title_sep_fn()),
{
    let mut b: usize = v.len();
    while b > 0 && (v[b - 1] == ' ' || v[b - 1] == '_' || v[b - 1] == '-')
        invariant
            b <= v.len(),
            forall|k: int| b <= k < v.len() ==> (title_sep_fn())(v@[k]),
        decreases b,
    {
        b -= 1;
    }
    let r = slice_of(v, 0, b);
    proof {
        lemma_trim_end_take(v@, title_sep_fn(), b as int);
        assert(r@ =~= v@.take(b as int));
    }
    r
}

/// `str::trim_end_matches` with a non-empty string pattern.
pub fn strip_suffixes_vec(v: &Vec<char>, p: &Vec<char>) -> (r: Vec<char>)
    requires
        p.len() > 0,
    ensures
        r@ == strip_suffixes(v@, p@),
{
    let mut b: usize = v.len();
    assert(v@.take(v@.len() as int) =~= v@);
    while b >= p.len() && matches_at(v, p, b - p.len())
        invariant
            b <= v.len(),
            p.len() > 0,
            strip_suffixes(v@.take(b as int), p@) == strip_suffixes(v@, p@),
        decreases b,
    {
        proof {
            let t = v@.take(b as int);
            assert(t.skip(t.len() - p@.len()) =~= v@.subrange(b - p@.len(), b as int));
            assert(t.take(t.len() - p@.len()) =~= v@.take(b - p@.len()));
        }
        b -= p.len();
    }
    proof {
        let t = v@.take(b as int);
        if p@.len() <= b {
            assert(t.skip(t.len() - p@.len()) =~= v@.subrange(b - p@.len(), b as int));
        }
        assert(v@.take(v@.len() as int) =~= v@);
    }
    slice_of(v, 0, b)
}

/// `str::replace` with a non-empty string pattern.
pub fn replace_vec(s: &Vec<char>, from: &Vec<char>, to: &Vec<char>) -> (r: Vec<char>)
    requires
        from.len() > 0,
    ensures
        r@ == replace(s@, from@, to@),
{
    let mut r: Vec<char> = Vec::new();
    let mut i: usize = 0;
    proof {
        assert(s@.skip(0) =~= s@);
    }
    while i < s.len()
        invariant
            i <= s.len(),
            from.len() > 0,
            r@ + replace(s@.skip(i as int), from@, to@) == replace(s@, from@, to@),
        decreases s.len() - i,
    {
        let ghost t = s@.skip(i as int);
        if matches_at(s, from, i) {
            proof {
                assert(t.take(from@.len() as int) =~= s@.subrange(i as int, i + from@.len()));
                assert(t.skip(from@.len() as int) =~= s@.skip(i + from@.len()));
            }
            push_all(&mut r, to);
            i += from.len();
        } else {
            proof {
                if from@.len() <= t.len() {
                    assert(t.take(from@.len() as int) =~= s@.subrange(i as int, i + from@.len()));
                }
                assert(t.drop_first() =~= s@.skip(i + 1));
            }
            r.push(s[i]);
            i += 1;
        }
    }
    proof {
        assert(s@.skip(s@.len() as int) =~= Seq::<char>::empty());
        assert(r@ + Seq::<char>::empty() =~= r@);
    }
    r
}

/// Whether the UTF-8 encoding of `v` is shorter than `limit` bytes.
pub fn utf8_len_below(v: &Vec<char>, limit: usize) -> (b: bool)
    ensures
        b == (utf8_len(v@) < limit),
{
    if limit == 0 {
        return false;
    }
    let mut total: usize = 0;
    let mut i: usize = 0;
    assert(v@.take(0).len() == 0);
    while i < v.len()
        invariant
            i <= v.len(),
            total == utf8_len(v@.take(i as int)),
            total < limit,
        decreases v.len() - i,
    {
        let u = v[i] as u32;
        let w: usize = if u < 0x80 {
            1
        } else if u < 0x800 {
            2
        } else if u < 0x10000 {
            3
        } else {
            4
        };
        proof {
            assert(v@.take(i + 1).drop_last() =~= v@.take(i as int));
        }
        if w >= limit - total {
            proof {
                lemma_utf8_len_mono(v@, i + 1, v@.len() as int);
                assert(v@.take(v@.len() as int) =~= v@);
            }
            return false;
        }
        total = total + w;
        i += 1;
    }
    assert(v@.take(v@.len() as int) =~= v@);
    true
}

/// `s.chars().all(|c| c.is_ascii_digit())`.
pub fn all_ascii_digits_vec(v: &Vec<char>) -> (b: bool)
    ensures
        b == all_ascii_digits(v@),
{
    let mut i: usize = 0;
    while i < v.len()
        invariant
            i <= v.len(),
            forall|k: int| 0 <= k < i ==> is_ascii_digit(v@[k]),
        decreases v.len() - i,
    {
        if !('0' <= v[i] && v[i] <= '9') {
            return false;
        }
        i += 1;
    }
    true
}

/// `s.chars().any(|c| c.is_ascii_digit())`.
pub fn any_ascii_digit_vec(v: &Vec<char>) -> (b: bool)
    ensures
        b == any_ascii_digit(v@),
{
    let mut i: usize = 0;
    while i < v.len()
        invariant
            i <= v.len(),
            forall|k: int| 0 <= k < i ==> !is_ascii_digit(v@[k]),
        decreases v.len() - i,
    {
        if '0' <= v[i] && v[i] <= '9' {
            return true;
        }
        i += 1;
    }
    false
}

fn digit_of(d: u64) -> (c: char)
    requires
        d < 10,
    ensures
        c == digit_char(d as nat),
{
    if d == 0 { '0' } else if d == 1 { '1' } else if d == 2 { '2' } else if d == 3 { '3' }
    else if d == 4 { '4' } else if d == 5 { '5' } else if d == 6 { '6' } else if d == 7 { '7' }
    else if d == 8 { '8' } else { '9' }
}

/// Decimal representation of `n`.
pub fn decimal_vec(n: u64) -> (r: Vec<char>)
    ensures
        r@ == decimal(n as nat),
    decreases n,
{
    if n < 10 {
        let mut v: Vec<char> = Vec::new();
        v.push(digit_of(n));
        assert(v@ =~= seq![digit_char(n as nat)]);
        v
    } else {
        let mut v = decimal_vec(n / 10);
        v.push(digit_of(n % 10));
        v
    }
}

/// Whether the string `a` equals the string `b`.
pub fn same_str(a: &str, b: &str) -> (r: bool)
    ensures
        r == (a@ == b@),
{
    eq_vec(&chars_of(a), &chars_of(b))
}

/// A copy of an optional string.
pub fn clone_opt(o: &Option<String>) -> (r: Option<String>)
    ensures
        r.deep_view() == o.deep_view(),
{
    match o {
        Some(s) => Some(s.clone()),
        None => None,
    }
}

/// The optional characters as an optional string.
pub fn opt_string_of(o: &Option<Vec<char>>) -> (r: Option<String>)
    ensures
        r.deep_view() == match o {
            Some(v) => Some(v@),
            None => None::<Seq<char>>,
        },
{
    match o {
        Some(v) => Some(string_of(v)),
        None => None,
    }
}

} // verus!
