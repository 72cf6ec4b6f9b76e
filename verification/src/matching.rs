//! Regular-expression and glob matching, provided by the `regex` and `glob`
//! crates.
use crate::text::find;
use vstd::prelude::*;

verus! {

/// What `Regex::new(pattern)` followed by `replace_all(text, rep)` yields:
/// `None` when the pattern does not compile.
pub uninterp spec fn regex_replace_all_result(pattern: Seq<char>, text: Seq<char>, rep: Seq<char>) -> Option<Seq<char>>;

/// What `Regex::new(pattern)` followed by `captures(text)` yields, each group
/// as its matched text: `None` when the pattern does not compile or does not
/// match.
pub uninterp spec fn regex_captures_result(pattern: Seq<char>, text: Seq<char>) -> Option<Seq<Option<Seq<char>>>>;

/// What `glob::Pattern::new(pattern)` followed by `matches_with(name, ..)`
/// yields, with the options of `matches` but for the given case
/// sensitivity: `None` when the pattern does not compile.
pub uninterp spec fn glob_match_result(pattern: Seq<char>, name: Seq<char>, case_sensitive: bool) -> Option<bool>;

/// `s` with every group made of `open`, any characters other than `close`,
/// and `close` removed, the groups taken from the left without overlap; an
/// `open` with no `close` after it is kept, with all that follows.
pub open spec fn without_groups(s: Seq<char>, open: char, close: char) -> Seq<char>
    decreases s.len(),
{
    if s.len() == 0 {
        s
    } else if s[0] == open {
        match find(s.drop_first(), seq![close]) {
            Some(j) => if 0 <= j && j + 2 <= s.len() {
                without_groups(s.skip(j + 2), open, close)
            } else {
                s
            },
            None => s,
        }
    } else {
        seq![s[0]] + without_groups(s.drop_first(), open, close)
    }
}

/// Compiles `pattern` with `regex::Regex::new` and replaces every
/// non-overlapping match in `text` by `rep` (`Regex::replace_all`). The
/// contract claims that the outcome is a function of the three strings,
/// named `regex_replace_all_result` (`None` stands for a pattern that does
/// not compile), and, for the two group patterns `\[[^\]]*\]` and
/// `\([^)]*\)` with an empty replacement, what the regex syntax documents
/// of them: a match is the opening character, any characters but the
/// closing one (a negated class), then the closing character, and
/// `replace_all` removes the matches found from the left without overlap
/// (`without_groups`).
#[verifier::external_body]
pub(crate) fn regex_replace_all(pattern: &str, text: &str, rep: &str) -> (r: Option<String>)
    ensures
        r.deep_view() == regex_replace_all_result(pattern@, text@, rep@),
        pattern@ == r"\[[^\]]*\]"@ && rep@.len() == 0 ==> r.deep_view() == Some(
            without_groups(text@, '[', ']'),
        ),
        pattern@ == r"\([^)]*\)"@ && rep@.len() == 0 ==> r.deep_view() == Some(
            without_groups(text@, '(', ')'),
        ),
{
    match regex::Regex::new(pattern) {
        Ok(re) => Some(re.replace_all(text, rep).into_owned()),
        Err(_) => None,
    }
}

/// Compiles `pattern` with `regex::Regex::new` and returns the capture
/// groups of its leftmost match in `text` (`Regex::captures`), group 0 being
/// the whole match. The contract claims only that the outcome is a function
/// of the two strings, named `regex_captures_result`.
#[verifier::external_body]
pub(crate) fn regex_captures(pattern: &str, text: &str) -> (r: Option<Vec<Option<String>>>)
    ensures
        r.deep_view() == regex_captures_result(pattern@, text@),
{
    match regex::Regex::new(pattern) {
        Ok(re) => re.captures(text).map(
            |caps| caps.iter().map(|m| m.map(|m| m.as_str().to_string())).collect(),
        ),
        Err(_) => None,
    }
}

/// Compiles `pattern` with `glob::Pattern::new` and tests `name` against it
/// with `Pattern::matches_with`, under the options that `Pattern::matches`
/// uses (`MatchOptions::new()`) except that letters are compared with the
/// given case sensitivity (glob documents that, when not case-sensitive,
/// ASCII letters are compared ignoring case). The contract claims only that
/// the outcome is a function of the two strings and the flag, named
/// `glob_match_result`; `None` stands for a pattern that does not compile.
#[verifier::external_body]
pub(crate) fn glob_matches(pattern: &str, name: &str, case_sensitive: bool) -> (r: Option<bool>)
    ensures
        r == glob_match_result(pattern@, name@, case_sensitive),
{
    match glob::Pattern::new(pattern) {
        Ok(p) => Some(p.matches_with(name, glob::MatchOptions { case_sensitive, ..glob::MatchOptions::new() })),
        Err(_) => None,
    }
}

/// `text` with every match of `pattern` replaced by `rep`, or `text` itself
/// when the pattern does not compile.
pub open spec fn replaced_or_same(pattern: Seq<char>, text: Seq<char>, rep: Seq<char>) -> Seq<char> {
    match regex_replace_all_result(pattern, text, rep) {
        Some(t) => t,
        None => text,
    }
}

/// Whether `name` matches the glob `pattern`, ASCII letters compared
/// ignoring case; a pattern that does not compile matches nothing.
pub open spec fn glob_accepts(pattern: Seq<char>, name: Seq<char>) -> bool {
    glob_match_result(pattern, name, false) == Some(true)
}

/// Whether `name` matches any of the glob patterns, ASCII letters compared
/// ignoring case.
pub open spec fn any_glob_accepts(patterns: Seq<Seq<char>>, name: Seq<char>) -> bool {
    exists|i: int| 0 <= i < patterns.len() && glob_accepts(#[trigger] patterns[i], name)
}

/// `Regex::replace_all`, leaving `text` unchanged when the pattern does not compile.
pub fn replace_all_or_keep(pattern: &str, text: &str, rep: &str) -> (r: String)
    ensures
        r@ == replaced_or_same(pattern@, text@, rep@),
        pattern@ == r"\[[^\]]*\]"@ && rep@.len() == 0 ==> r@ == without_groups(text@, '[', ']'),
        pattern@ == r"\([^)]*\)"@ && rep@.len() == 0 ==> r@ == without_groups(text@, '(', ')'),
{
    match regex_replace_all(pattern, text, rep) {
        Some(t) => t,
        None => text.to_string(),
    }
}

/// Whether `name` matches any of the glob `patterns`, ASCII letters compared
/// ignoring case.
pub fn any_glob_matches(patterns: &Vec<String>, name: &str) -> (b: bool)
    ensures
        b == any_glob_accepts(crate::text::string_views(patterns@), name@),
{
    let ghost pv = crate::text::string_views(patterns@);
    let mut i: usize = 0;
    while i < patterns.len()
        invariant
            i <= patterns.len(),
            pv == crate::text::string_views(patterns@),
            forall|k: int| 0 <= k < i ==> !glob_accepts(#[trigger] pv[k], name@),
        decreases patterns.len() - i,
    {
        if let Some(true) = glob_matches(patterns[i].as_str(), name, false) {
            assert(glob_accepts(pv[i as int], name@));
            return true;
        }
        i += 1;
    }
    false
}

} // verus!
