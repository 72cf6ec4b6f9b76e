//! Filename cleaning and the heuristics that read author, title, narrator and
//! series out of a file name.
use crate::config::MappingsConfig;
use crate::matching::{
    regex_captures, regex_captures_result, replace_all_or_keep, replaced_or_same, without_groups,
};
use crate::text::{
    any_ascii_digit, any_ascii_digit_vec, chars_of, contains, contains_vec, ends_with,
    ends_with_vec, eq_vec, first_where, is_first, join, join_prefix_vec, lemma_first_where_none,
    lemma_first_where_some, lemma_join_split, lemma_split_step, replace, replace_vec,
    slice_of, split, split_once_vec, split_vec, starts_with, starts_with_vec, string_of,
    string_views, strip_suffixes, strip_suffixes_vec, title_sep_fn, trim, trim_end_by,
    trim_end_title_seps, trim_vec, utf8_len, utf8_len_below, views,
};
use crate::types::BookFile;
use vstd::prelude::*;
use vstd::string::StringExecFns;

verus! {

/// Cleans file names and infers metadata from them.
pub struct Cleaner {
    pub remove_brackets: bool,
    pub remove_parentheses: bool,
    pub normalize_underscores: bool,
    pub normalize_spaces: bool,
    pub mappings: MappingsConfig,
}

/// The separator between the parts of a name: `" - "`.
pub open spec fn part_sep() -> Seq<char> {
    seq![' ', '-', ' ']
}

/// Bracketed groups such as `[Unabridged]`.
pub open spec fn bracket_pattern() -> Seq<char> {
    r"\[[^\]]*\]"@
}

/// Parenthesised groups such as `(2019)`.
pub open spec fn paren_pattern() -> Seq<char> {
    r"\([^)]*\)"@
}

/// Runs of white space.
pub open spec fn space_pattern() -> Seq<char> {
    r"\s+"@
}

/// `Title (Author)`.
pub open spec fn title_paren_author_pattern() -> Seq<char> {
    r"^(.+?)\s*\(([^)]+)\)$"@
}

/// `Title [Author]`.
pub open spec fn title_bracket_author_pattern() -> Seq<char> {
    r"^(.+?)\s*\[([^\]]+)\]$"@
}

/// Some string of `list` occurs in `name`.
pub open spec fn contains_any(name: Seq<char>, list: Seq<Seq<char>>) -> bool {
    exists|i: int| 0 <= i < list.len() && contains(name, #[trigger] list[i])
}

/// `name` equals some string of `list`.
pub open spec fn equals_any(name: Seq<char>, list: Seq<Seq<char>>) -> bool {
    exists|i: int| 0 <= i < list.len() && name == #[trigger] list[i]
}

/// Index predicate: the `i`-th narrator name ends `rest`.
pub open spec fn narrator_ends(narrators: Seq<Seq<char>>, rest: Seq<char>) -> spec_fn(int) -> bool {
    |i: int| ends_with(rest, narrators[i])
}

/// Title and author from the capture groups 1 and 2 of `pattern` on `name`.
pub open spec fn captured_title_author(pattern: Seq<char>, name: Seq<char>) -> Option<(Seq<char>, Seq<char>)> {
    match regex_captures_result(pattern, name) {
        Some(g) => if g.len() > 2 && g[1] is Some && g[2] is Some {
            Some((trim(g[1]->0), trim(g[2]->0)))
        } else {
            None
        },
        None => None,
    }
}

pub open spec fn the_prefix() -> Seq<char> {
    seq!['T', 'h', 'e', ' ']
}

pub open spec fn a_prefix() -> Seq<char> {
    seq!['A', ' ']
}

pub open spec fn an_prefix() -> Seq<char> {
    seq!['A', 'n', ' ']
}

pub open spec fn opt_views3(r: Option<(Vec<char>, Vec<char>, Vec<char>)>) -> Option<(Seq<char>, Seq<char>, Seq<char>)> {
    match r {
        Some((a, b, c)) => Some((a@, b@, c@)),
        None => None,
    }
}

pub open spec fn opt_views2(r: Option<(Vec<char>, Vec<char>)>) -> Option<(Seq<char>, Seq<char>)> {
    match r {
        Some((a, b)) => Some((a@, b@)),
        None => None,
    }
}

/// Author, title, narrator and series, each possibly absent.
pub type NameFields = (Option<Seq<char>>, Option<Seq<char>>, Option<Seq<char>>, Option<Seq<char>>);

/// Title and author from the capture groups 1 and 2 of `pattern` on `name`, trimmed.
pub(crate) fn capture_title_author(pattern: &str, name: &Vec<char>) -> (r: Option<(Vec<char>, Vec<char>)>)
    ensures
        opt_views2(r) == captured_title_author(pattern@, name@),
{
    let s = string_of(name);
    match regex_captures(pattern, s.as_str()) {
        Some(groups) => {
            if groups.len() > 2 {
                match (&groups[1], &groups[2]) {
                    (Some(t), Some(a)) => {
                        let t = trim_vec(&chars_of(t.as_str()));
                        let a = trim_vec(&chars_of(a.as_str()));
                        Some((t, a))
                    },
                    _ => None,
                }
            } else {
                None
            }
        },
        None => None,
    }
}

pub(crate) fn sep_vec() -> (v: Vec<char>)
    ensures
        v@ == part_sep(),
{
    let mut v: Vec<char> = Vec::new();
    v.push(' ');
    v.push('-');
    v.push(' ');
    assert(v@ =~= part_sep());
    v
}

impl Default for Cleaner {
    fn default() -> (r: Self)
        ensures
            r.all_steps(),
            r.mappings.is_default(),
    {
        Cleaner::new()
    }
}

impl Cleaner {
    pub open spec fn author_names(self) -> Seq<Seq<char>> {
        string_views(self.mappings.authors@)
    }

    pub open spec fn narrator_names(self) -> Seq<Seq<char>> {
        string_views(self.mappings.narrators@)
    }

    /// Every cleaning step is enabled.
    pub open spec fn all_steps(self) -> bool {
        self.remove_brackets && self.remove_parentheses && self.normalize_underscores
            && self.normalize_spaces
    }

    /// The cleaned form of `name`: bracketed and parenthesised groups removed
    /// (what `bracket_pattern` and `paren_pattern` match),
    /// each `_` turned into `" - "`, white-space runs collapsed to one space,
    /// and the result trimmed; each step only when enabled.
    pub open spec fn cleaned(self, name: Seq<char>) -> Seq<char> {
        let a = if self.remove_brackets {
            without_groups(name, '[', ']')
        } else {
            name
        };
        let b = if self.remove_parentheses {
            without_groups(a, '(', ')')
        } else {
            a
        };
        let c = if self.normalize_underscores {
            replace(b, seq!['_'], part_sep())
        } else {
            b
        };
        if self.normalize_spaces {
            trim(replaced_or_same(space_pattern(), c, " "@))
        } else {
            c
        }
    }

    /// Whether `name` is taken for an author's name.
    pub open spec fn author_like(self, name: Seq<char>) -> bool {
        if contains(name, seq![',']) {
            true
        } else if contains_any(name, self.author_names()) {
            true
        } else if equals_any(name, self.narrator_names()) {
            false
        } else if starts_with(name, the_prefix()) || starts_with(name, a_prefix()) || starts_with(
            name,
            an_prefix(),
        ) {
            false
        } else {
            utf8_len(name) < 25
        }
    }

    /// `Author - Title<narrator>` where the name ends with a known narrator.
    pub open spec fn split_narrator(self, name: Seq<char>) -> Option<(Seq<char>, Seq<char>, Seq<char>)> {
        let parts = split(name, part_sep());
        if parts.len() >= 2 {
            let rest = join(parts.drop_first(), part_sep());
            let ns = self.narrator_names();
            match first_where(ns.len() as int, narrator_ends(ns, rest)) {
                Some(i) => Some(
                    (
                        trim(parts[0]),
                        trim_end_by(rest.take(rest.len() - ns[i].len()), title_sep_fn()),
                        ns[i],
                    ),
                ),
                None => None,
            }
        } else {
            None
        }
    }

    /// `Author - Title`: the first part names an author.
    pub open spec fn split_author_title(self, name: Seq<char>) -> Option<(Seq<char>, Seq<char>)> {
        let parts = split(name, part_sep());
        if parts.len() >= 2 && self.author_like(trim(parts[0])) {
            Some((trim(parts[0]), join(parts.drop_first(), part_sep())))
        } else {
            None
        }
    }

    /// `Title - Author`: the last part names an author (result: title, author).
    pub open spec fn split_title_author(self, name: Seq<char>) -> Option<(Seq<char>, Seq<char>)> {
        let parts = split(name, part_sep());
        if parts.len() >= 2 && self.author_like(trim(parts.last())) {
            Some((join(parts.drop_last(), part_sep()), trim(parts.last())))
        } else {
            None
        }
    }

    /// `Author - Series N - Title` (result: author, series, title).
    pub open spec fn split_series(self, name: Seq<char>) -> Option<(Seq<char>, Seq<char>, Seq<char>)> {
        let parts = split(name, part_sep());
        if parts.len() >= 3 && self.author_like(trim(parts[0])) && any_ascii_digit(trim(parts[1])) {
            Some((trim(parts[0]), trim(parts[1]), join(parts.skip(2), part_sep())))
        } else {
            None
        }
    }

    /// `Title (Author)` or `Title [Author]` (result: title, author).
    pub open spec fn split_title_with_author(self, name: Seq<char>) -> Option<(Seq<char>, Seq<char>)> {
        match captured_title_author(title_paren_author_pattern(), name) {
            Some((t, a)) if self.author_like(a) => Some((t, a)),
            _ => match captured_title_author(title_bracket_author_pattern(), name) {
                Some((t, a)) if self.author_like(a) => Some((t, a)),
                _ => None,
            },
        }
    }

    /// The cleaned name, trimmed, without trailing `.ext` suffixes, trimmed again.
    pub open spec fn base_name(self, name: Seq<char>, ext: Seq<char>) -> Seq<char> {
        trim(strip_suffixes(trim(self.cleaned(name)), seq!['.'] + ext))
    }

    /// Author, title, narrator and series read from a file name: the first
    /// of the patterns narrator, author-title, title-author, series,
    /// title-with-author that applies, else the whole base name as title.
    pub open spec fn fields_from_name(self, name: Seq<char>, ext: Seq<char>) -> NameFields {
        let base = self.base_name(name, ext);
        match self.split_narrator(base) {
            Some((a, t, n)) => (Some(a), Some(t), Some(n), None),
            None => match self.split_author_title(base) {
                Some((a, t)) => (Some(a), Some(t), None, None),
                None => match self.split_title_author(base) {
                    Some((t, a)) => (Some(a), Some(t), None, None),
                    None => match self.split_series(base) {
                        Some((a, s, t)) => (Some(a), Some(t), None, Some(s)),
                        None => match self.split_title_with_author(base) {
                            Some((t, a)) => (Some(a), Some(t), None, None),
                            None => (None, Some(base), None, None),
                        },
                    },
                },
            },
        }
    }

    /// A cleaner with every step enabled and no mappings.
    pub fn new() -> (r: Self)
        ensures
            r.all_steps(),
            r.mappings.is_default(),
    {
        Cleaner {
            remove_brackets: true,
            remove_parentheses: true,
            normalize_underscores: true,
            normalize_spaces: true,
            mappings: MappingsConfig::default(),
        }
    }

    /// A cleaner with every step enabled and the given mappings.
    pub fn with_mappings(mappings: MappingsConfig) -> (r: Self)
        ensures
            r.all_steps(),
            r.mappings == mappings,
    {
        Cleaner {
            remove_brackets: true,
            remove_parentheses: true,
            normalize_underscores: true,
            normalize_spaces: true,
            mappings,
        }
    }

    /// The cleaned form of a file name.
    pub fn clean_filename(&self, name: &str) -> (r: String)
        ensures
            r@ == self.cleaned(name@),
    {
        let mut result = String::from_str(name);
        proof {
            reveal_strlit("");
        }
        if self.remove_brackets {
            result = replace_all_or_keep(r"\[[^\]]*\]", result.as_str(), "");
        }
        if self.remove_parentheses {
            result = replace_all_or_keep(r"\([^)]*\)", result.as_str(), "");
        }
        if self.normalize_underscores {
            let v = chars_of(result.as_str());
            let mut from: Vec<char> = Vec::new();
            from.push('_');
            assert(from@ =~= seq!['_']);
            let to = sep_vec();
            result = string_of(&replace_vec(&v, &from, &to));
        }
        if self.normalize_spaces {
            result = replace_all_or_keep(r"\s+", result.as_str(), " ");
            let v = chars_of(result.as_str());
            result = string_of(&trim_vec(&v));
        }
        result
    }

    fn is_author(&self, name: &Vec<char>) -> (b: bool)
        ensures
            b == self.author_like(name@),
    {
        let mut comma: Vec<char> = Vec::new();
        comma.push(',');
        assert(comma@ =~= seq![',']);
        if contains_vec(name, &comma) {
            return true;
        }
        let ghost authors = self.author_names();
        let mut i: usize = 0;
        while i < self.mappings.authors.len()
            invariant
                i <= self.mappings.authors.len(),
                authors == self.author_names(),
                authors.len() == self.mappings.authors.len(),
                forall|k: int| 0 <= k < i ==> !contains(name@, #[trigger] authors[k]),
            decreases self.mappings.authors.len() - i,
        {
            let a = chars_of(self.mappings.authors[i].as_str());
            if contains_vec(name, &a) {
                assert(contains(name@, authors[i as int]));
                return true;
            }
            i += 1;
        }
        let ghost narrators = self.narrator_names();
        let mut j: usize = 0;
        while j < self.mappings.narrators.len()
            invariant
                j <= self.mappings.narrators.len(),
                narrators == self.narrator_names(),
                narrators.len() == self.mappings.narrators.len(),
                forall|k: int| 0 <= k < j ==> name@ != #[trigger] narrators[k],
                !contains(name@, seq![',']),
                !contains_any(name@, self.author_names()),
            decreases self.mappings.narrators.len() - j,
        {
            let n = chars_of(self.mappings.narrators[j].as_str());
            if eq_vec(name, &n) {
                assert(name@ == narrators[j as int]);
                return false;
            }
            j += 1;
        }
        let mut the: Vec<char> = Vec::new();
        the.push('T');
        the.push('h');
        the.push('e');
        the.push(' ');
        assert(the@ =~= the_prefix());
        let mut a: Vec<char> = Vec::new();
        a.push('A');
        a.push(' ');
        assert(a@ =~= a_prefix());
        let mut an: Vec<char> = Vec::new();
        an.push('A');
        an.push('n');
        an.push(' ');
        assert(an@ =~= an_prefix());
        if starts_with_vec(name, &the) || starts_with_vec(name, &a) || starts_with_vec(name, &an) {
            return false;
        }
        utf8_len_below(name, 25)
    }

    fn extract_author_title_narrator(&self, name: &Vec<char>) -> (r: Option<(Vec<char>, Vec<char>, Vec<char>)>)
        ensures
            opt_views3(r) == self.split_narrator(name@),
    {
        let sep = sep_vec();
        proof {
            lemma_split_step(name@, part_sep());
        }
        match split_once_vec(name, &sep) {
            None => None,
            Some((first, rest)) => {
                proof {
                    lemma_join_split(rest@, part_sep());
                }
                let author = trim_vec(&first);
                let ghost ns = self.narrator_names();
                let ghost f = narrator_ends(ns, rest@);
                let mut i: usize = 0;
                while i < self.mappings.narrators.len()
                    invariant
                        i <= self.mappings.narrators.len(),
                        ns == self.narrator_names(),
                        ns.len() == self.mappings.narrators.len(),
                        f == narrator_ends(ns, rest@),
                        forall|k: int| 0 <= k < i ==> !#[trigger] f(k),
                        split(name@, part_sep()).len() >= 2,
                        split(name@, part_sep())[0] == first@,
                        join(split(name@, part_sep()).drop_first(), part_sep()) == rest@,
                        author@ == trim(first@),
                    decreases self.mappings.narrators.len() - i,
                {
                    let n = chars_of(self.mappings.narrators[i].as_str());
                    if ends_with_vec(&rest, &n) {
                        let t = slice_of(&rest, 0, rest.len() - n.len());
                        let title = trim_end_title_seps(&t);
                        proof {
                            assert(f(i as int));
                            lemma_first_where_some(ns.len() as int, f, i as int);
                            assert(t@ =~= rest@.take(rest@.len() - ns[i as int].len()));
                        }
                        return Some((author, title, n));
                    }
                    i += 1;
                }
                proof {
                    lemma_first_where_none(ns.len() as int, f);
                }
                None
            },
        }
    }

    fn extract_author_title(&self, name: &Vec<char>) -> (r: Option<(Vec<char>, Vec<char>)>)
        ensures
            opt_views2(r) == self.split_author_title(name@),
    {
        let sep = sep_vec();
        proof {
            lemma_split_step(name@, part_sep());
        }
        match split_once_vec(name, &sep) {
            None => None,
            Some((first, rest)) => {
                proof {
                    lemma_join_split(rest@, part_sep());
                }
                let f = trim_vec(&first);
                if self.is_author(&f) {
                    Some((f, rest))
                } else {
                    None
                }
            },
        }
    }

    fn extract_title_author(&self, name: &Vec<char>) -> (r: Option<(Vec<char>, Vec<char>)>)
        ensures
            opt_views2(r) == self.split_title_author(name@),
    {
        let sep = sep_vec();
        let parts = split_vec(name, &sep);
        if parts.len() >= 2 {
            let last = trim_vec(&parts[parts.len() - 1]);
            if self.is_author(&last) {
                let title = join_prefix_vec(&parts, parts.len() - 1, &sep);
                proof {
                    assert(views(parts@).take(parts@.len() - 1) =~= split(name@, part_sep()).drop_last());
                }
                return Some((title, last));
            }
        }
        None
    }

    fn extract_series(&self, name: &Vec<char>) -> (r: Option<(Vec<char>, Vec<char>, Vec<char>)>)
        ensures
            opt_views3(r) == self.split_series(name@),
    {
        let sep = sep_vec();
        proof {
            lemma_split_step(name@, part_sep());
        }
        match split_once_vec(name, &sep) {
            None => None,
            Some((first, rest)) => {
                proof {
                    lemma_split_step(rest@, part_sep());
                }
                match split_once_vec(&rest, &sep) {
                    None => None,
                    Some((second, tail)) => {
                        proof {
                            lemma_join_split(tail@, part_sep());
                            let parts = split(name@, part_sep());
                            assert(parts.skip(2) =~= split(rest@, part_sep()).drop_first());
                        }
                        let author = trim_vec(&first);
                        let series = trim_vec(&second);
                        if self.is_author(&author) && any_ascii_digit_vec(&series) {
                            Some((author, series, tail))
                        } else {
                            None
                        }
                    },
                }
            },
        }
    }

    fn extract_title_with_author(&self, name: &Vec<char>) -> (r: Option<(Vec<char>, Vec<char>)>)
        ensures
            opt_views2(r) == self.split_title_with_author(name@),
    {
        if let Some((t, a)) = capture_title_author(r"^(.+?)\s*\(([^)]+)\)$", name) {
            if self.is_author(&a) {
                return Some((t, a));
            }
        }
        if let Some((t, a)) = capture_title_author(r"^(.+?)\s*\[([^\]]+)\]$", name) {
            if self.is_author(&a) {
                return Some((t, a));
            }
        }
        None
    }

    /// Author, title, narrator and series read from the file's name.
    pub fn extract_metadata(&self, file: &BookFile) -> (r: (
        Option<String>,
        Option<String>,
        Option<String>,
        Option<String>,
    ))
        ensures
            (r.0.deep_view(), r.1.deep_view(), r.2.deep_view(), r.3.deep_view())
                == self.fields_from_name(file.name@, file.ext@),
    {
        let clean = self.clean_filename(file.name.as_str());
        let name = trim_vec(&chars_of(clean.as_str()));
        let mut suffix: Vec<char> = Vec::new();
        suffix.push('.');
        let ext = chars_of(file.ext.as_str());
        crate::text::push_all(&mut suffix, &ext);
        assert(suffix@ =~= seq!['.'] + file.ext@);
        let base = trim_vec(&strip_suffixes_vec(&name, &suffix));
        if let Some((a, t, n)) = self.extract_author_title_narrator(&base) {
            return (Some(string_of(&a)), Some(string_of(&t)), Some(string_of(&n)), None);
        }
        if let Some((a, t)) = self.extract_author_title(&base) {
            return (Some(string_of(&a)), Some(string_of(&t)), None, None);
        }
        if let Some((t, a)) = self.extract_title_author(&base) {
            return (Some(string_of(&a)), Some(string_of(&t)), None, None);
        }
        if let Some((a, s, t)) = self.extract_series(&base) {
            return (Some(string_of(&a)), Some(string_of(&t)), None, Some(string_of(&s)));
        }
        if let Some((t, a)) = self.extract_title_with_author(&base) {
            return (Some(string_of(&a)), Some(string_of(&t)), None, None);
        }
        (None, Some(string_of(&base)), None, None)
    }
}

} // verus!
