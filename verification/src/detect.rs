//! The language detector: extracts a file path's extension (the text after
//! the last dot of the final path segment, absent when that dot is missing or
//! leads the segment) and returns the first language whose extension list
//! contains it exactly.

use vstd::prelude::*;

use crate::rules::{Error, LanguageRules, SyntaxRules};
use crate::text::{chars_string, span_chars, str_chars};

verus! {

/// The last position of `c` in `s`, or `-1` when `c` does not occur.
pub open spec fn last_pos(s: Seq<char>, c: char) -> int
    decreases s.len(),
{
    if s.len() == 0 {
        -1
    } else if s[s.len() - 1] == c {
        s.len() - 1
    } else {
        last_pos(s.take(s.len() - 1), c)
    }
}

/// The extension of a file path: what follows the last dot, provided that dot
/// lies inside the final path segment and does not begin it.
pub open spec fn ext_of(path: Seq<char>) -> Option<Seq<char>> {
    let d = last_pos(path, '.');
    let sl = last_pos(path, '/');
    if d > sl + 1 {
        Some(path.skip(d + 1))
    } else {
        None
    }
}

/// Some language of the set lists `e` among its extensions.
pub open spec fn lang_has_ext(l: LanguageRules, e: Seq<char>) -> bool {
    exists|i: int| 0 <= i < l.extensions@.len() && l.extensions@[i]@ == e
}

/// The rule set maps extension `e` to some language.
pub open spec fn some_lang_has_ext(rules: SyntaxRules, e: Seq<char>) -> bool {
    exists|j: int| 0 <= j < rules.languages@.len() && lang_has_ext(rules.languages@[j].1, e)
}

/// `l` is the first language of the set that lists extension `e`.
pub open spec fn is_first_lang_with_ext(rules: SyntaxRules, e: Seq<char>, l: LanguageRules) -> bool {
    exists|j: int|
        {
            &&& 0 <= j < rules.languages@.len()
            &&& lang_has_ext(rules.languages@[j].1, e)
            &&& l == rules.languages@[j].1
            &&& forall|k: int| 0 <= k < j ==> !lang_has_ext(rules.languages@[k].1, e)
        }
}

/// The detection outcome is the unsupported-file-type error carrying `msg`.
pub open spec fn is_unsupported<'a>(r: Result<&'a LanguageRules, Error>, msg: Seq<char>) -> bool {
    match r {
        Result::Err(Error::UnsupportedFileType(m)) => m@ == msg,
        _ => false,
    }
}

proof fn lemma_last_pos_props(s: Seq<char>, c: char)
    ensures
        -1 <= last_pos(s, c) < s.len(),
        last_pos(s, c) >= 0 ==> s[last_pos(s, c)] == c,
        forall|j: int| last_pos(s, c) < j < s.len() ==> s[j] != c,
    decreases s.len(),
{
    if s.len() == 0 {
    } else if s[s.len() - 1] == c {
    } else {
        lemma_last_pos_props(s.take(s.len() - 1), c);
        let t = s.take(s.len() - 1);
        assert(forall|j: int| 0 <= j < t.len() ==> t[j] == s[j]);
    }
}

proof fn lemma_last_pos_unique(s: Seq<char>, c: char, i: int)
    requires
        0 <= i < s.len(),
        s[i] == c,
        forall|j: int| i < j < s.len() ==> s[j] != c,
    ensures
        last_pos(s, c) == i,
{
    lemma_last_pos_props(s, c);
    let lp = last_pos(s, c);
    if lp < i {
        assert(s[i] != c);
        assert(false);
    }
    if lp > i {
        assert(s[lp] != c);
        assert(false);
    }
}

proof fn lemma_last_pos_none(s: Seq<char>, c: char)
    requires
        forall|j: int| 0 <= j < s.len() ==> s[j] != c,
    ensures
        last_pos(s, c) == -1,
{
    lemma_last_pos_props(s, c);
    if last_pos(s, c) >= 0 {
        assert(s[last_pos(s, c)] == c);
        assert(false);
    }
}

/// Last occurrence of one character, scanned from the end.
fn find_last(v: &Vec<char>, c: char) -> (r: Option<usize>)
    ensures
        match r {
            Some(i) => last_pos(v@, c) == i as int,
            None => last_pos(v@, c) == -1,
        },
{
    let mut j: usize = v.len();
    while j > 0
        invariant
            j <= v@.len(),
            forall|m: int| j <= m < v@.len() ==> v@[m] != c,
        decreases j,
    {
        j -= 1;
        if v[j] == c {
            proof {
                lemma_last_pos_unique(v@, c, j as int);
            }
            return Some(j);
        }
    }
    proof {
        lemma_last_pos_none(v@, c);
    }
    None
}

/// The file's extension, per the documented rule, or `None` when the path has
/// none.
pub fn file_extension(path: &str) -> (r: Option<String>)
    ensures
        match r {
            Some(e) => ext_of(path@) == Some(e@),
            None => ext_of(path@) is None,
        },
{
    let v = str_chars(path);
    let d = find_last(&v, '.');
    let sl = find_last(&v, '/');
    proof {
        lemma_last_pos_props(v@, '.');
        lemma_last_pos_props(v@, '/');
    }
    let di: usize = match d {
        Some(i) => i,
        None => {
            return None;
        },
    };
    let start: usize = match sl {
        Some(i) => i + 1,
        None => 0,
    };
    if di <= start {
        return None;
    }
    let ext = span_chars(&v, di + 1, v.len());
    proof {
        assert(v@.subrange(di + 1, v@.len() as int) =~= path@.skip(di + 1));
    }
    Some(chars_string(&ext))
}

/// Returns the first language whose declared extensions contain `e` exactly.
fn find_language<'a>(rules: &'a SyntaxRules, e: &String) -> (r: Option<&'a LanguageRules>)
    ensures
        match r {
            Some(l) => is_first_lang_with_ext(*rules, e@, *l),
            None => !some_lang_has_ext(*rules, e@),
        },
{
    let n = rules.languages.len();
    let mut j: usize = 0;
    while j < n
        invariant
            j <= n == rules.languages@.len(),
            forall|k: int| 0 <= k < j ==> !lang_has_ext(rules.languages@[k].1, e@),
        decreases n - j,
    {
        let entry = vstd::slice::slice_index_get(rules.languages.as_slice(), j);
        let lang = &entry.1;
        let m = lang.extensions.len();
        let mut i: usize = 0;
        while i < m
            invariant
                i <= m == lang.extensions@.len(),
                *lang == rules.languages@[j as int].1,
                j < rules.languages@.len(),
                forall|k: int| 0 <= k < j ==> !lang_has_ext(rules.languages@[k].1, e@),
                forall|k: int| 0 <= k < i ==> lang.extensions@[k]@ != e@,
            decreases m - i,
        {
            let cand = vstd::slice::slice_index_get(lang.extensions.as_slice(), i);
            if cand.eq(e) {
                proof {
                    assert(lang_has_ext(rules.languages@[j as int].1, e@));
                }
                return Some(lang);
            }
            i += 1;
        }
        proof {
            assert(!lang_has_ext(rules.languages@[j as int].1, e@));
        }
        j += 1;
    }
    None
}

/// Maps a file path to the one language definition claiming its extension:
/// the first language of the set whose extension list contains it. Fails with
/// the unsupported-file-type error when the path has no extension (carrying a
/// fixed message) or when no language claims it (carrying the extension).
pub fn detect_file_type<'a>(file_path: &str, rules: &'a SyntaxRules) -> (r: Result<
    &'a LanguageRules,
    Error,
>)
    ensures
        match ext_of(file_path@) {
            None => is_unsupported(r, "No file extension found"@),
            Some(e) => {
                if some_lang_has_ext(*rules, e) {
                    match r {
                        Result::Ok(l) => is_first_lang_with_ext(*rules, e, *l),
                        Result::Err(_) => false,
                    }
                } else {
                    is_unsupported(r, e)
                }
            },
        },
{
    let ext = match file_extension(file_path) {
        Some(e) => e,
        None => {
            return Err(Error::UnsupportedFileType(String::from_str("No file extension found")));
        },
    };
    match find_language(rules, &ext) {
        Some(l) => Ok(l),
        None => Err(Error::UnsupportedFileType(ext)),
    }
}

} // verus!
