//! The pattern compiler and matcher. Each rule becomes a `CommentPattern`
//! whose match semantics are pinned down exactly: a single-line pattern
//! matches, from a line start, optional leading whitespace, the literal token,
//! and the rest of that line; a multi-line pattern matches from its literal
//! start token up to and including the nearest later occurrence of its end
//! token (non-greedy, so adjacent comments are never merged).

use std::io::Write;
use vstd::prelude::*;

use crate::rules::LanguageRules;
use crate::text::{
    has_newline, has_token_at, is_line_start, is_line_ws, is_line_ws_char, line_end,
    line_end_from, str_chars, token_at,
};

verus! {

/// A compiled, executable text-matching pattern, one per rule.
#[derive(Debug, Clone)]
pub enum CommentPattern {
    SingleLine { token: Vec<char> },
    MultiLine { start: Vec<char>, end: Vec<char> },
}

pub open spec fn is_single_pattern(p: CommentPattern, tok: Seq<char>) -> bool {
    match p {
        CommentPattern::SingleLine { token } => token@ == tok,
        CommentPattern::MultiLine { .. } => false,
    }
}

pub open spec fn is_multi_pattern(p: CommentPattern, st: Seq<char>, en: Seq<char>) -> bool {
    match p {
        CommentPattern::SingleLine { .. } => false,
        CommentPattern::MultiLine { start, end } => start@ == st && end@ == en,
    }
}

pub open spec fn is_single(p: CommentPattern) -> bool {
    match p {
        CommentPattern::SingleLine { .. } => true,
        CommentPattern::MultiLine { .. } => false,
    }
}

/// A single-line comment of token `t` begins at position `i`: `i` starts a
/// line, and after optional line-local whitespace the literal token occurs.
/// A usable token is nonempty and holds no newline (the match is line-scoped).
pub open spec fn sl_starts_at(s: Seq<char>, t: Seq<char>, i: int) -> bool {
    &&& t.len() > 0
    &&& !has_newline(t)
    &&& is_line_start(s, i)
    &&& exists|k: int| sl_token_pos(s, t, i, k)
}

/// Witness that the token occurs at `k`, preceded only by line whitespace.
pub open spec fn sl_token_pos(s: Seq<char>, t: Seq<char>, i: int, k: int) -> bool {
    &&& i <= k
    &&& token_at(s, t, k)
    &&& forall|j: int| i <= j < k ==> is_line_ws(s[j])
}

/// The first occurrence of the token `en` at or after `from`.
pub open spec fn first_end(s: Seq<char>, en: Seq<char>, from: int) -> Option<int>
    decreases s.len() - from when 0 <= from
{
    if from + en.len() > s.len() {
        None
    } else if token_at(s, en, from) {
        Some(from)
    } else {
        first_end(s, en, from + 1)
    }
}

/// A multi-line comment begins at `i`: the literal start token occurs there
/// and its end token occurs somewhere after it. Both tokens are nonempty.
pub open spec fn ml_starts_at(s: Seq<char>, st: Seq<char>, en: Seq<char>, i: int) -> bool {
    &&& st.len() > 0
    &&& en.len() > 0
    &&& token_at(s, st, i)
    &&& first_end(s, en, i + st.len()) is Some
}

/// A comment of pattern `p` begins at position `i` of `s`.
pub open spec fn pat_starts_at(s: Seq<char>, p: CommentPattern, i: int) -> bool {
    match p {
        CommentPattern::SingleLine { token } => sl_starts_at(s, token@, i),
        CommentPattern::MultiLine { start, end } => ml_starts_at(s, start@, end@, i),
    }
}

/// The end (exclusive) of the comment span that begins at `i`: the end of the
/// line for a single-line match, or just past the nearest end token for a
/// multi-line match.
pub open spec fn pat_end_at(s: Seq<char>, p: CommentPattern, i: int) -> int
    recommends
        pat_starts_at(s, p, i),
{
    match p {
        CommentPattern::SingleLine { token: _ } => line_end_from(s, i),
        CommentPattern::MultiLine { start, end } => match first_end(s, end@, i + start@.len()) {
            Some(e) => e + end@.len(),
            None => i,
        },
    }
}

/// The leftmost comment span of pattern `p` that begins at or after `from`.
pub open spec fn find_span(s: Seq<char>, p: CommentPattern, from: int) -> Option<(int, int)>
    decreases s.len() - from when 0 <= from
{
    if from >= s.len() {
        None
    } else if pat_starts_at(s, p, from) {
        Some((from, pat_end_at(s, p, from)))
    } else {
        find_span(s, p, from + 1)
    }
}

pub proof fn lemma_first_end_props(s: Seq<char>, en: Seq<char>, from: int)
    requires
        0 <= from,
    ensures
        match first_end(s, en, from) {
            Some(e) => {
                &&& from <= e
                &&& e + en.len() <= s.len()
                &&& token_at(s, en, e)
                &&& forall|q: int| from <= q < e ==> !token_at(s, en, q)
            },
            None => forall|q: int| from <= q ==> !token_at(s, en, q),
        },
    decreases s.len() - from,
{
    if from + en.len() > s.len() {
    } else if token_at(s, en, from) {
    } else {
        lemma_first_end_props(s, en, from + 1);
    }
}

/// A comment span is nonempty and lies inside the text.
pub proof fn lemma_span_props(s: Seq<char>, p: CommentPattern, i: int)
    requires
        pat_starts_at(s, p, i),
    ensures
        0 <= i < pat_end_at(s, p, i) <= s.len(),
{
    match p {
        CommentPattern::SingleLine { token } => {
            let t = token@;
            let k = choose|k: int| sl_token_pos(s, t, i, k);
            assert(forall|j: int| i <= j < k + t.len() ==> s[j] != '\n') by {
                assert forall|j: int| i <= j < k + t.len() implies s[j] != '\n' by {
                    if j < k {
                        assert(is_line_ws(s[j]));
                    } else {
                        assert(s[j] == t[j - k]);
                        assert(!(t[j - k] == '\n')) by {
                            assert(!has_newline(t));
                        }
                    }
                }
            }
            crate::text::lemma_line_end_past(s, i, k + t.len() as int);
            crate::text::lemma_line_end_props(s, i);
        },
        CommentPattern::MultiLine { start, end } => {
            lemma_first_end_props(s, end@, i + start@.len());
        },
    }
}

/// The span returned by `find_span` matches the pattern, is nonempty, lies in
/// the text, and is leftmost; a `None` means no match begins at or after `from`.
pub proof fn lemma_find_span_props(s: Seq<char>, p: CommentPattern, from: int)
    requires
        0 <= from,
    ensures
        match find_span(s, p, from) {
            Some(span) => {
                &&& from <= span.0 < span.1 <= s.len()
                &&& pat_starts_at(s, p, span.0)
                &&& span.1 == pat_end_at(s, p, span.0)
                &&& forall|q: int| from <= q < span.0 ==> !pat_starts_at(s, p, q)
            },
            None => forall|q: int| from <= q ==> !pat_starts_at(s, p, q),
        },
    decreases s.len() - from,
{
    if from >= s.len() {
        assert forall|q: int| from <= q implies !pat_starts_at(s, p, q) by {
            if pat_starts_at(s, p, q) {
                lemma_span_props(s, p, q);
            }
        }
    } else if pat_starts_at(s, p, from) {
        lemma_span_props(s, p, from);
    } else {
        lemma_find_span_props(s, p, from + 1);
    }
}

fn token_has_newline(t: &Vec<char>) -> (b: bool)
    ensures
        b == has_newline(t@),
{
    let mut j: usize = 0;
    while j < t.len()
        invariant
            j <= t@.len(),
            forall|m: int| 0 <= m < j ==> t@[m] != '\n',
        decreases t@.len() - j,
    {
        if t[j] == '\n' {
            return true;
        }
        j += 1;
    }
    false
}

fn check_line_start(s: &Vec<char>, i: usize) -> (b: bool)
    requires
        i <= s@.len(),
    ensures
        b == is_line_start(s@, i as int),
{
    i == 0 || s[i - 1] == '\n'
}

/// Does a single-line comment of token `t` begin at position `i`?
fn sl_check_at(s: &Vec<char>, t: &Vec<char>, i: usize) -> (b: bool)
    requires
        i <= s@.len(),
    ensures
        b == sl_starts_at(s@, t@, i as int),
{
    if t.len() == 0 || token_has_newline(t) || !check_line_start(s, i) {
        return false;
    }
    let n = s.len();
    let mut k: usize = i;
    loop
        invariant
            i <= k <= n,
            n == s@.len(),
            t@.len() > 0,
            !has_newline(t@),
            is_line_start(s@, i as int),
            forall|j: int| i <= j < k ==> is_line_ws(s@[j]),
            forall|m: int| i <= m < k ==> !token_at(s@, t@, m),
        decreases n - k,
    {
        if has_token_at(s, t, k) {
            proof {
                assert(sl_token_pos(s@, t@, i as int, k as int));
            }
            return true;
        }
        if k == n || !is_line_ws_char(s[k]) {
            proof {
                assert forall|kk: int| !sl_token_pos(s@, t@, i as int, kk) by {
                    if sl_token_pos(s@, t@, i as int, kk) {
                        if kk > k {
                            // position k would have to be whitespace, but the
                            // scan stopped there
                            assert(is_line_ws(s@[k as int]));
                        } else {
                            assert(!token_at(s@, t@, kk));
                        }
                    }
                }
            }
            return false;
        }
        k += 1;
    }
}

/// The first occurrence of the end token at or after `from`, if any.
fn find_end(s: &Vec<char>, en: &Vec<char>, from: usize) -> (r: Option<usize>)
    requires
        0 <= from,
    ensures
        match r {
            Some(e) => first_end(s@, en@, from as int) == Some(e as int),
            None => first_end(s@, en@, from as int) is None,
        },
{
    let n = s.len();
    let mut e: usize = from;
    loop
        invariant
            from <= e,
            n == s@.len(),
            first_end(s@, en@, from as int) == first_end(s@, en@, e as int),
        decreases n + en@.len() - e,
    {
        if e > n || en.len() > n - e {
            return None;
        }
        if has_token_at(s, en, e) {
            return Some(e);
        }
        e += 1;
    }
}

/// Does a comment of pattern `p` begin at position `i`?
fn pat_check_at(s: &Vec<char>, p: &CommentPattern, i: usize) -> (b: bool)
    requires
        i <= s@.len(),
    ensures
        b == pat_starts_at(s@, *p, i as int),
{
    match p {
        CommentPattern::SingleLine { token } => sl_check_at(s, token, i),
        CommentPattern::MultiLine { start, end } => {
            if start.len() == 0 || end.len() == 0 {
                return false;
            }
            if !has_token_at(s, start, i) {
                return false;
            }
            let n = s.len();
            assert(i + start@.len() <= n);
            match find_end(s, end, i + start.len()) {
                Some(_) => true,
                None => false,
            }
        },
    }
}

/// The end of the comment span that begins at `i`.
fn pat_end(s: &Vec<char>, p: &CommentPattern, i: usize) -> (r: usize)
    requires
        pat_starts_at(s@, *p, i as int),
    ensures
        r == pat_end_at(s@, *p, i as int),
{
    proof {
        lemma_span_props(s@, *p, i as int);
    }
    match p {
        CommentPattern::SingleLine { token: _ } => line_end(s, i),
        CommentPattern::MultiLine { start, end } => {
            let n = s.len();
            assert(i + start@.len() <= n);
            let r = find_end(s, end, i + start.len());
            proof {
                lemma_first_end_props(s@, end@, i + start@.len());
            }
            match r {
                Some(e) => e + end.len(),
                None => i,  // unreachable: the match includes an end token
            }
        },
    }
}

/// The leftmost comment span of pattern `p` that begins at or after `from`:
/// exactly `find_span` on the text.
pub fn find_match(s: &Vec<char>, p: &CommentPattern, from: usize) -> (r: Option<(usize, usize)>)
    requires
        from <= s@.len(),
    ensures
        match r {
            Some(span) => find_span(s@, *p, from as int) == Some((span.0 as int, span.1 as int)),
            None => find_span(s@, *p, from as int) is None,
        },
{
    let n = s.len();
    let mut i: usize = from;
    while i < n
        invariant
            from <= i <= n,
            n == s@.len(),
            find_span(s@, *p, from as int) == find_span(s@, *p, i as int),
        decreases n - i,
    {
        if pat_check_at(s, p, i) {
            let me = pat_end(s, p, i);
            return Some((i, me));
        }
        i += 1;
    }
    None
}

/// Relies on one standard-output write: announces which language's rules are
/// being compiled.
#[verifier::external_body]
fn print_language_diagnostic(name: &str) {
    let _ = writeln!(std::io::stdout(), "Detecting patterns for language: {}", name);
}

/// Relies on one standard-output write: one diagnostic line per compiled
/// pattern, naming the rule's description and its literal token text.
#[verifier::external_body]
fn print_pattern_diagnostic(description: &str, pattern_text: &str) {
    let _ = writeln!(std::io::stdout(), "Added pattern for {}: {}", description, pattern_text);
}

/// Compiles a language's rules into the ordered pattern sequence: single-line
/// rules first, then multi-line rules, each in declaration order, every token
/// taken as literal text. Verbose mode emits one diagnostic line per
/// compiled pattern.
pub fn get_comment_patterns(language: &LanguageRules, verbose: bool) -> (r: Vec<CommentPattern>)
    ensures
        r@.len() == language.single_line@.len() + language.multi_line@.len(),
        forall|i: int|
            0 <= i < language.single_line@.len() ==> is_single_pattern(
                r@[i],
                language.single_line@[i].pattern@,
            ),
        forall|i: int|
            0 <= i < language.multi_line@.len() ==> is_multi_pattern(
                r@[language.single_line@.len() + i],
                language.multi_line@[i].start@,
                language.multi_line@[i].end@,
            ),
{
    if verbose {
        print_language_diagnostic(language.name.as_str());
    }
    let mut patterns: Vec<CommentPattern> = Vec::new();
    let mut i: usize = 0;
    while i < language.single_line.len()
        invariant
            i <= language.single_line@.len(),
            patterns@.len() == i,
            forall|m: int|
                0 <= m < i ==> is_single_pattern(patterns@[m], language.single_line@[m].pattern@),
        decreases language.single_line@.len() - i,
    {
        if verbose {
            print_pattern_diagnostic(
                language.single_line[i].description.as_str(),
                language.single_line[i].pattern.as_str(),
            );
        }
        let token = str_chars(language.single_line[i].pattern.as_str());
        patterns.push(CommentPattern::SingleLine { token });
        i += 1;
    }
    let mut j: usize = 0;
    while j < language.multi_line.len()
        invariant
            j <= language.multi_line@.len(),
            patterns@.len() == language.single_line@.len() + j,
            forall|m: int|
                0 <= m < language.single_line@.len() ==> is_single_pattern(
                    patterns@[m],
                    language.single_line@[m].pattern@,
                ),
            forall|m: int|
                0 <= m < j ==> is_multi_pattern(
                    patterns@[language.single_line@.len() + m],
                    language.multi_line@[m].start@,
                    language.multi_line@[m].end@,
                ),
        decreases language.multi_line@.len() - j,
    {
        if verbose {
            let mut text = language.multi_line[j].start.clone();
            text.append(" ... ");
            text.append(language.multi_line[j].end.as_str());
            print_pattern_diagnostic(
                language.multi_line[j].description.as_str(),
                text.as_str(),
            );
        }
        let start = str_chars(language.multi_line[j].start.as_str());
        let end = str_chars(language.multi_line[j].end.as_str());
        patterns.push(CommentPattern::MultiLine { start, end });
        j += 1;
    }
    patterns
}

} // verus!
