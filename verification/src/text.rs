//! Character-level primitives shared by the pattern matcher and the scanner:
//! tokens, line structure, span deletion, and the subsequence relation used to
//! state that removal only ever deletes text.

use vstd::prelude::*;

verus! {

/// A whitespace character: the full Unicode White_Space set, as trimmed from
/// an interactive answer line.
pub open spec fn is_ws(c: char) -> bool {
    ||| c == ' '
    ||| c == '\t'
    ||| c == '\n'
    ||| c == '\u{b}'
    ||| c == '\u{c}'
    ||| c == '\r'
    ||| c == '\u{85}'
    ||| c == '\u{a0}'
    ||| c == '\u{1680}'
    ||| c == '\u{2000}'
    ||| c == '\u{2001}'
    ||| c == '\u{2002}'
    ||| c == '\u{2003}'
    ||| c == '\u{2004}'
    ||| c == '\u{2005}'
    ||| c == '\u{2006}'
    ||| c == '\u{2007}'
    ||| c == '\u{2008}'
    ||| c == '\u{2009}'
    ||| c == '\u{200a}'
    ||| c == '\u{2028}'
    ||| c == '\u{2029}'
    ||| c == '\u{202f}'
    ||| c == '\u{205f}'
    ||| c == '\u{3000}'
}

/// Whitespace that may precede a single-line comment token on its own line:
/// any whitespace except the newline, which ends the line.
pub open spec fn is_line_ws(c: char) -> bool {
    is_ws(c) && c != '\n'
}

/// Whether `c` is a whitespace character.
pub fn is_ws_char(c: char) -> (b: bool)
    ensures
        b == is_ws(c),
{
    c == ' ' || c == '\t' || c == '\n' || c == '\u{b}' || c == '\u{c}' || c == '\r'
        || c == '\u{85}' || c == '\u{a0}' || c == '\u{1680}' || c == '\u{2000}' || c == '\u{2001}'
        || c == '\u{2002}' || c == '\u{2003}' || c == '\u{2004}' || c == '\u{2005}'
        || c == '\u{2006}' || c == '\u{2007}' || c == '\u{2008}' || c == '\u{2009}'
        || c == '\u{200a}' || c == '\u{2028}' || c == '\u{2029}' || c == '\u{202f}'
        || c == '\u{205f}' || c == '\u{3000}'
}

/// Whether `c` may stand as leading whitespace of a single-line comment.
pub fn is_line_ws_char(c: char) -> (b: bool)
    ensures
        b == is_line_ws(c),
{
    is_ws_char(c) && c != '\n'
}

/// The literal token `t` occurs in `s` starting at position `i`.
pub open spec fn token_at(s: Seq<char>, t: Seq<char>, i: int) -> bool {
    &&& 0 <= i
    &&& i + t.len() <= s.len()
    &&& forall|j: int| 0 <= j < t.len() ==> s[i + j] == t[j]
}

pub open spec fn has_newline(t: Seq<char>) -> bool {
    exists|j: int| 0 <= j < t.len() && t[j] == '\n'
}

/// Position `i` begins a line of `s`.
pub open spec fn is_line_start(s: Seq<char>, i: int) -> bool {
    i == 0 || (0 < i <= s.len() && s[i - 1] == '\n')
}

/// The end of the line that position `i` lies on: the first newline at or
/// after `i`, or the end of the text.
pub open spec fn line_end_from(s: Seq<char>, i: int) -> int
    recommends
        0 <= i <= s.len(),
    decreases s.len() - i when 0 <= i <= s.len()
{
    if i >= s.len() {
        s.len() as int
    } else if s[i] == '\n' {
        i
    } else {
        line_end_from(s, i + 1)
    }
}

/// `s` with the span `[ms, me)` deleted.
pub open spec fn delete_span(s: Seq<char>, ms: int, me: int) -> Seq<char> {
    s.subrange(0, ms) + s.subrange(me, s.len() as int)
}

/// `a` can be obtained from `b` by deleting characters: everything kept is in
/// its original relative order.
pub open spec fn is_subseq(a: Seq<char>, b: Seq<char>) -> bool
    decreases b.len(),
{
    if a.len() == 0 {
        true
    } else if b.len() == 0 {
        false
    } else {
        (a[0] == b[0] && is_subseq(a.skip(1), b.skip(1))) || is_subseq(a, b.skip(1))
    }
}

pub proof fn lemma_line_end_props(s: Seq<char>, i: int)
    requires
        0 <= i <= s.len(),
    ensures
        i <= line_end_from(s, i) <= s.len(),
        line_end_from(s, i) == s.len() || s[line_end_from(s, i)] == '\n',
        forall|j: int| i <= j < line_end_from(s, i) ==> s[j] != '\n',
    decreases s.len() - i,
{
    if i < s.len() && s[i] != '\n' {
        lemma_line_end_props(s, i + 1);
    }
}

pub proof fn lemma_line_end_past(s: Seq<char>, i: int, m: int)
    requires
        0 <= i <= m <= s.len(),
        forall|j: int| i <= j < m ==> s[j] != '\n',
    ensures
        line_end_from(s, i) >= m,
    decreases m - i,
{
    if i < m {
        lemma_line_end_past(s, i + 1, m);
    } else {
        lemma_line_end_props(s, i);
    }
}

pub proof fn lemma_subseq_refl(a: Seq<char>)
    ensures
        is_subseq(a, a),
    decreases a.len(),
{
    if a.len() > 0 {
        lemma_subseq_refl(a.skip(1));
    }
}

proof fn lemma_subseq_prepend(a: Seq<char>, b: Seq<char>)
    ensures
        is_subseq(a, b + a),
    decreases b.len(),
{
    if b.len() == 0 {
        assert(b + a =~= a);
        lemma_subseq_refl(a);
    } else {
        lemma_subseq_prepend(a, b.skip(1));
        assert((b + a).skip(1) =~= b.skip(1) + a);
        if a.len() > 0 {
            assert(is_subseq(a, (b + a).skip(1)));
        }
    }
}

proof fn lemma_subseq_concat_left(a: Seq<char>, b: Seq<char>, c: Seq<char>)
    ensures
        is_subseq(a + c, a + b + c),
    decreases a.len(),
{
    if a.len() == 0 {
        assert(a + c =~= c);
        assert(a + b + c =~= b + c);
        lemma_subseq_prepend(c, b);
    } else {
        lemma_subseq_concat_left(a.skip(1), b, c);
        assert((a + c).skip(1) =~= a.skip(1) + c);
        assert((a + b + c).skip(1) =~= a.skip(1) + b + c);
        assert((a + c)[0] == (a + b + c)[0]);
    }
}

/// Deleting a span of a text yields a subsequence of it.
pub proof fn lemma_subseq_delete(s: Seq<char>, ms: int, me: int)
    requires
        0 <= ms <= me <= s.len(),
    ensures
        is_subseq(delete_span(s, ms, me), s),
{
    let a = s.subrange(0, ms);
    let b = s.subrange(ms, me);
    let c = s.subrange(me, s.len() as int);
    assert(s =~= a + b + c);
    lemma_subseq_concat_left(a, b, c);
}

pub proof fn lemma_subseq_trans(a: Seq<char>, b: Seq<char>, c: Seq<char>)
    requires
        is_subseq(a, b),
        is_subseq(b, c),
    ensures
        is_subseq(a, c),
    decreases c.len(),
{
    if a.len() == 0 {
    } else {
        // a nonempty, so b and c are nonempty as well
        if b[0] == c[0] && is_subseq(b.skip(1), c.skip(1)) {
            if a[0] == b[0] && is_subseq(a.skip(1), b.skip(1)) {
                lemma_subseq_trans(a.skip(1), b.skip(1), c.skip(1));
            } else {
                lemma_subseq_trans(a, b.skip(1), c.skip(1));
            }
        } else {
            lemma_subseq_trans(a, b, c.skip(1));
        }
    }
}

/// Exact occurrence check for a literal token at one position.
pub fn has_token_at(s: &Vec<char>, t: &Vec<char>, i: usize) -> (b: bool)
    ensures
        b == token_at(s@, t@, i as int),
{
    let n = s.len();
    if i > n || t.len() > n - i {
        return false;
    }
    let mut j: usize = 0;
    while j < t.len()
        invariant
            j <= t@.len(),
            n == s@.len(),
            i + t@.len() <= n,
            forall|m: int| 0 <= m < j ==> s@[i + m] == t@[m],
        decreases t@.len() - j,
    {
        if s[i + j] != t[j] {
            return false;
        }
        j += 1;
    }
    true
}

/// First newline at or after `i`, or the length of the text.
pub fn line_end(s: &Vec<char>, i: usize) -> (r: usize)
    requires
        i <= s@.len(),
    ensures
        r == line_end_from(s@, i as int),
{
    let mut j: usize = i;
    while j < s.len() && s[j] != '\n'
        invariant
            i <= j <= s@.len(),
            line_end_from(s@, i as int) == line_end_from(s@, j as int),
        decreases s@.len() - j,
    {
        j += 1;
    }
    j
}

/// Copy of `s` with the span `[ms, me)` deleted.
pub fn remove_span(s: &Vec<char>, ms: usize, me: usize) -> (r: Vec<char>)
    requires
        ms <= me <= s@.len(),
    ensures
        r@ == delete_span(s@, ms as int, me as int),
{
    let mut r: Vec<char> = Vec::new();
    let mut i: usize = 0;
    while i < ms
        invariant
            i <= ms <= s@.len(),
            r@ =~= s@.subrange(0, i as int),
        decreases ms - i,
    {
        r.push(s[i]);
        i += 1;
    }
    let mut j: usize = me;
    while j < s.len()
        invariant
            ms <= me <= j <= s@.len(),
            r@ =~= s@.subrange(0, ms as int) + s@.subrange(me as int, j as int),
        decreases s@.len() - j,
    {
        r.push(s[j]);
        j += 1;
    }
    proof {
        assert(r@ =~= delete_span(s@, ms as int, me as int));
    }
    r
}

/// Copy of the span `[ms, me)` of `s`.
pub fn span_chars(s: &Vec<char>, ms: usize, me: usize) -> (r: Vec<char>)
    requires
        ms <= me <= s@.len(),
    ensures
        r@ == s@.subrange(ms as int, me as int),
{
    let mut r: Vec<char> = Vec::new();
    let mut i: usize = ms;
    while i < me
        invariant
            ms <= i <= me <= s@.len(),
            r@ =~= s@.subrange(ms as int, i as int),
        decreases me - i,
    {
        r.push(s[i]);
        i += 1;
    }
    proof {
        assert(r@ =~= s@.subrange(ms as int, me as int));
    }
    r
}

/// The characters of a string slice, in order.
pub fn str_chars(s: &str) -> (r: Vec<char>)
    ensures
        r@ == s@,
{
    let n = s.unicode_len();
    let mut r: Vec<char> = Vec::new();
    let mut i: usize = 0;
    while i < n
        invariant
            i <= n == s@.len(),
            r@ =~= s@.subrange(0, i as int),
        decreases n - i,
    {
        r.push(s.get_char(i));
        i += 1;
    }
    proof {
        assert(r@ =~= s@);
    }
    r
}

/// Relies on `String::push`: appends exactly the one character.
#[verifier::external_body]
fn push_char(s: &mut String, c: char)
    ensures
        final(s)@ == old(s)@.push(c),
{
    s.push(c);
}

/// A string holding the given characters, in order.
pub fn chars_string(v: &Vec<char>) -> (r: String)
    ensures
        r@ == v@,
{
    let mut r = String::new();
    let mut i: usize = 0;
    while i < v.len()
        invariant
            i <= v@.len(),
            r@ =~= v@.subrange(0, i as int),
        decreases v@.len() - i,
    {
        push_char(&mut r, v[i]);
        i += 1;
    }
    proof {
        assert(r@ =~= v@);
    }
    r
}

} // verus!
