//! The confirmation policy: decides, per found comment, whether to delete it.
//! In automatic mode the answer is always yes; otherwise the matched text is
//! shown and one line is read from the terminal, and the answer is yes exactly
//! when the trimmed input is the literal yes token, in either case.

use colored::Colorize;
use std::io::Write;
use vstd::prelude::*;

use crate::text::{is_ws, is_ws_char, str_chars};

verus! {

/// `s` with leading answer whitespace removed.
pub open spec fn ltrimmed(s: Seq<char>) -> Seq<char>
    decreases s.len(),
{
    if s.len() > 0 && is_ws(s[0]) {
        ltrimmed(s.skip(1))
    } else {
        s
    }
}

/// `s` with trailing answer whitespace removed.
pub open spec fn rtrimmed(s: Seq<char>) -> Seq<char>
    decreases s.len(),
{
    if s.len() > 0 && is_ws(s[s.len() - 1]) {
        rtrimmed(s.take(s.len() - 1))
    } else {
        s
    }
}

pub open spec fn trimmed(s: Seq<char>) -> Seq<char> {
    rtrimmed(ltrimmed(s))
}

/// The input, once trimmed, is the yes token (case-insensitively).
pub open spec fn is_yes_spec(s: Seq<char>) -> bool {
    trimmed(s) == seq!['y'] || trimmed(s) == seq!['Y']
}

/// Whether an interactive answer line counts as a yes.
pub fn is_yes_answer(s: &str) -> (r: bool)
    ensures
        r == is_yes_spec(s@),
{
    let v = str_chars(s);
    let n = v.len();
    proof {
        assert(s@.skip(0) =~= s@);
    }
    let mut a: usize = 0;
    while a < n && is_ws_char(v[a])
        invariant
            a <= n == v@.len(),
            v@ == s@,
            ltrimmed(s@) == ltrimmed(s@.skip(a as int)),
        decreases n - a,
    {
        proof {
            assert(s@.skip(a as int).skip(1) =~= s@.skip(a + 1));
        }
        a += 1;
    }
    let ghost u = s@.skip(a as int);
    proof {
        assert(ltrimmed(s@) == u);
        assert(u.take((n - a) as int) =~= u);
    }
    let mut b: usize = n;
    while b > a && is_ws_char(v[b - 1])
        invariant
            a <= b <= n == v@.len(),
            v@ == s@,
            u == s@.skip(a as int),
            rtrimmed(u) == rtrimmed(u.take(b - a)),
        decreases b,
    {
        proof {
            assert(u.take(b - a).take(b - 1 - a) =~= u.take(b - 1 - a));
            assert(u.take(b - a)[b - 1 - a] == s@[b - 1]);
        }
        b -= 1;
    }
    proof {
        if b == a {
            assert(u.take(0) =~= Seq::<char>::empty());
            assert(rtrimmed(u) =~= u.take(b - a));
        } else {
            assert(u.take(b - a)[b - a - 1] == s@[b - 1]);
            assert(rtrimmed(u) =~= u.take(b - a));
        }
        assert(trimmed(s@) == u.take(b - a));
    }
    if b - a == 1 && (v[a] == 'y' || v[a] == 'Y') {
        proof {
            assert(u.take(1) =~= seq![s@[a as int]]);
            if s@[a as int] == 'y' {
                assert(trimmed(s@) == seq!['y']);
            } else {
                assert(trimmed(s@) == seq!['Y']);
            }
        }
        true
    } else {
        proof {
            if is_yes_spec(s@) {
                assert(trimmed(s@).len() == 1);
                assert(b - a == 1);
                assert(u.take(1)[0] == s@[a as int]);
            }
        }
        false
    }
}

/// Relies on `colored`'s `Colorize::yellow` and one standard-output write: it
/// displays the matched comment text (in yellow) and the removal prompt.
#[verifier::external_body]
fn print_found_comment(comment: &str) {
    let _ = writeln!(
        std::io::stdout(),
        "\nFound comment:\n{}\nRemove this comment? (y/n):",
        comment.yellow()
    );
}

/// Relies on `std::io::Stdin::read_line`: blocks until one line of input
/// arrives and returns it; nothing is promised of its contents, and an input
/// failure yields what was read so far.
#[verifier::external_body]
fn read_answer_line() -> (r: String) {
    let mut input = String::new();
    let _ = std::io::stdin().read_line(&mut input);
    input
}

/// Decides whether a found comment is removed. Automatic mode always says
/// yes; otherwise the comment is displayed and the decision is read from the
/// terminal, where any answer may come back.
pub fn should_remove_comment(comment: &str, auto: bool) -> (r: bool)
    ensures
        auto ==> r,
{
    if auto {
        return true;
    }
    print_found_comment(comment);
    let input = read_answer_line();
    is_yes_answer(input.as_str())
}

} // verus!
