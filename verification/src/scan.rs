//! The comment scanner/remover. Patterns are applied strictly in order; per
//! pattern, a cursor walks the working copy, each match is counted and
//! submitted to the confirmation policy, an accepted span is deleted (and the
//! cursor returns to the match start, so that following comments shifted left
//! are still found), a rejected span is skipped past. Automatic runs are
//! pinned down exactly by the spec-level model `run_pats_auto`.

use std::io::Write;
use vstd::prelude::*;

use crate::pattern::{find_match, find_span, lemma_find_span_props, CommentPattern};
use crate::policy::should_remove_comment;
use crate::text::{
    chars_string, delete_span, is_subseq, lemma_subseq_delete, lemma_subseq_refl,
    lemma_subseq_trans, remove_span, span_chars, str_chars,
};

verus! {

/// One full automatic pass of one pattern over `s`, scanning from `from`:
/// every match is removed, and the scan resumes at the match's start. Returns
/// the final text and how many matches were found (all of them removed).
pub open spec fn run_pat_auto(s: Seq<char>, p: CommentPattern, from: int) -> (Seq<char>, nat)
    decreases s.len() - from when 0 <= from via run_pat_auto_dec
{
    match find_span(s, p, from) {
        None => (s, 0),
        Some(span) => {
            let rec = run_pat_auto(delete_span(s, span.0, span.1), p, span.0);
            (rec.0, (rec.1 + 1) as nat)
        },
    }
}

#[via_fn]
proof fn run_pat_auto_dec(s: Seq<char>, p: CommentPattern, from: int) {
    lemma_find_span_props(s, p, from);
}

/// The automatic run over the pattern list, starting with pattern `i`: the
/// resulting text and the total number of matches found (and removed).
pub open spec fn run_pats_auto(s: Seq<char>, pats: Seq<CommentPattern>, i: int) -> (Seq<char>, nat)
    decreases pats.len() - i when 0 <= i
{
    if i >= pats.len() {
        (s, 0)
    } else {
        let one = run_pat_auto(s, pats[i], 0);
        let rest = run_pats_auto(one.0, pats, i + 1);
        (rest.0, (one.1 + rest.1) as nat)
    }
}

/// No pattern of the list has any match in `s`.
pub open spec fn no_initial_match(s: Seq<char>, pats: Seq<CommentPattern>) -> bool {
    forall|i: int| 0 <= i < pats.len() ==> find_span(s, pats[i], 0) is None
}

/// Matches of one pattern found by a pass that removes nothing: the text
/// stays as it is and the cursor skips past each found span.
pub open spec fn count_skipped(s: Seq<char>, p: CommentPattern, from: int) -> nat
    decreases s.len() - from when 0 <= from via count_skipped_dec
{
    match find_span(s, p, from) {
        None => 0,
        Some(span) => (1 + count_skipped(s, p, span.1)) as nat,
    }
}

#[via_fn]
proof fn count_skipped_dec(s: Seq<char>, p: CommentPattern, from: int) {
    lemma_find_span_props(s, p, from);
}

/// Total matches found over the unchanged text by a run that declines every
/// removal, starting with pattern `i`.
pub open spec fn count_skipped_all(s: Seq<char>, pats: Seq<CommentPattern>, i: int) -> nat
    decreases pats.len() - i when 0 <= i
{
    if i >= pats.len() {
        0
    } else {
        (count_skipped(s, pats[i], 0) + count_skipped_all(s, pats, i + 1)) as nat
    }
}

/// Applies one confirmation decision to a found comment span. Acceptance
/// deletes exactly the span and puts the cursor at the match's start;
/// rejection leaves the working copy untouched — the span stays byte-identical
/// — and puts the cursor at the match's end.
pub fn apply_decision(text: Vec<char>, ms: usize, me: usize, accept: bool) -> (r: (Vec<char>, usize))
    requires
        ms <= me <= text@.len(),
    ensures
        accept ==> r.0@ == delete_span(text@, ms as int, me as int) && r.1 == ms,
        !accept ==> r.0@ == text@ && r.1 == me,
{
    if accept {
        let t = remove_span(&text, ms, me);
        (t, ms)
    } else {
        (text, me)
    }
}

/// Relies on one standard-output write: one diagnostic line per found match,
/// naming its offset and its text.
#[verifier::external_body]
fn print_match_diagnostic(offset: usize, comment: &str) {
    let _ = writeln!(std::io::stdout(), "Found comment at position {}: {}", offset, comment);
}

/// Scans `content` with the compiled patterns, in order, consulting the
/// confirmation policy per match; verbose mode emits one diagnostic line per
/// match found. Returns the modified text, the number of
/// comments found, and the number removed. The output is always a
/// subsequence of the input (removal only ever deletes matched spans), in
/// automatic mode the result is exactly the one of the spec-level model,
/// content without any match comes back unchanged with a zero count, and a
/// run that removes nothing — every confirmation declined — hands the text
/// back byte-identical.
pub fn remove_comments(content: &str, patterns: &Vec<CommentPattern>, auto: bool, verbose: bool) -> (r: (
    String,
    usize,
    usize,
))
    requires
        patterns@.len() * content@.len() < usize::MAX,
    ensures
        is_subseq(r.0@, content@),
        r.2 <= r.1,
        auto ==> ({
            let full = run_pats_auto(content@, patterns@, 0);
            &&& r.0@ == full.0
            &&& r.1 == full.1
            &&& r.2 == r.1
        }),
        no_initial_match(content@, patterns@) ==> r.1 == 0 && r.0@ == content@,
        r.2 == 0 ==> r.0@ == content@ && r.1 == count_skipped_all(content@, patterns@, 0),
{
    let mut text = str_chars(content);
    let ghost t0 = text@;
    let ghost big_l = content@.len() as int;
    let ghost n_pats = patterns@.len() as int;
    let ghost full = run_pats_auto(t0, patterns@, 0);
    let ghost hyp0 = no_initial_match(t0, patterns@);
    let mut found: usize = 0;
    let mut removed: usize = 0;
    let mut pi: usize = 0;
    proof {
        lemma_subseq_refl(t0);
    }
    while pi < patterns.len()
        invariant
            pi <= patterns@.len(),
            n_pats == patterns@.len(),
            big_l == content@.len(),
            t0 == content@,
            full == run_pats_auto(t0, patterns@, 0),
            hyp0 == no_initial_match(t0, patterns@),
            n_pats * big_l < usize::MAX,
            text@.len() <= big_l,
            is_subseq(text@, t0),
            removed <= found,
            found as int <= pi as int * big_l,
            auto ==> removed == found,
            auto ==> run_pats_auto(text@, patterns@, pi as int).0 == full.0,
            auto ==> found as int + run_pats_auto(text@, patterns@, pi as int).1 == full.1,
            hyp0 ==> found == 0 && text@ == t0,
            removed == 0 ==> text@ == t0 && found as int + count_skipped_all(
                t0,
                patterns@,
                pi as int,
            ) == count_skipped_all(t0, patterns@, 0),
        decreases patterns@.len() - pi,
    {
        let p = vstd::slice::slice_index_get(patterns.as_slice(), pi);
        let ghost pp = patterns@[pi as int];
        let ghost t_start = text@;
        let ghost f_start = found as int;
        let ghost r_start = removed as int;
        let ghost pass = run_pat_auto(t_start, pp, 0);
        proof {
            assert(r_start == 0 ==> t_start == t0 && f_start + count_skipped_all(
                t0,
                patterns@,
                pi as int,
            ) == count_skipped_all(t0, patterns@, 0));
        }
        let mut cursor: usize = 0;
        loop
            invariant
                cursor <= text@.len(),
                text@.len() <= t_start.len(),
                t_start.len() <= big_l,
                big_l == content@.len(),
                t0 == content@,
                n_pats == patterns@.len(),
                pi < patterns@.len(),
                pp == patterns@[pi as int],
                *p == pp,
                n_pats * big_l < usize::MAX,
                pass == run_pat_auto(t_start, pp, 0),
                hyp0 == no_initial_match(t0, patterns@),
                is_subseq(text@, t0),
                removed <= found,
                f_start <= found as int,
                0 <= r_start <= removed as int,
                f_start <= pi as int * big_l,
                found as int - f_start + (text@.len() - cursor as int) <= t_start.len(),
                auto ==> removed == found,
                auto ==> run_pat_auto(text@, pp, cursor as int).0 == pass.0,
                auto ==> found as int - f_start + run_pat_auto(text@, pp, cursor as int).1
                    == pass.1,
                hyp0 ==> found == 0 && text@ == t0 && cursor == 0 && f_start == 0,
                removed == 0 ==> text@ == t0 && found as int - f_start + count_skipped(
                    t0,
                    pp,
                    cursor as int,
                ) == count_skipped(t0, pp, 0),
            ensures
                cursor <= text@.len(),
                text@.len() <= t_start.len(),
                is_subseq(text@, t0),
                removed <= found,
                f_start <= found as int,
                0 <= r_start <= removed as int,
                found as int <= f_start + t_start.len(),
                auto ==> removed == found,
                auto ==> text@ == pass.0 && found as int - f_start == pass.1,
                hyp0 ==> found == 0 && text@ == t0,
                removed == 0 ==> text@ == t0 && found as int - f_start == count_skipped(
                    t0,
                    pp,
                    0,
                ),
            decreases text@.len() - cursor,
        {
            let m = find_match(&text, p, cursor);
            match m {
                None => {
                    proof {
                        assert(find_span(text@, pp, cursor as int) is None);
                        assert(run_pat_auto(text@, pp, cursor as int).0 == text@);
                        assert(run_pat_auto(text@, pp, cursor as int).1 == 0);
                        if removed == 0 {
                            assert(count_skipped(t0, pp, cursor as int) == 0);
                        }
                    }
                    break ;
                },
                Some((ms, me)) => {
                    let ghost c_old = cursor as int;
                    proof {
                        lemma_find_span_props(text@, pp, cursor as int);
                        if hyp0 {
                            // no pattern matches the original text, and the
                            // working copy still is the original text
                            assert(find_span(t0, patterns@[pi as int], 0) is None);
                            assert(false);
                        }
                        assert(found as int - f_start < t_start.len());
                        assert(f_start + t_start.len() <= pi as int * big_l + big_l);
                        assert(pi as int * big_l + big_l == (pi as int + 1) * big_l) by (nonlinear_arith);
                        assert((pi as int + 1) * big_l <= n_pats * big_l) by (nonlinear_arith)
                            requires
                                pi as int + 1 <= n_pats,
                                0 <= big_l,
                        ;
                    }
                    found += 1;
                    let span = span_chars(&text, ms, me);
                    let comment = chars_string(&span);
                    if verbose {
                        print_match_diagnostic(ms, comment.as_str());
                    }
                    let accept = should_remove_comment(comment.as_str(), auto);
                    let ghost t_before = text@;
                    let res = apply_decision(text, ms, me, accept);
                    text = res.0;
                    cursor = res.1;
                    if accept {
                        removed += 1;
                        proof {
                            lemma_subseq_delete(t_before, ms as int, me as int);
                            lemma_subseq_trans(text@, t_before, t0);
                            if auto {
                                // one unfolding of the model at the old cursor
                                assert(find_span(t_before, pp, c_old) == Some((
                                    ms as int,
                                    me as int,
                                )));
                                assert(run_pat_auto(t_before, pp, c_old) == ({
                                    let rec = run_pat_auto(
                                        delete_span(t_before, ms as int, me as int),
                                        pp,
                                        ms as int,
                                    );
                                    (rec.0, (rec.1 + 1) as nat)
                                }));
                            }
                        }
                    } else {
                        proof {
                            if removed == 0 {
                                // one unfolding of the skip-scan count at the
                                // old cursor; the text is still the original
                                assert(t_before == t0);
                                assert(find_span(t0, pp, c_old) == Some((ms as int, me as int)));
                                assert(count_skipped(t0, pp, c_old) == 1 + count_skipped(
                                    t0,
                                    pp,
                                    me as int,
                                ));
                            }
                        }
                    }
                },
            }
        }
        proof {
            if auto {
                assert(run_pats_auto(t_start, patterns@, pi as int)
                    == (run_pats_auto(pass.0, patterns@, pi as int + 1).0,
                        (pass.1 + run_pats_auto(pass.0, patterns@, pi as int + 1).1) as nat));
            }
            assert(pi as int * big_l + big_l == (pi as int + 1) * big_l) by (nonlinear_arith);
            if removed == 0 {
                assert(r_start == 0);
                assert(t_start == t0);
                assert(f_start + count_skipped_all(t0, patterns@, pi as int) == count_skipped_all(
                    t0,
                    patterns@,
                    0,
                ));
                assert(count_skipped_all(t0, patterns@, pi as int) == count_skipped(
                    t0,
                    patterns@[pi as int],
                    0,
                ) + count_skipped_all(t0, patterns@, pi as int + 1));
            }
        }
        pi += 1;
    }
    proof {
        assert(run_pats_auto(text@, patterns@, pi as int) == (text@, 0nat));
        assert(count_skipped_all(t0, patterns@, pi as int) == 0);
    }
    let out = chars_string(&text);
    (out, found, removed)
}

} // verus!
