//! Laws of the removal engine, stated and proved over the spec-level model:
//! non-greedy multi-line matching, and idempotence of automatic removal for
//! single-line rule sets.

use vstd::prelude::*;

use crate::pattern::{
    find_span, first_end, is_single, lemma_find_span_props, ml_starts_at, pat_starts_at,
    sl_starts_at, sl_token_pos, CommentPattern,
};
use crate::scan::{run_pat_auto, run_pats_auto};
use crate::text::{
    delete_span, has_newline, is_line_start, is_line_ws, lemma_line_end_props, line_end_from,
    token_at,
};

verus! {

/// Every pattern of the list is a single-line pattern.
pub open spec fn all_single(pats: Seq<CommentPattern>) -> bool {
    forall|i: int| 0 <= i < pats.len() ==> is_single(pats[i])
}

/// Non-greedy multi-line matching: a multi-line comment that begins at `i`
/// closes at the nearest later occurrence of its end token — no end token
/// occurs strictly inside the span — so two separate comments are never
/// merged into one.
pub proof fn lemma_multi_match_minimal(s: Seq<char>, st: Seq<char>, en: Seq<char>, i: int)
    requires
        ml_starts_at(s, st, en, i),
    ensures
        ({
            let e = match first_end(s, en, i + st.len()) {
                Some(e) => e,
                None => i,
            };
            &&& token_at(s, en, e)
            &&& e + en.len() <= s.len()
            &&& forall|q: int| i + st.len() <= q < e ==> !token_at(s, en, q)
        }),
{
    crate::pattern::lemma_first_end_props(s, en, i + st.len());
}

proof fn lemma_delete_span_index(s: Seq<char>, ms: int, me: int)
    requires
        0 <= ms <= me <= s.len(),
    ensures
        delete_span(s, ms, me).len() == s.len() - (me - ms),
        forall|x: int| 0 <= x < ms ==> delete_span(s, ms, me)[x] == s[x],
        forall|x: int|
            ms <= x < s.len() - (me - ms) ==> delete_span(s, ms, me)[x] == s[x + (me - ms)],
{
}

/// Deleting a single-line comment span creates no new single-line match
/// before the deleted span: the newline just before the span still separates
/// everything earlier from what was pulled left.
proof fn lemma_sl_delete_before(s: Seq<char>, ms: int, me: int, t2: Seq<char>, q: int)
    requires
        0 <= ms < me <= s.len(),
        is_line_start(s, ms),
        me == line_end_from(s, ms),
        q < ms,
        !sl_starts_at(s, t2, q),
    ensures
        !sl_starts_at(delete_span(s, ms, me), t2, q),
{
    lemma_delete_span_index(s, ms, me);
    lemma_line_end_props(s, ms);
    let s2 = delete_span(s, ms, me);
    if sl_starts_at(s2, t2, q) {
        let k = choose|k: int| sl_token_pos(s2, t2, q, k);
        assert(sl_token_pos(s2, t2, q, k));
        assert(0 <= q);
        if k + t2.len() <= ms {
            assert(token_at(s, t2, k)) by {
                assert forall|j: int| 0 <= j < t2.len() implies s[k + j] == t2[j] by {
                    assert(s2[k + j] == t2[j]);
                    assert(s2[k + j] == s[k + j]);
                }
            }
            assert forall|j: int| q <= j < k implies is_line_ws(s[j]) by {
                assert(is_line_ws(s2[j]));
                assert(s2[j] == s[j]);
            }
            assert(is_line_start(s, q));
            assert(sl_token_pos(s, t2, q, k));
            assert(false);
        } else {
            assert(ms >= 1);
            assert(s[ms - 1] == '\n');
            assert(s2[ms - 1] == '\n');
            if ms - 1 < k {
                assert(is_line_ws(s2[ms - 1]));
                assert(false);
            } else {
                assert(t2[ms - 1 - k] == s2[ms - 1]);
                assert(has_newline(t2)) by {
                    assert(0 <= ms - 1 - k < t2.len() && t2[ms - 1 - k] == '\n');
                }
                assert(false);
            }
        }
    }
}

/// A single-line match of the shrunk text at or after the deleted span maps
/// back to a single-line match of the original text, shifted right by the
/// deleted length.
proof fn lemma_sl_delete_after(s: Seq<char>, ms: int, me: int, t2: Seq<char>, q: int)
    requires
        0 <= ms < me <= s.len(),
        is_line_start(s, ms),
        me == line_end_from(s, ms),
        ms <= q,
        sl_starts_at(delete_span(s, ms, me), t2, q),
    ensures
        sl_starts_at(s, t2, q + (me - ms)),
{
    lemma_delete_span_index(s, ms, me);
    lemma_line_end_props(s, ms);
    let s2 = delete_span(s, ms, me);
    let d = me - ms;
    let k = choose|k: int| sl_token_pos(s2, t2, q, k);
    assert(sl_token_pos(s2, t2, q, k));
    if q == ms {
        if me == s.len() {
            assert(k + t2.len() <= s2.len());
            assert(s2.len() == ms);
            assert(false);
        } else {
            assert(s[me] == '\n');
            assert(ms < s2.len());
            assert(s2[ms] == s[me]);
            if k > q {
                assert(is_line_ws(s2[q as int]));
                assert(false);
            } else {
                assert(t2[0] == s2[ms]);
                assert(has_newline(t2)) by {
                    assert(0 <= 0 < t2.len() && t2[0] == '\n');
                }
                assert(false);
            }
        }
    } else {
        assert(s2[q - 1] == s[q - 1 + d]);
        assert(is_line_start(s, q + d));
        assert(token_at(s, t2, k + d)) by {
            assert forall|j: int| 0 <= j < t2.len() implies s[k + d + j] == t2[j] by {
                assert(s2[k + j] == t2[j]);
                assert(s2[k + j] == s[k + j + d]);
            }
        }
        assert forall|j: int| q + d <= j < k + d implies is_line_ws(s[j]) by {
            assert(is_line_ws(s2[j - d]));
            assert(s2[j - d] == s[j]);
        }
        assert(sl_token_pos(s, t2, q + d, k + d));
    }
}

/// Deleting one single-line comment span cannot create a single-line match of
/// any token in a text that had none.
proof fn lemma_sl_delete_no_match(s: Seq<char>, ms: int, me: int, t2: Seq<char>)
    requires
        0 <= ms < me <= s.len(),
        is_line_start(s, ms),
        me == line_end_from(s, ms),
        forall|q: int| !sl_starts_at(s, t2, q),
    ensures
        forall|q: int| !sl_starts_at(delete_span(s, ms, me), t2, q),
{
    let s2 = delete_span(s, ms, me);
    assert forall|q: int| !sl_starts_at(s2, t2, q) by {
        if sl_starts_at(s2, t2, q) {
            if q < ms {
                lemma_sl_delete_before(s, ms, me, t2, q);
            } else {
                lemma_sl_delete_after(s, ms, me, t2, q);
            }
        }
    }
}

/// After a full automatic pass of a single-line pattern, no match of that
/// pattern remains anywhere, provided none was skipped before the cursor.
proof fn lemma_run_sl_all_removed(s: Seq<char>, p: CommentPattern, c: int)
    requires
        0 <= c,
        is_single(p),
        forall|q: int| q < c ==> !pat_starts_at(s, p, q),
    ensures
        forall|q: int| !pat_starts_at(run_pat_auto(s, p, c).0, p, q),
    decreases s.len() - c,
{
    lemma_find_span_props(s, p, c);
    match find_span(s, p, c) {
        None => {
            assert forall|q: int| !pat_starts_at(run_pat_auto(s, p, c).0, p, q) by {
                assert(run_pat_auto(s, p, c).0 == s);
                assert(!pat_starts_at(s, p, q));
            }
        },
        Some(span) => {
            let ms = span.0;
            let me = span.1;
            let s2 = delete_span(s, ms, me);
            match p {
                CommentPattern::SingleLine { token } => {
                    assert(sl_starts_at(s, token@, ms));
                    assert(me == line_end_from(s, ms));
                    assert forall|q: int| q < ms implies !pat_starts_at(s2, p, q) by {
                        if pat_starts_at(s2, p, q) {
                            assert(!pat_starts_at(s, p, q));
                            assert(!sl_starts_at(s, token@, q));
                            lemma_sl_delete_before(s, ms, me, token@, q);
                        }
                    }
                    lemma_run_sl_all_removed(s2, p, ms);
                    assert forall|q: int| !pat_starts_at(run_pat_auto(s, p, c).0, p, q) by {
                        assert(run_pat_auto(s, p, c).0 == run_pat_auto(s2, p, ms).0);
                        assert(!pat_starts_at(run_pat_auto(s2, p, ms).0, p, q));
                    }
                },
                CommentPattern::MultiLine { .. } => {
                    assert(false);
                },
            }
        },
    }
}

/// A full automatic pass of a single-line pattern preserves the absence of
/// single-line matches of any other token.
proof fn lemma_run_sl_preserves(s: Seq<char>, p: CommentPattern, c: int, t2: Seq<char>)
    requires
        0 <= c,
        is_single(p),
        forall|q: int| !sl_starts_at(s, t2, q),
    ensures
        forall|q: int| !sl_starts_at(run_pat_auto(s, p, c).0, t2, q),
    decreases s.len() - c,
{
    lemma_find_span_props(s, p, c);
    match find_span(s, p, c) {
        None => {
            assert forall|q: int| !sl_starts_at(run_pat_auto(s, p, c).0, t2, q) by {
                assert(run_pat_auto(s, p, c).0 == s);
                assert(!sl_starts_at(s, t2, q));
            }
        },
        Some(span) => {
            let ms = span.0;
            let me = span.1;
            let s2 = delete_span(s, ms, me);
            match p {
                CommentPattern::SingleLine { token } => {
                    assert(sl_starts_at(s, token@, ms));
                    assert(me == line_end_from(s, ms));
                    lemma_sl_delete_no_match(s, ms, me, t2);
                    lemma_run_sl_preserves(s2, p, ms, t2);
                    assert forall|q: int| !sl_starts_at(run_pat_auto(s, p, c).0, t2, q) by {
                        assert(run_pat_auto(s, p, c).0 == run_pat_auto(s2, p, ms).0);
                        assert(!sl_starts_at(run_pat_auto(s2, p, ms).0, t2, q));
                    }
                },
                CommentPattern::MultiLine { .. } => {
                    assert(false);
                },
            }
        },
    }
}

/// Automatic passes of the later patterns preserve the absence of
/// single-line matches of one token.
proof fn lemma_run_pats_preserve(s: Seq<char>, pats: Seq<CommentPattern>, i: int, t2: Seq<char>)
    requires
        0 <= i,
        all_single(pats),
        forall|q: int| !sl_starts_at(s, t2, q),
    ensures
        forall|q: int| !sl_starts_at(run_pats_auto(s, pats, i).0, t2, q),
    decreases pats.len() - i,
{
    if i < pats.len() {
        let one = run_pat_auto(s, pats[i], 0);
        lemma_run_sl_preserves(s, pats[i], 0, t2);
        lemma_run_pats_preserve(one.0, pats, i + 1, t2);
        assert forall|q: int| !sl_starts_at(run_pats_auto(s, pats, i).0, t2, q) by {
            assert(run_pats_auto(s, pats, i).0 == run_pats_auto(one.0, pats, i + 1).0);
            assert(!sl_starts_at(run_pats_auto(one.0, pats, i + 1).0, t2, q));
        }
    } else {
        assert(run_pats_auto(s, pats, i).0 == s);
    }
}

/// After the automatic run over a single-line rule set, starting at pattern
/// `i`, no pattern of the remainder has any match left in the result.
proof fn lemma_run_pats_none_left(s: Seq<char>, pats: Seq<CommentPattern>, i: int)
    requires
        0 <= i,
        all_single(pats),
    ensures
        forall|j: int, q: int|
            i <= j < pats.len() ==> !pat_starts_at(run_pats_auto(s, pats, i).0, pats[j], q),
    decreases pats.len() - i,
{
    if i < pats.len() {
        let one = run_pat_auto(s, pats[i], 0);
        let rest = run_pats_auto(one.0, pats, i + 1);
        lemma_run_sl_all_removed(s, pats[i], 0);
        lemma_run_pats_none_left(one.0, pats, i + 1);
        match pats[i] {
            CommentPattern::SingleLine { token } => {
                assert forall|q: int| !sl_starts_at(one.0, token@, q) by {
                    assert(!pat_starts_at(one.0, pats[i], q));
                }
                lemma_run_pats_preserve(one.0, pats, i + 1, token@);
                assert forall|q: int| !pat_starts_at(rest.0, pats[i], q) by {
                    assert(!sl_starts_at(rest.0, token@, q));
                }
            },
            CommentPattern::MultiLine { .. } => {
                assert(false);
            },
        }
        assert(run_pats_auto(s, pats, i).0 == rest.0);
        assert forall|j: int, q: int|
            i <= j < pats.len() implies !pat_starts_at(
            run_pats_auto(s, pats, i).0,
            pats[j],
            q,
        ) by {
            if j == i {
                assert(!pat_starts_at(rest.0, pats[i], q));
            } else {
                assert(!pat_starts_at(rest.0, pats[j], q));
            }
        }
    }
}

/// On a text where none of the remaining patterns has any match, the
/// automatic run finds nothing and changes nothing.
proof fn lemma_run_pats_matchless(s: Seq<char>, pats: Seq<CommentPattern>, i: int)
    requires
        0 <= i,
        forall|j: int, q: int| i <= j < pats.len() ==> !pat_starts_at(s, pats[j], q),
    ensures
        run_pats_auto(s, pats, i).1 == 0,
        run_pats_auto(s, pats, i).0 == s,
    decreases pats.len() - i,
{
    if i < pats.len() {
        lemma_find_span_props(s, pats[i], 0);
        match find_span(s, pats[i], 0) {
            Some(span) => {
                assert(pat_starts_at(s, pats[i], span.0));
                assert(false);
            },
            None => {},
        }
        assert(run_pat_auto(s, pats[i], 0) == (s, 0nat));
        lemma_run_pats_matchless(s, pats, i + 1);
        assert(run_pats_auto(s, pats, i).0 == run_pats_auto(s, pats, i + 1).0);
        assert(run_pats_auto(s, pats, i).1 == run_pat_auto(s, pats[i], 0).1 + run_pats_auto(
            s,
            pats,
            i + 1,
        ).1);
    }
}

/// Idempotence of automatic removal for single-line rule sets: running the
/// automatic removal again on the output of a first automatic run finds no
/// comment at all (and therefore changes nothing).
pub proof fn lemma_auto_idempotent(s: Seq<char>, pats: Seq<CommentPattern>)
    requires
        all_single(pats),
    ensures
        run_pats_auto(run_pats_auto(s, pats, 0).0, pats, 0).1 == 0,
        run_pats_auto(run_pats_auto(s, pats, 0).0, pats, 0).0 == run_pats_auto(s, pats, 0).0,
{
    lemma_run_pats_none_left(s, pats, 0);
    lemma_run_pats_matchless(run_pats_auto(s, pats, 0).0, pats, 0);
}

} // verus!
