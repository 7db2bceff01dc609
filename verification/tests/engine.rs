use comment_remover::detect::detect_file_type;
use comment_remover::pattern::{find_match, get_comment_patterns, CommentPattern};
use comment_remover::rules::{LanguageRules, MultiLineRule, SyntaxRule, SyntaxRules};
use comment_remover::scan::{apply_decision, remove_comments};
use comment_remover::text::{chars_string, str_chars};

fn lang(
    name: &str,
    exts: &[&str],
    single: &[&str],
    multi: &[(&str, &str)],
) -> LanguageRules {
    LanguageRules {
        name: name.to_string(),
        extensions: exts.iter().map(|e| e.to_string()).collect(),
        single_line: single
            .iter()
            .map(|p| SyntaxRule {
                pattern: p.to_string(),
                description: format!("{} single-line", name),
            })
            .collect(),
        multi_line: multi
            .iter()
            .map(|(s, e)| MultiLineRule {
                start: s.to_string(),
                end: e.to_string(),
                description: format!("{} multi-line", name),
            })
            .collect(),
    }
}

fn rust_like() -> LanguageRules {
    lang("Rust", &["rs"], &["//"], &[("/*", "*/")])
}

#[test]
fn single_line_auto_example() {
    let l = lang("C", &["c"], &["//"], &[]);
    let patterns = get_comment_patterns(&l, false);
    let (out, found, removed) = remove_comments("// hello\nint x = 1;\n// world\n", &patterns, true, false);
    assert_eq!(out, "\nint x = 1;\n\n");
    assert_eq!(found, 2);
    assert_eq!(removed, 2);
}

#[test]
fn multi_line_non_greedy_two_matches() {
    let l = lang("C", &["c"], &[], &[("/*", "*/")]);
    let patterns = get_comment_patterns(&l, false);
    let (out, found, removed) = remove_comments("/* a */ code /* b */", &patterns, true, false);
    assert_eq!(found, 2);
    assert_eq!(removed, 2);
    assert_eq!(out, " code ");
}

#[test]
fn multi_line_merged_would_eat_code() {
    // if matching were greedy the middle code would vanish; it must stay
    let l = lang("C", &["c"], &[], &[("/*", "*/")]);
    let patterns = get_comment_patterns(&l, false);
    let (out, _, _) = remove_comments("/*x*/ keep /*y*/", &patterns, true, false);
    assert!(out.contains("keep"));
}

#[test]
fn auto_mode_idempotent() {
    let patterns = get_comment_patterns(&rust_like(), false);
    let input = "// a\nx/* b */y\n// c\n";
    let (out1, found1, removed1) = remove_comments(input, &patterns, true, false);
    assert_eq!(found1, 3);
    assert_eq!(removed1, 3);
    let (out2, found2, removed2) = remove_comments(&out1, &patterns, true, false);
    assert_eq!(found2, 0);
    assert_eq!(removed2, 0);
    assert_eq!(out2, out1);
}

#[test]
fn code_outside_spans_preserved() {
    let l = lang("C", &["c"], &["//"], &[]);
    let patterns = get_comment_patterns(&l, false);
    let (out, found, removed) = remove_comments("int a;\n// comment\nint b;\n", &patterns, true, false);
    assert_eq!(out, "int a;\n\nint b;\n");
    assert_eq!(found, 1);
    assert_eq!(removed, 1);
}

#[test]
fn inline_comment_not_matched() {
    // a single-line pattern is anchored to the line start
    let l = lang("C", &["c"], &["//"], &[]);
    let patterns = get_comment_patterns(&l, false);
    let (out, found, removed) = remove_comments("int x = 1; // inline\n", &patterns, true, false);
    assert_eq!(out, "int x = 1; // inline\n");
    assert_eq!(found, 0);
    assert_eq!(removed, 0);
}

#[test]
fn leading_whitespace_included_in_span() {
    let l = lang("C", &["c"], &["//"], &[]);
    let patterns = get_comment_patterns(&l, false);
    let (out, found, _) = remove_comments("   // indented\ncode\n", &patterns, true, false);
    assert_eq!(out, "\ncode\n");
    assert_eq!(found, 1);
}

#[test]
fn unicode_whitespace_may_precede_single_line_token() {
    let l = lang("C", &["c"], &["//"], &[]);
    let patterns = get_comment_patterns(&l, false);
    let (out, found, removed) = remove_comments("\u{a0}// nbsp lead\ncode\n", &patterns, true, false);
    assert_eq!(out, "\ncode\n");
    assert_eq!(found, 1);
    assert_eq!(removed, 1);
}

#[test]
fn adjacent_single_line_comments_all_found() {
    let l = lang("C", &["c"], &["//"], &[]);
    let patterns = get_comment_patterns(&l, false);
    let (out, found, removed) = remove_comments("// a\n// b\n", &patterns, true, false);
    assert_eq!(out, "\n\n");
    assert_eq!(found, 2);
    assert_eq!(removed, 2);
}

#[test]
fn adjacent_multi_line_comments_all_found() {
    let l = lang("C", &["c"], &[], &[("/*", "*/")]);
    let patterns = get_comment_patterns(&l, false);
    let (out, found, removed) = remove_comments("/*a*//*b*/", &patterns, true, false);
    assert_eq!(out, "");
    assert_eq!(found, 2);
    assert_eq!(removed, 2);
}

#[test]
fn unterminated_multi_line_not_matched() {
    let l = lang("C", &["c"], &[], &[("/*", "*/")]);
    let patterns = get_comment_patterns(&l, false);
    let (out, found, _) = remove_comments("/* open forever\ncode\n", &patterns, true, false);
    assert_eq!(out, "/* open forever\ncode\n");
    assert_eq!(found, 0);
}

#[test]
fn empty_content_no_matches() {
    let patterns = get_comment_patterns(&rust_like(), false);
    let (out, found, removed) = remove_comments("", &patterns, true, false);
    assert_eq!(out, "");
    assert_eq!(found, 0);
    assert_eq!(removed, 0);
}

#[test]
fn no_patterns_returns_content_unchanged() {
    let patterns: Vec<CommentPattern> = Vec::new();
    let (out, found, removed) = remove_comments("h\u{e9}llo \u{4e16}\u{754c}\n", &patterns, true, false);
    assert_eq!(out, "h\u{e9}llo \u{4e16}\u{754c}\n");
    assert_eq!(found, 0);
    assert_eq!(removed, 0);
}

#[test]
fn python_style_hash_comments() {
    let l = lang("Python", &["py"], &["#"], &[]);
    let patterns = get_comment_patterns(&l, false);
    let (out, found, removed) = remove_comments("# top\nx = 1\n  # indented\n", &patterns, true, false);
    assert_eq!(out, "\nx = 1\n\n");
    assert_eq!(found, 2);
    assert_eq!(removed, 2);
}

#[test]
fn compiled_patterns_ordered_single_then_multi() {
    let patterns = get_comment_patterns(&rust_like(), false);
    assert_eq!(patterns.len(), 2);
    match &patterns[0] {
        CommentPattern::SingleLine { token } => {
            assert_eq!(token.iter().collect::<String>(), "//");
        },
        CommentPattern::MultiLine { .. } => panic!("single-line rule must come first"),
    }
    match &patterns[1] {
        CommentPattern::MultiLine { start, end } => {
            assert_eq!(start.iter().collect::<String>(), "/*");
            assert_eq!(end.iter().collect::<String>(), "*/");
        },
        CommentPattern::SingleLine { .. } => panic!("multi-line rule must come second"),
    }
}

#[test]
fn rejection_leaves_text_untouched() {
    // the scanner applies a negative decision by keeping the span verbatim
    // and moving the cursor past it
    let text = str_chars("// keep me\ncode\n");
    let (kept, cursor) = apply_decision(text, 0, 10, false);
    assert_eq!(chars_string(&kept), "// keep me\ncode\n");
    assert_eq!(cursor, 10);
}

#[test]
fn acceptance_deletes_exactly_the_span() {
    let text = str_chars("// gone\ncode\n");
    let (kept, cursor) = apply_decision(text, 0, 7, true);
    assert_eq!(chars_string(&kept), "\ncode\n");
    assert_eq!(cursor, 0);
}

#[test]
fn counters_removed_never_exceed_found() {
    let patterns = get_comment_patterns(&rust_like(), false);
    let (_, found, removed) = remove_comments("// a\n/* b */\n// c\n", &patterns, true, false);
    assert!(removed <= found);
    assert_eq!(found, 3);
}

#[test]
fn find_match_reports_leftmost_span() {
    let l = lang("C", &["c"], &[], &[("/*", "*/")]);
    let patterns = get_comment_patterns(&l, false);
    let text = str_chars("ab /*x*/ cd /*y*/");
    let m = find_match(&text, &patterns[0], 0);
    assert_eq!(m, Some((3, 8)));
    let m2 = find_match(&text, &patterns[0], 4);
    assert_eq!(m2, Some((12, 17)));
    let m3 = find_match(&text, &patterns[0], 13);
    assert_eq!(m3, None);
}

#[test]
fn several_rule_sets_run_in_declared_order() {
    // an earlier pattern's removal can expose a later pattern's match
    let l = lang("Mixed", &["m"], &["//"], &[("<", ">")]);
    let patterns = get_comment_patterns(&l, false);
    let (out, found, removed) = remove_comments("x <a> y\n", &patterns, true, false);
    assert_eq!(out, "x  y\n");
    assert_eq!(found, 1);
    assert_eq!(removed, 1);
}

#[test]
fn detection_never_modifies_content() {
    let rules = SyntaxRules { languages: vec![("rust".to_string(), rust_like())] };
    let content = "// untouched\n";
    let r = detect_file_type("file.xyz", &rules);
    assert!(r.is_err());
    assert_eq!(content, "// untouched\n");
}
