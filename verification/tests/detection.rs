use comment_remover::detect::{detect_file_type, file_extension};
use comment_remover::policy::{is_yes_answer, should_remove_comment};
use comment_remover::rules::{Error, LanguageRules, MultiLineRule, SyntaxRule, SyntaxRules};

fn simple_lang(name: &str, exts: &[&str]) -> LanguageRules {
    LanguageRules {
        name: name.to_string(),
        extensions: exts.iter().map(|e| e.to_string()).collect(),
        single_line: vec![SyntaxRule {
            pattern: "//".to_string(),
            description: "line comment".to_string(),
        }],
        multi_line: vec![MultiLineRule {
            start: "/*".to_string(),
            end: "*/".to_string(),
            description: "block comment".to_string(),
        }],
    }
}

fn ruleset() -> SyntaxRules {
    SyntaxRules {
        languages: vec![
            ("rust".to_string(), simple_lang("Rust", &["rs"])),
            ("python".to_string(), simple_lang("Python", &["py"])),
            ("javascript".to_string(), simple_lang("JavaScript", &["js", "jsx"])),
        ],
    }
}

#[test]
fn unknown_extension_fails_with_that_extension() {
    let rules = ruleset();
    match detect_file_type("file.xyz", &rules) {
        Err(Error::UnsupportedFileType(e)) => assert_eq!(e, "xyz"),
        _ => panic!("detection must fail for an unknown extension"),
    }
}

#[test]
fn missing_extension_fails_with_fixed_message() {
    let rules = ruleset();
    match detect_file_type("Makefile", &rules) {
        Err(Error::UnsupportedFileType(e)) => assert_eq!(e, "No file extension found"),
        _ => panic!("detection must fail without an extension"),
    }
}

#[test]
fn known_extension_returns_its_language() {
    let rules = ruleset();
    let l = detect_file_type("src/main.py", &rules).unwrap();
    assert_eq!(l.name, "Python");
    let l2 = detect_file_type("component.jsx", &rules).unwrap();
    assert_eq!(l2.name, "JavaScript");
}

#[test]
fn duplicate_extension_resolves_to_first_language() {
    let rules = SyntaxRules {
        languages: vec![
            ("first".to_string(), simple_lang("First", &["rs"])),
            ("second".to_string(), simple_lang("Second", &["rs"])),
        ],
    };
    let l = detect_file_type("lib.rs", &rules).unwrap();
    assert_eq!(l.name, "First");
}

#[test]
fn extension_is_text_after_last_dot_of_final_segment() {
    assert_eq!(file_extension("a/b/c.tar.gz"), Some("gz".to_string()));
    assert_eq!(file_extension("main.rs"), Some("rs".to_string()));
    assert_eq!(file_extension("a.b/file"), None);
    assert_eq!(file_extension(".bashrc"), None);
    assert_eq!(file_extension("dir/.hidden"), None);
    assert_eq!(file_extension("trailing."), Some(String::new()));
    assert_eq!(file_extension("noext"), None);
    assert_eq!(file_extension(""), None);
}

#[test]
fn empty_extension_list_never_matches() {
    let mut l = simple_lang("Empty", &[]);
    l.extensions.clear();
    let rules = SyntaxRules { languages: vec![("empty".to_string(), l)] };
    match detect_file_type("x.rs", &rules) {
        Err(Error::UnsupportedFileType(e)) => assert_eq!(e, "rs"),
        _ => panic!("a language without extensions is unreachable"),
    }
}

#[test]
fn extension_match_is_exact_and_case_sensitive() {
    let rules = ruleset();
    match detect_file_type("main.RS", &rules) {
        Err(Error::UnsupportedFileType(e)) => assert_eq!(e, "RS"),
        _ => panic!("extension comparison must be exact"),
    }
}

#[test]
fn automatic_policy_always_removes() {
    assert!(should_remove_comment("// any comment", true));
}

#[test]
fn yes_answers_accepted_after_trimming() {
    assert!(is_yes_answer("y"));
    assert!(is_yes_answer("Y"));
    assert!(is_yes_answer("y\n"));
    assert!(is_yes_answer("  Y \t\r\n"));
}

#[test]
fn unicode_whitespace_trimmed_like_str_trim() {
    // the trimming must agree with str::trim on the full White_Space set
    assert!(is_yes_answer("\u{b}y"));
    assert!(is_yes_answer("\u{c}Y\u{85}"));
    assert!(is_yes_answer("\u{a0}y\u{2003}\n"));
    assert!(is_yes_answer("\u{3000}Y\u{202f}"));
    assert_eq!(is_yes_answer("\u{b}y"), "\u{b}y".trim().to_lowercase() == "y");
    assert_eq!(is_yes_answer("\u{a0}n\u{a0}"), "\u{a0}n\u{a0}".trim().to_lowercase() == "y");
}

#[test]
fn other_answers_rejected() {
    assert!(!is_yes_answer("n"));
    assert!(!is_yes_answer("yes"));
    assert!(!is_yes_answer(""));
    assert!(!is_yes_answer(" \n"));
    assert!(!is_yes_answer("yy"));
    assert!(!is_yes_answer("x y"));
}
