//! Typed representation of a rule set: a mapping from language key to language
//! definition (name, file extensions, ordered single-line rules, ordered
//! multi-line rules), plus the errors the engine surfaces.

use vstd::prelude::*;

verus! {

/// A single-line comment form: a literal comment-start token that extends the
/// comment to the end of its line.
#[derive(Debug, Clone)]
pub struct SyntaxRule {
    pub pattern: String,
    pub description: String,
}

/// A multi-line comment form delimited by a literal start token and a literal
/// end token, matched non-greedily.
#[derive(Debug, Clone)]
pub struct MultiLineRule {
    pub start: String,
    pub end: String,
    pub description: String,
}

/// One language's comment syntax: its name, the file extensions it claims
/// (without a leading dot), and its comment rules in declaration order.
#[derive(Debug, Clone)]
pub struct LanguageRules {
    pub name: String,
    pub extensions: Vec<String>,
    pub single_line: Vec<SyntaxRule>,
    pub multi_line: Vec<MultiLineRule>,
}

/// A full rule set: language key to definition, in a fixed declaration order,
/// so that extension lookup is deterministic.
#[derive(Debug, Clone)]
pub struct SyntaxRules {
    pub languages: Vec<(String, LanguageRules)>,
}

/// Errors surfaced across the engine's boundary.
#[derive(Debug, Clone)]
pub enum Error {
    /// The file's extension is absent or maps to no known language.
    UnsupportedFileType(String),
    /// The rule set could not be loaded or was structurally malformed.
    SyntaxRulesError(String),
}

} // verus!
