//! Strips comments from source-code text based on declarative, per-language
//! comment syntax rules: single-line prefixes and multi-line start/end
//! delimiters, applied with an interactive-or-automatic deletion policy and
//! found/removed accounting.

pub mod detect;
pub mod laws;
pub mod pattern;
pub mod policy;
pub mod rules;
pub mod scan;
pub mod text;
