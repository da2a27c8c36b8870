//! Compiled key patterns for bulk operations.
//!
//! Repeat operations select keys by a regular expression over key
//! strings.  Compilation and matching are done by the `regex` crate;
//! both depend only on the pattern and the text, so their results are
//! named by uninterpreted spec functions.

use vstd::prelude::*;

verus! {

/// Whether a pattern is a well-formed regular expression.
pub uninterp spec fn regex_ok(pattern: Seq<char>) -> bool;

/// Whether a regular expression matches somewhere in a text.
pub uninterp spec fn regex_matches(pattern: Seq<char>, text: Seq<char>) -> bool;

#[verifier::external_type_specification]
#[verifier::external_body]
pub struct ExRegex(regex::Regex);

/// A key pattern together with its compiled form.
pub struct Pattern {
    raw: String,
    compiled: regex::Regex,
}

impl View for Pattern {
    type V = Seq<char>;

    closed spec fn view(&self) -> Seq<char> {
        self.raw@
    }
}

impl Pattern {
    /// Relies on `regex::Regex::new`: whether a pattern compiles depends
    /// on the pattern string alone.
    #[verifier::external_body]
    pub fn new(raw: String) -> (r: Option<Pattern>)
        ensures
            match r {
                Some(p) => p@ == raw@ && regex_ok(raw@),
                None => !regex_ok(raw@),
            },
    {
        match regex::Regex::new(raw.as_str()) {
            Ok(compiled) => Some(Pattern { raw, compiled }),
            Err(_) => None,
        }
    }

    /// Relies on `regex::Regex::is_match`: the result depends on the
    /// pattern and the text alone.
    #[verifier::external_body]
    pub fn is_match(&self, text: &str) -> (r: bool)
        ensures
            r == regex_matches(self@, text@),
    {
        self.compiled.is_match(text)
    }
}

} // verus!
