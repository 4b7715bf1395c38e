//! The patterns by which enforcement handlers select settings.

use regex::Regex;
use vstd::prelude::*;

verus! {

#[verifier::external_type_specification]
#[verifier::external_body]
pub struct ExRegex(regex::Regex);

/// Whether `regex::Regex::new` accepts `source` as a regular expression.
pub uninterp spec fn regex_compiles(source: Seq<char>) -> bool;

/// Whether the regular expression written as `source` matches somewhere in
/// `text`, as `regex::Regex::is_match` finds it.
pub uninterp spec fn regex_is_match(source: Seq<char>, text: Seq<char>) -> bool;

/// A regular expression, ready to be matched against the comparison keys of
/// settings. It keeps the text it was compiled from; `compile` is the only
/// place where one is made, so the two always belong together.
pub struct Pattern {
    source: String,
    compiled: Regex,
}

impl View for Pattern {
    type V = Seq<char>;

    closed spec fn view(&self) -> Seq<char> {
        self.source@
    }
}

/// `regex::Regex::new`: compiles `source` with the crate's default options.
/// The pattern that comes back holds the compiled expression together with
/// `source`; there is none where the crate rejects the expression.
#[verifier::external_body]
fn compile(source: &str) -> (r: Option<Pattern>)
    ensures
        r is Some == regex_compiles(source@),
        r matches Some(p) ==> p@ == source@,
{
    match Regex::new(source) {
        Ok(compiled) => Some(Pattern { source: source.to_string(), compiled }),
        Err(_) => None,
    }
}

/// `regex::Regex::is_match` on the compiled expression of `pattern`: whether
/// the expression matches anywhere in `text`. The expression is the one that
/// `regex::Regex::new` made of the pattern's text.
#[verifier::external_body]
fn search(pattern: &Pattern, text: &str) -> (found: bool)
    ensures
        found == regex_is_match(pattern@, text@),
{
    pattern.compiled.is_match(text)
}

impl Pattern {
    /// Compiles a regular expression; `None` where it is not a valid one.
    pub fn new(source: &str) -> (r: Option<Pattern>)
        ensures
            r is Some == regex_compiles(source@),
            r matches Some(p) ==> p@ == source@,
    {
        compile(source)
    }

    /// The text that the pattern was compiled from.
    pub fn as_str(&self) -> (r: &str)
        ensures
            r@ == self@,
    {
        self.source.as_str()
    }

    /// Whether the pattern matches somewhere in `text`.
    pub fn is_match(&self, text: &str) -> (found: bool)
        ensures
            found == regex_is_match(self@, text@),
    {
        search(self, text)
    }
}

} // verus!
