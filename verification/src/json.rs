//! Cleaning a response body before it is read as JSON.

use vstd::prelude::*;

verus! {

/// What the site's message texts hold that breaks JSON reading: a `\u`
/// escape up to the next space or `...`.
pub const MESSAGE_STRIP_PATTERN: &'static str = "(\\\\u.*?)( |\\.\\.\\.)";

/// A compiled regular expression for the text that is stripped from a body.
#[verifier::external_type_specification]
#[verifier::external_body]
pub struct ExRegex(regex::Regex);

/// A pattern of text to strip, with its compiled form.
pub struct StripPattern {
    pattern: String,
    compiled: regex::Regex,
}

impl View for StripPattern {
    type V = Seq<char>;

    /// The text of the pattern.
    closed spec fn view(&self) -> Seq<char> {
        self.pattern@
    }
}

/// The text that removing every match of the regular expression `pattern`
/// from `text` leaves.
pub uninterp spec fn pattern_removed(pattern: Seq<char>, text: Seq<char>) -> Seq<char>;

/// The text is a regular expression that `Regex::new` accepts.
pub uninterp spec fn pattern_compiles(pattern: Seq<char>) -> bool;

/// `Regex::new`: the compiled pattern, when it is a valid regular expression.
/// Which patterns are valid the contract names and does not say.
#[verifier::external_body]
fn compile_pattern(pattern: &str) -> (r: Option<StripPattern>)
    ensures
        r is Some <==> pattern_compiles(pattern@),
        r matches Some(p) ==> p@ == pattern@,
{
    match regex::Regex::new(pattern) {
        Ok(compiled) => Some(StripPattern { pattern: pattern.to_string(), compiled }),
        Err(_) => None,
    }
}

/// `Regex::replace_all` with the empty replacement: `text` without the
/// matches of the pattern. The contract names the result and says nothing
/// more of it.
#[verifier::external_body]
fn remove_matches(p: &StripPattern, text: &str) -> (r: String)
    ensures
        r@ == pattern_removed(p@, text@),
{
    p.compiled.replace_all(text, "").into_owned()
}

impl StripPattern {
    /// The pattern compiled, or `None` when it is no valid regular expression.
    pub fn new(pattern: &str) -> (r: Option<StripPattern>)
        ensures
            r is Some <==> pattern_compiles(pattern@),
            r matches Some(p) ==> p@ == pattern@,
    {
        compile_pattern(pattern)
    }
}

/// The body to read as JSON: without the matches of the pattern when one is
/// given, unchanged otherwise.
pub fn strip_json_body(body: &str, pattern: Option<&StripPattern>) -> (r: String)
    ensures
        pattern is None ==> r@ == body@,
        pattern matches Some(p) ==> r@ == pattern_removed(p@, body@),
{
    match pattern {
        Some(p) => remove_matches(p, body),
        None => body.to_owned(),
    }
}

} // verus!
