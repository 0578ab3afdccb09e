//! Regular expressions, as the `regex` crate compiles and runs them.
//!
//! Nothing here says what a pattern means. The three functions without a
//! body below are names for what the crate answers, and the contracts in
//! the rest of the library speak of those names.

use crate::error::BotError;
use vstd::prelude::*;

verus! {

/// `regex::Regex`, a compiled regular expression. Nothing is known of what
/// is inside.
#[verifier::external_type_specification]
#[verifier::external_body]
pub struct ExRegex(regex::Regex);

/// `regex::Error`, the reason why a pattern was rejected. Nothing is known
/// of what is inside.
#[verifier::external_type_specification]
#[verifier::external_body]
pub struct ExRegexError(regex::Error);

/// Whether `regex::RegexBuilder::build` accepts `pattern` under the default
/// limits, with case-insensitive matching switched on or off.
pub uninterp spec fn regex_compiles(pattern: Seq<char>, case_insensitive: bool) -> bool;

/// What `regex::Regex::is_match` answers for `haystack`, on the regular
/// expression that `regex::RegexBuilder::build` made of `pattern`.
pub uninterp spec fn regex_is_match(
    pattern: Seq<char>,
    case_insensitive: bool,
    haystack: Seq<char>,
) -> bool;

/// What `regex::Regex::replace_all` makes of `haystack` with the replacement
/// text `replacement`, on the regular expression that
/// `regex::RegexBuilder::build` made of `pattern`.
pub uninterp spec fn regex_replace_all(
    pattern: Seq<char>,
    case_insensitive: bool,
    haystack: Seq<char>,
    replacement: Seq<char>,
) -> Seq<char>;

/// A compiled regular expression together with the text and the setting it
/// was compiled from.
pub struct Pattern {
    source: String,
    case_insensitive: bool,
    regex: regex::Regex,
}

/// `regex::RegexBuilder::new`, `case_insensitive` and `build`: compiles
/// `pattern`. The contract claims only that success depends on nothing but
/// the two arguments; which patterns are accepted is left to the crate.
#[verifier::external_body]
fn build_regex(pattern: &str, case_insensitive: bool) -> (result: Result<
    regex::Regex,
    regex::Error,
>)
    ensures
        result is Ok <==> regex_compiles(pattern@, case_insensitive),
{
    regex::RegexBuilder::new(pattern).case_insensitive(case_insensitive).build()
}

/// `regex::Regex::is_match`: whether the expression matches anywhere in
/// `haystack`. The contract names the answer by the text and the setting
/// that `pattern` was compiled from; [`Pattern::compile`], which alone makes
/// a `Pattern`, keeps the two beside the expression.
#[verifier::external_body]
fn regex_matches(pattern: &Pattern, haystack: &str) -> (result: bool)
    ensures
        result == regex_is_match(pattern.source@, pattern.case_insensitive, haystack@),
{
    pattern.regex.is_match(haystack)
}

/// `regex::Regex::replace_all`: `haystack` with every match, from left to
/// right and without overlap, replaced by the expansion of `replacement`.
/// The contract names the result as [`regex_matches`] does.
#[verifier::external_body]
fn regex_replaced(pattern: &Pattern, haystack: &str, replacement: &str) -> (result: String)
    ensures
        result@ == regex_replace_all(
            pattern.source@,
            pattern.case_insensitive,
            haystack@,
            replacement@,
        ),
{
    pattern.regex.replace_all(haystack, replacement).into_owned()
}

impl Pattern {
    /// The text that the pattern was compiled from.
    pub closed spec fn source(&self) -> Seq<char> {
        self.source@
    }

    /// Whether the pattern ignores case.
    pub closed spec fn ignores_case(&self) -> bool {
        self.case_insensitive
    }

    /// Compiles `pattern`. Fails with [`BotError::InvalidPattern`] exactly where
    /// the regular expression engine rejects it.
    pub fn compile(pattern: &str, case_insensitive: bool) -> (result: Result<Pattern, BotError>)
        ensures
            match result {
                Ok(compiled) => {
                    &&& regex_compiles(pattern@, case_insensitive)
                    &&& compiled.source() == pattern@
                    &&& compiled.ignores_case() == case_insensitive
                },
                Err(error) => {
                    &&& !regex_compiles(pattern@, case_insensitive)
                    &&& error == BotError::InvalidPattern
                },
            },
    {
        match build_regex(pattern, case_insensitive) {
            Ok(regex) => Ok(Pattern { source: pattern.to_owned(), case_insensitive, regex }),
            Err(_) => Err(BotError::InvalidPattern),
        }
    }

    /// Whether the pattern matches anywhere in `haystack`.
    pub fn is_match(&self, haystack: &str) -> (result: bool)
        ensures
            result == regex_is_match(self.source(), self.ignores_case(), haystack@),
    {
        regex_matches(self, haystack)
    }

    /// `haystack` with every match replaced by the expansion of
    /// `replacement`.
    pub fn replace_all(&self, haystack: &str, replacement: &str) -> (result: String)
        ensures
            result@ == regex_replace_all(
                self.source(),
                self.ignores_case(),
                haystack@,
                replacement@,
            ),
    {
        regex_replaced(self, haystack, replacement)
    }
}

} // verus!
