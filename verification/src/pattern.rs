//! Regular expressions (the `regex` crate) and JSON string literals (the
//! `serde_json` crate), as the page parser uses them.

use vstd::prelude::*;

verus! {

#[verifier::external_type_specification]
#[verifier::external_body]
pub struct ExRegex(regex::Regex);

#[verifier::external_type_specification]
#[verifier::external_body]
pub struct ExRegexError(regex::Error);

#[verifier::external_type_specification]
#[verifier::external_body]
pub struct ExJsonError(serde_json::Error);

/// Whether `regex::Regex::new` accepts the pattern (its syntax is valid and
/// the compiled program fits the default size limit).
pub uninterp spec fn regex_is_valid(pattern: Seq<char>) -> bool;

/// For every non-overlapping match of `pattern` in `haystack`, from left to
/// right (`regex::Regex::captures_iter`), the text of each named group in
/// `names` (`Captures::name`), or `None` where the group took no part.
pub uninterp spec fn regex_named_captures(
    pattern: Seq<char>,
    haystack: Seq<char>,
    names: Seq<Seq<char>>,
) -> Seq<Seq<Option<Seq<char>>>>;

/// `haystack` with every non-overlapping match of `pattern` replaced by
/// `replacement` (`regex::Regex::replace_all`).
pub uninterp spec fn regex_replace_all(
    pattern: Seq<char>,
    haystack: Seq<char>,
    replacement: Seq<char>,
) -> Seq<char>;

/// The string that `serde_json::from_str::<String>` reads from `text`, or
/// `None` where it reports an error.
pub uninterp spec fn json_string(text: Seq<char>) -> Option<Seq<char>>;

/// A compiled regular expression together with the pattern it was compiled
/// from. Only [`compile_pattern`] builds one.
pub struct CompiledPattern {
    source: String,
    regex: regex::Regex,
}

impl CompiledPattern {
    /// The pattern this expression was compiled from.
    pub closed spec fn source(&self) -> Seq<char> {
        self.source@
    }
}

/// Compiles a pattern (`regex::Regex::new`).
///
/// Trusted: the call succeeds exactly on the patterns that `regex_is_valid`
/// names, and the result remembers the pattern it was compiled from.
#[verifier::external_body]
pub(crate) fn compile_pattern(pattern: &str) -> (res: Result<CompiledPattern, regex::Error>)
    ensures
        res is Ok <==> regex_is_valid(pattern@),
        res matches Ok(p) ==> p.source() == pattern@,
{
    match regex::Regex::new(pattern) {
        Ok(regex) => Ok(CompiledPattern { source: pattern.to_string(), regex }),
        Err(err) => Err(err),
    }
}

/// The named groups of every match (`regex::Regex::captures_iter`,
/// `Captures::name`, `Match::as_str`).
///
/// Trusted: the result is what `regex_named_captures` names for the pattern,
/// the haystack and the group names; each row has one entry per name, as the
/// conversion builds it.
#[verifier::external_body]
pub(crate) fn named_captures(p: &CompiledPattern, haystack: &str, names: &Vec<&str>) -> (res: Vec<
    Vec<Option<String>>,
>)
    ensures
        res.deep_view() == regex_named_captures(p.source(), haystack@, names.deep_view()),
        forall|i: int| 0 <= i < res.len() ==> (#[trigger] res@[i]).len() == names.len(),
{
    p.regex.captures_iter(haystack).map(
        |caps| names.iter().map(|n| caps.name(n).map(|m| m.as_str().to_string())).collect(),
    ).collect()
}

/// Replaces every match of the pattern (`regex::Regex::replace_all`).
///
/// Trusted: the result is what `regex_replace_all` names for the pattern,
/// the haystack and the replacement text.
#[verifier::external_body]
pub(crate) fn replace_all(p: &CompiledPattern, haystack: &str, replacement: &str) -> (res: String)
    ensures
        res@ == regex_replace_all(p.source(), haystack@, replacement@),
{
    p.regex.replace_all(haystack, replacement).into_owned()
}

/// Reads a JSON string literal (`serde_json::from_str::<String>`).
///
/// Trusted: the call succeeds exactly where `json_string` names a string,
/// and then returns that string.
#[verifier::external_body]
pub(crate) fn json_string_from_str(text: &str) -> (res: Result<String, serde_json::Error>)
    ensures
        res is Ok <==> json_string(text@) is Some,
        res matches Ok(s) ==> json_string(text@) == Some(s@),
{
    serde_json::from_str::<String>(text)
}

} // verus!
