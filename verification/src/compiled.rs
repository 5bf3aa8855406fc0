//! Regular expressions compiled by the `regex` crate, each with the text and
//! flag it was compiled from.

use vstd::prelude::*;

verus! {

#[verifier::external_type_specification]
#[verifier::external_body]
pub struct ExRegex(regex::Regex);

/// How the `regex` crate answers a request to compile `pattern` (with the
/// default limits, case-insensitive or not): nothing when it compiles, and
/// otherwise the text with which it describes the problem.
pub uninterp spec fn regex_refusal(pattern: Seq<char>, case_insensitive: bool) -> Option<Seq<char>>;

/// Whether the compiled form of `pattern` matches somewhere in `text`.
pub uninterp spec fn regex_finds_match(pattern: Seq<char>, case_insensitive: bool, text: Seq<char>) -> bool;

/// What `regex` gives back when it replaces every non-overlapping match of
/// `pattern` in `text` by the expansion of the template `replacement`.
pub uninterp spec fn regex_replaced(
    pattern: Seq<char>,
    case_insensitive: bool,
    text: Seq<char>,
    replacement: Seq<char>,
) -> Seq<char>;

/// A compiled regular expression and what it was compiled from. Its fields
/// are private to this module, and `compile_regex` is the only place that
/// makes one.
pub struct CompiledRegex {
    regex: regex::Regex,
    model: Ghost<(Seq<char>, bool)>,
}

impl View for CompiledRegex {
    /// The pattern text and the case flag it was compiled from.
    type V = (Seq<char>, bool);

    closed spec fn view(&self) -> (Seq<char>, bool) {
        self.model@
    }
}

/// Trusted: `regex::RegexBuilder::build`, after `RegexBuilder::new(pattern)`
/// and `case_insensitive(case_insensitive)`; a refusal is turned into the
/// `Display` text of the `regex::Error`. Claimed: it succeeds exactly when
/// `regex_refusal` of the same pattern and flag is nothing, a refusal reads
/// the text that `regex_refusal` gives, and what it compiled is the regex of
/// that pattern and flag.
#[verifier::external_body]
pub(crate) fn compile_regex(pattern: &str, case_insensitive: bool) -> (r: Result<CompiledRegex, String>)
    ensures
        r is Ok <==> regex_refusal(pattern@, case_insensitive) is None,
        r matches Err(msg) ==> regex_refusal(pattern@, case_insensitive) == Some(msg@),
        r matches Ok(c) ==> c@ == (pattern@, case_insensitive),
{
    match regex::RegexBuilder::new(pattern).case_insensitive(case_insensitive).build() {
        Ok(regex) => Ok(CompiledRegex { regex, model: Ghost((pattern@, case_insensitive)) }),
        Err(e) => Err(e.to_string()),
    }
}

/// Trusted: `regex::Regex::is_match`. Claimed: the answer is
/// `regex_finds_match` of the pattern and flag `c` was compiled from and the
/// haystack.
#[verifier::external_body]
pub(crate) fn regex_is_match(c: &CompiledRegex, text: &str) -> (r: bool)
    ensures
        r == regex_finds_match(c@.0, c@.1, text@),
{
    c.regex.is_match(text)
}

/// Trusted: `regex::Regex::replace_all` with a `&str` template. Claimed: the
/// result is `regex_replaced` of the pattern and flag `c` was compiled from,
/// the haystack and the template; and, as the crate documents, a haystack
/// with no match comes back unchanged.
#[verifier::external_body]
pub(crate) fn regex_replace_all(c: &CompiledRegex, text: &str, replacement: &str) -> (r: String)
    ensures
        r@ == regex_replaced(c@.0, c@.1, text@, replacement@),
        !regex_finds_match(c@.0, c@.1, text@) ==> r@ == text@,
{
    c.regex.replace_all(text, replacement).into_owned()
}

} // verus!
