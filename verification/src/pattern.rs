//! The source pattern: a regular expression that must match a whole path.

use vstd::prelude::*;
use crate::compiled::{compile_regex, regex_refusal, CompiledRegex};

verus! {

/// The pattern that is compiled for a source expression: the expression as
/// one group, anchored at both ends, so that it must match the whole text
/// (an alternation in it included), not a part of it.
pub open spec fn anchored(source: Seq<char>) -> Seq<char> {
    seq!['^', '(', '?', ':'] + source + seq![')', '$']
}

/// What a compiled pattern stands for.
pub struct PatternView {
    pub source: Seq<char>,
    pub case_insensitive: bool,
}

/// A compiled source pattern.
pub struct Pattern {
    regex: CompiledRegex,
}

impl View for Pattern {
    type V = PatternView;

    closed spec fn view(&self) -> PatternView {
        PatternView { source: self.regex@.0, case_insensitive: self.regex@.1 }
    }
}

/// Why a source expression was refused.
pub enum PatternError {
    /// The `regex` crate refused the expression (or its anchored form); the
    /// text is its own description of the problem.
    Invalid(String),
}

/// Whether a source expression is accepted: it compiles on its own, and so
/// does its anchored form.
pub open spec fn source_accepted(source: Seq<char>, case_insensitive: bool) -> bool {
    regex_refusal(source, case_insensitive) is None && regex_refusal(anchored(source), case_insensitive) is None
}

/// Why a refused source expression was refused: the complaint about the
/// expression itself, or else the one about its anchored form.
pub open spec fn source_refusal(source: Seq<char>, case_insensitive: bool) -> Seq<char> {
    match regex_refusal(source, case_insensitive) {
        Some(msg) => msg,
        None => regex_refusal(anchored(source), case_insensitive)->0,
    }
}

/// The compiled text starts with the start anchor `^` and ends with the end
/// anchor `$`, and between them holds the source, unchanged, as one
/// non-capturing group `(?:` … `)`: a match must begin at the first character
/// of the text and end at its last.
pub proof fn compiled_text_is_anchored_at_both_ends(source: Seq<char>)
    ensures
        anchored(source).len() == source.len() + 6,
        anchored(source)[0] == '^',
        anchored(source)[1] == '(',
        anchored(source)[2] == '?',
        anchored(source)[3] == ':',
        anchored(source).subrange(4, source.len() + 4 as int) == source,
        anchored(source)[source.len() + 4 as int] == ')',
        anchored(source)[source.len() + 5 as int] == '$',
{
    assert(anchored(source).subrange(4, source.len() + 4 as int) =~= source);
}

/// A compiled pattern's text begins with `^` and ends with `$`, whatever the
/// source.
pub proof fn accepted_patterns_are_anchored(p: Pattern, source: Seq<char>, case_insensitive: bool)
    requires
        p@ == (PatternView { source: anchored(source), case_insensitive }),
    ensures
        p@.source[0] == '^',
        p@.source[p@.source.len() - 1] == '$',
        p@.source.subrange(4, p@.source.len() - 2) == source,
{
    compiled_text_is_anchored_at_both_ends(source);
}

impl Pattern {
    /// Checks that `source` is a regular expression on its own, then compiles
    /// it as one group anchored at both ends (`^(?:source)$`), so that only a
    /// text that matches as a whole is accepted.
    pub fn new(source: &str, case_insensitive: bool) -> (r: Result<Pattern, PatternError>)
        ensures
            r is Ok <==> source_accepted(source@, case_insensitive),
            r is Ok ==> regex_refusal(source@, case_insensitive) is None && regex_refusal(
                anchored(source@),
                case_insensitive,
            ) is None,
            regex_refusal(source@, case_insensitive) is Some ==> r is Err,
            regex_refusal(anchored(source@), case_insensitive) is Some ==> r is Err,
            r matches Ok(p) ==> p@ == (PatternView {
                source: anchored(source@),
                case_insensitive,
            }),
            r matches Err(PatternError::Invalid(msg)) ==> msg@ == source_refusal(
                source@,
                case_insensitive,
            ),
    {
        match compile_regex(source, case_insensitive) {
            Ok(_) => {},
            Err(msg) => {
                return Err(PatternError::Invalid(msg));
            },
        }
        let mut text = String::from_str("^(?:");
        text.append(source);
        text.append(")$");
        proof {
            reveal_strlit("^(?:");
            reveal_strlit(")$");
            assert(text@ =~= anchored(source@));
        }
        match compile_regex(text.as_str(), case_insensitive) {
            Ok(regex) => Ok(Pattern { regex }),
            Err(msg) => Err(PatternError::Invalid(msg)),
        }
    }

    /// The compiled regular expression.
    pub(crate) fn compiled(&self) -> (r: &CompiledRegex)
        ensures
            r@ == (self@.source, self@.case_insensitive),
    {
        &self.regex
    }
}

} // verus!
