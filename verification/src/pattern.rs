//! Regular expressions that deny captures by their content.

use vstd::prelude::*;
use vstd::string::*;

use crate::types::texts;

verus! {

/// A compiled regular expression.
#[verifier::external_type_specification]
#[verifier::external_body]
pub struct ExRegex(regex::Regex);

/// Why a pattern is not a regular expression.
#[verifier::external_type_specification]
#[verifier::external_body]
pub struct ExRegexError(regex::Error);

/// The pattern that [`compile`] made `re` of, with the default settings.
pub uninterp spec fn regex_pattern(re: regex::Regex) -> Seq<char>;

/// Whether the regular expression `pattern` matches somewhere in `text`.
pub uninterp spec fn regex_finds(pattern: Seq<char>, text: Seq<char>) -> bool;

/// Whether `pattern` follows the syntax of regular expressions.
pub uninterp spec fn regex_wellformed(pattern: Seq<char>) -> bool;

/// Whether `e` is `Error::Syntax`, and not that a compiled pattern is too big.
pub uninterp spec fn regex_syntax_error(e: regex::Error) -> bool;

/// The message of `e`.
pub uninterp spec fn regex_error_text(e: regex::Error) -> Seq<char>;

/// A pattern that was compiled, or why it could not be.
pub type Compiled = Result<regex::Regex, regex::Error>;

/// Whether `rule` is what compiling `pattern` can give: a regular expression of
/// the pattern only if it follows the syntax, and a syntax error only if not.
pub open spec fn is_compiled(pattern: Seq<char>, rule: Compiled) -> bool {
    match rule {
        Ok(re) => regex_wellformed(pattern) && regex_pattern(re) == pattern,
        Err(e) => regex_syntax_error(e) == !regex_wellformed(pattern),
    }
}

/// `Regex::new`: a regular expression remembers its pattern. A pattern that breaks
/// the syntax is refused with a syntax error, and no other pattern is. One that
/// follows the syntax is refused only if it is too big when it is compiled; which
/// are is not stated, since that size differs from machine to machine.
#[verifier::external_body]
pub(crate) fn compile(pattern: &str) -> (r: Result<regex::Regex, regex::Error>)
    ensures
        match r {
            Ok(re) => regex_wellformed(pattern@) && regex_pattern(re) == pattern@,
            Err(e) => regex_syntax_error(e) == !regex_wellformed(pattern@),
        },
{
    regex::Regex::new(pattern)
}

/// `Regex::is_match`, under the name [`regex_finds`].
#[verifier::external_body]
pub(crate) fn is_match(re: &regex::Regex, text: &str) -> (r: bool)
    ensures
        r == regex_finds(regex_pattern(*re), text@),
{
    re.is_match(text)
}

/// Whether a `regex::Error` is its variant `Syntax`, under the name
/// [`regex_syntax_error`].
#[verifier::external_body]
pub(crate) fn is_syntax_error(e: &regex::Error) -> (r: bool)
    ensures
        r == regex_syntax_error(*e),
{
    matches!(e, regex::Error::Syntax(_))
}

/// The `Display` text of a `regex::Error`, under the name [`regex_error_text`].
#[verifier::external_body]
pub(crate) fn regex_error_message(e: &regex::Error) -> (r: String)
    ensures
        r@ == regex_error_text(*e),
{
    e.to_string()
}

/// Whether a compiled pattern is found in `text`. A pattern that could not be
/// compiled is found nowhere.
pub open spec fn finds_in(rule: Compiled, text: Seq<char>) -> bool {
    match rule {
        Ok(re) => regex_finds(regex_pattern(re), text),
        Err(_) => false,
    }
}

/// Whether a compiled pattern is found in `text`.
pub fn is_found_in(rule: &Compiled, text: &str) -> (r: bool)
    ensures
        r == finds_in(*rule, text@),
{
    match rule {
        Ok(re) => is_match(re, text),
        Err(_) => false,
    }
}

/// Whether `rules` are the patterns, compiled as far as they could be.
pub open spec fn compiled_from(patterns: Seq<Seq<char>>, rules: Seq<Compiled>) -> bool {
    &&& rules.len() == patterns.len()
    &&& forall|i: int| 0 <= i < rules.len() ==> is_compiled(patterns[i], #[trigger] rules[i])
}

/// Compile each of the patterns.
pub fn compile_all(patterns: &Vec<String>) -> (r: Vec<Compiled>)
    ensures
        compiled_from(texts(patterns@), r@),
{
    let mut rules: Vec<Compiled> = Vec::new();
    let mut i: usize = 0;
    while i < patterns.len()
        invariant
            i <= patterns.len(),
            rules@.len() == i,
            forall|j: int| 0 <= j < i ==> is_compiled(texts(patterns@)[j], #[trigger] rules@[j]),
        decreases patterns.len() - i,
    {
        assert(texts(patterns@)[i as int] == patterns@[i as int]@);
        rules.push(compile(patterns[i].as_str()));
        i += 1;
    }
    rules
}

/// Why a pattern was refused, with the message that says so.
#[derive(Debug, Clone, PartialEq, Eq)]
pub enum PatternError {
    /// It breaks the syntax of regular expressions.
    Syntax(String),
    /// It is too big when it is compiled.
    TooBig(String),
}

impl PatternError {
    /// The message of the error, as a value.
    pub open spec fn text(self) -> Seq<char> {
        match self {
            PatternError::Syntax(m) => m@,
            PatternError::TooBig(m) => m@,
        }
    }

    /// The message of the error.
    pub fn message(self) -> (r: String)
        ensures
            r@ == self.text(),
    {
        match self {
            PatternError::Syntax(m) => m,
            PatternError::TooBig(m) => m,
        }
    }
}

/// Whether a pattern could be compiled, or else why not.
pub open spec fn is_check_of(rule: Compiled, r: Result<(), PatternError>) -> bool {
    match rule {
        Ok(_) => r is Ok,
        Err(e) => r matches Err(p) && p.text() == regex_error_text(e) && (p is Syntax)
            == regex_syntax_error(e),
    }
}

/// Whether a pattern could be compiled, or else why not.
pub fn check_compiled(rule: &Compiled) -> (r: Result<(), PatternError>)
    ensures
        is_check_of(*rule, r),
{
    match rule {
        Ok(_) => Ok(()),
        Err(e) => {
            let m = regex_error_message(e);
            if is_syntax_error(e) {
                Err(PatternError::Syntax(m))
            } else {
                Err(PatternError::TooBig(m))
            }
        },
    }
}

/// Whether `pattern` is a regular expression that can be used, or else why not: it
/// is refused for its syntax if and only if it breaks the syntax.
pub fn check_pattern(pattern: &str) -> (r: Result<(), PatternError>)
    ensures
        exists|rule: Compiled| is_compiled(pattern@, rule) && #[trigger] is_check_of(rule, r),
        match r {
            Ok(_) => regex_wellformed(pattern@),
            Err(p) => (p is Syntax) == !regex_wellformed(pattern@),
        },
{
    let rule = compile(pattern);
    check_compiled(&rule)
}

// ---- laws of patterns ----

/// A compiled pattern is found where its pattern matches, and a pattern that breaks the
/// syntax is found nowhere and cannot be used.
pub proof fn compiled_pattern_matches_as_written(
    pattern: Seq<char>,
    rule: Compiled,
    text: Seq<char>,
    check: Result<(), PatternError>,
)
    requires
        is_compiled(pattern, rule),
        is_check_of(rule, check),
    ensures
        check is Ok ==> regex_wellformed(pattern) && finds_in(rule, text) == regex_finds(
            pattern,
            text,
        ),
        check is Err ==> !finds_in(rule, text),
        !regex_wellformed(pattern) ==> check matches Err(PatternError::Syntax(_)),
        regex_wellformed(pattern) ==> !(check matches Err(PatternError::Syntax(_))),
        rule matches Err(e) ==> (check matches Err(PatternError::Syntax(m)) ==> m@
            == regex_error_text(e)),
        rule matches Err(e) ==> (check matches Err(PatternError::TooBig(m)) ==> m@
            == regex_error_text(e)),
{
}

/// A list of patterns is compiled one by one.
pub proof fn patterns_are_compiled_one_by_one(
    patterns: Seq<Seq<char>>,
    rules: Seq<Compiled>,
    i: int,
)
    requires
        compiled_from(patterns, rules),
    ensures
        rules.len() == patterns.len(),
        0 <= i < patterns.len() ==> match rules[i] {
            Ok(re) => regex_wellformed(patterns[i]) && regex_pattern(re) == patterns[i],
            Err(e) => regex_syntax_error(e) == !regex_wellformed(patterns[i]),
        },
{
    if 0 <= i < patterns.len() {
        assert(is_compiled(patterns[i], rules[i]));
    }
}

} // verus!
