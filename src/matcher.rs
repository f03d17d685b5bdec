use vstd::prelude::*;

use crate::config::Config;

verus! {

/// What `str::to_lowercase` makes of a string of characters.
pub uninterp spec fn lower_of(s: Seq<char>) -> Seq<char>;

/// Whether `regex::Regex::new` accepts a pattern.
pub uninterp spec fn regex_compiles(pattern: Seq<char>) -> bool;

/// Whether the expression compiled from `pattern` finds a match anywhere in `haystack`.
pub uninterp spec fn regex_finds(pattern: Seq<char>, haystack: Seq<char>) -> bool;

/// `needle` occurs in `hay` as a run of consecutive characters.
pub open spec fn contains_seq(hay: Seq<char>, needle: Seq<char>) -> bool {
    exists|i: int|
        0 <= i && i + needle.len() <= hay.len() && #[trigger] hay.subrange(i, i + needle.len())
            == needle
}

/// Relies on `str::to_lowercase`: the result depends on the characters alone.
#[verifier::external_body]
fn to_lower(s: &str) -> (r: String)
    ensures
        r@ == lower_of(s@),
{
    s.to_lowercase()
}

/// Relies on `str::contains` with a `&str` pattern: true exactly when `needle`
/// occurs in `hay` (a byte match in UTF-8 text is a character match).
#[verifier::external_body]
fn str_contains(hay: &str, needle: &str) -> (r: bool)
    ensures
        r == contains_seq(hay@, needle@),
{
    hay.contains(needle)
}

#[verifier::external_type_specification]
#[verifier::external_body]
pub struct ExRegex(regex::Regex);

/// Relies on `regex::Regex::new`: it compiles the pattern, or says why not.
#[verifier::external_body]
fn compile_regex(pattern: &str) -> (r: Result<regex::Regex, String>)
    ensures
        r is Ok <==> regex_compiles(pattern@),
{
    match regex::Regex::new(pattern) {
        Ok(re) => Ok(re),
        Err(e) => Err(e.to_string()),
    }
}

/// A regular expression together with the text it was compiled from.
/// Only `RegexPattern::new` builds one, so `compiled` is always the
/// expression of `source`.
pub struct RegexPattern {
    source: String,
    compiled: regex::Regex,
}

impl View for RegexPattern {
    type V = Seq<char>;

    open spec fn view(&self) -> Seq<char> {
        self.spec_source()
    }
}

impl RegexPattern {
    pub closed spec fn spec_source(&self) -> Seq<char> {
        self.source@
    }

    /// Compiles `source`; the error carries the compiler's explanation.
    pub fn new(source: &str) -> (r: Result<RegexPattern, String>)
        ensures
            r is Ok <==> regex_compiles(source@),
            r matches Ok(p) ==> p@ == source@,
    {
        match compile_regex(source) {
            Ok(compiled) => Ok(RegexPattern { source: source.to_owned(), compiled }),
            Err(e) => Err(e),
        }
    }

    /// The text the expression was compiled from.
    pub fn as_str(&self) -> (r: &str)
        ensures
            r@ == self@,
    {
        self.source.as_str()
    }

    /// Relies on `regex::Regex::is_match`, run on the expression that `new`
    /// compiled from `source`.
    #[verifier::external_body]
    pub(crate) fn finds(&self, haystack: &str) -> (r: bool)
        ensures
            r == regex_finds(self@, haystack@),
    {
        self.compiled.is_match(haystack)
    }
}

/// The matcher as a user sees it: a regular expression decides alone;
/// otherwise the needle is looked for as a substring, with both sides
/// lower-cased when the search ignores case.
pub open spec fn matcher_holds(
    regex: Option<Seq<char>>,
    insensitive: bool,
    needle: Seq<char>,
    line: Seq<char>,
) -> bool {
    match regex {
        Some(p) => regex_finds(p, line),
        None => if insensitive {
            contains_seq(lower_of(line), lower_of(needle))
        } else {
            contains_seq(line, needle)
        },
    }
}

/// Whether `line` matches the needle `string` under the settings.
pub fn matches(config: &Config, string: &str, line: &str) -> (r: bool)
    ensures
        r == matcher_holds(config.regex_source(), config.insensitive, string@, line@),
{
    match &config.regex {
        Some(re) => re.finds(line),
        None => {
            if config.insensitive {
                let lowered_line = to_lower(line);
                let lowered_needle = to_lower(string);
                str_contains(lowered_line.as_str(), lowered_needle.as_str())
            } else {
                str_contains(line, string)
            }
        },
    }
}

} // verus!
