//! The line patterns, and the regular expression engine that matches them.

use crate::text;
use regex::Regex;
use vstd::prelude::*;

verus! {

/// A compiled regular expression of the crate `regex`.
#[verifier::external_type_specification]
#[verifier::external_body]
pub struct ExRegex(regex::Regex);

/// The error of the crate `regex` for a pattern that it does not compile.
#[verifier::external_type_specification]
#[verifier::external_body]
pub struct ExRegexError(regex::Error);

/// A Java class, interface or enum; group 2 is its name.
pub const JAVA_CLASS: &'static str = r"\b(class|interface|enum)\s+([A-Za-z_][A-Za-z0-9_]*)";

/// A Java method whose body opens on the line; group 4 is its name.
pub const JAVA_METHOD: &'static str =
    r"^\s*(public|protected|private)?\s*(static\s+)?([A-Za-z0-9_<>\[\], ?]+)\s+([A-Za-z_][A-Za-z0-9_]*)\s*\(([^)]*)\)\s*\{\s*$";

/// A TypeScript function; group 3 is its name.
pub const TS_FUNCTION: &'static str =
    r"^\s*(export\s+)?(async\s+)?function\s+([A-Za-z_][A-Za-z0-9_]*)\s*\(";

/// A TypeScript arrow function that is bound to a name; group 3 is the name.
pub const TS_ARROW: &'static str =
    r"^\s*(export\s+)?(const|let|var)\s+([A-Za-z_][A-Za-z0-9_]*)\s*=\s*(async\s*)?\([^)]*\)\s*=>";

/// A TypeScript method whose body opens on the line; group 3 is its name.
pub const TS_METHOD: &'static str =
    r"^\s*(public|private|protected)?\s*(async\s+)?([A-Za-z_][A-Za-z0-9_]*)\s*\([^)]*\)\s*\{";

/// Whether `pattern` is one of the line patterns.
pub open spec fn is_line_pattern(pattern: Seq<char>) -> bool {
    ||| pattern == JAVA_CLASS@
    ||| pattern == JAVA_METHOD@
    ||| pattern == TS_FUNCTION@
    ||| pattern == TS_ARROW@
    ||| pattern == TS_METHOD@
}

/// The pattern that `Regex::new` compiled into `re`; `Regex::as_str` returns it.
pub uninterp spec fn regex_pattern(re: regex::Regex) -> Seq<char>;

/// What `Regex::captures` finds for `pattern` in `text`: nothing, or the leftmost match, and of
/// that the text of `group`, if the group exists and took part in the match.
pub uninterp spec fn regex_group(
    pattern: Seq<char>,
    text: Seq<char>,
    group: nat,
) -> Option<Option<Seq<char>>>;

/// The texts of a captured group.
pub open spec fn captured(group: Option<Option<String>>) -> Option<Option<Seq<char>>> {
    match group {
        Some(Some(s)) => Some(Some(s@)),
        Some(None) => Some(None),
        None => None,
    }
}

/// Calls `Regex::new`. Each line pattern is valid and far below the size limit, so it compiles
/// under the default features of the crate, and the compiled expression keeps it.
#[verifier::external_body]
pub(crate) fn compile(pattern: &str) -> (r: Result<Regex, regex::Error>)
    requires
        is_line_pattern(pattern@),
    ensures
        r is Ok,
        r matches Ok(re) ==> regex_pattern(re) == pattern@,
{
    Regex::new(pattern)
}

/// Whether `group` of `pattern` is the name that a line pattern looks for.
pub open spec fn is_name_group(pattern: Seq<char>, group: nat) -> bool {
    ||| pattern == JAVA_CLASS@ && group == 2
    ||| pattern == JAVA_METHOD@ && group == 4
    ||| (pattern == TS_FUNCTION@ || pattern == TS_ARROW@ || pattern == TS_METHOD@) && group == 3
}

/// Whether a captured group took part in the match, and is an identifier and a part of `line`.
pub open spec fn is_name_on(group: Option<Seq<char>>, line: Seq<char>) -> bool {
    group matches Some(name) && text::is_identifier(name) && text::occurs_in(line, name)
}

/// Calls `Regex::captures`, and `Captures::get` on the match. The result depends on the pattern,
/// the text and the number of the group alone. The name group of a line pattern takes part in
/// every match, matches identifiers only, and like every group captures a part of the text.
#[verifier::external_body]
pub(crate) fn capture(re: &Regex, line: &str, group: usize) -> (r: Option<Option<String>>)
    ensures
        captured(r) == regex_group(regex_pattern(*re), line@, group as nat),
        is_name_group(regex_pattern(*re), group as nat) ==> (captured(r) matches Some(name)
            ==> is_name_on(name, line@)),
{
    re.captures(line).map(|c| c.get(group).map(|m| m.as_str().to_string()))
}

/// A line pattern that the engine does not compile.
#[derive(Debug)]
pub struct PatternError {
    /// What the engine says.
    pub source: regex::Error,
}

/// Compiles one of the line patterns.
pub(crate) fn compile_line_pattern(pattern: &str) -> (r: Result<Regex, PatternError>)
    requires
        is_line_pattern(pattern@),
    ensures
        r is Ok,
        r matches Ok(re) ==> regex_pattern(re) == pattern@,
{
    match compile(pattern) {
        Ok(re) => Ok(re),
        Err(source) => Err(PatternError { source }),
    }
}

} // verus!
