//! Regular expressions, compiled and matched by the `regex` crate.
use vstd::prelude::*;
use crate::text::{views, opt_view};

verus! {

/// Whether `pattern` compiles as a regular expression.
pub uninterp spec fn regex_compiles(pattern: Seq<char>) -> bool;

/// Whether the compiled `pattern` matches somewhere in `text`.
pub uninterp spec fn regex_finds(pattern: Seq<char>, text: Seq<char>) -> bool;

/// Where the compiled `pattern` matches in `text`, the text of capture group
/// `group` of the leftmost-first match (`None` inside where that group took no
/// part).
pub uninterp spec fn regex_capture(pattern: Seq<char>, text: Seq<char>, group: nat) -> Option<
    Option<Seq<char>>,
>;

/// The texts of the successive non-overlapping matches of the compiled
/// `pattern` in `text`.
pub uninterp spec fn regex_all(pattern: Seq<char>, text: Seq<char>) -> Seq<Seq<char>>;

/// `regex::Regex`, a compiled expression, held opaque.
#[verifier::external_type_specification]
#[verifier::external_body]
pub struct ExRegex(regex::Regex);

/// Relies on `regex::Regex::new`, which fails exactly on a pattern that does
/// not compile.
#[verifier::external_body]
fn compile(source: &str) -> (r: Option<regex::Regex>)
    ensures
        r is Some <==> regex_compiles(source@),
{
    regex::Regex::new(source).ok()
}

/// A compiled regular expression, with the pattern it was compiled from.
/// Only `Pattern::new` builds one, so `compiled` is always what `source`
/// compiles to: the matching methods state their results over `source`.
pub struct Pattern {
    source: String,
    compiled: regex::Regex,
}

impl Pattern {
    /// The pattern the expression was compiled from.
    pub closed spec fn source(&self) -> Seq<char> {
        self.source@
    }

    /// Compiles `source`.
    pub fn new(source: &str) -> (r: Option<Pattern>)
        ensures
            match r {
                Some(p) => p.source() == source@ && regex_compiles(source@),
                None => !regex_compiles(source@),
            },
    {
        match compile(source) {
            Some(compiled) => Some(Pattern { source: String::from_str(source), compiled }),
            None => None,
        }
    }

    /// Relies on `regex::Regex::is_match`: whether the expression matches
    /// anywhere in the text.
    #[verifier::external_body]
    pub(crate) fn is_match(&self, text: &str) -> (r: bool)
        ensures
            r == regex_finds(self.source(), text@),
    {
        self.compiled.is_match(text)
    }

    /// Relies on `regex::Regex::captures` and `Captures::get`: the text of one
    /// capture group of the leftmost-first match.
    #[verifier::external_body]
    pub(crate) fn captures(&self, text: &str, group: usize) -> (r: Option<Option<String>>)
        ensures
            match r {
                None => regex_capture(self.source(), text@, group as nat) is None,
                Some(g) => regex_capture(self.source(), text@, group as nat) == Some(opt_view(g)),
            },
    {
        match self.compiled.captures(text) {
            Some(caps) => Some(caps.get(group).map(|m| m.as_str().to_string())),
            None => None,
        }
    }

    /// Relies on `regex::Regex::find_iter`: the text of every successive
    /// non-overlapping match.
    #[verifier::external_body]
    pub(crate) fn find_all(&self, text: &str) -> (r: Vec<String>)
        ensures
            views(r@) == regex_all(self.source(), text@),
    {
        self.compiled.find_iter(text).map(|m| m.as_str().to_string()).collect()
    }
}

/// Whether `pattern` compiles and matches somewhere in `text`.
pub open spec fn matches_in(pattern: Seq<char>, text: Seq<char>) -> bool {
    regex_compiles(pattern) && regex_finds(pattern, text)
}

/// The capture group of the leftmost-first match; `None` where `pattern`
/// does not compile.
pub open spec fn capture_in(pattern: Seq<char>, text: Seq<char>, group: nat) -> Option<
    Option<Seq<char>>,
> {
    if regex_compiles(pattern) {
        regex_capture(pattern, text, group)
    } else {
        None
    }
}

/// The texts of all matches; none where `pattern` does not compile.
pub open spec fn all_in(pattern: Seq<char>, text: Seq<char>) -> Seq<Seq<char>> {
    if regex_compiles(pattern) {
        regex_all(pattern, text)
    } else {
        Seq::empty()
    }
}

/// Compiles `pattern` and tells whether it matches somewhere in `text`.
pub fn finds(pattern: &str, text: &str) -> (r: bool)
    ensures
        r == matches_in(pattern@, text@),
{
    match Pattern::new(pattern) {
        Some(p) => p.is_match(text),
        None => false,
    }
}

/// `p` is `source` compiled, or nothing where `source` does not compile.
pub open spec fn compiled_from(p: Option<Pattern>, source: Seq<char>) -> bool {
    match p {
        Some(q) => q.source() == source && regex_compiles(source),
        None => !regex_compiles(source),
    }
}

/// Compiles `source`, keeping nothing where it does not compile.
pub fn compile_opt(source: &str) -> (r: Option<Pattern>)
    ensures
        compiled_from(r, source@),
{
    Pattern::new(source)
}

/// Whether the pattern compiled from `source` matches somewhere in `text`.
pub fn finds_in(p: &Option<Pattern>, Ghost(source): Ghost<Seq<char>>, text: &str) -> (r: bool)
    requires
        compiled_from(*p, source),
    ensures
        r == matches_in(source, text@),
{
    match p {
        Some(q) => q.is_match(text),
        None => false,
    }
}

/// One capture group of the leftmost-first match of the pattern compiled
/// from `source`.
pub fn capture_with(p: &Option<Pattern>, Ghost(source): Ghost<Seq<char>>, text: &str, group: usize) -> (r: Option<Option<String>>)
    requires
        compiled_from(*p, source),
    ensures
        match r {
            None => capture_in(source, text@, group as nat) is None,
            Some(g) => capture_in(source, text@, group as nat) == Some(opt_view(g)),
        },
{
    match p {
        Some(q) => q.captures(text, group),
        None => None,
    }
}

/// The texts of all matches of the pattern compiled from `source`.
pub fn all_with(p: &Option<Pattern>, Ghost(source): Ghost<Seq<char>>, text: &str) -> (r: Vec<String>)
    requires
        compiled_from(*p, source),
    ensures
        views(r@) == all_in(source, text@),
{
    match p {
        Some(q) => q.find_all(text),
        None => Vec::new(),
    }
}

} // verus!
