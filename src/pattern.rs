//! Compiled regular expressions, as the rewrite rules and the status reader
//! use them.

use vstd::prelude::*;

verus! {

#[verifier::external_type_specification]
#[verifier::external_body]
pub struct ExRegex(regex::Regex);

#[verifier::external_type_specification]
#[verifier::external_body]
pub struct ExRegexError(regex::Error);

/// Whether regex accepts `pattern` as an expression it can compile.
pub uninterp spec fn regex_accepts(pattern: Seq<char>) -> bool;

/// Whether the expression `pattern` matches somewhere in `haystack`.
pub uninterp spec fn regex_finds(pattern: Seq<char>, haystack: Seq<char>) -> bool;

/// The text of the first capture group of the leftmost match of `pattern`
/// in `haystack`; `None` when there is no match or the group took no part.
pub uninterp spec fn regex_group_one(pattern: Seq<char>, haystack: Seq<char>) -> Option<Seq<char>>;

/// The characters that regex treats as meta characters.
pub open spec fn is_meta(c: char) -> bool {
    c == '\\' || c == '.' || c == '+' || c == '*' || c == '?' || c == '(' || c == ')'
        || c == '|' || c == '[' || c == ']' || c == '{' || c == '}' || c == '^' || c == '$'
        || c == '#' || c == '&' || c == '-' || c == '~'
}

/// `s` with a backslash before each meta character: a pattern that matches
/// `s` literally.
pub open spec fn escaped(s: Seq<char>) -> Seq<char>
    decreases s.len(),
{
    if s.len() == 0 {
        Seq::empty()
    } else if is_meta(s.last()) {
        escaped(s.drop_last()) + seq!['\\', s.last()]
    } else {
        escaped(s.drop_last()).push(s.last())
    }
}

/// Relies on regex::escape: each meta character of `text` gets a backslash
/// before it, every other character is kept.
#[verifier::external_body]
pub(crate) fn escape(text: &str) -> (r: String)
    ensures
        r@ == escaped(text@),
{
    regex::escape(text)
}

/// Relies on regex::Regex::new: compiles `source`, or fails.
#[verifier::external_body]
fn compile(source: &str) -> (r: Result<Pattern, regex::Error>)
    ensures
        r is Ok <==> regex_accepts(source@),
        r matches Ok(p) ==> p@ == source@,
{
    match regex::Regex::new(source) {
        Ok(compiled) => Ok(Pattern { source: source.to_string(), compiled }),
        Err(e) => Err(e),
    }
}

/// A regular expression together with its source text. The only way to
/// obtain one is to compile its source, so the two always agree.
pub struct Pattern {
    source: String,
    compiled: regex::Regex,
}

impl View for Pattern {
    type V = Seq<char>;

    closed spec fn view(&self) -> Seq<char> {
        self.source@
    }
}

impl Pattern {
    /// Compiles `source`; `None` exactly when regex refuses it.
    pub fn new(source: &str) -> (r: Option<Pattern>)
        ensures
            r is Some <==> regex_accepts(source@),
            r matches Some(p) ==> p@ == source@,
    {
        match compile(source) {
            Ok(p) => Some(p),
            Err(_) => None,
        }
    }

    /// The source text of the expression.
    pub fn as_str(&self) -> (r: &str)
        ensures
            r@ == self@,
    {
        self.source.as_str()
    }

    /// Relies on regex::Regex::is_match: whether the expression matches
    /// somewhere in `text`.
    #[verifier::external_body]
    pub(crate) fn is_match(&self, text: &str) -> (r: bool)
        ensures
            r == regex_finds(self@, text@),
    {
        self.compiled.is_match(text)
    }

    /// Relies on regex::Regex::captures, Captures::get and Match::as_str: the
    /// text of the first group of the leftmost match.
    #[verifier::external_body]
    pub(crate) fn group_one(&self, text: &str) -> (r: Option<String>)
        ensures
            r is Some <==> regex_group_one(self@, text@) is Some,
            r matches Some(g) ==> regex_group_one(self@, text@) == Some(g@),
    {
        match self.compiled.captures(text) {
            Some(caps) => match caps.get(1) {
                Some(m) => Some(m.as_str().to_string()),
                None => None,
            },
            None => None,
        }
    }
}

} // verus!
