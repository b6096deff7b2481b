//! Hide rules match frame function names with regular expressions of the
//! regex crate. A compiled regex is opaque to verification, so what a
//! pattern matches is given a name, the uninterpreted function
//! `regex_match`, and the trusted wrappers here relate the crate's calls
//! to that name. A `Matcher` pairs the compiled regex with its pattern
//! text; its one constructor compiles exactly the pattern it stores.
use vstd::prelude::*;

verus! {

#[verifier::external_type_specification]
#[verifier::external_body]
pub struct ExRegex(regex::Regex);

/// Whether the regular expression written `pattern` matches anywhere in
/// `text`. The regex crate computes this from the pattern and the text
/// alone; nothing further is assumed about which texts match.
pub uninterp spec fn regex_match(pattern: Seq<char>, text: Seq<char>) -> bool;

/// A compiled regular expression together with the pattern text it was
/// compiled from. A matcher's view is that pattern text.
#[derive(Debug)]
pub struct Matcher {
    source: String,
    compiled: regex::Regex,
}

impl View for Matcher {
    type V = Seq<char>;

    closed spec fn view(&self) -> Seq<char> {
        self.source@
    }
}

/// Relies on `regex::Regex::clone`: the clone is the same regex.
pub assume_specification[ <regex::Regex as Clone>::clone ](re: &regex::Regex) -> (r:
    regex::Regex)
    ensures
        r == *re,
;

impl Clone for Matcher {
    fn clone(&self) -> (r: Self)
        ensures
            r@ == self@,
    {
        Matcher { source: self.source.clone(), compiled: self.compiled.clone() }
    }
}

impl Matcher {
    /// Relies on `regex::Regex::new`: compiling the pattern yields a
    /// regex for exactly that pattern, or a compile error, rendered here
    /// as its message text.
    #[verifier::external_body]
    pub fn new(pattern: &str) -> (r: Result<Matcher, String>)
        ensures
            r is Ok ==> r->Ok_0@ == pattern@,
    {
        match regex::Regex::new(pattern) {
            Ok(compiled) => Ok(Matcher { source: pattern.to_owned(), compiled }),
            Err(e) => Err(e.to_string()),
        }
    }

    /// Relies on `regex::Regex::is_match`: whether the pattern matches
    /// anywhere in `text`, a function of the pattern and the text alone.
    #[verifier::external_body]
    pub fn is_match(&self, text: &str) -> (r: bool)
        ensures
            r == regex_match(self@, text@),
    {
        self.compiled.is_match(text)
    }

    /// The pattern text this matcher was compiled from.
    pub fn pattern_text(&self) -> (r: &str)
        ensures
            r@ == self@,
    {
        self.source.as_str()
    }
}

} // verus!
