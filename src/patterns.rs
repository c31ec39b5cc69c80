//! Regular expressions, compiled by the `regex` crate.
use vstd::prelude::*;

verus! {

#[verifier::external_type_specification]
#[verifier::external_body]
pub struct ExRegex(regex::Regex);

/// Whether `regex::Regex::new` accepts the pattern.
pub uninterp spec fn regex_valid(pattern: Seq<char>) -> bool;

/// What `regex::Regex::is_match` answers for the pattern on the haystack.
pub uninterp spec fn regex_matches(pattern: Seq<char>, haystack: Seq<char>) -> bool;

/// The strings that `regex::Captures::expand` writes for the template, one per
/// match of `regex::Regex::captures_iter`, in order of the matches.
pub uninterp spec fn regex_expansions(
    pattern: Seq<char>,
    haystack: Seq<char>,
    template: Seq<char>,
) -> Seq<Seq<char>>;

/// A compiled regular expression together with the pattern it was compiled from.
pub struct Pattern {
    source: String,
    compiled: regex::Regex,
}

impl Pattern {
    pub closed spec fn source(&self) -> Seq<char> {
        self.source@
    }

    /// Relies on `regex::Regex::new`: it fails exactly on the patterns it rejects.
    #[verifier::external_body]
    pub(crate) fn compile(pattern: &String) -> (r: Option<Pattern>)
        ensures
            r.is_some() == regex_valid(pattern@),
            r matches Some(p) ==> p.source() == pattern@,
    {
        match regex::Regex::new(pattern) {
            Ok(compiled) => Some(Pattern { source: pattern.clone(), compiled }),
            Err(_) => None,
        }
    }

    /// Relies on `regex::Regex::is_match`.
    #[verifier::external_body]
    pub(crate) fn is_match(&self, haystack: &str) -> (r: bool)
        ensures
            r == regex_matches(self.source(), haystack@),
    {
        self.compiled.is_match(haystack)
    }

    /// Relies on `regex::Regex::captures_iter` and `regex::Captures::expand`:
    /// one expansion of the template per match, in order.
    #[verifier::external_body]
    pub(crate) fn expand_all(&self, haystack: &str, template: &str) -> (r: Vec<String>)
        ensures
            r@.map_values(|s: String| s@) == regex_expansions(self.source(), haystack@, template@),
    {
        let mut out = Vec::new();
        for cap in self.compiled.captures_iter(haystack) {
            let mut dst = String::new();
            cap.expand(template, &mut dst);
            out.push(dst);
        }
        out
    }
}

} // verus!
