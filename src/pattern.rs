use vstd::prelude::*;

verus! {

#[verifier::external_type_specification]
#[verifier::external_body]
pub struct ExRegex(regex::Regex);

/// Whether `pattern` compiles as a regular expression (with the crate's
/// default size limit).
pub uninterp spec fn regex_compiles(pattern: Seq<char>) -> bool;

/// Whether `pattern` matches somewhere in `haystack`.
pub uninterp spec fn regex_finds(pattern: Seq<char>, haystack: Seq<char>) -> bool;

/// The number of non-overlapping matches of `pattern` in `haystack`.
pub uninterp spec fn regex_match_count(pattern: Seq<char>, haystack: Seq<char>) -> nat;

/// `haystack` with at most `limit` non-overlapping matches of `pattern`
/// replaced by `replacement` (every match where `limit` is 0), `$` references
/// in `replacement` expanded.
pub uninterp spec fn regex_replaced(
    pattern: Seq<char>,
    haystack: Seq<char>,
    limit: nat,
    replacement: Seq<char>,
) -> Seq<char>;

/// A compiled regular expression together with the pattern it was compiled from.
pub struct Pattern {
    source: String,
    re: regex::Regex,
}

impl Pattern {
    /// The pattern this expression was compiled from.
    pub closed spec fn source(&self) -> Seq<char> {
        self.source@
    }

    /// Relies on `regex::Regex::new`: it fails exactly for the patterns that
    /// do not compile, which depends on the pattern alone. The error itself
    /// carries nothing that this library reports, so it is dropped here.
    #[verifier::external_body]
    pub fn new(pattern: &str) -> (r: Option<Pattern>)
        ensures
            r is Some <==> regex_compiles(pattern@),
            r matches Some(p) ==> p.source() == pattern@,
    {
        match regex::Regex::new(pattern) {
            Ok(re) => Some(Pattern { source: pattern.to_string(), re }),
            Err(_) => None,
        }
    }

    /// Relies on `regex::Regex::is_match`: whether there is a match anywhere.
    #[verifier::external_body]
    pub fn is_match(&self, haystack: &str) -> (r: bool)
        ensures
            r == regex_finds(self.source(), haystack@),
    {
        self.re.is_match(haystack)
    }

    /// Relies on `regex::Regex::find_iter`: the number of the matches it yields.
    #[verifier::external_body]
    pub fn count_matches(&self, haystack: &str) -> (r: usize)
        ensures
            r == regex_match_count(self.source(), haystack@),
    {
        self.re.find_iter(haystack).count()
    }

    /// Relies on `regex::Regex::replacen`: at most `limit` matches replaced,
    /// every match where `limit` is 0.
    #[verifier::external_body]
    pub fn replacen(&self, haystack: &str, limit: usize, replacement: &str) -> (r: String)
        ensures
            r@ == regex_replaced(self.source(), haystack@, limit as nat, replacement@),
    {
        self.re.replacen(haystack, limit, replacement).into_owned()
    }
}

} // verus!
