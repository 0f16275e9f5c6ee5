//! Name filters: regular expressions that select examples by their qualified
//! name. Compilation and matching are done by the `regex` crate.

use vstd::prelude::*;

verus! {

/// The compiled regular expression type of the `regex` crate.
#[verifier::external_type_specification]
#[verifier::external_body]
pub struct ExRegex(regex::Regex);

/// Whether `regex::Regex::new` accepts `pattern`: its syntax is valid and the
/// compiled program stays within the crate's default size limit.
pub uninterp spec fn regex_accepts(pattern: Seq<char>) -> bool;

/// Whether the regular expression `pattern` matches somewhere in `haystack`,
/// as `regex::Regex::is_match` decides it.
pub uninterp spec fn regex_finds(pattern: Seq<char>, haystack: Seq<char>) -> bool;

/// A regular expression kept with the source text it was compiled from.
pub struct NameFilter {
    pattern: String,
    compiled: regex::Regex,
}

impl View for NameFilter {
    type V = Seq<char>;

    /// A filter is seen as the pattern it was compiled from.
    closed spec fn view(&self) -> Seq<char> {
        self.pattern@
    }
}

impl NameFilter {
    /// Compiles `pattern` with `regex::Regex::new`. Trusted: the result is
    /// `Some` exactly when the crate accepts the pattern (a function of the
    /// pattern alone, as the default size limits are fixed), and the filter
    /// then keeps the pattern's text beside the compiled expression. Why a
    /// pattern is refused is not kept.
    #[verifier::external_body]
    pub(crate) fn compile(pattern: &str) -> (r: Option<NameFilter>)
        ensures
            r is Some <==> regex_accepts(pattern@),
            r matches Some(f) ==> f@ == pattern@,
    {
        match regex::Regex::new(pattern) {
            Ok(compiled) => Some(NameFilter { pattern: pattern.to_string(), compiled }),
            Err(_) => None,
        }
    }

    /// Runs `regex::Regex::is_match` of the compiled expression on
    /// `haystack`. Trusted: the answer is the named matching relation applied
    /// to the filter's pattern and the haystack; the filter's expression was
    /// compiled from that pattern by `compile`, the only place that builds one.
    #[verifier::external_body]
    pub(crate) fn is_match(&self, haystack: &str) -> (r: bool)
        ensures
            r == regex_finds(self@, haystack@),
    {
        self.compiled.is_match(haystack)
    }

    /// Compiles `pattern` into a filter; `None` when the regular-expression
    /// engine refuses it.
    pub fn new(pattern: &str) -> (r: Option<NameFilter>)
        ensures
            r is Some <==> regex_accepts(pattern@),
            r matches Some(f) ==> f@ == pattern@,
    {
        NameFilter::compile(pattern)
    }

    /// The pattern the filter was compiled from.
    pub fn as_str(&self) -> (r: &str)
        ensures
            r@ == self@,
    {
        self.pattern.as_str()
    }
}

} // verus!
