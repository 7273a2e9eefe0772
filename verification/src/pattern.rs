//! Regular expressions kept together with the text they were compiled from.

use crate::external::{regex_compiles, regex_new};
use vstd::prelude::*;

verus! {

/// A compiled regular expression and its source text. The only way to make one is
/// [Pattern::new], which compiles exactly the text it keeps.
pub struct Pattern {
    re: regex::Regex,
    source: String,
}

impl Pattern {
    /// The text this pattern was compiled from.
    pub closed spec fn source(&self) -> Seq<char> {
        self.source@
    }

    /// Compiles `pattern`.
    pub fn new(pattern: &str) -> (r: Result<Pattern, regex::Error>)
        ensures
            r is Ok <==> regex_compiles(pattern@),
            r matches Ok(p) ==> p.source() == pattern@,
    {
        match regex_new(pattern) {
            Ok(re) => Ok(Pattern { re, source: String::from_str(pattern) }),
            Err(e) => Err(e),
        }
    }

    /// The regex this pattern holds: the one compiled from [Pattern::source].
    pub closed spec fn regex(&self) -> regex::Regex {
        self.re
    }

    /// The compiled regex: the one this pattern holds, see [Pattern::regex].
    pub(crate) fn compiled(&self) -> (r: &regex::Regex)
        ensures
            *r == self.regex(),
    {
        &self.re
    }
}

} // verus!
