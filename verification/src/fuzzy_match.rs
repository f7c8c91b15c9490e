//! What the picker hands to its fuzzy matcher.

use vstd::prelude::*;

verus! {

/// A request to the fuzzy matcher: the text that candidates are matched
/// against, as the user typed it. The matcher itself is the caller's.
#[derive(Debug, PartialEq, Eq)]
pub struct FuzzyQuery {
    pattern: String,
}

impl View for FuzzyQuery {
    type V = Seq<char>;

    closed spec fn view(&self) -> Seq<char> {
        self.pattern@
    }
}

impl Clone for FuzzyQuery {
    fn clone(&self) -> (copy: FuzzyQuery)
        ensures
            copy@ == self@,
    {
        FuzzyQuery { pattern: self.pattern.clone() }
    }
}

impl FuzzyQuery {
    /// The request to match candidates against `query`.
    pub fn new(query: &str) -> (request: FuzzyQuery)
        ensures
            request@ == query@,
    {
        FuzzyQuery { pattern: query.to_owned() }
    }

    /// The text that candidates are matched against.
    pub fn pattern(&self) -> (pattern: &str)
        ensures
            pattern@ == self@,
    {
        self.pattern.as_str()
    }
}

} // verus!
