//! Regular expressions for command-line rules, compiled once and kept by pattern.

use vstd::prelude::*;

verus! {

/// A compiled regular expression of the `regex` crate. Nothing of its inside is known
/// here.
#[verifier::external_type_specification]
#[verifier::external_body]
pub struct ExRegex(regex::Regex);

/// What `regex::Regex::new` returns for a pattern: the compiled expression, or `None`
/// where the pattern does not parse or compiles to a program over the default size limit.
pub uninterp spec fn regex_compiled(pattern: Seq<char>) -> Option<regex::Regex>;

/// What `regex::Regex::is_match` returns: whether the expression matches somewhere in
/// the haystack.
pub uninterp spec fn regex_is_match(re: regex::Regex, haystack: Seq<char>) -> bool;

/// Calls `regex::Regex::new`, which compiles with the crate's default configuration, so
/// that the outcome is fixed by the pattern. The error of a pattern that does not
/// compile is dropped.
#[verifier::external_body]
pub(crate) fn compile(pattern: &str) -> (res: Option<regex::Regex>)
    ensures
        res == regex_compiled(pattern@),
{
    match regex::Regex::new(pattern) {
        Ok(re) => Some(re),
        Err(_) => None,
    }
}

/// Calls `regex::Regex::is_match`.
#[verifier::external_body]
pub(crate) fn is_match(re: &regex::Regex, haystack: &str) -> (res: bool)
    ensures
        res == regex_is_match(*re, haystack@),
{
    re.is_match(haystack)
}

/// Whether the pattern compiles and matches somewhere in the text. A pattern that does
/// not compile matches nothing.
pub open spec fn pattern_matches(pattern: Seq<char>, text: Seq<char>) -> bool {
    regex_compiled(pattern) matches Some(re) && regex_is_match(re, text)
}

/// A pattern with what its compilation gave.
pub struct CachedPattern {
    pub pattern: String,
    pub compiled: Option<regex::Regex>,
}

/// The compiled patterns seen so far. A pattern is compiled when it is first asked for
/// and found again by its text afterwards.
pub struct PatternCache {
    entries: Vec<CachedPattern>,
}

impl PatternCache {
    /// Every entry holds what compiling its pattern gives.
    pub closed spec fn wf(self) -> bool {
        forall|i: int|
            0 <= i < self.entries@.len() ==> (#[trigger] self.entries@[i]).compiled
                == regex_compiled(self.entries@[i].pattern@)
    }

    /// The patterns that the cache holds, in the order in which they were first seen.
    pub closed spec fn patterns(self) -> Seq<Seq<char>> {
        Seq::new(self.entries@.len(), |i: int| self.entries@[i].pattern@)
    }

    pub fn new() -> (c: PatternCache)
        ensures
            c.wf(),
            c.patterns().len() == 0,
    {
        PatternCache { entries: Vec::new() }
    }

    /// How many patterns have been compiled.
    pub fn len(&self) -> (n: usize)
        ensures
            n == self.patterns().len(),
    {
        self.entries.len()
    }

    fn position(&self, pattern: &str) -> (r: Option<usize>)
        ensures
            match r {
                Some(i) => i < self.entries@.len() && self.entries@[i as int].pattern@ == pattern@,
                None => !self.patterns().contains(pattern@),
            },
    {
        let mut i: usize = 0;
        while i < self.entries.len()
            invariant
                i <= self.entries.len(),
                forall|k: int| 0 <= k < i ==> (#[trigger] self.entries@[k]).pattern@ != pattern@,
            decreases self.entries.len() - i,
        {
            if crate::text::same_text(self.entries[i].pattern.as_str(), pattern) {
                return Some(i);
            }
            i += 1;
        }
        assert forall|k: int| 0 <= k < self.patterns().len() implies self.patterns()[k]
            != pattern@ by {
            assert(self.entries@[k].pattern@ != pattern@);
        }
        None
    }

    /// Whether `pattern` compiles. It is compiled where it is new.
    pub fn is_valid(&mut self, pattern: &str) -> (r: bool)
        requires
            old(self).wf(),
        ensures
            final(self).wf(),
            r == (regex_compiled(pattern@) is Some),
            final(self).patterns() == if old(self).patterns().contains(pattern@) {
                old(self).patterns()
            } else {
                old(self).patterns().push(pattern@)
            },
    {
        let i = self.slot(pattern);
        self.entries[i].compiled.is_some()
    }

    /// The place of `pattern` in the cache, after compiling it where it is new.
    fn slot(&mut self, pattern: &str) -> (i: usize)
        requires
            old(self).wf(),
        ensures
            final(self).wf(),
            i < final(self).entries@.len(),
            final(self).entries@[i as int].pattern@ == pattern@,
            final(self).patterns() == if old(self).patterns().contains(pattern@) {
                old(self).patterns()
            } else {
                old(self).patterns().push(pattern@)
            },
    {
        match self.position(pattern) {
            Some(i) => {
                assert(self.patterns()[i as int] == pattern@);
                i
            },
            None => {
                let compiled = compile(pattern);
                let ghost before = self.patterns();
                self.entries.push(CachedPattern { pattern: pattern.to_owned(), compiled });
                assert(self.patterns() =~= before.push(pattern@));
                self.entries.len() - 1
            },
        }
    }

    /// Whether `pattern` matches somewhere in `text`. The pattern is compiled at most
    /// once over the life of the cache.
    pub fn matches(&mut self, pattern: &str, text: &str) -> (r: bool)
        requires
            old(self).wf(),
        ensures
            final(self).wf(),
            r == pattern_matches(pattern@, text@),
            final(self).patterns() == if old(self).patterns().contains(pattern@) {
                old(self).patterns()
            } else {
                old(self).patterns().push(pattern@)
            },
    {
        let i = self.slot(pattern);
        match &self.entries[i].compiled {
            Some(re) => is_match(re, text),
            None => false,
        }
    }
}

} // verus!
