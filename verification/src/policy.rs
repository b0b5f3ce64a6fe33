//! The policy engine: built-in allow rules, then the allow list, then the deny list; the
//! first rule that matches decides.

use vstd::prelude::*;
use vstd::string::*;

use crate::config::{clone_rules, Config, Rule, RuleType};
use crate::glob::{glob_match, lemma_literal_pattern, wildcard_match};
use crate::pattern::{pattern_matches, regex_compiled, PatternCache};
use crate::process::ProcessInfo;
use crate::text::{ascii_lower, chars_equal, has_char, join_spaced, lower_chars};

verus! {

/// Whether a name (or a path) matches the value of a rule: both are lower-cased the
/// ASCII way and the value is read as a wildcard pattern.
pub open spec fn name_matches(name: Seq<char>, value: Seq<char>) -> bool {
    glob_match(ascii_lower(value), ascii_lower(name))
}

/// Whether a digest agrees with the one a rule gives, without regard to ASCII case.
pub open spec fn hash_matches(hash: Seq<char>, expected: Seq<char>) -> bool {
    ascii_lower(hash) == ascii_lower(expected)
}

/// Whether an enabled rule matches a process. A disabled rule matches nothing, a path
/// rule nothing without a path, a hash rule nothing without a digest.
pub open spec fn rule_matches(rule: Rule, p: ProcessInfo) -> bool {
    rule.enabled && match rule.rule_type {
        RuleType::Name { value } => name_matches(p.name@, value@),
        RuleType::Path { value } => p.path matches Some(path) && name_matches(path@, value@),
        RuleType::Hash { sha256 } => p.hash matches Some(hash) && hash_matches(hash@, sha256@),
        RuleType::Command { pattern } => pattern_matches(pattern@, p.command_line()),
    }
}

/// Whether rule `i` matches and no rule before it does.
pub open spec fn is_first_match(rules: Seq<Rule>, p: ProcessInfo, i: int) -> bool {
    &&& 0 <= i < rules.len()
    &&& rule_matches(rules[i], p)
    &&& forall|k: int| 0 <= k < i ==> !rule_matches(#[trigger] rules[k], p)
}

/// Whether no rule of the list matches.
pub open spec fn no_match(rules: Seq<Rule>, p: ProcessInfo) -> bool {
    forall|k: int| 0 <= k < rules.len() ==> !rule_matches(#[trigger] rules[k], p)
}

/// The index of the first rule that matches, from `from` on.
pub open spec fn first_match_from(rules: Seq<Rule>, p: ProcessInfo, from: int) -> Option<int>
    decreases rules.len() - from,
{
    if from < 0 || from >= rules.len() {
        None
    } else if rule_matches(rules[from], p) {
        Some(from)
    } else {
        first_match_from(rules, p, from + 1)
    }
}

/// The index of the first rule of the list that matches.
pub open spec fn first_match(rules: Seq<Rule>, p: ProcessInfo) -> Option<int> {
    first_match_from(rules, p, 0)
}

pub proof fn lemma_first_match_from(rules: Seq<Rule>, p: ProcessInfo, from: int)
    requires
        0 <= from <= rules.len(),
    ensures
        match first_match_from(rules, p, from) {
            Some(i) => from <= i < rules.len() && rule_matches(rules[i], p) && forall|k: int|
                from <= k < i ==> !rule_matches(#[trigger] rules[k], p),
            None => forall|k: int| from <= k < rules.len() ==> !rule_matches(#[trigger] rules[k], p),
        },
    decreases rules.len() - from,
{
    if from < rules.len() && !rule_matches(rules[from], p) {
        lemma_first_match_from(rules, p, from + 1);
    }
}

/// `first_match` gives the least index of a matching rule, and `None` only where no
/// rule matches.
pub proof fn lemma_first_match(rules: Seq<Rule>, p: ProcessInfo)
    ensures
        match first_match(rules, p) {
            Some(i) => is_first_match(rules, p, i),
            None => no_match(rules, p),
        },
{
    lemma_first_match_from(rules, p, 0);
}

/// The outcome of an evaluation.
#[derive(Debug, PartialEq, Eq)]
pub enum Verdict {
    /// An allow rule matched; the identifier is that rule's.
    Allow(String),
    /// No allow rule matched and a deny rule did; the identifier is that rule's.
    Deny(String),
    /// No rule matched.
    Unmatched,
}

/// A verdict with the rule identifier as text.
pub enum VerdictModel {
    Allow(Seq<char>),
    Deny(Seq<char>),
    Unmatched,
}

impl View for Verdict {
    type V = VerdictModel;

    open spec fn view(&self) -> VerdictModel {
        match self {
            Verdict::Allow(id) => VerdictModel::Allow(id@),
            Verdict::Deny(id) => VerdictModel::Deny(id@),
            Verdict::Unmatched => VerdictModel::Unmatched,
        }
    }
}

/// The verdict on a process: the first matching rule among the built-in allow rules,
/// then the allow list, then the deny list.
pub open spec fn verdict_for(
    builtin: Seq<Rule>,
    allow: Seq<Rule>,
    deny: Seq<Rule>,
    p: ProcessInfo,
) -> VerdictModel {
    if let Some(i) = first_match(builtin, p) {
        VerdictModel::Allow(builtin[i].id@)
    } else if let Some(i) = first_match(allow, p) {
        VerdictModel::Allow(allow[i].id@)
    } else if let Some(i) = first_match(deny, p) {
        VerdictModel::Deny(deny[i].id@)
    } else {
        VerdictModel::Unmatched
    }
}

/// Allow dominates: where an enabled allow rule matches, in the built-in set or in the
/// allow list, the verdict is an allow, whatever the deny list holds.
pub proof fn law_allow_dominates(
    builtin: Seq<Rule>,
    allow: Seq<Rule>,
    deny: Seq<Rule>,
    p: ProcessInfo,
    i: int,
)
    requires
        (0 <= i < allow.len() && rule_matches(allow[i], p)) || (0 <= i < builtin.len()
            && rule_matches(builtin[i], p)),
    ensures
        verdict_for(builtin, allow, deny, p) is Allow,
{
    lemma_first_match(builtin, p);
    lemma_first_match(allow, p);
}

/// Declaration order: where two rules of one list match, the one with the lower index
/// is found, never the later one.
pub proof fn law_declaration_order(rules: Seq<Rule>, p: ProcessInfo, i: int, j: int)
    requires
        0 <= i < j < rules.len(),
        rule_matches(rules[i], p),
        rule_matches(rules[j], p),
    ensures
        first_match(rules, p) matches Some(k) && k <= i,
{
    lemma_first_match(rules, p);
}

/// The verdict names the first matching rule of the list that decides: a deny rule is
/// named only where no allow rule matches, and nothing is named where none matches.
pub proof fn law_verdict_names_first_match(
    builtin: Seq<Rule>,
    allow: Seq<Rule>,
    deny: Seq<Rule>,
    p: ProcessInfo,
)
    ensures
        match verdict_for(builtin, allow, deny, p) {
            VerdictModel::Allow(id) => (exists|i: int|
                is_first_match(builtin, p, i) && builtin[i].id@ == id) || (no_match(builtin, p)
                && exists|i: int| is_first_match(allow, p, i) && allow[i].id@ == id),
            VerdictModel::Deny(id) => no_match(builtin, p) && no_match(allow, p) && exists|i: int|
                is_first_match(deny, p, i) && deny[i].id@ == id,
            VerdictModel::Unmatched => no_match(builtin, p) && no_match(allow, p) && no_match(
                deny,
                p,
            ),
        },
{
    lemma_first_match(builtin, p);
    lemma_first_match(allow, p);
    lemma_first_match(deny, p);
}

/// Whether a process name matches a rule value.
pub fn matches_rule_name(name: &str, pat: &str) -> (r: bool)
    ensures
        r == name_matches(name@, pat@),
{
    let n = lower_chars(name);
    let p = lower_chars(pat);
    if has_char(&p, '*') {
        wildcard_match(&p, &n)
    } else {
        proof {
            lemma_literal_pattern(p@, n@);
        }
        chars_equal(&n, &p)
    }
}

/// Whether an executable path matches a rule value.
pub fn matches_rule_path(path: &str, pat: &str) -> (r: bool)
    ensures
        r == name_matches(path@, pat@),
{
    matches_rule_name(path, pat)
}

/// Whether a digest is the one that a rule expects.
pub fn matches_rule_hash(hash: &str, expected_hex: &str) -> (r: bool)
    ensures
        r == hash_matches(hash@, expected_hex@),
{
    crate::text::eq_ignore_case(hash, expected_hex)
}

/// Whether one rule matches a process whose command line is `line`.
fn matches_rule(rule: &Rule, process: &ProcessInfo, line: &str, cache: &mut PatternCache) -> (r:
    bool)
    requires
        old(cache).wf(),
        line@ == process.command_line(),
    ensures
        final(cache).wf(),
        r == rule_matches(*rule, *process),
{
    if !rule.enabled {
        return false;
    }
    match &rule.rule_type {
        RuleType::Name { value } => matches_rule_name(process.name.as_str(), value.as_str()),
        RuleType::Path { value } => match &process.path {
            Some(path) => matches_rule_path(path.as_str(), value.as_str()),
            None => false,
        },
        RuleType::Hash { sha256 } => match &process.hash {
            Some(hash) => matches_rule_hash(hash.as_str(), sha256.as_str()),
            None => false,
        },
        RuleType::Command { pattern } => cache.matches(pattern.as_str(), line),
    }
}

/// The first rule of the list that matches.
fn find_match(rules: &Vec<Rule>, process: &ProcessInfo, line: &str, cache: &mut PatternCache) -> (r:
    Option<usize>)
    requires
        old(cache).wf(),
        line@ == process.command_line(),
    ensures
        final(cache).wf(),
        match r {
            Some(i) => i < rules.len() && first_match(rules@, *process) == Some(i as int),
            None => first_match(rules@, *process) is None,
        },
{
    let mut i: usize = 0;
    while i < rules.len()
        invariant
            i <= rules.len(),
            cache.wf(),
            line@ == process.command_line(),
            first_match(rules@, *process) == first_match_from(rules@, *process, i as int),
        decreases rules.len() - i,
    {
        if matches_rule(&rules[i], process, line, cache) {
            return Some(i);
        }
        i += 1;
    }
    None
}

/// Whether a rule is enabled and has a pattern that does not compile.
pub open spec fn has_bad_pattern(rule: Rule) -> bool {
    &&& rule.enabled
    &&& rule.rule_type matches RuleType::Command { pattern }
    &&& regex_compiled(pattern@) is None
}

/// The identifiers of the rules of a list whose pattern does not compile, in order.
pub open spec fn bad_ids(rules: Seq<Rule>) -> Seq<Seq<char>>
    decreases rules.len(),
{
    if rules.len() == 0 {
        Seq::empty()
    } else if has_bad_pattern(rules.last()) {
        bad_ids(rules.drop_last()).push(rules.last().id@)
    } else {
        bad_ids(rules.drop_last())
    }
}

/// The texts of a sequence of strings.
pub open spec fn texts(strings: Seq<String>) -> Seq<Seq<char>> {
    Seq::new(strings.len(), |i: int| strings[i]@)
}

fn collect_bad(rules: &Vec<Rule>, cache: &mut PatternCache, out: &mut Vec<String>)
    requires
        old(cache).wf(),
    ensures
        final(cache).wf(),
        texts(final(out)@) == texts(old(out)@) + bad_ids(rules@),
{
    let mut i: usize = 0;
    assert(texts(out@) =~= texts(old(out)@) + bad_ids(rules@.take(0)));
    while i < rules.len()
        invariant
            i <= rules.len(),
            cache.wf(),
            texts(out@) == texts(old(out)@) + bad_ids(rules@.take(i as int)),
        decreases rules.len() - i,
    {
        let rule = &rules[i];
        let mut bad = false;
        if rule.enabled {
            if let RuleType::Command { pattern } = &rule.rule_type {
                bad = !cache.is_valid(pattern.as_str());
            }
        }
        proof {
            let next = rules@.take(i + 1);
            assert(next.drop_last() == rules@.take(i as int));
            assert(next.last() == rules@[i as int]);
        }
        if bad {
            let ghost before = out@;
            out.push(rule.id.clone());
            assert(texts(out@) =~= texts(before).push(rule.id@));
            assert(texts(out@) =~= texts(old(out)@) + bad_ids(rules@.take(i + 1)));
        }
        i += 1;
    }
    assert(rules@.take(rules.len() as int) == rules@);
}

/// The allow and deny rules of one policy load, with the patterns compiled so far.
pub struct PolicyEngine {
    builtin: Vec<Rule>,
    whitelist: Vec<Rule>,
    blacklist: Vec<Rule>,
    regex_cache: PatternCache,
}

impl PolicyEngine {
    pub closed spec fn wf(self) -> bool {
        self.regex_cache.wf()
    }

    /// The built-in allow rules, which are walked first.
    pub closed spec fn builtin(self) -> Seq<Rule> {
        self.builtin@
    }

    /// The allow list, in declaration order.
    pub closed spec fn allow(self) -> Seq<Rule> {
        self.whitelist@
    }

    /// The deny list, in declaration order.
    pub closed spec fn deny(self) -> Seq<Rule> {
        self.blacklist@
    }

    /// The verdict that the engine gives on a process.
    pub open spec fn verdict(self, p: ProcessInfo) -> VerdictModel {
        verdict_for(self.builtin(), self.allow(), self.deny(), p)
    }

    /// An engine for the rules of `config`, with the built-in allow rules before them.
    pub fn new(config: &Config, builtin: Vec<Rule>) -> (e: PolicyEngine)
        ensures
            e.wf(),
            e.builtin() == builtin@,
            e.allow() == config.whitelist@,
            e.deny() == config.blacklist@,
    {
        PolicyEngine {
            builtin,
            whitelist: clone_rules(&config.whitelist),
            blacklist: clone_rules(&config.blacklist),
            regex_cache: PatternCache::new(),
        }
    }

    /// Classifies a process.
    pub fn evaluate(&mut self, process: &ProcessInfo) -> (v: Verdict)
        requires
            old(self).wf(),
        ensures
            final(self).wf(),
            final(self).builtin() == old(self).builtin(),
            final(self).allow() == old(self).allow(),
            final(self).deny() == old(self).deny(),
            v@ == old(self).verdict(*process),
    {
        let line = join_spaced(&process.command);
        if let Some(i) = find_match(&self.builtin, process, line.as_str(), &mut self.regex_cache) {
            return Verdict::Allow(self.builtin[i].id.clone());
        }
        if let Some(i) = find_match(&self.whitelist, process, line.as_str(), &mut self.regex_cache) {
            return Verdict::Allow(self.whitelist[i].id.clone());
        }
        if let Some(i) = find_match(&self.blacklist, process, line.as_str(), &mut self.regex_cache) {
            return Verdict::Deny(self.blacklist[i].id.clone());
        }
        Verdict::Unmatched
    }

    /// Whether an allow rule, built-in or listed, matches the process.
    pub fn is_whitelisted(&mut self, process: &ProcessInfo) -> (r: bool)
        requires
            old(self).wf(),
        ensures
            final(self).wf(),
            final(self).builtin() == old(self).builtin(),
            final(self).allow() == old(self).allow(),
            final(self).deny() == old(self).deny(),
            r == !(no_match(old(self).builtin(), *process) && no_match(old(self).allow(), *process)),
    {
        let line = join_spaced(&process.command);
        proof {
            lemma_first_match(self.builtin@, *process);
            lemma_first_match(self.whitelist@, *process);
        }
        if let Some(_i) = find_match(&self.builtin, process, line.as_str(), &mut self.regex_cache) {
            return true;
        }
        find_match(&self.whitelist, process, line.as_str(), &mut self.regex_cache).is_some()
    }

    /// Whether a deny rule matches the process, whatever the allow rules say.
    pub fn is_blacklisted(&mut self, process: &ProcessInfo) -> (r: bool)
        requires
            old(self).wf(),
        ensures
            final(self).wf(),
            final(self).builtin() == old(self).builtin(),
            final(self).allow() == old(self).allow(),
            final(self).deny() == old(self).deny(),
            r == !no_match(old(self).deny(), *process),
    {
        let line = join_spaced(&process.command);
        proof {
            lemma_first_match(self.blacklist@, *process);
        }
        find_match(&self.blacklist, process, line.as_str(), &mut self.regex_cache).is_some()
    }

    /// The identifiers of the enabled rules whose pattern does not compile, those of the
    /// allow list first. Such a rule matches nothing.
    pub fn invalid_rule_ids(&mut self) -> (ids: Vec<String>)
        requires
            old(self).wf(),
        ensures
            final(self).wf(),
            final(self).builtin() == old(self).builtin(),
            final(self).allow() == old(self).allow(),
            final(self).deny() == old(self).deny(),
            texts(ids@) == bad_ids(old(self).allow()) + bad_ids(old(self).deny()),
    {
        let mut ids: Vec<String> = Vec::new();
        assert(texts(ids@) =~= Seq::<Seq<char>>::empty());
        collect_bad(&self.whitelist, &mut self.regex_cache, &mut ids);
        collect_bad(&self.blacklist, &mut self.regex_cache, &mut ids);
        assert(texts(ids@) =~= bad_ids(self.whitelist@) + bad_ids(self.blacklist@));
        ids
    }
}

} // verus!
