//! Event classification: matches log lines against YAML-defined rules and
//! produces canonical events (first matching rule wins).

use vstd::prelude::*;
use vstd::string::*;

use crate::config::{EventConfig, MatchCondition, MatchRule};
use crate::events::{fingerprint, fingerprint_of, CanonicalEvent, EventView};
use crate::ingestion::RawLogLine;
use crate::text::chars_of;

verus! {

/// Whether `pattern` is accepted by `regex::Regex::new`.
pub uninterp spec fn regex_compiles(pattern: Seq<char>) -> bool;

/// Whether the regex compiled from `pattern` matches somewhere in `haystack`.
pub uninterp spec fn regex_finds(pattern: Seq<char>, haystack: Seq<char>) -> bool;

/// `regex::Regex::new`: whether the pattern compiles.
#[verifier::external_body]
pub(crate) fn regex_is_valid(pattern: &str) -> (ok: bool)
    ensures
        ok == regex_compiles(pattern@),
{
    regex::Regex::new(pattern).is_ok()
}

/// `regex::Regex::is_match` on the regex compiled from `pattern`; false when
/// the pattern does not compile.
#[verifier::external_body]
fn regex_is_match(pattern: &str, haystack: &str) -> (found: bool)
    ensures
        regex_compiles(pattern@) ==> found == regex_finds(pattern@, haystack@),
        !regex_compiles(pattern@) ==> !found,
{
    match regex::Regex::new(pattern) {
        Ok(re) => re.is_match(haystack),
        Err(_) => false,
    }
}

/// Whether `needle` occurs in `haystack` as a contiguous substring.
pub open spec fn contains_seq(haystack: Seq<char>, needle: Seq<char>) -> bool {
    exists|i: int|
        0 <= i <= haystack.len() - needle.len() && #[trigger] haystack.subrange(
            i,
            i + needle.len(),
        ) == needle
}

/// Whether `needle` occurs in `haystack`.
pub fn contains_chars(haystack: &Vec<char>, needle: &Vec<char>) -> (b: bool)
    ensures
        b == contains_seq(haystack@, needle@),
{
    let h = haystack.len();
    let n = needle.len();
    if n > h {
        return false;
    }
    let mut i: usize = 0;
    while i <= h - n
        invariant
            h == haystack@.len(),
            n == needle@.len(),
            n <= h,
            i <= h - n + 1,
            forall|k: int| 0 <= k < i ==> #[trigger] haystack@.subrange(k, k + n) != needle@,
        decreases h - n + 1 - i,
    {
        let mut j: usize = 0;
        let mut same = true;
        while j < n
            invariant
                h == haystack@.len(),
                n == needle@.len(),
                i + n <= h,
                j <= n,
                same == forall|m: int| 0 <= m < j ==> haystack@[i + m] == needle@[m],
            decreases n - j,
        {
            if haystack[i + j] != needle[j] {
                same = false;
            }
            j = j + 1;
        }
        if same {
            assert(haystack@.subrange(i as int, i + n) =~= needle@);
            return true;
        } else {
            assert(haystack@.subrange(i as int, i + n) != needle@) by {
                let m = choose|m: int| 0 <= m < n && haystack@[i + m] != needle@[m];
                assert(haystack@.subrange(i as int, i + n)[m] == haystack@[i + m]);
            }
        }
        i = i + 1;
    }
    false
}

/// The regex patterns that compiled, collected from a rule set.
pub struct CompiledRules {
    pub patterns: Vec<String>,
}

/// Some condition among `conds` has the regex `p`.
pub open spec fn conds_mention(conds: Seq<MatchCondition>, p: Seq<char>) -> bool {
    exists|i: int|
        0 <= i < conds.len() && #[trigger] conds[i].regex is Some && conds[i].regex->Some_0@ == p
}

/// Some rule among `rules` has a condition with the regex `p`.
pub open spec fn rules_mention(rules: Seq<EventConfig>, p: Seq<char>) -> bool {
    exists|i: int|
        0 <= i < rules.len() && (conds_mention(#[trigger] rules[i].match_rule.any@, p)
            || conds_mention(rules[i].match_rule.all@, p) || conds_mention(
            rules[i].match_rule.none@,
            p,
        ))
}

/// Some pattern in `pats` has the text `p`.
pub open spec fn has_in(pats: Seq<String>, p: Seq<char>) -> bool {
    exists|i: int| 0 <= i < pats.len() && #[trigger] pats[i]@ == p
}

proof fn lemma_has_in_push(pats: Seq<String>, x: String, p: Seq<char>)
    ensures
        has_in(pats.push(x), p) <==> (has_in(pats, p) || x@ == p),
{
    if has_in(pats, p) {
        let k = choose|k: int| 0 <= k < pats.len() && #[trigger] pats[k]@ == p;
        assert(pats.push(x)[k] == pats[k]);
    }
    if x@ == p {
        assert(pats.push(x)[pats.len() as int] == x);
    }
    if has_in(pats.push(x), p) && x@ != p {
        let k = choose|k: int| 0 <= k < pats.push(x).len() && #[trigger] pats.push(x)[k]@ == p;
        assert(pats.push(x)[k] == pats[k]);
    }
}

/// The regex of a condition is `p`.
pub open spec fn cond_has_regex(c: MatchCondition, p: Seq<char>) -> bool {
    c.regex is Some && c.regex->Some_0@ == p
}

proof fn lemma_conds_mention_take(conds: Seq<MatchCondition>, i: int, p: Seq<char>)
    requires
        0 <= i < conds.len(),
    ensures
        conds_mention(conds.take(i + 1), p) <==> (conds_mention(conds.take(i), p)
            || cond_has_regex(conds[i], p)),
{
    let pre = conds.take(i);
    let post = conds.take(i + 1);
    if conds_mention(post, p) {
        let k = choose|k: int|
            0 <= k < post.len() && #[trigger] post[k].regex is Some && post[k].regex->Some_0@ == p;
        if k < i {
            assert(pre[k] == post[k]);
        } else {
            assert(post[k] == conds[i]);
        }
    }
    if conds_mention(pre, p) {
        let k = choose|k: int|
            0 <= k < pre.len() && #[trigger] pre[k].regex is Some && pre[k].regex->Some_0@ == p;
        assert(post[k] == pre[k]);
    }
    if cond_has_regex(conds[i], p) {
        assert(post[i] == conds[i]);
    }
}

/// Some condition of the rule has the regex `p`.
pub open spec fn rule_mentions(r: EventConfig, p: Seq<char>) -> bool {
    conds_mention(r.match_rule.any@, p) || conds_mention(r.match_rule.all@, p) || conds_mention(
        r.match_rule.none@,
        p,
    )
}

proof fn lemma_rules_mention_take(rules: Seq<EventConfig>, i: int, p: Seq<char>)
    requires
        0 <= i < rules.len(),
    ensures
        rules_mention(rules.take(i + 1), p) <==> (rules_mention(rules.take(i), p) || rule_mentions(
            rules[i],
            p,
        )),
{
    let pre = rules.take(i);
    let post = rules.take(i + 1);
    if rules_mention(post, p) {
        let k = choose|k: int|
            0 <= k < post.len() && (conds_mention(#[trigger] post[k].match_rule.any@, p)
                || conds_mention(post[k].match_rule.all@, p) || conds_mention(
                post[k].match_rule.none@,
                p,
            ));
        if k < i {
            assert(pre[k] == post[k]);
        } else {
            assert(post[k] == rules[i]);
        }
    }
    if rules_mention(pre, p) {
        let k = choose|k: int|
            0 <= k < pre.len() && (conds_mention(#[trigger] pre[k].match_rule.any@, p)
                || conds_mention(pre[k].match_rule.all@, p) || conds_mention(
                pre[k].match_rule.none@,
                p,
            ));
        assert(post[k] == pre[k]);
    }
    if rule_mentions(rules[i], p) {
        assert(post[i] == rules[i]);
    }
}

impl CompiledRules {
    /// Whether the regex `p` is available for matching.
    pub open spec fn has(&self, p: Seq<char>) -> bool {
        has_in(self.patterns@, p)
    }

    /// The patterns are exactly the regexes of the rules that compile.
    pub open spec fn holds_exactly(&self, rules: Seq<EventConfig>) -> bool {
        forall|p: Seq<char>| #[trigger] self.has(p) <==> (regex_compiles(p) && rules_mention(rules, p))
    }

    fn has_pattern(&self, p: &String) -> (b: bool)
        ensures
            b == self.has(p@),
    {
        let mut i: usize = 0;
        while i < self.patterns.len()
            invariant
                i <= self.patterns@.len(),
                forall|j: int| 0 <= j < i ==> self.patterns@[j]@ != p@,
            decreases self.patterns.len() - i,
        {
            if self.patterns[i] == *p {
                return true;
            }
            i = i + 1;
        }
        false
    }

    fn add_conditions(&mut self, conds: &Vec<MatchCondition>)
        ensures
            forall|p: Seq<char>|
                #[trigger] final(self).has(p) <==> (old(self).has(p) || (regex_compiles(p)
                    && conds_mention(conds@, p))),
    {
        let mut i: usize = 0;
        assert(conds@.take(0) =~= Seq::<MatchCondition>::empty());
        while i < conds.len()
            invariant
                i <= conds@.len(),
                forall|p: Seq<char>|
                    #[trigger] self.has(p) <==> (old(self).has(p) || (regex_compiles(p)
                        && conds_mention(conds@.take(i as int), p))),
            decreases conds.len() - i,
        {
            let ghost before = self.patterns@;
            assert forall|p: Seq<char>|
                #[trigger] has_in(before, p) <==> (old(self).has(p) || (regex_compiles(p)
                    && conds_mention(conds@.take(i as int), p))) by {
                assert(self.has(p) == has_in(before, p));
            }
            if let Some(pattern) = &conds[i].regex {
                let known = self.has_pattern(pattern);
                if !known {
                    let valid = regex_is_valid(pattern.as_str());
                    if valid {
                        self.patterns.push(pattern.clone());
                        proof {
                            assert forall|p: Seq<char>| #[trigger] self.has(p) <==> (has_in(before, p)
                                || pattern@ == p) by {
                                lemma_has_in_push(before, *pattern, p);
                            }
                        }
                    }
                }
                assert(forall|p: Seq<char>| #[trigger] self.has(p) <==> (has_in(before, p) || (
                    pattern@ == p && regex_compiles(p))));
            } else {
                assert(forall|p: Seq<char>| #[trigger] self.has(p) <==> has_in(before, p));
            }
            proof {
                assert forall|p: Seq<char>|
                    #[trigger] self.has(p) <==> (old(self).has(p) || (regex_compiles(p)
                        && conds_mention(conds@.take(i + 1), p))) by {
                    lemma_conds_mention_take(conds@, i as int, p);
                }
            }
            i = i + 1;
        }
        assert(conds@.take(conds@.len() as int) =~= conds@);
    }

    /// Collects the regex patterns of the rules that compile, each once.
    pub fn new(rules: &[EventConfig]) -> (c: Self)
        ensures
            c.holds_exactly(rules@),
    {
        let mut c = CompiledRules { patterns: Vec::new() };
        let mut i: usize = 0;
        assert(rules@.take(0) =~= Seq::<EventConfig>::empty());
        while i < rules.len()
            invariant
                i <= rules@.len(),
                forall|p: Seq<char>|
                    #[trigger] c.has(p) <==> (regex_compiles(p) && rules_mention(rules@.take(i as int), p)),
            decreases rules.len() - i,
        {
            c.add_conditions(&rules[i].match_rule.any);
            c.add_conditions(&rules[i].match_rule.all);
            c.add_conditions(&rules[i].match_rule.none);
            proof {
                assert forall|p: Seq<char>|
                    #[trigger] c.has(p) <==> (regex_compiles(p) && rules_mention(rules@.take(i + 1), p)) by {
                    lemma_rules_mention_take(rules@, i as int, p);
                }
            }
            i = i + 1;
        }
        assert(rules@.take(rules@.len() as int) =~= rules@);
        c
    }
}

/// Whether a single condition matches a line: its substring occurs in the
/// line, or its regex is available and matches.
pub open spec fn condition_holds(line: Seq<char>, c: MatchCondition, compiled: CompiledRules) -> bool {
    (c.contains is Some && contains_seq(line, c.contains->Some_0@)) || (c.regex is Some
        && compiled.has(c.regex->Some_0@) && regex_compiles(c.regex->Some_0@) && regex_finds(
        c.regex->Some_0@,
        line,
    ))
}

/// Some condition in the list matches.
pub open spec fn some_condition_holds(
    line: Seq<char>,
    conds: Seq<MatchCondition>,
    compiled: CompiledRules,
) -> bool {
    exists|i: int| 0 <= i < conds.len() && condition_holds(line, #[trigger] conds[i], compiled)
}

/// Every condition in the list matches.
pub open spec fn every_condition_holds(
    line: Seq<char>,
    conds: Seq<MatchCondition>,
    compiled: CompiledRules,
) -> bool {
    forall|i: int| 0 <= i < conds.len() ==> condition_holds(line, #[trigger] conds[i], compiled)
}

/// Whether a rule matches a line: each non-empty group is satisfied (`any`:
/// some condition matches, `all`: every condition matches, `none`: no
/// condition matches).
pub open spec fn rule_holds(line: Seq<char>, r: MatchRule, compiled: CompiledRules) -> bool {
    &&& (r.any@.len() == 0 || some_condition_holds(line, r.any@, compiled))
    &&& (r.all@.len() == 0 || every_condition_holds(line, r.all@, compiled))
    &&& (r.none@.len() == 0 || !some_condition_holds(line, r.none@, compiled))
}

/// What a rule means: it matches a line exactly when some `any` condition
/// holds (or `any` is empty), every `all` condition holds, and no `none`
/// condition holds. In particular one matching `none` condition excludes the
/// line, and a condition whose substring occurs in the line holds.
pub proof fn law_rule_holds(line: Seq<char>, r: MatchRule, compiled: CompiledRules, c: MatchCondition)
    ensures
        rule_holds(line, r, compiled) <==> {
            &&& (r.any@.len() == 0 || exists|i: int|
                0 <= i < r.any@.len() && condition_holds(line, #[trigger] r.any@[i], compiled))
            &&& forall|i: int|
                0 <= i < r.all@.len() ==> condition_holds(line, #[trigger] r.all@[i], compiled)
            &&& forall|i: int|
                0 <= i < r.none@.len() ==> !condition_holds(line, #[trigger] r.none@[i], compiled)
        },
        (exists|i: int|
            0 <= i < r.none@.len() && condition_holds(line, #[trigger] r.none@[i], compiled))
            ==> !rule_holds(line, r, compiled),
        (c.contains is Some && exists|p: int|
            0 <= p && p + c.contains->Some_0@.len() <= line.len() && #[trigger] line.subrange(
                p,
                p + c.contains->Some_0@.len(),
            ) == c.contains->Some_0@) ==> condition_holds(line, c, compiled),
{
}

/// Index of the first rule at or after `k` that matches the line, or -1.
pub open spec fn first_match_from(
    line: Seq<char>,
    rules: Seq<EventConfig>,
    compiled: CompiledRules,
    k: int,
) -> int
    decreases rules.len() - k,
{
    if k < 0 || k >= rules.len() {
        -1
    } else if rule_holds(line, rules[k].match_rule, compiled) {
        k
    } else {
        first_match_from(line, rules, compiled, k + 1)
    }
}

/// First match wins: the rule found from index `k` matches the line and no
/// rule between `k` and it does; when none is found, no rule from `k` on
/// matches.
pub proof fn law_first_match(line: Seq<char>, rules: Seq<EventConfig>, compiled: CompiledRules, k: int)
    requires
        0 <= k,
    ensures
        ({
            let f = first_match_from(line, rules, compiled, k);
            &&& f == -1 || k <= f < rules.len()
            &&& f >= 0 ==> rule_holds(line, rules[f].match_rule, compiled)
            &&& f >= 0 ==> forall|j: int|
                k <= j < f ==> !rule_holds(line, #[trigger] rules[j].match_rule, compiled)
            &&& f == -1 ==> forall|j: int|
                k <= j < rules.len() ==> !rule_holds(line, #[trigger] rules[j].match_rule, compiled)
        }),
    decreases rules.len() - k,
{
    if k < rules.len() {
        law_first_match(line, rules, compiled, k + 1);
    }
}

/// The event that a rule makes of a line.
pub open spec fn event_from(line: RawLogLine, rule: EventConfig) -> EventView {
    EventView {
        timestamp: match line.timestamp {
            Some(t) => t@,
            None => "1970-01-01T00:00:00Z"@,
        },
        level: rule.level,
        event_type: rule.event_type@,
        fingerprint: fingerprint_of(rule.event_type@, rule.level),
        raw_line: Some(line.content@),
    }
}

/// The classification of a line: the event of the first matching rule.
pub open spec fn classification_of(
    line: RawLogLine,
    rules: Seq<EventConfig>,
    compiled: CompiledRules,
) -> Option<EventView> {
    let k = first_match_from(line.content@, rules, compiled, 0);
    if k < 0 {
        None
    } else {
        Some(event_from(line, rules[k]))
    }
}

/// The events of a stream of lines: unmatched lines are dropped, order kept.
pub open spec fn stream_events(
    lines: Seq<RawLogLine>,
    rules: Seq<EventConfig>,
    compiled: CompiledRules,
) -> Seq<EventView>
    decreases lines.len(),
{
    if lines.len() == 0 {
        Seq::empty()
    } else {
        let prev = stream_events(lines.drop_last(), rules, compiled);
        match classification_of(lines.last(), rules, compiled) {
            Some(e) => prev.push(e),
            None => prev,
        }
    }
}

proof fn lemma_rule_holds_same_cache(line: Seq<char>, r: MatchRule, c1: CompiledRules, c2: CompiledRules)
    requires
        forall|p: Seq<char>| #[trigger] c1.has(p) == c2.has(p),
    ensures
        rule_holds(line, r, c1) == rule_holds(line, r, c2),
{
    assert forall|cond: MatchCondition| #[trigger]
        condition_holds(line, cond, c1) == condition_holds(line, cond, c2) by {
        if cond.regex is Some {
            assert(c1.has(cond.regex->Some_0@) == c2.has(cond.regex->Some_0@));
        }
    }
    assert(some_condition_holds(line, r.any@, c1) == some_condition_holds(line, r.any@, c2));
    assert(every_condition_holds(line, r.all@, c1) == every_condition_holds(line, r.all@, c2));
    assert(some_condition_holds(line, r.none@, c1) == some_condition_holds(line, r.none@, c2));
}

proof fn lemma_first_match_same_cache(
    line: Seq<char>,
    rules: Seq<EventConfig>,
    c1: CompiledRules,
    c2: CompiledRules,
    k: int,
)
    requires
        forall|p: Seq<char>| #[trigger] c1.has(p) == c2.has(p),
    ensures
        first_match_from(line, rules, c1, k) == first_match_from(line, rules, c2, k),
    decreases rules.len() - k,
{
    if 0 <= k < rules.len() {
        lemma_rule_holds_same_cache(line, rules[k].match_rule, c1, c2);
        lemma_first_match_same_cache(line, rules, c1, c2, k + 1);
    }
}

/// Classification is deterministic: two pattern caches built from the same
/// rules (each holding exactly the rules' patterns that compile) turn every
/// stream of lines into the same events.
pub proof fn law_classification_deterministic(
    lines: Seq<RawLogLine>,
    rules: Seq<EventConfig>,
    c1: CompiledRules,
    c2: CompiledRules,
)
    requires
        c1.holds_exactly(rules),
        c2.holds_exactly(rules),
    ensures
        stream_events(lines, rules, c1) == stream_events(lines, rules, c2),
    decreases lines.len(),
{
    assert forall|p: Seq<char>| #[trigger] c1.has(p) == c2.has(p) by {
        assert(c1.has(p) <==> (regex_compiles(p) && rules_mention(rules, p)));
        assert(c2.has(p) <==> (regex_compiles(p) && rules_mention(rules, p)));
    }
    if lines.len() > 0 {
        law_classification_deterministic(lines.drop_last(), rules, c1, c2);
        lemma_first_match_same_cache(lines.last().content@, rules, c1, c2, 0);
    }
}

/// Checks a single condition against a line.
fn condition_matches(line: &str, chars: &Vec<char>, condition: &MatchCondition, compiled: &CompiledRules) -> (b: bool)
    requires
        chars@ == line@,
    ensures
        b == condition_holds(line@, *condition, *compiled),
{
    if let Some(substr) = &condition.contains {
        let needle = chars_of(substr.as_str());
        if contains_chars(chars, &needle) {
            return true;
        }
    }
    if let Some(pattern) = &condition.regex {
        if compiled.has_pattern(pattern) {
            if regex_is_match(pattern.as_str(), line) {
                return true;
            }
        }
    }
    false
}

fn any_condition(line: &str, chars: &Vec<char>, conds: &Vec<MatchCondition>, compiled: &CompiledRules) -> (b: bool)
    requires
        chars@ == line@,
    ensures
        b == some_condition_holds(line@, conds@, *compiled),
{
    let mut i: usize = 0;
    while i < conds.len()
        invariant
            i <= conds@.len(),
            chars@ == line@,
            forall|j: int| 0 <= j < i ==> !condition_holds(line@, #[trigger] conds@[j], *compiled),
        decreases conds.len() - i,
    {
        if condition_matches(line, chars, &conds[i], compiled) {
            return true;
        }
        i = i + 1;
    }
    false
}

fn every_condition(line: &str, chars: &Vec<char>, conds: &Vec<MatchCondition>, compiled: &CompiledRules) -> (b: bool)
    requires
        chars@ == line@,
    ensures
        b == every_condition_holds(line@, conds@, *compiled),
{
    let mut i: usize = 0;
    while i < conds.len()
        invariant
            i <= conds@.len(),
            chars@ == line@,
            forall|j: int| 0 <= j < i ==> condition_holds(line@, #[trigger] conds@[j], *compiled),
        decreases conds.len() - i,
    {
        if !condition_matches(line, chars, &conds[i], compiled) {
            return false;
        }
        i = i + 1;
    }
    true
}

/// Checks whether a line matches a rule's match conditions.
fn matches_rule(line: &str, chars: &Vec<char>, rule: &MatchRule, compiled: &CompiledRules) -> (b: bool)
    requires
        chars@ == line@,
    ensures
        b == rule_holds(line@, *rule, *compiled),
{
    let any_match = if rule.any.len() == 0 {
        true
    } else {
        any_condition(line, chars, &rule.any, compiled)
    };
    let all_match = if rule.all.len() == 0 {
        true
    } else {
        every_condition(line, chars, &rule.all, compiled)
    };
    let none_match = if rule.none.len() == 0 {
        true
    } else {
        !any_condition(line, chars, &rule.none, compiled)
    };
    any_match && all_match && none_match
}

/// Classifies a raw log line against a list of event rules.
///
/// First match wins: the first matching rule produces the event. Unmatched
/// lines give `None`.
pub fn classify_line(line: &RawLogLine, rules: &[EventConfig], compiled: &CompiledRules) -> (r: Option<
    CanonicalEvent,
>)
    ensures
        match r {
            Some(e) => classification_of(*line, rules@, *compiled) == Some(e@),
            None => classification_of(*line, rules@, *compiled) is None,
        },
{
    let chars = chars_of(line.content.as_str());
    let mut i: usize = 0;
    while i < rules.len()
        invariant
            i <= rules@.len(),
            chars@ == line.content@,
            first_match_from(line.content@, rules@, *compiled, 0) == first_match_from(
                line.content@,
                rules@,
                *compiled,
                i as int,
            ),
        decreases rules.len() - i,
    {
        let rule = &rules[i];
        if matches_rule(line.content.as_str(), &chars, &rule.match_rule, compiled) {
            let timestamp = match &line.timestamp {
                Some(t) => t.clone(),
                None => String::from_str("1970-01-01T00:00:00Z"),
            };
            let e = CanonicalEvent {
                timestamp,
                level: rule.level,
                event_type: rule.event_type.clone(),
                fingerprint: fingerprint(rule.event_type.as_str(), &rule.level),
                raw_line: Some(line.content.clone()),
            };
            assert(e@ == event_from(*line, rules@[i as int]));
            return Some(e);
        }
        i = i + 1;
    }
    None
}

/// Classifies every line of a stream, keeping only the matched events, in
/// order.
pub fn classify_stream(lines: &[RawLogLine], rules: &[EventConfig]) -> (r: Vec<CanonicalEvent>)
    ensures
        exists|c: CompiledRules|
            c.holds_exactly(rules@) && r@.map_values(|e: CanonicalEvent| e@) == stream_events(
                lines@,
                rules@,
                c,
            ),
{
    let compiled = CompiledRules::new(rules);
    let mut out: Vec<CanonicalEvent> = Vec::new();
    let mut i: usize = 0;
    while i < lines.len()
        invariant
            i <= lines@.len(),
            out@.map_values(|e: CanonicalEvent| e@) == stream_events(
                lines@.take(i as int),
                rules@,
                compiled,
            ),
        decreases lines.len() - i,
    {
        let ghost before = out@;
        assert(lines@.take(i + 1).drop_last() =~= lines@.take(i as int));
        assert(lines@.take(i + 1).last() == lines@[i as int]);
        match classify_line(&lines[i], rules, &compiled) {
            Some(e) => {
                out.push(e);
                assert(out@.map_values(|e: CanonicalEvent| e@) =~= before.map_values(
                    |e: CanonicalEvent| e@,
                ).push(e@));
            },
            None => {},
        }
        i = i + 1;
    }
    assert(lines@.take(lines@.len() as int) =~= lines@);
    out
}

} // verus!
