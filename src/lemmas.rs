//! Laws of the policy scanner, stated over its model and proved.
use vstd::prelude::*;

use crate::analyzer::{
    authorized, has_rule, line_findings, names_distinct, pattern_findings, register, rule_findings, scan,
    FindingView, RuleView,
};
use crate::text::{contains, occurs_at};

verus! {

/// The predicate "equals `f`".
pub open spec fn is_finding(f: FindingView) -> spec_fn(FindingView) -> bool {
    |g: FindingView| g == f
}

/// How many times `f` occurs in `s`.
pub open spec fn count_of(s: Seq<FindingView>, f: FindingView) -> nat {
    s.filter(is_finding(f)).len()
}

/// The predicate "is a substring of `line`".
pub open spec fn found_in(line: Seq<char>) -> spec_fn(Seq<char>) -> bool {
    |p: Seq<char>| contains(line, p)
}

/// The rule fires on `line`: the line mentions its name and passes none of
/// its allowed arguments.
pub open spec fn fires(line: Seq<char>, rule: RuleView) -> bool {
    contains(line, rule.0) && !authorized(line, rule.1)
}

proof fn lemma_count_push(s: Seq<FindingView>, x: FindingView, f: FindingView)
    ensures
        count_of(s.push(x), f) == count_of(s, f) + if x == f {
            1nat
        } else {
            0nat
        },
{
    s.lemma_filter_push(x, is_finding(f));
}

proof fn lemma_count_add(a: Seq<FindingView>, b: Seq<FindingView>, f: FindingView)
    ensures
        count_of(a + b, f) == count_of(a, f) + count_of(b, f),
{
    Seq::filter_distributes_over_add(a, b, is_finding(f));
}

/// No rule with the name `name` fires on `line`, so no finding names it.
proof fn lemma_rule_count_silent(line: Seq<char>, rules: Seq<RuleView>, name: Seq<char>)
    requires
        forall|i: int| 0 <= i < rules.len() && rules[i].0 == name ==> !fires(line, rules[i]),
    ensures
        count_of(rule_findings(line, rules), FindingView::UnauthorizedArgument(name)) == 0,
    decreases rules.len(),
{
    let f = FindingView::UnauthorizedArgument(name);
    if rules.len() == 0 {
        assert(rule_findings(line, rules).filter(is_finding(f)) =~= Seq::empty()) by {
            reveal(Seq::filter);
        }
    } else {
        let p = rules.drop_last();
        lemma_rule_count_silent(line, p, name);
        let pf = rule_findings(line, p);
        lemma_count_push(pf, FindingView::UnauthorizedArgument(rules.last().0), f);
        assert(rules.last() == rules[rules.len() - 1]);
    }
}

/// Among the findings of distinct rules, the rule at `i` gives one finding
/// naming it if it fires on `line`, and none otherwise.
proof fn lemma_rule_count(line: Seq<char>, rules: Seq<RuleView>, i: int)
    requires
        names_distinct(rules),
        0 <= i < rules.len(),
    ensures
        count_of(rule_findings(line, rules), FindingView::UnauthorizedArgument(rules[i].0)) == if fires(
            line,
            rules[i],
        ) {
            1nat
        } else {
            0nat
        },
    decreases rules.len(),
{
    let name = rules[i].0;
    let f = FindingView::UnauthorizedArgument(name);
    let p = rules.drop_last();
    let pf = rule_findings(line, p);
    lemma_count_push(pf, FindingView::UnauthorizedArgument(rules.last().0), f);
    if i == rules.len() - 1 {
        lemma_rule_count_silent(line, p, name);
    } else {
        assert(p[i] == rules[i]);
        lemma_rule_count(line, p, i);
    }
}

/// The sensitive patterns give no finding that names a function.
proof fn lemma_patterns_name_no_function(line: Seq<char>, patterns: Seq<Seq<char>>, name: Seq<char>)
    ensures
        count_of(pattern_findings(line, patterns), FindingView::UnauthorizedArgument(name)) == 0,
    decreases patterns.len(),
{
    let f = FindingView::UnauthorizedArgument(name);
    if patterns.len() == 0 {
        assert(pattern_findings(line, patterns).filter(is_finding(f)) =~= Seq::empty()) by {
            reveal(Seq::filter);
        }
    } else {
        lemma_patterns_name_no_function(line, patterns.drop_last(), name);
        lemma_count_push(
            pattern_findings(line, patterns.drop_last()),
            FindingView::SensitiveData,
            f,
        );
    }
}

/// The function rules give no sensitive-data finding.
proof fn lemma_rules_no_sensitive(line: Seq<char>, rules: Seq<RuleView>)
    ensures
        count_of(rule_findings(line, rules), FindingView::SensitiveData) == 0,
    decreases rules.len(),
{
    let f = FindingView::SensitiveData;
    if rules.len() == 0 {
        assert(rule_findings(line, rules).filter(is_finding(f)) =~= Seq::empty()) by {
            reveal(Seq::filter);
        }
    } else {
        lemma_rules_no_sensitive(line, rules.drop_last());
        lemma_count_push(
            rule_findings(line, rules.drop_last()),
            FindingView::UnauthorizedArgument(rules.last().0),
            f,
        );
    }
}

/// Each sensitive pattern contained in `line` gives one sensitive-data
/// finding.
proof fn lemma_pattern_count(line: Seq<char>, patterns: Seq<Seq<char>>)
    ensures
        count_of(pattern_findings(line, patterns), FindingView::SensitiveData) == patterns.filter(
            found_in(line),
        ).len(),
    decreases patterns.len(),
{
    let f = FindingView::SensitiveData;
    if patterns.len() == 0 {
        assert(pattern_findings(line, patterns).filter(is_finding(f)) =~= Seq::empty()) by {
            reveal(Seq::filter);
        }
        assert(patterns.filter(found_in(line)) =~= Seq::empty()) by {
            reveal(Seq::filter);
        }
    } else {
        let p = patterns.drop_last();
        lemma_pattern_count(line, p);
        lemma_count_push(pattern_findings(line, p), FindingView::SensitiveData, f);
        assert(p.push(patterns.last()) =~= patterns);
        p.lemma_filter_push(patterns.last(), found_in(line));
    }
}

/// A line that does not contain a function's name gives no finding naming
/// that function, whatever the policy.
pub proof fn lemma_unmentioned_function_not_flagged(
    line: Seq<char>,
    rules: Seq<RuleView>,
    patterns: Seq<Seq<char>>,
    name: Seq<char>,
)
    requires
        !contains(line, name),
    ensures
        !line_findings(line, rules, patterns).contains(FindingView::UnauthorizedArgument(name)),
{
    let f = FindingView::UnauthorizedArgument(name);
    let s = line_findings(line, rules, patterns);
    lemma_rule_count_silent(line, rules, name);
    lemma_patterns_name_no_function(line, patterns, name);
    lemma_count_add(rule_findings(line, rules), pattern_findings(line, patterns), f);
    if s.contains(f) {
        s.lemma_filter_contains_rev(is_finding(f), f);
        assert(s.filter(is_finding(f)).contains(f));
    }
}

/// On a line that contains a registered function's name, the rule gives
/// exactly one finding naming the function when no token after the first
/// is one of its allowed arguments, and none when one is.
pub proof fn lemma_rule_flags_once(
    line: Seq<char>,
    rules: Seq<RuleView>,
    patterns: Seq<Seq<char>>,
    i: int,
)
    requires
        names_distinct(rules),
        0 <= i < rules.len(),
        contains(line, rules[i].0),
    ensures
        count_of(line_findings(line, rules, patterns), FindingView::UnauthorizedArgument(rules[i].0))
            == if authorized(line, rules[i].1) {
            0nat
        } else {
            1nat
        },
{
    let f = FindingView::UnauthorizedArgument(rules[i].0);
    lemma_rule_count(line, rules, i);
    lemma_patterns_name_no_function(line, patterns, rules[i].0);
    lemma_count_add(rule_findings(line, rules), pattern_findings(line, patterns), f);
}

/// A line gives one sensitive-data finding for each registered pattern that
/// it contains as a substring, and no other.
pub proof fn lemma_sensitive_findings_match_patterns(
    line: Seq<char>,
    rules: Seq<RuleView>,
    patterns: Seq<Seq<char>>,
)
    ensures
        count_of(line_findings(line, rules, patterns), FindingView::SensitiveData)
            == patterns.filter(found_in(line)).len(),
{
    let f = FindingView::SensitiveData;
    lemma_rules_no_sensitive(line, rules);
    lemma_pattern_count(line, patterns);
    lemma_count_add(rule_findings(line, rules), pattern_findings(line, patterns), f);
}

/// The empty pattern is contained in every line.
pub proof fn lemma_empty_pattern_matches_every_line(line: Seq<char>)
    ensures
        contains(line, Seq::empty()),
{
    assert(line.subrange(0, 0) =~= Seq::<char>::empty());
    assert(occurs_at(line, Seq::empty(), 0));
}

/// Registering a function name a second time replaces its first rule: the
/// policy is as if only the second registration had been made.
pub proof fn lemma_reregister_replaces(
    rules: Seq<RuleView>,
    name: Seq<char>,
    first: Seq<Seq<char>>,
    second: Seq<Seq<char>>,
)
    requires
        names_distinct(rules),
    ensures
        register(register(rules, name, first), name, second) == register(rules, name, second),
        names_distinct(register(rules, name, second)),
{
    let r1 = register(rules, name, first);
    if has_rule(rules, name) {
        let i = choose|i: int| 0 <= i < rules.len() && rules[i].0 == name;
        assert(r1[i].0 == name);
        let j = choose|j: int| 0 <= j < r1.len() && r1[j].0 == name;
        assert(j == i);
        assert(register(r1, name, second) =~= register(rules, name, second));
    } else {
        assert(r1[rules.len() as int].0 == name);
        let j = choose|j: int| 0 <= j < r1.len() && r1[j].0 == name;
        assert(j == rules.len());
        assert(register(r1, name, second) =~= register(rules, name, second));
    }
}

/// Scanning the same text twice under the same policy gives the same
/// findings.
pub proof fn lemma_scan_repeatable(
    text: Seq<char>,
    rules: Seq<RuleView>,
    patterns: Seq<Seq<char>>,
    first: Seq<FindingView>,
    second: Seq<FindingView>,
)
    requires
        first == scan(text, rules, patterns),
        second == scan(text, rules, patterns),
    ensures
        first == second,
{
}

/// The empty text gives no findings, whatever the policy.
pub proof fn lemma_empty_text_no_findings(rules: Seq<RuleView>, patterns: Seq<Seq<char>>)
    ensures
        scan(Seq::empty(), rules, patterns) == Seq::<FindingView>::empty(),
{
}

} // verus!
