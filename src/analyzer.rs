//! The policy scanner: a policy of allowed function arguments and sensitive
//! patterns, and the line-by-line evaluation of script text against it.
use vstd::prelude::*;

use crate::text::{chars_of, contains, contains_chars, lines_of, split_lines, split_tokens, tokens, views};

verus! {

/// A warning raised by a scan.
#[derive(Debug, PartialEq, Eq)]
pub enum Finding {
    /// A line mentions the named function but passes none of its allowed
    /// arguments.
    UnauthorizedArgument(String),
    /// A line contains a sensitive pattern.
    SensitiveData,
}

/// The mathematical value of a [`Finding`].
pub enum FindingView {
    UnauthorizedArgument(Seq<char>),
    SensitiveData,
}

impl View for Finding {
    type V = FindingView;

    open spec fn view(&self) -> FindingView {
        match self {
            Finding::UnauthorizedArgument(name) => FindingView::UnauthorizedArgument(name@),
            Finding::SensitiveData => FindingView::SensitiveData,
        }
    }
}

/// The warning line reported for a finding.
pub open spec fn message_of(f: FindingView) -> Seq<char> {
    match f {
        FindingView::UnauthorizedArgument(name) => "Warning: "@ + name
            + " function has unauthorized argument"@,
        FindingView::SensitiveData => "Warning: Sensitive data detected in script"@,
    }
}

impl Finding {
    /// The warning line reported for this finding.
    pub fn message(&self) -> (r: String)
        ensures
            r@ == message_of(self@),
    {
        match self {
            Finding::UnauthorizedArgument(name) => {
                let mut m = String::from_str("Warning: ");
                m.append(name.as_str());
                m.append(" function has unauthorized argument");
                m
            },
            Finding::SensitiveData => String::from_str("Warning: Sensitive data detected in script"),
        }
    }
}

/// The views of a sequence of findings.
pub open spec fn finding_views(s: Seq<Finding>) -> Seq<FindingView> {
    s.map_values(|f: Finding| f@)
}

/// A registered rule: a function name and the arguments allowed with it.
pub type RuleView = (Seq<char>, Seq<Seq<char>>);

/// No two rules carry the same function name.
pub open spec fn names_distinct(rules: Seq<RuleView>) -> bool {
    forall|i: int, j: int| 0 <= i < j < rules.len() ==> rules[i].0 != rules[j].0
}

/// Some rule carries the function name `name`.
pub open spec fn has_rule(rules: Seq<RuleView>, name: Seq<char>) -> bool {
    exists|i: int| 0 <= i < rules.len() && rules[i].0 == name
}

/// The rules after registering `name` with `allowed`: an existing rule for
/// `name` is replaced in place, otherwise the rule is appended.
pub open spec fn register(rules: Seq<RuleView>, name: Seq<char>, allowed: Seq<Seq<char>>) -> Seq<
    RuleView,
> {
    if has_rule(rules, name) {
        let i = choose|i: int| 0 <= i < rules.len() && rules[i].0 == name;
        rules.update(i, (name, allowed))
    } else {
        rules.push((name, allowed))
    }
}

/// Some token after the first of `toks` equals some member of `allowed`.
pub open spec fn accepts(toks: Seq<Seq<char>>, allowed: Seq<Seq<char>>) -> bool {
    exists|k: int, j: int| 1 <= k < toks.len() && 0 <= j < allowed.len() && toks[k] == allowed[j]
}

/// The arguments of `line` (its whitespace tokens after the first) include
/// some member of `allowed`.
pub open spec fn authorized(line: Seq<char>, allowed: Seq<Seq<char>>) -> bool {
    accepts(tokens(line), allowed)
}

/// The findings of the function rules on one line, in rule order.
pub open spec fn rule_findings(line: Seq<char>, rules: Seq<RuleView>) -> Seq<FindingView>
    decreases rules.len(),
{
    if rules.len() == 0 {
        Seq::empty()
    } else {
        let p = rule_findings(line, rules.drop_last());
        let rule = rules.last();
        if contains(line, rule.0) && !authorized(line, rule.1) {
            p.push(FindingView::UnauthorizedArgument(rule.0))
        } else {
            p
        }
    }
}

/// The findings of the sensitive patterns on one line, in pattern order.
pub open spec fn pattern_findings(line: Seq<char>, patterns: Seq<Seq<char>>) -> Seq<FindingView>
    decreases patterns.len(),
{
    if patterns.len() == 0 {
        Seq::empty()
    } else {
        let p = pattern_findings(line, patterns.drop_last());
        if contains(line, patterns.last()) {
            p.push(FindingView::SensitiveData)
        } else {
            p
        }
    }
}

/// The findings on one line: those of the function rules, then those of the
/// sensitive patterns.
pub open spec fn line_findings(line: Seq<char>, rules: Seq<RuleView>, patterns: Seq<Seq<char>>) -> Seq<
    FindingView,
> {
    rule_findings(line, rules) + pattern_findings(line, patterns)
}

/// The findings on a sequence of lines, in line order.
pub open spec fn lines_findings(
    lines: Seq<Seq<char>>,
    rules: Seq<RuleView>,
    patterns: Seq<Seq<char>>,
) -> Seq<FindingView>
    decreases lines.len(),
{
    if lines.len() == 0 {
        Seq::empty()
    } else {
        lines_findings(lines.drop_last(), rules, patterns) + line_findings(
            lines.last(),
            rules,
            patterns,
        )
    }
}

/// The findings of a scan of `text`.
pub open spec fn scan(text: Seq<char>, rules: Seq<RuleView>, patterns: Seq<Seq<char>>) -> Seq<
    FindingView,
> {
    lines_findings(lines_of(text), rules, patterns)
}

/// Whether two character sequences are equal.
fn chars_eq(a: &Vec<char>, b: &Vec<char>) -> (r: bool)
    ensures
        r == (a@ == b@),
{
    if a.len() != b.len() {
        return false;
    }
    let mut i: usize = 0;
    while i < a.len()
        invariant
            a@.len() == b@.len(),
            i <= a@.len(),
            forall|k: int| 0 <= k < i ==> a@[k] == b@[k],
        decreases a@.len() - i,
    {
        if a[i] != b[i] {
            return false;
        }
        i = i + 1;
    }
    assert(a@ =~= b@);
    true
}

/// Whether some token after the first of `toks` is a member of `allowed`.
fn accepts_chars(toks: &Vec<Vec<char>>, allowed: &Vec<Vec<char>>) -> (r: bool)
    ensures
        r == accepts(views(toks@), views(allowed@)),
{
    let mut k: usize = 1;
    while k < toks.len()
        invariant
            1 <= k,
            forall|kk: int, j: int|
                1 <= kk < k && kk < toks@.len() && 0 <= j < allowed@.len() ==> toks@[kk]@
                    != allowed@[j]@,
        decreases toks@.len() - k,
    {
        let mut j: usize = 0;
        while j < allowed.len()
            invariant
                1 <= k < toks@.len(),
                j <= allowed@.len(),
                forall|kk: int, jj: int|
                    1 <= kk < k && 0 <= jj < allowed@.len() ==> toks@[kk]@ != allowed@[jj]@,
                forall|jj: int| 0 <= jj < j ==> toks@[k as int]@ != allowed@[jj]@,
            decreases allowed@.len() - j,
        {
            if chars_eq(&toks[k], &allowed[j]) {
                assert(views(toks@)[k as int] == views(allowed@)[j as int]);
                return true;
            }
            j = j + 1;
        }
        k = k + 1;
    }
    false
}

/// The views of a sequence of strings.
pub open spec fn string_views(s: Seq<String>) -> Seq<Seq<char>> {
    s.map_values(|a: String| a@)
}

/// The view of a registered rule.
pub open spec fn rule_view(r: (String, Vec<String>)) -> RuleView {
    (r.0@, string_views(r.1@))
}

/// The view of a rule whose name and allowed arguments are held as
/// characters.
pub open spec fn prepared_view(p: (Vec<char>, Vec<Vec<char>>)) -> RuleView {
    (p.0@, views(p.1@))
}

/// The mathematical value of an [`AutomationScriptAnalyzer`]: where its
/// script comes from, and its policy.
pub struct AnalyzerView {
    pub script_path: Seq<char>,
    pub rules: Seq<RuleView>,
    pub patterns: Seq<Seq<char>>,
}

/// A policy of allowed function arguments and sensitive patterns, with the
/// identifier of the script it inspects.
pub struct AutomationScriptAnalyzer {
    script_path: String,
    allowed_functions: Vec<(String, Vec<String>)>,
    sensitive_data_regex: Vec<String>,
}

impl View for AutomationScriptAnalyzer {
    type V = AnalyzerView;

    closed spec fn view(&self) -> AnalyzerView {
        AnalyzerView {
            script_path: self.script_path@,
            rules: self.allowed_functions@.map_values(|r: (String, Vec<String>)| rule_view(r)),
            patterns: string_views(self.sensitive_data_regex@),
        }
    }
}

/// The characters of each string, in order.
fn chars_of_each(v: &Vec<String>) -> (r: Vec<Vec<char>>)
    ensures
        views(r@) == string_views(v@),
{
    let mut r: Vec<Vec<char>> = Vec::new();
    let mut i: usize = 0;
    while i < v.len()
        invariant
            i <= v@.len(),
            views(r@) == string_views(v@).take(i as int),
        decreases v@.len() - i,
    {
        let c = chars_of(v[i].as_str());
        assert(c@ == string_views(v@)[i as int]);
        let ghost r0 = views(r@);
        r.push(c);
        assert(views(r@) =~= r0.push(string_views(v@)[i as int]));
        i = i + 1;
        assert(views(r@) =~= string_views(v@).take(i as int));
    }
    assert(string_views(v@).take(i as int) =~= string_views(v@));
    r
}

impl AutomationScriptAnalyzer {
    /// The policy is well formed: no two rules carry the same function name.
    pub open spec fn wf(&self) -> bool {
        names_distinct(self@.rules)
    }

    /// A scanner for the script identified by `script_path`, with an empty
    /// policy.
    pub fn new(script_path: String) -> (r: AutomationScriptAnalyzer)
        ensures
            r.wf(),
            r@.script_path == script_path@,
            r@.rules == Seq::<RuleView>::empty(),
            r@.patterns == Seq::<Seq<char>>::empty(),
    {
        let r = AutomationScriptAnalyzer {
            script_path,
            allowed_functions: Vec::new(),
            sensitive_data_regex: Vec::new(),
        };
        assert(r@.rules =~= Seq::<RuleView>::empty());
        assert(r@.patterns =~= Seq::<Seq<char>>::empty());
        r
    }

    /// The identifier of the script this scanner inspects.
    pub fn script_path(&self) -> (r: &String)
        ensures
            r@ == self@.script_path,
    {
        &self.script_path
    }

    /// Registers `function_name` with the arguments allowed with it,
    /// replacing any earlier rule for the same name.
    pub fn add_allowed_function(&mut self, function_name: String, allowed_args: Vec<String>)
        requires
            old(self).wf(),
        ensures
            final(self).wf(),
            final(self)@.script_path == old(self)@.script_path,
            final(self)@.patterns == old(self)@.patterns,
            final(self)@.rules == register(
                old(self)@.rules,
                function_name@,
                string_views(allowed_args@),
            ),
    {
        let ghost rules0 = self@.rules;
        let ghost new_rule: RuleView = (function_name@, string_views(allowed_args@));
        let mut i: usize = 0;
        while i < self.allowed_functions.len()
            invariant
                i <= self.allowed_functions@.len(),
                self@ == old(self)@,
                rules0 == old(self)@.rules,
                new_rule == (function_name@, string_views(allowed_args@)),
                names_distinct(rules0),
                forall|k: int| 0 <= k < i ==> rules0[k].0 != function_name@,
            decreases self.allowed_functions@.len() - i,
        {
            if self.allowed_functions[i].0 == function_name {
                assert(rules0[i as int].0 == function_name@);
                proof {
                    let c = choose|c: int| 0 <= c < rules0.len() && rules0[c].0 == function_name@;
                    assert(c == i);
                }
                let ghost fs0 = self.allowed_functions@;
                self.allowed_functions.set(i, (function_name, allowed_args));
                assert(self.allowed_functions@ == fs0.update(i as int, self.allowed_functions@[i as int]));
                assert(rule_view(self.allowed_functions@[i as int]) == new_rule);
                assert(self@.rules =~= rules0.update(i as int, new_rule));
                return;
            }
            i = i + 1;
        }
        self.allowed_functions.push((function_name, allowed_args));
        assert(self@.rules =~= rules0.push(new_rule));
    }

    /// Appends `regex` to the sensitive patterns; it is matched as a literal
    /// substring.
    pub fn add_sensitive_data_regex(&mut self, regex: String)
        ensures
            final(self)@.script_path == old(self)@.script_path,
            final(self)@.rules == old(self)@.rules,
            final(self)@.patterns == old(self)@.patterns.push(regex@),
            old(self).wf() ==> final(self).wf(),
    {
        self.sensitive_data_regex.push(regex);
        assert(self@.patterns =~= old(self)@.patterns.push(regex@));
        assert(self@.rules =~= old(self)@.rules);
    }

    /// The rules with their name and allowed arguments as characters.
    fn prepared_rules(&self) -> (r: Vec<(Vec<char>, Vec<Vec<char>>)>)
        ensures
            r@.map_values(|p: (Vec<char>, Vec<Vec<char>>)| prepared_view(p)) == self@.rules,
    {
        let mut r: Vec<(Vec<char>, Vec<Vec<char>>)> = Vec::new();
        let mut i: usize = 0;
        while i < self.allowed_functions.len()
            invariant
                i <= self.allowed_functions@.len(),
                r@.map_values(|p: (Vec<char>, Vec<Vec<char>>)| prepared_view(p)) == self@.rules.take(
                    i as int,
                ),
            decreases self.allowed_functions@.len() - i,
        {
            let name = chars_of(self.allowed_functions[i].0.as_str());
            let allowed = chars_of_each(&self.allowed_functions[i].1);
            let ghost r0 = r@.map_values(|p: (Vec<char>, Vec<Vec<char>>)| prepared_view(p));
            r.push((name, allowed));
            assert(r@.map_values(|p: (Vec<char>, Vec<Vec<char>>)| prepared_view(p)) =~= r0.push(
                self@.rules[i as int],
            ));
            i = i + 1;
            assert(r0.push(self@.rules[i - 1]) =~= self@.rules.take(i as int));
        }
        assert(self@.rules.take(i as int) =~= self@.rules);
        r
    }

    /// Appends to `out` the findings on `line`.
    fn scan_line(
        &self,
        line: &Vec<char>,
        rules: &Vec<(Vec<char>, Vec<Vec<char>>)>,
        patterns: &Vec<Vec<char>>,
        out: &mut Vec<Finding>,
    )
        requires
            rules@.map_values(|p: (Vec<char>, Vec<Vec<char>>)| prepared_view(p)) == self@.rules,
            views(patterns@) == self@.patterns,
        ensures
            finding_views(final(out)@) == finding_views(old(out)@) + line_findings(
                line@,
                self@.rules,
                self@.patterns,
            ),
    {
        let ghost base = finding_views(out@);
        let toks = split_tokens(line);
        let mut j: usize = 0;
        assert(self@.rules.take(0) =~= Seq::<RuleView>::empty());
        assert(finding_views(out@) =~= base + rule_findings(line@, self@.rules.take(0)));
        while j < rules.len()
            invariant
                j <= rules@.len(),
                rules@.len() == self@.rules.len(),
                rules@.len() == self.allowed_functions@.len(),
                rules@.map_values(|p: (Vec<char>, Vec<Vec<char>>)| prepared_view(p)) == self@.rules,
                views(toks@) == tokens(line@),
                finding_views(out@) == base + rule_findings(line@, self@.rules.take(j as int)),
            decreases rules@.len() - j,
        {
            let ghost rule = self@.rules[j as int];
            assert(prepared_view(rules@[j as int]) == rule);
            assert(self@.rules.take(j + 1).drop_last() =~= self@.rules.take(j as int));
            assert(self@.rules.take(j + 1).last() == rule);
            let ghost f0 = finding_views(out@);
            if contains_chars(line, &rules[j].0) && !accepts_chars(&toks, &rules[j].1) {
                let name = self.allowed_functions[j].0.clone();
                assert(name@ == rule.0);
                out.push(Finding::UnauthorizedArgument(name));
                assert(finding_views(out@) =~= f0.push(FindingView::UnauthorizedArgument(rule.0)));
            }
            j = j + 1;
        }
        assert(self@.rules.take(j as int) =~= self@.rules);
        let ghost mid = finding_views(out@);
        let mut k: usize = 0;
        assert(self@.patterns.take(0) =~= Seq::<Seq<char>>::empty());
        assert(finding_views(out@) =~= mid + pattern_findings(line@, self@.patterns.take(0)));
        while k < patterns.len()
            invariant
                k <= patterns@.len(),
                views(patterns@) == self@.patterns,
                finding_views(out@) == mid + pattern_findings(line@, self@.patterns.take(k as int)),
            decreases patterns@.len() - k,
        {
            assert(self@.patterns.take(k + 1).drop_last() =~= self@.patterns.take(k as int));
            assert(self@.patterns.take(k + 1).last() == patterns@[k as int]@);
            let ghost f0 = finding_views(out@);
            if contains_chars(line, &patterns[k]) {
                out.push(Finding::SensitiveData);
                assert(finding_views(out@) =~= f0.push(FindingView::SensitiveData));
            }
            k = k + 1;
        }
        assert(self@.patterns.take(k as int) =~= self@.patterns);
        assert(finding_views(out@) =~= base + line_findings(line@, self@.rules, self@.patterns));
    }

    /// The findings of `text` under this policy: line by line, the findings
    /// of the function rules in registration order, then those of the
    /// sensitive patterns in registration order.
    pub fn analyze_text(&self, text: &str) -> (r: Vec<Finding>)
        ensures
            finding_views(r@) == scan(text@, self@.rules, self@.patterns),
    {
        let chars = chars_of(text);
        let lines = split_lines(&chars);
        let rules = self.prepared_rules();
        let patterns = chars_of_each(&self.sensitive_data_regex);
        let mut out: Vec<Finding> = Vec::new();
        let ghost ls = lines_of(text@);
        let mut i: usize = 0;
        assert(ls.take(0) =~= Seq::<Seq<char>>::empty());
        assert(finding_views(out@) =~= Seq::<FindingView>::empty());
        while i < lines.len()
            invariant
                i <= lines@.len(),
                views(lines@) == ls,
                rules@.map_values(|p: (Vec<char>, Vec<Vec<char>>)| prepared_view(p)) == self@.rules,
                views(patterns@) == self@.patterns,
                finding_views(out@) == lines_findings(ls.take(i as int), self@.rules, self@.patterns),
            decreases lines@.len() - i,
        {
            assert(ls.take(i + 1).drop_last() =~= ls.take(i as int));
            assert(ls.take(i + 1).last() == lines@[i as int]@);
            self.scan_line(&lines[i], &rules, &patterns, &mut out);
            i = i + 1;
        }
        assert(ls.take(i as int) =~= ls);
        out
    }
}

} // verus!
