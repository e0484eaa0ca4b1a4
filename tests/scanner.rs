use script_audit::analyzer::{AutomationScriptAnalyzer, Finding};

fn strings(items: &[&str]) -> Vec<String> {
    items.iter().map(|s| s.to_string()).collect()
}

fn echo_policy() -> AutomationScriptAnalyzer {
    let mut a = AutomationScriptAnalyzer::new("script.txt".to_string());
    a.add_allowed_function("echo".to_string(), strings(&["hello", "world"]));
    a
}

fn unauthorized(name: &str) -> Finding {
    Finding::UnauthorizedArgument(name.to_string())
}

#[test]
fn allowed_argument_gives_no_finding() {
    let a = echo_policy();
    assert_eq!(a.analyze_text("echo hello"), vec![]);
    assert_eq!(a.analyze_text("echo world"), vec![]);
}

#[test]
fn unauthorized_argument_is_flagged() {
    let a = echo_policy();
    assert_eq!(a.analyze_text("echo goodbye"), vec![unauthorized("echo")]);
}

#[test]
fn sensitive_pattern_is_flagged() {
    let mut a = AutomationScriptAnalyzer::new("script.txt".to_string());
    a.add_sensitive_data_regex("password".to_string());
    assert_eq!(a.analyze_text("set password=123"), vec![Finding::SensitiveData]);
}

#[test]
fn rule_finding_comes_before_pattern_finding() {
    let mut a = echo_policy();
    a.add_sensitive_data_regex("password".to_string());
    assert_eq!(
        a.analyze_text("echo password"),
        vec![unauthorized("echo"), Finding::SensitiveData]
    );
}

#[test]
fn empty_text_gives_no_findings() {
    let mut a = echo_policy();
    a.add_allowed_function("".to_string(), vec![]);
    a.add_sensitive_data_regex("".to_string());
    assert_eq!(a.analyze_text(""), vec![]);
}

#[test]
fn unmentioned_function_gives_no_finding() {
    let a = echo_policy();
    assert_eq!(a.analyze_text("ls goodbye"), vec![]);
    assert_eq!(a.analyze_text("ech goodbye"), vec![]);
}

#[test]
fn function_name_matches_as_substring() {
    let a = echo_policy();
    assert_eq!(a.analyze_text("techo goodbye"), vec![unauthorized("echo")]);
    assert_eq!(a.analyze_text("techo hello"), vec![]);
}

#[test]
fn first_token_is_not_an_argument() {
    let a = echo_policy();
    assert_eq!(a.analyze_text("hello echo"), vec![unauthorized("echo")]);
    assert_eq!(a.analyze_text("run echo hello"), vec![]);
}

#[test]
fn arguments_match_exactly() {
    let a = echo_policy();
    assert_eq!(a.analyze_text("echo hello2"), vec![unauthorized("echo")]);
    assert_eq!(a.analyze_text("echo hell"), vec![unauthorized("echo")]);
    assert_eq!(a.analyze_text("echo goodbye world"), vec![]);
}

#[test]
fn line_without_arguments_is_flagged() {
    let a = echo_policy();
    assert_eq!(a.analyze_text("echo"), vec![unauthorized("echo")]);
}

#[test]
fn empty_allowed_arguments_flag_every_call() {
    let mut a = AutomationScriptAnalyzer::new("script.txt".to_string());
    a.add_allowed_function("rm".to_string(), vec![]);
    assert_eq!(a.analyze_text("rm -rf /"), vec![unauthorized("rm")]);
    assert_eq!(a.analyze_text("ls"), vec![]);
}

#[test]
fn whitespace_runs_separate_tokens() {
    let a = echo_policy();
    assert_eq!(a.analyze_text("  echo \t  hello  "), vec![]);
    assert_eq!(a.analyze_text("echo\u{3000}hello"), vec![]);
    assert_eq!(a.analyze_text("echo\u{a0}world"), vec![]);
}

#[test]
fn carriage_return_stays_in_line() {
    let a = echo_policy();
    assert_eq!(a.analyze_text("echo hello\r\n"), vec![]);
    assert_eq!(a.analyze_text("echo x\rhello"), vec![]);
    let mut b = AutomationScriptAnalyzer::new("script.txt".to_string());
    b.add_sensitive_data_regex("\r".to_string());
    assert_eq!(a.analyze_text("a\r\nb").len(), 0);
    assert_eq!(b.analyze_text("a\r\nb"), vec![Finding::SensitiveData]);
}

#[test]
fn each_line_is_scanned() {
    let a = echo_policy();
    assert_eq!(
        a.analyze_text("echo goodbye\necho hello\necho x"),
        vec![unauthorized("echo"), unauthorized("echo")]
    );
}

#[test]
fn empty_pattern_matches_every_line() {
    let mut a = AutomationScriptAnalyzer::new("script.txt".to_string());
    a.add_sensitive_data_regex("".to_string());
    assert_eq!(a.analyze_text("x"), vec![Finding::SensitiveData]);
    assert_eq!(
        a.analyze_text("a\n"),
        vec![Finding::SensitiveData, Finding::SensitiveData]
    );
    assert_eq!(
        a.analyze_text("\n\n"),
        vec![Finding::SensitiveData, Finding::SensitiveData, Finding::SensitiveData]
    );
}

#[test]
fn each_matching_pattern_gives_a_finding() {
    let mut a = AutomationScriptAnalyzer::new("script.txt".to_string());
    a.add_sensitive_data_regex("pass".to_string());
    a.add_sensitive_data_regex("pass".to_string());
    a.add_sensitive_data_regex("token".to_string());
    assert_eq!(
        a.analyze_text("pass=1"),
        vec![Finding::SensitiveData, Finding::SensitiveData]
    );
    assert_eq!(a.analyze_text("pas"), vec![]);
}

#[test]
fn patterns_are_literal() {
    let mut a = AutomationScriptAnalyzer::new("script.txt".to_string());
    a.add_sensitive_data_regex("password.*".to_string());
    assert_eq!(a.analyze_text("password=1"), vec![]);
    assert_eq!(a.analyze_text("x password.* y"), vec![Finding::SensitiveData]);
}

#[test]
fn reregistering_replaces_rule() {
    let mut a = AutomationScriptAnalyzer::new("script.txt".to_string());
    a.add_allowed_function("x".to_string(), strings(&["a"]));
    a.add_allowed_function("x".to_string(), strings(&["b"]));
    assert_eq!(a.analyze_text("x b"), vec![]);
    assert_eq!(a.analyze_text("x a"), vec![unauthorized("x")]);
}

#[test]
fn rules_report_in_registration_order() {
    let mut a = AutomationScriptAnalyzer::new("script.txt".to_string());
    a.add_allowed_function("cp".to_string(), strings(&["a"]));
    a.add_allowed_function("scp".to_string(), strings(&["b"]));
    a.add_allowed_function("cp".to_string(), strings(&["c"]));
    assert_eq!(
        a.analyze_text("scp z"),
        vec![unauthorized("cp"), unauthorized("scp")]
    );
    assert_eq!(a.analyze_text("scp c"), vec![unauthorized("scp")]);
}

#[test]
fn scanning_twice_gives_same_findings() {
    let mut a = echo_policy();
    a.add_sensitive_data_regex("secret".to_string());
    let text = "echo secret\necho hello\nprint secret";
    let first = a.analyze_text(text);
    let second = a.analyze_text(text);
    assert_eq!(first, second);
    assert_eq!(
        first,
        vec![unauthorized("echo"), Finding::SensitiveData, Finding::SensitiveData]
    );
}

#[test]
fn messages_match_reported_text() {
    assert_eq!(
        unauthorized("echo").message(),
        "Warning: echo function has unauthorized argument"
    );
    assert_eq!(
        Finding::SensitiveData.message(),
        "Warning: Sensitive data detected in script"
    );
}

#[test]
fn script_path_is_kept() {
    let a = AutomationScriptAnalyzer::new("path/to/script.txt".to_string());
    assert_eq!(a.script_path(), "path/to/script.txt");
}
