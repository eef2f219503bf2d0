use llm_gateway::deny_list::DenyListCheckResult;
use llm_gateway::deny_list::SecurityPolicy;
use llm_gateway::deny_list::SecurityPolicyToml;
use llm_gateway::deny_list::check_command_against_deny_list;

fn make_policy(deny: Vec<&str>, forbidden: Vec<&str>) -> SecurityPolicy {
    SecurityPolicy::from_toml(&SecurityPolicyToml {
        deny_commands: Some(deny.into_iter().map(String::from).collect()),
        forbidden_commands: Some(forbidden.into_iter().map(String::from).collect()),
    })
}

#[test]
fn test_allowed_command_passes() {
    let policy = make_policy(vec![r"rm\s+-rf"], vec![]);
    let result = check_command_against_deny_list(&vec!["ls".into(), "-la".into()], &policy);
    assert_eq!(result, DenyListCheckResult::Allowed);
}

#[test]
fn test_forbidden_command_detected() {
    let policy = make_policy(vec![], vec![r"rm\s+-rf\s+/"]);
    let result = check_command_against_deny_list(
        &vec!["rm".into(), "-rf".into(), "/".into()],
        &policy,
    );
    assert!(matches!(result, DenyListCheckResult::Forbidden { .. }));
    if let DenyListCheckResult::Forbidden { matched_pattern } = result {
        assert_eq!(matched_pattern, r"rm\s+-rf\s+/");
    }
}

#[test]
fn test_deny_command_requires_approval() {
    let policy = make_policy(vec![r"git\s+push\s+--force"], vec![]);
    let result = check_command_against_deny_list(
        &vec!["git".into(), "push".into(), "--force".into()],
        &policy,
    );
    assert!(matches!(result, DenyListCheckResult::RequiresApproval { .. }));
}

#[test]
fn test_forbidden_takes_precedence_over_deny() {
    // If a command matches both forbidden and deny, forbidden wins
    let policy = make_policy(vec![r"rm"], vec![r"rm"]);
    let result = check_command_against_deny_list(&vec!["rm".into(), "file.txt".into()], &policy);
    assert!(matches!(result, DenyListCheckResult::Forbidden { .. }));
}

#[test]
fn test_bash_wrapped_command_detected() {
    let policy = make_policy(vec![r"git\s+reset\s+--hard"], vec![]);
    let result = check_command_against_deny_list(
        &vec!["bash".into(), "-lc".into(), "git reset --hard HEAD~1".into()],
        &policy,
    );
    assert!(matches!(result, DenyListCheckResult::RequiresApproval { .. }));
}

#[test]
fn test_multi_command_script_any_match() {
    // If any command in a multi-command script matches, it should be caught
    let policy = make_policy(vec![r"git\s+push\s+--force"], vec![]);
    let result = check_command_against_deny_list(
        &vec![
            "bash".into(),
            "-lc".into(),
            "echo hello && git push --force && echo done".into(),
        ],
        &policy,
    );
    assert!(matches!(result, DenyListCheckResult::RequiresApproval { .. }));
}

#[test]
fn test_empty_policy_allows_all() {
    let policy = SecurityPolicy::default();
    let result = check_command_against_deny_list(
        &vec!["rm".into(), "-rf".into(), "/".into()],
        &policy,
    );
    assert_eq!(result, DenyListCheckResult::Allowed);
}

#[test]
fn test_regex_pattern_matching() {
    // Test that regex patterns work correctly
    let policy = make_policy(vec![r"^git\s+(push|reset)"], vec![]);

    // Should match
    let result = check_command_against_deny_list(&vec!["git".into(), "push".into()], &policy);
    assert!(matches!(result, DenyListCheckResult::RequiresApproval { .. }));

    let result = check_command_against_deny_list(&vec!["git".into(), "reset".into()], &policy);
    assert!(matches!(result, DenyListCheckResult::RequiresApproval { .. }));

    // Should not match
    let result = check_command_against_deny_list(&vec!["git".into(), "status".into()], &policy);
    assert_eq!(result, DenyListCheckResult::Allowed);
}

#[test]
fn test_invalid_regex_patterns_are_skipped() {
    // Invalid patterns should be filtered out during policy construction
    let policy_toml = SecurityPolicyToml {
        deny_commands: Some(vec![
            r"[invalid".to_string(), // Invalid regex
            r"valid".to_string(),    // Valid regex
        ]),
        forbidden_commands: None,
    };
    let policy = SecurityPolicy::from_toml(&policy_toml);

    // Only the valid pattern should be present
    assert_eq!(policy.deny_commands.len(), 1);
    assert_eq!(policy.deny_commands[0].as_str(), "valid");
}

#[test]
fn deny_scenario_shared_pattern_is_forbidden() {
    // deny "rm" and forbidden "rm" on ["rm", "file.txt"]: Forbidden wins
    let policy = make_policy(vec!["rm"], vec!["rm"]);
    let result = check_command_against_deny_list(&vec!["rm".into(), "file.txt".into()], &policy);
    assert_eq!(
        result,
        DenyListCheckResult::Forbidden { matched_pattern: "rm".to_string() }
    );
}

#[test]
fn deny_scenario_wrapped_force_push_requires_approval() {
    let policy = make_policy(vec!["git push --force"], vec![]);
    let result = check_command_against_deny_list(
        &vec![
            "bash".into(),
            "-lc".into(),
            "echo hi && git push --force && echo done".into(),
        ],
        &policy,
    );
    assert_eq!(
        result,
        DenyListCheckResult::RequiresApproval { matched_pattern: "git push --force".to_string() }
    );
}
