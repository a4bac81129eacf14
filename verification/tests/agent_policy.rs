use llm_wiki::agent_policy::{classify_shell_policy, classify_shell_policy_with_config};
use llm_wiki::models::{ShellPolicyConfig, ShellPolicyDecision, ShellPolicyProfile};

#[test]
fn destructive_is_denied() {
    let (action, decision, reason) = classify_shell_policy("rm -rf /tmp/x", "manual");
    assert_eq!(action, "destructive");
    assert_eq!(decision, "deny");
    assert!(reason.is_some());
}

#[test]
fn agent_unknown_requires_approval() {
    let (action, decision, reason) = classify_shell_policy("powershell -Command FooBar", "agent");
    assert_eq!(action, "unknown");
    assert_eq!(decision, "require_approval");
    assert!(reason.is_some());
}

#[test]
fn manual_read_auto_allow() {
    let (action, decision, reason) = classify_shell_policy("Get-Date", "manual");
    assert_eq!(action, "read");
    assert_eq!(decision, "auto_allow");
    assert!(reason.is_none());
}

#[test]
fn manual_unknown_can_be_forced_to_approval() {
    let cfg = ShellPolicyConfig {
        manual_unknown_decision: ShellPolicyDecision::RequireApproval,
        ..ShellPolicyConfig::default()
    };
    let (action, decision, reason) = classify_shell_policy_with_config("foo-bar-custom", "manual", &cfg);
    assert_eq!(action, "unknown");
    assert_eq!(decision, "require_approval");
    assert!(reason.is_some());
}

#[test]
fn agent_write_can_be_forced_to_deny() {
    let cfg = ShellPolicyConfig {
        agent_write_decision: ShellPolicyDecision::Deny,
        ..ShellPolicyConfig::default()
    };
    let (action, decision, reason) = classify_shell_policy_with_config("mkdir test-dir", "agent", &cfg);
    assert_eq!(action, "write");
    assert_eq!(decision, "deny");
    assert!(reason.is_some());
}

#[test]
fn manual_write_can_be_forced_to_approval() {
    let cfg = ShellPolicyConfig {
        manual_write_decision: ShellPolicyDecision::RequireApproval,
        ..ShellPolicyConfig::default()
    };
    let (action, decision, reason) = classify_shell_policy_with_config("mkdir test-dir", "manual", &cfg);
    assert_eq!(action, "write");
    assert_eq!(decision, "require_approval");
    assert!(reason.is_some());
}

#[test]
fn agent_read_can_be_forced_to_approval() {
    let cfg = ShellPolicyConfig {
        agent_read_decision: ShellPolicyDecision::RequireApproval,
        ..ShellPolicyConfig::default()
    };
    let (action, decision, reason) = classify_shell_policy_with_config("Get-Date", "agent", &cfg);
    assert_eq!(action, "read");
    assert_eq!(decision, "require_approval");
    assert!(reason.is_some());
}

#[test]
fn network_command_uses_network_decision() {
    let cfg = ShellPolicyConfig {
        network_decision: ShellPolicyDecision::RequireApproval,
        ..ShellPolicyConfig::default()
    };
    for cmd in &["curl https://example.com", "wget http://x.com", "iwr http://x.com", "ping 8.8.8.8"] {
        let (action, decision, reason) = classify_shell_policy_with_config(cmd, "manual", &cfg);
        assert_eq!(action, "network", "cmd={cmd}");
        assert_eq!(decision, "require_approval", "cmd={cmd}");
        assert!(reason.is_some(), "cmd={cmd}");
    }
}

#[test]
fn network_command_auto_allow_on_power_user_profile() {
    let cfg = ShellPolicyConfig::from_profile(ShellPolicyProfile::PowerUser);
    let (action, decision, _) = classify_shell_policy_with_config("curl https://example.com", "manual", &cfg);
    assert_eq!(action, "network");
    assert_eq!(decision, "auto_allow");
}

#[test]
fn network_command_deny_on_strict_profile() {
    let cfg = ShellPolicyConfig::from_profile(ShellPolicyProfile::Strict);
    let (action, decision, reason) = classify_shell_policy_with_config("wget http://x.com", "agent", &cfg);
    assert_eq!(action, "network");
    assert_eq!(decision, "deny");
    assert!(reason.is_some());
}

#[test]
fn script_command_ps1_uses_script_decision() {
    let cfg = ShellPolicyConfig {
        script_decision: ShellPolicyDecision::RequireApproval,
        ..ShellPolicyConfig::default()
    };
    let (action, decision, reason) = classify_shell_policy_with_config(".\\deploy.ps1", "manual", &cfg);
    assert_eq!(action, "script");
    assert_eq!(decision, "require_approval");
    assert!(reason.is_some());
}

#[test]
fn script_command_bat_uses_script_decision() {
    let cfg = ShellPolicyConfig::default();
    let (action, decision, _) = classify_shell_policy_with_config("./build.bat", "agent", &cfg);
    assert_eq!(action, "script");
    assert_eq!(decision, "require_approval");
}

#[test]
fn script_command_powershell_file_uses_script_decision() {
    let cfg = ShellPolicyConfig {
        script_decision: ShellPolicyDecision::Deny,
        ..ShellPolicyConfig::default()
    };
    let (action, decision, _) = classify_shell_policy_with_config("powershell -File myscript.ps1", "manual", &cfg);
    assert_eq!(action, "script");
    assert_eq!(decision, "deny");
}

#[test]
fn destructive_always_denied_regardless_of_profile() {
    let cfg = ShellPolicyConfig::from_profile(ShellPolicyProfile::PowerUser);
    let (action, decision, _) = classify_shell_policy_with_config("rm -rf /tmp/x", "manual", &cfg);
    assert_eq!(action, "destructive");
    assert_eq!(decision, "deny");
}

#[test]
fn profile_strict_denies_agent_write() {
    let cfg = ShellPolicyConfig::from_profile(ShellPolicyProfile::Strict);
    let (action, decision, _) = classify_shell_policy_with_config("mkdir new-dir", "agent", &cfg);
    assert_eq!(action, "write");
    assert_eq!(decision, "deny");
}

#[test]
fn profile_power_user_allows_agent_write() {
    let cfg = ShellPolicyConfig::from_profile(ShellPolicyProfile::PowerUser);
    let (action, decision, _) = classify_shell_policy_with_config("mkdir new-dir", "agent", &cfg);
    assert_eq!(action, "write");
    assert_eq!(decision, "auto_allow");
}

#[test]
fn destructive_reason_names_the_first_matching_pattern() {
    let (_, _, reason) = classify_shell_policy("RM -RF /", "agent");
    assert_eq!(reason.unwrap(), "策略拒绝：命令包含高危模式 `rm -rf`");
}

#[test]
fn approval_reason_has_prefix_and_suffix() {
    let (_, decision, reason) = classify_shell_policy("git status", "agent");
    assert_eq!(decision, "auto_allow");
    assert!(reason.is_none());
    let (_, _, reason) = classify_shell_policy("curl x", "agent");
    assert_eq!(reason.unwrap(), "策略命中：网络类命令，需人工确认");
    let strict = ShellPolicyConfig::from_profile(ShellPolicyProfile::Strict);
    let (_, _, reason) = classify_shell_policy_with_config("mkdir x", "agent", &strict);
    assert_eq!(reason.unwrap(), "策略命中：agent 来源写入命令，策略拒绝执行");
}

#[test]
fn bash_script_and_other_executor() {
    let (action, _, _) = classify_shell_policy("bash run.sh", "manual");
    assert_eq!(action, "script");
    let (action, decision, reason) = classify_shell_policy("mkdir x", "cron");
    assert_eq!(action, "write");
    assert_eq!(decision, "auto_allow");
    assert!(reason.is_none());
}

#[test]
fn decision_names() {
    assert_eq!(ShellPolicyDecision::AutoAllow.as_str(), "auto_allow");
    assert_eq!(ShellPolicyDecision::RequireApproval.as_str(), "require_approval");
    assert_eq!(ShellPolicyDecision::Deny.as_str(), "deny");
}
