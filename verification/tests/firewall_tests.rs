use porthole::firewall::{
    build_sync_plan, escape_powershell_single_quoted, firewall_rule_name, is_loopback_host,
    needs_firewall_rule, prune_sync_plan, runner_args, FirewallError, FirewallManager,
    FirewallScript, FirewallStage,
};
use porthole::paths::AppPaths;
use porthole::rule::{IdSet, Protocol, Rule, Timestamp};

fn sample_rule(id: &str, protocol: Protocol, listen_host: &str, listen_port: u16) -> Rule {
    Rule {
        id: id.to_string(),
        name: format!("Rule {id}"),
        enabled: true,
        protocol,
        listen_host: listen_host.to_string(),
        listen_port,
        target_host: "127.0.0.1".to_string(),
        target_port: 80,
        remark: String::new(),
        created_at: Timestamp::new(1775563200, 0),
        updated_at: Timestamp::new(1775563200, 0),
    }
}

fn ids(items: &[&str]) -> IdSet {
    IdSet::from_vec(items.iter().map(|s| s.to_string()).collect())
}

#[test]
fn build_sync_plan_only_includes_non_loopback_rules() {
    let active_ids = ids(&["rule-a"]);
    let plan = build_sync_plan(
        &[
            sample_rule("rule-a", Protocol::Tcp, "0.0.0.0", 8080),
            sample_rule("rule-b", Protocol::Udp, "127.0.0.1", 5353),
        ],
        &active_ids,
    );

    assert_eq!(plan.add_rules.len(), 1);
    assert_eq!(plan.remove_rule_names.len(), 0);
    assert_eq!(plan.add_rules[0].display_name, "Porthole-rule-a-tcp-8080");
    assert_eq!(plan.add_rules[0].local_port, 8080);
}

#[test]
fn build_sync_plan_removes_inactive_exposed_rules() {
    let rules = vec![
        sample_rule("rule-a", Protocol::Tcp, "0.0.0.0", 8080),
        sample_rule("rule-b", Protocol::Udp, "::", 5353),
    ];
    let active_ids = ids(&["rule-b"]);
    let plan = build_sync_plan(&rules, &active_ids);

    assert_eq!(plan.add_rules.len(), 1);
    assert_eq!(plan.remove_rule_names, vec!["Porthole-rule-a-tcp-8080"]);
    assert_eq!(plan.add_rules[0].display_name, "Porthole-rule-b-udp-5353");
}

#[test]
fn powershell_script_contains_add_and_remove_commands() {
    let rules = vec![
        sample_rule("rule-a", Protocol::Tcp, "0.0.0.0", 8080),
        sample_rule("rule-b", Protocol::Udp, "::", 5353),
    ];
    let active_ids = ids(&["rule-a"]);
    let plan = build_sync_plan(&rules, &active_ids);
    let script = plan.to_powershell_script();

    assert!(script.contains("New-NetFirewallRule"));
    assert!(script.contains("Porthole-rule-a-tcp-8080"));
    assert!(script.contains("Remove-NetFirewallRule"));
    assert!(script.contains("Porthole-rule-b-udp-5353"));
    assert!(script.contains("Protocol TCP"));
    assert!(script.contains("LocalPort 8080"));
}

#[test]
fn helper_functions_match_expected_rule_names_and_hosts() {
    let rule = sample_rule("rule-x", Protocol::Udp, "localhost", 9999);
    assert_eq!(firewall_rule_name(&rule), "Porthole-rule-x-udp-9999");
    assert!(is_loopback_host("127.0.0.1"));
    assert!(is_loopback_host("::1"));
    assert!(is_loopback_host("localhost"));
    assert!(!is_loopback_host("0.0.0.0"));
    assert!(!is_loopback_host("::"));
}

#[test]
fn prune_sync_plan_only_keeps_real_changes() {
    let rules = vec![
        sample_rule("rule-a", Protocol::Tcp, "0.0.0.0", 8080),
        sample_rule("rule-b", Protocol::Udp, "::", 5353),
    ];
    let active_ids = ids(&["rule-a"]);
    let plan = build_sync_plan(&rules, &active_ids);
    let existing = ids(&["Porthole-rule-a-tcp-8080", "Porthole-rule-b-udp-5353"]);

    let pruned = prune_sync_plan(plan, &existing);

    assert!(pruned.add_rules.is_empty());
    assert_eq!(pruned.remove_rule_names, vec!["Porthole-rule-b-udp-5353"]);
}

#[test]
fn full_script_text_for_one_addition_and_one_removal() {
    let rules = vec![
        sample_rule("rule-a", Protocol::Tcp, "0.0.0.0", 8080),
        sample_rule("rule-b", Protocol::Udp, "::", 5353),
    ];
    let plan = build_sync_plan(&rules, &ids(&["rule-a"]));
    let expected = "$ErrorActionPreference = 'Stop'\nSet-StrictMode -Version Latest\n\
Get-NetFirewallRule -DisplayName 'Porthole-rule-b-udp-5353' -ErrorAction SilentlyContinue | Remove-NetFirewallRule -ErrorAction SilentlyContinue | Out-Null\n\
Get-NetFirewallRule -DisplayName 'Porthole-rule-a-tcp-8080' -ErrorAction SilentlyContinue | Remove-NetFirewallRule -ErrorAction SilentlyContinue | Out-Null\n\
New-NetFirewallRule -DisplayName 'Porthole-rule-a-tcp-8080' -Group 'Porthole' -Direction Inbound -Action Allow -Protocol TCP -LocalPort 8080 -Profile Any | Out-Null\n";
    assert_eq!(plan.to_powershell_script(), expected);
    assert_eq!(
        plan.summary_messages(),
        vec![
            "已同步 Windows 防火墙放行规则：TCP 8080".to_string(),
            "已清理 1 条 Windows 防火墙规则".to_string(),
        ]
    );
    assert!(!plan.is_empty());
}

#[test]
fn inactive_loopback_rules_need_nothing() {
    let rules = vec![sample_rule("rule-a", Protocol::Tcp, " localhost ", 8080)];
    let plan = build_sync_plan(&rules, &ids(&[]));
    assert!(plan.is_empty());
    assert!(plan.summary_messages().is_empty());
    assert!(!needs_firewall_rule(&rules[0]));
}

#[test]
fn single_quotes_are_doubled() {
    assert_eq!(escape_powershell_single_quoted("it's"), "it''s");
    assert_eq!(escape_powershell_single_quoted("''"), "''''");
    assert_eq!(escape_powershell_single_quoted("plain"), "plain");
}

#[test]
fn manager_prepares_scripts_only_for_real_changes() {
    let manager = FirewallManager::new(AppPaths::new("/data"));
    let rules = vec![sample_rule("rule-a", Protocol::Tcp, "0.0.0.0", 8080)];
    let script = manager.sync_rules(&rules, &ids(&["rule-a"]), &ids(&[])).expect("a script");
    assert_eq!(script.script_path, "/data/firewall-sync.ps1");
    assert!(script.script.contains("-LocalPort 8080"));
    assert_eq!(script.messages, vec!["已同步 Windows 防火墙放行规则：TCP 8080".to_string()]);

    let removal = manager.remove_rule(&rules[0]).expect("a removal");
    assert_eq!(removal.messages, vec!["已清理 1 条 Windows 防火墙规则".to_string()]);

    let loopback = sample_rule("rule-l", Protocol::Udp, "127.0.0.1", 53);
    assert!(manager.remove_rule(&loopback).is_none());
    assert!(manager.sync_rules(&[loopback], &ids(&["rule-l"]), &ids(&[])).is_none());
}

#[test]
fn sync_runs_nothing_once_the_firewall_matches() {
    let manager = FirewallManager::new(AppPaths::new("/data"));
    let rules = vec![
        sample_rule("rule-a", Protocol::Tcp, "0.0.0.0", 8080),
        sample_rule("rule-b", Protocol::Udp, "::", 5353),
    ];
    let active = ids(&["rule-a"]);
    assert!(manager.sync_rules(&rules, &active, &ids(&["Porthole-rule-a-tcp-8080"])).is_none());
    let script = manager
        .sync_rules(&rules, &active, &ids(&["Porthole-rule-a-tcp-8080", "Porthole-rule-b-udp-5353"]))
        .expect("a removal");
    assert_eq!(script.messages, vec!["已清理 1 条 Windows 防火墙规则".to_string()]);
    assert!(!script.script.contains("New-NetFirewallRule"));
}

#[test]
fn firewall_errors_carry_their_messages() {
    let err = FirewallError::io_at(FirewallStage::WriteScript, "disk full".to_string());
    assert_eq!(err.message(), "写入 Windows 防火墙脚本失败: disk full");
    let err = FirewallError::command_failed("exit code: 1");
    assert_eq!(err.message(), "同步 Windows 防火墙规则失败，退出码: exit code: 1");
    assert_eq!(
        FirewallError::io_at(FirewallStage::CheckElevation, "x".to_string()).message(),
        "检测管理员权限失败: x"
    );
}

#[test]
fn script_outcome_reports_messages_or_the_error() {
    let script = FirewallScript {
        script_path: "/data/firewall-sync.ps1".to_string(),
        script: String::new(),
        messages: vec!["m".to_string()],
    };
    assert_eq!(script.outcome(Ok(())), Ok(vec!["m".to_string()]));
    let script = FirewallScript {
        script_path: "/data/firewall-sync.ps1".to_string(),
        script: String::new(),
        messages: vec!["m".to_string()],
    };
    let err = FirewallError::Command("boom".to_string());
    assert_eq!(script.outcome(Err(err)), Err(FirewallError::Command("boom".to_string())));
    assert!(FirewallScript::requires_elevation(false));
    assert!(!FirewallScript::requires_elevation(true));
}

#[test]
fn runner_arguments_run_directly_or_elevated() {
    assert_eq!(
        runner_args("C:\\a b\\s.ps1", false),
        vec!["-NoProfile", "-NonInteractive", "-ExecutionPolicy", "Bypass", "-File", "C:\\a b\\s.ps1"]
    );
    let elevated = runner_args("C:\\it's\\s.ps1", true);
    assert_eq!(elevated.len(), 6);
    assert_eq!(elevated[4], "-Command");
    assert_eq!(
        elevated[5],
        "$proc = Start-Process -FilePath 'powershell.exe' -Verb RunAs -WindowStyle Hidden -Wait -PassThru -ArgumentList @('-NoProfile','-NonInteractive','-ExecutionPolicy','Bypass','-File','C:\\it''s\\s.ps1'); exit $proc.ExitCode"
    );
}
