use porthole::gost_renderer::GostRenderError;
use porthole::rule::{IdSet, Protocol, Rule, RuleSet, Timestamp};
use porthole::validator::{
    validate_before_save, validate_before_start, validate_before_start_with_renderer,
    ValidationErrors,
};

fn sample_rule(
    id: &str,
    protocol: Protocol,
    listen_host: &str,
    listen_port: u16,
    target_host: &str,
    target_port: u16,
) -> Rule {
    Rule {
        id: id.to_string(),
        name: format!("Rule {id}"),
        enabled: true,
        protocol,
        listen_host: listen_host.to_string(),
        listen_port,
        target_host: target_host.to_string(),
        target_port,
        remark: String::new(),
        created_at: Timestamp::new(1775563200, 0),
        updated_at: Timestamp::new(1775563201, 0),
    }
}

fn ids(items: &[&str]) -> IdSet {
    IdSet::from_vec(items.iter().map(|s| s.to_string()).collect())
}

#[test]
fn save_validation_rejects_duplicate_ids_and_conflicting_listeners() {
    let rules = RuleSet {
        rules: vec![
            sample_rule("dup", Protocol::Tcp, "127.0.0.1", 8080, "10.0.0.1", 80),
            sample_rule("dup", Protocol::Tcp, "127.0.0.1", 8080, "10.0.0.2", 81),
        ],
    };

    let err = validate_before_save(&rules).expect_err("validation should fail");
    let issues = err.into_issues();

    assert!(issues.iter().any(|item| item.contains("规则 ID 重复: dup")));
    assert!(issues
        .iter()
        .any(|item| item.contains("监听冲突：规则 dup 与规则 dup")));
}

#[test]
fn save_validation_rejects_invalid_ip_and_zero_port() {
    let rules = RuleSet {
        rules: vec![sample_rule(
            "bad-rule",
            Protocol::Udp,
            "not-an-ip",
            0,
            "127.0.0.1",
            0,
        )],
    };

    let err = validate_before_save(&rules).expect_err("validation should fail");
    let issues = err.into_issues();

    assert!(issues
        .iter()
        .any(|item| item.contains("监听地址不是合法 IP 地址")));
    assert!(issues
        .iter()
        .any(|item| item.contains("监听端口超出范围: 0")));
    assert!(issues
        .iter()
        .any(|item| item.contains("目标端口超出范围: 0")));
}

#[test]
fn start_validation_rejects_empty_runtime_set_and_missing_sidecar() {
    let rules = RuleSet {
        rules: vec![sample_rule(
            "rule-1",
            Protocol::Tcp,
            "127.0.0.1",
            8080,
            "10.0.0.1",
            80,
        )],
    };

    let err = validate_before_start(&rules, &ids(&[]), "missing.exe", false)
        .expect_err("start validation should fail");
    let issues = err.into_issues();

    assert!(issues.iter().any(|item| item.contains("运行集合为空")));
    assert!(issues
        .iter()
        .any(|item| item.contains("未找到 gost sidecar")));
}

#[test]
fn start_validation_rejects_render_failures() {
    let rules = RuleSet {
        rules: vec![sample_rule(
            "rule-1",
            Protocol::Tcp,
            "127.0.0.1",
            8080,
            "10.0.0.1",
            80,
        )],
    };
    let active_rule_ids = ids(&["rule-1"]);

    let err = validate_before_start_with_renderer(&rules, &active_rule_ids, "/tmp/gost.exe", true, |_| {
        Err(GostRenderError::InvalidRule("模拟渲染失败".to_string()))
    })
    .expect_err("start validation should fail");

    assert!(err
        .into_issues()
        .iter()
        .any(|item| item.contains("渲染 gost.yaml 失败: 模拟渲染失败")));
}

#[test]
fn start_validation_returns_rendered_config_for_valid_runtime_set() {
    let rules = RuleSet {
        rules: vec![
            sample_rule("rule-1", Protocol::Tcp, "127.0.0.1", 8080, "10.0.0.1", 80),
            sample_rule("rule-2", Protocol::Udp, "::1", 5353, "127.0.0.1", 5353),
        ],
    };
    let active_rule_ids = ids(&["rule-2"]);

    let output = validate_before_start(&rules, &active_rule_ids, "/tmp/gost.exe", true)
        .expect("validation pass");

    assert_eq!(output.active_rules.len(), 1);
    assert_eq!(output.active_rules[0].id, "rule-2");
    assert!(output.rendered_config.contains("type: udp"));
    assert!(output.rendered_config.contains("addr: '[::1]:5353'"));
}

#[test]
fn valid_rule_set_passes_save_validation() {
    let rules = RuleSet {
        rules: vec![
            sample_rule("a", Protocol::Tcp, "0.0.0.0", 80, "10.0.0.1", 80),
            sample_rule("b", Protocol::Udp, "0.0.0.0", 80, "::1", 80),
            sample_rule("c", Protocol::Tcp, "::", 80, "10.0.0.1", 65535),
        ],
    };
    assert_eq!(validate_before_save(&rules), Ok(()));
    assert_eq!(validate_before_save(&RuleSet::new()), Ok(()));
}

#[test]
fn equal_addresses_in_other_spellings_conflict() {
    let rules = RuleSet {
        rules: vec![
            sample_rule("a", Protocol::Tcp, "::1", 8080, "10.0.0.1", 80),
            sample_rule("b", Protocol::Tcp, "0:0:0:0:0:0:0:1", 8080, "10.0.0.1", 80),
        ],
    };
    let err = validate_before_save(&rules).expect_err("conflict");
    assert!(err.issues().iter().any(|item| item.contains("监听冲突：规则 a 与规则 b 不能同时监听 TCP 0:0:0:0:0:0:0:1:8080")));
}

#[test]
fn start_validation_reports_missing_and_disabled_rules() {
    let mut disabled = sample_rule("off", Protocol::Tcp, "127.0.0.1", 1, "127.0.0.1", 2);
    disabled.enabled = false;
    let rules = RuleSet { rules: vec![disabled] };
    let err = validate_before_start(&rules, &ids(&["off", "ghost"]), "/tmp/gost.exe", true)
        .expect_err("missing rule");
    assert!(err.issues().iter().any(|item| item.contains("ghost")));
}

#[test]
fn validation_errors_keep_issues_sorted_and_join_them() {
    let errors = ValidationErrors::new(vec!["b".to_string(), "a".to_string(), "b".to_string()]);
    assert_eq!(errors.issues(), &["a".to_string(), "b".to_string()]);
    assert_eq!(errors.message(), "a；b");
}
