use porthole::gost_renderer::{render_gost_yaml, yaml_quote, GostRenderError};
use porthole::rule::{format_socket_addr, Protocol, Rule, Timestamp};

fn sample_rule(
    id: &str,
    protocol: Protocol,
    listen_host: &str,
    listen_port: u16,
    target_host: &str,
    target_port: u16,
) -> Rule {
    Rule {
        id: id.to_string(),
        name: format!("Rule {id}"),
        enabled: true,
        protocol,
        listen_host: listen_host.to_string(),
        listen_port,
        target_host: target_host.to_string(),
        target_port,
        remark: String::new(),
        created_at: Timestamp::new(1775563200, 0),
        updated_at: Timestamp::new(1775563201, 0),
    }
}

#[test]
fn format_socket_addr_wraps_ipv6_only_when_needed() {
    assert_eq!(format_socket_addr("127.0.0.1", 8080), "127.0.0.1:8080");
    assert_eq!(format_socket_addr("::1", 8080), "[::1]:8080");
}

#[test]
fn the_ipv6_wildcard_is_bracketed_too() {
    assert_eq!(format_socket_addr("::", 5353), "[::]:5353");
    assert_eq!(format_socket_addr("0.0.0.0", 0), "0.0.0.0:0");
    assert_eq!(format_socket_addr("", 65535), ":65535");
}

#[test]
fn render_supports_ipv4_to_ipv4_tcp_rule() {
    let yaml = render_gost_yaml(&[sample_rule(
        "rule-v4-v4",
        Protocol::Tcp,
        "127.0.0.1",
        8080,
        "10.0.0.8",
        80,
    )])
    .expect("render yaml");

    assert!(yaml.contains("type: tcp"));
    assert!(yaml.contains("addr: '127.0.0.1:8080'"));
    assert!(yaml.contains("addr: '10.0.0.8:80'"));
}

#[test]
fn render_supports_ipv6_to_ipv6_udp_rule_without_metadata() {
    let yaml = render_gost_yaml(&[sample_rule(
        "rule-v6-v6",
        Protocol::Udp,
        "::1",
        5353,
        "2001:db8::10",
        5353,
    )])
    .expect("render yaml");

    assert!(yaml.contains("type: udp"));
    assert!(yaml.contains("addr: '[::1]:5353'"));
    assert!(yaml.contains("addr: '[2001:db8::10]:5353'"));
    assert!(!yaml.contains("metadata:"));
    assert!(!yaml.contains("keepAlive"));
    assert!(!yaml.contains("ttl"));
}

#[test]
fn render_supports_ipv4_to_ipv6_rule() {
    let yaml = render_gost_yaml(&[sample_rule(
        "rule-v4-v6",
        Protocol::Tcp,
        "0.0.0.0",
        7000,
        "::1",
        7001,
    )])
    .expect("render yaml");

    assert!(yaml.contains("addr: '0.0.0.0:7000'"));
    assert!(yaml.contains("addr: '[::1]:7001'"));
}

#[test]
fn render_supports_ipv6_to_ipv4_rule() {
    let yaml = render_gost_yaml(&[sample_rule(
        "rule-v6-v4",
        Protocol::Udp,
        "::",
        9000,
        "192.168.0.10",
        9001,
    )])
    .expect("render yaml");

    assert!(yaml.contains("addr: '[::]:9000'"));
    assert!(yaml.contains("addr: '192.168.0.10:9001'"));
}

#[test]
fn yaml_quote_doubles_single_quotes() {
    assert_eq!(yaml_quote("it's"), "'it''s'");
    assert_eq!(yaml_quote(""), "''");
}

#[test]
fn render_error_message_is_its_text() {
    assert_eq!(GostRenderError::InvalidRule("x".to_string()).message(), "x");
}

#[test]
fn render_writes_the_exact_service_block() {
    let yaml = render_gost_yaml(&[sample_rule("a", Protocol::Tcp, "127.0.0.1", 8080, "::1", 80)])
        .expect("render yaml");
    assert_eq!(
        yaml,
        "services:\n  - name: 'rule-a'\n    addr: '127.0.0.1:8080'\n    handler:\n      type: tcp\n    listener:\n      type: tcp\n    forwarder:\n      nodes:\n        - name: 'target-0'\n          addr: '[::1]:80'\n"
    );
    assert_eq!(render_gost_yaml(&[]).expect("empty"), "services:\n");
}

#[test]
fn render_rejects_blank_fields_of_the_first_bad_rule() {
    let mut no_id = sample_rule(" ", Protocol::Tcp, "127.0.0.1", 1, "127.0.0.1", 2);
    assert_eq!(
        render_gost_yaml(&[no_id.clone()]),
        Err(GostRenderError::InvalidRule("规则 ID 不能为空，无法渲染 gost.yaml".to_string()))
    );
    no_id.id = "r".to_string();
    no_id.listen_host = "".to_string();
    assert_eq!(
        render_gost_yaml(&[no_id.clone()]),
        Err(GostRenderError::InvalidRule("规则 r 的监听地址不能为空，无法渲染 gost.yaml".to_string()))
    );
    no_id.listen_host = "::".to_string();
    no_id.target_host = "\t".to_string();
    let ok = sample_rule("ok", Protocol::Udp, "::", 1, "::", 2);
    assert_eq!(
        render_gost_yaml(&[ok, no_id]),
        Err(GostRenderError::InvalidRule("规则 r 的目标地址不能为空，无法渲染 gost.yaml".to_string()))
    );
}
