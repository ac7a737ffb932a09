use porthole::app_state::AppState;
use porthole::ip::parse_ip_str;
use porthole::lifecycle::AppLifecycleState;
use porthole::order::{sort_dedup, str_eq, string_lt};
use porthole::paths::{join_path, AppPaths};
use porthole::rule::{contains_colon, IdSet, Protocol, RuleSet};
use porthole::rule_store::RuleStore;
use porthole::runtime::{same_runtime, ProcessStatus, RuntimeState};
use porthole::text::{decimal_string, is_blank_str, parse_unsigned_chars, IntErrorKind};

#[test]
fn app_paths_lay_out_the_data_directory() {
    let paths = AppPaths::new("/var/porthole");
    assert_eq!(paths.data_dir(), "/var/porthole");
    assert_eq!(paths.rules_file(), "/var/porthole/rules.toml");
    assert_eq!(paths.runtime_state_file(), "/var/porthole/runtime-state.toml");
    assert_eq!(paths.gost_config_file(), "/var/porthole/gost.yaml");
    assert_eq!(paths.gost_pid_file(), "/var/porthole/gost.pid");
    assert_eq!(paths.sidecar_dir(), "/var/porthole/sidecar");
    assert_eq!(paths.gost_runtime_executable(), "/var/porthole/sidecar/gost.exe");
    assert_eq!(join_path("", "a", '/'), "a");
    assert_eq!(join_path("/x/", "a", '/'), "/x/a");
    assert_eq!(join_path("C:\\data", "rules.toml", '\\'), "C:\\data\\rules.toml");
    assert_eq!(join_path("C:\\data\\", "a", '\\'), "C:\\data\\a");
    assert_eq!(join_path("C:/data/", "a", '\\'), "C:/data/a");
    assert_eq!(paths.separator(), std::path::MAIN_SEPARATOR);
}

#[test]
fn app_state_hands_out_its_parts() {
    let state = AppState::new(AppPaths::new("/a"), RuleStore::new(AppPaths::new("/a")));
    assert_eq!(state.paths().gost_pid_file(), "/a/gost.pid");
    assert_eq!(state.rule_store().paths().data_dir(), "/a");
}

#[test]
fn exit_begins_once() {
    let mut lifecycle = AppLifecycleState::new();
    assert!(!lifecycle.is_exit_in_progress());
    assert!(lifecycle.begin_exit());
    assert!(lifecycle.is_exit_in_progress());
    assert!(!lifecycle.begin_exit());
    assert!(!AppLifecycleState::default().is_exit_in_progress());
}

#[test]
fn id_sets_are_sorted_and_deduplicated() {
    let mut set = IdSet::from_vec(vec!["b".to_string(), "a".to_string(), "b".to_string()]);
    assert_eq!(set.len(), 2);
    assert_eq!(set.get(0), "a");
    assert_eq!(set.get(1), "b");
    set.insert("ab".to_string());
    set.insert("a".to_string());
    assert_eq!(set.len(), 3);
    assert_eq!(set.get(1), "ab");
    assert!(set.contains("ab"));
    assert!(!set.contains("c"));
    set.clear();
    assert!(set.is_empty());
    assert_eq!(sort_dedup(vec!["z".to_string(), "é".to_string(), "z".to_string()]), vec!["z", "é"]);
    assert!(string_lt("Z", "a"));
    assert!(str_eq("x", "x"));
}

#[test]
fn ip_addresses_parse_as_std_does() {
    for ok in [
        "127.0.0.1",
        "0.0.0.0",
        "::",
        "::1",
        "2001:db8::10",
        "::ffff:1.2.3.4",
        "1:2:3:4:5:6:7:8",
        "::1:2:3:4:5:6:7",
        "1:2:3:4:5:6:7::",
        "::1.2.3.4",
        "1:2:3:4:5:6:1.2.3.4",
        "FFFF::abcd",
    ] {
        assert!(parse_ip_str(ok).is_some(), "{ok}");
    }
    for bad in [
        "",
        "localhost",
        "256.0.0.1",
        "1.2.3",
        "01.2.3.4",
        ":::",
        "1::2::3",
        "[::1]",
        " ::1",
        "1:2:3:4::5:6:7:8",
        "1:2:3:4:5:6:7:8::",
        "1:2:3:4:5:6:7:1.2.3.4",
        "1.2.3.4::",
        "12345::",
        "1:2:3:4:5:6:7",
    ] {
        assert!(parse_ip_str(bad).is_none(), "{bad}");
    }
}

#[test]
fn decimal_text_round_trips() {
    assert_eq!(decimal_string(0), "0");
    assert_eq!(decimal_string(1234567890), "1234567890");
    let cs: Vec<char> = "65535".chars().collect();
    assert_eq!(parse_unsigned_chars(&cs, 65535), Ok(65535));
    let cs: Vec<char> = "65536".chars().collect();
    assert_eq!(parse_unsigned_chars(&cs, 65535), Err(IntErrorKind::PosOverflow));
    assert_eq!(parse_unsigned_chars(&[], 10), Err(IntErrorKind::Empty));
    assert_eq!(parse_unsigned_chars(&['+'], 10), Err(IntErrorKind::InvalidDigit));
    assert!(is_blank_str(" \u{3000}\t"));
    assert!(!is_blank_str(" x "));
    assert!(contains_colon("::1"));
    assert!(!contains_colon("1.2.3.4"));
}

#[test]
fn protocol_names_and_equal_runtimes() {
    assert_eq!(Protocol::Tcp.as_str(), "tcp");
    assert_eq!(Protocol::Udp.upper_name(), "UDP");
    assert!(RuleSet::new().rules.is_empty());
    let a = RuntimeState::new();
    let mut b = RuntimeState::default();
    assert!(same_runtime(&a, &b));
    b.process_status = ProcessStatus::Failed;
    assert!(!same_runtime(&a, &b));
}
