use porthole::gost_process::{
    build_rule_statuses, check_launch_request, ensure_loopback_probe_url, health_check_failure,
    parse_http_probe_url, push_log, stale_pid_action, update_rule_statuses, GostLaunchRequest,
    GostProcessCore, GostProcessError, ManagerOperation, ProcessLogEntry, ProcessLogSource,
    probe_step, ProbeStep, ProbeVerdict, ProcessStage, StalePidAction, StopStep, MAX_LOG_ENTRIES,
};
use porthole::pid_file::{parse_pid_file, pid_file_contents};
use porthole::rule::{IdSet, Timestamp};
use porthole::runtime::{ProcessStatus, RuleProcessStatus, RuntimeState};

fn ids(items: &[&str]) -> IdSet {
    IdSet::from_vec(items.iter().map(|s| s.to_string()).collect())
}

fn at(secs: i64) -> Timestamp {
    Timestamp::new(secs, 0)
}

#[test]
fn api_unreachable_is_reported_as_start_failure() {
    let request = GostLaunchRequest::new(
        "/bin/sh".to_string(),
        vec![],
        "http://127.0.0.1:65530/api/config/services".to_string(),
        ids(&["rule-1"]),
    );
    assert_eq!(check_launch_request(&request), Ok(()));

    let mut core = GostProcessCore::new();
    core.launched(4242, &request.active_rule_ids);
    let probe: Result<(), GostProcessError> =
        Err(GostProcessError::HealthCheck("模拟 API 不可达".to_string()));
    let (failure, error) = match core.after_probe(4242, &probe) {
        ProbeVerdict::Stop { failure, error } => (Some(failure), error),
        ProbeVerdict::Running(_) => panic!("start should fail"),
    };
    assert_eq!(core.begin_stop_at(&failure, at(1)), StopStep::Kill(4242));
    let runtime = core.finish_stop_at(&failure, at(2));

    assert!(error.message().contains("API 探活失败"));
    assert_eq!(runtime.process_status, ProcessStatus::Failed);
    assert_eq!(core.runtime.process_status, ProcessStatus::Failed);
    assert_eq!(core.process, None);
}

#[test]
fn non_loopback_probe_url_is_rejected_before_start() {
    let request = GostLaunchRequest::new(
        "/bin/sh".to_string(),
        vec![],
        "http://10.0.0.1:8080/api/config/services".to_string(),
        ids(&["rule-1"]),
    );

    let error = check_launch_request(&request).expect_err("non-loopback url should fail");
    assert!(error
        .message()
        .contains("gost API 探活地址必须绑定本地回环地址"));
}

#[test]
fn empty_runtime_set_is_rejected_before_start() {
    let request = GostLaunchRequest::new(
        "/bin/sh".to_string(),
        vec![],
        "http://127.0.0.1:1/".to_string(),
        ids(&[]),
    );
    assert_eq!(
        check_launch_request(&request),
        Err(GostProcessError::InvalidConfig("运行集合为空，无法启动 gost".to_string()))
    );
    assert_eq!(request.health_check_interval_ms, 100);
    assert_eq!(request.health_check_timeout_ms, 2000);
}

#[test]
fn probe_urls_are_split_into_address_host_and_path() {
    let t = parse_http_probe_url("http://127.0.0.1:24680/api/config/services").expect("v4");
    assert_eq!(t.connect_addr, "127.0.0.1:24680");
    assert_eq!(t.host_header, "127.0.0.1");
    assert_eq!(t.path, "/api/config/services");
    assert_eq!(
        t.request_text(),
        "GET /api/config/services HTTP/1.1\r\nHost: 127.0.0.1\r\nConnection: close\r\n\r\n"
    );

    let t = parse_http_probe_url("http://[::1]:80").expect("v6");
    assert_eq!(t.connect_addr, "[::1]:80");
    assert_eq!(t.host_header, "::1");
    assert_eq!(t.path, "/");
    assert_eq!(ensure_loopback_probe_url("http://[::1]:80/x"), Ok(()));
}

#[test]
fn malformed_probe_urls_are_rejected_with_their_reason() {
    let cases = [
        ("https://127.0.0.1:1/", "API 探活地址不是合法的 HTTP URL: https://127.0.0.1:1/"),
        ("http:///x", "API 探活地址缺少主机信息: http:///x"),
        ("http://[::1/x", "API 探活地址中的 IPv6 格式非法: http://[::1/x"),
        ("http://[::1]/x", "API 探活地址缺少端口: http://[::1]/x"),
        ("http://localhost/x", "API 探活地址缺少端口: http://localhost/x"),
        ("http://127.0.0.1:99999/", "API 探活端口非法: number too large to fit in target type"),
        ("http://127.0.0.1:/", "API 探活端口非法: cannot parse integer from empty string"),
        ("http://127.0.0.1:8a/", "API 探活端口非法: invalid digit found in string"),
    ];
    for (url, message) in cases {
        assert_eq!(
            parse_http_probe_url(url).map(|t| t.connect_addr),
            Err(GostProcessError::InvalidConfig(message.to_string())),
            "{url}"
        );
    }
    assert_eq!(
        ensure_loopback_probe_url("http://localhost:80/"),
        Err(GostProcessError::InvalidConfig(
            "gost API 探活地址必须绑定本地回环地址，当前为: localhost".to_string()
        ))
    );
}

#[test]
fn process_errors_display_their_messages() {
    assert_eq!(
        GostProcessError::io_at(ProcessStage::WritePidFile, "denied".to_string()).message(),
        "写入 gost PID 文件失败: denied"
    );
    assert_eq!(
        GostProcessError::lock_poisoned(ManagerOperation::Reload).message(),
        "进程管理锁已损坏，无法重载 gost"
    );
    assert_eq!(
        GostProcessError::probe_timeout("http://127.0.0.1:1/", "refused").message(),
        "探活超时，URL=http://127.0.0.1:1/，最后一次错误: refused"
    );
    assert_eq!(
        health_check_failure(&GostProcessError::HealthCheck("x".to_string())),
        "gost API 探活失败: x"
    );
}

#[test]
fn a_confirmed_launch_runs_every_requested_rule() {
    let mut core = GostProcessCore::new();
    core.launched(7, &ids(&["b", "a"]));
    assert_eq!(core.runtime.process_status, ProcessStatus::Starting);
    let runtime = core.health_confirmed();
    assert_eq!(runtime.process_status, ProcessStatus::Running);
    let states: Vec<(String, RuleProcessStatus)> = runtime
        .rule_statuses
        .iter()
        .map(|s| (s.rule_id.clone(), s.status))
        .collect();
    assert_eq!(
        states,
        vec![("a".to_string(), RuleProcessStatus::Running), ("b".to_string(), RuleProcessStatus::Running)]
    );
    assert!(runtime.active_rule_ids.contains("a"));
    assert_eq!(core.process, Some(7));
}

#[test]
fn stopping_a_running_process_ends_stopped_with_no_active_rule() {
    let mut core = GostProcessCore::new();
    core.launched(7, &ids(&["a"]));
    core.health_confirmed();
    assert_eq!(core.begin_stop_at(&None, at(1)), StopStep::Kill(7));
    assert_eq!(core.runtime.process_status, ProcessStatus::Stopping);
    let runtime = core.finish_stop_at(&None, at(2));
    assert_eq!(runtime.process_status, ProcessStatus::Stopped);
    assert!(runtime.active_rule_ids.is_empty());
    assert!(runtime.last_error.is_none());
    assert_eq!(runtime.rule_statuses[0].status, RuleProcessStatus::Stopped);

    // A second stop finds nothing to kill and changes nothing.
    assert_eq!(core.begin_stop_at(&None, at(3)), StopStep::Finished);
    assert_eq!(core.runtime.process_status, ProcessStatus::Stopped);
}

#[test]
fn child_exit_updates_runtime_status_and_captures_logs() {
    let request = GostLaunchRequest::new(
        "/bin/sh".to_string(),
        vec![],
        "http://127.0.0.1:19000/api/config/services".to_string(),
        ids(&["rule-1"]),
    );
    assert_eq!(check_launch_request(&request), Ok(()));
    let mut core = GostProcessCore::new();
    core.launched(9, &request.active_rule_ids);
    let runtime = core.health_confirmed();
    assert_eq!(runtime.process_status, ProcessStatus::Running);

    core.output_line(ProcessLogSource::Stdout, "hello-from-stdout".to_string());
    core.output_line(ProcessLogSource::Stderr, "hello-from-stderr".to_string());
    core.child_exited(9, true, Some(0));

    let runtime = core.runtime_snapshot();
    assert_eq!(runtime.process_status, ProcessStatus::Stopped);
    assert!(core.log_snapshot().iter().any(|entry| entry.message.contains("hello-from-stdout")));
    assert!(core.log_snapshot().iter().any(|entry| entry.message.contains("hello-from-stderr")));
}

#[test]
fn stop_and_start_cleanup_pid_file() {
    let mut core = GostProcessCore::new();
    core.launched(4321, &ids(&["rule-1"]));
    core.health_confirmed();
    let written = pid_file_contents(4321);
    assert_eq!(parse_pid_file(&written), Ok(4321));

    assert_eq!(core.begin_stop(&None), StopStep::Kill(4321));
    core.finish_stop(&None);

    let stale = parse_pid_file("999999").map(Some).map_err(|e| e.message());
    assert_eq!(
        stale_pid_action(&stale, true),
        StalePidAction::Clear { terminate: Some(999999), context: "清理残留 PID 文件失败".to_string() }
    );
    core.launched(4322, &ids(&["rule-2"]));
    core.health_confirmed();
    let pid = pid_file_contents(4322);
    assert_ne!(pid.trim(), "999999");

    assert_eq!(core.begin_stop(&None), StopStep::Kill(4322));
    assert_eq!(core.finish_stop(&None).process_status, ProcessStatus::Stopped);
}

#[test]
fn a_failed_exit_records_the_exit_code() {
    let mut core = GostProcessCore::new();
    core.launched(9, &ids(&["rule-1"]));
    core.health_confirmed();
    core.output_line_at(ProcessLogSource::Stdout, "hello-from-stdout".to_string(), at(1));
    core.output_line_at(ProcessLogSource::Stderr, "hello-from-stderr".to_string(), at(2));
    assert_eq!(core.runtime.rule_statuses[0].last_error_summary.as_deref(), Some("hello-from-stderr"));
    core.child_exited_at(9, false, Some(1), at(3));

    let runtime = core.runtime_snapshot();
    let logs = core.log_snapshot();
    assert_eq!(runtime.process_status, ProcessStatus::Failed);
    assert!(runtime.active_rule_ids.is_empty());
    assert_eq!(runtime.last_error.as_ref().map(|e| e.summary.as_str()), Some("gost 进程异常退出，退出码: 1"));
    assert_eq!(logs.len(), 2);
    assert_eq!(logs[1].observed_at, at(2));
    assert_eq!(core.process, None);
}

#[test]
fn exits_of_other_processes_and_clean_exits() {
    let mut core = GostProcessCore::new();
    core.launched(9, &ids(&["r"]));
    assert!(!core.child_exited_at(8, false, None, at(1)));
    assert_eq!(core.process, Some(9));
    assert_eq!(core.runtime.process_status, ProcessStatus::Starting);
    assert!(core.child_exited_at(9, true, Some(0), at(2)));
    assert_eq!(core.runtime.process_status, ProcessStatus::Stopped);

    let mut core = GostProcessCore::new();
    core.launched(5, &ids(&["r"]));
    core.child_exited_at(5, false, None, at(2));
    assert_eq!(
        core.runtime.last_error.as_ref().map(|e| e.summary.clone()),
        Some("gost 进程异常退出，未获取到退出码".to_string())
    );
    core.launched(6, &ids(&["r"]));
    core.child_exited_at(6, false, Some(-3), at(3));
    assert_eq!(
        core.runtime.last_error.as_ref().map(|e| e.summary.clone()),
        Some("gost 进程异常退出，退出码: -3".to_string())
    );
}

#[test]
fn stop_without_a_process_applies_the_failure_at_once() {
    let mut core = GostProcessCore::new();
    let failure = Some("bad".to_string());
    assert_eq!(core.begin_stop_at(&failure, at(5)), StopStep::Finished);
    assert_eq!(core.runtime.process_status, ProcessStatus::Failed);
    assert_eq!(core.runtime.last_error.as_ref().map(|e| e.observed_at), Some(at(5)));
}

#[test]
fn the_log_keeps_only_the_newest_entries() {
    let mut logs: Vec<ProcessLogEntry> = Vec::new();
    for i in 0..(MAX_LOG_ENTRIES + 3) {
        push_log(
            &mut logs,
            ProcessLogEntry { source: ProcessLogSource::AppInfo, message: i.to_string(), observed_at: at(i as i64) },
        );
    }
    assert_eq!(logs.len(), MAX_LOG_ENTRIES);
    assert_eq!(logs[0].message, "3");
    assert_eq!(logs[MAX_LOG_ENTRIES - 1].message, (MAX_LOG_ENTRIES + 2).to_string());
}

#[test]
fn application_logs_are_stamped_by_the_clock() {
    let mut core = GostProcessCore::new();
    core.append_app_info_log("info".to_string());
    core.append_app_error_log("error".to_string());
    assert_eq!(core.logs.len(), 2);
    assert_eq!(core.logs[0].source, ProcessLogSource::AppInfo);
    assert_eq!(core.logs[1].source, ProcessLogSource::AppError);
    assert!(core.logs[0].observed_at.secs > 1_600_000_000);
    core.clear_logs();
    assert!(core.log_snapshot().is_empty());
}

#[test]
fn stale_pid_files_are_cleared_with_the_right_context() {
    assert_eq!(stale_pid_action(&Ok(None), true), StalePidAction::Nothing);
    assert_eq!(
        stale_pid_action(&Ok(Some(12)), false),
        StalePidAction::Clear { terminate: None, context: "清理残留 PID 文件失败".to_string() }
    );
    assert_eq!(
        stale_pid_action(&Ok(Some(12)), true),
        StalePidAction::Clear { terminate: Some(12), context: "清理残留 PID 文件失败".to_string() }
    );
    assert_eq!(
        stale_pid_action(&Err("bad".to_string()), true),
        StalePidAction::Clear { terminate: None, context: "清理损坏 PID 文件失败".to_string() }
    );
}

#[test]
fn rule_statuses_follow_the_rule_ids() {
    let statuses = build_rule_statuses(&ids(&["x", "y"]), RuleProcessStatus::Starting, &Some("e".to_string()));
    assert_eq!(statuses.len(), 2);
    assert_eq!(statuses[1].rule_id, "y");
    assert_eq!(statuses[1].last_error_summary.as_deref(), Some("e"));
    let mut runtime = RuntimeState::new();
    runtime.rule_statuses = statuses;
    update_rule_statuses(&mut runtime, RuleProcessStatus::Failed, &None);
    assert!(runtime.rule_statuses.iter().all(|s| s.status == RuleProcessStatus::Failed && s.last_error_summary.is_none()));
}

#[test]
fn a_probe_that_passes_after_the_process_exited_fails_the_start() {
    let mut core = GostProcessCore::new();
    core.launched(11, &ids(&["r"]));
    core.child_exited_at(11, true, Some(0), at(1));
    match core.after_probe(11, &Ok(())) {
        ProbeVerdict::Stop { failure, error } => {
            assert_eq!(failure, "gost 进程在 API 探活成功前已退出");
            assert_eq!(error, GostProcessError::HealthCheck(failure.clone()));
        }
        ProbeVerdict::Running(_) => panic!("a dead process is not running"),
    }
    assert_ne!(core.runtime.process_status, ProcessStatus::Running);

    let mut core = GostProcessCore::new();
    core.launched(12, &ids(&["r"]));
    match core.after_probe(12, &Ok(())) {
        ProbeVerdict::Running(runtime) => assert_eq!(runtime.process_status, ProcessStatus::Running),
        ProbeVerdict::Stop { .. } => panic!("a live process passes"),
    }
}

#[test]
fn probe_attempts_retry_until_the_deadline() {
    let url = "http://127.0.0.1:1/api";
    assert_eq!(probe_step(&Ok(()), true, url), ProbeStep::Done);
    assert_eq!(probe_step(&Err("refused".to_string()), false, url), ProbeStep::Retry);
    assert_eq!(
        probe_step(&Err("refused".to_string()), true, url),
        ProbeStep::Fail(GostProcessError::HealthCheck(
            "探活超时，URL=http://127.0.0.1:1/api，最后一次错误: refused".to_string()
        ))
    );
}

#[test]
fn only_the_managed_exit_clears_the_pid_file() {
    let mut core = GostProcessCore::new();
    core.launched(1, &ids(&["r"]));
    core.begin_stop_at(&None, at(1));
    core.finish_stop_at(&None, at(2));
    core.launched(2, &ids(&["r"]));
    assert!(!core.child_exited_at(1, true, Some(0), at(3)));
    assert_eq!(core.process, Some(2));
    assert!(core.child_exited_at(2, true, Some(0), at(4)));
}
