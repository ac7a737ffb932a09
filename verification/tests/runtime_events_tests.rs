use porthole::gost_process::{GostProcessCore, ProcessLogEntry, ProcessLogSource};
use porthole::rule::{IdSet, Timestamp};
use porthole::runtime::{ProcessStatus, RuntimeState};
use porthole::runtime_events::{logs_appended, process_exited, RuntimeEventBridge, RuntimeEventMessage};

fn ids(items: &[&str]) -> IdSet {
    IdSet::from_vec(items.iter().map(|s| s.to_string()).collect())
}

fn names(events: &[RuntimeEventMessage]) -> Vec<&'static str> {
    events.iter().map(|e| e.event_name()).collect()
}

#[test]
fn runtime_bridge_emits_process_exit_and_log_events() {
    let mut core = GostProcessCore::new();
    let mut bridge = RuntimeEventBridge::new(core.runtime_snapshot(), core.appended);
    assert!(bridge.poll(core.runtime_snapshot(), &core.log_snapshot(), core.appended).is_empty());

    core.launched(3, &ids(&["exit-rule"]));
    core.health_confirmed();
    core.output_line_at(ProcessLogSource::Stdout, "process-started".to_string(), Timestamp::new(1, 0));
    let events = bridge.poll(core.runtime_snapshot(), &core.log_snapshot(), core.appended);
    assert_eq!(names(&events), vec!["runtime://changed", "logs://appended"]);
    match &events[1] {
        RuntimeEventMessage::LogsAppended(p) => {
            assert!(p.entries.iter().any(|e| e.message.contains("process-started")))
        }
        _ => panic!("logs expected"),
    }

    core.child_exited_at(3, true, Some(0), Timestamp::new(2, 0));
    let events = bridge.poll(core.runtime_snapshot(), &core.log_snapshot(), core.appended);
    assert_eq!(names(&events), vec!["runtime://changed", "runtime://process-exited"]);
    match &events[1] {
        RuntimeEventMessage::ProcessExited(p) => {
            assert_eq!(p.runtime.process_status, ProcessStatus::Stopped);
            assert_eq!(p.reason, None);
        }
        _ => panic!("exit expected"),
    }
    assert!(bridge.poll(core.runtime_snapshot(), &core.log_snapshot(), core.appended).is_empty());
}

#[test]
fn a_cleared_log_is_followed_without_an_event() {
    let mut core = GostProcessCore::new();
    core.append_log_at(ProcessLogSource::AppInfo, "a".to_string(), Timestamp::new(1, 0));
    let mut bridge = RuntimeEventBridge::new(core.runtime_snapshot(), 1);
    core.clear_logs();
    assert!(bridge.poll(core.runtime_snapshot(), &core.log_snapshot(), core.appended).is_empty());
    core.append_log_at(ProcessLogSource::AppInfo, "b".to_string(), Timestamp::new(2, 0));
    let events = bridge.poll(core.runtime_snapshot(), &core.log_snapshot(), core.appended);
    assert_eq!(names(&events), vec!["logs://appended"]);
}

#[test]
fn entries_appended_to_a_full_log_are_delivered() {
    let mut core = GostProcessCore::new();
    for i in 0..600 {
        core.append_log_at(ProcessLogSource::AppInfo, format!("old-{i}"), Timestamp::new(i, 0));
    }
    assert_eq!(core.log_snapshot().len(), 500);
    let mut bridge = RuntimeEventBridge::new(core.runtime_snapshot(), core.appended);
    core.append_log_at(ProcessLogSource::Stdout, "new-1".to_string(), Timestamp::new(700, 0));
    core.append_log_at(ProcessLogSource::Stdout, "new-2".to_string(), Timestamp::new(701, 0));
    assert_eq!(core.log_snapshot().len(), 500);
    let events = bridge.poll(core.runtime_snapshot(), &core.log_snapshot(), core.appended);
    assert_eq!(names(&events), vec!["logs://appended"]);
    match &events[0] {
        RuntimeEventMessage::LogsAppended(p) => {
            let messages: Vec<&str> = p.entries.iter().map(|e| e.message.as_str()).collect();
            assert_eq!(messages, vec!["new-1", "new-2"]);
        }
        _ => panic!("logs expected"),
    }
    assert!(bridge.poll(core.runtime_snapshot(), &core.log_snapshot(), core.appended).is_empty());
}

#[test]
fn failed_exit_carries_the_last_error_as_reason() {
    let mut core = GostProcessCore::new();
    core.launched(3, &ids(&["r"]));
    let mut bridge = RuntimeEventBridge::new(core.runtime_snapshot(), 0);
    core.child_exited_at(3, false, Some(2), Timestamp::new(9, 0));
    let events = bridge.poll(core.runtime_snapshot(), &core.log_snapshot(), core.appended);
    match &events[1] {
        RuntimeEventMessage::ProcessExited(p) => {
            assert_eq!(p.reason.as_deref(), Some("gost 进程异常退出，退出码: 2"))
        }
        _ => panic!("exit expected"),
    }
}

#[test]
fn empty_log_batches_are_not_emitted() {
    assert!(logs_appended(Vec::new()).is_none());
    let entry = ProcessLogEntry {
        source: ProcessLogSource::Stdout,
        message: "x".to_string(),
        observed_at: Timestamp::new(0, 0),
    };
    let event = logs_appended(vec![entry]).expect("one entry");
    assert_eq!(event.event_name(), "logs://appended");
    let exited = process_exited(RuntimeState::new());
    assert_eq!(exited.event_name(), "runtime://process-exited");
}
