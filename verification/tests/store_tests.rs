use porthole::paths::AppPaths;
use porthole::rule::IdSet;
use porthole::rule_store::{RuleStore, RuleStoreError};
use porthole::runtime_state_store::{PersistedRuntimeState, RuntimeStateStore, RuntimeStateStoreError};
use porthole::store::{LoadStep, StoreFile, StoreKind, WriteNext, WriteStep};

#[test]
fn missing_or_blank_files_ask_for_the_default_snapshot() {
    let store = RuleStore::new(AppPaths::new("/data"));
    assert_eq!(store.load_plan(Ok(None)), Ok(None));
    assert_eq!(store.load_plan(Ok(Some("  \n".to_string()))), Ok(None));
    assert_eq!(store.load_plan(Ok(Some("".to_string()))), Ok(None));
    assert_eq!(
        store.load_plan(Ok(Some("rules = []\n".to_string()))),
        Ok(Some("rules = []\n".to_string()))
    );
    assert_eq!(
        store.load_plan(Err("denied".to_string())),
        Err(RuleStoreError::Io("读取规则文件失败: /data/rules.toml".to_string(), "denied".to_string()))
    );
}

#[test]
fn store_errors_name_their_file() {
    let store = RuleStore::new(AppPaths::new("/data/"));
    assert_eq!(store.file().target(), "/data/rules.toml");
    assert_eq!(store.file().temp(), "/data/rules.toml.tmp");
    assert_eq!(
        store.decode_error("bad".to_string()).message(),
        "解析规则文件失败: /data/rules.toml: bad"
    );
    assert_eq!(RuleStore::encode_error("e".to_string()).message(), "序列化规则配置失败: e");
    assert_eq!(RuleStore::data_dir_error("e".to_string()).message(), "创建应用数据目录失败: e");
    assert_eq!(RuleStoreError::LockPoisoned.message(), "规则存储写锁已损坏");

    let runtime = RuntimeStateStore::new(AppPaths::new("/d"));
    assert_eq!(runtime.file().target(), "/d/runtime-state.toml");
    assert_eq!(runtime.file().temp(), "/d/runtime-state.toml.tmp");
    assert_eq!(runtime.paths().data_dir(), "/d");
    assert_eq!(
        runtime.load_plan(Err("x".to_string())),
        Err(RuntimeStateStoreError::Io("读取运行态文件失败: /d/runtime-state.toml".to_string(), "x".to_string()))
    );
    assert_eq!(RuntimeStateStoreError::LockPoisoned.message(), "运行态存储写锁已损坏");
    assert_eq!(RuntimeStateStore::encode_error("e".to_string()).message(), "序列化运行态失败: e");
    assert!(PersistedRuntimeState::new().last_active_rule_ids.is_empty());
}

#[test]
fn a_plain_write_goes_through_every_step() {
    let file = StoreFile::new(StoreKind::Rules, "/data/rules.toml");
    let mut step = WriteStep::CreateTemp;
    let mut seen = 0;
    loop {
        match file.advance(&step, Ok(())) {
            WriteNext::Continue(next) => {
                step = next;
                seen += 1;
            }
            WriteNext::Done => break,
            other => panic!("unexpected {other:?}"),
        }
    }
    assert_eq!(seen, 3);
    assert_eq!(step, WriteStep::Rename);
}

#[test]
fn a_failed_rename_leaves_the_target_alone() {
    let file = StoreFile::new(StoreKind::RuntimeState, "/d/runtime-state.toml");
    assert_eq!(
        file.advance(&WriteStep::Rename, Err("busy".to_string())),
        WriteNext::Fail(
            "重命名临时运行态文件失败: /d/runtime-state.toml.tmp -> /d/runtime-state.toml".to_string(),
            "busy".to_string(),
        )
    );
}

#[test]
fn write_failures_name_the_step_and_file() {
    let file = StoreFile::new(StoreKind::Rules, "/r.toml");
    assert_eq!(
        file.advance(&WriteStep::CreateTemp, Err("e".to_string())),
        WriteNext::Fail("创建临时规则文件失败: /r.toml.tmp".to_string(), "e".to_string())
    );
    assert_eq!(
        file.advance(&WriteStep::WriteTemp, Err("e".to_string())),
        WriteNext::Fail("写入临时规则文件失败: /r.toml.tmp".to_string(), "e".to_string())
    );
    assert_eq!(
        file.advance(&WriteStep::SyncTemp, Err("e".to_string())),
        WriteNext::Fail("刷新临时规则文件失败: /r.toml.tmp".to_string(), "e".to_string())
    );
    assert_eq!(
        file.after_read(Ok(Some("x".to_string()))),
        LoadStep::Decode("x".to_string())
    );
    assert_eq!(file.decode_failure_message(), "解析规则文件失败: /r.toml");
}

#[test]
fn persisted_state_holds_a_set_of_ids() {
    let state = PersistedRuntimeState {
        last_active_rule_ids: IdSet::from_vec(vec!["rule-2".to_string(), "rule-1".to_string()]),
    };
    assert!(state.last_active_rule_ids.contains("rule-1"));
    assert_eq!(state.last_active_rule_ids.len(), 2);
}

#[test]
fn runtime_state_store_errors_name_their_file() {
    let store = RuntimeStateStore::new(AppPaths::new("/d"));
    assert_eq!(
        store.decode_error("bad".to_string()),
        RuntimeStateStoreError::TomlDecode("解析运行态文件失败: /d/runtime-state.toml".to_string(), "bad".to_string())
    );
    assert_eq!(
        RuntimeStateStore::data_dir_error("e".to_string()).message(),
        "创建应用数据目录失败: e"
    );
    assert_eq!(store.load_plan(Ok(None)), Ok(None));
    assert_eq!(store.load_plan(Ok(Some("x = 1".to_string()))), Ok(Some("x = 1".to_string())));
}
