//! The store of the runtime state kept across launches:
//! `runtime-state.toml` in the data directory, which remembers the rules that
//! were running. The TOML text is made and decoded by the application; the
//! store decides what a read means and names every failure.

use vstd::prelude::*;
use vstd::string::*;
use crate::paths::{joined_path, AppPaths};
use crate::store::{LoadStep, StoreFile, StoreKind};
use crate::rule::IdSet;

verus! {

/// What is kept across launches: the rules that were running.
#[derive(Debug, PartialEq, Eq)]
pub struct PersistedRuntimeState {
    pub last_active_rule_ids: IdSet,
}

impl PersistedRuntimeState {
    /// No rule was running; what a missing or blank file stands for.
    pub fn new() -> (r: PersistedRuntimeState)
        ensures
            r.last_active_rule_ids@.len() == 0,
    {
        PersistedRuntimeState { last_active_rule_ids: IdSet::new() }
    }
}

impl Default for PersistedRuntimeState {
    fn default() -> (r: PersistedRuntimeState)
        ensures
            r.last_active_rule_ids@.len() == 0,
    {
        PersistedRuntimeState::new()
    }
}

/// Why the runtime state store failed: a message and the underlying error's text.
#[derive(Debug, PartialEq, Eq)]
pub enum RuntimeStateStoreError {
    Io(String, String),
    TomlDecode(String, String),
    TomlEncode(String, String),
    LockPoisoned,
}

impl RuntimeStateStoreError {
    pub open spec fn spec_message(&self) -> Seq<char> {
        match self {
            RuntimeStateStoreError::Io(m, e) => m@ + ": "@ + e@,
            RuntimeStateStoreError::TomlDecode(m, e) => m@ + ": "@ + e@,
            RuntimeStateStoreError::TomlEncode(m, e) => m@ + ": "@ + e@,
            RuntimeStateStoreError::LockPoisoned => "运行态存储写锁已损坏"@,
        }
    }

    /// The text that the error displays.
    pub fn message(&self) -> (r: String)
        ensures
            r@ == self.spec_message(),
    {
        match self {
            RuntimeStateStoreError::Io(m, e) | RuntimeStateStoreError::TomlDecode(m, e) | RuntimeStateStoreError::TomlEncode(
                m,
                e,
            ) => {
                let mut r = m.clone();
                r.append(": ");
                r.append(e.as_str());
                r
            },
            RuntimeStateStoreError::LockPoisoned => String::from_str("运行态存储写锁已损坏"),
        }
    }
}

/// The runtime state store of a data directory.
#[derive(Debug, PartialEq, Eq)]
pub struct RuntimeStateStore {
    paths: AppPaths,
    file: StoreFile,
}

impl RuntimeStateStore {
    #[verifier::type_invariant]
    spec fn file_of_paths(self) -> bool {
        &&& self.file.spec_kind() == StoreKind::RuntimeState
        &&& self.file.spec_target() == joined_path(self.paths.spec_data_dir(), "runtime-state.toml"@, self.paths.spec_separator())
    }

    pub closed spec fn spec_data_dir(&self) -> Seq<char> {
        self.paths.spec_data_dir()
    }

    /// The path separator of the store's paths.
    pub closed spec fn spec_separator(&self) -> char {
        self.paths.spec_separator()
    }

    /// The store of the runtime state file of `paths`.
    pub fn new(paths: AppPaths) -> (r: RuntimeStateStore)
        ensures
            r.spec_data_dir() == paths.spec_data_dir(),
            r.spec_separator() == paths.spec_separator(),
    {
        let file = StoreFile::new(StoreKind::RuntimeState, paths.runtime_state_file());
        RuntimeStateStore { paths, file }
    }

    pub fn paths(&self) -> (r: &AppPaths)
        ensures
            r.spec_data_dir() == self.spec_data_dir(),
            r.spec_separator() == self.spec_separator(),
    {
        &self.paths
    }

    /// The runtime state file and the temporary file it is replaced through.
    pub fn file(&self) -> (r: &StoreFile)
        ensures
            r.spec_kind() == StoreKind::RuntimeState,
            r.spec_target() == joined_path(self.spec_data_dir(), "runtime-state.toml"@, self.spec_separator()),
    {
        proof {
            use_type_invariant(self);
        }
        &self.file
    }

    /// What a read of the runtime state file means: `Ok(None)` asks for the default
    /// snapshot to be written, `Ok(Some(text))` for the text to be decoded.
    pub fn load_plan(&self, read: Result<Option<String>, String>) -> (r: Result<Option<String>, RuntimeStateStoreError>)
        ensures
            match read {
                Ok(None) => r == Ok::<Option<String>, RuntimeStateStoreError>(None),
                Ok(Some(c)) => if crate::text::is_blank(c@) {
                    r == Ok::<Option<String>, RuntimeStateStoreError>(None)
                } else {
                    r matches Ok(Some(d)) && d@ == c@
                },
                Err(e) => r matches Err(RuntimeStateStoreError::Io(m, x)) && m@ == "读取运行态文件失败: "@
                    + joined_path(self.spec_data_dir(), "runtime-state.toml"@, self.spec_separator()) && x@ == e@,
            },
    {
        proof {
            use_type_invariant(self);
            reveal_strlit("运行态文件");
        }
        match self.file.after_read(read) {
            LoadStep::WriteDefault => Ok(None),
            LoadStep::Decode(c) => Ok(Some(c)),
            LoadStep::Fail(m, e) => {
                assert(m@ == "读取"@ + "运行态文件"@ + "失败: "@ + joined_path(self.spec_data_dir(), "runtime-state.toml"@, self.spec_separator()));
                assert("读取"@ + "运行态文件"@ + "失败: "@ =~= "读取运行态文件失败: "@) by {
                    reveal_strlit("读取");
                    reveal_strlit("失败: ");
                    reveal_strlit("读取运行态文件失败: ");
                }
                Err(RuntimeStateStoreError::Io(m, e))
            },
        }
    }

    /// The error of runtime state text that does not decode.
    pub fn decode_error(&self, err: String) -> (r: RuntimeStateStoreError)
        ensures
            r matches RuntimeStateStoreError::TomlDecode(m, x) && m@ == "解析运行态文件失败: "@ + joined_path(
                self.spec_data_dir(),
                "runtime-state.toml"@,
                self.spec_separator(),
            ) && x@ == err@,
    {
        proof {
            use_type_invariant(self);
            reveal_strlit("运行态文件");
            reveal_strlit("解析");
            reveal_strlit("失败: ");
            reveal_strlit("解析运行态文件失败: ");
        }
        let m = self.file.decode_failure_message();
        assert("解析"@ + "运行态文件"@ + "失败: "@ =~= "解析运行态文件失败: "@);
        RuntimeStateStoreError::TomlDecode(m, err)
    }

    /// The error of a runtime state that does not encode.
    pub fn encode_error(err: String) -> (r: RuntimeStateStoreError)
        ensures
            r matches RuntimeStateStoreError::TomlEncode(m, x) && m@ == "序列化运行态失败"@ && x@ == err@,
    {
        RuntimeStateStoreError::TomlEncode(String::from_str("序列化运行态失败"), err)
    }

    /// The error of a data directory that could not be created.
    pub fn data_dir_error(err: String) -> (r: RuntimeStateStoreError)
        ensures
            r matches RuntimeStateStoreError::Io(m, x) && m@ == "创建应用数据目录失败"@ && x@ == err@,
    {
        RuntimeStateStoreError::Io(String::from_str("创建应用数据目录失败"), err)
    }
}

} // verus!
