//! The store of the rule set: `rules.toml` in the data directory. The TOML
//! text is made and decoded by the application; the store decides what a
//! read means and names every failure.

use vstd::prelude::*;
use vstd::string::*;
use crate::paths::{joined_path, AppPaths};
use crate::store::{LoadStep, StoreFile, StoreKind};

verus! {

/// Why the rule store failed: a message and the underlying error's text.
#[derive(Debug, PartialEq, Eq)]
pub enum RuleStoreError {
    Io(String, String),
    TomlDecode(String, String),
    TomlEncode(String, String),
    LockPoisoned,
}

impl RuleStoreError {
    pub open spec fn spec_message(&self) -> Seq<char> {
        match self {
            RuleStoreError::Io(m, e) => m@ + ": "@ + e@,
            RuleStoreError::TomlDecode(m, e) => m@ + ": "@ + e@,
            RuleStoreError::TomlEncode(m, e) => m@ + ": "@ + e@,
            RuleStoreError::LockPoisoned => "规则存储写锁已损坏"@,
        }
    }

    /// The text that the error displays.
    pub fn message(&self) -> (r: String)
        ensures
            r@ == self.spec_message(),
    {
        match self {
            RuleStoreError::Io(m, e) | RuleStoreError::TomlDecode(m, e) | RuleStoreError::TomlEncode(
                m,
                e,
            ) => {
                let mut r = m.clone();
                r.append(": ");
                r.append(e.as_str());
                r
            },
            RuleStoreError::LockPoisoned => String::from_str("规则存储写锁已损坏"),
        }
    }
}

/// The rule store of a data directory.
#[derive(Debug, PartialEq, Eq)]
pub struct RuleStore {
    paths: AppPaths,
    file: StoreFile,
}

impl RuleStore {
    #[verifier::type_invariant]
    spec fn file_of_paths(self) -> bool {
        &&& self.file.spec_kind() == StoreKind::Rules
        &&& self.file.spec_target() == joined_path(self.paths.spec_data_dir(), "rules.toml"@, self.paths.spec_separator())
    }

    pub closed spec fn spec_data_dir(&self) -> Seq<char> {
        self.paths.spec_data_dir()
    }

    /// The path separator of the store's paths.
    pub closed spec fn spec_separator(&self) -> char {
        self.paths.spec_separator()
    }

    /// The store of the rules file of `paths`.
    pub fn new(paths: AppPaths) -> (r: RuleStore)
        ensures
            r.spec_data_dir() == paths.spec_data_dir(),
            r.spec_separator() == paths.spec_separator(),
    {
        let file = StoreFile::new(StoreKind::Rules, paths.rules_file());
        RuleStore { paths, file }
    }

    pub fn paths(&self) -> (r: &AppPaths)
        ensures
            r.spec_data_dir() == self.spec_data_dir(),
            r.spec_separator() == self.spec_separator(),
    {
        &self.paths
    }

    /// The rules file and the temporary file it is replaced through.
    pub fn file(&self) -> (r: &StoreFile)
        ensures
            r.spec_kind() == StoreKind::Rules,
            r.spec_target() == joined_path(self.spec_data_dir(), "rules.toml"@, self.spec_separator()),
    {
        proof {
            use_type_invariant(self);
        }
        &self.file
    }

    /// What a read of the rules file means: `Ok(None)` asks for the default
    /// snapshot to be written, `Ok(Some(text))` for the text to be decoded.
    pub fn load_plan(&self, read: Result<Option<String>, String>) -> (r: Result<Option<String>, RuleStoreError>)
        ensures
            match read {
                Ok(None) => r == Ok::<Option<String>, RuleStoreError>(None),
                Ok(Some(c)) => if crate::text::is_blank(c@) {
                    r == Ok::<Option<String>, RuleStoreError>(None)
                } else {
                    r matches Ok(Some(d)) && d@ == c@
                },
                Err(e) => r matches Err(RuleStoreError::Io(m, x)) && m@ == "读取规则文件失败: "@
                    + joined_path(self.spec_data_dir(), "rules.toml"@, self.spec_separator()) && x@ == e@,
            },
    {
        proof {
            use_type_invariant(self);
            reveal_strlit("规则文件");
        }
        match self.file.after_read(read) {
            LoadStep::WriteDefault => Ok(None),
            LoadStep::Decode(c) => Ok(Some(c)),
            LoadStep::Fail(m, e) => {
                assert(m@ == "读取"@ + "规则文件"@ + "失败: "@ + joined_path(self.spec_data_dir(), "rules.toml"@, self.spec_separator()));
                assert("读取"@ + "规则文件"@ + "失败: "@ =~= "读取规则文件失败: "@) by {
                    reveal_strlit("读取");
                    reveal_strlit("失败: ");
                    reveal_strlit("读取规则文件失败: ");
                }
                Err(RuleStoreError::Io(m, e))
            },
        }
    }

    /// The error of rules text that does not decode.
    pub fn decode_error(&self, err: String) -> (r: RuleStoreError)
        ensures
            r matches RuleStoreError::TomlDecode(m, x) && m@ == "解析规则文件失败: "@ + joined_path(
                self.spec_data_dir(),
                "rules.toml"@,
                self.spec_separator(),
            ) && x@ == err@,
    {
        proof {
            use_type_invariant(self);
            reveal_strlit("规则文件");
            reveal_strlit("解析");
            reveal_strlit("失败: ");
            reveal_strlit("解析规则文件失败: ");
        }
        let m = self.file.decode_failure_message();
        assert("解析"@ + "规则文件"@ + "失败: "@ =~= "解析规则文件失败: "@);
        RuleStoreError::TomlDecode(m, err)
    }

    /// The error of a rule set that does not encode.
    pub fn encode_error(err: String) -> (r: RuleStoreError)
        ensures
            r matches RuleStoreError::TomlEncode(m, x) && m@ == "序列化规则配置失败"@ && x@ == err@,
    {
        RuleStoreError::TomlEncode(String::from_str("序列化规则配置失败"), err)
    }

    /// The error of a data directory that could not be created.
    pub fn data_dir_error(err: String) -> (r: RuleStoreError)
        ensures
            r matches RuleStoreError::Io(m, x) && m@ == "创建应用数据目录失败"@ && x@ == err@,
    {
        RuleStoreError::Io(String::from_str("创建应用数据目录失败"), err)
    }
}

} // verus!
