//! How the two TOML stores read and replace their file. Loading writes the
//! default snapshot when the file is missing or blank and decodes it
//! otherwise; saving writes a temporary file beside the target, flushes it
//! and renames it over the target in one step, so the target always holds
//! either its old contents or the new ones. No step removes or truncates the
//! target: when the rename fails the save fails and the target is left as it
//! was (the temporary file stays behind). The application performs each step
//! and hands back its outcome; the functions here decide what comes next.

use vstd::prelude::*;
use vstd::string::*;
use crate::text::{is_blank, is_blank_str};

verus! {

/// Which file a store keeps.
#[derive(Debug, Clone, Copy, PartialEq, Eq, Structural)]
pub enum StoreKind {
    Rules,
    RuntimeState,
}

impl StoreKind {
    /// How messages name the file.
    pub open spec fn spec_noun(self) -> Seq<char> {
        match self {
            StoreKind::Rules => "规则文件"@,
            StoreKind::RuntimeState => "运行态文件"@,
        }
    }

    pub fn noun(&self) -> (r: &'static str)
        ensures
            r@ == self.spec_noun(),
    {
        match self {
            StoreKind::Rules => "规则文件",
            StoreKind::RuntimeState => "运行态文件",
        }
    }
}

/// The file of a store and the temporary file it is written through.
#[derive(Debug, PartialEq, Eq)]
pub struct StoreFile {
    kind: StoreKind,
    target: String,
    temp: String,
}

/// What comes of reading the file.
#[derive(Debug, PartialEq, Eq)]
pub enum LoadStep {
    /// The file is missing or blank: write the default snapshot and use it.
    WriteDefault,
    /// Decode these contents.
    Decode(String),
    /// Reading failed: the message and the I/O error's text.
    Fail(String, String),
}

/// The steps of replacing the file.
#[derive(Debug, PartialEq, Eq)]
pub enum WriteStep {
    /// Create the temporary file.
    CreateTemp,
    /// Write the contents into it.
    WriteTemp,
    /// Flush it to disk.
    SyncTemp,
    /// Rename it over the target, replacing the target in one step.
    Rename,
}

/// Whether a step changes the target file: only the rename does, and it
/// replaces the file whole.
pub open spec fn writes_target(step: WriteStep) -> bool {
    step is Rename
}

/// What follows a step.
#[derive(Debug, PartialEq, Eq)]
pub enum WriteNext {
    Continue(WriteStep),
    /// The file is replaced.
    Done,
    /// The write failed: the message and the I/O error's text.
    Fail(String, String),
}

impl StoreFile {
    pub closed spec fn spec_kind(&self) -> StoreKind {
        self.kind
    }

    pub closed spec fn spec_target(&self) -> Seq<char> {
        self.target@
    }

    /// The temporary file: the target's name with `.tmp` appended.
    pub closed spec fn spec_temp(&self) -> Seq<char> {
        self.temp@
    }

    #[verifier::type_invariant]
    spec fn temp_beside_target(self) -> bool {
        self.temp@ == self.target@ + ".tmp"@
    }

    /// The store file of `kind` at `target`.
    pub fn new(kind: StoreKind, target: &str) -> (r: StoreFile)
        ensures
            r.spec_kind() == kind,
            r.spec_target() == target@,
            r.spec_temp() == target@ + ".tmp"@,
    {
        let mut temp = String::from_str(target);
        temp.append(".tmp");
        StoreFile { kind, target: String::from_str(target), temp }
    }

    pub fn kind(&self) -> (r: StoreKind)
        ensures
            r == self.spec_kind(),
    {
        self.kind
    }

    pub fn target(&self) -> (r: &str)
        ensures
            r@ == self.spec_target(),
    {
        self.target.as_str()
    }

    pub fn temp(&self) -> (r: &str)
        ensures
            r@ == self.spec_temp(),
            r@ == self.spec_target() + ".tmp"@,
    {
        proof {
            use_type_invariant(self);
        }
        self.temp.as_str()
    }

    fn message_with(&self, prefix: &str, path: &str) -> (r: String)
        ensures
            r@ == prefix@ + self.spec_kind().spec_noun() + "失败: "@ + path@,
    {
        let mut m = String::from_str(prefix);
        m.append(self.kind.noun());
        m.append("失败: ");
        m.append(path);
        m
    }

    /// The message of a file that could not be decoded.
    pub fn decode_failure_message(&self) -> (r: String)
        ensures
            r@ == "解析"@ + self.spec_kind().spec_noun() + "失败: "@ + self.spec_target(),
    {
        self.message_with("解析", self.target.as_str())
    }

    /// What to do with the file as read: `Ok(None)` when there is none.
    pub fn after_read(&self, read: Result<Option<String>, String>) -> (r: LoadStep)
        ensures
            match read {
                Ok(None) => r == LoadStep::WriteDefault,
                Ok(Some(c)) => if is_blank(c@) {
                    r == LoadStep::WriteDefault
                } else {
                    r matches LoadStep::Decode(d) && d@ == c@
                },
                Err(e) => r matches LoadStep::Fail(m, x) && m@ == "读取"@ + self.spec_kind().spec_noun()
                    + "失败: "@ + self.spec_target() && x@ == e@,
            },
    {
        match read {
            Ok(None) => LoadStep::WriteDefault,
            Ok(Some(c)) => {
                if is_blank_str(c.as_str()) {
                    LoadStep::WriteDefault
                } else {
                    LoadStep::Decode(c)
                }
            },
            Err(e) => LoadStep::Fail(self.message_with("读取", self.target.as_str()), e),
        }
    }

    /// The step after `step` ended with `outcome`. The file is replaced only
    /// by a rename that succeeded; a failed rename ends the save with the
    /// rename's error, the target untouched.
    pub fn advance(&self, step: &WriteStep, outcome: Result<(), String>) -> (r: WriteNext)
        ensures
            match (step, outcome) {
                (WriteStep::CreateTemp, Ok(())) => r == WriteNext::Continue(WriteStep::WriteTemp),
                (WriteStep::WriteTemp, Ok(())) => r == WriteNext::Continue(WriteStep::SyncTemp),
                (WriteStep::SyncTemp, Ok(())) => r == WriteNext::Continue(WriteStep::Rename),
                (WriteStep::Rename, Ok(())) => r == WriteNext::Done,
                (WriteStep::CreateTemp, Err(e)) => r matches WriteNext::Fail(m, x) && m@ == "创建临时"@
                    + self.spec_kind().spec_noun() + "失败: "@ + self.spec_temp() && x@ == e@,
                (WriteStep::WriteTemp, Err(e)) => r matches WriteNext::Fail(m, x) && m@ == "写入临时"@
                    + self.spec_kind().spec_noun() + "失败: "@ + self.spec_temp() && x@ == e@,
                (WriteStep::SyncTemp, Err(e)) => r matches WriteNext::Fail(m, x) && m@ == "刷新临时"@
                    + self.spec_kind().spec_noun() + "失败: "@ + self.spec_temp() && x@ == e@,
                (WriteStep::Rename, Err(e)) => r matches WriteNext::Fail(m, x) && m@ == "重命名临时"@
                    + self.spec_kind().spec_noun() + "失败: "@ + self.spec_temp() + " -> "@
                    + self.spec_target() && x@ == e@,
            },
            r matches WriteNext::Done ==> *step is Rename,
            r matches WriteNext::Continue(s) ==> !writes_target(s) || (*step is SyncTemp),
    {
        match step {
            WriteStep::CreateTemp => match outcome {
                Ok(()) => WriteNext::Continue(WriteStep::WriteTemp),
                Err(e) => WriteNext::Fail(self.message_with("创建临时", self.temp.as_str()), e),
            },
            WriteStep::WriteTemp => match outcome {
                Ok(()) => WriteNext::Continue(WriteStep::SyncTemp),
                Err(e) => WriteNext::Fail(self.message_with("写入临时", self.temp.as_str()), e),
            },
            WriteStep::SyncTemp => match outcome {
                Ok(()) => WriteNext::Continue(WriteStep::Rename),
                Err(e) => WriteNext::Fail(self.message_with("刷新临时", self.temp.as_str()), e),
            },
            WriteStep::Rename => match outcome {
                Ok(()) => WriteNext::Done,
                Err(e) => {
                    let mut m = self.message_with("重命名临时", self.temp.as_str());
                    m.append(" -> ");
                    m.append(self.target.as_str());
                    WriteNext::Fail(m, e)
                },
            },
        }
    }
}

} // verus!
