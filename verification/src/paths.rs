//! Where the application keeps its files, below its data directory.

use vstd::prelude::*;
use vstd::string::*;
use crate::text::{chars_of, push_char};

verus! {

/// A path separator where `separator` is the platform's own: `/` always is
/// one, and on Windows `\` is too.
pub open spec fn is_separator(c: char, separator: char) -> bool {
    c == '/' || c == separator
}

/// `Path::join` with a relative name: the platform's separator goes between
/// the two unless the base is empty or already ends with a separator. (On
/// Windows, `Path::join` also adds none after a bare drive such as `C:`; the
/// application's data directory is never one.)
pub open spec fn joined_path(base: Seq<char>, name: Seq<char>, separator: char) -> Seq<char> {
    if base.len() == 0 {
        name
    } else if is_separator(base.last(), separator) {
        base + name
    } else {
        base + seq![separator] + name
    }
}

/// `std::path::MAIN_SEPARATOR`, which std documents as `\` on Windows and
/// `/` on every other platform.
#[verifier::external_body]
pub(crate) fn main_separator() -> (c: char)
    ensures
        c == '/' || c == '\\',
{
    std::path::MAIN_SEPARATOR
}

/// Joins a relative name onto a directory with the given separator.
pub fn join_path(base: &str, name: &str, separator: char) -> (r: String)
    ensures
        r@ == joined_path(base@, name@, separator),
{
    let cs = chars_of(base);
    let mut r = String::from_str(base);
    if cs.len() > 0 && cs[cs.len() - 1] != '/' && cs[cs.len() - 1] != separator {
        push_char(&mut r, separator);
    }
    r.append(name);
    r
}

/// The files of the application.
#[derive(Debug, PartialEq, Eq)]
pub struct AppPaths {
    data_dir: String,
    rules_file: String,
    runtime_state_file: String,
    gost_config_file: String,
    gost_pid_file: String,
    sidecar_dir: String,
    gost_runtime_executable: String,
    separator: char,
}

impl AppPaths {
    #[verifier::type_invariant]
    spec fn laid_out(self) -> bool {
        &&& self.rules_file@ == joined_path(self.data_dir@, "rules.toml"@, self.separator)
        &&& self.runtime_state_file@ == joined_path(self.data_dir@, "runtime-state.toml"@, self.separator)
        &&& self.gost_config_file@ == joined_path(self.data_dir@, "gost.yaml"@, self.separator)
        &&& self.gost_pid_file@ == joined_path(self.data_dir@, "gost.pid"@, self.separator)
        &&& self.sidecar_dir@ == joined_path(self.data_dir@, "sidecar"@, self.separator)
        &&& self.gost_runtime_executable@ == joined_path(self.sidecar_dir@, "gost.exe"@, self.separator)
    }

    /// The data directory.
    pub closed spec fn spec_data_dir(&self) -> Seq<char> {
        self.data_dir@
    }

    /// The platform's path separator that the files are joined with.
    pub closed spec fn spec_separator(&self) -> char {
        self.separator
    }

    /// Lays out the files below `data_dir`.
    pub fn new(data_dir: &str) -> (r: AppPaths)
        ensures
            r.spec_data_dir() == data_dir@,
            r.spec_separator() == '/' || r.spec_separator() == '\\',
    {
        let separator = main_separator();
        let sidecar_dir = join_path(data_dir, "sidecar", separator);
        let gost_runtime_executable = join_path(sidecar_dir.as_str(), "gost.exe", separator);
        AppPaths {
            rules_file: join_path(data_dir, "rules.toml", separator),
            runtime_state_file: join_path(data_dir, "runtime-state.toml", separator),
            gost_config_file: join_path(data_dir, "gost.yaml", separator),
            gost_pid_file: join_path(data_dir, "gost.pid", separator),
            gost_runtime_executable,
            sidecar_dir,
            data_dir: String::from_str(data_dir),
            separator,
        }
    }

    /// The path separator the files are joined with.
    pub fn separator(&self) -> (r: char)
        ensures
            r == self.spec_separator(),
    {
        self.separator
    }

    pub fn data_dir(&self) -> (r: &str)
        ensures
            r@ == self.spec_data_dir(),
    {
        self.data_dir.as_str()
    }

    pub fn rules_file(&self) -> (r: &str)
        ensures
            r@ == joined_path(self.spec_data_dir(), "rules.toml"@, self.spec_separator()),
    {
        proof {
            use_type_invariant(self);
        }
        self.rules_file.as_str()
    }

    pub fn gost_config_file(&self) -> (r: &str)
        ensures
            r@ == joined_path(self.spec_data_dir(), "gost.yaml"@, self.spec_separator()),
    {
        proof {
            use_type_invariant(self);
        }
        self.gost_config_file.as_str()
    }

    pub fn runtime_state_file(&self) -> (r: &str)
        ensures
            r@ == joined_path(self.spec_data_dir(), "runtime-state.toml"@, self.spec_separator()),
    {
        proof {
            use_type_invariant(self);
        }
        self.runtime_state_file.as_str()
    }

    pub fn gost_pid_file(&self) -> (r: &str)
        ensures
            r@ == joined_path(self.spec_data_dir(), "gost.pid"@, self.spec_separator()),
    {
        proof {
            use_type_invariant(self);
        }
        self.gost_pid_file.as_str()
    }

    pub fn sidecar_dir(&self) -> (r: &str)
        ensures
            r@ == joined_path(self.spec_data_dir(), "sidecar"@, self.spec_separator()),
    {
        proof {
            use_type_invariant(self);
        }
        self.sidecar_dir.as_str()
    }

    pub fn gost_runtime_executable(&self) -> (r: &str)
        ensures
            r@ == joined_path(joined_path(self.spec_data_dir(), "sidecar"@, self.spec_separator()), "gost.exe"@, self.spec_separator()),
    {
        proof {
            use_type_invariant(self);
        }
        self.gost_runtime_executable.as_str()
    }

    /// A copy of the layout.
    pub fn duplicate(&self) -> (r: AppPaths)
        ensures
            r.spec_data_dir() == self.spec_data_dir(),
            r.spec_separator() == self.spec_separator(),
    {
        proof {
            use_type_invariant(self);
        }
        AppPaths {
            data_dir: self.data_dir.clone(),
            rules_file: self.rules_file.clone(),
            runtime_state_file: self.runtime_state_file.clone(),
            gost_config_file: self.gost_config_file.clone(),
            gost_pid_file: self.gost_pid_file.clone(),
            sidecar_dir: self.sidecar_dir.clone(),
            gost_runtime_executable: self.gost_runtime_executable.clone(),
            separator: self.separator,
        }
    }
}

} // verus!
