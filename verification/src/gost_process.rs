//! The decisions of the gost process manager: what a launch request must
//! satisfy, how the probe URL reads, and how the runtime state and the log
//! change as the process is launched, confirmed, stopped, exits or writes.
//! Spawning, killing, PID files and the health probe itself are the
//! application's part; it reports their outcomes here.

use vstd::prelude::*;
use vstd::string::*;
use crate::order::str_eq;
use crate::clock::current_time;
use crate::rule::{socket_addr, format_socket_addr, IdSet, Timestamp};
use crate::runtime::{
    all_set, clone_opt, error_view, opt_view, runtime_view, statuses_view, status_view, ProcessStatus,
    RuntimeView,
    RuleProcessStatus, RuleRuntimeStatus, RuntimeErrorSummary, RuntimeState,
};
use crate::text::{
    append_signed, chars_of, index_of_from, int_str, last_index_of_upto, parse_unsigned,
    parse_unsigned_chars, find_char, rfind_char, string_from_chars,
};

verus! {

/// The most log entries the manager keeps.
pub const MAX_LOG_ENTRIES: usize = 500;

/// Where a log line came from.
#[derive(Debug, Clone, Copy, PartialEq, Eq, Structural)]
pub enum ProcessLogSource {
    Stdout,
    Stderr,
    AppInfo,
    AppError,
}

/// One log line.
#[derive(Debug, PartialEq, Eq)]
pub struct ProcessLogEntry {
    pub source: ProcessLogSource,
    pub message: String,
    pub observed_at: Timestamp,
}

pub open spec fn entry_view(e: ProcessLogEntry) -> (ProcessLogSource, Seq<char>, Timestamp) {
    (e.source, e.message@, e.observed_at)
}

pub open spec fn entries_view(v: Seq<ProcessLogEntry>) -> Seq<(ProcessLogSource, Seq<char>, Timestamp)> {
    v.map_values(|e: ProcessLogEntry| entry_view(e))
}

/// The newest `MAX_LOG_ENTRIES` entries of a log.
pub open spec fn capped<A>(s: Seq<A>) -> Seq<A> {
    if s.len() <= 500 {
        s
    } else {
        s.skip(s.len() - 500)
    }
}

impl ProcessLogEntry {
    pub fn duplicate(&self) -> (r: ProcessLogEntry)
        ensures
            entry_view(r) == entry_view(*self),
    {
        ProcessLogEntry {
            source: self.source,
            message: self.message.clone(),
            observed_at: self.observed_at,
        }
    }
}

/// Appends an entry and drops the oldest ones beyond `MAX_LOG_ENTRIES`.
pub fn push_log(logs: &mut Vec<ProcessLogEntry>, entry: ProcessLogEntry)
    ensures
        entries_view(final(logs)@) == capped(entries_view(old(logs)@).push(entry_view(entry))),
        final(logs)@.len() <= MAX_LOG_ENTRIES,
{
    let ghost all = entries_view(logs@).push(entry_view(entry));
    logs.push(entry);
    assert(entries_view(logs@) =~= all);
    let ghost mut dropped: int = 0;
    while logs.len() > MAX_LOG_ENTRIES
        invariant
            0 <= dropped <= all.len(),
            entries_view(logs@) == all.skip(dropped),
            logs@.len() == all.len() - dropped,
            dropped > 0 ==> all.len() - dropped >= 500,
        decreases logs@.len(),
    {
        let ghost before = logs@;
        logs.remove(0);
        proof {
            assert(logs@ =~= before.subrange(1, before.len() as int));
            assert forall|k: int| 0 <= k < logs@.len() implies entries_view(logs@)[k] == all.skip(dropped + 1)[k] by {
                assert(entries_view(logs@)[k] == entry_view(logs@[k]));
                assert(logs@[k] == before[k + 1]);
                assert(entries_view(before)[k + 1] == entry_view(before[k + 1]));
                assert(all.skip(dropped)[k + 1] == all[dropped + k + 1]);
            }
            dropped = dropped + 1;
            assert(entries_view(logs@) =~= all.skip(dropped));
        }
    }
    proof {
        if all.len() <= 500 {
            assert(dropped == 0);
            assert(all.skip(0) =~= all);
        } else {
            assert(dropped == all.len() - 500);
        }
    }
}

/// A launch of the gost sidecar.
#[derive(Debug, PartialEq, Eq)]
pub struct GostLaunchRequest {
    pub executable_path: String,
    pub args: Vec<String>,
    pub api_probe_url: String,
    pub active_rule_ids: IdSet,
    pub health_check_interval_ms: u64,
    pub health_check_timeout_ms: u64,
}

impl GostLaunchRequest {
    /// A request that probes every 100 ms for at most 2 s.
    pub fn new(
        executable_path: String,
        args: Vec<String>,
        api_probe_url: String,
        active_rule_ids: IdSet,
    ) -> (r: GostLaunchRequest)
        ensures
            r.executable_path@ == executable_path@,
            r.args@ == args@,
            r.api_probe_url@ == api_probe_url@,
            r.active_rule_ids@ == active_rule_ids@,
            r.health_check_interval_ms == 100,
            r.health_check_timeout_ms == 2000,
    {
        GostLaunchRequest {
            executable_path,
            args,
            api_probe_url,
            active_rule_ids,
            health_check_interval_ms: 100,
            health_check_timeout_ms: 2000,
        }
    }
}

/// Why an operation on the gost process failed.
#[derive(Debug, PartialEq, Eq)]
pub enum GostProcessError {
    /// A message and the I/O error's own text.
    Io(String, String),
    HealthCheck(String),
    InvalidConfig(String),
}

impl GostProcessError {
    pub open spec fn spec_message(&self) -> Seq<char> {
        match self {
            GostProcessError::Io(m, e) => m@ + ": "@ + e@,
            GostProcessError::HealthCheck(m) => m@,
            GostProcessError::InvalidConfig(m) => m@,
        }
    }

    /// The text that the error displays.
    pub fn message(&self) -> (r: String)
        ensures
            r@ == self.spec_message(),
    {
        match self {
            GostProcessError::Io(m, e) => {
                let mut r = m.clone();
                r.append(": ");
                r.append(e.as_str());
                r
            },
            GostProcessError::HealthCheck(m) => m.clone(),
            GostProcessError::InvalidConfig(m) => m.clone(),
        }
    }
}

/// The I/O steps of starting and stopping the process.
#[derive(Debug, Clone, Copy, PartialEq, Eq, Structural)]
pub enum ProcessStage {
    CreateDataDir,
    CreateJobObject,
    AttachJobObject,
    WritePidFile,
    ClearPidFile,
}

impl ProcessStage {
    /// What failed, as the error message says it.
    pub open spec fn spec_message(self) -> Seq<char> {
        match self {
            ProcessStage::CreateDataDir => "创建应用数据目录失败"@,
            ProcessStage::CreateJobObject => "创建 Job Object 失败"@,
            ProcessStage::AttachJobObject => "绑定 Job Object 失败"@,
            ProcessStage::WritePidFile => "写入 gost PID 文件失败"@,
            ProcessStage::ClearPidFile => "清理 gost PID 文件失败"@,
        }
    }
}

/// The operations of the manager, each run under its lock.
#[derive(Debug, Clone, Copy, PartialEq, Eq, Structural)]
pub enum ManagerOperation {
    Start,
    Stop,
    Reload,
}

impl ManagerOperation {
    pub open spec fn spec_verb(self) -> Seq<char> {
        match self {
            ManagerOperation::Start => "启动"@,
            ManagerOperation::Stop => "停止"@,
            ManagerOperation::Reload => "重载"@,
        }
    }
}

impl GostProcessError {
    /// The error of an I/O step that failed with `err`.
    pub fn io_at(stage: ProcessStage, err: String) -> (r: GostProcessError)
        ensures
            r matches GostProcessError::Io(m, x) && m@ == stage.spec_message() && x@ == err@,
    {
        let m = match stage {
            ProcessStage::CreateDataDir => String::from_str("创建应用数据目录失败"),
            ProcessStage::CreateJobObject => String::from_str("创建 Job Object 失败"),
            ProcessStage::AttachJobObject => String::from_str("绑定 Job Object 失败"),
            ProcessStage::WritePidFile => String::from_str("写入 gost PID 文件失败"),
            ProcessStage::ClearPidFile => String::from_str("清理 gost PID 文件失败"),
        };
        GostProcessError::Io(m, err)
    }

    /// The error of an operation whose lock is poisoned.
    pub fn lock_poisoned(op: ManagerOperation) -> (r: GostProcessError)
        ensures
            r matches GostProcessError::InvalidConfig(m) && m@ == "进程管理锁已损坏，无法"@ + op.spec_verb() + " gost"@,
    {
        let mut m = String::from_str("进程管理锁已损坏，无法");
        match op {
            ManagerOperation::Start => m.append("启动"),
            ManagerOperation::Stop => m.append("停止"),
            ManagerOperation::Reload => m.append("重载"),
        }
        m.append(" gost");
        GostProcessError::InvalidConfig(m)
    }

    /// The error of a health check that ran out of time.
    pub fn probe_timeout(url: &str, last_error: &str) -> (r: GostProcessError)
        ensures
            r matches GostProcessError::HealthCheck(m) && m@ == "探活超时，URL="@ + url@ + "，最后一次错误: "@
                + last_error@,
    {
        let mut m = String::from_str("探活超时，URL=");
        m.append(url);
        m.append("，最后一次错误: ");
        m.append(last_error);
        GostProcessError::HealthCheck(m)
    }
}

/// Where to probe the gost API: the address to connect to, the `Host`
/// header (the bare host) and the request path.
#[derive(Debug, PartialEq, Eq)]
pub struct HttpProbeTarget {
    pub connect_addr: String,
    pub host_header: String,
    pub path: String,
}

impl HttpProbeTarget {
    /// The HTTP request a probe sends.
    pub fn request_text(&self) -> (r: String)
        ensures
            r@ == "GET "@ + self.path@ + " HTTP/1.1\r\nHost: "@ + self.host_header@
                + "\r\nConnection: close\r\n\r\n"@,
    {
        let mut r = String::from_str("GET ");
        r.append(self.path.as_str());
        r.append(" HTTP/1.1\r\nHost: ");
        r.append(self.host_header.as_str());
        r.append("\r\nConnection: close\r\n\r\n");
        r
    }
}

/// What follows one attempt of the health probe.
#[derive(Debug, PartialEq, Eq)]
pub enum ProbeStep {
    /// The API answered: the probe passed.
    Done,
    /// Wait one interval and try again.
    Retry,
    /// The deadline passed without an answer.
    Fail(GostProcessError),
}

/// The decision after one probe attempt on `url`: done on an answer, a retry
/// while the deadline has not passed, and a timeout carrying the last error
/// once it has.
pub fn probe_step(outcome: &Result<(), String>, deadline_passed: bool, url: &str) -> (r: ProbeStep)
    ensures
        match outcome {
            Ok(()) => r == ProbeStep::Done,
            Err(e) => if deadline_passed {
                r matches ProbeStep::Fail(GostProcessError::HealthCheck(m)) && m@ == "探活超时，URL="@
                    + url@ + "，最后一次错误: "@ + e@
            } else {
                r == ProbeStep::Retry
            },
        },
{
    match outcome {
        Ok(()) => ProbeStep::Done,
        Err(e) => {
            if deadline_passed {
                ProbeStep::Fail(GostProcessError::probe_timeout(url, e.as_str()))
            } else {
                ProbeStep::Retry
            }
        },
    }
}

/// What a probe target is made of.
pub struct ProbeTargetView {
    pub connect_addr: Seq<char>,
    pub host: Seq<char>,
    pub path: Seq<char>,
}

pub open spec fn starts_with(s: Seq<char>, p: Seq<char>) -> bool {
    p.len() <= s.len() && s.take(p.len() as int) == p
}

/// The target of a host, a port and a path.
pub open spec fn probe_target(host: Seq<char>, port: nat, path: Seq<char>) -> ProbeTargetView {
    ProbeTargetView { connect_addr: socket_addr(host, port), host, path }
}

/// Reads the port of a probe URL.
pub open spec fn probe_port(url: Seq<char>, host: Seq<char>, port_text: Seq<char>, path: Seq<char>) -> Result<ProbeTargetView, Seq<char>> {
    match parse_unsigned(port_text, 65535) {
        Ok(port) => Ok(probe_target(host, port, path)),
        Err(k) => Err("API 探活端口非法: "@ + k.spec_message()),
    }
}

/// Reads `http://host:port/path` or `http://[v6]:port/path`; the path is `/` when absent.
pub open spec fn parse_probe_url(url: Seq<char>) -> Result<ProbeTargetView, Seq<char>> {
    if !starts_with(url, "http://"@) {
        Err("API 探活地址不是合法的 HTTP URL: "@ + url)
    } else {
        let rest = url.skip(7);
        let p = index_of_from(rest, '/', 0);
        let authority = if p < 0 {
            rest
        } else {
            rest.take(p)
        };
        let path = if p < 0 {
            "/"@
        } else {
            "/"@ + rest.skip(p + 1)
        };
        if authority.len() == 0 {
            Err("API 探活地址缺少主机信息: "@ + url)
        } else if authority[0] == '[' {
            let e = index_of_from(authority, ']', 0);
            if e < 0 {
                Err("API 探活地址中的 IPv6 格式非法: "@ + url)
            } else {
                let after = authority.skip(e + 1);
                if after.len() == 0 || after[0] != ':' {
                    Err("API 探活地址缺少端口: "@ + url)
                } else {
                    probe_port(url, authority.subrange(1, e), after.skip(1), path)
                }
            }
        } else {
            let q = last_index_of_upto(authority, ':', authority.len() as int);
            if q < 0 {
                Err("API 探活地址缺少端口: "@ + url)
            } else {
                probe_port(url, authority.take(q), authority.skip(q + 1), path)
            }
        }
    }
}

fn copy_range(s: &[char], from: usize, to: usize) -> (r: String)
    requires
        from <= to <= s@.len(),
    ensures
        r@ == s@.subrange(from as int, to as int),
{
    let mut v: Vec<char> = Vec::new();
    let mut i = from;
    while i < to
        invariant
            from <= i <= to,
            to <= s@.len(),
            v@ == s@.subrange(from as int, i as int),
        decreases to - i,
    {
        v.push(s[i]);
        i = i + 1;
        assert(v@ =~= s@.subrange(from as int, i as int));
    }
    string_from_chars(v.as_slice())
}

fn invalid(prefix: &str, detail: &str) -> (r: GostProcessError)
    ensures
        r matches GostProcessError::InvalidConfig(m) && m@ == prefix@ + detail@,
{
    let mut m = String::from_str(prefix);
    m.append(detail);
    GostProcessError::InvalidConfig(m)
}

fn read_probe_port(url: &str, host: String, port_text: &[char], path: String) -> (r: Result<HttpProbeTarget, GostProcessError>)
    ensures
        match probe_port(url@, host@, port_text@, path@) {
            Ok(t) => r matches Ok(x) && x.connect_addr@ == t.connect_addr && x.host_header@ == t.host && x.path@ == t.path,
            Err(m) => r matches Err(GostProcessError::InvalidConfig(x)) && x@ == m,
        },
{
    match parse_unsigned_chars(port_text, 65535) {
        Ok(port) => {
            let connect_addr = format_socket_addr(host.as_str(), port as u16);
            Ok(HttpProbeTarget { connect_addr, host_header: host, path })
        },
        Err(k) => {
            let d = k.message();
            Err(invalid("API 探活端口非法: ", d.as_str()))
        },
    }
}

/// Reads the probe URL of the gost API.
pub fn parse_http_probe_url(url: &str) -> (r: Result<HttpProbeTarget, GostProcessError>)
    ensures
        match parse_probe_url(url@) {
            Ok(t) => r matches Ok(x) && x.connect_addr@ == t.connect_addr && x.host_header@ == t.host && x.path@ == t.path,
            Err(m) => r matches Err(GostProcessError::InvalidConfig(x)) && x@ == m,
        },
{
    let u = chars_of(url);
    proof {
        reveal_strlit("http://");
    }
    if u.len() < 7 {
        return Err(invalid("API 探活地址不是合法的 HTTP URL: ", url));
    }
    let head = copy_range(u.as_slice(), 0, 7);
    if !str_eq(head.as_str(), "http://") {
        return Err(invalid("API 探活地址不是合法的 HTTP URL: ", url));
    }
    let rest_s = copy_range(u.as_slice(), 7, u.len());
    let rest = chars_of(rest_s.as_str());
    assert(rest@ =~= url@.skip(7));
    let (authority, path): (Vec<char>, String) = match find_char(rest.as_slice(), '/') {
        Some(p) => {
            let a = copy_range(rest.as_slice(), 0, p);
            let mut path = String::from_str("/");
            let tail = copy_range(rest.as_slice(), p + 1, rest.len());
            path.append(tail.as_str());
            assert(a@ =~= rest@.take(p as int));
            assert(tail@ =~= rest@.skip(p + 1));
            (chars_of(a.as_str()), path)
        },
        None => (rest, String::from_str("/")),
    };
    if authority.len() == 0 {
        return Err(invalid("API 探活地址缺少主机信息: ", url));
    }
    if authority[0] == '[' {
        match find_char(authority.as_slice(), ']') {
            None => Err(invalid("API 探活地址中的 IPv6 格式非法: ", url)),
            Some(e) => {
                let after_s = copy_range(authority.as_slice(), e + 1, authority.len());
                let after = chars_of(after_s.as_str());
                assert(after@ =~= authority@.skip(e + 1));
                if after.len() == 0 || after[0] != ':' {
                    return Err(invalid("API 探活地址缺少端口: ", url));
                }
                let port_s = copy_range(after.as_slice(), 1, after.len());
                let port_text = chars_of(port_s.as_str());
                assert(port_text@ =~= after@.skip(1));
                let host = copy_range(authority.as_slice(), 1, e);
                read_probe_port(url, host, port_text.as_slice(), path)
            },
        }
    } else {
        match rfind_char(authority.as_slice(), ':') {
            None => Err(invalid("API 探活地址缺少端口: ", url)),
            Some(q) => {
                let host = copy_range(authority.as_slice(), 0, q);
                let port_s = copy_range(authority.as_slice(), q + 1, authority.len());
                let port_text = chars_of(port_s.as_str());
                assert(host@ =~= authority@.take(q as int));
                assert(port_text@ =~= authority@.skip(q + 1));
                read_probe_port(url, host, port_text.as_slice(), path)
            },
        }
    }
}

/// The probe must reach a loopback address: its host is `127.0.0.1` or `::1`.
pub open spec fn loopback_probe_check(url: Seq<char>) -> Result<(), Seq<char>> {
    match parse_probe_url(url) {
        Err(m) => Err(m),
        Ok(t) => if t.host == "127.0.0.1"@ || t.host == "::1"@ {
            Ok(())
        } else {
            Err("gost API 探活地址必须绑定本地回环地址，当前为: "@ + t.host)
        },
    }
}

/// Checks that the probe URL names a loopback host.
pub fn ensure_loopback_probe_url(url: &str) -> (r: Result<(), GostProcessError>)
    ensures
        match loopback_probe_check(url@) {
            Ok(()) => r is Ok,
            Err(m) => r matches Err(GostProcessError::InvalidConfig(x)) && x@ == m,
        },
{
    let target = match parse_http_probe_url(url) {
        Ok(t) => t,
        Err(e) => return Err(e),
    };
    if str_eq(target.host_header.as_str(), "127.0.0.1") || str_eq(target.host_header.as_str(), "::1") {
        Ok(())
    } else {
        Err(invalid("gost API 探活地址必须绑定本地回环地址，当前为: ", target.host_header.as_str()))
    }
}

/// What a launch request must satisfy before anything is spawned.
pub open spec fn launch_check(active_rule_ids: Seq<Seq<char>>, url: Seq<char>) -> Result<(), Seq<char>> {
    if active_rule_ids.len() == 0 {
        Err("运行集合为空，无法启动 gost"@)
    } else {
        loopback_probe_check(url)
    }
}

/// Refuses a request with no active rule or a probe URL that is not loopback.
pub fn check_launch_request(request: &GostLaunchRequest) -> (r: Result<(), GostProcessError>)
    ensures
        match launch_check(request.active_rule_ids@, request.api_probe_url@) {
            Ok(()) => r is Ok,
            Err(m) => r matches Err(GostProcessError::InvalidConfig(x)) && x@ == m,
        },
{
    if request.active_rule_ids.is_empty() {
        return Err(GostProcessError::InvalidConfig(String::from_str("运行集合为空，无法启动 gost")));
    }
    ensure_loopback_probe_url(request.api_probe_url.as_str())
}

/// The error of a start whose health check failed.
pub fn health_check_failure(err: &GostProcessError) -> (r: String)
    ensures
        r@ == "gost API 探活失败: "@ + err.spec_message(),
{
    let mut m = String::from_str("gost API 探活失败: ");
    let d = err.message();
    m.append(d.as_str());
    m
}

/// One status per rule ID, in the order of the IDs.
pub fn build_rule_statuses(
    rule_ids: &IdSet,
    status: RuleProcessStatus,
    error: &Option<String>,
) -> (r: Vec<RuleRuntimeStatus>)
    ensures
        statuses_view(r@) == rule_ids@.map_values(|id: Seq<char>| (id, status, opt_view(*error))),
{
    let mut out: Vec<RuleRuntimeStatus> = Vec::new();
    let mut i: usize = 0;
    while i < rule_ids.len()
        invariant
            i <= rule_ids@.len(),
            out@.len() == i,
            forall|j: int| 0 <= j < i ==> status_view(#[trigger] out@[j]) == (rule_ids@[j], status, opt_view(*error)),
        decreases rule_ids@.len() - i,
    {
        out.push(
            RuleRuntimeStatus {
                rule_id: rule_ids.get(i).clone(),
                status,
                last_error_summary: clone_opt(error),
            },
        );
        i = i + 1;
    }
    assert(statuses_view(out@) =~= statuses_of(rule_ids@, status, opt_view(*error)));
    out
}

/// Sets every rule status to `status` with `error`.
pub fn update_rule_statuses(runtime: &mut RuntimeState, status: RuleProcessStatus, error: &Option<String>)
    ensures
        statuses_view(final(runtime).rule_statuses@) == all_set(
            statuses_view(old(runtime).rule_statuses@),
            status,
            opt_view(*error),
        ),
        final(runtime).process_status == old(runtime).process_status,
        error_view(final(runtime).last_error) == error_view(old(runtime).last_error),
        final(runtime).active_rule_ids@ == old(runtime).active_rule_ids@,
{
    let ghost before = statuses_view(runtime.rule_statuses@);
    let mut statuses: Vec<RuleRuntimeStatus> = Vec::new();
    std::mem::swap(&mut statuses, &mut runtime.rule_statuses);
    let mut out: Vec<RuleRuntimeStatus> = Vec::new();
    let mut i: usize = 0;
    while i < statuses.len()
        invariant
            statuses_view(statuses@) == before,
            i <= statuses@.len(),
            out@.len() == i,
            forall|j: int| 0 <= j < i ==> status_view(#[trigger] out@[j]) == (before[j].0, status, opt_view(*error)),
        decreases statuses@.len() - i,
    {
        out.push(
            RuleRuntimeStatus {
                rule_id: statuses[i].rule_id.clone(),
                status,
                last_error_summary: clone_opt(error),
            },
        );
        i = i + 1;
    }
    assert(statuses_view(out@) =~= all_set(before, status, opt_view(*error)));
    runtime.rule_statuses = out;
}

/// What the health probe of a start leads to.
#[derive(Debug, PartialEq, Eq)]
pub enum ProbeVerdict {
    /// The process runs; the runtime as it now is.
    Running(RuntimeState),
    /// The probe failed: stop with `failure` as the message, then report `error`.
    Stop { failure: String, error: GostProcessError },
}

/// What stopping does next.
#[derive(Debug, PartialEq, Eq)]
pub enum StopStep {
    /// No process was running; the runtime was updated at once.
    Finished,
    /// The process with this PID is to be killed and waited for, then `finish_stop` called.
    Kill(u32),
}

/// What to do about a PID file left from an earlier run.
#[derive(Debug, PartialEq, Eq)]
pub enum StalePidAction {
    /// Nothing is there.
    Nothing,
    /// Terminate the process, if any, then remove the file; a failure to
    /// remove it is reported with `context`.
    Clear { terminate: Option<u32>, context: String },
}

/// What to do with the PID file left from an earlier run. `read` is what
/// reading it gave: `Ok(Some(pid))`, `Ok(None)` for no file, or an unreadable
/// file. `runs_own_sidecar` says whether the process with that PID is this
/// application's gost sidecar (its executable is the sidecar's path); only
/// then is it terminated, so a PID reused by another program is left alone.
/// The file is removed either way.
pub fn stale_pid_action(read: &Result<Option<u32>, String>, runs_own_sidecar: bool) -> (r: StalePidAction)
    ensures
        match read {
            Ok(Some(pid)) => r matches StalePidAction::Clear { terminate, context } && terminate
                == (if runs_own_sidecar { Some(*pid) } else { None }) && context@ == "清理残留 PID 文件失败"@,
            Ok(None) => r is Nothing,
            Err(_) => r matches StalePidAction::Clear { terminate, context } && terminate is None
                && context@ == "清理损坏 PID 文件失败"@,
        },
{
    match read {
        Ok(Some(pid)) => StalePidAction::Clear {
            terminate: if runs_own_sidecar {
                Some(*pid)
            } else {
                None
            },
            context: String::from_str("清理残留 PID 文件失败"),
        },
        Ok(None) => StalePidAction::Nothing,
        Err(_) => StalePidAction::Clear {
            terminate: None,
            context: String::from_str("清理损坏 PID 文件失败"),
        },
    }
}

/// The message of a process that exited with a failure.
pub open spec fn exit_failure_message(code: Option<i32>) -> Seq<char> {
    match code {
        Some(c) => "gost 进程异常退出，退出码: "@ + int_str(c as int),
        None => "gost 进程异常退出，未获取到退出码"@,
    }
}

/// The runtime state and log of the manager, the PID of the process it
/// manages, and how many entries were ever appended to the log (which goes
/// on counting when old entries are dropped or the log is cleared).
pub struct GostProcessCore {
    pub runtime: RuntimeState,
    pub process: Option<u32>,
    pub logs: Vec<ProcessLogEntry>,
    pub appended: u64,
}

/// The count of appended entries after one more (it stops at `u64::MAX`).
pub open spec fn next_count(n: u64) -> u64 {
    if n < u64::MAX {
        (n + 1) as u64
    } else {
        n
    }
}

/// The log and its count are unchanged.
pub open spec fn same_log(before: GostProcessCore, after: GostProcessCore) -> bool {
    entries_view(after.logs@) == entries_view(before.logs@) && after.appended == before.appended
}

/// The rule statuses of a set of IDs, all in one state with one error.
pub open spec fn statuses_of(ids: Seq<Seq<char>>, status: RuleProcessStatus, error: Option<Seq<char>>) -> Seq<(Seq<char>, RuleProcessStatus, Option<Seq<char>>)> {
    ids.map_values(|id: Seq<char>| (id, status, error))
}

/// A process `pid` was launched for the rules `ids`: it is managed, and the
/// runtime is starting with those rules, each starting, and no error.
pub open spec fn launched_with(before: GostProcessCore, after: GostProcessCore, pid: u32, ids: Seq<Seq<char>>) -> bool {
    &&& after.process == Some(pid)
    &&& runtime_view(after.runtime) == (
        ProcessStatus::Starting,
        statuses_of(ids, RuleProcessStatus::Starting, None),
        None::<(Seq<char>, Timestamp)>,
        ids,
    )
    &&& same_log(before, after)
}

/// The health check passed: the process and every rule are running, the
/// rest unchanged.
pub open spec fn confirmed(before: GostProcessCore, after: GostProcessCore) -> bool {
    let b = runtime_view(before.runtime);
    &&& after.process == before.process
    &&& same_log(before, after)
    &&& runtime_view(after.runtime) == (ProcessStatus::Running, all_set(b.1, RuleProcessStatus::Running, None), b.2, b.3)
}

/// The end of a stop, from the runtime `before` to `after`: with a failure
/// the process and every rule are failed with its message, which becomes the
/// last error seen at `now`, the active rules kept; without one the process
/// and every rule are stopped, no rule is active, and the last error is
/// cleared when `clear_error` holds and kept otherwise.
pub open spec fn stopped_with(
    before: RuntimeView,
    after: RuntimeView,
    failure: Option<Seq<char>>,
    now: Timestamp,
    clear_error: bool,
) -> bool {
    match failure {
        Some(m) => {
            &&& after.0 == ProcessStatus::Failed
            &&& after.1 == all_set(before.1, RuleProcessStatus::Failed, Some(m))
            &&& after.2 == Some((m, now))
            &&& after.3 == before.3
        },
        None => {
            &&& after.0 == ProcessStatus::Stopped
            &&& after.1 == all_set(before.1, RuleProcessStatus::Stopped, None)
            &&& after.2 == if clear_error {
                None
            } else {
                before.2
            }
            &&& after.3.len() == 0
        },
    }
}

/// The start of a stop. Without a process the stop ends at once (the last
/// error kept when there is no failure). With one the process is handed
/// over to be killed and the runtime is stopping, its rules unchanged.
pub open spec fn stop_begun(
    before: GostProcessCore,
    after: GostProcessCore,
    failure: Option<Seq<char>>,
    now: Timestamp,
    r: StopStep,
) -> bool {
    &&& same_log(before, after)
    &&& after.process is None
    &&& match before.process {
        Some(pid) => {
            &&& r == StopStep::Kill(pid)
            &&& runtime_view(after.runtime) == (
                ProcessStatus::Stopping,
                runtime_view(before.runtime).1,
                runtime_view(before.runtime).2,
                runtime_view(before.runtime).3,
            )
        },
        None => {
            &&& r == StopStep::Finished
            &&& stopped_with(runtime_view(before.runtime), runtime_view(after.runtime), failure, now, false)
        },
    }
}

/// The end of a stop once the process is gone: no process, and the runtime
/// failed with the message or stopped with no error.
pub open spec fn stop_finished(
    before: GostProcessCore,
    after: GostProcessCore,
    failure: Option<Seq<char>>,
    now: Timestamp,
) -> bool {
    &&& after.process is None
    &&& same_log(before, after)
    &&& stopped_with(runtime_view(before.runtime), runtime_view(after.runtime), failure, now, true)
}

/// The exit of the process `pid`. Unless it is no longer the managed
/// process, nothing is managed and no rule stays active; a stop in progress
/// ends stopped with no error, a success ends stopped with the last error
/// kept, and a failure ends failed with the exit code as the error.
pub open spec fn exit_recorded(
    before: GostProcessCore,
    after: GostProcessCore,
    pid: u32,
    success: bool,
    code: Option<i32>,
    now: Timestamp,
) -> bool {
    let b = runtime_view(before.runtime);
    let a = runtime_view(after.runtime);
    &&& same_log(before, after)
    &&& if before.process != Some(pid) {
        a == b && after.process == before.process
    } else {
        &&& after.process is None
        &&& a.3.len() == 0
        &&& if b.0 == ProcessStatus::Stopping {
            &&& a.0 == ProcessStatus::Stopped
            &&& a.1 == all_set(b.1, RuleProcessStatus::Stopped, None)
            &&& a.2 is None
        } else if success {
            &&& a.0 == ProcessStatus::Stopped
            &&& a.1 == all_set(b.1, RuleProcessStatus::Stopped, None)
            &&& a.2 == b.2
        } else {
            &&& a.0 == ProcessStatus::Failed
            &&& a.1 == all_set(b.1, RuleProcessStatus::Failed, Some(exit_failure_message(code)))
            &&& a.2 == Some((exit_failure_message(code), now))
        }
    }
}

/// A line the process wrote: it is logged; a line on stderr becomes the last
/// error and, while the process runs, the error of every rule.
pub open spec fn line_recorded(
    before: GostProcessCore,
    after: GostProcessCore,
    source: ProcessLogSource,
    line: Seq<char>,
    now: Timestamp,
) -> bool {
    let b = runtime_view(before.runtime);
    let a = runtime_view(after.runtime);
    let stderr = source == ProcessLogSource::Stderr;
    &&& after.process == before.process
    &&& entries_view(after.logs@) == capped(entries_view(before.logs@).push((source, line, now)))
    &&& after.appended == next_count(before.appended)
    &&& a.0 == b.0
    &&& a.3 == b.3
    &&& a.2 == if stderr {
        Some((line, now))
    } else {
        b.2
    }
    &&& a.1 == if stderr && b.0 == ProcessStatus::Running {
        all_set(b.1, RuleProcessStatus::Running, Some(line))
    } else {
        b.1
    }
}

/// A message logged by the application: the log grows by it (keeping the
/// newest entries) and nothing else changes.
pub open spec fn log_appended(
    before: GostProcessCore,
    after: GostProcessCore,
    source: ProcessLogSource,
    message: Seq<char>,
    now: Timestamp,
) -> bool {
    &&& after.process == before.process
    &&& runtime_view(after.runtime) == runtime_view(before.runtime)
    &&& entries_view(after.logs@) == capped(entries_view(before.logs@).push((source, message, now)))
    &&& after.appended == next_count(before.appended)
}

fn error_summary(summary: &String, now: Timestamp) -> (r: Option<RuntimeErrorSummary>)
    ensures
        error_view(r) == Some((summary@, now)),
{
    Some(RuntimeErrorSummary { summary: summary.clone(), observed_at: now })
}

impl GostProcessCore {
    /// No process, a stopped runtime, an empty log.
    pub fn new() -> (r: GostProcessCore)
        ensures
            r.process is None,
            r.runtime.process_status == ProcessStatus::Stopped,
            r.runtime.rule_statuses@.len() == 0,
            r.runtime.last_error is None,
            r.runtime.active_rule_ids@.len() == 0,
            r.logs@.len() == 0,
            r.appended == 0,
    {
        let runtime = RuntimeState::new();
        GostProcessCore { runtime, process: None, logs: Vec::new(), appended: 0 }
    }

    /// The launched process is starting with the active rules.
    pub fn launched(&mut self, pid: u32, active_rule_ids: &IdSet)
        ensures
            launched_with(*old(self), *final(self), pid, active_rule_ids@),
    {
        let none: Option<String> = None;
        let statuses = build_rule_statuses(active_rule_ids, RuleProcessStatus::Starting, &none);
        self.runtime = RuntimeState {
            process_status: ProcessStatus::Starting,
            rule_statuses: statuses,
            last_error: None,
            active_rule_ids: active_rule_ids.duplicate(),
        };
        self.process = Some(pid);
    }

    /// The outcome of the health probe of the start of process `pid`. A
    /// start succeeds only when the probe passed and `pid` is still the
    /// managed process; then the process is confirmed as running. Otherwise
    /// everything is left as it is and a stop is asked for with the failure:
    /// the probe's error, or the exit of the process before it passed. The
    /// start then reports the failure.
    pub fn after_probe(&mut self, pid: u32, probe: &Result<(), GostProcessError>) -> (r: ProbeVerdict)
        ensures
            match probe {
                Ok(()) => if old(self).process == Some(pid) {
                    &&& confirmed(*old(self), *final(self))
                    &&& r matches ProbeVerdict::Running(rt) && runtime_view(rt) == runtime_view(final(self).runtime)
                } else {
                    &&& *final(self) == *old(self)
                    &&& r matches ProbeVerdict::Stop { failure, error } && failure@ == "gost 进程在 API 探活成功前已退出"@
                        && error == GostProcessError::HealthCheck(failure)
                },
                Err(e) => {
                    &&& *final(self) == *old(self)
                    &&& r matches ProbeVerdict::Stop { failure, error } && failure@ == "gost API 探活失败: "@
                        + e.spec_message() && error == GostProcessError::HealthCheck(failure)
                },
            },
    {
        match probe {
            Ok(()) => {
                let alive = match self.process {
                    Some(p) => p == pid,
                    None => false,
                };
                if alive {
                    ProbeVerdict::Running(self.health_confirmed())
                } else {
                    let failure = String::from_str("gost 进程在 API 探活成功前已退出");
                    let error = GostProcessError::HealthCheck(failure.clone());
                    ProbeVerdict::Stop { failure, error }
                }
            },
            Err(e) => {
                let failure = health_check_failure(e);
                let error = GostProcessError::HealthCheck(failure.clone());
                ProbeVerdict::Stop { failure, error }
            },
        }
    }

    /// The health check passed: the process and its rules are running.
    pub fn health_confirmed(&mut self) -> (r: RuntimeState)
        ensures
            confirmed(*old(self), *final(self)),
            runtime_view(r) == runtime_view(final(self).runtime),
    {
        self.runtime.process_status = ProcessStatus::Running;
        let none: Option<String> = None;
        update_rule_statuses(&mut self.runtime, RuleProcessStatus::Running, &none);
        self.runtime.duplicate()
    }

    /// Applies the end of a stop: a failure marks everything failed with the
    /// message; otherwise everything is stopped, the error cleared when
    /// `clear_error` holds, and no rule active.
    fn apply_stopped(&mut self, failure: &Option<String>, now: Timestamp, clear_error: bool)
        ensures
            final(self).process == old(self).process,
            same_log(*old(self), *final(self)),
            stopped_with(runtime_view(old(self).runtime), runtime_view(final(self).runtime), opt_view(*failure), now, clear_error),
    {
        match failure {
            Some(m) => {
                self.runtime.process_status = ProcessStatus::Failed;
                self.runtime.last_error = error_summary(m, now);
                update_rule_statuses(&mut self.runtime, RuleProcessStatus::Failed, failure);
            },
            None => {
                self.runtime.process_status = ProcessStatus::Stopped;
                if clear_error {
                    self.runtime.last_error = None;
                }
                self.runtime.active_rule_ids.clear();
                update_rule_statuses(&mut self.runtime, RuleProcessStatus::Stopped, failure);
            },
        }
    }

    /// Starts a stop at the time `now`; see `stop_begun`.
    pub fn begin_stop_at(&mut self, failure: &Option<String>, now: Timestamp) -> (r: StopStep)
        ensures
            stop_begun(*old(self), *final(self), opt_view(*failure), now, r),
    {
        match self.process {
            None => {
                self.apply_stopped(failure, now, false);
                StopStep::Finished
            },
            Some(pid) => {
                self.runtime.process_status = ProcessStatus::Stopping;
                self.process = None;
                StopStep::Kill(pid)
            },
        }
    }

    /// Starts a stop now, by the clock.
    pub fn begin_stop(&mut self, failure: &Option<String>) -> (r: StopStep)
        ensures
            exists|t: Timestamp| stop_begun(*old(self), *final(self), opt_view(*failure), t, r),
    {
        let now = current_time();
        self.begin_stop_at(failure, now)
    }

    /// Ends a stop at the time `now`, once the process was killed and its PID
    /// file cleared; see `stop_finished`.
    pub fn finish_stop_at(&mut self, failure: &Option<String>, now: Timestamp) -> (r: RuntimeState)
        ensures
            stop_finished(*old(self), *final(self), opt_view(*failure), now),
            runtime_view(r) == runtime_view(final(self).runtime),
    {
        self.process = None;
        self.apply_stopped(failure, now, true);
        self.runtime.duplicate()
    }

    /// Ends a stop now, by the clock.
    pub fn finish_stop(&mut self, failure: &Option<String>) -> (r: RuntimeState)
        ensures
            exists|t: Timestamp| stop_finished(*old(self), *final(self), opt_view(*failure), t),
            runtime_view(r) == runtime_view(final(self).runtime),
    {
        let now = current_time();
        self.finish_stop_at(failure, now)
    }

    /// The process `pid` exited at the time `now`; see `exit_recorded`. The
    /// result says whether its PID file is to be cleared: only when `pid` was
    /// the managed process, whose PID the file holds.
    pub fn child_exited_at(&mut self, pid: u32, success: bool, code: Option<i32>, now: Timestamp) -> (clear_pid_file: bool)
        ensures
            exit_recorded(*old(self), *final(self), pid, success, code, now),
            clear_pid_file == (old(self).process == Some(pid)),
    {
        let same = match self.process {
            Some(p) => p == pid,
            None => false,
        };
        if !same {
            return false;
        }
        self.process = None;
        self.runtime.active_rule_ids.clear();
        let none: Option<String> = None;
        if self.runtime.process_status == ProcessStatus::Stopping {
            self.runtime.process_status = ProcessStatus::Stopped;
            self.runtime.last_error = None;
            update_rule_statuses(&mut self.runtime, RuleProcessStatus::Stopped, &none);
            return true;
        }
        if success {
            self.runtime.process_status = ProcessStatus::Stopped;
            update_rule_statuses(&mut self.runtime, RuleProcessStatus::Stopped, &none);
            return true;
        }
        let message = match code {
            Some(c) => {
                let mut m = String::from_str("gost 进程异常退出，退出码: ");
                append_signed(&mut m, c);
                m
            },
            None => String::from_str("gost 进程异常退出，未获取到退出码"),
        };
        self.runtime.process_status = ProcessStatus::Failed;
        self.runtime.last_error = error_summary(&message, now);
        let some = Some(message);
        update_rule_statuses(&mut self.runtime, RuleProcessStatus::Failed, &some);
        true
    }

    /// The process `pid` exited now, by the clock.
    pub fn child_exited(&mut self, pid: u32, success: bool, code: Option<i32>) -> (clear_pid_file: bool)
        ensures
            exists|t: Timestamp| exit_recorded(*old(self), *final(self), pid, success, code, t),
            clear_pid_file == (old(self).process == Some(pid)),
    {
        let now = current_time();
        self.child_exited_at(pid, success, code, now)
    }

    /// A line from the process at the time `now`; see `line_recorded`.
    pub fn output_line_at(&mut self, source: ProcessLogSource, line: String, now: Timestamp)
        ensures
            line_recorded(*old(self), *final(self), source, line@, now),
    {
        let is_stderr = source == ProcessLogSource::Stderr;
        let kept = line.clone();
        push_log(&mut self.logs, ProcessLogEntry { source, message: line, observed_at: now });
        self.count_appended();
        if is_stderr {
            self.runtime.last_error = error_summary(&kept, now);
            if self.runtime.process_status == ProcessStatus::Running {
                let some = Some(kept);
                update_rule_statuses(&mut self.runtime, RuleProcessStatus::Running, &some);
            }
        }
    }

    /// A line from the process now, by the clock.
    pub fn output_line(&mut self, source: ProcessLogSource, line: String)
        ensures
            exists|t: Timestamp| line_recorded(*old(self), *final(self), source, line@, t),
    {
        let now = current_time();
        self.output_line_at(source, line, now);
    }

    /// Logs a message at the time `now`; nothing else changes.
    pub fn append_log_at(&mut self, source: ProcessLogSource, message: String, now: Timestamp)
        ensures
            log_appended(*old(self), *final(self), source, message@, now),
    {
        push_log(&mut self.logs, ProcessLogEntry { source, message, observed_at: now });
        self.count_appended();
    }

    /// Logs an informational message of the application, now.
    pub fn append_app_info_log(&mut self, message: String)
        ensures
            exists|t: Timestamp| log_appended(*old(self), *final(self), ProcessLogSource::AppInfo, message@, t),
    {
        let now = current_time();
        self.append_log_at(ProcessLogSource::AppInfo, message, now);
    }

    /// Logs an error of the application, now.
    pub fn append_app_error_log(&mut self, message: String)
        ensures
            exists|t: Timestamp| log_appended(*old(self), *final(self), ProcessLogSource::AppError, message@, t),
    {
        let now = current_time();
        self.append_log_at(ProcessLogSource::AppError, message, now);
    }

    fn count_appended(&mut self)
        ensures
            final(self).appended == next_count(old(self).appended),
            final(self).process == old(self).process,
            final(self).runtime == old(self).runtime,
            final(self).logs == old(self).logs,
    {
        if self.appended < u64::MAX {
            self.appended = self.appended + 1;
        }
    }

    pub fn clear_logs(&mut self)
        ensures
            final(self).process == old(self).process,
            runtime_view(final(self).runtime) == runtime_view(old(self).runtime),
            final(self).logs@.len() == 0,
            final(self).appended == old(self).appended,
    {
        self.logs = Vec::new();
    }

    /// A copy of the runtime state.
    pub fn runtime_snapshot(&self) -> (r: RuntimeState)
        ensures
            runtime_view(r) == runtime_view(self.runtime),
    {
        self.runtime.duplicate()
    }

    /// A copy of the log.
    pub fn log_snapshot(&self) -> (r: Vec<ProcessLogEntry>)
        ensures
            entries_view(r@) == entries_view(self.logs@),
    {
        let mut out: Vec<ProcessLogEntry> = Vec::new();
        let mut i: usize = 0;
        while i < self.logs.len()
            invariant
                i <= self.logs@.len(),
                out@.len() == i,
                forall|j: int| 0 <= j < i ==> entry_view(#[trigger] out@[j]) == entry_view(self.logs@[j]),
            decreases self.logs@.len() - i,
        {
            out.push(self.logs[i].duplicate());
            i = i + 1;
        }
        assert(entries_view(out@) =~= entries_view(self.logs@));
        out
    }
}

/// Law: a launch whose health check passes leaves the process running with
/// exactly the requested rules, each running, and no error.
pub proof fn law_confirmed_launch_runs_requested_rules(
    c0: GostProcessCore,
    c1: GostProcessCore,
    c2: GostProcessCore,
    pid: u32,
    ids: Seq<Seq<char>>,
)
    requires
        launched_with(c0, c1, pid, ids),
        confirmed(c1, c2),
    ensures
        c2.process == Some(pid),
        runtime_view(c2.runtime) == (
            ProcessStatus::Running,
            statuses_of(ids, RuleProcessStatus::Running, None),
            None::<(Seq<char>, Timestamp)>,
            ids,
        ),
{
    assert(all_set(statuses_of(ids, RuleProcessStatus::Starting, None), RuleProcessStatus::Running, None)
        =~= statuses_of(ids, RuleProcessStatus::Running, None));
}

/// Law: stopping again after a stop without failure finds no process and
/// leaves the runtime stopped, with no error and no active rule.
pub proof fn law_stop_after_stop_changes_nothing(
    c0: GostProcessCore,
    c1: GostProcessCore,
    c2: GostProcessCore,
    t1: Timestamp,
    t2: Timestamp,
    r: StopStep,
)
    requires
        stop_finished(c0, c1, None, t1),
        stop_begun(c1, c2, None, t2, r),
    ensures
        r == StopStep::Finished,
        runtime_view(c2.runtime) == runtime_view(c1.runtime),
        runtime_view(c2.runtime).0 == ProcessStatus::Stopped,
        runtime_view(c2.runtime).2 is None,
        runtime_view(c2.runtime).3.len() == 0,
{
    let s1 = runtime_view(c1.runtime).1;
    assert(all_set(s1, RuleProcessStatus::Stopped, None) =~= s1);
    assert(runtime_view(c2.runtime).3 =~= runtime_view(c1.runtime).3);
}

/// Law: the log keeps the newest entries, at most `MAX_LOG_ENTRIES` of them.
pub proof fn law_log_keeps_newest<A>(s: Seq<A>)
    ensures
        capped(s).len() <= 500,
        capped(s).len() == if s.len() <= 500 { s.len() } else { 500 },
        capped(s) == s.skip(s.len() - capped(s).len()),
{
    if s.len() <= 500 {
        assert(s.skip(0) =~= s);
    }
}

/// A process is managed exactly while the runtime is starting or running.
pub open spec fn process_consistent(c: GostProcessCore) -> bool {
    c.process is Some <==> (c.runtime.process_status == ProcessStatus::Starting
        || c.runtime.process_status == ProcessStatus::Running)
}

/// Law: every operation of the manager keeps a process managed exactly
/// while the runtime is starting or running (a start is confirmed only while
/// its process is managed, as `after_probe` does); stopping and exits leave
/// no process managed.
pub proof fn law_operations_keep_process_consistent(
    c0: GostProcessCore,
    c1: GostProcessCore,
    pid: u32,
    ids: Seq<Seq<char>>,
    failure: Option<Seq<char>>,
    now: Timestamp,
    r: StopStep,
    success: bool,
    code: Option<i32>,
    source: ProcessLogSource,
    text: Seq<char>,
)
    requires
        process_consistent(c0),
    ensures
        launched_with(c0, c1, pid, ids) ==> process_consistent(c1),
        confirmed(c0, c1) && c0.process == Some(pid) ==> process_consistent(c1),
        stop_begun(c0, c1, failure, now, r) ==> process_consistent(c1) && c1.process is None,
        stop_finished(c0, c1, failure, now) ==> process_consistent(c1) && c1.process is None,
        exit_recorded(c0, c1, pid, success, code, now) ==> process_consistent(c1),
        line_recorded(c0, c1, source, text, now) ==> process_consistent(c1),
        log_appended(c0, c1, source, text, now) ==> process_consistent(c1),
{
}

/// Law: only stderr carries errors. A line on stdout (or any source but
/// stderr) is logged and changes nothing else: the process state, every rule
/// status and error, the last error and the active rules stay as they were.
/// A line on stderr becomes the last error; while the process runs it also
/// becomes the error of every rule, each rule keeping its ID and staying
/// running; otherwise the rule statuses stay as they were.
pub proof fn law_only_stderr_lines_are_errors(
    c0: GostProcessCore,
    c1: GostProcessCore,
    source: ProcessLogSource,
    line: Seq<char>,
    now: Timestamp,
)
    requires
        line_recorded(c0, c1, source, line, now),
    ensures
        source != ProcessLogSource::Stderr ==> runtime_view(c1.runtime) == runtime_view(c0.runtime),
        source == ProcessLogSource::Stderr ==> {
            let b = runtime_view(c0.runtime);
            let a = runtime_view(c1.runtime);
            &&& a.0 == b.0
            &&& a.2 == Some((line, now))
            &&& a.3 == b.3
            &&& a.1.len() == b.1.len()
            &&& forall|k: int| 0 <= k < a.1.len() ==> #[trigger] a.1[k] == if b.0 == ProcessStatus::Running {
                (b.1[k].0, RuleProcessStatus::Running, Some(line))
            } else {
                b.1[k]
            }
        },
        c1.process == c0.process,
        entries_view(c1.logs@).last() == (source, line, now),
{
    let e = entries_view(c0.logs@).push((source, line, now));
    assert(e.last() == (source, line, now));
    if e.len() > 500 {
        assert(capped(e).last() == e.last());
    }
}

} // verus!
