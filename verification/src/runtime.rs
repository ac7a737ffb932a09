//! The runtime model: the state of the gost process and of each active rule.

use vstd::prelude::*;
use crate::rule::{IdSet, Timestamp};
use crate::order::str_eq;

verus! {

/// The state of the gost sidecar process.
#[derive(Debug, Clone, Copy, PartialEq, Eq, Structural)]
pub enum ProcessStatus {
    Stopped,
    Starting,
    Running,
    Stopping,
    Failed,
}

/// The state of one active rule.
#[derive(Debug, Clone, Copy, PartialEq, Eq, Structural)]
pub enum RuleProcessStatus {
    Stopped,
    Starting,
    Running,
    Failed,
}

/// The state of one rule and the last error it saw.
#[derive(Debug, PartialEq, Eq)]
pub struct RuleRuntimeStatus {
    pub rule_id: String,
    pub status: RuleProcessStatus,
    pub last_error_summary: Option<String>,
}

/// The last error of the process and when it was seen.
#[derive(Debug, PartialEq, Eq)]
pub struct RuntimeErrorSummary {
    pub summary: String,
    pub observed_at: Timestamp,
}

/// The runtime as the user sees it.
#[derive(Debug, PartialEq, Eq)]
pub struct RuntimeState {
    pub process_status: ProcessStatus,
    pub rule_statuses: Vec<RuleRuntimeStatus>,
    pub last_error: Option<RuntimeErrorSummary>,
    pub active_rule_ids: IdSet,
}

/// The text of an optional string.
pub open spec fn opt_view(o: Option<String>) -> Option<Seq<char>> {
    match o {
        Some(s) => Some(s@),
        None => None,
    }
}

/// The ID, state and last error of a rule status.
pub open spec fn status_view(s: RuleRuntimeStatus) -> (Seq<char>, RuleProcessStatus, Option<Seq<char>>) {
    (s.rule_id@, s.status, opt_view(s.last_error_summary))
}

pub open spec fn statuses_view(v: Seq<RuleRuntimeStatus>) -> Seq<(Seq<char>, RuleProcessStatus, Option<Seq<char>>)> {
    v.map_values(|s: RuleRuntimeStatus| status_view(s))
}

/// The summary and time of an optional error.
pub open spec fn error_view(e: Option<RuntimeErrorSummary>) -> Option<(Seq<char>, Timestamp)> {
    match e {
        Some(e) => Some((e.summary@, e.observed_at)),
        None => None,
    }
}

/// Every rule status with the given state and error, the IDs kept.
pub open spec fn all_set(
    before: Seq<(Seq<char>, RuleProcessStatus, Option<Seq<char>>)>,
    status: RuleProcessStatus,
    error: Option<Seq<char>>,
) -> Seq<(Seq<char>, RuleProcessStatus, Option<Seq<char>>)> {
    before.map_values(|s: (Seq<char>, RuleProcessStatus, Option<Seq<char>>)| (s.0, status, error))
}

/// The runtime's fields as plain values: the process state, each rule's ID,
/// state and error, the last error and when it was seen, the active rule IDs.
pub type RuntimeView = (
    ProcessStatus,
    Seq<(Seq<char>, RuleProcessStatus, Option<Seq<char>>)>,
    Option<(Seq<char>, Timestamp)>,
    Seq<Seq<char>>,
);

pub open spec fn runtime_view(r: RuntimeState) -> RuntimeView {
    (r.process_status, statuses_view(r.rule_statuses@), error_view(r.last_error), r.active_rule_ids@)
}

fn same_opt_text(a: &Option<String>, b: &Option<String>) -> (r: bool)
    ensures
        r == (opt_view(*a) == opt_view(*b)),
{
    match (a, b) {
        (Some(x), Some(y)) => str_eq(x.as_str(), y.as_str()),
        (None, None) => true,
        _ => false,
    }
}

fn same_statuses(a: &Vec<RuleRuntimeStatus>, b: &Vec<RuleRuntimeStatus>) -> (r: bool)
    ensures
        r == (statuses_view(a@) == statuses_view(b@)),
{
    if a.len() != b.len() {
        proof {
            assert(statuses_view(a@).len() != statuses_view(b@).len());
        }
        return false;
    }
    let mut i: usize = 0;
    while i < a.len()
        invariant
            a@.len() == b@.len(),
            i <= a@.len(),
            forall|j: int| 0 <= j < i ==> status_view(#[trigger] a@[j]) == status_view(b@[j]),
        decreases a@.len() - i,
    {
        let x = &a[i];
        let y = &b[i];
        let same = str_eq(x.rule_id.as_str(), y.rule_id.as_str()) && x.status == y.status
            && same_opt_text(&x.last_error_summary, &y.last_error_summary);
        if !same {
            proof {
                assert(statuses_view(a@)[i as int] != statuses_view(b@)[i as int]);
            }
            return false;
        }
        i = i + 1;
    }
    assert(statuses_view(a@) =~= statuses_view(b@));
    true
}

fn same_ids(a: &IdSet, b: &IdSet) -> (r: bool)
    ensures
        r == (a@ == b@),
{
    if a.len() != b.len() {
        return false;
    }
    let mut i: usize = 0;
    while i < a.len()
        invariant
            a@.len() == b@.len(),
            i <= a@.len(),
            forall|j: int| 0 <= j < i ==> a@[j] == b@[j],
        decreases a@.len() - i,
    {
        if !str_eq(a.get(i).as_str(), b.get(i).as_str()) {
            return false;
        }
        i = i + 1;
    }
    assert(a@ =~= b@);
    true
}

/// Whether two runtime states are equal.
pub fn same_runtime(a: &RuntimeState, b: &RuntimeState) -> (r: bool)
    ensures
        r == (runtime_view(*a) == runtime_view(*b)),
{
    if a.process_status != b.process_status {
        return false;
    }
    if !same_statuses(&a.rule_statuses, &b.rule_statuses) {
        return false;
    }
    let same_error = match (&a.last_error, &b.last_error) {
        (Some(x), Some(y)) => str_eq(x.summary.as_str(), y.summary.as_str()) && x.observed_at == y.observed_at,
        (None, None) => true,
        _ => false,
    };
    if !same_error {
        return false;
    }
    same_ids(&a.active_rule_ids, &b.active_rule_ids)
}

/// A copy of an optional string.
pub fn clone_opt(o: &Option<String>) -> (r: Option<String>)
    ensures
        opt_view(r) == opt_view(*o),
{
    match o {
        Some(s) => Some(s.clone()),
        None => None,
    }
}

impl RuleRuntimeStatus {
    pub fn duplicate(&self) -> (r: RuleRuntimeStatus)
        ensures
            status_view(r) == status_view(*self),
    {
        RuleRuntimeStatus {
            rule_id: self.rule_id.clone(),
            status: self.status,
            last_error_summary: clone_opt(&self.last_error_summary),
        }
    }
}

impl RuntimeErrorSummary {
    pub fn duplicate(&self) -> (r: RuntimeErrorSummary)
        ensures
            r.summary@ == self.summary@,
            r.observed_at == self.observed_at,
    {
        RuntimeErrorSummary { summary: self.summary.clone(), observed_at: self.observed_at }
    }
}

impl RuntimeState {
    /// A stopped runtime with no rules and no error.
    pub fn new() -> (r: RuntimeState)
        ensures
            r.process_status == ProcessStatus::Stopped,
            r.rule_statuses@.len() == 0,
            r.last_error is None,
            r.active_rule_ids@.len() == 0,
    {
        RuntimeState {
            process_status: ProcessStatus::Stopped,
            rule_statuses: Vec::new(),
            last_error: None,
            active_rule_ids: IdSet::new(),
        }
    }

    /// A copy of the state, as a snapshot.
    pub fn duplicate(&self) -> (r: RuntimeState)
        ensures
            r.process_status == self.process_status,
            statuses_view(r.rule_statuses@) == statuses_view(self.rule_statuses@),
            error_view(r.last_error) == error_view(self.last_error),
            r.active_rule_ids@ == self.active_rule_ids@,
    {
        let mut statuses: Vec<RuleRuntimeStatus> = Vec::new();
        let mut i: usize = 0;
        while i < self.rule_statuses.len()
            invariant
                i <= self.rule_statuses@.len(),
                statuses@.len() == i,
                forall|j: int| 0 <= j < i ==> status_view(#[trigger] statuses@[j]) == status_view(self.rule_statuses@[j]),
            decreases self.rule_statuses@.len() - i,
        {
            statuses.push(self.rule_statuses[i].duplicate());
            i = i + 1;
        }
        assert(statuses_view(statuses@) =~= statuses_view(self.rule_statuses@));
        let last_error = match &self.last_error {
            Some(e) => Some(e.duplicate()),
            None => None,
        };
        RuntimeState {
            process_status: self.process_status,
            rule_statuses: statuses,
            last_error,
            active_rule_ids: self.active_rule_ids.duplicate(),
        }
    }
}

impl Default for RuntimeState {
    fn default() -> (r: RuntimeState)
        ensures
            r.process_status == ProcessStatus::Stopped,
            r.rule_statuses@.len() == 0,
            r.last_error is None,
            r.active_rule_ids@.len() == 0,
    {
        RuntimeState::new()
    }
}

} // verus!
