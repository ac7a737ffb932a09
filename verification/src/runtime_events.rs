//! The events the front end hears about: runtime changes, rule changes,
//! appended log lines and the end of the process. The bridge compares each
//! snapshot with the last one it saw and says which events to emit; the
//! application polls, emits and sleeps.

use vstd::prelude::*;
use crate::gost_process::{entries_view, entry_view, ProcessLogEntry, ProcessLogSource};
use crate::rule::{Rule, Timestamp};
use crate::runtime::{
    runtime_view, same_runtime, ProcessStatus, RuntimeState, RuntimeView,
};

verus! {

pub struct RuntimeChangedPayload {
    pub runtime: RuntimeState,
}

pub struct RulesChangedPayload {
    pub rules: Vec<Rule>,
}

pub struct LogsAppendedPayload {
    pub entries: Vec<ProcessLogEntry>,
}

pub struct ProcessExitedPayload {
    pub runtime: RuntimeState,
    pub reason: Option<String>,
}

/// One event for the front end.
pub enum RuntimeEventMessage {
    RuntimeChanged(RuntimeChangedPayload),
    RulesChanged(RulesChangedPayload),
    LogsAppended(LogsAppendedPayload),
    ProcessExited(ProcessExitedPayload),
}

/// An event as plain values.
pub enum EventView {
    RuntimeChanged(RuntimeView),
    RulesChanged(Seq<Rule>),
    LogsAppended(Seq<(ProcessLogSource, Seq<char>, Timestamp)>),
    ProcessExited(RuntimeView, Option<Seq<char>>),
}

pub open spec fn event_view(e: RuntimeEventMessage) -> EventView {
    match e {
        RuntimeEventMessage::RuntimeChanged(p) => EventView::RuntimeChanged(runtime_view(p.runtime)),
        RuntimeEventMessage::RulesChanged(p) => EventView::RulesChanged(p.rules@),
        RuntimeEventMessage::LogsAppended(p) => EventView::LogsAppended(entries_view(p.entries@)),
        RuntimeEventMessage::ProcessExited(p) => EventView::ProcessExited(
            runtime_view(p.runtime),
            match p.reason {
                Some(r) => Some(r@),
                None => None,
            },
        ),
    }
}

pub open spec fn events_view(s: Seq<RuntimeEventMessage>) -> Seq<EventView> {
    s.map_values(|e: RuntimeEventMessage| event_view(e))
}

/// The channel each event is emitted on.
pub open spec fn spec_event_name(e: EventView) -> Seq<char> {
    match e {
        EventView::RuntimeChanged(_) => "runtime://changed"@,
        EventView::RulesChanged(_) => "rules://changed"@,
        EventView::LogsAppended(_) => "logs://appended"@,
        EventView::ProcessExited(_, _) => "runtime://process-exited"@,
    }
}

impl RuntimeEventMessage {
    /// The channel the event is emitted on.
    pub fn event_name(&self) -> (r: &'static str)
        ensures
            r@ == spec_event_name(event_view(*self)),
    {
        match self {
            RuntimeEventMessage::RuntimeChanged(_) => "runtime://changed",
            RuntimeEventMessage::RulesChanged(_) => "rules://changed",
            RuntimeEventMessage::LogsAppended(_) => "logs://appended",
            RuntimeEventMessage::ProcessExited(_) => "runtime://process-exited",
        }
    }
}

/// A process that is starting, running or stopping.
pub open spec fn was_active(s: ProcessStatus) -> bool {
    s == ProcessStatus::Starting || s == ProcessStatus::Running || s == ProcessStatus::Stopping
}

/// A process that is stopped or failed.
pub open spec fn is_terminal(s: ProcessStatus) -> bool {
    s == ProcessStatus::Stopped || s == ProcessStatus::Failed
}

/// Why the process ended: the summary of the last error, if any.
pub open spec fn exit_reason(rt: RuntimeView) -> Option<Seq<char>> {
    match rt.2 {
        Some(e) => Some(e.0),
        None => None,
    }
}

/// How many of the entries appended since the last poll the log still holds:
/// all of them, unless more were appended than the log keeps.
pub open spec fn new_entries(last_appended: u64, appended: u64, log_len: nat) -> nat {
    if appended <= last_appended {
        0
    } else if appended - last_appended <= log_len {
        (appended - last_appended) as nat
    } else {
        log_len
    }
}

/// The events of one poll: a change of the runtime is emitted, followed by
/// the end of the process when it went from active to stopped or failed;
/// then the entries appended to the log since the last poll, told apart by
/// the count of appended entries (so entries added while the log is full are
/// delivered too).
pub open spec fn bridge_events(
    last: RuntimeView,
    last_appended: u64,
    now: RuntimeView,
    appended: u64,
    logs: Seq<(ProcessLogSource, Seq<char>, Timestamp)>,
) -> Seq<EventView> {
    let runtime_events = if now != last {
        seq![EventView::RuntimeChanged(now)] + if was_active(last.0) && is_terminal(now.0) {
            seq![EventView::ProcessExited(now, exit_reason(now))]
        } else {
            Seq::empty()
        }
    } else {
        Seq::empty()
    };
    let n = new_entries(last_appended, appended, logs.len());
    let log_events = if n > 0 {
        seq![EventView::LogsAppended(logs.skip(logs.len() - n))]
    } else {
        Seq::empty()
    };
    runtime_events + log_events
}

/// Law: a poll reports the end of the process exactly when the runtime went
/// from starting, running or stopping to stopped or failed, and then right
/// after the change it reports. Log entries come last, only when entries
/// were appended since the last poll, and then they are exactly those
/// entries, in order, as long as no more were appended than the log keeps.
pub proof fn law_exit_reported_only_on_terminal_transition(
    last: RuntimeView,
    last_appended: u64,
    now: RuntimeView,
    appended: u64,
    logs: Seq<(ProcessLogSource, Seq<char>, Timestamp)>,
)
    ensures
        ({
            let events = bridge_events(last, last_appended, now, appended, logs);
            &&& (exists|i: int| 0 <= i < events.len() && #[trigger] events[i] is ProcessExited) <==> (now
                != last && was_active(last.0) && is_terminal(now.0))
            &&& (now != last && was_active(last.0) && is_terminal(now.0)) ==> events[1]
                == EventView::ProcessExited(now, exit_reason(now))
            &&& (appended > last_appended && logs.len() > 0) <==> (events.len() > 0
                && events.last() is LogsAppended)
            &&& (appended > last_appended && appended - last_appended <= logs.len()) ==> events.last()
                == EventView::LogsAppended(logs.subrange(logs.len() - (appended - last_appended), logs.len() as int))
        }),
{
    let events = bridge_events(last, last_appended, now, appended, logs);
    if now != last && was_active(last.0) && is_terminal(now.0) {
        assert(events[1] is ProcessExited);
    }
    if !(appended > last_appended && logs.len() > 0) && events.len() > 0 {
        assert(!(events.last() is LogsAppended));
    }
    if appended > last_appended && appended - last_appended <= logs.len() {
        let k = logs.len() - (appended - last_appended);
        assert(logs.skip(k) =~= logs.subrange(k, logs.len() as int));
    }
}

/// Law: a poll reports a change of the runtime exactly when the runtime
/// differs in any way from the one last seen — its process state, any rule's
/// state or error, the last error or the active rules — and then the change
/// comes first and carries the new runtime. A poll that finds the same runtime
/// reports no runtime change and no end of the process.
pub proof fn law_runtime_change_reported_exactly_when_it_differs(
    last: RuntimeView,
    last_appended: u64,
    now: RuntimeView,
    appended: u64,
    logs: Seq<(ProcessLogSource, Seq<char>, Timestamp)>,
)
    ensures
        ({
            let events = bridge_events(last, last_appended, now, appended, logs);
            &&& (now != last) <==> (events.len() > 0 && events[0] == EventView::RuntimeChanged(now))
            &&& (now != last) <==> (exists|i: int| 0 <= i < events.len() && #[trigger] events[i] is RuntimeChanged)
            &&& now == last ==> forall|i: int| 0 <= i < events.len() ==> #[trigger] events[i] is LogsAppended
        }),
{
    let events = bridge_events(last, last_appended, now, appended, logs);
    if now != last {
        assert(events[0] is RuntimeChanged);
    } else {
        assert forall|i: int| 0 <= i < events.len() implies #[trigger] events[i] is LogsAppended by {}
        if events.len() > 0 {
            assert(events[0] is LogsAppended);
        }
    }
}

/// The event of appended log entries; there is none for no entry.
pub fn logs_appended(entries: Vec<ProcessLogEntry>) -> (r: Option<RuntimeEventMessage>)
    ensures
        entries@.len() == 0 <==> r is None,
        r matches Some(e) ==> event_view(e) == EventView::LogsAppended(entries_view(entries@)),
{
    if entries.len() == 0 {
        None
    } else {
        Some(RuntimeEventMessage::LogsAppended(LogsAppendedPayload { entries }))
    }
}

/// The event of the end of the process, with the last error as its reason.
pub fn process_exited(runtime: RuntimeState) -> (r: RuntimeEventMessage)
    ensures
        event_view(r) == EventView::ProcessExited(runtime_view(runtime), exit_reason(runtime_view(runtime))),
{
    let reason = match &runtime.last_error {
        Some(e) => Some(e.summary.clone()),
        None => None,
    };
    RuntimeEventMessage::ProcessExited(ProcessExitedPayload { runtime, reason })
}

/// What the bridge saw last.
pub struct RuntimeEventBridge {
    last_runtime: RuntimeState,
    last_appended: u64,
}

impl RuntimeEventBridge {
    pub closed spec fn spec_last_runtime(&self) -> RuntimeView {
        runtime_view(self.last_runtime)
    }

    pub closed spec fn spec_last_appended(&self) -> u64 {
        self.last_appended
    }

    /// A bridge that starts from a snapshot of the runtime and the count of
    /// entries appended to the log so far.
    pub fn new(runtime: RuntimeState, appended: u64) -> (r: RuntimeEventBridge)
        ensures
            r.spec_last_runtime() == runtime_view(runtime),
            r.spec_last_appended() == appended,
    {
        RuntimeEventBridge { last_runtime: runtime, last_appended: appended }
    }

    /// One poll: the events to emit for the current runtime, log and count of
    /// appended entries, which become what the bridge saw last.
    pub fn poll(&mut self, runtime: RuntimeState, logs: &[ProcessLogEntry], appended: u64) -> (r: Vec<RuntimeEventMessage>)
        ensures
            events_view(r@) == bridge_events(
                old(self).spec_last_runtime(),
                old(self).spec_last_appended(),
                runtime_view(runtime),
                appended,
                entries_view(logs@),
            ),
            final(self).spec_last_runtime() == runtime_view(runtime),
            final(self).spec_last_appended() == appended,
    {
        let ghost last = runtime_view(self.last_runtime);
        let ghost now = runtime_view(runtime);
        let mut out: Vec<RuntimeEventMessage> = Vec::new();
        if !same_runtime(&runtime, &self.last_runtime) {
            let previous = self.last_runtime.process_status;
            let current = runtime.process_status;
            out.push(RuntimeEventMessage::RuntimeChanged(RuntimeChangedPayload { runtime: runtime.duplicate() }));
            let was = previous == ProcessStatus::Starting || previous == ProcessStatus::Running
                || previous == ProcessStatus::Stopping;
            let terminal = current == ProcessStatus::Stopped || current == ProcessStatus::Failed;
            if was && terminal {
                out.push(process_exited(runtime.duplicate()));
            }
            self.last_runtime = runtime;
        }
        let ghost runtime_part = events_view(out@);
        assert(runtime_part =~= bridge_events(last, self.last_appended, now, self.last_appended, Seq::empty()));
        let n: usize = if appended <= self.last_appended {
            0
        } else if appended - self.last_appended <= logs.len() as u64 {
            (appended - self.last_appended) as usize
        } else {
            logs.len()
        };
        assert(n == new_entries(self.last_appended, appended, logs@.len()));
        if n > 0 {
            let start = logs.len() - n;
            let mut entries: Vec<ProcessLogEntry> = Vec::new();
            let mut i = start;
            while i < logs.len()
                invariant
                    start <= i <= logs@.len(),
                    entries@.len() == i - start,
                    forall|j: int| 0 <= j < entries@.len() ==> entry_view(#[trigger] entries@[j])
                        == entry_view(logs@[start + j]),
                decreases logs@.len() - i,
            {
                entries.push(logs[i].duplicate());
                i = i + 1;
            }
            assert(entries_view(entries@) =~= entries_view(logs@).skip(start as int));
            out.push(RuntimeEventMessage::LogsAppended(LogsAppendedPayload { entries }));
        }
        assert(events_view(out@) =~= bridge_events(last, self.last_appended, now, appended, entries_view(logs@)));
        self.last_appended = appended;
        out
    }
}

} // verus!
