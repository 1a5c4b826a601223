//! Run types and statuses recorded by tracers, and the simple tracers.
//!
//! The tracer callbacks themselves are asynchronous and write to logs or
//! standard output; they live with the application.

use crate::outputs::{object_members, object_of};
use crate::routing::entries_map;
use crate::text::str_chars;
use vstd::prelude::*;

verus! {

/// The kind of operation a run records.
#[derive(Debug, Clone, Copy, PartialEq, Eq, Hash, Structural)]
pub enum RunType {
    /// A large-language-model invocation.
    Llm,
    /// A chat-model invocation.
    ChatModel,
    /// A chain of operations.
    Chain,
    /// A tool invocation.
    Tool,
    /// A retriever invocation.
    Retriever,
    /// An agent planning step.
    Agent,
    /// A memory operation.
    Memory,
    /// A callback handler invocation.
    Callback,
    /// A prompt construction step.
    Prompt,
    /// Any other or custom run type.
    Other,
}

/// The snake-case name of a run type.
pub open spec fn run_type_name(t: RunType) -> Seq<char> {
    match t {
        RunType::Llm => "llm"@,
        RunType::ChatModel => "chat_model"@,
        RunType::Chain => "chain"@,
        RunType::Tool => "tool"@,
        RunType::Retriever => "retriever"@,
        RunType::Agent => "agent"@,
        RunType::Memory => "memory"@,
        RunType::Callback => "callback"@,
        RunType::Prompt => "prompt"@,
        RunType::Other => "other"@,
    }
}

impl RunType {
    /// The snake-case name of the run type, e.g. `chat_model`.
    pub fn to_string(&self) -> (res: String)
        ensures
            res@ == run_type_name(*self),
    {
        let s = match self {
            RunType::Llm => "llm",
            RunType::ChatModel => "chat_model",
            RunType::Chain => "chain",
            RunType::Tool => "tool",
            RunType::Retriever => "retriever",
            RunType::Agent => "agent",
            RunType::Memory => "memory",
            RunType::Callback => "callback",
            RunType::Prompt => "prompt",
            RunType::Other => "other",
        };
        s.to_owned()
    }

    /// The name with its first letter in upper case, e.g. `Chat_model`.
    pub fn capitalized(&self) -> (res: String)
        ensures
            res@.len() == run_type_name(*self).len(),
            res@.skip(1) == run_type_name(*self).skip(1),
            res@[0] == upper_ascii(run_type_name(*self)[0]),
    {
        let name = self.to_string();
        let cs = str_chars(name.as_str());
        proof {
            reveal_strlit("llm");
            reveal_strlit("chat_model");
            reveal_strlit("chain");
            reveal_strlit("tool");
            reveal_strlit("retriever");
            reveal_strlit("agent");
            reveal_strlit("memory");
            reveal_strlit("callback");
            reveal_strlit("prompt");
            reveal_strlit("other");
        }
        let mut out: Vec<char> = Vec::new();
        let first = cs[0];
        let u = if 'a' <= first && first <= 'z' {
            upper_letter(first)
        } else {
            first
        };
        out.push(u);
        let mut i: usize = 1;
        while i < cs.len()
            invariant
                1 <= i <= cs@.len(),
                cs@.len() >= 1,
                out@.len() == i,
                out@[0] == u,
                out@.skip(1) == cs@.subrange(1, i as int),
            decreases cs@.len() - i,
        {
            out.push(cs[i]);
            i += 1;
            assert(out@.skip(1) =~= cs@.subrange(1, i as int));
        }
        assert(cs@.subrange(1, cs@.len() as int) =~= cs@.skip(1));
        crate::text::string_from_chars(out.as_slice())
    }
}

/// `c` with an ASCII lower-case letter mapped to upper case.
pub open spec fn upper_ascii(c: char) -> char {
    if 'a' <= c <= 'z' {
        ((c as u32) - 32) as char
    } else {
        c
    }
}

/// The upper-case letter of an ASCII lower-case letter.
fn upper_letter(c: char) -> (r: char)
    requires
        'a' <= c <= 'z',
    ensures
        r == upper_ascii(c),
{
    match c {
        'a' => 'A', 'b' => 'B', 'c' => 'C', 'd' => 'D', 'e' => 'E', 'f' => 'F', 'g' => 'G',
        'h' => 'H', 'i' => 'I', 'j' => 'J', 'k' => 'K', 'l' => 'L', 'm' => 'M', 'n' => 'N',
        'o' => 'O', 'p' => 'P', 'q' => 'Q', 'r' => 'R', 's' => 'S', 't' => 'T', 'u' => 'U',
        'v' => 'V', 'w' => 'W', 'x' => 'X', 'y' => 'Y', _ => 'Z',
    }
}

/// The status of a run.
#[derive(Debug, Clone, Copy, PartialEq, Eq, Hash, Structural)]
pub enum RunStatus {
    /// The run has been created but has not started executing.
    NotStarted,
    /// The run is currently executing.
    Running,
    /// The run completed successfully.
    Succeeded,
    /// The run failed with an error.
    Failed,
    /// The run was cancelled before completion.
    Cancelled,
}

/// The snake-case name of a run status.
pub open spec fn run_status_name(s: RunStatus) -> Seq<char> {
    match s {
        RunStatus::NotStarted => "not_started"@,
        RunStatus::Running => "running"@,
        RunStatus::Succeeded => "succeeded"@,
        RunStatus::Failed => "failed"@,
        RunStatus::Cancelled => "cancelled"@,
    }
}

impl RunStatus {
    /// The snake-case name of the status, e.g. `not_started`.
    pub fn to_string(&self) -> (res: String)
        ensures
            res@ == run_status_name(*self),
    {
        let s = match self {
            RunStatus::NotStarted => "not_started",
            RunStatus::Running => "running",
            RunStatus::Succeeded => "succeeded",
            RunStatus::Failed => "failed",
            RunStatus::Cancelled => "cancelled",
        };
        s.to_owned()
    }
}

/// A tracer that reports runs through the logging framework.
#[derive(Debug, Clone)]
pub struct LoggingTracer;

impl LoggingTracer {
    /// Creates a new [`LoggingTracer`].
    pub fn new() -> (res: Self) {
        LoggingTracer
    }
}

/// A tracer that prints runs to standard output.
#[derive(Debug, Clone)]
pub struct StdoutTracer;

impl StdoutTracer {
    /// Creates a new [`StdoutTracer`].
    pub fn new() -> (res: Self) {
        StdoutTracer
    }
}


// ---------------------------------------------------------------------------
// Runs
// ---------------------------------------------------------------------------

/// Reads the clock: the current UTC time as nanoseconds since the Unix
/// epoch (`chrono::Utc::now`, then `timestamp_nanos_opt`; the latest
/// representable instant past the year 2262).
///
/// Nothing is claimed of the result: it is whatever the clock says.
#[verifier::external_body]
fn now_nanos() -> (r: i64) {
    chrono::Utc::now().timestamp_nanos_opt().unwrap_or(i64::MAX)
}

/// A named event recorded during a [`Run`] (e.g. `"start"`, `"end"`,
/// `"error"`, `"new_token"`), with an optional JSON payload.
#[derive(Debug)]
pub struct Event {
    /// The event's name.
    pub name: String,
    /// When it occurred: nanoseconds since the Unix epoch, UTC.
    pub time: i64,
    /// Data attached to the event.
    pub data: Option<serde_json::Value>,
}

/// The lifecycle of one execution of a runnable: identity, timing, inputs,
/// outputs, error, tags, metadata, events and child runs.
#[derive(Debug)]
pub struct Run {
    /// The run's identifier.
    pub id: uuid::Uuid,
    /// The runnable's name.
    pub name: String,
    /// What kind of runnable ran.
    pub run_type: RunType,
    /// The enclosing run, for a sub-run.
    pub parent_run_id: Option<uuid::Uuid>,
    /// When the run started: nanoseconds since the Unix epoch, UTC.
    pub start_time: i64,
    /// When the run ended, once it has.
    pub end_time: Option<i64>,
    /// The inputs, as JSON.
    pub inputs: serde_json::Value,
    /// The outputs, once there are any.
    pub outputs: Option<serde_json::Value>,
    /// The error message of a failed run.
    pub error: Option<String>,
    /// Where the run is in its lifecycle.
    pub status: RunStatus,
    /// Tags attached to the run.
    pub tags: Vec<String>,
    /// Metadata attached to the run (a JSON object).
    pub metadata: serde_json::Value,
    /// The events recorded so far, oldest first.
    pub events: Vec<Event>,
    /// Runs spawned by this one, in order.
    pub child_runs: Vec<Run>,
}

/// `e` is the event `name` at `time`, without data.
pub open spec fn plain_event(e: Event, name: Seq<char>, time: i64) -> bool {
    e.name@ == name && e.time == time && e.data is None
}

/// `new` is `old` ended at some time with status `status` and one more
/// event named `event` at that time; what else changes is up to the caller.
pub open spec fn ended(old: Run, new: Run, status: RunStatus, event: Seq<char>) -> bool {
    &&& new.end_time is Some
    &&& new.status == status
    &&& new.events@.len() == old.events@.len() + 1
    &&& new.events@.take(old.events@.len() as int) == old.events@
    &&& plain_event(new.events@.last(), event, new.end_time->0)
    &&& new.id == old.id
    &&& new.name == old.name
    &&& new.run_type == old.run_type
    &&& new.parent_run_id == old.parent_run_id
    &&& new.start_time == old.start_time
    &&& new.inputs == old.inputs
    &&& new.tags == old.tags
    &&& new.metadata == old.metadata
    &&& new.child_runs == old.child_runs
}

/// An event named `name` at `time`, without data.
fn event_at(name: &str, time: i64) -> (e: Event)
    ensures
        plain_event(e, name@, time),
{
    Event { name: String::from_str(name), time, data: None }
}

impl Run {
    /// A new run in the `Running` state, started now, whose one event is
    /// `"start"` at its start time; no tags, empty metadata, no children.
    pub fn new(
        id: uuid::Uuid,
        name: &str,
        run_type: RunType,
        parent_run_id: Option<uuid::Uuid>,
        inputs: serde_json::Value,
    ) -> (res: Self)
        ensures
            res.id == id,
            res.name@ == name@,
            res.run_type == run_type,
            res.parent_run_id == parent_run_id,
            res.end_time is None,
            res.inputs == inputs,
            res.outputs is None,
            res.error is None,
            res.status == RunStatus::Running,
            res.tags@.len() == 0,
            object_members(res.metadata) == Some(Map::<Seq<char>, serde_json::Value>::empty()),
            res.events@.len() == 1,
            plain_event(res.events@[0], "start"@, res.start_time),
            res.child_runs@.len() == 0,
    {
        let now = now_nanos();
        let empty: Vec<(String, serde_json::Value)> = Vec::new();
        proof {
            assert(entries_map(empty@) =~= Map::<Seq<char>, serde_json::Value>::empty());
        }
        let mut events: Vec<Event> = Vec::new();
        events.push(event_at("start", now));
        Run {
            id,
            name: String::from_str(name),
            run_type,
            parent_run_id,
            start_time: now,
            end_time: None,
            inputs,
            outputs: None,
            error: None,
            status: RunStatus::Running,
            tags: Vec::new(),
            metadata: object_of(empty),
            events,
            child_runs: Vec::new(),
        }
    }

    /// Ends the run successfully now with `outputs`, recording an `"end"`
    /// event.
    pub fn succeed(&mut self, outputs: serde_json::Value)
        ensures
            ended(*old(self), *final(self), RunStatus::Succeeded, "end"@),
            final(self).outputs == Some(outputs),
            final(self).error == old(self).error,
    {
        let now = now_nanos();
        self.end_time = Some(now);
        self.outputs = Some(outputs);
        self.status = RunStatus::Succeeded;
        self.events.push(event_at("end", now));
        proof {
            assert(self.events@.take(old(self).events@.len() as int) =~= old(self).events@);
        }
    }

    /// Ends the run as failed now with the message `error`, recording an
    /// `"error"` event.
    pub fn fail(&mut self, error: &str)
        ensures
            ended(*old(self), *final(self), RunStatus::Failed, "error"@),
            final(self).error matches Some(e) && e@ == error@,
            final(self).outputs == old(self).outputs,
    {
        let now = now_nanos();
        self.end_time = Some(now);
        self.error = Some(String::from_str(error));
        self.status = RunStatus::Failed;
        self.events.push(event_at("error", now));
        proof {
            assert(self.events@.take(old(self).events@.len() as int) =~= old(self).events@);
        }
    }

    /// Ends the run as cancelled now, recording a `"cancel"` event.
    pub fn cancel(&mut self)
        ensures
            ended(*old(self), *final(self), RunStatus::Cancelled, "cancel"@),
            final(self).outputs == old(self).outputs,
            final(self).error == old(self).error,
    {
        let now = now_nanos();
        self.end_time = Some(now);
        self.status = RunStatus::Cancelled;
        self.events.push(event_at("cancel", now));
        proof {
            assert(self.events@.take(old(self).events@.len() as int) =~= old(self).events@);
        }
    }

    /// How long the run took, in nanoseconds, once it has ended.
    pub fn elapsed(&self) -> (res: Option<i128>)
        ensures
            match self.end_time {
                Some(end) => res == Some((end - self.start_time) as i128),
                None => res is None,
            },
    {
        match self.end_time {
            Some(end) => Some(end as i128 - self.start_time as i128),
            None => None,
        }
    }

    /// Appends `child` to the run's children.
    pub fn add_child_run(&mut self, child: Run)
        ensures
            final(self).child_runs@ == old(self).child_runs@.push(child),
            final(self).events == old(self).events,
            final(self).status == old(self).status,
            final(self).end_time == old(self).end_time,
    {
        self.child_runs.push(child);
    }
}

/// Ending a run, whichever way, keeps its earlier events as they were and
/// records its end time as the time of its new last event.
pub proof fn law_ended_run_keeps_history(old: Run, new: Run, status: RunStatus, event: Seq<char>)
    requires
        ended(old, new, status, event),
    ensures
        new.end_time is Some,
        new.events@.last().time == new.end_time->0,
        forall|i: int| 0 <= i < old.events@.len() ==> new.events@[i] == old.events@[i],
{
    assert forall|i: int| 0 <= i < old.events@.len() implies new.events@[i] == old.events@[i] by {
        assert(new.events@.take(old.events@.len() as int)[i] == new.events@[i]);
    }
}

} // verus!
