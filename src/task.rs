//! The task model: definitions, trigger disciplines and runtime state.
use std::collections::HashMap;
use vstd::prelude::*;

verus! {

/// Exit code that marks a process ended by an intentional stop signal.
pub const STOP_EXIT_CODE: i32 = 143;

/// Exit code of an ended process: its own when it exited, 128 plus the
/// signal's number when a signal ended it (a stop signal gives
/// `STOP_EXIT_CODE`), and 128 when neither is known.
pub fn exit_code(code: Option<i32>, signal: Option<i32>) -> (r: i32)
    ensures
        code matches Some(c) ==> r == c,
        code is None ==> r == (match signal {
            Some(s) => if 1 <= s <= 127 {
                128 + s
            } else {
                128
            },
            None => 128,
        }),
{
    match code {
        Some(c) => c,
        None => match signal {
            Some(s) => if 1 <= s && s <= 127 {
                128 + s
            } else {
                128
            },
            None => 128,
        },
    }
}

pub fn default_i64_0() -> (r: i64)
    ensures
        r == 0,
{
    0
}

pub fn default_u64_0() -> (r: u64)
    ensures
        r == 0,
{
    0
}

pub fn default_none_u64() -> (r: Option<u64>)
    ensures
        r is None,
{
    None
}

pub fn default_none_string() -> (r: Option<String>)
    ensures
        r is None,
{
    None
}

pub fn default_false() -> (r: bool)
    ensures
        !r,
{
    false
}

pub fn default_vec_string() -> (r: Vec<String>)
    ensures
        r@.len() == 0,
{
    Vec::new()
}

pub fn default_map_string_string() -> (r: HashMap<String, String>)
    ensures
        r@.len() == 0,
{
    HashMap::new()
}

/// Relies on std::time::SystemTime::now and duration_since(UNIX_EPOCH):
/// whole seconds since the Unix epoch, or 0 when the clock is set before it.
#[verifier::external_body]
fn unix_seconds_now() -> (r: u64) {
    match std::time::SystemTime::now().duration_since(std::time::UNIX_EPOCH) {
        Ok(d) => d.as_secs(),
        Err(_) => 0,
    }
}

/// Creation time of a task defined without one: the current epoch second.
pub fn default_created_at() -> (r: u64) {
    unix_seconds_now()
}

pub fn default_status() -> (r: Option<Status>)
    ensures
        r == Some(Status::Added),
{
    Some(Status::Added)
}

/// The labels of the task state machine.
#[derive(Debug, Clone, Copy, PartialEq, Eq, Structural)]
pub enum Status {
    Added,
    Waiting,
    Running,
    Stopped,
    AutoRestart,
    Interval,
    Executing,
    Paused,
}

impl Status {
    /// The label as written in the command protocol and the cache file.
    pub fn as_str(&self) -> (r: &'static str)
        ensures
            r@ == status_label(*self),
    {
        match self {
            Status::Added => "added",
            Status::Waiting => "waiting",
            Status::Running => "running",
            Status::Stopped => "stopped",
            Status::AutoRestart => "auto restart",
            Status::Interval => "interval",
            Status::Executing => "executing",
            Status::Paused => "paused",
        }
    }
}

pub open spec fn status_label(s: Status) -> Seq<char> {
    match s {
        Status::Added => "added"@,
        Status::Waiting => "waiting"@,
        Status::Running => "running"@,
        Status::Stopped => "stopped"@,
        Status::AutoRestart => "auto restart"@,
        Status::Interval => "interval"@,
        Status::Executing => "executing"@,
        Status::Paused => "paused"@,
    }
}

/// One-shot date/time trigger; an unset field takes the current wall-clock
/// value each time it is evaluated.
#[derive(Debug, Clone, Copy, PartialEq, Eq, Structural)]
pub struct ScheduledTask {
    pub year: Option<i32>,
    pub month: Option<u32>,
    pub day: Option<u32>,
    pub hour: Option<u32>,
    pub minute: Option<u32>,
    pub second: Option<u32>,
}

/// Long-lived worker restarted after a crash, at most `max_restart` times.
#[derive(Debug, Clone, Copy, PartialEq, Eq, Structural)]
pub struct AsyncTask {
    pub max_restart: Option<u64>,
    pub has_restart: u64,
    pub started_at: u64,
    pub stopped_at: u64,
}

/// Recurring trigger: fires every `interval` seconds from `started_after` on.
#[derive(Debug, Clone, Copy, PartialEq, Eq, Structural)]
pub struct PeriodicTask {
    pub started_after: u64,
    pub interval: u64,
    pub last_run: u64,
    pub sync: bool,
}

#[derive(Debug, Clone, Copy, PartialEq, Eq, Structural)]
pub enum TaskType {
    Scheduled(ScheduledTask),
    Async(AsyncTask),
    Periodic(PeriodicTask),
    Manual,
}

/// A supervised unit of work: its definition and its runtime state.
#[derive(Debug, Clone)]
pub struct Task {
    /// Task id (unique)
    pub id: i64,
    /// Task name (unique)
    pub name: String,
    pub command: String,
    pub args: Vec<String>,
    pub group: Option<String>,
    pub dir: Option<String>,
    pub env: HashMap<String, String>,
    pub stdin: Option<bool>,
    pub stdout: Option<String>,
    pub stderr: Option<String>,
    pub created_at: u64,
    pub task_type: TaskType,
    pub pid: Option<u32>,
    pub status: Option<Status>,
    pub code: Option<i32>,
}

impl Task {
    /// A live process belongs to the task.
    pub open spec fn is_live(&self) -> bool {
        self.pid is Some
    }
}

impl Default for Task {
    fn default() -> (r: Task)
        ensures
            r.id == 0,
            r.name@ == "Default"@,
            r.command@.len() == 0,
            r.args@.len() == 0,
            r.group is None,
            r.dir is None,
            r.env@.len() == 0,
            r.stdin is None,
            r.stdout is None,
            r.stderr is None,
            r.task_type == TaskType::Manual,
            r.pid is None,
            r.status is None,
            r.code is None,
    {
        Task {
            id: 0,
            name: "Default".to_string(),
            command: String::new(),
            args: Vec::new(),
            group: None,
            dir: None,
            env: HashMap::new(),
            stdin: None,
            stdout: None,
            stderr: None,
            created_at: unix_seconds_now(),
            task_type: TaskType::Manual,
            pid: None,
            status: None,
            code: None,
        }
    }
}

/// Selects tasks for a lifecycle operation: by `id` when it is not 0, else by
/// name or group; `mat` lets one operation address every match.
#[derive(Debug, Clone)]
pub struct TaskFlag {
    pub id: i64,
    pub name: Option<String>,
    pub group: Option<String>,
    pub mat: bool,
}

impl Default for TaskFlag {
    fn default() -> (r: TaskFlag)
        ensures
            r.id == 0,
            r.name matches Some(n) && n@.len() == 0,
            r.group is None,
            !r.mat,
    {
        TaskFlag { id: 0, name: Some(String::new()), group: None, mat: false }
    }
}

impl TaskFlag {
    /// Whether the flag addresses task `t`.
    pub open spec fn selects(&self, t: Task) -> bool {
        if self.id != 0 {
            t.id == self.id
        } else {
            (self.name matches Some(n) && t.name@ == n@) || (self.group matches Some(g)
                && t.group matches Some(tg) && tg@ == g@)
        }
    }

    /// The flag that addresses exactly the task with this id.
    pub fn by_id(id: i64) -> (r: TaskFlag)
        ensures
            r.id == id,
            r.name is None,
            r.group is None,
            !r.mat,
    {
        TaskFlag { id, name: None, group: None, mat: false }
    }
}

/// A list of tasks, as exchanged with clients.
#[derive(Debug, Clone)]
pub struct Tasks {
    pub task: Vec<Task>,
}

} // verus!
