//! The task store and the lifecycle state machine of its tasks.
use std::collections::HashMap;
use crate::task::{AsyncTask, PeriodicTask, Status, Task, TaskFlag, TaskType, STOP_EXIT_CODE};
use vstd::prelude::*;

verus! {

/// Why a store operation failed.
#[derive(Debug, Clone, Copy, PartialEq, Eq, Structural)]
pub enum TaskError {
    /// No task matches the id, name or flag.
    NotFound,
    /// The name is taken, the flag is ambiguous, or the task's state forbids
    /// the operation.
    Conflict,
    /// A process could not be spawned, signalled or polled.
    Process,
    /// The cache file could not be read or written.
    Io,
    /// A cached task set or an instruction could not be decoded.
    Decode,
    /// The task used up its automatic restarts.
    Policy,
}

/// Ids and names are each unique over the sequence.
pub open spec fn unique_keys(s: Seq<Task>) -> bool {
    forall|i: int, j: int|
        0 <= i < s.len() && 0 <= j < s.len() && i != j ==> s[i].id != s[j].id && s[i].name@
            != s[j].name@
}

pub open spec fn has_id(s: Seq<Task>, id: i64) -> bool {
    exists|i: int| 0 <= i < s.len() && s[i].id == id
}

pub open spec fn has_name(s: Seq<Task>, name: Seq<char>) -> bool {
    exists|i: int| 0 <= i < s.len() && s[i].name@ == name
}

/// A start from one of these statuses counts as a restart.
pub open spec fn is_restart(t: Task) -> bool {
    t.status == Some(Status::AutoRestart) || t.status == Some(Status::Stopped)
}

/// The task has restarted as often as its cap allows.
pub open spec fn restarts_used_up(a: AsyncTask) -> bool {
    a.max_restart matches Some(m) && a.has_restart >= m
}

/// Whether `start` may spawn a process for task `t`: not while one is live,
/// nor for an async task restarted once more than its cap allows.
pub open spec fn spawn_result(t: Task) -> Result<(), TaskError> {
    if t.pid is Some {
        Err(TaskError::Conflict)
    } else {
        match t.task_type {
            TaskType::Async(a) => if is_restart(t) && restarts_used_up(a) {
                Err(TaskError::Policy)
            } else {
                Ok(())
            },
            _ => Ok(()),
        }
    }
}

/// Whether task `t` may be armed: a scheduled or periodic task with no live
/// process.
pub open spec fn arm_result(t: Task) -> Result<(), TaskError> {
    if t.pid is Some {
        Err(TaskError::Conflict)
    } else {
        match t.task_type {
            TaskType::Scheduled(_) => Ok(()),
            TaskType::Periodic(_) => Ok(()),
            _ => Err(TaskError::Conflict),
        }
    }
}

pub open spec fn armed(t: Task) -> Task {
    match t.task_type {
        TaskType::Periodic(_) => Task { status: Some(Status::Interval), ..t },
        _ => Task { status: Some(Status::Waiting), ..t },
    }
}

pub open spec fn bumped(n: u64) -> u64 {
    if n < u64::MAX {
        (n + 1) as u64
    } else {
        n
    }
}

/// Task `t` once process `pid` was spawned for it at time `now`.
pub open spec fn started(t: Task, pid: u32, now: u64) -> Task {
    match t.task_type {
        TaskType::Periodic(p) => Task {
            pid: Some(pid),
            code: None,
            status: Some(Status::Executing),
            task_type: TaskType::Periodic(PeriodicTask { last_run: now, ..p }),
            ..t
        },
        TaskType::Async(a) => Task {
            pid: Some(pid),
            code: None,
            status: Some(Status::Running),
            task_type: if is_restart(t) {
                TaskType::Async(AsyncTask { has_restart: bumped(a.has_restart), started_at: now, ..a })
            } else {
                t.task_type
            },
            ..t
        },
        _ => Task { pid: Some(pid), code: None, status: Some(Status::Running), ..t },
    }
}

pub open spec fn with_stopped_at(ty: TaskType, now: u64) -> TaskType {
    match ty {
        TaskType::Async(a) => TaskType::Async(AsyncTask { stopped_at: now, ..a }),
        _ => ty,
    }
}

/// Task `t` once its process exited on its own with `code` at time `now`.
pub open spec fn exited(t: Task, code: i32, now: u64) -> Task {
    Task {
        pid: None,
        code: Some(code),
        status: if t.task_type is Periodic {
            Some(Status::Interval)
        } else {
            Some(Status::Stopped)
        },
        task_type: with_stopped_at(t.task_type, now),
        ..t
    }
}

/// Task `t` once intentionally stopped at time `now`.
pub open spec fn stopped(t: Task, now: u64) -> Task {
    Task {
        pid: None,
        code: Some(STOP_EXIT_CODE),
        status: Some(Status::Stopped),
        task_type: with_stopped_at(t.task_type, now),
        ..t
    }
}

pub open spec fn can_pause(t: Task) -> bool {
    t.pid is Some && t.status != Some(Status::Paused)
}

pub open spec fn can_resume(t: Task) -> bool {
    t.pid is Some && t.status == Some(Status::Paused)
}

pub open spec fn resumed(t: Task) -> Task {
    if t.task_type is Periodic {
        Task { status: Some(Status::Executing), ..t }
    } else {
        Task { status: Some(Status::Running), ..t }
    }
}

/// Task `t` with the fields that `write` was given replaced.
pub open spec fn written(t: Task, args: Option<Vec<String>>, env: Option<HashMap<String, String>>) -> Task {
    Task {
        args: match args {
            Some(a) => a,
            None => t.args,
        },
        env: match env {
            Some(e) => e,
            None => t.env,
        },
        ..t
    }
}

/// Definition `def` put in place of task `t`, keeping its identity (id and
/// name), its creation time and its runtime state.
pub open spec fn reloaded(t: Task, def: Task) -> Task {
    Task {
        id: t.id,
        name: t.name,
        created_at: t.created_at,
        pid: t.pid,
        status: t.status,
        code: t.code,
        ..def
    }
}

/// A new task as `add` stores it under `id`.
pub open spec fn added(t: Task, id: i64) -> Task {
    Task { id, pid: None, code: None, status: Some(Status::Added), ..t }
}

/// Statuses that claim a live process.
pub open spec fn claims_process(s: Option<Status>) -> bool {
    s == Some(Status::Running) || s == Some(Status::Executing) || s == Some(Status::Paused)
}

/// A task holds a pid exactly when its status claims a live process.
pub open spec fn consistent(t: Task) -> bool {
    (t.pid is Some) <==> claims_process(t.status)
}

/// Statuses that only hold while the daemon runs: those that claim a live
/// process, and the markers of a pending restart and of a periodic wait.
pub open spec fn is_transient(s: Option<Status>) -> bool {
    claims_process(s) || s == Some(Status::AutoRestart) || s == Some(Status::Interval)
}

/// A cached task as it is restored: no process survives a restart, and a
/// transient status becomes `stopped`.
pub open spec fn normalized(t: Task) -> Task {
    Task {
        pid: None,
        status: if is_transient(t.status) {
            Some(Status::Stopped)
        } else {
            t.status
        },
        ..t
    }
}

/// A cached task set that can be restored.
pub open spec fn restorable(s: Seq<Task>) -> bool {
    unique_keys(s) && forall|i: int| 0 <= i < s.len() ==> s[i].id >= 1
}

/// Ids of the tasks with this status, in store order.
pub open spec fn ids_with_status(s: Seq<Task>, status: Option<Status>) -> Seq<i64>
    decreases s.len(),
{
    if s.len() == 0 {
        Seq::empty()
    } else {
        let rest = ids_with_status(s.drop_last(), status);
        if s.last().status == status {
            rest.push(s.last().id)
        } else {
            rest
        }
    }
}

/// Ids of the tasks that `flag` selects, in store order.
pub open spec fn matched_ids(s: Seq<Task>, flag: TaskFlag) -> Seq<i64>
    decreases s.len(),
{
    if s.len() == 0 {
        Seq::empty()
    } else {
        let rest = matched_ids(s.drop_last(), flag);
        if flag.selects(s.last()) {
            rest.push(s.last().id)
        } else {
            rest
        }
    }
}

/// The tasks of the daemon, each with a unique id and a unique name.
pub struct TaskStore {
    tasks: Vec<Task>,
    last_id: i64,
    claims: Vec<i64>,
}

impl View for TaskStore {
    type V = Seq<Task>;

    closed spec fn view(&self) -> Seq<Task> {
        self.tasks@
    }
}

impl TaskStore {
    /// The largest id handed out so far.
    pub closed spec fn last_id(&self) -> int {
        self.last_id as int
    }

    /// A start of the task with this id is under way: its process is being
    /// spawned and not yet recorded.
    pub closed spec fn claimed(&self, id: i64) -> bool {
        self.claims@.contains(id)
    }

    pub open spec fn wf(&self) -> bool {
        &&& unique_keys(self@)
        &&& forall|i: int| 0 <= i < self@.len() ==> 1 <= #[trigger] self@[i].id <= self.last_id()
        &&& forall|i: int| 0 <= i < self@.len() ==> consistent(#[trigger] self@[i])
        &&& 0 <= self.last_id()
    }

    pub fn new() -> (r: TaskStore)
        ensures
            r.wf(),
            r@ == Seq::<Task>::empty(),
            forall|x: i64| !r.claimed(x),
    {
        TaskStore { tasks: Vec::new(), last_id: 0, claims: Vec::new() }
    }

    /// Every task, in store order: the content of the cache file.
    pub fn tasks(&self) -> (r: &Vec<Task>)
        ensures
            r@ == self@,
    {
        &self.tasks
    }

    fn find_index(&self, id: i64) -> (r: Option<usize>)
        ensures
            r matches Some(i) ==> i < self@.len() && self@[i as int].id == id,
            r is None <==> !has_id(self@, id),
    {
        let mut i: usize = 0;
        while i < self.tasks.len()
            invariant
                i <= self@.len(),
                self@ == self.tasks@,
                forall|k: int| 0 <= k < i ==> self@[k].id != id,
            decreases self@.len() - i,
        {
            if self.tasks[i].id == id {
                return Some(i);
            }
            i = i + 1;
        }
        None
    }

    fn find_name(&self, name: &String) -> (r: Option<usize>)
        ensures
            r matches Some(i) ==> i < self@.len() && self@[i as int].name@ == name@,
            r is None <==> !has_name(self@, name@),
    {
        let mut i: usize = 0;
        while i < self.tasks.len()
            invariant
                i <= self@.len(),
                self@ == self.tasks@,
                forall|k: int| 0 <= k < i ==> self@[k].name@ != name@,
            decreases self@.len() - i,
        {
            if self.tasks[i].name == *name {
                return Some(i);
            }
            i = i + 1;
        }
        None
    }

    /// The task with this id.
    pub fn get(&self, id: i64) -> (r: Option<&Task>)
        ensures
            r is None <==> !has_id(self@, id),
            r matches Some(t) ==> t.id == id && self@.contains(*t),
    {
        match self.find_index(id) {
            Some(i) => Some(&self.tasks[i]),
            None => None,
        }
    }

    /// Whether `start` may spawn a process for the task with this id.
    pub fn can_start(&self, id: i64) -> (r: Result<(), TaskError>)
        requires
            self.wf(),
        ensures
            !has_id(self@, id) ==> r == Err::<(), TaskError>(TaskError::NotFound),
            forall|i: int| 0 <= i < self@.len() && self@[i].id == id ==> r == spawn_result(self@[i]),
    {
        match self.find_index(id) {
            None => Err(TaskError::NotFound),
            Some(i) => start_check(&self.tasks[i]),
        }
    }

    fn is_claimed(&self, id: i64) -> (r: bool)
        ensures
            r == self.claimed(id),
    {
        let mut i: usize = 0;
        while i < self.claims.len()
            invariant
                i <= self.claims@.len(),
                forall|k: int| 0 <= k < i ==> self.claims@[k] != id,
            decreases self.claims@.len() - i,
        {
            if self.claims[i] == id {
                return true;
            }
            i = i + 1;
        }
        false
    }

    /// The first step of `start`, taken before the process is spawned: claims
    /// the start of the task with this id, so that no other start spawns a
    /// process for it until this one is recorded or released. Refused while
    /// another start is under way, or when the task may not be started.
    pub fn claim_start(&mut self, id: i64) -> (r: Result<(), TaskError>)
        requires
            old(self).wf(),
        ensures
            final(self).wf(),
            final(self)@ == old(self)@,
            final(self).last_id() == old(self).last_id(),
            !has_id(old(self)@, id) ==> r == Err::<(), TaskError>(TaskError::NotFound),
            has_id(old(self)@, id) && old(self).claimed(id) ==> r == Err::<(), TaskError>(
                TaskError::Conflict,
            ),
            forall|i: int|
                0 <= i < old(self)@.len() && old(self)@[i].id == id && !old(self).claimed(id) ==> r
                    == spawn_result(old(self)@[i]),
            r is Ok ==> forall|x: i64| final(self).claimed(x) <==> (old(self).claimed(x) || x == id),
            r is Err ==> forall|x: i64| final(self).claimed(x) <==> old(self).claimed(x),
    {
        match self.find_index(id) {
            None => Err(TaskError::NotFound),
            Some(i) => {
                if self.is_claimed(id) {
                    return Err(TaskError::Conflict);
                }
                match start_check(&self.tasks[i]) {
                    Ok(()) => {
                        let ghost before = self.claims@;
                        self.claims.push(id);
                        proof {
                            lemma_push_contains(before, id);
                        }
                        Ok(())
                    },
                    Err(e) => Err(e),
                }
            },
        }
    }

    fn drop_claim(&mut self, id: i64)
        ensures
            final(self).tasks == old(self).tasks,
            final(self).last_id == old(self).last_id,
            forall|x: i64| final(self).claimed(x) <==> (old(self).claimed(x) && x != id),
    {
        let mut kept: Vec<i64> = Vec::new();
        let mut i: usize = 0;
        while i < self.claims.len()
            invariant
                i <= self.claims@.len(),
                forall|x: i64|
                    kept@.contains(x) <==> (self.claims@.subrange(0, i as int).contains(x) && x
                        != id),
            decreases self.claims@.len() - i,
        {
            let c = self.claims[i];
            let ghost pre = self.claims@.subrange(0, i as int);
            let ghost post = self.claims@.subrange(0, i + 1);
            let ghost before = kept@;
            proof {
                assert(post == pre.push(c));
                lemma_push_contains(pre, c);
            }
            if c != id {
                kept.push(c);
                proof {
                    lemma_push_contains(before, c);
                }
            }
            assert forall|x: i64| kept@.contains(x) <==> (post.contains(x) && x != id) by {
                assert(before.contains(x) <==> (pre.contains(x) && x != id));
            }
            i = i + 1;
        }
        assert(self.claims@.subrange(0, self.claims@.len() as int) == self.claims@);
        self.claims = kept;
    }

    /// Gives up the claim on the start of the task with this id, after its
    /// process could not be spawned.
    pub fn release_claim(&mut self, id: i64)
        requires
            old(self).wf(),
        ensures
            final(self).wf(),
            final(self)@ == old(self)@,
            final(self).last_id() == old(self).last_id(),
            forall|x: i64| final(self).claimed(x) <==> (old(self).claimed(x) && x != id),
    {
        self.drop_claim(id);
    }

    /// Arms a scheduled task (status `waiting`) or a periodic one (status
    /// `interval`), so that the monitor fires it; this is the state machine's
    /// `added -> waiting` edge, a step of its own, apart from `start`.
    pub fn arm(&mut self, id: i64) -> (r: Result<(), TaskError>)
        requires
            old(self).wf(),
        ensures
            final(self).wf(),
            final(self).last_id() == old(self).last_id(),
            !has_id(old(self)@, id) ==> r == Err::<(), TaskError>(TaskError::NotFound)
                && final(self)@ == old(self)@,
            forall|i: int|
                0 <= i < old(self)@.len() && old(self)@[i].id == id ==> r == arm_result(
                    old(self)@[i],
                ) && final(self)@ == (if r is Ok {
                    old(self)@.update(i, armed(old(self)@[i]))
                } else {
                    old(self)@
                }),
    {
        match self.find_index(id) {
            None => Err(TaskError::NotFound),
            Some(i) => match arm_check(&self.tasks[i]) {
                Ok(()) => {
                    apply_arm(&mut self.tasks[i]);
                    proof {
                        lemma_update_keeps_wf(old(self)@, i as int, self@[i as int]);
                    }
                    Ok(())
                },
                Err(e) => Err(e),
            },
        }
    }

    /// The last step of `start`: records that process `pid` was spawned at
    /// time `now` for the task with this id, and ends the claim on its start.
    /// The task takes status `running`, its pid, and no exit code; a periodic
    /// task takes `executing` instead, the status by which the monitor knows
    /// that its run is still active. An async task started from `auto
    /// restart` or `stopped` counts one more restart and its start time
    /// becomes `now`.
    pub fn record_start(&mut self, id: i64, pid: u32, now: u64) -> (r: Result<(), TaskError>)
        requires
            old(self).wf(),
        ensures
            final(self).wf(),
            final(self).last_id() == old(self).last_id(),
            !has_id(old(self)@, id) ==> r == Err::<(), TaskError>(TaskError::NotFound)
                && final(self)@ == old(self)@,
            forall|i: int|
                0 <= i < old(self)@.len() && old(self)@[i].id == id ==> r == spawn_result(
                    old(self)@[i],
                ) && final(self)@ == (if r is Ok {
                    old(self)@.update(i, started(old(self)@[i], pid, now))
                } else {
                    old(self)@
                }),
            forall|x: i64| final(self).claimed(x) <==> (old(self).claimed(x) && x != id),
    {
        self.drop_claim(id);
        match self.find_index(id) {
            None => Err(TaskError::NotFound),
            Some(i) => match start_check(&self.tasks[i]) {
                Ok(()) => {
                    apply_start(&mut self.tasks[i], pid, now);
                    proof {
                        lemma_update_keeps_wf(old(self)@, i as int, self@[i as int]);
                    }
                    Ok(())
                },
                Err(e) => Err(e),
            },
        }
    }

    /// Records that the live process of the task with this id exited on its
    /// own with `code` at time `now`.
    pub fn record_exit(&mut self, id: i64, code: i32, now: u64) -> (r: Result<(), TaskError>)
        requires
            old(self).wf(),
        ensures
            final(self).wf(),
            final(self).last_id() == old(self).last_id(),
            !has_id(old(self)@, id) ==> r == Err::<(), TaskError>(TaskError::NotFound)
                && final(self)@ == old(self)@,
            forall|i: int|
                0 <= i < old(self)@.len() && old(self)@[i].id == id ==> (if old(self)@[i].pid is Some {
                    r is Ok && final(self)@ == old(self)@.update(i, exited(old(self)@[i], code, now))
                } else {
                    r == Err::<(), TaskError>(TaskError::Conflict) && final(self)@ == old(self)@
                }),
    {
        match self.find_index(id) {
            None => Err(TaskError::NotFound),
            Some(i) => if self.tasks[i].pid.is_some() {
                apply_exit(&mut self.tasks[i], code, now);
                proof {
                    lemma_update_keeps_wf(old(self)@, i as int, self@[i as int]);
                }
                Ok(())
            } else {
                Err(TaskError::Conflict)
            },
        }
    }

    /// Records an intentional stop of the task with this id at time `now`;
    /// such a stop is never taken for a crash.
    pub fn record_stop(&mut self, id: i64, now: u64) -> (r: Result<(), TaskError>)
        requires
            old(self).wf(),
        ensures
            final(self).wf(),
            final(self).last_id() == old(self).last_id(),
            !has_id(old(self)@, id) ==> r == Err::<(), TaskError>(TaskError::NotFound)
                && final(self)@ == old(self)@,
            forall|i: int|
                0 <= i < old(self)@.len() && old(self)@[i].id == id ==> r is Ok && final(self)@
                    == old(self)@.update(i, stopped(old(self)@[i], now)),
    {
        match self.find_index(id) {
            None => Err(TaskError::NotFound),
            Some(i) => {
                apply_stop(&mut self.tasks[i], now);
                proof {
                    lemma_update_keeps_wf(old(self)@, i as int, self@[i as int]);
                }
                Ok(())
            },
        }
    }

    /// Marks the live process of the task with this id as suspended.
    pub fn pause(&mut self, id: i64) -> (r: Result<(), TaskError>)
        requires
            old(self).wf(),
        ensures
            final(self).wf(),
            final(self).last_id() == old(self).last_id(),
            !has_id(old(self)@, id) ==> r == Err::<(), TaskError>(TaskError::NotFound)
                && final(self)@ == old(self)@,
            forall|i: int|
                0 <= i < old(self)@.len() && old(self)@[i].id == id ==> (if can_pause(old(self)@[i]) {
                    r is Ok && final(self)@ == old(self)@.update(
                        i,
                        Task { status: Some(Status::Paused), ..old(self)@[i] },
                    )
                } else {
                    r == Err::<(), TaskError>(TaskError::Conflict) && final(self)@ == old(self)@
                }),
    {
        match self.find_index(id) {
            None => Err(TaskError::NotFound),
            Some(i) => {
                let paused = match self.tasks[i].status {
                    Some(Status::Paused) => true,
                    _ => false,
                };
                if self.tasks[i].pid.is_some() && !paused {
                    self.tasks[i].status = Some(Status::Paused);
                    proof {
                        lemma_update_keeps_wf(old(self)@, i as int, self@[i as int]);
                    }
                    Ok(())
                } else {
                    Err(TaskError::Conflict)
                }
            },
        }
    }

    /// Marks the suspended process of the task with this id as running again.
    pub fn resume(&mut self, id: i64) -> (r: Result<(), TaskError>)
        requires
            old(self).wf(),
        ensures
            final(self).wf(),
            final(self).last_id() == old(self).last_id(),
            !has_id(old(self)@, id) ==> r == Err::<(), TaskError>(TaskError::NotFound)
                && final(self)@ == old(self)@,
            forall|i: int|
                0 <= i < old(self)@.len() && old(self)@[i].id == id ==> (if can_resume(
                    old(self)@[i],
                ) {
                    r is Ok && final(self)@ == old(self)@.update(i, resumed(old(self)@[i]))
                } else {
                    r == Err::<(), TaskError>(TaskError::Conflict) && final(self)@ == old(self)@
                }),
    {
        match self.find_index(id) {
            None => Err(TaskError::NotFound),
            Some(i) => {
                let paused = match self.tasks[i].status {
                    Some(Status::Paused) => true,
                    _ => false,
                };
                if self.tasks[i].pid.is_some() && paused {
                    let periodic = match self.tasks[i].task_type {
                        TaskType::Periodic(_) => true,
                        _ => false,
                    };
                    if periodic {
                        self.tasks[i].status = Some(Status::Executing);
                    } else {
                        self.tasks[i].status = Some(Status::Running);
                    }
                    proof {
                        lemma_update_keeps_wf(old(self)@, i as int, self@[i as int]);
                    }
                    Ok(())
                } else {
                    Err(TaskError::Conflict)
                }
            },
        }
    }

    /// Inserts a new task under the next id, with status `added` and no
    /// process; fails when its name is taken or the ids are used up.
    pub fn add(&mut self, task: Task) -> (r: Result<i64, TaskError>)
        requires
            old(self).wf(),
        ensures
            final(self).wf(),
            r is Err ==> final(self)@ == old(self)@ && final(self).last_id() == old(self).last_id(),
            r is Err <==> has_name(old(self)@, task.name@) || old(self).last_id() == i64::MAX,
            r is Err ==> r == Err::<i64, TaskError>(TaskError::Conflict),
            r matches Ok(id) ==> id == old(self).last_id() + 1 && final(self).last_id() == id
                && final(self)@ == old(self)@.push(added(task, id)),
    {
        if self.find_name(&task.name).is_some() || self.last_id == i64::MAX {
            return Err(TaskError::Conflict);
        }
        let id = self.last_id + 1;
        let mut t = task;
        t.id = id;
        t.pid = None;
        t.code = None;
        t.status = Some(Status::Added);
        self.tasks.push(t);
        self.last_id = id;
        proof {
            let s = self@;
            assert forall|a: int, b: int|
                0 <= a < s.len() && 0 <= b < s.len() && a != b implies s[a].id != s[b].id
                && s[a].name@ != s[b].name@ by {
                if a == s.len() - 1 {
                    assert(old(self)@[b] == s[b]);
                } else if b == s.len() - 1 {
                    assert(old(self)@[a] == s[a]);
                } else {
                    assert(old(self)@[a] == s[a]);
                    assert(old(self)@[b] == s[b]);
                }
            }
        }
        Ok(id)
    }

    /// Takes the task with this id out of the store and hands it back; a task
    /// whose process is live must be stopped first.
    pub fn remove(&mut self, id: i64) -> (r: Result<Task, TaskError>)
        requires
            old(self).wf(),
        ensures
            final(self).wf(),
            final(self).last_id() == old(self).last_id(),
            !has_id(old(self)@, id) ==> r == Err::<Task, TaskError>(TaskError::NotFound)
                && final(self)@ == old(self)@,
            forall|i: int|
                0 <= i < old(self)@.len() && old(self)@[i].id == id ==> (if old(self)@[i].pid is Some {
                    r == Err::<Task, TaskError>(TaskError::Conflict) && final(self)@ == old(self)@
                } else {
                    r == Ok::<Task, TaskError>(old(self)@[i]) && final(self)@ == old(self)@.remove(i)
                }),
    {
        match self.find_index(id) {
            None => Err(TaskError::NotFound),
            Some(i) => {
                if self.tasks[i].pid.is_some() {
                    return Err(TaskError::Conflict);
                }
                let t = self.tasks.remove(i);
                proof {
                    let s = self@;
                    let o = old(self)@;
                    assert forall|a: int, b: int|
                        0 <= a < s.len() && 0 <= b < s.len() && a != b implies s[a].id != s[b].id
                        && s[a].name@ != s[b].name@ by {
                        let oa = if a < i { a } else { a + 1 };
                        let ob = if b < i { b } else { b + 1 };
                        assert(s[a] == o[oa]);
                        assert(s[b] == o[ob]);
                    }
                    assert forall|a: int| 0 <= a < s.len() implies 1 <= #[trigger] s[a].id
                        <= self.last_id() by {
                        let oa = if a < i { a } else { a + 1 };
                        assert(s[a] == o[oa]);
                    }
                    assert forall|a: int| 0 <= a < s.len() implies consistent(#[trigger] s[a]) by {
                        let oa = if a < i { a } else { a + 1 };
                        assert(s[a] == o[oa]);
                    }
                }
                Ok(t)
            },
        }
    }

    /// Puts definition `def` in place of the task with its id, or, when no
    /// task has that id, of the task with its name, keeping that task's id,
    /// name, creation time and runtime state; returns the id. Fails only when
    /// no task has the id or the name.
    pub fn reload(&mut self, def: Task) -> (r: Result<i64, TaskError>)
        requires
            old(self).wf(),
        ensures
            final(self).wf(),
            final(self).last_id() == old(self).last_id(),
            !has_id(old(self)@, def.id) && !has_name(old(self)@, def.name@) ==> r == Err::<
                i64,
                TaskError,
            >(TaskError::NotFound) && final(self)@ == old(self)@,
            forall|i: int|
                0 <= i < old(self)@.len() && old(self)@[i].id == def.id ==> r == Ok::<i64, TaskError>(
                    old(self)@[i].id,
                ) && final(self)@ == old(self)@.update(i, reloaded(old(self)@[i], def)),
            forall|i: int|
                0 <= i < old(self)@.len() && !has_id(old(self)@, def.id) && old(self)@[i].name@
                    == def.name@ ==> r == Ok::<i64, TaskError>(old(self)@[i].id) && final(self)@
                    == old(self)@.update(i, reloaded(old(self)@[i], def)),
    {
        let found = match self.find_index(def.id) {
            Some(i) => Some(i),
            None => self.find_name(&def.name),
        };
        match found {
            None => Err(TaskError::NotFound),
            Some(i) => {
                let mut d = def;
                std::mem::swap(&mut d.name, &mut self.tasks[i].name);
                d.id = self.tasks[i].id;
                d.created_at = self.tasks[i].created_at;
                d.pid = self.tasks[i].pid;
                d.status = self.tasks[i].status;
                d.code = self.tasks[i].code;
                let id = d.id;
                self.tasks[i] = d;
                proof {
                    lemma_update_keeps_wf(old(self)@, i as int, self@[i as int]);
                }
                Ok(id)
            },
        }
    }

    /// Replaces the arguments and the environment of the task with this id,
    /// where given, leaving the rest of it as it was.
    pub fn write(
        &mut self,
        id: i64,
        args: Option<Vec<String>>,
        env: Option<HashMap<String, String>>,
    ) -> (r: Result<(), TaskError>)
        requires
            old(self).wf(),
        ensures
            final(self).wf(),
            final(self).last_id() == old(self).last_id(),
            !has_id(old(self)@, id) ==> r == Err::<(), TaskError>(TaskError::NotFound)
                && final(self)@ == old(self)@,
            forall|i: int|
                0 <= i < old(self)@.len() && old(self)@[i].id == id ==> r is Ok && final(self)@
                    == old(self)@.update(i, written(old(self)@[i], args, env)),
    {
        match self.find_index(id) {
            None => Err(TaskError::NotFound),
            Some(i) => {
                match args {
                    Some(a) => self.tasks[i].args = a,
                    None => {},
                }
                match env {
                    Some(e) => self.tasks[i].env = e,
                    None => {},
                }
                proof {
                    lemma_update_keeps_wf(old(self)@, i as int, self@[i as int]);
                }
                Ok(())
            },
        }
    }

    /// Ids of the tasks with this status, in store order.
    pub fn with_status(&self, status: Option<Status>) -> (r: Vec<i64>)
        ensures
            r@ == ids_with_status(self@, status),
    {
        let mut out: Vec<i64> = Vec::new();
        let mut i: usize = 0;
        while i < self.tasks.len()
            invariant
                i <= self@.len(),
                self@ == self.tasks@,
                out@ == ids_with_status(self@.subrange(0, i as int), status),
            decreases self@.len() - i,
        {
            assert(self@.subrange(0, i + 1).drop_last() == self@.subrange(0, i as int));
            if self.tasks[i].status == status {
                out.push(self.tasks[i].id);
            }
            i = i + 1;
        }
        assert(self@.subrange(0, self@.len() as int) == self@);
        out
    }

    /// Ids of the tasks that `flag` addresses, in store order. Fails when none
    /// matches, or when several do and the flag does not allow that.
    pub fn select(&self, flag: &TaskFlag) -> (r: Result<Vec<i64>, TaskError>)
        ensures
            r == Err::<Vec<i64>, TaskError>(TaskError::NotFound) <==> matched_ids(self@, *flag).len()
                == 0,
            r == Err::<Vec<i64>, TaskError>(TaskError::Conflict) <==> matched_ids(self@, *flag).len()
                >= 2 && !flag.mat,
            r is Ok <==> matched_ids(self@, *flag).len() == 1 || (matched_ids(self@, *flag).len()
                >= 2 && flag.mat),
            r matches Ok(v) ==> v@ == matched_ids(self@, *flag),
    {
        let mut out: Vec<i64> = Vec::new();
        let mut i: usize = 0;
        while i < self.tasks.len()
            invariant
                i <= self@.len(),
                self@ == self.tasks@,
                out@ == matched_ids(self@.subrange(0, i as int), *flag),
            decreases self@.len() - i,
        {
            assert(self@.subrange(0, i + 1).drop_last() == self@.subrange(0, i as int));
            if selects(flag, &self.tasks[i]) {
                out.push(self.tasks[i].id);
            }
            i = i + 1;
        }
        assert(self@.subrange(0, self@.len() as int) == self@);
        if out.len() == 0 {
            Err(TaskError::NotFound)
        } else if out.len() >= 2 && !flag.mat {
            Err(TaskError::Conflict)
        } else {
            Ok(out)
        }
    }

    /// Builds a store from a cached task set: no task keeps a process, and a
    /// transient status (a live process, a pending restart, a periodic wait)
    /// becomes `stopped`. Fails on a set with a
    /// repeated id or name, or an id below 1.
    pub fn restore(cached: Vec<Task>) -> (r: Result<TaskStore, TaskError>)
        ensures
            r is Ok <==> restorable(cached@),
            r is Err ==> r == Err::<TaskStore, TaskError>(TaskError::Decode),
            r matches Ok(st) ==> st.wf() && st@ == cached@.map_values(|t: Task| normalized(t))
                && forall|x: i64| !st.claimed(x),
    {
        if !keys_unique(&cached) {
            return Err(TaskError::Decode);
        }
        let ghost orig = cached@;
        let mut tasks = cached;
        let mut last: i64 = 0;
        let mut i: usize = 0;
        while i < tasks.len()
            invariant
                i <= tasks@.len(),
                tasks@.len() == orig.len(),
                orig == cached@,
                unique_keys(orig),
                0 <= last,
                forall|k: int| 0 <= k < i ==> tasks@[k] == normalized(orig[k]),
                forall|k: int| i <= k < orig.len() ==> tasks@[k] == orig[k],
                forall|k: int| 0 <= k < i ==> 1 <= #[trigger] orig[k].id <= last,
            decreases orig.len() - i,
        {
            if tasks[i].id < 1 {
                assert(!restorable(orig));
                return Err(TaskError::Decode);
            }
            if tasks[i].id > last {
                last = tasks[i].id;
            }
            let transient = match tasks[i].status {
                Some(Status::Running) => true,
                Some(Status::Executing) => true,
                Some(Status::Paused) => true,
                Some(Status::AutoRestart) => true,
                Some(Status::Interval) => true,
                _ => false,
            };
            if transient {
                tasks[i].status = Some(Status::Stopped);
            }
            tasks[i].pid = None;
            i = i + 1;
        }
        let st = TaskStore { tasks, last_id: last, claims: Vec::new() };
        assert(st@ == orig.map_values(|t: Task| normalized(t)));
        Ok(st)
    }
}

fn option_eq(a: &Option<String>, b: &Option<String>) -> (r: bool)
    ensures
        r == (a matches Some(x) && b matches Some(y) && x@ == y@),
{
    match (a, b) {
        (Some(x), Some(y)) => *x == *y,
        _ => false,
    }
}

fn selects(flag: &TaskFlag, t: &Task) -> (r: bool)
    ensures
        r == flag.selects(*t),
{
    if flag.id != 0 {
        t.id == flag.id
    } else {
        let by_name = match &flag.name {
            Some(n) => t.name == *n,
            None => false,
        };
        by_name || option_eq(&flag.group, &t.group)
    }
}

/// Whether ids and names are each unique over the tasks.
fn keys_unique(tasks: &Vec<Task>) -> (r: bool)
    ensures
        r == unique_keys(tasks@),
{
    let mut i: usize = 0;
    while i < tasks.len()
        invariant
            i <= tasks@.len(),
            forall|a: int, b: int|
                0 <= a < i && 0 <= b < i && a != b ==> tasks@[a].id != tasks@[b].id
                    && tasks@[a].name@ != tasks@[b].name@,
        decreases tasks@.len() - i,
    {
        let mut j: usize = 0;
        while j < i
            invariant
                i < tasks@.len(),
                j <= i,
                forall|b: int|
                    0 <= b < j ==> tasks@[i as int].id != tasks@[b].id && tasks@[i as int].name@
                        != tasks@[b].name@,
            decreases i - j,
        {
            if tasks[i].id == tasks[j].id || tasks[i].name == tasks[j].name {
                assert(!unique_keys(tasks@)) by {
                    assert(tasks@[i as int].id == tasks@[j as int].id || tasks@[i as int].name@
                        == tasks@[j as int].name@);
                }
                return false;
            }
            j = j + 1;
        }
        i = i + 1;
    }
    true
}

fn start_check(t: &Task) -> (r: Result<(), TaskError>)
    ensures
        r == spawn_result(*t),
{
    if t.pid.is_some() {
        return Err(TaskError::Conflict);
    }
    match t.task_type {
        TaskType::Async(a) => {
            let used_up = match a.max_restart {
                Some(m) => a.has_restart >= m,
                None => false,
            };
            if restarting(t) && used_up {
                Err(TaskError::Policy)
            } else {
                Ok(())
            }
        },
        _ => Ok(()),
    }
}

fn arm_check(t: &Task) -> (r: Result<(), TaskError>)
    ensures
        r == arm_result(*t),
{
    if t.pid.is_some() {
        return Err(TaskError::Conflict);
    }
    match t.task_type {
        TaskType::Scheduled(_) => Ok(()),
        TaskType::Periodic(_) => Ok(()),
        _ => Err(TaskError::Conflict),
    }
}

fn restarting(t: &Task) -> (r: bool)
    ensures
        r == is_restart(*t),
{
    match t.status {
        Some(Status::AutoRestart) => true,
        Some(Status::Stopped) => true,
        _ => false,
    }
}

fn apply_arm(t: &mut Task)
    ensures
        *final(t) == armed(*old(t)),
{
    match t.task_type {
        TaskType::Periodic(_) => t.status = Some(Status::Interval),
        _ => t.status = Some(Status::Waiting),
    }
}

fn apply_start(t: &mut Task, pid: u32, now: u64)
    ensures
        *final(t) == started(*old(t), pid, now),
{
    let again = restarting(t);
    match t.task_type {
        TaskType::Periodic(p) => {
            t.task_type = TaskType::Periodic(PeriodicTask { last_run: now, ..p });
            t.status = Some(Status::Executing);
        },
        TaskType::Async(a) => {
            if again {
                let n = if a.has_restart < u64::MAX {
                    a.has_restart + 1
                } else {
                    a.has_restart
                };
                t.task_type = TaskType::Async(AsyncTask { has_restart: n, started_at: now, ..a });
            }
            t.status = Some(Status::Running);
        },
        _ => t.status = Some(Status::Running),
    }
    t.pid = Some(pid);
    t.code = None;
}

fn stopped_at(ty: TaskType, now: u64) -> (r: TaskType)
    ensures
        r == with_stopped_at(ty, now),
{
    match ty {
        TaskType::Async(a) => TaskType::Async(AsyncTask { stopped_at: now, ..a }),
        _ => ty,
    }
}

fn apply_exit(t: &mut Task, code: i32, now: u64)
    ensures
        *final(t) == exited(*old(t), code, now),
{
    let periodic = match t.task_type {
        TaskType::Periodic(_) => true,
        _ => false,
    };
    if periodic {
        t.status = Some(Status::Interval);
    } else {
        t.status = Some(Status::Stopped);
    }
    t.task_type = stopped_at(t.task_type, now);
    t.pid = None;
    t.code = Some(code);
}

fn apply_stop(t: &mut Task, now: u64)
    ensures
        *final(t) == stopped(*old(t), now),
{
    t.status = Some(Status::Stopped);
    t.task_type = stopped_at(t.task_type, now);
    t.pid = None;
    t.code = Some(STOP_EXIT_CODE);
}

/// In a well-formed store no two tasks share an id or a name; every
/// operation that changes the store keeps it well-formed.
pub proof fn lemma_keys_unique(s: TaskStore, i: int, j: int)
    requires
        s.wf(),
        0 <= i < s@.len(),
        0 <= j < s@.len(),
        i != j,
    ensures
        s@[i].id != s@[j].id,
        s@[i].name@ != s@[j].name@,
{
}

/// A task never holds two processes: a spawn is refused while a process is
/// live, a second start right after a start is refused, and a stop leaves no
/// process behind, so that a later start spawns the only one.
pub proof fn lemma_one_process_per_task(t: Task, pid: u32, now: u64)
    ensures
        t.pid is Some ==> spawn_result(t) == Err::<(), TaskError>(TaskError::Conflict),
        spawn_result(started(t, pid, now)) == Err::<(), TaskError>(TaskError::Conflict),
        stopped(t, now).pid is None,
        started(stopped(t, now), pid, now).pid == Some(pid),
{
}

/// An async task with a restart cap is restarted while it has restarts left,
/// each restart uses up one, and once they are used up a restart is refused.
pub proof fn lemma_restart_cap(t: Task, a: AsyncTask, m: u64, pid: u32, now: u64)
    requires
        t.task_type == TaskType::Async(a),
        a.max_restart == Some(m),
        is_restart(t),
        t.pid is None,
    ensures
        spawn_result(t) is Ok <==> a.has_restart < m,
        a.has_restart >= m ==> spawn_result(t) == Err::<(), TaskError>(TaskError::Policy),
        a.has_restart < m ==> started(t, pid, now).task_type == TaskType::Async(
            AsyncTask { has_restart: (a.has_restart + 1) as u64, started_at: now, ..a },
        ),
{
}

/// A manual task just added is spawned by `start`, then shows `running` with
/// its pid, and once its process exits with `code` it shows `stopped` with
/// that code and no pid.
pub proof fn lemma_manual_run_cycle(t: Task, id: i64, pid: u32, code: i32, now: u64, later: u64)
    requires
        t.task_type == TaskType::Manual,
    ensures
        spawn_result(added(t, id)) == Ok::<(), TaskError>(()),
        started(added(t, id), pid, now).status == Some(Status::Running),
        started(added(t, id), pid, now).pid == Some(pid),
        started(added(t, id), pid, now).name == t.name,
        exited(started(added(t, id), pid, now), code, later).status == Some(Status::Stopped),
        exited(started(added(t, id), pid, now), code, later).code == Some(code),
        exited(started(added(t, id), pid, now), code, later).pid is None,
{
}

/// The same task, but for its process and status.
pub open spec fn same_but_runtime(a: Task, b: Task) -> bool {
    Task { pid: a.pid, status: a.status, ..b } == a
}

/// Persisting a well-formed store and restoring it succeeds and gives back
/// every task field for field, but that no process is kept and a status that
/// claims one becomes `stopped`.
pub proof fn lemma_persist_restore(s: TaskStore)
    requires
        s.wf(),
    ensures
        restorable(s@),
        forall|i: int|
            0 <= i < s@.len() ==> {
                let n = #[trigger] normalized(s@[i]);
                &&& same_but_runtime(s@[i], n)
                &&& n.pid is None
                &&& is_transient(s@[i].status) ==> n.status == Some(Status::Stopped)
                &&& !is_transient(s@[i].status) ==> n.status == s@[i].status
            },
{
}

/// After a push, the sequence holds what it held and the pushed value.
proof fn lemma_push_contains(s: Seq<i64>, v: i64)
    ensures
        forall|x: i64| s.push(v).contains(x) <==> (s.contains(x) || x == v),
{
    assert forall|x: i64| s.push(v).contains(x) <==> (s.contains(x) || x == v) by {
        if s.contains(x) {
            let k = choose|k: int| 0 <= k < s.len() && s[k] == x;
            assert(s.push(v)[k] == x);
        }
        if x == v {
            assert(s.push(v)[s.len() as int] == x);
        }
        if s.push(v).contains(x) {
            let k = choose|k: int| 0 <= k < s.len() + 1 && s.push(v)[k] == x;
            if k < s.len() {
                assert(s[k] == x);
            }
        }
    }
}

/// Replacing one task by a consistent one with the same id and name keeps
/// the keys unique and every task consistent.
proof fn lemma_update_keeps_wf(s: Seq<Task>, i: int, t: Task)
    requires
        unique_keys(s),
        forall|j: int| 0 <= j < s.len() ==> consistent(#[trigger] s[j]),
        0 <= i < s.len(),
        t.id == s[i].id,
        t.name@ == s[i].name@,
        consistent(t),
    ensures
        unique_keys(s.update(i, t)),
        forall|j: int| 0 <= j < s.len() ==> consistent(#[trigger] s.update(i, t)[j]),
{
    assert forall|j: int| 0 <= j < s.len() implies consistent(#[trigger] s.update(i, t)[j]) by {
        if j != i {
            assert(s.update(i, t)[j] == s[j]);
        }
    }
}

} // verus!
