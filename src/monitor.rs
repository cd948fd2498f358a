//! What the monitor decides for each task on a tick.
use crate::clock::{timestamp_of, WallClock};
use crate::task::{
    AsyncTask, PeriodicTask, ScheduledTask, Status, Task, TaskType, STOP_EXIT_CODE,
};
use crate::store::{exited, restarts_used_up, spawn_result, started, TaskError};
use vstd::prelude::*;

verus! {

/// The monitor's verdict on one task for one tick.
#[derive(Debug, Clone, Copy, PartialEq, Eq, Structural)]
pub enum Decision {
    /// Nothing to do this tick.
    Idle,
    /// Start the task after waiting `wait` seconds.
    Fire { wait: u64 },
    /// The scheduled date-time does not exist; skip the task this tick.
    Invalid,
}

pub open spec fn or_now<T>(field: Option<T>, now: T) -> T {
    match field {
        Some(v) => v,
        None => now,
    }
}

/// The clock reading that a scheduled task aims at: its own fields, the
/// current ones where unset.
pub open spec fn target_clock(s: ScheduledTask, now: WallClock) -> WallClock {
    WallClock {
        year: or_now(s.year, now.year),
        month: or_now(s.month, now.month),
        day: or_now(s.day, now.day),
        hour: or_now(s.hour, now.hour),
        minute: or_now(s.minute, now.minute),
        second: or_now(s.second, now.second),
    }
}

pub open spec fn abs(x: int) -> int {
    if x < 0 { -x } else { x }
}

pub open spec fn scheduled_decision(t: Task, s: ScheduledTask, now: WallClock, delay: u64) -> Decision {
    let target = target_clock(s, now);
    if !target.wf() {
        Decision::Invalid
    } else {
        let diff = abs(target.epoch() - now.epoch());
        if t.status == Some(Status::Waiting) && target.epoch() <= now.epoch() && diff < delay {
            Decision::Fire { wait: diff as u64 }
        } else {
            Decision::Idle
        }
    }
}

/// An async task is restarted when pending a restart, or when it stopped with
/// any exit code but the one of an intentional stop.
pub open spec fn async_due(t: Task) -> bool {
    t.status == Some(Status::AutoRestart) || (t.status == Some(Status::Stopped) && t.code
        != Some(STOP_EXIT_CODE))
}

/// A periodic task is due once started_after and a full interval since its
/// last run have passed, and it waits between runs, or it is still executing
/// and allowed to overlap.
pub open spec fn periodic_due(t: Task, p: PeriodicTask, unix_now: u64) -> bool {
    unix_now >= p.started_after && unix_now - p.last_run >= p.interval && (t.status == Some(
        Status::Interval,
    ) || (p.sync && t.status == Some(Status::Executing)))
}

pub open spec fn decision_of(t: Task, now: WallClock, unix_now: u64, delay: u64) -> Decision {
    match t.task_type {
        TaskType::Scheduled(s) => scheduled_decision(t, s, now, delay),
        TaskType::Async(_) => if async_due(t) {
            Decision::Fire { wait: 0 }
        } else {
            Decision::Idle
        },
        TaskType::Periodic(p) => if periodic_due(t, p, unix_now) {
            Decision::Fire { wait: 0 }
        } else {
            Decision::Idle
        },
        TaskType::Manual => Decision::Idle,
    }
}

fn unwrap_or<T: Copy>(field: Option<T>, now: T) -> (r: T)
    ensures
        r == or_now(field, now),
{
    match field {
        Some(v) => v,
        None => now,
    }
}

/// Decides what the monitor does with one task on a tick: `now` is the local
/// wall clock, `unix_now` the epoch second, `delay` the tick period.
pub fn decide(task: &Task, now: &WallClock, unix_now: u64, delay: u64) -> (r: Decision)
    requires
        now.wf(),
    ensures
        r == decision_of(*task, *now, unix_now, delay),
{
    match task.task_type {
        TaskType::Scheduled(s) => {
            let target = WallClock {
                year: unwrap_or(s.year, now.year),
                month: unwrap_or(s.month, now.month),
                day: unwrap_or(s.day, now.day),
                hour: unwrap_or(s.hour, now.hour),
                minute: unwrap_or(s.minute, now.minute),
                second: unwrap_or(s.second, now.second),
            };
            let exec = timestamp_of(
                target.year,
                target.month,
                target.day,
                target.hour,
                target.minute,
                target.second,
            );
            match exec {
                None => Decision::Invalid,
                Some(exec) => {
                    let current = now.timestamp();
                    let waiting = match task.status {
                        Some(Status::Waiting) => true,
                        _ => false,
                    };
                    if exec <= current {
                        let diff: i64 = current - exec;
                        if waiting && (diff as u64) < delay {
                            Decision::Fire { wait: diff as u64 }
                        } else {
                            Decision::Idle
                        }
                    } else {
                        Decision::Idle
                    }
                },
            }
        },
        TaskType::Async(_) => {
            let due = match task.status {
                Some(Status::AutoRestart) => true,
                Some(Status::Stopped) => match task.code {
                    Some(c) => c != STOP_EXIT_CODE,
                    None => true,
                },
                _ => false,
            };
            if due {
                Decision::Fire { wait: 0 }
            } else {
                Decision::Idle
            }
        },
        TaskType::Periodic(p) => {
            let ready = match task.status {
                Some(Status::Interval) => true,
                Some(Status::Executing) => p.sync,
                _ => false,
            };
            if unix_now >= p.started_after && unix_now >= p.last_run && unix_now - p.last_run
                >= p.interval && ready {
                Decision::Fire { wait: 0 }
            } else {
                Decision::Idle
            }
        },
        TaskType::Manual => Decision::Idle,
    }
}

/// The decisions of one monitor tick, one for each task of the snapshot, in
/// its order, paired with the task's id.
pub fn rerun_tasks(tasks: &Vec<Task>, now: &WallClock, unix_now: u64, delay: u64) -> (r: Vec<
    (i64, Decision),
>)
    requires
        now.wf(),
    ensures
        r@.len() == tasks@.len(),
        forall|i: int|
            0 <= i < tasks@.len() ==> r@[i] == (tasks@[i].id, decision_of(
                tasks@[i],
                *now,
                unix_now,
                delay,
            )),
{
    let mut out: Vec<(i64, Decision)> = Vec::new();
    let mut i: usize = 0;
    while i < tasks.len()
        invariant
            i <= tasks@.len(),
            now.wf(),
            out@.len() == i,
            forall|k: int|
                0 <= k < i ==> out@[k] == (tasks@[k].id, decision_of(
                    tasks@[k],
                    *now,
                    unix_now,
                    delay,
                )),
        decreases tasks@.len() - i,
    {
        let d = decide(&tasks[i], now, unix_now, delay);
        out.push((tasks[i].id, d));
        i = i + 1;
    }
    out
}

/// Whether an instruction fetched from the remote command feed is to be
/// carried out: only one whose envelope code is 0.
pub fn instruction_actionable(code: i64) -> (r: bool)
    ensures
        r <==> code == 0,
{
    code == 0
}

/// An async task that crashed (stopped with any exit code but the one of an
/// intentional stop) and has restarts left is fired by the monitor, and the
/// start that follows spawns it: it runs again, with one more restart counted.
pub proof fn lemma_crash_recovery(
    t: Task,
    a: AsyncTask,
    now: WallClock,
    unix_now: u64,
    delay: u64,
    pid: u32,
    at: u64,
)
    requires
        t.task_type == TaskType::Async(a),
        t.status == Some(Status::Stopped),
        t.code != Some(STOP_EXIT_CODE),
        t.pid is None,
        !restarts_used_up(a),
        a.has_restart < u64::MAX,
    ensures
        decision_of(t, now, unix_now, delay) == (Decision::Fire { wait: 0 }),
        spawn_result(t) == Ok::<(), TaskError>(()),
        started(t, pid, at).status == Some(Status::Running),
        started(t, pid, at).pid == Some(pid),
        started(t, pid, at).task_type == TaskType::Async(
            AsyncTask { has_restart: (a.has_restart + 1) as u64, started_at: at, ..a },
        ),
{
}

/// An async task capped at two restarts, started by hand, that then crashes
/// three times in a row is fired after each crash, but restarted only after
/// the first two: after the third it stays stopped, with no process and two
/// restarts counted.
pub proof fn lemma_two_restarts_for_three_crashes(
    t: Task,
    a: AsyncTask,
    codes: (i32, i32, i32),
    pids: (u32, u32),
    now: WallClock,
    unix_now: u64,
    delay: u64,
    at: u64,
)
    requires
        t.task_type == TaskType::Async(a),
        a.max_restart == Some(2u64),
        a.has_restart == 0,
        t.status == Some(Status::Running),
        t.pid is Some,
        codes.0 != STOP_EXIT_CODE,
        codes.1 != STOP_EXIT_CODE,
        codes.2 != STOP_EXIT_CODE,
    ensures
        ({
            let t1 = exited(t, codes.0, at);
            let t2 = started(t1, pids.0, at);
            let t3 = exited(t2, codes.1, at);
            let t4 = started(t3, pids.1, at);
            let t5 = exited(t4, codes.2, at);
            &&& decision_of(t1, now, unix_now, delay) == (Decision::Fire { wait: 0 })
            &&& spawn_result(t1) == Ok::<(), TaskError>(())
            &&& decision_of(t3, now, unix_now, delay) == (Decision::Fire { wait: 0 })
            &&& spawn_result(t3) == Ok::<(), TaskError>(())
            &&& decision_of(t5, now, unix_now, delay) == (Decision::Fire { wait: 0 })
            &&& spawn_result(t5) == Err::<(), TaskError>(TaskError::Policy)
            &&& t5.status == Some(Status::Stopped)
            &&& t5.pid is None
            &&& t5.task_type matches TaskType::Async(a5) && a5.has_restart == 2
        }),
{
}

/// An async task stopped with the exit code of an intentional stop is never
/// restarted by the monitor; one stopped with any other exit code is.
pub proof fn lemma_stop_code_decides_restart(
    t: Task,
    now: WallClock,
    unix_now: u64,
    delay: u64,
    code: i32,
)
    requires
        t.task_type is Async,
        t.status == Some(Status::Stopped),
        t.code == Some(code),
    ensures
        code == STOP_EXIT_CODE ==> decision_of(t, now, unix_now, delay) == Decision::Idle,
        code != STOP_EXIT_CODE ==> decision_of(t, now, unix_now, delay) == (Decision::Fire {
            wait: 0,
        }),
{
}

/// A periodic task still executing when its interval elapses fires again only
/// when it allows overlapping runs; one waiting between runs fires either way.
pub proof fn lemma_periodic_overlap(t: Task, p: PeriodicTask, now: WallClock, unix_now: u64, delay: u64)
    requires
        t.task_type == TaskType::Periodic(p),
        unix_now >= p.started_after,
        unix_now - p.last_run >= p.interval,
    ensures
        t.status == Some(Status::Executing) && !p.sync ==> decision_of(t, now, unix_now, delay)
            == Decision::Idle,
        t.status == Some(Status::Executing) && p.sync ==> decision_of(t, now, unix_now, delay)
            == (Decision::Fire { wait: 0 }),
        t.status == Some(Status::Interval) ==> decision_of(t, now, unix_now, delay) == (
        Decision::Fire { wait: 0 }),
{
}

/// A waiting scheduled task with no field set aims at the current second and
/// fires on the tick that evaluates it, without waiting.
pub proof fn lemma_unset_schedule_fires_now(t: Task, now: WallClock, unix_now: u64, delay: u64)
    requires
        now.wf(),
        delay > 0,
        t.status == Some(Status::Waiting),
        t.task_type == TaskType::Scheduled(
            ScheduledTask {
                year: None,
                month: None,
                day: None,
                hour: None,
                minute: None,
                second: None,
            },
        ),
    ensures
        decision_of(t, now, unix_now, delay) == (Decision::Fire { wait: 0 }),
{
    let s = ScheduledTask { year: None, month: None, day: None, hour: None, minute: None, second: None };
    assert(target_clock(s, now) == now);
}

} // verus!
