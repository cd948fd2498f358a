use std::collections::HashMap;
use watchmend::store::{TaskError, TaskStore};
use watchmend::task::{
    exit_code, AsyncTask, PeriodicTask, ScheduledTask, Status, Task, TaskFlag, TaskType,
    STOP_EXIT_CODE,
};

fn task(name: &str, task_type: TaskType) -> Task {
    Task {
        id: 0,
        name: name.to_string(),
        command: "sleep".to_string(),
        args: vec!["5".to_string()],
        group: None,
        dir: None,
        env: HashMap::new(),
        stdin: None,
        stdout: None,
        stderr: None,
        created_at: 100,
        task_type,
        pid: Some(77),
        status: None,
        code: Some(3),
    }
}

fn async_type(max_restart: Option<u64>) -> TaskType {
    TaskType::Async(AsyncTask { max_restart, has_restart: 0, started_at: 0, stopped_at: 0 })
}

#[test]
fn add_assigns_ids_and_resets_runtime_state() {
    let mut store = TaskStore::new();
    assert_eq!(store.add(task("a", TaskType::Manual)), Ok(1));
    assert_eq!(store.add(task("b", TaskType::Manual)), Ok(2));
    let a = store.get(1).unwrap();
    assert_eq!(a.name, "a");
    assert_eq!(a.status, Some(Status::Added));
    assert_eq!(a.pid, None);
    assert_eq!(a.code, None);
    assert_eq!(a.created_at, 100);
}

#[test]
fn add_refuses_a_taken_name() {
    let mut store = TaskStore::new();
    assert_eq!(store.add(task("a", TaskType::Manual)), Ok(1));
    assert_eq!(store.add(task("a", TaskType::Manual)), Err(TaskError::Conflict));
    assert_eq!(store.tasks().len(), 1);
}

#[test]
fn ids_and_names_stay_unique_through_adds_and_removes() {
    let mut store = TaskStore::new();
    store.add(task("a", TaskType::Manual)).unwrap();
    store.add(task("b", TaskType::Manual)).unwrap();
    let removed = store.remove(1).unwrap();
    assert_eq!(removed.name, "a");
    assert_eq!(store.remove(1).map(|t| t.id), Err(TaskError::NotFound));
    assert_eq!(store.add(task("a", TaskType::Manual)), Ok(3));
    assert_eq!(store.add(task("b", TaskType::Manual)), Err(TaskError::Conflict));
    let ids: Vec<i64> = store.tasks().iter().map(|t| t.id).collect();
    assert_eq!(ids, vec![2, 3]);
}

#[test]
fn stop_then_start_keeps_one_process() {
    let mut store = TaskStore::new();
    let id = store.add(task("x", TaskType::Manual)).unwrap();
    assert_eq!(store.can_start(id), Ok(()));
    assert_eq!(store.record_start(id, 10, 1000), Ok(()));
    assert_eq!(store.record_start(id, 11, 1001), Err(TaskError::Conflict));
    assert_eq!(store.get(id).unwrap().pid, Some(10));
    assert_eq!(store.record_stop(id, 1002), Ok(()));
    let t = store.get(id).unwrap();
    assert_eq!((t.status, t.code, t.pid), (Some(Status::Stopped), Some(STOP_EXIT_CODE), None));
    assert_eq!(store.record_start(id, 12, 1003), Ok(()));
    assert_eq!(store.get(id).unwrap().pid, Some(12));
}

#[test]
fn start_and_exit_of_a_manual_task() {
    let mut store = TaskStore::new();
    let id = store.add(task("x", TaskType::Manual)).unwrap();
    let flag = TaskFlag { id: 0, name: Some("x".to_string()), group: None, mat: false };
    assert_eq!(store.select(&flag), Ok(vec![id]));
    store.record_start(id, 4242, 10).unwrap();
    let t = store.get(id).unwrap();
    assert_eq!(t.status, Some(Status::Running));
    assert_eq!(t.pid, Some(4242));
    store.record_exit(id, 0, 15).unwrap();
    let t = store.get(id).unwrap();
    assert_eq!((t.status, t.code, t.pid), (Some(Status::Stopped), Some(0), None));
    assert_eq!(store.record_exit(id, 0, 16), Err(TaskError::Conflict));
}

#[test]
fn pause_and_resume_keep_the_process() {
    let mut store = TaskStore::new();
    let id = store.add(task("x", TaskType::Manual)).unwrap();
    assert_eq!(store.pause(id), Err(TaskError::Conflict));
    store.record_start(id, 9, 1).unwrap();
    assert_eq!(store.pause(id), Ok(()));
    assert_eq!(store.pause(id), Err(TaskError::Conflict));
    assert_eq!(store.get(id).unwrap().status, Some(Status::Paused));
    assert_eq!(store.get(id).unwrap().pid, Some(9));
    assert_eq!(store.can_start(id), Err(TaskError::Conflict));
    assert_eq!(store.resume(id), Ok(()));
    assert_eq!(store.get(id).unwrap().status, Some(Status::Running));
    assert_eq!(store.resume(id), Err(TaskError::Conflict));
    assert_eq!(store.pause(99), Err(TaskError::NotFound));
}

#[test]
fn start_spawns_every_kind_of_task() {
    let mut store = TaskStore::new();
    let s = ScheduledTask { year: None, month: None, day: None, hour: None, minute: None, second: None };
    let sid = store.add(task("s", TaskType::Scheduled(s))).unwrap();
    let p = PeriodicTask { started_after: 0, interval: 10, last_run: 0, sync: false };
    let pid = store.add(task("p", TaskType::Periodic(p))).unwrap();
    assert_eq!(store.can_start(sid), Ok(()));
    assert_eq!(store.record_start(sid, 1, 5), Ok(()));
    let t = store.get(sid).unwrap();
    assert_eq!((t.status, t.pid, t.code), (Some(Status::Running), Some(1), None));
    store.record_start(pid, 2, 50).unwrap();
    let t = store.get(pid).unwrap();
    assert_eq!(t.status, Some(Status::Executing));
    match t.task_type {
        TaskType::Periodic(p) => assert_eq!(p.last_run, 50),
        _ => panic!("periodic task changed its type"),
    }
    store.record_exit(pid, 0, 55).unwrap();
    assert_eq!(store.get(pid).unwrap().status, Some(Status::Interval));
}

#[test]
fn arming_is_a_step_of_its_own() {
    let mut store = TaskStore::new();
    let s = ScheduledTask { year: None, month: None, day: None, hour: Some(3), minute: None, second: None };
    let sid = store.add(task("s", TaskType::Scheduled(s))).unwrap();
    let p = PeriodicTask { started_after: 0, interval: 10, last_run: 0, sync: true };
    let pid = store.add(task("p", TaskType::Periodic(p))).unwrap();
    let mid = store.add(task("m", TaskType::Manual)).unwrap();
    assert_eq!(store.arm(sid), Ok(()));
    assert_eq!(store.get(sid).unwrap().status, Some(Status::Waiting));
    assert_eq!(store.get(sid).unwrap().pid, None);
    assert_eq!(store.arm(pid), Ok(()));
    assert_eq!(store.get(pid).unwrap().status, Some(Status::Interval));
    assert_eq!(store.arm(mid), Err(TaskError::Conflict));
    store.record_start(sid, 8, 1).unwrap();
    assert_eq!(store.arm(sid), Err(TaskError::Conflict));
    assert_eq!(store.arm(77), Err(TaskError::NotFound));
}

#[test]
fn a_claimed_start_blocks_a_second_one() {
    let mut store = TaskStore::new();
    let id = store.add(task("x", TaskType::Manual)).unwrap();
    assert_eq!(store.claim_start(id), Ok(()));
    assert_eq!(store.claim_start(id), Err(TaskError::Conflict));
    store.release_claim(id);
    assert_eq!(store.claim_start(id), Ok(()));
    assert_eq!(store.record_start(id, 5, 1), Ok(()));
    assert_eq!(store.claim_start(id), Err(TaskError::Conflict));
    store.record_stop(id, 2).unwrap();
    assert_eq!(store.claim_start(id), Ok(()));
    assert_eq!(store.claim_start(99), Err(TaskError::NotFound));
}

#[test]
fn async_restarts_are_capped() {
    let mut store = TaskStore::new();
    let id = store.add(task("w", async_type(Some(2)))).unwrap();
    store.record_start(id, 100, 1).unwrap();
    for (round, pid) in [(1u64, 101u32), (2, 102)] {
        store.record_exit(id, 1, 10 * round).unwrap();
        assert_eq!(store.record_start(id, pid, 10 * round + 1), Ok(()));
        match store.get(id).unwrap().task_type {
            TaskType::Async(a) => {
                assert_eq!(a.has_restart, round);
                assert_eq!(a.started_at, 10 * round + 1);
            }
            _ => panic!("async task changed its type"),
        }
    }
    store.record_exit(id, 1, 30).unwrap();
    assert_eq!(store.can_start(id), Err(TaskError::Policy));
    assert_eq!(store.record_start(id, 103, 31), Err(TaskError::Policy));
    let t = store.get(id).unwrap();
    assert_eq!((t.status, t.pid), (Some(Status::Stopped), None));
}

#[test]
fn select_by_id_name_and_group() {
    let mut store = TaskStore::new();
    let mut a = task("a", TaskType::Manual);
    a.group = Some("g".to_string());
    let mut b = task("b", TaskType::Manual);
    b.group = Some("g".to_string());
    store.add(a).unwrap();
    store.add(b).unwrap();
    store.add(task("c", TaskType::Manual)).unwrap();
    let mut flag = TaskFlag { id: 0, name: None, group: Some("g".to_string()), mat: false };
    assert_eq!(store.select(&flag), Err(TaskError::Conflict));
    flag.mat = true;
    assert_eq!(store.select(&flag), Ok(vec![1, 2]));
    let by_name = TaskFlag { id: 0, name: Some("c".to_string()), group: None, mat: false };
    assert_eq!(store.select(&by_name), Ok(vec![3]));
    flag.id = 3;
    assert_eq!(store.select(&flag), Ok(vec![3]));
    assert_eq!(store.select(&TaskFlag::by_id(9)), Err(TaskError::NotFound));
    assert_eq!(store.select(&TaskFlag::default()), Err(TaskError::NotFound));
}

#[test]
fn reload_replaces_the_definition_in_place() {
    let mut store = TaskStore::new();
    let id = store.add(task("x", TaskType::Manual)).unwrap();
    store.record_start(id, 5, 1).unwrap();
    let mut def = task("x", async_type(None));
    def.command = "echo".to_string();
    def.created_at = 999;
    assert_eq!(store.reload(def), Ok(id));
    let t = store.get(id).unwrap();
    assert_eq!(t.command, "echo");
    assert_eq!((t.id, t.created_at, t.pid), (id, 100, Some(5)));
    assert_eq!(t.status, Some(Status::Running));
    assert_eq!(store.reload(task("y", TaskType::Manual)), Err(TaskError::NotFound));
}

#[test]
fn reload_by_id_keeps_the_stored_name() {
    let mut store = TaskStore::new();
    let id = store.add(task("x", TaskType::Manual)).unwrap();
    let mut def = task("renamed", TaskType::Manual);
    def.id = id;
    def.command = "true".to_string();
    assert_eq!(store.reload(def), Ok(id));
    let t = store.get(id).unwrap();
    assert_eq!((t.name.as_str(), t.command.as_str()), ("x", "true"));
    let mut by_name = task("x", TaskType::Manual);
    by_name.id = 40;
    by_name.command = "false".to_string();
    assert_eq!(store.reload(by_name), Ok(id));
    assert_eq!(store.get(id).unwrap().command, "false");
    assert!(store.get(40).is_none());
    let mut missing = task("nobody", TaskType::Manual);
    missing.id = 40;
    assert_eq!(store.reload(missing), Err(TaskError::NotFound));
}

#[test]
fn remove_refuses_a_live_task() {
    let mut store = TaskStore::new();
    let id = store.add(task("x", TaskType::Manual)).unwrap();
    store.record_start(id, 5, 1).unwrap();
    assert_eq!(store.remove(id).map(|t| t.id), Err(TaskError::Conflict));
    assert_eq!(store.tasks().len(), 1);
    store.record_stop(id, 2).unwrap();
    assert_eq!(store.remove(id).map(|t| t.id), Ok(id));
    assert!(store.tasks().is_empty());
}

#[test]
fn tasks_by_status() {
    let mut store = TaskStore::new();
    let a = store.add(task("a", TaskType::Manual)).unwrap();
    let b = store.add(task("b", TaskType::Manual)).unwrap();
    let c = store.add(task("c", TaskType::Manual)).unwrap();
    store.record_start(b, 1, 1).unwrap();
    assert_eq!(store.with_status(Some(Status::Added)), vec![a, c]);
    assert_eq!(store.with_status(Some(Status::Running)), vec![b]);
    assert!(store.with_status(None).is_empty());
}

#[test]
fn persist_and_restore_round_trip() {
    let mut store = TaskStore::new();
    let a = store.add(task("a", TaskType::Manual)).unwrap();
    let b = store.add(task("b", async_type(Some(3)))).unwrap();
    store.record_start(a, 1, 2).unwrap();
    store.record_start(b, 3, 4).unwrap();
    store.pause(b).unwrap();
    let c = store.add(task("c", TaskType::Manual)).unwrap();
    let p = PeriodicTask { started_after: 0, interval: 10, last_run: 0, sync: false };
    let d = store.add(task("d", TaskType::Periodic(p))).unwrap();
    store.arm(d).unwrap();
    let cached = store.tasks().clone();
    let restored = TaskStore::restore(cached.clone()).unwrap();
    assert_eq!(restored.tasks().len(), 4);
    for (before, after) in cached.iter().zip(restored.tasks().iter()) {
        assert_eq!(after.id, before.id);
        assert_eq!(after.name, before.name);
        assert_eq!(after.command, before.command);
        assert_eq!(after.args, before.args);
        assert_eq!(after.code, before.code);
        assert_eq!(after.created_at, before.created_at);
        assert_eq!(after.task_type, before.task_type);
        assert_eq!(after.pid, None);
    }
    let mut restored = restored;
    assert_eq!(restored.get(a).unwrap().status, Some(Status::Stopped));
    assert_eq!(restored.get(b).unwrap().status, Some(Status::Stopped));
    assert_eq!(restored.get(c).unwrap().status, Some(Status::Added));
    assert_eq!(restored.get(d).unwrap().status, Some(Status::Stopped));
    assert_eq!(restored.add(task("e", TaskType::Manual)), Ok(5));
}

#[test]
fn restore_refuses_repeated_keys() {
    let mut a = task("a", TaskType::Manual);
    a.id = 1;
    let mut b = task("b", TaskType::Manual);
    b.id = 1;
    assert!(matches!(TaskStore::restore(vec![a.clone(), b.clone()]), Err(TaskError::Decode)));
    b.id = 2;
    b.name = "a".to_string();
    assert!(matches!(TaskStore::restore(vec![a.clone(), b.clone()]), Err(TaskError::Decode)));
    b.name = "b".to_string();
    a.id = 0;
    assert!(matches!(TaskStore::restore(vec![a.clone(), b.clone()]), Err(TaskError::Decode)));
    assert!(TaskStore::restore(Vec::new()).unwrap().tasks().is_empty());
}

#[test]
fn write_changes_only_args_and_env() {
    let mut store = TaskStore::new();
    let id = store.add(task("x", TaskType::Manual)).unwrap();
    let mut env = HashMap::new();
    env.insert("K".to_string(), "V".to_string());
    assert_eq!(store.write(id, Some(vec!["9".to_string()]), Some(env)), Ok(()));
    let t = store.get(id).unwrap();
    assert_eq!(t.args, vec!["9".to_string()]);
    assert_eq!(t.env.get("K").map(|v| v.as_str()), Some("V"));
    assert_eq!(t.command, "sleep");
    assert_eq!(t.status, Some(Status::Added));
    assert_eq!(store.write(id, None, None), Ok(()));
    assert_eq!(store.get(id).unwrap().args, vec!["9".to_string()]);
    assert_eq!(store.write(42, None, None), Err(TaskError::NotFound));
}

#[test]
fn exit_codes_of_signals() {
    assert_eq!(exit_code(Some(0), None), 0);
    assert_eq!(exit_code(Some(2), Some(9)), 2);
    assert_eq!(exit_code(None, Some(15)), STOP_EXIT_CODE);
    assert_eq!(exit_code(None, Some(9)), 137);
    assert_eq!(exit_code(None, None), 128);
    assert_eq!(exit_code(None, Some(400)), 128);
}

#[test]
fn restore_clears_pending_restart_markers() {
    let mut t = task("w", async_type(Some(1)));
    t.id = 3;
    t.pid = None;
    t.status = Some(Status::AutoRestart);
    let restored = TaskStore::restore(vec![t]).unwrap();
    let r = restored.get(3).unwrap();
    assert_eq!((r.status, r.code), (Some(Status::Stopped), Some(3)));
}
