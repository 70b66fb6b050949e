use async_runtime::runtime::{Runtime, TaskSpawnError};
use async_runtime::executor::{Executor, ExecutorError};
use async_runtime::task::Countdown;

fn ready(value: i32) -> Countdown<i32> {
    Countdown { remaining: 0, value }
}

#[test]
fn auto_ids_are_consecutive_from_one() {
    let mut rt: Runtime<Countdown<i32>> = Runtime::new();
    assert_eq!(rt.spawn(ready(10)), 1);
    assert_eq!(rt.spawn(ready(20)), 2);
    assert_eq!(rt.spawn(ready(30)), 3);
}

#[test]
fn auto_id_skips_caller_chosen() {
    let mut rt: Runtime<Countdown<i32>> = Runtime::new();
    assert_eq!(rt.spawn_with_id(1, ready(10)).unwrap(), 1);
    assert_eq!(rt.spawn(ready(20)), 2);
    assert_eq!(rt.spawn(ready(30)), 3);
}

#[test]
fn auto_id_steps_over_taken_ids() {
    let mut rt: Runtime<Countdown<i32>> = Runtime::new();
    assert_eq!(rt.spawn_with_id(2, ready(10)).unwrap(), 2);
    assert_eq!(rt.spawn(ready(20)), 1);
    assert_eq!(rt.spawn(ready(30)), 3);
}

#[test]
fn duplicate_id_rejected_without_side_effect() {
    let mut rt: Runtime<Countdown<i32>> = Runtime::new();
    assert_eq!(rt.spawn_with_id(7, ready(40)).unwrap(), 7);
    assert!(matches!(
        rt.spawn_with_id(7, ready(41)),
        Err(TaskSpawnError::DuplicateId)
    ));
    let outputs = rt.join();
    assert_eq!(outputs.len(), 1);
    assert_eq!(outputs.get(&7), Some(&40));
}

#[test]
fn executor_rejects_duplicate_id() {
    let mut ex: Executor<Countdown<i32>> = Executor::new();
    assert!(ex.add_task(ready(1), 3).is_ok());
    assert!(matches!(
        ex.add_task(ready(2), 3),
        Err(ExecutorError::DuplicateId)
    ));
    assert!(ex.add_task(ready(2), 4).is_ok());
}
