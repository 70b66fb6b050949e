use async_runtime::executor::Executor;
use async_runtime::runtime::Runtime;
use async_runtime::task::Countdown;

fn after(remaining: u64, value: i32) -> Countdown<i32> {
    Countdown { remaining, value }
}

#[test]
fn join_gathers_every_task() {
    let mut rt: Runtime<Countdown<i32>> = Runtime::new();
    let a = rt.spawn(after(2, 50));
    let b = rt.spawn_with_id(5, after(0, 100)).unwrap();
    let c = rt.spawn(after(7, 150));
    let outputs = rt.join();
    assert_eq!(outputs.len(), 3);
    assert_eq!(outputs.get(&a), Some(&50));
    assert_eq!(outputs.get(&b), Some(&100));
    assert_eq!(outputs.get(&c), Some(&150));
}

#[test]
fn join_on_empty_runtime_is_empty() {
    let rt: Runtime<Countdown<i32>> = Runtime::new();
    let outputs = rt.join();
    assert!(outputs.is_empty());
}

#[test]
fn select_on_empty_runtime_is_none() {
    let rt: Runtime<Countdown<i32>> = Runtime::new();
    assert!(rt.select().is_none());
}

#[test]
fn select_returns_the_first_completion() {
    let mut rt: Runtime<Countdown<i32>> = Runtime::new();
    rt.spawn(after(50, 1));
    rt.spawn(after(1, 2));
    assert_eq!(rt.select(), Some(2));
}

#[test]
fn select_returns_sole_task_value() {
    let mut rt: Runtime<Countdown<i32>> = Runtime::new();
    rt.spawn(after(3, 9));
    assert_eq!(rt.select(), Some(9));
}

#[test]
fn executor_join_gathers_by_id() {
    let mut ex: Executor<Countdown<i32>> = Executor::new();
    ex.add_task(after(1, 50), 1).unwrap();
    ex.add_task(after(4, 100), 2).unwrap();
    let outputs = ex.join();
    assert_eq!(outputs.len(), 2);
    assert_eq!(outputs.get(&1), Some(&50));
    assert_eq!(outputs.get(&2), Some(&100));
}

#[test]
fn executor_select_races() {
    let mut ex: Executor<Countdown<i32>> = Executor::new();
    ex.add_task(after(9, 7), 1).unwrap();
    ex.add_task(after(0, 8), 2).unwrap();
    assert_eq!(ex.select(), Some(8));
}

#[test]
fn executor_select_empty_is_none() {
    let ex: Executor<Countdown<i32>> = Executor::new();
    assert!(ex.select().is_none());
}

#[test]
fn executor_join_empty_is_empty() {
    let ex: Executor<Countdown<i32>> = Executor::new();
    assert!(ex.join().is_empty());
}

#[test]
fn join_gathers_a_hundred_tasks() {
    let mut rt: Runtime<Countdown<i32>> = Runtime::new();
    let mut expected = Vec::new();
    for k in 0..100u64 {
        let value = 1000 + k as i32;
        let id = rt.spawn(after(k % 7, value));
        expected.push((id, value));
    }
    let outputs = rt.join();
    assert_eq!(outputs.len(), 100);
    for (id, value) in expected {
        assert_eq!(outputs.get(&id), Some(&value));
    }
}
