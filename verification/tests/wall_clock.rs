use async_runtime::runtime::Runtime;
use async_runtime::task::{PollState, Pollable};
use std::time::{Duration, Instant};

/// Completes with `value` once the wall clock reaches `until`.
struct WallSleep {
    until: Instant,
    value: i32,
}

impl Pollable for WallSleep {
    type Output = i32;

    fn poll(&mut self) -> PollState<i32> {
        if Instant::now() >= self.until {
            PollState::Ready(self.value)
        } else {
            PollState::Pending
        }
    }
}

fn sleeping(millis: u64, value: i32) -> WallSleep {
    WallSleep { until: Instant::now() + Duration::from_millis(millis), value }
}

#[test]
fn select_picks_the_faster_sleep() {
    let mut rt: Runtime<WallSleep> = Runtime::new();
    rt.spawn(sleeping(600, 1));
    rt.spawn(sleeping(100, 2));
    let started = Instant::now();
    assert_eq!(rt.select(), Some(2));
    let elapsed = started.elapsed();
    assert!(elapsed >= Duration::from_millis(100));
    assert!(elapsed < Duration::from_millis(600));
}

#[test]
fn join_gathers_both_sleeps() {
    let mut rt: Runtime<WallSleep> = Runtime::new();
    let a = rt.spawn(sleeping(120, 50));
    let b = rt.spawn_with_id(2, sleeping(40, 100)).unwrap();
    let started = Instant::now();
    let outputs = rt.join();
    assert!(started.elapsed() >= Duration::from_millis(120));
    assert_eq!(outputs.len(), 2);
    assert_eq!(outputs.get(&a), Some(&50));
    assert_eq!(outputs.get(&b), Some(&100));
}

/// Sleeps through two stages against the wall clock, then completes.
struct TwoStageSleep {
    first: Option<Instant>,
    second_millis: u64,
    second: Option<Instant>,
    value: i32,
}

impl Pollable for TwoStageSleep {
    type Output = i32;

    fn poll(&mut self) -> PollState<i32> {
        if let Some(first) = self.first {
            if Instant::now() < first {
                return PollState::Pending;
            }
            self.first = None;
            self.second = Some(Instant::now() + Duration::from_millis(self.second_millis));
        }
        match self.second {
            Some(second) if Instant::now() < second => PollState::Pending,
            _ => PollState::Ready(self.value),
        }
    }
}

#[test]
fn join_gathers_single_and_two_stage_sleeps() {
    let mut rt: Runtime<TwoStageSleep> = Runtime::new();
    let a = rt.spawn(TwoStageSleep {
        first: Some(Instant::now() + Duration::from_millis(80)),
        second_millis: 0,
        second: None,
        value: 50,
    });
    let b = rt
        .spawn_with_id(2, TwoStageSleep {
            first: Some(Instant::now() + Duration::from_millis(40)),
            second_millis: 80,
            second: None,
            value: 100,
        })
        .unwrap();
    let started = Instant::now();
    let outputs = rt.join();
    assert!(started.elapsed() >= Duration::from_millis(120));
    assert_eq!(outputs.len(), 2);
    assert_eq!(outputs.get(&a), Some(&50));
    assert_eq!(outputs.get(&b), Some(&100));
}
