use rust_hdl::hdl_core::simulate::{
    clock_at, run_outcome, run_step, scan_workers, wait_until, NextTime, SimError, SimStep,
    Trigger,
};

#[test]
fn earliest_time_runs_first() {
    let ts = vec![
        Trigger::Clock(50),
        Trigger::Time(20),
        Trigger::Never,
        Trigger::Time(20),
        Trigger::Watch(false),
    ];
    let r = scan_workers(&ts, 10);
    assert_eq!(
        r,
        NextTime {
            time: 20,
            idx: 1,
            clocks_only: false,
            halted: false
        }
    );
}

#[test]
fn ready_watch_runs_now() {
    let ts = vec![Trigger::Time(5), Trigger::Watch(true), Trigger::Halt];
    let r = scan_workers(&ts, 3);
    assert_eq!(
        r,
        NextTime {
            time: 3,
            idx: 1,
            clocks_only: false,
            halted: false
        }
    );
}

#[test]
fn halt_ends_the_scan() {
    let ts = vec![Trigger::Time(5), Trigger::Halt, Trigger::Watch(true)];
    let r = scan_workers(&ts, 3);
    assert!(r.halted);
    assert_eq!(r.time, u64::MAX);
    assert_eq!(r.idx, usize::MAX);
}

#[test]
fn only_clocks_left() {
    let ts = vec![Trigger::Clock(7), Trigger::Never, Trigger::Clock(3)];
    let r = scan_workers(&ts, 0);
    assert_eq!(
        r,
        NextTime {
            time: 3,
            idx: 2,
            clocks_only: true,
            halted: false
        }
    );
    let r = scan_workers(&vec![], 0);
    assert_eq!(
        r,
        NextTime {
            time: u64::MAX,
            idx: 0,
            clocks_only: true,
            halted: false
        }
    );
}

#[test]
fn run_steps_and_outcomes() {
    let next = NextTime {
        time: 20,
        idx: 1,
        clocks_only: false,
        halted: false,
    };
    assert_eq!(run_step(10, 100, next), SimStep::Dispatch { idx: 1, time: 20 });
    assert_eq!(
        run_step(100, 100, next),
        SimStep::Finish(Err(SimError::MaxTimeReached))
    );
    let halted = NextTime {
        time: u64::MAX,
        idx: usize::MAX,
        clocks_only: false,
        halted: true,
    };
    assert_eq!(run_step(10, 100, halted), SimStep::Finish(Err(SimError::SimHalted)));
    let clocks = NextTime {
        time: 30,
        idx: 0,
        clocks_only: true,
        halted: false,
    };
    assert_eq!(run_step(10, 100, clocks), SimStep::Finish(Ok(())));
    assert_eq!(run_outcome(5, 4, true), Err(SimError::MaxTimeReached));
    assert_eq!(run_outcome(3, 4, false), Ok(()));
}

#[test]
fn wake_times_do_not_overflow() {
    assert_eq!(wait_until(10, 5), Some(Trigger::Time(15)));
    assert_eq!(clock_at(10, 5), Some(Trigger::Clock(15)));
    assert_eq!(wait_until(u64::MAX, 1), None);
    assert_eq!(clock_at(u64::MAX - 1, 2), None);
}
