//! Settling a circuit, the ways a simulation can end early, and the
//! scheduler that decides which testbench runs next.
use crate::hdl_core::block::Block;
use crate::hdl_core::check_error::CheckError;
use vstd::prelude::*;

verus! {

/// Each state of `s` is the update of the one before.
pub open spec fn update_run<B: Block>(s: Seq<B>) -> bool {
    forall|i: int| 0 <= i < s.len() - 1 ==> #[trigger] s[i].steps_to(s[i + 1])
}

/// `s` is the run of [simulate] with at most `max_iters` updates and
/// result `r`: updates stop at the first state that settled, `r` says
/// whether one did, and without one all `max_iters` updates are made.
pub open spec fn settling_run<B: Block>(s: Seq<B>, max_iters: nat, r: bool) -> bool {
    &&& 1 <= s.len() <= max_iters + 1
    &&& update_run(s)
    &&& forall|i: int| 1 <= i < s.len() - 1 ==> !(#[trigger] s[i].settled())
    &&& r == (s.len() >= 2 && s.last().settled())
    &&& !r ==> s.len() == max_iters + 1
}

/// Updates the circuit until nothing changes, at most `max_iters` times;
/// true when it settled.
pub fn simulate<B: Block>(uut: &mut B, max_iters: usize) -> (r: bool)
    ensures
        exists|s: Seq<B>|
            s[0] == *old(uut) && s.last() == *final(uut) && #[trigger] settling_run(
                s,
                max_iters as nat,
                r,
            ),
{
    let ghost start = *uut;
    let ghost mut s: Seq<B> = seq![*uut];
    let mut i: usize = 0;
    while i < max_iters
        invariant
            i <= max_iters,
            start == *old(uut),
            s.len() == i + 1,
            s[0] == start,
            s.last() == *uut,
            update_run(s),
            forall|k: int| 1 <= k < s.len() ==> !(#[trigger] s[k].settled()),
        decreases max_iters - i,
    {
        let ghost before = *uut;
        uut.update_all();
        proof {
            let t = s.push(*uut);
            assert forall|k: int| 0 <= k < t.len() - 1 implies #[trigger] t[k].steps_to(t[k + 1]) by {
                if k < s.len() - 1 {
                    assert(t[k] == s[k] && t[k + 1] == s[k + 1]);
                } else {
                    assert(t[k] == before);
                }
            }
            s = t;
        }
        if !uut.has_changed() {
            assert(settling_run(s, max_iters as nat, true));
            return true;
        }
        i = i + 1;
    }
    assert(settling_run(s, max_iters as nat, false));
    false
}

/// Why a simulation stopped without finishing.
#[derive(Clone, Debug, PartialEq)]
pub enum SimError {
    SimTerminated,
    MaxTimeReached,
    SimHalted,
    FailedToConverge,
    Check(CheckError),
    SimPanic,
}

impl From<CheckError> for SimError {
    fn from(x: CheckError) -> (r: Self)
        ensures
            r == SimError::Check(x),
    {
        SimError::Check(x)
    }
}

impl vstd::std_specs::convert::FromSpecImpl<CheckError> for SimError {
    open spec fn obeys_from_spec() -> bool {
        true
    }

    open spec fn from_spec(x: CheckError) -> Self {
        SimError::Check(x)
    }
}

/// What a testbench waits for, as the scheduler sees it.
#[derive(Clone, Copy, Debug, PartialEq, Eq, Structural)]
pub enum Trigger {
    /// It is done.
    Never,
    /// It waits until the given time.
    Time(u64),
    /// It waits for a condition on the circuit; the flag says whether the
    /// condition holds now.
    Watch(bool),
    /// It drives a clock and waits until the given time.
    Clock(u64),
    /// It stopped the simulation.
    Halt,
}

/// The scheduler's choice: the next time, the testbench to run, whether
/// only clocks are left waiting, and whether a testbench halted.
#[derive(Clone, Copy, Debug, PartialEq, Eq, Structural)]
pub struct NextTime {
    pub time: u64,
    pub idx: usize,
    pub clocks_only: bool,
    pub halted: bool,
}

/// The time a testbench waits for; the end of time when it waits for none.
pub open spec fn wake_time(t: Trigger) -> u64 {
    match t {
        Trigger::Time(x) => x,
        Trigger::Clock(x) => x,
        _ => u64::MAX,
    }
}

/// The position of the first testbench from `i` on whose condition holds
/// now, or the number of testbenches when there is none.
pub open spec fn first_ready_from(ts: Seq<Trigger>, i: int) -> int
    decreases ts.len() - i,
{
    if i >= ts.len() || i < 0 {
        ts.len() as int
    } else if ts[i] == Trigger::Watch(true) {
        i
    } else {
        first_ready_from(ts, i + 1)
    }
}

/// The position of the first testbench whose condition holds now, or the
/// number of testbenches when there is none.
pub open spec fn first_ready(ts: Seq<Trigger>) -> int {
    first_ready_from(ts, 0)
}

proof fn lemma_first_ready_after(ts: Seq<Trigger>, i: int)
    requires
        0 <= i <= ts.len(),
    ensures
        i <= first_ready_from(ts, i) <= ts.len(),
        first_ready_from(ts, i) < ts.len() ==> ts[first_ready_from(ts, i)] == Trigger::Watch(true),
    decreases ts.len() - i,
{
    if i < ts.len() && ts[i] != Trigger::Watch(true) {
        lemma_first_ready_after(ts, i + 1);
    }
}

/// A testbench before position `w` has halted.
pub open spec fn halted_before(ts: Seq<Trigger>, w: int) -> bool {
    exists|j: int| 0 <= j < w && ts[j] == Trigger::Halt
}

/// Only clocks (and finished testbenches) are waiting.
pub open spec fn only_clocks(ts: Seq<Trigger>) -> bool {
    forall|j: int| 0 <= j < ts.len() ==> (ts[j] is Never || ts[j] is Clock)
}

/// `r` is the scheduler's choice among the testbenches waiting for `ts`
/// at time `now` (see [scan_workers]).
pub open spec fn scanned(ts: Seq<Trigger>, now: u64, r: NextTime) -> bool {
    &&& r.halted == halted_before(ts, first_ready(ts))
    &&& r.halted ==> r == (NextTime {
        time: u64::MAX,
        idx: usize::MAX,
        clocks_only: false,
        halted: true,
    })
    &&& !r.halted && first_ready(ts) < ts.len() ==> r == (NextTime {
        time: now,
        idx: first_ready(ts) as usize,
        clocks_only: false,
        halted: false,
    })
    &&& !r.halted && first_ready(ts) == ts.len() ==> {
        &&& r.clocks_only == only_clocks(ts)
        &&& forall|j: int| 0 <= j < ts.len() ==> r.time <= wake_time(#[trigger] ts[j])
        &&& r.time == u64::MAX ==> r.idx == 0
        &&& r.time < u64::MAX ==> r.idx < ts.len() && wake_time(ts[r.idx as int]) == r.time
        &&& r.time < u64::MAX ==> forall|k: int|
            0 <= k < r.idx ==> r.time < wake_time(#[trigger] ts[k])
    }
}

/// Law: the scheduler does not go back in time.  When no testbench waits
/// for a time before `now`, the time it chooses is not before `now`.
pub proof fn law_time_does_not_go_back(ts: Seq<Trigger>, now: u64, r: NextTime)
    requires
        scanned(ts, now, r),
        forall|j: int| 0 <= j < ts.len() ==> now <= wake_time(#[trigger] ts[j]),
    ensures
        now <= r.time,
{
    lemma_first_ready_after(ts, 0);
    if !r.halted && first_ready(ts) == ts.len() && r.time < u64::MAX {
        assert(now <= wake_time(ts[r.idx as int]));
    }
}

/// The testbenches are looked at in order.  One that halted ends the
/// simulation; otherwise the first whose condition holds runs now;
/// otherwise the one waiting for the earliest time runs then (the first
/// of several with that time), and when none waits for a time before the
/// end of time, the time is the end of time and the choice the first.
pub fn scan_workers(triggers: &Vec<Trigger>, now: u64) -> (r: NextTime)
    ensures
        scanned(triggers@, now, r),
{
    let ghost ts = triggers@;
    let mut min_time: u64 = u64::MAX;
    let mut min_idx: usize = 0;
    let mut only_clock_waiters = true;
    let n = triggers.len();
    for i in 0..n
        invariant
            n == ts.len(),
            ts == triggers@,
            first_ready(ts) == first_ready_from(ts, i as int),
            !halted_before(ts, i as int),
            only_clock_waiters == (forall|k: int| 0 <= k < i ==> (ts[k] is Never || ts[k] is Clock)),
            forall|k: int| 0 <= k < i ==> min_time <= wake_time(#[trigger] ts[k]),
            min_time == u64::MAX ==> min_idx == 0,
            min_time < u64::MAX ==> min_idx < i && wake_time(ts[min_idx as int]) == min_time,
            min_time < u64::MAX ==> forall|k: int|
                0 <= k < min_idx ==> min_time < wake_time(#[trigger] ts[k]),
    {
        proof {
            lemma_first_ready_after(ts, i + 1);
        }
        match triggers[i] {
            Trigger::Halt => {
                assert(ts[i as int] == Trigger::Halt);
                assert(halted_before(ts, first_ready(ts)));
                return NextTime { halted: true, time: u64::MAX, idx: usize::MAX, clocks_only: false };
            },
            Trigger::Never => {},
            Trigger::Time(t) => {
                only_clock_waiters = false;
                if t < min_time {
                    min_time = t;
                    min_idx = i;
                }
            },
            Trigger::Watch(ready) => {
                only_clock_waiters = false;
                if ready {
                    assert(first_ready(ts) == i);
                    return NextTime { time: now, idx: i, clocks_only: false, halted: false };
                }
            },
            Trigger::Clock(t) => {
                if t < min_time {
                    min_time = t;
                    min_idx = i;
                }
            },
        }
        assert(!halted_before(ts, i + 1)) by {
            if halted_before(ts, i + 1) {
                let j = choose|j: int| 0 <= j < i + 1 && ts[j] == Trigger::Halt;
                assert(j < i);
            }
        }
    }
    NextTime { time: min_time, idx: min_idx, clocks_only: only_clock_waiters, halted: false }
}

/// What the simulation does next.
#[derive(Debug, PartialEq)]
pub enum SimStep {
    /// Runs the testbench `idx` at time `time`.
    Dispatch { idx: usize, time: u64 },
    /// Stops, with this outcome.
    Finish(Result<(), SimError>),
}

/// How a run ends, by the time reached and whether a testbench halted:
/// past the time limit is an error, a halt is an error, otherwise success.
pub open spec fn outcome(time: u64, max_time: u64, halted: bool) -> Result<(), SimError> {
    if time >= max_time {
        Err(SimError::MaxTimeReached)
    } else if halted {
        Err(SimError::SimHalted)
    } else {
        Ok(())
    }
}

/// How a run ends.
pub fn run_outcome(time: u64, max_time: u64, halted: bool) -> (r: Result<(), SimError>)
    ensures
        r == outcome(time, max_time, halted),
{
    if time >= max_time {
        Err(SimError::MaxTimeReached)
    } else if halted {
        Err(SimError::SimHalted)
    } else {
        Ok(())
    }
}

/// One step of a run at `time`, given the scheduler's choice: stop when
/// the time limit is reached, a testbench halted, nothing waits for a
/// time, or only clocks are left; otherwise run the chosen testbench at
/// its time.
pub fn run_step(time: u64, max_time: u64, next: NextTime) -> (r: SimStep)
    ensures
        time >= max_time ==> r == SimStep::Finish(Err(SimError::MaxTimeReached)),
        time < max_time && (next.time == u64::MAX || next.clocks_only || next.halted) ==> r
            == SimStep::Finish(outcome(time, max_time, next.halted)),
        time < max_time && !(next.time == u64::MAX || next.clocks_only || next.halted) ==> r
            == (SimStep::Dispatch { idx: next.idx, time: next.time }),
{
    if time >= max_time {
        SimStep::Finish(Err(SimError::MaxTimeReached))
    } else if next.time == u64::MAX || next.clocks_only || next.halted {
        SimStep::Finish(run_outcome(time, max_time, next.halted))
    } else {
        SimStep::Dispatch { idx: next.idx, time: next.time }
    }
}

/// The trigger of a testbench that waits `delta` after `time`, or `None`
/// where that time is past the end of time.
pub fn wait_until(time: u64, delta: u64) -> (r: Option<Trigger>)
    ensures
        time + delta <= u64::MAX ==> r == Some(Trigger::Time((time + delta) as u64)),
        time + delta > u64::MAX ==> r is None,
{
    match time.checked_add(delta) {
        Some(t) => Some(Trigger::Time(t)),
        None => None,
    }
}

/// The trigger of a clock that ticks `delta` after `time`, or `None` where
/// that time is past the end of time.
pub fn clock_at(time: u64, delta: u64) -> (r: Option<Trigger>)
    ensures
        time + delta <= u64::MAX ==> r == Some(Trigger::Clock((time + delta) as u64)),
        time + delta > u64::MAX ==> r is None,
{
    match time.checked_add(delta) {
        Some(t) => Some(Trigger::Clock(t)),
        None => None,
    }
}

} // verus!
