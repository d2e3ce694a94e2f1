//! Tearing a pane's processes down: whom to signal, how hard, and when to stop.

use vstd::prelude::*;

verus! {

/// Whether a process still counts as running. The direct child does not once it
/// has been reaped; of any other, `process_exists` decides.
pub fn process_alive_for_shutdown(
    pid: u32,
    child_pid: u32,
    child_wait_completed: bool,
    process_exists: impl FnOnce(u32) -> bool,
) -> (r: bool)
    requires
        !(pid == child_pid && child_wait_completed) ==> call_requires(process_exists, (pid,)),
    ensures
        if pid == child_pid && child_wait_completed {
            !r
        } else {
            call_ensures(process_exists, (pid,), r)
        },
{
    if pid == child_pid && child_wait_completed {
        return false;
    }
    process_exists(pid)
}

/// Pause between two looks at the processes, in milliseconds.
pub const WAIT_POLL_MS: u64 = 20;

/// What to do after a look at the processes.
#[derive(Debug, Clone, Copy, PartialEq, Eq, Structural)]
pub enum WaitStep {
    /// All of them are gone.
    Exited,
    /// Some are not, and the time is up.
    TimedOut,
    /// Look again after a pause.
    PollAfter { ms: u64 },
}

/// Looks at the processes once: done when all are gone, and else, unless the
/// time is up, to be repeated. The clock is asked after the look.
pub fn wait_for_processes_to_exit(
    pids: &Vec<u32>,
    child_pid: u32,
    child_wait_completed: bool,
    process_exists: impl Fn(u32) -> bool,
    deadline_passed: impl FnOnce() -> bool,
) -> (r: WaitStep)
    requires
        forall|pid: u32| #[trigger] call_requires(process_exists, (pid,)),
        call_requires(deadline_passed, ()),
    ensures
        match r {
            WaitStep::Exited => forall|i: int|
                0 <= i < pids@.len() ==> (#[trigger] pids@[i] == child_pid && child_wait_completed)
                    || call_ensures(process_exists, (pids@[i],), false),
            _ => exists|i: int|
                0 <= i < pids@.len() && !(#[trigger] pids@[i] == child_pid && child_wait_completed)
                    && call_ensures(process_exists, (pids@[i],), true),
        },
        r is TimedOut ==> call_ensures(deadline_passed, (), true),
        r matches WaitStep::PollAfter { ms } ==> call_ensures(deadline_passed, (), false) && ms
            == WAIT_POLL_MS,
{
    let mut i: usize = 0;
    while i < pids.len()
        invariant
            i <= pids.len(),
            forall|pid: u32| #[trigger] call_requires(process_exists, (pid,)),
            call_requires(deadline_passed, ()),
            forall|j: int|
                0 <= j < i ==> (#[trigger] pids@[j] == child_pid && child_wait_completed)
                    || call_ensures(process_exists, (pids@[j],), false),
        decreases pids.len() - i,
    {
        let running = |pid: u32| -> (r: bool)
            requires
                call_requires(process_exists, (pid,)),
            ensures
                call_ensures(process_exists, (pid,), r),
        { process_exists(pid) };
        let alive = process_alive_for_shutdown(pids[i], child_pid, child_wait_completed, running);
        if alive {
            assert(!(pids@[i as int] == child_pid && child_wait_completed));
            return if deadline_passed() {
                WaitStep::TimedOut
            } else {
                WaitStep::PollAfter { ms: WAIT_POLL_MS }
            };
        }
        i += 1;
    }
    WaitStep::Exited
}

/// The signals of a teardown, gentlest first.
#[derive(Debug, Clone, Copy, PartialEq, Eq, Structural)]
pub enum Signal {
    Hangup,
    Terminate,
    Kill,
}

/// How long each signal gets to take effect, in milliseconds.
pub const SIGNAL_GRACE_MS: u64 = 250;

/// What a teardown does next.
#[derive(Debug, Clone, Copy, PartialEq, Eq, Structural)]
pub enum ShutdownAction {
    /// There is nothing to tear down.
    Nothing,
    /// Signal the processes, then wait for them to exit.
    SignalAndWait { signal: Signal, grace_ms: u64 },
    /// They are gone, after this signal.
    Terminated(Signal),
    /// They outlived all signals.
    StillAlive,
}

/// The numbers of `s` in ascending order, each once.
pub open spec fn is_sorted_set_of(r: Seq<u32>, s: Seq<u32>) -> bool {
    &&& forall|i: int, j: int| 0 <= i < j < r.len() ==> r[i] < r[j]
    &&& forall|x: u32| r.contains(x) == s.contains(x)
}

fn insert_sorted(v: &mut Vec<u32>, x: u32)
    requires
        forall|i: int, j: int| 0 <= i < j < old(v)@.len() ==> old(v)@[i] < old(v)@[j],
    ensures
        forall|i: int, j: int| 0 <= i < j < final(v)@.len() ==> final(v)@[i] < final(v)@[j],
        forall|y: u32| #[trigger]
            final(v)@.contains(y) == (old(v)@.contains(y) || y == x),
{
    let ghost before = v@;
    let mut i: usize = 0;
    while i < v.len() && v[i] < x
        invariant
            i <= v.len(),
            v@ == before,
            forall|j: int| 0 <= j < i ==> before[j] < x,
        decreases v.len() - i,
    {
        i += 1;
    }
    if i < v.len() && v[i] == x {
        assert(before[i as int] == x);
        return;
    }
    v.insert(i, x);
    assert forall|y: u32| #[trigger] v@.contains(y) == (before.contains(y) || y == x) by {
        if before.contains(y) {
            let k = before.index_of(y);
            if k < i {
                assert(v@[k] == y);
            } else {
                assert(v@[k + 1] == y);
            }
        }
        assert(v@[i as int] == x);
        if v@.contains(y) && y != x {
            let k = v@.index_of(y);
            if k < i {
                assert(before[k] == y);
            } else {
                assert(before[k - 1] == y);
            }
        }
    }
}

/// Starts a teardown: the child's session, or the child alone where its session
/// is not known, gets the gentlest signal. A pane without a child has nothing to
/// tear down.
pub fn shutdown_pane_processes(child_pid: u32, session: &Vec<u32>) -> (r: (
    Vec<u32>,
    ShutdownAction,
))
    ensures
        child_pid == 0 ==> r.0@.len() == 0 && r.1 == ShutdownAction::Nothing,
        child_pid != 0 ==> r.1 == (ShutdownAction::SignalAndWait {
            signal: Signal::Hangup,
            grace_ms: SIGNAL_GRACE_MS,
        }) && is_sorted_set_of(
            r.0@,
            if session@.len() == 0 {
                seq![child_pid]
            } else {
                session@
            },
        ),
{
    let mut pids: Vec<u32> = Vec::new();
    if child_pid == 0 {
        return (pids, ShutdownAction::Nothing);
    }
    if session.len() == 0 {
        pids.push(child_pid);
        assert(pids@ =~= seq![child_pid]);
    } else {
        let mut i: usize = 0;
        while i < session.len()
            invariant
                i <= session.len(),
                forall|a: int, b: int| 0 <= a < b < pids@.len() ==> pids@[a] < pids@[b],
                forall|x: u32| #[trigger]
                    pids@.contains(x) == session@.take(i as int).contains(x),
            decreases session.len() - i,
        {
            insert_sorted(&mut pids, session[i]);
            assert forall|x: u32| #[trigger] pids@.contains(x) == session@.take(
                i + 1,
            ).contains(x) by {
                let more = session@.take(i + 1);
                let less = session@.take(i as int);
                assert(more =~= less.push(session@[i as int]));
                if less.contains(x) {
                    assert(more[less.index_of(x)] == x);
                }
                if x == session@[i as int] {
                    assert(more[i as int] == x);
                }
                if more.contains(x) {
                    let k = more.index_of(x);
                    if k < i {
                        assert(less[k] == x);
                    }
                }
            }
            i += 1;
        }
        assert(session@.take(i as int) =~= session@);
    }
    (
        pids,
        ShutdownAction::SignalAndWait { signal: Signal::Hangup, grace_ms: SIGNAL_GRACE_MS },
    )
}

/// What follows a signal: done if the processes exited, else the next harder
/// signal, and after the hardest one nothing more.
pub open spec fn after_signal(signal: Signal, exited: bool) -> ShutdownAction {
    if exited {
        ShutdownAction::Terminated(signal)
    } else {
        match signal {
            Signal::Hangup => ShutdownAction::SignalAndWait {
                signal: Signal::Terminate,
                grace_ms: SIGNAL_GRACE_MS,
            },
            Signal::Terminate => ShutdownAction::SignalAndWait {
                signal: Signal::Kill,
                grace_ms: SIGNAL_GRACE_MS,
            },
            Signal::Kill => ShutdownAction::StillAlive,
        }
    }
}

/// Moves a teardown on after a signal and the wait for it.
pub fn shutdown_next(signal: Signal, exited: bool) -> (r: ShutdownAction)
    ensures
        r == after_signal(signal, exited),
{
    if exited {
        return ShutdownAction::Terminated(signal);
    }
    match signal {
        Signal::Hangup => ShutdownAction::SignalAndWait {
            signal: Signal::Terminate,
            grace_ms: SIGNAL_GRACE_MS,
        },
        Signal::Terminate => ShutdownAction::SignalAndWait {
            signal: Signal::Kill,
            grace_ms: SIGNAL_GRACE_MS,
        },
        Signal::Kill => ShutdownAction::StillAlive,
    }
}

/// How hard a signal is.
pub open spec fn force(signal: Signal) -> int {
    match signal {
        Signal::Hangup => 0,
        Signal::Terminate => 1,
        Signal::Kill => 2,
    }
}

/// A teardown escalates one step at a time and ends: every further signal is one
/// step harder, none follows once the processes are gone, and none follows the
/// hardest.
pub proof fn teardowns_escalate_and_end(signal: Signal, exited: bool)
    ensures
        after_signal(signal, exited) matches ShutdownAction::SignalAndWait { signal: next, .. }
            ==> !exited && force(next) == force(signal) + 1,
        exited ==> after_signal(signal, exited) == ShutdownAction::Terminated(signal),
        signal == Signal::Kill && !exited ==> after_signal(signal, exited)
            == ShutdownAction::StillAlive,
{
}

/// A teardown asks first, then terminates, then kills, with a quarter of a second
/// after each, and stops at the first signal that worked.
pub proof fn teardowns_ask_before_they_kill(signal: Signal, exited: bool, r: ShutdownAction)
    requires
        call_ensures(shutdown_next, (signal, exited), r),
    ensures
        exited ==> r == ShutdownAction::Terminated(signal),
        !exited && signal is Hangup ==> r == (ShutdownAction::SignalAndWait {
            signal: Signal::Terminate,
            grace_ms: 250,
        }),
        !exited && signal is Terminate ==> r == (ShutdownAction::SignalAndWait {
            signal: Signal::Kill,
            grace_ms: 250,
        }),
        !exited && signal is Kill ==> r is StillAlive,
{
}

/// A teardown begins with a hangup for every process of the session, each once and
/// in ascending order, or for the child alone where no session is known. Without a
/// child there is nothing to tear down.
pub proof fn teardowns_reach_the_session(
    child_pid: u32,
    session: Vec<u32>,
    r: (Vec<u32>, ShutdownAction),
    pid: u32,
)
    requires
        call_ensures(shutdown_pane_processes, (child_pid, &session), r),
    ensures
        child_pid == 0 ==> r.0@.len() == 0 && r.1 is Nothing,
        child_pid != 0 ==> r.1 == (ShutdownAction::SignalAndWait {
            signal: Signal::Hangup,
            grace_ms: 250,
        }),
        child_pid != 0 && session@.len() > 0 ==> (r.0@.contains(pid) <==> session@.contains(pid)),
        child_pid != 0 && session@.len() == 0 ==> (r.0@.contains(pid) <==> pid == child_pid),
        forall|i: int, j: int| 0 <= i < j < r.0@.len() ==> r.0@[i] < r.0@[j],
{
    if child_pid != 0 && session@.len() == 0 {
        assert(seq![child_pid].contains(child_pid)) by {
            assert(seq![child_pid][0] == child_pid);
        }
    }
}

/// A reaped child is dead; of any other process the system is asked.
pub proof fn reaped_children_are_dead<F: FnOnce(u32) -> bool>(
    pid: u32,
    child_pid: u32,
    reaped: bool,
    process_exists: F,
    alive: bool,
)
    requires
        call_ensures(
            process_alive_for_shutdown,
            (pid, child_pid, reaped, process_exists),
            alive,
        ),
    ensures
        reaped && pid == child_pid ==> !alive,
        !reaped || pid != child_pid ==> call_ensures(process_exists, (pid,), alive),
{
}

/// Waiting for nothing is over at once. A wait times out only when its time is up;
/// before that it looks again after twenty milliseconds.
pub proof fn waits_look_again_until_time_is_up<F: Fn(u32) -> bool, D: FnOnce() -> bool>(
    pids: Vec<u32>,
    child_pid: u32,
    reaped: bool,
    process_exists: F,
    deadline_passed: D,
    r: WaitStep,
)
    requires
        call_ensures(
            wait_for_processes_to_exit,
            (&pids, child_pid, reaped, process_exists, deadline_passed),
            r,
        ),
    ensures
        pids@.len() == 0 ==> r is Exited,
        r is TimedOut ==> call_ensures(deadline_passed, (), true),
        r matches WaitStep::PollAfter { ms } ==> ms == 20 && call_ensures(
            deadline_passed,
            (),
            false,
        ),
{
}

} // verus!
