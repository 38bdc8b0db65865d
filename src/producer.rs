//! The schedule of one producer: a command run once at start, and, for a
//! nonzero interval, again after each sleep of that interval, for good. The
//! task that drives it launches the command, sleeps, and reports back.

use vstd::prelude::*;

verus! {

/// Where a producer stands.
#[derive(Debug, Clone, Copy, PartialEq, Eq)]
pub enum ProducerPhase {
    /// Not started.
    Idle,
    /// Its command is running.
    Running,
    /// It sleeps until the next run.
    Sleeping,
    /// It will not run again.
    Finished,
}

/// What happened to a producer.
#[derive(Debug, Clone, Copy, PartialEq, Eq)]
pub enum ProducerEvent {
    /// Its task started.
    Start,
    /// Its command ended, well or not.
    RunEnded,
    /// Its sleep is over.
    Woke,
}

/// What a producer asks its task to do.
#[derive(Debug, Clone, Copy, PartialEq, Eq)]
pub enum ProducerAction {
    /// Run the command.
    Launch,
    /// Sleep this many seconds.
    Sleep(u64),
    /// End the task.
    Stop,
    /// Nothing.
    Wait,
}

/// One producer's schedule.
#[derive(Debug, Clone, Copy, PartialEq, Eq)]
pub struct Producer {
    /// Seconds between the end of one run and the start of the next; zero
    /// runs the command once only.
    pub interval_secs: u64,
    pub phase: ProducerPhase,
}

/// The producer and action that follow `event` for `p`.
pub open spec fn producer_next(p: Producer, event: ProducerEvent) -> (Producer, ProducerAction) {
    match (p.phase, event) {
        (ProducerPhase::Idle, ProducerEvent::Start) => (
            Producer { phase: ProducerPhase::Running, ..p },
            ProducerAction::Launch,
        ),
        (ProducerPhase::Running, ProducerEvent::RunEnded) => if p.interval_secs == 0 {
            (Producer { phase: ProducerPhase::Finished, ..p }, ProducerAction::Stop)
        } else {
            (
                Producer { phase: ProducerPhase::Sleeping, ..p },
                ProducerAction::Sleep(p.interval_secs),
            )
        },
        (ProducerPhase::Sleeping, ProducerEvent::Woke) => (
            Producer { phase: ProducerPhase::Running, ..p },
            ProducerAction::Launch,
        ),
        _ => (p, ProducerAction::Wait),
    }
}

impl Producer {
    /// The producer that `new(interval_secs)` returns.
    pub open spec fn new_spec(interval_secs: u64) -> Producer {
        Producer { interval_secs, phase: ProducerPhase::Idle }
    }

    /// A producer, not started, that runs every `interval_secs` seconds, or
    /// once when that is zero.
    pub fn new(interval_secs: u64) -> (r: Producer)
        ensures
            r == Producer::new_spec(interval_secs),
    {
        Producer { interval_secs, phase: ProducerPhase::Idle }
    }

    /// Takes in `event` and returns what the task must do next.
    pub fn step(&mut self, event: ProducerEvent) -> (r: ProducerAction)
        ensures
            (*final(self), r) == producer_next(*old(self), event),
    {
        match (self.phase, event) {
            (ProducerPhase::Idle, ProducerEvent::Start) => {
                self.phase = ProducerPhase::Running;
                ProducerAction::Launch
            },
            (ProducerPhase::Running, ProducerEvent::RunEnded) => {
                if self.interval_secs == 0 {
                    self.phase = ProducerPhase::Finished;
                    ProducerAction::Stop
                } else {
                    self.phase = ProducerPhase::Sleeping;
                    ProducerAction::Sleep(self.interval_secs)
                }
            },
            (ProducerPhase::Sleeping, ProducerEvent::Woke) => {
                self.phase = ProducerPhase::Running;
                ProducerAction::Launch
            },
            _ => ProducerAction::Wait,
        }
    }
}

/// The producer after `events`, from `p`, and the action taken on each.
pub open spec fn producer_run(p: Producer, events: Seq<ProducerEvent>) -> (
    Producer,
    Seq<ProducerAction>,
)
    decreases events.len(),
{
    if events.len() == 0 {
        (p, Seq::empty())
    } else {
        let (p1, acts) = producer_run(p, events.drop_last());
        let (p2, a) = producer_next(p1, events.last());
        (p2, acts.push(a))
    }
}

/// How many of `acts` launch the command.
pub open spec fn launches(acts: Seq<ProducerAction>) -> nat
    decreases acts.len(),
{
    if acts.len() == 0 {
        0
    } else {
        launches(acts.drop_last()) + if acts.last() == ProducerAction::Launch {
            1nat
        } else {
            0nat
        }
    }
}

/// The seconds that `acts` sleep in all.
pub open spec fn slept(acts: Seq<ProducerAction>) -> nat
    decreases acts.len(),
{
    if acts.len() == 0 {
        0
    } else {
        slept(acts.drop_last()) + match acts.last() {
            ProducerAction::Sleep(n) => n as nat,
            _ => 0nat,
        }
    }
}

/// The events of a task that starts its producer and then sees `k` runs
/// end, each followed by the end of a sleep.
pub open spec fn cycles(k: nat) -> Seq<ProducerEvent>
    decreases k,
{
    if k == 0 {
        seq![ProducerEvent::Start]
    } else {
        cycles((k - 1) as nat).push(ProducerEvent::RunEnded).push(ProducerEvent::Woke)
    }
}

/// A producer with interval zero runs its command at most once, however
/// long it is watched and whatever happens to it, and exactly once when
/// its task starts.
pub proof fn lemma_zero_interval_runs_once(events: Seq<ProducerEvent>)
    ensures
        launches(producer_run(Producer::new_spec(0), events).1) <= 1,
        events.len() > 0 && events[0] == ProducerEvent::Start ==> launches(
            producer_run(Producer::new_spec(0), events).1,
        ) == 1,
{
    lemma_zero_interval_count(events);
}

proof fn lemma_zero_interval_count(events: Seq<ProducerEvent>)
    ensures
        ({
            let (p, acts) = producer_run(Producer::new_spec(0), events);
            &&& p.interval_secs == 0
            &&& p.phase != ProducerPhase::Sleeping
            &&& p.phase == ProducerPhase::Idle ==> launches(acts) == 0
            &&& p.phase != ProducerPhase::Idle ==> launches(acts) == 1
            &&& events.len() > 0 && events[0] == ProducerEvent::Start ==> p.phase
                != ProducerPhase::Idle
        }),
    decreases events.len(),
{
    if events.len() > 0 {
        let prev = events.drop_last();
        lemma_zero_interval_count(prev);
        if prev.len() > 0 {
            assert(prev[0] == events[0]);
        }
        let (p1, acts1) = producer_run(Producer::new_spec(0), prev);
        let (p2, a) = producer_next(p1, events.last());
        assert(producer_run(Producer::new_spec(0), events) == (p2, acts1.push(a)));
        assert(acts1.push(a).drop_last() =~= acts1);
    }
}

/// A producer with interval `n > 0`, whose runs take no time, runs at least
/// `t / n` times within `t` seconds: after its first run and `t / n` sleeps
/// of `n` seconds each, which fit in `t`, it has launched `t / n + 1` runs.
pub proof fn lemma_repeating_producer_keeps_running(n: u64, t: nat)
    requires
        n > 0,
    ensures
        launches(producer_run(Producer::new_spec(n), cycles(t / (n as nat))).1) == t / (n as nat)
            + 1,
        slept(producer_run(Producer::new_spec(n), cycles(t / (n as nat))).1) == (t / (n as nat))
            * (n as nat),
        (t / (n as nat)) * (n as nat) <= t,
        forall|i: int|
            0 <= i < producer_run(Producer::new_spec(n), cycles(t / (n as nat))).1.len()
                ==> match #[trigger] producer_run(
                Producer::new_spec(n),
                cycles(t / (n as nat)),
            ).1[i] {
                ProducerAction::Sleep(d) => d == n,
                _ => true,
            },
{
    lemma_cycles(n, t / (n as nat));
    vstd::arithmetic::div_mod::lemma_fundamental_div_mod(t as int, n as int);
    assert((t / (n as nat)) * (n as nat) <= t) by (nonlinear_arith)
        requires
            t == (n as nat) * (t / (n as nat)) + t % (n as nat),
            t % (n as nat) >= 0,
    ;
}

proof fn lemma_cycles(n: u64, k: nat)
    requires
        n > 0,
    ensures
        ({
            let (p, acts) = producer_run(Producer::new_spec(n), cycles(k));
            &&& p == (Producer { interval_secs: n, phase: ProducerPhase::Running })
            &&& launches(acts) == k + 1
            &&& slept(acts) == k * (n as nat)
            &&& forall|i: int|
                0 <= i < acts.len() ==> match #[trigger] acts[i] {
                    ProducerAction::Sleep(d) => d == n,
                    _ => true,
                }
        }),
    decreases k,
{
    let p0 = Producer::new_spec(n);
    if k == 0 {
        let e = cycles(0);
        assert(e.drop_last() =~= Seq::<ProducerEvent>::empty());
        assert(e.last() == ProducerEvent::Start);
        assert(producer_run(p0, e.drop_last()) == (p0, Seq::<ProducerAction>::empty()));
        let acts = producer_run(p0, e).1;
        assert(acts =~= seq![ProducerAction::Launch]);
        assert(acts.drop_last() =~= Seq::<ProducerAction>::empty());
        assert(launches(acts.drop_last()) == 0);
        assert(slept(acts.drop_last()) == 0);
        assert(launches(acts) == 1);
        assert(slept(acts) == 0);
        assert(producer_run(p0, e).0 == Producer { interval_secs: n, phase: ProducerPhase::Running });
    } else {
        let prev = cycles((k - 1) as nat);
        lemma_cycles(n, (k - 1) as nat);
        let mid = prev.push(ProducerEvent::RunEnded);
        let e = mid.push(ProducerEvent::Woke);
        assert(e.drop_last() =~= mid);
        assert(mid.drop_last() =~= prev);
        let a0 = producer_run(p0, prev).1;
        let a1 = producer_run(p0, mid).1;
        let a2 = producer_run(p0, e).1;
        assert(a1 == a0.push(ProducerAction::Sleep(n)));
        assert(a2 == a1.push(ProducerAction::Launch));
        assert(a2.drop_last() == a1);
        assert(a1.drop_last() == a0);
        assert(producer_run(p0, mid).0 == Producer { interval_secs: n, phase: ProducerPhase::Sleeping });
        assert(producer_run(p0, e).0 == Producer { interval_secs: n, phase: ProducerPhase::Running });
        assert(launches(a1) == launches(a0));
        assert(launches(a2) == launches(a1) + 1);
        assert(slept(a1) == slept(a0) + n);
        assert(slept(a2) == slept(a1));
        assert(k * (n as nat) == (k - 1) * (n as nat) + n) by (nonlinear_arith)
            requires
                k >= 1,
        ;
        assert forall|i: int| 0 <= i < a2.len() implies match #[trigger] a2[i] {
            ProducerAction::Sleep(d) => d == n,
            _ => true,
        } by {
            if i < a0.len() {
                assert(a2[i] == a0[i]);
            }
        }
    }
}

} // verus!
