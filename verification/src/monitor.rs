//! Automatic scheduling by load: a latency-aware scheduler runs while some CPU
//! has been busy for a while, and stops once none has been for longer.
use vstd::prelude::*;

use crate::sched::SupportedSched;

verus! {

/// How long some CPU must be busy before the scheduler starts, in
/// milliseconds.
pub const TRIGGER_MS: u64 = 5_000;

/// How long every CPU must be calm before the scheduler stops, in
/// milliseconds.
pub const COOL_DOWN_MS: u64 = 30_000;

/// The scheduler that runs under load.
pub fn load_sched() -> (sched: SupportedSched)
    ensures
        sched == SupportedSched::Lavd,
{
    SupportedSched::Lavd
}

/// What the monitor does after a look at the CPUs.
#[derive(Debug, Clone, Copy, PartialEq, Eq, Structural)]
pub enum MonitorAction {
    Nothing,
    Start,
    Stop,
}

/// The monitor's memory. Times are in milliseconds on a monotonic clock.
#[derive(Debug, Clone, Copy, PartialEq, Eq, Structural)]
pub struct CpuMonitor {
    /// When the current stretch of load began.
    pub above_since: Option<u64>,
    /// When the current stretch of calm began.
    pub below_since: Option<u64>,
    /// Whether the scheduler runs.
    pub running: bool,
}

/// Whether more than `span` has passed since `since`.
pub open spec fn longer_than(now: u64, since: u64, span: u64) -> bool {
    now - since > span
}

/// The time from which a stretch counts: where it began, or now.
pub open spec fn begun(since: Option<u64>, now: u64) -> u64 {
    match since {
        Some(t) => t,
        None => now,
    }
}

impl CpuMonitor {
    pub fn new() -> (monitor: Self)
        ensures
            monitor == (CpuMonitor { above_since: None, below_since: None, running: false }),
    {
        CpuMonitor { above_since: None, below_since: None, running: false }
    }

    /// The state after a look at the CPUs at `now`. A short stretch of load
    /// does not end a stretch of calm; only load for longer than the trigger
    /// does.
    pub open spec fn next(self, busy: bool, now: u64) -> CpuMonitor {
        if busy {
            let since = begun(self.above_since, now);
            if longer_than(now, since, TRIGGER_MS) {
                CpuMonitor { above_since: Some(since), below_since: None, running: true }
            } else {
                CpuMonitor { above_since: Some(since), ..self }
            }
        } else {
            let since = begun(self.below_since, now);
            CpuMonitor {
                above_since: None,
                below_since: Some(since),
                running: self.running && !longer_than(now, since, COOL_DOWN_MS),
            }
        }
    }

    /// Takes note of whether some CPU is busy, and decides what to do.
    pub fn observe(&mut self, busy: bool, now: u64) -> (action: MonitorAction)
        ensures
            *final(self) == old(self).next(busy, now),
            action == match (old(self).running, final(self).running) {
                (false, true) => MonitorAction::Start,
                (true, false) => MonitorAction::Stop,
                _ => MonitorAction::Nothing,
            },
    {
        if busy {
            let since = match self.above_since {
                Some(t) => t,
                None => now,
            };
            self.above_since = Some(since);
            if now > since && now - since > TRIGGER_MS {
                self.below_since = None;
                if !self.running {
                    self.running = true;
                    return MonitorAction::Start;
                }
            }
        } else {
            self.above_since = None;
            let since = match self.below_since {
                Some(t) => t,
                None => now,
            };
            self.below_since = Some(since);
            if now > since && now - since > COOL_DOWN_MS && self.running {
                self.running = false;
                return MonitorAction::Stop;
            }
        }
        MonitorAction::Nothing
    }
}

/// The monitor after a row of looks, each with whether some CPU was busy and the
/// time.
pub open spec fn after_looks(looks: Seq<(bool, u64)>) -> CpuMonitor
    decreases looks.len(),
{
    if looks.len() == 0 {
        CpuMonitor { above_since: None, below_since: None, running: false }
    } else {
        after_looks(looks.drop_last()).next(looks.last().0, looks.last().1)
    }
}

/// Whether every look from the `k`th on found some CPU busy.
pub open spec fn busy_from(looks: Seq<(bool, u64)>, k: int) -> bool {
    0 <= k < looks.len() && forall|j: int| k <= j < looks.len() ==> (#[trigger] looks[j]).0
}

proof fn lemma_stretches(looks: Seq<(bool, u64)>)
    ensures
        after_looks(looks).above_since matches Some(t) ==> exists|k: int| #[trigger]
            busy_from(looks, k) && looks[k].1 == t,
        after_looks(looks).below_since matches Some(t) ==> exists|k: int|
            0 <= k < looks.len() && #[trigger] looks[k] == (false, t),
    decreases looks.len(),
{
    if looks.len() > 0 {
        let front = looks.drop_last();
        let m = after_looks(front);
        lemma_stretches(front);
        let n = looks.len() - 1;
        if let Some(t) = after_looks(looks).above_since {
            if m.above_since is Some {
                let k = choose|k: int| #[trigger] busy_from(front, k) && front[k].1 == t;
                assert forall|j: int| k <= j < looks.len() implies (#[trigger] looks[j]).0 by {
                    if j < n {
                        assert(front[j] == looks[j]);
                    }
                }
                assert(busy_from(looks, k));
                assert(looks[k] == front[k]);
            } else {
                assert(busy_from(looks, n as int));
            }
        }
        if let Some(t) = after_looks(looks).below_since {
            if m.below_since is Some {
                let k = choose|k: int|
                    0 <= k < front.len() && #[trigger] front[k] == (false, t);
                assert(looks[k] == front[k]);
            } else {
                assert(looks[n as int] == (false, t));
            }
        }
    }
}

/// The scheduler starts only where every look has found some CPU busy for longer
/// than the trigger.
pub proof fn lemma_starts_under_load(looks: Seq<(bool, u64)>, busy: bool, now: u64) -> (k: int)
    requires
        !after_looks(looks).running,
        after_looks(looks).next(busy, now).running,
    ensures
        busy,
        busy_from(looks, k),
        longer_than(now, looks[k].1, TRIGGER_MS),
{
    lemma_stretches(looks);
    let t = after_looks(looks).above_since->0;
    choose|k: int| #[trigger] busy_from(looks, k) && looks[k].1 == t
}

/// The scheduler stops only at a look that finds every CPU calm, longer than the
/// cool down after another that did.
pub proof fn lemma_stops_after_calm(looks: Seq<(bool, u64)>, busy: bool, now: u64) -> (k: int)
    requires
        after_looks(looks).running,
        !after_looks(looks).next(busy, now).running,
    ensures
        !busy,
        0 <= k < looks.len(),
        !looks[k].0,
        longer_than(now, looks[k].1, COOL_DOWN_MS),
{
    lemma_stretches(looks);
    let t = after_looks(looks).below_since->0;
    choose|k: int| 0 <= k < looks.len() && #[trigger] looks[k] == (false, t)
}

/// Whether the times of the looks never go back, and `now` is not before them.
pub open spec fn in_order(looks: Seq<(bool, u64)>, now: u64) -> bool {
    &&& forall|i: int, j: int|
        0 <= i <= j < looks.len() ==> (#[trigger] looks[i]).1 <= (#[trigger] looks[j]).1
    &&& forall|i: int| 0 <= i < looks.len() ==> (#[trigger] looks[i]).1 <= now
}

/// Whether every look from the `i`th to the `j`th found some CPU busy.
pub open spec fn busy_run(looks: Seq<(bool, u64)>, i: int, j: int) -> bool {
    0 <= i <= j < looks.len() && forall|x: int| i <= x <= j ==> (#[trigger] looks[x]).0
}

/// Whether load has lasted for more than five seconds at some time after the `k`th
/// look: the looks found some CPU busy without a break for that long.
pub open spec fn load_after(looks: Seq<(bool, u64)>, k: int) -> bool {
    exists|i: int, j: int| k < i && #[trigger] busy_run(looks, i, j) && looks[j].1 - looks[i].1 > 5_000
}

/// Whether the calm that the `k`th look found has held since.
pub open spec fn calm_since(looks: Seq<(bool, u64)>, k: int) -> bool {
    0 <= k < looks.len() && !looks[k].0 && !load_after(looks, k)
}

/// Whether load has been on since the `k`th look and from no earlier one.
spec fn load_since(looks: Seq<(bool, u64)>, k: int) -> bool {
    busy_from(looks, k) && (k > 0 ==> !looks[k - 1].0)
}

/// Whether a stretch is known to have begun by `t`.
spec fn begun_by(since: Option<u64>, t: u64) -> bool {
    since matches Some(s) && s <= t
}

/// What the monitor remembers is where the present stretches of load and calm
/// began.
proof fn lemma_memory(looks: Seq<(bool, u64)>)
    requires
        in_order(looks, u64::MAX),
    ensures
        after_looks(looks).above_since is Some <==> looks.len() > 0 && looks.last().0,
        after_looks(looks).above_since matches Some(t) ==> exists|k: int| #[trigger]
            load_since(looks, k) && looks[k].1 == t,
        after_looks(looks).below_since matches Some(t) ==> exists|k: int| #[trigger]
            calm_since(looks, k) && looks[k].1 == t,
        forall|k: int| #[trigger]
            calm_since(looks, k) ==> begun_by(after_looks(looks).below_since, looks[k].1),
    decreases looks.len(),
{
    if looks.len() > 0 {
        let front = looks.drop_last();
        let n = looks.len() - 1;
        let (busy, now) = looks.last();
        let m = after_looks(front);
        assert forall|i: int, j: int| 0 <= i <= j < front.len() implies (#[trigger] front[i]).1 <= (
        #[trigger] front[j]).1 by {
            assert(looks[i].1 <= looks[j].1);
        }
        lemma_memory(front);
        assert forall|i: int, j: int| #[trigger] busy_run(front, i, j) implies busy_run(
            looks,
            i,
            j,
        ) by {
            assert forall|x: int| i <= x <= j implies (#[trigger] looks[x]).0 by {
                assert(front[x].0);
            }
        }
        assert forall|i: int, j: int| j < n && #[trigger] busy_run(looks, i, j) implies busy_run(
            front,
            i,
            j,
        ) by {
            assert forall|x: int| i <= x <= j implies (#[trigger] front[x]).0 by {
                assert(looks[x].0);
            }
        }
        if busy {
            let s = if m.above_since is Some {
                let s = choose|k: int| #[trigger]
                    load_since(front, k) && front[k].1 == m.above_since->0;
                assert forall|x: int| s <= x < looks.len() implies (#[trigger] looks[x]).0 by {
                    if x < n {
                        assert(front[x].0);
                    }
                }
                if s > 0 {
                    assert(front[s - 1] == looks[s - 1]);
                }
                s
            } else {
                if n > 0 {
                    assert(front.last() == looks[n - 1]);
                }
                n
            };
            assert(load_since(looks, s));
            assert(after_looks(looks).above_since == Some(looks[s].1));
            assert forall|i: int| #[trigger] busy_run(looks, i, n) implies s <= i by {
                if i < s {
                    assert(looks[s - 1].0);
                }
            }
            if now - looks[s].1 > 5_000 {
                assert forall|k: int| !#[trigger] calm_since(looks, k) by {
                    if 0 <= k < looks.len() && !looks[k].0 {
                        if k >= s {
                            assert(looks[k].0);
                        }
                        assert(busy_run(looks, s, n));
                        assert(load_after(looks, k));
                    }
                }
            } else {
                assert forall|k: int| #[trigger] calm_since(looks, k) <==> calm_since(front, k) by {
                    if 0 <= k < n {
                        assert(front[k] == looks[k]);
                        if load_after(looks, k) {
                            let (i, j) = choose|i: int, j: int|
                                k < i && #[trigger] busy_run(looks, i, j) && looks[j].1 - looks[i].1
                                    > 5_000;
                            if j == n {
                                assert(looks[s].1 <= looks[i].1);
                            }
                            assert(busy_run(front, i, j));
                            assert(load_after(front, k));
                        }
                        if load_after(front, k) {
                            let (i, j) = choose|i: int, j: int|
                                k < i && #[trigger] busy_run(front, i, j) && front[j].1 - front[i].1
                                    > 5_000;
                            assert(busy_run(looks, i, j));
                            assert(load_after(looks, k));
                        }
                    }
                }
                if let Some(t) = m.below_since {
                    let k = choose|k: int| #[trigger] calm_since(front, k) && front[k].1 == t;
                    assert(calm_since(looks, k) && looks[k].1 == t);
                }
                assert forall|k: int| #[trigger] calm_since(looks, k) implies begun_by(
                    after_looks(looks).below_since,
                    looks[k].1,
                ) by {
                    assert(calm_since(front, k));
                }
            }
        } else {
            assert forall|i: int, j: int| #[trigger] busy_run(looks, i, j) implies j < n by {
                if j == n {
                    assert(looks[n as int].0);
                }
            }
            assert forall|k: int| 0 <= k < n implies (#[trigger] calm_since(looks, k)
                <==> calm_since(front, k)) by {
                assert(front[k] == looks[k]);
                if load_after(looks, k) {
                    let (i, j) = choose|i: int, j: int|
                        k < i && #[trigger] busy_run(looks, i, j) && looks[j].1 - looks[i].1
                            > 5_000;
                    assert(busy_run(front, i, j));
                }
                if load_after(front, k) {
                    let (i, j) = choose|i: int, j: int|
                        k < i && #[trigger] busy_run(front, i, j) && front[j].1 - front[i].1
                            > 5_000;
                    assert(busy_run(looks, i, j));
                }
            }
            assert(!load_after(looks, n as int));
            assert(calm_since(looks, n as int));
            if let Some(t) = m.below_since {
                let k = choose|k: int| #[trigger] calm_since(front, k) && front[k].1 == t;
                assert(calm_since(looks, k) && looks[k].1 == t);
                assert(looks[k].1 <= looks[n as int].1);
            }
            assert forall|k: int| #[trigger] calm_since(looks, k) implies begun_by(
                after_looks(looks).below_since,
                looks[k].1,
            ) by {
                if k < n {
                    assert(calm_since(front, k));
                }
            }
        }
    }
}

proof fn lemma_order_kept(looks: Seq<(bool, u64)>, busy: bool, now: u64)
    requires
        in_order(looks, now),
    ensures
        in_order(looks, u64::MAX),
        in_order(looks.push((busy, now)), u64::MAX),
        after_looks(looks.push((busy, now))) == after_looks(looks).next(busy, now),
{
    assert(looks.push((busy, now)).drop_last() =~= looks);
}

/// A running scheduler stops at a look exactly where that look finds every CPU
/// calm, another did more than thirty seconds before, and in between no load lasted
/// for more than five seconds.
pub proof fn lemma_stops_exactly(looks: Seq<(bool, u64)>, busy: bool, now: u64)
    requires
        in_order(looks, now),
        after_looks(looks).running,
    ensures
        !after_looks(looks.push((busy, now))).running <==> !busy && exists|k: int| #[trigger]
            calm_since(looks, k) && now - looks[k].1 > 30_000,
{
    lemma_order_kept(looks, busy, now);
    lemma_memory(looks);
    if let Some(t) = after_looks(looks).below_since {
        let k = choose|k: int| #[trigger] calm_since(looks, k) && looks[k].1 == t;
        if now - t > 30_000 {
            assert(calm_since(looks, k) && now - looks[k].1 > 30_000);
        }
    }
}

/// A scheduler that does not run starts at a look exactly where that look finds
/// some CPU busy, and all looks have for more than five seconds.
pub proof fn lemma_starts_exactly(looks: Seq<(bool, u64)>, busy: bool, now: u64)
    requires
        in_order(looks, now),
        !after_looks(looks).running,
    ensures
        after_looks(looks.push((busy, now))).running <==> busy && exists|k: int| #[trigger]
            busy_from(looks, k) && now - looks[k].1 > 5_000,
{
    lemma_order_kept(looks, busy, now);
    lemma_memory(looks);
    if let Some(t) = after_looks(looks).above_since {
        let s = choose|k: int| #[trigger] load_since(looks, k) && looks[k].1 == t;
        assert forall|k: int| #[trigger] busy_from(looks, k) implies looks[s].1 <= looks[k].1 by {
            if k < s {
                assert(looks[s - 1].0);
            }
        }
        if now - t > 5_000 {
            assert(busy_from(looks, s) && now - looks[s].1 > 5_000);
        }
    } else {
        assert forall|k: int| !#[trigger] busy_from(looks, k) by {
            if busy_from(looks, k) {
                assert(looks[looks.len() - 1].0);
            }
        }
    }
}

} // verus!
