//! What the display owes to the requests that were made.
use vstd::prelude::*;

use crate::app::App;
use crate::backend::{ModeArgs, RuntimeStatus, SchedulerBackend, Status};
use crate::driver::Call;
use crate::refresh::{
    bell_rung, instance_checked, instance_of, list_refreshed, list_taken, looked, modes_refreshed,
    push_applied, push_taken, status_read, status_refreshed, token_read, unmoved, DaemonInstance,
    RefreshOutcome,
};

verus! {

/// The status on display after `calls`: the last fetched answer, and nothing
/// where the last fetch failed.
pub open spec fn shown(before: Option<Status>, calls: Seq<Call>) -> Option<Status>
    decreases calls.len(),
{
    if calls.len() == 0 {
        before
    } else {
        match calls.last() {
            Call::Status(answer) => answer.ok(),
            _ => shown(before, calls.drop_last()),
        }
    }
}

/// The number of status fetches among `calls`.
pub open spec fn fetches(calls: Seq<Call>) -> nat
    decreases calls.len(),
{
    if calls.len() == 0 {
        0
    } else {
        fetches(calls.drop_last()) + if calls.last() is Status {
            1nat
        } else {
            0
        }
    }
}

/// Whether a request tells the backend to change what runs.
pub open spec fn is_order(call: Call) -> bool {
    match call {
        Call::Start(_, _, _) => true,
        Call::Switch(_, _, _) => true,
        Call::StartWithArgs(_, _, _) => true,
        Call::SwitchWithArgs(_, _, _) => true,
        Call::Stop(_) => true,
        Call::Restart(_) => true,
        Call::RestoreDefault(_) => true,
        _ => false,
    }
}

/// The number of orders among `calls`.
pub open spec fn orders(calls: Seq<Call>) -> nat
    decreases calls.len(),
{
    if calls.len() == 0 {
        0
    } else {
        orders(calls.drop_last()) + if is_order(calls.last()) {
            1nat
        } else {
            0
        }
    }
}

proof fn lemma_concat(before: Option<Status>, x: Seq<Call>, y: Seq<Call>)
    ensures
        shown(before, x + y) == shown(shown(before, x), y),
        fetches(x + y) == fetches(x) + fetches(y),
        orders(x + y) == orders(x) + orders(y),
    decreases y.len(),
{
    if y.len() == 0 {
        assert(x + y =~= x);
    } else {
        assert((x + y).drop_last() =~= x + y.drop_last());
        lemma_concat(before, x, y.drop_last());
    }
}

/// Fetches and orders of two rows of requests add up.
pub proof fn lemma_counts(x: Seq<Call>, y: Seq<Call>)
    ensures
        fetches(x + y) == fetches(x) + fetches(y),
        orders(x + y) == orders(x) + orders(y),
{
    lemma_concat(None, x, y);
}

/// Whether the display of `b` is what the requests since `a` brought, so many
/// status fetches and orders among them.
pub open spec fn accounted<B: SchedulerBackend>(
    a: App<B>,
    b: App<B>,
    fetched: nat,
    ordered: nat,
) -> bool {
    &&& a.continued_by(b)
    &&& b.status == shown(a.status, a.calls_until(b))
    &&& fetches(a.calls_until(b)) == fetched
    &&& orders(a.calls_until(b)) == ordered
}

/// Nothing asked, nothing shown.
pub proof fn lemma_idle<B: SchedulerBackend>(a: App<B>, b: App<B>)
    requires
        b.backend == a.backend,
        b.status == a.status,
    ensures
        accounted(a, b, 0, 0),
        a.calls_until(b) == Seq::<Call>::empty(),
{
    assert(b.log().take(a.log().len() as int) =~= a.log());
    assert(a.calls_until(b) =~= Seq::empty());
}

/// One request.
pub proof fn lemma_one_call<B: SchedulerBackend>(a: App<B>, call: Call, b: App<B>)
    requires
        a.backend.asked(call, b.backend),
        b.status == match call {
            Call::Status(answer) => answer.ok(),
            _ => a.status,
        },
    ensures
        accounted(
            a,
            b,
            if call is Status {
                1
            } else {
                0
            },
            if is_order(call) {
                1
            } else {
                0
            },
        ),
        a.calls_until(b) == seq![call],
{
    assert(b.log().take(a.log().len() as int) =~= a.log());
    assert(a.calls_until(b) =~= seq![call]);
    assert(seq![call].drop_last() =~= Seq::empty());
    reveal_with_fuel(shown, 2);
    reveal_with_fuel(fetches, 2);
    reveal_with_fuel(orders, 2);
}

/// One thing after another.
pub proof fn lemma_then<B: SchedulerBackend>(a: App<B>, m: App<B>, b: App<B>)
    requires
        a.continued_by(m),
        m.status == shown(a.status, a.calls_until(m)),
        m.continued_by(b),
        b.status == shown(m.status, m.calls_until(b)),
    ensures
        accounted(
            a,
            b,
            fetches(a.calls_until(m)) + fetches(m.calls_until(b)),
            orders(a.calls_until(m)) + orders(m.calls_until(b)),
        ),
        a.calls_until(b) == a.calls_until(m) + m.calls_until(b),
{
    let k = a.log().len() as int;
    let l = m.log().len() as int;
    assert(b.log().take(k) =~= b.log().take(l).take(k));
    assert(a.calls_until(b) =~= a.calls_until(m) + m.calls_until(b)) by {
        assert forall|i: int| k <= i < l implies b.log()[i] == #[trigger] m.log()[i] by {
            assert(b.log().take(l)[i] == b.log()[i]);
        }
    }
    lemma_concat(a.status, a.calls_until(m), m.calls_until(b));
}

/// Filling in modes fetches no status.
pub proof fn lemma_modes_show_nothing<B: SchedulerBackend>(a: App<B>, b: App<B>)
    requires
        modes_refreshed(a, b),
    ensures
        accounted(a, b, 0, 0),
{
    let calls = a.calls_until(b);
    assert(calls.drop_last().len() <= 1);
    assert(calls.drop_last().drop_last().len() == 0 || calls.len() == 1);
    reveal_with_fuel(shown, 3);
    reveal_with_fuel(fetches, 3);
    reveal_with_fuel(orders, 3);
}

/// The instance check fetches no status.
pub proof fn lemma_check_shows_nothing<B: SchedulerBackend>(
    a: App<B>,
    b: App<B>,
    outcome: DaemonInstance,
)
    requires
        instance_checked(a, b, outcome),
    ensures
        accounted(a, b, 0, 0),
{
    let (token, n) = choose|token: Option<String>, n: App<B>|
        {
            &&& #[trigger] token_read(a, token, n)
            &&& outcome == instance_of(a.daemon_instance, token)
            &&& if outcome == DaemonInstance::Replaced {
                modes_refreshed(n, b)
            } else {
                b == n
            }
        };
    lemma_one_call(a, Call::Token(token), n);
    if outcome == DaemonInstance::Replaced {
        lemma_modes_show_nothing(n, b);
        lemma_then(a, n, b);
    }
}

/// A refresh makes one fetch, and its answer is what is shown.
pub proof fn lemma_refresh_shows_fetched<B: SchedulerBackend>(
    a: App<B>,
    b: App<B>,
    outcome: RefreshOutcome,
)
    requires
        status_refreshed(a, b, outcome),
    ensures
        accounted(a, b, 1, 0),
        b.status is Some <==> outcome.status_ok,
{
    let (answer, n) = choose|answer: Result<Status, String>, n: App<B>|
        {
            &&& #[trigger] status_read(a, answer, n)
            &&& outcome.status_ok == (answer is Ok)
            &&& instance_checked(n, b, outcome.instance)
        };
    lemma_one_call(a, Call::Status(answer), n);
    lemma_check_shows_nothing(n, b, outcome.instance);
    lemma_then(a, n, b);
    lemma_check_frame(n, b, outcome.instance);
}

/// The instance check touches the caches and the trust in the push channel, and
/// nothing else.
pub proof fn lemma_check_frame<B: SchedulerBackend>(a: App<B>, b: App<B>, outcome: DaemonInstance)
    requires
        instance_checked(a, b, outcome),
    ensures
        b == (App {
            backend: b.backend,
            mode_args: b.mode_args,
            daemon_instance: b.daemon_instance,
            pushed: b.pushed,
            push_confirmed: b.push_confirmed,
            ..a
        }),
{
}

/// A refresh touches the status, the caches and the trust in the push channel,
/// and nothing else: not the user's selection, not the message bar.
pub proof fn lemma_refresh_frame<B: SchedulerBackend>(a: App<B>, b: App<B>, outcome: RefreshOutcome)
    requires
        status_refreshed(a, b, outcome),
    ensures
        b == (App {
            backend: b.backend,
            status: b.status,
            mode_args: b.mode_args,
            daemon_instance: b.daemon_instance,
            pushed: b.pushed,
            push_confirmed: b.push_confirmed,
            ..a
        }),
{
    let (answer, n) = choose|answer: Result<Status, String>, n: App<B>|
        {
            &&& #[trigger] status_read(a, answer, n)
            &&& outcome.status_ok == (answer is Ok)
            &&& instance_checked(n, b, outcome.instance)
        };
    lemma_check_frame(n, b, outcome.instance);
}

/// The pushed payload never reaches the display: whatever the push channel said,
/// the display is what was fetched.
pub proof fn lemma_push_is_no_payload<B: SchedulerBackend>(a: App<B>, b: App<B>)
    requires
        push_applied(a, b),
    ensures
        accounted(a, b, fetches(a.calls_until(b)), 0),
        fetches(a.calls_until(b)) <= 1,
{
    let (answer, n) = choose|answer: Result<Option<RuntimeStatus>, String>, n: App<B>|
        {
            &&& #[trigger] looked(a, Call::Cached(answer), n)
            &&& push_taken(n, answer, b)
        };
    lemma_one_call(a, Call::Cached(answer), n);
    match answer {
        Ok(Some(now)) if n.pushed is Some && !unmoved(n.pushed, now) => {
            lemma_ring(n, now, b);
            lemma_then(a, n, b);
        },
        _ => {
            lemma_idle(n, b);
            lemma_then(a, n, b);
        },
    }
}

/// A moved snapshot leads to one recorded fetch and becomes the new baseline, whether
/// or not the fetch worked. It is trusted only if the fetch worked and the owner is
/// the one seen before.
pub proof fn lemma_ring<B: SchedulerBackend>(a: App<B>, now: RuntimeStatus, b: App<B>)
    requires
        bell_rung(a, now, b),
    ensures
        accounted(a, b, 1, 0),
        b.pushed == Some(now),
        b.push_confirmed ==> {
            &&& b.status is Some
            &&& b.daemon_instance is Some
            &&& a.daemon_instance matches Some(seen) ==> b.daemon_instance->0@ == seen@
        },
{
    let (m, outcome) = choose|m: App<B>, outcome: RefreshOutcome|
        {
            &&& #[trigger] status_refreshed(a, m, outcome)
            &&& b == (App {
                pushed: Some(now),
                push_confirmed: outcome.status_ok && outcome.instance == DaemonInstance::Same,
                ..m
            })
        };
    lemma_refresh_shows_fetched(a, m, outcome);
    lemma_idle(m, b);
    lemma_then(a, m, b);
    let (answer, n) = choose|answer: Result<Status, String>, n: App<B>|
        {
            &&& #[trigger] status_read(a, answer, n)
            &&& outcome.status_ok == (answer is Ok)
            &&& instance_checked(n, m, outcome.instance)
        };
    if outcome.instance == DaemonInstance::Same {
        lemma_same_owner(n, m);
    }
}

/// Under the same owner, the token is known and is the one seen before.
pub proof fn lemma_same_owner<B: SchedulerBackend>(a: App<B>, b: App<B>)
    requires
        instance_checked(a, b, DaemonInstance::Same),
    ensures
        b.daemon_instance is Some,
        a.daemon_instance matches Some(seen) ==> b.daemon_instance->0@ == seen@,
        b.mode_args == a.mode_args,
        b.pushed == a.pushed,
        b.push_confirmed == a.push_confirmed,
{
}

/// The first snapshot is a baseline and nothing else.
pub proof fn lemma_first_push_is_baseline<B: SchedulerBackend>(a: App<B>, b: App<B>)
    requires
        push_applied(a, b),
        a.pushed is None,
    ensures
        b == (App { backend: b.backend, pushed: b.pushed, ..a }),
        a.calls_until(b).len() == 1,
        a.calls_until(b)[0] matches Call::Cached(Ok(Some(now))) ==> b.pushed == Some(now),
{
    let (answer, n) = choose|answer: Result<Option<RuntimeStatus>, String>, n: App<B>|
        {
            &&& #[trigger] looked(a, Call::Cached(answer), n)
            &&& push_taken(n, answer, b)
        };
    lemma_one_call(a, Call::Cached(answer), n);
    lemma_idle(n, b);
    lemma_then(a, n, b);
    assert(a.calls_until(b) =~= seq![Call::Cached(answer)]);
}

/// A snapshot that reports what the last one did changes nothing and asks for
/// nothing.
pub proof fn lemma_unmoved_is_inert<B: SchedulerBackend>(a: App<B>, now: RuntimeStatus, b: App<B>)
    requires
        push_applied(a, b),
        a.calls_until(b).len() >= 1,
        a.calls_until(b)[0] == Call::Cached(Ok(Some(now))),
        unmoved(a.pushed, now),
    ensures
        b == (App { backend: b.backend, ..a }),
        a.calls_until(b).len() == 1,
{
    let (answer, n) = choose|answer: Result<Option<RuntimeStatus>, String>, n: App<B>|
        {
            &&& #[trigger] looked(a, Call::Cached(answer), n)
            &&& push_taken(n, answer, b)
        };
    lemma_push_first_call(a, answer, n, b);
    lemma_one_call(a, Call::Cached(answer), n);
    lemma_idle(n, b);
    lemma_then(a, n, b);
    assert(a.calls_until(b) =~= seq![Call::Cached(answer)]);
}

/// A snapshot that differs from the last one rings: one fetch, a new baseline, and
/// trust only for a good fetch under the same owner.
pub proof fn lemma_moved_rings<B: SchedulerBackend>(a: App<B>, now: RuntimeStatus, b: App<B>)
    requires
        push_applied(a, b),
        a.calls_until(b).len() >= 1,
        a.calls_until(b)[0] == Call::Cached(Ok(Some(now))),
        a.pushed is Some,
        !unmoved(a.pushed, now),
    ensures
        accounted(a, b, 1, 0),
        b.pushed == Some(now),
        b.push_confirmed ==> {
            &&& b.status is Some
            &&& b.daemon_instance is Some
            &&& a.daemon_instance matches Some(seen) ==> b.daemon_instance->0@ == seen@
        },
{
    let (answer, n) = choose|answer: Result<Option<RuntimeStatus>, String>, n: App<B>|
        {
            &&& #[trigger] looked(a, Call::Cached(answer), n)
            &&& push_taken(n, answer, b)
        };
    lemma_push_first_call(a, answer, n, b);
    lemma_one_call(a, Call::Cached(answer), n);
    lemma_ring(n, now, b);
    lemma_then(a, n, b);
}

/// A push channel that fails loses its baseline and its trust, and asks for nothing.
pub proof fn lemma_broken_push<B: SchedulerBackend>(a: App<B>, why: String, b: App<B>)
    requires
        a.wf(),
        push_applied(a, b),
        a.calls_until(b).len() >= 1,
        a.calls_until(b)[0] == Call::Cached(Err(why)),
    ensures
        b == (App { backend: b.backend, pushed: None, push_confirmed: false, ..a }),
        a.calls_until(b).len() == 1,
{
    let (answer, n) = choose|answer: Result<Option<RuntimeStatus>, String>, n: App<B>|
        {
            &&& #[trigger] looked(a, Call::Cached(answer), n)
            &&& push_taken(n, answer, b)
        };
    lemma_push_first_call(a, answer, n, b);
    lemma_one_call(a, Call::Cached(answer), n);
    lemma_idle(n, b);
    lemma_then(a, n, b);
    assert(a.calls_until(b) =~= seq![Call::Cached(answer)]);
}

proof fn lemma_push_first_call<B: SchedulerBackend>(
    a: App<B>,
    answer: Result<Option<RuntimeStatus>, String>,
    n: App<B>,
    b: App<B>,
)
    requires
        looked(a, Call::Cached(answer), n),
        push_taken(n, answer, b),
    ensures
        a.calls_until(b).len() >= 1,
        a.calls_until(b)[0] == Call::Cached(answer),
{
    lemma_one_call(a, Call::Cached(answer), n);
    match answer {
        Ok(Some(now)) if n.pushed is Some && !unmoved(n.pushed, now) => {
            lemma_ring(n, now, b);
            lemma_then(a, n, b);
        },
        _ => {
            lemma_idle(n, b);
            lemma_then(a, n, b);
        },
    }
}

/// A replaced daemon has to earn everything anew: no snapshot, no trust, and no
/// answer about modes but a fresh one for the selected scheduler.
pub proof fn lemma_replaced_daemon<B: SchedulerBackend>(a: App<B>, b: App<B>)
    requires
        instance_checked(a, b, DaemonInstance::Replaced),
    ensures
        b.pushed is None,
        !b.push_confirmed,
        forall|name: Seq<char>| #[trigger]
            b.mode_args@.contains_key(name) ==> a.chosen() == Some(name),
{
    let (token, n) = choose|token: Option<String>, n: App<B>|
        {
            &&& #[trigger] token_read(a, token, n)
            &&& DaemonInstance::Replaced == instance_of(a.daemon_instance, token)
            &&& modes_refreshed(n, b)
        };
    assert(n.mode_args@ == Map::<Seq<char>, ModeArgs>::empty());
    assert(n.chosen() == a.chosen());
}

/// An unknown owner drops the snapshot and the trust, and keeps the answers about
/// modes and the token.
pub proof fn lemma_outage<B: SchedulerBackend>(a: App<B>, b: App<B>)
    requires
        instance_checked(a, b, DaemonInstance::Unknown),
    ensures
        b.pushed is None,
        !b.push_confirmed,
        b.mode_args == a.mode_args,
        b.daemon_instance == a.daemon_instance,
{
}

/// An answer about modes serves every later look at the same scheduler: nothing
/// is asked again.
pub proof fn lemma_cache_serves<B: SchedulerBackend>(a: App<B>, b: App<B>)
    requires
        a.known_modes() is Some,
        modes_refreshed(a, b),
    ensures
        b.mode_args@ == a.mode_args@,
        forall|i: int|
            0 <= i < a.calls_until(b).len() ==> (#[trigger] a.calls_until(b)[i]) is Capabilities,
{
}

/// A failed query is asked again at the next look, as long as the backend has
/// modes.
pub proof fn lemma_failure_retried<B: SchedulerBackend>(a: App<B>, b: App<B>, c: App<B>)
    requires
        modes_refreshed(a, b),
        modes_refreshed(b, c),
        a.chosen() is Some,
        b.known_modes() is None,
        b.calls_until(c)[0] matches Call::Capabilities(caps) && caps.modes,
    ensures
        b.mode_args@ == a.mode_args@,
        b.calls_until(c).len() == 2,
        b.calls_until(c)[1] matches Call::ModeArgs(name, _) && a.chosen() == Some(name),
{
    assert(b.chosen() == a.chosen());
    let name = a.chosen()->0;
    assert(!b.mode_args@.contains_key(name));
}

/// While the answer about a scheduler's modes is unknown, every mode counts as
/// configured.
pub proof fn lemma_unknown_fails_open<B: SchedulerBackend>(a: App<B>)
    requires
        a.known_modes() is None,
    ensures
        a.mode_configured(),
{
}

/// A refresh of the list keeps the selection on the same scheduler where the list
/// still has it, and a failed one keeps list and selection.
pub proof fn lemma_selection_survives<B: SchedulerBackend>(
    a: App<B>,
    now: u64,
    b: App<B>,
    ok: bool,
)
    requires
        a.wf(),
        list_refreshed(a, now, b, ok),
        a.chosen() is Some,
        crate::text::views(b.schedulers@).contains(a.chosen()->0),
    ensures
        b.chosen() == a.chosen(),
{
    let (answer, n) = choose|answer: Result<Vec<String>, String>, n: App<B>|
        {
            &&& #[trigger] looked(a, Call::Schedulers(answer), n)
            &&& ok == (answer is Ok)
            &&& list_taken(n, answer, now, b)
        };
    if answer is Ok {
        let all = crate::text::views(b.schedulers@);
        all.index_of_first_ensures(a.chosen()->0);
        let i = all.index_of_first(a.chosen()->0)->0;
        assert(all[i] == b.schedulers@[i]@);
        assert(i < b.schedulers.len());
    }
}

} // verus!
