//! What the application does to the schedulers, and what it leaves alone.
use vstd::prelude::*;

use crate::actions::{
    acted, args_acted, moved_to, performed, plain_acted, plain_done, primed, reported,
    restart_acted, restart_answered, restarted, start_acted, started, started_with_args,
    toggle_refused, toggle_tried, toggled, ActionRest, PlainAction,
};
use crate::app::{action_due, cycled, lemma_cycle_inverse, message_due, App, Message, PendingAction};
use crate::backend::{other_kind, Capabilities, SchedulerBackend, Status};
use crate::driver::Call;
use crate::event_loop::{action_taken, drawn, ticked, LoopStep};
use crate::history::{
    accounted, fetches, is_order, lemma_idle, lemma_modes_show_nothing, lemma_one_call,
    lemma_push_is_no_payload, lemma_refresh_frame, lemma_refresh_shows_fetched, lemma_then, orders,
    shown,
};
use crate::input::{KeyCode, KeyEvent};
use crate::keys::{
    all_refreshed, command_of, keyed, modes_forgotten, queued, refresh_noted, selected, Command,
    KeyEffect,
};
use crate::refresh::{
    list_refreshed, list_taken, looked, modes_refreshed, push_applied, push_taken, status_refreshed,
    unmoved, RefreshOutcome,
};
use crate::sched::MODES;
use crate::screen;
use crate::text;

verus! {

/// An order and a refresh: one fetch, one order.
pub proof fn lemma_acted<B: SchedulerBackend>(
    a: App<B>,
    call: Call,
    text: Seq<char>,
    is_error: bool,
    now: u64,
    b: App<B>,
)
    requires
        is_order(call),
        acted(a, call, text, is_error, now, b),
    ensures
        accounted(a, b, 1, 1),
        a.calls_until(b).len() >= 1,
        a.calls_until(b)[0] == call,
{
    let (p, outcome) = choose|p: App<B>, outcome: RefreshOutcome|
        reported(a, call, text, is_error, now, p) && #[trigger] status_refreshed(p, b, outcome);
    lemma_one_call(a, call, p);
    lemma_refresh_shows_fetched(p, b, outcome);
    lemma_then(a, p, b);
}

/// A plain action is one order.
pub proof fn lemma_plain_action<B: SchedulerBackend>(
    a: App<B>,
    action: PlainAction,
    now: u64,
    b: App<B>,
)
    requires
        plain_done(a, action, now, b),
    ensures
        accounted(a, b, 1, 1),
{
    let answer = choose|answer: Result<(), String>| plain_acted(a, action, answer, now, b);
    lemma_acted(
        a,
        crate::actions::plain_call(action, answer),
        match answer {
            Ok(_) => crate::actions::plain_text(action),
            Err(why) => why@,
        },
        answer is Err,
        now,
        b,
    );
}

/// Whether a status names a running scheduler.
pub open spec fn runs(status: Option<Status>) -> bool {
    status matches Some(s) && s.current is Some
}

/// Starting the selection is one order. It is a switch exactly where the status
/// fetched right before it names a running scheduler, and a start otherwise.
pub proof fn lemma_started<B: SchedulerBackend>(a: App<B>, now: u64, b: App<B>) -> (k: int)
    requires
        started(a, now, b),
        a.chosen() is Some,
    ensures
        accounted(a, b, 2, 1),
        0 <= k < a.calls_until(b).len(),
        fetches(a.calls_until(b).take(k)) == 1,
        match a.calls_until(b)[k] {
            Call::Switch(sched, mode, _) => {
                &&& runs(shown(a.status, a.calls_until(b).take(k)))
                &&& a.chosen() == Some(sched)
                &&& mode == a.chosen_mode()
            },
            Call::Start(sched, mode, _) => {
                &&& !runs(shown(a.status, a.calls_until(b).take(k)))
                &&& a.chosen() == Some(sched)
                &&& mode == a.chosen_mode()
            },
            _ => false,
        },
{
    let sched = a.chosen()->0;
    let mode = a.chosen_mode();
    let (m, outcome, answer) = choose|
        m: App<B>,
        outcome: RefreshOutcome,
        answer: Result<(), String>,
    | #[trigger]
        status_refreshed(a, m, outcome) && #[trigger] start_acted(m, sched, mode, answer, now, b);
    lemma_refresh_shows_fetched(a, m, outcome);
    let call = if m.running() is Some {
        Call::Switch(sched, mode, answer)
    } else {
        Call::Start(sched, mode, answer)
    };
    lemma_acted(
        m,
        call,
        match answer {
            Ok(_) => crate::notices::started_text(m.running(), sched, mode, m.mode_configured()),
            Err(why) => crate::notices::start_failed_text(m.running() is Some, sched, why@),
        },
        answer is Err,
        now,
        b,
    );
    lemma_then(a, m, b);
    let k = a.calls_until(m).len() as int;
    assert(a.calls_until(b).take(k) =~= a.calls_until(m));
    assert(a.calls_until(b)[k] == m.calls_until(b)[0]);
    k
}

/// Starting the selection with arguments is one order, a switch exactly where the
/// status fetched right before it names a running scheduler.
pub proof fn lemma_started_with_args<B: SchedulerBackend>(
    a: App<B>,
    words: Seq<Seq<char>>,
    now: u64,
    b: App<B>,
) -> (k: int)
    requires
        started_with_args(a, words, now, b),
        a.chosen() is Some,
    ensures
        accounted(a, b, 2, 1),
        0 <= k < a.calls_until(b).len(),
        fetches(a.calls_until(b).take(k)) == 1,
        match a.calls_until(b)[k] {
            Call::SwitchWithArgs(sched, list, _) => {
                &&& runs(shown(a.status, a.calls_until(b).take(k)))
                &&& a.chosen() == Some(sched)
                &&& list == words
            },
            Call::StartWithArgs(sched, list, _) => {
                &&& !runs(shown(a.status, a.calls_until(b).take(k)))
                &&& a.chosen() == Some(sched)
                &&& list == words
            },
            _ => false,
        },
{
    let sched = a.chosen()->0;
    let (m, outcome, answer) = choose|
        m: App<B>,
        outcome: RefreshOutcome,
        answer: Result<(), String>,
    | #[trigger]
        status_refreshed(a, m, outcome) && #[trigger] args_acted(m, sched, words, answer, now, b);
    lemma_refresh_shows_fetched(a, m, outcome);
    let call = if m.running() is Some {
        Call::SwitchWithArgs(sched, words, answer)
    } else {
        Call::StartWithArgs(sched, words, answer)
    };
    let rendered = crate::args::shell_join(words);
    lemma_acted(
        m,
        call,
        match answer {
            Ok(_) => crate::notices::args_started_text(m.running(), sched, rendered),
            Err(why) => crate::notices::args_failed_text(
                m.running() is Some,
                sched,
                rendered,
                why@,
            ),
        },
        answer is Err,
        now,
        b,
    );
    lemma_then(a, m, b);
    let k = a.calls_until(m).len() as int;
    assert(a.calls_until(b).take(k) =~= a.calls_until(m));
    assert(a.calls_until(b)[k] == m.calls_until(b)[0]);
    k
}

/// A restart is one order.
pub proof fn lemma_restarted<B: SchedulerBackend>(a: App<B>, now: u64, b: App<B>)
    requires
        restarted(a, now, b),
    ensures
        accounted(a, b, 2, 1),
{
    let (m, outcome) = choose|m: App<B>, outcome: RefreshOutcome| #[trigger]
        status_refreshed(a, m, outcome) && restart_acted(m, now, b);
    lemma_refresh_shows_fetched(a, m, outcome);
    let (caps, n, answer) = choose|caps: Capabilities, n: App<B>, answer: Result<(), String>|
        {
            &&& #[trigger] looked(m, Call::Capabilities(caps), n)
            &&& #[trigger] restart_answered(n, caps, answer, now, b)
        };
    lemma_one_call(m, Call::Capabilities(caps), n);
    if caps.modes && crate::actions::restart_changes_mode(n) {
        let sched = n.running()->0;
        lemma_acted(
            n,
            Call::Switch(sched, n.chosen_mode(), answer),
            match answer {
                Ok(_) => crate::notices::restarted_text(sched, n.chosen_mode()),
                Err(why) => crate::notices::restart_failed_text(sched, why@),
            },
            answer is Err,
            now,
            b,
        );
    } else {
        assert(plain_done(n, PlainAction::Restart, now, b));
        lemma_plain_action(n, PlainAction::Restart, now, b);
    }
    lemma_then(m, n, b);
    lemma_then(a, m, b);
}

/// Whether a status says that the selected scheduler runs, without custom arguments
/// and in another mode than the selected one.
pub open spec fn mode_differs<B: SchedulerBackend>(a: App<B>, status: Option<Status>) -> bool {
    &&& status matches Some(s)
    &&& s.current matches Some(name)
    &&& a.selected < a.schedulers@.len()
    &&& name@ == a.schedulers@[a.selected as int]@
    &&& s.args@.len() == 0
    &&& s.mode != MODES@[a.mode_idx as int]
}

/// A restart reads the status and the backend's capabilities, and then gives one
/// order. Where the backend has modes, and the status that was just read says that
/// the selected scheduler runs without custom arguments in another mode than the
/// selected one, the order is a switch of that scheduler to that mode; otherwise it
/// is a restart.
pub proof fn lemma_restart_order<B: SchedulerBackend>(a: App<B>, now: u64, b: App<B>) -> (k: int)
    requires
        restarted(a, now, b),
    ensures
        accounted(a, b, 2, 1),
        0 < k < a.calls_until(b).len(),
        fetches(a.calls_until(b).take(k)) == 1,
        orders(a.calls_until(b).take(k)) == 0,
        a.calls_until(b)[k - 1] matches Call::Capabilities(caps) && match a.calls_until(b)[k] {
            Call::Switch(sched, mode, _) => {
                &&& caps.modes
                &&& mode_differs(a, shown(a.status, a.calls_until(b).take(k)))
                &&& sched == a.schedulers@[a.selected as int]@
                &&& mode == MODES@[a.mode_idx as int]
            },
            Call::Restart(_) => !(caps.modes && mode_differs(
                a,
                shown(a.status, a.calls_until(b).take(k)),
            )),
            _ => false,
        },
{
    lemma_restarted(a, now, b);
    let (m, outcome) = choose|m: App<B>, outcome: RefreshOutcome| #[trigger]
        status_refreshed(a, m, outcome) && restart_acted(m, now, b);
    lemma_refresh_shows_fetched(a, m, outcome);
    lemma_refresh_frame(a, m, outcome);
    let (caps, n, answer) = choose|caps: Capabilities, n: App<B>, answer: Result<(), String>|
        {
            &&& #[trigger] looked(m, Call::Capabilities(caps), n)
            &&& #[trigger] restart_answered(n, caps, answer, now, b)
        };
    lemma_one_call(m, Call::Capabilities(caps), n);
    lemma_then(a, m, n);
    if caps.modes && crate::actions::restart_changes_mode(n) {
        let sched = n.running()->0;
        lemma_acted(
            n,
            Call::Switch(sched, n.chosen_mode(), answer),
            match answer {
                Ok(_) => crate::notices::restarted_text(sched, n.chosen_mode()),
                Err(why) => crate::notices::restart_failed_text(sched, why@),
            },
            answer is Err,
            now,
            b,
        );
    } else {
        lemma_acted(
            n,
            Call::Restart(answer),
            match answer {
                Ok(_) => crate::actions::plain_text(PlainAction::Restart),
                Err(why) => why@,
            },
            answer is Err,
            now,
            b,
        );
    }
    lemma_then(a, n, b);
    let k = a.calls_until(n).len() as int;
    assert(a.calls_until(b).take(k) =~= a.calls_until(n));
    assert(a.calls_until(b)[k] == n.calls_until(b)[0]);
    assert(a.calls_until(b)[k - 1] == a.calls_until(n)[k - 1]);
    assert(a.calls_until(n).last() == m.calls_until(n).last());
    k
}

/// A queued action is one order at most: none where nothing is selected to start,
/// or where the action is the caller's to carry out.
pub proof fn lemma_performed<B: SchedulerBackend>(
    a: App<B>,
    action: PendingAction,
    now: u64,
    b: App<B>,
    rest: ActionRest,
)
    requires
        performed(a, action, now, b, rest),
    ensures
        accounted(a, b, fetches(a.calls_until(b)), orders(a.calls_until(b))),
        orders(a.calls_until(b)) <= 1,
        rest != ActionRest::Done ==> b == a,
        rest == ActionRest::Done && (a.chosen() is Some || action is Stop || action is Restart
            || action is RestoreDefault) ==> orders(a.calls_until(b)) == 1,
{
    match action {
        PendingAction::StartOrSwitch => {
            if a.chosen() is Some {
                let k = lemma_started(a, now, b);
            } else {
                lemma_idle(a, b);
            }
        },
        PendingAction::StartOrSwitchWithArgs(list) => {
            if a.chosen() is Some {
                let k = lemma_started_with_args(a, text::views(list@), now, b);
            } else {
                lemma_idle(a, b);
            }
        },
        PendingAction::Stop => lemma_plain_action(a, PlainAction::Stop, now, b),
        PendingAction::Restart => lemma_restarted(a, now, b),
        PendingAction::RestoreDefault => lemma_plain_action(
            a,
            PlainAction::RestoreDefault,
            now,
            b,
        ),
        PendingAction::ToggleBackend => lemma_idle(a, b),
        PendingAction::Monitor => lemma_idle(a, b),
    }
}

proof fn lemma_list_refreshed<B: SchedulerBackend>(a: App<B>, now: u64, b: App<B>, ok: bool)
    requires
        list_refreshed(a, now, b, ok),
    ensures
        accounted(a, b, 0, 0),
{
    let (answer, n) = choose|answer: Result<Vec<String>, String>, n: App<B>|
        {
            &&& #[trigger] looked(a, Call::Schedulers(answer), n)
            &&& ok == (answer is Ok)
            &&& list_taken(n, answer, now, b)
        };
    lemma_one_call(a, Call::Schedulers(answer), n);
    lemma_idle(n, b);
    lemma_then(a, n, b);
}

proof fn lemma_all_refreshed<B: SchedulerBackend>(a: App<B>, now: u64, b: App<B>)
    requires
        all_refreshed(a, now, b),
    ensures
        accounted(a, b, 1, 0),
{
    let (l, ok, m, outcome, f, p) = choose|
        l: App<B>,
        ok: bool,
        m: App<B>,
        outcome: RefreshOutcome,
        f: App<B>,
        p: App<B>,
    |
        {
            &&& #[trigger] list_refreshed(a, now, l, ok)
            &&& #[trigger] status_refreshed(l, m, outcome)
            &&& modes_forgotten(m, f)
            &&& #[trigger] modes_refreshed(f, p)
            &&& refresh_noted(p, ok, now, b)
        };
    lemma_list_refreshed(a, now, l, ok);
    lemma_refresh_shows_fetched(l, m, outcome);
    lemma_then(a, l, m);
    lemma_idle(m, f);
    lemma_then(a, m, f);
    lemma_modes_show_nothing(f, p);
    lemma_then(a, f, p);
    lemma_idle(p, b);
    lemma_then(a, p, b);
}

/// No key press gives an order. What a key starts is queued, and carried out only
/// after the frame that announces it. The display stays what was fetched.
pub proof fn lemma_keys_give_no_orders<B: SchedulerBackend>(
    a: App<B>,
    key: KeyEvent,
    now: u64,
    b: App<B>,
    effect: KeyEffect,
)
    requires
        keyed(a, key, now, b, effect),
    ensures
        accounted(a, b, fetches(a.calls_until(b)), 0),
{
    if a.view == screen::View::Logs || a.args_input is Some {
        lemma_idle(a, b);
    } else {
        match command_of(key.code) {
            Command::Select(forward) => {
                if a.schedulers@.len() == 0 {
                    lemma_idle(a, b);
                } else {
                    let n = App {
                        selected: cycled(
                            a.selected as int,
                            a.schedulers@.len() as int,
                            forward,
                        ) as usize,
                        ..a
                    };
                    lemma_idle(a, n);
                    lemma_modes_show_nothing(n, b);
                    lemma_then(a, n, b);
                }
            },
            Command::OpenArgs => lemma_capability_key(a, b),
            Command::Cycle(_) => lemma_capability_key(a, b),
            Command::RestoreDefault => lemma_capability_key(a, b),
            Command::Refresh => lemma_all_refreshed(a, now, b),
            _ => lemma_idle(a, b),
        }
    }
}

proof fn lemma_capability_key<B: SchedulerBackend>(a: App<B>, b: App<B>)
    requires
        exists|caps: Capabilities, n: App<B>| #[trigger]
            looked(a, Call::Capabilities(caps), n) && b.backend == n.backend && b.status
                == n.status,
    ensures
        accounted(a, b, 0, 0),
{
    let (caps, n) = choose|caps: Capabilities, n: App<B>| #[trigger]
        looked(a, Call::Capabilities(caps), n) && b.backend == n.backend && b.status == n.status;
    lemma_one_call(a, Call::Capabilities(caps), n);
    lemma_idle(n, b);
    lemma_then(a, n, b);
}

/// No tick gives an order, and the display stays what was fetched.
pub proof fn lemma_ticks_give_no_orders<B: SchedulerBackend>(
    last: u64,
    a: App<B>,
    now: u64,
    b: App<B>,
    refreshed: bool,
)
    requires
        ticked(last, a, now, b, refreshed),
    ensures
        accounted(a, b, fetches(a.calls_until(b)), 0),
{
    let m = lemma_tick_middle(last, a, now, b, refreshed);
    lemma_push_is_no_payload(a, m);
    if refreshed {
        let outcome = choose|outcome: RefreshOutcome| status_refreshed(m, b, outcome);
        lemma_refresh_shows_fetched(m, b, outcome);
        lemma_then(a, m, b);
    }
}

proof fn lemma_tick_middle<B: SchedulerBackend>(
    last: u64,
    a: App<B>,
    now: u64,
    b: App<B>,
    refreshed: bool,
) -> (m: App<B>)
    requires
        ticked(last, a, now, b, refreshed),
    ensures
        push_applied(a, m),
        refreshed ==> exists|outcome: RefreshOutcome| status_refreshed(m, b, outcome),
        !refreshed ==> b == m,
{
    choose|m: App<B>|
        {
            &&& #[trigger] push_applied(a, m)
            &&& refreshed == crate::event_loop::refresh_due(
                last,
                if m.push_confirmed {
                    crate::app::SAFETY_REFRESH
                } else {
                    crate::app::REFRESH_EVERY
                },
                now,
            )
            &&& if refreshed {
                exists|outcome: RefreshOutcome| status_refreshed(m, b, outcome)
            } else {
                b == m
            }
        }
}

/// A tick never fights the user: list, selection, mode, field, message bar and
/// screen stay as they are.
pub proof fn lemma_tick_keeps_selection<B: SchedulerBackend>(
    last: u64,
    a: App<B>,
    now: u64,
    b: App<B>,
    refreshed: bool,
)
    requires
        ticked(last, a, now, b, refreshed),
    ensures
        b == (App {
            backend: b.backend,
            status: b.status,
            mode_args: b.mode_args,
            daemon_instance: b.daemon_instance,
            pushed: b.pushed,
            push_confirmed: b.push_confirmed,
            ..a
        }),
{
    let m = lemma_tick_middle(last, a, now, b, refreshed);
    lemma_push_frame(a, m);
    if refreshed {
        let outcome = choose|outcome: RefreshOutcome| status_refreshed(m, b, outcome);
        lemma_refresh_frame(m, b, outcome);
    }
}

proof fn lemma_push_frame<B: SchedulerBackend>(a: App<B>, b: App<B>)
    requires
        push_applied(a, b),
    ensures
        b == (App {
            backend: b.backend,
            status: b.status,
            mode_args: b.mode_args,
            daemon_instance: b.daemon_instance,
            pushed: b.pushed,
            push_confirmed: b.push_confirmed,
            ..a
        }),
{
    let (answer, n) = choose|
        answer: Result<Option<crate::backend::RuntimeStatus>, String>,
        n: App<B>,
    |
        {
            &&& #[trigger] looked(a, Call::Cached(answer), n)
            &&& push_taken(n, answer, b)
        };
    match answer {
        Ok(Some(now)) if n.pushed is Some && !unmoved(n.pushed, now) => {
            let (m, outcome) = choose|m: App<B>, outcome: RefreshOutcome|
                {
                    &&& #[trigger] status_refreshed(n, m, outcome)
                    &&& b == (App {
                        pushed: Some(now),
                        push_confirmed: outcome.status_ok && outcome.instance
                            == crate::refresh::DaemonInstance::Same,
                        ..m
                    })
                };
            lemma_refresh_frame(n, m, outcome);
        },
        _ => {},
    }
}

/// The first fetch on a backend is one fetch and no order.
pub proof fn lemma_primed<B: SchedulerBackend>(a: App<B>, b: App<B>)
    requires
        primed(a, b),
    ensures
        accounted(a, b, 1, 0),
{
    let (m, outcome) = choose|m: App<B>, outcome: RefreshOutcome| #[trigger]
        status_refreshed(a, m, outcome) && modes_refreshed(m.synced(), b);
    lemma_refresh_shows_fetched(a, m, outcome);
    lemma_idle(m, m.synced());
    lemma_then(a, m, m.synced());
    lemma_modes_show_nothing(m.synced(), b);
    lemma_then(a, m.synced(), b);
}

/// What follows a frame gives an order only for an action that was queued before
/// the frame was drawn, and one at most.
pub proof fn lemma_orders_follow_frames<B: SchedulerBackend>(
    was_primed: bool,
    a: App<B>,
    now: u64,
    b: App<B>,
    step: LoopStep,
)
    requires
        drawn(was_primed, a, now, b, step),
    ensures
        accounted(a, b, fetches(a.calls_until(b)), orders(a.calls_until(b))),
        orders(a.calls_until(b)) <= 1,
        !was_primed || a.pending_action is None ==> orders(a.calls_until(b)) == 0,
{
    if !was_primed {
        lemma_primed(a, b);
    } else {
        let t = action_taken(a, now);
        lemma_idle(a, t);
        match a.pending_action {
            Some(action) => {
                let rest = choose|rest: ActionRest| #[trigger]
                    performed(t, action, now, b, rest) && step == crate::event_loop::step_of(rest);
                lemma_performed(t, action, now, b, rest);
                lemma_then(a, t, b);
            },
            None => {},
        }
    }
}

/// An open arguments field owns every key press: no shortcut fires, nothing is
/// asked of the backend, and the application does not quit. Only a submission
/// touches more than the field.
pub proof fn lemma_field_owns_keys<B: SchedulerBackend>(
    a: App<B>,
    key: KeyEvent,
    now: u64,
    b: App<B>,
    effect: KeyEffect,
)
    requires
        keyed(a, key, now, b, effect),
        a.view == screen::View::Schedulers,
        a.args_input is Some,
    ensures
        effect == KeyEffect::Nothing,
        b.backend == a.backend,
        b.should_quit == a.should_quit,
        key.code != KeyCode::Enter ==> b == (App { args_input: b.args_input, ..a }),
        key.code != KeyCode::Enter && key.code != KeyCode::Esc ==> b.args_input is Some,
{
}

/// A key for what the backend does not support does nothing.
pub proof fn lemma_unsupported_keys<B: SchedulerBackend>(
    a: App<B>,
    key: KeyEvent,
    now: u64,
    b: App<B>,
    effect: KeyEffect,
)
    requires
        keyed(a, key, now, b, effect),
        a.view == screen::View::Schedulers,
        a.args_input is None,
        a.calls_until(b).len() > 0,
        a.calls_until(b)[0] matches Call::Capabilities(caps) && match command_of(key.code) {
            Command::OpenArgs => !caps.custom_args,
            Command::Cycle(_) => !caps.modes,
            Command::RestoreDefault => !caps.restore_default,
            _ => false,
        },
    ensures
        b == (App { backend: b.backend, ..a }),
        a.calls_until(b).len() == 1,
{
    let (caps, n) = choose|caps: Capabilities, n: App<B>| #[trigger]
        looked(a, Call::Capabilities(caps), n) && b.backend == n.backend && match command_of(
            key.code,
        ) {
            Command::OpenArgs => if caps.custom_args && a.chosen() is Some {
                b.args_input is Some
            } else {
                b == n
            },
            Command::Cycle(forward) => caps.modes || b == n,
            _ => caps.restore_default || b == n,
        };
    lemma_one_call(a, Call::Capabilities(caps), n);
    assert(a.calls_until(b) =~= seq![Call::Capabilities(caps)]);
}

/// Two actions are never queued closer together than the debounce time.
pub proof fn lemma_debounce<B: SchedulerBackend>(
    a: App<B>,
    first: PendingAction,
    t: u64,
    b: App<B>,
    second: PendingAction,
    u: u64,
    c: App<B>,
)
    requires
        queued(a, first, t, b),
        action_due(a.last_action, t),
        queued(b, second, u, c),
        u < t + crate::app::ACTION_DEBOUNCE,
    ensures
        c == b,
{
}

/// A step of the selection and one back come back to the same scheduler.
pub proof fn lemma_select_inverse<B: SchedulerBackend>(
    a: App<B>,
    forward: bool,
    m: App<B>,
    b: App<B>,
)
    requires
        a.wf(),
        selected(a, forward, m),
        selected(m, !forward, b),
    ensures
        b.schedulers == a.schedulers,
        b.selected == a.selected,
        b.mode_idx == a.mode_idx,
{
    if a.schedulers@.len() > 0 {
        lemma_cycle_inverse(a.selected as int, a.schedulers@.len() as int, forward);
        assert(a.schedulers@.len() == a.schedulers.len());
        assert(m.selected == cycled(a.selected as int, a.schedulers@.len() as int, forward));
    }
}

/// The selection follows a running scheduler that is in the list, and the mode
/// selector follows its mode unless it runs with custom arguments.
pub proof fn lemma_sync_follows<B: SchedulerBackend>(a: App<B>)
    requires
        a.wf(),
        a.running() is Some,
        text::views(a.schedulers@).contains(a.running()->0),
    ensures
        a.synced().chosen() == a.running(),
        a.status->0.args@.len() == 0 ==> a.synced().chosen_mode() == a.status->0.mode,
        a.status->0.args@.len() > 0 ==> a.synced().mode_idx == a.mode_idx,
{
    let all = text::views(a.schedulers@);
    all.index_of_first_ensures(a.running()->0);
    let i = all.index_of_first(a.running()->0)->0;
    assert(all[i] == a.schedulers@[i]@);
    assert(i < a.schedulers.len());
}

/// A running scheduler outside the list, or none, leaves both selectors alone.
pub proof fn lemma_sync_all_or_nothing<B: SchedulerBackend>(a: App<B>)
    requires
        a.running() matches Some(name) ==> !text::views(a.schedulers@).contains(name),
    ensures
        a.synced() == a,
{
    if let Some(name) = a.running() {
        text::views(a.schedulers@).index_of_first_ensures(name);
    }
}

/// Errors stay in the message bar until they are replaced.
pub proof fn lemma_errors_stay(message: Message, now: u64)
    requires
        message.is_error,
    ensures
        !message_due(Some(message), now),
{
}

/// A switch of the backend is all or nothing. Where it fails, everything but the
/// message bar stays; where it works, the new backend starts from scratch, and no
/// order is given to either.
pub proof fn lemma_toggle_transactional<B: SchedulerBackend>(
    a: App<B>,
    made: Result<B, String>,
    now: u64,
    b: App<B>,
)
    requires
        toggle_tried(a, made, now, b),
    ensures
        b.backend_kind == a.backend_kind ==> {
            &&& b == (App { backend: b.backend, message: b.message, ..a })
            &&& accounted(a, b, 0, 0)
        },
        b.backend_kind != a.backend_kind ==> {
            &&& b.backend_kind == other_kind(a.backend_kind)
            &&& made == Ok::<B, String>(b.backend.backend())
            &&& b.log().len() > 0
            &&& b.log()[0] == Call::Schedulers(Ok(b.schedulers))
            &&& !b.push_confirmed
            &&& orders(b.log()) == 0
            &&& fetches(b.log()) == 1
        },
        made is Err ==> b.backend_kind == a.backend_kind,
{
    match made {
        Err(why) => lemma_refused(a, why@, now, b),
        Ok(backend) => {
            let answer = choose|answer: Result<Vec<String>, String>|
                {
                    &&& #[trigger] crate::driver::answered(backend, Call::Schedulers(answer))
                    &&& match answer {
                        Ok(list) => toggled(a, backend, list, now, b),
                        Err(why) => toggle_refused(a, why@, now, b),
                    }
                };
            match answer {
                Ok(list) => lemma_toggled(a, backend, list, now, b),
                Err(why) => lemma_refused(a, why@, now, b),
            }
        },
    }
}

proof fn lemma_refused<B: SchedulerBackend>(a: App<B>, why: Seq<char>, now: u64, b: App<B>)
    requires
        toggle_refused(a, why, now, b),
    ensures
        b == (App { backend: b.backend, message: b.message, ..a }),
        accounted(a, b, 0, 0),
{
    let label = choose|label: &'static str|
        reported(
            a,
            Call::Label(label),
            crate::notices::toggle_failed_text(why, label@),
            true,
            now,
            b,
        );
    lemma_one_call(a, Call::Label(label), b);
}

proof fn lemma_toggled<B: SchedulerBackend>(
    a: App<B>,
    backend: B,
    list: Vec<String>,
    now: u64,
    b: App<B>,
)
    requires
        toggled(a, backend, list, now, b),
    ensures
        b.backend_kind == other_kind(a.backend_kind),
        b.backend.backend() == backend,
        b.schedulers == list,
        b.log().len() > 0,
        b.log()[0] == Call::Schedulers(Ok(list)),
        !b.push_confirmed,
        orders(b.log()) == 0,
        fetches(b.log()) == 1,
{
    let (s, p, label) = choose|s: App<B>, p: App<B>, label: &'static str|
        {
            &&& #[trigger] moved_to(a, backend, list, s)
            &&& #[trigger] primed(s, p)
            &&& #[trigger] reported(
                p,
                Call::Label(label),
                crate::notices::toggled_text(label@),
                false,
                now,
                b,
            )
        };
    let (m, outcome) = choose|m: App<B>, outcome: RefreshOutcome| #[trigger]
        status_refreshed(s, m, outcome) && modes_refreshed(m.synced(), p);
    lemma_refresh_frame(s, m, outcome);
    lemma_no_trust_gained(s, m, outcome);
    lemma_primed(s, p);
    lemma_one_call(p, Call::Label(label), b);
    lemma_then(s, p, b);
    assert(b.log() =~= s.log() + s.calls_until(b)) by {
        assert(b.log().take(s.log().len() as int) == s.log());
    }
    assert(b.log()[0] == s.log()[0]);
    crate::history::lemma_counts(s.log(), s.calls_until(b));
    assert(s.log().drop_last() =~= Seq::empty());
    reveal_with_fuel(orders, 2);
    reveal_with_fuel(fetches, 2);
}

proof fn lemma_no_trust_gained<B: SchedulerBackend>(a: App<B>, b: App<B>, outcome: RefreshOutcome)
    requires
        status_refreshed(a, b, outcome),
        !a.push_confirmed,
    ensures
        !b.push_confirmed,
{
    let (answer, n) = choose|answer: Result<Status, String>, n: App<B>|
        {
            &&& #[trigger] crate::refresh::status_read(a, answer, n)
            &&& outcome.status_ok == (answer is Ok)
            &&& crate::refresh::instance_checked(n, b, outcome.instance)
        };
}

} // verus!
