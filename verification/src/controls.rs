//! What keys, time and answers do to the interface.
use vstd::prelude::*;

use crate::actions::{
    acted, args_acted, performed, plain_acted, primed, reported, restart_acted, restart_answered,
    start_acted, ActionRest, PlainAction,
};
use crate::app::{
    action_due, args_in, cycled, has_args, lemma_cycled, message_due, App, Message, PendingAction,
};
use crate::args::{self, Expansion};
use crate::backend::{Capabilities, ModeArgs, RuntimeStatus, SchedulerBackend, Status};
use crate::conduct::lemma_acted;
use crate::driver::Call;
use crate::event_loop::{action_taken, drawn, refresh_due, step_of, ticked, LoopStep};
use crate::history::{
    fetches, lemma_idle, lemma_one_call, lemma_refresh_frame, lemma_refresh_shows_fetched,
    lemma_then,
};
use crate::input::{FieldModel, KeyCode, KeyEvent};
use crate::keys::{
    all_refreshed, command_of, keyed, modes_forgotten, refresh_noted, Command, KeyEffect,
};
use crate::logs;
use crate::notices;
use crate::refresh::{
    instance_checked, instance_of, list_refreshed, list_taken, looked, modes_refreshed,
    push_applied, status_read, status_refreshed, stored, token_read, DaemonInstance, RefreshOutcome,
};
use crate::sched::{SchedMode, MODES};
use crate::screen;
use crate::text;

verus! {

/// What is selected is the scheduler at the selected place of the list and the mode
/// at the selected place of the modes; what runs is what the status names.
pub proof fn lemma_selection<B: SchedulerBackend>(a: App<B>)
    ensures
        a.selected < a.schedulers@.len() ==> a.chosen() == Some(
            a.schedulers@[a.selected as int]@,
        ),
        a.selected >= a.schedulers@.len() ==> a.chosen() is None,
        a.chosen_mode() == MODES@[a.mode_idx as int],
        a.running() == match a.status {
            Some(Status { current: Some(name), .. }) => Some(name@),
            _ => None,
        },
{
}

/// Whether no action came less than half a second before `now`.
pub open spec fn rested(last: Option<u64>, now: u64) -> bool {
    last matches Some(t) ==> now - t >= 500
}

/// An action is due half a second after the last one. An informational message goes
/// after eight seconds, and an error does not go by itself.
pub proof fn lemma_due(last: Option<u64>, message: Option<Message>, now: u64)
    ensures
        action_due(last, now) <==> rested(last, now),
        message_due(message, now) <==> (message matches Some(m) && !m.is_error && now - m.shown_at
            >= 8_000),
{
}

/// The arguments of a mode are those of the first entry for it.
pub proof fn lemma_args_in(modes: Seq<(SchedMode, Vec<String>)>, mode: SchedMode)
    ensures
        match args_in(modes, mode) {
            Some(list) => exists|i: int|
                {
                    &&& 0 <= i < modes.len()
                    &&& #[trigger] modes[i] == (mode, list)
                    &&& forall|k: int| 0 <= k < i ==> (#[trigger] modes[k]).0 != mode
                },
            None => forall|k: int| 0 <= k < modes.len() ==> (#[trigger] modes[k]).0 != mode,
        },
    decreases modes.len(),
{
    if modes.len() > 0 {
        if modes[0].0 == mode {
            assert(modes[0] == (mode, modes[0].1));
        } else {
            let rest = modes.skip(1);
            lemma_args_in(rest, mode);
            assert forall|k: int| 0 < k < modes.len() implies #[trigger] modes[k] == rest[k - 1] by {}
            if let Some(list) = args_in(rest, mode) {
                let i = choose|i: int|
                    {
                        &&& 0 <= i < rest.len()
                        &&& #[trigger] rest[i] == (mode, list)
                        &&& forall|k: int| 0 <= k < i ==> (#[trigger] rest[k]).0 != mode
                    };
                assert(modes[i + 1] == (mode, list));
            }
        }
    }
}

/// The selected mode counts as not configured exactly where it is not the automatic
/// one, the answer about the selected scheduler is known, and every entry for the
/// mode in it is empty.
pub proof fn lemma_mode_configured<B: SchedulerBackend>(a: App<B>)
    ensures
        !a.mode_configured() <==> {
            &&& a.chosen_mode() != SchedMode::Auto
            &&& a.chosen() matches Some(name)
            &&& a.mode_args@.contains_key(name)
            &&& forall|i: int|
                0 <= i < a.mode_args@[name]@.len() && (#[trigger] a.mode_args@[name]@[i]).0
                    == a.chosen_mode() ==> a.mode_args@[name]@[i].1@.len() == 0
        },
{
    if let Some(name) = a.chosen() {
        if a.mode_args@.contains_key(name) {
            let modes = a.mode_args@[name]@;
            if !has_args(modes, a.chosen_mode()) {
                assert forall|i: int|
                    0 <= i < modes.len() && (#[trigger] modes[i]).0
                        == a.chosen_mode() implies modes[i].1@.len() == 0 by {}
            }
        }
    }
}

/// The keys of the scheduler screen. Those for actions queue theirs, unless one came
/// less than half a second before; no other key queues anything.
pub proof fn lemma_action_keys<B: SchedulerBackend>(
    a: App<B>,
    key: KeyEvent,
    now: u64,
    b: App<B>,
    effect: KeyEffect,
)
    requires
        keyed(a, key, now, b, effect),
        a.view == screen::View::Schedulers,
        a.args_input is None,
    ensures
        rested(a.last_action, now) ==> {
            &&& key.code is Enter ==> b.pending_action is Some && b.pending_action->0 is StartOrSwitch
            &&& key.code == KeyCode::Char('s') ==> b.pending_action is Some
                && b.pending_action->0 is Stop
            &&& key.code == KeyCode::Char('r') ==> b.pending_action is Some
                && b.pending_action->0 is Restart
            &&& key.code == KeyCode::Char('B') ==> b.pending_action is Some
                && b.pending_action->0 is ToggleBackend
            &&& key.code == KeyCode::Char('t') ==> b.pending_action is Some
                && b.pending_action->0 is Monitor
            &&& key.code is Enter || key.code == KeyCode::Char('s') || key.code == KeyCode::Char('r')
                || key.code == KeyCode::Char('B') ==> {
                &&& b.last_action == Some(now)
                &&& b.message matches Some(m)
                &&& m.text@ == notices::WORKING@
                &&& !m.is_error
                &&& m.shown_at == now
            }
            &&& key.code == KeyCode::Char('t') ==> b.last_action == Some(now) && b.message == a.message
        },
        !rested(a.last_action, now) || !(key.code is Enter || key.code == KeyCode::Char('s')
            || key.code == KeyCode::Char('r') || key.code == KeyCode::Char('B') || key.code
            == KeyCode::Char('t') || key.code == KeyCode::Char('d')) ==> b.pending_action
            == a.pending_action && b.last_action == a.last_action,
        b.should_quit <==> a.should_quit || key.code is Esc || key.code == KeyCode::Char('q'),
        effect == KeyEffect::LoadLogs <==> key.code == KeyCode::Char('l'),
        b.view == if key.code == KeyCode::Char('l') {
            screen::View::Logs
        } else {
            screen::View::Schedulers
        },
{
    lemma_due(a.last_action, a.message, now);
    if key.code == KeyCode::Char('R') {
        lemma_refresh_leaves_queue(a, now, b);
    }
}

proof fn lemma_refresh_leaves_queue<B: SchedulerBackend>(a: App<B>, now: u64, b: App<B>)
    requires
        all_refreshed(a, now, b),
    ensures
        b.pending_action == a.pending_action,
        b.last_action == a.last_action,
        b.should_quit == a.should_quit,
        b.view == a.view,
{
    let (l, ok, m, outcome, f, p) = choose|
        l: App<B>,
        ok: bool,
        m: App<B>,
        outcome: RefreshOutcome,
        f: App<B>,
        p: App<B>,
    |
        {
            &&& #[trigger] list_refreshed(a, now, l, ok)
            &&& #[trigger] status_refreshed(l, m, outcome)
            &&& modes_forgotten(m, f)
            &&& #[trigger] modes_refreshed(f, p)
            &&& refresh_noted(p, ok, now, b)
        };
    lemma_refresh_frame(l, m, outcome);
}

/// The keys that move through the list go one place on or back, around the end, and
/// move nothing else of the selection.
pub proof fn lemma_select_keys<B: SchedulerBackend>(
    a: App<B>,
    key: KeyEvent,
    now: u64,
    b: App<B>,
    effect: KeyEffect,
)
    requires
        a.wf(),
        keyed(a, key, now, b, effect),
        a.view == screen::View::Schedulers,
        a.args_input is None,
    ensures
        key.code is Down || key.code == KeyCode::Char('j') ==> b.selected == if a.selected + 1
            >= a.schedulers@.len() {
            0
        } else {
            a.selected + 1
        },
        key.code is Up || key.code == KeyCode::Char('k') ==> b.selected == if a.schedulers@.len()
            == 0 {
            0
        } else if a.selected == 0 {
            a.schedulers@.len() - 1
        } else {
            a.selected - 1
        },
        key.code is Down || key.code == KeyCode::Char('j') || key.code is Up || key.code
            == KeyCode::Char('k') ==> b.mode_idx == a.mode_idx && b.schedulers == a.schedulers,
{
    if a.schedulers@.len() > 0 {
        lemma_cycled(a.selected as int, a.schedulers@.len() as int, true);
        lemma_cycled(a.selected as int, a.schedulers@.len() as int, false);
        assert(a.schedulers@.len() == a.schedulers.len());
    }
}

/// The keys for what a backend may or may not support ask it first. The mode selector
/// moves one place on or back, around the end; the arguments field opens empty, for
/// a selected scheduler; the default is queued to be restored. Without the support
/// nothing happens.
pub proof fn lemma_support_keys<B: SchedulerBackend>(
    a: App<B>,
    key: KeyEvent,
    now: u64,
    b: App<B>,
    effect: KeyEffect,
) -> (caps: Capabilities)
    requires
        a.wf(),
        keyed(a, key, now, b, effect),
        a.view == screen::View::Schedulers,
        a.args_input is None,
        key.code is Tab || key.code is BackTab || key.code == KeyCode::Char('m') || key.code
            == KeyCode::Char('M') || key.code == KeyCode::Char('a') || key.code == KeyCode::Char(
            'd',
        ),
    ensures
        a.calls_until(b) == seq![Call::Capabilities(caps)],
        key.code is Tab || key.code == KeyCode::Char('m') ==> b.mode_idx == if !caps.modes {
            a.mode_idx as int
        } else if a.mode_idx == 4 {
            0
        } else {
            a.mode_idx + 1
        },
        key.code is BackTab || key.code == KeyCode::Char('M') ==> b.mode_idx == if !caps.modes {
            a.mode_idx as int
        } else if a.mode_idx == 0 {
            4
        } else {
            a.mode_idx - 1
        },
        key.code == KeyCode::Char('a') ==> {
            &&& b.args_input is Some <==> caps.custom_args && a.selected < a.schedulers@.len()
            &&& b.args_input matches Some(input) ==> input.buffer@.len() == 0 && input.cursor == 0
        },
        key.code == KeyCode::Char('d') ==> if caps.restore_default && rested(a.last_action, now) {
            b.pending_action is Some && b.pending_action->0 is RestoreDefault && b.last_action
                == Some(now)
        } else {
            b.pending_action == a.pending_action && b.last_action == a.last_action
        },
        !(key.code == KeyCode::Char('a')) ==> b.args_input is None,
        b.selected == a.selected,
{
    lemma_cycled(a.mode_idx as int, MODES@.len() as int, true);
    lemma_cycled(a.mode_idx as int, MODES@.len() as int, false);
    lemma_due(a.last_action, a.message, now);
    let (caps, n) = choose|caps: Capabilities, n: App<B>|
        {
            &&& #[trigger] looked(a, Call::Capabilities(caps), n)
            &&& b.backend == n.backend
            &&& match command_of(key.code) {
                Command::Cycle(forward) => b == if caps.modes {
                    App {
                        mode_idx: cycled(a.mode_idx as int, MODES@.len() as int, forward) as usize,
                        ..n
                    }
                } else {
                    n
                },
                Command::OpenArgs => if caps.custom_args && a.chosen() is Some {
                    &&& b.args_input matches Some(input)
                    &&& input@ == (FieldModel { text: Seq::empty(), cursor: 0 })
                    &&& b == (App { args_input: b.args_input, ..n })
                } else {
                    b == n
                },
                _ => if caps.restore_default {
                    crate::keys::queued(n, PendingAction::RestoreDefault, now, b)
                } else {
                    b == n
                },
            }
        };
    lemma_one_call(a, Call::Capabilities(caps), n);
    assert(a.calls_until(b) =~= seq![Call::Capabilities(caps)]);
    caps
}

/// The manual refresh asks for the list, for the status and for the modes of the
/// selected scheduler, whatever was known before. It reports success unless the list
/// could not be fetched.
pub proof fn lemma_refresh_key<B: SchedulerBackend>(
    a: App<B>,
    key: KeyEvent,
    now: u64,
    b: App<B>,
    effect: KeyEffect,
)
    requires
        keyed(a, key, now, b, effect),
        a.view == screen::View::Schedulers,
        a.args_input is None,
        key.code == KeyCode::Char('R'),
    ensures
        a.calls_until(b).len() >= 3,
        a.calls_until(b)[0] matches Call::Schedulers(answer) && match answer {
            Ok(list) => {
                &&& b.schedulers == list
                &&& b.message matches Some(m)
                &&& m.text@ == "refreshed"@
                &&& !m.is_error
                &&& m.shown_at == now
            },
            Err(why) => {
                &&& b.schedulers == a.schedulers
                &&& b.selected == a.selected
                &&& b.message matches Some(m)
                &&& m.text@ == "scheduler list refresh failed: "@ + why@
                &&& m.is_error
                &&& m.shown_at == now
            },
        },
        a.calls_until(b)[1] matches Call::Status(answer) && b.status == answer.ok(),
        forall|name: Seq<char>| #[trigger]
            b.mode_args@.contains_key(name) ==> b.chosen() == Some(name),
        b.mode_idx == a.mode_idx,
{
    let (l, ok, m, outcome, f, p) = choose|
        l: App<B>,
        ok: bool,
        m: App<B>,
        outcome: RefreshOutcome,
        f: App<B>,
        p: App<B>,
    |
        {
            &&& #[trigger] list_refreshed(a, now, l, ok)
            &&& #[trigger] status_refreshed(l, m, outcome)
            &&& modes_forgotten(m, f)
            &&& #[trigger] modes_refreshed(f, p)
            &&& refresh_noted(p, ok, now, b)
        };
    let (answer, n) = choose|answer: Result<Vec<String>, String>, n: App<B>|
        {
            &&& #[trigger] looked(a, Call::Schedulers(answer), n)
            &&& ok == (answer is Ok)
            &&& list_taken(n, answer, now, l)
        };
    lemma_one_call(a, Call::Schedulers(answer), n);
    lemma_idle(n, l);
    lemma_then(a, n, l);
    lemma_refresh_frame(l, m, outcome);
    lemma_refresh_shows_fetched(l, m, outcome);
    lemma_fetched_first(l, m, outcome);
    lemma_then(a, l, m);
    lemma_idle(m, f);
    lemma_then(a, m, f);
    crate::history::lemma_modes_show_nothing(f, p);
    lemma_then(a, f, p);
    lemma_idle(p, b);
    lemma_then(a, p, b);
    assert(a.calls_until(b)[0] == Call::Schedulers(answer));
    assert(a.calls_until(b)[1] == l.calls_until(m)[0]);
}

/// A refresh fetches the status first, and shows what was fetched.
pub proof fn lemma_fetched_first<B: SchedulerBackend>(
    a: App<B>,
    b: App<B>,
    outcome: RefreshOutcome,
)
    requires
        status_refreshed(a, b, outcome),
    ensures
        a.calls_until(b).len() >= 2,
        a.calls_until(b)[0] matches Call::Status(answer) && b.status == answer.ok()
            && outcome.status_ok == (answer is Ok),
        a.calls_until(b)[1] matches Call::Token(token) && outcome.instance == instance_of(
            a.daemon_instance,
            token,
        ),
{
    let (answer, n) = choose|answer: Result<Status, String>, n: App<B>|
        {
            &&& #[trigger] status_read(a, answer, n)
            &&& outcome.status_ok == (answer is Ok)
            &&& instance_checked(n, b, outcome.instance)
        };
    lemma_one_call(a, Call::Status(answer), n);
    let (token, t) = choose|token: Option<String>, t: App<B>|
        {
            &&& #[trigger] token_read(n, token, t)
            &&& outcome.instance == instance_of(n.daemon_instance, token)
            &&& if outcome.instance == DaemonInstance::Replaced {
                modes_refreshed(t, b)
            } else {
                b == t
            }
        };
    lemma_one_call(n, Call::Token(token), t);
    lemma_then(a, n, t);
    if outcome.instance == DaemonInstance::Replaced {
        crate::history::lemma_modes_show_nothing(t, b);
        lemma_then(a, t, b);
    }
    assert(a.calls_until(b)[0] == Call::Status(answer));
    assert(a.calls_until(b)[1] == Call::Token(token));
    crate::history::lemma_check_frame(n, b, outcome.instance);
}

/// A token tells the daemon's instance: none leaves it unknown, the one seen before
/// is the same, another is a replacement, and the first to be seen is taken for the
/// same.
pub proof fn lemma_instance(seen: Option<String>, token: Option<String>)
    ensures
        instance_of(seen, token) == DaemonInstance::Unknown <==> token is None,
        instance_of(seen, token) == DaemonInstance::Replaced <==> token is Some && seen is Some
            && seen->0@ != token->0@,
        instance_of(seen, token) == DaemonInstance::Same <==> token is Some && (seen is None
            || seen->0@ == token->0@),
{
}

/// After the check of the instance, the token that was read is remembered, unless it
/// is unknown; then the one seen before is.
pub proof fn lemma_token_remembered<B: SchedulerBackend>(
    a: App<B>,
    token: Option<String>,
    b: App<B>,
)
    requires
        token_read(a, token, b),
    ensures
        token is Some ==> b.daemon_instance == token,
        token is None ==> b.daemon_instance == a.daemon_instance && b.mode_args == a.mode_args,
        token is None || (a.daemon_instance is Some && a.daemon_instance->0@ != token->0@)
            ==> b.pushed is None && !b.push_confirmed,
        token is Some && a.daemon_instance is Some && a.daemon_instance->0@ != token->0@
            ==> b.mode_args@ == Map::<Seq<char>, ModeArgs>::empty(),
        token is Some && (a.daemon_instance is None || a.daemon_instance->0@ == token->0@)
            ==> b.mode_args == a.mode_args && b.pushed == a.pushed && b.push_confirmed
            == a.push_confirmed,
        b.status == a.status,
{
}

/// An answer about the modes of a scheduler is kept under its name, and the answers
/// about others stay; a failed query leaves all as it was.
pub proof fn lemma_stored(
    known: Map<Seq<char>, ModeArgs>,
    name: Seq<char>,
    answer: Result<ModeArgs, String>,
    other: Seq<char>,
)
    ensures
        answer matches Ok(modes) ==> stored(known, name, answer).contains_key(name) && stored(
            known,
            name,
            answer,
        )[name] == modes,
        answer is Err ==> stored(known, name, answer) == known,
        other != name ==> {
            &&& stored(known, name, answer).contains_key(other) <==> known.contains_key(other)
            &&& known.contains_key(other) ==> stored(known, name, answer)[other] == known[other]
        },
{
}

/// The modes of the selected scheduler are asked for exactly where the backend has
/// modes, something is selected and the answer is not known; a good answer is kept.
pub proof fn lemma_modes_asked<B: SchedulerBackend>(a: App<B>, b: App<B>) -> (caps: Capabilities)
    requires
        modes_refreshed(a, b),
    ensures
        a.calls_until(b).len() >= 1,
        a.calls_until(b)[0] == Call::Capabilities(caps),
        if caps.modes && a.selected < a.schedulers@.len() && !a.mode_args@.contains_key(
            a.schedulers@[a.selected as int]@,
        ) {
            &&& a.calls_until(b).len() == 2
            &&& a.calls_until(b)[1] matches Call::ModeArgs(name, answer)
            &&& name == a.schedulers@[a.selected as int]@
            &&& answer matches Ok(modes) ==> b.mode_args@ == a.mode_args@.insert(name, modes)
            &&& answer is Err ==> b.mode_args@ == a.mode_args@
        } else {
            a.calls_until(b).len() == 1 && b.mode_args@ == a.mode_args@
        },
        b == (App { backend: b.backend, mode_args: b.mode_args, ..a }),
{
    a.calls_until(b)[0]->Capabilities_0
}

/// A new list replaces the old one, and the selection stays on the scheduler's name,
/// or goes to the top where the new list lacks it. A failed query keeps both and is
/// reported.
pub proof fn lemma_list_taken<B: SchedulerBackend>(
    a: App<B>,
    answer: Result<Vec<String>, String>,
    now: u64,
    b: App<B>,
)
    requires
        a.wf(),
        list_taken(a, answer, now, b),
    ensures
        answer matches Ok(list) ==> {
            &&& b.schedulers == list
            &&& b.message == a.message
            &&& a.schedulers@.len() > 0 && text::views(list@).contains(
                a.schedulers@[a.selected as int]@,
            ) ==> b.selected < list@.len() && list@[b.selected as int]@
                == a.schedulers@[a.selected as int]@
            &&& a.schedulers@.len() == 0 || !text::views(list@).contains(
                a.schedulers@[a.selected as int]@,
            ) ==> b.selected == 0
        },
        answer matches Err(why) ==> {
            &&& b.schedulers == a.schedulers
            &&& b.selected == a.selected
            &&& b.message matches Some(m)
            &&& m.text@ == "scheduler list refresh failed: "@ + why@
            &&& m.is_error
            &&& m.shown_at == now
        },
        b.mode_idx == a.mode_idx,
        b.status == a.status,
{
    if let Ok(list) = answer {
        if let Some(name) = a.chosen() {
            let all = text::views(list@);
            all.index_of_first_ensures(name);
            if all.contains(name) {
                let i = all.index_of_first(name)->0;
                assert(all[i] == list@[i]@);
                assert(i < list.len());
            }
        }
    }
}

/// A tick refreshes exactly where the last refresh lies five seconds back, or thirty
/// once the push channel is trusted.
pub proof fn lemma_tick_due<B: SchedulerBackend>(
    last: u64,
    a: App<B>,
    now: u64,
    b: App<B>,
    refreshed: bool,
) -> (m: App<B>)
    requires
        ticked(last, a, now, b, refreshed),
    ensures
        push_applied(a, m),
        refreshed <==> now - last >= if m.push_confirmed {
            30_000int
        } else {
            5_000int
        },
        !refreshed ==> b == m,
        refreshed ==> {
            &&& m.calls_until(b).len() >= 2
            &&& m.calls_until(b)[0] matches Call::Status(answer)
            &&& b.status == answer.ok()
        },
{
    let m = choose|m: App<B>|
        {
            &&& #[trigger] push_applied(a, m)
            &&& refreshed == refresh_due(
                last,
                if m.push_confirmed {
                    crate::app::SAFETY_REFRESH
                } else {
                    crate::app::REFRESH_EVERY
                },
                now,
            )
            &&& if refreshed {
                exists|outcome: RefreshOutcome| status_refreshed(m, b, outcome)
            } else {
                b == m
            }
        };
    if refreshed {
        let outcome = choose|outcome: RefreshOutcome| status_refreshed(m, b, outcome);
        lemma_fetched_first(m, b, outcome);
    }
    m
}

/// After a frame, a queued action is carried out once and is no longer queued; without
/// one, nothing happens but that an old message goes. The first frame is followed by
/// the first fetch.
pub proof fn lemma_after_frame<B: SchedulerBackend>(
    was_primed: bool,
    a: App<B>,
    now: u64,
    b: App<B>,
    step: LoopStep,
)
    requires
        drawn(was_primed, a, now, b, step),
    ensures
        !was_primed ==> step == LoopStep::Redraw && primed(a, b),
        was_primed && a.pending_action is None ==> {
            &&& step == LoopStep::Poll
            &&& b == (App { message: b.message, ..a })
            &&& b.message == if a.message is Some && !a.message->0.is_error && now
                - a.message->0.shown_at >= 8_000 {
                None
            } else {
                a.message
            }
        },
        was_primed && a.pending_action is Some ==> {
            &&& a.pending_action->0 is ToggleBackend <==> step == LoopStep::Toggle
            &&& a.pending_action->0 is Monitor <==> step == LoopStep::Monitor
            &&& step != LoopStep::Poll
            &&& exists|m: App<B>, rest: ActionRest| #[trigger]
                performed(m, a.pending_action->0, now, b, rest) && m.pending_action is None && m
                    == (App { message: m.message, pending_action: None, ..a })
        },
{
    lemma_due(a.last_action, a.message, now);
    if was_primed && a.pending_action is Some {
        let action = a.pending_action->0;
        let t = action_taken(a, now);
        let rest = choose|rest: ActionRest| #[trigger]
            performed(t, action, now, b, rest) && step == step_of(rest);
        assert(performed(t, action, now, b, rest) && t.pending_action is None);
    }
}

/// Whether a message was posted at `now` as an error, or as none.
pub open spec fn posted(message: Option<Message>, is_error: bool, now: u64) -> bool {
    message matches Some(m) && m.is_error == is_error && m.shown_at == now
}

proof fn lemma_acted_message<B: SchedulerBackend>(
    a: App<B>,
    call: Call,
    words: Seq<char>,
    is_error: bool,
    now: u64,
    b: App<B>,
)
    requires
        acted(a, call, words, is_error, now, b),
    ensures
        posted(b.message, is_error, now),
        b.message->0.text@ == words,
        b.schedulers == a.schedulers,
        b.selected == a.selected,
        b.mode_idx == a.mode_idx,
        b.pending_action == a.pending_action,
{
    let (p, outcome) = choose|p: App<B>, outcome: RefreshOutcome|
        reported(a, call, words, is_error, now, p) && #[trigger] status_refreshed(p, b, outcome);
    lemma_refresh_frame(p, b, outcome);
}

/// A stop and a restoration of the default are that one order, and nothing is asked
/// before it. An answer that it worked is reported in a word; a failure is reported
/// as an error, in the backend's own words. The status is fetched right after.
pub proof fn lemma_plain_order<B: SchedulerBackend>(
    a: App<B>,
    action: PendingAction,
    now: u64,
    b: App<B>,
    rest: ActionRest,
) -> (answer: Result<(), String>)
    requires
        performed(a, action, now, b, rest),
        action is Stop || action is RestoreDefault,
    ensures
        rest == ActionRest::Done,
        a.calls_until(b).len() >= 2,
        action is Stop ==> a.calls_until(b)[0] == Call::Stop(answer),
        action is RestoreDefault ==> a.calls_until(b)[0] == Call::RestoreDefault(answer),
        posted(b.message, answer is Err, now),
        answer matches Err(why) ==> b.message->0.text@ == why@,
        answer is Ok && action is Stop ==> b.message->0.text@ == "stopped"@,
        answer is Ok && action is RestoreDefault ==> b.message->0.text@
            == "restored default scheduler"@,
        a.calls_until(b)[1] matches Call::Status(status) && b.status == status.ok(),
{
    let plain = if action is Stop {
        PlainAction::Stop
    } else {
        PlainAction::RestoreDefault
    };
    let answer = choose|answer: Result<(), String>| plain_acted(a, plain, answer, now, b);
    let call = crate::actions::plain_call(plain, answer);
    let words = match answer {
        Ok(_) => crate::actions::plain_text(plain),
        Err(why) => why@,
    };
    lemma_acted_message(a, call, words, answer is Err, now, b);
    lemma_order_then_fetch(a, call, words, answer is Err, now, b);
    answer
}

/// An order comes first, and the status is fetched right after it.
proof fn lemma_order_then_fetch<B: SchedulerBackend>(
    a: App<B>,
    call: Call,
    words: Seq<char>,
    is_error: bool,
    now: u64,
    b: App<B>,
)
    requires
        crate::history::is_order(call),
        acted(a, call, words, is_error, now, b),
    ensures
        a.calls_until(b).len() >= 2,
        a.calls_until(b)[0] == call,
        a.calls_until(b)[1] matches Call::Status(status) && b.status == status.ok(),
{
    let (p, outcome) = choose|p: App<B>, outcome: RefreshOutcome|
        reported(a, call, words, is_error, now, p) && #[trigger] status_refreshed(p, b, outcome);
    lemma_one_call(a, call, p);
    lemma_refresh_shows_fetched(p, b, outcome);
    lemma_fetched_first(p, b, outcome);
    lemma_then(a, p, b);
    assert(a.calls_until(b)[1] == p.calls_until(b)[0]);
}

/// The two actions that are the caller's to carry out change nothing and are handed
/// to it; every other action is done with.
pub proof fn lemma_action_rest<B: SchedulerBackend>(
    a: App<B>,
    action: PendingAction,
    now: u64,
    b: App<B>,
    rest: ActionRest,
)
    requires
        performed(a, action, now, b, rest),
    ensures
        rest == ActionRest::Toggle <==> action is ToggleBackend,
        rest == ActionRest::Monitor <==> action is Monitor,
        action is ToggleBackend || action is Monitor ==> b == a,
{
}

/// A start of the selection reads the status first. Where that names a running
/// scheduler, the selected one is switched to; otherwise it is started; in the
/// selected mode either way. The notice says which, and whether it failed; where it
/// worked, it says whether the mode counted as configured at `r.1`, when the status
/// had been read.
pub proof fn lemma_start_order<B: SchedulerBackend>(
    a: App<B>,
    action: PendingAction,
    now: u64,
    b: App<B>,
    rest: ActionRest,
) -> (r: (int, App<B>))
    requires
        performed(a, action, now, b, rest),
        action is StartOrSwitch,
        a.selected < a.schedulers@.len(),
    ensures
        rest == ActionRest::Done,
        0 < r.0 < a.calls_until(b).len(),
        a.calls_until(r.1) == a.calls_until(b).take(r.0),
        r.1 == (App {
            backend: r.1.backend,
            status: r.1.status,
            mode_args: r.1.mode_args,
            daemon_instance: r.1.daemon_instance,
            pushed: r.1.pushed,
            push_confirmed: r.1.push_confirmed,
            ..a
        }),
        a.calls_until(b)[0] matches Call::Status(status) && {
            let running = status is Ok && status->Ok_0.current is Some;
            let name = a.schedulers@[a.selected as int]@;
            let mode = MODES@[a.mode_idx as int];
            &&& r.1.status == status.ok()
            &&& match a.calls_until(b)[r.0] {
                Call::Switch(sched, m, answer) => {
                    &&& running
                    &&& sched == name
                    &&& m == mode
                    &&& posted(b.message, answer is Err, now)
                    &&& answer matches Err(why) ==> b.message->0.text@ == "switch to"@ + " "@ + name
                        + " failed: "@ + why@
                    &&& answer is Ok ==> b.message->0.text@ == notices::started_text(
                        Some(status->Ok_0.current->0@),
                        name,
                        mode,
                        r.1.mode_configured(),
                    )
                },
                Call::Start(sched, m, answer) => {
                    &&& !running
                    &&& sched == name
                    &&& m == mode
                    &&& posted(b.message, answer is Err, now)
                    &&& answer matches Err(why) ==> b.message->0.text@ == "start"@ + " "@ + name
                        + " failed: "@ + why@
                    &&& answer is Ok ==> b.message->0.text@ == notices::started_text(
                        None,
                        name,
                        mode,
                        r.1.mode_configured(),
                    )
                },
                _ => false,
            }
        },
        forall|i: int|
            0 <= i < r.0 ==> !crate::history::is_order(#[trigger] a.calls_until(b)[i]),
{
    let sched = a.chosen()->0;
    let mode = a.chosen_mode();
    let (m, outcome, answer) = choose|
        m: App<B>,
        outcome: RefreshOutcome,
        answer: Result<(), String>,
    | #[trigger]
        status_refreshed(a, m, outcome) && #[trigger] start_acted(m, sched, mode, answer, now, b);
    lemma_refresh_shows_fetched(a, m, outcome);
    lemma_refresh_frame(a, m, outcome);
    lemma_fetched_first(a, m, outcome);
    let call = if m.running() is Some {
        Call::Switch(sched, mode, answer)
    } else {
        Call::Start(sched, mode, answer)
    };
    let words = match answer {
        Ok(_) => notices::started_text(m.running(), sched, mode, m.mode_configured()),
        Err(why) => notices::start_failed_text(m.running() is Some, sched, why@),
    };
    lemma_acted(m, call, words, answer is Err, now, b);
    lemma_acted_message(m, call, words, answer is Err, now, b);
    lemma_then(a, m, b);
    let k = a.calls_until(m).len() as int;
    assert(a.calls_until(b)[k] == m.calls_until(b)[0]);
    assert(a.calls_until(b)[0] == a.calls_until(m)[0]);
    lemma_no_orders(a.calls_until(m));
    assert forall|i: int| 0 <= i < k implies !crate::history::is_order(
        #[trigger] a.calls_until(b)[i],
    ) by {
        assert(a.calls_until(b)[i] == a.calls_until(m)[i]);
    }
    assert(a.calls_until(b).take(k) =~= a.calls_until(m));
    (k, m)
}

proof fn lemma_no_orders(calls: Seq<Call>)
    requires
        crate::history::orders(calls) == 0,
    ensures
        forall|i: int| 0 <= i < calls.len() ==> !crate::history::is_order(#[trigger] calls[i]),
    decreases calls.len(),
{
    if calls.len() > 0 {
        let front = calls.drop_last();
        lemma_no_orders(front);
        assert forall|i: int| 0 <= i < calls.len() implies !crate::history::is_order(
            #[trigger] calls[i],
        ) by {
            if i < front.len() {
                assert(front[i] == calls[i]);
            }
        }
    }
}

/// A start of the selection with arguments reads the status first, and gives the
/// arguments as they are to a switch where that names a running scheduler, and to a
/// start otherwise.
pub proof fn lemma_start_with_args_order<B: SchedulerBackend>(
    a: App<B>,
    action: PendingAction,
    now: u64,
    b: App<B>,
    rest: ActionRest,
) -> (k: int)
    requires
        performed(a, action, now, b, rest),
        action is StartOrSwitchWithArgs,
        a.selected < a.schedulers@.len(),
    ensures
        rest == ActionRest::Done,
        0 < k < a.calls_until(b).len(),
        a.calls_until(b)[0] matches Call::Status(status) && {
            let running = status is Ok && status->Ok_0.current is Some;
            let name = a.schedulers@[a.selected as int]@;
            let words = text::views(action->StartOrSwitchWithArgs_0@);
            match a.calls_until(b)[k] {
                Call::SwitchWithArgs(sched, list, answer) => {
                    &&& running
                    &&& sched == name
                    &&& list == words
                    &&& posted(b.message, answer is Err, now)
                    &&& b.message->0.text@ == match answer {
                        Ok(_) => notices::args_started_text(
                            Some(status->Ok_0.current->0@),
                            name,
                            args::shell_join(words),
                        ),
                        Err(why) => notices::args_failed_text(
                            true,
                            name,
                            args::shell_join(words),
                            why@,
                        ),
                    }
                },
                Call::StartWithArgs(sched, list, answer) => {
                    &&& !running
                    &&& sched == name
                    &&& list == words
                    &&& posted(b.message, answer is Err, now)
                    &&& b.message->0.text@ == match answer {
                        Ok(_) => notices::args_started_text(None, name, args::shell_join(words)),
                        Err(why) => notices::args_failed_text(
                            false,
                            name,
                            args::shell_join(words),
                            why@,
                        ),
                    }
                },
                _ => false,
            }
        },
{
    let sched = a.chosen()->0;
    let words = text::views(action->StartOrSwitchWithArgs_0@);
    let (m, outcome, answer) = choose|
        m: App<B>,
        outcome: RefreshOutcome,
        answer: Result<(), String>,
    | #[trigger]
        status_refreshed(a, m, outcome) && #[trigger] args_acted(m, sched, words, answer, now, b);
    lemma_refresh_shows_fetched(a, m, outcome);
    lemma_fetched_first(a, m, outcome);
    let call = if m.running() is Some {
        Call::SwitchWithArgs(sched, words, answer)
    } else {
        Call::StartWithArgs(sched, words, answer)
    };
    let rendered = args::shell_join(words);
    let said = match answer {
        Ok(_) => notices::args_started_text(m.running(), sched, rendered),
        Err(why) => notices::args_failed_text(m.running() is Some, sched, rendered, why@),
    };
    lemma_acted(m, call, said, answer is Err, now, b);
    lemma_acted_message(m, call, said, answer is Err, now, b);
    lemma_then(a, m, b);
    let k = a.calls_until(m).len() as int;
    assert(a.calls_until(b)[k] == m.calls_until(b)[0]);
    assert(a.calls_until(b)[0] == a.calls_until(m)[0]);
    k
}

/// Where nothing is selected, a start does nothing.
pub proof fn lemma_nothing_to_start<B: SchedulerBackend>(
    a: App<B>,
    action: PendingAction,
    now: u64,
    b: App<B>,
    rest: ActionRest,
)
    requires
        performed(a, action, now, b, rest),
        action is StartOrSwitch || action is StartOrSwitchWithArgs,
        a.selected >= a.schedulers@.len(),
    ensures
        b == a,
{
}

/// The keys of the log screen: leaving it, scrolling by a line or a page, going to
/// either end, changing the boot or the unit and loading again. Nothing but the log
/// view changes.
pub proof fn lemma_log_keys<B: SchedulerBackend>(
    a: App<B>,
    key: KeyEvent,
    now: u64,
    b: App<B>,
    effect: KeyEffect,
)
    requires
        a.wf(),
        keyed(a, key, now, b, effect),
        a.view == screen::View::Logs,
    ensures
        b == (App {
            view: b.view,
            log_scroll: b.log_scroll,
            log_previous_boot: b.log_previous_boot,
            log_unit: b.log_unit,
            ..a
        }),
        b.view == screen::View::Schedulers <==> key.code is Esc || key.code == KeyCode::Char('q')
            || key.code == KeyCode::Char('l'),
        effect == KeyEffect::LoadLogs <==> key.code == KeyCode::Char('b') || key.code
            == KeyCode::Char('u') || key.code == KeyCode::Char('R'),
        b.log_previous_boot == if key.code == KeyCode::Char('b') {
            !a.log_previous_boot
        } else {
            a.log_previous_boot
        },
        b.log_unit == if key.code == KeyCode::Char('u') {
            1 - a.log_unit
        } else {
            a.log_unit as int
        },
        key.code is Up || key.code == KeyCode::Char('k') ==> b.log_scroll == if a.log_scroll + 1
            > usize::MAX {
            usize::MAX as int
        } else {
            a.log_scroll + 1
        },
        key.code is Down || key.code == KeyCode::Char('j') ==> b.log_scroll == if a.log_scroll == 0 {
            0
        } else {
            a.log_scroll - 1
        },
        key.code is PageUp ==> b.log_scroll == if a.log_scroll + a.log_page > usize::MAX {
            usize::MAX as int
        } else {
            a.log_scroll + a.log_page
        },
        key.code is PageDown ==> b.log_scroll == if a.log_scroll < a.log_page {
            0
        } else {
            a.log_scroll - a.log_page
        },
        key.code == KeyCode::Char('g') ==> b.log_scroll == usize::MAX,
        key.code == KeyCode::Char('G') ==> b.log_scroll == 0,
{
    lemma_cycled(a.log_unit as int, logs::UNITS@.len() as int, true);
}

/// A submission of the field goes by what it expands to. Arguments are queued to be
/// started with, which closes the field, unless an action came less than half a
/// second before; an error is reported and leaves the field open.
pub proof fn lemma_submission<B: SchedulerBackend>(
    a: App<B>,
    key: KeyEvent,
    now: u64,
    b: App<B>,
    effect: KeyEffect,
)
    requires
        keyed(a, key, now, b, effect),
        a.view == screen::View::Schedulers,
        a.args_input is Some,
        key.code is Enter,
    ensures
        match args::input_expansion(a.args_input->0.buffer@) {
            Expansion::Args(words) => if rested(a.last_action, now) {
                &&& b.args_input is None
                &&& b.last_action == Some(now)
                &&& b.pending_action matches Some(PendingAction::StartOrSwitchWithArgs(list))
                &&& text::views(list@) == words
                &&& posted(b.message, false, now)
            } else {
                b == a
            },
            Expansion::Invalid(why) => {
                &&& b == (App { message: b.message, ..a })
                &&& posted(b.message, true, now)
                &&& b.message->0.text@ == "invalid arguments: "@ + why
                    + " — quotes must be balanced and cannot span a comma"@
            },
            Expansion::Nothing => {
                &&& b == (App { message: b.message, ..a })
                &&& posted(b.message, true, now)
                &&& b.message->0.text@ == notices::EMPTY_ARGS@
            },
        },
{
    lemma_due(a.last_action, a.message, now);
}

/// While the field is open, `Esc` closes it and every other key but `Enter` edits it,
/// as [`FieldModel::pressed`] says.
pub proof fn lemma_editing<B: SchedulerBackend>(
    a: App<B>,
    key: KeyEvent,
    now: u64,
    b: App<B>,
    effect: KeyEffect,
)
    requires
        keyed(a, key, now, b, effect),
        a.view == screen::View::Schedulers,
        a.args_input is Some,
        !(key.code is Enter),
    ensures
        b == (App { args_input: b.args_input, ..a }),
        key.code is Esc ==> b.args_input is None,
        !(key.code is Esc) ==> b.args_input is Some && b.args_input->0@ == (
        a.args_input->0)@.pressed(key),
{
}

/// The push channel is acted on exactly where it reports something else than it last
/// did: then the status is fetched. What it reports becomes what is compared with. It
/// is trusted exactly where that fetch worked and the daemon's token was read and is
/// not another than the one seen before.
pub proof fn lemma_push_acted_on<B: SchedulerBackend>(a: App<B>, b: App<B>) -> (answer: Result<
    Option<RuntimeStatus>,
    String,
>)
    requires
        a.wf(),
        push_applied(a, b),
    ensures
        a.calls_until(b).len() >= 1,
        a.calls_until(b)[0] == Call::Cached(answer),
        fetches(a.calls_until(b)) == if answer matches Ok(Some(now)) && a.pushed is Some
            && a.pushed->0@ != now@ {
            1nat
        } else {
            0
        },
        answer matches Ok(Some(now)) ==> b.pushed is Some && b.pushed->0@ == now@,
        answer is Err ==> b.pushed is None && !b.push_confirmed,
        answer matches Ok(None) ==> b.pushed == a.pushed && b.push_confirmed == a.push_confirmed,
        answer matches Ok(Some(now)) && a.pushed is Some && a.pushed->0@ != now@ ==> {
            &&& a.calls_until(b).len() >= 3
            &&& a.calls_until(b)[1] matches Call::Status(status)
            &&& a.calls_until(b)[2] matches Call::Token(token)
            &&& b.push_confirmed <==> status is Ok && token is Some && (a.daemon_instance is None
                || a.daemon_instance->0@ == token->0@)
        },
{
    let (answer, n) = choose|answer: Result<Option<RuntimeStatus>, String>, n: App<B>|
        {
            &&& #[trigger] looked(a, Call::Cached(answer), n)
            &&& crate::refresh::push_taken(n, answer, b)
        };
    lemma_one_call(a, Call::Cached(answer), n);
    let moved = answer matches Ok(Some(now)) && a.pushed is Some && a.pushed->0@ != now@;
    if moved {
        let now = answer->Ok_0->0;
        let (m, outcome) = choose|m: App<B>, outcome: RefreshOutcome|
            {
                &&& #[trigger] status_refreshed(n, m, outcome)
                &&& b == (App {
                    pushed: Some(now),
                    push_confirmed: outcome.status_ok && outcome.instance == DaemonInstance::Same,
                    ..m
                })
            };
        lemma_refresh_shows_fetched(n, m, outcome);
        lemma_fetched_first(n, m, outcome);
        lemma_idle(m, b);
        lemma_then(n, m, b);
        lemma_then(a, n, b);
        assert(n.calls_until(b) =~= n.calls_until(m));
        assert(a.calls_until(b)[1] == n.calls_until(m)[0]);
        assert(a.calls_until(b)[2] == n.calls_until(m)[1]);
        lemma_instance(n.daemon_instance, a.calls_until(b)[2]->Token_0);
    } else {
        lemma_idle(n, b);
        lemma_then(a, n, b);
    }
    assert(a.calls_until(b)[0] == Call::Cached(answer));
    answer
}

/// The first fetch on a backend asks for the status, and the selection follows it:
/// to the running scheduler where the list has it, and to its mode where it runs
/// without custom arguments. Otherwise it stays.
pub proof fn lemma_first_fetch<B: SchedulerBackend>(a: App<B>, b: App<B>)
    requires
        primed(a, b),
    ensures
        a.calls_until(b).len() >= 1,
        a.calls_until(b)[0] matches Call::Status(answer) && {
            let running = answer is Ok && answer->Ok_0.current is Some && text::views(
                a.schedulers@,
            ).contains(answer->Ok_0.current->0@);
            &&& b.status == answer.ok()
            &&& running ==> {
                &&& b.selected < b.schedulers@.len()
                &&& b.schedulers@[b.selected as int]@ == answer->Ok_0.current->0@
                &&& answer->Ok_0.args@.len() == 0 ==> MODES@[b.mode_idx as int]
                    == answer->Ok_0.mode
                &&& answer->Ok_0.args@.len() > 0 ==> b.mode_idx == a.mode_idx
            }
            &&& !running ==> b.selected == a.selected && b.mode_idx == a.mode_idx
        },
        b.schedulers == a.schedulers,
{
    let (m, outcome) = choose|m: App<B>, outcome: RefreshOutcome| #[trigger]
        status_refreshed(a, m, outcome) && modes_refreshed(m.synced(), b);
    lemma_refresh_frame(a, m, outcome);
    lemma_refresh_shows_fetched(a, m, outcome);
    lemma_fetched_first(a, m, outcome);
    lemma_idle(m, m.synced());
    lemma_then(a, m, m.synced());
    crate::history::lemma_modes_show_nothing(m.synced(), b);
    lemma_then(a, m.synced(), b);
    assert(a.calls_until(b)[0] == a.calls_until(m)[0]);
    if let Some(name) = m.running() {
        let all = text::views(m.schedulers@);
        all.index_of_first_ensures(name);
        if all.contains(name) {
            let i = all.index_of_first(name)->0;
            assert(all[i] == m.schedulers@[i]@);
            assert(i < m.schedulers.len());
        }
    }
}

/// A move to the other backend that works starts from scratch there: the list is the
/// one that it gave, the trust in the push channel is to be earned, and no answer
/// about modes is known but one for the selected scheduler. The selectors stand at
/// the top, unless they follow what runs. The notice names the backend that answers
/// now.
pub proof fn lemma_toggle_told<B: SchedulerBackend>(
    a: App<B>,
    backend: B,
    list: Vec<String>,
    now: u64,
    b: App<B>,
)
    requires
        crate::actions::toggled(a, backend, list, now, b),
    ensures
        b.backend_kind != a.backend_kind,
        b.backend.backend() == backend,
        b.schedulers == list,
        b.pushed is None,
        !b.push_confirmed,
        b.log().len() > 0,
        b.log()[0] == Call::Schedulers(Ok(list)),
        forall|name: Seq<char>| #[trigger]
            b.mode_args@.contains_key(name) ==> b.chosen() == Some(name),
        posted(b.message, false, now),
        b.log().last() matches Call::Label(label) && b.message->0.text@ == "switched to "@ + label@
            + " backend"@,
        b.log().len() > 2,
        b.log()[1] matches Call::Status(answer) && {
            let running = answer is Ok && answer->Ok_0.current is Some && text::views(
                list@,
            ).contains(answer->Ok_0.current->0@);
            &&& b.status == answer.ok()
            &&& running ==> b.chosen() == Some(answer->Ok_0.current->0@)
            &&& running && answer->Ok_0.args@.len() == 0 ==> b.chosen_mode() == answer->Ok_0.mode
            &&& !running ==> b.selected == 0 && b.mode_idx == 0
        },
{
    let (s, p, label) = choose|s: App<B>, p: App<B>, label: &'static str|
        {
            &&& #[trigger] crate::actions::moved_to(a, backend, list, s)
            &&& #[trigger] primed(s, p)
            &&& #[trigger] reported(
                p,
                Call::Label(label),
                notices::toggled_text(label@),
                false,
                now,
                b,
            )
        };
    let (m, outcome) = choose|m: App<B>, outcome: RefreshOutcome| #[trigger]
        status_refreshed(s, m, outcome) && modes_refreshed(m.synced(), p);
    lemma_refresh_frame(s, m, outcome);
    lemma_fetched_first(s, m, outcome);
    let (answer, n) = choose|answer: Result<Status, String>, n: App<B>|
        {
            &&& #[trigger] status_read(s, answer, n)
            &&& outcome.status_ok == (answer is Ok)
            &&& instance_checked(n, m, outcome.instance)
        };
    assert(outcome.instance != DaemonInstance::Replaced);
    assert(m.mode_args == s.mode_args && m.pushed is None && !m.push_confirmed);
    crate::conduct::lemma_primed(s, p);
    lemma_first_fetch(s, p);
    lemma_one_call(p, Call::Label(label), b);
    lemma_then(s, p, b);
    assert(b.log().take(s.log().len() as int) == s.log());
    assert(b.log()[1] == s.calls_until(b)[0]);
    assert(s.calls_until(b)[0] == s.calls_until(p)[0]);
    assert(b.log()[0] == b.log().take(s.log().len() as int)[0]);
}

/// A move to the other backend that does not work is reported as an error, with the
/// reason and the backend that stays.
pub proof fn lemma_toggle_refused_told<B: SchedulerBackend>(
    a: App<B>,
    why: Seq<char>,
    now: u64,
    b: App<B>,
)
    requires
        crate::actions::toggle_refused(a, why, now, b),
    ensures
        b == (App { backend: b.backend, message: b.message, ..a }),
        posted(b.message, true, now),
        b.log().len() == a.log().len() + 1,
        b.log().last() matches Call::Label(label) && b.message->0.text@ == "cannot switch backend: "@
            + why + " (staying on "@ + label@ + ")"@,
{
}

/// A restart is reported: into the selected mode with the scheduler and the mode, as
/// it was in a word. A failure is an error, with the backend's own words.
pub proof fn lemma_restart_told<B: SchedulerBackend>(
    a: App<B>,
    action: PendingAction,
    now: u64,
    b: App<B>,
    rest: ActionRest,
) -> (k: int)
    requires
        performed(a, action, now, b, rest),
        action is Restart,
    ensures
        rest == ActionRest::Done,
        0 < k < a.calls_until(b).len(),
        match a.calls_until(b)[k] {
            Call::Switch(sched, mode, answer) => {
                &&& posted(b.message, answer is Err, now)
                &&& answer is Ok ==> b.message->0.text@ == "restarted "@ + sched + " in "@
                    + crate::sched::mode_text(mode) + " mode"@
                &&& answer matches Err(why) ==> b.message->0.text@ == "restart "@ + sched
                    + " failed: "@ + why@
            },
            Call::Restart(answer) => {
                &&& posted(b.message, answer is Err, now)
                &&& answer is Ok ==> b.message->0.text@ == "restarted"@
                &&& answer matches Err(why) ==> b.message->0.text@ == why@
            },
            _ => false,
        },
{
    let (m, outcome) = choose|m: App<B>, outcome: RefreshOutcome| #[trigger]
        status_refreshed(a, m, outcome) && restart_acted(m, now, b);
    lemma_refresh_shows_fetched(a, m, outcome);
    let (caps, n, answer) = choose|caps: Capabilities, n: App<B>, answer: Result<(), String>|
        {
            &&& #[trigger] looked(m, Call::Capabilities(caps), n)
            &&& #[trigger] restart_answered(n, caps, answer, now, b)
        };
    lemma_one_call(m, Call::Capabilities(caps), n);
    lemma_then(a, m, n);
    let changing = caps.modes && crate::actions::restart_changes_mode(n);
    let sched = n.running()->0;
    let call = if changing {
        Call::Switch(sched, n.chosen_mode(), answer)
    } else {
        Call::Restart(answer)
    };
    let words = match answer {
        Ok(_) => if changing {
            notices::restarted_text(sched, n.chosen_mode())
        } else {
            crate::actions::plain_text(PlainAction::Restart)
        },
        Err(why) => if changing {
            notices::restart_failed_text(sched, why@)
        } else {
            why@
        },
    };
    assert(acted(n, call, words, answer is Err, now, b));
    lemma_acted(n, call, words, answer is Err, now, b);
    lemma_acted_message(n, call, words, answer is Err, now, b);
    lemma_then(a, n, b);
    let k = a.calls_until(n).len() as int;
    assert(a.calls_until(b)[k] == n.calls_until(b)[0]);
    k
}

} // verus!
