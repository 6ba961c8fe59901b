//! The actions behind the keys.
use vstd::hash_map::StringHashMap;
use vstd::prelude::*;

use crate::app::{said, App, PendingAction};
use crate::args;
use crate::backend::{other_kind, BackendKind, Capabilities, ModeArgs, SchedulerBackend};
use crate::driver::{Call, Driver};
use crate::logs::{self, LogFetch};
use crate::notices;
use crate::refresh::{looked, modes_refreshed, status_refreshed, RefreshOutcome};
use crate::sched::SchedMode;
use crate::text;

verus! {

/// The actions that need nothing but the backend.
#[derive(Debug, Clone, Copy, PartialEq, Eq, Structural)]
pub enum PlainAction {
    Stop,
    Restart,
    RestoreDefault,
}

/// The request behind a plain action.
pub open spec fn plain_call(action: PlainAction, answer: Result<(), String>) -> Call {
    match action {
        PlainAction::Stop => Call::Stop(answer),
        PlainAction::Restart => Call::Restart(answer),
        PlainAction::RestoreDefault => Call::RestoreDefault(answer),
    }
}

/// What is said of a plain action that worked.
pub open spec fn plain_text(action: PlainAction) -> Seq<char> {
    match action {
        PlainAction::Stop => "stopped"@,
        PlainAction::Restart => "restarted"@,
        PlainAction::RestoreDefault => "restored default scheduler"@,
    }
}

/// One request and a notice about it lead from `a` to `b`.
pub open spec fn reported<B: SchedulerBackend>(
    a: App<B>,
    call: Call,
    text: Seq<char>,
    is_error: bool,
    now: u64,
    b: App<B>,
) -> bool {
    &&& a.backend.asked(call, b.backend)
    &&& said(b.message, text, is_error, now)
    &&& b == (App { backend: b.backend, message: b.message, ..a })
}

/// One request, a notice about it and a refresh lead from `a` to `b`.
pub open spec fn acted<B: SchedulerBackend>(
    a: App<B>,
    call: Call,
    text: Seq<char>,
    is_error: bool,
    now: u64,
    b: App<B>,
) -> bool {
    exists|p: App<B>, outcome: RefreshOutcome|
        reported(a, call, text, is_error, now, p) && #[trigger] status_refreshed(p, b, outcome)
}

/// A plain action leads from `a` to `b`, with that answer.
pub open spec fn plain_acted<B: SchedulerBackend>(
    a: App<B>,
    action: PlainAction,
    answer: Result<(), String>,
    now: u64,
    b: App<B>,
) -> bool {
    acted(
        a,
        plain_call(action, answer),
        match answer {
            Ok(_) => plain_text(action),
            Err(why) => why@,
        },
        answer is Err,
        now,
        b,
    )
}

/// With a fresh status in `a`, starting `sched` in `mode` leads to `b`: a switch
/// where something runs, a start otherwise.
pub open spec fn start_acted<B: SchedulerBackend>(
    a: App<B>,
    sched: Seq<char>,
    mode: SchedMode,
    answer: Result<(), String>,
    now: u64,
    b: App<B>,
) -> bool {
    acted(
        a,
        if a.running() is Some {
            Call::Switch(sched, mode, answer)
        } else {
            Call::Start(sched, mode, answer)
        },
        match answer {
            Ok(_) => notices::started_text(a.running(), sched, mode, a.mode_configured()),
            Err(why) => notices::start_failed_text(a.running() is Some, sched, why@),
        },
        answer is Err,
        now,
        b,
    )
}

/// Starting or switching to the selection leads from `a` to `b`. The status is
/// read again right before the choice between a start and a switch.
pub open spec fn started<B: SchedulerBackend>(a: App<B>, now: u64, b: App<B>) -> bool {
    match a.chosen() {
        None => b == a,
        Some(sched) => exists|
            m: App<B>,
            outcome: RefreshOutcome,
            answer: Result<(), String>,
        | #[trigger]
            status_refreshed(a, m, outcome) && #[trigger] start_acted(
                m,
                sched,
                a.chosen_mode(),
                answer,
                now,
                b,
            ),
    }
}

/// With a fresh status in `a`, starting `sched` with arguments leads to `b`.
pub open spec fn args_acted<B: SchedulerBackend>(
    a: App<B>,
    sched: Seq<char>,
    words: Seq<Seq<char>>,
    answer: Result<(), String>,
    now: u64,
    b: App<B>,
) -> bool {
    acted(
        a,
        if a.running() is Some {
            Call::SwitchWithArgs(sched, words, answer)
        } else {
            Call::StartWithArgs(sched, words, answer)
        },
        match answer {
            Ok(_) => notices::args_started_text(a.running(), sched, args::shell_join(words)),
            Err(why) => notices::args_failed_text(
                a.running() is Some,
                sched,
                args::shell_join(words),
                why@,
            ),
        },
        answer is Err,
        now,
        b,
    )
}

/// Starting or switching to the selection with arguments leads from `a` to `b`.
pub open spec fn started_with_args<B: SchedulerBackend>(
    a: App<B>,
    words: Seq<Seq<char>>,
    now: u64,
    b: App<B>,
) -> bool {
    match a.chosen() {
        None => b == a,
        Some(sched) => exists|
            m: App<B>,
            outcome: RefreshOutcome,
            answer: Result<(), String>,
        | #[trigger]
            status_refreshed(a, m, outcome) && #[trigger] args_acted(
                m,
                sched,
                words,
                answer,
                now,
                b,
            ),
    }
}

proof fn lemma_started_with_args<B: SchedulerBackend>(
    a: App<B>,
    m: App<B>,
    outcome: RefreshOutcome,
    words: Seq<Seq<char>>,
    answer: Result<(), String>,
    now: u64,
    b: App<B>,
)
    requires
        a.chosen() is Some,
        status_refreshed(a, m, outcome),
        args_acted(m, a.chosen()->0, words, answer, now, b),
    ensures
        started_with_args(a, words, now, b),
{
}

/// Whether a restart means a change of the mode: the selection points at the
/// running scheduler, no custom arguments are in play and the selector differs
/// from the active mode.
pub open spec fn restart_changes_mode<B: SchedulerBackend>(a: App<B>) -> bool {
    &&& a.status matches Some(status)
    &&& status.args@.len() == 0
    &&& a.running() is Some
    &&& a.running() == a.chosen()
    &&& status.mode != a.chosen_mode()
}

/// A restart into the selected mode leads from `a` to `b`.
pub open spec fn mode_acted<B: SchedulerBackend>(
    a: App<B>,
    answer: Result<(), String>,
    now: u64,
    b: App<B>,
) -> bool {
    let sched = a.running()->0;
    acted(
        a,
        Call::Switch(sched, a.chosen_mode(), answer),
        match answer {
            Ok(_) => notices::restarted_text(sched, a.chosen_mode()),
            Err(why) => notices::restart_failed_text(sched, why@),
        },
        answer is Err,
        now,
        b,
    )
}

/// A restart leads from `a` to `b`, into the selected mode or as it was.
pub open spec fn restart_answered<B: SchedulerBackend>(
    a: App<B>,
    caps: Capabilities,
    answer: Result<(), String>,
    now: u64,
    b: App<B>,
) -> bool {
    if caps.modes && restart_changes_mode(a) {
        mode_acted(a, answer, now, b)
    } else {
        plain_acted(a, PlainAction::Restart, answer, now, b)
    }
}

/// With a fresh status in `a`, a restart leads to `b`.
pub open spec fn restart_acted<B: SchedulerBackend>(a: App<B>, now: u64, b: App<B>) -> bool {
    exists|caps: Capabilities, n: App<B>, answer: Result<(), String>|
        {
            &&& #[trigger] looked(a, Call::Capabilities(caps), n)
            &&& #[trigger] restart_answered(n, caps, answer, now, b)
        }
}

/// A restart leads from `a` to `b`.
pub open spec fn restarted<B: SchedulerBackend>(a: App<B>, now: u64, b: App<B>) -> bool {
    exists|m: App<B>, outcome: RefreshOutcome| #[trigger]
        status_refreshed(a, m, outcome) && restart_acted(m, now, b)
}

/// What remains to be done of an action.
#[derive(Debug, Clone, Copy, PartialEq, Eq, Structural)]
pub enum ActionRest {
    /// Nothing.
    Done,
    /// The other backend is to be connected to, and handed to
    /// [`App::toggle_backend`].
    Toggle,
    /// The monitor program is to be run, and its end reported to
    /// [`App::monitor_ended`].
    Monitor,
}

/// An action leads from `a` to `b`, with that rest.
pub open spec fn performed<B: SchedulerBackend>(
    a: App<B>,
    action: PendingAction,
    now: u64,
    b: App<B>,
    rest: ActionRest,
) -> bool {
    match action {
        PendingAction::StartOrSwitch => rest == ActionRest::Done && started(a, now, b),
        PendingAction::StartOrSwitchWithArgs(list) => rest == ActionRest::Done
            && started_with_args(a, text::views(list@), now, b),
        PendingAction::Stop => rest == ActionRest::Done && plain_done(a, PlainAction::Stop, now, b),
        PendingAction::Restart => rest == ActionRest::Done && restarted(a, now, b),
        PendingAction::RestoreDefault => rest == ActionRest::Done && plain_done(
            a,
            PlainAction::RestoreDefault,
            now,
            b,
        ),
        PendingAction::ToggleBackend => rest == ActionRest::Toggle && b == a,
        PendingAction::Monitor => rest == ActionRest::Monitor && b == a,
    }
}

/// A plain action leads from `a` to `b`, whatever the answer.
pub open spec fn plain_done<B: SchedulerBackend>(
    a: App<B>,
    action: PlainAction,
    now: u64,
    b: App<B>,
) -> bool {
    exists|answer: Result<(), String>| plain_acted(a, action, answer, now, b)
}

/// The state right after the move to another backend.
pub open spec fn moved_to<B: SchedulerBackend>(
    a: App<B>,
    backend: B,
    list: Vec<String>,
    b: App<B>,
) -> bool {
    &&& b.backend.backend() == backend
    &&& b.backend.log() == seq![Call::Schedulers(Ok(list))]
    &&& b.mode_args@ == Map::<Seq<char>, ModeArgs>::empty()
    &&& b == (App {
        backend: b.backend,
        backend_kind: other_kind(a.backend_kind),
        schedulers: list,
        selected: 0,
        mode_idx: 0,
        mode_args: b.mode_args,
        daemon_instance: None,
        pushed: None,
        push_confirmed: false,
        ..a
    })
}

/// The first refresh, with the selection following what runs, leads from `a` to
/// `b`.
pub open spec fn primed<B: SchedulerBackend>(a: App<B>, b: App<B>) -> bool {
    exists|m: App<B>, outcome: RefreshOutcome| #[trigger]
        status_refreshed(a, m, outcome) && modes_refreshed(m.synced(), b)
}

/// A move to another backend leads from `a` to `b`.
pub open spec fn toggled<B: SchedulerBackend>(
    a: App<B>,
    backend: B,
    list: Vec<String>,
    now: u64,
    b: App<B>,
) -> bool {
    exists|s: App<B>, p: App<B>, label: &'static str|
        {
            &&& #[trigger] moved_to(a, backend, list, s)
            &&& #[trigger] primed(s, p)
            &&& #[trigger] reported(
                p,
                Call::Label(label),
                notices::toggled_text(label@),
                false,
                now,
                b,
            )
        }
}

/// A refused move leads from `a` to `b`: nothing but the message bar changes.
pub open spec fn toggle_refused<B: SchedulerBackend>(
    a: App<B>,
    why: Seq<char>,
    now: u64,
    b: App<B>,
) -> bool {
    exists|label: &'static str|
        reported(
            a,
            Call::Label(label),
            notices::toggle_failed_text(why, label@),
            true,
            now,
            b,
        )
}

/// An attempt to move to another backend leads from `a` to `b`: the target must
/// connect and enumerate its schedulers.
pub open spec fn toggle_tried<B: SchedulerBackend>(
    a: App<B>,
    made: Result<B, String>,
    now: u64,
    b: App<B>,
) -> bool {
    match made {
        Err(why) => toggle_refused(a, why@, now, b),
        Ok(backend) => exists|answer: Result<Vec<String>, String>|
            {
                &&& #[trigger] crate::driver::answered(backend, Call::Schedulers(answer))
                &&& match answer {
                    Ok(list) => toggled(a, backend, list, now, b),
                    Err(why) => toggle_refused(a, why@, now, b),
                }
            },
    }
}

impl<B: SchedulerBackend> App<B> {
    /// A copy of the running scheduler's name.
    fn running_name(&self) -> (name: Option<String>)
        ensures
            text::opt_view(name) == self.running(),
    {
        match &self.status {
            Some(status) => match &status.current {
                Some(current) => Some(current.clone()),
                None => None,
            },
            None => None,
        }
    }

    /// Starts the selection when nothing is running and switches otherwise,
    /// including a switch of the running scheduler to a different mode.
    pub fn start_or_switch(&mut self, now: u64)
        requires
            old(self).wf(),
        ensures
            started(*old(self), now, *final(self)),
            final(self).wf(),
    {
        let ghost a = *self;
        let sched = match self.selected_name() {
            Some(sched) => sched,
            None => {
                return ;
            },
        };
        let mode = self.selected_mode();
        let outcome = self.refresh_status();
        let ghost m = *self;
        let running = self.running_name();
        let answer = if running.is_some() {
            self.backend.switch(sched.as_str(), mode)
        } else {
            self.backend.start(sched.as_str(), mode)
        };
        let ghost given = answer;
        proof {
            crate::history::lemma_refresh_frame(a, m, outcome);
        }
        match answer {
            Ok(()) => {
                let current = match &running {
                    Some(name) => Some(name.as_str()),
                    None => None,
                };
                let text = notices::started_notice(
                    current,
                    sched.as_str(),
                    mode,
                    self.selected_mode_configured(),
                );
                self.info(text.as_str(), now);
            },
            Err(why) => {
                let text = notices::start_failed_notice(
                    running.is_some(),
                    sched.as_str(),
                    why.as_str(),
                );
                self.error(text.as_str(), now);
            },
        }
        let ghost p = *self;
        let last = self.refresh_status();
        proof {
            assert(status_refreshed(p, *self, last));
            assert(start_acted(m, sched@, mode, given, now, *self));
            assert(status_refreshed(a, m, outcome));
        }
    }

    /// The same with arguments in place of a mode. They are session-only, and
    /// both notices render them in shell form.
    pub fn start_or_switch_with_args(&mut self, list: &[String], now: u64)
        requires
            old(self).wf(),
        ensures
            started_with_args(*old(self), text::views(list@), now, *final(self)),
            final(self).wf(),
    {
        let ghost a = *self;
        let sched = match self.selected_name() {
            Some(sched) => sched,
            None => {
                return ;
            },
        };
        let outcome = self.refresh_status();
        let ghost m = *self;
        let running = self.running_name();
        let answer = if running.is_some() {
            self.backend.switch_with_args(sched.as_str(), list)
        } else {
            self.backend.start_with_args(sched.as_str(), list)
        };
        let ghost given = answer;
        let rendered = args::format_scheduler_args(list);
        match answer {
            Ok(()) => {
                let current = match &running {
                    Some(name) => Some(name.as_str()),
                    None => None,
                };
                let text = notices::args_started_notice(current, sched.as_str(), rendered.as_str());
                self.info(text.as_str(), now);
            },
            Err(why) => {
                let text = notices::args_failed_notice(
                    running.is_some(),
                    sched.as_str(),
                    rendered.as_str(),
                    why.as_str(),
                );
                self.error(text.as_str(), now);
            },
        }
        let ghost p = *self;
        let last = self.refresh_status();
        proof {
            assert(status_refreshed(p, *self, last));
            let words = text::views(list@);
            assert(args_acted(m, sched@, words, given, now, *self));
            lemma_started_with_args(a, m, outcome, words, given, now, *self);
        }
    }

    /// Performs a plain action.
    pub fn act(&mut self, action: PlainAction, now: u64)
        requires
            old(self).wf(),
        ensures
            plain_done(*old(self), action, now, *final(self)),
            final(self).wf(),
    {
        let ghost a = *self;
        let answer = match action {
            PlainAction::Stop => self.backend.stop(),
            PlainAction::Restart => self.backend.restart(),
            PlainAction::RestoreDefault => self.backend.restore_default(),
        };
        let ghost given = answer;
        match answer {
            Ok(()) => {
                let text = match action {
                    PlainAction::Stop => "stopped",
                    PlainAction::Restart => "restarted",
                    PlainAction::RestoreDefault => "restored default scheduler",
                };
                self.info(text, now);
            },
            Err(why) => self.error(why.as_str(), now),
        }
        let ghost p = *self;
        let last = self.refresh_status();
        proof {
            assert(status_refreshed(p, *self, last));
            assert(plain_acted(a, action, given, now, *self));
        }
    }

    /// Restarts. A plain restart reuses the original configuration, so it can
    /// never apply a mode change; where the selection points at the running
    /// scheduler in another mode, the restart goes into the selected mode.
    pub fn restart_scheduler(&mut self, now: u64)
        requires
            old(self).wf(),
        ensures
            restarted(*old(self), now, *final(self)),
            final(self).wf(),
    {
        let ghost a = *self;
        let outcome = self.refresh_status();
        let ghost m = *self;
        assert(status_refreshed(a, m, outcome));
        let running = self.running_name();
        let selected = self.selected_name();
        let mode = self.selected_mode();
        let other_mode = match &self.status {
            Some(status) => status.args.len() == 0 && status.mode != mode,
            None => false,
        };
        let same = match (&running, &selected) {
            (Some(r), Some(s)) => *r == *s,
            _ => false,
        };
        let caps = self.backend.capabilities();
        let ghost n = *self;
        assert(looked(m, Call::Capabilities(caps), n));
        if caps.modes && other_mode && same {
            if let Some(sched) = running {
                let answer = self.backend.switch(sched.as_str(), mode);
                let ghost given = answer;
                match answer {
                    Ok(()) => {
                        let text = notices::restarted_notice(sched.as_str(), mode);
                        self.info(text.as_str(), now);
                    },
                    Err(why) => {
                        let text = notices::restart_failed_notice(sched.as_str(), why.as_str());
                        self.error(text.as_str(), now);
                    },
                }
                let ghost p = *self;
                let last = self.refresh_status();
                proof {
                    assert(status_refreshed(p, *self, last));
                    assert(mode_acted(n, given, now, *self));
                    assert(restart_answered(n, caps, given, now, *self));
                }
            }
        } else {
            self.act(PlainAction::Restart, now);
            proof {
                let given = choose|given: Result<(), String>|
                    plain_acted(n, PlainAction::Restart, given, now, *self);
                assert(restart_answered(n, caps, given, now, *self));
            }
        }
    }

    /// Performs a queued action, as far as that needs the backend alone.
    pub fn run_action(&mut self, action: PendingAction, now: u64) -> (rest: ActionRest)
        requires
            old(self).wf(),
        ensures
            performed(*old(self), action, now, *final(self), rest),
            final(self).wf(),
    {
        match action {
            PendingAction::StartOrSwitch => self.start_or_switch(now),
            PendingAction::StartOrSwitchWithArgs(list) => self.start_or_switch_with_args(
                list.as_slice(),
                now,
            ),
            PendingAction::Stop => self.act(PlainAction::Stop, now),
            PendingAction::Restart => self.restart_scheduler(now),
            PendingAction::RestoreDefault => self.act(PlainAction::RestoreDefault, now),
            PendingAction::ToggleBackend => {
                return ActionRest::Toggle;
            },
            PendingAction::Monitor => {
                return ActionRest::Monitor;
            },
        }
        ActionRest::Done
    }

    /// Fetches for the first time on a backend, and lets the selection follow
    /// what runs.
    pub fn prime(&mut self)
        requires
            old(self).wf(),
        ensures
            primed(*old(self), *final(self)),
            final(self).wf(),
    {
        let ghost a = *self;
        let outcome = self.refresh_status();
        let ghost m = *self;
        assert(status_refreshed(a, m, outcome));
        self.sync_selection_to_running();
        self.refresh_modes();
    }

    /// Which backend kind a toggle leads to.
    pub fn toggle_target(&self) -> (kind: BackendKind)
        ensures
            kind == other_kind(self.backend_kind),
    {
        self.backend_kind.other()
    }

    /// Swaps the running backend for one of the other kind. The switch is
    /// transactional: the target must have connected, and enumerate its
    /// schedulers, before any state is replaced.
    pub fn toggle_backend(&mut self, made: Result<B, String>, now: u64)
        requires
            old(self).wf(),
        ensures
            toggle_tried(*old(self), made, now, *final(self)),
            final(self).wf(),
    {
        let ghost a = *self;
        let backend = match made {
            Ok(backend) => backend,
            Err(why) => {
                self.refuse_toggle(why.as_str(), now);
                return ;
            },
        };
        let mut driver = Driver::new(backend);
        let answer = driver.supported_schedulers();
        let ghost given = answer;
        let ghost call = Call::Schedulers(given);
        assert(crate::driver::answered(backend, call));
        match answer {
            Ok(list) => {
                self.backend = driver;
                self.backend_kind = self.toggle_target();
                self.schedulers = list;
                self.selected = 0;
                self.mode_idx = 0;
                self.mode_args = StringHashMap::new();
                self.daemon_instance = None;
                self.pushed = None;
                self.push_confirmed = false;
                let ghost s = *self;
                assert(s.backend.log() =~= seq![Call::Schedulers(Ok(list))]);
                assert(moved_to(a, backend, list, s));
                self.prime();
                let ghost p = *self;
                assert(primed(s, p));
                let label = self.backend.label();
                let text = notices::toggled_notice(label);
                self.info(text.as_str(), now);
                assert(reported(
                    p,
                    Call::Label(label),
                    notices::toggled_text(label@),
                    false,
                    now,
                    *self,
                ));
            },
            Err(why) => self.refuse_toggle(why.as_str(), now),
        }
    }

    fn refuse_toggle(&mut self, why: &str, now: u64)
        requires
            old(self).wf(),
        ensures
            toggle_refused(*old(self), why@, now, *final(self)),
            final(self).wf(),
    {
        let ghost a = *self;
        let label = self.backend.label();
        let text = notices::toggle_failed_notice(why, label);
        self.error(text.as_str(), now);
        assert(reported(
            a,
            Call::Label(label),
            notices::toggle_failed_text(why@, label@),
            true,
            now,
            *self,
        ));
    }

    /// Reports how a run of the monitor program ended.
    pub fn monitor_ended(&mut self, end: &notices::MonitorEnd, now: u64)
        ensures
            said(final(self).message, notices::monitor_text(*end), !(end is Success), now),
            *final(self) == (App { message: final(self).message, ..*old(self) }),
    {
        let text = notices::monitor_notice(end);
        match end {
            notices::MonitorEnd::Success => self.info(text.as_str(), now),
            _ => self.error(text.as_str(), now),
        }
    }

    /// Takes over the lines of a journal fetch, or reports why there are none.
    pub fn take_logs(&mut self, fetch: Result<LogFetch, String>, now: u64)
        requires
            old(self).log_unit < logs::UNITS@.len(),
        ensures
            match fetch {
                Ok(fetch) => {
                    &&& said(
                        final(self).message,
                        notices::loaded_text(
                            fetch.lines@.len(),
                            logs::UNITS@[old(self).log_unit as int]@,
                            logs::boot_text(old(self).log_previous_boot),
                            fetch.truncated,
                        ),
                        false,
                        now,
                    )
                    &&& *final(self) == (App {
                        message: final(self).message,
                        log_lines: fetch.lines,
                        log_scroll: 0,
                        ..*old(self)
                    })
                },
                Err(why) => {
                    &&& said(final(self).message, why@, true, now)
                    &&& final(self).log_lines@.len() == 0
                    &&& *final(self) == (App {
                        message: final(self).message,
                        log_lines: final(self).log_lines,
                        ..*old(self)
                    })
                },
            },
    {
        match fetch {
            Ok(fetch) => {
                let text = notices::loaded_notice(
                    fetch.lines.len(),
                    logs::UNITS[self.log_unit],
                    logs::boot_name(self.log_previous_boot),
                    fetch.truncated,
                );
                self.info(text.as_str(), now);
                self.log_lines = fetch.lines;
                self.log_scroll = 0;
            },
            Err(why) => {
                self.log_lines = Vec::new();
                self.error(why.as_str(), now);
            },
        }
    }
}

} // verus!
