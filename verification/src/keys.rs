//! Key handling.
use vstd::prelude::*;

use crate::app::{action_due, cycled, lemma_cycled, said, App, PendingAction};
use crate::args::{self, ArgsExpandError, Expansion};
use crate::backend::{Capabilities, ModeArgs, SchedulerBackend};
use crate::driver::Call;
use crate::input::{ArgsInput, FieldModel, KeyCode, KeyEvent};
use crate::logs;
use crate::notices;
use crate::refresh::{
    list_refreshed, looked, modes_refreshed, status_refreshed, RefreshOutcome,
};
use crate::screen;
use crate::sched::MODES;
use crate::text;

verus! {

/// What a key press leaves to the caller.
#[derive(Debug, Clone, Copy, PartialEq, Eq, Structural)]
pub enum KeyEffect {
    Nothing,
    /// The journal of the current unit and boot is to be fetched, and handed to
    /// [`App::take_logs`].
    LoadLogs,
}

/// What a key means on the scheduler screen.
pub enum Command {
    Nothing,
    Quit,
    OpenLogs,
    Monitor,
    /// Queue an action.
    Queue(PendingAction),
    /// Move the scheduler selection, forward or back.
    Select(bool),
    OpenArgs,
    /// Move the mode selector, forward or back.
    Cycle(bool),
    RestoreDefault,
    Refresh,
}

/// The meaning of a key on the scheduler screen.
pub open spec fn command_of(code: KeyCode) -> Command {
    match code {
        KeyCode::Esc => Command::Quit,
        KeyCode::Down => Command::Select(true),
        KeyCode::Up => Command::Select(false),
        KeyCode::Tab => Command::Cycle(true),
        KeyCode::BackTab => Command::Cycle(false),
        KeyCode::Enter => Command::Queue(PendingAction::StartOrSwitch),
        KeyCode::Char(c) => if c == 'q' {
            Command::Quit
        } else if c == 'l' {
            Command::OpenLogs
        } else if c == 't' {
            Command::Monitor
        } else if c == 'B' {
            Command::Queue(PendingAction::ToggleBackend)
        } else if c == 'j' {
            Command::Select(true)
        } else if c == 'k' {
            Command::Select(false)
        } else if c == 'a' {
            Command::OpenArgs
        } else if c == 'm' {
            Command::Cycle(true)
        } else if c == 'M' {
            Command::Cycle(false)
        } else if c == 's' {
            Command::Queue(PendingAction::Stop)
        } else if c == 'r' {
            Command::Queue(PendingAction::Restart)
        } else if c == 'd' {
            Command::RestoreDefault
        } else if c == 'R' {
            Command::Refresh
        } else {
            Command::Nothing
        },
        _ => Command::Nothing,
    }
}

fn decode(code: KeyCode) -> (command: Command)
    ensures
        command == command_of(code),
{
    match code {
        KeyCode::Char('q') | KeyCode::Esc => Command::Quit,
        KeyCode::Char('l') => Command::OpenLogs,
        KeyCode::Char('t') => Command::Monitor,
        KeyCode::Char('B') => Command::Queue(PendingAction::ToggleBackend),
        KeyCode::Down | KeyCode::Char('j') => Command::Select(true),
        KeyCode::Up | KeyCode::Char('k') => Command::Select(false),
        KeyCode::Char('a') => Command::OpenArgs,
        KeyCode::Tab | KeyCode::Char('m') => Command::Cycle(true),
        KeyCode::BackTab | KeyCode::Char('M') => Command::Cycle(false),
        KeyCode::Enter => Command::Queue(PendingAction::StartOrSwitch),
        KeyCode::Char('s') => Command::Queue(PendingAction::Stop),
        KeyCode::Char('r') => Command::Queue(PendingAction::Restart),
        KeyCode::Char('d') => Command::RestoreDefault,
        KeyCode::Char('R') => Command::Refresh,
        _ => Command::Nothing,
    }
}

/// A request to queue an action leads from `a` to `b`: it is swallowed when it
/// comes too soon after the last one.
pub open spec fn queued<B: SchedulerBackend>(
    a: App<B>,
    action: PendingAction,
    now: u64,
    b: App<B>,
) -> bool {
    if action_due(a.last_action, now) {
        &&& said(b.message, notices::WORKING@, false, now)
        &&& b == (App {
            message: b.message,
            last_action: Some(now),
            pending_action: Some(action),
            ..a
        })
    } else {
        b == a
    }
}

/// A move of the scheduler selection leads from `a` to `b`.
pub open spec fn selected<B: SchedulerBackend>(a: App<B>, forward: bool, b: App<B>) -> bool {
    if a.schedulers@.len() == 0 {
        b == a
    } else {
        modes_refreshed(
            App {
                selected: cycled(a.selected as int, a.schedulers@.len() as int, forward) as usize,
                ..a
            },
            b,
        )
    }
}

/// The key that opens the arguments field leads from `a` to `b`.
pub open spec fn args_opened<B: SchedulerBackend>(a: App<B>, b: App<B>) -> bool {
    exists|caps: Capabilities, n: App<B>|
        {
            &&& #[trigger] looked(a, Call::Capabilities(caps), n)
            &&& if caps.custom_args && a.chosen() is Some {
                &&& b.args_input matches Some(input)
                &&& input@ == (FieldModel { text: Seq::empty(), cursor: 0 })
                &&& b == (App { args_input: b.args_input, ..n })
            } else {
                b == n
            }
        }
}

/// The key that moves the mode selector leads from `a` to `b`.
pub open spec fn mode_cycled<B: SchedulerBackend>(a: App<B>, forward: bool, b: App<B>) -> bool {
    exists|caps: Capabilities, n: App<B>|
        {
            &&& #[trigger] looked(a, Call::Capabilities(caps), n)
            &&& b == if caps.modes {
                App {
                    mode_idx: cycled(a.mode_idx as int, MODES@.len() as int, forward) as usize,
                    ..n
                }
            } else {
                n
            }
        }
}

/// The key that restores the default scheduler leads from `a` to `b`.
pub open spec fn restore_queued<B: SchedulerBackend>(a: App<B>, now: u64, b: App<B>) -> bool {
    exists|caps: Capabilities, n: App<B>|
        {
            &&& #[trigger] looked(a, Call::Capabilities(caps), n)
            &&& if caps.restore_default {
                queued(n, PendingAction::RestoreDefault, now, b)
            } else {
                b == n
            }
        }
}

/// Dropping all answers about modes leads from `a` to `b`.
pub open spec fn modes_forgotten<B: SchedulerBackend>(a: App<B>, b: App<B>) -> bool {
    &&& b.mode_args@ == Map::<Seq<char>, ModeArgs>::empty()
    &&& b == (App { mode_args: b.mode_args, ..a })
}

/// The notice of a manual refresh leads from `a` to `b`. It does not replace an
/// error about the list.
pub open spec fn refresh_noted<B: SchedulerBackend>(
    a: App<B>,
    list_ok: bool,
    now: u64,
    b: App<B>,
) -> bool {
    if list_ok {
        &&& said(b.message, "refreshed"@, false, now)
        &&& b == (App { message: b.message, ..a })
    } else {
        b == a
    }
}

/// A manual refresh leads from `a` to `b`: list, status and modes are all asked
/// for anew.
pub open spec fn all_refreshed<B: SchedulerBackend>(a: App<B>, now: u64, b: App<B>) -> bool {
    exists|l: App<B>, ok: bool, m: App<B>, outcome: RefreshOutcome, f: App<B>, p: App<B>|
        {
            &&& #[trigger] list_refreshed(a, now, l, ok)
            &&& #[trigger] status_refreshed(l, m, outcome)
            &&& modes_forgotten(m, f)
            &&& #[trigger] modes_refreshed(f, p)
            &&& refresh_noted(p, ok, now, b)
        }
}

/// A command leads from `a` to `b`, with that effect.
pub open spec fn commanded<B: SchedulerBackend>(
    a: App<B>,
    command: Command,
    now: u64,
    b: App<B>,
    effect: KeyEffect,
) -> bool {
    &&& effect == if command is OpenLogs {
        KeyEffect::LoadLogs
    } else {
        KeyEffect::Nothing
    }
    &&& match command {
        Command::Nothing => b == a,
        Command::Quit => b == (App { should_quit: true, ..a }),
        Command::OpenLogs => b == (App { view: screen::View::Logs, ..a }),
        Command::Monitor => b == if action_due(a.last_action, now) {
            App { last_action: Some(now), pending_action: Some(PendingAction::Monitor), ..a }
        } else {
            a
        },
        Command::Queue(action) => queued(a, action, now, b),
        Command::Select(forward) => selected(a, forward, b),
        Command::OpenArgs => args_opened(a, b),
        Command::Cycle(forward) => mode_cycled(a, forward, b),
        Command::RestoreDefault => restore_queued(a, now, b),
        Command::Refresh => all_refreshed(a, now, b),
    }
}

/// What expanded arguments lead to: a queued action closes the field; an error
/// keeps it open.
pub open spec fn expansion_taken<B: SchedulerBackend>(
    a: App<B>,
    expansion: Expansion,
    now: u64,
    b: App<B>,
) -> bool {
    match expansion {
        Expansion::Args(words) => if action_due(a.last_action, now) {
            &&& said(b.message, notices::WORKING@, false, now)
            &&& b.pending_action matches Some(PendingAction::StartOrSwitchWithArgs(list))
            &&& text::views(list@) == words
            &&& b == (App {
                message: b.message,
                last_action: Some(now),
                pending_action: b.pending_action,
                args_input: None,
                ..a
            })
        } else {
            b == a
        },
        Expansion::Invalid(why) => {
            &&& said(b.message, notices::invalid_args_text(why), true, now)
            &&& b == (App { message: b.message, ..a })
        },
        Expansion::Nothing => {
            &&& said(b.message, notices::EMPTY_ARGS@, true, now)
            &&& b == (App { message: b.message, ..a })
        },
    }
}

/// A key press in the arguments field leads from `a` to `b`.
pub open spec fn args_keyed<B: SchedulerBackend>(
    a: App<B>,
    key: KeyEvent,
    now: u64,
    b: App<B>,
) -> bool {
    match a.args_input {
        None => b == a,
        Some(input) => match key.code {
            KeyCode::Esc => b == (App { args_input: None, ..a }),
            KeyCode::Enter => expansion_taken(a, args::input_expansion(input.buffer@), now, b),
            _ => {
                &&& b.args_input matches Some(after)
                &&& after@ == input@.pressed(key)
                &&& b == (App { args_input: b.args_input, ..a })
            },
        },
    }
}

/// The next unit of the journal, around the end.
pub open spec fn next_unit(unit: int) -> int {
    cycled(unit, logs::UNITS@.len() as int, true)
}

/// Scrolling up, as far as the counter goes. The viewport clamps it.
pub open spec fn scrolled_up(scroll: usize, lines: usize) -> usize {
    if scroll + lines > usize::MAX {
        usize::MAX
    } else {
        (scroll + lines) as usize
    }
}

/// Scrolling down, to the newest line at most.
pub open spec fn scrolled_down(scroll: usize, lines: usize) -> usize {
    if scroll < lines {
        0
    } else {
        (scroll - lines) as usize
    }
}

/// What a key press on the log screen leads to.
pub open spec fn logs_keyed<B: SchedulerBackend>(a: App<B>, code: KeyCode) -> (App<B>, KeyEffect) {
    match code {
        KeyCode::Esc => (App { view: screen::View::Schedulers, ..a }, KeyEffect::Nothing),
        KeyCode::Up => (App { log_scroll: scrolled_up(a.log_scroll, 1), ..a }, KeyEffect::Nothing),
        KeyCode::Down => (
            App { log_scroll: scrolled_down(a.log_scroll, 1), ..a },
            KeyEffect::Nothing,
        ),
        KeyCode::PageUp => (
            App { log_scroll: scrolled_up(a.log_scroll, a.log_page), ..a },
            KeyEffect::Nothing,
        ),
        KeyCode::PageDown => (
            App { log_scroll: scrolled_down(a.log_scroll, a.log_page), ..a },
            KeyEffect::Nothing,
        ),
        KeyCode::Char(c) => if c == 'q' || c == 'l' {
            (App { view: screen::View::Schedulers, ..a }, KeyEffect::Nothing)
        } else if c == 'k' {
            (App { log_scroll: scrolled_up(a.log_scroll, 1), ..a }, KeyEffect::Nothing)
        } else if c == 'j' {
            (App { log_scroll: scrolled_down(a.log_scroll, 1), ..a }, KeyEffect::Nothing)
        } else if c == 'g' {
            (App { log_scroll: usize::MAX, ..a }, KeyEffect::Nothing)
        } else if c == 'G' {
            (App { log_scroll: 0, ..a }, KeyEffect::Nothing)
        } else if c == 'b' {
            (App { log_previous_boot: !a.log_previous_boot, ..a }, KeyEffect::LoadLogs)
        } else if c == 'u' {
            (App { log_unit: next_unit(a.log_unit as int) as usize, ..a }, KeyEffect::LoadLogs)
        } else if c == 'R' {
            (a, KeyEffect::LoadLogs)
        } else {
            (a, KeyEffect::Nothing)
        },
        _ => (a, KeyEffect::Nothing),
    }
}

/// A key press leads from `a` to `b`, with that effect. An open arguments field
/// owns every key press.
pub open spec fn keyed<B: SchedulerBackend>(
    a: App<B>,
    key: KeyEvent,
    now: u64,
    b: App<B>,
    effect: KeyEffect,
) -> bool {
    match a.view {
        screen::View::Logs => (b, effect) == logs_keyed(a, key.code),
        screen::View::Schedulers => if a.args_input is Some {
            effect == KeyEffect::Nothing && args_keyed(a, key, now, b)
        } else {
            commanded(a, command_of(key.code), now, b, effect)
        },
    }
}

impl<B: SchedulerBackend> App<B> {
    /// Handles a key press.
    pub fn on_key(&mut self, key: KeyEvent, now: u64) -> (effect: KeyEffect)
        requires
            old(self).wf(),
        ensures
            keyed(*old(self), key, now, *final(self), effect),
            final(self).wf(),
    {
        if self.view == screen::View::Schedulers && self.args_input.is_some() {
            self.on_key_args(key, now);
            return KeyEffect::Nothing;
        }
        match self.view {
            screen::View::Schedulers => self.on_key_schedulers(key, now),
            screen::View::Logs => self.on_key_logs(key),
        }
    }

    /// Key handling while the arguments field is open. The field owns every key
    /// press: global shortcuts must not fire while the user is typing text that
    /// may well contain their letters.
    pub fn on_key_args(&mut self, key: KeyEvent, now: u64)
        requires
            old(self).wf(),
        ensures
            args_keyed(*old(self), key, now, *final(self)),
            final(self).wf(),
    {
        match key.code {
            KeyCode::Esc => {
                self.args_input = None;
            },
            KeyCode::Enter => self.submit_args(now),
            _ => {
                match self.args_input.take() {
                    Some(mut input) => {
                        input.press(key);
                        self.args_input = Some(input);
                    },
                    None => {},
                }
            },
        }
    }

    /// Acts on expanded arguments: queues the start, or says what to fix.
    pub fn take_expansion(&mut self, expanded: Result<Vec<String>, ArgsExpandError>, now: u64)
        requires
            old(self).wf(),
        ensures
            expansion_taken(*old(self), args::expanded(expanded), now, *final(self)),
            final(self).wf(),
    {
        match expanded {
            Ok(list) => {
                if self.action_allowed(now) {
                    self.args_input = None;
                    self.queue(PendingAction::StartOrSwitchWithArgs(list), now);
                }
            },
            Err(ArgsExpandError::Parse(why)) => {
                let text = notices::invalid_args_notice(why.as_str());
                self.error(text.as_str(), now);
            },
            Err(ArgsExpandError::Empty) => {
                self.error(notices::EMPTY_ARGS, now);
            },
        }
    }

    /// Expands the field like a command line's arguments, then queues the start.
    /// Errors keep the field open; only a queued action closes it.
    pub fn submit_args(&mut self, now: u64)
        requires
            old(self).wf(),
        ensures
            match old(self).args_input {
                Some(input) => expansion_taken(
                    *old(self),
                    args::input_expansion(input.buffer@),
                    now,
                    *final(self),
                ),
                None => *final(self) == *old(self),
            },
            final(self).wf(),
    {
        let expanded = match &self.args_input {
            Some(input) => args::expand_input(input.buffer.as_str()),
            None => {
                return ;
            },
        };
        self.take_expansion(expanded, now);
    }

    /// Queues an action if it does not come too soon.
    fn try_queue(&mut self, action: PendingAction, now: u64)
        requires
            old(self).wf(),
        ensures
            queued(*old(self), action, now, *final(self)),
            final(self).wf(),
    {
        if self.action_allowed(now) {
            self.queue(action, now);
        }
    }

    /// Key handling on the scheduler screen.
    pub fn on_key_schedulers(&mut self, key: KeyEvent, now: u64) -> (effect: KeyEffect)
        requires
            old(self).wf(),
        ensures
            commanded(*old(self), command_of(key.code), now, *final(self), effect),
            final(self).wf(),
    {
        let ghost a = *self;
        match decode(key.code) {
            Command::Nothing => {},
            Command::Quit => {
                self.should_quit = true;
            },
            Command::OpenLogs => {
                self.view = screen::View::Logs;
                return KeyEffect::LoadLogs;
            },
            Command::Monitor => {
                if self.action_allowed(now) {
                    self.pending_action = Some(PendingAction::Monitor);
                }
            },
            Command::Queue(action) => self.try_queue(action, now),
            Command::Select(forward) => {
                if forward {
                    self.select_next();
                } else {
                    self.select_prev();
                }
            },
            Command::OpenArgs => {
                let caps = self.backend.capabilities();
                assert(looked(a, Call::Capabilities(caps), *self));
                if caps.custom_args && self.selected_scheduler().is_some() {
                    self.args_input = Some(ArgsInput::default());
                }
            },
            Command::Cycle(forward) => {
                let caps = self.backend.capabilities();
                assert(looked(a, Call::Capabilities(caps), *self));
                if caps.modes {
                    self.cycle_mode(forward);
                }
            },
            Command::RestoreDefault => {
                let caps = self.backend.capabilities();
                assert(looked(a, Call::Capabilities(caps), *self));
                if caps.restore_default {
                    self.try_queue(PendingAction::RestoreDefault, now);
                }
            },
            Command::Refresh => self.refresh_all(now),
        }
        KeyEffect::Nothing
    }

    /// Asks for everything anew. The cached answers about modes must not satisfy
    /// a manual refresh.
    pub fn refresh_all(&mut self, now: u64)
        requires
            old(self).wf(),
        ensures
            all_refreshed(*old(self), now, *final(self)),
            final(self).wf(),
    {
        let ghost a = *self;
        let ok = self.refresh_schedulers(now);
        let ghost l = *self;
        let outcome = self.refresh_status();
        let ghost m = *self;
        self.mode_args.clear();
        let ghost f = *self;
        self.refresh_modes();
        let ghost p = *self;
        if ok {
            self.info("refreshed", now);
        }
        proof {
            assert(list_refreshed(a, now, l, ok));
            assert(status_refreshed(l, m, outcome));
            assert(modes_forgotten(m, f));
            assert(modes_refreshed(f, p));
            assert(refresh_noted(p, ok, now, *self));
        }
    }

    /// Selects the next scheduler, around the end.
    pub fn select_next(&mut self)
        requires
            old(self).wf(),
        ensures
            selected(*old(self), true, *final(self)),
            final(self).wf(),
    {
        if self.schedulers.len() > 0 {
            proof {
                lemma_cycled(self.selected as int, self.schedulers@.len() as int, true);
            }
            self.selected = if self.selected + 1 == self.schedulers.len() {
                0
            } else {
                self.selected + 1
            };
            self.refresh_modes();
        }
    }

    /// Selects the scheduler before, around the end.
    pub fn select_prev(&mut self)
        requires
            old(self).wf(),
        ensures
            selected(*old(self), false, *final(self)),
            final(self).wf(),
    {
        if self.schedulers.len() > 0 {
            proof {
                lemma_cycled(self.selected as int, self.schedulers@.len() as int, false);
            }
            self.selected = if self.selected == 0 {
                self.schedulers.len() - 1
            } else {
                self.selected - 1
            };
            self.refresh_modes();
        }
    }

    /// Scrolls the log up. The upper bound is clamped against the viewport by
    /// whoever knows its height.
    pub fn log_scroll_up(&mut self, lines: usize)
        ensures
            *final(self) == (App {
                log_scroll: scrolled_up(old(self).log_scroll, lines),
                ..*old(self)
            }),
    {
        self.log_scroll = self.log_scroll.saturating_add(lines);
    }

    /// Scrolls the log down.
    pub fn log_scroll_down(&mut self, lines: usize)
        ensures
            *final(self) == (App {
                log_scroll: scrolled_down(old(self).log_scroll, lines),
                ..*old(self)
            }),
    {
        self.log_scroll = self.log_scroll.saturating_sub(lines);
    }

    /// Key handling on the log screen.
    pub fn on_key_logs(&mut self, key: KeyEvent) -> (effect: KeyEffect)
        requires
            old(self).wf(),
        ensures
            (*final(self), effect) == logs_keyed(*old(self), key.code),
            final(self).wf(),
    {
        match key.code {
            KeyCode::Char('q') | KeyCode::Char('l') | KeyCode::Esc => {
                self.view = screen::View::Schedulers;
            },
            KeyCode::Up | KeyCode::Char('k') => self.log_scroll_up(1),
            KeyCode::Down | KeyCode::Char('j') => self.log_scroll_down(1),
            KeyCode::PageUp => self.log_scroll_up(self.log_page),
            KeyCode::PageDown => self.log_scroll_down(self.log_page),
            KeyCode::Char('g') => {
                self.log_scroll = usize::MAX;
            },
            KeyCode::Char('G') => {
                self.log_scroll = 0;
            },
            KeyCode::Char('b') => {
                self.log_previous_boot = !self.log_previous_boot;
                return KeyEffect::LoadLogs;
            },
            KeyCode::Char('u') => {
                self.log_unit = (self.log_unit + 1) % logs::UNITS.len();
                return KeyEffect::LoadLogs;
            },
            KeyCode::Char('R') => {
                return KeyEffect::LoadLogs;
            },
            _ => {},
        }
        KeyEffect::Nothing
    }
}

/// Scrolling up and down again by the same comes back, as far as the counter
/// goes.
pub proof fn lemma_scroll_inverse(scroll: usize, lines: usize)
    requires
        scroll + lines <= usize::MAX,
    ensures
        scrolled_down(scrolled_up(scroll, lines), lines) == scroll,
{
}

/// The key for the unit goes through all units and comes back.
pub proof fn lemma_units_go_round(unit: int)
    requires
        0 <= unit < logs::UNITS@.len(),
    ensures
        next_unit(unit) != unit,
        next_unit(next_unit(unit)) == unit,
{
    lemma_cycled(unit, logs::UNITS@.len() as int, true);
    lemma_cycled(next_unit(unit), logs::UNITS@.len() as int, true);
}

} // verus!
