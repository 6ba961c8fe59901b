//! Application state.
use vstd::hash_map::StringHashMap;
use vstd::prelude::*;

use crate::backend::{BackendKind, Capabilities, ModeArgs, RuntimeStatus, SchedulerBackend, Status};
use crate::driver::{Call, Driver};
use crate::input::ArgsInput;
use crate::kernel::KernelState;
use crate::logs::LogLine;
use crate::notices;
use crate::sched::{SchedMode, MODES};
use crate::screen;
use crate::text;

verus! {

/// How often the input poll wakes up to redraw and refresh, in milliseconds.
pub const TICK: u64 = 250;

/// Poll cadence until the push channel proves itself, in milliseconds.
pub const REFRESH_EVERY: u64 = 5_000;

/// Relaxed cadence once push is confirmed, in milliseconds.
pub const SAFETY_REFRESH: u64 = 30_000;

/// Minimum spacing between two scheduler-affecting actions, in milliseconds.
/// Terminals deliver key autorepeat as plain presses, so without it, holding
/// `r` would fire one restart per repeat.
pub const ACTION_DEBOUNCE: u64 = 500;

/// How long informational messages stay in the message bar, in milliseconds.
/// Errors are exempt: they are actionable and stay until replaced.
pub const MESSAGE_TTL: u64 = 8_000;

/// Deferred user actions: queued by key handlers, executed by the event loop
/// right after the frame announcing them has been drawn.
#[derive(Debug)]
pub enum PendingAction {
    StartOrSwitch,
    /// Expanded content of the arguments field.
    StartOrSwitchWithArgs(Vec<String>),
    Stop,
    Restart,
    RestoreDefault,
    ToggleBackend,
    Monitor,
}

/// A notice in the message bar.
#[derive(Debug)]
pub struct Message {
    pub text: String,
    pub is_error: bool,
    /// When the message was posted, in milliseconds; drives its expiry.
    pub shown_at: u64,
}

/// Application state. Times are milliseconds on one clock of the caller's.
pub struct App<B> {
    pub backend: Driver<B>,
    pub backend_kind: BackendKind,
    pub schedulers: Vec<String>,
    pub selected: usize,
    pub mode_idx: usize,
    pub status: Option<Status>,
    /// The kernel's own view of `sched_ext`, `None` without kernel support.
    pub kernel: Option<KernelState>,
    /// Lazily filled per-scheduler answers to the backend's mode-argument query.
    /// An absent key means "not fetched yet or the query failed", never "nothing
    /// configured". Valid for the lifetime of one daemon instance.
    pub mode_args: StringHashMap<ModeArgs>,
    /// Last observed instance token; a change invalidates `mode_args`.
    pub daemon_instance: Option<String>,
    /// The last pushed snapshot. Only a difference against it is acted on.
    pub pushed: Option<RuntimeStatus>,
    /// Whether the push channel has earned the relaxed poll.
    pub push_confirmed: bool,
    /// Custom-arguments field; `Some` while the user is typing. While open it
    /// owns every key press.
    pub args_input: Option<ArgsInput>,
    pub message: Option<Message>,
    /// Time of the last scheduler-affecting action, for debouncing.
    pub last_action: Option<u64>,
    pub view: screen::View,
    /// Index into the units of the journal.
    pub log_unit: usize,
    /// `false` = current boot, `true` = previous boot.
    pub log_previous_boot: bool,
    /// Flattened journal lines, oldest first.
    pub log_lines: Vec<LogLine>,
    /// Scroll offset counted from the bottom; 0 sticks to the newest line.
    pub log_scroll: usize,
    /// Last known height of the log viewport.
    pub log_page: usize,
    /// Queued by key handlers, executed after the next draw.
    pub pending_action: Option<PendingAction>,
    pub should_quit: bool,
}

/// Whether `message` is the notice of `text`, posted at `now`.
pub open spec fn said(message: Option<Message>, text: Seq<char>, is_error: bool, now: u64) -> bool {
    message matches Some(m) && m.text@ == text && m.is_error == is_error && m.shown_at == now
}

/// Whether an action at `now` comes long enough after the last one.
pub open spec fn action_due(last: Option<u64>, now: u64) -> bool {
    last matches Some(t) ==> now >= t + ACTION_DEBOUNCE
}

/// Whether a message has been shown long enough to go.
pub open spec fn message_due(message: Option<Message>, now: u64) -> bool {
    message matches Some(m) && !m.is_error && now >= m.shown_at + MESSAGE_TTL
}

/// The arguments of the first entry for `mode`.
pub open spec fn args_in(modes: Seq<(SchedMode, Vec<String>)>, mode: SchedMode) -> Option<
    Vec<String>,
>
    decreases modes.len(),
{
    if modes.len() == 0 {
        None
    } else if modes[0].0 == mode {
        Some(modes[0].1)
    } else {
        args_in(modes.skip(1), mode)
    }
}

/// Whether an entry for `mode` has arguments.
pub open spec fn has_args(modes: Seq<(SchedMode, Vec<String>)>, mode: SchedMode) -> bool {
    exists|i: int|
        0 <= i < modes.len() && (#[trigger] modes[i]).0 == mode && modes[i].1@.len() > 0
}

fn find_args(modes: &ModeArgs, mode: SchedMode) -> (args: Option<&[String]>)
    ensures
        match args_in(modes@, mode) {
            Some(list) => args matches Some(a) && a@ == list@,
            None => args is None,
        },
{
    let mut i: usize = 0;
    assert(modes@.skip(0) =~= modes@);
    while i < modes.len()
        invariant
            i <= modes@.len(),
            args_in(modes@, mode) == args_in(modes@.skip(i as int), mode),
        decreases modes@.len() - i,
    {
        assert(modes@.skip(i as int)[0] == modes@[i as int]);
        assert(modes@.skip(i as int).skip(1) =~= modes@.skip(i + 1));
        if modes[i].0 == mode {
            return Some(modes[i].1.as_slice());
        }
        i += 1;
    }
    None
}

fn any_args(modes: &ModeArgs, mode: SchedMode) -> (yes: bool)
    ensures
        yes == has_args(modes@, mode),
{
    let mut i: usize = 0;
    while i < modes.len()
        invariant
            i <= modes@.len(),
            forall|k: int|
                0 <= k < i ==> (#[trigger] modes@[k]).0 != mode || modes@[k].1@.len() == 0,
        decreases modes@.len() - i,
    {
        if modes[i].0 == mode && modes[i].1.len() > 0 {
            assert(modes@[i as int].1@.len() > 0);
            return true;
        }
        i += 1;
    }
    false
}

impl<B: SchedulerBackend> App<B> {
    pub open spec fn wf(self) -> bool {
        &&& self.backend.honest()
        &&& self.mode_idx < MODES@.len()
        &&& self.schedulers@.len() > 0 ==> self.selected < self.schedulers@.len()
        &&& self.schedulers@.len() == 0 ==> self.selected == 0
        &&& self.log_unit < crate::logs::UNITS@.len()
        &&& self.args_input matches Some(input) ==> input@.wf()
        &&& self.push_confirmed ==> self.pushed is Some
    }

    /// The requests made of the backend so far.
    pub open spec fn log(self) -> Seq<Call> {
        self.backend.log()
    }

    /// Whether `after` talks to the same backend and has forgotten no request.
    pub open spec fn continued_by(self, after: Self) -> bool {
        &&& after.backend.backend() == self.backend.backend()
        &&& after.backend.log().len() >= self.backend.log().len()
        &&& after.backend.log().take(self.backend.log().len() as int) == self.backend.log()
    }

    /// The requests made between this state and `after`.
    pub open spec fn calls_until(self, after: Self) -> Seq<Call> {
        after.log().skip(self.log().len() as int)
    }

    /// The name of the selected scheduler.
    pub open spec fn chosen(self) -> Option<Seq<char>> {
        if self.selected < self.schedulers@.len() {
            Some(self.schedulers@[self.selected as int]@)
        } else {
            None
        }
    }

    /// The selected mode.
    pub open spec fn chosen_mode(self) -> SchedMode {
        MODES@[self.mode_idx as int]
    }

    /// The known answer about the modes of the selected scheduler.
    pub open spec fn known_modes(self) -> Option<ModeArgs> {
        match self.chosen() {
            Some(name) => if self.mode_args@.contains_key(name) {
                Some(self.mode_args@[name])
            } else {
                None
            },
            None => None,
        }
    }

    /// Whether the selected mode counts as configured: the automatic mode always
    /// does, and so does every mode while the answer is unknown.
    pub open spec fn mode_configured(self) -> bool {
        self.chosen_mode() == SchedMode::Auto || match self.known_modes() {
            Some(modes) => has_args(modes@, self.chosen_mode()),
            None => true,
        }
    }

    /// The name of the running scheduler, as far as the status tells.
    pub open spec fn running(self) -> Option<Seq<char>> {
        match self.status {
            Some(status) => text::opt_view(status.current),
            None => None,
        }
    }

    /// State at startup, with the backend's answer about its schedulers.
    pub fn with_schedulers(kind: BackendKind, backend: Driver<B>, schedulers: Vec<String>) -> (app:
        Self)
        requires
            backend.honest(),
        ensures
            app.wf(),
            app.backend == backend,
            app.backend_kind == kind,
            app.schedulers == schedulers,
            app.selected == 0,
            app.mode_idx == 0,
            app.status is None,
            app.kernel is None,
            app.mode_args@ == Map::<Seq<char>, ModeArgs>::empty(),
            app.daemon_instance is None,
            app.pushed is None,
            !app.push_confirmed,
            app.args_input is None,
            app.message is None,
            app.last_action is None,
            app.view == screen::View::Schedulers,
            app.log_unit == 0,
            !app.log_previous_boot,
            app.log_lines@.len() == 0,
            app.log_scroll == 0,
            app.log_page == 20,
            app.pending_action is None,
            !app.should_quit,
    {
        App {
            backend,
            backend_kind: kind,
            schedulers,
            selected: 0,
            mode_idx: 0,
            status: None,
            kernel: None,
            mode_args: StringHashMap::new(),
            daemon_instance: None,
            pushed: None,
            push_confirmed: false,
            args_input: None,
            message: None,
            last_action: None,
            view: screen::View::Schedulers,
            log_unit: 0,
            log_previous_boot: false,
            log_lines: Vec::new(),
            log_scroll: 0,
            log_page: 20,
            pending_action: None,
            should_quit: false,
        }
    }

    /// Starts on a backend. The schedulers are asked for once; nothing else is, so
    /// that the first frame appears at once.
    pub fn new(kind: BackendKind, backend: B) -> (app: Result<Self, String>)
        ensures
            match app {
                Ok(app) => {
                    &&& app.wf()
                    &&& app.backend.backend() == backend
                    &&& app.log() == seq![Call::Schedulers(Ok(app.schedulers))]
                    &&& app.backend_kind == kind
                    &&& app.selected == 0
                    &&& app.mode_idx == 0
                    &&& app.status is None
                    &&& app.kernel is None
                    &&& app.mode_args@ == Map::<Seq<char>, ModeArgs>::empty()
                    &&& app.daemon_instance is None
                    &&& app.pushed is None
                    &&& !app.push_confirmed
                    &&& app.args_input is None
                    &&& app.message is None
                    &&& app.last_action is None
                    &&& app.view == screen::View::Schedulers
                    &&& app.log_unit == 0
                    &&& !app.log_previous_boot
                    &&& app.log_lines@.len() == 0
                    &&& app.log_scroll == 0
                    &&& app.log_page == 20
                    &&& app.pending_action is None
                    &&& !app.should_quit
                },
                Err(why) => crate::driver::answered(backend, Call::Schedulers(Err(why))),
            },
    {
        let mut driver = Driver::new(backend);
        match driver.supported_schedulers() {
            Ok(schedulers) => Ok(Self::with_schedulers(kind, driver, schedulers)),
            Err(why) => Err(why),
        }
    }

    pub fn backend_label(&self) -> (label: &'static str)
        ensures
            crate::driver::answered(self.backend.backend(), Call::Label(label)),
    {
        self.backend.peek_label()
    }

    pub fn capabilities(&self) -> (caps: Capabilities)
        ensures
            crate::driver::answered(self.backend.backend(), Call::Capabilities(caps)),
    {
        self.backend.peek_capabilities()
    }

    pub fn selected_scheduler(&self) -> (name: Option<&str>)
        ensures
            match name {
                Some(name) => self.chosen() == Some(name@),
                None => self.chosen() is None,
            },
    {
        if self.selected < self.schedulers.len() {
            Some(self.schedulers[self.selected].as_str())
        } else {
            None
        }
    }

    /// A copy of the selected scheduler's name.
    pub fn selected_name(&self) -> (name: Option<String>)
        ensures
            text::opt_view(name) == self.chosen(),
    {
        if self.selected < self.schedulers.len() {
            Some(self.schedulers[self.selected].clone())
        } else {
            None
        }
    }

    pub fn selected_mode(&self) -> (mode: SchedMode)
        requires
            self.mode_idx < MODES@.len(),
        ensures
            mode == self.chosen_mode(),
    {
        MODES[self.mode_idx]
    }

    /// Resolved arguments for the selected scheduler and mode, when known. `None`
    /// covers "not fetched" and "query failed" as well as a mode that the daemon
    /// did not report.
    pub fn selected_mode_args(&self) -> (args: Option<&[String]>)
        requires
            self.mode_idx < MODES@.len(),
        ensures
            match self.known_modes() {
                Some(modes) => match args_in(modes@, self.chosen_mode()) {
                    Some(list) => args matches Some(a) && a@ == list@,
                    None => args is None,
                },
                None => args is None,
            },
    {
        match self.selected_scheduler() {
            Some(name) => match self.mode_args.get(name) {
                Some(modes) => find_args(modes, self.selected_mode()),
                None => None,
            },
            None => None,
        }
    }

    /// Whether the selected mode has configured arguments for the selected
    /// scheduler. An unknown answer fails open; a known one is exact.
    pub fn selected_mode_configured(&self) -> (yes: bool)
        requires
            self.mode_idx < MODES@.len(),
        ensures
            yes == self.mode_configured(),
    {
        let mode = self.selected_mode();
        if mode == SchedMode::Auto {
            return true;
        }
        match self.selected_scheduler() {
            Some(name) => match self.mode_args.get(name) {
                Some(modes) => any_args(modes, mode),
                None => true,
            },
            None => true,
        }
    }

    /// Shows an informational message.
    pub fn info(&mut self, text: &str, now: u64)
        ensures
            said(final(self).message, text@, false, now),
            *final(self) == (App { message: final(self).message, ..*old(self) }),
    {
        self.message = Some(Message { text: text.to_owned(), is_error: false, shown_at: now });
    }

    /// Shows an error.
    pub fn error(&mut self, text: &str, now: u64)
        ensures
            said(final(self).message, text@, true, now),
            *final(self) == (App { message: final(self).message, ..*old(self) }),
    {
        self.message = Some(Message { text: text.to_owned(), is_error: true, shown_at: now });
    }

    /// Shows a one-off notice, such as the one on a fallback at startup.
    pub fn notify(&mut self, text: &str, now: u64)
        ensures
            said(final(self).message, text@, false, now),
            *final(self) == (App { message: final(self).message, ..*old(self) }),
    {
        self.info(text, now);
    }

    /// Takes an informational message away once it has been shown long enough, so
    /// that stale feedback never reads as fresh. Errors stay until replaced.
    pub fn expire_message(&mut self, now: u64)
        ensures
            *final(self) == (App {
                message: if message_due(old(self).message, now) {
                    None
                } else {
                    old(self).message
                },
                ..*old(self)
            }),
    {
        let due = match &self.message {
            Some(m) => !m.is_error && now >= m.shown_at && now - m.shown_at >= MESSAGE_TTL,
            None => false,
        };
        if due {
            self.message = None;
        }
    }

    /// Debounce gate for scheduler-affecting actions. Arms the timer when enough
    /// time has passed since the last action, and swallows the event otherwise.
    pub fn action_allowed(&mut self, now: u64) -> (yes: bool)
        ensures
            yes == action_due(old(self).last_action, now),
            *final(self) == (App {
                last_action: if yes {
                    Some(now)
                } else {
                    old(self).last_action
                },
                ..*old(self)
            }),
    {
        if let Some(last) = self.last_action {
            if now < last || now - last < ACTION_DEBOUNCE {
                return false;
            }
        }
        self.last_action = Some(now);
        true
    }

    /// Queues an action behind a notice, so that the notice renders before the
    /// blocking backend call starts.
    pub fn queue(&mut self, action: PendingAction, now: u64)
        ensures
            said(final(self).message, notices::WORKING@, false, now),
            *final(self) == (App {
                message: final(self).message,
                pending_action: Some(action),
                ..*old(self)
            }),
    {
        self.info(notices::WORKING, now);
        self.pending_action = Some(action);
    }

    /// Moves the mode selector by one, around the end.
    pub fn cycle_mode(&mut self, forward: bool)
        requires
            old(self).mode_idx < MODES@.len(),
        ensures
            *final(self) == (App {
                mode_idx: cycled(old(self).mode_idx as int, MODES@.len() as int, forward) as usize,
                ..*old(self)
            }),
            final(self).mode_idx < MODES@.len(),
    {
        self.mode_idx = if forward {
            if self.mode_idx + 1 == MODES.len() {
                0
            } else {
                self.mode_idx + 1
            }
        } else {
            if self.mode_idx == 0 {
                MODES.len() - 1
            } else {
                self.mode_idx - 1
            }
        };
    }

    /// Where the selectors stand when they follow the running scheduler.
    pub open spec fn synced(self) -> Self {
        match self.running() {
            Some(name) => match text::views(self.schedulers@).index_of_first(name) {
                Some(i) => App {
                    selected: i as usize,
                    mode_idx: if self.status->0.args@.len() == 0 {
                        crate::sched::mode_index(self.status->0.mode) as usize
                    } else {
                        self.mode_idx
                    },
                    ..self
                },
                None => self,
            },
            None => self,
        }
    }

    /// Aligns the scheduler selection and the mode selector with what is actually
    /// running. All or nothing: a running scheduler outside the list leaves both
    /// selectors alone. The mode half is skipped for custom arguments, since no
    /// selector position represents that state.
    pub fn sync_selection_to_running(&mut self)
        requires
            old(self).wf(),
        ensures
            *final(self) == old(self).synced(),
            final(self).wf(),
    {
        let at = match &self.status {
            Some(status) => match &status.current {
                Some(current) => match text::position(&self.schedulers, current.as_str()) {
                    Some(i) => i,
                    None => {
                        return ;
                    },
                },
                None => {
                    return ;
                },
            },
            None => {
                return ;
            },
        };
        self.selected = at;
        let target = match &self.status {
            Some(status) => if status.args.len() == 0 {
                Some(crate::sched::mode_position(status.mode))
            } else {
                None
            },
            None => None,
        };
        if let Some(i) = target {
            self.mode_idx = i;
        }
    }

    /// Conservative until push is confirmed.
    pub fn refresh_interval(&self) -> (interval: u64)
        ensures
            interval == if self.push_confirmed {
                SAFETY_REFRESH
            } else {
                REFRESH_EVERY
            },
    {
        if self.push_confirmed {
            SAFETY_REFRESH
        } else {
            REFRESH_EVERY
        }
    }

    /// Takes over what was read of the kernel.
    pub fn set_kernel(&mut self, kernel: Option<KernelState>)
        ensures
            *final(self) == (App { kernel, ..*old(self) }),
    {
        self.kernel = kernel;
    }
}

/// One step around a ring of `len` positions.
pub open spec fn cycled(i: int, len: int, forward: bool) -> int {
    if forward {
        (i + 1) % len
    } else {
        (i + len - 1) % len
    }
}

/// A step around the ring stays within it, and only the ends wrap.
pub proof fn lemma_cycled(i: int, len: int, forward: bool)
    requires
        0 <= i < len,
    ensures
        cycled(i, len, forward) == if forward {
            if i + 1 == len {
                0
            } else {
                i + 1
            }
        } else if i == 0 {
            len - 1
        } else {
            i - 1
        },
{
    if forward {
        if i + 1 == len {
            vstd::arithmetic::div_mod::lemma_mod_self_0(len);
        } else {
            vstd::arithmetic::div_mod::lemma_small_mod((i + 1) as nat, len as nat);
        }
    } else if i == 0 {
        vstd::arithmetic::div_mod::lemma_small_mod((len - 1) as nat, len as nat);
    } else {
        assert(i + len - 1 == len + (i - 1));
        vstd::arithmetic::div_mod::lemma_mod_add_multiples_vanish(i - 1, len);
        vstd::arithmetic::div_mod::lemma_small_mod((i - 1) as nat, len as nat);
    }
}

/// A step forward and one back undo each other.
pub proof fn lemma_cycle_inverse(i: int, len: int, forward: bool)
    requires
        0 <= i < len,
    ensures
        0 <= cycled(i, len, forward) < len,
        cycled(cycled(i, len, forward), len, !forward) == i,
{
    lemma_cycled(i, len, forward);
    lemma_cycled(cycled(i, len, forward), len, !forward);
}

} // verus!
