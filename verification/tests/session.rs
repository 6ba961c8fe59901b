//! Actions, keys and the event loop, against a scripted backend.
use std::cell::RefCell;
use std::rc::Rc;

use scx_control::actions::ActionRest;
use scx_control::app::{App, PendingAction, REFRESH_EVERY};
use scx_control::backend::{
    BackendKind, Capabilities, ModeArgs, RuntimeStatus, SchedulerBackend, Status,
};
use scx_control::event_loop::{LoopStep, RunLoop};
use scx_control::input::{ArgsInput, KeyCode, KeyEvent};
use scx_control::keys::KeyEffect;
use scx_control::logs::{LogFetch, LogLine};
use scx_control::notices::MonitorEnd;
use scx_control::refresh::DaemonInstance;
use scx_control::sched::SchedMode;
use scx_control::screen::View;

/// What a backend was asked to do, oldest first.
type Orders = Rc<RefCell<Vec<String>>>;

struct Script {
    orders: Orders,
    status: Rc<RefCell<Result<Status, String>>>,
    schedulers: Rc<RefCell<Result<Vec<String>, String>>>,
    refuse: Rc<RefCell<Option<String>>>,
    caps: Capabilities,
    token: Rc<RefCell<Option<String>>>,
    modes: Option<ModeArgs>,
}

impl Script {
    fn new() -> Self {
        Script {
            orders: Rc::new(RefCell::new(Vec::new())),
            status: Rc::new(RefCell::new(Ok(idle()))),
            schedulers: Rc::new(RefCell::new(Ok(names(&["scx_bpfland", "scx_lavd"])))),
            refuse: Rc::new(RefCell::new(None)),
            caps: Capabilities {
                live_switch: true,
                modes: true,
                custom_args: true,
                restore_default: true,
            },
            token: Rc::new(RefCell::new(None)),
            modes: None,
        }
    }

    fn order(&self, text: String) -> Result<(), String> {
        self.orders.borrow_mut().push(text);
        match &*self.refuse.borrow() {
            Some(why) => Err(why.clone()),
            None => Ok(()),
        }
    }
}

impl SchedulerBackend for Script {
    fn label(&self) -> &'static str {
        "script"
    }
    fn instance_token(&self) -> Option<String> {
        self.token.borrow().clone()
    }
    fn capabilities(&self) -> Capabilities {
        self.caps
    }
    fn status(&self) -> Result<Status, String> {
        self.status.borrow().clone()
    }
    fn supported_schedulers(&self) -> Result<Vec<String>, String> {
        self.schedulers.borrow().clone()
    }
    fn mode_args(&self, _sched: &str) -> Result<ModeArgs, String> {
        self.modes.clone().ok_or_else(|| "no answer".to_owned())
    }
    fn start(&self, sched: &str, mode: SchedMode) -> Result<(), String> {
        self.order(format!("start {sched} {mode:?}"))
    }
    fn switch(&self, sched: &str, mode: SchedMode) -> Result<(), String> {
        self.order(format!("switch {sched} {mode:?}"))
    }
    fn start_with_args(&self, sched: &str, args: &[String]) -> Result<(), String> {
        self.order(format!("start {sched} {args:?}"))
    }
    fn switch_with_args(&self, sched: &str, args: &[String]) -> Result<(), String> {
        self.order(format!("switch {sched} {args:?}"))
    }
    fn stop(&self) -> Result<(), String> {
        self.order("stop".to_owned())
    }
    fn restart(&self) -> Result<(), String> {
        self.order("restart".to_owned())
    }
    fn restore_default(&self) -> Result<(), String> {
        self.order("restore".to_owned())
    }
}

fn names(list: &[&str]) -> Vec<String> {
    list.iter().map(|n| (*n).to_owned()).collect()
}

fn idle() -> Status {
    Status {
        current: None,
        mode: SchedMode::Auto,
        args: Vec::new(),
        default_sched: None,
        default_mode: SchedMode::Auto,
    }
}

fn runs(sched: &str, mode: SchedMode) -> Status {
    Status { current: Some(sched.to_owned()), mode, ..idle() }
}

fn app(script: Script) -> App<Script> {
    App::new(BackendKind::Loader, script).unwrap()
}

fn text(app: &App<Script>) -> &str {
    &app.message.as_ref().unwrap().text
}

fn is_error(app: &App<Script>) -> bool {
    app.message.as_ref().unwrap().is_error
}

fn key(code: KeyCode) -> KeyEvent {
    KeyEvent::from(code)
}

#[test]
fn a_backend_without_schedulers_is_refused_at_the_start() {
    let script = Script::new();
    *script.schedulers.borrow_mut() = Err("no list".to_owned());
    assert_eq!(App::new(BackendKind::Loader, script).err().as_deref(), Some("no list"));
}

#[test]
fn enter_starts_where_nothing_runs() {
    let script = Script::new();
    let orders = Rc::clone(&script.orders);
    let mut app = app(script);
    app.start_or_switch(7);
    assert_eq!(*orders.borrow(), ["start scx_bpfland Auto"]);
    assert_eq!(text(&app), "started scx_bpfland in auto mode");
    assert!(!is_error(&app));
    assert_eq!(app.message.as_ref().unwrap().shown_at, 7);
}

#[test]
fn enter_switches_where_something_runs() {
    let script = Script::new();
    let orders = Rc::clone(&script.orders);
    *script.status.borrow_mut() = Ok(runs("scx_lavd", SchedMode::Auto));
    let mut app = app(script);
    app.start_or_switch(0);
    assert_eq!(text(&app), "switched to scx_bpfland in auto mode");
    app.selected = 1;
    app.mode_idx = 1;
    app.start_or_switch(0);
    assert_eq!(text(&app), "switched scx_lavd to gaming mode");
    assert_eq!(*orders.borrow(), ["switch scx_bpfland Auto", "switch scx_lavd Gaming"]);
}

#[test]
fn a_mode_without_arguments_is_pointed_out() {
    let mut script = Script::new();
    script.modes = Some(vec![(SchedMode::Gaming, Vec::new())]);
    let mut app = app(script);
    app.refresh_modes();
    app.mode_idx = 1;
    app.start_or_switch(0);
    assert_eq!(
        text(&app),
        "started scx_bpfland in gaming mode — no arguments configured, scheduler defaults in use"
    );
}

#[test]
fn failures_of_a_start_and_a_switch_are_told_apart() {
    let script = Script::new();
    let status = Rc::clone(&script.status);
    *script.refuse.borrow_mut() = Some("denied".to_owned());
    let mut app = app(script);
    app.start_or_switch(0);
    assert_eq!(text(&app), "start scx_bpfland failed: denied");
    assert!(is_error(&app));
    *status.borrow_mut() = Ok(runs("scx_lavd", SchedMode::Auto));
    app.start_or_switch(0);
    assert_eq!(text(&app), "switch to scx_bpfland failed: denied");
    app.start_or_switch_with_args(&names(&["-k", "a b"]), 0);
    assert_eq!(text(&app), "switch to scx_bpfland with args '-k 'a b'' failed: denied");
}

#[test]
fn arguments_are_shown_in_shell_form() {
    let script = Script::new();
    let status = Rc::clone(&script.status);
    let orders = Rc::clone(&script.orders);
    let mut app = app(script);
    let args = names(&["-k", "a b"]);
    app.start_or_switch_with_args(&args, 0);
    assert_eq!(text(&app), "started scx_bpfland with args: -k 'a b' (session-only)");
    *status.borrow_mut() = Ok(runs("scx_bpfland", SchedMode::Auto));
    app.start_or_switch_with_args(&args, 0);
    assert_eq!(text(&app), "restarted scx_bpfland with args: -k 'a b' (session-only)");
    *status.borrow_mut() = Ok(runs("scx_lavd", SchedMode::Auto));
    app.start_or_switch_with_args(&args, 0);
    assert_eq!(text(&app), "switched to scx_bpfland with args: -k 'a b' (session-only)");
    assert_eq!(orders.borrow()[0], "start scx_bpfland [\"-k\", \"a b\"]");
    assert_eq!(orders.borrow()[2], "switch scx_bpfland [\"-k\", \"a b\"]");
}

#[test]
fn restart_applies_a_changed_mode() {
    let script = Script::new();
    let orders = Rc::clone(&script.orders);
    let status = Rc::clone(&script.status);
    *status.borrow_mut() = Ok(runs("scx_bpfland", SchedMode::Auto));
    let mut app = app(script);
    app.mode_idx = 4;
    app.restart_scheduler(0);
    assert_eq!(text(&app), "restarted scx_bpfland in server mode");

    // The same mode, another selection and custom arguments: a plain restart.
    app.mode_idx = 0;
    app.restart_scheduler(0);
    assert_eq!(text(&app), "restarted");
    app.mode_idx = 4;
    app.selected = 1;
    app.restart_scheduler(0);
    app.selected = 0;
    *status.borrow_mut() =
        Ok(Status { args: names(&["-k"]), ..runs("scx_bpfland", SchedMode::Auto) });
    app.restart_scheduler(0);
    assert_eq!(
        *orders.borrow(),
        ["switch scx_bpfland Server", "restart", "restart", "restart"]
    );
}

#[test]
fn a_failed_restart_into_a_mode_names_the_scheduler() {
    let script = Script::new();
    *script.status.borrow_mut() = Ok(runs("scx_bpfland", SchedMode::Auto));
    *script.refuse.borrow_mut() = Some("denied".to_owned());
    let mut app = app(script);
    app.mode_idx = 1;
    app.restart_scheduler(0);
    assert_eq!(text(&app), "restart scx_bpfland failed: denied");
    app.mode_idx = 0;
    app.restart_scheduler(0);
    assert_eq!(text(&app), "denied");
}

#[test]
fn queued_actions_run_after_the_frame() {
    let script = Script::new();
    let orders = Rc::clone(&script.orders);
    let mut app = app(script);
    let mut run = RunLoop::new(0);
    assert_eq!(run.after_draw(&mut app, 0), LoopStep::Redraw);
    assert!(run.primed);
    assert_eq!(run.after_draw(&mut app, 0), LoopStep::Poll);

    app.on_key(key(KeyCode::Char('s')), 1_000);
    assert_eq!(text(&app), "working…");
    assert!(orders.borrow().is_empty());
    assert_eq!(run.after_draw(&mut app, 1_000), LoopStep::Redraw);
    assert_eq!(*orders.borrow(), ["stop"]);
    assert_eq!(text(&app), "stopped");
    assert_eq!(run.after_draw(&mut app, 1_000), LoopStep::Poll);

    app.on_key(key(KeyCode::Char('d')), 2_000);
    run.after_draw(&mut app, 2_000);
    assert_eq!(text(&app), "restored default scheduler");
    app.on_key(key(KeyCode::Char('B')), 3_000);
    assert_eq!(run.after_draw(&mut app, 3_000), LoopStep::Toggle);
    app.on_key(key(KeyCode::Char('t')), 4_000);
    assert_eq!(run.after_draw(&mut app, 4_000), LoopStep::Monitor);
    assert_eq!(app.run_action(PendingAction::Monitor, 4_000), ActionRest::Monitor);
    app.on_key(key(KeyCode::Enter), 5_000);
    run.after_draw(&mut app, 5_000);
    app.on_key(key(KeyCode::Char('r')), 6_000);
    run.after_draw(&mut app, 6_000);
    assert_eq!(
        *orders.borrow(),
        ["stop", "restore", "start scx_bpfland Auto", "restart"]
    );
}

#[test]
fn actions_are_debounced() {
    let mut app = app(Script::new());
    app.on_key(key(KeyCode::Char('r')), 1_000);
    assert!(app.pending_action.take().is_some());
    app.on_key(key(KeyCode::Char('r')), 1_499);
    assert!(app.pending_action.is_none());
    app.on_key(key(KeyCode::Char('r')), 1_500);
    assert!(app.pending_action.is_some());
    assert!(!app.action_allowed(1_600));
    assert!(app.action_allowed(2_000));
}

#[test]
fn messages_expire_and_errors_stay() {
    let mut app = app(Script::new());
    app.notify("note", 1_000);
    app.expire_message(8_999);
    assert!(app.message.is_some());
    app.expire_message(9_000);
    assert!(app.message.is_none());
    app.error("bad", 1_000);
    app.expire_message(100_000);
    assert_eq!(text(&app), "bad");
}

#[test]
fn the_poll_follows_the_interval() {
    let mut app = app(Script::new());
    let mut run = RunLoop::new(0);
    run.after_draw(&mut app, 0);
    run.mark(100);
    assert!(!run.tick(&mut app, 100 + REFRESH_EVERY - 1));
    assert!(run.tick(&mut app, 100 + REFRESH_EVERY));
}

#[test]
fn selection_and_mode_go_round() {
    let mut app = app(Script::new());
    app.on_key(key(KeyCode::Up), 0);
    assert_eq!(app.selected, 1);
    app.on_key(key(KeyCode::Char('j')), 0);
    assert_eq!(app.selected, 0);
    app.on_key(key(KeyCode::Down), 0);
    app.on_key(key(KeyCode::Char('k')), 0);
    assert_eq!(app.selected, 0);
    app.on_key(key(KeyCode::BackTab), 0);
    assert_eq!(app.mode_idx, 4);
    app.on_key(key(KeyCode::Tab), 0);
    app.on_key(key(KeyCode::Char('m')), 0);
    assert_eq!(app.mode_idx, 1);
    app.on_key(key(KeyCode::Char('M')), 0);
    assert_eq!(app.mode_idx, 0);
}

#[test]
fn capabilities_gate_their_keys() {
    let mut script = Script::new();
    script.caps =
        Capabilities { live_switch: false, modes: false, custom_args: false, restore_default: false };
    let mut app = app(script);
    app.on_key(key(KeyCode::Tab), 0);
    assert_eq!(app.mode_idx, 0);
    app.on_key(key(KeyCode::Char('a')), 0);
    assert!(app.args_input.is_none());
    app.on_key(key(KeyCode::Char('d')), 0);
    assert!(app.pending_action.is_none());
    assert!(app.last_action.is_none());
}

#[test]
fn quitting_takes_q_or_escape() {
    for code in [KeyCode::Char('q'), KeyCode::Esc] {
        let mut app = app(Script::new());
        assert_eq!(app.on_key(key(code), 0), KeyEffect::Nothing);
        assert!(app.should_quit);
    }
}

#[test]
fn the_log_screen_has_keys_of_its_own() {
    let mut app = app(Script::new());
    assert_eq!(app.on_key(key(KeyCode::Char('l')), 0), KeyEffect::LoadLogs);
    assert_eq!(app.view, View::Logs);
    app.on_key(key(KeyCode::Down), 0);
    assert_eq!(app.log_scroll, 0);
    app.on_key(key(KeyCode::PageUp), 0);
    app.on_key(key(KeyCode::Char('k')), 0);
    assert_eq!(app.log_scroll, 21);
    app.on_key(key(KeyCode::PageDown), 0);
    assert_eq!(app.log_scroll, 1);
    app.on_key(key(KeyCode::Char('g')), 0);
    app.on_key(key(KeyCode::Up), 0);
    assert_eq!(app.log_scroll, usize::MAX);
    app.on_key(key(KeyCode::Char('G')), 0);
    assert_eq!(app.log_scroll, 0);
    assert_eq!(app.on_key(key(KeyCode::Char('b')), 0), KeyEffect::LoadLogs);
    assert!(app.log_previous_boot);
    assert_eq!(app.on_key(key(KeyCode::Char('u')), 0), KeyEffect::LoadLogs);
    assert_eq!(app.log_unit, 1);
    assert_eq!(app.on_key(key(KeyCode::Char('u')), 0), KeyEffect::LoadLogs);
    assert_eq!(app.log_unit, 0);
    assert_eq!(app.on_key(key(KeyCode::Char('R')), 0), KeyEffect::LoadLogs);
    assert_eq!(app.on_key(key(KeyCode::Char('x')), 0), KeyEffect::Nothing);
    app.on_key(key(KeyCode::Char('q')), 0);
    assert_eq!(app.view, View::Schedulers);
    assert!(!app.should_quit);
}

fn line(text: &str) -> LogLine {
    LogLine { time: String::new(), priority: 6, text: text.to_owned(), continuation: false }
}

#[test]
fn fetched_logs_replace_the_old_ones() {
    let mut app = app(Script::new());
    app.log_scroll = 9;
    app.take_logs(Ok(LogFetch { lines: vec![line("a"), line("b")], truncated: false }), 3);
    assert_eq!(text(&app), "loaded 2 lines from scx_loader.service (boot 0)");
    assert_eq!(app.log_scroll, 0);
    app.log_unit = 1;
    app.log_previous_boot = true;
    app.take_logs(Ok(LogFetch { lines: vec![line("c")], truncated: true }), 3);
    assert_eq!(
        text(&app),
        "loaded 1 lines from scx.service (boot -1) — older entries omitted, see journalctl for the full log"
    );
    app.take_logs(Err("journalctl failed".to_owned()), 3);
    assert_eq!(text(&app), "journalctl failed");
    assert!(app.log_lines.is_empty());
}

#[test]
fn a_refused_switch_of_the_backend_changes_nothing() {
    let mut app = app(Script::new());
    app.selected = 1;
    app.toggle_backend(Err("no bus".to_owned()), 0);
    assert_eq!(text(&app), "cannot switch backend: no bus (staying on script)");
    assert_eq!(app.backend_kind, BackendKind::Loader);
    assert_eq!(app.selected, 1);

    let empty = Script::new();
    *empty.schedulers.borrow_mut() = Err("no list".to_owned());
    app.toggle_backend(Ok(empty), 0);
    assert_eq!(text(&app), "cannot switch backend: no list (staying on script)");
    assert_eq!(app.backend_kind, BackendKind::Loader);
    assert_eq!(app.toggle_target(), BackendKind::Service);
}

#[test]
fn a_switch_of_the_backend_starts_over() {
    let mut app = app(Script::new());
    app.selected = 1;
    app.mode_idx = 3;
    app.daemon_instance = Some("old".to_owned());
    let other = Script::new();
    *other.schedulers.borrow_mut() = Ok(names(&["scx_cake", "scx_rusty"]));
    *other.status.borrow_mut() = Ok(runs("scx_rusty", SchedMode::Server));
    app.toggle_backend(Ok(other), 0);
    assert_eq!(text(&app), "switched to script backend");
    assert_eq!(app.backend_kind, BackendKind::Service);
    assert_eq!(app.selected_scheduler(), Some("scx_rusty"));
    assert_eq!(app.selected_mode(), SchedMode::Server);
    assert!(app.daemon_instance.is_none());
}

#[test]
fn a_manual_refresh_keeps_the_selection_by_name() {
    let script = Script::new();
    let schedulers = Rc::clone(&script.schedulers);
    let mut app = app(script);
    app.selected = 1;
    *schedulers.borrow_mut() = Ok(names(&["scx_cake", "scx_rusty", "scx_lavd"]));
    app.on_key(key(KeyCode::Char('R')), 0);
    assert_eq!(app.selected_scheduler(), Some("scx_lavd"));
    assert_eq!(text(&app), "refreshed");
    *schedulers.borrow_mut() = Ok(names(&["scx_cake"]));
    app.on_key(key(KeyCode::Char('R')), 0);
    assert_eq!(app.selected, 0);
    *schedulers.borrow_mut() = Err("gone".to_owned());
    app.on_key(key(KeyCode::Char('R')), 0);
    assert_eq!(text(&app), "scheduler list refresh failed: gone");
    assert_eq!(app.selected_scheduler(), Some("scx_cake"));
}

#[test]
fn the_instance_check_tells_three_cases_apart() {
    let script = Script::new();
    let token = Rc::clone(&script.token);
    let mut app = app(script);
    assert_eq!(app.check_daemon_instance(), DaemonInstance::Unknown);
    *token.borrow_mut() = Some(":1.1".to_owned());
    assert_eq!(app.check_daemon_instance(), DaemonInstance::Same);
    *token.borrow_mut() = Some(":1.2".to_owned());
    assert_eq!(app.check_daemon_instance(), DaemonInstance::Replaced);
    assert_eq!(app.check_daemon_instance(), DaemonInstance::Same);
    let outcome = app.refresh_status();
    assert!(outcome.status_ok);
    assert_eq!(outcome.instance, DaemonInstance::Same);
}

#[test]
fn the_end_of_the_monitor_is_reported() {
    let mut app = app(Script::new());
    app.monitor_ended(&MonitorEnd::Success, 0);
    assert_eq!(text(&app), "scxtop exited");
    assert!(!is_error(&app));
    app.monitor_ended(&MonitorEnd::Failed("exit status: 1".to_owned()), 0);
    assert_eq!(
        text(&app),
        "scxtop exited with exit status: 1 — it needs root/CAP_BPF; try running scxtui as root or granting scxtop capabilities"
    );
    app.monitor_ended(&MonitorEnd::NotFound, 0);
    assert_eq!(
        text(&app),
        "scxtop not found in PATH — install it (cargo install scxtop, or your distro's scx tools package)"
    );
    app.monitor_ended(&MonitorEnd::NotLaunched("denied".to_owned()), 0);
    assert_eq!(text(&app), "failed to launch scxtop: denied");
    assert!(is_error(&app));
}

#[test]
fn refused_arguments_say_what_to_fix() {
    let mut app = app(Script::new());
    app.args_input = Some(ArgsInput { buffer: "a 'b".to_owned(), cursor: 4 });
    app.submit_args(0);
    assert_eq!(
        text(&app),
        "invalid arguments: missing closing quote in 'a 'b' — quotes must be balanced and cannot span a comma"
    );
    app.args_input = Some(ArgsInput::default());
    app.submit_args(0);
    assert_eq!(
        text(&app),
        "arguments expanded to nothing — to run with scheduler defaults, press Esc and use Enter instead"
    );
    assert!(app.args_input.is_some());
}

#[test]
fn control_characters_are_not_typed() {
    let mut input = ArgsInput::default();
    input.press(KeyEvent { code: KeyCode::Char('c'), control: true });
    input.press(key(KeyCode::Char('ż')));
    input.press(key(KeyCode::Char('x')));
    assert_eq!(input.buffer, "żx");
    assert_eq!(input.cursor, 2);
    assert_eq!(input.byte_cursor(), 3);
    input.press(key(KeyCode::Left));
    assert_eq!(input.byte_cursor(), 2);
    input.press(key(KeyCode::Backspace));
    assert_eq!(input.buffer, "x");
    input.press(key(KeyCode::Backspace));
    input.press(key(KeyCode::Right));
    input.press(key(KeyCode::Right));
    input.press(key(KeyCode::Delete));
    assert_eq!(input.buffer, "x");
    assert_eq!(input.cursor, 1);
    input.press(key(KeyCode::Home));
    input.press(key(KeyCode::Delete));
    assert_eq!(input.buffer, "");
    assert_eq!(input.len_chars(), 0);
}

#[test]
fn a_backend_need_not_push_or_have_instances() {
    struct Plain;
    impl SchedulerBackend for Plain {
        fn label(&self) -> &'static str {
            "plain"
        }
        fn capabilities(&self) -> Capabilities {
            Capabilities { live_switch: false, modes: false, custom_args: false, restore_default: false }
        }
        fn status(&self) -> Result<Status, String> {
            Err("down".to_owned())
        }
        fn supported_schedulers(&self) -> Result<Vec<String>, String> {
            Ok(Vec::new())
        }
        fn mode_args(&self, _sched: &str) -> Result<ModeArgs, String> {
            Err("none".to_owned())
        }
        fn start(&self, _sched: &str, _mode: SchedMode) -> Result<(), String> {
            Ok(())
        }
        fn switch(&self, _sched: &str, _mode: SchedMode) -> Result<(), String> {
            Ok(())
        }
        fn start_with_args(&self, _sched: &str, _args: &[String]) -> Result<(), String> {
            Ok(())
        }
        fn switch_with_args(&self, _sched: &str, _args: &[String]) -> Result<(), String> {
            Ok(())
        }
        fn stop(&self) -> Result<(), String> {
            Ok(())
        }
        fn restart(&self) -> Result<(), String> {
            Ok(())
        }
        fn restore_default(&self) -> Result<(), String> {
            Ok(())
        }
    }
    assert_eq!(Plain.instance_token(), None);
    let pushed: Result<Option<RuntimeStatus>, String> = Plain.cached_status();
    assert_eq!(pushed, Ok(None));
    let mut app = App::new(BackendKind::Service, Plain).unwrap();
    assert_eq!(app.backend_label(), "plain");
    assert!(!app.capabilities().modes);
    assert_eq!(app.selected_scheduler(), None);
    app.on_key(key(KeyCode::Down), 0);
    app.start_or_switch(0);
    assert!(app.message.is_none());
    assert!(!app.refresh_status().status_ok);
}
