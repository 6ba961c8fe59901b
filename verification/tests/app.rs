//! The application's state, driven through an in-memory backend.
use std::cell::RefCell;
use std::collections::HashMap;
use std::rc::Rc;

use scx_control::app::{App, PendingAction, REFRESH_EVERY, SAFETY_REFRESH};
use scx_control::backend::{
    BackendKind, Capabilities, ModeArgs, RuntimeStatus, SchedulerBackend, Status,
};
use scx_control::input::{KeyCode, KeyEvent};
use scx_control::sched::{SchedMode, MODES};

/// Minimal in-memory backend: enough for exercising selection and
/// caching logic without a D-Bus connection.
struct StubBackend {
    schedulers: Vec<String>,
    /// Per-scheduler answer for `mode_args`; a missing key errors,
    /// modeling a failed D-Bus query.
    modes: HashMap<String, ModeArgs>,
    /// How many times `mode_args` reached the backend, shared with the
    /// test so caching is observable from the outside.
    mode_queries: Rc<RefCell<usize>>,
    /// Current instance token, shared so a test can "restart" the
    /// daemon underneath the app.
    token: Rc<RefCell<Option<String>>>,
    /// `None` = no push channel.
    cached: Rc<RefCell<Option<Status>>>,
    /// When set, `cached_status` errors — models the daemon side of
    /// the push channel going away.
    push_broken: Rc<RefCell<bool>>,
    generation: Rc<RefCell<String>>,
    /// How many times `status` reached the backend, shared with the
    /// test so the dispute tripwire is observable from the outside.
    status_queries: Rc<RefCell<usize>>,
    /// The authoritative answer `status` returns, shared so a test
    /// can model what the daemon actually reports — as opposed to
    /// what the (possibly stale) push snapshot claims.
    truth: Rc<RefCell<Status>>,
    /// When set, `status` errors after counting the attempt — models
    /// the authoritative fetch failing (a dead daemon, a D-Bus
    /// hiccup) independently of the push channel.
    status_broken: Rc<RefCell<bool>>,
}

impl StubBackend {
    fn new() -> Self {
        Self {
            schedulers: vec!["scx_bpfland".into(), "scx_lavd".into(), "scx_cake".into()],
            modes: HashMap::new(),
            mode_queries: Rc::new(RefCell::new(0)),
            token: Rc::new(RefCell::new(None)),
            cached: Rc::new(RefCell::new(None)),
            push_broken: Rc::new(RefCell::new(false)),
            generation: Rc::new(RefCell::new(String::from(":1.1"))),
            status_queries: Rc::new(RefCell::new(0)),
            truth: Rc::new(RefCell::new(Status {
                current: None,
                mode: SchedMode::Auto,
                args: Vec::new(),
                default_sched: None,
                default_mode: SchedMode::Auto,
            })),
            status_broken: Rc::new(RefCell::new(false)),
        }
    }
}

impl SchedulerBackend for StubBackend {
    fn label(&self) -> &'static str {
        "stub"
    }
    fn instance_token(&self) -> Option<String> {
        self.token.borrow().clone()
    }
    fn capabilities(&self) -> Capabilities {
        Capabilities {
            live_switch: true,
            modes: true,
            custom_args: true,
            restore_default: true,
        }
    }
    fn status(&self) -> Result<Status, String> {
        *self.status_queries.borrow_mut() += 1;
        if *self.status_broken.borrow() {
            return Err("authoritative fetch broken".to_owned());
        }
        // The configured authoritative answer; defaults to a benign
        // "nothing running", so tests may drive refresh paths
        // without setting it up.
        Ok(self.truth.borrow().clone())
    }
    fn supported_schedulers(&self) -> Result<Vec<String>, String> {
        Ok(self.schedulers.clone())
    }
    fn cached_status(&self) -> Result<Option<RuntimeStatus>, String> {
        if *self.push_broken.borrow() {
            return Err("push channel broken".to_owned());
        }
        Ok(self.cached.borrow().as_ref().map(|status| RuntimeStatus {
            current: status.current.clone(),
            mode: status.mode,
            args: status.args.clone(),
            generation: self.generation.borrow().clone(),
        }))
    }
    fn mode_args(&self, sched: &str) -> Result<ModeArgs, String> {
        *self.mode_queries.borrow_mut() += 1;
        self.modes
            .get(sched)
            .cloned()
            .ok_or_else(|| format!("no mode answer configured for {sched}"))
    }
    fn start(&self, _sched: &str, _mode: SchedMode) -> Result<(), String> {
        Ok(())
    }
    fn switch(&self, _sched: &str, _mode: SchedMode) -> Result<(), String> {
        Ok(())
    }
    fn start_with_args(&self, _sched: &str, _args: &[String]) -> Result<(), String> {
        Ok(())
    }
    fn switch_with_args(&self, _sched: &str, _args: &[String]) -> Result<(), String> {
        Ok(())
    }
    fn stop(&self) -> Result<(), String> {
        Ok(())
    }
    fn restart(&self) -> Result<(), String> {
        Ok(())
    }
    fn restore_default(&self) -> Result<(), String> {
        Ok(())
    }
}

/// Answer for the default selection (`scx_bpfland`): gaming has
/// arguments, powersave is present but empty, the rest untouched.
fn bpfland_modes() -> ModeArgs {
    vec![
        (SchedMode::Auto, Vec::new()),
        (
            SchedMode::Gaming,
            vec!["-k".into(), "-s".into(), "5000".into()],
        ),
        (SchedMode::PowerSave, Vec::new()),
    ]
}

fn app_with_backend(backend: StubBackend) -> App<StubBackend> {
    App::new(BackendKind::Loader, backend).unwrap()
}

fn app_with_status(status: Status) -> App<StubBackend> {
    let mut app = app_with_backend(StubBackend::new());
    app.status = Some(status);
    app
}

fn select_mode(app: &mut App<StubBackend>, mode: SchedMode) {
    app.mode_idx = MODES.iter().position(|m| *m == mode).unwrap();
}

fn running(current: &str, mode: SchedMode, args: &[&str]) -> Status {
    Status {
        current: Some(current.to_owned()),
        mode,
        args: args.iter().map(|a| (*a).to_owned()).collect(),
        default_sched: None,
        default_mode: SchedMode::Auto,
    }
}

#[test]
fn configured_follows_the_cached_argument_lists() {
    let mut backend = StubBackend::new();
    backend.modes.insert("scx_bpfland".into(), bpfland_modes());
    let mut app = app_with_backend(backend);
    app.refresh_modes();

    select_mode(&mut app, SchedMode::Auto);
    assert!(app.selected_mode_configured(), "Auto always counts");
    select_mode(&mut app, SchedMode::Gaming);
    assert!(app.selected_mode_configured(), "non-empty arguments");
    select_mode(&mut app, SchedMode::PowerSave);
    assert!(
        !app.selected_mode_configured(),
        "present in the answer with an empty argument list"
    );
    select_mode(&mut app, SchedMode::Server);
    assert!(
        !app.selected_mode_configured(),
        "absent from a successful answer means not configured"
    );
}

#[test]
fn unknown_answer_fails_open() {
    // No cache entry — the query failed and nothing was stored. Every
    // mode must count as configured so a transient D-Bus hiccup never
    // produces a scary warning.
    let mut app = app_with_backend(StubBackend::new());
    select_mode(&mut app, SchedMode::Server);
    assert!(app.selected_mode_configured());
}

#[test]
fn selected_mode_args_follows_the_selection() {
    let mut backend = StubBackend::new();
    backend.modes.insert("scx_bpfland".into(), bpfland_modes());
    let mut app = app_with_backend(backend);
    app.refresh_modes();

    select_mode(&mut app, SchedMode::Gaming);
    let expected = ["-k", "-s", "5000"].map(str::to_string);
    assert_eq!(app.selected_mode_args(), Some(&expected[..]));

    select_mode(&mut app, SchedMode::Server);
    assert_eq!(
        app.selected_mode_args(),
        None,
        "a mode absent from the answer has nothing to preview"
    );

    // scx_lavd has no cache entry at all: same outcome, for the
    // "unknown" reason.
    app.selected = 1;
    assert_eq!(app.selected_mode_args(), None);
}

#[test]
fn cache_serves_repeat_queries() {
    let mut backend = StubBackend::new();
    backend.modes.insert("scx_bpfland".into(), bpfland_modes());
    let queries = Rc::clone(&backend.mode_queries);
    let mut app = app_with_backend(backend);

    app.refresh_modes();
    app.refresh_modes();
    assert_eq!(*queries.borrow(), 1, "second call must hit the cache");
}

#[test]
fn failed_query_is_not_cached() {
    // The stub has no answer for any scheduler, so every query fails.
    let backend = StubBackend::new();
    let queries = Rc::clone(&backend.mode_queries);
    let mut app = app_with_backend(backend);

    app.refresh_modes();
    app.refresh_modes();
    assert_eq!(
        *queries.borrow(),
        2,
        "a failure must stay uncached so the next call retries"
    );
}

#[test]
fn daemon_restart_clears_the_cache() {
    let mut backend = StubBackend::new();
    backend.modes.insert("scx_bpfland".into(), bpfland_modes());
    let queries = Rc::clone(&backend.mode_queries);
    let token = Rc::clone(&backend.token);
    let mut app = app_with_backend(backend);

    *token.borrow_mut() = Some(":1.7".into());
    app.check_daemon_instance();
    app.refresh_modes();
    assert_eq!(*queries.borrow(), 1);

    // Same daemon: the periodic check must not disturb the cache.
    app.check_daemon_instance();
    app.refresh_modes();
    assert_eq!(*queries.borrow(), 1);

    // "Restart" the daemon: new unique name, cache dropped and the
    // selected scheduler refetched immediately.
    *token.borrow_mut() = Some(":1.9".into());
    app.check_daemon_instance();
    assert_eq!(*queries.borrow(), 2);
}

#[test]
fn manual_refresh_bypasses_the_cache() {
    let mut backend = StubBackend::new();
    backend.modes.insert("scx_bpfland".into(), bpfland_modes());
    let queries = Rc::clone(&backend.mode_queries);
    let mut app = app_with_backend(backend);

    app.refresh_modes();
    assert_eq!(*queries.borrow(), 1);
    app.on_key(KeyEvent::from(KeyCode::Char('R')), 0);
    assert_eq!(
        *queries.borrow(),
        2,
        "R must refetch instead of serving the cache"
    );
}

fn key(code: KeyCode) -> KeyEvent {
    KeyEvent::from(code)
}

fn type_str(app: &mut App<StubBackend>, text: &str) {
    for c in text.chars() {
        app.on_key(key(KeyCode::Char(c)), 0);
    }
}

#[test]
fn args_field_opens_on_a_and_owns_global_keys() {
    let mut app = app_with_backend(StubBackend::new());
    app.on_key(key(KeyCode::Char('a')), 0);
    assert!(app.args_input.is_some());

    // 'q' quits globally, but inside the field it is just a letter.
    app.on_key(key(KeyCode::Char('q')), 0);
    assert!(!app.should_quit);
    assert_eq!(app.args_input.as_ref().unwrap().buffer, "q");

    // Esc closes the field instead of quitting the app.
    app.on_key(key(KeyCode::Esc), 0);
    assert!(app.args_input.is_none());
    assert!(!app.should_quit);
}

#[test]
fn args_field_edits_at_the_character_cursor() {
    let mut app = app_with_backend(StubBackend::new());
    app.on_key(key(KeyCode::Char('a')), 0);
    type_str(&mut app, "ad");
    app.on_key(key(KeyCode::Left), 0);
    type_str(&mut app, "bc");
    app.on_key(key(KeyCode::End), 0);
    app.on_key(key(KeyCode::Backspace), 0);
    assert_eq!(app.args_input.as_ref().unwrap().buffer, "abc");

    // Multi-byte characters: the cursor counts characters, not bytes.
    app.on_key(key(KeyCode::Home), 0);
    type_str(&mut app, "żó");
    app.on_key(key(KeyCode::Home), 0);
    app.on_key(key(KeyCode::Delete), 0);
    assert_eq!(app.args_input.as_ref().unwrap().buffer, "óabc");
}

#[test]
fn args_parse_error_keeps_the_field_open() {
    let mut app = app_with_backend(StubBackend::new());
    app.on_key(key(KeyCode::Char('a')), 0);
    type_str(&mut app, "--name \"foo");
    app.on_key(key(KeyCode::Enter), 0);

    assert!(app.args_input.is_some(), "the user must be able to fix it");
    assert!(app.message.as_ref().unwrap().is_error);
    assert!(app.pending_action.is_none());
}

#[test]
fn args_empty_input_is_rejected() {
    let mut app = app_with_backend(StubBackend::new());
    app.on_key(key(KeyCode::Char('a')), 0);
    type_str(&mut app, "   ");
    app.on_key(key(KeyCode::Enter), 0);

    assert!(app.args_input.is_some());
    assert!(app.message.as_ref().unwrap().is_error);
    assert!(app.pending_action.is_none());
}

#[test]
fn args_valid_input_queues_the_expanded_action() {
    let mut app = app_with_backend(StubBackend::new());
    app.on_key(key(KeyCode::Char('a')), 0);
    type_str(&mut app, "-s 20000,-m powersave");
    app.on_key(key(KeyCode::Enter), 0);

    assert!(app.args_input.is_none(), "a queued action closes the field");
    let Some(PendingAction::StartOrSwitchWithArgs(args)) = &app.pending_action else {
        panic!("expected a queued with-args action");
    };
    assert_eq!(
        args,
        &["-s", "20000", "-m", "powersave"]
            .map(str::to_string)
            .to_vec()
    );
}

#[test]
fn sync_aligns_selection_and_mode_with_running_scheduler() {
    let mut app = app_with_status(running("scx_lavd", SchedMode::Gaming, &[]));
    app.sync_selection_to_running();
    assert_eq!(app.selected_scheduler(), Some("scx_lavd"));
    assert_eq!(app.selected_mode(), SchedMode::Gaming);
}

#[test]
fn sync_with_custom_args_keeps_mode_selector_untouched() {
    let mut app = app_with_status(running(
        "scx_cake",
        SchedMode::Gaming,
        &["--slice-us", "500"],
    ));
    app.sync_selection_to_running();
    // Selection follows the running scheduler, but no selector position
    // represents "custom args", so the mode stays where it was.
    assert_eq!(app.selected_scheduler(), Some("scx_cake"));
    assert_eq!(app.selected_mode(), SchedMode::Auto);
}

#[test]
fn sync_with_unknown_scheduler_is_a_full_no_op() {
    // A hand-launched scheduler outside the advertised list must not
    // touch either selector: syncing only the mode would pair the
    // foreign scheduler's mode with an unrelated selection.
    let mut app = app_with_status(running("scx_homebrew", SchedMode::Server, &[]));
    app.selected = 1;
    app.mode_idx = 1;
    app.sync_selection_to_running();
    assert_eq!(app.selected_scheduler(), Some("scx_lavd"));
    assert_eq!(app.selected_mode(), SchedMode::Gaming);
}

#[test]
fn sync_with_nothing_running_is_a_no_op() {
    let mut app = app_with_status(Status {
        current: None,
        mode: SchedMode::Auto,
        args: Vec::new(),
        default_sched: None,
        default_mode: SchedMode::Auto,
    });
    app.mode_idx = 2;
    app.sync_selection_to_running();
    assert_eq!(app.selected, 0);
    assert_eq!(app.mode_idx, 2);
}

fn idle_status() -> Status {
    Status {
        current: None,
        mode: SchedMode::Auto,
        args: Vec::new(),
        default_sched: None,
        default_mode: SchedMode::Auto,
    }
}

fn running_status(sched: &str) -> Status {
    Status {
        current: Some(sched.into()),
        ..idle_status()
    }
}

fn running_with_args(sched: &str, args: &[&str]) -> Status {
    Status {
        args: args.iter().map(ToString::to_string).collect(),
        ..running_status(sched)
    }
}

#[test]
fn first_push_read_is_baseline_only() {
    let backend = StubBackend::new();
    let cached = Rc::clone(&backend.cached);
    let mut app = app_with_backend(backend);
    *cached.borrow_mut() = Some(running_status("scx_bpfland"));

    app.apply_pushed_status();

    // The snapshot became the baseline but was not treated as news:
    // the status panel is untouched, the poll stays conservative.
    assert!(app.status.is_none());
    assert_eq!(app.refresh_interval(), REFRESH_EVERY);
}

#[test]
fn push_movement_fetches_truth_and_relaxes_the_poll() {
    let backend = StubBackend::new();
    let cached = Rc::clone(&backend.cached);
    let token = Rc::clone(&backend.token);
    let queries = Rc::clone(&backend.status_queries);
    let truth = Rc::clone(&backend.truth);
    let mut app = app_with_backend(backend);
    *token.borrow_mut() = Some("owner-1".into());
    *cached.borrow_mut() = Some(idle_status());
    app.apply_pushed_status();
    assert_eq!(*queries.borrow(), 0);

    *truth.borrow_mut() = running_status("scx_cake");
    *cached.borrow_mut() = Some(running_status("scx_cake"));
    app.apply_pushed_status();

    // A moved snapshot rings the bell: one authoritative fetch, its
    // answer on the panel, and the safety poll takes over from the
    // 5s poll.
    assert_eq!(*queries.borrow(), 1);
    assert_eq!(
        app.status.as_ref().and_then(|s| s.current.as_deref()),
        Some("scx_cake")
    );
    assert_eq!(app.refresh_interval(), SAFETY_REFRESH);
}

#[test]
fn push_payload_is_the_authoritative_answer_not_the_cache() {
    // The cache decides *whether* to fetch, never *what* to display:
    // when the two disagree — a torn read of the three getters, or
    // any staleness — the fetched answer wins, within the same tick.
    let backend = StubBackend::new();
    let cached = Rc::clone(&backend.cached);
    let token = Rc::clone(&backend.token);
    let truth = Rc::clone(&backend.truth);
    let mut app = app_with_backend(backend);
    *token.borrow_mut() = Some("owner-1".into());
    *cached.borrow_mut() = Some(idle_status());
    app.apply_pushed_status();

    *truth.borrow_mut() = running_status("scx_lavd");
    *cached.borrow_mut() = Some(running_status("scx_cake"));
    app.apply_pushed_status();

    assert_eq!(
        app.status.as_ref().and_then(|s| s.current.as_deref()),
        Some("scx_lavd")
    );
}

#[test]
fn frozen_push_snapshot_never_overrides_polled_truth() {
    let backend = StubBackend::new();
    let cached = Rc::clone(&backend.cached);
    let mut app = app_with_backend(backend);
    // A daemon that never emits: the snapshot freezes at its first
    // value, here claiming scx_bpfland forever.
    *cached.borrow_mut() = Some(running_status("scx_bpfland"));
    app.apply_pushed_status();

    // The safety poll later learns the actual truth.
    app.status = Some(running_status("scx_lavd"));

    // Any number of further reads of the frozen snapshot must neither
    // clobber that truth nor relax the poll.
    app.apply_pushed_status();
    app.apply_pushed_status();
    assert_eq!(
        app.status.as_ref().and_then(|s| s.current.as_deref()),
        Some("scx_lavd")
    );
    assert_eq!(app.refresh_interval(), REFRESH_EVERY);
}

#[test]
fn backend_without_push_channel_keeps_polling() {
    let mut app = app_with_backend(StubBackend::new());

    app.apply_pushed_status();

    assert!(app.status.is_none());
    assert_eq!(app.refresh_interval(), REFRESH_EVERY);
}

#[test]
fn broken_push_channel_falls_back_to_the_conservative_poll() {
    let backend = StubBackend::new();
    let cached = Rc::clone(&backend.cached);
    let broken = Rc::clone(&backend.push_broken);
    let token = Rc::clone(&backend.token);
    let mut app = app_with_backend(backend);

    // Confirmed, relaxed channel...
    *token.borrow_mut() = Some("owner-1".into());
    *cached.borrow_mut() = Some(idle_status());
    app.apply_pushed_status();
    *cached.borrow_mut() = Some(running_status("scx_cake"));
    app.apply_pushed_status();
    assert_eq!(app.refresh_interval(), SAFETY_REFRESH);

    // ...whose daemon side goes away: back to the conservative poll.
    *broken.borrow_mut() = true;
    app.apply_pushed_status();
    assert_eq!(app.refresh_interval(), REFRESH_EVERY);

    // A repaired channel starts from scratch: the first read is a
    // baseline again, not a change to act on.
    *broken.borrow_mut() = false;
    *cached.borrow_mut() = Some(idle_status());
    let polled = app.status.clone();
    app.apply_pushed_status();
    assert_eq!(app.status, polled);
    assert_eq!(app.refresh_interval(), REFRESH_EVERY);
}

#[test]
fn replaced_daemon_must_re_earn_the_relaxed_poll() {
    let backend = StubBackend::new();
    let cached = Rc::clone(&backend.cached);
    let token = Rc::clone(&backend.token);
    let mut app = app_with_backend(backend);

    // Confirmed channel against the first daemon instance.
    *token.borrow_mut() = Some("owner-1".into());
    app.refresh_status();
    *cached.borrow_mut() = Some(idle_status());
    app.apply_pushed_status();
    *cached.borrow_mut() = Some(running_status("scx_cake"));
    app.apply_pushed_status();
    assert_eq!(app.refresh_interval(), SAFETY_REFRESH);

    // The daemon gets replaced. The stub keeps serving the old
    // snapshot values on purpose — modeling a cache that never
    // errors after owner loss — because the reset must not depend
    // on the error path firing.
    *token.borrow_mut() = Some("owner-2".into());
    app.refresh_status();
    assert_eq!(app.refresh_interval(), REFRESH_EVERY);

    // The frozen snapshot is a baseline for the new instance, not a
    // change to act on.
    let polled = app.status.clone();
    app.apply_pushed_status();
    assert_eq!(app.status, polled);
    assert_eq!(app.refresh_interval(), REFRESH_EVERY);
}

#[test]
fn daemon_outage_drops_the_relaxed_cadence_but_keeps_config_caches() {
    let mut backend = StubBackend::new();
    backend
        .modes
        .insert("scx_bpfland".to_owned(), bpfland_modes());
    let cached = Rc::clone(&backend.cached);
    let token = Rc::clone(&backend.token);
    let mut app = app_with_backend(backend);

    // Healthy, confirmed instance with a populated mode cache.
    *token.borrow_mut() = Some("owner-1".into());
    app.refresh_modes();
    assert!(app.mode_args.contains_key("scx_bpfland"));
    *cached.borrow_mut() = Some(idle_status());
    app.apply_pushed_status();
    *cached.borrow_mut() = Some(running_status("scx_cake"));
    app.apply_pushed_status();
    assert_eq!(app.refresh_interval(), SAFETY_REFRESH);

    // Owner gone. The confirmation must not survive the outage, but
    // known-good config answers must — a mere hiccup looks exactly
    // the same from here, and their staleness across a *replacement*
    // is what the token-change reset handles once a new owner
    // appears.
    *token.borrow_mut() = None;
    app.refresh_status();
    assert_eq!(app.refresh_interval(), REFRESH_EVERY);
    assert!(app.mode_args.contains_key("scx_bpfland"));
}

#[test]
fn dying_gasp_rings_the_bell_but_extends_no_trust() {
    let backend = StubBackend::new();
    let cached = Rc::clone(&backend.cached);
    let token = Rc::clone(&backend.token);
    let broken = Rc::clone(&backend.status_broken);
    let mut app = app_with_backend(backend);

    // Confirmed channel against a live owner.
    *token.borrow_mut() = Some("owner-1".into());
    *cached.borrow_mut() = Some(running_status("scx_cake"));
    app.apply_pushed_status();
    *cached.borrow_mut() = Some(running_status("scx_lavd"));
    app.apply_pushed_status();
    assert_eq!(app.refresh_interval(), SAFETY_REFRESH);

    // Clean shutdown: show unknown, extend no trust.
    *cached.borrow_mut() = Some(idle_status());
    *token.borrow_mut() = None;
    *broken.borrow_mut() = true;
    app.apply_pushed_status();
    assert_eq!(app.status, None);
    assert_eq!(app.refresh_interval(), REFRESH_EVERY);
}

#[test]
fn failed_fetch_never_confirms_the_push() {
    let backend = StubBackend::new();
    let cached = Rc::clone(&backend.cached);
    let token = Rc::clone(&backend.token);
    let broken = Rc::clone(&backend.status_broken);
    let queries = Rc::clone(&backend.status_queries);
    let truth = Rc::clone(&backend.truth);
    let mut app = app_with_backend(backend);

    // Confirmed channel against owner-1.
    *token.borrow_mut() = Some("owner-1".into());
    *truth.borrow_mut() = running_status("scx_cake");
    *cached.borrow_mut() = Some(idle_status());
    app.apply_pushed_status();
    *cached.borrow_mut() = Some(running_status("scx_cake"));
    app.apply_pushed_status();
    assert_eq!(app.refresh_interval(), SAFETY_REFRESH);

    // Fetch fails, same owner: show unknown, revoke trust.
    *broken.borrow_mut() = true;
    *cached.borrow_mut() = Some(running_status("scx_lavd"));
    app.apply_pushed_status();
    let attempts = *queries.borrow();

    assert_eq!(app.status, None);
    assert_eq!(app.refresh_interval(), REFRESH_EVERY);

    // The baseline advanced despite the failure: the same snapshot
    // must not ring the bell four times a second — recovery rides
    // the (now conservative) safety poll instead.
    app.apply_pushed_status();
    assert_eq!(*queries.borrow(), attempts);
}

#[test]
fn stale_owner_keys_never_return_on_later_partial_changes() {
    let backend = StubBackend::new();
    let cached = Rc::clone(&backend.cached);
    let token = Rc::clone(&backend.token);
    let queries = Rc::clone(&backend.status_queries);
    let truth = Rc::clone(&backend.truth);
    let mut app = app_with_backend(backend);

    // Act 1: confirmed channel against owner-1, whose actual state
    // carries arguments — the key that will go stale.
    *token.borrow_mut() = Some("owner-1".into());
    *truth.borrow_mut() = running_with_args("scx_cake", &["--foo"]);
    *cached.borrow_mut() = Some(idle_status());
    app.apply_pushed_status();
    *cached.borrow_mut() = Some(running_with_args("scx_cake", &["--foo"]));
    app.apply_pushed_status();
    assert_eq!(app.refresh_interval(), SAFETY_REFRESH);
    let polls_so_far = *queries.borrow();

    // Act 2: owner-2 replaces owner-1 and its full-state
    // announcement is missed. Its diff re-emits only the scheduler,
    // so the cache mixes owner-2's scheduler with owner-1's
    // leftover arguments — a state no daemon ever held.
    *token.borrow_mut() = Some("owner-2".into());
    *truth.borrow_mut() = running_status("scx_lavd");
    *cached.borrow_mut() = Some(Status {
        current: Some("scx_lavd".into()),
        ..running_with_args("scx_lavd", &["--foo"])
    });
    app.apply_pushed_status();

    // One authoritative fetch answered instead of the chimera, and
    // the replacement movement did not confirm.
    assert_eq!(*queries.borrow(), polls_so_far + 1);
    assert_eq!(app.status, Some(running_status("scx_lavd")));
    assert_eq!(app.refresh_interval(), REFRESH_EVERY);

    // Partial change leaves a stale cache key; show owner-2's truth.
    *truth.borrow_mut() = Status {
        mode: SchedMode::Gaming,
        ..running_status("scx_lavd")
    };
    *cached.borrow_mut() = Some(Status {
        mode: SchedMode::Gaming,
        ..running_with_args("scx_lavd", &["--foo"])
    });
    app.apply_pushed_status();

    assert_eq!(*queries.borrow(), polls_so_far + 2);
    let status = app.status.as_ref().expect("fetched");
    assert_eq!(status.mode, SchedMode::Gaming);
    assert!(status.args.is_empty(), "stale owner-1 arguments returned");
    assert_eq!(app.refresh_interval(), SAFETY_REFRESH);
}

#[test]
fn poll_first_replacement_never_applies_the_stale_cache() {
    let backend = StubBackend::new();
    let cached = Rc::clone(&backend.cached);
    let token = Rc::clone(&backend.token);
    let queries = Rc::clone(&backend.status_queries);
    let truth = Rc::clone(&backend.truth);
    let mut app = app_with_backend(backend);

    // Confirmed channel against owner-1, running with arguments.
    *token.borrow_mut() = Some("owner-1".into());
    *truth.borrow_mut() = running_with_args("scx_cake", &["--foo"]);
    *cached.borrow_mut() = Some(idle_status());
    app.apply_pushed_status();
    *cached.borrow_mut() = Some(running_with_args("scx_cake", &["--foo"]));
    app.apply_pushed_status();

    // The safety poll notices owner-2 first: the token check wipes
    // the baseline and the confirmation along the way.
    *token.borrow_mut() = Some("owner-2".into());
    *truth.borrow_mut() = running_status("scx_lavd");
    app.refresh_status();
    assert_eq!(app.status, Some(running_status("scx_lavd")));
    assert_eq!(app.refresh_interval(), REFRESH_EVERY);
    let polls_so_far = *queries.borrow();

    // The next look at the still-stale cache is a baseline priming,
    // not data: nothing may reach the display from it.
    app.apply_pushed_status();
    assert_eq!(*queries.borrow(), polls_so_far);
    assert_eq!(app.status, Some(running_status("scx_lavd")));

    // Owner-2's later partial change moves the cache but leaves the
    // stale arguments key in place; the display gets the fetched
    // truth, never the leftover.
    *truth.borrow_mut() = Status {
        mode: SchedMode::PowerSave,
        ..running_status("scx_lavd")
    };
    *cached.borrow_mut() = Some(Status {
        mode: SchedMode::PowerSave,
        ..running_with_args("scx_lavd", &["--foo"])
    });
    app.apply_pushed_status();

    assert_eq!(*queries.borrow(), polls_so_far + 1);
    let status = app.status.as_ref().expect("fetched");
    assert_eq!(status.mode, SchedMode::PowerSave);
    assert!(status.args.is_empty(), "stale owner-1 arguments returned");
}

#[test]
fn identical_values_under_a_new_generation_still_ring() {
    let backend = StubBackend::new();
    let cached = Rc::clone(&backend.cached);
    let token = Rc::clone(&backend.token);
    let queries = Rc::clone(&backend.status_queries);
    let generation = Rc::clone(&backend.generation);
    let mut app = app_with_backend(backend);

    // Confirmed channel against owner-1, which then goes idle — the
    // exact runtime values a silent replacement will re-announce.
    *token.borrow_mut() = Some("owner-1".into());
    *cached.borrow_mut() = Some(running_status("scx_cake"));
    app.apply_pushed_status();
    *cached.borrow_mut() = Some(idle_status());
    app.apply_pushed_status();
    assert_eq!(app.refresh_interval(), SAFETY_REFRESH);
    let polls_so_far = *queries.borrow();

    // Silent replacement, identical values: only the generation moves.
    *token.borrow_mut() = Some("owner-2".into());
    *generation.borrow_mut() = String::from(":1.2");
    app.apply_pushed_status();

    assert_eq!(*queries.borrow(), polls_so_far + 1);
    assert_eq!(app.refresh_interval(), REFRESH_EVERY);

    // The new generation is now the baseline: an unchanged snapshot
    // stays inert.
    app.apply_pushed_status();
    assert_eq!(*queries.borrow(), polls_so_far + 1);
}
