//! The commands, as conversations.
use scx_control::cli::{Cli, Commands, HoldArgs, ModesArgs, StartArgs, SwitchArgs};
use scx_control::ctl::{on_reply, open, Ask, Failure, Next, Order, Reply, Talk, Turn};
use scx_control::report::{snapshot_of, Line, LoaderSnapshot, Style};
use scx_control::sched::{SchedMode, SupportedSched};

fn names(list: &[&str]) -> Vec<String> {
    list.iter().map(|n| (*n).to_owned()).collect()
}

/// A line without its styles, with a mark for the error stream.
fn plain(line: &Line) -> String {
    let mut text = String::new();
    if line.err {
        text.push('!');
    }
    for part in &line.parts {
        if part.style == Style::Quoted {
            text.push_str(&format!("{:?}", part.text));
        } else {
            text.push_str(&part.text);
        }
    }
    text
}

fn lines(turn: &Turn) -> Vec<String> {
    turn.lines.iter().map(plain).collect()
}

/// Runs a command against scripted replies, and gives all lines and the requests.
fn run(command: Commands, replies: Vec<Reply>) -> (Vec<String>, Vec<String>, Next) {
    let (ask, mut talk): (Ask, Talk) = open(command).unwrap();
    let mut asked = vec![format!("{ask:?}")];
    let mut printed = Vec::new();
    for reply in replies {
        let turn = on_reply(talk, reply);
        printed.extend(lines(&turn));
        match turn.next {
            Next::Ask(ask, then) => {
                asked.push(format!("{ask:?}"));
                talk = then;
            }
            end => return (printed, asked, end),
        }
    }
    panic!("the conversation did not end");
}

fn text(s: &str) -> Reply {
    Reply::Text(s.to_owned())
}

fn start(sched: &str, mode: Option<SchedMode>, args: Option<&[&str]>) -> Commands {
    let cli = Cli {
        command: Commands::Start {
            args: StartArgs { sched: sched.to_owned(), mode, args: args.map(names) },
        },
    };
    cli.command
}

fn switch(sched: Option<&str>, mode: Option<SchedMode>, args: Option<&[&str]>) -> Commands {
    Commands::Switch {
        args: SwitchArgs { sched: sched.map(str::to_owned), mode, args: args.map(names) },
    }
}

fn supported() -> Reply {
    Reply::Names(names(&["scx_bpfland", "scx_lavd"]))
}

fn snapshot(scheduler: &str, mode: SchedMode, generation: Option<&str>) -> Reply {
    Reply::Snapshot(LoaderSnapshot {
        scheduler: scheduler.to_owned(),
        mode,
        args: Vec::new(),
        generation: generation.map(str::to_owned),
    })
}

#[test]
fn get_reports_what_runs() {
    let (printed, _, _) = run(Commands::Get, vec![text("unknown")]);
    assert_eq!(printed, ["no scx scheduler running"]);

    let (printed, _, _) =
        run(Commands::Get, vec![text("scx_lavd"), Reply::Names(names(&["-k", "a b"]))]);
    assert_eq!(printed, ["running Lavd with arguments \"-k 'a b'\""]);

    let (printed, asked, _) = run(
        Commands::Get,
        vec![text("scx_lavd"), Reply::Names(Vec::new()), Reply::Mode(SchedMode::Auto)],
    );
    assert_eq!(printed, ["running Lavd in Auto mode"]);
    assert_eq!(asked, ["CurrentScheduler", "CurrentArgs", "CurrentMode"]);

    let modes = |reply: Reply| {
        run(
            Commands::Get,
            vec![
                text("scx_lavd"),
                Reply::Names(Vec::new()),
                Reply::Mode(SchedMode::Gaming),
                reply,
            ],
        )
        .0
    };
    assert_eq!(modes(Reply::Modes(vec![SchedMode::Gaming])), ["running Lavd in Gaming mode"]);
    assert_eq!(modes(Reply::Modes(Vec::new())), ["running Lavd with its own defaults"]);
    assert_eq!(modes(Reply::Failed("x".to_owned())), ["running Lavd in Gaming mode"]);
}

#[test]
fn get_fails_on_an_unknown_name_and_a_dead_loader() {
    let (_, _, end) = run(Commands::Get, vec![text("scx_future")]);
    assert!(matches!(end, Next::Fail(Failure::Unsupported(name)) if name == "scx_future"));
    let (_, _, end) = run(Commands::Get, vec![Reply::Failed("no bus".to_owned())]);
    assert!(matches!(end, Next::Fail(Failure::Loader(why)) if why == "no bus"));
}

#[test]
fn list_shows_short_names() {
    let (printed, _, _) = run(Commands::List, vec![supported()]);
    assert_eq!(printed, ["supported schedulers: [\"bpfland\", \"lavd\"]"]);
    let (printed, _, _) = run(Commands::List, vec![Reply::Names(Vec::new())]);
    assert_eq!(printed, ["supported schedulers: []"]);
}

#[test]
fn modes_shows_one_scheduler() {
    let modes = |sched: &str, show_args: bool| Commands::Modes {
        args: ModesArgs { sched: sched.to_owned(), show_args },
    };
    let (printed, asked, _) = run(
        modes("lavd", false),
        vec![supported(), Reply::Modes(vec![SchedMode::Auto, SchedMode::Gaming])],
    );
    assert_eq!(
        printed,
        [
            "modes configured for Lavd: [Auto, Gaming]",
            "(unlisted modes run with Lavd's own defaults; use --show-args to see them all)",
        ]
    );
    assert_eq!(asked, ["Supported", "ConfiguredModes(Lavd)"]);

    let (printed, _, _) = run(
        modes("scx_lavd", true),
        vec![
            supported(),
            Reply::ModeArgs(vec![
                (SchedMode::Auto, Vec::new()),
                (SchedMode::Gaming, names(&["-k", "-s"])),
                (SchedMode::Server, Vec::new()),
            ]),
        ],
    );
    assert_eq!(
        printed,
        [
            "configuration for Lavd:",
            "  Auto: (uses Lavd's own defaults)",
            "  Gaming: -k -s",
            "  Server: (not configured, uses Lavd's own defaults)",
        ]
    );

    let (printed, _, end) = run(modes("nope", false), vec![supported()]);
    assert!(matches!(end, Next::Exit));
    assert_eq!(
        printed,
        [
            "!error: invalid value 'nope' for '--sched <SCHED>'",
            "!supported schedulers: [\"bpfland\", \"lavd\"]",
            "!\nFor more information, try '--help'",
        ]
    );
    let (printed, _, end) =
        run(modes("future", false), vec![Reply::Names(names(&["scx_future"]))]);
    assert!(matches!(end, Next::Exit));
    assert_eq!(
        printed,
        ["!error: scx_loader supports 'future', but this scxctl build does not; update scxctl"]
    );
}

#[test]
fn start_needs_an_idle_loader() {
    let (printed, asked, end) = run(start("lavd", None, None), vec![text("scx_rusty")]);
    assert!(matches!(end, Next::Exit));
    assert_eq!(
        printed,
        [
            "!error: scx scheduler already running, use 'switch' instead of 'start'",
            "!\nFor more information, try '--help'",
        ]
    );
    assert_eq!(asked, ["CurrentScheduler"]);
}

#[test]
fn start_in_a_mode_claims_acceptance_and_observes() {
    let (printed, asked, _) = run(
        start("lavd", Some(SchedMode::Gaming), None),
        vec![
            text("unknown"),
            supported(),
            Reply::Modes(Vec::new()),
            Reply::Done,
            snapshot("scx_lavd", SchedMode::Gaming, Some(":1.1")),
            Reply::Modes(Vec::new()),
            text(":1.1"),
        ],
    );
    assert_eq!(
        printed,
        [
            "!warning: Lavd has no configured arguments for Gaming mode; it will run with its own defaults",
            "start request for Lavd accepted (requested Gaming mode)",
            "the loader now reports scx_lavd in Gaming mode (no configured arguments; scheduler defaults in effect)",
        ]
    );
    assert_eq!(
        asked,
        [
            "CurrentScheduler",
            "Supported",
            "ConfiguredModes(Lavd)",
            "Run(Start, Lavd, Gaming)",
            "Snapshot",
            "ConfiguredModes(Lavd)",
            "Generation",
        ]
    );
}

#[test]
fn an_unconfirmed_instance_withholds_the_qualifier() {
    let observe = |seen: Option<&str>, after: Reply| {
        run(
            start("lavd", Some(SchedMode::Gaming), None),
            vec![
                text("unknown"),
                supported(),
                Reply::Modes(vec![SchedMode::Gaming]),
                Reply::Done,
                snapshot("scx_lavd", SchedMode::Gaming, seen),
                Reply::Modes(Vec::new()),
                after,
            ],
        )
        .0
    };
    let without = "the loader now reports scx_lavd in Gaming mode";
    assert_eq!(observe(Some(":1.1"), text(":1.2"))[1], without);
    assert_eq!(observe(None, text(":1.2"))[1], without);
    assert_eq!(observe(Some(":1.1"), Reply::Failed("x".to_owned()))[1], without);
    assert_eq!(observe(None, Reply::Failed("x".to_owned()))[1], without);
}

#[test]
fn a_failed_observation_is_a_warning() {
    let (printed, _, end) = run(
        start("lavd", None, None),
        vec![text("unknown"), supported(), Reply::Done, Reply::Failed("x".to_owned())],
    );
    assert!(matches!(end, Next::Finish));
    assert_eq!(
        printed,
        [
            "start request for Lavd accepted (requested Auto mode)",
            "!warning: current loader state could not be read",
        ]
    );
}

#[test]
fn observation_skips_the_modes_where_they_do_not_matter() {
    let observe = |reply: Reply| {
        run(start("lavd", None, None), vec![text("unknown"), supported(), Reply::Done, reply]).0
    };
    assert_eq!(
        observe(snapshot("unknown", SchedMode::Gaming, None))[1],
        "the loader now reports no scheduler running"
    );
    assert_eq!(
        observe(snapshot("scx_future", SchedMode::Gaming, None))[1],
        "the loader now reports scx_future in Gaming mode"
    );
    assert_eq!(
        observe(snapshot("scx_lavd", SchedMode::Auto, None))[1],
        "the loader now reports scx_lavd in Auto mode"
    );
}

#[test]
fn start_with_arguments_expands_them() {
    let (printed, asked, _) = run(
        start("lavd", None, Some(&["-k 'a b'", "-v"])),
        vec![text("unknown"), supported(), Reply::Done],
    );
    assert_eq!(printed, ["started Lavd with arguments \"-k 'a b' -v\""]);
    assert_eq!(asked[2], "RunWithArgs(Start, Lavd, [\"-k\", \"a b\", \"-v\"])");

    let (printed, _, end) =
        run(start("lavd", None, Some(&["'open"])), vec![text("unknown"), supported()]);
    assert!(matches!(end, Next::Exit));
    assert_eq!(
        printed,
        [
            "!error: invalid value for '--args <ARGS>': missing closing quote in ''open'",
            "!\nQuotes must be balanced and cannot span a comma",
        ]
    );
    let (printed, _, end) =
        run(start("lavd", None, Some(&["  "])), vec![text("unknown"), supported()]);
    assert!(matches!(end, Next::Exit));
    assert_eq!(
        printed,
        [
            "!error: '--args <ARGS>' expanded to no arguments",
            "!\nTo run a scheduler with its own defaults, omit '--args'",
        ]
    );
}

#[test]
fn switch_needs_a_running_scheduler() {
    let (printed, _, end) = run(switch(Some("lavd"), None, None), vec![text("unknown")]);
    assert!(matches!(end, Next::Exit));
    assert_eq!(
        printed[0],
        "!error: no scx scheduler running, use 'start' instead of 'switch'"
    );
}

#[test]
fn switch_picks_its_mode() {
    // Another scheduler: the automatic mode.
    let (_, asked, _) = run(
        switch(Some("lavd"), None, None),
        vec![
            text("scx_bpfland"),
            supported(),
            Reply::Done,
            snapshot("scx_lavd", SchedMode::Auto, None),
        ],
    );
    assert_eq!(
        asked,
        ["CurrentScheduler", "Supported", "Run(Switch, Lavd, Auto)", "Snapshot"]
    );
    // The same scheduler: the current mode is kept.
    let (_, asked, _) = run(
        switch(None, None, Some(&["-k"])),
        vec![text("scx_lavd"), Reply::Mode(SchedMode::Gaming), Reply::Done],
    );
    assert_eq!(
        asked,
        ["CurrentScheduler", "CurrentMode", "RunWithArgs(Switch, Lavd, [\"-k\"])"]
    );
    // A requested mode wins.
    let (printed, asked, _) = run(
        switch(None, Some(SchedMode::Server), None),
        vec![
            text("scx_lavd"),
            Reply::Modes(vec![SchedMode::Server]),
            Reply::Done,
            snapshot("scx_lavd", SchedMode::Server, None),
            Reply::Failed("x".to_owned()),
        ],
    );
    assert_eq!(asked[2], format!("Run({:?}, Lavd, Server)", Order::Switch));
    assert_eq!(printed[0], "switch request for Lavd accepted (requested Server mode)");
    assert_eq!(printed[1], "the loader now reports scx_lavd in Server mode");
}

#[test]
fn stop_and_restart_say_so() {
    assert_eq!(run(Commands::Stop, vec![Reply::Done]).0, ["stopped"]);
    assert_eq!(run(Commands::Restart, vec![Reply::Done]).0, ["restarted"]);
    let (_, _, end) = run(Commands::Stop, vec![Reply::Failed("denied".to_owned())]);
    assert!(matches!(end, Next::Fail(Failure::Loader(why)) if why == "denied"));
}

#[test]
fn restore_needs_a_default() {
    let (printed, _, end) = run(Commands::Restore, vec![text("unknown")]);
    assert!(matches!(end, Next::Exit));
    assert_eq!(
        printed,
        [
            "!error: no default scheduler configured",
            "!\nSet 'default_sched' in your config file to use this command",
        ]
    );
    let (printed, asked, _) = run(
        Commands::Restore,
        vec![
            text("scx_lavd"),
            Reply::Done,
            Reply::Mode(SchedMode::Gaming),
            Reply::Modes(vec![SchedMode::Gaming]),
        ],
    );
    assert_eq!(printed, ["restored default scheduler Lavd in Gaming mode"]);
    assert_eq!(
        asked,
        ["DefaultScheduler", "RestoreDefault", "DefaultMode", "ConfiguredModes(Lavd)"]
    );
}

#[test]
fn holds_are_not_managed_here() {
    assert!(open(Commands::Holds).is_none());
    assert!(open(Commands::Release { cookie: 1 }).is_none());
    assert!(open(Commands::Hold {
        args: HoldArgs {
            sched: "lavd".to_owned(),
            mode: SchedMode::Auto,
            reason: "game".to_owned(),
            app_id: "org.example.Game".to_owned(),
        }
    })
    .is_none());
    assert_eq!(SupportedSched::Lavd.title(), "Lavd");
}

#[test]
fn a_snapshot_is_whole_or_not_there() {
    let scheduler = || Some("scx_lavd".to_owned());
    let args = || Some(names(&["-k"]));
    assert_eq!(
        snapshot_of(scheduler(), Some(SchedMode::Auto), args(), None),
        Some(LoaderSnapshot {
            scheduler: "scx_lavd".to_owned(),
            mode: SchedMode::Auto,
            args: names(&["-k"]),
            generation: None,
        })
    );
    assert_eq!(snapshot_of(None, Some(SchedMode::Auto), args(), None), None);
    assert_eq!(snapshot_of(scheduler(), None, args(), None), None);
    assert_eq!(snapshot_of(scheduler(), Some(SchedMode::Auto), None, None), None);
}
