//! The command line's rules and texts.
use clap::{Arg, Command};

use scx_control::args::{expand_scheduler_args, format_scheduler_args, ArgsExpandError};
use scx_control::report::{
    loader_observation, resolve_switch_mode, same_instance_confirmed, LoaderSnapshot,
};
use scx_control::sched::{resolve_sched_name, SchedMode, SchedNameError, SupportedSched};

#[test]
fn switch_to_different_scheduler_defaults_to_auto() {
    let mode = resolve_switch_mode(
        None,
        true,
        || -> Result<SchedMode, Box<dyn std::error::Error>> {
            panic!("current mode should not be fetched when switching scheduler")
        },
    )
    .unwrap();
    assert_eq!(mode, SchedMode::Auto);
}

#[test]
fn switch_within_same_scheduler_keeps_current_mode() {
    let mode: SchedMode = resolve_switch_mode(None, false, || {
        Ok::<_, Box<dyn std::error::Error>>(SchedMode::Gaming)
    })
    .unwrap();
    assert_eq!(mode, SchedMode::Gaming);
}

#[test]
fn explicit_switch_mode_always_wins() {
    let mode = resolve_switch_mode(
        Some(SchedMode::PowerSave),
        true,
        || -> Result<SchedMode, Box<dyn std::error::Error>> {
            panic!("current mode should not be fetched when an explicit mode is given")
        },
    )
    .unwrap();
    assert_eq!(mode, SchedMode::PowerSave);
}

fn reported_scheds() -> Vec<String> {
    vec!["scx_bpfland".to_string(), "scx_lavd".to_string()]
}

#[test]
fn resolves_sched_name_with_prefix() {
    assert_eq!(
        resolve_sched_name("scx_lavd", &reported_scheds()),
        Ok(SupportedSched::Lavd)
    );
}

#[test]
fn resolves_sched_name_without_prefix() {
    assert_eq!(
        resolve_sched_name("bpfland", &reported_scheds()),
        Ok(SupportedSched::Bpfland)
    );
}

#[test]
fn rejects_unknown_sched_name() {
    assert_eq!(
        resolve_sched_name("notreal", &reported_scheds()),
        Err(SchedNameError::UnknownName)
    );
}

#[test]
fn main_args_expansion_shared_vector_ok() {
    let cases: &[(&[&str], &[&str])] = &[
        // Comma style (the historical documented format): still supported.
        (&["--slice-us", "5000"], &["--slice-us", "5000"]),
        // Whitespace inside a single chunk now separates arguments.
        (
            &["--verbose --slice-us 5000"],
            &["--verbose", "--slice-us", "5000"],
        ),
        // Mixed: comma split first (clap), then shell split per chunk.
        (
            &["--verbose", "--slice-us 5000"],
            &["--verbose", "--slice-us", "5000"],
        ),
        // Double quotes are interpreted: value with a space stays one token.
        (&["--name \"foo bar\""], &["--name", "foo bar"]),
        // Single quotes likewise.
        (&["--name 'foo bar'"], &["--name", "foo bar"]),
        // Backslash escapes a space.
        (&["--path /tmp/a\\ b"], &["--path", "/tmp/a b"]),
        // An explicit empty token is explicit: passed through as-is.
        (&["\"\""], &[""]),
        // Empty values remain visible when attached to another option.
        (&["--name \"\""], &["--name", ""]),
    ];
    for (input, expected) in cases {
        let input: Vec<String> = input.iter().map(ToString::to_string).collect();
        let expected: Vec<String> = expected.iter().map(ToString::to_string).collect();
        assert_eq!(
            expand_scheduler_args(&input),
            Ok(expected),
            "input: {input:?}"
        );
    }
}

#[test]
fn main_args_expansion_shared_vector_errors() {
    // An unclosed quote in a chunk is a parse error.
    let unclosed = vec!["--name \"foo".to_string()];
    assert!(matches!(
        expand_scheduler_args(&unclosed),
        Err(ArgsExpandError::Parse(_))
    ));

    // A quoted region spanning a comma cannot survive clap's earlier
    // comma split: each side arrives as an unbalanced chunk. Surfacing
    // a parse error here (instead of silently mangled tokens) is the
    // intended behavior.
    let quote_spanning_comma = vec!["\"foo".to_string(), "bar\"".to_string()];
    assert!(matches!(
        expand_scheduler_args(&quote_spanning_comma),
        Err(ArgsExpandError::Parse(_))
    ));

    // Whitespace-only input expands to nothing: rejected client-side
    // instead of sending an empty list to the daemon.
    let blank = vec!["   ".to_string()];
    assert_eq!(expand_scheduler_args(&blank), Err(ArgsExpandError::Empty));

    // clap turns `--args ""` into a single empty chunk; same outcome.
    let empty_chunk = vec![String::new()];
    assert_eq!(
        expand_scheduler_args(&empty_chunk),
        Err(ArgsExpandError::Empty)
    );
}

/// Pins the actual clap behavior the shared vector assumes: the raw
/// input is comma-split by `value_delimiter(',')` before expansion,
/// and the `--args=VALUE` form carries values starting with a dash.
#[test]
fn args_expansion_matches_clap_output() {
    let command = Command::new("scxctl").subcommand(
        Command::new("start")
            .arg(Arg::new("sched").short('s').long("sched").required(true))
            .arg(
                Arg::new("args")
                    .short('a')
                    .long("args")
                    .value_delimiter(',')
                    .requires("sched"),
            ),
    );
    let matches = command
        .try_get_matches_from([
            "scxctl",
            "start",
            "--sched",
            "bpfland",
            "--args=-s 20000,-m powersave,-I 100,-t 100",
        ])
        .expect("mixed shell-style and comma-separated arguments should parse");
    let Some(("start", start)) = matches.subcommand() else {
        panic!("expected start command");
    };
    let raw_args: Vec<String> = start
        .get_many::<String>("args")
        .expect("--args should be present")
        .cloned()
        .collect();

    assert_eq!(
        raw_args,
        ["-s 20000", "-m powersave", "-I 100", "-t 100"]
            .map(str::to_string)
            .to_vec()
    );
    assert_eq!(
        expand_scheduler_args(&raw_args),
        Ok(["-s", "20000", "-m", "powersave", "-I", "100", "-t", "100"]
            .map(str::to_string)
            .to_vec())
    );
}

/// What `format_scheduler_args` renders must parse back into the same
/// tokens when passed directly to `shell_words::split`, including empty
/// strings, embedded quotes, and commas.
#[test]
fn scheduler_args_format_round_trips() {
    let args = ["--name", "foo bar", "", "a'b", "foo,bar"]
        .map(str::to_string)
        .to_vec();
    let formatted = format_scheduler_args(&args);

    assert_eq!(shell_words::split(&formatted), Ok(args));
}

fn snapshot(scheduler: &str, mode: SchedMode, args: &[&str]) -> LoaderSnapshot {
    LoaderSnapshot {
        scheduler: scheduler.to_owned(),
        mode,
        args: args.iter().map(|s| (*s).to_owned()).collect(),
        generation: None,
    }
}

#[test]
fn custom_args_win_over_the_mode_qualifier() {
    assert_eq!(
        loader_observation(&snapshot("scx_lavd", SchedMode::Gaming, &["--foo"]), false),
        "the loader now reports scx_lavd with arguments \"--foo\""
    );
}

#[test]
fn qualifier_requires_the_same_generation_on_both_sides() {
    assert!(same_instance_confirmed(Some(":1.42"), Some(":1.42")));
    assert!(!same_instance_confirmed(Some(":1.42"), Some(":1.97")));
    assert!(!same_instance_confirmed(None, Some(":1.42")));
    assert!(!same_instance_confirmed(Some(":1.42"), None));
    assert!(!same_instance_confirmed(None, None));
}

#[test]
fn observation_for_no_scheduler_running() {
    assert_eq!(
        loader_observation(&snapshot("unknown", SchedMode::Auto, &[]), true),
        "the loader now reports no scheduler running"
    );
}

#[test]
fn observation_for_a_mode_based_scheduler() {
    assert_eq!(
        loader_observation(&snapshot("scx_lavd", SchedMode::LowLatency, &[]), true),
        "the loader now reports scx_lavd in LowLatency mode"
    );
}

#[test]
fn observation_for_an_unconfigured_mode_carries_the_defaults_qualifier() {
    assert_eq!(
        loader_observation(&snapshot("scx_flash", SchedMode::Gaming, &[]), false),
        "the loader now reports scx_flash in Gaming mode (no configured arguments; scheduler defaults in effect)"
    );
}

#[test]
fn observation_for_a_scheduler_with_custom_arguments() {
    assert_eq!(
        loader_observation(
            &snapshot("scx_lavd", SchedMode::Auto, &["--performance"]),
            true
        ),
        "the loader now reports scx_lavd with arguments \"--performance\""
    );
}

#[test]
fn rejects_sched_known_to_daemon_but_not_client() {
    // A newer scx_loader can report a scheduler this scxctl build has no
    // SupportedSched variant for. That used to be an unwrap panic; it
    // must resolve to a distinct, actionable error instead.
    let reported = vec!["scx_from_the_future".to_string()];
    assert_eq!(
        resolve_sched_name("from_the_future", &reported),
        Err(SchedNameError::UnsupportedByClient)
    );
}
