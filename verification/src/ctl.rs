//! The commands, as conversations with the loader.
//!
//! A command opens with a request. Each reply leads to lines for the terminal and
//! to the next request, or to the end.
use vstd::prelude::*;
use vstd::string::StringExecFns;

use crate::args;
use crate::cli::{Commands, StartArgs, SwitchArgs};
use crate::report::{self, line_models, Line, LineModel, LoaderSnapshot, Style};
use crate::sched::{self, SchedMode, SchedNameError, SupportedSched, UNKNOWN};
use crate::text;

verus! {

/// The orders that change what runs.
#[derive(Debug, Clone, Copy, PartialEq, Eq, Structural)]
pub enum Order {
    Start,
    Switch,
}

/// What a mode is reported for.
#[derive(Debug, Clone, Copy, PartialEq, Eq, Structural)]
pub enum Deed {
    Running,
    Restored,
}

/// A request to the loader.
#[derive(Debug)]
pub enum Ask {
    CurrentScheduler,
    CurrentArgs,
    CurrentMode,
    Supported,
    ConfiguredModes(SupportedSched),
    ModeArgs(SupportedSched),
    DefaultScheduler,
    DefaultMode,
    /// Scheduler, mode, arguments and generation in one read.
    Snapshot,
    Generation,
    Run(Order, SupportedSched, SchedMode),
    RunWithArgs(Order, SupportedSched, Vec<String>),
    Stop,
    Restart,
    RestoreDefault,
}

/// A reply of the loader.
#[derive(Debug)]
pub enum Reply {
    Text(String),
    Names(Vec<String>),
    Mode(SchedMode),
    Modes(Vec<SchedMode>),
    ModeArgs(Vec<(SchedMode, Vec<String>)>),
    Snapshot(LoaderSnapshot),
    Done,
    /// The request failed, for that reason.
    Failed(String),
}

/// What a command still waits for.
#[derive(Debug)]
pub enum Talk {
    Get,
    GetArgs(SupportedSched),
    GetMode(SupportedSched),
    /// Waits for the configured modes, to report a mode.
    Report(Deed, SupportedSched, SchedMode),
    List,
    /// Waits for the supported schedulers, to show the modes of one.
    Modes(String, bool),
    ModesOf(SupportedSched),
    ModeArgsOf(SupportedSched),
    Start(StartArgs),
    StartNamed(StartArgs),
    Switch(SwitchArgs),
    SwitchNamed(SwitchArgs, SupportedSched),
    /// Waits for the current mode, to keep it.
    SwitchMode(SupportedSched, Option<Vec<String>>),
    /// Waits for the configured modes, to warn before an order.
    Warn(Order, SupportedSched, SchedMode),
    Ordered(Order, SupportedSched, SchedMode),
    OrderedWithArgs(Order, SupportedSched, Vec<String>),
    Observe,
    /// Waits for the configured modes of what was observed.
    ObserveModes(LoaderSnapshot),
    /// Waits for the generation, to confirm that one instance answered.
    ObserveGeneration(LoaderSnapshot),
    Stop,
    Restart,
    Restore,
    Restoring(String),
    RestoreMode(String),
}

/// Why a command ends with an error.
#[derive(Debug)]
pub enum Failure {
    /// The loader did not answer a request.
    Loader(String),
    /// The loader named a scheduler that this build does not know.
    Unsupported(String),
}

/// How a conversation goes on.
#[derive(Debug)]
pub enum Next {
    Ask(Ask, Talk),
    /// The end.
    Finish,
    /// The end, with a failure status.
    Exit,
    Fail(Failure),
}

/// What a reply leads to: lines to print, and then what is next.
#[derive(Debug)]
pub struct Turn {
    pub lines: Vec<Line>,
    pub next: Next,
}

/// Whether a reply is of the kind that is waited for.
pub open spec fn fits(talk: Talk, reply: Reply) -> bool {
    reply is Failed || match talk {
        Talk::Get | Talk::Start(_) | Talk::Switch(_) | Talk::Restore => reply is Text,
        Talk::GetArgs(_) | Talk::List | Talk::Modes(_, _) | Talk::StartNamed(_)
        | Talk::SwitchNamed(_, _) => reply is Names,
        Talk::GetMode(_) | Talk::SwitchMode(_, _) | Talk::RestoreMode(_) => reply is Mode,
        Talk::Report(_, _, _) | Talk::ModesOf(_) | Talk::Warn(_, _, _) | Talk::ObserveModes(_) =>
        reply is Modes,
        Talk::ModeArgsOf(_) => reply is ModeArgs,
        Talk::Ordered(_, _, _) | Talk::OrderedWithArgs(_, _, _) | Talk::Stop | Talk::Restart
        | Talk::Restoring(_) => reply is Done,
        Talk::Observe => reply is Snapshot,
        Talk::ObserveGeneration(_) => reply is Text,
    }
}

/// Whether a request is one that the reply to it is waited for so.
pub open spec fn awaits(ask: Ask, talk: Talk) -> bool {
    match talk {
        Talk::Get | Talk::Start(_) | Talk::Switch(_) => ask is CurrentScheduler,
        Talk::GetArgs(_) => ask is CurrentArgs,
        Talk::GetMode(_) | Talk::SwitchMode(_, _) => ask is CurrentMode,
        Talk::List | Talk::Modes(_, _) | Talk::StartNamed(_) | Talk::SwitchNamed(_, _) =>
        ask is Supported,
        Talk::Report(_, s, _) => ask == Ask::ConfiguredModes(s),
        Talk::ModesOf(s) => ask == Ask::ConfiguredModes(s),
        Talk::Warn(_, s, _) => ask == Ask::ConfiguredModes(s),
        Talk::ObserveModes(snapshot) => ask matches Ask::ConfiguredModes(s) && sched::sched_text(s)
            == snapshot.scheduler@,
        Talk::ModeArgsOf(s) => ask == Ask::ModeArgs(s),
        Talk::Ordered(order, s, mode) => ask == Ask::Run(order, s, mode),
        Talk::OrderedWithArgs(order, s, list) => ask matches Ask::RunWithArgs(o, t, given) && o
            == order && t == s && text::views(given@) == text::views(list@),
        Talk::Observe => ask is Snapshot,
        Talk::ObserveGeneration(_) => ask is Generation,
        Talk::Stop => ask is Stop,
        Talk::Restart => ask is Restart,
        Talk::Restore => ask is DefaultScheduler,
        Talk::Restoring(_) => ask is RestoreDefault,
        Talk::RestoreMode(_) => ask is DefaultMode,
    }
}

/// Whether a turn prints these lines and goes on so.
pub open spec fn turns(turn: Turn, lines: Seq<LineModel>, next: Next) -> bool {
    line_models(turn.lines@) == lines && turn.next == next
}

/// Whether a turn asks without a word.
pub open spec fn asks(turn: Turn, ask: Ask, talk: Talk) -> bool {
    turns(turn, Seq::empty(), Next::Ask(ask, talk))
}

/// Whether a turn prints these lines and is the last.
pub open spec fn ends(turn: Turn, lines: Seq<LineModel>) -> bool {
    turns(turn, lines, Next::Finish)
}

/// The word for an order.
pub open spec fn order_text(order: Order) -> Seq<char> {
    match order {
        Order::Start => "start"@,
        Order::Switch => "switch"@,
    }
}

/// The words for an order with arguments that was carried out.
pub open spec fn order_done_text(order: Order) -> Seq<char> {
    match order {
        Order::Start => "started"@,
        Order::Switch => "switched to"@,
    }
}

/// The words for what a mode is reported for.
pub open spec fn deed_text(deed: Deed) -> Seq<char> {
    match deed {
        Deed::Running => "running"@,
        Deed::Restored => "restored default scheduler"@,
    }
}

/// The answer to the query for configured modes.
pub open spec fn modes_in(reply: Reply) -> Option<Seq<SchedMode>> {
    match reply {
        Reply::Modes(modes) => Some(modes@),
        _ => None,
    }
}

/// Reporting `mode` for `deed`: at once where no query can change it.
pub open spec fn reports(turn: Turn, deed: Deed, sched: SupportedSched, mode: SchedMode) -> bool {
    if mode == SchedMode::Auto {
        ends(turn, seq![report::out(report::mode_result(deed_text(deed), sched, mode, true))])
    } else {
        asks(turn, Ask::ConfiguredModes(sched), Talk::Report(deed, sched, mode))
    }
}

/// Ordering `sched` in `mode`: at once where no query can bring a warning.
pub open spec fn orders_mode(
    turn: Turn,
    order: Order,
    sched: SupportedSched,
    mode: SchedMode,
) -> bool {
    if mode == SchedMode::Auto {
        asks(turn, Ask::Run(order, sched, mode), Talk::Ordered(order, sched, mode))
    } else {
        asks(turn, Ask::ConfiguredModes(sched), Talk::Warn(order, sched, mode))
    }
}

/// How the raw arguments of a command expand.
pub open spec fn args_expansion(raw: Seq<Seq<char>>) -> args::Expansion {
    args::expansion(raw, args::shell_parts(raw))
}

/// Ordering `sched` with arguments that expand so.
pub open spec fn orders_args(
    turn: Turn,
    order: Order,
    sched: SupportedSched,
    expansion: args::Expansion,
) -> bool {
    match expansion {
        args::Expansion::Args(words) => {
            &&& line_models(turn.lines@) == Seq::<LineModel>::empty()
            &&& turn.next matches Next::Ask(
                Ask::RunWithArgs(o, s, list),
                Talk::OrderedWithArgs(p, t, kept),
            )
            &&& o == order && p == order && s == sched && t == sched
            &&& text::views(list@) == words
            &&& text::views(kept@) == words
        },
        args::Expansion::Invalid(why) => turns(turn, report::invalid_args(why), Next::Exit),
        args::Expansion::Nothing => turns(turn, report::empty_args(), Next::Exit),
    }
}

/// Ordering `sched`, with arguments where there are some and in `mode` otherwise.
pub open spec fn orders(
    turn: Turn,
    order: Order,
    sched: SupportedSched,
    mode: SchedMode,
    raw: Option<Vec<String>>,
) -> bool {
    match raw {
        Some(raw) => orders_args(turn, order, sched, args_expansion(text::views(raw@))),
        None => orders_mode(turn, order, sched, mode),
    }
}

/// Switching to `sched`: in the requested mode, in the automatic mode where the
/// scheduler changes, and in the current mode otherwise.
pub open spec fn switches(
    turn: Turn,
    sched: SupportedSched,
    switching: bool,
    mode: Option<SchedMode>,
    raw: Option<Vec<String>>,
) -> bool {
    match mode {
        Some(mode) => orders(turn, Order::Switch, sched, mode, raw),
        None => if switching {
            orders(turn, Order::Switch, sched, SchedMode::Auto, raw)
        } else {
            asks(turn, Ask::CurrentMode, Talk::SwitchMode(sched, raw))
        },
    }
}

/// Whether the loader's list has the name, with or without the prefix.
pub open spec fn listed(name: Seq<char>, list: Seq<Seq<char>>) -> bool {
    exists|i: int| 0 <= i < list.len() && sched::names_sched(#[trigger] list[i], name)
}

/// What a name that a user gave resolves to.
pub open spec fn resolution(name: Seq<char>, list: Seq<Seq<char>>, resolved: Result<
    SupportedSched,
    SchedNameError,
>) -> bool {
    match resolved {
        Ok(s) => listed(name, list) && sched::sched_text(s) == sched::prefixed(name),
        Err(SchedNameError::UnknownName) => !listed(name, list),
        Err(SchedNameError::UnsupportedByClient) => listed(name, list) && forall|s: SupportedSched|
            sched::sched_text(s) != sched::prefixed(name),
    }
}

/// The errors about a name that did not resolve.
pub open spec fn name_errors(
    name: Seq<char>,
    list: Seq<Seq<char>>,
    err: SchedNameError,
) -> Seq<LineModel> {
    match err {
        SchedNameError::UnknownName => seq![
            LineModel::start(true).with(Style::Error, "error:"@).with(
                Style::Plain,
                " invalid value '"@,
            ).with(Style::Value, name).with(Style::Plain, "' for '"@).with(
                Style::Bold,
                "--sched <SCHED>"@,
            ).with(Style::Plain, "'"@),
            LineModel::start(true).with(Style::Plain, "supported schedulers: "@).list(
                sched::all_unprefixed(list),
            ),
            report::help_hint(),
        ],
        SchedNameError::UnsupportedByClient => seq![
            LineModel::start(true).with(Style::Error, "error:"@).with(
                Style::Plain,
                " scx_loader supports '"@,
            ).with(Style::Value, name).with(
                Style::Plain,
                "', but this scxctl build does not; update scxctl"@,
            ),
        ],
    }
}

/// The name of a scheduler that the loader reported, as one that this build knows.
pub open spec fn known_as(name: Seq<char>, sched: Option<SupportedSched>) -> bool {
    match sched {
        Some(s) => sched::sched_text(s) == name,
        None => forall|s: SupportedSched| sched::sched_text(s) != name,
    }
}

/// One line on what a mode of `sched` runs with.
pub open spec fn mode_line(sched: SupportedSched, entry: (SchedMode, Vec<String>)) -> LineModel {
    let lead = "  "@ + sched::mode_title(entry.0) + ": "@;
    report::out(
        if entry.1@.len() > 0 {
            lead + text::joined(text::views(entry.1@), " "@)
        } else if entry.0 == SchedMode::Auto {
            lead + "(uses "@ + sched::sched_title(sched) + "'s own defaults)"@
        } else {
            lead + "(not configured, uses "@ + sched::sched_title(sched) + "'s own defaults)"@
        },
    )
}

/// The lines on all modes of `sched`.
pub open spec fn configuration(
    sched: SupportedSched,
    entries: Seq<(SchedMode, Vec<String>)>,
) -> Seq<LineModel> {
    seq![report::out("configuration for "@ + sched::sched_title(sched) + ":"@)]
        + entries.map_values(|entry: (SchedMode, Vec<String>)| mode_line(sched, entry))
}

/// The titles of modes.
pub open spec fn titles(modes: Seq<SchedMode>) -> Seq<Seq<char>> {
    modes.map_values(|mode: SchedMode| sched::mode_title(mode))
}

/// The lines on the configured modes of `sched`.
pub open spec fn configured(sched: SupportedSched, modes: Seq<SchedMode>) -> Seq<LineModel> {
    seq![
        report::out(
            "modes configured for "@ + sched::sched_title(sched) + ": ["@ + text::joined(
                titles(modes),
                ", "@,
            ) + "]"@,
        ),
        report::out(
            "(unlisted modes run with "@ + sched::sched_title(sched)
                + "'s own defaults; use --show-args to see them all)"@,
        ),
    ]
}

/// What a snapshot leads to. The mode is looked into only where it is in force:
/// something that this build knows runs without custom arguments, in a mode other
/// than the automatic one.
pub open spec fn observes(turn: Turn, snapshot: LoaderSnapshot) -> bool {
    exists|sched: Option<SupportedSched>| #[trigger]
        known_as(snapshot.scheduler@, sched) && if snapshot.args@.len() > 0 || snapshot.scheduler@
            == UNKNOWN@ || sched is None || snapshot.mode == SchedMode::Auto {
            ends(turn, seq![report::out(report::observation(snapshot, true))])
        } else {
            asks(turn, Ask::ConfiguredModes(sched->0), Talk::ObserveModes(snapshot))
        }
}

/// The generation in a reply.
pub open spec fn generation_in(reply: Reply) -> Option<Seq<char>> {
    match reply {
        Reply::Text(generation) => Some(generation@),
        _ => None,
    }
}

/// What a reply leads to.
pub open spec fn replied(talk: Talk, reply: Reply, turn: Turn) -> bool {
    match (talk, reply) {
        // Queries whose failure is no failure of the command.
        (Talk::Report(deed, s, mode), _) => ends(
            turn,
            seq![
                report::out(
                    report::mode_result(
                        deed_text(deed),
                        s,
                        mode,
                        report::counts_as_configured(mode, modes_in(reply)),
                    ),
                ),
            ],
        ),
        (Talk::Warn(order, s, mode), _) => turns(
            turn,
            if report::counts_as_configured(mode, modes_in(reply)) {
                Seq::empty()
            } else {
                seq![report::warning(report::unconfigured(s, mode))]
            },
            Next::Ask(Ask::Run(order, s, mode), Talk::Ordered(order, s, mode)),
        ),
        (Talk::Observe, Reply::Failed(_)) => ends(
            turn,
            seq![report::warning("current loader state could not be read"@)],
        ),
        (Talk::ObserveModes(snapshot), _) => if report::counts_as_configured(
            snapshot.mode,
            modes_in(reply),
        ) {
            ends(turn, seq![report::out(report::observation(snapshot, true))])
        } else {
            asks(turn, Ask::Generation, Talk::ObserveGeneration(snapshot))
        },
        (Talk::ObserveGeneration(snapshot), _) => ends(
            turn,
            seq![
                report::out(
                    report::observation(
                        snapshot,
                        !(snapshot.generation is Some && text::opt_view(snapshot.generation)
                            == generation_in(reply)),
                    ),
                ),
            ],
        ),
        (_, Reply::Failed(why)) => turns(turn, Seq::empty(), Next::Fail(Failure::Loader(why))),
        (Talk::Get, Reply::Text(current)) => if current@ == UNKNOWN@ {
            ends(turn, seq![report::out("no scx scheduler running"@)])
        } else {
            exists|s: Option<SupportedSched>| #[trigger]
                known_as(current@, s) && match s {
                    Some(s) => asks(turn, Ask::CurrentArgs, Talk::GetArgs(s)),
                    None => turns(
                        turn,
                        Seq::empty(),
                        Next::Fail(Failure::Unsupported(current)),
                    ),
                }
        },
        (Talk::GetArgs(s), Reply::Names(list)) => if list@.len() == 0 {
            asks(turn, Ask::CurrentMode, Talk::GetMode(s))
        } else {
            ends(
                turn,
                seq![report::out(report::args_result("running"@, s, text::views(list@)))],
            )
        },
        (Talk::GetMode(s), Reply::Mode(mode)) => reports(turn, Deed::Running, s, mode),
        (Talk::List, Reply::Names(list)) => ends(
            turn,
            seq![
                LineModel::start(false).with(Style::Plain, "supported schedulers: "@).list(
                    sched::all_unprefixed(text::views(list@)),
                ),
            ],
        ),
        (Talk::Modes(name, show_args), Reply::Names(list)) => exists|
            resolved: Result<SupportedSched, SchedNameError>,
        | #[trigger]
            resolution(name@, text::views(list@), resolved) && match resolved {
                Ok(s) => if show_args {
                    asks(turn, Ask::ModeArgs(s), Talk::ModeArgsOf(s))
                } else {
                    asks(turn, Ask::ConfiguredModes(s), Talk::ModesOf(s))
                },
                Err(err) => turns(turn, name_errors(name@, text::views(list@), err), Next::Exit),
            },
        (Talk::ModesOf(s), Reply::Modes(modes)) => ends(turn, configured(s, modes@)),
        (Talk::ModeArgsOf(s), Reply::ModeArgs(entries)) => ends(turn, configuration(s, entries@)),
        (Talk::Start(request), Reply::Text(current)) => if current@ == UNKNOWN@ {
            asks(turn, Ask::Supported, Talk::StartNamed(request))
        } else {
            turns(
                turn,
                seq![
                    report::wrong_command(
                        "scx scheduler already running"@,
                        "switch"@,
                        "start"@,
                    ),
                    report::help_hint(),
                ],
                Next::Exit,
            )
        },
        (Talk::StartNamed(request), Reply::Names(list)) => exists|
            resolved: Result<SupportedSched, SchedNameError>,
        | #[trigger]
            resolution(request.sched@, text::views(list@), resolved) && match resolved {
                Ok(s) => orders(
                    turn,
                    Order::Start,
                    s,
                    match request.mode {
                        Some(mode) => mode,
                        None => SchedMode::Auto,
                    },
                    request.args,
                ),
                Err(err) => turns(
                    turn,
                    name_errors(request.sched@, text::views(list@), err),
                    Next::Exit,
                ),
            },
        (Talk::Switch(request), Reply::Text(current)) => if current@ == UNKNOWN@ {
            turns(
                turn,
                seq![
                    report::wrong_command("no scx scheduler running"@, "start"@, "switch"@),
                    report::help_hint(),
                ],
                Next::Exit,
            )
        } else {
            exists|s: Option<SupportedSched>| #[trigger]
                known_as(current@, s) && match s {
                    Some(s) => if request.sched is Some {
                        asks(turn, Ask::Supported, Talk::SwitchNamed(request, s))
                    } else {
                        switches(turn, s, false, request.mode, request.args)
                    },
                    None => turns(
                        turn,
                        Seq::empty(),
                        Next::Fail(Failure::Unsupported(current)),
                    ),
                }
        },
        (Talk::SwitchNamed(request, current), Reply::Names(list)) => match request.sched {
            Some(name) => exists|resolved: Result<SupportedSched, SchedNameError>| #[trigger]
                resolution(name@, text::views(list@), resolved) && match resolved {
                    Ok(s) => switches(turn, s, s != current, request.mode, request.args),
                    Err(err) => turns(
                        turn,
                        name_errors(name@, text::views(list@), err),
                        Next::Exit,
                    ),
                },
            None => switches(turn, current, false, request.mode, request.args),
        },
        (Talk::SwitchMode(s, raw), Reply::Mode(mode)) => orders(turn, Order::Switch, s, mode, raw),
        (Talk::Ordered(order, s, mode), Reply::Done) => turns(
            turn,
            seq![report::out(report::accepted(order_text(order), s, mode))],
            Next::Ask(Ask::Snapshot, Talk::Observe),
        ),
        (Talk::OrderedWithArgs(order, s, list), Reply::Done) => ends(
            turn,
            seq![
                report::out(report::args_result(order_done_text(order), s, text::views(list@))),
            ],
        ),
        (Talk::Observe, Reply::Snapshot(snapshot)) => observes(turn, snapshot),
        (Talk::Stop, Reply::Done) => ends(turn, seq![report::out("stopped"@)]),
        (Talk::Restart, Reply::Done) => ends(turn, seq![report::out("restarted"@)]),
        (Talk::Restore, Reply::Text(default)) => if default@ == UNKNOWN@ {
            turns(
                turn,
                seq![
                    LineModel::start(true).with(Style::Error, "error:"@).with(
                        Style::Plain,
                        " no default scheduler configured"@,
                    ),
                    LineModel::start(true).with(Style::Plain, "\nSet '"@).with(
                        Style::Bold,
                        "default_sched"@,
                    ).with(Style::Plain, "' in your config file to use this command"@),
                ],
                Next::Exit,
            )
        } else {
            asks(turn, Ask::RestoreDefault, Talk::Restoring(default))
        },
        (Talk::Restoring(name), Reply::Done) => asks(
            turn,
            Ask::DefaultMode,
            Talk::RestoreMode(name),
        ),
        (Talk::RestoreMode(name), Reply::Mode(mode)) => exists|s: Option<SupportedSched>| #[trigger]
            known_as(name@, s) && match s {
                Some(s) => reports(turn, Deed::Restored, s, mode),
                None => turns(turn, Seq::empty(), Next::Fail(Failure::Unsupported(name))),
            },
        _ => true,
    }
}

fn ask(request: Ask, talk: Talk) -> (turn: Turn)
    ensures
        asks(turn, request, talk),
{
    let turn = Turn { lines: Vec::new(), next: Next::Ask(request, talk) };
    assert(line_models(turn.lines@) =~= Seq::empty());
    turn
}

fn end_with(line: Line) -> (turn: Turn)
    ensures
        ends(turn, seq![line@]),
{
    let mut lines: Vec<Line> = Vec::new();
    lines.push(line);
    assert(line_models(lines@) =~= seq![line@]);
    Turn { lines, next: Next::Finish }
}

fn say(text: &str) -> (turn: Turn)
    ensures
        ends(turn, seq![report::out(text@)]),
{
    end_with(report::out_line(text))
}

fn fail(failure: Failure) -> (turn: Turn)
    ensures
        turns(turn, Seq::empty(), Next::Fail(failure)),
{
    let turn = Turn { lines: Vec::new(), next: Next::Fail(failure) };
    assert(line_models(turn.lines@) =~= Seq::empty());
    turn
}

fn exit_with(first: Line, second: Line) -> (turn: Turn)
    ensures
        turns(turn, seq![first@, second@], Next::Exit),
{
    let mut lines: Vec<Line> = Vec::new();
    lines.push(first);
    lines.push(second);
    assert(line_models(lines@) =~= seq![first@, second@]);
    Turn { lines, next: Next::Exit }
}

fn order_word(order: Order) -> (s: &'static str)
    ensures
        s@ == order_text(order),
{
    match order {
        Order::Start => "start",
        Order::Switch => "switch",
    }
}

fn order_done_word(order: Order) -> (s: &'static str)
    ensures
        s@ == order_done_text(order),
{
    match order {
        Order::Start => "started",
        Order::Switch => "switched to",
    }
}

fn deed_word(deed: Deed) -> (s: &'static str)
    ensures
        s@ == deed_text(deed),
{
    match deed {
        Deed::Running => "running",
        Deed::Restored => "restored default scheduler",
    }
}

/// Tells whether a mode has configured arguments, going by a reply.
fn configured_by(mode: SchedMode, reply: &Reply) -> (yes: bool)
    ensures
        yes == report::counts_as_configured(mode, modes_in(*reply)),
{
    match reply {
        Reply::Modes(modes) => report::mode_is_configured(mode, Some(modes.as_slice())),
        _ => report::mode_is_configured(mode, None),
    }
}

fn report_mode(deed: Deed, sched: SupportedSched, mode: SchedMode) -> (turn: Turn)
    ensures
        reports(turn, deed, sched, mode),
{
    if mode == SchedMode::Auto {
        say(report::report_mode_result(deed_word(deed), sched, mode, true).as_str())
    } else {
        ask(Ask::ConfiguredModes(sched), Talk::Report(deed, sched, mode))
    }
}

/// Goes on with expanded arguments.
pub fn order_with_args(
    order: Order,
    sched: SupportedSched,
    expanded: Result<Vec<String>, args::ArgsExpandError>,
) -> (turn: Turn)
    ensures
        orders_args(turn, order, sched, args::expanded(expanded)),
{
    match expanded {
        Ok(list) => {
            let kept = text::clone_list(list.as_slice());
            ask(Ask::RunWithArgs(order, sched, list), Talk::OrderedWithArgs(order, sched, kept))
        },
        Err(err) => Turn { lines: report::refused_args(&err), next: Next::Exit },
    }
}

fn order_run(order: Order, sched: SupportedSched, mode: SchedMode, raw: Option<Vec<String>>) -> (
    turn: Turn)
    ensures
        orders(turn, order, sched, mode, raw),
{
    match raw {
        Some(raw) => order_with_args(
            order,
            sched,
            args::expand_scheduler_args(raw.as_slice()),
        ),
        None => if mode == SchedMode::Auto {
            ask(Ask::Run(order, sched, mode), Talk::Ordered(order, sched, mode))
        } else {
            ask(Ask::ConfiguredModes(sched), Talk::Warn(order, sched, mode))
        },
    }
}

/// The current mode is still to be asked for.
struct ModeUnknown;

fn mode_unknown() -> (mode: Result<SchedMode, ModeUnknown>)
    ensures
        mode is Err,
{
    Err(ModeUnknown)
}

fn switch_to(
    sched: SupportedSched,
    switching: bool,
    mode: Option<SchedMode>,
    raw: Option<Vec<String>>,
) -> (turn: Turn)
    ensures
        switches(turn, sched, switching, mode, raw),
{
    let resolved = report::resolve_switch_mode(mode, switching, mode_unknown);
    match resolved {
        Ok(mode) => order_run(Order::Switch, sched, mode, raw),
        Err(_) => ask(Ask::CurrentMode, Talk::SwitchMode(sched, raw)),
    }
}

fn resolve(name: &str, list: &Vec<String>) -> (resolved: Result<SupportedSched, SchedNameError>)
    ensures
        resolution(name@, text::views(list@), resolved),
{
    let resolved = sched::resolve_sched_name(name, list.as_slice());
    proof {
        let all = text::views(list@);
        assert forall|i: int| 0 <= i < all.len() implies #[trigger] all[i] == list@[i]@ by {}
        if !(resolved matches Err(SchedNameError::UnknownName)) {
            let i = choose|i: int|
                0 <= i < list@.len() && sched::names_sched((#[trigger] list@[i])@, name@);
            assert(sched::names_sched(all[i], name@));
        }
    }
    resolved
}

fn refuse_name(name: &str, list: &Vec<String>, err: SchedNameError) -> (turn: Turn)
    ensures
        turns(turn, name_errors(name@, text::views(list@), err), Next::Exit),
{
    let mut lines: Vec<Line> = Vec::new();
    match err {
        SchedNameError::UnknownName => {
            lines.push(
                Line::start(true).with(Style::Error, "error:").with(
                    Style::Plain,
                    " invalid value '",
                ).with(Style::Value, name).with(Style::Plain, "' for '").with(
                    Style::Bold,
                    "--sched <SCHED>",
                ).with(Style::Plain, "'"),
            );
            let short = sched::remove_scx_prefixes(list.as_slice());
            lines.push(
                Line::start(true).with(Style::Plain, "supported schedulers: ").list(
                    short.as_slice(),
                ),
            );
            lines.push(report::help_line());
        },
        SchedNameError::UnsupportedByClient => {
            lines.push(
                Line::start(true).with(Style::Error, "error:").with(
                    Style::Plain,
                    " scx_loader supports '",
                ).with(Style::Value, name).with(
                    Style::Plain,
                    "', but this scxctl build does not; update scxctl",
                ),
            );
        },
    }
    assert(line_models(lines@) =~= name_errors(name@, text::views(list@), err));
    Turn { lines, next: Next::Exit }
}

fn known(name: &str) -> (sched: Option<SupportedSched>)
    ensures
        known_as(name@, sched),
{
    SupportedSched::from_name(name)
}

fn show_configuration(sched: SupportedSched, entries: &Vec<(SchedMode, Vec<String>)>) -> (turn:
    Turn)
    ensures
        ends(turn, configuration(sched, entries@)),
{
    let mut head = "configuration for ".to_owned();
    head.append(sched.title());
    head.append(":");
    let mut lines: Vec<Line> = Vec::new();
    lines.push(report::out_line(head.as_str()));
    let ghost wanted = configuration(sched, entries@);
    let mut i: usize = 0;
    while i < entries.len()
        invariant
            i <= entries@.len(),
            wanted == configuration(sched, entries@),
            line_models(lines@) =~= wanted.take(i + 1),
        decreases entries@.len() - i,
    {
        let mode = entries[i].0;
        let mut line = "  ".to_owned();
        line.append(mode.title());
        line.append(": ");
        if entries[i].1.len() > 0 {
            let words = text::join(entries[i].1.as_slice(), " ");
            line.append(words.as_str());
        } else if mode == SchedMode::Auto {
            line.append("(uses ");
            line.append(sched.title());
            line.append("'s own defaults)");
        } else {
            line.append("(not configured, uses ");
            line.append(sched.title());
            line.append("'s own defaults)");
        }
        let ghost before = lines@;
        let line = report::out_line(line.as_str());
        assert(line@ == mode_line(sched, entries@[i as int]));
        lines.push(line);
        proof {
            assert(wanted[i + 1] == mode_line(sched, entries@[i as int]));
            assert(line_models(lines@) =~= line_models(before).push(line@));
            assert(wanted.take(i + 2) =~= wanted.take(i + 1).push(wanted[i + 1]));
        }
        i += 1;
    }
    assert(wanted.take(i + 1) =~= wanted);
    Turn { lines, next: Next::Finish }
}

fn show_configured(sched: SupportedSched, modes: &Vec<SchedMode>) -> (turn: Turn)
    ensures
        ends(turn, configured(sched, modes@)),
{
    let mut names: Vec<String> = Vec::new();
    let ghost wanted = titles(modes@);
    let mut i: usize = 0;
    while i < modes.len()
        invariant
            i <= modes@.len(),
            wanted == titles(modes@),
            text::views(names@) =~= wanted.take(i as int),
        decreases modes@.len() - i,
    {
        let ghost before = names@;
        names.push(modes[i].title().to_owned());
        proof {
            assert(text::views(names@) =~= text::views(before).push(names@.last()@));
            assert(wanted.take(i + 1) =~= wanted.take(i as int).push(wanted[i as int]));
        }
        i += 1;
    }
    assert(wanted.take(i as int) =~= wanted);
    let mut first = "modes configured for ".to_owned();
    first.append(sched.title());
    first.append(": [");
    first.append(text::join(names.as_slice(), ", ").as_str());
    first.append("]");
    let mut second = "(unlisted modes run with ".to_owned();
    second.append(sched.title());
    second.append("'s own defaults; use --show-args to see them all)");
    let mut lines: Vec<Line> = Vec::new();
    lines.push(report::out_line(first.as_str()));
    lines.push(report::out_line(second.as_str()));
    assert(line_models(lines@) =~= configured(sched, modes@));
    Turn { lines, next: Next::Finish }
}

fn observe(snapshot: LoaderSnapshot) -> (turn: Turn)
    ensures
        observes(turn, snapshot),
{
    let sched = known(snapshot.scheduler.as_str());
    assert(known_as(snapshot.scheduler@, sched));
    if snapshot.args.len() > 0 || text::text_eq(snapshot.scheduler.as_str(), UNKNOWN)
        || snapshot.mode == SchedMode::Auto {
        return say(report::loader_observation(&snapshot, true).as_str());
    }
    match sched {
        Some(s) => ask(Ask::ConfiguredModes(s), Talk::ObserveModes(snapshot)),
        None => say(report::loader_observation(&snapshot, true).as_str()),
    }
}

/// Opens the conversation of a command. Holds are not managed from here.
pub fn open(command: Commands) -> (first: Option<(Ask, Talk)>)
    ensures
        match command {
            Commands::Get => first == Some((Ask::CurrentScheduler, Talk::Get)),
            Commands::List => first == Some((Ask::Supported, Talk::List)),
            Commands::Modes { args } => first == Some(
                (Ask::Supported, Talk::Modes(args.sched, args.show_args)),
            ),
            Commands::Start { args } => first == Some((Ask::CurrentScheduler, Talk::Start(args))),
            Commands::Switch { args } => first == Some((Ask::CurrentScheduler, Talk::Switch(args))),
            Commands::Stop => first == Some((Ask::Stop, Talk::Stop)),
            Commands::Restart => first == Some((Ask::Restart, Talk::Restart)),
            Commands::Restore => first == Some((Ask::DefaultScheduler, Talk::Restore)),
            Commands::Hold { .. } | Commands::Release { .. } | Commands::Holds => first is None,
        },
        first matches Some(pair) ==> awaits(pair.0, pair.1),
{
    match command {
        Commands::Get => Some((Ask::CurrentScheduler, Talk::Get)),
        Commands::List => Some((Ask::Supported, Talk::List)),
        Commands::Modes { args } => Some((Ask::Supported, Talk::Modes(args.sched, args.show_args))),
        Commands::Start { args } => Some((Ask::CurrentScheduler, Talk::Start(args))),
        Commands::Switch { args } => Some((Ask::CurrentScheduler, Talk::Switch(args))),
        Commands::Stop => Some((Ask::Stop, Talk::Stop)),
        Commands::Restart => Some((Ask::Restart, Talk::Restart)),
        Commands::Restore => Some((Ask::DefaultScheduler, Talk::Restore)),
        Commands::Hold { .. } | Commands::Release { .. } | Commands::Holds => None,
    }
}

/// Goes on with a reply.
pub fn on_reply(talk: Talk, reply: Reply) -> (turn: Turn)
    requires
        fits(talk, reply),
    ensures
        replied(talk, reply, turn),
{
    match talk {
        Talk::Report(deed, s, mode) => {
            return say(
                report::report_mode_result(
                    deed_word(deed),
                    s,
                    mode,
                    configured_by(mode, &reply),
                ).as_str(),
            );
        },
        Talk::Warn(order, s, mode) => {
            let mut turn = ask(Ask::Run(order, s, mode), Talk::Ordered(order, s, mode));
            if !configured_by(mode, &reply) {
                let line = report::warning_line(report::report_unconfigured(s, mode).as_str());
                turn.lines.push(line);
                assert(line_models(turn.lines@) =~= seq![line@]);
            }
            return turn;
        },
        Talk::ObserveModes(snapshot) => {
            return if configured_by(snapshot.mode, &reply) {
                say(report::loader_observation(&snapshot, true).as_str())
            } else {
                ask(Ask::Generation, Talk::ObserveGeneration(snapshot))
            };
        },
        Talk::ObserveGeneration(snapshot) => {
            let after = match &reply {
                Reply::Text(generation) => Some(generation.as_str()),
                _ => None,
            };
            let seen = match &snapshot.generation {
                Some(generation) => Some(generation.as_str()),
                None => None,
            };
            let confirmed = report::same_instance_confirmed(seen, after);
            return say(report::loader_observation(&snapshot, !confirmed).as_str());
        },
        talk => reply_to(talk, reply),
    }
}

/// Goes on with a reply to a request that the command cannot do without.
fn reply_to(talk: Talk, reply: Reply) -> (turn: Turn)
    requires
        fits(talk, reply),
        !(talk is Report) && !(talk is Warn) && !(talk is ObserveModes)
            && !(talk is ObserveGeneration),
    ensures
        replied(talk, reply, turn),
{
    match (talk, reply) {
        (Talk::Observe, Reply::Failed(_)) => end_with(
            report::warning_line("current loader state could not be read"),
        ),
        (_, Reply::Failed(why)) => fail(Failure::Loader(why)),
        (Talk::Get, Reply::Text(current)) => {
            if text::text_eq(current.as_str(), UNKNOWN) {
                return say("no scx scheduler running");
            }
            let sched = known(current.as_str());
            assert(known_as(current@, sched));
            match sched {
                Some(s) => ask(Ask::CurrentArgs, Talk::GetArgs(s)),
                None => fail(Failure::Unsupported(current)),
            }
        },
        (Talk::GetArgs(s), Reply::Names(list)) => {
            if list.len() == 0 {
                ask(Ask::CurrentMode, Talk::GetMode(s))
            } else {
                say(report::report_args_result("running", s, list.as_slice()).as_str())
            }
        },
        (Talk::GetMode(s), Reply::Mode(mode)) => report_mode(Deed::Running, s, mode),
        (Talk::List, Reply::Names(list)) => {
            let short = sched::remove_scx_prefixes(list.as_slice());
            end_with(
                Line::start(false).with(Style::Plain, "supported schedulers: ").list(
                    short.as_slice(),
                ),
            )
        },
        (Talk::Modes(name, show_args), Reply::Names(list)) => {
            let resolved = resolve(name.as_str(), &list);
            assert(resolution(name@, text::views(list@), resolved));
            match resolved {
                Ok(s) => if show_args {
                    ask(Ask::ModeArgs(s), Talk::ModeArgsOf(s))
                } else {
                    ask(Ask::ConfiguredModes(s), Talk::ModesOf(s))
                },
                Err(err) => refuse_name(name.as_str(), &list, err),
            }
        },
        (Talk::ModesOf(s), Reply::Modes(modes)) => show_configured(s, &modes),
        (Talk::ModeArgsOf(s), Reply::ModeArgs(entries)) => show_configuration(s, &entries),
        (Talk::Start(request), Reply::Text(current)) => {
            if text::text_eq(current.as_str(), UNKNOWN) {
                ask(Ask::Supported, Talk::StartNamed(request))
            } else {
                exit_with(
                    report::wrong_command_line("scx scheduler already running", "switch", "start"),
                    report::help_line(),
                )
            }
        },
        (Talk::StartNamed(request), Reply::Names(list)) => {
            let resolved = resolve(request.sched.as_str(), &list);
            assert(resolution(request.sched@, text::views(list@), resolved));
            match resolved {
                Ok(s) => {
                    let mode = match request.mode {
                        Some(mode) => mode,
                        None => SchedMode::Auto,
                    };
                    order_run(Order::Start, s, mode, request.args)
                },
                Err(err) => refuse_name(request.sched.as_str(), &list, err),
            }
        },
        (Talk::Switch(request), Reply::Text(current)) => {
            if text::text_eq(current.as_str(), UNKNOWN) {
                return exit_with(
                    report::wrong_command_line("no scx scheduler running", "start", "switch"),
                    report::help_line(),
                );
            }
            let sched = known(current.as_str());
            assert(known_as(current@, sched));
            match sched {
                Some(s) => if request.sched.is_some() {
                    ask(Ask::Supported, Talk::SwitchNamed(request, s))
                } else {
                    switch_to(s, false, request.mode, request.args)
                },
                None => fail(Failure::Unsupported(current)),
            }
        },
        (Talk::SwitchNamed(request, current), Reply::Names(list)) => {
            match request.sched {
                Some(name) => {
                    let resolved = resolve(name.as_str(), &list);
                    assert(resolution(name@, text::views(list@), resolved));
                    match resolved {
                        Ok(s) => switch_to(s, s != current, request.mode, request.args),
                        Err(err) => refuse_name(name.as_str(), &list, err),
                    }
                },
                None => switch_to(current, false, request.mode, request.args),
            }
        },
        (Talk::SwitchMode(s, raw), Reply::Mode(mode)) => order_run(Order::Switch, s, mode, raw),
        (Talk::Ordered(order, s, mode), Reply::Done) => {
            let mut turn = ask(Ask::Snapshot, Talk::Observe);
            let text = report::report_accepted(order_word(order), s, mode);
            let line = report::out_line(text.as_str());
            turn.lines.push(line);
            assert(line_models(turn.lines@) =~= seq![line@]);
            turn
        },
        (Talk::OrderedWithArgs(order, s, list), Reply::Done) => say(
            report::report_args_result(order_done_word(order), s, list.as_slice()).as_str(),
        ),
        (Talk::Observe, Reply::Snapshot(snapshot)) => observe(snapshot),
        (Talk::Stop, Reply::Done) => say("stopped"),
        (Talk::Restart, Reply::Done) => say("restarted"),
        (Talk::Restore, Reply::Text(default)) => {
            if text::text_eq(default.as_str(), UNKNOWN) {
                exit_with(
                    Line::start(true).with(Style::Error, "error:").with(
                        Style::Plain,
                        " no default scheduler configured",
                    ),
                    Line::start(true).with(Style::Plain, "\nSet '").with(
                        Style::Bold,
                        "default_sched",
                    ).with(Style::Plain, "' in your config file to use this command"),
                )
            } else {
                ask(Ask::RestoreDefault, Talk::Restoring(default))
            }
        },
        (Talk::Restoring(name), Reply::Done) => ask(Ask::DefaultMode, Talk::RestoreMode(name)),
        (Talk::RestoreMode(name), Reply::Mode(mode)) => {
            let sched = known(name.as_str());
            assert(known_as(name@, sched));
            match sched {
                Some(s) => report_mode(Deed::Restored, s, mode),
                None => fail(Failure::Unsupported(name)),
            }
        },
        (_, _) => vstd::pervasive::unreached(),
    }
}

/// Every request is followed by the wait for its own reply.
pub proof fn lemma_waits_for_reply(talk: Talk, reply: Reply, turn: Turn)
    requires
        fits(talk, reply),
        replied(talk, reply, turn),
    ensures
        turn.next matches Next::Ask(request, then) ==> awaits(request, then),
{
}

/// How many requests may still follow, this one counted.
pub open spec fn requests_left(talk: Talk) -> nat {
    match talk {
        Talk::Switch(_) => 8,
        Talk::Start(_) | Talk::SwitchNamed(_, _) => 7,
        Talk::StartNamed(_) | Talk::SwitchMode(_, _) => 6,
        Talk::Warn(_, _, _) => 5,
        Talk::Ordered(_, _, _) | Talk::Get | Talk::Restore => 4,
        Talk::Observe | Talk::GetArgs(_) | Talk::Restoring(_) => 3,
        Talk::ObserveModes(_) | Talk::GetMode(_) | Talk::RestoreMode(_) | Talk::Modes(_, _) => 2,
        _ => 1,
    }
}

/// Every command comes to an end, whatever the loader replies: each reply leaves
/// fewer requests.
pub proof fn lemma_comes_to_an_end(talk: Talk, reply: Reply, turn: Turn)
    requires
        fits(talk, reply),
        replied(talk, reply, turn),
    ensures
        turn.next matches Next::Ask(_, then) ==> requests_left(then) < requests_left(talk),
        requests_left(talk) <= 8,
{
}

/// Arguments are passed on only if there are some: an empty list would mean
/// something other than what the user typed.
pub proof fn lemma_never_without_args(talk: Talk, reply: Reply, turn: Turn)
    requires
        fits(talk, reply),
        replied(talk, reply, turn),
    ensures
        turn.next matches Next::Ask(Ask::RunWithArgs(_, _, list), _) ==> list@.len() > 0,
{
    if let Next::Ask(Ask::RunWithArgs(_, _, list), _) = turn.next {
        assert(text::views(list@).len() == list@.len());
    }
}

/// A scheduler is started only after the loader has reported that none runs.
pub proof fn lemma_start_needs_idle(talk: Talk, reply: Reply, turn: Turn)
    requires
        fits(talk, reply),
        replied(talk, reply, turn),
    ensures
        turn.next matches Next::Ask(_, Talk::StartNamed(request)) ==> {
            &&& talk == Talk::Start(request)
            &&& reply matches Reply::Text(current)
            &&& current@ == UNKNOWN@
        },
        turn.next matches Next::Ask(_, Talk::Warn(Order::Start, _, _)) ==> talk is StartNamed,
        turn.next matches Next::Ask(Ask::Run(Order::Start, _, _), _) ==> talk is StartNamed || (
        talk matches Talk::Warn(order, _, _) && order == Order::Start),
        turn.next matches Next::Ask(Ask::RunWithArgs(Order::Start, _, _), _) ==> talk is StartNamed,
{
}

/// A switch is ordered only after the loader has reported a running scheduler.
pub proof fn lemma_switch_needs_running(talk: Talk, reply: Reply, turn: Turn)
    requires
        fits(talk, reply),
        replied(talk, reply, turn),
        talk is Switch,
        turn.next is Ask,
    ensures
        reply matches Reply::Text(current) && current@ != UNKNOWN@,
{
}

/// Custom arguments are what is shown, whatever is known of the mode.
pub proof fn lemma_args_win(snapshot: LoaderSnapshot, a: bool, b: bool)
    requires
        snapshot.args@.len() > 0,
    ensures
        report::observation(snapshot, a) == report::observation(snapshot, b),
{
}

/// A name resolves the same with its prefix and without, against a list of names
/// that carry the prefix once.
pub proof fn lemma_prefix_optional(
    name: Seq<char>,
    list: Seq<Seq<char>>,
    resolved: Result<SupportedSched, SchedNameError>,
)
    requires
        !sched::SCHED_PREFIX@.is_prefix_of(name),
        forall|i: int|
            0 <= i < list.len() ==> sched::SCHED_PREFIX@.is_prefix_of(#[trigger] list[i])
                && !sched::SCHED_PREFIX@.is_prefix_of(sched::unprefixed(list[i])),
    ensures
        resolution(name, list, resolved) <==> resolution(sched::prefixed(name), list, resolved),
{
    let prefix = sched::SCHED_PREFIX@;
    let full = sched::prefixed(name);
    assert(full == prefix + name);
    assert(prefix.is_prefix_of(full)) by {
        assert(full.take(prefix.len() as int) =~= prefix);
    }
    assert forall|i: int| 0 <= i < list.len() implies (sched::names_sched(
        #[trigger] list[i],
        name,
    ) <==> sched::names_sched(list[i], full)) by {
        let rest = list[i].skip(prefix.len() as int);
        assert(list[i] =~= prefix + rest);
        assert(full.skip(prefix.len() as int) =~= name);
    }
    if listed(name, list) {
        let i = choose|i: int| 0 <= i < list.len() && sched::names_sched(#[trigger] list[i], name);
        assert(sched::names_sched(list[i], full));
    }
    if listed(full, list) {
        let i = choose|i: int| 0 <= i < list.len() && sched::names_sched(#[trigger] list[i], full);
        assert(sched::names_sched(list[i], name));
    }
}

} // verus!
