//! Lines for the terminal.
use vstd::prelude::*;
use vstd::string::StringExecFns;

use crate::args;
use crate::sched::{SchedMode, SupportedSched, UNKNOWN};
use crate::text;

verus! {

/// How a piece of a line is shown.
#[derive(Debug, Clone, Copy, PartialEq, Eq, Structural)]
pub enum Style {
    Plain,
    Bold,
    /// A value that the user gave.
    Value,
    /// The word that opens a warning.
    Warning,
    /// The word that opens an error.
    Error,
    /// In quotes, with escapes.
    Quoted,
}

/// A piece of a line.
#[derive(Debug)]
pub struct Part {
    pub style: Style,
    pub text: String,
}

/// A line for the terminal.
#[derive(Debug)]
pub struct Line {
    /// Whether it goes to the error stream.
    pub err: bool,
    pub parts: Vec<Part>,
}

/// The model of a [`Line`].
pub struct LineModel {
    pub err: bool,
    pub parts: Seq<(Style, Seq<char>)>,
}

impl View for Line {
    type V = LineModel;

    open spec fn view(&self) -> LineModel {
        LineModel {
            err: self.err,
            parts: self.parts@.map_values(|part: Part| (part.style, part.text@)),
        }
    }
}

impl LineModel {
    pub open spec fn start(err: bool) -> LineModel {
        LineModel { err, parts: Seq::empty() }
    }

    pub open spec fn with(self, style: Style, text: Seq<char>) -> LineModel {
        LineModel { parts: self.parts.push((style, text)), ..self }
    }

    /// The line with a list of names, each in quotes.
    pub open spec fn list(self, names: Seq<Seq<char>>) -> LineModel {
        self.with(Style::Plain, "["@).items(names).with(Style::Plain, "]"@)
    }

    pub open spec fn items(self, names: Seq<Seq<char>>) -> LineModel
        decreases names.len(),
    {
        if names.len() == 0 {
            self
        } else if names.len() == 1 {
            self.with(Style::Quoted, names[0])
        } else {
            self.items(names.drop_last()).with(Style::Plain, ", "@).with(
                Style::Quoted,
                names.last(),
            )
        }
    }
}

impl Line {
    /// An empty line.
    pub fn start(err: bool) -> (line: Line)
        ensures
            line@ == LineModel::start(err),
    {
        let line = Line { err, parts: Vec::new() };
        assert(line@.parts =~= Seq::empty());
        line
    }

    /// The line with another piece at its end.
    pub fn with(self, style: Style, text: &str) -> (line: Line)
        ensures
            line@ == self@.with(style, text@),
    {
        let mut line = self;
        line.parts.push(Part { style, text: text.to_owned() });
        assert(line@.parts =~= self@.parts.push((style, text@)));
        line
    }

    /// The line with a list of names at its end, each in quotes.
    pub fn list(self, names: &[String]) -> (line: Line)
        ensures
            line@ == self@.list(text::views(names@)),
    {
        let ghost all = text::views(names@);
        let mut line = self.with(Style::Plain, "[");
        let ghost front = line@;
        let mut i: usize = 0;
        assert(all.take(0) =~= Seq::empty());
        while i < names.len()
            invariant
                i <= names@.len(),
                all == text::views(names@),
                line@ == front.items(all.take(i as int)),
            decreases names@.len() - i,
        {
            proof {
                assert(all.take(i + 1).drop_last() =~= all.take(i as int));
                assert(all.take(i + 1).last() == names@[i as int]@);
            }
            if i > 0 {
                line = line.with(Style::Plain, ", ");
            }
            line = line.with(Style::Quoted, names[i].as_str());
            i += 1;
        }
        assert(all.take(i as int) =~= all);
        line.with(Style::Plain, "]")
    }
}

/// The models of a list of lines.
pub open spec fn line_models(lines: Seq<Line>) -> Seq<LineModel> {
    lines.map_values(|line: Line| line@)
}

/// A line of output.
pub open spec fn out(text: Seq<char>) -> LineModel {
    LineModel::start(false).with(Style::Plain, text)
}

pub fn out_line(text: &str) -> (line: Line)
    ensures
        line@ == out(text@),
{
    Line::start(false).with(Style::Plain, text)
}

/// A warning.
pub open spec fn warning(text: Seq<char>) -> LineModel {
    LineModel::start(true).with(Style::Warning, "warning:"@).with(Style::Plain, " "@ + text)
}

pub fn warning_line(text: &str) -> (line: Line)
    ensures
        line@ == warning(text@),
{
    let mut spaced = " ".to_owned();
    spaced.append(text);
    Line::start(true).with(Style::Warning, "warning:").with(Style::Plain, spaced.as_str())
}

/// The hint at the end of most errors.
pub open spec fn help_hint() -> LineModel {
    LineModel::start(true).with(Style::Plain, "\nFor more information, try '"@).with(
        Style::Bold,
        "--help"@,
    ).with(Style::Plain, "'"@)
}

pub fn help_line() -> (line: Line)
    ensures
        line@ == help_hint(),
{
    Line::start(true).with(Style::Plain, "\nFor more information, try '").with(
        Style::Bold,
        "--help",
    ).with(Style::Plain, "'")
}

/// The error about one command in place of another.
pub open spec fn wrong_command(state: Seq<char>, right: Seq<char>, wrong: Seq<char>) -> LineModel {
    LineModel::start(true).with(Style::Error, "error:"@).with(
        Style::Plain,
        " "@ + state + ", use '"@,
    ).with(Style::Bold, right).with(Style::Plain, "' instead of '"@).with(Style::Bold, wrong).with(
        Style::Plain,
        "'"@,
    )
}

pub fn wrong_command_line(state: &str, right: &str, wrong: &str) -> (line: Line)
    ensures
        line@ == wrong_command(state@, right@, wrong@),
{
    let mut lead = " ".to_owned();
    lead.append(state);
    lead.append(", use '");
    Line::start(true).with(Style::Error, "error:").with(Style::Plain, lead.as_str()).with(
        Style::Bold,
        right,
    ).with(Style::Plain, "' instead of '").with(Style::Bold, wrong).with(Style::Plain, "'")
}

/// The errors about arguments that do not parse.
pub open spec fn invalid_args(why: Seq<char>) -> Seq<LineModel> {
    seq![
        LineModel::start(true).with(Style::Error, "error:"@).with(
            Style::Plain,
            " invalid value for '"@,
        ).with(Style::Bold, "--args <ARGS>"@).with(Style::Plain, "': "@ + why),
        LineModel::start(true).with(
            Style::Plain,
            "\nQuotes must be balanced and cannot span a comma"@,
        ),
    ]
}

/// The errors about arguments that hold nothing.
pub open spec fn empty_args() -> Seq<LineModel> {
    seq![
        LineModel::start(true).with(Style::Error, "error:"@).with(Style::Plain, " '"@).with(
            Style::Bold,
            "--args <ARGS>"@,
        ).with(Style::Plain, "' expanded to no arguments"@),
        LineModel::start(true).with(
            Style::Plain,
            "\nTo run a scheduler with its own defaults, omit '"@,
        ).with(Style::Bold, "--args"@).with(Style::Plain, "'"@),
    ]
}

/// Reports why arguments were refused.
pub fn refused_args(err: &args::ArgsExpandError) -> (lines: Vec<Line>)
    ensures
        line_models(lines@) == match err {
            args::ArgsExpandError::Parse(why) => invalid_args(why@),
            args::ArgsExpandError::Empty => empty_args(),
        },
{
    let mut lines: Vec<Line> = Vec::new();
    match err {
        args::ArgsExpandError::Parse(why) => {
            let mut tail = "': ".to_owned();
            tail.append(why.as_str());
            lines.push(
                Line::start(true).with(Style::Error, "error:").with(
                    Style::Plain,
                    " invalid value for '",
                ).with(Style::Bold, "--args <ARGS>").with(Style::Plain, tail.as_str()),
            );
            lines.push(
                Line::start(true).with(
                    Style::Plain,
                    "\nQuotes must be balanced and cannot span a comma",
                ),
            );
            assert(line_models(lines@) =~= invalid_args(why@));
        },
        args::ArgsExpandError::Empty => {
            lines.push(
                Line::start(true).with(Style::Error, "error:").with(Style::Plain, " '").with(
                    Style::Bold,
                    "--args <ARGS>",
                ).with(Style::Plain, "' expanded to no arguments"),
            );
            lines.push(
                Line::start(true).with(
                    Style::Plain,
                    "\nTo run a scheduler with its own defaults, omit '",
                ).with(Style::Bold, "--args").with(Style::Plain, "'"),
            );
            assert(line_models(lines@) =~= empty_args());
        },
    }
    lines
}

/// The outcome of an operation in a mode: whether the mode's arguments applied
/// or the scheduler fell back to its own defaults.
pub open spec fn mode_result(
    action: Seq<char>,
    sched: SupportedSched,
    mode: SchedMode,
    mode_configured: bool,
) -> Seq<char> {
    if mode_configured {
        action + " "@ + crate::sched::sched_title(sched) + " in "@ + crate::sched::mode_title(mode)
            + " mode"@
    } else {
        action + " "@ + crate::sched::sched_title(sched) + " with its own defaults"@
    }
}

/// Says how an operation in a mode came out.
pub fn report_mode_result(
    action: &str,
    sched: SupportedSched,
    mode: SchedMode,
    mode_configured: bool,
) -> (text: String)
    ensures
        text@ == mode_result(action@, sched, mode, mode_configured),
{
    let mut text = action.to_owned();
    text.append(" ");
    text.append(sched.title());
    if mode_configured {
        text.append(" in ");
        text.append(mode.title());
        text.append(" mode");
    } else {
        text.append(" with its own defaults");
    }
    text
}

/// The outcome of an operation with arguments.
pub open spec fn args_result(
    action: Seq<char>,
    sched: SupportedSched,
    words: Seq<Seq<char>>,
) -> Seq<char> {
    action + " "@ + crate::sched::sched_title(sched) + " with arguments \""@ + args::shell_join(
        words,
    ) + "\""@
}

pub fn report_args_result(action: &str, sched: SupportedSched, list: &[String]) -> (text: String)
    ensures
        text@ == args_result(action@, sched, text::views(list@)),
{
    let mut text = action.to_owned();
    text.append(" ");
    text.append(sched.title());
    text.append(" with arguments \"");
    text.append(args::format_scheduler_args(list).as_str());
    text.append("\"");
    text
}

/// The line that claims acceptance of an order.
pub open spec fn accepted(order: Seq<char>, sched: SupportedSched, mode: SchedMode) -> Seq<char> {
    order + " request for "@ + crate::sched::sched_title(sched) + " accepted (requested "@
        + crate::sched::mode_title(mode) + " mode)"@
}

pub fn report_accepted(order: &str, sched: SupportedSched, mode: SchedMode) -> (text: String)
    ensures
        text@ == accepted(order@, sched, mode),
{
    let mut text = order.to_owned();
    text.append(" request for ");
    text.append(sched.title());
    text.append(" accepted (requested ");
    text.append(mode.title());
    text.append(" mode)");
    text
}

/// The warning about a mode without arguments.
pub open spec fn unconfigured(sched: SupportedSched, mode: SchedMode) -> Seq<char> {
    crate::sched::sched_title(sched) + " has no configured arguments for "@
        + crate::sched::mode_title(mode) + " mode; it will run with its own defaults"@
}

pub fn report_unconfigured(sched: SupportedSched, mode: SchedMode) -> (text: String)
    ensures
        text@ == unconfigured(sched, mode),
{
    let mut text = sched.title().to_owned();
    text.append(" has no configured arguments for ");
    text.append(mode.title());
    text.append(" mode; it will run with its own defaults");
    text
}

/// Loader state from a single read, so that the values describe one moment.
#[derive(Debug, PartialEq)]
pub struct LoaderSnapshot {
    pub scheduler: String,
    pub mode: SchedMode,
    pub args: Vec<String>,
    /// Instance identity from the same read; `None` on older daemons.
    pub generation: Option<String>,
}

/// Puts a snapshot together out of what was read. Without scheduler, mode or
/// arguments there is none.
pub fn snapshot_of(
    scheduler: Option<String>,
    mode: Option<SchedMode>,
    args: Option<Vec<String>>,
    generation: Option<String>,
) -> (snapshot: Option<LoaderSnapshot>)
    ensures
        snapshot == match (scheduler, mode, args) {
            (Some(scheduler), Some(mode), Some(args)) => Some(
                LoaderSnapshot { scheduler, mode, args, generation },
            ),
            _ => None,
        },
{
    match (scheduler, mode, args) {
        (Some(scheduler), Some(mode), Some(args)) => Some(
            LoaderSnapshot { scheduler, mode, args, generation },
        ),
        _ => None,
    }
}

/// The one line about loader state: plain observation, no reference to a request.
pub open spec fn observation(snapshot: LoaderSnapshot, mode_configured: bool) -> Seq<char> {
    let lead = "the loader now reports "@;
    if snapshot.scheduler@ == UNKNOWN@ {
        lead + "no scheduler running"@
    } else if snapshot.args@.len() > 0 {
        lead + snapshot.scheduler@ + " with arguments \""@ + args::shell_join(
            text::views(snapshot.args@),
        ) + "\""@
    } else if mode_configured {
        lead + snapshot.scheduler@ + " in "@ + crate::sched::mode_title(snapshot.mode) + " mode"@
    } else {
        lead + snapshot.scheduler@ + " in "@ + crate::sched::mode_title(snapshot.mode)
            + " mode (no configured arguments; scheduler defaults in effect)"@
    }
}

/// Says what the loader reports.
pub fn loader_observation(snapshot: &LoaderSnapshot, mode_configured: bool) -> (text: String)
    ensures
        text@ == observation(*snapshot, mode_configured),
{
    let mut text = "the loader now reports ".to_owned();
    if text::text_eq(snapshot.scheduler.as_str(), UNKNOWN) {
        text.append("no scheduler running");
    } else if snapshot.args.len() > 0 {
        text.append(snapshot.scheduler.as_str());
        text.append(" with arguments \"");
        text.append(args::format_scheduler_args(&snapshot.args).as_str());
        text.append("\"");
    } else {
        text.append(snapshot.scheduler.as_str());
        text.append(" in ");
        text.append(snapshot.mode.title());
        if mode_configured {
            text.append(" mode");
        } else {
            text.append(" mode (no configured arguments; scheduler defaults in effect)");
        }
    }
    text
}

/// Whether the same instance answered both reads: both identities are known and
/// equal. Names on the bus are never reused, so an unchanged identity rules out a
/// replacement in between.
pub fn same_instance_confirmed(
    snapshot_generation: Option<&str>,
    generation_after: Option<&str>,
) -> (yes: bool)
    ensures
        yes <==> (snapshot_generation matches Some(a) && generation_after matches Some(b) && a@
            == b@),
{
    match (snapshot_generation, generation_after) {
        (Some(a), Some(b)) => text::text_eq(a, b),
        _ => false,
    }
}

/// Whether the list of configured modes has `mode`.
pub fn has_mode(modes: &[SchedMode], mode: SchedMode) -> (yes: bool)
    ensures
        yes == modes@.contains(mode),
{
    let mut i: usize = 0;
    while i < modes.len()
        invariant
            i <= modes@.len(),
            forall|k: int| 0 <= k < i ==> modes@[k] != mode,
        decreases modes@.len() - i,
    {
        if modes[i] == mode {
            return true;
        }
        i += 1;
    }
    false
}

/// Whether `mode` counts as configured, given the answer to the query for the
/// configured modes. The automatic mode always does, since it is the scheduler's
/// own defaults; so does every mode while the query fails.
pub open spec fn counts_as_configured(mode: SchedMode, answer: Option<Seq<SchedMode>>) -> bool {
    mode == SchedMode::Auto || match answer {
        Some(modes) => modes.contains(mode),
        None => true,
    }
}

/// Tells whether `mode` has configured arguments.
pub fn mode_is_configured(mode: SchedMode, answer: Option<&[SchedMode]>) -> (yes: bool)
    ensures
        yes == counts_as_configured(
            mode,
            match answer {
                Some(modes) => Some(modes@),
                None => None,
            },
        ),
{
    if mode == SchedMode::Auto {
        return true;
    }
    match answer {
        Some(modes) => has_mode(modes, mode),
        None => true,
    }
}

/// Resolves which mode a switch should use. The current mode is fetched only when
/// no mode was requested and the scheduler stays the same.
pub fn resolve_switch_mode<E>(
    requested_mode: Option<SchedMode>,
    switching_scheduler: bool,
    fetch_current_mode: impl FnOnce() -> Result<SchedMode, E>,
) -> (mode: Result<SchedMode, E>)
    requires
        requested_mode is None && !switching_scheduler ==> call_requires(fetch_current_mode, ()),
    ensures
        match requested_mode {
            Some(m) => mode == Ok::<SchedMode, E>(m),
            None => if switching_scheduler {
                mode == Ok::<SchedMode, E>(SchedMode::Auto)
            } else {
                call_ensures(fetch_current_mode, (), mode)
            },
        },
{
    match requested_mode {
        Some(mode) => Ok(mode),
        None => if switching_scheduler {
            Ok(SchedMode::Auto)
        } else {
            fetch_current_mode()
        },
    }
}

/// A mode counts as configured unless the loader lists its configured modes and it
/// is not among them; the automatic mode always does.
pub proof fn lemma_counts_as_configured(mode: SchedMode, answer: Option<Seq<SchedMode>>)
    ensures
        counts_as_configured(mode, answer) <==> {
            ||| mode == SchedMode::Auto
            ||| answer is None
            ||| answer->0.contains(mode)
        },
{
}

/// What is said of the loader's state: that nothing runs, whatever else was read;
/// the scheduler with its arguments, where it has some; and otherwise the scheduler
/// in its mode, with a remark exactly where the mode is not configured.
pub proof fn lemma_observation(snapshot: LoaderSnapshot, configured: bool)
    ensures
        snapshot.scheduler@ == "unknown"@ ==> observation(snapshot, configured)
            == "the loader now reports "@ + "no scheduler running"@,
        snapshot.scheduler@ != "unknown"@ && snapshot.args@.len() > 0 ==> observation(
            snapshot,
            configured,
        ) == "the loader now reports "@ + snapshot.scheduler@ + " with arguments \""@
            + args::shell_join(text::views(snapshot.args@)) + "\""@,
        snapshot.scheduler@ != "unknown"@ && snapshot.args@.len() == 0 ==> observation(
            snapshot,
            true,
        ) == "the loader now reports "@ + snapshot.scheduler@ + " in "@ + crate::sched::mode_title(
            snapshot.mode,
        ) + " mode"@,
        snapshot.scheduler@ != "unknown"@ && snapshot.args@.len() == 0 ==> observation(
            snapshot,
            false,
        ) == "the loader now reports "@ + snapshot.scheduler@ + " in "@ + crate::sched::mode_title(
            snapshot.mode,
        ) + " mode (no configured arguments; scheduler defaults in effect)"@,
{
}

/// An outcome names the scheduler and the mode, or its own defaults where the mode is
/// not configured; an accepted order names what was requested.
pub proof fn lemma_outcomes(action: Seq<char>, sched: SupportedSched, mode: SchedMode)
    ensures
        mode_result(action, sched, mode, true) == action + " "@ + crate::sched::sched_title(sched)
            + " in "@ + crate::sched::mode_title(mode) + " mode"@,
        mode_result(action, sched, mode, false) == action + " "@ + crate::sched::sched_title(sched)
            + " with its own defaults"@,
        accepted(action, sched, mode) == action + " request for "@ + crate::sched::sched_title(sched)
            + " accepted (requested "@ + crate::sched::mode_title(mode) + " mode)"@,
{
}

proof fn lemma_items(line: LineModel, names: Seq<Seq<char>>)
    ensures
        line.items(names).err == line.err,
        names.len() == 0 ==> line.items(names).parts == line.parts,
        names.len() > 0 ==> line.items(names).parts.len() == line.parts.len() + 2 * names.len() - 1,
        forall|k: int|
            0 <= k < line.parts.len() ==> #[trigger] line.items(names).parts[k] == line.parts[k],
        forall|i: int|
            #![trigger names[i]]
            0 <= i < names.len() ==> line.items(names).parts[line.parts.len() + 2 * i] == (
                Style::Quoted,
                names[i],
            ),
    decreases names.len(),
{
    if names.len() > 1 {
        let front = names.drop_last();
        lemma_items(line, front);
        assert forall|i: int| 0 <= i < names.len() implies line.items(
            names,
        ).parts[line.parts.len() + 2 * i] == (Style::Quoted, #[trigger] names[i]) by {
            if i < front.len() {
                assert(front[i] == names[i]);
            }
        }
    }
}

/// A list of names holds each of them in quotes, in order, behind what stood on the
/// line.
pub proof fn lemma_names_listed(line: LineModel, names: Seq<Seq<char>>)
    ensures
        line.list(names).err == line.err,
        forall|k: int|
            0 <= k < line.parts.len() ==> #[trigger] line.list(names).parts[k] == line.parts[k],
        forall|i: int|
            #![trigger names[i]]
            0 <= i < names.len() ==> line.list(names).parts[line.parts.len() + 1 + 2 * i] == (
                Style::Quoted,
                names[i],
            ),
        line.list(names).parts.last() == (Style::Plain, "]"@),
{
    let opened = line.with(Style::Plain, "["@);
    lemma_items(opened, names);
    assert forall|k: int| 0 <= k < line.parts.len() implies #[trigger] line.list(names).parts[k]
        == line.parts[k] by {
        assert(opened.parts[k] == line.parts[k]);
        assert(opened.items(names).parts[k] == opened.parts[k]);
    }
    assert forall|i: int| 0 <= i < names.len() implies line.list(
        names,
    ).parts[line.parts.len() + 1 + 2 * i] == (Style::Quoted, #[trigger] names[i]) by {
        assert(opened.parts.len() == line.parts.len() + 1);
    }
}

/// A snapshot is what one read gave, all of it, and there is none where the scheduler,
/// the mode or the arguments are missing. The same instance is confirmed only by two
/// identities that are known and equal.
pub proof fn lemma_snapshot_read(
    scheduler: Option<String>,
    mode: Option<SchedMode>,
    list: Option<Vec<String>>,
    generation: Option<String>,
    snapshot: Option<LoaderSnapshot>,
    before: Option<&str>,
    after: Option<&str>,
    confirmed: bool,
)
    requires
        call_ensures(snapshot_of, (scheduler, mode, list, generation), snapshot),
        call_ensures(same_instance_confirmed, (before, after), confirmed),
    ensures
        snapshot is Some <==> scheduler is Some && mode is Some && list is Some,
        snapshot matches Some(s) ==> {
            &&& scheduler == Some(s.scheduler)
            &&& mode == Some(s.mode)
            &&& list == Some(s.args)
            &&& s.generation == generation
        },
        before is None || after is None ==> !confirmed,
        before is Some && after is Some ==> (confirmed <==> before->0@ == after->0@),
{
}

} // verus!
