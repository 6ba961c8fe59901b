//! The texts of the message bar.
use vstd::prelude::*;
use vstd::string::StringExecFns;

use crate::sched::{mode_label, mode_text, SchedMode};
use crate::text;

verus! {

/// The text for a start, a switch, or a mode change of the running scheduler.
pub open spec fn started_text(
    running: Option<Seq<char>>,
    sched: Seq<char>,
    mode: SchedMode,
    configured: bool,
) -> Seq<char> {
    let base = match running {
        None => "started "@ + sched + " in "@ + mode_text(mode) + " mode"@,
        Some(current) => if current == sched {
            "switched "@ + sched + " to "@ + mode_text(mode) + " mode"@
        } else {
            "switched to "@ + sched + " in "@ + mode_text(mode) + " mode"@
        },
    };
    if configured {
        base
    } else {
        base + " — no arguments configured, scheduler defaults in use"@
    }
}

/// Reports a start or a switch in a mode.
pub fn started_notice(running: Option<&str>, sched: &str, mode: SchedMode, configured: bool) -> (s:
    String)
    ensures
        s@ == started_text(
            match running {
                Some(r) => Some(r@),
                None => None,
            },
            sched@,
            mode,
            configured,
        ),
{
    let (lead, link) = match running {
        None => ("started ", " in "),
        Some(current) => if text::text_eq(current, sched) {
            ("switched ", " to ")
        } else {
            ("switched to ", " in ")
        },
    };
    let mut s = lead.to_owned();
    s.append(sched);
    s.append(link);
    s.append(mode_label(mode));
    s.append(" mode");
    if !configured {
        s.append(" — no arguments configured, scheduler defaults in use");
    }
    s
}

/// What is being attempted: a switch where something runs, a start otherwise.
pub open spec fn attempt_verb(running: bool) -> Seq<char> {
    if running {
        "switch to"@
    } else {
        "start"@
    }
}

fn attempt_label(running: bool) -> (s: &'static str)
    ensures
        s@ == attempt_verb(running),
{
    if running {
        "switch to"
    } else {
        "start"
    }
}

/// The text for a failed start or switch.
pub open spec fn start_failed_text(running: bool, sched: Seq<char>, err: Seq<char>) -> Seq<char> {
    attempt_verb(running) + " "@ + sched + " failed: "@ + err
}

/// Reports a failed start or switch.
pub fn start_failed_notice(running: bool, sched: &str, err: &str) -> (s: String)
    ensures
        s@ == start_failed_text(running, sched@, err@),
{
    let mut s = attempt_label(running).to_owned();
    s.append(" ");
    s.append(sched);
    s.append(" failed: ");
    s.append(err);
    s
}

/// The text for a start or a switch with custom arguments.
pub open spec fn args_started_text(
    running: Option<Seq<char>>,
    sched: Seq<char>,
    rendered: Seq<char>,
) -> Seq<char> {
    let verb = match running {
        None => "started"@,
        Some(current) => if current == sched {
            "restarted"@
        } else {
            "switched to"@
        },
    };
    verb + " "@ + sched + " with args: "@ + rendered + " (session-only)"@
}

/// Reports a start or a switch with custom arguments.
pub fn args_started_notice(running: Option<&str>, sched: &str, rendered: &str) -> (s: String)
    ensures
        s@ == args_started_text(
            match running {
                Some(r) => Some(r@),
                None => None,
            },
            sched@,
            rendered@,
        ),
{
    let verb = match running {
        None => "started",
        Some(current) => if text::text_eq(current, sched) {
            "restarted"
        } else {
            "switched to"
        },
    };
    let mut s = verb.to_owned();
    s.append(" ");
    s.append(sched);
    s.append(" with args: ");
    s.append(rendered);
    s.append(" (session-only)");
    s
}

/// The text for a failed start or switch with custom arguments.
pub open spec fn args_failed_text(
    running: bool,
    sched: Seq<char>,
    rendered: Seq<char>,
    err: Seq<char>,
) -> Seq<char> {
    attempt_verb(running) + " "@ + sched + " with args '"@ + rendered + "' failed: "@ + err
}

/// Reports a failed start or switch with custom arguments.
pub fn args_failed_notice(running: bool, sched: &str, rendered: &str, err: &str) -> (s: String)
    ensures
        s@ == args_failed_text(running, sched@, rendered@, err@),
{
    let mut s = attempt_label(running).to_owned();
    s.append(" ");
    s.append(sched);
    s.append(" with args '");
    s.append(rendered);
    s.append("' failed: ");
    s.append(err);
    s
}

/// The text for a restart into another mode.
pub open spec fn restarted_text(sched: Seq<char>, mode: SchedMode) -> Seq<char> {
    "restarted "@ + sched + " in "@ + mode_text(mode) + " mode"@
}

/// Reports a restart into another mode.
pub fn restarted_notice(sched: &str, mode: SchedMode) -> (s: String)
    ensures
        s@ == restarted_text(sched@, mode),
{
    let mut s = "restarted ".to_owned();
    s.append(sched);
    s.append(" in ");
    s.append(mode_label(mode));
    s.append(" mode");
    s
}

/// The text for a failed restart into another mode.
pub open spec fn restart_failed_text(sched: Seq<char>, err: Seq<char>) -> Seq<char> {
    "restart "@ + sched + " failed: "@ + err
}

/// Reports a failed restart into another mode.
pub fn restart_failed_notice(sched: &str, err: &str) -> (s: String)
    ensures
        s@ == restart_failed_text(sched@, err@),
{
    let mut s = "restart ".to_owned();
    s.append(sched);
    s.append(" failed: ");
    s.append(err);
    s
}

/// The text for a switch of the backend.
pub open spec fn toggled_text(label: Seq<char>) -> Seq<char> {
    "switched to "@ + label + " backend"@
}

/// Reports a switch of the backend.
pub fn toggled_notice(label: &str) -> (s: String)
    ensures
        s@ == toggled_text(label@),
{
    let mut s = "switched to ".to_owned();
    s.append(label);
    s.append(" backend");
    s
}

/// The text for a backend that could not be switched to.
pub open spec fn toggle_failed_text(err: Seq<char>, label: Seq<char>) -> Seq<char> {
    "cannot switch backend: "@ + err + " (staying on "@ + label + ")"@
}

/// Reports a backend that could not be switched to.
pub fn toggle_failed_notice(err: &str, label: &str) -> (s: String)
    ensures
        s@ == toggle_failed_text(err@, label@),
{
    let mut s = "cannot switch backend: ".to_owned();
    s.append(err);
    s.append(" (staying on ");
    s.append(label);
    s.append(")");
    s
}

/// The text for a journal fetch.
pub open spec fn loaded_text(
    lines: nat,
    unit: Seq<char>,
    boot: Seq<char>,
    truncated: bool,
) -> Seq<char> {
    "loaded "@ + text::decimal_digits(lines) + " lines from "@ + unit + " (boot "@ + boot + ")"@
        + if truncated {
        " — older entries omitted, see journalctl for the full log"@
    } else {
        ""@
    }
}

/// Reports a journal fetch.
pub fn loaded_notice(lines: usize, unit: &str, boot: &str, truncated: bool) -> (s: String)
    ensures
        s@ == loaded_text(lines as nat, unit@, boot@, truncated),
{
    let mut s = "loaded ".to_owned();
    s.append(text::decimal(lines as u64).as_str());
    s.append(" lines from ");
    s.append(unit);
    s.append(" (boot ");
    s.append(boot);
    s.append(")");
    s.append(
        if truncated {
            " — older entries omitted, see journalctl for the full log"
        } else {
            ""
        },
    );
    s
}

/// The text for custom arguments that do not parse.
pub open spec fn invalid_args_text(why: Seq<char>) -> Seq<char> {
    "invalid arguments: "@ + why + " — quotes must be balanced and cannot span a comma"@
}

/// Reports custom arguments that do not parse.
pub fn invalid_args_notice(why: &str) -> (s: String)
    ensures
        s@ == invalid_args_text(why@),
{
    let mut s = "invalid arguments: ".to_owned();
    s.append(why);
    s.append(" — quotes must be balanced and cannot span a comma");
    s
}

/// Reports custom arguments that hold nothing.
pub const EMPTY_ARGS: &'static str =
    "arguments expanded to nothing — to run with scheduler defaults, press Esc and use Enter instead";

/// Announces an action that is about to run.
pub const WORKING: &'static str = "working…";

/// The text for a scheduler list that could not be fetched again.
pub open spec fn list_failed_text(err: Seq<char>) -> Seq<char> {
    "scheduler list refresh failed: "@ + err
}

/// Reports a scheduler list that could not be fetched again.
pub fn list_failed_notice(err: &str) -> (s: String)
    ensures
        s@ == list_failed_text(err@),
{
    let mut s = "scheduler list refresh failed: ".to_owned();
    s.append(err);
    s
}

/// How a run of the monitor program ended.
#[derive(Debug)]
pub enum MonitorEnd {
    Success,
    /// It exited with a status other than success, given as a text.
    Failed(String),
    /// It is not installed.
    NotFound,
    /// It could not be launched for another reason.
    NotLaunched(String),
}

/// The text for a run of the monitor program.
pub open spec fn monitor_text(end: MonitorEnd) -> Seq<char> {
    match end {
        MonitorEnd::Success => "scxtop exited"@,
        MonitorEnd::Failed(status) => "scxtop exited with "@ + status@
            + " — it needs root/CAP_BPF; try running scxtui as root or granting scxtop capabilities"@,
        MonitorEnd::NotFound =>
            "scxtop not found in PATH — install it (cargo install scxtop, or your distro's scx tools package)"@,
        MonitorEnd::NotLaunched(err) => "failed to launch scxtop: "@ + err@,
    }
}

/// Reports a run of the monitor program.
pub fn monitor_notice(end: &MonitorEnd) -> (s: String)
    ensures
        s@ == monitor_text(*end),
{
    match end {
        MonitorEnd::Success => "scxtop exited".to_owned(),
        MonitorEnd::Failed(status) => {
            let mut s = "scxtop exited with ".to_owned();
            s.append(status.as_str());
            s.append(
                " — it needs root/CAP_BPF; try running scxtui as root or granting scxtop capabilities",
            );
            s
        },
        MonitorEnd::NotFound =>
            "scxtop not found in PATH — install it (cargo install scxtop, or your distro's scx tools package)".to_owned(),
        MonitorEnd::NotLaunched(err) => {
            let mut s = "failed to launch scxtop: ".to_owned();
            s.append(err.as_str());
            s
        },
    }
}

/// The notice of a start names the scheduler and the mode, tells a start from a
/// switch and a switch from a change of the mode, and has a remark at its end exactly
/// where the mode is not configured.
pub proof fn lemma_started_texts(running: Option<Seq<char>>, sched: Seq<char>, mode: SchedMode)
    ensures
        running is None ==> started_text(running, sched, mode, true) == "started "@ + sched
            + " in "@ + mode_text(mode) + " mode"@,
        running == Some(sched) ==> started_text(running, sched, mode, true) == "switched "@ + sched
            + " to "@ + mode_text(mode) + " mode"@,
        running is Some && running != Some(sched) ==> started_text(running, sched, mode, true)
            == "switched to "@ + sched + " in "@ + mode_text(mode) + " mode"@,
        started_text(running, sched, mode, false) == started_text(running, sched, mode, true)
            + " — no arguments configured, scheduler defaults in use"@,
{
}

/// The notices about arguments name the scheduler and the arguments, and tell a start,
/// a restart and a switch apart.
pub proof fn lemma_args_texts(
    running: Option<Seq<char>>,
    sched: Seq<char>,
    rendered: Seq<char>,
    err: Seq<char>,
)
    ensures
        running is None ==> args_started_text(running, sched, rendered) == "started"@ + " "@ + sched
            + " with args: "@ + rendered + " (session-only)"@,
        running == Some(sched) ==> args_started_text(running, sched, rendered) == "restarted"@
            + " "@ + sched + " with args: "@ + rendered + " (session-only)"@,
        running is Some && running != Some(sched) ==> args_started_text(running, sched, rendered)
            == "switched to"@ + " "@ + sched + " with args: "@ + rendered + " (session-only)"@,
        args_failed_text(false, sched, rendered, err) == "start"@ + " "@ + sched + " with args '"@
            + rendered + "' failed: "@ + err,
        args_failed_text(true, sched, rendered, err) == "switch to"@ + " "@ + sched
            + " with args '"@ + rendered + "' failed: "@ + err,
{
}

/// The other notices name what they are about: the scheduler and the mode of a
/// restart, the backend of a switch between backends, and the size of a journal
/// fetch, with a remark exactly where older entries were left out.
pub proof fn lemma_other_texts(
    sched: Seq<char>,
    mode: SchedMode,
    err: Seq<char>,
    label: Seq<char>,
    lines: nat,
    unit: Seq<char>,
    boot: Seq<char>,
)
    ensures
        restarted_text(sched, mode) == "restarted "@ + sched + " in "@ + mode_text(mode) + " mode"@,
        restart_failed_text(sched, err) == "restart "@ + sched + " failed: "@ + err,
        start_failed_text(false, sched, err) == "start"@ + " "@ + sched + " failed: "@ + err,
        start_failed_text(true, sched, err) == "switch to"@ + " "@ + sched + " failed: "@ + err,
        toggled_text(label) == "switched to "@ + label + " backend"@,
        toggle_failed_text(err, label) == "cannot switch backend: "@ + err + " (staying on "@ + label
            + ")"@,
        loaded_text(lines, unit, boot, false) == "loaded "@ + text::decimal_digits(lines)
            + " lines from "@ + unit + " (boot "@ + boot + ")"@ + ""@,
        loaded_text(lines, unit, boot, true) == "loaded "@ + text::decimal_digits(lines)
            + " lines from "@ + unit + " (boot "@ + boot + ")"@
            + " — older entries omitted, see journalctl for the full log"@,
        list_failed_text(err) == "scheduler list refresh failed: "@ + err,
{
}

/// How a run of the monitor program ended is told apart: an exit, an exit with a
/// status, a program that is not there and one that could not be launched.
pub proof fn lemma_monitor_texts(status: String, err: String)
    ensures
        monitor_text(MonitorEnd::Success) == "scxtop exited"@,
        monitor_text(MonitorEnd::Failed(status)) == "scxtop exited with "@ + status@
            + " — it needs root/CAP_BPF; try running scxtui as root or granting scxtop capabilities"@,
        monitor_text(MonitorEnd::NotLaunched(err)) == "failed to launch scxtop: "@ + err@,
        monitor_text(MonitorEnd::NotFound)
            == "scxtop not found in PATH — install it (cargo install scxtop, or your distro's scx tools package)"@,
        invalid_args_text(err@) == "invalid arguments: "@ + err@
            + " — quotes must be balanced and cannot span a comma"@,
{
}

} // verus!
