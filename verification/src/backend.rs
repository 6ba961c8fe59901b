//! Backend abstraction.
//!
//! A backend manages schedulers: the loader daemon's is preferred, a plain
//! service's stands in where there is no loader. Backends with a reduced
//! feature set declare it through [`Capabilities`].
use vstd::prelude::*;
use vstd::string::StringExecFns;

use crate::sched::{SchedMode, UNKNOWN};
use crate::text;
use crate::text::{opt_view, views};

verus! {

/// Well-known bus name of the loader daemon.
pub const SERVICE: &'static str = "org.scx.Loader";

/// Resolved arguments for every mode of one scheduler. Modes with no configured
/// arguments carry an empty list.
pub type ModeArgs = Vec<(SchedMode, Vec<String>)>;

/// Which scheduler-management backend drives the application.
#[derive(Debug, Clone, Copy, PartialEq, Eq, Structural)]
pub enum BackendKind {
    Loader,
    Service,
}

/// The backend kind that is not the given one.
pub open spec fn other_kind(kind: BackendKind) -> BackendKind {
    match kind {
        BackendKind::Loader => BackendKind::Service,
        BackendKind::Service => BackendKind::Loader,
    }
}

impl BackendKind {
    pub fn other(self) -> (kind: Self)
        ensures
            kind == other_kind(self),
    {
        match self {
            BackendKind::Loader => BackendKind::Service,
            BackendKind::Service => BackendKind::Loader,
        }
    }
}

/// Switching the backend twice comes back to the first.
pub proof fn lemma_other_kind_involution(kind: BackendKind)
    ensures
        other_kind(kind) != kind,
        other_kind(other_kind(kind)) == kind,
{
}

/// What a given backend can do.
#[derive(Debug, Clone, Copy, PartialEq, Eq, Structural)]
pub struct Capabilities {
    /// Can switch schedulers at runtime without a service restart.
    pub live_switch: bool,
    /// Exposes per-scheduler mode configuration.
    pub modes: bool,
    /// Can start or switch a scheduler with free-form arguments instead of a
    /// mode.
    pub custom_args: bool,
    /// Supports restoring a configured default scheduler.
    pub restore_default: bool,
}

/// What the loader daemon's backend can do: everything.
pub fn loader_capabilities() -> (caps: Capabilities)
    ensures
        caps.live_switch,
        caps.modes,
        caps.custom_args,
        caps.restore_default,
{
    Capabilities { live_switch: true, modes: true, custom_args: true, restore_default: true }
}

/// Snapshot of the scheduler state as reported by the backend.
#[derive(Debug, Clone, PartialEq)]
pub struct Status {
    /// Currently running scheduler (full name), or `None` when nothing runs.
    pub current: Option<String>,
    /// Mode of the running scheduler (only meaningful when `args` is empty).
    pub mode: SchedMode,
    /// Custom arguments that the scheduler was started with, if any.
    pub args: Vec<String>,
    /// Default scheduler from the configuration, if there is one.
    pub default_sched: Option<String>,
    /// Default mode from the configuration.
    pub default_mode: SchedMode,
}

/// Snapshot of the runtime state that a backend pushes. It tells whether
/// something moved; what is displayed is fetched.
#[derive(Debug, Clone, PartialEq)]
pub struct RuntimeStatus {
    pub current: Option<String>,
    pub mode: SchedMode,
    pub args: Vec<String>,
    /// Value unique to the daemon instance, which changes exactly when the
    /// instance is replaced.
    pub generation: String,
}

/// The model of a [`RuntimeStatus`].
pub struct RuntimeModel {
    pub current: Option<Seq<char>>,
    pub mode: SchedMode,
    pub args: Seq<Seq<char>>,
    pub generation: Seq<char>,
}

impl View for RuntimeStatus {
    type V = RuntimeModel;

    open spec fn view(&self) -> RuntimeModel {
        RuntimeModel {
            current: opt_view(self.current),
            mode: self.mode,
            args: views(self.args@),
            generation: self.generation@,
        }
    }
}

/// Whether two lists hold the same strings.
pub fn same_list(a: &[String], b: &[String]) -> (same: bool)
    ensures
        same == (views(a@) == views(b@)),
{
    if a.len() != b.len() {
        assert(views(a@).len() != views(b@).len());
        return false;
    }
    let mut i: usize = 0;
    while i < a.len()
        invariant
            a@.len() == b@.len(),
            i <= a@.len(),
            forall|k: int| 0 <= k < i ==> #[trigger] views(a@)[k] == views(b@)[k],
        decreases a@.len() - i,
    {
        assert(views(a@)[i as int] == a@[i as int]@);
        assert(views(b@)[i as int] == b@[i as int]@);
        if a[i] != b[i] {
            return false;
        }
        i += 1;
    }
    assert(views(a@) =~= views(b@));
    true
}

impl RuntimeStatus {
    /// Whether two snapshots report the same.
    pub fn same(&self, other: &RuntimeStatus) -> (yes: bool)
        ensures
            yes == (self@ == other@),
    {
        let same_current = match (&self.current, &other.current) {
            (Some(a), Some(b)) => *a == *b,
            (None, None) => true,
            _ => false,
        };
        same_current && self.mode == other.mode && same_list(&self.args, &other.args)
            && self.generation == other.generation
    }
}

/// Common interface of every scheduler-management backend. Scheduler names
/// cross it as full names; errors are display-ready texts.
pub trait SchedulerBackend {
    /// Short human-readable backend name for the status bar.
    fn label(&self) -> &'static str;

    /// Opaque token identifying the live backend instance. Answers about the
    /// configuration stay valid exactly as long as the token does. `None` means
    /// that the backend has no such notion, or the owner is momentarily unknown.
    fn instance_token(&self) -> (token: Option<String>)
        default_ensures
            token is None,
    {
        None
    }

    fn capabilities(&self) -> Capabilities;

    fn status(&self) -> Result<Status, String>;

    fn supported_schedulers(&self) -> Result<Vec<String>, String>;

    /// The latest pushed snapshot; `Ok(None)` where there is no push channel.
    fn cached_status(&self) -> (pushed: Result<Option<RuntimeStatus>, String>)
        default_ensures
            pushed == Ok::<Option<RuntimeStatus>, String>(None),
    {
        Ok(None)
    }

    /// Resolved arguments for every mode of `sched`. A mode counts as
    /// configured exactly when it is `Auto` or its argument list is not empty.
    fn mode_args(&self, sched: &str) -> Result<ModeArgs, String>;

    fn start(&self, sched: &str, mode: SchedMode) -> Result<(), String>;

    fn switch(&self, sched: &str, mode: SchedMode) -> Result<(), String>;

    /// Starts `sched` with free-form arguments instead of a mode. They live only
    /// in the daemon's memory for this run.
    fn start_with_args(&self, sched: &str, args: &[String]) -> Result<(), String>;

    /// Same as [`Self::start_with_args`], but stops a running scheduler first.
    fn switch_with_args(&self, sched: &str, args: &[String]) -> Result<(), String>;

    fn stop(&self) -> Result<(), String>;

    fn restart(&self) -> Result<(), String>;

    fn restore_default(&self) -> Result<(), String>;
}

/// A reported name, `None` for the sentinel.
pub open spec fn known(name: Seq<char>) -> Option<Seq<char>> {
    if name == UNKNOWN@ {
        None
    } else {
        Some(name)
    }
}

/// Turns the sentinel for "nothing running" into `None`.
pub fn none_if_unknown(value: String) -> (name: Option<String>)
    ensures
        opt_view(name) == known(value@),
{
    if text::text_eq(value.as_str(), UNKNOWN) {
        None
    } else {
        Some(value)
    }
}

/// What the daemon reported for one property.
#[derive(Debug)]
pub enum Prop<T> {
    Missing,
    /// Of another type than expected, with the reason as a text.
    Mistyped(String),
    Value(T),
}

/// Why a property cannot be used, when it cannot.
pub open spec fn prop_failure<T>(prop: Prop<T>, name: Seq<char>) -> Option<Seq<char>> {
    match prop {
        Prop::Missing => Some("daemon did not report the "@ + name + " property"@),
        Prop::Mistyped(why) => Some("unexpected type for the "@ + name + " property: "@ + why@),
        Prop::Value(_) => None,
    }
}

/// Takes the value of a property. A missing or mistyped property is a
/// violation on the daemon's side.
pub fn take_prop<T>(prop: Prop<T>, name: &str) -> (value: Result<T, String>)
    ensures
        match (value, prop_failure(prop, name@)) {
            (Ok(v), None) => prop == Prop::Value(v),
            (Err(text), Some(why)) => text@ == why,
            _ => false,
        },
{
    match prop {
        Prop::Value(v) => Ok(v),
        Prop::Missing => {
            let mut why = "daemon did not report the ".to_owned();
            why.append(name);
            why.append(" property");
            Err(why)
        },
        Prop::Mistyped(reason) => {
            let mut why = "unexpected type for the ".to_owned();
            why.append(name);
            why.append(" property: ");
            why.append(reason.as_str());
            Err(why)
        },
    }
}

/// The properties that the daemon's status is read from.
pub struct StatusProps {
    pub current_scheduler: Prop<String>,
    pub scheduler_mode: Prop<SchedMode>,
    pub current_scheduler_args: Prop<Vec<String>>,
    pub default_scheduler: Prop<String>,
    pub default_mode: Prop<SchedMode>,
}

/// The first failure among two.
pub open spec fn first_of(a: Option<Seq<char>>, b: Option<Seq<char>>) -> Option<Seq<char>> {
    match a {
        Some(why) => Some(why),
        None => b,
    }
}

/// Why a status cannot be read, when it cannot: the first property that fails.
pub open spec fn status_failure(props: StatusProps) -> Option<Seq<char>> {
    first_of(
        prop_failure(props.current_scheduler, "CurrentScheduler"@),
        first_of(
            prop_failure(props.scheduler_mode, "SchedulerMode"@),
            first_of(
                prop_failure(props.current_scheduler_args, "CurrentSchedulerArgs"@),
                first_of(
                    prop_failure(props.default_scheduler, "DefaultScheduler"@),
                    prop_failure(props.default_mode, "DefaultMode"@),
                ),
            ),
        ),
    )
}

/// Reads the status out of the daemon's properties.
pub fn read_status(props: StatusProps) -> (status: Result<Status, String>)
    ensures
        match (status, status_failure(props)) {
            (Ok(s), None) => {
                &&& props.current_scheduler is Value
                &&& opt_view(s.current) == known(props.current_scheduler->Value_0@)
                &&& props.scheduler_mode == Prop::Value(s.mode)
                &&& props.current_scheduler_args == Prop::Value(s.args)
                &&& props.default_scheduler is Value
                &&& opt_view(s.default_sched) == known(props.default_scheduler->Value_0@)
                &&& props.default_mode == Prop::Value(s.default_mode)
            },
            (Err(text), Some(why)) => text@ == why,
            _ => false,
        },
{
    let current = match take_prop(props.current_scheduler, "CurrentScheduler") {
        Ok(v) => none_if_unknown(v),
        Err(why) => {
            return Err(why);
        },
    };
    let mode = match take_prop(props.scheduler_mode, "SchedulerMode") {
        Ok(v) => v,
        Err(why) => {
            return Err(why);
        },
    };
    let args = match take_prop(props.current_scheduler_args, "CurrentSchedulerArgs") {
        Ok(v) => v,
        Err(why) => {
            return Err(why);
        },
    };
    let default_sched = match take_prop(props.default_scheduler, "DefaultScheduler") {
        Ok(v) => none_if_unknown(v),
        Err(why) => {
            return Err(why);
        },
    };
    let default_mode = match take_prop(props.default_mode, "DefaultMode") {
        Ok(v) => v,
        Err(why) => {
            return Err(why);
        },
    };
    Ok(Status { current, mode, args, default_sched, default_mode })
}

/// Puts a pushed snapshot together out of the daemon's cached properties.
pub fn runtime_status(current: String, mode: SchedMode, args: Vec<String>, generation: String) -> (
    status: RuntimeStatus)
    ensures
        status@ == (RuntimeModel {
            current: known(current@),
            mode,
            args: views(args@),
            generation: generation@,
        }),
{
    RuntimeStatus { current: none_if_unknown(current), mode, args, generation }
}

/// The sentinel for "nothing running" is no name; every other text is one.
pub proof fn lemma_known(name: Seq<char>)
    ensures
        known(name) is None <==> name == "unknown"@,
        name != "unknown"@ ==> known(name) == Some(name),
{
}

/// A status is read exactly where every property was reported in its type. The
/// failure is that of the first that was not, in the order of the scheduler, its
/// mode, its arguments, the default scheduler and the default mode.
pub proof fn lemma_status_failure(props: StatusProps)
    ensures
        status_failure(props) is None <==> props.current_scheduler is Value
            && props.scheduler_mode is Value && props.current_scheduler_args is Value
            && props.default_scheduler is Value && props.default_mode is Value,
        !(props.current_scheduler is Value) ==> status_failure(props) == prop_failure(
            props.current_scheduler,
            "CurrentScheduler"@,
        ),
        props.current_scheduler is Value && !(props.scheduler_mode is Value) ==> status_failure(
            props,
        ) == prop_failure(props.scheduler_mode, "SchedulerMode"@),
        props.current_scheduler is Value && props.scheduler_mode is Value && !(
        props.current_scheduler_args is Value) ==> status_failure(props) == prop_failure(
            props.current_scheduler_args,
            "CurrentSchedulerArgs"@,
        ),
        props.current_scheduler is Value && props.scheduler_mode is Value
            && props.current_scheduler_args is Value && !(props.default_scheduler is Value)
            ==> status_failure(props) == prop_failure(props.default_scheduler, "DefaultScheduler"@),
{
}

/// A property that cannot be used is named in the failure, with the reason where it
/// has another type.
pub proof fn lemma_prop_failure<T>(prop: Prop<T>, name: Seq<char>)
    ensures
        prop is Value <==> prop_failure(prop, name) is None,
        prop is Missing ==> prop_failure(prop, name) == Some(
            "daemon did not report the "@ + name + " property"@,
        ),
        prop matches Prop::Mistyped(why) ==> prop_failure(prop, name) == Some(
            "unexpected type for the "@ + name + " property: "@ + why@,
        ),
{
}

/// Two snapshots differ as soon as their scheduler, mode, arguments or generation
/// do.
pub proof fn lemma_snapshots_differ(a: RuntimeStatus, b: RuntimeStatus)
    ensures
        a@ == b@ <==> {
            &&& opt_view(a.current) == opt_view(b.current)
            &&& a.mode == b.mode
            &&& views(a.args@) == views(b.args@)
            &&& a.generation@ == b.generation@
        },
{
}

} // verus!
