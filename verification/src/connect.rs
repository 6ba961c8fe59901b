//! Connecting to the loader: which step follows on which, and what is said of a
//! step that fails.
use vstd::prelude::*;
use vstd::string::StringExecFns;

use crate::backend;
use crate::text;

verus! {

/// A step on the way to a connection.
#[derive(Debug, Clone, Copy, PartialEq, Eq, Structural)]
pub enum ConnectStep {
    OpenBus,
    OpenBusProxy,
    /// Ask whether the loader's name has an owner. This never starts the loader.
    QueryOwner,
    /// Ask for the names that the bus can start.
    ListActivatable,
    OpenLoader,
    /// Ask for the schedulers, to see that the loader answers.
    ListSchedulers,
    SetPropertiesDestination,
    SetPropertiesPath,
    OpenProperties,
    /// Ask for the generation, to see whether the daemon pushes.
    ProbeGeneration,
}

/// How a step came out.
#[derive(Debug)]
pub enum ConnectEvent {
    Done,
    Owned(bool),
    Activatable(Vec<String>),
    Failed(String),
}

/// What follows on a step.
#[derive(Debug)]
pub enum ConnectNext {
    Step(ConnectStep),
    /// Connected; whether the daemon has a generation.
    Connected(bool),
    /// There is no connection, for that reason.
    Refused(String),
}

/// What is said of a step that failed.
pub open spec fn step_context(step: ConnectStep) -> Seq<char> {
    match step {
        ConnectStep::OpenBus => "failed to connect to the system D-Bus"@,
        ConnectStep::OpenBusProxy => "failed to create the D-Bus proxy"@,
        ConnectStep::QueryOwner => "failed to query the bus for org.scx.Loader"@,
        ConnectStep::ListActivatable => "failed to list activatable bus names"@,
        ConnectStep::OpenLoader => "failed to create the org.scx.Loader proxy"@,
        ConnectStep::ListSchedulers =>
            "org.scx.Loader did not respond — is the scx_loader service installed and running?"@,
        ConnectStep::SetPropertiesDestination => "invalid destination for the Properties proxy"@,
        ConnectStep::SetPropertiesPath => "invalid path for the Properties proxy"@,
        ConnectStep::OpenProperties => "failed to create the Properties proxy"@,
        ConnectStep::ProbeGeneration => "the daemon has no generation"@,
    }
}

/// What is said where the loader is not there and cannot be started.
pub const UNREACHABLE: &'static str =
    "org.scx.Loader is neither running nor D-Bus-activatable — is the scx_loader service installed?";

/// Whether an event is one that a step can come to.
pub open spec fn comes_to(step: ConnectStep, event: ConnectEvent) -> bool {
    event is Failed || match step {
        ConnectStep::QueryOwner => event is Owned,
        ConnectStep::ListActivatable => event is Activatable,
        _ => event is Done,
    }
}

/// What follows on a step that came out so.
pub open spec fn connect_follows(
    step: ConnectStep,
    event: ConnectEvent,
    next: ConnectNext,
) -> bool {
    match (step, event) {
        // A daemon without a generation is one that does not push.
        (ConnectStep::ProbeGeneration, _) => next == ConnectNext::Connected(event is Done),
        (_, ConnectEvent::Failed(why)) => next matches ConnectNext::Refused(text) && text@
            == step_context(step) + ": "@ + why@,
        (ConnectStep::OpenBus, _) => next == ConnectNext::Step(ConnectStep::OpenBusProxy),
        (ConnectStep::OpenBusProxy, _) => next == ConnectNext::Step(ConnectStep::QueryOwner),
        (ConnectStep::QueryOwner, ConnectEvent::Owned(owned)) => next == ConnectNext::Step(
            if owned {
                ConnectStep::OpenLoader
            } else {
                ConnectStep::ListActivatable
            },
        ),
        (ConnectStep::ListActivatable, ConnectEvent::Activatable(names)) => if text::views(
            names@,
        ).contains(backend::SERVICE@) {
            next == ConnectNext::Step(ConnectStep::OpenLoader)
        } else {
            next matches ConnectNext::Refused(text) && text@ == UNREACHABLE@
        },
        (ConnectStep::OpenLoader, _) => next == ConnectNext::Step(ConnectStep::ListSchedulers),
        (ConnectStep::ListSchedulers, _) => next == ConnectNext::Step(
            ConnectStep::SetPropertiesDestination,
        ),
        (ConnectStep::SetPropertiesDestination, _) => next == ConnectNext::Step(
            ConnectStep::SetPropertiesPath,
        ),
        (ConnectStep::SetPropertiesPath, _) => next == ConnectNext::Step(
            ConnectStep::OpenProperties,
        ),
        (ConnectStep::OpenProperties, _) => next == ConnectNext::Step(
            ConnectStep::ProbeGeneration,
        ),
        _ => true,
    }
}

fn step_text(step: ConnectStep) -> (s: &'static str)
    ensures
        s@ == step_context(step),
{
    match step {
        ConnectStep::OpenBus => "failed to connect to the system D-Bus",
        ConnectStep::OpenBusProxy => "failed to create the D-Bus proxy",
        ConnectStep::QueryOwner => "failed to query the bus for org.scx.Loader",
        ConnectStep::ListActivatable => "failed to list activatable bus names",
        ConnectStep::OpenLoader => "failed to create the org.scx.Loader proxy",
        ConnectStep::ListSchedulers =>
            "org.scx.Loader did not respond — is the scx_loader service installed and running?",
        ConnectStep::SetPropertiesDestination => "invalid destination for the Properties proxy",
        ConnectStep::SetPropertiesPath => "invalid path for the Properties proxy",
        ConnectStep::OpenProperties => "failed to create the Properties proxy",
        ConnectStep::ProbeGeneration => "the daemon has no generation",
    }
}

/// The first step.
pub fn first_step() -> (step: ConnectStep)
    ensures
        step == ConnectStep::OpenBus,
{
    ConnectStep::OpenBus
}

/// Goes on after a step.
pub fn next_step(step: ConnectStep, event: ConnectEvent) -> (next: ConnectNext)
    requires
        comes_to(step, event),
    ensures
        connect_follows(step, event, next),
{
    match (step, event) {
        (ConnectStep::ProbeGeneration, ConnectEvent::Done) => ConnectNext::Connected(true),
        (ConnectStep::ProbeGeneration, _) => ConnectNext::Connected(false),
        (_, ConnectEvent::Failed(why)) => {
            let mut text = step_text(step).to_owned();
            text.append(": ");
            text.append(why.as_str());
            ConnectNext::Refused(text)
        },
        (ConnectStep::OpenBus, _) => ConnectNext::Step(ConnectStep::OpenBusProxy),
        (ConnectStep::OpenBusProxy, _) => ConnectNext::Step(ConnectStep::QueryOwner),
        (ConnectStep::QueryOwner, ConnectEvent::Owned(owned)) => ConnectNext::Step(
            if owned {
                ConnectStep::OpenLoader
            } else {
                ConnectStep::ListActivatable
            },
        ),
        (ConnectStep::ListActivatable, ConnectEvent::Activatable(names)) => {
            if text::position(names.as_slice(), backend::SERVICE).is_some() {
                assert(text::views(names@).contains(backend::SERVICE@)) by {
                    text::views(names@).index_of_first_ensures(backend::SERVICE@);
                }
                ConnectNext::Step(ConnectStep::OpenLoader)
            } else {
                proof {
                    text::views(names@).index_of_first_ensures(backend::SERVICE@);
                }
                ConnectNext::Refused(UNREACHABLE.to_owned())
            }
        },
        (ConnectStep::OpenLoader, _) => ConnectNext::Step(ConnectStep::ListSchedulers),
        (ConnectStep::ListSchedulers, _) => ConnectNext::Step(
            ConnectStep::SetPropertiesDestination,
        ),
        (ConnectStep::SetPropertiesDestination, _) => ConnectNext::Step(
            ConnectStep::SetPropertiesPath,
        ),
        (ConnectStep::SetPropertiesPath, _) => ConnectNext::Step(ConnectStep::OpenProperties),
        (ConnectStep::OpenProperties, _) => ConnectNext::Step(ConnectStep::ProbeGeneration),
        (_, _) => vstd::pervasive::unreached(),
    }
}

/// How many steps may still follow, this one counted.
pub open spec fn steps_left(step: ConnectStep) -> nat {
    match step {
        ConnectStep::OpenBus => 10,
        ConnectStep::OpenBusProxy => 9,
        ConnectStep::QueryOwner => 8,
        ConnectStep::ListActivatable => 7,
        ConnectStep::OpenLoader => 6,
        ConnectStep::ListSchedulers => 5,
        ConnectStep::SetPropertiesDestination => 4,
        ConnectStep::SetPropertiesPath => 3,
        ConnectStep::OpenProperties => 2,
        ConnectStep::ProbeGeneration => 1,
    }
}

/// Every attempt to connect comes to an end.
pub proof fn lemma_connecting_ends(step: ConnectStep, event: ConnectEvent, next: ConnectNext)
    requires
        comes_to(step, event),
        connect_follows(step, event, next),
    ensures
        next matches ConnectNext::Step(then) ==> steps_left(then) < steps_left(step),
{
}

/// The loader is talked to only where its name has an owner, or the bus can start
/// one.
pub proof fn lemma_loader_is_reachable(step: ConnectStep, event: ConnectEvent, next: ConnectNext)
    requires
        comes_to(step, event),
        connect_follows(step, event, next),
        next == ConnectNext::Step(ConnectStep::OpenLoader),
    ensures
        event == ConnectEvent::Owned(true) || (event matches ConnectEvent::Activatable(names)
            && text::views(names@).contains(backend::SERVICE@)),
{
}

/// Without a failure the steps follow on one another in order: the bus, its proxy,
/// the query for the owner, and where there is none the query for what can be
/// started; then the loader, its schedulers, the properties and the generation.
pub proof fn lemma_connecting_in_order(step: ConnectStep, event: ConnectEvent, next: ConnectNext)
    requires
        comes_to(step, event),
        connect_follows(step, event, next),
        !(event is Failed),
    ensures
        step == ConnectStep::OpenBus ==> next == ConnectNext::Step(ConnectStep::OpenBusProxy),
        step == ConnectStep::OpenBusProxy ==> next == ConnectNext::Step(ConnectStep::QueryOwner),
        event == ConnectEvent::Owned(true) ==> next == ConnectNext::Step(ConnectStep::OpenLoader),
        event == ConnectEvent::Owned(false) ==> next == ConnectNext::Step(
            ConnectStep::ListActivatable,
        ),
        event matches ConnectEvent::Activatable(names) ==> if exists|i: int|
            0 <= i < names@.len() && (#[trigger] names@[i])@ == "org.scx.Loader"@ {
            next == ConnectNext::Step(ConnectStep::OpenLoader)
        } else {
            next is Refused
        },
        step == ConnectStep::OpenLoader ==> next == ConnectNext::Step(ConnectStep::ListSchedulers),
        step == ConnectStep::ListSchedulers ==> next == ConnectNext::Step(
            ConnectStep::SetPropertiesDestination,
        ),
        step == ConnectStep::SetPropertiesDestination ==> next == ConnectNext::Step(
            ConnectStep::SetPropertiesPath,
        ),
        step == ConnectStep::SetPropertiesPath ==> next == ConnectNext::Step(
            ConnectStep::OpenProperties,
        ),
        step == ConnectStep::OpenProperties ==> next == ConnectNext::Step(
            ConnectStep::ProbeGeneration,
        ),
        step == ConnectStep::ProbeGeneration ==> next == ConnectNext::Connected(true),
{
    if let ConnectEvent::Activatable(names) = event {
        let all = text::views(names@);
        if all.contains(backend::SERVICE@) {
            let i = choose|i: int| 0 <= i < all.len() && all[i] == backend::SERVICE@;
            assert(names@[i]@ == "org.scx.Loader"@);
        }
        assert forall|i: int|
            0 <= i < names@.len() && (#[trigger] names@[i])@ == "org.scx.Loader"@ implies all.contains(
            backend::SERVICE@,
        ) by {
            assert(all[i] == backend::SERVICE@);
        }
    }
}

/// A step that fails refuses the connection and gives the reason; only a daemon
/// without a generation is connected to all the same.
pub proof fn lemma_connecting_fails(step: ConnectStep, why: String, next: ConnectNext)
    requires
        connect_follows(step, ConnectEvent::Failed(why), next),
    ensures
        step == ConnectStep::ProbeGeneration ==> next == ConnectNext::Connected(false),
        step != ConnectStep::ProbeGeneration ==> {
            &&& next matches ConnectNext::Refused(text)
            &&& text@.len() >= why@.len()
            &&& text@.skip(text@.len() - why@.len()) == why@
        },
{
    if step != ConnectStep::ProbeGeneration {
        let text = next->Refused_0;
        assert(text@.skip(text@.len() - why@.len()) =~= why@);
    }
}

} // verus!
