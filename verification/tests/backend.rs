//! Reading what a backend reports.
use scx_control::backend::{
    loader_capabilities, none_if_unknown, read_status, runtime_status, take_prop, BackendKind, Prop,
    Status, StatusProps,
};
use scx_control::connect::{first_step, next_step, ConnectEvent, ConnectNext, ConnectStep};
use scx_control::kernel::{disagreement, Disagreement, KernelState};
use scx_control::sched::SchedMode;

fn props() -> StatusProps {
    StatusProps {
        current_scheduler: Prop::Value("scx_lavd".to_owned()),
        scheduler_mode: Prop::Value(SchedMode::Gaming),
        current_scheduler_args: Prop::Value(vec!["-k".to_owned()]),
        default_scheduler: Prop::Value("unknown".to_owned()),
        default_mode: Prop::Value(SchedMode::Server),
    }
}

#[test]
fn a_full_set_of_properties_is_a_status() {
    assert_eq!(
        read_status(props()),
        Ok(Status {
            current: Some("scx_lavd".to_owned()),
            mode: SchedMode::Gaming,
            args: vec!["-k".to_owned()],
            default_sched: None,
            default_mode: SchedMode::Server,
        })
    );
}

#[test]
fn the_first_bad_property_is_reported() {
    let missing = StatusProps {
        scheduler_mode: Prop::Missing,
        default_mode: Prop::Missing,
        ..props()
    };
    assert_eq!(
        read_status(missing),
        Err("daemon did not report the SchedulerMode property".to_owned())
    );
    let mistyped = StatusProps {
        current_scheduler: Prop::Mistyped("incorrect type".to_owned()),
        ..props()
    };
    assert_eq!(
        read_status(mistyped),
        Err("unexpected type for the CurrentScheduler property: incorrect type".to_owned())
    );
    for (broken, name) in [
        (StatusProps { current_scheduler_args: Prop::Missing, ..props() }, "CurrentSchedulerArgs"),
        (StatusProps { default_scheduler: Prop::Missing, ..props() }, "DefaultScheduler"),
        (StatusProps { default_mode: Prop::Missing, ..props() }, "DefaultMode"),
    ] {
        assert_eq!(
            read_status(broken),
            Err(format!("daemon did not report the {name} property"))
        );
    }
    assert_eq!(take_prop(Prop::Value(3), "Number"), Ok(3));
}

#[test]
fn the_sentinel_means_nothing() {
    assert_eq!(none_if_unknown("unknown".to_owned()), None);
    assert_eq!(none_if_unknown("scx_lavd".to_owned()), Some("scx_lavd".to_owned()));
}

#[test]
fn snapshots_compare_by_what_they_report() {
    let snapshot = |name: &str, generation: &str| {
        runtime_status(
            name.to_owned(),
            SchedMode::Auto,
            vec!["-k".to_owned()],
            generation.to_owned(),
        )
    };
    let base = snapshot("scx_lavd", ":1.1");
    assert_eq!(base.current.as_deref(), Some("scx_lavd"));
    assert!(base.same(&snapshot("scx_lavd", ":1.1")));
    assert!(!base.same(&snapshot("scx_lavd", ":1.2")));
    assert!(!base.same(&snapshot("unknown", ":1.1")));
    let mut other = snapshot("scx_lavd", ":1.1");
    other.args = vec!["-j".to_owned()];
    assert!(!base.same(&other));
    other.args = Vec::new();
    assert!(!base.same(&other));
}

#[test]
fn the_loader_can_do_everything() {
    let caps = loader_capabilities();
    assert!(caps.live_switch && caps.modes && caps.custom_args && caps.restore_default);
    assert_eq!(BackendKind::Loader.other(), BackendKind::Service);
    assert_eq!(BackendKind::Service.other(), BackendKind::Loader);
}

/// Follows the steps from one event to the next.
fn follow(mut step: ConnectStep, events: Vec<ConnectEvent>) -> ConnectNext {
    for event in events {
        match next_step(step, event) {
            ConnectNext::Step(then) => step = then,
            end => return end,
        }
    }
    ConnectNext::Step(step)
}

fn done(n: usize) -> Vec<ConnectEvent> {
    (0..n).map(|_| ConnectEvent::Done).collect()
}

#[test]
fn an_owned_loader_is_connected_to() {
    let mut events = done(2);
    events.push(ConnectEvent::Owned(true));
    events.extend(done(6));
    assert!(matches!(follow(first_step(), events), ConnectNext::Connected(true)));

    let mut older = done(2);
    older.push(ConnectEvent::Owned(true));
    older.extend(done(5));
    older.push(ConnectEvent::Failed("no such property".to_owned()));
    assert!(matches!(follow(first_step(), older), ConnectNext::Connected(false)));
}

#[test]
fn an_unowned_loader_must_be_activatable() {
    let asked = |names: &[&str]| {
        let mut events = done(2);
        events.push(ConnectEvent::Owned(false));
        let names = names.iter().map(|n| (*n).to_owned()).collect();
        events.push(ConnectEvent::Activatable(names));
        follow(first_step(), events)
    };
    assert!(matches!(
        asked(&["org.a.B", "org.scx.Loader"]),
        ConnectNext::Step(ConnectStep::OpenLoader)
    ));
    let ConnectNext::Refused(why) = asked(&["org.a.B"]) else {
        panic!("expected a refusal");
    };
    assert_eq!(
        why,
        "org.scx.Loader is neither running nor D-Bus-activatable — is the scx_loader service installed?"
    );
}

#[test]
fn a_failed_step_is_named() {
    for (step, context) in [
        (ConnectStep::OpenBus, "failed to connect to the system D-Bus"),
        (ConnectStep::OpenBusProxy, "failed to create the D-Bus proxy"),
        (ConnectStep::QueryOwner, "failed to query the bus for org.scx.Loader"),
        (ConnectStep::ListActivatable, "failed to list activatable bus names"),
        (ConnectStep::OpenLoader, "failed to create the org.scx.Loader proxy"),
        (
            ConnectStep::ListSchedulers,
            "org.scx.Loader did not respond — is the scx_loader service installed and running?",
        ),
        (
            ConnectStep::SetPropertiesDestination,
            "invalid destination for the Properties proxy",
        ),
        (ConnectStep::SetPropertiesPath, "invalid path for the Properties proxy"),
        (ConnectStep::OpenProperties, "failed to create the Properties proxy"),
    ] {
        let ConnectNext::Refused(why) = next_step(step, ConnectEvent::Failed("x".to_owned())) else {
            panic!("expected a refusal");
        };
        assert_eq!(why, format!("{context}: x"));
    }
}

#[test]
fn kernel_and_backend_may_disagree() {
    let kernel = KernelState { state: "enabled".to_owned(), ops: Some("lavd".to_owned()) };
    assert_eq!(disagreement(&kernel, Some("scx_lavd")), None);
    assert_eq!(disagreement(&kernel, None), Some(Disagreement::Unmanaged));
    assert_eq!(disagreement(&kernel, Some("scx_rusty")), Some(Disagreement::OtherOps));
    let idle = KernelState { state: "disabled".to_owned(), ops: None };
    assert_eq!(disagreement(&idle, None), None);
    assert_eq!(disagreement(&idle, Some("scx_lavd")), Some(Disagreement::Detached));
}

#[test]
fn kernel_files_are_trimmed_and_empty_ops_dropped() {
    let kernel = KernelState::from_files(true, Some("enabled\n"), Some(" lavd_1.0 \n")).unwrap();
    assert!(kernel.enabled());
    assert!(kernel.matches("scx_lavd"));
    let idle = KernelState::from_files(true, Some("disabled\n"), Some("\n")).unwrap();
    assert!(!idle.enabled());
    assert!(idle.ops.is_none());
    let bare = KernelState::from_files(true, Some("enabled"), None).unwrap();
    assert!(bare.ops.is_none());
}

#[test]
fn no_kernel_state_means_no_kernel_support() {
    assert!(KernelState::from_files(false, None, None).is_none());
    assert!(KernelState::from_files(false, Some("enabled"), Some("lavd")).is_none());
    let unread = KernelState::from_files(true, None, Some("lavd\n")).unwrap();
    assert_eq!(unread.state, "");
    assert_eq!(unread.ops.as_deref(), Some("lavd"));
    assert!(!unread.enabled());
    assert_eq!(disagreement(&unread, None), None);
    assert_eq!(disagreement(&unread, Some("scx_lavd")), None);
    assert_eq!(disagreement(&unread, Some("scx_rusty")), None);
    let nothing = KernelState::from_files(true, None, None).unwrap();
    assert_eq!(nothing.ops, None);
    assert_eq!(disagreement(&nothing, Some("scx_lavd")), None);
}
