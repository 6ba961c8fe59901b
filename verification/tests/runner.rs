//! The worker, the runner and the monitor.
use scx_control::loader::{ScxLoader, ScxMessage};
use scx_control::monitor::{load_sched, CpuMonitor, MonitorAction};
use scx_control::runner::{
    with_flags, worker_step, AttemptEnd, Attempts, RunOrder, Runner, RunnerMessage, WorkerStep,
};
use scx_control::sched::{SchedMode, SupportedSched};

fn words(list: &[&str]) -> Vec<String> {
    list.iter().map(|w| (*w).to_owned()).collect()
}

#[test]
fn modes_are_looked_up_and_arguments_passed_on() {
    let sched = SupportedSched::Lavd;
    let mode = SchedMode::Gaming;
    assert_eq!(worker_step(ScxMessage::Quit), WorkerStep::Quit);
    assert_eq!(
        worker_step(ScxMessage::StopSched),
        WorkerStep::Send(RunnerMessage::Stop)
    );
    assert_eq!(
        worker_step(ScxMessage::StartSched(sched, mode)),
        WorkerStep::LookUp { order: RunOrder::Start, sched, mode }
    );
    assert_eq!(
        worker_step(ScxMessage::SwitchSched(sched, mode)),
        WorkerStep::LookUp { order: RunOrder::Switch, sched, mode }
    );
    assert_eq!(
        worker_step(ScxMessage::StartSchedArgs(sched, words(&["-k"]))),
        WorkerStep::Send(RunnerMessage::Start(sched, words(&["-k"])))
    );
    assert_eq!(
        worker_step(ScxMessage::SwitchSchedArgs(sched, words(&["-k"]))),
        WorkerStep::Send(RunnerMessage::Switch(sched, words(&["-k"])))
    );
    assert_eq!(
        worker_step(ScxMessage::RestartSched(sched, Some(words(&["-k"])), mode)),
        WorkerStep::Send(RunnerMessage::Restart(sched, words(&["-k"])))
    );
    assert_eq!(
        worker_step(ScxMessage::RestartSched(sched, None, mode)),
        WorkerStep::LookUp { order: RunOrder::Restart, sched, mode }
    );
    assert_eq!(
        with_flags(RunOrder::Restart, sched, words(&["-m"])),
        RunnerMessage::Restart(sched, words(&["-m"]))
    );
    assert_eq!(
        with_flags(RunOrder::Start, sched, words(&["-m"])),
        RunnerMessage::Start(sched, words(&["-m"]))
    );
    assert_eq!(
        with_flags(RunOrder::Switch, sched, words(&["-m"])),
        RunnerMessage::Switch(sched, words(&["-m"]))
    );
}

#[test]
fn there_is_one_task_at_most() {
    let sched = SupportedSched::Lavd;
    let mut runner = Runner::new();

    let idle_stop = runner.on_message(RunnerMessage::Stop);
    assert!(!idle_stop.stop && idle_stop.start.is_none() && !idle_stop.refused);

    let start = runner.on_message(RunnerMessage::Start(sched, words(&["-a"])));
    assert!(!start.stop && !start.refused);
    assert_eq!(start.start, Some((sched, words(&["-a"]))));
    assert!(runner.running);

    let again = runner.on_message(RunnerMessage::Start(sched, words(&["-b"])));
    assert!(again.refused && again.start.is_none() && !again.stop);
    assert!(runner.running);

    let switch = runner.on_message(RunnerMessage::Switch(SupportedSched::Rusty, words(&["-c"])));
    assert!(switch.stop);
    assert_eq!(switch.start, Some((SupportedSched::Rusty, words(&["-c"]))));

    let restart = runner.on_message(RunnerMessage::Restart(SupportedSched::Rusty, words(&["-c"])));
    assert!(restart.stop && restart.start.is_some());

    let stop = runner.on_message(RunnerMessage::Stop);
    assert!(stop.stop && stop.start.is_none());
    assert!(!runner.running);
}

/// Carries a message through the worker and the runner.
fn carry(
    runner: &mut Runner,
    job: &mut Option<(SupportedSched, Vec<String>)>,
    message: ScxMessage,
) {
    let order = match worker_step(message) {
        WorkerStep::Quit => panic!("unexpected end"),
        WorkerStep::Send(order) => order,
        WorkerStep::LookUp { order, sched, mode } => {
            with_flags(order, sched, vec![format!("--{mode:?}")])
        }
    };
    let plan = runner.on_message(order);
    if plan.stop {
        *job = None;
    }
    if plan.start.is_some() {
        *job = plan.start;
    }
}

#[test]
fn the_runner_keeps_step_with_the_loader() {
    let mut loader = ScxLoader::new(Some(SupportedSched::Cake), None);
    let mut runner = Runner::new();
    let mut job = None;
    let message = loader.start_scheduler(Ok(true), SupportedSched::Lavd, SchedMode::Gaming);
    carry(&mut runner, &mut job, message.unwrap());
    assert_eq!(job, Some((SupportedSched::Lavd, words(&["--Gaming"]))));
    let (cookie, message) = loader
        .hold_scheduler(
            Ok(true),
            SupportedSched::Rusty,
            SchedMode::Server,
            "work".to_owned(),
            "org.example.Work".to_owned(),
        )
        .unwrap();
    carry(&mut runner, &mut job, message);
    assert_eq!(job, Some((SupportedSched::Rusty, words(&["--Server"]))));
    let message = loader.release_scheduler(Ok(true), cookie).unwrap();
    carry(&mut runner, &mut job, message);
    assert_eq!(job, Some((SupportedSched::Lavd, words(&["--Gaming"]))));
    let message = loader
        .switch_scheduler_with_args(Ok(true), SupportedSched::Flash, words(&["-k"]))
        .unwrap();
    carry(&mut runner, &mut job, message);
    let message = loader.restart_scheduler(Ok(true)).unwrap();
    carry(&mut runner, &mut job, message);
    assert_eq!(job, Some((SupportedSched::Flash, words(&["-k"]))));
    let message = loader.restore_default(Ok(true)).unwrap();
    carry(&mut runner, &mut job, message);
    assert_eq!(job, Some((SupportedSched::Cake, words(&["--Auto"]))));
    let message = loader.stop_scheduler(Ok(true)).unwrap().unwrap();
    carry(&mut runner, &mut job, message);
    assert_eq!(job, None);
    assert!(!runner.running);
}

#[test]
fn failures_are_retried_up_to_the_limit() {
    let mut attempts: Attempts<i32> = Attempts::new();
    assert!(attempts.after(AttemptEnd::SpawnFailed));
    assert_eq!(attempts.last_status, None);
    for n in 2..5 {
        assert!(attempts.after(AttemptEnd::Exited { status: n, success: false }));
    }
    assert!(!attempts.after(AttemptEnd::Exited { status: 9, success: false }));
    assert_eq!(attempts.failed, 5);
    assert_eq!(attempts.last_status, Some(9));
}

#[test]
fn success_and_cancellation_end_the_attempts() {
    let mut success: Attempts<i32> = Attempts::new();
    assert!(!success.after(AttemptEnd::Exited { status: 0, success: true }));
    assert_eq!(success.failed, 0);
    assert_eq!(success.last_status, Some(0));

    let mut cancelled: Attempts<i32> = Attempts::new();
    assert!(cancelled.after(AttemptEnd::SpawnFailed));
    assert!(!cancelled.after(AttemptEnd::Cancelled { status: 2 }));
    assert_eq!(cancelled.last_status, Some(2));
}

#[test]
fn load_starts_the_scheduler_and_calm_stops_it() {
    assert_eq!(load_sched(), SupportedSched::Lavd);
    let mut monitor = CpuMonitor::new();
    assert_eq!(monitor.observe(true, 0), MonitorAction::Nothing);
    assert_eq!(monitor.observe(true, 5_000), MonitorAction::Nothing);
    assert_eq!(monitor.observe(true, 5_001), MonitorAction::Start);
    assert_eq!(monitor.observe(true, 6_000), MonitorAction::Nothing);
    assert_eq!(monitor.observe(false, 7_000), MonitorAction::Nothing);
    // A short burst does not end the calm.
    assert_eq!(monitor.observe(true, 8_000), MonitorAction::Nothing);
    assert_eq!(monitor.observe(false, 37_000), MonitorAction::Nothing);
    assert_eq!(monitor.observe(false, 37_001), MonitorAction::Stop);
    assert_eq!(monitor.observe(false, 90_000), MonitorAction::Nothing);
}

#[test]
fn a_calm_look_starts_the_count_of_load_anew() {
    let mut monitor = CpuMonitor::new();
    monitor.observe(true, 0);
    monitor.observe(true, 4_000);
    monitor.observe(false, 5_000);
    monitor.observe(true, 6_000);
    assert_eq!(monitor.observe(true, 11_000), MonitorAction::Nothing);
    assert_eq!(monitor.observe(true, 11_001), MonitorAction::Start);
}
