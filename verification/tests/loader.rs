//! The loader's requests and holds.
use scx_control::loader::{AuthReply, LoaderError, ScxLoader, ScxMessage};
use scx_control::sched::{SchedMode, SupportedSched};

fn yes() -> AuthReply {
    Ok(true)
}

fn words(list: &[&str]) -> Vec<String> {
    list.iter().map(|w| (*w).to_owned()).collect()
}

fn failed<T>(text: &str) -> Result<T, LoaderError> {
    Err(LoaderError::Failed(text.to_owned()))
}

fn hold(loader: &mut ScxLoader, sched: SupportedSched, mode: SchedMode) -> u32 {
    let (cookie, msg) = loader
        .hold_scheduler(yes(), sched, mode, "game".to_owned(), "org.example.Game".to_owned())
        .unwrap();
    assert_eq!(msg, ScxMessage::SwitchSched(sched, mode));
    cookie
}

#[test]
fn a_new_loader_runs_nothing() {
    let loader = ScxLoader::new(None, None);
    assert_eq!(loader.current_scheduler(), "unknown");
    assert_eq!(loader.scheduler_mode(), SchedMode::Auto);
    assert!(loader.current_scheduler_args().is_empty());
    assert_eq!(loader.default_scheduler(), "unknown");
    assert_eq!(loader.default_mode(), SchedMode::Auto);
    assert!(loader.active_holds().is_empty());
}

#[test]
fn the_advertised_list_is_in_its_order() {
    assert_eq!(
        ScxLoader::new(None, None).supported_schedulers(),
        vec![
            "scx_beerland",
            "scx_bpfland",
            "scx_cake",
            "scx_cosmos",
            "scx_flash",
            "scx_flow",
            "scx_lavd",
            "scx_pandemonium",
            "scx_p2dq",
            "scx_tickless",
            "scx_rustland",
            "scx_rusty",
        ]
    );
}

#[test]
fn an_unauthorized_request_changes_nothing() {
    let mut loader = ScxLoader::new(None, None);
    assert_eq!(
        loader.start_scheduler(Ok(false), SupportedSched::Lavd, SchedMode::Gaming),
        failed("Not allowed!")
    );
    assert_eq!(
        loader.hold_scheduler(
            Err("no authority".to_owned()),
            SupportedSched::Lavd,
            SchedMode::Gaming,
            String::new(),
            String::new()
        ),
        failed("no authority")
    );
    assert_eq!(loader.release_scheduler(Ok(false), 0), failed("Not allowed!"));
    assert_eq!(loader.current_scheduler(), "unknown");
    assert_eq!(loader.scheduler_mode(), SchedMode::Auto);
}

#[test]
fn start_and_switch_set_what_runs() {
    let mut loader = ScxLoader::new(None, None);
    assert_eq!(
        loader.start_scheduler(yes(), SupportedSched::Lavd, SchedMode::Gaming),
        Ok(ScxMessage::StartSched(SupportedSched::Lavd, SchedMode::Gaming))
    );
    assert_eq!(loader.current_scheduler(), "scx_lavd");
    assert_eq!(loader.scheduler_mode(), SchedMode::Gaming);

    // Custom arguments reset the mode.
    assert_eq!(
        loader.switch_scheduler_with_args(yes(), SupportedSched::Rusty, words(&["-k"])),
        Ok(ScxMessage::SwitchSchedArgs(SupportedSched::Rusty, words(&["-k"])))
    );
    assert_eq!(loader.current_scheduler(), "scx_rusty");
    assert_eq!(loader.scheduler_mode(), SchedMode::Auto);
    assert_eq!(loader.current_scheduler_args(), words(&["-k"]));

    // A mode resets custom arguments.
    assert_eq!(
        loader.switch_scheduler(yes(), SupportedSched::Rusty, SchedMode::Server),
        Ok(ScxMessage::SwitchSched(SupportedSched::Rusty, SchedMode::Server))
    );
    assert!(loader.current_scheduler_args().is_empty());
    assert_eq!(
        loader.start_scheduler_with_args(yes(), SupportedSched::Flash, words(&["-s", "1"])),
        Ok(ScxMessage::StartSchedArgs(SupportedSched::Flash, words(&["-s", "1"])))
    );
    assert_eq!(loader.current_scheduler_args(), words(&["-s", "1"]));
}

#[test]
fn stop_is_a_no_op_where_nothing_runs() {
    let mut loader = ScxLoader::new(None, None);
    assert_eq!(loader.stop_scheduler(yes()), Ok(None));
    loader.start_scheduler(yes(), SupportedSched::Lavd, SchedMode::Gaming).unwrap();
    assert_eq!(loader.stop_scheduler(yes()), Ok(Some(ScxMessage::StopSched)));
    assert_eq!(loader.current_scheduler(), "unknown");
    // The mode stays as it was.
    assert_eq!(loader.scheduler_mode(), SchedMode::Gaming);
}

#[test]
fn restart_repeats_the_original_configuration() {
    let mut loader = ScxLoader::new(None, None);
    assert_eq!(
        loader.restart_scheduler(yes()),
        failed("No scheduler is currently running to restart")
    );
    loader.start_scheduler_with_args(yes(), SupportedSched::Lavd, words(&["-v"])).unwrap();
    assert_eq!(
        loader.restart_scheduler(yes()),
        Ok(ScxMessage::RestartSched(
            SupportedSched::Lavd,
            Some(words(&["-v"])),
            SchedMode::Auto
        ))
    );
}

#[test]
fn restore_needs_a_configured_default() {
    let mut bare = ScxLoader::new(None, Some(SchedMode::Server));
    assert_eq!(bare.restore_default(yes()), failed("No default scheduler is configured"));

    let mut loader = ScxLoader::new(Some(SupportedSched::Cake), Some(SchedMode::Server));
    assert_eq!(loader.default_scheduler(), "scx_cake");
    assert_eq!(
        loader.restore_default(yes()),
        Ok(ScxMessage::SwitchSched(SupportedSched::Cake, SchedMode::Server))
    );
    assert_eq!(loader.current_scheduler(), "scx_cake");
}

#[test]
fn holds_rule_out_other_requests() {
    let mut loader = ScxLoader::new(Some(SupportedSched::Cake), None);
    hold(&mut loader, SupportedSched::Lavd, SchedMode::Gaming);
    let start = "Cannot start scheduler while holds are active";
    let switch = "Cannot switch scheduler while holds are active";
    assert_eq!(
        loader.start_scheduler(yes(), SupportedSched::Rusty, SchedMode::Auto),
        failed(start)
    );
    assert_eq!(
        loader.start_scheduler_with_args(yes(), SupportedSched::Rusty, words(&["-k"])),
        failed(start)
    );
    assert_eq!(
        loader.switch_scheduler(yes(), SupportedSched::Rusty, SchedMode::Auto),
        failed(switch)
    );
    assert_eq!(
        loader.switch_scheduler_with_args(yes(), SupportedSched::Rusty, words(&["-k"])),
        failed(switch)
    );
    assert_eq!(
        loader.stop_scheduler(yes()),
        failed("Cannot stop scheduler while holds are active")
    );
    assert_eq!(
        loader.restart_scheduler(yes()),
        failed("Cannot restart scheduler while holds are active")
    );
    assert_eq!(
        loader.restore_default(yes()),
        failed("Cannot restore default scheduler while holds are active")
    );
    assert_eq!(loader.current_scheduler(), "scx_lavd");
}

#[test]
fn the_most_recent_hold_wins_and_the_last_release_restores() {
    let mut loader = ScxLoader::new(None, None);
    loader.start_scheduler_with_args(yes(), SupportedSched::Rusty, words(&["-k"])).unwrap();

    let first = hold(&mut loader, SupportedSched::Lavd, SchedMode::Gaming);
    let second = hold(&mut loader, SupportedSched::Bpfland, SchedMode::LowLatency);
    assert_eq!((first, second), (0, 1));
    let holds = loader.active_holds();
    assert_eq!(holds.len(), 2);
    assert_eq!(holds[0].scheduler, "scx_lavd");
    assert_eq!(holds[1].mode, 3);
    assert_eq!(holds[1].reason, "game");
    assert_eq!(holds[1].app_id, "org.example.Game");

    // Out of order: the hold that remains runs.
    assert_eq!(
        loader.release_scheduler(yes(), second),
        Ok(ScxMessage::SwitchSched(SupportedSched::Lavd, SchedMode::Gaming))
    );
    assert_eq!(
        loader.release_scheduler(yes(), second),
        failed("No active hold with cookie 1")
    );
    assert_eq!(
        loader.release_scheduler(yes(), first),
        Ok(ScxMessage::SwitchSchedArgs(SupportedSched::Rusty, words(&["-k"])))
    );
    assert_eq!(loader.current_scheduler(), "scx_rusty");
    assert_eq!(loader.current_scheduler_args(), words(&["-k"]));
    assert!(loader.active_holds().is_empty());

    // Cookies are not given out again.
    assert_eq!(hold(&mut loader, SupportedSched::Lavd, SchedMode::Auto), 2);
}

#[test]
fn a_hold_over_nothing_releases_to_nothing() {
    let mut loader = ScxLoader::new(None, None);
    let cookie = hold(&mut loader, SupportedSched::Lavd, SchedMode::Gaming);
    assert_eq!(loader.release_scheduler(yes(), cookie), Ok(ScxMessage::StopSched));
    assert_eq!(loader.current_scheduler(), "unknown");
    // With nothing to restore, the mode stays as the hold set it.
    assert_eq!(loader.scheduler_mode(), SchedMode::Gaming);
}
