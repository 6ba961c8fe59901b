//! The loader's request handling: which scheduler is current, who may change
//! it, and the holds that pin one for a while.
//!
//! Every request answers with the message that the worker is to carry out.
//! While holds are active, requests other than taking and releasing holds are
//! refused, and the most recently taken hold decides what runs; once the last
//! hold is released, the state from before the first is restored.
use vstd::prelude::*;
use vstd::string::StringExecFns;

use crate::sched::{
    advertised, mode_number, sched_text, supported_names, SchedMode, SupportedSched, UNKNOWN,
};
use crate::text;
use crate::text::views;

verus! {

/// What the worker is asked to do.
#[derive(Debug, PartialEq)]
pub enum ScxMessage {
    /// Quit the loader.
    Quit,
    /// Stop the scheduler, if any.
    StopSched,
    /// Start the scheduler with the given mode.
    StartSched(SupportedSched, SchedMode),
    /// Start the scheduler with the given arguments.
    StartSchedArgs(SupportedSched, Vec<String>),
    /// Switch to another scheduler with the given mode.
    SwitchSched(SupportedSched, SchedMode),
    /// Switch to another scheduler with the given arguments.
    SwitchSchedArgs(SupportedSched, Vec<String>),
    /// Restart the running scheduler with its original configuration.
    RestartSched(SupportedSched, Option<Vec<String>>, SchedMode),
}

/// The model of a [`ScxMessage`].
pub enum MessageModel {
    Quit,
    StopSched,
    StartSched(SupportedSched, SchedMode),
    StartSchedArgs(SupportedSched, Seq<Seq<char>>),
    SwitchSched(SupportedSched, SchedMode),
    SwitchSchedArgs(SupportedSched, Seq<Seq<char>>),
    RestartSched(SupportedSched, Option<Seq<Seq<char>>>, SchedMode),
}

/// The views of an optional argument list.
pub open spec fn args_view(args: Option<Vec<String>>) -> Option<Seq<Seq<char>>> {
    match args {
        Some(list) => Some(views(list@)),
        None => None,
    }
}

impl View for ScxMessage {
    type V = MessageModel;

    open spec fn view(&self) -> MessageModel {
        match *self {
            ScxMessage::Quit => MessageModel::Quit,
            ScxMessage::StopSched => MessageModel::StopSched,
            ScxMessage::StartSched(s, m) => MessageModel::StartSched(s, m),
            ScxMessage::StartSchedArgs(s, a) => MessageModel::StartSchedArgs(s, views(a@)),
            ScxMessage::SwitchSched(s, m) => MessageModel::SwitchSched(s, m),
            ScxMessage::SwitchSchedArgs(s, a) => MessageModel::SwitchSchedArgs(s, views(a@)),
            ScxMessage::RestartSched(s, a, m) => MessageModel::RestartSched(s, args_view(a), m),
        }
    }
}

/// One active hold.
#[derive(Debug, PartialEq)]
pub struct HoldEntry {
    /// Identifies the hold to its holder.
    pub cookie: u32,
    /// Full name of the held scheduler.
    pub scheduler: String,
    /// Number of the held mode.
    pub mode: u32,
    pub reason: String,
    /// Reverse-DNS identifier of the holding application.
    pub app_id: String,
}

/// The model of a [`HoldEntry`].
pub struct HoldModel {
    pub cookie: u32,
    pub scheduler: Seq<char>,
    pub mode: u32,
    pub reason: Seq<char>,
    pub app_id: Seq<char>,
}

impl View for HoldEntry {
    type V = HoldModel;

    open spec fn view(&self) -> HoldModel {
        HoldModel {
            cookie: self.cookie,
            scheduler: self.scheduler@,
            mode: self.mode,
            reason: self.reason@,
            app_id: self.app_id@,
        }
    }
}

/// The models of a list of holds.
pub open spec fn hold_views(holds: Seq<HoldEntry>) -> Seq<HoldModel> {
    holds.map_values(|h: HoldEntry| h@)
}

impl Clone for HoldEntry {
    fn clone(&self) -> (copy: Self)
        ensures
            copy == *self,
    {
        HoldEntry {
            cookie: self.cookie,
            scheduler: self.scheduler.clone(),
            mode: self.mode,
            reason: self.reason.clone(),
            app_id: self.app_id.clone(),
        }
    }
}

/// What runs, and how: in a mode, or with custom arguments.
#[derive(Debug, PartialEq)]
pub struct SchedState {
    pub sched: Option<SupportedSched>,
    pub mode: SchedMode,
    pub args: Option<Vec<String>>,
}

/// The model of a [`SchedState`].
pub struct StateModel {
    pub sched: Option<SupportedSched>,
    pub mode: SchedMode,
    pub args: Option<Seq<Seq<char>>>,
}

impl View for SchedState {
    type V = StateModel;

    open spec fn view(&self) -> StateModel {
        StateModel { sched: self.sched, mode: self.mode, args: args_view(self.args) }
    }
}

impl StateModel {
    /// Custom arguments belong to a running scheduler, and come with the
    /// automatic mode.
    pub open spec fn wf(self) -> bool {
        self.args is Some ==> self.sched is Some && self.mode == SchedMode::Auto
    }
}

/// Why a request was refused.
#[derive(Debug, PartialEq)]
pub enum LoaderError {
    Failed(String),
}

/// The answer of the system's authority to an authorization request: whether
/// the caller is authorized, or why it could not be asked.
pub type AuthReply = Result<bool, String>;

/// Why the authority's answer refuses a request, when it does.
pub open spec fn auth_refusal(reply: AuthReply) -> Option<Seq<char>> {
    match reply {
        Ok(true) => None,
        Ok(false) => Some("Not allowed!"@),
        Err(why) => Some(why@),
    }
}

/// Turns the authority's answer into leave to go on, or a refusal.
pub fn check_authorization(reply: AuthReply) -> (leave: Result<(), LoaderError>)
    ensures
        match (leave, auth_refusal(reply)) {
            (Ok(()), None) => true,
            (Err(LoaderError::Failed(text)), Some(why)) => text@ == why,
            _ => false,
        },
{
    match reply {
        Ok(true) => Ok(()),
        Ok(false) => Err(LoaderError::Failed("Not allowed!".to_owned())),
        Err(why) => Err(LoaderError::Failed(why)),
    }
}

/// The loader's state.
pub struct ScxLoader {
    current_scx: Option<SupportedSched>,
    current_mode: SchedMode,
    current_args: Option<Vec<String>>,
    default_sched: Option<SupportedSched>,
    default_mode: SchedMode,
    next_cookie: u32,
    active_holds: Vec<HoldEntry>,
    pre_hold_state: Option<SchedState>,
}

/// The model of a [`ScxLoader`].
pub struct LoaderModel {
    /// What runs now.
    pub now: StateModel,
    pub default_sched: Option<SupportedSched>,
    pub default_mode: SchedMode,
    pub next_cookie: u32,
    /// Active holds, in the order in which they were taken.
    pub holds: Seq<HoldModel>,
    /// What ran before the first of the active holds.
    pub before: Option<StateModel>,
}

/// Whether a hold names a scheduler and a mode that exist.
pub open spec fn valid_hold(hold: HoldModel) -> bool {
    exists|s: SupportedSched, m: SchedMode| #[trigger]
        holds_to(hold, s, m)
}

/// Whether a hold pins the given scheduler in the given mode.
pub open spec fn holds_to(hold: HoldModel, sched: SupportedSched, mode: SchedMode) -> bool {
    hold.scheduler == sched_text(sched) && hold.mode == mode_number(mode)
}

impl LoaderModel {
    /// What holds of every state of the loader.
    pub open spec fn wf(self) -> bool {
        &&& self.now.wf()
        &&& self.holds.len() == 0 <==> self.before is None
        &&& self.before is Some ==> self.before->0.wf()
        &&& forall|i: int| 0 <= i < self.holds.len() ==> valid_hold(#[trigger] self.holds[i])
        // What runs is what the most recent hold pins.
        &&& self.holds.len() > 0 ==> self.now.sched is Some && self.now.args is None && holds_to(
            self.holds.last(),
            self.now.sched->0,
            self.now.mode,
        )
    }

    /// The state with another scheduler current, in a mode.
    pub open spec fn in_mode(self, sched: SupportedSched, mode: SchedMode) -> LoaderModel {
        LoaderModel { now: StateModel { sched: Some(sched), mode, args: None }, ..self }
    }

    /// The state with another scheduler current, with custom arguments.
    pub open spec fn with_args(self, sched: SupportedSched, args: Seq<Seq<char>>) -> LoaderModel {
        LoaderModel {
            now: StateModel { sched: Some(sched), mode: SchedMode::Auto, args: Some(args) },
            ..self
        }
    }

    /// The state with nothing running. The mode stays as it was.
    pub open spec fn idle(self) -> LoaderModel {
        LoaderModel { now: StateModel { sched: None, mode: self.now.mode, args: None }, ..self }
    }

    /// The state with a saved state brought back.
    pub open spec fn restored(self, saved: StateModel) -> LoaderModel {
        match (saved.sched, saved.args) {
            (Some(sched), Some(args)) => self.with_args(sched, args),
            (Some(sched), None) => self.in_mode(sched, saved.mode),
            (None, _) => self.idle(),
        }
    }

    /// Why a request is refused, when it is: for want of authorization, or for
    /// `busy` while holds are active.
    pub open spec fn refusal(self, reply: AuthReply, busy: Seq<char>) -> Option<Seq<char>> {
        match auth_refusal(reply) {
            Some(why) => Some(why),
            None => if self.holds.len() > 0 {
                Some(busy)
            } else {
                None
            },
        }
    }

    /// The state after a hold has been taken.
    pub open spec fn held(
        self,
        sched: SupportedSched,
        mode: SchedMode,
        reason: Seq<char>,
        app_id: Seq<char>,
    ) -> LoaderModel {
        LoaderModel {
            now: StateModel { sched: Some(sched), mode, args: None },
            next_cookie: if self.next_cookie == u32::MAX {
                0
            } else {
                (self.next_cookie + 1) as u32
            },
            holds: self.holds.push(
                HoldModel {
                    cookie: self.next_cookie,
                    scheduler: sched_text(sched),
                    mode: mode_number(mode),
                    reason,
                    app_id,
                },
            ),
            before: if self.holds.len() == 0 {
                Some(self.now)
            } else {
                self.before
            },
            ..self
        }
    }

    /// The position of the first hold with the given cookie.
    pub open spec fn is_hold_at(self, cookie: u32, i: int) -> bool {
        &&& 0 <= i < self.holds.len()
        &&& self.holds[i].cookie == cookie
        &&& forall|k: int| 0 <= k < i ==> (#[trigger] self.holds[k]).cookie != cookie
    }

    /// Whether `after` is the state once the hold at `i` is released: the
    /// remaining holds decide, or else the state from before them.
    pub open spec fn released_at(self, i: int, after: LoaderModel) -> bool {
        let holds = self.holds.remove(i);
        if holds.len() == 0 {
            after == (LoaderModel { holds, before: None, ..self }).restored(self.before->0)
        } else {
            &&& after.now.sched is Some
            &&& holds_to(holds.last(), after.now.sched->0, after.now.mode)
            &&& after == (LoaderModel { holds, ..self }).in_mode(after.now.sched->0, after.now.mode)
        }
    }
}

/// The message that brings a saved state back.
pub open spec fn restoring(saved: StateModel) -> MessageModel {
    match (saved.sched, saved.args) {
        (Some(sched), Some(args)) => MessageModel::SwitchSchedArgs(sched, args),
        (Some(sched), None) => MessageModel::SwitchSched(sched, saved.mode),
        (None, _) => MessageModel::StopSched,
    }
}

/// Whether a message tells the worker what a granted request made of the state.
pub open spec fn tells(msg: MessageModel, a: StateModel, b: StateModel) -> bool {
    match msg {
        MessageModel::Quit => false,
        MessageModel::StopSched => b.sched is None && b.args is None,
        MessageModel::StartSched(sched, mode) => b == (StateModel {
            sched: Some(sched),
            mode,
            args: None,
        }),
        MessageModel::SwitchSched(sched, mode) => b == (StateModel {
            sched: Some(sched),
            mode,
            args: None,
        }),
        MessageModel::StartSchedArgs(sched, args) => b == (StateModel {
            sched: Some(sched),
            mode: SchedMode::Auto,
            args: Some(args),
        }),
        MessageModel::SwitchSchedArgs(sched, args) => b == (StateModel {
            sched: Some(sched),
            mode: SchedMode::Auto,
            args: Some(args),
        }),
        MessageModel::RestartSched(sched, args, mode) => b == a && b == (StateModel {
            sched: Some(sched),
            mode,
            args,
        }),
    }
}

/// Whether a request was refused with the given text.
pub open spec fn refused<T>(result: Result<T, LoaderError>, why: Seq<char>) -> bool {
    match result {
        Err(LoaderError::Failed(text)) => text@ == why,
        Ok(_) => false,
    }
}

/// The text that answers a release of an unknown cookie.
pub open spec fn no_such_hold(cookie: u32) -> Seq<char> {
    "No active hold with cookie "@ + text::decimal_digits(cookie as nat)
}

fn clone_args(args: &Option<Vec<String>>) -> (copy: Option<Vec<String>>)
    ensures
        args_view(copy) == args_view(*args),
{
    match args {
        Some(list) => Some(text::clone_list(list)),
        None => None,
    }
}

impl View for ScxLoader {
    type V = LoaderModel;

    closed spec fn view(&self) -> LoaderModel {
        LoaderModel {
            now: StateModel {
                sched: self.current_scx,
                mode: self.current_mode,
                args: args_view(self.current_args),
            },
            default_sched: self.default_sched,
            default_mode: self.default_mode,
            next_cookie: self.next_cookie,
            holds: hold_views(self.active_holds@),
            before: match self.pre_hold_state {
                Some(state) => Some(state@),
                None => None,
            },
        }
    }
}

impl ScxLoader {
    /// A loader that runs nothing yet, with the configured default.
    pub fn new(
        default_sched: Option<SupportedSched>,
        default_mode: Option<SchedMode>,
    ) -> (loader: Self)
        ensures
            loader@.wf(),
            loader@ == (LoaderModel {
                now: StateModel { sched: None, mode: SchedMode::Auto, args: None },
                default_sched,
                default_mode: match default_mode {
                    Some(mode) => mode,
                    None => SchedMode::Auto,
                },
                next_cookie: 0,
                holds: Seq::empty(),
                before: None,
            }),
    {
        let loader = ScxLoader {
            current_scx: None,
            current_mode: SchedMode::Auto,
            current_args: None,
            default_sched,
            default_mode: match default_mode {
                Some(mode) => mode,
                None => SchedMode::Auto,
            },
            next_cookie: 0,
            active_holds: Vec::new(),
            pre_hold_state: None,
        };
        assert(hold_views(loader.active_holds@) =~= Seq::empty());
        loader
    }

    fn snapshot_state(&self) -> (state: SchedState)
        ensures
            state@ == self@.now,
    {
        SchedState {
            sched: self.current_scx,
            mode: self.current_mode,
            args: clone_args(&self.current_args),
        }
    }

    fn apply_state(&mut self, state: SchedState) -> (msg: ScxMessage)
        ensures
            final(self)@ == old(self)@.restored(state@),
            msg@ == restoring(state@),
    {
        match state.sched {
            Some(sched) => {
                let msg = match state.args {
                    Some(args) => {
                        self.current_args = Some(text::clone_list(&args));
                        self.current_mode = SchedMode::Auto;
                        ScxMessage::SwitchSchedArgs(sched, args)
                    },
                    None => {
                        self.current_args = None;
                        self.current_mode = state.mode;
                        ScxMessage::SwitchSched(sched, state.mode)
                    },
                };
                self.current_scx = Some(sched);
                msg
            },
            None => {
                self.current_scx = None;
                self.current_args = None;
                ScxMessage::StopSched
            },
        }
    }

    fn alloc_cookie(&mut self) -> (cookie: u32)
        ensures
            cookie == old(self)@.next_cookie,
            final(self)@ == (LoaderModel {
                next_cookie: if cookie == u32::MAX {
                    0
                } else {
                    (cookie + 1) as u32
                },
                ..old(self)@
            }),
    {
        let cookie = self.next_cookie;
        self.next_cookie = self.next_cookie.wrapping_add(1);
        cookie
    }

    fn set_mode(&mut self, sched: SupportedSched, mode: SchedMode)
        ensures
            final(self)@ == old(self)@.in_mode(sched, mode),
    {
        self.current_scx = Some(sched);
        self.current_mode = mode;
        self.current_args = None;
    }

    fn set_args(&mut self, sched: SupportedSched, args: Vec<String>)
        ensures
            final(self)@ == old(self)@.with_args(sched, views(args@)),
    {
        self.current_scx = Some(sched);
        self.current_mode = SchedMode::Auto;
        self.current_args = Some(args);
    }

    /// Leave to go on with a request that holds rule out, or its refusal.
    fn grant_request(&self, auth: AuthReply, busy: &str) -> (leave: Result<(), LoaderError>)
        ensures
            match self@.refusal(auth, busy@) {
                Some(why) => refused(leave, why),
                None => leave is Ok,
            },
    {
        match check_authorization(auth) {
            Ok(()) => if self.active_holds.is_empty() {
                Ok(())
            } else {
                Err(LoaderError::Failed(busy.to_owned()))
            },
            Err(err) => Err(err),
        }
    }
}

impl ScxLoader {
    /// Starts a scheduler in a mode.
    pub fn start_scheduler(
        &mut self,
        auth: AuthReply,
        scx_name: SupportedSched,
        sched_mode: SchedMode,
    ) -> (answer: Result<ScxMessage, LoaderError>)
        requires
            old(self)@.wf(),
        ensures
            final(self)@.wf(),
            answer matches Ok(msg) ==> tells(msg@, old(self)@.now, final(self)@.now),
            match old(self)@.refusal(auth, "Cannot start scheduler while holds are active"@) {
                Some(why) => refused(answer, why) && final(self)@ == old(self)@,
                None => answer is Ok && answer->Ok_0@ == MessageModel::StartSched(
                    scx_name,
                    sched_mode,
                ) && final(self)@ == old(self)@.in_mode(scx_name, sched_mode),
            },
    {
        match self.grant_request(auth, "Cannot start scheduler while holds are active") {
            Ok(()) => {},
            Err(err) => {
                return Err(err);
            },
        }
        self.set_mode(scx_name, sched_mode);
        Ok(ScxMessage::StartSched(scx_name, sched_mode))
    }

    /// Starts a scheduler with custom arguments, which resets the mode.
    pub fn start_scheduler_with_args(
        &mut self,
        auth: AuthReply,
        scx_name: SupportedSched,
        scx_args: Vec<String>,
    ) -> (answer: Result<ScxMessage, LoaderError>)
        requires
            old(self)@.wf(),
        ensures
            final(self)@.wf(),
            answer matches Ok(msg) ==> tells(msg@, old(self)@.now, final(self)@.now),
            match old(self)@.refusal(auth, "Cannot start scheduler while holds are active"@) {
                Some(why) => refused(answer, why) && final(self)@ == old(self)@,
                None => answer is Ok && answer->Ok_0@ == MessageModel::StartSchedArgs(
                    scx_name,
                    views(scx_args@),
                ) && final(self)@ == old(self)@.with_args(scx_name, views(scx_args@)),
            },
    {
        match self.grant_request(auth, "Cannot start scheduler while holds are active") {
            Ok(()) => {},
            Err(err) => {
                return Err(err);
            },
        }
        self.set_args(scx_name, text::clone_list(&scx_args));
        Ok(ScxMessage::StartSchedArgs(scx_name, scx_args))
    }

    /// Switches to a scheduler in a mode.
    pub fn switch_scheduler(
        &mut self,
        auth: AuthReply,
        scx_name: SupportedSched,
        sched_mode: SchedMode,
    ) -> (answer: Result<ScxMessage, LoaderError>)
        requires
            old(self)@.wf(),
        ensures
            final(self)@.wf(),
            answer matches Ok(msg) ==> tells(msg@, old(self)@.now, final(self)@.now),
            match old(self)@.refusal(auth, "Cannot switch scheduler while holds are active"@) {
                Some(why) => refused(answer, why) && final(self)@ == old(self)@,
                None => answer is Ok && answer->Ok_0@ == MessageModel::SwitchSched(
                    scx_name,
                    sched_mode,
                ) && final(self)@ == old(self)@.in_mode(scx_name, sched_mode),
            },
    {
        match self.grant_request(auth, "Cannot switch scheduler while holds are active") {
            Ok(()) => {},
            Err(err) => {
                return Err(err);
            },
        }
        self.set_mode(scx_name, sched_mode);
        Ok(ScxMessage::SwitchSched(scx_name, sched_mode))
    }

    /// Switches to a scheduler with custom arguments, which resets the mode.
    pub fn switch_scheduler_with_args(
        &mut self,
        auth: AuthReply,
        scx_name: SupportedSched,
        scx_args: Vec<String>,
    ) -> (answer: Result<ScxMessage, LoaderError>)
        requires
            old(self)@.wf(),
        ensures
            final(self)@.wf(),
            answer matches Ok(msg) ==> tells(msg@, old(self)@.now, final(self)@.now),
            match old(self)@.refusal(auth, "Cannot switch scheduler while holds are active"@) {
                Some(why) => refused(answer, why) && final(self)@ == old(self)@,
                None => answer is Ok && answer->Ok_0@ == MessageModel::SwitchSchedArgs(
                    scx_name,
                    views(scx_args@),
                ) && final(self)@ == old(self)@.with_args(scx_name, views(scx_args@)),
            },
    {
        match self.grant_request(auth, "Cannot switch scheduler while holds are active") {
            Ok(()) => {},
            Err(err) => {
                return Err(err);
            },
        }
        self.set_args(scx_name, text::clone_list(&scx_args));
        Ok(ScxMessage::SwitchSchedArgs(scx_name, scx_args))
    }

    /// Stops the running scheduler. Where none runs there is nothing to do.
    pub fn stop_scheduler(
        &mut self,
        auth: AuthReply,
    ) -> (answer: Result<Option<ScxMessage>, LoaderError>)
        requires
            old(self)@.wf(),
        ensures
            final(self)@.wf(),
            answer matches Ok(Some(msg)) ==> tells(msg@, old(self)@.now, final(self)@.now),
            answer matches Ok(None) ==> final(self)@ == old(self)@,
            match old(self)@.refusal(auth, "Cannot stop scheduler while holds are active"@) {
                Some(why) => refused(answer, why) && final(self)@ == old(self)@,
                None => match (answer, old(self)@.now.sched) {
                    (Ok(Some(msg)), Some(_)) => msg@ == MessageModel::StopSched && final(self)@
                        == old(self)@.idle(),
                    (Ok(None), None) => final(self)@ == old(self)@,
                    _ => false,
                },
            },
    {
        match self.grant_request(auth, "Cannot stop scheduler while holds are active") {
            Ok(()) => {},
            Err(err) => {
                return Err(err);
            },
        }
        if self.current_scx.is_some() {
            self.current_scx = None;
            self.current_args = None;
            Ok(Some(ScxMessage::StopSched))
        } else {
            Ok(None)
        }
    }

    /// Restarts the running scheduler with its original configuration.
    pub fn restart_scheduler(
        &mut self,
        auth: AuthReply,
    ) -> (answer: Result<ScxMessage, LoaderError>)
        requires
            old(self)@.wf(),
        ensures
            final(self)@.wf(),
            answer matches Ok(msg) ==> tells(msg@, old(self)@.now, final(self)@.now),
            match old(self)@.refusal(auth, "Cannot restart scheduler while holds are active"@) {
                Some(why) => refused(answer, why) && final(self)@ == old(self)@,
                None => final(self)@ == old(self)@ && match old(self)@.now.sched {
                    Some(sched) => answer is Ok && answer->Ok_0@ == MessageModel::RestartSched(
                        sched,
                        old(self)@.now.args,
                        old(self)@.now.mode,
                    ),
                    None => refused(answer, "No scheduler is currently running to restart"@),
                },
            },
    {
        match self.grant_request(auth, "Cannot restart scheduler while holds are active") {
            Ok(()) => {},
            Err(err) => {
                return Err(err);
            },
        }
        match self.current_scx {
            Some(sched) => Ok(
                ScxMessage::RestartSched(sched, clone_args(&self.current_args), self.current_mode),
            ),
            None => Err(
                LoaderError::Failed("No scheduler is currently running to restart".to_owned()),
            ),
        }
    }

    /// Switches to the configured default scheduler and mode.
    pub fn restore_default(&mut self, auth: AuthReply) -> (answer: Result<ScxMessage, LoaderError>)
        requires
            old(self)@.wf(),
        ensures
            final(self)@.wf(),
            answer matches Ok(msg) ==> tells(msg@, old(self)@.now, final(self)@.now),
            match old(self)@.refusal(
                auth,
                "Cannot restore default scheduler while holds are active"@,
            ) {
                Some(why) => refused(answer, why) && final(self)@ == old(self)@,
                None => match old(self)@.default_sched {
                    Some(sched) => answer is Ok && answer->Ok_0@ == MessageModel::SwitchSched(
                        sched,
                        old(self)@.default_mode,
                    ) && final(self)@ == old(self)@.in_mode(sched, old(self)@.default_mode),
                    None => refused(answer, "No default scheduler is configured"@) && final(self)@
                        == old(self)@,
                },
            },
    {
        match self.grant_request(auth, "Cannot restore default scheduler while holds are active") {
            Ok(()) => {},
            Err(err) => {
                return Err(err);
            },
        }
        match self.default_sched {
            Some(sched) => {
                let mode = self.default_mode;
                self.set_mode(sched, mode);
                Ok(ScxMessage::SwitchSched(sched, mode))
            },
            None => Err(LoaderError::Failed("No default scheduler is configured".to_owned())),
        }
    }

    /// Takes a hold on a scheduler and mode, which run at once, and answers
    /// with its cookie.
    pub fn hold_scheduler(
        &mut self,
        auth: AuthReply,
        scheduler: SupportedSched,
        mode: SchedMode,
        reason: String,
        app_id: String,
    ) -> (answer: Result<(u32, ScxMessage), LoaderError>)
        requires
            old(self)@.wf(),
        ensures
            final(self)@.wf(),
            answer matches Ok(pair) ==> tells(pair.1@, old(self)@.now, final(self)@.now),
            match auth_refusal(auth) {
                Some(why) => refused(answer, why) && final(self)@ == old(self)@,
                None => answer is Ok && answer->Ok_0.0 == old(self)@.next_cookie
                    && answer->Ok_0.1@ == MessageModel::SwitchSched(scheduler, mode) && final(self)@
                    == old(self)@.held(scheduler, mode, reason@, app_id@),
            },
    {
        match check_authorization(auth) {
            Ok(()) => {},
            Err(err) => {
                return Err(err);
            },
        }
        let ghost before = self@;
        // The state to come back to is saved on the very first hold.
        if self.active_holds.is_empty() {
            self.pre_hold_state = Some(self.snapshot_state());
        }
        let cookie = self.alloc_cookie();
        let ghost holds = self.active_holds@;
        let entry = HoldEntry {
            cookie,
            scheduler: scheduler.name().to_owned(),
            mode: mode.number(),
            reason,
            app_id,
        };
        proof {
            assert(hold_views(holds.push(entry)) =~= hold_views(holds).push(entry@));
            assert(holds_to(entry@, scheduler, mode));
        }
        self.active_holds.push(entry);
        self.set_mode(scheduler, mode);
        proof {
            assert(self@ == before.held(scheduler, mode, reason@, app_id@));
            assert forall|i: int| 0 <= i < self@.holds.len() implies valid_hold(
                #[trigger] self@.holds[i],
            ) by {
                if i < before.holds.len() {
                    assert(self@.holds[i] == before.holds[i]);
                }
            }
        }
        Ok((cookie, ScxMessage::SwitchSched(scheduler, mode)))
    }

    /// Releases the hold with the given cookie. The most recent of the
    /// remaining holds runs again, or what ran before the first hold.
    pub fn release_scheduler(&mut self, auth: AuthReply, cookie: u32) -> (answer: Result<
        ScxMessage,
        LoaderError,
    >)
        requires
            old(self)@.wf(),
        ensures
            final(self)@.wf(),
            answer matches Ok(msg) ==> tells(msg@, old(self)@.now, final(self)@.now),
            match auth_refusal(auth) {
                Some(why) => refused(answer, why) && final(self)@ == old(self)@,
                None => match answer {
                    Ok(msg) => exists|i: int|
                        {
                            &&& #[trigger] old(self)@.is_hold_at(cookie, i)
                            &&& 0 <= i < old(self)@.holds.len()
                            &&& old(self)@.holds[i].cookie == cookie
                            &&& final(self)@.holds == old(self)@.holds.take(i)
                                + old(self)@.holds.skip(i + 1)
                            &&& i < old(self)@.holds.len() - 1 ==> final(self)@.now
                                == old(self)@.now
                            &&& old(self)@.released_at(i, final(self)@)
                            &&& msg@ == if old(self)@.holds.len() == 1 {
                                restoring(old(self)@.before->0)
                            } else {
                                MessageModel::SwitchSched(
                                    final(self)@.now.sched->0,
                                    final(self)@.now.mode,
                                )
                            }
                        },
                    Err(_) => {
                        &&& refused(answer, no_such_hold(cookie))
                        &&& final(self)@ == old(self)@
                        &&& forall|i: int| !#[trigger] old(self)@.is_hold_at(cookie, i)
                    },
                },
            },
    {
        match check_authorization(auth) {
            Ok(()) => {},
            Err(err) => {
                return Err(err);
            },
        }
        let ghost before = self@;
        let mut pos: usize = 0;
        while pos < self.active_holds.len() && self.active_holds[pos].cookie != cookie
            invariant
                self@ == before,
                before.holds == hold_views(self.active_holds@),
                pos <= self.active_holds@.len(),
                forall|k: int| 0 <= k < pos ==> (#[trigger] before.holds[k]).cookie != cookie,
            decreases self.active_holds@.len() - pos,
        {
            assert(before.holds[pos as int].cookie == self.active_holds@[pos as int].cookie);
            pos += 1;
        }
        if pos == self.active_holds.len() {
            let mut why = "No active hold with cookie ".to_owned();
            why.append(text::decimal(cookie as u64).as_str());
            return Err(LoaderError::Failed(why));
        }
        let ghost entries = self.active_holds@;
        assert(before.is_hold_at(cookie, pos as int));
        self.active_holds.remove(pos);
        let ghost holds = before.holds.remove(pos as int);
        assert(hold_views(self.active_holds@) =~= holds);
        assert forall|i: int| 0 <= i < holds.len() implies valid_hold(#[trigger] holds[i]) by {
            if i < pos {
                assert(holds[i] == before.holds[i]);
            } else {
                assert(holds[i] == before.holds[i + 1]);
            }
        }
        if self.active_holds.is_empty() {
            let state = match self.pre_hold_state.take() {
                Some(state) => state,
                None => SchedState { sched: None, mode: SchedMode::Auto, args: None },
            };
            let msg = self.apply_state(state);
            proof {
                assert(before.released_at(pos as int, self@));
                lemma_released(before, pos as int, self@);
                assert(self@.holds =~= before.holds.take(pos as int) + before.holds.skip(pos + 1));
            }
            return Ok(msg);
        }
        let last = &self.active_holds[self.active_holds.len() - 1];
        assert(holds.last() == last@);
        assert(valid_hold(holds.last()));
        let sched = SupportedSched::from_name(last.scheduler.as_str());
        let mode = SchedMode::from_number(last.mode);
        match (sched, mode) {
            (Some(sched), Some(mode)) => {
                self.set_mode(sched, mode);
                proof {
                    assert(before.released_at(pos as int, self@));
                    lemma_released(before, pos as int, self@);
                    assert(self@.holds =~= before.holds.take(pos as int) + before.holds.skip(
                        pos + 1,
                    ));
                }
                Ok(ScxMessage::SwitchSched(sched, mode))
            },
            _ => {
                // Every active hold names a scheduler and a mode that exist.
                proof {
                    let (s, m) = choose|s: SupportedSched, m: SchedMode| #[trigger]
                        holds_to(holds.last(), s, m);
                    assert(sched_text(s) == last.scheduler@);
                    assert(mode_number(m) == last.mode);
                }
                vstd::pervasive::unreached()
            },
        }
    }

    /// Name of the running scheduler, or "unknown" where none runs.
    pub fn current_scheduler(&self) -> (name: String)
        ensures
            name@ == match self@.now.sched {
                Some(sched) => sched_text(sched),
                None => UNKNOWN@,
            },
    {
        match self.current_scx {
            Some(sched) => sched.name().to_owned(),
            None => UNKNOWN.to_owned(),
        }
    }

    /// Mode of the scheduler.
    pub fn scheduler_mode(&self) -> (mode: SchedMode)
        ensures
            mode == self@.now.mode,
    {
        self.current_mode
    }

    /// Custom arguments of the running scheduler, if it has any.
    pub fn current_scheduler_args(&self) -> (args: Vec<String>)
        ensures
            views(args@) == match self@.now.args {
                Some(args) => args,
                None => Seq::empty(),
            },
    {
        match &self.current_args {
            Some(args) => text::clone_list(args),
            None => {
                let none: Vec<String> = Vec::new();
                assert(views(none@) =~= Seq::empty());
                none
            },
        }
    }

    /// Names of the schedulers that the loader can run.
    pub fn supported_schedulers(&self) -> (names: Vec<&'static str>)
        ensures
            names@.map_values(|s: &'static str| s@) == advertised(),
    {
        supported_names()
    }

    /// Name of the configured default scheduler, or "unknown" where there is
    /// none.
    pub fn default_scheduler(&self) -> (name: String)
        ensures
            name@ == match self@.default_sched {
                Some(sched) => sched_text(sched),
                None => UNKNOWN@,
            },
    {
        match self.default_sched {
            Some(sched) => sched.name().to_owned(),
            None => UNKNOWN.to_owned(),
        }
    }

    /// Configured default mode.
    pub fn default_mode(&self) -> (mode: SchedMode)
        ensures
            mode == self@.default_mode,
    {
        self.default_mode
    }

    /// The active holds, in the order in which they were taken.
    pub fn active_holds(&self) -> (holds: Vec<HoldEntry>)
        ensures
            hold_views(holds@) == self@.holds,
    {
        let mut holds: Vec<HoldEntry> = Vec::new();
        let mut i: usize = 0;
        while i < self.active_holds.len()
            invariant
                i <= self.active_holds@.len(),
                holds@ == self.active_holds@.take(i as int),
            decreases self.active_holds@.len() - i,
        {
            holds.push(self.active_holds[i].clone());
            i += 1;
        }
        assert(self.active_holds@.take(i as int) =~= self.active_holds@);
        holds
    }
}

/// Whether `b` follows on `a` by taking a hold.
pub open spec fn hold_step(a: LoaderModel, b: LoaderModel) -> bool {
    exists|sched: SupportedSched, mode: SchedMode, reason: Seq<char>, app_id: Seq<char>|
        b == #[trigger] a.held(sched, mode, reason, app_id)
}

/// Whether `b` follows on `a` by releasing a hold.
pub open spec fn release_step(a: LoaderModel, b: LoaderModel) -> bool {
    exists|cookie: u32, i: int| #[trigger] a.is_hold_at(cookie, i) && a.released_at(i, b)
}

/// Holds are taken and released, in any order, from a state without holds until
/// there are none again.
pub open spec fn hold_episode(trace: Seq<LoaderModel>) -> bool {
    &&& trace.len() > 1
    &&& trace[0].holds.len() == 0
    &&& trace.last().holds.len() == 0
    &&& forall|i: int| 0 < i < trace.len() - 1 ==> (#[trigger] trace[i]).holds.len() > 0
    &&& forall|i: int|
        0 <= i < trace.len() - 1 ==> hold_step(#[trigger] trace[i], trace[i + 1]) || release_step(
            trace[i],
            trace[i + 1],
        )
}

proof fn lemma_episode_remembers(trace: Seq<LoaderModel>, n: int)
    requires
        hold_episode(trace),
        0 < n < trace.len() - 1,
    ensures
        trace[n].before == Some(trace[0].now),
        trace[n].default_sched == trace[0].default_sched,
        trace[n].default_mode == trace[0].default_mode,
    decreases n,
{
    let a = trace[n - 1];
    let b = trace[n];
    assert(hold_step(a, b) || release_step(a, b));
    if n > 1 {
        lemma_episode_remembers(trace, n - 1);
    }
}

/// Once all holds are released, what ran before the first of them runs again:
/// the same scheduler with the same arguments, and, where one ran, in the same
/// mode. (Where none ran the mode is left as the last hold set it.) The
/// configured default is untouched.
pub proof fn lemma_holds_restore(trace: Seq<LoaderModel>)
    requires
        hold_episode(trace),
        trace[0].now.wf(),
    ensures
        trace.last().now.sched == trace[0].now.sched,
        trace.last().now.args == trace[0].now.args,
        trace[0].now.sched is Some ==> trace.last().now == trace[0].now,
        trace.last().before is None,
        trace.last().default_sched == trace[0].default_sched,
        trace.last().default_mode == trace[0].default_mode,
{
    let n = trace.len() - 2;
    let a = trace[n];
    let b = trace[n + 1];
    assert(hold_step(a, b) || release_step(a, b));
    if n > 0 {
        lemma_episode_remembers(trace, n);
    }
}

/// A hold that is taken and released again, with no other in between, leaves
/// the loader as it was, but for the cookie counter; with nothing running, the
/// mode stays as the hold set it.
pub proof fn lemma_hold_release_inverse(
    a: LoaderModel,
    sched: SupportedSched,
    mode: SchedMode,
    reason: Seq<char>,
    app_id: Seq<char>,
    c: LoaderModel,
)
    requires
        a.wf(),
        a.holds.len() == 0 ==> a.now.sched is Some,
        a.held(sched, mode, reason, app_id).released_at(a.holds.len() as int, c),
    ensures
        c == (LoaderModel { next_cookie: a.held(sched, mode, reason, app_id).next_cookie, ..a }),
{
    let b = a.held(sched, mode, reason, app_id);
    assert(b.holds.remove(a.holds.len() as int) =~= a.holds);
    if a.holds.len() > 0 {
        assert(holds_to(a.holds.last(), a.now.sched->0, a.now.mode));
        crate::sched::lemma_sched_text_injective(a.now.sched->0, c.now.sched->0);
        crate::sched::lemma_mode_number_injective(a.now.mode, c.now.mode);
    }
}

/// How many cookies ago `cookie` was given out, counting round the wrap.
pub open spec fn cookie_age(m: LoaderModel, cookie: u32) -> int {
    (m.next_cookie - cookie) % 0x1_0000_0000
}

/// Whether the active holds have different cookies, all of them among the last
/// `n` that were given out.
pub open spec fn cookies_fresh(m: LoaderModel, n: int) -> bool {
    &&& forall|i: int, j: int|
        0 <= i < j < m.holds.len() ==> (#[trigger] m.holds[i]).cookie != (
        #[trigger] m.holds[j]).cookie
    &&& forall|i: int|
        0 <= i < m.holds.len() ==> 1 <= cookie_age(m, (#[trigger] m.holds[i]).cookie) <= n
}

/// As long as fewer than all cookies have been given out since, a hold gets a
/// cookie that no other active hold has.
pub proof fn lemma_hold_cookie_fresh(
    m: LoaderModel,
    sched: SupportedSched,
    mode: SchedMode,
    reason: Seq<char>,
    app_id: Seq<char>,
    n: int,
)
    requires
        cookies_fresh(m, n),
        0 <= n < 0xffff_ffff,
    ensures
        cookies_fresh(m.held(sched, mode, reason, app_id), n + 1),
{
    let b = m.held(sched, mode, reason, app_id);
    let len = m.holds.len() as int;
    assert forall|i: int| 0 <= i < b.holds.len() implies 1 <= cookie_age(
        b,
        (#[trigger] b.holds[i]).cookie,
    ) <= n + 1 by {
        if i < len {
            assert(b.holds[i] == m.holds[i]);
            assert(1 <= cookie_age(m, m.holds[i].cookie) <= n);
        }
    }
    assert forall|i: int, j: int| 0 <= i < j < b.holds.len() implies (#[trigger] b.holds[i]).cookie
        != (#[trigger] b.holds[j]).cookie by {
        assert(b.holds[i] == m.holds[i]);
        if j < len {
            assert(b.holds[j] == m.holds[j]);
        } else {
            assert(1 <= cookie_age(m, m.holds[i].cookie) <= n);
        }
    }
}

/// Releasing a hold keeps the cookies of the others different.
pub proof fn lemma_release_cookie_fresh(m: LoaderModel, i: int, after: LoaderModel, n: int)
    requires
        cookies_fresh(m, n),
        0 <= i < m.holds.len(),
        m.released_at(i, after),
    ensures
        cookies_fresh(after, n),
        forall|k: int| 0 <= k < after.holds.len() ==> (#[trigger] after.holds[k]).cookie
            != m.holds[i].cookie,
{
    let holds = m.holds.remove(i);
    assert(after.holds == holds);
    assert(after.next_cookie == m.next_cookie);
    assert forall|k: int| 0 <= k < holds.len() implies #[trigger] holds[k] == m.holds[if k < i {
        k
    } else {
        k + 1
    }] by {}
}

/// Releasing a hold takes that hold out and leaves the others as they were, in the
/// order in which they were taken. Releasing any but the newest changes nothing of
/// what runs; releasing the newest brings back what the one taken before it pins,
/// and releasing the only one brings back what ran before it.
pub proof fn lemma_released(m: LoaderModel, i: int, after: LoaderModel)
    requires
        m.wf(),
        0 <= i < m.holds.len(),
        m.released_at(i, after),
    ensures
        after.holds.len() == m.holds.len() - 1,
        forall|k: int| 0 <= k < i ==> #[trigger] after.holds[k] == m.holds[k],
        forall|k: int| i <= k < after.holds.len() ==> #[trigger] after.holds[k] == m.holds[k + 1],
        i < m.holds.len() - 1 ==> after.now == m.now && after.before == m.before,
        i == m.holds.len() - 1 && i > 0 ==> {
            &&& after.now.sched is Some
            &&& sched_text(after.now.sched->0) == m.holds[i - 1].scheduler
            &&& mode_number(after.now.mode) == m.holds[i - 1].mode
            &&& after.now.args is None
            &&& after.before == m.before
        },
        m.holds.len() == 1 ==> {
            &&& m.before is Some
            &&& after.before is None
            &&& after.now.sched == m.before->0.sched
            &&& after.now.args == m.before->0.args
            &&& m.before->0.sched is Some ==> after.now == m.before->0
        },
        after.default_sched == m.default_sched,
        after.default_mode == m.default_mode,
        after.next_cookie == m.next_cookie,
{
    if m.holds.len() > 1 {
        assert(after.holds.last() == if i == m.holds.len() - 1 {
            m.holds[i - 1]
        } else {
            m.holds.last()
        });
        if i < m.holds.len() - 1 {
            crate::sched::lemma_sched_text_injective(after.now.sched->0, m.now.sched->0);
            crate::sched::lemma_mode_number_injective(after.now.mode, m.now.mode);
        }
    }
}

/// Taking a hold puts it behind the others, which stay as they were, and makes what
/// it pins run at once. What ran before is remembered at the first hold and at no
/// other.
pub proof fn lemma_held(
    m: LoaderModel,
    sched: SupportedSched,
    mode: SchedMode,
    reason: Seq<char>,
    app_id: Seq<char>,
)
    ensures
        ({
            let after = m.held(sched, mode, reason, app_id);
            &&& after.holds.len() == m.holds.len() + 1
            &&& forall|k: int| 0 <= k < m.holds.len() ==> #[trigger] after.holds[k] == m.holds[k]
            &&& after.holds.last().cookie == m.next_cookie
            &&& after.holds.last().scheduler == sched_text(sched)
            &&& after.holds.last().mode == mode_number(mode)
            &&& after.holds.last().reason == reason
            &&& after.holds.last().app_id == app_id
            &&& after.now.sched == Some(sched)
            &&& after.now.mode == mode
            &&& after.now.args is None
            &&& m.holds.len() == 0 ==> after.before == Some(m.now)
            &&& m.holds.len() > 0 ==> after.before == m.before
            &&& after.default_sched == m.default_sched
            &&& after.default_mode == m.default_mode
            &&& after.next_cookie == (m.next_cookie + 1) % 0x1_0000_0000
        }),
{
}

/// A cookie is found exactly where an active hold has it, and the hold that is
/// found is the earliest with it.
pub proof fn lemma_hold_found(m: LoaderModel, cookie: u32)
    ensures
        (exists|i: int| #[trigger] m.is_hold_at(cookie, i)) <==> (exists|i: int|
            0 <= i < m.holds.len() && (#[trigger] m.holds[i]).cookie == cookie),
        forall|i: int| #[trigger]
            m.is_hold_at(cookie, i) ==> 0 <= i < m.holds.len() && m.holds[i].cookie == cookie,
        forall|i: int, k: int|
            #[trigger] m.is_hold_at(cookie, i) && 0 <= k < m.holds.len() && (
            #[trigger] m.holds[k]).cookie == cookie ==> i <= k,
{
    if exists|i: int| 0 <= i < m.holds.len() && (#[trigger] m.holds[i]).cookie == cookie {
        let i = choose|i: int| 0 <= i < m.holds.len() && (#[trigger] m.holds[i]).cookie == cookie;
        let first = lemma_earliest(m, cookie, i);
    }
}

proof fn lemma_earliest(m: LoaderModel, cookie: u32, i: int) -> (first: int)
    requires
        0 <= i < m.holds.len(),
        m.holds[i].cookie == cookie,
    ensures
        m.is_hold_at(cookie, first),
    decreases i,
{
    if forall|k: int| 0 <= k < i ==> (#[trigger] m.holds[k]).cookie != cookie {
        i
    } else {
        let k = choose|k: int| 0 <= k < i && (#[trigger] m.holds[k]).cookie == cookie;
        lemma_earliest(m, cookie, k)
    }
}

/// A request other than for holds is granted exactly where the caller is authorized
/// and no hold is active. Want of authorization is reported before a hold is.
pub proof fn lemma_refusal(m: LoaderModel, reply: AuthReply, busy: Seq<char>)
    ensures
        m.refusal(reply, busy) is None <==> reply == Ok::<bool, String>(true) && m.holds.len() == 0,
        auth_refusal(reply) is None <==> reply == Ok::<bool, String>(true),
        reply == Ok::<bool, String>(true) && m.holds.len() > 0 ==> m.refusal(reply, busy) == Some(
            busy,
        ),
        reply == Ok::<bool, String>(false) ==> m.refusal(reply, busy) == Some("Not allowed!"@)
            && auth_refusal(reply) == Some("Not allowed!"@),
        reply matches Err(why) ==> m.refusal(reply, busy) == Some(why@) && auth_refusal(reply)
            == Some(why@),
{
}

/// A request that is granted changes what runs, and nothing else: a scheduler in a
/// mode runs without arguments, one with arguments in the automatic mode, and a stop
/// leaves nothing running.
pub proof fn lemma_granted(
    m: LoaderModel,
    sched: SupportedSched,
    mode: SchedMode,
    args: Seq<Seq<char>>,
)
    ensures
        m.in_mode(sched, mode).now == (StateModel { sched: Some(sched), mode, args: None }),
        m.with_args(sched, args).now == (StateModel {
            sched: Some(sched),
            mode: SchedMode::Auto,
            args: Some(args),
        }),
        m.idle().now.sched is None,
        m.idle().now.args is None,
        m.idle().now.mode == m.now.mode,
        m.in_mode(sched, mode) == (LoaderModel { now: m.in_mode(sched, mode).now, ..m }),
        m.with_args(sched, args) == (LoaderModel { now: m.with_args(sched, args).now, ..m }),
        m.idle() == (LoaderModel { now: m.idle().now, ..m }),
{
}

/// The message about a saved state says what was saved: a switch to its scheduler,
/// with its arguments or in its mode, and a stop where nothing ran. The state comes
/// back with it.
pub proof fn lemma_restoring(m: LoaderModel, saved: StateModel)
    requires
        saved.wf(),
    ensures
        match restoring(saved) {
            MessageModel::StopSched => saved.sched is None,
            MessageModel::SwitchSched(sched, mode) => saved == (StateModel {
                sched: Some(sched),
                mode,
                args: None,
            }),
            MessageModel::SwitchSchedArgs(sched, args) => saved == (StateModel {
                sched: Some(sched),
                mode: SchedMode::Auto,
                args: Some(args),
            }),
            _ => false,
        },
        m.restored(saved).now.sched == saved.sched,
        m.restored(saved).now.args == saved.args,
        saved.sched is Some ==> m.restored(saved).now == saved,
        saved.sched is None ==> m.restored(saved).now.mode == m.now.mode,
        m.restored(saved) == (LoaderModel { now: m.restored(saved).now, ..m }),
        tells(restoring(saved), m.now, m.restored(saved).now),
{
}

/// While holds are active, what runs is what the newest of them pins, without
/// arguments, and what ran before the first is remembered; without holds nothing
/// is.
pub proof fn lemma_newest_in_force(m: LoaderModel)
    requires
        m.wf(),
    ensures
        m.holds.len() > 0 ==> {
            &&& m.now.sched is Some
            &&& sched_text(m.now.sched->0) == m.holds.last().scheduler
            &&& mode_number(m.now.mode) == m.holds.last().mode
            &&& m.now.args is None
            &&& m.before is Some
        },
        m.holds.len() == 0 ==> m.before is None,
        m.now.args is Some ==> m.now.sched is Some && m.now.mode == SchedMode::Auto,
{
}

/// What the worker is told is what the loader notes: after a message, the loader
/// reports the scheduler, mode and arguments that the message names, or nothing
/// after a stop.
pub proof fn lemma_told(msg: MessageModel, a: StateModel, b: StateModel)
    requires
        tells(msg, a, b),
    ensures
        msg is StopSched ==> b.sched is None && b.args is None,
        msg matches MessageModel::StartSched(sched, mode) ==> b.sched == Some(sched) && b.mode
            == mode && b.args is None,
        msg matches MessageModel::SwitchSched(sched, mode) ==> b.sched == Some(sched) && b.mode
            == mode && b.args is None,
        msg matches MessageModel::StartSchedArgs(sched, args) ==> b.sched == Some(sched) && b.mode
            == SchedMode::Auto && b.args == Some(args),
        msg matches MessageModel::SwitchSchedArgs(sched, args) ==> b.sched == Some(sched) && b.mode
            == SchedMode::Auto && b.args == Some(args),
        msg matches MessageModel::RestartSched(sched, args, mode) ==> b == a && b.sched == Some(
            sched,
        ) && b.mode == mode && b.args == args,
        !(msg is Quit),
{
}

/// The model of the loader has its holds as they are, in order, and a cookie that no
/// hold has is named in the refusal.
pub proof fn lemma_holds_viewed(holds: Seq<HoldEntry>, cookie: u32)
    ensures
        hold_views(holds).len() == holds.len(),
        forall|i: int|
            0 <= i < holds.len() ==> {
                let seen = #[trigger] hold_views(holds)[i];
                &&& seen.cookie == holds[i].cookie
                &&& seen.scheduler == holds[i].scheduler@
                &&& seen.mode == holds[i].mode
                &&& seen.reason == holds[i].reason@
                &&& seen.app_id == holds[i].app_id@
            },
        no_such_hold(cookie) == "No active hold with cookie "@ + text::decimal_digits(
            cookie as nat,
        ),
{
}

} // verus!
