//! Access to a backend, with a record of what was asked and answered.
use vstd::prelude::*;

use crate::backend::{Capabilities, ModeArgs, RuntimeStatus, SchedulerBackend, Status};
use crate::sched::SchedMode;
use crate::text;

verus! {

/// A request to a backend, with the backend's answer.
pub enum Call {
    Label(&'static str),
    Capabilities(Capabilities),
    Token(Option<String>),
    Status(Result<Status, String>),
    Schedulers(Result<Vec<String>, String>),
    Cached(Result<Option<RuntimeStatus>, String>),
    ModeArgs(Seq<char>, Result<ModeArgs, String>),
    Start(Seq<char>, SchedMode, Result<(), String>),
    Switch(Seq<char>, SchedMode, Result<(), String>),
    StartWithArgs(Seq<char>, Seq<Seq<char>>, Result<(), String>),
    SwitchWithArgs(Seq<char>, Seq<Seq<char>>, Result<(), String>),
    Stop(Result<(), String>),
    Restart(Result<(), String>),
    RestoreDefault(Result<(), String>),
}

/// Whether `call` is a request that `backend` may answer as recorded.
pub open spec fn answered<B: SchedulerBackend>(backend: B, call: Call) -> bool {
    match call {
        Call::Label(r) => call_ensures(B::label, (&backend,), r),
        Call::Capabilities(r) => call_ensures(B::capabilities, (&backend,), r),
        Call::Token(r) => call_ensures(B::instance_token, (&backend,), r),
        Call::Status(r) => call_ensures(B::status, (&backend,), r),
        Call::Schedulers(r) => call_ensures(B::supported_schedulers, (&backend,), r),
        Call::Cached(r) => call_ensures(B::cached_status, (&backend,), r),
        Call::ModeArgs(name, r) => exists|n: &str|
            n@ == name && #[trigger] call_ensures(B::mode_args, (&backend, n), r),
        Call::Start(name, mode, r) => exists|n: &str|
            n@ == name && #[trigger] call_ensures(B::start, (&backend, n, mode), r),
        Call::Switch(name, mode, r) => exists|n: &str|
            n@ == name && #[trigger] call_ensures(B::switch, (&backend, n, mode), r),
        Call::StartWithArgs(name, args, r) => exists|n: &str, a: &[String]|
            n@ == name && text::views(a@) == args && #[trigger] call_ensures(
                B::start_with_args,
                (&backend, n, a),
                r,
            ),
        Call::SwitchWithArgs(name, args, r) => exists|n: &str, a: &[String]|
            n@ == name && text::views(a@) == args && #[trigger] call_ensures(
                B::switch_with_args,
                (&backend, n, a),
                r,
            ),
        Call::Stop(r) => call_ensures(B::stop, (&backend,), r),
        Call::Restart(r) => call_ensures(B::restart, (&backend,), r),
        Call::RestoreDefault(r) => call_ensures(B::restore_default, (&backend,), r),
    }
}

/// A backend with a record of the requests made of it. Requests for display only
/// are left out of the record.
pub struct Driver<B> {
    backend: B,
    log: Ghost<Seq<Call>>,
}

impl<B: SchedulerBackend> Driver<B> {
    pub closed spec fn backend(self) -> B {
        self.backend
    }

    /// The requests recorded so far, oldest first.
    pub closed spec fn log(self) -> Seq<Call> {
        self.log@
    }

    /// Whether the record holds nothing but answers of the backend.
    pub open spec fn honest(self) -> bool {
        forall|i: int|
            0 <= i < self.log().len() ==> answered(self.backend(), #[trigger] self.log()[i])
    }

    /// The driver after one more request.
    pub open spec fn asked(self, call: Call, after: Self) -> bool {
        &&& after.backend() == self.backend()
        &&& after.log() == self.log().push(call)
        &&& answered(self.backend(), call)
    }

    proof fn lemma_honest(before: Self, call: Call, after: Self)
        requires
            before.asked(call, after),
        ensures
            before.honest() ==> after.honest(),
    {
        if before.honest() {
            assert forall|i: int| 0 <= i < after.log().len() implies answered(
                after.backend(),
                #[trigger] after.log()[i],
            ) by {
                if i < before.log().len() {
                    assert(after.log()[i] == before.log()[i]);
                }
            }
        }
    }

    pub fn new(backend: B) -> (driver: Self)
        ensures
            driver.backend() == backend,
            driver.log() == Seq::<Call>::empty(),
            driver.honest(),
    {
        Driver { backend, log: Ghost(Seq::empty()) }
    }

    /// The backend's name, asked for display only and not recorded.
    pub fn peek_label(&self) -> (r: &'static str)
        ensures
            answered(self.backend(), Call::Label(r)),
    {
        self.backend.label()
    }

    /// What the backend can do, asked for display only and not recorded.
    pub fn peek_capabilities(&self) -> (r: Capabilities)
        ensures
            answered(self.backend(), Call::Capabilities(r)),
    {
        self.backend.capabilities()
    }

    // One method for each request, which is recorded with its answer.

    pub fn label(&mut self) -> (r: &'static str)
        ensures
            old(self).asked(Call::Label(r), *final(self)),
            old(self).honest() ==> final(self).honest(),
    {
        let r = self.backend.label();
        let ghost call = Call::Label(r);
        assert(answered(self.backend, call));
        self.log = Ghost(self.log@.push(call));
        proof {
            Self::lemma_honest(*old(self), call, *self);
        }
        r
    }

    pub fn capabilities(&mut self) -> (r: Capabilities)
        ensures
            old(self).asked(Call::Capabilities(r), *final(self)),
            old(self).honest() ==> final(self).honest(),
    {
        let r = self.backend.capabilities();
        let ghost call = Call::Capabilities(r);
        assert(answered(self.backend, call));
        self.log = Ghost(self.log@.push(call));
        proof {
            Self::lemma_honest(*old(self), call, *self);
        }
        r
    }

    pub fn instance_token(&mut self) -> (r: Option<String>)
        ensures
            old(self).asked(Call::Token(r), *final(self)),
            old(self).honest() ==> final(self).honest(),
    {
        let r = self.backend.instance_token();
        let ghost call = Call::Token(r);
        assert(answered(self.backend, call));
        self.log = Ghost(self.log@.push(call));
        proof {
            Self::lemma_honest(*old(self), call, *self);
        }
        r
    }

    pub fn status(&mut self) -> (r: Result<Status, String>)
        ensures
            old(self).asked(Call::Status(r), *final(self)),
            old(self).honest() ==> final(self).honest(),
    {
        let r = self.backend.status();
        let ghost call = Call::Status(r);
        assert(answered(self.backend, call));
        self.log = Ghost(self.log@.push(call));
        proof {
            Self::lemma_honest(*old(self), call, *self);
        }
        r
    }

    pub fn supported_schedulers(&mut self) -> (r: Result<Vec<String>, String>)
        ensures
            old(self).asked(Call::Schedulers(r), *final(self)),
            old(self).honest() ==> final(self).honest(),
    {
        let r = self.backend.supported_schedulers();
        let ghost call = Call::Schedulers(r);
        assert(answered(self.backend, call));
        self.log = Ghost(self.log@.push(call));
        proof {
            Self::lemma_honest(*old(self), call, *self);
        }
        r
    }

    pub fn cached_status(&mut self) -> (r: Result<Option<RuntimeStatus>, String>)
        ensures
            old(self).asked(Call::Cached(r), *final(self)),
            old(self).honest() ==> final(self).honest(),
    {
        let r = self.backend.cached_status();
        let ghost call = Call::Cached(r);
        assert(answered(self.backend, call));
        self.log = Ghost(self.log@.push(call));
        proof {
            Self::lemma_honest(*old(self), call, *self);
        }
        r
    }

    pub fn mode_args(&mut self, sched: &str) -> (r: Result<ModeArgs, String>)
        ensures
            old(self).asked(Call::ModeArgs(sched@, r), *final(self)),
            old(self).honest() ==> final(self).honest(),
    {
        let r = self.backend.mode_args(sched);
        let ghost call = Call::ModeArgs(sched@, r);
        assert(answered(self.backend, call));
        self.log = Ghost(self.log@.push(call));
        proof {
            Self::lemma_honest(*old(self), call, *self);
        }
        r
    }

    pub fn start(&mut self, sched: &str, mode: SchedMode) -> (r: Result<(), String>)
        ensures
            old(self).asked(Call::Start(sched@, mode, r), *final(self)),
            old(self).honest() ==> final(self).honest(),
    {
        let r = self.backend.start(sched, mode);
        let ghost call = Call::Start(sched@, mode, r);
        assert(answered(self.backend, call));
        self.log = Ghost(self.log@.push(call));
        proof {
            Self::lemma_honest(*old(self), call, *self);
        }
        r
    }

    pub fn switch(&mut self, sched: &str, mode: SchedMode) -> (r: Result<(), String>)
        ensures
            old(self).asked(Call::Switch(sched@, mode, r), *final(self)),
            old(self).honest() ==> final(self).honest(),
    {
        let r = self.backend.switch(sched, mode);
        let ghost call = Call::Switch(sched@, mode, r);
        assert(answered(self.backend, call));
        self.log = Ghost(self.log@.push(call));
        proof {
            Self::lemma_honest(*old(self), call, *self);
        }
        r
    }

    pub fn start_with_args(&mut self, sched: &str, args: &[String]) -> (r: Result<(), String>)
        ensures
            old(self).asked(Call::StartWithArgs(sched@, text::views(args@), r), *final(self)),
            old(self).honest() ==> final(self).honest(),
    {
        let r = self.backend.start_with_args(sched, args);
        let ghost call = Call::StartWithArgs(sched@, text::views(args@), r);
        assert(answered(self.backend, call));
        self.log = Ghost(self.log@.push(call));
        proof {
            Self::lemma_honest(*old(self), call, *self);
        }
        r
    }

    pub fn switch_with_args(&mut self, sched: &str, args: &[String]) -> (r: Result<(), String>)
        ensures
            old(self).asked(Call::SwitchWithArgs(sched@, text::views(args@), r), *final(self)),
            old(self).honest() ==> final(self).honest(),
    {
        let r = self.backend.switch_with_args(sched, args);
        let ghost call = Call::SwitchWithArgs(sched@, text::views(args@), r);
        assert(answered(self.backend, call));
        self.log = Ghost(self.log@.push(call));
        proof {
            Self::lemma_honest(*old(self), call, *self);
        }
        r
    }

    pub fn stop(&mut self) -> (r: Result<(), String>)
        ensures
            old(self).asked(Call::Stop(r), *final(self)),
            old(self).honest() ==> final(self).honest(),
    {
        let r = self.backend.stop();
        let ghost call = Call::Stop(r);
        assert(answered(self.backend, call));
        self.log = Ghost(self.log@.push(call));
        proof {
            Self::lemma_honest(*old(self), call, *self);
        }
        r
    }

    pub fn restart(&mut self) -> (r: Result<(), String>)
        ensures
            old(self).asked(Call::Restart(r), *final(self)),
            old(self).honest() ==> final(self).honest(),
    {
        let r = self.backend.restart();
        let ghost call = Call::Restart(r);
        assert(answered(self.backend, call));
        self.log = Ghost(self.log@.push(call));
        proof {
            Self::lemma_honest(*old(self), call, *self);
        }
        r
    }

    pub fn restore_default(&mut self) -> (r: Result<(), String>)
        ensures
            old(self).asked(Call::RestoreDefault(r), *final(self)),
            old(self).honest() ==> final(self).honest(),
    {
        let r = self.backend.restore_default();
        let ghost call = Call::RestoreDefault(r);
        assert(answered(self.backend, call));
        self.log = Ghost(self.log@.push(call));
        proof {
            Self::lemma_honest(*old(self), call, *self);
        }
        r
    }
}

/// What is recorded as an answer to a request is what the backend may answer when
/// that very request is made of it, with the recorded arguments.
pub proof fn lemma_answered<B: SchedulerBackend>(backend: B, call: Call)
    requires
        answered(backend, call),
    ensures
        match call {
            Call::Label(r) => call_ensures(B::label, (&backend,), r),
            Call::Capabilities(r) => call_ensures(B::capabilities, (&backend,), r),
            Call::Token(r) => call_ensures(B::instance_token, (&backend,), r),
            Call::Status(r) => call_ensures(B::status, (&backend,), r),
            Call::Schedulers(r) => call_ensures(B::supported_schedulers, (&backend,), r),
            Call::Cached(r) => call_ensures(B::cached_status, (&backend,), r),
            Call::ModeArgs(name, r) => exists|n: &str|
                n@ == name && #[trigger] call_ensures(B::mode_args, (&backend, n), r),
            Call::Start(name, mode, r) => exists|n: &str|
                n@ == name && #[trigger] call_ensures(B::start, (&backend, n, mode), r),
            Call::Switch(name, mode, r) => exists|n: &str|
                n@ == name && #[trigger] call_ensures(B::switch, (&backend, n, mode), r),
            Call::StartWithArgs(name, list, r) => exists|n: &str, a: &[String]|
                n@ == name && text::views(a@) == list && #[trigger] call_ensures(
                    B::start_with_args,
                    (&backend, n, a),
                    r,
                ),
            Call::SwitchWithArgs(name, list, r) => exists|n: &str, a: &[String]|
                n@ == name && text::views(a@) == list && #[trigger] call_ensures(
                    B::switch_with_args,
                    (&backend, n, a),
                    r,
                ),
            Call::Stop(r) => call_ensures(B::stop, (&backend,), r),
            Call::Restart(r) => call_ensures(B::restart, (&backend,), r),
            Call::RestoreDefault(r) => call_ensures(B::restore_default, (&backend,), r),
        },
{
}

/// A request leaves the backend and the record of earlier requests as they were, and
/// adds itself behind them.
pub proof fn lemma_recorded<B: SchedulerBackend>(a: Driver<B>, call: Call, b: Driver<B>)
    requires
        a.asked(call, b),
    ensures
        b.backend() == a.backend(),
        b.log().len() == a.log().len() + 1,
        b.log().last() == call,
        forall|i: int| 0 <= i < a.log().len() ==> #[trigger] b.log()[i] == a.log()[i],
        answered(a.backend(), call),
        a.honest() ==> b.honest(),
{
    Driver::lemma_honest(a, call, b);
}

} // verus!
