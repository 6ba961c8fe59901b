//! Keeping the state in step with the backend.
use vstd::prelude::*;

use crate::app::{said, App};
use crate::backend::{ModeArgs, RuntimeStatus, SchedulerBackend, Status};
use crate::driver::Call;
use crate::notices;
use crate::text;

verus! {

/// Outcome of a daemon instance-token check.
#[derive(Debug, Clone, Copy, PartialEq, Eq, Structural)]
pub enum DaemonInstance {
    /// Owner resolved and matches the previously observed instance.
    Same,
    /// Owner resolved to a different instance than previously observed.
    Replaced,
    /// Owner could not be resolved: the daemon is down, or a transient hiccup.
    Unknown,
}

/// One refresh's fetch result and token check; trust needs both.
#[derive(Debug, Clone, Copy, PartialEq, Eq, Structural)]
pub struct RefreshOutcome {
    pub instance: DaemonInstance,
    pub status_ok: bool,
}

/// The known modes after an answer: a failed query is not stored.
pub open spec fn stored(
    known: Map<Seq<char>, ModeArgs>,
    name: Seq<char>,
    answer: Result<ModeArgs, String>,
) -> Map<Seq<char>, ModeArgs> {
    match answer {
        Ok(modes) => known.insert(name, modes),
        Err(_) => known,
    }
}

/// What a token says about the instance seen before.
pub open spec fn instance_of(seen: Option<String>, token: Option<String>) -> DaemonInstance {
    match token {
        None => DaemonInstance::Unknown,
        Some(token) => match seen {
            Some(old) => if old@ == token@ {
                DaemonInstance::Same
            } else {
                DaemonInstance::Replaced
            },
            None => DaemonInstance::Same,
        },
    }
}

/// The state that one request leads to when its answer is only looked at.
pub open spec fn looked<B: SchedulerBackend>(a: App<B>, call: Call, b: App<B>) -> bool {
    &&& a.backend.asked(call, b.backend)
    &&& b == (App { backend: b.backend, ..a })
}

/// The scheduler whose modes are still to be asked for.
pub open spec fn modes_wanted<B: SchedulerBackend>(a: App<B>) -> Option<Seq<char>> {
    match a.chosen() {
        Some(name) => if a.mode_args@.contains_key(name) {
            None
        } else {
            Some(name)
        },
        None => None,
    }
}

/// Filling in the modes of the selected scheduler leads from `a` to `b`: they are
/// asked for where the backend has modes and the answer is not known yet.
pub open spec fn modes_refreshed<B: SchedulerBackend>(a: App<B>, b: App<B>) -> bool {
    let calls = a.calls_until(b);
    &&& a.continued_by(b)
    &&& b == (App { backend: b.backend, mode_args: b.mode_args, ..a })
    &&& calls.len() >= 1
    &&& calls[0] matches Call::Capabilities(caps)
    &&& match (caps.modes, modes_wanted(a)) {
        (true, Some(name)) => {
            &&& calls.len() == 2
            &&& calls[1] matches Call::ModeArgs(asked, answer)
            &&& asked == name
            &&& b.mode_args@ == stored(a.mode_args@, name, answer)
        },
        _ => calls.len() == 1 && b.mode_args@ == a.mode_args@,
    }
}

/// Reading the instance token leads from `a` to `b`, before any modes are asked
/// for anew.
pub open spec fn token_read<B: SchedulerBackend>(
    a: App<B>,
    token: Option<String>,
    b: App<B>,
) -> bool {
    &&& a.backend.asked(Call::Token(token), b.backend)
    &&& match instance_of(a.daemon_instance, token) {
        DaemonInstance::Unknown => b == (App {
            backend: b.backend,
            pushed: None,
            push_confirmed: false,
            ..a
        }),
        DaemonInstance::Replaced => {
            &&& b.mode_args@ == Map::<Seq<char>, ModeArgs>::empty()
            &&& b == (App {
                backend: b.backend,
                mode_args: b.mode_args,
                daemon_instance: token,
                pushed: None,
                push_confirmed: false,
                ..a
            })
        },
        DaemonInstance::Same => b == (App { backend: b.backend, daemon_instance: token, ..a }),
    }
}

/// The check of the daemon instance leads from `a` to `b`, with that outcome. A
/// replaced daemon is asked for the modes of the selected scheduler at once.
pub open spec fn instance_checked<B: SchedulerBackend>(
    a: App<B>,
    b: App<B>,
    outcome: DaemonInstance,
) -> bool {
    exists|token: Option<String>, n: App<B>|
        {
            &&& #[trigger] token_read(a, token, n)
            &&& outcome == instance_of(a.daemon_instance, token)
            &&& if outcome == DaemonInstance::Replaced {
                modes_refreshed(n, b)
            } else {
                b == n
            }
        }
}

/// Fetching the status leads from `a` to `b`.
pub open spec fn status_read<B: SchedulerBackend>(
    a: App<B>,
    answer: Result<Status, String>,
    b: App<B>,
) -> bool {
    &&& a.backend.asked(Call::Status(answer), b.backend)
    &&& b == (App { backend: b.backend, status: answer.ok(), ..a })
}

/// A refresh of the status leads from `a` to `b`, with that outcome.
pub open spec fn status_refreshed<B: SchedulerBackend>(
    a: App<B>,
    b: App<B>,
    outcome: RefreshOutcome,
) -> bool {
    exists|answer: Result<Status, String>, n: App<B>|
        {
            &&& #[trigger] status_read(a, answer, n)
            &&& outcome.status_ok == (answer is Ok)
            &&& instance_checked(n, b, outcome.instance)
        }
}

/// Whether a snapshot reports what the last one did.
pub open spec fn unmoved(pushed: Option<RuntimeStatus>, now: RuntimeStatus) -> bool {
    pushed matches Some(p) && p@ == now@
}

/// A moved snapshot leads from `a` to `b`: one refresh, and a new baseline.
pub open spec fn bell_rung<B: SchedulerBackend>(a: App<B>, now: RuntimeStatus, b: App<B>) -> bool {
    exists|m: App<B>, outcome: RefreshOutcome|
        {
            &&& #[trigger] status_refreshed(a, m, outcome)
            &&& b == (App {
                pushed: Some(now),
                push_confirmed: outcome.status_ok && outcome.instance == DaemonInstance::Same,
                ..m
            })
        }
}

/// What a read of the push channel leads to.
pub open spec fn push_taken<B: SchedulerBackend>(
    a: App<B>,
    answer: Result<Option<RuntimeStatus>, String>,
    b: App<B>,
) -> bool {
    match answer {
        Err(_) => if a.pushed is Some {
            b == (App { pushed: None, push_confirmed: false, ..a })
        } else {
            b == a
        },
        Ok(None) => b == a,
        Ok(Some(now)) => if unmoved(a.pushed, now) {
            b == a
        } else if a.pushed is None {
            b == (App { pushed: Some(now), ..a })
        } else {
            bell_rung(a, now, b)
        },
    }
}

/// A look at the push channel leads from `a` to `b`.
pub open spec fn push_applied<B: SchedulerBackend>(a: App<B>, b: App<B>) -> bool {
    exists|answer: Result<Option<RuntimeStatus>, String>, n: App<B>|
        {
            &&& #[trigger] looked(a, Call::Cached(answer), n)
            &&& push_taken(n, answer, b)
        }
}

/// What a new list of schedulers leads to. The selection survives by name where
/// possible; on a failed query the old list stays.
pub open spec fn list_taken<B: SchedulerBackend>(
    a: App<B>,
    answer: Result<Vec<String>, String>,
    now: u64,
    b: App<B>,
) -> bool {
    match answer {
        Ok(list) => b == (App {
            schedulers: list,
            selected: match a.chosen() {
                Some(name) => match text::views(list@).index_of_first(name) {
                    Some(i) => i as usize,
                    None => 0,
                },
                None => 0,
            },
            ..a
        }),
        Err(why) => {
            &&& said(b.message, notices::list_failed_text(why@), true, now)
            &&& b == (App { message: b.message, ..a })
        },
    }
}

/// A refresh of the scheduler list leads from `a` to `b`.
pub open spec fn list_refreshed<B: SchedulerBackend>(
    a: App<B>,
    now: u64,
    b: App<B>,
    ok: bool,
) -> bool {
    exists|answer: Result<Vec<String>, String>, n: App<B>|
        {
            &&& #[trigger] looked(a, Call::Schedulers(answer), n)
            &&& ok == (answer is Ok)
            &&& list_taken(n, answer, now, b)
        }
}

impl<B: SchedulerBackend> App<B> {
    /// Stores an answer about the modes of a scheduler. A failed query is not
    /// stored: an absent entry reads as "unknown", and the next one retries.
    pub fn store_modes(&mut self, sched: String, answer: Result<ModeArgs, String>)
        ensures
            final(self).mode_args@ == stored(old(self).mode_args@, sched@, answer),
            *final(self) == (App { mode_args: final(self).mode_args, ..*old(self) }),
    {
        if let Ok(modes) = answer {
            self.mode_args.insert(sched, modes);
        }
    }

    /// Fills in the modes of the selected scheduler where they are not known.
    pub fn refresh_modes(&mut self)
        requires
            old(self).wf(),
        ensures
            modes_refreshed(*old(self), *final(self)),
            final(self).wf(),
    {
        let ghost a = *self;
        let caps = self.backend.capabilities();
        proof {
            assert(a.calls_until(*self) =~= seq![Call::Capabilities(caps)]);
            assert(self.log().take(a.log().len() as int) =~= a.log());
        }
        if !caps.modes {
            return ;
        }
        let sched = match self.selected_name() {
            Some(sched) => sched,
            None => {
                return ;
            },
        };
        if self.mode_args.contains_key(sched.as_str()) {
            return ;
        }
        let answer = self.backend.mode_args(sched.as_str());
        proof {
            assert(a.calls_until(*self) =~= seq![
                Call::Capabilities(caps),
                Call::ModeArgs(sched@, answer),
            ]);
            assert(self.log().take(a.log().len() as int) =~= a.log());
        }
        self.store_modes(sched, answer);
    }

    /// Takes over an instance token. Configuration answers belong to one instance,
    /// and so does the confirmation of the push channel; an unknown owner drops
    /// only the confirmation.
    pub fn take_token(&mut self, token: Option<String>) -> (outcome: DaemonInstance)
        ensures
            outcome == instance_of(old(self).daemon_instance, token),
            match outcome {
                DaemonInstance::Unknown => *final(self) == (App {
                    pushed: None,
                    push_confirmed: false,
                    ..*old(self)
                }),
                DaemonInstance::Replaced => {
                    &&& final(self).mode_args@ == Map::<Seq<char>, ModeArgs>::empty()
                    &&& *final(self) == (App {
                        mode_args: final(self).mode_args,
                        daemon_instance: token,
                        pushed: None,
                        push_confirmed: false,
                        ..*old(self)
                    })
                },
                DaemonInstance::Same => *final(self) == (App {
                    daemon_instance: token,
                    ..*old(self)
                }),
            },
    {
        let token = match token {
            Some(token) => token,
            None => {
                self.pushed = None;
                self.push_confirmed = false;
                return DaemonInstance::Unknown;
            },
        };
        let replaced = match &self.daemon_instance {
            Some(seen) => !text::text_eq(seen.as_str(), token.as_str()),
            None => false,
        };
        self.daemon_instance = Some(token);
        if replaced {
            self.mode_args.clear();
            self.pushed = None;
            self.push_confirmed = false;
            DaemonInstance::Replaced
        } else {
            DaemonInstance::Same
        }
    }

    /// Checks which daemon instance answers.
    pub fn check_daemon_instance(&mut self) -> (outcome: DaemonInstance)
        requires
            old(self).wf(),
        ensures
            instance_checked(*old(self), *final(self), outcome),
            final(self).wf(),
    {
        let ghost a = *self;
        let token = self.backend.instance_token();
        let outcome = self.take_token(token);
        assert(token_read(a, token, *self));
        if outcome == DaemonInstance::Replaced {
            self.refresh_modes();
        }
        outcome
    }

    /// Fetches the status and checks the daemon instance.
    pub fn refresh_status(&mut self) -> (outcome: RefreshOutcome)
        requires
            old(self).wf(),
        ensures
            status_refreshed(*old(self), *final(self), outcome),
            final(self).wf(),
    {
        let ghost a = *self;
        let answer = self.backend.status();
        let status_ok = answer.is_ok();
        let ghost fetched = answer;
        self.status = answer.ok();
        assert(status_read(a, fetched, *self));
        RefreshOutcome { instance: self.check_daemon_instance(), status_ok }
    }

    /// Acts on an answer of the push channel.
    pub fn take_push(&mut self, answer: Result<Option<RuntimeStatus>, String>)
        requires
            old(self).wf(),
        ensures
            push_taken(*old(self), answer, *final(self)),
            final(self).wf(),
    {
        let ghost a = *self;
        let now = match answer {
            Ok(Some(now)) => now,
            Ok(None) => {
                return ;
            },
            Err(_) => {
                if self.pushed.is_some() {
                    self.pushed = None;
                    self.push_confirmed = false;
                }
                return ;
            },
        };
        match &self.pushed {
            Some(last) => {
                if last.same(&now) {
                    return ;
                }
            },
            None => {
                self.pushed = Some(now);
                return ;
            },
        }
        let outcome = self.refresh_status();
        let ghost m = *self;
        self.pushed = Some(now);
        self.push_confirmed = outcome.status_ok && outcome.instance == DaemonInstance::Same;
        assert(status_refreshed(a, m, outcome));
    }

    /// Looks at the push channel. It is a doorbell, never payload: a movement
    /// triggers one authoritative refresh and only that answer reaches the
    /// display; the poll relaxes only on a movement under the same owner.
    pub fn apply_pushed_status(&mut self)
        requires
            old(self).wf(),
        ensures
            push_applied(*old(self), *final(self)),
            final(self).wf(),
    {
        let ghost a = *self;
        let answer = self.backend.cached_status();
        assert(looked(a, Call::Cached(answer), *self));
        self.take_push(answer);
    }

    /// Takes over a new list of schedulers, or reports why there is none.
    pub fn take_schedulers(&mut self, answer: Result<Vec<String>, String>, now: u64)
        requires
            old(self).wf(),
        ensures
            list_taken(*old(self), answer, now, *final(self)),
            final(self).wf(),
    {
        match answer {
            Ok(list) => {
                let at = match self.selected_name() {
                    Some(name) => match text::position(&list, name.as_str()) {
                        Some(i) => i,
                        None => 0,
                    },
                    None => 0,
                };
                self.selected = at;
                self.schedulers = list;
            },
            Err(why) => {
                let text = notices::list_failed_notice(why.as_str());
                self.error(text.as_str(), now);
            },
        }
    }

    /// Re-enumerates the schedulers.
    pub fn refresh_schedulers(&mut self, now: u64) -> (ok: bool)
        requires
            old(self).wf(),
        ensures
            list_refreshed(*old(self), now, *final(self), ok),
            final(self).wf(),
    {
        let ghost a = *self;
        let answer = self.backend.supported_schedulers();
        assert(looked(a, Call::Schedulers(answer), *self));
        let ok = answer.is_ok();
        self.take_schedulers(answer, now);
        ok
    }
}

} // verus!
