//! The decisions of the event loop.
use vstd::prelude::*;

use crate::actions::{performed, primed, ActionRest};
use crate::app::{message_due, App};
use crate::backend::SchedulerBackend;
use crate::refresh::{push_applied, status_refreshed, RefreshOutcome};

verus! {

/// What the loop does after a frame has been drawn.
#[derive(Debug, Clone, Copy, PartialEq, Eq, Structural)]
pub enum LoopStep {
    /// The first fetch or an action is done: mark the time and draw again.
    Redraw,
    /// Connect to the other backend, then mark the time and draw again.
    Toggle,
    /// Run the monitor program, then mark the time and draw again.
    Monitor,
    /// Wait for a key for at most a tick.
    Poll,
}

/// The event loop's own state.
#[derive(Debug)]
pub struct RunLoop {
    /// Whether the first fetch has been made.
    pub primed: bool,
    /// When the status was last refreshed, in milliseconds.
    pub last_refresh: u64,
}

/// The step that the rest of an action leads to.
pub open spec fn step_of(rest: ActionRest) -> LoopStep {
    match rest {
        ActionRest::Done => LoopStep::Redraw,
        ActionRest::Toggle => LoopStep::Toggle,
        ActionRest::Monitor => LoopStep::Monitor,
    }
}

/// The state with a message that has been shown long enough gone, and the queued
/// action taken off.
pub open spec fn action_taken<B: SchedulerBackend>(a: App<B>, now: u64) -> App<B> {
    App {
        message: if message_due(a.message, now) {
            None
        } else {
            a.message
        },
        pending_action: None,
        ..a
    }
}

/// What follows a frame leads from `a` to `b`: the first fetch after the first
/// frame, and a queued action only after the frame that announces it.
pub open spec fn drawn<B: SchedulerBackend>(
    was_primed: bool,
    a: App<B>,
    now: u64,
    b: App<B>,
    step: LoopStep,
) -> bool {
    if !was_primed {
        step == LoopStep::Redraw && primed(a, b)
    } else {
        match a.pending_action {
            Some(action) => exists|rest: ActionRest| #[trigger]
                performed(action_taken(a, now), action, now, b, rest) && step == step_of(rest),
            None => step == LoopStep::Poll && b == action_taken(a, now),
        }
    }
}

/// Whether the periodic refresh is due.
pub open spec fn refresh_due(last: u64, interval: u64, now: u64) -> bool {
    now >= last + interval
}

/// A tick leads from `a` to `b`: a look at the push channel, which never defers
/// the periodic refresh, and that refresh where it is due.
pub open spec fn ticked<B: SchedulerBackend>(
    last: u64,
    a: App<B>,
    now: u64,
    b: App<B>,
    refreshed: bool,
) -> bool {
    exists|m: App<B>|
        {
            &&& #[trigger] push_applied(a, m)
            &&& refreshed == refresh_due(
                last,
                if m.push_confirmed {
                    crate::app::SAFETY_REFRESH
                } else {
                    crate::app::REFRESH_EVERY
                },
                now,
            )
            &&& if refreshed {
                exists|outcome: RefreshOutcome| status_refreshed(m, b, outcome)
            } else {
                b == m
            }
        }
}

impl RunLoop {
    pub fn new(now: u64) -> (run: Self)
        ensures
            run == (RunLoop { primed: false, last_refresh: now }),
    {
        RunLoop { primed: false, last_refresh: now }
    }

    /// Notes that the state is fresh.
    pub fn mark(&mut self, now: u64)
        ensures
            *final(self) == (RunLoop { last_refresh: now, ..*old(self) }),
    {
        self.last_refresh = now;
    }

    /// Goes on after a frame has been drawn.
    pub fn after_draw<B: SchedulerBackend>(&mut self, app: &mut App<B>, now: u64) -> (step:
        LoopStep)
        requires
            old(app).wf(),
        ensures
            *final(self) == (RunLoop { primed: true, ..*old(self) }),
            drawn(old(self).primed, *old(app), now, *final(app), step),
            final(app).wf(),
    {
        if !self.primed {
            self.primed = true;
            app.prime();
            return LoopStep::Redraw;
        }
        let ghost a = *app;
        app.expire_message(now);
        match app.pending_action.take() {
            Some(action) => {
                let ghost taken = action;
                assert(*app == action_taken(a, now));
                let rest = app.run_action(action, now);
                assert(performed(action_taken(a, now), taken, now, *app, rest));
                match rest {
                    ActionRest::Done => LoopStep::Redraw,
                    ActionRest::Toggle => LoopStep::Toggle,
                    ActionRest::Monitor => LoopStep::Monitor,
                }
            },
            None => LoopStep::Poll,
        }
    }

    /// Goes on after a wait for a key. Tells whether the status was refreshed, and
    /// the time is to be marked.
    pub fn tick<B: SchedulerBackend>(&self, app: &mut App<B>, now: u64) -> (refreshed: bool)
        requires
            old(app).wf(),
        ensures
            ticked(self.last_refresh, *old(app), now, *final(app), refreshed),
            final(app).wf(),
    {
        let ghost a = *app;
        app.apply_pushed_status();
        let ghost m = *app;
        assert(push_applied(a, m));
        let due = now >= self.last_refresh && now - self.last_refresh >= app.refresh_interval();
        if due {
            let outcome = app.refresh_status();
            assert(status_refreshed(m, *app, outcome));
        }
        due
    }
}

} // verus!
