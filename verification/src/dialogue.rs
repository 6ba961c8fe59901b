//! What a command says to the loader from its first request to its last.
use vstd::prelude::*;

use crate::args;
use crate::cli::{StartArgs, SwitchArgs};
use crate::ctl::{
    args_expansion, fits, known_as, lemma_waits_for_reply, listed, replied, resolution,
    switches, Ask, Deed, Next, Order, Reply, Talk, Turn,
};
use crate::report::Style;
use crate::sched::{
    lemma_sched_text_injective, mode_title, names_sched, sched_text, sched_title, SchedMode,
    SchedNameError, SupportedSched, SCHED_PREFIX, UNKNOWN,
};
use crate::text;

verus! {

/// A request, what is waited for, the reply and what it leads to.
pub struct Exchange {
    pub ask: Ask,
    pub talk: Talk,
    pub reply: Reply,
    pub turn: Turn,
}

/// Whether each exchange follows on the one before.
pub open spec fn conversation(steps: Seq<Exchange>) -> bool {
    &&& forall|i: int|
        0 <= i < steps.len() ==> fits((#[trigger] steps[i]).talk, steps[i].reply) && replied(
            steps[i].talk,
            steps[i].reply,
            steps[i].turn,
        )
    &&& forall|i: int|
        0 < i < steps.len() ==> steps[i - 1].turn.next == Next::Ask(
            (#[trigger] steps[i]).ask,
            steps[i].talk,
        )
}

/// What a user wants to run.
pub struct Wish {
    pub order: Order,
    /// The scheduler; `None` for the one that runs.
    pub name: Option<Seq<char>>,
    pub mode: Option<SchedMode>,
    pub args: Option<Vec<String>>,
}

/// The wish behind a start.
pub open spec fn start_wish(request: StartArgs) -> Wish {
    Wish {
        order: Order::Start,
        name: Some(request.sched@),
        mode: request.mode,
        args: request.args,
    }
}

/// The wish behind a switch.
pub open spec fn switch_wish(request: SwitchArgs) -> Wish {
    Wish {
        order: Order::Switch,
        name: text::opt_view(request.sched),
        mode: request.mode,
        args: request.args,
    }
}

/// Whether a conversation opens with a wish.
pub open spec fn opens_with(steps: Seq<Exchange>, wish: Wish) -> bool {
    &&& steps.len() > 0
    &&& steps[0].ask is CurrentScheduler
    &&& match steps[0].talk {
        Talk::Start(request) => wish == start_wish(request),
        Talk::Switch(request) => wish == switch_wish(request),
        _ => false,
    }
}

/// The scheduler that the loader named in its first reply.
pub open spec fn named_first(steps: Seq<Exchange>) -> Option<Seq<char>> {
    match steps[0].reply {
        Reply::Text(current) => Some(current@),
        _ => None,
    }
}

/// Whether a name is the given one, or the given one behind the prefix of all
/// schedulers.
pub open spec fn full_or_short(full: Seq<char>, given: Seq<char>) -> bool {
    full == given || full == "scx_"@ + given
}

/// Whether a reply lists the given name.
pub open spec fn offers(reply: Reply, given: Seq<char>) -> bool {
    reply matches Reply::Names(list) && exists|i: int|
        0 <= i < list@.len() && full_or_short((#[trigger] list@[i])@, given)
}

/// Whether the loader, asked for its schedulers before the `n`th exchange, listed
/// the given name.
pub open spec fn offered(steps: Seq<Exchange>, n: int, given: Seq<char>) -> bool {
    exists|j: int| 0 < j < n && (#[trigger] steps[j]).ask is Supported && offers(steps[j].reply, given)
}

/// Whether `sched` is what the wish names: the running scheduler, or the one with
/// the given name, which the loader offers.
pub open spec fn wished_sched(
    steps: Seq<Exchange>,
    n: int,
    wish: Wish,
    sched: SupportedSched,
) -> bool {
    match wish.name {
        None => named_first(steps) == Some(sched_text(sched)),
        Some(given) => full_or_short(sched_text(sched), given) && offered(steps, n, given),
    }
}

/// Whether the loader, asked for its mode before the `n`th exchange, replied so.
pub open spec fn mode_replied(steps: Seq<Exchange>, n: int, mode: SchedMode) -> bool {
    exists|j: int|
        0 < j < n && (#[trigger] steps[j]).ask is CurrentMode && steps[j].reply == Reply::Mode(mode)
}

/// Whether `mode` is what the wish comes to: the mode that was asked for; without
/// one, the automatic mode for a scheduler that does not run yet, and the mode that
/// the loader replied for the one that does.
pub open spec fn wished_mode(
    steps: Seq<Exchange>,
    n: int,
    wish: Wish,
    sched: SupportedSched,
    mode: SchedMode,
) -> bool {
    match wish.mode {
        Some(wanted) => mode == wanted,
        None => if wish.order == Order::Switch && named_first(steps) == Some(sched_text(sched)) {
            mode_replied(steps, n, mode)
        } else {
            mode == SchedMode::Auto
        },
    }
}

/// Whether a request tells the loader to change what runs.
pub open spec fn changes(ask: Ask) -> bool {
    ask is Run || ask is RunWithArgs || ask is Stop || ask is Restart || ask is RestoreDefault
}

/// Whether such a request came before the `n`th exchange.
pub open spec fn changed_before(steps: Seq<Exchange>, n: int) -> bool {
    exists|j: int| 0 <= j < n && changes((#[trigger] steps[j]).ask)
}

/// Where a start or a switch stands at the `n`th exchange.
spec fn on_the_way(steps: Seq<Exchange>, wish: Wish, n: int) -> bool {
    let running = named_first(steps);
    &&& n > 0 ==> if wish.order == Order::Start {
        running == Some(UNKNOWN@)
    } else {
        running is Some && running != Some(UNKNOWN@)
    }
    &&& match steps[n].talk {
        Talk::Start(request) => n == 0 && wish == start_wish(request),
        Talk::Switch(request) => n == 0 && wish == switch_wish(request),
        Talk::StartNamed(request) => n > 0 && wish == start_wish(request) && !changed_before(
            steps,
            n,
        ),
        Talk::SwitchNamed(request, current) => {
            &&& n > 0
            &&& wish == switch_wish(request)
            &&& request.sched is Some
            &&& running == Some(sched_text(current))
            &&& !changed_before(steps, n)
        },
        Talk::SwitchMode(sched, raw) => {
            &&& n > 0
            &&& wish.order == Order::Switch
            &&& wish.mode is None
            &&& wish.args == raw
            &&& running == Some(sched_text(sched))
            &&& wished_sched(steps, n, wish, sched)
            &&& !changed_before(steps, n)
        },
        Talk::Warn(order, sched, mode) => {
            &&& n > 0
            &&& order == wish.order
            &&& wish.args is None
            &&& wished_sched(steps, n, wish, sched)
            &&& wished_mode(steps, n, wish, sched, mode)
            &&& !changed_before(steps, n)
        },
        Talk::Ordered(order, sched, mode) => {
            &&& n > 0
            &&& order == wish.order
            &&& wish.args is None
            &&& wished_sched(steps, n, wish, sched)
            &&& wished_mode(steps, n, wish, sched, mode)
            &&& !changed_before(steps, n)
        },
        Talk::OrderedWithArgs(order, sched, list) => {
            &&& n > 0
            &&& order == wish.order
            &&& wish.args matches Some(raw)
            &&& args_expansion(text::views(raw@)) == args::Expansion::Args(text::views(list@))
            &&& wished_sched(steps, n, wish, sched)
            &&& !changed_before(steps, n)
        },
        Talk::Observe | Talk::ObserveModes(_) | Talk::ObserveGeneration(_) => n > 0
            && changed_before(steps, n),
        _ => false,
    }
}

proof fn lemma_later(steps: Seq<Exchange>, wish: Wish, n: int, sched: SupportedSched)
    ensures
        wished_sched(steps, n, wish, sched) ==> wished_sched(steps, n + 1, wish, sched),
        forall|mode: SchedMode| #[trigger]
            wished_mode(steps, n, wish, sched, mode) ==> wished_mode(
                steps,
                n + 1,
                wish,
                sched,
                mode,
            ),
{
    if let Some(given) = wish.name {
        if offered(steps, n, given) {
            let j = choose|j: int|
                0 < j < n && (#[trigger] steps[j]).ask is Supported && offers(
                    steps[j].reply,
                    given,
                );
            assert(0 < j < n + 1 && steps[j].ask is Supported);
            assert(offered(steps, n + 1, given));
        }
    }
    assert forall|mode: SchedMode| #[trigger]
        wished_mode(steps, n, wish, sched, mode) implies wished_mode(
        steps,
        n + 1,
        wish,
        sched,
        mode,
    ) by {
        if mode_replied(steps, n, mode) {
            let j = choose|j: int|
                0 < j < n && (#[trigger] steps[j]).ask is CurrentMode && steps[j].reply
                    == Reply::Mode(mode);
            assert(0 < j < n + 1 && steps[j].ask is CurrentMode);
            assert(mode_replied(steps, n + 1, mode));
        }
    }
}

/// A name that resolves is one that the loader offers.
proof fn lemma_resolved(
    steps: Seq<Exchange>,
    n: int,
    given: Seq<char>,
    sched: SupportedSched,
)
    requires
        0 < n < steps.len(),
        steps[n].ask is Supported,
        steps[n].reply matches Reply::Names(list) && resolution(
            given,
            text::views(list@),
            Ok::<SupportedSched, SchedNameError>(sched),
        ),
    ensures
        full_or_short(sched_text(sched), given),
        offered(steps, n + 1, given),
{
    let list = steps[n].reply->Names_0;
    let all = text::views(list@);
    assert(listed(given, all));
    let i = choose|i: int| 0 <= i < all.len() && names_sched(#[trigger] all[i], given);
    let prefix = SCHED_PREFIX@;
    if all[i] != given {
        if prefix.is_prefix_of(all[i]) {
            assert(all[i] =~= prefix + all[i].skip(prefix.len() as int));
        }
    }
    assert(full_or_short(all[i], given));
    assert(all[i] == list@[i]@);
    assert(0 < n < n + 1 && steps[n].ask is Supported && offers(steps[n].reply, given));
}

/// Whether an exchange is sound in itself.
#[verifier::opaque]
spec fn sound(step: Exchange) -> bool {
    fits(step.talk, step.reply) && replied(step.talk, step.reply, step.turn)
}

/// Where an order for `sched` leads, in `mode` or with arguments.
spec fn heads_for(
    then: Talk,
    order: Order,
    sched: SupportedSched,
    mode: SchedMode,
    raw: Option<Vec<String>>,
) -> bool {
    match then {
        Talk::Warn(o, s, m) => o == order && s == sched && m == mode && raw is None,
        Talk::Ordered(o, s, m) => o == order && s == sched && m == mode && raw is None,
        Talk::OrderedWithArgs(o, s, list) => {
            &&& o == order
            &&& s == sched
            &&& raw matches Some(raw)
            &&& args_expansion(text::views(raw@)) == args::Expansion::Args(text::views(list@))
        },
        _ => false,
    }
}

/// Where a switch to `sched` leads.
spec fn heads_for_switch(
    then: Talk,
    sched: SupportedSched,
    switching: bool,
    mode: Option<SchedMode>,
    raw: Option<Vec<String>>,
) -> bool {
    match mode {
        Some(mode) => heads_for(then, Order::Switch, sched, mode, raw),
        None => if switching {
            heads_for(then, Order::Switch, sched, SchedMode::Auto, raw)
        } else {
            then == Talk::SwitchMode(sched, raw)
        },
    }
}

proof fn lemma_switch_replied(step: Exchange, ask: Ask, then: Talk) -> (sched: SupportedSched)
    requires
        sound(step),
        step.talk is Switch,
        step.turn.next == Next::Ask(ask, then),
    ensures
        step.reply matches Reply::Text(current) && current@ != UNKNOWN@ && sched_text(sched)
            == current@,
        step.talk matches Talk::Switch(request) && if request.sched is Some {
            then == Talk::SwitchNamed(request, sched)
        } else {
            heads_for_switch(then, sched, false, request.mode, request.args)
        },
{
    reveal(sound);
    let request = step.talk->Switch_0;
    let current = step.reply->Text_0;
    let s = choose|s: Option<SupportedSched>| #[trigger]
        known_as(current@, s) && match s {
            Some(s) => if request.sched is Some {
                then == Talk::SwitchNamed(request, s)
            } else {
                switches(step.turn, s, false, request.mode, request.args)
            },
            None => false,
        };
    s->0
}

proof fn lemma_switch_named_replied(step: Exchange, ask: Ask, then: Talk) -> (sched: SupportedSched)
    requires
        sound(step),
        step.talk matches Talk::SwitchNamed(request, _) && request.sched is Some,
        step.turn.next == Next::Ask(ask, then),
    ensures
        step.talk matches Talk::SwitchNamed(request, current) && {
            &&& step.reply matches Reply::Names(list)
            &&& resolution(
                request.sched->0@,
                text::views(list@),
                Ok::<SupportedSched, SchedNameError>(sched),
            )
            &&& heads_for_switch(then, sched, sched != current, request.mode, request.args)
        },
{
    reveal(sound);
    let (request, current) = (step.talk->SwitchNamed_0, step.talk->SwitchNamed_1);
    let list = step.reply->Names_0;
    let resolved = choose|resolved: Result<SupportedSched, SchedNameError>| #[trigger]
        resolution(request.sched->0@, text::views(list@), resolved) && match resolved {
            Ok(s) => switches(step.turn, s, s != current, request.mode, request.args),
            Err(err) => step.turn.next == Next::Exit,
        };
    resolved->Ok_0
}

proof fn lemma_start_named_replied(step: Exchange, ask: Ask, then: Talk) -> (sched: SupportedSched)
    requires
        sound(step),
        step.talk is StartNamed,
        step.turn.next == Next::Ask(ask, then),
    ensures
        step.talk matches Talk::StartNamed(request) && {
            &&& step.reply matches Reply::Names(list)
            &&& resolution(
                request.sched@,
                text::views(list@),
                Ok::<SupportedSched, SchedNameError>(sched),
            )
            &&& heads_for(
                then,
                Order::Start,
                sched,
                match request.mode {
                    Some(mode) => mode,
                    None => SchedMode::Auto,
                },
                request.args,
            )
        },
{
    reveal(sound);
    let request = step.talk->StartNamed_0;
    let list = step.reply->Names_0;
    let resolved = choose|resolved: Result<SupportedSched, SchedNameError>| #[trigger]
        resolution(request.sched@, text::views(list@), resolved) && match resolved {
            Ok(s) => crate::ctl::orders(
                step.turn,
                Order::Start,
                s,
                match request.mode {
                    Some(mode) => mode,
                    None => SchedMode::Auto,
                },
                request.args,
            ),
            Err(err) => step.turn.next == Next::Exit,
        };
    resolved->Ok_0
}

proof fn lemma_others_replied(step: Exchange, ask: Ask, then: Talk)
    requires
        sound(step),
        step.turn.next == Next::Ask(ask, then),
    ensures
        step.talk matches Talk::Start(request) ==> {
            &&& step.reply matches Reply::Text(current)
            &&& current@ == UNKNOWN@
            &&& then == Talk::StartNamed(request)
        },
        step.talk matches Talk::SwitchMode(sched, raw) ==> {
            &&& step.reply matches Reply::Mode(mode)
            &&& heads_for(then, Order::Switch, sched, mode, raw)
        },
        step.talk matches Talk::Warn(order, sched, mode) ==> then == Talk::Ordered(
            order,
            sched,
            mode,
        ),
        step.talk is Ordered ==> then is Observe,
        !(step.talk is OrderedWithArgs),
        step.talk is Observe ==> then is ObserveModes,
        step.talk is ObserveModes ==> then is ObserveGeneration,
        !(step.talk is ObserveGeneration),
{
    reveal(sound);
}

/// What an exchange waits for tells what it asked.
proof fn lemma_asked(step: Exchange, ask: Ask, then: Talk)
    requires
        sound(step),
        step.turn.next == Next::Ask(ask, then),
    ensures
        then is SwitchMode ==> ask is CurrentMode,
        then is StartNamed || then is SwitchNamed ==> ask is Supported,
        then is Warn || then is ObserveModes ==> ask is ConfiguredModes,
        then matches Talk::Ordered(order, sched, mode) ==> ask == Ask::Run(order, sched, mode),
        then matches Talk::OrderedWithArgs(order, sched, list) ==> {
            &&& ask matches Ask::RunWithArgs(o, s, given)
            &&& o == order
            &&& s == sched
            &&& text::views(given@) == text::views(list@)
        },
        then is Observe ==> ask is Snapshot,
        then is ObserveGeneration ==> ask is Generation,
{
    reveal(sound);
    lemma_waits_for_reply(step.talk, step.reply, step.turn);
}

proof fn lemma_changed_step(steps: Seq<Exchange>, n: int)
    requires
        0 < n <= steps.len(),
    ensures
        changed_before(steps, n) <==> changed_before(steps, n - 1) || changes(steps[n - 1].ask),
        !changed_before(steps, 0),
{
    if changed_before(steps, n) {
        let j = choose|j: int| 0 <= j < n && changes((#[trigger] steps[j]).ask);
        assert(j < n - 1 || j == n - 1);
    }
    if changed_before(steps, n - 1) {
        let j = choose|j: int| 0 <= j < n - 1 && changes((#[trigger] steps[j]).ask);
        assert(0 <= j < n && changes(steps[j].ask));
    }
}

/// Each step of a conversation is sound, and asks what the one before led to.
#[verifier::opaque]
spec fn linked(steps: Seq<Exchange>) -> bool {
    &&& forall|i: int| 0 <= i < steps.len() ==> sound(#[trigger] steps[i])
    &&& forall|i: int|
        0 < i < steps.len() ==> steps[i - 1].turn.next == Next::Ask(
            (#[trigger] steps[i]).ask,
            steps[i].talk,
        )
}

proof fn lemma_linked(steps: Seq<Exchange>)
    requires
        conversation(steps),
    ensures
        linked(steps),
{
    reveal(sound);
    reveal(linked);
}

proof fn lemma_link(steps: Seq<Exchange>, n: int)
    requires
        linked(steps),
        0 < n < steps.len(),
    ensures
        sound(steps[n - 1]),
        sound(steps[n]),
        steps[n - 1].turn.next == Next::Ask(steps[n].ask, steps[n].talk),
{
    reveal(linked);
}

proof fn lemma_on_the_way(steps: Seq<Exchange>, wish: Wish, n: int)
    requires
        linked(steps),
        opens_with(steps, wish),
        0 <= n < steps.len(),
    ensures
        on_the_way(steps, wish, n),
    decreases n,
{
    if n > 0 {
        lemma_on_the_way(steps, wish, n - 1);
        lemma_link(steps, n);
        let p = steps[n - 1];
        let ask = steps[n].ask;
        let then = steps[n].talk;
        if n > 1 {
            lemma_link(steps, n - 1);
            lemma_asked(steps[n - 2], p.ask, p.talk);
        }
        lemma_changed_step(steps, n);
        lemma_others_replied(p, ask, then);
        match p.talk {
            Talk::Switch(request) => {
                let s = lemma_switch_replied(p, ask, then);
            },
            Talk::StartNamed(request) => {
                let s = lemma_start_named_replied(p, ask, then);
                lemma_resolved(steps, n - 1, request.sched@, s);
            },
            Talk::SwitchNamed(request, current) => {
                let s = lemma_switch_named_replied(p, ask, then);
                lemma_resolved(steps, n - 1, request.sched->0@, s);
                if sched_text(s) == sched_text(current) {
                    lemma_sched_text_injective(s, current);
                }
            },
            Talk::SwitchMode(s, raw) => {
                lemma_later(steps, wish, n - 1, s);
                let mode = p.reply->Mode_0;
                assert(0 < n - 1 < n && steps[n - 1].ask is CurrentMode);
                assert(mode_replied(steps, n, mode));
            },
            Talk::Warn(order, s, mode) => {
                lemma_later(steps, wish, n - 1, s);
                assert(wished_mode(steps, n - 1, wish, s, mode));
            },
            _ => {},
        }
    }
}

/// A start or a switch asks for what the user wished. It asks for a scheduler that
/// the loader offers under the given name, or for the one that runs where no name is
/// given. The mode is the one that was asked for; without one it is the automatic
/// mode for another scheduler, and for the one that runs it is the mode that the
/// loader replied when it was asked. Arguments are those that were given, expanded.
/// A start is asked for only where the loader said that nothing runs, and a switch
/// only where it said that something does. Nothing else that runs is changed, and
/// nothing is changed twice.
pub proof fn lemma_wish_is_ordered(steps: Seq<Exchange>, wish: Wish, n: int)
    requires
        conversation(steps),
        opens_with(steps, wish),
        0 <= n < steps.len(),
    ensures
        steps[n].ask matches Ask::Run(order, sched, mode) ==> {
            &&& order == wish.order
            &&& wish.args is None
            &&& wished_sched(steps, n, wish, sched)
            &&& wished_mode(steps, n, wish, sched, mode)
        },
        steps[n].ask matches Ask::RunWithArgs(order, sched, list) ==> {
            &&& order == wish.order
            &&& wish.args matches Some(raw)
            &&& args_expansion(text::views(raw@)) == args::Expansion::Args(text::views(list@))
            &&& wished_sched(steps, n, wish, sched)
        },
        changes(steps[n].ask) ==> {
            &&& steps[n].ask is Run || steps[n].ask is RunWithArgs
            &&& !changed_before(steps, n)
            &&& named_first(steps) is Some
            &&& wish.order == Order::Start <==> named_first(steps) == Some(UNKNOWN@)
        },
{
    lemma_linked(steps);
    lemma_on_the_way(steps, wish, n);
    if n > 0 {
        lemma_link(steps, n);
        lemma_asked(steps[n - 1], steps[n].ask, steps[n].talk);
    }
}

proof fn lemma_ended(step: Exchange)
    requires
        sound(step),
    ensures
        step.turn.next is Fail ==> step.reply is Failed || (step.talk is Switch && step.reply is Text
            && forall|s: SupportedSched| sched_text(s) != step.reply->Text_0@) || step.talk is Get
            || step.talk is RestoreMode,
        step.talk matches Talk::Ordered(_, _, _) ==> !(step.turn.next is Finish) && !(
        step.turn.next is Exit),
        step.talk is OrderedWithArgs && step.turn.next is Finish ==> step.reply is Done,
        step.talk is Ordered && step.turn.next is Ask ==> step.reply is Done,
        step.talk is Start || step.talk is Switch || step.talk is StartNamed
            || step.talk is SwitchNamed || step.talk is SwitchMode || step.talk is Warn ==> !(
        step.turn.next is Finish),
        step.talk is Warn || step.talk is Observe || step.talk is ObserveModes
            || step.talk is ObserveGeneration || step.talk is OrderedWithArgs ==> !(
        step.turn.next is Exit),
{
    reveal(sound);
}

proof fn lemma_exit_reason(step: Exchange)
    requires
        sound(step),
        step.turn.next is Exit,
    ensures
        step.talk is Start ==> step.reply is Text && step.reply->Text_0@ != UNKNOWN@,
        step.talk matches Talk::Switch(request) ==> step.reply is Text && (step.reply->Text_0@
            == UNKNOWN@ || bad_args(request.args)),
        step.talk matches Talk::StartNamed(request) ==> unresolved(step.reply, request.sched@)
            || bad_args(request.args),
        step.talk matches Talk::SwitchNamed(request, _) ==> (request.sched is Some && unresolved(
            step.reply,
            request.sched->0@,
        )) || bad_args(request.args),
        step.talk matches Talk::SwitchMode(_, raw) ==> bad_args(raw),
{
    reveal(sound);
    match (step.talk, step.reply) {
        (Talk::StartNamed(request), Reply::Names(list)) => {
            lemma_unresolved(step.reply, request.sched@);
        },
        (Talk::SwitchNamed(request, _), Reply::Names(list)) => {
            if let Some(name) = request.sched {
                lemma_unresolved(step.reply, name@);
            }
        },
        _ => {},
    }
}

/// Whether arguments were given that do not expand to any.
pub open spec fn bad_args(raw: Option<Vec<String>>) -> bool {
    raw matches Some(raw) && !(args_expansion(text::views(raw@)) is Args)
}

/// Whether the loader's list lacks the given name, or no scheduler of this build has
/// it.
pub open spec fn unresolved(reply: Reply, given: Seq<char>) -> bool {
    reply is Names && (!offers(reply, given) || forall|s: SupportedSched|
        sched_text(s) != crate::sched::prefixed(given))
}

proof fn lemma_unresolved(reply: Reply, given: Seq<char>)
    requires
        reply is Names,
    ensures
        resolution(
            given,
            text::views(reply->Names_0@),
            Err::<SupportedSched, SchedNameError>(SchedNameError::UnknownName),
        ) ==> unresolved(reply, given),
        resolution(
            given,
            text::views(reply->Names_0@),
            Err::<SupportedSched, SchedNameError>(SchedNameError::UnsupportedByClient),
        ) ==> unresolved(reply, given),
{
    let list = reply->Names_0;
    let all = text::views(list@);
    if offers(reply, given) {
        let i = choose|i: int| 0 <= i < list@.len() && full_or_short((#[trigger] list@[i])@, given);
        let prefix = SCHED_PREFIX@;
        assert(all[i] == list@[i]@);
        if all[i] == prefix + given {
            assert(all[i].take(prefix.len() as int) =~= prefix);
            assert(all[i].skip(prefix.len() as int) =~= given);
        }
        assert(names_sched(all[i], given));
        assert(listed(given, all));
    }
}

/// A start or a switch that comes to a good end has been carried out: the loader was
/// asked for it, and replied that it is done.
pub proof fn lemma_wish_comes_true(steps: Seq<Exchange>, wish: Wish) -> (k: int)
    requires
        conversation(steps),
        opens_with(steps, wish),
        steps.last().turn.next is Finish,
    ensures
        0 <= k < steps.len(),
        steps[k].ask is Run || steps[k].ask is RunWithArgs,
        steps[k].reply is Done,
{
    lemma_linked(steps);
    let n = steps.len() - 1;
    lemma_on_the_way(steps, wish, n);
    reveal(linked);
    lemma_ended(steps[n]);
    if n > 0 {
        lemma_link(steps, n);
        lemma_asked(steps[n - 1], steps[n].ask, steps[n].talk);
    }
    if steps[n].talk is OrderedWithArgs {
        n
    } else {
        let k = choose|k: int| 0 <= k < n && changes((#[trigger] steps[k]).ask);
        lemma_on_the_way(steps, wish, k);
        lemma_ended(steps[k]);
        lemma_link(steps, k + 1);
        lemma_others_replied(steps[k], steps[k + 1].ask, steps[k + 1].talk);
        if k > 0 {
            lemma_link(steps, k);
            lemma_asked(steps[k - 1], steps[k].ask, steps[k].talk);
        }
        k
    }
}

/// A start or a switch that is given up has a reason. It exits where the other of
/// the two is the right one, where the name is none that the loader offers and this
/// build knows, or where the arguments do not expand to any. It fails where the
/// loader did not answer, or runs a scheduler that this build does not know.
pub proof fn lemma_wish_given_up(steps: Seq<Exchange>, wish: Wish)
    requires
        conversation(steps),
        opens_with(steps, wish),
    ensures
        steps.last().turn.next is Exit ==> {
            ||| wish.order == Order::Start && named_first(steps) is Some && named_first(steps)
                != Some(UNKNOWN@)
            ||| wish.order == Order::Switch && named_first(steps) == Some(UNKNOWN@)
            ||| wish.name is Some && unresolved(steps.last().reply, wish.name->0)
            ||| bad_args(wish.args)
        },
        steps.last().turn.next is Fail ==> {
            ||| steps.last().reply is Failed
            ||| named_first(steps) is Some && forall|s: SupportedSched|
                Some(sched_text(s)) != named_first(steps)
        },
{
    lemma_linked(steps);
    let n = steps.len() - 1;
    lemma_on_the_way(steps, wish, n);
    reveal(linked);
    lemma_ended(steps[n]);
    if steps[n].turn.next is Exit {
        lemma_exit_reason(steps[n]);
    }
}

/// Whether a turn ends the conversation with one plain line of output.
pub open spec fn prints(turn: Turn, words: Seq<char>) -> bool {
    &&& turn.next is Finish
    &&& turn.lines@.len() == 1
    &&& !turn.lines@[0].err
    &&& turn.lines@[0]@.parts == seq![(Style::Plain, words)]
}

/// Whether the loader lists its configured modes and the mode is not among them. The
/// automatic mode needs none, and without a list nothing is known to lack.
pub open spec fn lacks_mode(reply: Reply, mode: SchedMode) -> bool {
    &&& mode != SchedMode::Auto
    &&& reply matches Reply::Modes(list)
    &&& forall|i: int| 0 <= i < list@.len() ==> #[trigger] list@[i] != mode
}

/// The words about a scheduler in a mode, or with its own defaults.
pub open spec fn mode_words(
    head: Seq<char>,
    sched: SupportedSched,
    mode: SchedMode,
    own_defaults: bool,
) -> Seq<char> {
    head + " "@ + sched_title(sched) + if own_defaults {
        " with its own defaults"@
    } else {
        " in "@ + mode_title(mode) + " mode"@
    }
}

/// Where a query about what runs stands at the `n`th exchange.
spec fn looking(steps: Seq<Exchange>, n: int) -> bool {
    &&& n == 0 <==> steps[n].talk is Get
    &&& n > 0 ==> named_first(steps) is Some && named_first(steps) != Some(UNKNOWN@)
    &&& !changes(steps[n].ask)
    &&& match steps[n].talk {
        Talk::Get => true,
        Talk::GetArgs(s) => named_first(steps) == Some(sched_text(s)) && steps[n].ask is CurrentArgs,
        Talk::GetMode(s) => named_first(steps) == Some(sched_text(s)) && steps[n].ask is CurrentMode
            && args_replied(steps, n, 0),
        Talk::Report(deed, s, mode) => {
            &&& deed == Deed::Running
            &&& named_first(steps) == Some(sched_text(s))
            &&& steps[n].ask == Ask::ConfiguredModes(s)
            &&& mode_replied(steps, n, mode)
            &&& mode != SchedMode::Auto
            &&& args_replied(steps, n, 0)
        },
        _ => false,
    }
}

/// Whether the loader, asked for the arguments before the `n`th exchange, replied
/// with so many.
pub open spec fn args_replied(steps: Seq<Exchange>, n: int, count: nat) -> bool {
    exists|j: int|
        0 < j < n && (#[trigger] steps[j]).ask is CurrentArgs && steps[j].reply is Names
            && steps[j].reply->Names_0@.len() == count
}

proof fn lemma_get_replied(step: Exchange, ask: Ask, then: Talk)
    requires
        sound(step),
        step.turn.next == Next::Ask(ask, then),
    ensures
        step.talk is Get ==> {
            &&& step.reply matches Reply::Text(current)
            &&& current@ != UNKNOWN@
            &&& then matches Talk::GetArgs(s)
            &&& sched_text(s) == current@
            &&& ask is CurrentArgs
        },
        step.talk matches Talk::GetArgs(s) ==> {
            &&& step.reply matches Reply::Names(list)
            &&& list@.len() == 0
            &&& then == Talk::GetMode(s)
            &&& ask is CurrentMode
        },
        step.talk matches Talk::GetMode(s) ==> {
            &&& step.reply matches Reply::Mode(mode)
            &&& mode != SchedMode::Auto
            &&& then == Talk::Report(Deed::Running, s, mode)
            &&& ask == Ask::ConfiguredModes(s)
        },
        !(step.talk is Report),
{
    reveal(sound);
    if step.talk is Get {
        let current = step.reply->Text_0;
        let s = choose|s: Option<SupportedSched>| #[trigger]
            known_as(current@, s) && match s {
                Some(s) => then == Talk::GetArgs(s),
                None => false,
            };
    }
}

proof fn lemma_looking(steps: Seq<Exchange>, n: int)
    requires
        linked(steps),
        steps.len() > 0,
        steps[0].ask is CurrentScheduler,
        steps[0].talk is Get,
        0 <= n < steps.len(),
    ensures
        looking(steps, n),
    decreases n,
{
    if n > 0 {
        lemma_looking(steps, n - 1);
        lemma_link(steps, n);
        lemma_get_replied(steps[n - 1], steps[n].ask, steps[n].talk);
        if args_replied(steps, n - 1, 0) {
            let j = choose|j: int|
                0 < j < n - 1 && (#[trigger] steps[j]).ask is CurrentArgs && steps[j].reply is Names
                    && steps[j].reply->Names_0@.len() == 0;
            assert(0 < j < n && steps[j].ask is CurrentArgs);
        }
        if steps[n - 1].talk is GetArgs {
            assert(0 < n - 1 < n && steps[n - 1].ask is CurrentArgs);
            assert(args_replied(steps, n, 0));
        }
        if steps[n - 1].talk is GetMode {
            assert(0 < n - 1 < n && steps[n - 1].ask is CurrentMode);
            assert(mode_replied(steps, n, steps[n - 1].reply->Mode_0));
        }
    }
}

proof fn lemma_get_ended(step: Exchange)
    requires
        sound(step),
        step.turn.next is Finish,
    ensures
        step.talk is Get ==> {
            &&& step.reply matches Reply::Text(current)
            &&& current@ == UNKNOWN@
            &&& prints(step.turn, "no scx scheduler running"@)
        },
        step.talk matches Talk::GetArgs(s) ==> {
            &&& step.reply matches Reply::Names(list)
            &&& list@.len() > 0
            &&& prints(
                step.turn,
                "running"@ + " "@ + sched_title(s) + " with arguments \""@ + args::shell_join(
                    text::views(list@),
                ) + "\""@,
            )
        },
        step.talk matches Talk::GetMode(s) ==> {
            &&& step.reply == Reply::Mode(SchedMode::Auto)
            &&& prints(step.turn, mode_words("running"@, s, SchedMode::Auto, false))
        },
        step.talk matches Talk::Report(deed, s, mode) ==> prints(
            step.turn,
            mode_words(
                if deed == Deed::Running {
                    "running"@
                } else {
                    "restored default scheduler"@
                },
                s,
                mode,
                lacks_mode(step.reply, mode),
            ),
        ),
{
    reveal(sound);
    lemma_one_line(step.turn);
    match (step.talk, step.reply) {
        (Talk::GetMode(s), Reply::Mode(mode)) => lemma_mode_words("running"@, s, mode, true),
        (Talk::Report(deed, s, mode), reply) => {
            lemma_lacks(reply, mode);
            lemma_mode_words(crate::ctl::deed_text(deed), s, mode, !lacks_mode(reply, mode));
        },
        _ => {},
    }
}

proof fn lemma_one_line(turn: Turn)
    ensures
        forall|words: Seq<char>|
            crate::report::line_models(turn.lines@) == seq![#[trigger] crate::report::out(words)]
                && turn.next is Finish ==> prints(turn, words),
{
    assert forall|words: Seq<char>|
        crate::report::line_models(turn.lines@) == seq![#[trigger] crate::report::out(words)]
            && turn.next is Finish implies prints(turn, words) by {
        let models = crate::report::line_models(turn.lines@);
        assert(models.len() == turn.lines@.len());
        assert(models[0] == turn.lines@[0]@);
        assert(crate::report::out(words).parts =~= seq![(Style::Plain, words)]);
    }
}

proof fn lemma_mode_words(head: Seq<char>, sched: SupportedSched, mode: SchedMode, known: bool)
    ensures
        crate::report::mode_result(head, sched, mode, known) == mode_words(
            head,
            sched,
            mode,
            !known,
        ),
{
    assert(crate::report::mode_result(head, sched, mode, known) =~= mode_words(
        head,
        sched,
        mode,
        !known,
    ));
}

proof fn lemma_lacks(reply: Reply, mode: SchedMode)
    ensures
        lacks_mode(reply, mode) <==> !crate::report::counts_as_configured(
            mode,
            crate::ctl::modes_in(reply),
        ),
{
    if let Reply::Modes(list) = reply {
        if !list@.contains(mode) {
            assert forall|i: int| 0 <= i < list@.len() implies #[trigger] list@[i] != mode by {
                if list@[i] == mode {
                    assert(list@.contains(mode));
                }
            }
        }
    }
}

/// The query about what runs changes nothing, and tells what the loader replied in
/// one line: that nothing runs; or the scheduler that the loader named, with the
/// arguments that it replied; or, where there are none, in the mode that it replied,
/// or with its own defaults where that mode is not among those that it lists.
pub proof fn lemma_get_tells(steps: Seq<Exchange>)
    requires
        conversation(steps),
        steps.len() > 0,
        steps[0].ask is CurrentScheduler,
        steps[0].talk is Get,
    ensures
        forall|n: int| 0 <= n < steps.len() ==> !changes((#[trigger] steps[n]).ask),
        steps.last().turn.next is Finish ==> {
            ||| named_first(steps) == Some(UNKNOWN@) && prints(
                steps.last().turn,
                "no scx scheduler running"@,
            )
            ||| exists|sched: SupportedSched| #[trigger]
                told_args(steps, sched)
            ||| exists|sched: SupportedSched, mode: SchedMode| #[trigger]
                told_mode(steps, sched, mode)
        },
{
    lemma_linked(steps);
    assert forall|n: int| 0 <= n < steps.len() implies !changes((#[trigger] steps[n]).ask) by {
        lemma_looking(steps, n);
    }
    let n = steps.len() - 1;
    lemma_looking(steps, n);
    reveal(linked);
    if steps[n].turn.next is Finish {
        lemma_get_ended(steps[n]);
        match steps[n].talk {
            Talk::GetArgs(s) => {
                assert(told_args(steps, s));
            },
            Talk::GetMode(s) => {
                assert(0 < n < steps.len() && steps[n].ask is CurrentMode);
                assert(told_mode(steps, s, SchedMode::Auto));
            },
            Talk::Report(_, s, mode) => {
                let j = choose|j: int|
                    0 < j < n && (#[trigger] steps[j]).ask is CurrentMode && steps[j].reply
                        == Reply::Mode(mode);
                assert(0 < j < steps.len() && steps[j].ask is CurrentMode);
                assert(told_mode(steps, s, mode));
            },
            _ => {},
        }
    }
}

/// Whether a query ends with the scheduler that the loader named and the arguments
/// that it replied, at least one.
pub open spec fn told_args(steps: Seq<Exchange>, sched: SupportedSched) -> bool {
    &&& named_first(steps) == Some(sched_text(sched))
    &&& steps.last().ask is CurrentArgs
    &&& steps.last().reply matches Reply::Names(list)
    &&& list@.len() > 0
    &&& prints(
        steps.last().turn,
        "running"@ + " "@ + sched_title(sched) + " with arguments \""@ + args::shell_join(
            text::views(list@),
        ) + "\""@,
    )
}

/// Whether a query ends with the scheduler that the loader named and the mode that
/// it replied, or with the scheduler's own defaults where the mode is not among those
/// that it lists.
pub open spec fn told_mode(steps: Seq<Exchange>, sched: SupportedSched, mode: SchedMode) -> bool {
    &&& named_first(steps) == Some(sched_text(sched))
    &&& mode_replied(steps, steps.len() as int, mode)
    &&& args_replied(steps, steps.len() as int, 0) || steps.last().ask is CurrentMode
    &&& prints(
        steps.last().turn,
        mode_words("running"@, sched, mode, lacks_mode(steps.last().reply, mode)),
    )
    &&& mode != SchedMode::Auto ==> steps.last().ask == Ask::ConfiguredModes(sched)
}

/// Before an order in a mode, a warning is printed exactly where the loader lists
/// its configured modes and the mode is not among them. The order is given either
/// way.
pub proof fn lemma_warned(order: Order, sched: SupportedSched, mode: SchedMode, reply: Reply, turn: Turn)
    requires
        fits(Talk::Warn(order, sched, mode), reply),
        replied(Talk::Warn(order, sched, mode), reply, turn),
    ensures
        turn.next == Next::Ask(Ask::Run(order, sched, mode), Talk::Ordered(order, sched, mode)),
        turn.lines@.len() == if lacks_mode(reply, mode) {
            1int
        } else {
            0int
        },
        lacks_mode(reply, mode) ==> {
            &&& turn.lines@[0].err
            &&& turn.lines@[0]@.parts == seq![
                (Style::Warning, "warning:"@),
                (
                    Style::Plain,
                    " "@ + (sched_title(sched) + " has no configured arguments for "@ + mode_title(
                        mode,
                    ) + " mode; it will run with its own defaults"@),
                ),
            ]
        },
{
    lemma_lacks(reply, mode);
    let models = crate::report::line_models(turn.lines@);
    assert(models.len() == turn.lines@.len());
    if lacks_mode(reply, mode) {
        assert(models[0] == turn.lines@[0]@);
        let line = crate::report::warning(crate::report::unconfigured(sched, mode));
        assert(models == seq![line]);
        assert(line.parts =~= seq![
            (Style::Warning, "warning:"@),
            (
                Style::Plain,
                " "@ + (sched_title(sched) + " has no configured arguments for "@ + mode_title(
                    mode,
                ) + " mode; it will run with its own defaults"@),
            ),
        ]);
    }
}

/// A stop and a restart are one request each, and nothing else is asked. The default
/// scheduler is restored only where the loader named one, after which only its mode
/// is asked for.
pub proof fn lemma_plain_commands(talk: Talk, reply: Reply, turn: Turn)
    requires
        fits(talk, reply),
        replied(talk, reply, turn),
    ensures
        talk is Stop || talk is Restart || talk is List || talk is ModesOf || talk is ModeArgsOf
            ==> !(turn.next is Ask),
        turn.next matches Next::Ask(Ask::RestoreDefault, then) ==> {
            &&& talk is Restore
            &&& reply matches Reply::Text(default)
            &&& default@ != UNKNOWN@
            &&& then == Talk::Restoring(default)
        },
        talk is Restore && reply is Text && reply->Text_0@ != UNKNOWN@ ==> turn.next == Next::Ask(
            Ask::RestoreDefault,
            Talk::Restoring(reply->Text_0),
        ),
        talk is Restore && reply is Text && reply->Text_0@ == UNKNOWN@ ==> turn.next == Next::Exit,
        talk is Restoring && reply is Done ==> turn.next == Next::Ask(
            Ask::DefaultMode,
            Talk::RestoreMode(talk->Restoring_0),
        ),
        talk matches Talk::RestoreMode(name) ==> match turn.next {
            Next::Ask(ask, then) => {
                &&& ask matches Ask::ConfiguredModes(s)
                &&& sched_text(s) == name@
                &&& reply matches Reply::Mode(mode)
                &&& then == Talk::Report(Deed::Restored, s, mode)
            },
            _ => true,
        },
        turn.next matches Next::Ask(ask, _) && (ask is Stop || ask is Restart) ==> false,
        // A request that failed ends the command, but for those that only look.
        reply is Failed && !(talk is Report) && !(talk is Warn) && !(talk is Observe) && !(
        talk is ObserveModes) && !(talk is ObserveGeneration) ==> turn.next is Fail
            && turn.lines@.len() == 0,
{
    assert(crate::report::line_models(turn.lines@).len() == turn.lines@.len());
}

/// What is printed of the loader's state after an order is what one read replied. It
/// says that the configured arguments are missing only where the loader lists its
/// modes without that one, and the same instance answered both times.
pub proof fn lemma_observation_qualified(
    snapshot: crate::report::LoaderSnapshot,
    modes: Reply,
    first: Turn,
    generation: Reply,
    second: Turn,
)
    requires
        fits(Talk::ObserveModes(snapshot), modes),
        replied(Talk::ObserveModes(snapshot), modes, first),
        fits(Talk::ObserveGeneration(snapshot), generation),
        replied(Talk::ObserveGeneration(snapshot), generation, second),
    ensures
        first.next is Ask <==> lacks_mode(modes, snapshot.mode),
        first.next is Ask ==> first.next == Next::Ask(
            Ask::Generation,
            Talk::ObserveGeneration(snapshot),
        ),
        !(first.next is Ask) ==> prints(first, crate::report::observation(snapshot, true)),
        prints(
            second,
            crate::report::observation(
                snapshot,
                !(snapshot.generation is Some && generation is Text && snapshot.generation->0@
                    == generation->Text_0@),
            ),
        ),
{
    lemma_lacks(modes, snapshot.mode);
    lemma_one_line(first);
    lemma_one_line(second);
}

/// What is observed after an order is printed at once where its mode needs no look
/// into the configuration: nothing runs, or something with custom arguments, or in
/// the automatic mode, or a scheduler that this build does not know. Otherwise its
/// configured modes are asked for.
pub proof fn lemma_observed(snapshot: crate::report::LoaderSnapshot, turn: Turn)
    requires
        replied(Talk::Observe, Reply::Snapshot(snapshot), turn),
    ensures
        match turn.next {
            Next::Ask(ask, then) => {
                &&& ask matches Ask::ConfiguredModes(sched)
                &&& sched_text(sched) == snapshot.scheduler@
                &&& then == Talk::ObserveModes(snapshot)
                &&& snapshot.scheduler@ != "unknown"@
                &&& snapshot.args@.len() == 0
                &&& snapshot.mode != SchedMode::Auto
                &&& turn.lines@.len() == 0
            },
            _ => {
                &&& prints(turn, crate::report::observation(snapshot, true))
                &&& snapshot.scheduler@ == "unknown"@ || snapshot.args@.len() > 0 || snapshot.mode
                    == SchedMode::Auto || forall|s: SupportedSched|
                    sched_text(s) != snapshot.scheduler@
            },
        },
{
    lemma_one_line(turn);
    assert(crate::report::line_models(turn.lines@).len() == turn.lines@.len());
}

/// Whether a turn prints one plain line and then asks for the loader's state.
pub open spec fn prints_and_looks(turn: Turn, words: Seq<char>) -> bool {
    &&& turn.next == Next::Ask(Ask::Snapshot, Talk::Observe)
    &&& turn.lines@.len() == 1
    &&& !turn.lines@[0].err
    &&& turn.lines@[0]@.parts == seq![(Style::Plain, words)]
}

/// What is printed of an order that was carried out: what was asked for, in which
/// mode or with which arguments. A stop and a restart are reported in a word.
pub proof fn lemma_orders_reported(talk: Talk, turn: Turn)
    requires
        fits(talk, Reply::Done),
        replied(talk, Reply::Done, turn),
    ensures
        talk matches Talk::Ordered(order, sched, mode) ==> prints_and_looks(
            turn,
            (if order == Order::Start {
                "start"@
            } else {
                "switch"@
            }) + " request for "@ + sched_title(sched) + " accepted (requested "@ + mode_title(mode)
                + " mode)"@,
        ),
        talk matches Talk::OrderedWithArgs(order, sched, list) ==> prints(
            turn,
            (if order == Order::Start {
                "started"@
            } else {
                "switched to"@
            }) + " "@ + sched_title(sched) + " with arguments \""@ + args::shell_join(
                text::views(list@),
            ) + "\""@,
        ),
        talk is Stop ==> prints(turn, "stopped"@),
        talk is Restart ==> prints(turn, "restarted"@),
{
    lemma_one_line(turn);
    let models = crate::report::line_models(turn.lines@);
    assert(models.len() == turn.lines@.len());
    if let Talk::Ordered(order, sched, mode) = talk {
        let words = crate::report::accepted(crate::ctl::order_text(order), sched, mode);
        assert(models == seq![crate::report::out(words)]);
        assert(models[0] == turn.lines@[0]@);
        assert(crate::report::out(words).parts =~= seq![(Style::Plain, words)]);
    }
}

/// A mode is reported as configured, or as the scheduler's own defaults where the
/// loader lists its modes without it. The automatic mode is reported without a look.
pub proof fn lemma_modes_reported(talk: Talk, reply: Reply, turn: Turn)
    requires
        fits(talk, reply),
        replied(talk, reply, turn),
    ensures
        talk matches Talk::Report(deed, sched, mode) ==> prints(
            turn,
            mode_words(
                if deed == Deed::Running {
                    "running"@
                } else {
                    "restored default scheduler"@
                },
                sched,
                mode,
                lacks_mode(reply, mode),
            ),
        ),
        talk matches Talk::RestoreMode(name) ==> (turn.next is Finish ==> exists|
            sched: SupportedSched,
        |
            {
                &&& #[trigger] sched_text(sched) == name@
                &&& prints(
                    turn,
                    mode_words("restored default scheduler"@, sched, SchedMode::Auto, false),
                )
                &&& reply == Reply::Mode(SchedMode::Auto)
            }),
{
    lemma_one_line(turn);
    match (talk, reply) {
        (Talk::Report(deed, s, mode), reply) => {
            lemma_lacks(reply, mode);
            lemma_mode_words(crate::ctl::deed_text(deed), s, mode, !lacks_mode(reply, mode));
        },
        (Talk::RestoreMode(name), Reply::Mode(mode)) => {
            if turn.next is Finish {
                let s = choose|s: Option<SupportedSched>| #[trigger]
                    known_as(name@, s) && match s {
                        Some(s) => crate::ctl::reports(turn, Deed::Restored, s, mode),
                        None => false,
                    };
                lemma_mode_words(crate::ctl::deed_text(Deed::Restored), s->0, mode, true);
                assert(sched_text(s->0) == name@);
            }
        },
        _ => {},
    }
}

/// The list of schedulers is printed on one line, each without its prefix.
pub proof fn lemma_list_printed(list: Vec<String>, turn: Turn)
    requires
        replied(Talk::List, Reply::Names(list), turn),
    ensures
        turn.next is Finish,
        turn.lines@.len() == 1,
        !turn.lines@[0].err,
        turn.lines@[0]@.parts[0] == (Style::Plain, "supported schedulers: "@),
        forall|i: int|
            #![trigger list@[i]]
            0 <= i < list@.len() ==> turn.lines@[0]@.parts[2 + 2 * i] == (
                Style::Quoted,
                crate::sched::unprefixed(list@[i]@),
            ),
{
    let models = crate::report::line_models(turn.lines@);
    assert(models.len() == turn.lines@.len());
    assert(models[0] == turn.lines@[0]@);
    let short = crate::sched::all_unprefixed(text::views(list@));
    let head = crate::report::LineModel::start(false).with(Style::Plain, "supported schedulers: "@);
    crate::report::lemma_names_listed(head, short);
    assert(models[0] == head.list(short));
    assert(head.parts.len() == 1);
    assert(head.list(short).parts[0] == head.parts[0]);
    assert forall|i: int| 0 <= i < list@.len() implies turn.lines@[0]@.parts[2 + 2 * i] == (
        Style::Quoted,
        crate::sched::unprefixed((#[trigger] list@[i])@),
    ) by {
        assert(short[i] == crate::sched::unprefixed(list@[i]@));
    }
}

/// The modes of a scheduler are asked for where its name is one that the loader
/// offers, with their arguments exactly where those are to be shown.
pub proof fn lemma_modes_asked_for(name: String, show_args: bool, list: Vec<String>, turn: Turn)
    requires
        replied(Talk::Modes(name, show_args), Reply::Names(list), turn),
    ensures
        match turn.next {
            Next::Ask(ask, then) => exists|sched: SupportedSched|
                {
                    &&& full_or_short(#[trigger] sched_text(sched), name@)
                    &&& offers(Reply::Names(list), name@)
                    &&& if show_args {
                        ask == Ask::ModeArgs(sched) && then == Talk::ModeArgsOf(sched)
                    } else {
                        ask == Ask::ConfiguredModes(sched) && then == Talk::ModesOf(sched)
                    }
                },
            Next::Exit => unresolved(Reply::Names(list), name@),
            _ => false,
        },
{
    let reply = Reply::Names(list);
    lemma_unresolved(reply, name@);
    let resolved = choose|resolved: Result<SupportedSched, SchedNameError>| #[trigger]
        resolution(name@, text::views(list@), resolved) && match resolved {
            Ok(s) => turn.next == if show_args {
                Next::Ask(Ask::ModeArgs(s), Talk::ModeArgsOf(s))
            } else {
                Next::Ask(Ask::ConfiguredModes(s), Talk::ModesOf(s))
            },
            Err(err) => turn.next == Next::Exit,
        };
    if let Ok(s) = resolved {
        lemma_offered_name(name@, list, s);
    }
}

proof fn lemma_offered_name(given: Seq<char>, list: Vec<String>, sched: SupportedSched)
    requires
        resolution(
            given,
            text::views(list@),
            Ok::<SupportedSched, SchedNameError>(sched),
        ),
    ensures
        full_or_short(sched_text(sched), given),
        offers(Reply::Names(list), given),
{
    let all = text::views(list@);
    let i = choose|i: int| 0 <= i < all.len() && names_sched(#[trigger] all[i], given);
    crate::sched::lemma_names_sched(all[i], given);
    crate::sched::lemma_prefix(given);
    assert(all[i] == list@[i]@);
    assert(all.len() == list@.len());
    assert(0 <= i < list@.len() && full_or_short(list@[i]@, given));
    let reply = Reply::Names(list);
    assert(reply->Names_0@[i] == list@[i]);
}

/// The arguments of the modes are shown line by line, in the order of the reply: each
/// mode with its arguments, and where it has none, with a remark that it is not
/// configured unless it is the automatic one.
pub proof fn lemma_mode_args_shown(
    sched: SupportedSched,
    entries: Vec<(SchedMode, Vec<String>)>,
    turn: Turn,
)
    requires
        replied(Talk::ModeArgsOf(sched), Reply::ModeArgs(entries), turn),
    ensures
        turn.next is Finish,
        turn.lines@.len() == entries@.len() + 1,
        forall|i: int|
            #![trigger entries@[i]]
            0 <= i < entries@.len() ==> {
                let words = "  "@ + mode_title(entries@[i].0) + ": "@;
                let line = turn.lines@[i + 1]@;
                &&& !line.err
                &&& entries@[i].1@.len() > 0 ==> line.parts == seq![
                    (Style::Plain, words + text::joined(text::views(entries@[i].1@), " "@)),
                ]
                &&& entries@[i].1@.len() == 0 && entries@[i].0 == SchedMode::Auto ==> line.parts
                    == seq![
                    (
                        Style::Plain,
                        words + "(uses "@ + sched_title(sched) + "'s own defaults)"@,
                    ),
                ]
                &&& entries@[i].1@.len() == 0 && entries@[i].0 != SchedMode::Auto ==> line.parts
                    == seq![
                    (
                        Style::Plain,
                        words + "(not configured, uses "@ + sched_title(sched)
                            + "'s own defaults)"@,
                    ),
                ]
            },
{
    let models = crate::report::line_models(turn.lines@);
    assert(models.len() == turn.lines@.len());
    assert forall|i: int| #![trigger entries@[i]] 0 <= i < entries@.len() implies {
        let words = "  "@ + mode_title(entries@[i].0) + ": "@;
        let line = turn.lines@[i + 1]@;
        &&& !line.err
        &&& entries@[i].1@.len() > 0 ==> line.parts == seq![
            (Style::Plain, words + text::joined(text::views(entries@[i].1@), " "@)),
        ]
        &&& entries@[i].1@.len() == 0 && entries@[i].0 == SchedMode::Auto ==> line.parts == seq![
            (Style::Plain, words + "(uses "@ + sched_title(sched) + "'s own defaults)"@),
        ]
        &&& entries@[i].1@.len() == 0 && entries@[i].0 != SchedMode::Auto ==> line.parts == seq![
            (
                Style::Plain,
                words + "(not configured, uses "@ + sched_title(sched) + "'s own defaults)"@,
            ),
        ]
    } by {
        assert(models[i + 1] == turn.lines@[i + 1]@);
        assert(models[i + 1] == crate::ctl::mode_line(sched, entries@[i]));
        let words = crate::ctl::mode_line(sched, entries@[i]).parts[0].1;
        assert(models[i + 1].parts =~= seq![(Style::Plain, words)]);
    }
}

/// The configured modes are listed by their titles, in the order of the reply.
pub proof fn lemma_configured_shown(sched: SupportedSched, modes: Vec<SchedMode>, turn: Turn)
    requires
        replied(Talk::ModesOf(sched), Reply::Modes(modes), turn),
    ensures
        turn.next is Finish,
        turn.lines@.len() == 2,
        !turn.lines@[0].err,
        turn.lines@[0]@.parts == seq![
            (
                Style::Plain,
                "modes configured for "@ + sched_title(sched) + ": ["@ + text::joined(
                    Seq::new(modes@.len(), |i: int| mode_title(modes@[i])),
                    ", "@,
                ) + "]"@,
            ),
        ],
{
    let models = crate::report::line_models(turn.lines@);
    assert(models.len() == turn.lines@.len());
    assert(models[0] == turn.lines@[0]@);
    let names = Seq::new(modes@.len(), |i: int| mode_title(modes@[i]));
    assert(crate::ctl::titles(modes@) =~= names);
    let words = "modes configured for "@ + sched_title(sched) + ": ["@ + text::joined(names, ", "@)
        + "]"@;
    assert(models[0] == crate::report::out(words));
    assert(crate::report::out(words).parts =~= seq![(Style::Plain, words)]);
}

/// A command that exits says why on the error stream, and prints nothing else.
pub proof fn lemma_exits_explained(talk: Talk, reply: Reply, turn: Turn)
    requires
        fits(talk, reply),
        replied(talk, reply, turn),
        turn.next is Exit,
    ensures
        turn.lines@.len() > 0,
        forall|i: int| 0 <= i < turn.lines@.len() ==> (#[trigger] turn.lines@[i]).err,
        turn.lines@[0]@.parts[0] == (Style::Error, "error:"@),
        talk is Start ==> turn.lines@[0]@.parts[2] == (Style::Bold, "switch"@),
        talk is Switch && reply is Text && reply->Text_0@ == UNKNOWN@
            ==> turn.lines@[0]@.parts[2] == (Style::Bold, "start"@),
{
    let models = crate::report::line_models(turn.lines@);
    assert(models.len() == turn.lines@.len());
    assert forall|i: int| 0 <= i < turn.lines@.len() implies models[i] == (
    #[trigger] turn.lines@[i])@ by {}
    assert(models[0] == turn.lines@[0]@);
    if let Reply::Names(list) = reply {
        crate::report::lemma_names_listed(
            crate::report::LineModel::start(true).with(Style::Plain, "supported schedulers: "@),
            crate::sched::all_unprefixed(text::views(list@)),
        );
    }
    assert(models.len() <= 3);
    assert(models[0].err);
    assert(models.len() > 1 ==> models[1].err);
    assert(models.len() > 2 ==> models[2].err);
    assert forall|i: int| 0 <= i < turn.lines@.len() implies (#[trigger] turn.lines@[i]).err by {
        assert(models[i].err);
    }
}

/// A name that did not resolve is given back in the error: with the schedulers that
/// the loader offers where it offers none of that name, and with the advice to update
/// where only this build does not know it.
pub proof fn lemma_name_errors(name: Seq<char>, list: Seq<Seq<char>>)
    ensures
        ({
            let lines = crate::ctl::name_errors(name, list, SchedNameError::UnknownName);
            &&& lines.len() == 3
            &&& lines[0].parts[2] == (Style::Value, name)
            &&& lines[1].parts[0] == (Style::Plain, "supported schedulers: "@)
            &&& forall|i: int|
                #![trigger list[i]]
                0 <= i < list.len() ==> lines[1].parts[2 + 2 * i] == (
                    Style::Quoted,
                    crate::sched::unprefixed(list[i]),
                )
        }),
        ({
            let lines = crate::ctl::name_errors(name, list, SchedNameError::UnsupportedByClient);
            &&& lines.len() == 1
            &&& lines[0].parts[1] == (Style::Plain, " scx_loader supports '"@)
            &&& lines[0].parts[2] == (Style::Value, name)
            &&& lines[0].parts[3] == (
                Style::Plain,
                "', but this scxctl build does not; update scxctl"@,
            )
        }),
{
    let head = crate::report::LineModel::start(true).with(Style::Plain, "supported schedulers: "@);
    let short = crate::sched::all_unprefixed(list);
    crate::report::lemma_names_listed(head, short);
    assert(head.list(short).parts[0] == head.parts[0]);
    assert forall|i: int| #![trigger list[i]] 0 <= i < list.len() implies head.list(
        short,
    ).parts[2 + 2 * i] == (Style::Quoted, crate::sched::unprefixed(list[i])) by {
        assert(short[i] == crate::sched::unprefixed(list[i]));
    }
}

/// Arguments that were refused are explained: with the reason where they do not
/// parse, and with the way to the scheduler's own defaults where they hold nothing.
pub proof fn lemma_refused_args(why: Seq<char>)
    ensures
        crate::report::invalid_args(why).len() == 2,
        crate::report::invalid_args(why)[0].parts[2] == (Style::Bold, "--args <ARGS>"@),
        crate::report::invalid_args(why)[0].parts[3] == (Style::Plain, "': "@ + why),
        crate::report::empty_args().len() == 2,
        crate::report::empty_args()[0].parts[3] == (Style::Plain, "' expanded to no arguments"@),
        crate::report::empty_args()[1].parts[1] == (Style::Bold, "--args"@),
{
}

/// Arguments that do not expand end a command with the explanation, and no request.
pub proof fn lemma_bad_args_explained(
    turn: Turn,
    order: Order,
    sched: SupportedSched,
    expansion: args::Expansion,
)
    requires
        crate::ctl::orders_args(turn, order, sched, expansion),
    ensures
        expansion matches args::Expansion::Invalid(why) ==> turn.next == Next::Exit
            && crate::report::line_models(turn.lines@) == crate::report::invalid_args(why),
        expansion is Nothing ==> turn.next == Next::Exit && crate::report::line_models(turn.lines@)
            == crate::report::empty_args(),
        expansion matches args::Expansion::Args(words) ==> turn.next is Ask && (
        turn.next->Ask_0 matches Ask::RunWithArgs(o, s, list) && o == order && s == sched
            && text::views(list@) == words),
{
}

/// Each command opens with its own request, and those about holds with none.
pub proof fn lemma_opened(command: crate::cli::Commands, first: Option<(Ask, Talk)>)
    requires
        call_ensures(crate::ctl::open, (command,), first),
    ensures
        match command {
            crate::cli::Commands::Get => first == Some((Ask::CurrentScheduler, Talk::Get)),
            crate::cli::Commands::List => first == Some((Ask::Supported, Talk::List)),
            crate::cli::Commands::Stop => first == Some((Ask::Stop, Talk::Stop)),
            crate::cli::Commands::Restart => first == Some((Ask::Restart, Talk::Restart)),
            crate::cli::Commands::Restore => first == Some((Ask::DefaultScheduler, Talk::Restore)),
            crate::cli::Commands::Modes { args } => first == Some(
                (Ask::Supported, Talk::Modes(args.sched, args.show_args)),
            ),
            crate::cli::Commands::Start { args } => first == Some(
                (Ask::CurrentScheduler, Talk::Start(args)),
            ),
            crate::cli::Commands::Switch { args } => first == Some(
                (Ask::CurrentScheduler, Talk::Switch(args)),
            ),
            _ => first is None,
        },
{
}

} // verus!
