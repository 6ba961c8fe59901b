//! The kernel's own view of `sched_ext`.
//!
//! The loader only knows about schedulers that it started; the kernel knows
//! what is attached. Setting the two side by side lets the interface show
//! ground truth and flag disagreements.
use vstd::prelude::*;

use crate::sched::{unprefixed, SCHED_PREFIX};
use crate::text;
use crate::text::opt_view;

verus! {

pub struct KernelState {
    /// "enabled", "disabled", or a transitional value ("enabling",
    /// "disabling") when a switch is caught mid-flight. Empty when it could not be
    /// read.
    pub state: String,
    /// Name that the attached scheduler registered with, typically without the
    /// scheduler prefix ("lavd" for `scx_lavd`).
    pub ops: Option<String>,
}

/// Whether `ops` is `name`, or `name` with a detail behind an underscore.
pub open spec fn ops_named(ops: Seq<char>, name: Seq<char>) -> bool {
    ops == name || name.push('_').is_prefix_of(ops)
}

/// Whether `ops` is a form of the given scheduler name, with or without its
/// prefix.
pub open spec fn ops_match(ops: Seq<char>, loader_name: Seq<char>) -> bool {
    ops_named(ops, loader_name) || ops_named(ops, unprefixed(loader_name))
}

fn is_ops_named(ops: &str, name: &str) -> (yes: bool)
    ensures
        yes == ops_named(ops@, name@),
{
    if text::text_eq(ops, name) {
        return true;
    }
    let mut detailed = name.to_owned();
    detailed.push('_');
    text::starts_with(ops, detailed.as_str())
}

impl KernelState {
    pub fn enabled(&self) -> (yes: bool)
        ensures
            yes == (self.state@ == "enabled"@),
    {
        text::text_eq(self.state.as_str(), "enabled")
    }

    /// Whether `loader_name` (full name, such as `scx_lavd`) plausibly matches
    /// the ops that the kernel reports. Ops names are chosen by each scheduler
    /// and some embed extra detail, with or without the prefix, so beyond an
    /// exact match an ops name that starts with either form of the scheduler
    /// name followed by `_` also counts.
    pub fn matches(&self, loader_name: &str) -> (yes: bool)
        ensures
            yes == match self.ops {
                Some(ops) => ops_match(ops@, loader_name@),
                None => false,
            },
    {
        let stripped = match text::strip_prefix(loader_name, SCHED_PREFIX) {
            Some(rest) => rest,
            None => loader_name,
        };
        match &self.ops {
            Some(ops) => is_ops_named(ops.as_str(), loader_name) || is_ops_named(
                ops.as_str(),
                stripped,
            ),
            None => false,
        }
    }

    /// Makes the state out of the contents of the kernel's `state` and `root/ops`
    /// files, as far as they could be read. `present` tells whether the directory
    /// that holds them is there; where it is not, the kernel has no `sched_ext`
    /// support, and there is no state. An absent or blank `root/ops` means that no
    /// scheduler is attached.
    pub fn from_files(present: bool, state: Option<&str>, ops: Option<&str>) -> (kernel: Option<
        KernelState,
    >)
        ensures
            kernel is None <==> !present,
            kernel matches Some(k) ==> k.state@ == (match state {
                Some(s) => text::trimmed(s@),
                None => Seq::empty(),
            }),
            kernel matches Some(k) ==> opt_view(k.ops) == (match ops {
                Some(o) => if text::trimmed(o@).len() > 0 {
                    Some(text::trimmed(o@))
                } else {
                    None
                },
                None => None,
            }),
    {
        if !present {
            return None;
        }
        let state = match state {
            Some(s) => text::trim(s),
            None => String::new(),
        };
        let ops = match ops {
            Some(o) => {
                let name = text::trim(o);
                if name.as_str().is_empty() {
                    None
                } else {
                    Some(name)
                }
            },
            None => None,
        };
        Some(KernelState { state, ops })
    }
}

/// How the kernel and the backend disagree about what runs.
#[derive(Debug, Clone, Copy, PartialEq, Eq, Structural)]
pub enum Disagreement {
    /// A scheduler is attached that the backend knows nothing of.
    Unmanaged,
    /// The backend names a scheduler, and none is attached.
    Detached,
    /// Another scheduler is attached than the one that the backend names.
    OtherOps,
}

/// Tells how the kernel and the backend disagree, where they do. `current` is
/// what the backend names. A state that could not be read disagrees with nothing.
pub fn disagreement(kernel: &KernelState, current: Option<&str>) -> (found: Option<Disagreement>)
    ensures
        found == if kernel.state@.len() == 0 {
            None
        } else {
            match current {
                None => if kernel.state@ == "enabled"@ {
                    Some(Disagreement::Unmanaged)
                } else {
                    None
                },
                Some(name) => if kernel.state@ != "enabled"@ {
                    Some(Disagreement::Detached)
                } else if kernel.ops matches Some(ops) && ops_match(ops@, name@) {
                    None
                } else {
                    Some(Disagreement::OtherOps)
                },
            }
        },
{
    if kernel.state.as_str().is_empty() {
        return None;
    }
    match current {
        None => if kernel.enabled() {
            Some(Disagreement::Unmanaged)
        } else {
            None
        },
        Some(name) => if !kernel.enabled() {
            Some(Disagreement::Detached)
        } else if kernel.matches(name) {
            None
        } else {
            Some(Disagreement::OtherOps)
        },
    }
}

/// A scheduler matches the ops that carry its own name, in full or without the
/// prefix, bare or with any detail behind an underscore.
pub proof fn lemma_own_name_matches(name: Seq<char>, detail: Seq<char>)
    ensures
        ops_match(name, name),
        ops_match(unprefixed(name), name),
        ops_match(name + "_"@ + detail, name),
        ops_match(unprefixed(name) + "_"@ + detail, name),
{
    reveal_strlit("_");
    assert(name + "_"@ =~= name.push('_'));
    assert(name.push('_').is_prefix_of(name + "_"@ + detail));
    let short = unprefixed(name);
    assert(short + "_"@ =~= short.push('_'));
    assert(short.push('_').is_prefix_of(short + "_"@ + detail));
}

/// A longer name that merely begins like the scheduler's, in full or without
/// the prefix, and goes on without an underscore does not match it. Names that
/// begin like the prefix itself once it is removed are left out: `scx_scx` has
/// the short form `scx`, which any name with the prefix matches.
pub proof fn lemma_longer_name_differs(short: Seq<char>, tail: Seq<char>)
    requires
        tail.len() > 0,
        tail[0] != '_',
        !"scx"@.is_prefix_of(short + tail),
    ensures
        !ops_match(SCHED_PREFIX@ + short + tail, SCHED_PREFIX@ + short),
        !ops_match(short + tail, SCHED_PREFIX@ + short),
{
    reveal_strlit("scx_");
    reveal_strlit("scx");
    let name = SCHED_PREFIX@ + short;
    assert(unprefixed(name) =~= short);
    let bare = short + tail;
    let full = SCHED_PREFIX@ + short + tail;
    assert(full[name.len() as int] == tail[0]);
    assert(bare[short.len() as int] == tail[0]);
    assert(name.push('_')[name.len() as int] == '_');
    assert(short.push('_')[short.len() as int] == '_');
    assert(full[0] == 's' && full[1] == 'c' && full[2] == 'x' && full[3] == '_');
    assert(!(bare.len() >= 3 && bare[0] == 's' && bare[1] == 'c' && bare[2] == 'x')) by {
        if bare.len() >= 3 && bare[0] == 's' && bare[1] == 'c' && bare[2] == 'x' {
            assert("scx"@ =~= bare.take(3));
        }
    }
    if short.push('_').is_prefix_of(full) {
        let p = short.push('_');
        assert(forall|i: int| 0 <= i < p.len() ==> #[trigger] p[i] == full[i]);
        assert(p[short.len() as int] == full[short.len() as int]);
        if short.len() >= 3 {
            assert(p[0] == full[0] && p[1] == full[1] && p[2] == full[2]);
            assert(bare[0] == p[0] && bare[1] == p[1] && bare[2] == p[2]);
        }
    }
    if bare == name || name.push('_').is_prefix_of(bare) {
        assert(name.is_prefix_of(bare)) by {
            if bare != name {
                assert(name =~= bare.take(name.len() as int)) by {
                    assert(forall|i: int| 0 <= i < name.len() ==> name.push('_')[i] == #[trigger] name[i]);
                }
            } else {
                assert(name =~= bare.take(name.len() as int));
            }
        }
        assert(name[0] == bare[0] && name[1] == bare[1] && name[2] == bare[2]);
    }
    if short.push('_').is_prefix_of(bare) {
        assert(short.push('_')[short.len() as int] == bare[short.len() as int]);
    }
    if name.push('_').is_prefix_of(full) {
        assert(name.push('_')[name.len() as int] == full[name.len() as int]);
    }
}

/// A name matches exactly where it is the scheduler's, in full or without the
/// prefix, or begins with one of the two and an underscore.
pub proof fn lemma_matches_exactly(ops: Seq<char>, name: Seq<char>)
    ensures
        ops_match(ops, name) <==> {
            ||| ops == name
            ||| ops == unprefixed(name)
            ||| exists|detail: Seq<char>| ops == #[trigger] (name + "_"@ + detail)
            ||| exists|detail: Seq<char>| ops == #[trigger] (unprefixed(name) + "_"@ + detail)
        },
{
    reveal_strlit("_");
    let short = unprefixed(name);
    if name.push('_').is_prefix_of(ops) {
        let lead = name.push('_');
        assert(lead =~= name + "_"@);
        assert(forall|i: int| 0 <= i < lead.len() ==> #[trigger] lead[i] == ops[i]);
        assert(ops =~= lead + ops.skip(lead.len() as int));
    }
    if short.push('_').is_prefix_of(ops) {
        let lead = short.push('_');
        assert(lead =~= short + "_"@);
        assert(forall|i: int| 0 <= i < lead.len() ==> #[trigger] lead[i] == ops[i]);
        assert(ops =~= lead + ops.skip(lead.len() as int));
    }
    assert forall|detail: Seq<char>| ops == #[trigger] (name + "_"@ + detail) implies ops_match(
        ops,
        name,
    ) by {
        lemma_own_name_matches(name, detail);
    }
    assert forall|detail: Seq<char>| ops == #[trigger] (short + "_"@ + detail) implies ops_match(
        ops,
        name,
    ) by {
        lemma_own_name_matches(name, detail);
    }
}

/// The kernel and the backend are said to disagree exactly where one of them has a
/// scheduler that the other has not. Nothing is said where the state could not be
/// read.
pub proof fn lemma_disagreement(
    kernel: &KernelState,
    current: Option<&str>,
    found: Option<Disagreement>,
)
    requires
        call_ensures(disagreement, (kernel, current), found),
    ensures
        kernel.state@.len() == 0 ==> found is None,
        kernel.state@.len() > 0 ==> {
            let attached = kernel.state@ == "enabled"@;
            &&& found == Some(Disagreement::Unmanaged) <==> attached && current is None
            &&& found == Some(Disagreement::Detached) <==> !attached && current is Some
            &&& found == Some(Disagreement::OtherOps) <==> attached && current is Some && !(
            kernel.ops is Some && ops_match(kernel.ops->0@, current->0@))
        },
{
}

/// There is a state exactly where the kernel's directory is there. It holds what the
/// files hold, without white space at the ends, and never a blank name.
pub proof fn lemma_files_read(
    present: bool,
    state: Option<&str>,
    ops: Option<&str>,
    kernel: Option<KernelState>,
)
    requires
        call_ensures(KernelState::from_files, (present, state, ops), kernel),
    ensures
        kernel is Some <==> present,
        kernel matches Some(k) ==> {
            &&& state is Some ==> k.state@ == text::trimmed(state->0@)
            &&& state is None ==> k.state@.len() == 0
            &&& k.ops is Some <==> ops is Some && text::trimmed(ops->0@).len() > 0
            &&& k.ops is Some ==> k.ops->0@ == text::trimmed(ops->0@) && k.ops->0@.len() > 0
        },
{
}

} // verus!
