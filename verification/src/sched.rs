//! Schedulers and their operating modes: names, numbers and the resolution of
//! names that a user typed.
use vstd::prelude::*;
use vstd::string::StringExecFns;

use crate::text;

verus! {

/// What the loader reports in place of a scheduler name when nothing is
/// running or configured.
pub const UNKNOWN: &'static str = "unknown";

/// What every scheduler name starts with.
pub const SCHED_PREFIX: &'static str = "scx_";

/// Operating mode of a scheduler.
#[derive(Debug, Clone, Copy, PartialEq, Eq, Structural)]
pub enum SchedMode {
    /// The scheduler's own defaults.
    Auto,
    Gaming,
    PowerSave,
    LowLatency,
    Server,
}

/// All modes, in the cycling order used by the mode selector.
pub const MODES: [SchedMode; 5] = [
    SchedMode::Auto,
    SchedMode::Gaming,
    SchedMode::PowerSave,
    SchedMode::LowLatency,
    SchedMode::Server,
];

/// The number that a mode travels as.
pub open spec fn mode_number(mode: SchedMode) -> u32 {
    match mode {
        SchedMode::Auto => 0,
        SchedMode::Gaming => 1,
        SchedMode::PowerSave => 2,
        SchedMode::LowLatency => 3,
        SchedMode::Server => 4,
    }
}

/// Lower-case mode name.
pub open spec fn mode_text(mode: SchedMode) -> Seq<char> {
    match mode {
        SchedMode::Auto => "auto"@,
        SchedMode::Gaming => "gaming"@,
        SchedMode::PowerSave => "powersave"@,
        SchedMode::LowLatency => "lowlatency"@,
        SchedMode::Server => "server"@,
    }
}

/// Mode name as the command line prints it.
pub open spec fn mode_title(mode: SchedMode) -> Seq<char> {
    match mode {
        SchedMode::Auto => "Auto"@,
        SchedMode::Gaming => "Gaming"@,
        SchedMode::PowerSave => "PowerSave"@,
        SchedMode::LowLatency => "LowLatency"@,
        SchedMode::Server => "Server"@,
    }
}

impl SchedMode {
    /// The number that the mode travels as.
    pub fn number(self) -> (n: u32)
        ensures
            n == mode_number(self),
    {
        match self {
            SchedMode::Auto => 0,
            SchedMode::Gaming => 1,
            SchedMode::PowerSave => 2,
            SchedMode::LowLatency => 3,
            SchedMode::Server => 4,
        }
    }

    /// The mode with the given number, if there is one.
    pub fn from_number(n: u32) -> (mode: Option<SchedMode>)
        ensures
            match mode {
                Some(m) => mode_number(m) == n,
                None => forall|m: SchedMode| mode_number(m) != n,
            },
    {
        match n {
            0 => Some(SchedMode::Auto),
            1 => Some(SchedMode::Gaming),
            2 => Some(SchedMode::PowerSave),
            3 => Some(SchedMode::LowLatency),
            4 => Some(SchedMode::Server),
            _ => None,
        }
    }

    /// Mode name as the command line prints it.
    pub fn title(self) -> (s: &'static str)
        ensures
            s@ == mode_title(self),
    {
        match self {
            SchedMode::Auto => "Auto",
            SchedMode::Gaming => "Gaming",
            SchedMode::PowerSave => "PowerSave",
            SchedMode::LowLatency => "LowLatency",
            SchedMode::Server => "Server",
        }
    }
}

/// Lower-case mode name, matching the status panel and the command line.
pub fn mode_label(mode: SchedMode) -> (s: &'static str)
    ensures
        s@ == mode_text(mode),
{
    match mode {
        SchedMode::Auto => "auto",
        SchedMode::Gaming => "gaming",
        SchedMode::PowerSave => "powersave",
        SchedMode::LowLatency => "lowlatency",
        SchedMode::Server => "server",
    }
}

/// No two modes share a number, so a mode is recovered from its number.
pub proof fn lemma_mode_number_injective(a: SchedMode, b: SchedMode)
    requires
        mode_number(a) == mode_number(b),
    ensures
        a == b,
{
}

/// Position of a mode in the mode selector.
pub open spec fn mode_index(mode: SchedMode) -> int {
    mode_number(mode) as int
}

/// Position of a mode in [`MODES`].
pub fn mode_position(mode: SchedMode) -> (i: usize)
    ensures
        i == mode_index(mode),
        i < 5,
        MODES@[i as int] == mode,
{
    match mode {
        SchedMode::Auto => 0,
        SchedMode::Gaming => 1,
        SchedMode::PowerSave => 2,
        SchedMode::LowLatency => 3,
        SchedMode::Server => 4,
    }
}

/// A scheduler that the loader can run.
#[derive(Debug, Clone, Copy, PartialEq, Eq, Structural)]
pub enum SupportedSched {
    Beerland,
    Bpfland,
    Cake,
    Cosmos,
    Flash,
    Flow,
    Lavd,
    Pandemonium,
    P2DQ,
    Tickless,
    Rustland,
    Rusty,
}

/// Full scheduler name, which is also the name of its binary.
pub open spec fn sched_text(sched: SupportedSched) -> Seq<char> {
    match sched {
        SupportedSched::Beerland => "scx_beerland"@,
        SupportedSched::Bpfland => "scx_bpfland"@,
        SupportedSched::Cake => "scx_cake"@,
        SupportedSched::Cosmos => "scx_cosmos"@,
        SupportedSched::Flash => "scx_flash"@,
        SupportedSched::Flow => "scx_flow"@,
        SupportedSched::Lavd => "scx_lavd"@,
        SupportedSched::Pandemonium => "scx_pandemonium"@,
        SupportedSched::P2DQ => "scx_p2dq"@,
        SupportedSched::Tickless => "scx_tickless"@,
        SupportedSched::Rustland => "scx_rustland"@,
        SupportedSched::Rusty => "scx_rusty"@,
    }
}

/// Scheduler name as the command line prints it.
pub open spec fn sched_title(sched: SupportedSched) -> Seq<char> {
    match sched {
        SupportedSched::Beerland => "Beerland"@,
        SupportedSched::Bpfland => "Bpfland"@,
        SupportedSched::Cake => "Cake"@,
        SupportedSched::Cosmos => "Cosmos"@,
        SupportedSched::Flash => "Flash"@,
        SupportedSched::Flow => "Flow"@,
        SupportedSched::Lavd => "Lavd"@,
        SupportedSched::Pandemonium => "Pandemonium"@,
        SupportedSched::P2DQ => "P2DQ"@,
        SupportedSched::Tickless => "Tickless"@,
        SupportedSched::Rustland => "Rustland"@,
        SupportedSched::Rusty => "Rusty"@,
    }
}

proof fn reveal_names()
    ensures
        "scx_beerland"@.len() == 12,
        "scx_bpfland"@.len() == 11,
        "scx_cake"@.len() == 8,
        "scx_cosmos"@.len() == 10,
        "scx_flash"@.len() == 9,
        "scx_flow"@.len() == 8,
        "scx_lavd"@.len() == 8,
        "scx_pandemonium"@.len() == 15,
        "scx_p2dq"@.len() == 8,
        "scx_tickless"@.len() == 12,
        "scx_rustland"@.len() == 12,
        "scx_rusty"@.len() == 9,
        "scx_beerland"@[4] == 'b',
        "scx_tickless"@[4] == 't',
        "scx_rustland"@[4] == 'r',
        "scx_cake"@[4] == 'c',
        "scx_flow"@[4] == 'f',
        "scx_lavd"@[4] == 'l',
        "scx_p2dq"@[4] == 'p',
        "scx_flash"@[4] == 'f',
        "scx_rusty"@[4] == 'r',
{
    reveal_strlit("scx_beerland");
    reveal_strlit("scx_bpfland");
    reveal_strlit("scx_cake");
    reveal_strlit("scx_cosmos");
    reveal_strlit("scx_flash");
    reveal_strlit("scx_flow");
    reveal_strlit("scx_lavd");
    reveal_strlit("scx_pandemonium");
    reveal_strlit("scx_p2dq");
    reveal_strlit("scx_tickless");
    reveal_strlit("scx_rustland");
    reveal_strlit("scx_rusty");
}

/// No two schedulers share a name, so a scheduler is recovered from its name.
pub proof fn lemma_sched_text_injective(a: SupportedSched, b: SupportedSched)
    requires
        sched_text(a) == sched_text(b),
    ensures
        a == b,
{
    reveal_names();
}

impl SupportedSched {
    /// Full scheduler name.
    pub fn name(self) -> (s: &'static str)
        ensures
            s@ == sched_text(self),
    {
        match self {
            SupportedSched::Beerland => "scx_beerland",
            SupportedSched::Bpfland => "scx_bpfland",
            SupportedSched::Cake => "scx_cake",
            SupportedSched::Cosmos => "scx_cosmos",
            SupportedSched::Flash => "scx_flash",
            SupportedSched::Flow => "scx_flow",
            SupportedSched::Lavd => "scx_lavd",
            SupportedSched::Pandemonium => "scx_pandemonium",
            SupportedSched::P2DQ => "scx_p2dq",
            SupportedSched::Tickless => "scx_tickless",
            SupportedSched::Rustland => "scx_rustland",
            SupportedSched::Rusty => "scx_rusty",
        }
    }

    /// Scheduler name as the command line prints it.
    pub fn title(self) -> (s: &'static str)
        ensures
            s@ == sched_title(self),
    {
        match self {
            SupportedSched::Beerland => "Beerland",
            SupportedSched::Bpfland => "Bpfland",
            SupportedSched::Cake => "Cake",
            SupportedSched::Cosmos => "Cosmos",
            SupportedSched::Flash => "Flash",
            SupportedSched::Flow => "Flow",
            SupportedSched::Lavd => "Lavd",
            SupportedSched::Pandemonium => "Pandemonium",
            SupportedSched::P2DQ => "P2DQ",
            SupportedSched::Tickless => "Tickless",
            SupportedSched::Rustland => "Rustland",
            SupportedSched::Rusty => "Rusty",
        }
    }

    /// The scheduler with the given full name, if there is one.
    pub fn from_name(name: &str) -> (sched: Option<SupportedSched>)
        ensures
            match sched {
                Some(s) => sched_text(s) == name@,
                None => forall|s: SupportedSched| sched_text(s) != name@,
            },
    {
        let all = all_scheds();
        let mut i: usize = 0;
        while i < all.len()
            invariant
                i <= all@.len(),
                all@ == all_in_order(),
                forall|k: int| 0 <= k < i ==> sched_text(#[trigger] all@[k]) != name@,
            decreases all@.len() - i,
        {
            if text::text_eq(all[i].name(), name) {
                return Some(all[i]);
            }
            i += 1;
        }
        proof {
            assert forall|s: SupportedSched| sched_text(s) != name@ by {
                let k = sched_position(s);
                assert(all@[k] == s);
            }
        }
        None
    }
}

/// Every scheduler, in the order in which the loader advertises them.
pub open spec fn all_in_order() -> Seq<SupportedSched> {
    seq![
        SupportedSched::Beerland,
        SupportedSched::Bpfland,
        SupportedSched::Cake,
        SupportedSched::Cosmos,
        SupportedSched::Flash,
        SupportedSched::Flow,
        SupportedSched::Lavd,
        SupportedSched::Pandemonium,
        SupportedSched::P2DQ,
        SupportedSched::Tickless,
        SupportedSched::Rustland,
        SupportedSched::Rusty,
    ]
}

spec fn sched_position(sched: SupportedSched) -> int {
    match sched {
        SupportedSched::Beerland => 0,
        SupportedSched::Bpfland => 1,
        SupportedSched::Cake => 2,
        SupportedSched::Cosmos => 3,
        SupportedSched::Flash => 4,
        SupportedSched::Flow => 5,
        SupportedSched::Lavd => 6,
        SupportedSched::Pandemonium => 7,
        SupportedSched::P2DQ => 8,
        SupportedSched::Tickless => 9,
        SupportedSched::Rustland => 10,
        SupportedSched::Rusty => 11,
    }
}

fn all_scheds() -> (all: [SupportedSched; 12])
    ensures
        all@ == all_in_order(),
{
    let all = [
        SupportedSched::Beerland,
        SupportedSched::Bpfland,
        SupportedSched::Cake,
        SupportedSched::Cosmos,
        SupportedSched::Flash,
        SupportedSched::Flow,
        SupportedSched::Lavd,
        SupportedSched::Pandemonium,
        SupportedSched::P2DQ,
        SupportedSched::Tickless,
        SupportedSched::Rustland,
        SupportedSched::Rusty,
    ];
    assert(all@ =~= all_in_order());
    all
}

/// The names of every scheduler, as the loader advertises them.
pub open spec fn advertised() -> Seq<Seq<char>> {
    all_in_order().map_values(|s: SupportedSched| sched_text(s))
}

/// Lists the full names of every scheduler that the loader can run.
pub fn supported_names() -> (names: Vec<&'static str>)
    ensures
        names@.map_values(|s: &'static str| s@) == advertised(),
{
    let all = all_scheds();
    let mut names: Vec<&'static str> = Vec::new();
    let mut i: usize = 0;
    while i < all.len()
        invariant
            i <= all@.len(),
            all@ == all_in_order(),
            names@.map_values(|s: &'static str| s@) == advertised().take(i as int),
        decreases all@.len() - i,
    {
        let ghost before = names@;
        names.push(all[i].name());
        proof {
            let f = |s: &'static str| s@;
            assert(names@.map_values(f) =~= before.map_values(f).push(sched_text(all@[i as int])));
            assert(advertised().take(i + 1) =~= advertised().take(i as int).push(
                sched_text(all@[i as int]),
            ));
        }
        i += 1;
    }
    assert(advertised().take(i as int) =~= advertised());
    names
}

/// `name` with the scheduler prefix in front, unless it has it.
pub open spec fn prefixed(name: Seq<char>) -> Seq<char> {
    if SCHED_PREFIX@.is_prefix_of(name) {
        name
    } else {
        SCHED_PREFIX@ + name
    }
}

/// `name` without the scheduler prefix.
pub open spec fn unprefixed(name: Seq<char>) -> Seq<char> {
    match text::stripped(name, SCHED_PREFIX@) {
        Some(rest) => rest,
        None => name,
    }
}

/// Puts the scheduler prefix in front of a name that lacks it.
pub fn ensure_scx_prefix(input: &str) -> (name: String)
    ensures
        name@ == prefixed(input@),
{
    if text::starts_with(input, SCHED_PREFIX) {
        return input.to_owned();
    }
    let mut name = SCHED_PREFIX.to_owned();
    name.append(input);
    name
}

/// Removes the scheduler prefix from a name that has it.
pub fn remove_scx_prefix(input: &str) -> (name: String)
    ensures
        name@ == unprefixed(input@),
{
    match text::strip_prefix(input, SCHED_PREFIX) {
        Some(rest) => rest.to_owned(),
        None => input.to_owned(),
    }
}

/// The names of a list without their prefixes.
pub open spec fn all_unprefixed(names: Seq<Seq<char>>) -> Seq<Seq<char>> {
    names.map_values(|name: Seq<char>| unprefixed(name))
}

/// Removes the scheduler prefix from every name of a list.
pub fn remove_scx_prefixes(names: &[String]) -> (out: Vec<String>)
    ensures
        text::views(out@) == all_unprefixed(text::views(names@)),
{
    let mut out: Vec<String> = Vec::new();
    let ghost wanted = all_unprefixed(text::views(names@));
    let mut i: usize = 0;
    while i < names.len()
        invariant
            i <= names@.len(),
            wanted == all_unprefixed(text::views(names@)),
            text::views(out@) == wanted.take(i as int),
        decreases names@.len() - i,
    {
        let ghost before = out@;
        let next = remove_scx_prefix(names[i].as_str());
        out.push(next);
        proof {
            assert(text::views(out@) =~= text::views(before).push(next@));
            assert(wanted.take(i + 1) =~= wanted.take(i as int).push(next@));
        }
        i += 1;
    }
    assert(wanted.take(i as int) =~= wanted);
    out
}

/// Why a scheduler name that a user gave failed to resolve.
#[derive(Debug, Clone, Copy, PartialEq, Eq, Structural)]
pub enum SchedNameError {
    /// The name is not on the list of schedulers that the loader reports.
    UnknownName,
    /// The loader reports the scheduler as supported, but this build has no
    /// matching [`SupportedSched`].
    UnsupportedByClient,
}

/// Whether a reported name is the given one, with or without its prefix.
pub open spec fn names_sched(reported: Seq<char>, sched: Seq<char>) -> bool {
    reported == sched || unprefixed(reported) == sched
}

/// Resolves a scheduler name, with or without the prefix, against the list of
/// schedulers that the loader reports.
pub fn resolve_sched_name(sched: &str, raw_supported_scheds: &[String]) -> (resolved: Result<
    SupportedSched,
    SchedNameError,
>)
    ensures
        match resolved {
            Ok(s) => sched_text(s) == prefixed(sched@) && exists|i: int|
                0 <= i < raw_supported_scheds@.len() && names_sched(
                    (#[trigger] raw_supported_scheds@[i])@,
                    sched@,
                ),
            Err(SchedNameError::UnknownName) => forall|i: int|
                0 <= i < raw_supported_scheds@.len() ==> !names_sched(
                    (#[trigger] raw_supported_scheds@[i])@,
                    sched@,
                ),
            Err(SchedNameError::UnsupportedByClient) => (forall|s: SupportedSched|
                sched_text(s) != prefixed(sched@)) && exists|i: int|
                0 <= i < raw_supported_scheds@.len() && names_sched(
                    (#[trigger] raw_supported_scheds@[i])@,
                    sched@,
                ),
        },
{
    let mut i: usize = 0;
    while i < raw_supported_scheds.len()
        invariant
            i <= raw_supported_scheds@.len(),
            forall|k: int|
                0 <= k < i ==> !names_sched((#[trigger] raw_supported_scheds@[k])@, sched@),
        decreases raw_supported_scheds@.len() - i,
    {
        let raw = raw_supported_scheds[i].as_str();
        if text::text_eq(raw, sched) || text::text_eq(remove_scx_prefix(raw).as_str(), sched) {
            assert(names_sched(raw_supported_scheds@[i as int]@, sched@));
            return match SupportedSched::from_name(ensure_scx_prefix(sched).as_str()) {
                Some(s) => Ok(s),
                None => Err(SchedNameError::UnsupportedByClient),
            };
        }
        i += 1;
    }
    Err(SchedNameError::UnknownName)
}

/// What each mode is called and counted as.
pub proof fn lemma_mode_names()
    ensures
        mode_number(SchedMode::Auto) == 0,
        mode_number(SchedMode::Gaming) == 1,
        mode_number(SchedMode::PowerSave) == 2,
        mode_number(SchedMode::LowLatency) == 3,
        mode_number(SchedMode::Server) == 4,
        mode_text(SchedMode::Auto) == "auto"@,
        mode_text(SchedMode::Gaming) == "gaming"@,
        mode_text(SchedMode::PowerSave) == "powersave"@,
        mode_text(SchedMode::LowLatency) == "lowlatency"@,
        mode_text(SchedMode::Server) == "server"@,
        mode_title(SchedMode::Auto) == "Auto"@,
        mode_title(SchedMode::Gaming) == "Gaming"@,
        mode_title(SchedMode::PowerSave) == "PowerSave"@,
        mode_title(SchedMode::LowLatency) == "LowLatency"@,
        mode_title(SchedMode::Server) == "Server"@,
        forall|mode: SchedMode| MODES@[#[trigger] mode_index(mode)] == mode && mode_index(mode)
            == mode_number(mode),
{
    assert forall|mode: SchedMode| MODES@[#[trigger] mode_index(mode)] == mode && mode_index(mode)
        == mode_number(mode) by {
        match mode {
            SchedMode::Auto => {},
            SchedMode::Gaming => {},
            SchedMode::PowerSave => {},
            SchedMode::LowLatency => {},
            SchedMode::Server => {},
        }
    }
}

/// What each scheduler is called: its name in full, and its title.
pub proof fn lemma_sched_names()
    ensures
        sched_text(SupportedSched::Beerland) == "scx_beerland"@,
        sched_text(SupportedSched::Bpfland) == "scx_bpfland"@,
        sched_text(SupportedSched::Cake) == "scx_cake"@,
        sched_text(SupportedSched::Cosmos) == "scx_cosmos"@,
        sched_text(SupportedSched::Flash) == "scx_flash"@,
        sched_text(SupportedSched::Flow) == "scx_flow"@,
        sched_text(SupportedSched::Lavd) == "scx_lavd"@,
        sched_text(SupportedSched::Pandemonium) == "scx_pandemonium"@,
        sched_text(SupportedSched::P2DQ) == "scx_p2dq"@,
        sched_text(SupportedSched::Tickless) == "scx_tickless"@,
        sched_text(SupportedSched::Rustland) == "scx_rustland"@,
        sched_text(SupportedSched::Rusty) == "scx_rusty"@,
        sched_title(SupportedSched::Beerland) == "Beerland"@,
        sched_title(SupportedSched::Bpfland) == "Bpfland"@,
        sched_title(SupportedSched::Cake) == "Cake"@,
        sched_title(SupportedSched::Cosmos) == "Cosmos"@,
        sched_title(SupportedSched::Flash) == "Flash"@,
        sched_title(SupportedSched::Flow) == "Flow"@,
        sched_title(SupportedSched::Lavd) == "Lavd"@,
        sched_title(SupportedSched::Pandemonium) == "Pandemonium"@,
        sched_title(SupportedSched::P2DQ) == "P2DQ"@,
        sched_title(SupportedSched::Tickless) == "Tickless"@,
        sched_title(SupportedSched::Rustland) == "Rustland"@,
        sched_title(SupportedSched::Rusty) == "Rusty"@,
{
}

/// Every scheduler is advertised once, under its full name.
pub proof fn lemma_advertised_once(sched: SupportedSched)
    ensures
        advertised().len() == 12,
        advertised().contains(sched_text(sched)),
        forall|i: int, j: int|
            0 <= i < j < advertised().len() ==> #[trigger] advertised()[i]
                != #[trigger] advertised()[j],
{
    let all = all_in_order();
    assert(all[sched_position(sched)] == sched);
    assert(advertised()[sched_position(sched)] == sched_text(sched));
    assert forall|i: int, j: int| 0 <= i < j < advertised().len() implies #[trigger] advertised()[i]
        != #[trigger] advertised()[j] by {
        if advertised()[i] == advertised()[j] {
            lemma_sched_text_injective(all[i], all[j]);
            assert(sched_position(all[i]) == i);
            assert(sched_position(all[j]) == j);
        }
    }
}

/// The prefix is put in front exactly where it is missing, and taken off exactly
/// where it is there.
pub proof fn lemma_prefix(name: Seq<char>)
    ensures
        "scx_"@.is_prefix_of(name) ==> prefixed(name) == name && name == "scx_"@ + unprefixed(name),
        !"scx_"@.is_prefix_of(name) ==> prefixed(name) == "scx_"@ + name && unprefixed(name) == name,
        unprefixed("scx_"@ + name) == name,
{
    let prefix = "scx_"@;
    if prefix.is_prefix_of(name) {
        assert(name =~= prefix + name.skip(prefix.len() as int));
    }
    assert((prefix + name).take(prefix.len() as int) =~= prefix);
    assert((prefix + name).skip(prefix.len() as int) =~= name);
}

/// A reported name stands for a given one exactly where it is the same, or the same
/// behind the prefix.
pub proof fn lemma_names_sched(reported: Seq<char>, given: Seq<char>)
    ensures
        names_sched(reported, given) <==> reported == given || reported == "scx_"@ + given,
{
    lemma_prefix(reported);
    lemma_prefix(given);
}

} // verus!
