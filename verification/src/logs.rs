//! Journal entries for the log view.
//!
//! The journal is read as one JSON object per line, which carries the priority
//! of each entry. Multi-line messages are flattened into display lines, with
//! continuations marked.
use vstd::prelude::*;
use vstd::string::StringExecFns;
use vstd::utf8::{decode_utf8, valid_utf8};

use crate::text;
use crate::text::views;

verus! {

/// Units that the log view can inspect: the loader daemon's, and the plain
/// service's. Both are always offered.
pub const UNITS: [&'static str; 2] = ["scx_loader.service", "scx.service"];

/// Limit on the entries of a single journal fetch.
pub const MAX_ENTRIES: usize = 5000;

/// The priority of an entry that carries none: informational.
pub const INFO_PRIORITY: u8 = 6;

/// The last priority of the syslog scale: debugging.
pub const MAX_PRIORITY: u8 = 7;

/// One display line of the log view.
pub struct LogLine {
    /// Local wall-clock time, `HH:MM:SS`. Empty for continuation lines.
    pub time: String,
    /// Syslog priority, 0 to 7; 6, informational, when the entry carries none.
    pub priority: u8,
    pub text: String,
    /// Second and further lines of a multi-line entry.
    pub continuation: bool,
}

/// The model of a [`LogLine`].
pub struct LineModel {
    pub time: Seq<char>,
    pub priority: u8,
    pub text: Seq<char>,
    pub continuation: bool,
}

impl View for LogLine {
    type V = LineModel;

    open spec fn view(&self) -> LineModel {
        LineModel {
            time: self.time@,
            priority: self.priority,
            text: self.text@,
            continuation: self.continuation,
        }
    }
}

/// The models of a list of lines.
pub open spec fn line_views(lines: Seq<LogLine>) -> Seq<LineModel> {
    lines.map_values(|line: LogLine| line@)
}

/// Result of one journal fetch: display lines, and whether the limit cut the
/// beginning off.
pub struct LogFetch {
    pub lines: Vec<LogLine>,
    pub truncated: bool,
}

/// What a member of a journal entry holds, as far as the log view reads it.
pub enum JsonField {
    Text(String),
    /// A list; each item as a number where it is one that fits.
    Items(Vec<Option<u64>>),
    Other,
}

/// The model of a [`JsonField`].
pub enum FieldModel {
    Text(Seq<char>),
    Items(Seq<Option<u64>>),
    Other,
}

impl View for JsonField {
    type V = FieldModel;

    open spec fn view(&self) -> FieldModel {
        match *self {
            JsonField::Text(s) => FieldModel::Text(s@),
            JsonField::Items(list) => FieldModel::Items(list@),
            JsonField::Other => FieldModel::Other,
        }
    }
}

/// The members of an object, in the order in which they are walked.
pub type Members = Seq<(Seq<char>, FieldModel)>;

/// The model of an object's members.
pub open spec fn member_views(members: Seq<(String, JsonField)>) -> Members {
    members.map_values(|m: (String, JsonField)| (m.0@, m.1@))
}

/// The members that `serde_json::from_str` finds in a text; `None` where the
/// text is not a JSON object.
pub uninterp spec fn json_members(raw: Seq<char>) -> Option<Members>;

/// The text that `String::from_utf8_lossy` makes of bytes.
pub uninterp spec fn lossy_text(bytes: Seq<u8>) -> Seq<char>;

/// `serde_json::from_str` parses a text as a JSON value, whose members
/// `Value::as_object` gives where it is an object, each name once; and
/// `Value::as_u64` gives the number that an item of a list is, where it is one
/// that fits. The result depends on the text alone. A carriage return at the end
/// is blank to it and changes nothing; alone it is no object.
#[verifier::external_body]
fn parse_object(raw: &str) -> (members: Option<Vec<(String, JsonField)>>)
    ensures
        match members {
            Some(list) => json_members(raw@) == Some(member_views(list@)),
            None => json_members(raw@) is None,
        },
        members matches Some(list) ==> forall|i: int, j: int|
            0 <= i < j < list@.len() ==> (#[trigger] list@[i]).0@ != (#[trigger] list@[j]).0@,
        raw@.len() > 1 && raw@.last() == '\r' ==> json_members(raw@.drop_last()) == match members {
            Some(list) => Some(member_views(list@)),
            None => None,
        },
        raw@.len() == 1 && raw@.last() == '\r' ==> members is None,
{
    let value: serde_json::Value = serde_json::from_str(raw).ok()?;
    let members = value.as_object()?.iter().map(|(name, item)| match item {
        serde_json::Value::String(s) => (name.clone(), JsonField::Text(s.clone())),
        serde_json::Value::Array(list) =>
            (name.clone(), JsonField::Items(list.iter().map(|n| n.as_u64()).collect())),
        serde_json::Value::Null | serde_json::Value::Bool(_) | serde_json::Value::Number(_)
        | serde_json::Value::Object(_) => (name.clone(), JsonField::Other),
    });
    Some(members.collect())
}

/// `String::from_utf8_lossy` reads bytes as UTF-8. Its result depends on the
/// bytes alone, and is what they encode where they are valid.
#[verifier::external_body]
fn from_utf8_lossy(bytes: &[u8]) -> (s: String)
    ensures
        s@ == lossy_text(bytes@),
        valid_utf8(bytes@) ==> s@ == decode_utf8(bytes@),
{
    String::from_utf8_lossy(bytes).into_owned()
}

/// Whether a text is a time of day, `HH:MM:SS`.
pub open spec fn is_clock(s: Seq<char>) -> bool {
    &&& s.len() == 8
    &&& s[2] == ':'
    &&& s[5] == ':'
    &&& text::is_decimal(s.take(2))
    &&& text::is_decimal(s.subrange(3, 5))
    &&& text::is_decimal(s.skip(6))
    &&& text::decimal_value(s.take(2)) < 24
    &&& text::decimal_value(s.subrange(3, 5)) < 60
    &&& text::decimal_value(s.skip(6)) < 60
}

/// The last second of the year 9999.
pub const LAST_COMMON_SECOND: i64 = 253_402_300_799;

/// Whether a text is an answer for the local time at `secs` seconds after the
/// epoch: a time of day, or, for a time that no calendar reaches, nothing.
pub open spec fn local_time_fits(secs: int, time: Seq<char>) -> bool {
    &&& time.len() == 0 || is_clock(time)
    &&& 0 <= secs <= LAST_COMMON_SECOND ==> time.len() > 0
}

/// `chrono::Local` gives the local time at a number of seconds after the epoch,
/// and `DateTime::format` writes it as hours, minutes and seconds. Which time it
/// is depends on the machine's time zone; that every time through the year 9999
/// has one, and the form in which it is written, do not. (On a machine that is
/// set to a zone a whole day or more from UTC, which no zone is, it panics.)
#[verifier::external_body]
fn local_time(secs: i64) -> (time: Option<String>)
    ensures
        match time {
            Some(s) => is_clock(s@),
            None => !(0 <= secs <= LAST_COMMON_SECOND),
        },
{
    let moment = chrono::TimeZone::timestamp_opt(&chrono::Local, secs, 0).single()?;
    Some(moment.format("%H:%M:%S").to_string())
}

/// Whether a text is what `chrono::Local` may answer when it is asked for the time
/// at `secs` seconds after the epoch; nothing where it has no answer.
pub closed spec fn local_time_at(secs: int, time: Seq<char>) -> bool {
    exists|s: i64, answer: Option<String>|
        s == secs && #[trigger] call_ensures(local_time, (s,), answer) && time == match answer {
            Some(text) => text@,
            None => Seq::empty(),
        }
}

/// Microseconds in whole seconds, rounded towards zero.
pub open spec fn whole_seconds(usec: int) -> int {
    if usec >= 0 {
        usec / 1_000_000
    } else {
        -((-usec) / 1_000_000)
    }
}

/// The second of a stamp is the one that it lies in: the stamp is not before it, and
/// less than a second after it. A stamp before the epoch lies in front of its second
/// in the same way.
pub proof fn lemma_second_of_stamp(usec: int)
    ensures
        usec >= 0 ==> whole_seconds(usec) * 1_000_000 <= usec < (whole_seconds(usec) + 1)
            * 1_000_000,
        usec < 0 ==> (whole_seconds(usec) - 1) * 1_000_000 < usec <= whole_seconds(usec)
            * 1_000_000,
{
}

/// The log's clock never runs backwards: a later stamp has no earlier second.
pub proof fn lemma_seconds_never_decrease(a: int, b: int)
    requires
        a <= b,
    ensures
        whole_seconds(a) <= whole_seconds(b),
        b - a >= 1_000_000 ==> whole_seconds(a) < whole_seconds(b) || a < 0,
{
    lemma_second_of_stamp(a);
    lemma_second_of_stamp(b);
}

/// What stands for the local time at a second is what `chrono::Local` answered when
/// it was asked for that very second.
proof fn lemma_asked_at(secs: int, time: Seq<char>) -> (asked: (i64, Option<String>))
    requires
        local_time_at(secs, time),
    ensures
        asked.0 == secs,
        call_ensures(local_time, (asked.0,), asked.1),
        asked.1 matches Some(text) ==> time == text@,
        asked.1 is None ==> time.len() == 0,
{
    choose|s: i64, answer: Option<String>|
        s == secs && #[trigger] call_ensures(local_time, (s,), answer) && time == match answer {
            Some(text) => text@,
            None => Seq::empty(),
        }
}

/// The local wall-clock time at a number of microseconds after the epoch.
pub fn format_local_time(usec: i64) -> (time: String)
    ensures
        local_time_at(whole_seconds(usec as int), time@),
        local_time_fits(whole_seconds(usec as int), time@),
        usec >= 0 ==> exists|secs: int| #[trigger]
            local_time_at(secs, time@) && secs * 1_000_000 <= usec < (secs + 1) * 1_000_000,
        usec < 0 ==> exists|secs: int| #[trigger]
            local_time_at(secs, time@) && (secs - 1) * 1_000_000 < usec <= secs * 1_000_000,
{
    proof {
        lemma_second_of_stamp(usec as int);
    }
    let secs: i64 = usec / 1_000_000;
    let answer = local_time(secs);
    let ghost given = answer;
    assert(call_ensures(local_time, (secs,), given));
    let time = match answer {
        Some(time) => time,
        None => String::new(),
    };
    assert(local_time_at(whole_seconds(usec as int), time@));
    time
}

/// One journal entry, as far as the log view shows it.
pub struct JournalEntry {
    pub priority: u8,
    /// Time of the entry, in microseconds after the epoch.
    pub stamp: Option<i64>,
    pub message: String,
}

/// The model of a [`JournalEntry`].
pub struct EntryModel {
    pub priority: u8,
    pub stamp: Option<int>,
    pub message: Seq<char>,
}

impl View for JournalEntry {
    type V = EntryModel;

    open spec fn view(&self) -> EntryModel {
        EntryModel {
            priority: self.priority,
            stamp: match self.stamp {
                Some(t) => Some(t as int),
                None => None,
            },
            message: self.message@,
        }
    }
}

/// The member with the given name, when there is one.
pub open spec fn member(members: Members, name: Seq<char>) -> Option<FieldModel>
    decreases members.len(),
{
    if members.len() == 0 {
        None
    } else if members[0].0 == name {
        Some(members[0].1)
    } else {
        member(members.skip(1), name)
    }
}

/// The bytes among the items of a list; what is no byte is left out.
pub open spec fn bytes_of(items: Seq<Option<u64>>) -> Seq<u8>
    decreases items.len(),
{
    if items.len() == 0 {
        Seq::empty()
    } else {
        let front = bytes_of(items.drop_last());
        match items.last() {
            Some(n) => if n <= 255 {
                front.push(n as u8)
            } else {
                front
            },
            None => front,
        }
    }
}

/// The priority that a member stands for; what is not on the scale is none.
pub open spec fn priority_of(field: Option<FieldModel>) -> u8 {
    match field {
        Some(FieldModel::Text(s)) => match text::unsigned_value(s, MAX_PRIORITY as int) {
            Some(n) => n as u8,
            None => INFO_PRIORITY,
        },
        _ => INFO_PRIORITY,
    }
}

/// The time that a member stands for.
pub open spec fn stamp_of(field: Option<FieldModel>) -> Option<int> {
    match field {
        Some(FieldModel::Text(s)) => text::signed_value(s),
        _ => None,
    }
}

/// The message that a member stands for: a text, or the bytes of one.
pub open spec fn message_of(field: Option<FieldModel>) -> Option<Seq<char>> {
    match field {
        Some(FieldModel::Text(s)) => Some(s),
        Some(FieldModel::Items(items)) => Some(lossy_text(bytes_of(items))),
        _ => None,
    }
}

/// The entry that an object stands for; `None` where it has no message.
pub open spec fn entry_of(members: Members) -> Option<EntryModel> {
    match message_of(member(members, "MESSAGE"@)) {
        Some(message) => Some(
            EntryModel {
                priority: priority_of(member(members, "PRIORITY"@)),
                stamp: stamp_of(member(members, "__REALTIME_TIMESTAMP"@)),
                message,
            },
        ),
        None => None,
    }
}

fn find_member<'a>(members: &'a Vec<(String, JsonField)>, name: &str) -> (field: Option<
    &'a JsonField,
>)
    ensures
        member(member_views(members@), name@) == match field {
            Some(f) => Some(f@),
            None => None,
        },
{
    let ghost all = member_views(members@);
    let mut i: usize = 0;
    assert(all.skip(0) =~= all);
    while i < members.len()
        invariant
            i <= members@.len(),
            all == member_views(members@),
            member(all, name@) == member(all.skip(i as int), name@),
        decreases members@.len() - i,
    {
        assert(all.skip(i as int)[0] == (members@[i as int].0@, members@[i as int].1@));
        assert(all.skip(i as int).skip(1) =~= all.skip(i + 1));
        if text::text_eq(members[i].0.as_str(), name) {
            return Some(&members[i].1);
        }
        i += 1;
    }
    None
}

fn collect_bytes(items: &Vec<Option<u64>>) -> (bytes: Vec<u8>)
    ensures
        bytes@ == bytes_of(items@),
{
    let mut bytes: Vec<u8> = Vec::new();
    let mut i: usize = 0;
    while i < items.len()
        invariant
            i <= items@.len(),
            bytes@ == bytes_of(items@.take(i as int)),
        decreases items@.len() - i,
    {
        assert(items@.take(i + 1).drop_last() =~= items@.take(i as int));
        match items[i] {
            Some(n) => {
                if n <= 255 {
                    bytes.push(n as u8);
                }
            },
            None => {},
        }
        i += 1;
    }
    assert(items@.take(i as int) =~= items@);
    bytes
}

/// Reads a journal entry out of the members of its object. The message is a
/// text, or a list of bytes where it is not UTF-8; an object without one is no
/// entry.
pub fn read_entry(members: &Vec<(String, JsonField)>) -> (entry: Option<JournalEntry>)
    ensures
        match entry {
            Some(e) => entry_of(member_views(members@)) == Some(e@),
            None => entry_of(member_views(members@)) is None,
        },
{
    let priority: u8 = match find_member(members, "PRIORITY") {
        Some(JsonField::Text(s)) => match text::parse_u8(s.as_str()) {
            Some(n) => if n <= MAX_PRIORITY {
                n
            } else {
                INFO_PRIORITY
            },
            None => INFO_PRIORITY,
        },
        _ => INFO_PRIORITY,
    };
    let stamp = match find_member(members, "__REALTIME_TIMESTAMP") {
        Some(JsonField::Text(s)) => text::parse_i64(s.as_str()),
        _ => None,
    };
    let message = match find_member(members, "MESSAGE") {
        Some(JsonField::Text(s)) => s.clone(),
        Some(JsonField::Items(items)) => from_utf8_lossy(&collect_bytes(items)),
        _ => {
            return None;
        },
    };
    Some(JournalEntry { priority, stamp, message })
}

/// The display lines of a message: the time stands on the first, the others
/// are continuations; all have the entry's priority.
pub open spec fn display(priority: u8, time: Seq<char>, texts: Seq<Seq<char>>) -> Seq<LineModel> {
    Seq::new(
        texts.len(),
        |i: int|
            LineModel {
                time: if i == 0 {
                    time
                } else {
                    Seq::empty()
                },
                priority,
                text: texts[i],
                continuation: i > 0,
            },
    )
}

/// Flattens one entry into display lines, given its local time.
pub fn entry_lines(priority: u8, time: &str, message: &str) -> (lines: Vec<LogLine>)
    ensures
        line_views(lines@) == display(priority, time@, text::lines_of(message@)),
{
    let mut texts = text::lines(message);
    let ghost all = display(priority, time@, views(texts@));
    let mut lines: Vec<LogLine> = Vec::new();
    let mut i: usize = 0;
    while i < texts.len()
        invariant
            i <= texts@.len(),
            all == display(priority, time@, views(texts@)),
            line_views(lines@) == all.take(i as int),
        decreases texts@.len() - i,
    {
        let ghost before = lines@;
        let line = LogLine {
            time: if i == 0 {
                time.to_owned()
            } else {
                String::new()
            },
            priority,
            text: texts[i].clone(),
            continuation: i > 0,
        };
        proof {
            assert(line_views(before.push(line)) =~= line_views(before).push(line@));
            assert(all[i as int] == line@);
            assert(all.take(i + 1) =~= all.take(i as int).push(line@));
        }
        lines.push(line);
        i += 1;
    }
    assert(all.take(i as int) =~= all);
    lines
}

/// The entry that a line of the journal's output stands for. Empty lines, and
/// lines that are not an object with a message, are skipped.
pub open spec fn line_entry(line: Seq<char>) -> Option<EntryModel> {
    if line.len() == 0 {
        None
    } else {
        match json_members(line) {
            Some(members) => entry_of(members),
            None => None,
        }
    }
}

/// The entries of a list of lines, in order.
pub open spec fn entries_of(lines: Seq<Seq<char>>) -> Seq<EntryModel>
    decreases lines.len(),
{
    if lines.len() == 0 {
        Seq::empty()
    } else {
        let front = entries_of(lines.drop_last());
        match line_entry(lines.last()) {
            Some(entry) => front.push(entry),
            None => front,
        }
    }
}

/// Whether a text is an answer for the local time of an entry: one that was asked
/// for at the entry's own stamp.
pub open spec fn time_fits(entry: EntryModel, time: Seq<char>) -> bool {
    match entry.stamp {
        Some(usec) => local_time_at(whole_seconds(usec), time) && local_time_fits(
            whole_seconds(usec),
            time,
        ),
        None => time.len() == 0,
    }
}

/// The display lines of a list of entries, given their local times.
pub open spec fn flattened(entries: Seq<EntryModel>, times: Seq<Seq<char>>) -> Seq<LineModel>
    decreases entries.len(),
{
    if entries.len() == 0 {
        Seq::empty()
    } else {
        flattened(entries.drop_last(), times.drop_last()) + display(
            entries.last().priority,
            times.last(),
            text::lines_of(entries.last().message),
        )
    }
}

/// Whether `lines` are the display lines of the entries, for local times that
/// fit them.
pub open spec fn shows(lines: Seq<LineModel>, entries: Seq<EntryModel>, times: Seq<Seq<char>>) -> bool {
    &&& times.len() == entries.len()
    &&& forall|i: int| 0 <= i < times.len() ==> time_fits(entries[i], #[trigger] times[i])
    &&& lines == flattened(entries, times)
}

/// Whether `lines` are the display lines of the journal's output, for some
/// local times that fit its entries.
pub open spec fn displays(lines: Seq<LineModel>, output: Seq<char>) -> bool {
    exists|times: Seq<Seq<char>>| #[trigger]
        shows(lines, entries_of(text::lines_of(output)), times)
}

/// Whether a carriage return at the end of a line makes no difference to its
/// entry, for every line of the output.
pub open spec fn ends_ignored(output: Seq<char>) -> bool {
    forall|i: int|
        0 <= i < text::lines_of(output).len() ==> end_ignored(#[trigger] text::lines_of(output)[i])
}

/// Whether a carriage return at the end of a line makes no difference to its
/// entry.
pub open spec fn end_ignored(line: Seq<char>) -> bool {
    line_entry(text::without_cr(line)) == line_entry(line)
}

/// Whether every line has a priority of the syslog scale.
pub open spec fn on_scale(lines: Seq<LineModel>) -> bool {
    forall|i: int| 0 <= i < lines.len() ==> (#[trigger] lines[i]).priority <= MAX_PRIORITY
}

proof fn lemma_priority_on_scale(field: Option<FieldModel>)
    ensures
        priority_of(field) <= MAX_PRIORITY,
{
    if let Some(FieldModel::Text(s)) = field {
        text::lemma_unsigned_value(s, MAX_PRIORITY as int);
    }
}

proof fn lemma_entries_on_scale(lines: Seq<Seq<char>>)
    ensures
        forall|i: int|
            0 <= i < entries_of(lines).len() ==> (#[trigger] entries_of(lines)[i]).priority
                <= MAX_PRIORITY,
    decreases lines.len(),
{
    if lines.len() > 0 {
        lemma_entries_on_scale(lines.drop_last());
        if let Some(members) = json_members(lines.last()) {
            lemma_priority_on_scale(member(members, "PRIORITY"@));
        }
    }
}

proof fn lemma_flattened_on_scale(entries: Seq<EntryModel>, times: Seq<Seq<char>>)
    requires
        forall|i: int|
            0 <= i < entries.len() ==> (#[trigger] entries[i]).priority <= MAX_PRIORITY,
    ensures
        on_scale(flattened(entries, times)),
    decreases entries.len(),
{
    if entries.len() > 0 {
        assert forall|i: int| 0 <= i < entries.drop_last().len() implies (
        #[trigger] entries.drop_last()[i]).priority <= MAX_PRIORITY by {
            assert(entries.drop_last()[i] == entries[i]);
        }
        lemma_flattened_on_scale(entries.drop_last(), times.drop_last());
        assert(entries.last() == entries[entries.len() - 1]);
    }
}

/// Whatever the journal's output holds, each line displayed of it has a priority
/// of the syslog scale.
pub proof fn lemma_displayed_on_scale(lines: Seq<LineModel>, output: Seq<char>)
    requires
        displays(lines, output),
    ensures
        on_scale(lines),
{
    let entries = entries_of(text::lines_of(output));
    let times = choose|times: Seq<Seq<char>>| #[trigger] shows(lines, entries, times);
    lemma_entries_on_scale(text::lines_of(output));
    lemma_flattened_on_scale(entries, times);
}

/// Parses the journal's output, one JSON object per line, into display lines,
/// oldest first. Malformed entries are skipped.
pub fn parse_entries(stdout: &str) -> (lines: Vec<LogLine>)
    ensures
        displays(line_views(lines@), stdout@),
        on_scale(line_views(lines@)),
        ends_ignored(stdout@),
{
    let raw = text::lines(stdout);
    let ghost all = views(raw@);
    let ghost mut times: Seq<Seq<char>> = Seq::empty();
    let mut lines: Vec<LogLine> = Vec::new();
    let mut i: usize = 0;
    assert(line_views(lines@) =~= Seq::empty());
    while i < raw.len()
        invariant
            i <= raw@.len(),
            all == views(raw@),
            shows(line_views(lines@), entries_of(all.take(i as int)), times),
            forall|k: int| 0 <= k < i ==> end_ignored(#[trigger] all[k]),
        decreases raw@.len() - i,
    {
        let ghost seen = entries_of(all.take(i as int));
        proof {
            assert(all[i as int] == raw@[i as int]@);
            assert(all.take(i + 1).drop_last() =~= all.take(i as int));
            assert(all.take(i + 1).last() == all[i as int]);
        }
        if !raw[i].as_str().is_empty() {
            let entry = match parse_object(raw[i].as_str()) {
                Some(members) => read_entry(&members),
                None => None,
            };
            match entry {
                Some(entry) => {
                    let time = match entry.stamp {
                        Some(usec) => format_local_time(usec),
                        None => String::new(),
                    };
                    let ghost before = lines@;
                    let mut more = entry_lines(
                        entry.priority,
                        time.as_str(),
                        entry.message.as_str(),
                    );
                    let ghost added = more@;
                    lines.append(&mut more);
                    proof {
                        assert(line_views(lines@) =~= line_views(before) + line_views(added));
                        let now = seen.push(entry@);
                        let then = times.push(time@);
                        assert(now.drop_last() =~= seen);
                        assert(then.drop_last() =~= times);
                        assert(time_fits(entry@, time@));
                        assert forall|k: int| 0 <= k < then.len() implies time_fits(
                            now[k],
                            #[trigger] then[k],
                        ) by {
                            if k < times.len() {
                                assert(then[k] == times[k]);
                                assert(now[k] == seen[k]);
                            }
                        }
                        times = then;
                    }
                },
                None => {},
            }
        }
        i += 1;
    }
    assert(all.take(i as int) =~= all);
    assert(shows(line_views(lines@), entries_of(text::lines_of(stdout@)), times));
    proof {
        lemma_displayed_on_scale(line_views(lines@), stdout@);
    }
    lines
}

/// How many lines are not empty.
pub open spec fn filled(lines: Seq<Seq<char>>) -> int
    decreases lines.len(),
{
    if lines.len() == 0 {
        0
    } else {
        filled(lines.drop_last()) + if lines.last().len() > 0 {
            1int
        } else {
            0int
        }
    }
}

fn count_filled(lines: &Vec<String>) -> (n: usize)
    ensures
        n == filled(views(lines@)),
{
    let ghost all = views(lines@);
    let mut n: usize = 0;
    let mut i: usize = 0;
    while i < lines.len()
        invariant
            n <= i <= lines@.len(),
            all == views(lines@),
            n == filled(all.take(i as int)),
        decreases lines@.len() - i,
    {
        assert(all[i as int] == lines@[i as int]@);
        assert(all.take(i + 1).drop_last() =~= all.take(i as int));
        if !lines[i].as_str().is_empty() {
            n += 1;
        }
        i += 1;
    }
    assert(all.take(i as int) =~= all);
    n
}

/// The boot that a journal fetch names.
pub open spec fn boot_text(previous_boot: bool) -> Seq<char> {
    if previous_boot {
        "-1"@
    } else {
        "0"@
    }
}

/// Name of the boot that a journal fetch reads: the current or the previous.
pub fn boot_name(previous_boot: bool) -> (s: &'static str)
    ensures
        s@ == boot_text(previous_boot),
{
    if previous_boot {
        "-1"
    } else {
        "0"
    }
}

/// The arguments for the journal command that fetches a unit's entries.
pub open spec fn journal_command(unit: Seq<char>, previous_boot: bool) -> Seq<Seq<char>> {
    seq![
        "--unit"@,
        unit,
        "--boot"@,
        boot_text(previous_boot),
        "--lines"@,
        text::decimal_digits(MAX_ENTRIES as nat),
        "--output=json"@,
        "--no-pager"@,
        "--quiet"@,
    ]
}

/// Arguments for the journal command that fetches the newest entries of a
/// unit, of the current boot or the previous one.
pub fn journal_args(unit: &str, previous_boot: bool) -> (args: Vec<String>)
    ensures
        views(args@) == journal_command(unit@, previous_boot),
{
    let args = vec![
        "--unit".to_owned(),
        unit.to_owned(),
        "--boot".to_owned(),
        boot_name(previous_boot).to_owned(),
        "--lines".to_owned(),
        text::decimal(MAX_ENTRIES as u64),
        "--output=json".to_owned(),
        "--no-pager".to_owned(),
        "--quiet".to_owned(),
    ];
    assert(views(args@) =~= journal_command(unit@, previous_boot));
    args
}

/// The text that reports a failed journal command, with its own words where it
/// has any.
pub open spec fn journal_failure(stderr: Seq<char>) -> Seq<char> {
    let words = text::trimmed(stderr);
    if words.len() == 0 {
        "journalctl failed"@
    } else {
        "journalctl failed"@ + ": "@ + words
    }
}

/// The text that reports that the journal command could not be run.
pub open spec fn journal_missing(err: Seq<char>) -> Seq<char> {
    "failed to run journalctl — is this a systemd system?: "@ + err
}

/// Reports that the journal command could not be run.
pub fn journal_not_run(err: &str) -> (why: String)
    ensures
        why@ == journal_missing(err@),
{
    let mut why = "failed to run journalctl — is this a systemd system?: ".to_owned();
    why.append(err);
    why
}

/// Turns what the journal command put out into display lines, or into its
/// failure. A fetch that reached the limit almost certainly cut something off.
pub fn read_output(success: bool, stdout: &[u8], stderr: &[u8]) -> (fetch: Result<LogFetch, String>)
    ensures
        match fetch {
            Ok(f) => {
                &&& success
                &&& displays(line_views(f.lines@), lossy_text(stdout@))
                &&& on_scale(line_views(f.lines@))
                &&& f.truncated == (filled(text::lines_of(lossy_text(stdout@))) >= MAX_ENTRIES)
            },
            Err(why) => !success && why@ == journal_failure(lossy_text(stderr@)),
        },
{
    if !success {
        let words = text::trim(from_utf8_lossy(stderr).as_str());
        let mut why = "journalctl failed".to_owned();
        if !words.as_str().is_empty() {
            why.append(": ");
            why.append(words.as_str());
        }
        return Err(why);
    }
    let output = from_utf8_lossy(stdout);
    let entries = count_filled(&text::lines(output.as_str()));
    let lines = parse_entries(output.as_str());
    Ok(LogFetch { lines, truncated: entries >= MAX_ENTRIES })
}

/// The display lines of an entry all carry its priority; only the first has a
/// time and is no continuation, and together they are the message's lines.
pub proof fn lemma_display_lines(priority: u8, time: Seq<char>, texts: Seq<Seq<char>>, i: int)
    requires
        0 <= i < texts.len(),
    ensures
        display(priority, time, texts).len() == texts.len(),
        display(priority, time, texts)[i].priority == priority,
        display(priority, time, texts)[i].text == texts[i],
        display(priority, time, texts)[i].continuation <==> i > 0,
        i > 0 ==> display(priority, time, texts)[i].time.len() == 0,
        display(priority, time, texts)[0].time == time,
{
}

/// A line that is no entry changes nothing: what stands around it is read as
/// if it were not there.
pub proof fn lemma_malformed_skipped(before: Seq<Seq<char>>, line: Seq<char>, after: Seq<Seq<char>>)
    requires
        line_entry(line) is None,
    ensures
        entries_of(before.push(line) + after) == entries_of(before + after),
    decreases after.len(),
{
    if after.len() == 0 {
        assert(before.push(line) + after =~= before.push(line));
        assert(before + after =~= before);
        assert(before.push(line).drop_last() =~= before);
    } else {
        let front = after.drop_last();
        lemma_malformed_skipped(before, line, front);
        assert((before.push(line) + after).drop_last() =~= before.push(line) + front);
        assert((before + after).drop_last() =~= before + front);
        assert((before.push(line) + after).last() == after.last());
        assert((before + after).last() == after.last());
    }
}

proof fn lemma_entries_concat(x: Seq<Seq<char>>, y: Seq<Seq<char>>)
    ensures
        entries_of(x + y) == entries_of(x) + entries_of(y),
    decreases y.len(),
{
    if y.len() == 0 {
        assert(x + y =~= x);
        assert(entries_of(x) + entries_of(y) =~= entries_of(x));
    } else {
        lemma_entries_concat(x, y.drop_last());
        assert((x + y).drop_last() =~= x + y.drop_last());
        assert(entries_of(x + y) =~= entries_of(x) + entries_of(y));
    }
}

/// A line feed at the end closes the last line and adds no entry.
proof fn lemma_closed_entries(a: Seq<char>)
    requires
        a.len() > 0 && a.last() == '\r' ==> ends_ignored(a),
    ensures
        entries_of(text::lines_of(a.push('\n'))) == entries_of(text::lines_of(a)),
    decreases a.len(),
{
    a.index_of_first_ensures('\n');
    let none = Seq::<char>::empty();
    match a.index_of_first('\n') {
        Some(i) => {
            let line = a.take(i);
            let rest = a.skip(i + 1);
            let head = seq![text::without_cr(line)];
            assert(a =~= line.push('\n') + rest);
            assert(a.push('\n') =~= line.push('\n') + rest.push('\n'));
            text::lemma_lines_step(line, rest);
            text::lemma_lines_step(line, rest.push('\n'));
            if rest.len() > 0 && rest.last() == '\r' {
                assert(a.last() == '\r');
                assert forall|k: int| 0 <= k < text::lines_of(rest).len() implies end_ignored(
                    #[trigger] text::lines_of(rest)[k],
                ) by {
                    assert(text::lines_of(a)[k + 1] == text::lines_of(rest)[k]);
                }
            }
            lemma_closed_entries(rest);
            lemma_entries_concat(head, text::lines_of(rest));
            lemma_entries_concat(head, text::lines_of(rest.push('\n')));
        },
        None => {
            assert(a.push('\n') =~= a.push('\n') + none);
            text::lemma_lines_step(a, none);
            none.index_of_first_ensures('\n');
            let closed = seq![text::without_cr(a)];
            assert(text::lines_of(a.push('\n')) =~= closed);
            assert(closed.drop_last() =~= Seq::<Seq<char>>::empty());
            if a.len() > 0 {
                assert(text::lines_of(a) =~= seq![a]);
                assert(seq![a].drop_last() =~= Seq::<Seq<char>>::empty());
                if a.last() == '\r' {
                    assert(end_ignored(text::lines_of(a)[0]));
                }
            }
        },
    }
}

proof fn lemma_flattened_concat(
    x: Seq<EntryModel>,
    s: Seq<Seq<char>>,
    y: Seq<EntryModel>,
    t: Seq<Seq<char>>,
)
    requires
        x.len() == s.len(),
        y.len() == t.len(),
    ensures
        flattened(x + y, s + t) == flattened(x, s) + flattened(y, t),
    decreases y.len(),
{
    if y.len() == 0 {
        assert(x + y =~= x);
        assert(s + t =~= s);
        assert(flattened(x, s) + flattened(y, t) =~= flattened(x, s));
    } else {
        lemma_flattened_concat(x, s, y.drop_last(), t.drop_last());
        assert((x + y).drop_last() =~= x + y.drop_last());
        assert((s + t).drop_last() =~= s + t.drop_last());
        assert(flattened(x + y, s + t) =~= flattened(x, s) + flattened(y, t));
    }
}

proof fn lemma_shown_apart(
    lines: Seq<LineModel>,
    x: Seq<EntryModel>,
    y: Seq<EntryModel>,
    times: Seq<Seq<char>>,
) -> (n: int)
    requires
        shows(lines, x + y, times),
    ensures
        0 <= n <= lines.len(),
        shows(lines.take(n), x, times.take(x.len() as int)),
        shows(lines.skip(n), y, times.skip(x.len() as int)),
{
    let s = times.take(x.len() as int);
    let t = times.skip(x.len() as int);
    assert(s + t =~= times);
    lemma_flattened_concat(x, s, y, t);
    let n = flattened(x, s).len() as int;
    assert(lines.take(n) =~= flattened(x, s));
    assert(lines.skip(n) =~= flattened(y, t));
    assert forall|i: int| 0 <= i < s.len() implies time_fits(x[i], #[trigger] s[i]) by {
        assert((x + y)[i] == x[i]);
        assert(time_fits((x + y)[i], times[i]));
    }
    assert forall|i: int| 0 <= i < t.len() implies time_fits(y[i], #[trigger] t[i]) by {
        let k = x.len() + i;
        assert((x + y)[k] == y[i]);
        assert(time_fits((x + y)[k], times[k]));
    }
    n
}

proof fn lemma_shown_together(
    first: Seq<LineModel>,
    x: Seq<EntryModel>,
    s: Seq<Seq<char>>,
    second: Seq<LineModel>,
    y: Seq<EntryModel>,
    t: Seq<Seq<char>>,
)
    requires
        shows(first, x, s),
        shows(second, y, t),
    ensures
        shows(first + second, x + y, s + t),
{
    let times = s + t;
    lemma_flattened_concat(x, s, y, t);
    assert forall|i: int| 0 <= i < times.len() implies time_fits((x + y)[i], #[trigger] times[i]) by {
        if i < s.len() {
            assert(times[i] == s[i]);
            assert((x + y)[i] == x[i]);
        } else {
            let k = i - s.len();
            assert(times[i] == t[k]);
            assert((x + y)[i] == y[k]);
        }
    }
}

/// Whether `lines` are display lines of `a`, followed by display lines of `b`.
pub open spec fn displays_both(lines: Seq<LineModel>, a: Seq<char>, b: Seq<char>) -> bool {
    exists|n: int|
        0 <= n <= lines.len() && displays(#[trigger] lines.take(n), a) && displays(
            lines.skip(n),
            b,
        )
}

/// Entries are parsed independently and in order: the entries of two outputs with
/// a line feed between them are those of the first and then those of the second,
/// and what is displayed for both together is what is displayed for each. So a
/// malformed line in one drops nothing of the other. For a first output that ends
/// in a carriage return this rests on [`ends_ignored`], which [`parse_entries`]
/// establishes of every output that it is given.
pub proof fn lemma_outputs_parse_alone(a: Seq<char>, b: Seq<char>, lines: Seq<LineModel>)
    requires
        a.len() > 0 && a.last() == '\r' ==> ends_ignored(a),
    ensures
        entries_of(text::lines_of(a.push('\n') + b)) == entries_of(text::lines_of(a)) + entries_of(
            text::lines_of(b),
        ),
        displays(lines, a.push('\n') + b) <==> displays_both(lines, a, b),
{
    let whole = entries_of(text::lines_of(a.push('\n') + b));
    let x = entries_of(text::lines_of(a));
    let y = entries_of(text::lines_of(b));
    text::lemma_lines_concat(a, b);
    lemma_entries_concat(text::lines_of(a.push('\n')), text::lines_of(b));
    lemma_closed_entries(a);
    assert(whole == x + y);
    if displays(lines, a.push('\n') + b) {
        let times = choose|times: Seq<Seq<char>>| #[trigger] shows(lines, whole, times);
        let n = lemma_shown_apart(lines, x, y, times);
        assert(displays(lines.take(n), a));
        assert(displays(lines.skip(n), b));
    }
    if displays_both(lines, a, b) {
        let n = choose|n: int|
            0 <= n <= lines.len() && displays(#[trigger] lines.take(n), a) && displays(
                lines.skip(n),
                b,
            );
        let s = choose|s: Seq<Seq<char>>| #[trigger] shows(lines.take(n), x, s);
        let t = choose|t: Seq<Seq<char>>| #[trigger] shows(lines.skip(n), y, t);
        lemma_shown_together(lines.take(n), x, s, lines.skip(n), y, t);
        assert(lines =~= lines.take(n) + lines.skip(n));
        assert(shows(lines, whole, s + t));
    }
}

/// A line without its time.
pub open spec fn untimed(line: LineModel) -> LineModel {
    LineModel {
        time: Seq::empty(),
        priority: line.priority,
        text: line.text,
        continuation: line.continuation,
    }
}

/// Whether two lists of lines are the same but for the times.
pub open spec fn same_but_times(x: Seq<LineModel>, y: Seq<LineModel>) -> bool {
    &&& x.len() == y.len()
    &&& forall|i: int| 0 <= i < x.len() ==> untimed(#[trigger] x[i]) == untimed(y[i])
}

/// Whether the machine's time zone is kept: no second has two local times.
pub open spec fn zone_kept() -> bool {
    forall|secs: int, s: Seq<char>, t: Seq<char>| #[trigger]
        local_time_at(secs, s) && #[trigger] local_time_at(secs, t) ==> s == t
}

proof fn lemma_flattened_same(entries: Seq<EntryModel>, s: Seq<Seq<char>>, t: Seq<Seq<char>>)
    ensures
        same_but_times(flattened(entries, s), flattened(entries, t)),
    decreases entries.len(),
{
    if entries.len() > 0 {
        lemma_flattened_same(entries.drop_last(), s.drop_last(), t.drop_last());
        let x = flattened(entries.drop_last(), s.drop_last());
        let y = flattened(entries.drop_last(), t.drop_last());
        let texts = text::lines_of(entries.last().message);
        let p = display(entries.last().priority, s.last(), texts);
        let q = display(entries.last().priority, t.last(), texts);
        assert forall|i: int| 0 <= i < (x + p).len() implies untimed(#[trigger] (x + p)[i])
            == untimed((y + q)[i]) by {
            if i < x.len() {
                assert((x + p)[i] == x[i]);
            }
        }
    }
}

/// Parsing one output twice displays the same lines, but for the times where the
/// machine's zone changed in between.
pub proof fn lemma_parses_agree(output: Seq<char>, x: Seq<LineModel>, y: Seq<LineModel>)
    requires
        displays(x, output),
        displays(y, output),
    ensures
        same_but_times(x, y),
        zone_kept() ==> x == y,
{
    let entries = entries_of(text::lines_of(output));
    let s = choose|s: Seq<Seq<char>>| #[trigger] shows(x, entries, s);
    let t = choose|t: Seq<Seq<char>>| #[trigger] shows(y, entries, t);
    lemma_flattened_same(entries, s, t);
    if zone_kept() {
        assert forall|i: int| 0 <= i < s.len() implies #[trigger] s[i] == t[i] by {
            assert(time_fits(entries[i], s[i]));
            assert(time_fits(entries[i], t[i]));
            if entries[i].stamp is None {
                assert(s[i] =~= t[i]);
            }
        }
        assert(s =~= t);
    }
}

/// Two outputs with a line feed between them display as the lines of the first
/// and then those of the second, whichever of the three is parsed when: in full
/// while the machine's zone is kept, and in all but the times in any case. As
/// with [`lemma_outputs_parse_alone`], [`ends_ignored`] is what [`parse_entries`]
/// establishes.
pub proof fn lemma_outputs_add_up(
    a: Seq<char>,
    b: Seq<char>,
    x: Seq<LineModel>,
    y: Seq<LineModel>,
    both: Seq<LineModel>,
)
    requires
        a.len() > 0 && a.last() == '\r' ==> ends_ignored(a),
        displays(x, a),
        displays(y, b),
        displays(both, a.push('\n') + b),
    ensures
        same_but_times(both, x + y),
        zone_kept() ==> both == x + y,
{
    lemma_outputs_parse_alone(a, b, both);
    let n = choose|n: int|
        0 <= n <= both.len() && displays(#[trigger] both.take(n), a) && displays(both.skip(n), b);
    lemma_parses_agree(a, both.take(n), x);
    lemma_parses_agree(b, both.skip(n), y);
    assert forall|i: int| 0 <= i < both.len() implies untimed(#[trigger] both[i]) == untimed(
        (x + y)[i],
    ) by {
        if i < n {
            assert(both.take(n)[i] == both[i]);
        } else {
            assert(both.skip(n)[i - n] == both[i]);
        }
    }
    assert(both =~= both.take(n) + both.skip(n));
}

/// A member is found exactly where one has the name, and is the first that does.
pub proof fn lemma_member(members: Members, name: Seq<char>)
    ensures
        match member(members, name) {
            Some(field) => exists|i: int|
                {
                    &&& 0 <= i < members.len()
                    &&& #[trigger] members[i] == (name, field)
                    &&& forall|k: int| 0 <= k < i ==> (#[trigger] members[k]).0 != name
                },
            None => forall|k: int| 0 <= k < members.len() ==> (#[trigger] members[k]).0 != name,
        },
    decreases members.len(),
{
    if members.len() > 0 && members[0].0 != name {
        let rest = members.skip(1);
        lemma_member(rest, name);
        assert forall|k: int| 0 <= k < rest.len() implies rest[k] == #[trigger] members[k + 1] by {}
        match member(rest, name) {
            Some(field) => {
                let i = choose|i: int|
                    {
                        &&& 0 <= i < rest.len()
                        &&& #[trigger] rest[i] == (name, field)
                        &&& forall|k: int| 0 <= k < i ==> (#[trigger] rest[k]).0 != name
                    };
                assert(members[i + 1] == (name, field));
                assert forall|k: int| 0 <= k < i + 1 implies (#[trigger] members[k]).0 != name by {
                    if k > 0 {
                        assert(rest[k - 1] == members[k]);
                    }
                }
            },
            None => {
                assert forall|k: int| 0 <= k < members.len() implies (#[trigger] members[k]).0
                    != name by {
                    if k > 0 {
                        assert(rest[k - 1] == members[k]);
                    }
                }
            },
        }
    } else if members.len() > 0 {
        assert(members[0] == (name, members[0].1));
    }
}

/// A priority of the scale that is written in decimal is the entry's; one that is
/// written but not on the scale, or none at all, counts as informational.
pub proof fn lemma_priority_read(n: nat)
    ensures
        n <= 7 ==> priority_of(Some(FieldModel::Text(text::decimal_digits(n)))) == n,
        n > 7 ==> priority_of(Some(FieldModel::Text(text::decimal_digits(n)))) == 6,
        priority_of(None) == 6,
        priority_of(Some(FieldModel::Other)) == 6,
        forall|items: Seq<Option<u64>>| #[trigger]
            priority_of(Some(FieldModel::Items(items))) == 6,
{
    text::lemma_numbers_read_back(n, MAX_PRIORITY as int);
}

/// A stamp that is written in decimal is the entry's.
pub proof fn lemma_stamp_read(n: nat)
    ensures
        n <= i64::MAX ==> stamp_of(Some(FieldModel::Text(text::decimal_digits(n)))) == Some(
            n as int,
        ),
        stamp_of(None) is None,
        stamp_of(Some(FieldModel::Other)) is None,
{
    text::lemma_numbers_read_back(n, i64::MAX as int);
}

/// A message is taken as it is; a list is read byte by byte, in order, without what
/// is no byte; anything else is no message.
pub proof fn lemma_message_read(text: Seq<char>, items: Seq<Option<u64>>, item: Option<u64>)
    ensures
        message_of(Some(FieldModel::Text(text))) == Some(text),
        message_of(Some(FieldModel::Items(items))) == Some(lossy_text(bytes_of(items))),
        message_of(Some(FieldModel::Other)) is None,
        message_of(None) is None,
        bytes_of(Seq::empty()) == Seq::<u8>::empty(),
        bytes_of(items.push(item)) == match item {
            Some(n) if n <= 255 => bytes_of(items).push(n as u8),
            _ => bytes_of(items),
        },
{
    assert(items.push(item).drop_last() =~= items);
}

/// A line stands for an entry exactly where it is an object with a message. The entry
/// has the message of the object's `MESSAGE`, the priority of its `PRIORITY` and the
/// stamp of its `__REALTIME_TIMESTAMP`.
pub proof fn lemma_entry_read(line: Seq<char>)
    ensures
        line.len() == 0 ==> line_entry(line) is None,
        line.len() > 0 ==> match json_members(line) {
            None => line_entry(line) is None,
            Some(members) => match message_of(member(members, "MESSAGE"@)) {
                None => line_entry(line) is None,
                Some(message) => {
                    &&& line_entry(line) matches Some(entry)
                    &&& entry.message == message
                    &&& entry.priority == priority_of(member(members, "PRIORITY"@))
                    &&& entry.stamp == stamp_of(member(members, "__REALTIME_TIMESTAMP"@))
                },
            },
        },
{
}

/// Lines are read one after another: a further line adds its entry behind the
/// others, or none.
pub proof fn lemma_entries_in_order(lines: Seq<Seq<char>>, line: Seq<char>)
    ensures
        entries_of(Seq::empty()) == Seq::<EntryModel>::empty(),
        entries_of(lines.push(line)) == match line_entry(line) {
            Some(entry) => entries_of(lines).push(entry),
            None => entries_of(lines),
        },
{
    assert(lines.push(line).drop_last() =~= lines);
}

/// Entries are shown one after another: a further entry adds its display lines
/// behind the others, one for each line of its message.
pub proof fn lemma_flattened_in_order(
    entries: Seq<EntryModel>,
    times: Seq<Seq<char>>,
    entry: EntryModel,
    time: Seq<char>,
)
    ensures
        flattened(Seq::empty(), Seq::empty()) == Seq::<LineModel>::empty(),
        flattened(entries.push(entry), times.push(time)) == flattened(entries, times) + display(
            entry.priority,
            time,
            text::lines_of(entry.message),
        ),
{
    assert(entries.push(entry).drop_last() =~= entries);
    assert(times.push(time).drop_last() =~= times);
}

/// What stands for the time of an entry was asked for at the second that its stamp
/// lies in; an entry without a stamp has no time.
pub proof fn lemma_time_of_entry(entry: EntryModel, time: Seq<char>)
    requires
        time_fits(entry, time),
    ensures
        entry.stamp is None ==> time.len() == 0,
        entry.stamp matches Some(usec) ==> exists|secs: int| #[trigger]
            local_time_at(secs, time) && if usec >= 0 {
                secs * 1_000_000 <= usec < (secs + 1) * 1_000_000
            } else {
                (secs - 1) * 1_000_000 < usec <= secs * 1_000_000
            },
        entry.stamp matches Some(usec) && 0 <= usec <= LAST_COMMON_SECOND * 1_000_000 ==> is_clock(
            time,
        ),
{
    if let Some(usec) = entry.stamp {
        lemma_second_of_stamp(usec);
        assert(local_time_at(whole_seconds(usec), time));
    }
}

/// The lines that are not empty are counted, each once.
pub proof fn lemma_filled(lines: Seq<Seq<char>>, line: Seq<char>)
    ensures
        filled(Seq::empty()) == 0,
        line.len() > 0 ==> filled(lines.push(line)) == filled(lines) + 1,
        line.len() == 0 ==> filled(lines.push(line)) == filled(lines),
{
    assert(lines.push(line).drop_last() =~= lines);
}

/// The journal is asked for one unit, for one boot, and for the five thousand newest
/// entries, one JSON object to a line.
pub proof fn lemma_journal_asked(unit: Seq<char>, previous_boot: bool)
    ensures
        ({
            let words = journal_command(unit, previous_boot);
            &&& words.len() == 9
            &&& words[0] == "--unit"@ && words[1] == unit
            &&& words[2] == "--boot"@ && words[3] == if previous_boot {
                "-1"@
            } else {
                "0"@
            }
            &&& words[4] == "--lines"@ && words[5] == text::decimal_digits(5_000)
            &&& words[6] == "--output=json"@
            &&& words[7] == "--no-pager"@
            &&& words[8] == "--quiet"@
        }),
{
}

/// A journal that could not be read is reported in its own words, where it has any.
pub proof fn lemma_journal_failures(output: Seq<char>, err: Seq<char>)
    ensures
        text::trimmed(output).len() == 0 ==> journal_failure(output) == "journalctl failed"@,
        text::trimmed(output).len() > 0 ==> journal_failure(output) == "journalctl failed"@ + ": "@
            + text::trimmed(output),
        journal_missing(err) == "failed to run journalctl — is this a systemd system?: "@ + err,
{
}

/// The models of lines and members are theirs, in order.
pub proof fn lemma_lines_viewed(lines: Seq<LogLine>, members: Seq<(String, JsonField)>)
    ensures
        line_views(lines).len() == lines.len(),
        forall|i: int|
            0 <= i < lines.len() ==> {
                let seen = #[trigger] line_views(lines)[i];
                &&& seen.time == lines[i].time@
                &&& seen.priority == lines[i].priority
                &&& seen.text == lines[i].text@
                &&& seen.continuation == lines[i].continuation
            },
        member_views(members).len() == members.len(),
        forall|i: int|
            0 <= i < members.len() ==> #[trigger] member_views(members)[i] == (
                members[i].0@,
                members[i].1@,
            ),
{
}

} // verus!
