//! Custom scheduler arguments: expansion of what a user typed, and display.
//!
//! Both the command line and the terminal interface go through
//! [`expand_scheduler_args`]. The raw input is first split on commas (on the
//! command line by its parser, in the interface by [`expand_input`]); each
//! chunk is then split like a shell command line, and the results are
//! flattened in order.
use vstd::prelude::*;
use vstd::string::StringExecFns;

use crate::text;
use crate::text::views;

verus! {

/// The error of [`shell_words::split`], which carries nothing.
#[verifier::external_type_specification]
#[verifier::external_body]
pub struct ExShellParseError(shell_words::ParseError);

/// The words that `shell_words::split` makes of a line, or `None` where it
/// reports an unclosed quote.
pub uninterp spec fn shell_split(line: Seq<char>) -> Option<Seq<Seq<char>>>;

/// The line that `shell_words::join` makes of a list of words.
pub uninterp spec fn shell_join(words: Seq<Seq<char>>) -> Seq<char>;

/// A line of blanks: spaces, tabs and line feeds.
pub open spec fn is_blank(line: Seq<char>) -> bool {
    forall|i: int|
        0 <= i < line.len() ==> {
            ||| #[trigger] line[i] == ' '
            ||| line[i] == '\t'
            ||| line[i] == '\n'
        }
}

/// `shell_words::split` splits a line into words like a shell. Its result
/// depends on the line alone; a line of blanks holds no words.
pub assume_specification[ shell_words::split ](s: &str) -> (words: Result<
    Vec<String>,
    shell_words::ParseError,
>)
    ensures
        match words {
            Ok(w) => shell_split(s@) == Some(views(w@)),
            Err(_) => shell_split(s@) is None,
        },
        is_blank(s@) ==> words is Ok && words->Ok_0@.len() == 0,
;

/// `shell_words::join` quotes each word where that is needed and puts a space
/// between each two. Its result depends on the words alone, and
/// `shell_words::split` takes it apart into the same words.
#[verifier::external_body]
fn join_words(words: &[String]) -> (line: String)
    ensures
        line@ == shell_join(views(words@)),
        shell_split(line@) == Some(views(words@)),
{
    shell_words::join(words)
}

/// The text of a `shell_words::ParseError`, which is always the same.
#[verifier::external_body]
fn parse_error_text(err: shell_words::ParseError) -> (text: String)
    ensures
        text@ == "missing closing quote"@,
{
    err.to_string()
}

/// Formats an argument vector as a shell command line, so that the boundaries
/// between arguments remain visible.
pub fn format_scheduler_args(args: &[String]) -> (line: String)
    ensures
        line@ == shell_join(views(args@)),
        shell_split(line@) == Some(views(args@)),
{
    join_words(args)
}

/// Why user input failed to expand into scheduler arguments.
#[derive(Debug, PartialEq)]
pub enum ArgsExpandError {
    /// A chunk failed shell-style parsing, such as one with an unclosed quote.
    /// This also covers quotes that span a comma: the comma split comes before
    /// quoting is interpreted, so each side of the comma is a chunk of its own.
    /// The payload is a display-ready message.
    Parse(String),
    /// The input expanded to no arguments. An empty argument list would mean
    /// something other than what the user typed, so it is refused.
    Empty,
}

/// What splitting one chunk gave: its words, or why it did not split.
pub type Words = Result<Seq<Seq<char>>, Seq<char>>;

/// The views of what splitting a chunk gave.
pub open spec fn words_view(part: Result<Vec<String>, String>) -> Words {
    match part {
        Ok(words) => Ok(views(words@)),
        Err(why) => Err(why@),
    }
}

/// The views of what splitting each chunk of a list gave.
pub open spec fn words_views(parts: Seq<Result<Vec<String>, String>>) -> Seq<Words> {
    parts.map_values(|part: Result<Vec<String>, String>| words_view(part))
}

/// The position of the first chunk that did not split, when there is one.
pub open spec fn first_failure(parts: Seq<Words>) -> Option<int>
    decreases parts.len(),
{
    if parts.len() == 0 {
        None
    } else {
        match first_failure(parts.drop_last()) {
            Some(i) => Some(i),
            None => if parts.last() is Err {
                Some(parts.len() - 1)
            } else {
                None
            },
        }
    }
}

/// The words of all chunks, in order.
pub open spec fn all_words(parts: Seq<Words>) -> Seq<Seq<char>>
    decreases parts.len(),
{
    if parts.len() == 0 {
        Seq::empty()
    } else {
        all_words(parts.drop_last()) + parts.last()->Ok_0
    }
}

/// How a list of chunks expands: into arguments, not for a reason, or into
/// nothing.
pub enum Expansion {
    Args(Seq<Seq<char>>),
    Invalid(Seq<char>),
    Nothing,
}

/// The text that reports a chunk that did not split.
pub open spec fn chunk_failure(why: Seq<char>, chunk: Seq<char>) -> Seq<char> {
    why + " in '"@ + chunk + "'"@
}

/// The expansion of a list of chunks: an error on the first that does not
/// split, and on a list without words; the words otherwise.
pub open spec fn expansion(chunks: Seq<Seq<char>>, parts: Seq<Words>) -> Expansion {
    match first_failure(parts) {
        Some(i) => Expansion::Invalid(chunk_failure(parts[i]->Err_0, chunks[i])),
        None => if all_words(parts).len() == 0 {
            Expansion::Nothing
        } else {
            Expansion::Args(all_words(parts))
        },
    }
}

/// What a result stands for.
pub open spec fn expanded(result: Result<Vec<String>, ArgsExpandError>) -> Expansion {
    match result {
        Ok(args) => Expansion::Args(views(args@)),
        Err(ArgsExpandError::Parse(msg)) => Expansion::Invalid(msg@),
        Err(ArgsExpandError::Empty) => Expansion::Nothing,
    }
}

/// What `shell_words::split` makes of a chunk, with its error as a text.
pub open spec fn shell_words_of(chunk: Seq<char>) -> Words {
    match shell_split(chunk) {
        Some(words) => Ok(words),
        None => Err("missing closing quote"@),
    }
}

/// What `shell_words::split` makes of each chunk of a list.
pub open spec fn shell_parts(chunks: Seq<Seq<char>>) -> Seq<Words> {
    chunks.map_values(|chunk: Seq<char>| shell_words_of(chunk))
}

proof fn lemma_first_failure(parts: Seq<Words>, n: int)
    requires
        0 <= n < parts.len(),
        first_failure(parts.take(n)) is None,
        parts[n] is Err,
    ensures
        first_failure(parts) == Some(n),
    decreases parts.len(),
{
    let front = parts.drop_last();
    if n == parts.len() - 1 {
        assert(front =~= parts.take(n));
    } else {
        assert(front.take(n) =~= parts.take(n));
        lemma_first_failure(front, n);
    }
}

/// Flattens the words of all chunks, given what splitting each of them gave.
pub fn collect_words(chunks: &[String], parts: Vec<Result<Vec<String>, String>>) -> (result: Result<
    Vec<String>,
    ArgsExpandError,
>)
    requires
        chunks@.len() == parts@.len(),
    ensures
        expanded(result) == expansion(views(chunks@), words_views(parts@)),
{
    let ghost all = words_views(parts@);
    let mut out: Vec<String> = Vec::new();
    let mut i: usize = 0;
    while i < parts.len()
        invariant
            i <= parts@.len() == chunks@.len(),
            all == words_views(parts@),
            first_failure(all.take(i as int)) is None,
            views(out@) == all_words(all.take(i as int)),
        decreases parts@.len() - i,
    {
        proof {
            assert(all[i as int] == words_view(parts@[i as int]));
            assert(all.take(i + 1).drop_last() =~= all.take(i as int));
        }
        match &parts[i] {
            Ok(words) => {
                let ghost before = out@;
                let mut more = text::clone_list(words);
                out.append(&mut more);
                assert(views(out@) =~= views(before) + views(words@));
            },
            Err(why) => {
                let mut msg = why.clone();
                msg.append(" in '");
                msg.append(chunks[i].as_str());
                msg.append("'");
                proof {
                    lemma_first_failure(all, i as int);
                    assert(views(chunks@)[i as int] == chunks@[i as int]@);
                }
                return Err(ArgsExpandError::Parse(msg));
            },
        }
        i += 1;
    }
    proof {
        assert(all.take(i as int) =~= all);
        assert(views(out@).len() == out@.len());
    }
    if out.is_empty() {
        return Err(ArgsExpandError::Empty);
    }
    Ok(out)
}

/// Blank chunks hold no words.
proof fn lemma_no_words(parts: Seq<Words>)
    requires
        forall|i: int|
            0 <= i < parts.len() ==> #[trigger] parts[i] is Ok && parts[i]->Ok_0.len() == 0,
    ensures
        first_failure(parts) is None,
        all_words(parts).len() == 0,
    decreases parts.len(),
{
    if parts.len() > 0 {
        lemma_no_words(parts.drop_last());
    }
}

/// Expands chunks of user input into the argument list for the loader: each
/// chunk is split like a shell command line, and the results are flattened in
/// order.
pub fn expand_scheduler_args(raw: &[String]) -> (result: Result<Vec<String>, ArgsExpandError>)
    ensures
        expanded(result) == expansion(views(raw@), shell_parts(views(raw@))),
        (forall|i: int| 0 <= i < raw@.len() ==> is_blank((#[trigger] raw@[i])@))
            ==> result == Err::<Vec<String>, ArgsExpandError>(ArgsExpandError::Empty),
{
    let mut parts: Vec<Result<Vec<String>, String>> = Vec::new();
    let ghost wanted = shell_parts(views(raw@));
    let mut i: usize = 0;
    while i < raw.len()
        invariant
            i <= raw@.len(),
            wanted == shell_parts(views(raw@)),
            words_views(parts@) == wanted.take(i as int),
            forall|k: int|
                0 <= k < i && is_blank((#[trigger] raw@[k])@) ==> wanted[k] is Ok
                    && wanted[k]->Ok_0.len() == 0,
        decreases raw@.len() - i,
    {
        let ghost before = parts@;
        let part = match shell_words::split(raw[i].as_str()) {
            Ok(words) => Ok(words),
            Err(err) => Err(parse_error_text(err)),
        };
        proof {
            assert(wanted[i as int] == shell_words_of(raw@[i as int]@));
            assert(words_view(part) == wanted[i as int]);
            assert(words_views(before.push(part)) =~= words_views(before).push(words_view(part)));
            assert(wanted.take(i + 1) =~= wanted.take(i as int).push(wanted[i as int]));
        }
        parts.push(part);
        i += 1;
    }
    proof {
        assert(wanted.take(i as int) =~= wanted);
        assert(words_views(parts@).len() == parts@.len());
        if forall|k: int| 0 <= k < raw@.len() ==> is_blank((#[trigger] raw@[k])@) {
            assert forall|k: int| 0 <= k < wanted.len() implies #[trigger] wanted[k] is Ok
                && wanted[k]->Ok_0.len() == 0 by {
                assert(is_blank(raw@[k]@));
            }
            lemma_no_words(wanted);
        }
    }
    collect_words(raw, parts)
}

/// The pieces of blanks and commas are blank.
proof fn lemma_blank_pieces(input: Seq<char>)
    requires
        forall|i: int| 0 <= i < input.len() && input[i] != ',' ==> is_blank(seq![#[trigger] input[i]]),
    ensures
        forall|k: int|
            0 <= k < text::split_on(input, ',').len() ==> is_blank(
                #[trigger] text::split_on(input, ',')[k],
            ),
    decreases input.len(),
{
    input.index_of_first_ensures(',');
    let pieces = text::split_on(input, ',');
    assert forall|s: Seq<char>|
        (forall|j: int| 0 <= j < s.len() ==> #[trigger] is_blank(seq![s[j]])) implies is_blank(s) by {
        assert forall|j: int| 0 <= j < s.len() implies {
            ||| #[trigger] s[j] == ' '
            ||| s[j] == '\t'
            ||| s[j] == '\n'
        } by {
            assert(is_blank(seq![s[j]]));
            assert(seq![s[j]][0] == s[j]);
        }
    }
    match input.index_of_first(',') {
        Some(n) => {
            let rest = input.skip(n + 1);
            lemma_blank_pieces(rest);
            assert(is_blank(input.take(n)));
            assert forall|k: int| 0 <= k < pieces.len() implies is_blank(#[trigger] pieces[k]) by {
                if k > 0 {
                    assert(pieces[k] == text::split_on(rest, ',')[k - 1]);
                }
            }
        },
        None => {
            assert(is_blank(input));
        },
    }
}

/// Whether a text holds nothing but blanks and commas.
pub open spec fn is_blank_list(input: Seq<char>) -> bool {
    forall|i: int| 0 <= i < input.len() && input[i] != ',' ==> is_blank(seq![#[trigger] input[i]])
}

/// How raw input expands: comma split first, then each chunk.
pub open spec fn input_expansion(input: Seq<char>) -> Expansion {
    expansion(text::split_on(input, ','), shell_parts(text::split_on(input, ',')))
}

/// Expands raw input into the argument list for the loader: comma split first,
/// then each chunk like a shell command line, flattened. Input without any
/// argument is refused.
pub fn expand_input(input: &str) -> (result: Result<Vec<String>, ArgsExpandError>)
    ensures
        expanded(result) == input_expansion(input@),
        is_blank_list(input@) ==> result == Err::<Vec<String>, ArgsExpandError>(
            ArgsExpandError::Empty,
        ),
{
    let chunks = text::split_char(input, ',');
    proof {
        if is_blank_list(input@) {
            lemma_blank_pieces(input@);
            assert forall|i: int| 0 <= i < chunks@.len() implies is_blank((#[trigger] chunks@[i])@) by {
                assert(views(chunks@)[i] == chunks@[i]@);
            }
        }
    }
    expand_scheduler_args(&chunks)
}

/// What is displayed for an argument list parses back into the same arguments:
/// a line that `shell_words::split` takes apart into `args`, typed without a
/// comma, expands to `args`.
pub proof fn lemma_display_expands_back(line: Seq<char>, args: Seq<Seq<char>>)
    requires
        shell_split(line) == Some(args),
        !line.contains(','),
        args.len() > 0,
    ensures
        input_expansion(line) == Expansion::Args(args),
{
    line.index_of_first_ensures(',');
    let chunks = text::split_on(line, ',');
    assert(chunks =~= seq![line]);
    let parts = shell_parts(chunks);
    assert(parts =~= seq![shell_words_of(line)]);
    assert(parts.drop_last() =~= Seq::<Words>::empty());
    assert(first_failure(parts.drop_last()) is None);
    assert(first_failure(parts) is None);
    assert(all_words(parts.drop_last()) =~= Seq::<Seq<char>>::empty());
    assert(all_words(parts) =~= args);
}

/// One expansion after another: the first failure counts, and otherwise the words
/// of both.
pub open spec fn expansion_then(x: Expansion, y: Expansion) -> Expansion {
    match (x, y) {
        (Expansion::Invalid(why), _) => Expansion::Invalid(why),
        (_, Expansion::Invalid(why)) => Expansion::Invalid(why),
        (Expansion::Nothing, _) => y,
        (_, Expansion::Nothing) => x,
        (Expansion::Args(a), Expansion::Args(b)) => Expansion::Args(a + b),
    }
}

proof fn lemma_parts_concat(x: Seq<Words>, y: Seq<Words>)
    ensures
        first_failure(x + y) == match (first_failure(x), first_failure(y)) {
            (Some(i), _) => Some(i),
            (None, Some(i)) => Some(x.len() + i),
            (None, None) => None::<int>,
        },
        all_words(x + y) == all_words(x) + all_words(y),
        first_failure(x) matches Some(i) ==> 0 <= i < x.len(),
        first_failure(y) matches Some(i) ==> 0 <= i < y.len(),
    decreases x.len() + y.len(),
{
    if y.len() == 0 {
        assert(x + y =~= x);
        assert(all_words(x) + all_words(y) =~= all_words(x));
        if x.len() > 0 {
            lemma_parts_concat(x.drop_last(), y);
        }
    } else {
        lemma_parts_concat(x, y.drop_last());
        assert((x + y).drop_last() =~= x + y.drop_last());
        assert(all_words(x + y) =~= all_words(x) + all_words(y));
    }
}

/// Two inputs with a comma between them expand to the arguments of the first and
/// then those of the second, and fail where the first of them to fail does.
pub proof fn lemma_inputs_expand_alone(a: Seq<char>, b: Seq<char>)
    ensures
        input_expansion(a.push(',') + b) == expansion_then(input_expansion(a), input_expansion(b)),
{
    let x = text::split_on(a, ',');
    let y = text::split_on(b, ',');
    text::lemma_split_concat(a, b, ',');
    assert(shell_parts(x + y) =~= shell_parts(x) + shell_parts(y));
    lemma_parts_concat(shell_parts(x), shell_parts(y));
    if all_words(shell_parts(x)).len() == 0 {
        assert(all_words(shell_parts(x)) + all_words(shell_parts(y)) =~= all_words(shell_parts(y)));
    }
    if all_words(shell_parts(y)).len() == 0 {
        assert(all_words(shell_parts(x)) + all_words(shell_parts(y)) =~= all_words(shell_parts(x)));
    }
}

proof fn lemma_failures(parts: Seq<Words>)
    ensures
        match first_failure(parts) {
            Some(i) => {
                &&& 0 <= i < parts.len()
                &&& parts[i] is Err
                &&& forall|k: int| 0 <= k < i ==> #[trigger] parts[k] is Ok
            },
            None => forall|k: int| 0 <= k < parts.len() ==> #[trigger] parts[k] is Ok,
        },
    decreases parts.len(),
{
    if parts.len() > 0 {
        let front = parts.drop_last();
        lemma_failures(front);
        assert forall|k: int| 0 <= k < front.len() implies front[k] == #[trigger] parts[k] by {}
    }
}

proof fn lemma_words_at(parts: Seq<Words>)
    ensures
        all_words(parts) == parts.map_values(|part: Words| part->Ok_0).flatten_alt(),
    decreases parts.len(),
{
    let rows = parts.map_values(|part: Words| part->Ok_0);
    if parts.len() > 0 {
        lemma_words_at(parts.drop_last());
        assert(rows.drop_last() =~= parts.drop_last().map_values(|part: Words| part->Ok_0));
        assert(rows.last() == parts.last()->Ok_0);
    }
}

/// Chunks expand to the words of all of them, in order and one chunk after another,
/// where each of them splits and there are words at all. Otherwise the first chunk
/// that does not split is named, with the reason; and where all split into nothing,
/// there is nothing.
pub proof fn lemma_expansion(chunks: Seq<Seq<char>>, parts: Seq<Words>)
    requires
        chunks.len() == parts.len(),
    ensures
        match expansion(chunks, parts) {
            Expansion::Args(words) => {
                &&& words.len() > 0
                &&& forall|k: int| 0 <= k < parts.len() ==> #[trigger] parts[k] is Ok
                &&& words == parts.map_values(|part: Words| part->Ok_0).flatten()
            },
            Expansion::Invalid(msg) => exists|i: int|
                {
                    &&& 0 <= i < parts.len()
                    &&& #[trigger] parts[i] matches Err(why)
                    &&& msg == why + " in '"@ + chunks[i] + "'"@
                    &&& forall|k: int| 0 <= k < i ==> #[trigger] parts[k] is Ok
                },
            Expansion::Nothing => {
                &&& forall|k: int| 0 <= k < parts.len() ==> #[trigger] parts[k] is Ok
                &&& parts.map_values(|part: Words| part->Ok_0).flatten().len() == 0
            },
        },
{
    lemma_failures(parts);
    lemma_words_at(parts);
    parts.map_values(|part: Words| part->Ok_0).lemma_flatten_and_flatten_alt_are_equivalent();
}

/// Each chunk is split on its own, like a shell command line; one that does not
/// split has an unclosed quote.
pub proof fn lemma_chunks_split_alone(chunks: Seq<Seq<char>>)
    ensures
        shell_parts(chunks).len() == chunks.len(),
        forall|i: int|
            0 <= i < chunks.len() ==> match #[trigger] shell_parts(chunks)[i] {
                Ok(words) => shell_split(chunks[i]) == Some(words),
                Err(why) => shell_split(chunks[i]) is None && why == "missing closing quote"@,
            },
{
}

/// Input without a comma is one chunk: it expands to its words, is refused where it
/// has an unclosed quote, and holds nothing where it has no words.
pub proof fn lemma_one_chunk(input: Seq<char>)
    requires
        !input.contains(','),
    ensures
        match shell_split(input) {
            Some(words) => if words.len() > 0 {
                input_expansion(input) == Expansion::Args(words)
            } else {
                input_expansion(input) == Expansion::Nothing
            },
            None => input_expansion(input) == Expansion::Invalid(
                "missing closing quote"@ + " in '"@ + input + "'"@,
            ),
        },
{
    input.index_of_first_ensures(',');
    let chunks = text::split_on(input, ',');
    assert(chunks =~= seq![input]);
    let parts = shell_parts(chunks);
    assert(parts =~= seq![shell_words_of(input)]);
    assert(parts.drop_last() =~= Seq::<Words>::empty());
    assert(first_failure(parts.drop_last()) is None);
    assert(all_words(parts.drop_last()) =~= Seq::<Seq<char>>::empty());
    if let Some(words) = shell_split(input) {
        assert(all_words(parts) =~= words);
    }
}

/// What a result of an expansion stands for: its arguments, its message, or nothing.
pub proof fn lemma_expanded(result: Result<Vec<String>, ArgsExpandError>)
    ensures
        result matches Ok(list) ==> expanded(result) == Expansion::Args(views(list@)),
        result matches Err(ArgsExpandError::Parse(msg)) ==> expanded(result) == Expansion::Invalid(
            msg@,
        ),
        result matches Err(ArgsExpandError::Empty) ==> expanded(result) == Expansion::Nothing,
{
}

} // verus!
