//! Text primitives over the character view of strings: comparison, prefixes,
//! trimming, splitting and decimal numbers.
use vstd::prelude::*;
use vstd::string::{StrSliceExecFns, StringExecFns};

verus! {

broadcast use vstd::string::group_string_axioms;

/// The character views of a list of strings.
pub open spec fn views(list: Seq<String>) -> Seq<Seq<char>> {
    list.map_values(|s: String| s@)
}

/// `String::push` appends one character to the end of the string.
pub assume_specification[ String::push ](s: &mut String, c: char)
    ensures
        final(s)@ == old(s)@.push(c),
;

/// Collects the characters of a string.
pub fn chars_of(s: &str) -> (v: Vec<char>)
    ensures
        v@ == s@,
{
    let mut v: Vec<char> = Vec::new();
    for c in it: s.chars()
        invariant
            it.seq() == s@,
            v@ == s@.take(it.index()),
    {
        v.push(c);
    }
    assert(s@.take(s@.len() as int) == s@);
    v
}

/// Builds a string out of the characters `from..to` of a list.
pub fn string_of(chars: &Vec<char>, from: usize, to: usize) -> (s: String)
    requires
        from <= to <= chars@.len(),
    ensures
        s@ == chars@.subrange(from as int, to as int),
{
    let mut s = String::new();
    let mut i: usize = from;
    while i < to
        invariant
            from <= i <= to <= chars@.len(),
            s@ == chars@.subrange(from as int, i as int),
        decreases to - i,
    {
        s.push(chars[i]);
        i += 1;
    }
    s
}

/// Whether two strings hold the same characters.
pub fn text_eq(a: &str, b: &str) -> (same: bool)
    ensures
        same == (a@ == b@),
{
    let x = a.as_bytes();
    let y = b.as_bytes();
    if x.len() != y.len() {
        return false;
    }
    let mut i: usize = 0;
    while i < x.len()
        invariant
            x@.len() == y@.len(),
            i <= x@.len(),
            x@ == vstd::utf8::encode_utf8(a@),
            y@ == vstd::utf8::encode_utf8(b@),
            forall|k: int| 0 <= k < i ==> x@[k] == y@[k],
        decreases x@.len() - i,
    {
        if x[i] != y[i] {
            return false;
        }
        i += 1;
    }
    assert(a@ == b@) by {
        assert(x@ =~= y@);
        vstd::utf8::encode_utf8_decode_utf8(a@);
        vstd::utf8::encode_utf8_decode_utf8(b@);
    }
    true
}

/// What is left of `s` after `prefix`, when `s` starts with it.
pub open spec fn stripped(s: Seq<char>, prefix: Seq<char>) -> Option<Seq<char>> {
    if prefix.is_prefix_of(s) {
        Some(s.skip(prefix.len() as int))
    } else {
        None
    }
}

/// Whether `s` starts with `prefix`.
pub fn starts_with(s: &str, prefix: &str) -> (yes: bool)
    ensures
        yes == prefix@.is_prefix_of(s@),
{
    let a = chars_of(s);
    let p = chars_of(prefix);
    if p.len() > a.len() {
        return false;
    }
    let mut i: usize = 0;
    while i < p.len()
        invariant
            i <= p@.len() <= a@.len(),
            a@ == s@,
            p@ == prefix@,
            forall|k: int| 0 <= k < i ==> a@[k] == p@[k],
        decreases p@.len() - i,
    {
        if a[i] != p[i] {
            return false;
        }
        i += 1;
    }
    assert(p@ =~= a@.take(p@.len() as int));
    true
}

/// Removes `prefix` from the front of `s`, when it is there.
pub fn strip_prefix<'a>(s: &'a str, prefix: &str) -> (rest: Option<&'a str>)
    ensures
        match rest {
            Some(r) => stripped(s@, prefix@) == Some(r@),
            None => stripped(s@, prefix@) is None,
        },
{
    if starts_with(s, prefix) {
        let from = prefix.unicode_len();
        let to = s.unicode_len();
        Some(s.substring_char(from, to))
    } else {
        None
    }
}

/// The pieces of `s` between occurrences of `sep`, always at least one.
pub open spec fn split_on(s: Seq<char>, sep: char) -> Seq<Seq<char>>
    decreases s.len(),
{
    match s.index_of_first(sep) {
        Some(i) => if 0 <= i < s.len() {
            seq![s.take(i)] + split_on(s.skip(i + 1), sep)
        } else {
            seq![s]
        },
        None => seq![s],
    }
}

/// A separator closes the piece that stands in front of it.
pub proof fn lemma_split_step(piece: Seq<char>, rest: Seq<char>, sep: char)
    requires
        !piece.contains(sep),
    ensures
        split_on(piece.push(sep) + rest, sep) == seq![piece] + split_on(rest, sep),
{
    let s = piece.push(sep) + rest;
    assert(s[piece.len() as int] == sep);
    s.index_of_first_ensures(sep);
    let i = s.index_of_first(sep)->0;
    if i < piece.len() {
        assert(piece[i] == sep);
    }
    assert(s.take(i) =~= piece);
    assert(s.skip(i + 1) =~= rest);
}

/// The pieces of two texts with a separator between them are those of the first
/// and then those of the second.
pub proof fn lemma_split_concat(a: Seq<char>, b: Seq<char>, sep: char)
    ensures
        split_on(a.push(sep) + b, sep) == split_on(a, sep) + split_on(b, sep),
    decreases a.len(),
{
    a.index_of_first_ensures(sep);
    match a.index_of_first(sep) {
        Some(i) => {
            let piece = a.take(i);
            let rest = a.skip(i + 1);
            assert(a.push(sep) + b =~= piece.push(sep) + (rest.push(sep) + b));
            lemma_split_step(piece, rest.push(sep) + b, sep);
            lemma_split_concat(rest, b, sep);
            assert(seq![piece] + (split_on(rest, sep) + split_on(b, sep)) =~= (seq![piece]
                + split_on(rest, sep)) + split_on(b, sep));
        },
        None => lemma_split_step(a, b, sep),
    }
}

/// Splits a string at every `sep`.
pub fn split_char(s: &str, sep: char) -> (pieces: Vec<String>)
    ensures
        views(pieces@) == split_on(s@, sep),
{
    let chars = chars_of(s);
    let mut pieces: Vec<String> = Vec::new();
    let mut from: usize = 0;
    let mut i: usize = 0;
    assert(chars@.skip(0) =~= chars@);
    while i < chars.len()
        invariant
            from <= i <= chars@.len(),
            chars@ == s@,
            !chars@.subrange(from as int, i as int).contains(sep),
            split_on(chars@, sep) == views(pieces@) + split_on(chars@.skip(from as int), sep),
        decreases chars@.len() - i,
    {
        let ghost piece = chars@.subrange(from as int, i as int);
        if chars[i] == sep {
            let next = string_of(&chars, from, i);
            proof {
                let rest = chars@.skip(i + 1);
                assert(chars@.skip(from as int) =~= piece.push(sep) + rest);
                lemma_split_step(piece, rest, sep);
                assert(views(pieces@.push(next)) =~= views(pieces@).push(piece));
                assert(views(pieces@) + (seq![piece] + split_on(rest, sep))
                    =~= views(pieces@).push(piece) + split_on(rest, sep));
            }
            pieces.push(next);
            from = i + 1;
        } else {
            assert(chars@.subrange(from as int, i + 1) =~= piece.push(chars@[i as int]));
        }
        i += 1;
    }
    let last = string_of(&chars, from, chars.len());
    proof {
        let piece = chars@.skip(from as int);
        assert(piece =~= chars@.subrange(from as int, i as int));
        piece.index_of_first_ensures(sep);
        assert(views(pieces@.push(last)) =~= views(pieces@) + seq![piece]);
    }
    pieces.push(last);
    pieces
}

/// A line without the carriage return that ends it, if one does.
pub open spec fn without_cr(line: Seq<char>) -> Seq<char> {
    if line.len() > 0 && line.last() == '\r' {
        line.drop_last()
    } else {
        line
    }
}

/// The lines of a text. A line ends in a line feed, or a carriage return and a
/// line feed; the ending of the last line is optional.
pub open spec fn lines_of(s: Seq<char>) -> Seq<Seq<char>>
    decreases s.len(),
{
    match s.index_of_first('\n') {
        Some(i) => if 0 <= i < s.len() {
            seq![without_cr(s.take(i))] + lines_of(s.skip(i + 1))
        } else {
            Seq::empty()
        },
        None => if s.len() == 0 {
            Seq::empty()
        } else {
            seq![s]
        },
    }
}

/// A line feed closes the line that stands in front of it.
pub proof fn lemma_lines_step(line: Seq<char>, rest: Seq<char>)
    requires
        !line.contains('\n'),
    ensures
        lines_of(line.push('\n') + rest) == seq![without_cr(line)] + lines_of(rest),
{
    let s = line.push('\n') + rest;
    assert(s[line.len() as int] == '\n');
    s.index_of_first_ensures('\n');
    let i = s.index_of_first('\n')->0;
    if i < line.len() {
        assert(line[i] == '\n');
    }
    assert(s.take(i) =~= line);
    assert(s.skip(i + 1) =~= rest);
}

/// The lines of two texts with a line feed between them: those of the first, with
/// its last line closed, and those of the second.
pub proof fn lemma_lines_concat(a: Seq<char>, b: Seq<char>)
    ensures
        lines_of(a.push('\n') + b) == lines_of(a.push('\n')) + lines_of(b),
    decreases a.len(),
{
    a.index_of_first_ensures('\n');
    match a.index_of_first('\n') {
        Some(i) => {
            let line = a.take(i);
            let rest = a.skip(i + 1);
            assert(a.push('\n') =~= line.push('\n') + rest.push('\n'));
            assert(a.push('\n') + b =~= line.push('\n') + (rest.push('\n') + b));
            lemma_lines_step(line, rest.push('\n'));
            lemma_lines_step(line, rest.push('\n') + b);
            lemma_lines_concat(rest, b);
            assert(seq![without_cr(line)] + (lines_of(rest.push('\n')) + lines_of(b)) =~= (
            seq![without_cr(line)] + lines_of(rest.push('\n'))) + lines_of(b));
        },
        None => {
            let none = Seq::<char>::empty();
            none.index_of_first_ensures('\n');
            assert(a.push('\n') =~= a.push('\n') + none);
            lemma_lines_step(a, none);
            lemma_lines_step(a, b);
            assert(lines_of(a.push('\n')) =~= seq![without_cr(a)]);
        },
    }
}

/// Splits a text into its lines.
pub fn lines(s: &str) -> (out: Vec<String>)
    ensures
        views(out@) == lines_of(s@),
{
    let chars = chars_of(s);
    let mut out: Vec<String> = Vec::new();
    let mut from: usize = 0;
    let mut i: usize = 0;
    assert(chars@.skip(0) =~= chars@);
    while i < chars.len()
        invariant
            from <= i <= chars@.len(),
            chars@ == s@,
            !chars@.subrange(from as int, i as int).contains('\n'),
            lines_of(chars@) == views(out@) + lines_of(chars@.skip(from as int)),
        decreases chars@.len() - i,
    {
        let ghost line = chars@.subrange(from as int, i as int);
        if chars[i] == '\n' {
            let end: usize = if i > from && chars[i - 1] == '\r' {
                i - 1
            } else {
                i
            };
            let next = string_of(&chars, from, end);
            proof {
                let rest = chars@.skip(i + 1);
                assert(next@ =~= without_cr(line));
                assert(chars@.skip(from as int) =~= line.push('\n') + rest);
                lemma_lines_step(line, rest);
                assert(views(out@.push(next)) =~= views(out@).push(without_cr(line)));
                assert(views(out@) + (seq![without_cr(line)] + lines_of(rest))
                    =~= views(out@).push(without_cr(line)) + lines_of(rest));
            }
            out.push(next);
            from = i + 1;
        } else {
            assert(chars@.subrange(from as int, i + 1) =~= line.push(chars@[i as int]));
        }
        i += 1;
    }
    proof {
        let line = chars@.skip(from as int);
        assert(line =~= chars@.subrange(from as int, i as int));
        line.index_of_first_ensures('\n');
    }
    if from < chars.len() {
        let last = string_of(&chars, from, chars.len());
        proof {
            let line = chars@.skip(from as int);
            assert(last@ =~= line);
            assert(views(out@.push(last)) =~= views(out@) + seq![line]);
        }
        out.push(last);
    } else {
        assert(views(out@) + Seq::<Seq<char>>::empty() =~= views(out@));
    }
    out
}

/// Unicode's `White_Space` property.
pub open spec fn white_space(c: char) -> bool {
    let u = c as u32;
    ||| 0x9 <= u <= 0xd
    ||| u == 0x20
    ||| u == 0x85
    ||| u == 0xa0
    ||| u == 0x1680
    ||| 0x2000 <= u <= 0x200a
    ||| u == 0x2028
    ||| u == 0x2029
    ||| u == 0x202f
    ||| u == 0x205f
    ||| u == 0x3000
}

/// Whether `c` is white space.
pub fn is_white_space(c: char) -> (yes: bool)
    ensures
        yes == white_space(c),
{
    let u = c as u32;
    (0x9 <= u && u <= 0xd) || u == 0x20 || u == 0x85 || u == 0xa0 || u == 0x1680 || (0x2000 <= u && u
        <= 0x200a) || u == 0x2028 || u == 0x2029 || u == 0x202f || u == 0x205f || u == 0x3000
}

/// `s` without the white space in front.
pub open spec fn trimmed_start(s: Seq<char>) -> Seq<char>
    decreases s.len(),
{
    if s.len() > 0 && white_space(s[0]) {
        trimmed_start(s.skip(1))
    } else {
        s
    }
}

/// `s` without the white space at the end.
pub open spec fn trimmed_end(s: Seq<char>) -> Seq<char>
    decreases s.len(),
{
    if s.len() > 0 && white_space(s.last()) {
        trimmed_end(s.drop_last())
    } else {
        s
    }
}

/// `s` without white space at either end.
pub open spec fn trimmed(s: Seq<char>) -> Seq<char> {
    trimmed_end(trimmed_start(s))
}

/// Removes white space from both ends of a string.
pub fn trim(s: &str) -> (out: String)
    ensures
        out@ == trimmed(s@),
{
    let chars = chars_of(s);
    let mut from: usize = 0;
    let mut to: usize = chars.len();
    assert(chars@.skip(0) =~= chars@);
    while from < to && is_white_space(chars[from])
        invariant
            from <= to == chars@.len(),
            trimmed_start(chars@) == trimmed_start(chars@.skip(from as int)),
        decreases to - from,
    {
        assert(chars@.skip(from as int).skip(1) =~= chars@.skip(from + 1));
        from += 1;
    }
    let ghost front = chars@.skip(from as int);
    assert(front =~= chars@.subrange(from as int, to as int));
    while from < to && is_white_space(chars[to - 1])
        invariant
            from <= to <= chars@.len(),
            trimmed_end(front) == trimmed_end(chars@.subrange(from as int, to as int)),
        decreases to - from,
    {
        assert(chars@.subrange(from as int, to as int).drop_last() =~= chars@.subrange(
            from as int,
            to - 1,
        ));
        to -= 1;
    }
    string_of(&chars, from, to)
}

/// Whether `c` is one of the ten decimal digits.
pub open spec fn is_digit(c: char) -> bool {
    '0' <= c <= '9'
}

/// The number that a row of decimal digits stands for.
pub open spec fn decimal_value(s: Seq<char>) -> int
    decreases s.len(),
{
    if s.len() == 0 {
        0
    } else {
        decimal_value(s.drop_last()) * 10 + (s.last() as int - '0' as int)
    }
}

/// A row of at least one decimal digit.
pub open spec fn is_decimal(s: Seq<char>) -> bool {
    s.len() > 0 && forall|i: int| 0 <= i < s.len() ==> is_digit(#[trigger] s[i])
}

proof fn lemma_decimal_prefix(s: Seq<char>, n: int)
    requires
        0 <= n <= s.len(),
        forall|i: int| 0 <= i < s.len() ==> is_digit(#[trigger] s[i]),
    ensures
        0 <= decimal_value(s.take(n)) <= decimal_value(s),
    decreases s.len(),
{
    if n == s.len() {
        assert(s.take(n) =~= s);
        if s.len() > 0 {
            lemma_decimal_prefix(s.drop_last(), n - 1);
            assert(s.drop_last().take(n - 1) =~= s.drop_last());
            assert(is_digit(s.last()));
        }
    } else {
        lemma_decimal_prefix(s.drop_last(), n);
        assert(s.drop_last().take(n) =~= s.take(n));
        assert(is_digit(s.last()));
    }
}

/// Reads a row of decimal digits, from position `from` on, as a number of at
/// most `max`.
fn parse_digits(chars: &Vec<char>, from: usize, max: u64) -> (n: Option<u64>)
    requires
        from <= chars@.len(),
    ensures
        match n {
            Some(v) => is_decimal(chars@.skip(from as int)) && v == decimal_value(
                chars@.skip(from as int),
            ) && v <= max,
            None => !is_decimal(chars@.skip(from as int)) || decimal_value(chars@.skip(from as int))
                > max,
        },
{
    let ghost row = chars@.skip(from as int);
    if from == chars.len() {
        return None;
    }
    let mut value: u64 = 0;
    let mut i: usize = from;
    assert(row.take(0) =~= Seq::<char>::empty());
    while i < chars.len()
        invariant
            from <= i <= chars@.len(),
            row == chars@.skip(from as int),
            value == decimal_value(row.take(i - from)),
            value <= max,
            forall|k: int| 0 <= k < i - from ==> is_digit(#[trigger] row[k]),
        decreases chars@.len() - i,
    {
        let c = chars[i];
        assert(row[i - from] == c);
        if c < '0' || '9' < c {
            return None;
        }
        let d: u64 = (c as u32 - '0' as u32) as u64;
        proof {
            assert(row.take(i - from + 1).drop_last() =~= row.take(i - from));
            assert(row.take(i - from + 1).last() == c);
            assert(decimal_value(row.take(i - from + 1)) == value * 10 + d);
            if is_decimal(row) {
                lemma_decimal_prefix(row, i - from + 1);
            }
        }
        if value > (u64::MAX - d) / 10 || value * 10 + d > max {
            return None;
        }
        value = value * 10 + d;
        i += 1;
    }
    assert(row.take(i - from) =~= row);
    Some(value)
}

/// What a string of an optional plus sign and decimal digits stands for, when
/// it is at most `max`.
pub open spec fn unsigned_value(s: Seq<char>, max: int) -> Option<int> {
    let digits = if s.len() > 0 && s[0] == '+' {
        s.skip(1)
    } else {
        s
    };
    if is_decimal(digits) && decimal_value(digits) <= max {
        Some(decimal_value(digits))
    } else {
        None
    }
}

/// What a string without a minus sign stands for is not negative.
pub proof fn lemma_unsigned_value(s: Seq<char>, max: int)
    ensures
        unsigned_value(s, max) matches Some(n) ==> 0 <= n <= max,
{
    let digits = if s.len() > 0 && s[0] == '+' {
        s.skip(1)
    } else {
        s
    };
    if is_decimal(digits) {
        lemma_decimal_prefix(digits, 0);
    }
}

/// What a string of an optional sign and decimal digits stands for, when it is
/// in the range of `i64`.
pub open spec fn signed_value(s: Seq<char>) -> Option<int> {
    if s.len() > 0 && s[0] == '-' {
        let digits = s.skip(1);
        if is_decimal(digits) && decimal_value(digits) <= -i64::MIN {
            Some(-decimal_value(digits))
        } else {
            None
        }
    } else {
        unsigned_value(s, i64::MAX as int)
    }
}

/// Reads an unsigned eight-bit number.
pub fn parse_u8(s: &str) -> (n: Option<u8>)
    ensures
        match n {
            Some(v) => unsigned_value(s@, 255) == Some(v as int),
            None => unsigned_value(s@, 255) is None,
        },
{
    let chars = chars_of(s);
    let from: usize = if chars.len() > 0 && chars[0] == '+' {
        1
    } else {
        0
    };
    assert(chars@.skip(0) =~= chars@);
    match parse_digits(&chars, from, 255) {
        Some(v) => Some(v as u8),
        None => None,
    }
}

/// Reads a signed 64-bit number.
pub fn parse_i64(s: &str) -> (n: Option<i64>)
    ensures
        match n {
            Some(v) => signed_value(s@) == Some(v as int),
            None => signed_value(s@) is None,
        },
{
    let chars = chars_of(s);
    assert(chars@.skip(0) =~= chars@);
    if chars.len() > 0 && chars[0] == '-' {
        match parse_digits(&chars, 1, 0x8000_0000_0000_0000) {
            Some(v) => if v == 0x8000_0000_0000_0000 {
                Some(i64::MIN)
            } else {
                Some(-(v as i64))
            },
            None => None,
        }
    } else {
        let from: usize = if chars.len() > 0 && chars[0] == '+' {
            1
        } else {
            0
        };
        match parse_digits(&chars, from, 0x7fff_ffff_ffff_ffff) {
            Some(v) => Some(v as i64),
            None => None,
        }
    }
}

/// The decimal digits of a number.
pub open spec fn decimal_digits(n: nat) -> Seq<char>
    decreases n,
{
    let last = ('0' as int + n % 10) as char;
    if n < 10 {
        seq![last]
    } else {
        decimal_digits(n / 10).push(last)
    }
}

/// Writes a number in decimal.
pub fn decimal(n: u64) -> (s: String)
    ensures
        s@ == decimal_digits(n as nat),
    decreases n,
{
    let mut s = if n < 10 {
        String::new()
    } else {
        decimal(n / 10)
    };
    let d: u8 = (n % 10) as u8;
    s.push((48 + d) as char);
    s
}

/// What is written in decimal reads back as the same number.
pub proof fn lemma_decimal_round_trip(n: nat)
    ensures
        is_decimal(decimal_digits(n)),
        decimal_value(decimal_digits(n)) == n,
    decreases n,
{
    let last = ('0' as int + n % 10) as char;
    assert(last as int == '0' as int + n % 10);
    if n < 10 {
        assert(decimal_digits(n).drop_last() =~= Seq::<char>::empty());
        assert(decimal_value(Seq::<char>::empty()) == 0);
    } else {
        lemma_decimal_round_trip(n / 10);
        assert(decimal_digits(n).drop_last() =~= decimal_digits(n / 10));
    }
}

/// The items of a list, `sep` between each two.
pub open spec fn joined(list: Seq<Seq<char>>, sep: Seq<char>) -> Seq<char>
    decreases list.len(),
{
    if list.len() == 0 {
        Seq::empty()
    } else if list.len() == 1 {
        list[0]
    } else {
        joined(list.drop_last(), sep) + sep + list.last()
    }
}

/// Joins the strings of a list, `sep` between each two.
pub fn join(list: &[String], sep: &str) -> (s: String)
    ensures
        s@ == joined(views(list@), sep@),
{
    let mut s = String::new();
    let mut i: usize = 0;
    while i < list.len()
        invariant
            i <= list@.len(),
            s@ == joined(views(list@).take(i as int), sep@),
        decreases list@.len() - i,
    {
        let ghost before = views(list@).take(i as int);
        let ghost after = views(list@).take(i + 1);
        assert(after.drop_last() =~= before);
        assert(after.last() == list@[i as int]@);
        if i > 0 {
            s.append(sep);
            s.append(list[i].as_str());
        } else {
            s.append(list[i].as_str());
            assert(s@ =~= after[0]);
        }
        i += 1;
    }
    assert(views(list@).take(i as int) =~= views(list@));
    s
}

/// Makes a copy of a list of strings.
pub fn clone_list(list: &[String]) -> (out: Vec<String>)
    ensures
        out@ == list@,
{
    let mut out: Vec<String> = Vec::new();
    let mut i: usize = 0;
    while i < list.len()
        invariant
            i <= list@.len(),
            out@ == list@.take(i as int),
        decreases list@.len() - i,
    {
        out.push(list[i].clone());
        i += 1;
    }
    assert(list@.take(i as int) =~= list@);
    out
}

/// Finds the first string of a list that is `name`.
pub fn position(list: &[String], name: &str) -> (at: Option<usize>)
    ensures
        views(list@).index_of_first(name@) == match at {
            Some(i) => Some(i as int),
            None => None,
        },
        at matches Some(i) ==> i < list@.len() && list@[i as int]@ == name@,
{
    let ghost all = views(list@);
    let mut i: usize = 0;
    while i < list.len()
        invariant
            i <= list@.len(),
            all == views(list@),
            forall|k: int| 0 <= k < i ==> #[trigger] all[k] != name@,
        decreases list@.len() - i,
    {
        assert(all[i as int] == list@[i as int]@);
        if text_eq(list[i].as_str(), name) {
            proof {
                assert(all.contains(name@));
                all.index_of_first_ensures(name@);
            }
            return Some(i);
        }
        i += 1;
    }
    proof {
        all.index_of_first_ensures(name@);
    }
    None
}

/// The view of an optional string.
pub open spec fn opt_view(s: Option<String>) -> Option<Seq<char>> {
    match s {
        Some(s) => Some(s@),
        None => None,
    }
}

/// The pieces of a text hold no separator, and put together again with one between
/// each two they are the text. There is at least one.
pub proof fn lemma_split_joins_back(s: Seq<char>, sep: char)
    ensures
        split_on(s, sep).len() > 0,
        forall|i: int| 0 <= i < split_on(s, sep).len() ==> !(#[trigger] split_on(s, sep)[i]).contains(sep),
        joined(split_on(s, sep), seq![sep]) == s,
    decreases s.len(),
{
    s.index_of_first_ensures(sep);
    match s.index_of_first(sep) {
        Some(i) => {
            let piece = s.take(i);
            let rest = s.skip(i + 1);
            lemma_split_joins_back(rest, sep);
            let tail = split_on(rest, sep);
            let all = split_on(s, sep);
            assert(all == seq![piece] + tail);
            lemma_joined_front(piece, tail, seq![sep]);
            assert(s =~= piece + seq![sep] + rest);
            assert(!piece.contains(sep)) by {
                if piece.contains(sep) {
                    let k = choose|k: int| 0 <= k < piece.len() && piece[k] == sep;
                    assert(s[k] == sep);
                }
            }
            assert forall|k: int| 0 <= k < all.len() implies !(#[trigger] all[k]).contains(sep) by {
                if k > 0 {
                    assert(all[k] == tail[k - 1]);
                }
            }
        },
        None => {
            assert(split_on(s, sep) == seq![s]);
        },
    }
}

proof fn lemma_joined_front(first: Seq<char>, rest: Seq<Seq<char>>, sep: Seq<char>)
    requires
        rest.len() > 0,
    ensures
        joined(seq![first] + rest, sep) == first + sep + joined(rest, sep),
    decreases rest.len(),
{
    let all = seq![first] + rest;
    if rest.len() == 1 {
        assert(all.drop_last() =~= seq![first]);
        assert(joined(seq![first], sep) == first);
        assert(joined(all, sep) =~= first + sep + joined(rest, sep));
    } else {
        lemma_joined_front(first, rest.drop_last(), sep);
        assert(all.drop_last() =~= seq![first] + rest.drop_last());
        assert(joined(all, sep) =~= first + sep + joined(rest, sep));
    }
}

/// A list is joined item after item, the separator between each two and nowhere
/// else.
pub proof fn lemma_joined(list: Seq<Seq<char>>, item: Seq<char>, sep: Seq<char>)
    ensures
        joined(Seq::<Seq<char>>::empty(), sep) == Seq::<char>::empty(),
        joined(seq![item], sep) == item,
        list.len() > 0 ==> joined(list.push(item), sep) == joined(list, sep) + sep + item,
{
    if list.len() > 0 {
        assert(list.push(item).drop_last() =~= list);
    }
}

/// A text without a line feed is one line, if it holds anything. One that closes
/// with a line feed has the lines that it had without it.
pub proof fn lemma_last_line(s: Seq<char>)
    requires
        !s.contains('\n'),
    ensures
        s.len() > 0 ==> lines_of(s) == seq![s],
        s.len() == 0 ==> lines_of(s) == Seq::<Seq<char>>::empty(),
        s.len() > 0 && s.last() != '\r' ==> lines_of(s.push('\n')) == lines_of(s),
        lines_of(s.push('\r').push('\n')) == seq![s],
{
    let none = Seq::<char>::empty();
    s.index_of_first_ensures('\n');
    none.index_of_first_ensures('\n');
    assert(s.push('\n') =~= s.push('\n') + none);
    lemma_lines_step(s, none);
    let ended = s.push('\r');
    assert(!ended.contains('\n')) by {
        if ended.contains('\n') {
            let k = choose|k: int| 0 <= k < ended.len() && ended[k] == '\n';
            assert(k < s.len() && s[k] == '\n');
        }
    }
    assert(ended.push('\n') =~= ended.push('\n') + none);
    lemma_lines_step(ended, none);
    assert(without_cr(ended) =~= s);
}

/// No line holds a line feed.
pub proof fn lemma_lines_hold_no_feed(s: Seq<char>)
    ensures
        forall|i: int| 0 <= i < lines_of(s).len() ==> !(#[trigger] lines_of(s)[i]).contains('\n'),
    decreases s.len(),
{
    s.index_of_first_ensures('\n');
    match s.index_of_first('\n') {
        Some(i) => {
            let line = without_cr(s.take(i));
            lemma_lines_hold_no_feed(s.skip(i + 1));
            assert(!line.contains('\n')) by {
                if line.contains('\n') {
                    let k = choose|k: int| 0 <= k < line.len() && line[k] == '\n';
                    assert(s[k] == '\n');
                }
            }
            let rest = lines_of(s.skip(i + 1));
            assert forall|k: int| 0 <= k < lines_of(s).len() implies !(
            #[trigger] lines_of(s)[k]).contains('\n') by {
                if k > 0 {
                    assert(lines_of(s)[k] == rest[k - 1]);
                }
            }
        },
        None => {},
    }
}

/// Trimming takes white space off both ends, all of it, and nothing else.
pub proof fn lemma_trimmed(s: Seq<char>) -> (ends: (int, int))
    ensures
        0 <= ends.0 <= ends.1 <= s.len(),
        trimmed(s) == s.subrange(ends.0, ends.1),
        forall|i: int| 0 <= i < ends.0 || ends.1 <= i < s.len() ==> white_space(#[trigger] s[i]),
        trimmed(s).len() > 0 ==> !white_space(trimmed(s)[0]) && !white_space(trimmed(s).last()),
{
    let from = lemma_trimmed_start(s);
    let front = s.skip(from);
    let to = lemma_trimmed_end(front);
    assert(trimmed(s) =~= s.subrange(from, from + to));
    assert forall|i: int| 0 <= i < from || from + to <= i < s.len() implies white_space(
        #[trigger] s[i],
    ) by {
        if i >= from {
            assert(front[i - from] == s[i]);
        }
    }
    (from, from + to)
}

proof fn lemma_trimmed_start(s: Seq<char>) -> (from: int)
    ensures
        0 <= from <= s.len(),
        trimmed_start(s) == s.skip(from),
        forall|i: int| 0 <= i < from ==> white_space(#[trigger] s[i]),
        from < s.len() ==> !white_space(s[from]),
    decreases s.len(),
{
    if s.len() > 0 && white_space(s[0]) {
        let n = lemma_trimmed_start(s.skip(1));
        assert(s.skip(1).skip(n) =~= s.skip(n + 1));
        assert forall|i: int| 0 <= i < n + 1 implies white_space(#[trigger] s[i]) by {
            if i > 0 {
                assert(s.skip(1)[i - 1] == s[i]);
            }
        }
        n + 1
    } else {
        assert(s.skip(0) =~= s);
        0
    }
}

proof fn lemma_trimmed_end(s: Seq<char>) -> (to: int)
    ensures
        0 <= to <= s.len(),
        trimmed_end(s) == s.take(to),
        forall|i: int| to <= i < s.len() ==> white_space(#[trigger] s[i]),
        to > 0 ==> !white_space(s[to - 1]),
    decreases s.len(),
{
    if s.len() > 0 && white_space(s.last()) {
        let n = lemma_trimmed_end(s.drop_last());
        assert(s.drop_last().take(n) =~= s.take(n));
        assert forall|i: int| n <= i < s.len() implies white_space(#[trigger] s[i]) by {
            if i < s.len() - 1 {
                assert(s.drop_last()[i] == s[i]);
            }
        }
        n
    } else {
        assert(s.take(s.len() as int) =~= s);
        s.len() as int
    }
}

/// Among the ASCII characters, white space is the blank and the five from the tab to
/// the carriage return.
pub proof fn lemma_ascii_white_space(c: char)
    requires
        (c as u32) < 0x80,
    ensures
        white_space(c) <==> c == ' ' || '\t' <= c <= '\r',
{
}

/// A row of digits is read from the left: each further digit makes ten of what stood
/// before it, and adds its own value.
pub proof fn lemma_decimal_value(s: Seq<char>, c: char)
    ensures
        decimal_value(Seq::empty()) == 0,
        decimal_value(s.push(c)) == 10 * decimal_value(s) + (c as int - '0' as int),
{
    assert(s.push(c).drop_last() =~= s);
}

/// A number is written without a zero in front, unless it is zero.
pub proof fn lemma_no_leading_zero(n: nat)
    ensures
        decimal_digits(n).len() > 0,
        n > 0 ==> decimal_digits(n)[0] != '0',
        n < 10 ==> decimal_digits(n).len() == 1,
    decreases n,
{
    if n >= 10 {
        lemma_no_leading_zero(n / 10);
    }
}

/// A number that is written in decimal is read back, with a plus sign or without,
/// where it is not above the limit; with a minus sign it is read as its negative.
pub proof fn lemma_numbers_read_back(n: nat, max: int)
    ensures
        n <= max ==> unsigned_value(decimal_digits(n), max) == Some(n as int),
        n <= max ==> unsigned_value(seq!['+'] + decimal_digits(n), max) == Some(n as int),
        n > max ==> unsigned_value(decimal_digits(n), max) is None,
        n <= i64::MAX ==> signed_value(decimal_digits(n)) == Some(n as int),
        n <= 0x8000_0000_0000_0000 ==> signed_value(seq!['-'] + decimal_digits(n)) == Some(-n),
{
    lemma_decimal_round_trip(n);
    let digits = decimal_digits(n);
    assert(is_digit(digits[0]));
    assert((seq!['+'] + digits).skip(1) =~= digits);
    assert((seq!['-'] + digits).skip(1) =~= digits);
}

/// What holds anything but digits behind its sign is no number.
pub proof fn lemma_no_number(s: Seq<char>, max: int, i: int)
    requires
        0 <= i < s.len(),
        !('0' <= s[i] <= '9'),
        i > 0 || s.len() == 1 || (s[0] != '+' && s[0] != '-'),
    ensures
        unsigned_value(s, max) is None,
        signed_value(s) is None,
{
    if i > 0 {
        assert(s.skip(1)[i - 1] == s[i]);
    }
}

/// A prefix is taken off exactly where it is there.
pub proof fn lemma_stripped(s: Seq<char>, prefix: Seq<char>)
    ensures
        stripped(s, prefix) matches Some(rest) ==> s == prefix + rest,
        stripped(s, prefix) is None ==> forall|rest: Seq<char>| s != #[trigger] (prefix + rest),
{
    if prefix.is_prefix_of(s) {
        assert(s =~= prefix + s.skip(prefix.len() as int));
    } else {
        assert forall|rest: Seq<char>| s != #[trigger] (prefix + rest) by {
            if s == prefix + rest {
                assert(s.take(prefix.len() as int) =~= prefix);
            }
        }
    }
}

/// The views of a list are those of its strings, in order.
pub proof fn lemma_views(list: Seq<String>)
    ensures
        views(list).len() == list.len(),
        forall|i: int| 0 <= i < list.len() ==> #[trigger] views(list)[i] == list[i]@,
{
}

/// Any row of digits is a number, zeros in front or not, up to the limit.
pub proof fn lemma_digits_read(s: Seq<char>, max: int)
    requires
        s.len() > 0,
        forall|i: int| 0 <= i < s.len() ==> '0' <= #[trigger] s[i] <= '9',
    ensures
        decimal_value(s) <= max ==> unsigned_value(s, max) == Some(decimal_value(s)),
        decimal_value(s) > max ==> unsigned_value(s, max) is None,
        decimal_value(s) <= i64::MAX ==> signed_value(s) == Some(decimal_value(s)),
        decimal_value(s) > i64::MAX ==> signed_value(s) is None,
{
    assert(is_digit(s[0]));
    assert(is_decimal(s));
}

/// Beyond the ASCII characters, white space is the next line, the spaces of other
/// widths, and the separators of lines and paragraphs.
pub proof fn lemma_wide_white_space(c: char)
    requires
        (c as u32) >= 0x80,
    ensures
        white_space(c) <==> {
            ||| c == '\u{85}'
            ||| c == '\u{a0}'
            ||| c == '\u{1680}'
            ||| '\u{2000}' <= c <= '\u{200a}'
            ||| c == '\u{2028}'
            ||| c == '\u{2029}'
            ||| c == '\u{202f}'
            ||| c == '\u{205f}'
            ||| c == '\u{3000}'
        },
{
}

} // verus!
