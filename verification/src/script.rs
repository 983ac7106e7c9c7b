//! The command script as the user wrote it: lines of text, of which the
//! blank ones are skipped and the others lose one leading colon; and the
//! delay, which the user types as text.

use crate::text::{chars_of, texts};
use vstd::prelude::*;

verus! {

/// Whether `c` is white space in the sense of Unicode's `White_Space`
/// property.
pub open spec fn is_whitespace(c: char) -> bool {
    let n = c as int;
    ||| 0x09 <= n <= 0x0D
    ||| n == 0x20
    ||| n == 0x85
    ||| n == 0xA0
    ||| n == 0x1680
    ||| 0x2000 <= n <= 0x200A
    ||| n == 0x2028
    ||| n == 0x2029
    ||| n == 0x202F
    ||| n == 0x205F
    ||| n == 0x3000
}

/// Whether `c` is white space.
pub fn is_whitespace_char(c: char) -> (white: bool)
    ensures
        white == is_whitespace(c),
{
    ('\u{09}' <= c && c <= '\u{0D}') || c == ' ' || c == '\u{85}' || c == '\u{A0}' || c
        == '\u{1680}' || ('\u{2000}' <= c && c <= '\u{200A}') || c == '\u{2028}' || c
        == '\u{2029}' || c == '\u{202F}' || c == '\u{205F}' || c == '\u{3000}'
}

/// Whether `line` holds nothing but white space.
pub open spec fn is_blank(line: Seq<char>) -> bool {
    forall|i: int| 0 <= i < line.len() ==> is_whitespace(#[trigger] line[i])
}

/// What is played back for `line`: the line without one leading colon, if
/// it has one, and the line as it is otherwise.
pub open spec fn payload(line: Seq<char>) -> Seq<char> {
    if line.len() > 0 && line[0] == ':' {
        line.skip(1)
    } else {
        line
    }
}

/// The number of characters before the first line feed of `text`, or the
/// length of `text` if it has none.
pub open spec fn line_end(text: Seq<char>) -> nat
    decreases text.len(),
{
    if text.len() == 0 || text[0] == '\n' {
        0
    } else {
        1 + line_end(text.drop_first())
    }
}

/// `line` without one trailing carriage return, if it has one.
pub open spec fn without_cr(line: Seq<char>) -> Seq<char> {
    if line.len() > 0 && line.last() == '\r' {
        line.drop_last()
    } else {
        line
    }
}

/// The lines of `text`. A line ends at a line feed, or at a carriage return
/// directly followed by a line feed; neither belongs to the line. What
/// follows the last line feed is a line too unless it is empty, and keeps
/// a carriage return at its end.
pub open spec fn lines_of(text: Seq<char>) -> Seq<Seq<char>>
    decreases text.len(),
{
    if text.len() == 0 {
        Seq::empty()
    } else {
        let end = line_end(text) as int;
        if end >= text.len() {
            seq![text]
        } else {
            seq![without_cr(text.take(end))] + lines_of(text.skip(end + 1))
        }
    }
}

/// What is played back for `lines`: the payload of each line that is not
/// blank, in order.
pub open spec fn payloads(lines: Seq<Seq<char>>) -> Seq<Seq<char>>
    decreases lines.len(),
{
    if lines.len() == 0 {
        Seq::empty()
    } else if is_blank(lines.last()) {
        payloads(lines.drop_last())
    } else {
        payloads(lines.drop_last()).push(payload(lines.last()))
    }
}

/// The commands of the script `text`: the payloads of its lines that are
/// not blank, in order.
pub open spec fn commands_of(text: Seq<char>) -> Seq<Seq<char>> {
    payloads(lines_of(text))
}

/// Where a text has no line feed before `end`, and has one at `end` or
/// stops there, its first line ends at `end`.
proof fn lemma_line_end(text: Seq<char>, end: int)
    requires
        0 <= end <= text.len(),
        forall|j: int| 0 <= j < end ==> text[j] != '\n',
        end < text.len() ==> text[end] == '\n',
    ensures
        line_end(text) == end,
    decreases end,
{
    if end > 0 {
        lemma_line_end(text.drop_first(), end - 1);
    }
}

/// Whether `line` holds nothing but white space.
fn is_blank_line(line: &Vec<char>) -> (blank: bool)
    ensures
        blank == is_blank(line@),
{
    let mut i: usize = 0;
    while i < line.len()
        invariant
            i <= line.len(),
            forall|j: int| 0 <= j < i ==> is_whitespace(#[trigger] line@[j]),
        decreases line.len() - i,
    {
        if !is_whitespace_char(line[i]) {
            return false;
        }
        i = i + 1;
    }
    true
}

/// Adds what is played back for `line` to `commands`: nothing for a blank
/// line, its payload for any other.
fn push_payload(commands: &mut Vec<String>, line: &Vec<char>)
    ensures
        texts(final(commands)@) == if is_blank(line@) {
            texts(old(commands)@)
        } else {
            texts(old(commands)@).push(payload(line@))
        },
{
    if !is_blank_line(line) {
        let mut text = String::new();
        let mut i: usize = if line.len() > 0 && line[0] == ':' {
            1
        } else {
            0
        };
        let ghost from = i as int;
        while i < line.len()
            invariant
                0 <= from <= i <= line.len(),
                text@ == line@.subrange(from, i as int),
            decreases line.len() - i,
        {
            text.push(line[i]);
            i = i + 1;
        }
        assert(text@ =~= payload(line@));
        commands.push(text);
    }
}

/// The commands of the script `text`: one for each line that is not blank,
/// without the line's leading colon if it has one.
pub fn command_lines(text: &str) -> (commands: Vec<String>)
    ensures
        texts(commands@) == commands_of(text@),
{
    let chars = chars_of(text);
    let mut commands: Vec<String> = Vec::new();
    let mut line: Vec<char> = Vec::new();
    let mut start: usize = 0;
    let mut i: usize = 0;
    let ghost mut done: Seq<Seq<char>> = Seq::empty();
    assert(chars@.skip(0) =~= chars@);
    while i < chars.len()
        invariant
            chars@ == text@,
            start <= i <= chars.len(),
            line@ == chars@.subrange(start as int, i as int),
            forall|j: int| start <= j < i ==> chars@[j] != '\n',
            lines_of(chars@) == done + lines_of(chars@.skip(start as int)),
            texts(commands@) == payloads(done),
        decreases chars.len() - i,
    {
        let c = chars[i];
        if c == '\n' {
            let ghost rest = chars@.skip(start as int);
            proof {
                lemma_line_end(rest, i - start);
                assert(rest.take(i - start) =~= line@);
                assert(rest.skip(i - start + 1) =~= chars@.skip(i + 1));
            }
            if line.len() > 0 && line[line.len() - 1] == '\r' {
                line.pop();
            }
            push_payload(&mut commands, &line);
            proof {
                let grown = done.push(line@);
                assert(grown.drop_last() =~= done);
                done = grown;
            }
            line.clear();
            start = i + 1;
            i = i + 1;
        } else {
            line.push(c);
            i = i + 1;
        }
    }
    let ghost rest = chars@.skip(start as int);
    if start < chars.len() {
        proof {
            lemma_line_end(rest, rest.len() as int);
        }
        push_payload(&mut commands, &line);
        proof {
            let grown = done.push(line@);
            assert(grown.drop_last() =~= done);
            assert(lines_of(chars@) =~= grown);
        }
    }
    commands
}

/// The delay, in milliseconds, that is used when the delay the user typed
/// is not a number.
pub const DEFAULT_DELAY_MS: u64 = 40;

/// Whether `c` is one of the digits `0` to `9`.
pub open spec fn is_digit(c: char) -> bool {
    '0' as int <= c as int <= '9' as int
}

/// Whether `digits` holds nothing but digits.
pub open spec fn all_digits(digits: Seq<char>) -> bool {
    forall|i: int| 0 <= i < digits.len() ==> is_digit(#[trigger] digits[i])
}

/// The number that `digits` is the decimal notation of.
pub open spec fn decimal_value(digits: Seq<char>) -> nat
    decreases digits.len(),
{
    if digits.len() == 0 {
        0
    } else {
        (decimal_value(digits.drop_last()) * 10 + (digits.last() as int - '0' as int)) as nat
    }
}

/// `text` without one leading plus sign, if it has one.
pub open spec fn unsigned_part(text: Seq<char>) -> Seq<char> {
    if text.len() > 0 && text[0] == '+' {
        text.skip(1)
    } else {
        text
    }
}

/// The number that `text` denotes, if it denotes one: `text` must be one or
/// more decimal digits, with or without a plus sign in front and nothing
/// else around them, and the number must fit in 64 bits.
pub open spec fn number_of(text: Seq<char>) -> Option<u64> {
    let digits = unsigned_part(text);
    if digits.len() > 0 && all_digits(digits) && decimal_value(digits) <= u64::MAX {
        Some(decimal_value(digits) as u64)
    } else {
        None
    }
}

/// The delay in milliseconds that the text `text` stands for: the number it
/// denotes, or [`DEFAULT_DELAY_MS`] if it denotes none.
pub open spec fn delay_of(text: Seq<char>) -> u64 {
    match number_of(text) {
        Some(delay) => delay,
        None => DEFAULT_DELAY_MS,
    }
}

/// The value of a run of digits is at least the value of each of its
/// beginnings.
proof fn lemma_decimal_value_grows(digits: Seq<char>, n: int)
    requires
        all_digits(digits),
        0 <= n <= digits.len(),
    ensures
        decimal_value(digits.take(n)) <= decimal_value(digits),
    decreases digits.len() - n,
{
    if n < digits.len() {
        lemma_decimal_value_grows(digits, n + 1);
        let longer = digits.take(n + 1);
        assert(longer.drop_last() =~= digits.take(n));
    } else {
        assert(digits.take(n) =~= digits);
    }
}

/// The number that `text` denotes, if it denotes one that fits in 64 bits.
pub fn parse_number(text: &str) -> (number: Option<u64>)
    ensures
        number == number_of(text@),
{
    let chars = chars_of(text);
    let first: usize = if chars.len() > 0 && chars[0] == '+' {
        1
    } else {
        0
    };
    let ghost digits = unsigned_part(text@);
    if first == chars.len() {
        return None;
    }
    let mut value: u64 = 0;
    let mut i: usize = first;
    while i < chars.len()
        invariant
            first <= i <= chars.len(),
            digits == unsigned_part(text@),
            digits == chars@.skip(first as int),
            all_digits(digits.take(i - first)),
            value == decimal_value(digits.take(i - first)),
        decreases chars.len() - i,
    {
        let c = chars[i];
        let ghost seen = digits.take(i - first);
        let ghost longer = digits.take(i - first + 1);
        proof {
            assert(longer.drop_last() =~= seen);
            assert(longer.last() == c);
        }
        if !('0' <= c && c <= '9') {
            return None;
        }
        assert(all_digits(longer));
        let digit: u64 = (c as u32 - '0' as u32) as u64;
        let next = match value.checked_mul(10) {
            Some(tens) => tens.checked_add(digit),
            None => None,
        };
        match next {
            Some(sum) => {
                value = sum;
            },
            None => {
                proof {
                    if all_digits(digits) {
                        lemma_decimal_value_grows(digits, i - first + 1);
                    }
                }
                return None;
            },
        }
        i = i + 1;
    }
    assert(digits.take(i - first) =~= digits);
    Some(value)
}

/// The delay in milliseconds that the user typed as `text`; what is not a
/// number gives [`DEFAULT_DELAY_MS`].
pub fn parse_delay(text: &str) -> (delay: u64)
    ensures
        delay == delay_of(text@),
{
    match parse_number(text) {
        Some(delay) => delay,
        None => DEFAULT_DELAY_MS,
    }
}

} // verus!
