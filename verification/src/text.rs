//! Small helpers for working with strings as sequences of characters.

use vstd::prelude::*;
use vstd::string::StringExecFns;

verus! {

/// The character sequences of a list of strings, in order.
pub open spec fn texts(strings: Seq<String>) -> Seq<Seq<char>> {
    strings.map_values(|s: String| s@)
}

/// Taken on trust from the standard library: `String::push` appends the
/// character `c` to the end of the string and leaves the rest as it was.
pub assume_specification[ String::push ](s: &mut String, c: char)
    ensures
        final(s)@ == old(s)@.push(c),
;

/// The characters of `s`, in order.
pub fn chars_of(s: &str) -> (chars: Vec<char>)
    ensures
        chars@ == s@,
{
    let mut chars: Vec<char> = Vec::new();
    for c in it: s.chars()
        invariant
            it.seq() == s@,
            chars@ == s@.take(it.index()),
    {
        chars.push(c);
    }
    chars
}

/// `text` with every occurrence of `pattern` replaced by `with`. The
/// occurrences are found from left to right, and one that overlaps an
/// earlier one does not count. An empty pattern occurs nowhere.
pub open spec fn replaced(text: Seq<char>, pattern: Seq<char>, with: Seq<char>) -> Seq<char>
    decreases text.len(),
{
    if pattern.len() == 0 || text.len() < pattern.len() {
        text
    } else if text.take(pattern.len() as int) == pattern {
        with + replaced(text.skip(pattern.len() as int), pattern, with)
    } else {
        seq![text[0]] + replaced(text.skip(1), pattern, with)
    }
}

/// Whether `pattern` occurs in `chars` at the index `at`.
fn occurs_at(chars: &Vec<char>, at: usize, pattern: &Vec<char>) -> (occurs: bool)
    requires
        at <= chars.len(),
    ensures
        occurs == (chars@.len() - at >= pattern@.len() && chars@.skip(at as int).take(
            pattern@.len() as int,
        ) == pattern@),
{
    if chars.len() - at < pattern.len() {
        return false;
    }
    let ghost window = chars@.skip(at as int).take(pattern@.len() as int);
    let mut i: usize = 0;
    while i < pattern.len()
        invariant
            i <= pattern.len(),
            at + pattern.len() <= chars.len(),
            window == chars@.skip(at as int).take(pattern@.len() as int),
            forall|j: int| 0 <= j < i ==> window[j] == pattern@[j],
        decreases pattern.len() - i,
    {
        if chars[at + i] != pattern[i] {
            return false;
        }
        i = i + 1;
    }
    assert(window =~= pattern@);
    true
}

/// `text` with every occurrence of `pattern` replaced by `with`, found
/// from left to right. An empty pattern occurs nowhere.
pub fn replace_all(text: &str, pattern: &str, with: &str) -> (out: String)
    ensures
        out@ == replaced(text@, pattern@, with@),
{
    let chars = chars_of(text);
    let sought = chars_of(pattern);
    if sought.len() == 0 {
        return text.to_owned();
    }
    let mut out = String::new();
    let mut i: usize = 0;
    assert(chars@.skip(0) =~= chars@);
    while i < chars.len()
        invariant
            i <= chars.len(),
            chars@ == text@,
            sought@ == pattern@,
            sought@.len() > 0,
            replaced(text@, pattern@, with@) == out@ + replaced(
                chars@.skip(i as int),
                pattern@,
                with@,
            ),
        decreases chars.len() - i,
    {
        let ghost rest = chars@.skip(i as int);
        let ghost before = out@;
        if occurs_at(&chars, i, &sought) {
            out.append(with);
            i = i + sought.len();
            proof {
                assert(rest.skip(sought@.len() as int) =~= chars@.skip(i as int));
                assert(out@ + replaced(chars@.skip(i as int), pattern@, with@) =~= before + (with@
                    + replaced(chars@.skip(i as int), pattern@, with@)));
            }
        } else {
            out.push(chars[i]);
            i = i + 1;
            proof {
                assert(rest.skip(1) =~= chars@.skip(i as int));
                if rest.len() < sought@.len() {
                    lemma_replaced_short(rest, pattern@, with@);
                }
                assert(out@ + replaced(chars@.skip(i as int), pattern@, with@) =~= before + (
                seq![rest[0]] + replaced(chars@.skip(i as int), pattern@, with@)));
            }
        }
    }
    out
}

/// A text that has become shorter than the pattern holds no occurrence.
proof fn lemma_replaced_short(text: Seq<char>, pattern: Seq<char>, with: Seq<char>)
    requires
        text.len() < pattern.len(),
    ensures
        replaced(text, pattern, with) == text,
        text.len() > 0 ==> replaced(text.skip(1), pattern, with) == text.skip(1),
{
}

} // verus!
