//! Small pieces of text handling: searching, splitting and building strings.

use vstd::prelude::*;
use vstd::string::{StrSliceExecFns, StringExecFns};

verus! {

/// `part` stands in `text` at position `at`.
pub open spec fn text_at(text: Seq<char>, part: Seq<char>, at: int) -> bool {
    &&& 0 <= at
    &&& at + part.len() <= text.len()
    &&& text.subrange(at, at + part.len()) == part
}

/// `part` stands somewhere in `text`.
pub open spec fn has_text(text: Seq<char>, part: Seq<char>) -> bool {
    exists|at: int| text_at(text, part, at)
}

/// `text` without the run of `c` at its start.
pub open spec fn trim_leading(text: Seq<char>, c: char) -> Seq<char>
    decreases text.len(),
{
    if text.len() > 0 && text[0] == c {
        trim_leading(text.drop_first(), c)
    } else {
        text
    }
}

/// What follows the last `c` in `text`: all of it where there is none.
pub open spec fn after_last(text: Seq<char>, c: char) -> Seq<char>
    decreases text.len(),
{
    if text.len() == 0 || text.last() == c {
        Seq::empty()
    } else {
        after_last(text.drop_last(), c).push(text.last())
    }
}

/// The character that stands for the digit `d`.
pub open spec fn digit_char(d: nat) -> char {
    (48 + d) as char
}

/// `n` in decimal notation, without leading zeros.
pub open spec fn decimal(n: nat) -> Seq<char>
    decreases n,
{
    if n < 10 {
        seq![digit_char(n)]
    } else {
        decimal(n / 10).push(digit_char(n % 10))
    }
}

/// The texts that `strings` hold.
pub open spec fn texts(strings: Seq<String>) -> Seq<Seq<char>> {
    strings.map_values(|s: String| s@)
}

/// The text that `string` holds, where there is one.
pub open spec fn opt_text(string: Option<String>) -> Option<Seq<char>> {
    match string {
        Some(s) => Some(s@),
        None => None,
    }
}

/// The texts that `strings` hold, with the gaps kept.
pub open spec fn opt_texts(strings: Seq<Option<String>>) -> Seq<Option<Seq<char>>> {
    strings.map_values(|s: Option<String>| opt_text(s))
}

/// The characters of `text`.
pub fn chars_of(text: &str) -> (chars: Vec<char>)
    ensures
        chars@ == text@,
{
    let mut chars: Vec<char> = Vec::new();
    for c in it: text.chars()
        invariant
            it.seq() == text@,
            chars@ == text@.take(it.index()),
    {
        chars.push(c);
    }
    chars
}

/// Tells whether `part` stands somewhere in `text`.
pub fn contains_text(text: &str, part: &str) -> (found: bool)
    ensures
        found == has_text(text@, part@),
{
    let t = chars_of(text);
    let p = chars_of(part);
    if p.len() > t.len() {
        return false;
    }
    let last: usize = t.len() - p.len();
    let mut at: usize = 0;
    while at <= last
        invariant
            t@ == text@,
            p@ == part@,
            last == t.len() - p.len(),
            p.len() <= t.len(),
            at <= last + 1,
            forall|k: int| 0 <= k < at ==> !text_at(text@, part@, k),
        decreases last + 1 - at,
    {
        if chars_at(&t, &p, at) {
            return true;
        }
        if at == last {
            return false;
        }
        at = at + 1;
    }
    false
}

/// Tells whether `part` stands in `text` at position `at`.
fn chars_at(text: &Vec<char>, part: &Vec<char>, at: usize) -> (found: bool)
    requires
        at + part.len() <= text.len(),
    ensures
        found == text_at(text@, part@, at as int),
{
    let mut i: usize = 0;
    while i < part.len()
        invariant
            i <= part.len(),
            at + part.len() <= text.len(),
            forall|k: int| 0 <= k < i ==> text@[at + k] == part@[k],
        decreases part.len() - i,
    {
        if text[at + i] != part[i] {
            assert(text@.subrange(at as int, at + part@.len())[i as int] != part@[i as int]);
            return false;
        }
        i = i + 1;
    }
    assert(text@.subrange(at as int, at + part@.len()) =~= part@);
    true
}

/// Tells whether `text` begins with `prefix`.
pub fn starts_with_text(text: &str, prefix: &str) -> (found: bool)
    ensures
        found == prefix@.is_prefix_of(text@),
{
    let t = chars_of(text);
    let p = chars_of(prefix);
    if p.len() > t.len() {
        return false;
    }
    chars_at(&t, &p, 0)
}

/// What is left of `text` without the run of `c` at its start.
pub fn trim_leading_char<'a>(text: &'a str, c: char) -> (rest: &'a str)
    ensures
        rest@ == trim_leading(text@, c),
{
    let chars = chars_of(text);
    let mut from: usize = 0;
    assert(text@.skip(0) =~= text@);
    while from < chars.len() && chars[from] == c
        invariant
            chars@ == text@,
            from <= chars.len(),
            trim_leading(text@.skip(from as int), c) == trim_leading(text@, c),
        decreases chars.len() - from,
    {
        assert(text@.skip(from as int).drop_first() =~= text@.skip(from + 1));
        from = from + 1;
    }
    assert(text@.subrange(from as int, text@.len() as int) =~= text@.skip(from as int));
    text.substring_char(from, chars.len())
}

/// What follows the last `c` in `text`: all of it where there is none.
pub fn rest_after_last<'a>(text: &'a str, c: char) -> (rest: &'a str)
    ensures
        rest@ == after_last(text@, c),
{
    let chars = chars_of(text);
    let mut from: usize = chars.len();
    assert(after_last(text@, c) =~= after_last(text@.take(from as int), c) + text@.skip(
        from as int,
    )) by {
        assert(text@.take(from as int) =~= text@);
    }
    while from > 0 && chars[from - 1] != c
        invariant
            chars@ == text@,
            from <= chars.len(),
            after_last(text@, c) == after_last(text@.take(from as int), c) + text@.skip(
                from as int,
            ),
        decreases from,
    {
        proof {
            let head = text@.take(from as int);
            assert(head.drop_last() =~= text@.take(from - 1));
            assert(after_last(head, c) == after_last(text@.take(from - 1), c).push(head.last()));
            assert(after_last(text@.take(from - 1), c).push(head.last()) + text@.skip(from as int)
                =~= after_last(text@.take(from - 1), c) + text@.skip(from - 1));
        }
        from = from - 1;
    }
    assert(after_last(text@.take(from as int), c) =~= Seq::empty());
    assert(text@.subrange(from as int, text@.len() as int) =~= after_last(text@, c));
    text.substring_char(from, chars.len())
}

/// The text of the digit `d`.
fn digit_text(d: u64) -> (digit: &'static str)
    requires
        d < 10,
    ensures
        digit@ == seq![digit_char(d as nat)],
{
    proof {
        reveal_strlit("0");
        reveal_strlit("1");
        reveal_strlit("2");
        reveal_strlit("3");
        reveal_strlit("4");
        reveal_strlit("5");
        reveal_strlit("6");
        reveal_strlit("7");
        reveal_strlit("8");
        reveal_strlit("9");
    }
    match d {
        0 => "0",
        1 => "1",
        2 => "2",
        3 => "3",
        4 => "4",
        5 => "5",
        6 => "6",
        7 => "7",
        8 => "8",
        _ => "9",
    }
}

/// `n` in decimal notation.
pub fn decimal_text(n: u64) -> (text: String)
    ensures
        text@ == decimal(n as nat),
    decreases n,
{
    if n < 10 {
        digit_text(n).to_owned()
    } else {
        let mut text = decimal_text(n / 10);
        text.append(digit_text(n % 10));
        assert(text@ =~= decimal(n as nat));
        text
    }
}

/// `head` followed by `tail`.
pub fn joined(head: &str, tail: &str) -> (text: String)
    ensures
        text@ == head@ + tail@,
{
    let mut text = head.to_owned();
    text.append(tail);
    text
}

/// The rest after the last `c` holds no `c`, and either is the whole text or
/// stands behind a `c`: nothing else of the text is lost than what comes before it.
pub proof fn lemma_after_last(text: Seq<char>, c: char)
    ensures
        !after_last(text, c).contains(c),
        after_last(text, c).is_suffix_of(text),
        after_last(text, c).len() < text.len() ==> text[text.len() - after_last(text, c).len()
            - 1] == c,
    decreases text.len(),
{
    if text.len() > 0 && text.last() != c {
        let head = text.drop_last();
        lemma_after_last(head, c);
        let short = after_last(head, c);
        let rest = after_last(text, c);
        assert(rest =~= short.push(text.last()));
        assert forall|i: int| 0 <= i < rest.len() implies rest[i] != c by {
            if i < short.len() {
                assert(short.contains(short[i]));
            }
        }
        assert(text.skip(text.len() - rest.len()) =~= rest) by {
            assert forall|i: int| 0 <= i < short.len() implies short[i] == head[head.len()
                - short.len() + i] by {
                assert(short[i] == head.subrange(head.len() - short.len(), head.len() as int)[i]);
            }
        }
    }
}

/// What is left after trimming does not start with `c`, and only `c` went.
pub proof fn lemma_trim_leading(text: Seq<char>, c: char)
    ensures
        trim_leading(text, c).len() > 0 ==> trim_leading(text, c)[0] != c,
        trim_leading(text, c).is_suffix_of(text),
        forall|i: int|
            0 <= i < text.len() - trim_leading(text, c).len() ==> #[trigger] text[i] == c,
    decreases text.len(),
{
    if text.len() > 0 && text[0] == c {
        let tail = text.drop_first();
        lemma_trim_leading(tail, c);
        let rest = trim_leading(text, c);
        assert forall|i: int| 0 <= i < text.len() - rest.len() implies #[trigger] text[i] == c by {
            if i > 0 {
                assert(tail[i - 1] == c);
            }
        }
        assert(text.subrange(text.len() - rest.len(), text.len() as int) =~= rest) by {
            assert(tail.subrange(tail.len() - rest.len(), tail.len() as int) == rest);
            assert forall|i: int| 0 <= i < rest.len() implies rest[i] == text[text.len()
                - rest.len() + i] by {
                assert(rest[i] == tail.subrange(tail.len() - rest.len(), tail.len() as int)[i]);
            }
        }
    }
}

} // verus!
