//! What searching, splitting and building strings comes to.

use vstd::prelude::*;

use crate::text::{
    contains_text, decimal, decimal_text, digit_char, has_text, lemma_after_last,
    lemma_trim_leading, opt_text, opt_texts, rest_after_last, starts_with_text, text_at, texts,
    trim_leading_char,
};

verus! {

/// The texts of strings stand in their order, and none is lost.
pub proof fn law_texts(strings: Seq<String>, i: int)
    requires
        0 <= i < strings.len(),
    ensures
        texts(strings).len() == strings.len(),
        texts(strings)[i] == strings[i]@,
{
}

/// The texts of strings stand in their order, and a gap stays a gap.
pub proof fn law_opt_texts(strings: Seq<Option<String>>, i: int)
    requires
        0 <= i < strings.len(),
    ensures
        opt_texts(strings).len() == strings.len(),
        strings[i] matches Some(s) ==> opt_texts(strings)[i] == Some(s@),
        strings[i] is None ==> opt_texts(strings)[i] is None,
{
}

/// `text` holds `part`: it is `part` with something before and something behind.
pub open spec fn holds(text: Seq<char>, part: Seq<char>) -> bool {
    exists|before: Seq<char>, after: Seq<char>| text == #[trigger] (before + part + after)
}

/// What stands somewhere in a text is what the text holds.
pub proof fn lemma_holds(text: Seq<char>, part: Seq<char>)
    ensures
        has_text(text, part) <==> holds(text, part),
{
    if has_text(text, part) {
        let at = choose|at: int| text_at(text, part, at);
        let before = text.take(at);
        let after = text.skip(at + part.len());
        assert(text.subrange(at, at + part.len()) == part);
        assert(text =~= before + part + after);
    }
    if holds(text, part) {
        let (before, after) = choose|before: Seq<char>, after: Seq<char>|
            text == #[trigger] (before + part + after);
        assert(text.subrange(before.len() as int, (before.len() + part.len()) as int) =~= part);
        assert(text_at(text, part, before.len() as int));
    }
}

/// The search finds a part exactly where the text holds it.
pub proof fn law_contains_text(text: &str, part: &str, found: bool)
    requires
        call_ensures(contains_text, (text, part), found),
    ensures
        found <==> holds(text@, part@),
{
    lemma_holds(text@, part@);
}

/// A text is found to begin with a prefix exactly where it is that prefix and
/// something behind it.
pub proof fn law_starts_with_text(text: &str, prefix: &str, found: bool)
    requires
        call_ensures(starts_with_text, (text, prefix), found),
    ensures
        found <==> exists|rest: Seq<char>| text@ == #[trigger] (prefix@ + rest),
{
    if found {
        let rest = text@.skip(prefix@.len() as int);
        assert(text@.subrange(0, prefix@.len() as int) == prefix@);
        assert(text@ =~= prefix@ + rest);
    }
    if exists|rest: Seq<char>| text@ == #[trigger] (prefix@ + rest) {
        let rest = choose|rest: Seq<char>| text@ == #[trigger] (prefix@ + rest);
        assert(text@.subrange(0, prefix@.len() as int) =~= prefix@);
    }
}

/// Trimming takes a run of the character off the start, all of it, and nothing
/// else.
pub proof fn law_trim_leading(text: &str, c: char, rest: &str)
    requires
        call_ensures(trim_leading_char, (text, c), rest),
    ensures
        rest@.len() <= text@.len(),
        forall|i: int| 0 <= i < text@.len() - rest@.len() ==> #[trigger] text@[i] == c,
        text@.skip(text@.len() - rest@.len()) == rest@,
        rest@.len() > 0 ==> rest@[0] != c,
{
    lemma_trim_leading(text@, c);
    assert(text@.skip(text@.len() - rest@.len()) =~= rest@);
}

/// What follows the last such character is the end of the text, as far back as
/// that character does not stand in it.
pub proof fn law_rest_after_last(text: &str, c: char, rest: &str)
    requires
        call_ensures(rest_after_last, (text, c), rest),
    ensures
        rest@.len() <= text@.len(),
        text@.skip(text@.len() - rest@.len()) == rest@,
        forall|i: int| 0 <= i < rest@.len() ==> #[trigger] rest@[i] != c,
        rest@.len() < text@.len() ==> text@[text@.len() - rest@.len() - 1] == c,
{
    lemma_after_last(text@, c);
    assert(text@.skip(text@.len() - rest@.len()) =~= rest@);
    assert forall|i: int| 0 <= i < rest@.len() implies #[trigger] rest@[i] != c by {
        assert(rest@.contains(rest@[i]));
    }
}

/// The number that a run of decimal digits stands for.
pub open spec fn digits_value(digits: Seq<char>) -> int
    decreases digits.len(),
{
    if digits.len() == 0 {
        0
    } else {
        10 * digits_value(digits.drop_last()) + (digits.last() as int - '0' as int)
    }
}

/// `digits` is how `n` is written: decimal digits that stand for it, without a
/// zero at the front of several.
pub open spec fn writes(digits: Seq<char>, n: int) -> bool {
    &&& digits.len() > 0
    &&& forall|i: int| 0 <= i < digits.len() ==> '0' <= #[trigger] digits[i] <= '9'
    &&& digits.len() > 1 ==> digits[0] != '0'
    &&& digits_value(digits) == n
}

/// Decimal notation stands for the number, without leading zeros.
pub proof fn law_decimal(n: nat)
    ensures
        writes(decimal(n), n as int),
    decreases n,
{
    let digits = decimal(n);
    if n < 10 {
        assert(digits.drop_last() =~= Seq::empty());
        assert(digits_value(digits.drop_last()) == 0);
        assert(digits.last() == digit_char(n));
    } else {
        law_decimal(n / 10);
        let head = decimal(n / 10);
        assert(digits.drop_last() =~= head);
        assert(digits.last() == digit_char(n % 10));
        assert(digits[0] == head[0]);
        if head.len() == 1 {
            assert(head.drop_last() =~= Seq::empty());
            assert(digits_value(head.drop_last()) == 0);
        }
        assert forall|i: int| 0 <= i < digits.len() implies '0' <= #[trigger] digits[i] <= '9' by {
            if i < head.len() {
                assert(digits[i] == head[i]);
            }
        }
    }
}

/// A number is told in decimal notation, without leading zeros.
pub proof fn law_decimal_text(n: u64, text: String)
    requires
        call_ensures(decimal_text, (n,), text),
    ensures
        writes(text@, n as int),
{
    law_decimal(n as nat);
}

} // verus!
