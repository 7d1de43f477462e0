//! The expansion of `~` and of variables in a text, as a shell would do it.
//!
//! What a variable or the home directory stands for is up to the environment.
//! How the text around them is read, and where it goes, is stated here.

use vstd::prelude::*;

use crate::text::opt_text;

verus! {

/// `text` asks for the home directory of the current user: it is `~` alone, or
/// `~` before a separator.
pub open spec fn names_home(text: Seq<char>) -> bool {
    &&& text.len() > 0
    &&& text[0] == '~'
    &&& text.len() == 1 || text[1] == '/' || text[1] == '\\'
}

/// An ASCII character of the name of a variable.
pub open spec fn is_ascii_name_char(c: char) -> bool {
    c == '_' || 'a' <= c <= 'z' || 'A' <= c <= 'Z' || '0' <= c <= '9'
}

/// A character of the name of a variable, where `letters` are the letters and
/// digits beyond ASCII.
pub open spec fn is_name_char(c: char, letters: Set<char>) -> bool {
    is_ascii_name_char(c) || (c as u32 >= 128 && letters.contains(c))
}

/// Where the name that runs from `from` on ends.
pub open spec fn name_end(text: Seq<char>, letters: Set<char>, from: int) -> int
    decreases text.len() - from,
{
    if 0 <= from < text.len() && is_name_char(text[from], letters) {
        name_end(text, letters, from + 1)
    } else {
        from
    }
}

/// Where `c` first stands from `from` on: the end of the text where it does not.
pub open spec fn find_char(text: Seq<char>, c: char, from: int) -> int
    decreases text.len() - from,
{
    if 0 <= from < text.len() {
        if text[from] == c {
            from
        } else {
            find_char(text, c, from + 1)
        }
    } else {
        text.len() as int
    }
}

/// Where `:-` first stands between `from` and `end`: `end` where it does not.
pub open spec fn find_default(text: Seq<char>, from: int, end: int) -> int
    decreases end - from,
{
    if from + 1 < end {
        if text[from] == ':' && text[from + 1] == '-' {
            from
        } else {
            find_default(text, from + 1, end)
        }
    } else {
        end
    }
}

/// A variable at the start of a text: where it ends, and what stands in for it
/// when it is not set.
pub struct Variable {
    pub end: int,
    pub default: Option<Seq<char>>,
}

/// The variable that `text` begins with: `$NAME`, `${NAME}` or
/// `${NAME:-default}`. In braces a name can hold anything.
pub open spec fn leading_variable(text: Seq<char>, letters: Set<char>) -> Option<Variable> {
    if text.len() < 2 || text[0] != '$' {
        None
    } else if text[1] == '{' {
        let close = find_char(text, '}', 2);
        let split = find_default(text, 2, close);
        if close == text.len() {
            None
        } else if split == 2 || split == close {
            Some(Variable { end: close + 1, default: None })
        } else {
            Some(Variable { end: close + 1, default: Some(text.subrange(split + 2, close)) })
        }
    } else if is_name_char(text[1], letters) {
        Some(Variable { end: name_end(text, letters, 1), default: None })
    } else {
        None
    }
}

proof fn lemma_name_end(text: Seq<char>, letters: Set<char>, from: int)
    requires
        0 <= from <= text.len(),
    ensures
        from <= name_end(text, letters, from) <= text.len(),
    decreases text.len() - from,
{
    if from < text.len() && is_name_char(text[from], letters) {
        lemma_name_end(text, letters, from + 1);
    }
}

proof fn lemma_find_char(text: Seq<char>, c: char, from: int)
    requires
        0 <= from <= text.len(),
    ensures
        from <= find_char(text, c, from) <= text.len(),
    decreases text.len() - from,
{
    if from < text.len() && text[from] != c {
        lemma_find_char(text, c, from + 1);
    }
}

/// A variable takes up part of the text, at most all of it.
pub proof fn lemma_variable_end(text: Seq<char>, letters: Set<char>)
    ensures
        leading_variable(text, letters) matches Some(v) ==> 0 < v.end <= text.len(),
{
    if text.len() >= 2 {
        lemma_find_char(text, '}', 2);
        lemma_name_end(text, letters, 1);
    }
}

/// `text` with its variables replaced. The answers to the lookups come from
/// `answers`, one for each variable, in order. A variable without an answer is
/// replaced by its default; where it has none, there is no result. `$$` stands
/// for `$`, and everything else for itself.
pub open spec fn filled(
    text: Seq<char>,
    letters: Set<char>,
    answers: Seq<Option<Seq<char>>>,
) -> Option<Seq<char>>
    decreases text.len(),
{
    proof {
        lemma_variable_end(text, letters);
    }
    if text.len() == 0 {
        Some(Seq::empty())
    } else {
        match leading_variable(text, letters) {
            Some(variable) => {
                let value = if answers.len() > 0 && answers[0] is Some {
                    answers[0]
                } else {
                    variable.default
                };
                let later = if answers.len() > 0 {
                    answers.skip(1)
                } else {
                    answers
                };
                match (value, filled(text.skip(variable.end), letters, later)) {
                    (Some(v), Some(rest)) => Some(v + rest),
                    _ => None,
                }
            },
            None => {
                let taken: int = if text.len() > 1 && text[0] == '$' && text[1] == '$' {
                    2
                } else {
                    1
                };
                match filled(text.skip(taken), letters, answers) {
                    Some(rest) => Some(seq![text[0]] + rest),
                    None => None,
                }
            },
        }
    }
}

/// `expanded` is `full`, or `full` with another text for a `~` that asks for the
/// home directory. A `~` that came with a variable stays.
pub open spec fn home_replaced(text: Seq<char>, full: Seq<char>, expanded: Seq<char>) -> bool {
    ||| expanded == full
    ||| text.len() > 0 && text[0] == '~' && names_home(full) && exists|home: Seq<char>|
        expanded == #[trigger] (home + full.skip(1))
}

/// `expanded` is what `text` becomes with these letters and answers.
pub open spec fn expands_with(
    text: Seq<char>,
    letters: Set<char>,
    answers: Seq<Option<Seq<char>>>,
    expanded: Seq<char>,
) -> bool {
    filled(text, letters, answers) matches Some(full) && home_replaced(text, full, expanded)
}

/// `expanded` is what `text` can be expanded to, whatever the home directory and
/// the environment are: only the variables, and a `~` for the home directory,
/// give way to other texts.
pub open spec fn may_expand_to(text: Seq<char>, expanded: Seq<char>) -> bool {
    exists|letters: Set<char>, answers: Seq<Option<Seq<char>>>| #[trigger]
        expands_with(text, letters, answers, expanded)
}

/// The expansion of `text` can fail: it holds a variable without a default.
pub open spec fn may_fail(text: Seq<char>) -> bool {
    exists|letters: Set<char>, answers: Seq<Option<Seq<char>>>|
        (#[trigger] filled(text, letters, answers)) is None
}

/// `shellexpand::full`, with its error dropped: `~` and the environment
/// variables in `text` are replaced.
///
/// What a variable and the home directory are replaced by rests on the
/// environment, and which characters beyond ASCII are letters or digits is the
/// standard library's to say; these are left unsaid. Stated is the rest: where
/// the variables begin and end, that all other text is kept around them, that
/// `$$` becomes `$`, and that it fails only for want of a variable that has no
/// default.
#[verifier::external_body]
pub(crate) fn shell_expand(text: &str) -> (expanded: Option<String>)
    ensures
        match expanded {
            Some(e) => may_expand_to(text@, e@),
            None => may_fail(text@),
        },
{
    shellexpand::full(text).ok().map(|e| e.into_owned())
}

/// A call of `shellexpand::full` on `text` gave `outcome`: there was such a call,
/// and this is what came of it with the home directory and the environment as
/// they were.
pub closed spec fn shell_gave(text: Seq<char>, outcome: Option<Seq<char>>) -> bool {
    exists|asked: &str, answer: Option<String>|
        asked@ == text && opt_text(answer) == outcome && #[trigger] call_ensures(
            shell_expand,
            (asked,),
            answer,
        )
}

/// Expands `~` and variables in a text. There is no result where a variable
/// cannot be looked up.
pub fn expand_text(text: &str) -> (expanded: Option<String>)
    ensures
        match expanded {
            Some(e) => may_expand_to(text@, e@),
            None => may_fail(text@),
        },
        shell_gave(text@, opt_text(expanded)),
{
    let expanded = shell_expand(text);
    assert(call_ensures(shell_expand, (text,), expanded));
    expanded
}

/// What a text is expanded to is what the environment makes of it: it comes out
/// of a call on that text, and nowhere else.
pub(crate) proof fn law_expansion_is_asked_for(text: Seq<char>, outcome: Option<Seq<char>>)
    requires
        shell_gave(text, outcome),
    ensures
        exists|asked: &str, answer: Option<String>|
            asked@ == text && opt_text(answer) == outcome && #[trigger] call_ensures(
                shell_expand,
                (asked,),
                answer,
            ),
{
}

/// `text` begins with what can be a variable. Beyond ASCII every character is
/// taken for a letter.
pub open spec fn may_begin_variable(text: Seq<char>) -> bool {
    &&& text.len() > 1
    &&& text[0] == '$'
    &&& is_ascii_name_char(text[1]) || text[1] as u32 >= 128 || (text[1] == '{' && find_char(
        text,
        '}',
        2,
    ) < text.len())
}

/// What `text` stands for when no variable is looked up in it: `$$` stands for
/// `$`, and everything else for itself. `None` where there can be a variable.
pub open spec fn literal_text(text: Seq<char>) -> Option<Seq<char>>
    decreases text.len(),
{
    if text.len() == 0 {
        Some(Seq::empty())
    } else if may_begin_variable(text) {
        None
    } else {
        let taken: int = if text.len() > 1 && text[0] == '$' && text[1] == '$' {
            2
        } else {
            1
        };
        match literal_text(text.skip(taken)) {
            Some(rest) => Some(seq![text[0]] + rest),
            None => None,
        }
    }
}

/// A text without variables becomes what it stands for, whatever the answers.
pub proof fn lemma_filled_without_variables(
    text: Seq<char>,
    letters: Set<char>,
    answers: Seq<Option<Seq<char>>>,
)
    requires
        literal_text(text) is Some,
    ensures
        filled(text, letters, answers) == literal_text(text),
    decreases text.len(),
{
    if text.len() > 0 {
        lemma_find_char(text, '}', if text.len() >= 2 { 2 } else { 0 });
        let taken: int = if text.len() > 1 && text[0] == '$' && text[1] == '$' {
            2
        } else {
            1
        };
        lemma_filled_without_variables(text.skip(taken), letters, answers);
    }
}

/// A text without `$` stands for itself.
pub proof fn lemma_literal_without_dollar(text: Seq<char>)
    requires
        !text.contains('$'),
    ensures
        literal_text(text) == Some(text),
    decreases text.len(),
{
    if text.len() > 0 {
        let rest = text.skip(1);
        assert(text.contains(text[0]));
        assert forall|i: int| 0 <= i < rest.len() implies rest[i] != '$' by {
            assert(text.contains(text[i + 1]));
        }
        lemma_literal_without_dollar(rest);
        assert(seq![text[0]] + rest =~= text);
    }
}

/// The expansion of a text without variables does not fail. It gives what the
/// text stands for, but for a `~` that asks for the home directory.
pub proof fn lemma_without_variables(text: Seq<char>)
    requires
        literal_text(text) is Some,
    ensures
        !may_fail(text),
        forall|expanded: Seq<char>| #[trigger]
            may_expand_to(text, expanded) ==> expanded == literal_text(text)->0 || (names_home(text)
                && exists|home: Seq<char>|
                expanded == #[trigger] (home + literal_text(text)->0.skip(1))),
{
    let plain = literal_text(text)->0;
    assert forall|letters: Set<char>, answers: Seq<Option<Seq<char>>>| #[trigger]
        filled(text, letters, answers) == Some(plain) by {
        lemma_filled_without_variables(text, letters, answers);
    }
    if text.len() > 0 && text[0] == '~' {
        let rest = text.skip(1);
        assert(plain == seq!['~'] + literal_text(rest)->0);
        if rest.len() > 0 {
            assert(literal_text(rest)->0[0] == rest[0]);
        }
    }
}

/// `text` holds one `$`, at `from`, and with it the ASCII name of a variable that
/// ends at `to`.
pub open spec fn one_variable(text: Seq<char>, from: int, to: int) -> bool {
    &&& 0 <= from
    &&& from + 1 < to <= text.len()
    &&& forall|i: int| 0 <= i < text.len() ==> (#[trigger] text[i] == '$' <==> i == from)
    &&& forall|i: int| from < i < to ==> is_ascii_name_char(#[trigger] text[i])
    &&& to < text.len() ==> !is_ascii_name_char(text[to]) && (text[to] as u32) < 128
}

proof fn lemma_name_end_is(text: Seq<char>, letters: Set<char>, from: int, to: int)
    requires
        0 <= from <= to <= text.len(),
        forall|i: int| from <= i < to ==> is_ascii_name_char(#[trigger] text[i]),
        to < text.len() ==> !is_name_char(text[to], letters),
    ensures
        name_end(text, letters, from) == to,
    decreases to - from,
{
    if from < to {
        lemma_name_end_is(text, letters, from + 1, to);
    }
}

/// Of a text with one variable, only the variable is replaced.
pub proof fn lemma_one_variable(
    text: Seq<char>,
    from: int,
    to: int,
    letters: Set<char>,
    answers: Seq<Option<Seq<char>>>,
)
    requires
        one_variable(text, from, to),
    ensures
        filled(text, letters, answers) matches Some(full) ==> exists|value: Seq<char>|
            full == #[trigger] (text.take(from) + value + text.skip(to)),
    decreases text.len(),
{
    if filled(text, letters, answers) is Some {
        let full = filled(text, letters, answers)->0;
        if from == 0 {
            lemma_name_end_is(text, letters, 1, to);
            let rest = text.skip(to);
            assert(leading_variable(text, letters) == Some(Variable { end: to, default: None })) by {
                assert(is_ascii_name_char(text[1]));
            }
            assert forall|i: int| 0 <= i < rest.len() implies rest[i] != '$' by {
                assert(text[i + to] != '$');
            }
            lemma_literal_without_dollar(rest);
            let later = if answers.len() > 0 {
                answers.skip(1)
            } else {
                answers
            };
            lemma_filled_without_variables(rest, letters, later);
            let value = answers[0]->0;
            assert(full == value + rest);
            assert(full =~= text.take(0) + value + text.skip(to));
        } else {
            let rest = text.skip(1);
            assert(text[0] != '$');
            assert(one_variable(rest, from - 1, to - 1)) by {
                assert forall|i: int| 0 <= i < rest.len() implies (#[trigger] rest[i] == '$' <==> i
                    == from - 1) by {
                    assert(rest[i] == text[i + 1]);
                }
                assert forall|i: int| from - 1 < i < to - 1 implies is_ascii_name_char(
                    #[trigger] rest[i],
                ) by {
                    assert(rest[i] == text[i + 1]);
                }
            }
            lemma_one_variable(rest, from - 1, to - 1, letters, answers);
            let short = filled(rest, letters, answers)->0;
            let value = choose|value: Seq<char>|
                short == #[trigger] (rest.take(from - 1) + value + rest.skip(to - 1));
            assert(full == seq![text[0]] + short);
            assert(full =~= text.take(from) + value + text.skip(to));
        }
    }
}

/// Up to the first `$`, a text stands for itself.
pub proof fn lemma_prefix_is_kept(
    text: Seq<char>,
    n: int,
    letters: Set<char>,
    answers: Seq<Option<Seq<char>>>,
)
    requires
        0 <= n <= text.len(),
        !text.take(n).contains('$'),
    ensures
        filled(text, letters, answers) matches Some(full) ==> text.take(n).is_prefix_of(full),
    decreases text.len(),
{
    if filled(text, letters, answers) is Some {
        let full = filled(text, letters, answers)->0;
        if n > 0 {
            let rest = text.skip(1);
            assert(text.take(n)[0] == text[0]);
            assert(text.take(n).contains(text[0]));
            let short_head = rest.take(n - 1);
            assert forall|i: int| 0 <= i < n - 1 implies short_head[i] != '$' by {
                assert(text.take(n).contains(text.take(n)[i + 1]));
            }
            lemma_prefix_is_kept(rest, n - 1, letters, answers);
            let short = filled(rest, letters, answers)->0;
            assert(full == seq![text[0]] + short);
            assert(text.take(n) =~= full.subrange(0, n)) by {
                assert forall|i: int| 0 < i < n implies #[trigger] text.take(n)[i] == full[i] by {
                    assert(rest.take(n - 1)[i - 1] == short.subrange(0, n - 1)[i - 1]);
                }
            }
        } else {
            assert(text.take(0) =~= full.subrange(0, 0));
        }
    }
}

} // verus!
