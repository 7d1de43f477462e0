//! The device that an image is made for, told from its file name.

use vstd::prelude::*;
use vstd::utf8::is_ascii_chars;

use crate::text::{contains_text, has_text, text_at};

verus! {

/// `str::to_lowercase` of the standard library, on `text`.
pub uninterp spec fn lowercase(text: Seq<char>) -> Seq<char>;

/// `c` in lower case, where it is an ASCII letter.
pub open spec fn ascii_lower_char(c: char) -> char {
    if 'A' <= c <= 'Z' {
        (c as u32 + 32) as char
    } else {
        c
    }
}

/// `text` with its ASCII letters in lower case.
pub open spec fn ascii_lowercase(text: Seq<char>) -> Seq<char> {
    text.map_values(|c: char| ascii_lower_char(c))
}

/// `text` with its ASCII letters in upper case.
pub open spec fn ascii_uppercase(text: Seq<char>) -> Seq<char> {
    text.map_values(
        |c: char|
            if 'a' <= c <= 'z' {
                (c as u32 - 32) as char
            } else {
                c
            },
    )
}

/// `str::to_lowercase` of the standard library.
///
/// The result is named. Stated of it is what becomes of the ASCII letters: in an
/// ASCII text, `A` to `Z` become `a` to `z` and nothing else changes; in any text,
/// lowering the ASCII letters first makes no difference; and an ASCII text that
/// is found in a part in lower case is found in the whole in lower case. What a
/// letter becomes can depend on its neighbours only for a letter beyond ASCII,
/// and that becomes one beyond ASCII either way.
#[verifier::external_body]
fn lowercase_of(text: &str) -> (lower: String)
    ensures
        lower@ == lowercase(text@),
        is_ascii_chars(text@) ==> lower@ == ascii_lowercase(text@),
        lower@ == lowercase(ascii_lowercase(text@)),
        forall|a: Seq<char>, b: Seq<char>, word: Seq<char>|
            #![trigger a + b, is_ascii_chars(word)]
            text@ == a + b && is_ascii_chars(word) && (has_text(lowercase(a), word) || has_text(
                lowercase(b),
                word,
            )) ==> has_text(lower@, word),
{
    text.to_lowercase()
}

/// The device folder for a file name in lower case. `iphone` comes before
/// `ipad`, which comes before `mac`.
pub open spec fn device_folder(lower: Seq<char>) -> Seq<char> {
    if has_text(lower, "iphone"@) {
        "iPhone"@
    } else if has_text(lower, "ipad"@) {
        "iPad"@
    } else if has_text(lower, "mac"@) {
        "Mac"@
    } else {
        "Others"@
    }
}

/// The device folder for a file name in lower case.
pub fn folder_of_lowercase(lower: &str) -> (folder: &'static str)
    ensures
        folder@ == device_folder(lower@),
{
    if contains_text(lower, "iphone") {
        "iPhone"
    } else if contains_text(lower, "ipad") {
        "iPad"
    } else if contains_text(lower, "mac") {
        "Mac"
    } else {
        "Others"
    }
}

/// The rank of a device folder: the higher one wins.
pub open spec fn folder_rank(folder: Seq<char>) -> nat {
    if folder == "iPhone"@ {
        3
    } else if folder == "iPad"@ {
        2
    } else if folder == "Mac"@ {
        1
    } else {
        0
    }
}

/// A text that names all devices that another one names ranks at least as high.
proof fn lemma_rank_grows(lower: Seq<char>, more: Seq<char>)
    requires
        has_text(lower, "iphone"@) ==> has_text(more, "iphone"@),
        has_text(lower, "ipad"@) ==> has_text(more, "ipad"@),
        has_text(lower, "mac"@) ==> has_text(more, "mac"@),
    ensures
        folder_rank(device_folder(more)) >= folder_rank(device_folder(lower)),
{
    law_device_priority(lower);
    law_device_priority(more);
}

/// The device folder for a file name, whatever its case. Of a name that is put
/// together from two parts, the folder ranks at least as high as that of each
/// part alone.
pub fn categorize_filename(filename: &str) -> (folder: &'static str)
    ensures
        folder@ == device_folder(lowercase(filename@)),
        is_ascii_chars(filename@) ==> folder@ == device_folder(ascii_lowercase(filename@)),
        folder@ == device_folder(lowercase(ascii_lowercase(filename@))),
        forall|a: Seq<char>, b: Seq<char>|
            filename@ == #[trigger] (a + b) ==> {
                &&& folder_rank(folder@) >= folder_rank(device_folder(lowercase(a)))
                &&& folder_rank(folder@) >= folder_rank(device_folder(lowercase(b)))
            },
{
    let lower = lowercase_of(filename);
    proof {
        reveal_strlit("iphone");
        reveal_strlit("ipad");
        reveal_strlit("mac");
        assert(is_ascii_chars("iphone"@));
        assert(is_ascii_chars("ipad"@));
        assert(is_ascii_chars("mac"@));
        assert forall|a: Seq<char>, b: Seq<char>| filename@ == #[trigger] (a + b) implies {
            &&& folder_rank(device_folder(lower@)) >= folder_rank(device_folder(lowercase(a)))
            &&& folder_rank(device_folder(lower@)) >= folder_rank(device_folder(lowercase(b)))
        } by {
            lemma_rank_grows(lowercase(a), lower@);
            lemma_rank_grows(lowercase(b), lower@);
        }
    }
    folder_of_lowercase(lower.as_str())
}

/// Each file name goes into exactly one of the four folders: the first device of
/// iPhone, iPad and Mac that it names, and `Others` where it names none.
pub proof fn law_device_priority(lower: Seq<char>)
    ensures
        device_folder(lower) == "iPhone"@ <==> has_text(lower, "iphone"@),
        device_folder(lower) == "iPad"@ <==> !has_text(lower, "iphone"@) && has_text(
            lower,
            "ipad"@,
        ),
        device_folder(lower) == "Mac"@ <==> !has_text(lower, "iphone"@) && !has_text(
            lower,
            "ipad"@,
        ) && has_text(lower, "mac"@),
        device_folder(lower) == "Others"@ <==> !has_text(lower, "iphone"@) && !has_text(
            lower,
            "ipad"@,
        ) && !has_text(lower, "mac"@),
{
    reveal_strlit("iPhone");
    reveal_strlit("iPad");
    reveal_strlit("Mac");
    reveal_strlit("Others");
    assert("iPhone"@[0] == 'i' && "iPad"@[0] == 'i' && "Mac"@[0] == 'M' && "Others"@[0] == 'O');
    assert("iPhone"@.len() == 6 && "iPad"@.len() == 4);
}

/// Putting the ASCII letters of a text in upper or lower case first makes no
/// difference to the text in lower case.
proof fn lemma_ascii_case(text: Seq<char>)
    ensures
        ascii_lowercase(ascii_uppercase(text)) == ascii_lowercase(text),
        ascii_lowercase(ascii_lowercase(text)) == ascii_lowercase(text),
{
    assert(ascii_lowercase(ascii_uppercase(text)) =~= ascii_lowercase(text));
    assert(ascii_lowercase(ascii_lowercase(text)) =~= ascii_lowercase(text));
}

/// A file name goes into the same folder in whatever case its ASCII letters are.
pub proof fn law_device_ignores_case(filename: Seq<char>)
    ensures
        device_folder(lowercase(ascii_lowercase(ascii_uppercase(filename)))) == device_folder(
            lowercase(ascii_lowercase(filename)),
        ),
        device_folder(lowercase(ascii_lowercase(ascii_lowercase(filename)))) == device_folder(
            lowercase(ascii_lowercase(filename)),
        ),
        device_folder(ascii_lowercase(ascii_uppercase(filename))) == device_folder(
            ascii_lowercase(filename),
        ),
{
    lemma_ascii_case(filename);
}

/// What stands in a text stands in any text around it.
proof fn lemma_text_around(before: Seq<char>, text: Seq<char>, after: Seq<char>, part: Seq<char>)
    requires
        has_text(text, part),
    ensures
        has_text(before + text + after, part),
{
    let at = choose|at: int| text_at(text, part, at);
    let whole = before + text + after;
    assert(whole.subrange(before.len() + at, before.len() + at + part.len()) =~= text.subrange(
        at,
        at + part.len(),
    ));
    assert(text_at(whole, part, before.len() + at));
}

/// Text added before or after a name in lower case never lowers its device
/// priority.
pub proof fn law_added_text_keeps_priority(before: Seq<char>, lower: Seq<char>, after: Seq<char>)
    ensures
        folder_rank(device_folder(before + lower + after)) >= folder_rank(device_folder(lower)),
{
    if has_text(lower, "iphone"@) {
        lemma_text_around(before, lower, after, "iphone"@);
    }
    if has_text(lower, "ipad"@) {
        lemma_text_around(before, lower, after, "ipad"@);
    }
    if has_text(lower, "mac"@) {
        lemma_text_around(before, lower, after, "mac"@);
    }
    lemma_rank_grows(lower, before + lower + after);
}

/// Two ASCII names put together have at least the device priority of each.
/// [`categorize_filename`] states this of all names.
pub proof fn law_joined_names_keep_priority(one: Seq<char>, other: Seq<char>)
    ensures
        folder_rank(device_folder(ascii_lowercase(one + other))) >= folder_rank(
            device_folder(ascii_lowercase(one)),
        ),
        folder_rank(device_folder(ascii_lowercase(one + other))) >= folder_rank(
            device_folder(ascii_lowercase(other)),
        ),
{
    let a = ascii_lowercase(one);
    let b = ascii_lowercase(other);
    law_added_text_keeps_priority(Seq::empty(), a, b);
    law_added_text_keeps_priority(a, b, Seq::empty());
    assert(Seq::empty() + a + b =~= ascii_lowercase(one + other));
    assert(a + b + Seq::empty() =~= ascii_lowercase(one + other));
}

} // verus!
