//! Which folder a file name goes into.

use vstd::prelude::*;
use vstd::utf8::is_ascii_chars;

use crate::device::{
    ascii_lowercase, categorize_filename, device_folder, folder_of_lowercase,
    law_device_priority, lowercase,
};
use crate::laws::text::{holds, lemma_holds};

verus! {

/// `folder` is the folder of the first of iPhone, iPad and Mac that `lower` names,
/// and `Others` where it names none.
pub open spec fn is_device_folder(lower: Seq<char>, folder: Seq<char>) -> bool {
    &&& holds(lower, "iphone"@) ==> folder == "iPhone"@
    &&& !holds(lower, "iphone"@) && holds(lower, "ipad"@) ==> folder == "iPad"@
    &&& !holds(lower, "iphone"@) && !holds(lower, "ipad"@) && holds(lower, "mac"@) ==> folder
        == "Mac"@
    &&& !holds(lower, "iphone"@) && !holds(lower, "ipad"@) && !holds(lower, "mac"@) ==> folder
        == "Others"@
}

/// The device folder of a name in lower case goes by the first device it names.
pub proof fn law_device_folder(lower: Seq<char>)
    ensures
        is_device_folder(lower, device_folder(lower)),
{
    lemma_holds(lower, "iphone"@);
    lemma_holds(lower, "ipad"@);
    lemma_holds(lower, "mac"@);
}

/// A file name in lower case goes into the folder of the first device it names.
pub proof fn law_lowercase_name_goes_by_its_device(lower: &str, folder: &'static str)
    requires
        call_ensures(folder_of_lowercase, (lower,), folder),
    ensures
        is_device_folder(lower@, folder@),
{
    law_device_folder(lower@);
}

/// A file name goes into the folder of the first device that it names in lower
/// case.
pub proof fn law_name_goes_by_its_device(filename: &str, folder: &'static str)
    requires
        call_ensures(categorize_filename, (filename,), folder),
    ensures
        is_device_folder(lowercase(filename@), folder@),
{
    law_device_folder(lowercase(filename@));
}

/// `lower` is `c`, or the lower case of `c` where `c` is an ASCII capital.
pub open spec fn is_lower_of(lower: char, c: char) -> bool {
    if 'A' <= c <= 'Z' {
        lower as int == c as int + 32
    } else {
        lower == c
    }
}

/// Two names that come to the same when their ASCII capitals are put in lower case
/// go into the same folder.
pub proof fn law_case_makes_no_difference(
    one: &str,
    other: &str,
    lower: Seq<char>,
    one_folder: &'static str,
    other_folder: &'static str,
)
    requires
        call_ensures(categorize_filename, (one,), one_folder),
        call_ensures(categorize_filename, (other,), other_folder),
        one@.len() == lower.len(),
        other@.len() == lower.len(),
        forall|i: int| 0 <= i < lower.len() ==> is_lower_of(#[trigger] lower[i], one@[i]),
        forall|i: int| 0 <= i < lower.len() ==> is_lower_of(#[trigger] lower[i], other@[i]),
    ensures
        one_folder@ == other_folder@,
{
    assert(ascii_lowercase(one@) =~= lower);
    assert(ascii_lowercase(other@) =~= lower);
}

/// An ASCII name goes into the folder of the first device that it names, in
/// whatever case it names it.
pub proof fn law_ascii_name_goes_by_its_device(
    filename: &str,
    lower: Seq<char>,
    folder: &'static str,
)
    requires
        call_ensures(categorize_filename, (filename,), folder),
        is_ascii_chars(filename@),
        filename@.len() == lower.len(),
        forall|i: int| 0 <= i < lower.len() ==> is_lower_of(#[trigger] lower[i], filename@[i]),
    ensures
        is_device_folder(lower, folder@),
{
    assert(ascii_lowercase(filename@) =~= lower);
    law_device_folder(lower);
}

/// Of two names put together, each counts for as much as it does alone.
pub proof fn law_joined_names(
    one: &str,
    other: &str,
    whole: &str,
    one_folder: &'static str,
    other_folder: &'static str,
    whole_folder: &'static str,
)
    requires
        call_ensures(categorize_filename, (one,), one_folder),
        call_ensures(categorize_filename, (other,), other_folder),
        call_ensures(categorize_filename, (whole,), whole_folder),
        whole@ == one@ + other@,
    ensures
        one_folder@ == "iPhone"@ || other_folder@ == "iPhone"@ ==> whole_folder@ == "iPhone"@,
        one_folder@ == "iPad"@ || other_folder@ == "iPad"@ ==> whole_folder@ == "iPhone"@
            || whole_folder@ == "iPad"@,
        one_folder@ == "Mac"@ || other_folder@ == "Mac"@ ==> whole_folder@ != "Others"@,
{
    law_device_priority(lowercase(one@));
    law_device_priority(lowercase(other@));
    law_device_priority(lowercase(whole@));
    reveal_strlit("iPhone");
    reveal_strlit("iPad");
    reveal_strlit("Mac");
    reveal_strlit("Others");
    assert("iPhone"@[0] == 'i' && "iPad"@[0] == 'i' && "Mac"@[0] == 'M' && "Others"@[0] == 'O');
    assert("iPhone"@.len() == 6 && "iPad"@.len() == 4);
}

} // verus!
