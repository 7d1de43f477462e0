//! What is counted, and what the user is told. A number is told as
//! [`crate::laws::text::law_decimal`] says.

use vstd::prelude::*;

use crate::report::{
    cached_message, done_message, fetching_message, lost_image_message, open_command,
    progress_message, scanning_message, searching_message, sum_downloaded, sum_skipped,
    summary_message, ArticleEnd, ArticleResult, Totals,
};
use crate::text::decimal;

verus! {

/// The totals begin at nothing.
pub proof fn law_totals_begin(totals: Totals)
    requires
        call_ensures(Totals::new, (), totals),
    ensures
        totals.downloaded == 0,
        totals.skipped == 0,
{
}

/// Each article adds what it downloaded and what it skipped.
pub proof fn law_add_article(totals: &mut Totals, result: ArticleResult)
    requires
        call_ensures(Totals::add_article, (totals, &result), ()),
    ensures
        final(totals).downloaded == old(totals).downloaded + result.downloaded,
        final(totals).skipped == old(totals).skipped + result.skipped,
{
}

/// The sums over some articles and one more are those over the first and what the
/// one adds.
pub proof fn law_sums(results: Seq<ArticleResult>, result: ArticleResult)
    ensures
        sum_downloaded(Seq::empty()) == 0,
        sum_skipped(Seq::empty()) == 0,
        sum_downloaded(results.push(result)) == sum_downloaded(results) + result.downloaded,
        sum_skipped(results.push(result)) == sum_skipped(results) + result.skipped,
{
    assert(results.push(result).drop_last() =~= results);
}

/// An article that was finished is counted without a word. One that failed or was
/// broken off changes no count, and the user is told.
pub proof fn law_article_ended(totals: &mut Totals, end: ArticleEnd, warning: Option<String>)
    requires
        call_ensures(Totals::article_ended, (totals, end), warning),
    ensures
        warning is None <==> end is Finished,
        end matches ArticleEnd::Finished(result) ==> final(totals).downloaded
            == old(totals).downloaded + result.downloaded,
        end matches ArticleEnd::Finished(result) ==> final(totals).skipped == old(totals).skipped
            + result.skipped,
        !(end is Finished) ==> final(totals).downloaded == old(totals).downloaded,
        !(end is Finished) ==> final(totals).skipped == old(totals).skipped,
        end matches ArticleEnd::Failed(cause) ==> warning->0@ == "Warning: article failed: "@
            + cause@,
        end matches ArticleEnd::Panicked(cause) ==> warning->0@ == "Warning: task panicked: "@
            + cause@,
{
}

/// What is told while an article is worked on.
pub proof fn law_article_messages(
    name: &str,
    total: usize,
    count: u32,
    fetching: String,
    scanning: String,
    progress: String,
)
    requires
        call_ensures(fetching_message, (name,), fetching),
        call_ensures(scanning_message, (name, total), scanning),
        call_ensures(progress_message, (name, count, total), progress),
    ensures
        fetching@ == name@ + ": fetching page..."@,
        scanning@ == name@ + ": scanning "@ + decimal(total as nat) + " images..."@,
        progress@ == name@ + ": "@ + decimal(count as nat) + "/"@ + decimal(total as nat)
            + " images"@,
{
}

/// Images that are on disk already are told of exactly where there are some.
pub proof fn law_cached_message(
    name: &str,
    already_existed: u32,
    to_download: usize,
    text: Option<String>,
)
    requires
        call_ensures(cached_message, (name, already_existed, to_download), text),
    ensures
        text is Some <==> already_existed > 0,
        text matches Some(t) ==> t@ == name@ + ": "@ + decimal(already_existed as nat)
            + " cached, downloading "@ + decimal(to_download as nat) + "..."@,
{
}

/// What is told of an image that was given up.
pub proof fn law_lost_image_message(filename: &str, cause: &str, text: String)
    requires
        call_ensures(lost_image_message, (filename, cause), text),
    ensures
        text@ == "  Error: failed to download "@ + filename@ + ": "@ + cause@,
{
}

/// What is told of an article that is through names what was skipped exactly where
/// something was.
pub proof fn law_done_message(name: &str, result: ArticleResult, text: String)
    requires
        call_ensures(done_message, (name, &result), text),
    ensures
        result.skipped > 0 ==> text@ == "  "@ + name@ + ": done ("@ + decimal(
            result.downloaded as nat,
        ) + " new, "@ + decimal(result.skipped as nat) + " skipped)"@,
        result.skipped == 0 ==> text@ == "  "@ + name@ + ": done ("@ + decimal(
            result.downloaded as nat,
        ) + " images)"@,
{
}

/// What is told while articles are looked for.
pub proof fn law_searching_message(found: usize, text: String)
    requires
        call_ensures(searching_message, (found,), text),
    ensures
        text@ == "Searching for articles... (found "@ + decimal(found as nat) + " so far)"@,
{
}

/// What is told at the end names what was there already exactly where something
/// was.
pub proof fn law_summary_message(totals: Totals, output: &str, text: String)
    requires
        call_ensures(summary_message, (&totals, output), text),
    ensures
        totals.skipped > 0 ==> text@ == "Done. "@ + decimal(totals.downloaded as nat) + " new, "@
            + decimal(totals.skipped as nat) + " already existed in "@ + output@,
        totals.skipped == 0 ==> text@ == "Done. Downloaded "@ + decimal(totals.downloaded as nat)
            + " images to "@ + output@,
{
}

/// A folder is opened by the command of the platform.
pub proof fn law_open_command(is_macos: bool, is_windows: bool, command: &'static str)
    requires
        call_ensures(open_command, (is_macos, is_windows), command),
    ensures
        is_macos ==> command@ == "open"@,
        !is_macos && is_windows ==> command@ == "explorer"@,
        !is_macos && !is_windows ==> command@ == "xdg-open"@,
{
}

} // verus!
