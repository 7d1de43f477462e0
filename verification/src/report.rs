//! What a run has to show, and what the user is told.

use vstd::prelude::*;
use vstd::string::StringExecFns;

use crate::text::{decimal, decimal_text, joined};

verus! {

/// What came of one article.
#[derive(Clone, Copy, Debug, PartialEq, Eq, Structural)]
pub struct ArticleResult {
    pub downloaded: u32,
    pub skipped: u32,
}

/// How the work on one article ended.
#[derive(Debug, PartialEq, Eq)]
pub enum ArticleEnd {
    /// It came to this.
    Finished(ArticleResult),
    /// It failed, for this cause.
    Failed(String),
    /// It was broken off, for this cause.
    Panicked(String),
}

/// What came of all articles so far.
#[derive(Clone, Copy, Debug, PartialEq, Eq, Structural)]
pub struct Totals {
    pub downloaded: u32,
    pub skipped: u32,
}

/// The number of images downloaded in these articles.
pub open spec fn sum_downloaded(results: Seq<ArticleResult>) -> nat
    decreases results.len(),
{
    if results.len() == 0 {
        0
    } else {
        sum_downloaded(results.drop_last()) + results.last().downloaded as nat
    }
}

/// The number of images skipped in these articles.
pub open spec fn sum_skipped(results: Seq<ArticleResult>) -> nat
    decreases results.len(),
{
    if results.len() == 0 {
        0
    } else {
        sum_skipped(results.drop_last()) + results.last().skipped as nat
    }
}

/// The totals are those of these articles.
pub open spec fn totals_of(totals: Totals, results: Seq<ArticleResult>) -> bool {
    &&& totals.downloaded == sum_downloaded(results)
    &&& totals.skipped == sum_skipped(results)
}

impl Totals {
    /// Nothing done yet.
    pub fn new() -> (totals: Totals)
        ensures
            totals.downloaded == 0,
            totals.skipped == 0,
            totals_of(totals, Seq::empty()),
    {
        Totals { downloaded: 0, skipped: 0 }
    }

    /// Adds what came of an article.
    pub fn add_article(&mut self, result: &ArticleResult)
        requires
            old(self).downloaded + result.downloaded <= u32::MAX,
            old(self).skipped + result.skipped <= u32::MAX,
        ensures
            final(self).downloaded == old(self).downloaded + result.downloaded,
            final(self).skipped == old(self).skipped + result.skipped,
            forall|results: Seq<ArticleResult>|
                totals_of(*old(self), results) ==> #[trigger] totals_of(
                    *final(self),
                    results.push(*result),
                ),
    {
        let ghost before = *self;
        self.downloaded = self.downloaded + result.downloaded;
        self.skipped = self.skipped + result.skipped;
        assert forall|results: Seq<ArticleResult>|
            totals_of(before, results) implies #[trigger] totals_of(
            *self,
            results.push(*result),
        ) by {
            assert(results.push(*result).drop_last() =~= results);
        }
    }
}

impl Totals {
    /// Takes in how the work on one article ended. One that failed counts for
    /// nothing and stops nothing; the warning says so.
    pub fn article_ended(&mut self, end: ArticleEnd) -> (warning: Option<String>)
        requires
            end matches ArticleEnd::Finished(result) ==> {
                &&& old(self).downloaded + result.downloaded <= u32::MAX
                &&& old(self).skipped + result.skipped <= u32::MAX
            },
        ensures
            match end {
                ArticleEnd::Finished(result) => {
                    &&& final(self).downloaded == old(self).downloaded + result.downloaded
                    &&& final(self).skipped == old(self).skipped + result.skipped
                    &&& warning is None
                },
                ArticleEnd::Failed(cause) => {
                    &&& *final(self) == *old(self)
                    &&& warning matches Some(w) && w@ == "Warning: article failed: "@ + cause@
                },
                ArticleEnd::Panicked(cause) => {
                    &&& *final(self) == *old(self)
                    &&& warning matches Some(w) && w@ == "Warning: task panicked: "@ + cause@
                },
            },
    {
        match end {
            ArticleEnd::Finished(result) => {
                self.add_article(&result);
                None
            },
            ArticleEnd::Failed(cause) => Some(joined("Warning: article failed: ", cause.as_str())),
            ArticleEnd::Panicked(cause) => Some(
                joined("Warning: task panicked: ", cause.as_str()),
            ),
        }
    }
}

/// Taking one result out of the list takes its share out of the sums.
proof fn lemma_sum_without(results: Seq<ArticleResult>, i: int)
    requires
        0 <= i < results.len(),
    ensures
        sum_downloaded(results) == sum_downloaded(results.remove(i)) + results[i].downloaded,
        sum_skipped(results) == sum_skipped(results.remove(i)) + results[i].skipped,
    decreases results.len(),
{
    let rest = results.remove(i);
    if i == results.len() - 1 {
        assert(rest =~= results.drop_last());
    } else {
        lemma_sum_without(results.drop_last(), i);
        assert(rest.drop_last() =~= results.drop_last().remove(i));
        assert(rest.last() == results.last());
    }
}

/// The totals do not depend on the order in which the articles come to an end.
pub proof fn law_totals_ignore_order(one: Seq<ArticleResult>, other: Seq<ArticleResult>)
    requires
        one.to_multiset() == other.to_multiset(),
    ensures
        sum_downloaded(one) == sum_downloaded(other),
        sum_skipped(one) == sum_skipped(other),
    decreases one.len(),
{
    one.to_multiset_ensures();
    other.to_multiset_ensures();
    if one.len() > 0 {
        let last = one.last();
        let short = one.drop_last();
        assert(one.contains(last));
        assert(one.to_multiset().count(last) > 0);
        assert(other.contains(last));
        let i = choose|i: int| 0 <= i < other.len() && other[i] == last;
        assert(one.remove(one.len() - 1) =~= short);
        law_totals_ignore_order(short, other.remove(i));
        lemma_sum_without(other, i);
    }
}

/// Told while the page of an article is fetched.
pub fn fetching_message(name: &str) -> (text: String)
    ensures
        text@ == name@ + ": fetching page..."@,
{
    let mut text = name.to_owned();
    text.append(": fetching page...");
    text
}

/// Told while the images of an article are looked for on disk.
pub fn scanning_message(name: &str, total: usize) -> (text: String)
    ensures
        text@ == name@ + ": scanning "@ + decimal(total as nat) + " images..."@,
{
    let mut text = name.to_owned();
    text.append(": scanning ");
    text.append(decimal_text(total as u64).as_str());
    text.append(" images...");
    text
}

/// Told before the images of an article are downloaded, when some are on disk.
pub fn cached_message(name: &str, already_existed: u32, to_download: usize) -> (text: Option<
    String,
>)
    ensures
        match text {
            Some(t) => already_existed > 0 && t@ == name@ + ": "@ + decimal(already_existed as nat)
                + " cached, downloading "@ + decimal(to_download as nat) + "..."@,
            None => already_existed == 0,
        },
{
    if already_existed == 0 {
        return None;
    }
    let mut text = name.to_owned();
    text.append(": ");
    text.append(decimal_text(already_existed as u64).as_str());
    text.append(" cached, downloading ");
    text.append(decimal_text(to_download as u64).as_str());
    text.append("...");
    Some(text)
}

/// Told when an image of an article is on disk.
pub fn progress_message(name: &str, count: u32, total: usize) -> (text: String)
    ensures
        text@ == name@ + ": "@ + decimal(count as nat) + "/"@ + decimal(total as nat) + " images"@,
{
    let mut text = name.to_owned();
    text.append(": ");
    text.append(decimal_text(count as u64).as_str());
    text.append("/");
    text.append(decimal_text(total as u64).as_str());
    text.append(" images");
    text
}

/// Told when an image is given up.
pub fn lost_image_message(filename: &str, cause: &str) -> (text: String)
    ensures
        text@ == "  Error: failed to download "@ + filename@ + ": "@ + cause@,
{
    let mut text = "  Error: failed to download ".to_owned();
    text.append(filename);
    text.append(": ");
    text.append(cause);
    text
}

/// What is told when an article is through.
pub open spec fn done_text(name: Seq<char>, result: ArticleResult) -> Seq<char> {
    if result.skipped > 0 {
        "  "@ + name + ": done ("@ + decimal(result.downloaded as nat) + " new, "@ + decimal(
            result.skipped as nat,
        ) + " skipped)"@
    } else {
        "  "@ + name + ": done ("@ + decimal(result.downloaded as nat) + " images)"@
    }
}

/// Told when an article is through.
pub fn done_message(name: &str, result: &ArticleResult) -> (text: String)
    ensures
        text@ == done_text(name@, *result),
{
    let mut text = "  ".to_owned();
    text.append(name);
    text.append(": done (");
    text.append(decimal_text(result.downloaded as u64).as_str());
    if result.skipped > 0 {
        text.append(" new, ");
        text.append(decimal_text(result.skipped as u64).as_str());
        text.append(" skipped)");
    } else {
        text.append(" images)");
    }
    text
}

/// Told while the category listing is paged through.
pub fn searching_message(found: usize) -> (text: String)
    ensures
        text@ == "Searching for articles... (found "@ + decimal(found as nat) + " so far)"@,
{
    let mut text = "Searching for articles... (found ".to_owned();
    text.append(decimal_text(found as u64).as_str());
    text.append(" so far)");
    text
}

/// What is told when the run is over.
pub open spec fn summary_text(totals: Totals, output: Seq<char>) -> Seq<char> {
    if totals.skipped > 0 {
        "Done. "@ + decimal(totals.downloaded as nat) + " new, "@ + decimal(totals.skipped as nat)
            + " already existed in "@ + output
    } else {
        "Done. Downloaded "@ + decimal(totals.downloaded as nat) + " images to "@ + output
    }
}

/// Told when the run is over.
pub fn summary_message(totals: &Totals, output: &str) -> (text: String)
    ensures
        text@ == summary_text(*totals, output@),
{
    if totals.skipped > 0 {
        let mut text = "Done. ".to_owned();
        text.append(decimal_text(totals.downloaded as u64).as_str());
        text.append(" new, ");
        text.append(decimal_text(totals.skipped as u64).as_str());
        text.append(" already existed in ");
        text.append(output);
        text
    } else {
        let mut text = "Done. Downloaded ".to_owned();
        text.append(decimal_text(totals.downloaded as u64).as_str());
        text.append(" images to ");
        text.append(output);
        text
    }
}

/// The command that opens a folder on this platform.
pub fn open_command(is_macos: bool, is_windows: bool) -> (command: &'static str)
    ensures
        command@ == if is_macos {
            "open"@
        } else if is_windows {
            "explorer"@
        } else {
            "xdg-open"@
        },
{
    if is_macos {
        "open"
    } else if is_windows {
        "explorer"
    } else {
        "xdg-open"
    }
}

} // verus!
