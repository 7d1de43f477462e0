use wallpaper_downloader::report::{
    cached_message, done_message, fetching_message, lost_image_message, open_command,
    progress_message, scanning_message, searching_message, summary_message, ArticleEnd, ArticleResult,
    Totals,
};
use wallpaper_downloader::text::decimal_text;

#[test]
fn numbers_are_decimal() {
    assert_eq!(decimal_text(0), "0");
    assert_eq!(decimal_text(9), "9");
    assert_eq!(decimal_text(10), "10");
    assert_eq!(decimal_text(1234567890), "1234567890");
    assert_eq!(decimal_text(u64::MAX), u64::MAX.to_string());
}

#[test]
fn article_messages() {
    assert_eq!(fetching_message("hive"), "hive: fetching page...");
    assert_eq!(scanning_message("hive", 12), "hive: scanning 12 images...");
    assert_eq!(
        cached_message("hive", 3, 9).as_deref(),
        Some("hive: 3 cached, downloading 9...")
    );
    assert_eq!(cached_message("hive", 0, 9), None);
    assert_eq!(progress_message("hive", 7, 12), "hive: 7/12 images");
    assert_eq!(
        lost_image_message("a.png", "timed out"),
        "  Error: failed to download a.png: timed out"
    );
    let some = ArticleResult { downloaded: 9, skipped: 3 };
    assert_eq!(done_message("hive", &some), "  hive: done (9 new, 3 skipped)");
    let none = ArticleResult { downloaded: 12, skipped: 0 };
    assert_eq!(done_message("hive", &none), "  hive: done (12 images)");
}

#[test]
fn run_messages() {
    assert_eq!(searching_message(20), "Searching for articles... (found 20 so far)");
    let totals = Totals { downloaded: 5, skipped: 2 };
    assert_eq!(summary_message(&totals, "out"), "Done. 5 new, 2 already existed in out");
    let totals = Totals { downloaded: 5, skipped: 0 };
    assert_eq!(summary_message(&totals, "out"), "Done. Downloaded 5 images to out");
}

#[test]
fn totals_add_up_in_any_order() {
    let one = ArticleResult { downloaded: 9, skipped: 3 };
    let two = ArticleResult { downloaded: 1, skipped: 40 };
    let mut forth = Totals::new();
    forth.add_article(&one);
    forth.add_article(&two);
    let mut back = Totals::new();
    back.add_article(&two);
    back.add_article(&one);
    assert_eq!(forth, back);
    assert_eq!(forth, Totals { downloaded: 10, skipped: 43 });
}

#[test]
fn open_command_follows_the_platform() {
    assert_eq!(open_command(true, false), "open");
    assert_eq!(open_command(false, true), "explorer");
    assert_eq!(open_command(false, false), "xdg-open");
}

#[test]
fn failed_articles_are_told_and_not_counted() {
    let mut totals = Totals::new();
    let finished = ArticleEnd::Finished(ArticleResult { downloaded: 2, skipped: 1 });
    assert_eq!(totals.article_ended(finished), None);
    let warning = totals.article_ended(ArticleEnd::Failed("no page".to_string()));
    assert_eq!(warning.as_deref(), Some("Warning: article failed: no page"));
    let warning = totals.article_ended(ArticleEnd::Panicked("broken".to_string()));
    assert_eq!(warning.as_deref(), Some("Warning: task panicked: broken"));
    assert_eq!(totals, Totals { downloaded: 2, skipped: 1 });
}
