use wallpaper_downloader::article::ImagePlan;
use wallpaper_downloader::download::{backoff_ms, AttemptReport, DownloadRun, MAX_RETRIES};

fn tasks(n: usize) -> Vec<ImagePlan> {
    (0..n)
        .map(|i| ImagePlan {
            url: format!("https://basicappleguy.com/s/{i}"),
            folders: vec![],
            filename: format!("{i}"),
        })
        .collect()
}

#[test]
fn backoff_doubles() {
    assert_eq!(backoff_ms(0), 0);
    assert_eq!(backoff_ms(1), 1000);
    assert_eq!(backoff_ms(2), 2000);
    assert_eq!(backoff_ms(3), 4000);
    assert_eq!(backoff_ms(54), 1000 << 53);
}

#[test]
fn failed_image_is_retried_once_after_all_others() {
    assert_eq!(MAX_RETRIES, 1);
    let mut run = DownloadRun::new(tasks(3));
    assert_eq!(run.batch(), vec![0, 1, 2]);
    assert_eq!(run.attempted(1, false), AttemptReport::WillRetry);
    assert!(!run.is_queued(1));
    assert_eq!(run.attempted(2, true), AttemptReport::Downloaded { count: 1 });
    assert_eq!(run.attempted(0, true), AttemptReport::Downloaded { count: 2 });
    assert_eq!(run.batch(), vec![]);

    assert_eq!(run.next_round(), Some(1000));
    assert_eq!(run.batch(), vec![1]);
    assert!(run.is_queued(1));
    assert_eq!(run.attempted(1, false), AttemptReport::GaveUp);
    assert_eq!(run.next_round(), None);
    assert_eq!(run.batch(), vec![]);
    assert_eq!(run.downloaded(), 2);
}

#[test]
fn retry_can_succeed() {
    let mut run = DownloadRun::new(tasks(2));
    run.attempted(0, false);
    run.attempted(1, false);
    assert_eq!(run.next_round(), Some(1000));
    assert_eq!(run.attempted(0, true), AttemptReport::Downloaded { count: 1 });
    assert_eq!(run.attempted(1, true), AttemptReport::Downloaded { count: 2 });
    assert_eq!(run.next_round(), None);
    assert_eq!(run.downloaded(), 2);
}

#[test]
fn run_without_failures_has_one_round() {
    let mut run = DownloadRun::new(tasks(1));
    run.attempted(0, true);
    assert_eq!(run.next_round(), None);

    let mut empty = DownloadRun::new(tasks(0));
    assert_eq!(empty.batch(), vec![]);
    assert_eq!(empty.next_round(), None);
    assert_eq!(empty.downloaded(), 0);
}

#[test]
fn image_without_an_end_is_given_up() {
    let mut run = DownloadRun::new(tasks(2));
    run.attempted(0, false);
    assert_eq!(run.next_round(), Some(1000));
    assert_eq!(run.batch(), vec![0]);
    assert!(!run.is_queued(1));
    assert!(!run.is_queued(2));
}

#[test]
fn tasks_keep_their_place() {
    let run = DownloadRun::new(tasks(2));
    assert_eq!(run.len(), 2);
    assert_eq!(run.task(1).filename, "1");
}
