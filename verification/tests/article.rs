use wallpaper_downloader::article::{
    filename_of, plan_article, plan_image, plan_image_for, scan_images, ArticleScan, ImagePlan,
};
use wallpaper_downloader::paths::FilePath;
use wallpaper_downloader::settings::Settings;

fn settings(device_sort: bool, article_sort: bool) -> Settings {
    Settings {
        output: FilePath::from_text("downloads"),
        parallel_articles: 4,
        parallel_images: 3,
        device_sort,
        article_sort,
        delay: 250,
        open_on_finish: false,
    }
}

fn plan(name: &str) -> ImagePlan {
    ImagePlan {
        url: format!("https://basicappleguy.com/s/{name}"),
        folders: vec![],
        filename: name.to_string(),
    }
}

#[test]
fn filename_is_what_follows_the_root() {
    assert_eq!(filename_of("/s/a.png"), "a.png");
    assert_eq!(filename_of("/s///a/b.png"), "a/b.png");
    assert_eq!(filename_of("/s/"), "");
    assert_eq!(filename_of("/s"), "");
}

#[test]
fn output_structure_follows_the_sorts() {
    let folders = |device_sort, article_sort| {
        plan_image("/s/BAG-iPhoneWallpaper.jpg", "floral", &settings(device_sort, article_sort))
            .unwrap()
            .folders
    };
    assert_eq!(folders(true, true), vec!["iPhone", "floral"]);
    assert_eq!(folders(true, false), vec!["iPhone"]);
    assert_eq!(folders(false, true), vec!["floral"]);
    assert!(folders(false, false).is_empty());
}

#[test]
fn image_is_planned_for_its_device() {
    let planned = plan_image_for("/s//x.png", "Mac", "hive", true, true).unwrap();
    assert_eq!(planned.url, "https://basicappleguy.com/s//x.png");
    assert_eq!(planned.folders, vec!["Mac", "hive"]);
    assert_eq!(planned.filename, "x.png");
    assert_eq!(plan_image_for("/s///", "Mac", "hive", true, true), None);
}

#[test]
fn article_is_planned_from_its_page() {
    let html = r#"<p><a href="/s/BAG-MacDesktop.jpg">m</a><a href="/s/">none</a>
        <a href="/s/BAG-MacDesktop.jpg">m</a><a href="/about">about</a>
        <a href="/s/plain.jpg">p</a></p>"#;
    let plans = plan_article(html, "floral", &settings(true, true));
    assert_eq!(plans.len(), 3);
    let first = plans[0].as_ref().unwrap();
    assert_eq!(first.folders, vec!["Mac", "floral"]);
    assert_eq!(first.filename, "BAG-MacDesktop.jpg");
    assert_eq!(first.url, "https://basicappleguy.com/s/BAG-MacDesktop.jpg");
    assert_eq!(plans[1], None);
    assert_eq!(plans[2].as_ref().unwrap().folders, vec!["Others", "floral"]);
}

#[test]
fn existing_images_are_skipped() {
    let plans = vec![Some(plan("a")), None, Some(plan("b")), Some(plan("c"))];
    let scan = scan_images(plans, &vec![false, false, true, false]);
    assert_eq!(scan.already_existed(), 1);
    assert_eq!(scan.to_download(), 2);
    assert_eq!(scan.into_tasks(), vec![plan("a"), plan("c")]);
}

#[test]
fn rerun_downloads_nothing() {
    let plans = vec![Some(plan("a")), None, Some(plan("b"))];
    let scan = scan_images(plans, &vec![true, false, true]);
    assert_eq!(scan.already_existed(), 2);
    assert!(scan.into_tasks().is_empty());
}

#[test]
fn scan_takes_one_image_at_a_time() {
    let mut scan = ArticleScan::new();
    assert_eq!((scan.already_existed(), scan.to_download()), (0, 0));
    scan.looked(plan("a"), true);
    scan.looked(plan("b"), false);
    assert_eq!((scan.already_existed(), scan.to_download()), (1, 1));
}
