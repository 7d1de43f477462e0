use wallpaper_downloader::discovery::{
    fetch_page, Discovery, DiscoveryStep, FetchFailure, FetchStage, PageOutcome,
};

fn some(text: &str) -> Option<String> {
    Some(text.to_string())
}

fn lost(stage: FetchStage) -> FetchFailure<u8> {
    FetchFailure { stage, cause: 7, text: "timed out".to_string() }
}

fn page(titles: &[&str], next: Option<&str>) -> String {
    let mut html = String::new();
    for title in titles {
        html.push_str(&format!("<h1 class=\"blog-title\"><a href=\"{title}\">t</a></h1>"));
    }
    if let Some(next) = next {
        html.push_str(&format!("<a rel=\"next\" href=\"{next}\">next</a>"));
    }
    html
}

fn fetched(html: String) -> Result<String, FetchFailure<u8>> {
    Ok(html)
}

#[test]
fn discovery_pages_through_the_listing() {
    let mut discovery = Discovery::new();
    let first = discovery.take_page().unwrap();
    assert_eq!(first, "https://basicappleguy.com/basicappleblog/category/Wallpaper");
    assert_eq!(discovery.take_page(), None);

    let step = discovery.page_fetched(&first, fetched(page(&["/a", "/b", "/a"], Some("/p2"))));
    assert!(matches!(step, DiscoveryStep::Continue));
    assert_eq!(discovery.found(), 2);

    let second = discovery.take_page().unwrap();
    assert_eq!(second, "https://basicappleguy.com/p2");
    let step = discovery.page_fetched(&second, fetched(page(&["/b", "/c"], None)));
    assert!(matches!(step, DiscoveryStep::Done));
    assert_eq!(discovery.take_page(), None);
    assert_eq!(
        discovery.into_urls(),
        vec![
            "https://basicappleguy.com/a",
            "https://basicappleguy.com/b",
            "https://basicappleguy.com/c"
        ]
    );
}

#[test]
fn discovery_ends_at_a_page_without_news() {
    let mut discovery = Discovery::new();
    discovery.take_page();
    assert!(discovery.read_page(&page(&["/a"], Some("/p2"))));
    discovery.take_page();
    assert!(!discovery.read_page(&page(&["/a"], Some("/p3"))));
    assert_eq!(discovery.take_page(), None);
    assert_eq!(discovery.into_urls(), vec!["https://basicappleguy.com/a"]);
}

#[test]
fn discovery_takes_the_first_next_link() {
    let mut discovery = Discovery::new();
    assert!(!discovery.add_page(&vec![some("/a"), None], &vec![None, some("/p2")]));
    assert_eq!(discovery.take_page(), None);
    assert!(discovery.add_page(&vec![some("/b")], &vec![some("/p3"), some("/p4")]));
    assert_eq!(discovery.take_page(), some("https://basicappleguy.com/p3"));
}

#[test]
fn losing_the_first_page_is_an_error() {
    let mut discovery = Discovery::new();
    let url = discovery.take_page().unwrap();
    match discovery.page_fetched(&url, Err(lost(FetchStage::Request))) {
        DiscoveryStep::Fail { context, cause } => {
            assert_eq!(context, "failed to fetch category page");
            assert_eq!(cause, 7);
        }
        other => panic!("{other:?}"),
    }
    match fetch_page("u", false, Err(lost(FetchStage::Body))) {
        PageOutcome::Fail { context, cause } => {
            assert_eq!(context, "failed to read category page body");
            assert_eq!(cause, 7);
        }
        other => panic!("{other:?}"),
    }
}

#[test]
fn losing_a_later_page_keeps_what_was_found() {
    let mut discovery = Discovery::new();
    discovery.take_page();
    assert!(discovery.read_page(&page(&["/a"], Some("/p2"))));
    let url = discovery.take_page().unwrap();
    match discovery.page_fetched(&url, Err(lost(FetchStage::Request))) {
        DiscoveryStep::Stop { warning } => assert_eq!(
            warning,
            "Warning: pagination failed at https://basicappleguy.com/p2: timed out, continuing with articles found so far"
        ),
        other => panic!("{other:?}"),
    }
    assert_eq!(discovery.take_page(), None);
    assert_eq!(discovery.into_urls(), vec!["https://basicappleguy.com/a"]);
    match fetch_page("u", true, Err(lost(FetchStage::Body))) {
        PageOutcome::Skip { warning } => assert_eq!(
            warning,
            "Warning: failed to read page body at u: timed out, continuing with articles found so far"
        ),
        other => panic!("{other:?}"),
    }
    match fetch_page::<u8>("u", true, Ok("x".to_string())) {
        PageOutcome::Page(html) => assert_eq!(html, "x"),
        other => panic!("{other:?}"),
    }
}
