use wallpaper_downloader::site::{
    article_name, image_links_among, image_links_of, is_page_short_enough, next_hrefs, title_hrefs,
    url_of, MAX_PAGE_BYTES,
};

fn some(text: &str) -> Option<String> {
    Some(text.to_string())
}

#[test]
fn article_name_is_the_last_step() {
    assert_eq!(
        article_name("https://basicappleguy.com/basicappleblog/some-wallpaper"),
        "some-wallpaper"
    );
    assert_eq!(article_name("no-slash"), "no-slash");
    assert_eq!(article_name("ends/with/"), "");
    assert_eq!(article_name(""), "");
    assert_eq!(article_name("a/\u{e9}t\u{e9}"), "\u{e9}t\u{e9}");
}

#[test]
fn urls_are_on_the_site() {
    assert_eq!(url_of("/s/a.png"), "https://basicappleguy.com/s/a.png");
}

#[test]
fn titles_are_picked() {
    let html = r#"<h1 class="blog-title"><a href="/one">1</a></h1>
        <h1 class="blog-title big"><b><a>none</a></b></h1>
        <a href="/no">no</a>
        <h1 class="blog-title"><a href="/two?a=1&amp;b=2">2</a></h1>"#;
    assert_eq!(title_hrefs(html), vec![some("/one"), None, some("/two?a=1&b=2")]);
    assert_eq!(title_hrefs(""), vec![]);
}

#[test]
fn next_links_are_picked() {
    let html = r#"<a rel="prev" href="/p">p</a><a rel="next" href="/n">n</a><a rel="next">m</a>"#;
    assert_eq!(next_hrefs(html), vec![some("/n"), None]);
}

#[test]
fn image_links_are_picked_once() {
    let html = r#"<p><a href="/s/a.png">a</a> <a href="/t/b.png">b</a></p>
        <div><a href="/s/out.png">out</a></div>
        <p><i><a href="/s/c.png">c</a></i><a href="/s/a.png">a</a><a>x</a></p>"#;
    assert_eq!(image_links_of(html), vec!["/s/a.png", "/s/c.png"]);
}

#[test]
fn image_links_keep_their_order() {
    let hrefs = vec![
        some("/s/b"),
        None,
        some("/s"),
        some("s/a"),
        some("/s/a"),
        some("/s/b"),
        some("/s/"),
        some("/S/a"),
    ];
    assert_eq!(image_links_among(&hrefs), vec!["/s/b", "/s/a", "/s/"]);
}

#[test]
fn pages_are_bounded() {
    assert!(is_page_short_enough(""));
    assert!(is_page_short_enough("<p>\u{e9}</p>"));
    let mut page = "x".repeat(MAX_PAGE_BYTES);
    assert!(is_page_short_enough(&page));
    page.push('x');
    assert!(!is_page_short_enough(&page));
}
