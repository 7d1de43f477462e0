use wallpaper_downloader::device::{categorize_filename, folder_of_lowercase};

#[test]
fn categorize_priority() {
    let cases = [
        ("iphone-ipad-mac-wallpaper.png", "iPhone"),
        ("ipad-mac-wallpaper.png", "iPad"),
        ("mac-wallpaper.png", "Mac"),
        ("wallpaper.png", "Others"),
    ];
    for (input, expected) in cases {
        assert_eq!(
            categorize_filename(input),
            expected,
            "categorize_filename({input:?}) should be {expected:?}"
        );
    }
}

#[test]
fn categorize_ignores_case() {
    assert_eq!(categorize_filename("BAG-iPhoneWallpaper.jpg"), "iPhone");
    assert_eq!(categorize_filename("BAG-iPadWallpaper.jpg"), "iPad");
    assert_eq!(categorize_filename("BAG-MacDesktop.jpg"), "Mac");
    assert_eq!(categorize_filename("IPHONE.PNG"), "iPhone");
    assert_eq!(categorize_filename("MACBOOK.PNG"), "Mac");
}

#[test]
fn categorize_odd_names() {
    assert_eq!(categorize_filename(""), "Others");
    assert_eq!(categorize_filename("ma-c"), "Others");
    assert_eq!(categorize_filename("\u{130}PHONE"), "Others");
    assert_eq!(categorize_filename("\u{c9}t\u{e9}-IPAD"), "iPad");
}

#[test]
fn folder_of_lowercase_takes_the_text_as_it_is() {
    assert_eq!(folder_of_lowercase("an iphone"), "iPhone");
    assert_eq!(folder_of_lowercase("an iPhone"), "Others");
}

#[test]
fn categorize_ignores_case_beyond_ascii_names() {
    for name in ["\u{c9}T\u{c9}-iPhone.png", "\u{3a3}\u{3a3} Mac", "\u{212a}ipad", "\u{fc}ber"] {
        let folder = categorize_filename(name);
        assert_eq!(categorize_filename(&name.to_ascii_uppercase()), folder);
        assert_eq!(categorize_filename(&name.to_ascii_lowercase()), folder);
    }
}

#[test]
fn added_text_keeps_the_priority() {
    assert_eq!(categorize_filename("my-mac-and-ipad"), "iPad");
    assert_eq!(categorize_filename("ipad-then-mac"), "iPad");
    assert_eq!(categorize_filename("xxiPadxx-macxx"), "iPad");
    assert_eq!(categorize_filename("mac-iphone"), "iPhone");
}

#[test]
fn joined_names_keep_the_priority() {
    let names = ["", "mac", "IPAD-\u{3a3}", "\u{3a3}iPhone", "\u{130}pad", "m\u{c9}", "ac", "\u{3a3}"];
    let rank = |name: &str| match categorize_filename(name) {
        "iPhone" => 3,
        "iPad" => 2,
        "Mac" => 1,
        _ => 0,
    };
    for a in names {
        for b in names {
            let joined = format!("{a}{b}");
            assert!(rank(&joined) >= rank(a) && rank(&joined) >= rank(b), "{joined}");
        }
    }
    assert_eq!(categorize_filename("m\u{3a3}-IPAD\u{3a3}MAC"), "iPad");
}
