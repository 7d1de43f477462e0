use wallpaper_downloader::links::LinkList;
use wallpaper_downloader::text::{
    chars_of, contains_text, joined, rest_after_last, starts_with_text, trim_leading_char,
};

#[test]
fn searching() {
    assert!(contains_text("abcabd", "abd"));
    assert!(contains_text("abc", ""));
    assert!(contains_text("", ""));
    assert!(!contains_text("ab", "abc"));
    assert!(!contains_text("abcab", "abd"));
    assert!(starts_with_text("/s/x", "/s/"));
    assert!(!starts_with_text("/s", "/s/"));
}

#[test]
fn splitting() {
    assert_eq!(chars_of("a\u{e9}"), vec!['a', '\u{e9}']);
    assert_eq!(trim_leading_char("//a/", '/'), "a/");
    assert_eq!(trim_leading_char("//", '/'), "");
    assert_eq!(rest_after_last("a/b/\u{e9}", '/'), "\u{e9}");
    assert_eq!(joined("a", "b"), "ab");
}

#[test]
fn links_are_kept_once() {
    let mut list = LinkList::new();
    assert!(list.add_link("b".to_string()));
    assert!(list.add_link("a".to_string()));
    assert!(!list.add_link("b".to_string()));
    assert_eq!(list.len(), 2);
    assert_eq!(list.into_links(), vec!["b", "a"]);
}
