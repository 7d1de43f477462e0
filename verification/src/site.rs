//! The site: its addresses, and the links that its pages hold.

use vstd::prelude::*;
use vstd::utf8::encode_utf8;

use crate::links::{lemma_add_one, lemma_remove_duplicates, LinkList};
use crate::text::{
    after_last, joined, lemma_after_last, opt_text, opt_texts, rest_after_last, starts_with_text,
    texts,
};

verus! {

pub const BASE_URL: &'static str = "https://basicappleguy.com";

pub const CATEGORY_PATH: &'static str = "/basicappleblog/category/Wallpaper";

/// The titles on a category page, each of which links to an article.
pub const ARTICLE_SELECTOR: &'static str = ".blog-title a";

/// The link from a category page to the next one.
pub const NEXT_SELECTOR: &'static str = "a[rel=\"next\"]";

/// The links in the paragraphs of an article.
pub const IMAGE_SELECTOR: &'static str = "p a";

/// What the address of an image begins with.
pub const IMAGE_PREFIX: &'static str = "/s/";

/// How long a request may take.
pub const HTTP_TIMEOUT_SECS: u64 = 30;

/// The pause before a page or an image is requested.
pub const PRE_DOWNLOAD_DELAY_MS: u64 = 100;

/// The longest page, in bytes, that is taken apart.
pub const MAX_PAGE_BYTES: usize = 0x2000_0000;

/// The page is short enough to be taken apart.
pub open spec fn page_fits(html: Seq<char>) -> bool {
    encode_utf8(html).len() <= MAX_PAGE_BYTES
}

/// Tells whether the page is short enough to be taken apart.
pub fn is_page_short_enough(html: &str) -> (fits: bool)
    ensures
        fits == page_fits(html@),
{
    html.as_bytes().len() <= MAX_PAGE_BYTES
}

/// The `href` attribute of each element that `selector` picks from the document
/// `html`, in the order in which it picks them; `None` for an element that has
/// none.
pub uninterp spec fn selected_hrefs(html: Seq<char>, selector: Seq<char>) -> Seq<
    Option<Seq<char>>,
>;

/// A selector that the library uses.
pub open spec fn known_selector(selector: Seq<char>) -> bool {
    ||| selector == ARTICLE_SELECTOR@
    ||| selector == NEXT_SELECTOR@
    ||| selector == IMAGE_SELECTOR@
}

/// `scraper::Html::parse_document`, and on the document `scraper::Html::select`
/// with the parsed selector: the `href` attribute (`scraper::node::Element::attr`)
/// of each element picked.
///
/// The result is named, not stated: it is a function of the two texts.
///
/// The parser keeps texts in buffers whose length is a 32-bit number, and panics
/// where one overflows. A character of the page takes at most three bytes for
/// each of its own there, so a page that fits does not come near.
/// `scraper::Selector::parse` accepts the three selectors that are admitted.
#[verifier::external_body]
fn select_hrefs(html: &str, selector: &str) -> (hrefs: Vec<Option<String>>)
    requires
        known_selector(selector@),
        page_fits(html@),
    ensures
        opt_texts(hrefs@) == selected_hrefs(html@, selector@),
{
    let document = scraper::Html::parse_document(html);
    let selector = scraper::Selector::parse(selector).expect("valid selector");
    document.select(&selector).map(|el| el.value().attr("href").map(String::from)).collect()
}

/// The short name of an article: what follows the last `/` of its address.
pub fn article_name<'a>(url: &'a str) -> (name: &'a str)
    ensures
        name@ == after_last(url@, '/'),
{
    rest_after_last(url, '/')
}

/// The address of what `href` names on the site.
pub open spec fn site_url(href: Seq<char>) -> Seq<char> {
    BASE_URL@ + href
}

/// The address of what `href` names on the site.
pub fn url_of(href: &str) -> (url: String)
    ensures
        url@ == site_url(href@),
{
    joined(BASE_URL, href)
}

/// The name of an article holds no `/`, so it is one step of a path. It is the
/// whole address, or what stands behind its last `/`.
pub proof fn law_article_name_is_one_step(url: Seq<char>)
    ensures
        !after_last(url, '/').contains('/'),
        after_last(url, '/').is_suffix_of(url),
        after_last(url, '/').len() < url.len() ==> url[url.len() - after_last(url, '/').len() - 1]
            == '/',
        after_last(url, '/').len() == url.len() <==> !url.contains('/'),
{
    lemma_after_last(url, '/');
    let name = after_last(url, '/');
    if name.len() < url.len() {
        assert(url.contains(url[url.len() - name.len() - 1]));
    } else {
        assert(name =~= url);
    }
}

/// The address of the article that a title with this `href` links to.
pub open spec fn article_link(href: Option<Seq<char>>) -> Option<Seq<char>> {
    match href {
        Some(h) => Some(site_url(h)),
        None => None,
    }
}

/// The addresses of the articles that titles with these `href`s link to.
pub open spec fn article_links(hrefs: Seq<Option<Seq<char>>>) -> Seq<Seq<char>> {
    hrefs.filter_map(|h: Option<Seq<char>>| article_link(h))
}

/// The link to an image that this `href` is, if it is one.
pub open spec fn image_link(href: Option<Seq<char>>) -> Option<Seq<char>> {
    match href {
        Some(h) if IMAGE_PREFIX@.is_prefix_of(h) => Some(h),
        _ => None,
    }
}

/// The links to images among these `href`s.
pub open spec fn image_links(hrefs: Seq<Option<Seq<char>>>) -> Seq<Seq<char>> {
    hrefs.filter_map(|h: Option<Seq<char>>| image_link(h))
}

/// The `href`s of the article titles on a category page.
pub fn title_hrefs(html: &str) -> (hrefs: Vec<Option<String>>)
    requires
        page_fits(html@),
    ensures
        opt_texts(hrefs@) == selected_hrefs(html@, ARTICLE_SELECTOR@),
{
    select_hrefs(html, ARTICLE_SELECTOR)
}

/// The `href`s of the links from a category page to the next one.
pub fn next_hrefs(html: &str) -> (hrefs: Vec<Option<String>>)
    requires
        page_fits(html@),
    ensures
        opt_texts(hrefs@) == selected_hrefs(html@, NEXT_SELECTOR@),
{
    select_hrefs(html, NEXT_SELECTOR)
}

/// The links to images among these `href`s, each once, in the order in which
/// they first come.
pub fn image_links_among(hrefs: &Vec<Option<String>>) -> (links: Vec<String>)
    ensures
        texts(links@) == image_links(opt_texts(hrefs@)).remove_duplicates(Seq::empty()),
{
    let mut list = LinkList::new();
    let ghost model = opt_texts(hrefs@);
    let ghost f = |h: Option<Seq<char>>| image_link(h);
    let mut i: usize = 0;
    assert(model.take(0).filter_map(f).remove_duplicates(Seq::empty()) =~= Seq::empty());
    while i < hrefs.len()
        invariant
            i <= hrefs.len(),
            model == opt_texts(hrefs@),
            f == (|h: Option<Seq<char>>| image_link(h)),
            list.wf(),
            list@ == model.take(i as int).filter_map(f).remove_duplicates(Seq::empty()),
        decreases hrefs.len() - i,
    {
        let ghost before = model.take(i as int).filter_map(f);
        proof {
            model.lemma_filter_map_take_succ(f, i as int);
        }
        assert(model[i as int] == opt_text(hrefs@[i as int]));
        match &hrefs[i] {
            Some(href) => {
                if starts_with_text(href.as_str(), IMAGE_PREFIX) {
                    proof {
                        lemma_add_one(before, href@, Seq::empty());
                    }
                    let _ = list.add_link(href.clone());
                }
            },
            None => {},
        }
        i = i + 1;
    }
    assert(model.take(i as int) =~= model);
    list.into_links()
}

/// The links to the images of an article, each once, in the order in which they
/// first come.
pub fn image_links_of(html: &str) -> (links: Vec<String>)
    requires
        page_fits(html@),
    ensures
        texts(links@) == image_links(
            selected_hrefs(html@, IMAGE_SELECTOR@),
        ).remove_duplicates(Seq::empty()),
{
    let hrefs = select_hrefs(html, IMAGE_SELECTOR);
    image_links_among(&hrefs)
}

/// The images of an article are links to images that the page holds, all of
/// them, and none of them twice.
pub proof fn law_image_links(hrefs: Seq<Option<Seq<char>>>)
    ensures
        image_links(hrefs).remove_duplicates(Seq::empty()).no_duplicates(),
        forall|link: Seq<char>|
            image_links(hrefs).remove_duplicates(Seq::empty()).contains(link) <==> hrefs.contains(
                Some(link),
            ) && IMAGE_PREFIX@.is_prefix_of(link),
{
    let f = |h: Option<Seq<char>>| image_link(h);
    let links = image_links(hrefs);
    lemma_remove_duplicates(links, Seq::empty());
    assert forall|link: Seq<char>| links.remove_duplicates(Seq::empty()).contains(link)
        <==> hrefs.contains(Some(link)) && IMAGE_PREFIX@.is_prefix_of(link) by {
        if links.contains(link) {
            hrefs.lemma_filter_map_contains(f, link);
        }
        if hrefs.contains(Some(link)) && IMAGE_PREFIX@.is_prefix_of(link) {
            crate::links::lemma_filter_map_keeps(hrefs, f, Some(link));
        }
    }
}

} // verus!
