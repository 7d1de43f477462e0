//! Which addresses and links the pages of the site give.

use vstd::prelude::*;
use vstd::utf8::encode_utf8;

use crate::links::{lemma_add_one, LinkList};
use crate::site::{
    article_name, image_link, image_links, image_links_among, image_links_of,
    is_page_short_enough, next_hrefs, selected_hrefs, title_hrefs, url_of, MAX_PAGE_BYTES,
};
use crate::text::{lemma_after_last, opt_texts, texts};

verus! {

/// One of the first `n` items gives `x`.
pub open spec fn given_within<A>(
    items: Seq<A>,
    gives: spec_fn(A) -> Option<Seq<char>>,
    n: int,
    x: Seq<char>,
) -> bool {
    exists|i: int| 0 <= i < n && gives(#[trigger] items[i]) == Some(x)
}

/// Wherever an item gives `y`, one before it gives `x`.
pub open spec fn comes_before<A>(
    items: Seq<A>,
    gives: spec_fn(A) -> Option<Seq<char>>,
    x: Seq<char>,
    y: Seq<char>,
) -> bool {
    forall|j: int|
        0 <= j < items.len() && gives(#[trigger] items[j]) == Some(y) ==> given_within(
            items,
            gives,
            j,
            x,
        )
}

/// `list` is `known` with the addresses behind it that the items give and that
/// are not known, each once, in the order in which they first come.
pub open spec fn lists_news<A>(
    known: Seq<Seq<char>>,
    items: Seq<A>,
    gives: spec_fn(A) -> Option<Seq<char>>,
    list: Seq<Seq<char>>,
) -> bool {
    &&& known.len() <= list.len()
    &&& forall|a: int| 0 <= a < known.len() ==> #[trigger] list[a] == known[a]
    &&& forall|a: int, b: int|
        0 <= a < b < list.len() && known.len() <= b ==> #[trigger] list[a] != #[trigger] list[b]
    &&& forall|x: Seq<char>| #[trigger]
        list.contains(x) <==> known.contains(x) || given_within(
            items,
            gives,
            items.len() as int,
            x,
        )
    &&& forall|a: int, b: int|
        known.len() <= a < b < list.len() ==> comes_before(
            items,
            gives,
            #[trigger] list[a],
            #[trigger] list[b],
        )
}

/// One item more that gives nothing leaves the list as it is.
proof fn lemma_nothing_given<A>(
    known: Seq<Seq<char>>,
    items: Seq<A>,
    gives: spec_fn(A) -> Option<Seq<char>>,
    list: Seq<Seq<char>>,
)
    requires
        items.len() > 0,
        gives(items.last()) is None,
        lists_news(known, items.drop_last(), gives, list),
    ensures
        lists_news(known, items, gives, list),
{
    lemma_given_so_far(items, gives);
    let short = items.drop_last();
    assert forall|x: Seq<char>| #[trigger] list.contains(x) <==> known.contains(x) || given_within(
        items,
        gives,
        items.len() as int,
        x,
    ) by {
        assert(given_within(short, gives, short.len() as int, x) <==> given_within(
            items,
            gives,
            short.len() as int,
            x,
        ));
        if given_within(items, gives, items.len() as int, x) {
            let i = choose|i: int|
                0 <= i < items.len() && gives(#[trigger] items[i]) == Some(x);
            assert(i < short.len());
        }
    }
    assert forall|a: int, b: int| known.len() <= a < b < list.len() implies comes_before(
        items,
        gives,
        #[trigger] list[a],
        #[trigger] list[b],
    ) by {
        assert(comes_before(short, gives, list[a], list[b]));
        assert forall|j: int|
            0 <= j < items.len() && gives(#[trigger] items[j]) == Some(
                list[b],
            ) implies given_within(items, gives, j, list[a]) by {
            assert(short[j] == items[j]);
            assert(given_within(short, gives, j, list[a]));
        }
    }
}

/// Up to an item, it does not matter what comes last.
proof fn lemma_given_so_far<A>(items: Seq<A>, gives: spec_fn(A) -> Option<Seq<char>>)
    requires
        items.len() > 0,
    ensures
        forall|n: int, x: Seq<char>|
            0 <= n < items.len() ==> (#[trigger] given_within(items.drop_last(), gives, n, x)
                <==> given_within(items, gives, n, x)),
{
    let short = items.drop_last();
    assert forall|n: int, x: Seq<char>| 0 <= n < items.len() implies (#[trigger] given_within(
        short,
        gives,
        n,
        x,
    ) <==> given_within(items, gives, n, x)) by {
        if given_within(short, gives, n, x) {
            let i = choose|i: int| 0 <= i < n && gives(#[trigger] short[i]) == Some(x);
            assert(items[i] == short[i]);
        }
        if given_within(items, gives, n, x) {
            let i = choose|i: int| 0 <= i < n && gives(#[trigger] items[i]) == Some(x);
            assert(items[i] == short[i]);
        }
    }
}

/// One item more that gives something known or listed leaves the list as it is;
/// one that gives something new puts it at the end.
proof fn lemma_one_given<A>(
    known: Seq<Seq<char>>,
    items: Seq<A>,
    gives: spec_fn(A) -> Option<Seq<char>>,
    kept: Seq<Seq<char>>,
    x: Seq<char>,
    list: Seq<Seq<char>>,
)
    requires
        items.len() > 0,
        gives(items.last()) == Some(x),
        lists_news(known, items.drop_last(), gives, kept),
        kept.contains(x) ==> list == kept,
        !kept.contains(x) ==> list == kept.push(x),
    ensures
        lists_news(known, items, gives, list),
{
    lemma_given_so_far(items, gives);
    let short = items.drop_last();
    let n = short.len() as int;
    assert(items[n] == items.last());
    assert(given_within(items, gives, n + 1, x));
    assert forall|y: Seq<char>| #[trigger] list.contains(y) <==> known.contains(y) || given_within(
        items,
        gives,
        n + 1,
        y,
    ) by {
        assert(given_within(short, gives, n, y) <==> given_within(items, gives, n, y));
        if given_within(items, gives, n, y) {
            let i = choose|i: int| 0 <= i < n && gives(#[trigger] items[i]) == Some(y);
            assert(given_within(items, gives, n + 1, y));
        }
        if given_within(items, gives, n + 1, y) {
            let i = choose|i: int| 0 <= i < n + 1 && gives(#[trigger] items[i]) == Some(y);
            if i < n {
                assert(given_within(items, gives, n, y));
            }
        }
        if kept.contains(y) {
            let k = choose|k: int| 0 <= k < kept.len() && kept[k] == y;
            assert(list[k] == y);
        }
        if list.contains(y) {
            let k = choose|k: int| 0 <= k < list.len() && list[k] == y;
            if k < kept.len() {
                assert(kept[k] == y);
            }
        }
        if y == x && !kept.contains(x) {
            assert(list[kept.len() as int] == x);
        }
    }
    assert forall|a: int, b: int|
        0 <= a < b < list.len() && known.len() <= b implies #[trigger] list[a]
        != #[trigger] list[b] by {
        assert(list[a] == kept[a]);
        assert(kept.contains(kept[a]));
        if b < kept.len() {
            assert(list[b] == kept[b]);
        }
    }
    assert forall|a: int, b: int| known.len() <= a < b < list.len() implies comes_before(
        items,
        gives,
        #[trigger] list[a],
        #[trigger] list[b],
    ) by {
        let p = list[a];
        let q = list[b];
        assert(p == kept[a]);
        assert(kept.contains(p));
        assert(!known.contains(p)) by {
            if known.contains(p) {
                let k = choose|k: int| 0 <= k < known.len() && known[k] == p;
                assert(kept[k] == kept[a]);
            }
        }
        assert(given_within(short, gives, n, p));
        assert forall|j: int|
            0 <= j < items.len() && gives(#[trigger] items[j]) == Some(q) implies given_within(
            items,
            gives,
            j,
            p,
        ) by {
            if b < kept.len() {
                assert(q == kept[b]);
                assert(comes_before(short, gives, p, q));
                if j < n {
                    assert(short[j] == items[j]);
                    assert(given_within(short, gives, j, p));
                }
            } else if j < n {
                assert(short[j] == items[j]);
                assert(given_within(short, gives, n, q));
                assert(kept.contains(q));
            }
        }
    }
    assert forall|a: int| 0 <= a < known.len() implies #[trigger] list[a] == known[a] by {
        assert(kept[a] == known[a]);
    }
}

/// Keeping each address once lists the news.
pub proof fn lemma_lists_news<A>(
    known: Seq<Seq<char>>,
    items: Seq<A>,
    gives: spec_fn(A) -> Option<Seq<char>>,
)
    ensures
        lists_news(known, items, gives, items.filter_map(gives).remove_duplicates(known)),
    decreases items.len(),
{
    let list = items.filter_map(gives).remove_duplicates(known);
    if items.len() == 0 {
        assert(items.filter_map(gives) =~= Seq::empty());
        assert(list == known);
    } else {
        let short = items.drop_last();
        let kept = short.filter_map(gives).remove_duplicates(known);
        lemma_lists_news(known, short, gives);
        match gives(items.last()) {
            Some(x) => {
                lemma_add_one(short.filter_map(gives), x, known);
                lemma_one_given(known, items, gives, kept, x, list);
            },
            None => {
                lemma_nothing_given(known, items, gives, list);
            },
        }
    }
}

/// The name of an article is what follows the last `/` of its address.
pub proof fn law_article_name(url: &str, name: &str)
    requires
        call_ensures(article_name, (url,), name),
    ensures
        name@.len() <= url@.len(),
        url@.skip(url@.len() - name@.len()) == name@,
        forall|i: int| 0 <= i < name@.len() ==> #[trigger] name@[i] != '/',
        name@.len() < url@.len() ==> url@[url@.len() - name@.len() - 1] == '/',
{
    lemma_after_last(url@, '/');
    assert(url@.skip(url@.len() - name@.len()) =~= name@);
    assert forall|i: int| 0 <= i < name@.len() implies #[trigger] name@[i] != '/' by {
        assert(name@.contains(name@[i]));
    }
}

/// An address on the site is the site with the link behind it.
pub proof fn law_url_of(href: &str, url: String)
    requires
        call_ensures(url_of, (href,), url),
    ensures
        url@ == "https://basicappleguy.com"@ + href@,
{
}

/// A page is short enough exactly up to the longest one that is taken apart.
pub proof fn law_page_length(html: &str, fits: bool)
    requires
        call_ensures(is_page_short_enough, (html,), fits),
    ensures
        fits <==> encode_utf8(html@).len() <= MAX_PAGE_BYTES,
{
}

/// `hrefs` are what `selector` picks from the page, in order.
pub open spec fn picked(
    html: Seq<char>,
    selector: Seq<char>,
    hrefs: Seq<Option<String>>,
) -> bool {
    &&& hrefs.len() == selected_hrefs(html, selector).len()
    &&& forall|i: int|
        0 <= i < hrefs.len() ==> match #[trigger] hrefs[i] {
            Some(href) => selected_hrefs(html, selector)[i] == Some(href@),
            None => selected_hrefs(html, selector)[i] is None,
        }
}

proof fn lemma_picked(html: Seq<char>, selector: Seq<char>, hrefs: Seq<Option<String>>)
    requires
        opt_texts(hrefs) == selected_hrefs(html, selector),
    ensures
        picked(html, selector, hrefs),
{
    assert forall|i: int| 0 <= i < hrefs.len() implies match #[trigger] hrefs[i] {
        Some(href) => selected_hrefs(html, selector)[i] == Some(href@),
        None => selected_hrefs(html, selector)[i] is None,
    } by {
        assert(opt_texts(hrefs)[i] == selected_hrefs(html, selector)[i]);
    }
}

/// The titles of a category page are the links in its `blog-title` elements.
pub proof fn law_title_hrefs(html: &str, hrefs: Vec<Option<String>>)
    requires
        call_ensures(title_hrefs, (html,), hrefs),
    ensures
        picked(html@, ".blog-title a"@, hrefs@),
{
    lemma_picked(html@, ".blog-title a"@, hrefs@);
}

/// The next page of a category page is behind its links with the relation `next`.
pub proof fn law_next_hrefs(html: &str, hrefs: Vec<Option<String>>)
    requires
        call_ensures(next_hrefs, (html,), hrefs),
    ensures
        picked(html@, "a[rel=\"next\"]"@, hrefs@),
{
    lemma_picked(html@, "a[rel=\"next\"]"@, hrefs@);
}

/// A link that begins with `/s/` is one to an image.
pub open spec fn gives_image(href: Option<Seq<char>>) -> Option<Seq<char>> {
    match href {
        Some(h) => if h.len() >= 3 && h[0] == '/' && h[1] == 's' && h[2] == '/' {
            Some(h)
        } else {
            None
        },
        None => None,
    }
}

/// `links` are the links to images among the `href`s, each once, in the order in
/// which they first come.
pub open spec fn lists_images(hrefs: Seq<Option<Seq<char>>>, links: Seq<Seq<char>>) -> bool {
    lists_news(Seq::empty(), hrefs, |href: Option<Seq<char>>| gives_image(href), links)
}

/// The images among some links are those that are listed as such.
pub proof fn lemma_lists_images(hrefs: Seq<Option<Seq<char>>>)
    ensures
        lists_images(hrefs, image_links(hrefs).remove_duplicates(Seq::empty())),
{
    let f = |href: Option<Seq<char>>| gives_image(href);
    let g = |h: Option<Seq<char>>| image_link(h);
    reveal_strlit("/s/");
    assert forall|h: Option<Seq<char>>| #[trigger] f(h) == g(h) by {
        if h is Some {
            let t = h->0;
            if t.len() >= 3 {
                let start = t.subrange(0, 3);
                assert(start[0] == t[0] && start[1] == t[1] && start[2] == t[2]);
                if gives_image(h) is Some {
                    assert(start =~= "/s/"@);
                }
            }
        }
    }
    assert(f =~= g);
    lemma_lists_news(Seq::empty(), hrefs, f);
}

/// The links to images are those links that begin with `/s/`, each once, in the
/// order in which they first come.
pub proof fn law_image_links_among(hrefs: Vec<Option<String>>, links: Vec<String>)
    requires
        call_ensures(image_links_among, (&hrefs,), links),
    ensures
        lists_images(opt_texts(hrefs@), texts(links@)),
{
    lemma_lists_images(opt_texts(hrefs@));
}

/// The images of an article are the links in its paragraphs that begin with `/s/`,
/// each once, in the order in which they first come.
pub proof fn law_image_links_of(html: &str, links: Vec<String>)
    requires
        call_ensures(image_links_of, (html,), links),
    ensures
        lists_images(selected_hrefs(html@, "p a"@), texts(links@)),
{
    lemma_lists_images(selected_hrefs(html@, "p a"@));
}

/// A list of links takes in what it does not hold, at its end, and says so.
pub proof fn law_add_link(list: &mut LinkList, link: String, added: bool)
    requires
        call_ensures(LinkList::add_link, (list, link), added),
    ensures
        added <==> forall|i: int| 0 <= i < old(list)@.len() ==> #[trigger] old(list)@[i] != link@,
        forall|i: int|
            0 <= i < old(list)@.len() ==> final(list)@.len() > i && #[trigger] final(list)@[i]
                == old(list)@[i],
        added ==> final(list)@.len() == old(list)@.len() + 1 && final(list)@.last() == link@,
        !added ==> final(list)@.len() == old(list)@.len(),
{
}

} // verus!
