//! Which articles are found, and which pages are read for them.

use vstd::prelude::*;

use crate::discovery::{
    after_fetch, after_page, discovered, discovery_start, fetch_page, Discovery, DiscoveryModel,
    DiscoveryStep, FetchFailure, FetchStage, PageModel, PageOutcome,
};
use crate::laws::site::{given_within, lemma_lists_news, lists_news};
use crate::site::{article_link, article_links, selected_hrefs};
use crate::text::{opt_text, opt_texts, texts};

verus! {

/// The address of what `href` names on the site.
pub open spec fn on_site(href: Seq<char>) -> Seq<char> {
    "https://basicappleguy.com"@ + href
}

/// A title with an `href` gives an article on the site.
pub open spec fn gives_article(href: Option<Seq<char>>) -> Option<Seq<char>> {
    match href {
        Some(h) => Some(on_site(h)),
        None => None,
    }
}

/// One of the titles links to `url`.
pub open spec fn title_links_to(titles: Seq<Option<Seq<char>>>, url: Seq<char>) -> bool {
    exists|i: int|
        0 <= i < titles.len() && (#[trigger] titles[i] matches Some(h) && url == on_site(h))
}

/// One of the titles links to an article that is not known.
pub open spec fn brings_news(known: Seq<Seq<char>>, titles: Seq<Option<Seq<char>>>) -> bool {
    exists|url: Seq<char>| #[trigger] title_links_to(titles, url) && !known.contains(url)
}

/// What discovery comes to with a page of these titles and these links to a next
/// page. The articles that are not known come behind those that are, each once,
/// in the order of the page. The first link to a next page leads on, however much
/// was found before, exactly where something new was found.
pub open spec fn takes_in(
    before: DiscoveryModel,
    titles: Seq<Option<Seq<char>>>,
    nexts: Seq<Option<Seq<char>>>,
    after: DiscoveryModel,
) -> bool {
    &&& lists_news(
        before.urls,
        titles,
        |href: Option<Seq<char>>| gives_article(href),
        after.urls,
    )
    &&& forall|url: Seq<char>| #[trigger]
        after.urls.contains(url) <==> before.urls.contains(url) || title_links_to(titles, url)
    &&& brings_news(before.urls, titles) && nexts.len() > 0 && nexts[0] is Some ==> after.next
        == Some(on_site(nexts[0]->0))
    &&& !brings_news(before.urls, titles) || nexts.len() == 0 || nexts[0] is None ==> after.next
        is None
}

/// Every page is taken in so, whatever was found before.
pub proof fn law_page_is_taken_in(
    before: DiscoveryModel,
    titles: Seq<Option<Seq<char>>>,
    nexts: Seq<Option<Seq<char>>>,
)
    ensures
        takes_in(before, titles, nexts, after_page(before, titles, nexts)),
{
    let after = after_page(before, titles, nexts);
    let f = |href: Option<Seq<char>>| gives_article(href);
    let g = |h: Option<Seq<char>>| article_link(h);
    assert forall|h: Option<Seq<char>>| #[trigger] f(h) == g(h) by {}
    assert(f =~= g);
    lemma_lists_news(before.urls, titles, f);
    assert(after.urls == article_links(titles).remove_duplicates(before.urls));
    let n = titles.len() as int;
    assert forall|url: Seq<char>| #[trigger] after.urls.contains(url) <==> before.urls.contains(url)
        || title_links_to(titles, url) by {
        if given_within(titles, f, n, url) {
            let i = choose|i: int| 0 <= i < n && f(#[trigger] titles[i]) == Some(url);
            assert(titles[i] is Some);
            assert(title_links_to(titles, url));
        }
        if title_links_to(titles, url) {
            let i = choose|i: int|
                0 <= i < n && (#[trigger] titles[i] matches Some(h) && url == on_site(h));
            assert(f(titles[i]) == Some(url));
        }
    }
    if brings_news(before.urls, titles) {
        let url = choose|url: Seq<char>| #[trigger]
            title_links_to(titles, url) && !before.urls.contains(url);
        assert(after.urls.contains(url));
        let k = choose|k: int| 0 <= k < after.urls.len() && after.urls[k] == url;
        if k < before.urls.len() {
            assert(after.urls[k] == before.urls[k]);
        }
        assert(after.urls.len() > before.urls.len());
    } else if after.urls.len() > before.urls.len() {
        let k = before.urls.len() as int;
        let url = after.urls[k];
        assert(after.urls.contains(url));
        if before.urls.contains(url) {
            let m = choose|m: int| 0 <= m < before.urls.len() && before.urls[m] == url;
            assert(after.urls[m] == after.urls[k]);
        }
        assert(title_links_to(titles, url));
    }
}

/// Discovery begins with nothing found, and with the category listing to read.
pub proof fn law_discovery_begins(discovery: Discovery)
    requires
        call_ensures(Discovery::new, (), discovery),
    ensures
        discovery@.urls.len() == 0,
        discovery@.next == Some(on_site("/basicappleblog/category/Wallpaper"@)),
{
}

/// The page to read is handed out once, and what was found stays.
pub proof fn law_take_page(discovery: &mut Discovery, page_url: Option<String>)
    requires
        call_ensures(Discovery::take_page, (discovery,), page_url),
    ensures
        page_url matches Some(url) ==> old(discovery)@.next == Some(url@),
        page_url is None ==> old(discovery)@.next is None,
        final(discovery)@.next is None,
        final(discovery)@.urls == old(discovery)@.urls,
{
}

/// The number of articles found is told.
pub proof fn law_found(discovery: Discovery, n: usize)
    requires
        call_ensures(Discovery::found, (&discovery,), n),
    ensures
        n == discovery@.urls.len(),
{
}

/// All articles found are handed out, in the order in which they were found.
pub proof fn law_into_urls(discovery: Discovery, urls: Vec<String>)
    requires
        call_ensures(Discovery::into_urls, (discovery,), urls),
    ensures
        urls@.len() == discovery@.urls.len(),
        forall|i: int| 0 <= i < urls@.len() ==> (#[trigger] urls@[i])@ == discovery@.urls[i],
{
    assert forall|i: int| 0 <= i < urls@.len() implies (#[trigger] urls@[i])@
        == discovery@.urls[i] by {
        assert(texts(urls@)[i] == urls@[i]@);
    }
}

/// A page is taken in by its titles and its links to a next page. There is more to
/// read exactly where the page brings something new and its first link to a next
/// page has an `href`.
pub proof fn law_add_page(
    discovery: &mut Discovery,
    titles: Vec<Option<String>>,
    nexts: Vec<Option<String>>,
    more: bool,
)
    requires
        call_ensures(Discovery::add_page, (discovery, &titles, &nexts), more),
    ensures
        takes_in(old(discovery)@, opt_texts(titles@), opt_texts(nexts@), final(discovery)@),
        more <==> brings_news(old(discovery)@.urls, opt_texts(titles@)) && nexts@.len() > 0
            && nexts@[0] is Some,
        more ==> final(discovery)@.next == Some(on_site(nexts@[0]->0@)),
        !more ==> final(discovery)@.next is None,
{
    law_page_is_taken_in(old(discovery)@, opt_texts(titles@), opt_texts(nexts@));
    if nexts@.len() > 0 {
        assert(opt_texts(nexts@)[0] == opt_text(nexts@[0]));
    }
}

/// The titles of a page are what `.blog-title a` picks from it, and its links to a
/// next page what `a[rel="next"]` picks.
pub proof fn law_read_page(discovery: &mut Discovery, html: &str, more: bool)
    requires
        call_ensures(Discovery::read_page, (discovery, html), more),
    ensures
        takes_in(
            old(discovery)@,
            selected_hrefs(html@, ".blog-title a"@),
            selected_hrefs(html@, "a[rel=\"next\"]"@),
            final(discovery)@,
        ),
        more <==> final(discovery)@.next is Some,
{
    law_page_is_taken_in(
        old(discovery)@,
        selected_hrefs(html@, ".blog-title a"@),
        selected_hrefs(html@, "a[rel=\"next\"]"@),
    );
}

/// What is told of a lost page when articles were found before.
pub open spec fn warns_of(
    warning: Seq<char>,
    page_url: Seq<char>,
    stage: FetchStage,
    cause: Seq<char>,
) -> bool {
    &&& stage is Request ==> warning == "Warning: pagination failed at "@ + page_url + ": "@ + cause
        + ", continuing with articles found so far"@
    &&& stage is Body ==> warning == "Warning: failed to read page body at "@ + page_url + ": "@
        + cause + ", continuing with articles found so far"@
}

/// What is told of a lost page when no article was found before.
pub open spec fn blames(context: Seq<char>, stage: FetchStage) -> bool {
    &&& stage is Request ==> context == "failed to fetch category page"@
    &&& stage is Body ==> context == "failed to read category page body"@
}

/// A page that came is a page; a lost one is passed over exactly where articles
/// were found before.
pub proof fn law_fetch_page<E>(
    page_url: &str,
    have_articles: bool,
    fetched: Result<String, FetchFailure<E>>,
    outcome: PageOutcome<E>,
)
    requires
        call_ensures(fetch_page::<E>, (page_url, have_articles, fetched), outcome),
    ensures
        fetched matches Ok(html) ==> outcome == PageOutcome::<E>::Page(html),
        fetched matches Err(failure) ==> have_articles ==> (outcome matches PageOutcome::Skip {
            warning,
        } && warns_of(warning@, page_url@, failure.stage, failure.text@)),
        fetched matches Err(failure) ==> !have_articles ==> (outcome matches PageOutcome::Fail {
            context,
            cause,
        } && blames(context@, failure.stage) && cause == failure.cause),
{
}

/// A page that came is read, and discovery goes on exactly where it leads on. A
/// lost page ends discovery: with what was found, or with an error where nothing
/// was.
pub proof fn law_page_fetched<E>(
    discovery: &mut Discovery,
    page_url: &str,
    fetched: Result<String, FetchFailure<E>>,
    step: DiscoveryStep<E>,
)
    requires
        call_ensures(Discovery::page_fetched::<E>, (discovery, page_url, fetched), step),
    ensures
        fetched matches Ok(html) ==> takes_in(
            old(discovery)@,
            selected_hrefs(html@, ".blog-title a"@),
            selected_hrefs(html@, "a[rel=\"next\"]"@),
            final(discovery)@,
        ),
        fetched is Ok ==> (step is Continue <==> final(discovery)@.next is Some),
        fetched is Ok ==> (step is Done <==> final(discovery)@.next is None),
        fetched is Err ==> final(discovery)@.urls == old(discovery)@.urls,
        fetched is Err ==> final(discovery)@.next is None,
        fetched matches Err(failure) ==> old(discovery)@.urls.len() > 0 ==> (
        step matches DiscoveryStep::Stop { warning } && warns_of(
            warning@,
            page_url@,
            failure.stage,
            failure.text@,
        )),
        fetched matches Err(failure) ==> old(discovery)@.urls.len() == 0 ==> (
        step matches DiscoveryStep::Fail { context, cause } && blames(context@, failure.stage)
            && cause == failure.cause),
{
    if fetched is Ok {
        law_page_is_taken_in(
            old(discovery)@,
            selected_hrefs(fetched->Ok_0@, ".blog-title a"@),
            selected_hrefs(fetched->Ok_0@, "a[rel=\"next\"]"@),
        );
    }
}

/// Page `k` came, has a link to a next page, and links to an article that is not
/// known and that no page before it links to.
pub open spec fn leads_on(known: Seq<Seq<char>>, pages: Seq<PageModel>, k: int) -> bool {
    &&& pages[k] is Links
    &&& pages[k]->nexts.len() > 0
    &&& pages[k]->nexts[0] is Some
    &&& exists|url: Seq<char>| #[trigger]
        title_links_to(pages[k]->titles, url) && !known.contains(url) && forall|j: int|
            0 <= j < k ==> !title_links_to((#[trigger] pages[j])->titles, url)
}

/// No page is left unread that can be reached: while each page leads on, the link
/// of each is followed, however many there are, and every article that one of
/// them links to is found.
pub proof fn law_every_page_is_reached(before: DiscoveryModel, pages: Seq<PageModel>)
    requires
        before.next is Some,
        forall|k: int| 0 <= k < pages.len() ==> leads_on(before.urls, pages, k),
    ensures
        pages.len() == 0 ==> discovered(before, pages).next == before.next,
        pages.len() > 0 ==> discovered(before, pages).next == Some(
            on_site(pages.last()->nexts[0]->0),
        ),
        forall|url: Seq<char>| #[trigger]
            discovered(before, pages).urls.contains(url) <==> before.urls.contains(url) || exists|
                k: int,
            |
                0 <= k < pages.len() && title_links_to((#[trigger] pages[k])->titles, url),
    decreases pages.len(),
{
    if pages.len() > 0 {
        let titles = pages[0]->titles;
        let nexts = pages[0]->nexts;
        let after = after_fetch(before, pages[0]);
        let rest = pages.drop_first();
        assert(leads_on(before.urls, pages, 0));
        law_page_is_taken_in(before, titles, nexts);
        assert(brings_news(before.urls, titles));
        assert forall|k: int| 0 <= k < rest.len() implies leads_on(after.urls, rest, k) by {
            assert(leads_on(before.urls, pages, k + 1));
            let url = choose|url: Seq<char>| #[trigger]
                title_links_to(pages[k + 1]->titles, url) && !before.urls.contains(url) && forall|
                    j: int,
                |
                    0 <= j < k + 1 ==> !title_links_to((#[trigger] pages[j])->titles, url);
            assert(!title_links_to(pages[0]->titles, url));
            assert(title_links_to(rest[k]->titles, url));
            assert forall|j: int| 0 <= j < k implies !title_links_to(
                (#[trigger] rest[j])->titles,
                url,
            ) by {
                assert(rest[j] == pages[j + 1]);
            }
        }
        law_every_page_is_reached(after, rest);
        assert(discovered(before, pages) == discovered(after, rest));
        if rest.len() > 0 {
            assert(rest.last() == pages.last());
        }
        let all = discovered(before, pages).urls;
        assert forall|url: Seq<char>| #[trigger] all.contains(url) <==> before.urls.contains(url)
            || exists|k: int|
            0 <= k < pages.len() && title_links_to((#[trigger] pages[k])->titles, url) by {
            assert(after.urls.contains(url) <==> before.urls.contains(url) || title_links_to(
                titles,
                url,
            ));
            if exists|k: int|
                0 <= k < rest.len() && title_links_to((#[trigger] rest[k])->titles, url) {
                let k = choose|k: int|
                    0 <= k < rest.len() && title_links_to((#[trigger] rest[k])->titles, url);
                assert(title_links_to(pages[k + 1]->titles, url));
            }
            if exists|k: int|
                0 <= k < pages.len() && title_links_to((#[trigger] pages[k])->titles, url) {
                let k = choose|k: int|
                    0 <= k < pages.len() && title_links_to((#[trigger] pages[k])->titles, url);
                if k > 0 {
                    assert(rest[k - 1] == pages[k]);
                }
            }
        }
    }
}

/// Discovery from the category listing asks for page after page in this way: when
/// the first pages lead on, the next one is asked for.
pub proof fn law_next_page_is_asked_for(pages: Seq<PageModel>, k: int)
    requires
        0 < k <= pages.len(),
        forall|j: int| 0 <= j < k ==> leads_on(Seq::empty(), pages, j),
    ensures
        discovered(discovery_start(), pages.take(k)).next == Some(
            on_site(pages[k - 1]->nexts[0]->0),
        ),
{
    let first = pages.take(k);
    assert forall|j: int| 0 <= j < first.len() implies leads_on(
        discovery_start().urls,
        first,
        j,
    ) by {
        assert(leads_on(Seq::empty(), pages, j));
        let url = choose|url: Seq<char>| #[trigger]
            title_links_to(pages[j]->titles, url) && !Seq::<Seq<char>>::empty().contains(url)
                && forall|i: int|
                0 <= i < j ==> !title_links_to((#[trigger] pages[i])->titles, url);
        assert(title_links_to(first[j]->titles, url));
        assert forall|i: int| 0 <= i < j implies !title_links_to(
            (#[trigger] first[i])->titles,
            url,
        ) by {
            assert(first[i] == pages[i]);
        }
    }
    law_every_page_is_reached(discovery_start(), first);
    assert(first.last() == pages[k - 1]);
}

/// A page that brings nothing new, or has no link to a next page, is the last one
/// that is read.
pub proof fn law_last_page_ends_discovery(before: DiscoveryModel, pages: Seq<PageModel>)
    requires
        pages.len() > 0,
        before.next is Some,
        pages[0] is Links,
        !brings_news(before.urls, pages[0]->titles) || pages[0]->nexts.len() == 0
            || pages[0]->nexts[0] is None,
    ensures
        discovered(before, pages).next is None,
        forall|url: Seq<char>| #[trigger]
            discovered(before, pages).urls.contains(url) <==> before.urls.contains(url)
                || title_links_to(pages[0]->titles, url),
{
    let after = after_fetch(before, pages[0]);
    law_page_is_taken_in(before, pages[0]->titles, pages[0]->nexts);
    assert(discovered(after, pages.drop_first()) == after);
}

} // verus!
