//! Discovering the articles, by paging through the category listing.

use vstd::prelude::*;
use vstd::string::StringExecFns;

use crate::links::{lemma_add_one, lemma_remove_duplicates, LinkList};
use crate::site::{
    article_link, article_links, next_hrefs, page_fits, selected_hrefs, site_url, title_hrefs, url_of,
    ARTICLE_SELECTOR, BASE_URL, CATEGORY_PATH, NEXT_SELECTOR,
};
use crate::text::{opt_text, opt_texts, texts};

verus! {

/// How far discovery has come: the articles found, and the page to read next.
pub struct DiscoveryModel {
    pub urls: Seq<Seq<char>>,
    pub next: Option<Seq<char>>,
}

/// Discovery begins at the category listing.
pub open spec fn discovery_start() -> DiscoveryModel {
    DiscoveryModel { urls: Seq::empty(), next: Some(site_url(CATEGORY_PATH@)) }
}

/// The page that the first of these links leads to.
pub open spec fn next_page(nexts: Seq<Option<Seq<char>>>) -> Option<Seq<char>> {
    if nexts.len() == 0 {
        None
    } else {
        article_link(nexts[0])
    }
}

/// How far discovery has come after a page with these titles and these links to
/// a next page. The new articles come at the end. A page without a new article
/// is the last one.
pub open spec fn after_page(
    before: DiscoveryModel,
    titles: Seq<Option<Seq<char>>>,
    nexts: Seq<Option<Seq<char>>>,
) -> DiscoveryModel {
    let urls = article_links(titles).remove_duplicates(before.urls);
    DiscoveryModel {
        urls,
        next: if urls.len() == before.urls.len() {
            None
        } else {
            next_page(nexts)
        },
    }
}

/// How far discovery has come after a page that could not be had.
pub open spec fn after_failure(before: DiscoveryModel) -> DiscoveryModel {
    DiscoveryModel { urls: before.urls, next: None }
}

/// Where a page was lost.
#[derive(Clone, Copy, Debug, PartialEq, Eq, Structural)]
pub enum FetchStage {
    /// The request failed, or the server answered with an error.
    Request,
    /// The answer could not be read.
    Body,
}

/// A page that could not be had: where it was lost, why, and how to say so.
#[derive(Debug)]
pub struct FetchFailure<E> {
    pub stage: FetchStage,
    pub cause: E,
    pub text: String,
}

/// What a fetched category page comes to.
#[derive(Debug)]
pub enum PageOutcome<E> {
    /// The page.
    Page(String),
    /// There is no page, but articles were found before: go on with those.
    Skip { warning: String },
    /// There is no page, and nothing to go on with.
    Fail { context: &'static str, cause: E },
}

/// What is said of a lost page when nothing was found before.
pub open spec fn failure_context(stage: FetchStage) -> Seq<char> {
    match stage {
        FetchStage::Request => "failed to fetch category page"@,
        FetchStage::Body => "failed to read category page body"@,
    }
}

/// What the user is told of a lost page when articles were found before.
pub open spec fn pagination_warning(
    stage: FetchStage,
    page_url: Seq<char>,
    cause: Seq<char>,
) -> Seq<char> {
    (match stage {
        FetchStage::Request => "Warning: pagination failed at "@,
        FetchStage::Body => "Warning: failed to read page body at "@,
    }) + page_url + ": "@ + cause + ", continuing with articles found so far"@
}

/// Decides what a fetched category page comes to. A lost page is an error only
/// where no article was found before.
pub fn fetch_page<E>(
    page_url: &str,
    have_articles: bool,
    fetched: Result<String, FetchFailure<E>>,
) -> (outcome: PageOutcome<E>)
    ensures
        match fetched {
            Ok(html) => outcome == PageOutcome::<E>::Page(html),
            Err(failure) => if have_articles {
                outcome matches PageOutcome::Skip { warning } && warning@ == pagination_warning(
                    failure.stage,
                    page_url@,
                    failure.text@,
                )
            } else {
                outcome matches PageOutcome::Fail { context, cause } && context@
                    == failure_context(failure.stage) && cause == failure.cause
            },
        },
{
    match fetched {
        Ok(html) => PageOutcome::Page(html),
        Err(failure) => {
            if have_articles {
                let mut warning = match failure.stage {
                    FetchStage::Request => "Warning: pagination failed at ".to_owned(),
                    FetchStage::Body => "Warning: failed to read page body at ".to_owned(),
                };
                warning.append(page_url);
                warning.append(": ");
                warning.append(failure.text.as_str());
                warning.append(", continuing with articles found so far");
                PageOutcome::Skip { warning }
            } else {
                let context = match failure.stage {
                    FetchStage::Request => "failed to fetch category page",
                    FetchStage::Body => "failed to read category page body",
                };
                PageOutcome::Fail { context, cause: failure.cause }
            }
        },
    }
}

/// What to do after a category page.
#[derive(Debug)]
pub enum DiscoveryStep<E> {
    /// Read the next page, after a pause.
    Continue,
    /// All articles are found.
    Done,
    /// Say so, and go on with the articles found.
    Stop { warning: String },
    /// Give up.
    Fail { context: &'static str, cause: E },
}

/// The articles found so far, and the page to read next.
pub struct Discovery {
    urls: LinkList,
    next_url: Option<String>,
}

impl View for Discovery {
    type V = DiscoveryModel;

    closed spec fn view(&self) -> DiscoveryModel {
        DiscoveryModel { urls: self.urls@, next: opt_text(self.next_url) }
    }
}

impl Discovery {
    /// The list of articles is in order.
    pub closed spec fn wf(&self) -> bool {
        self.urls.wf()
    }

    /// Nothing found, and the category listing to read.
    pub fn new() -> (discovery: Discovery)
        ensures
            discovery.wf(),
            discovery@ == discovery_start(),
    {
        Discovery { urls: LinkList::new(), next_url: Some(url_of(CATEGORY_PATH)) }
    }

    /// Takes the page to read next.
    pub fn take_page(&mut self) -> (page_url: Option<String>)
        requires
            old(self).wf(),
        ensures
            final(self).wf(),
            opt_text(page_url) == old(self)@.next,
            final(self)@ == (DiscoveryModel { urls: old(self)@.urls, next: None }),
    {
        self.next_url.take()
    }

    /// The number of articles found.
    pub fn found(&self) -> (n: usize)
        ensures
            n == self@.urls.len(),
    {
        self.urls.len()
    }

    /// Adds the articles that these titles link to. Tells whether one was new.
    fn add_articles(&mut self, titles: &Vec<Option<String>>) -> (any_new: bool)
        requires
            old(self).wf(),
        ensures
            final(self).wf(),
            final(self)@.urls == article_links(opt_texts(titles@)).remove_duplicates(
                old(self)@.urls,
            ),
            final(self)@.next == old(self)@.next,
            any_new == (final(self)@.urls.len() != old(self)@.urls.len()),
    {
        let ghost before = self@.urls;
        let ghost next = self.next_url;
        let ghost model = opt_texts(titles@);
        let ghost f = |h: Option<Seq<char>>| article_link(h);
        let mut any_new = false;
        let mut i: usize = 0;
        assert(model.take(0).filter_map(f).remove_duplicates(before) =~= before);
        while i < titles.len()
            invariant
                i <= titles.len(),
                model == opt_texts(titles@),
                f == (|h: Option<Seq<char>>| article_link(h)),
                self.urls.wf(),
                self.next_url == next,
                self.urls@ == model.take(i as int).filter_map(f).remove_duplicates(before),
                self.urls@.len() >= before.len(),
                any_new == (self.urls@.len() != before.len()),
            decreases titles.len() - i,
        {
            let ghost links = model.take(i as int).filter_map(f);
            proof {
                model.lemma_filter_map_take_succ(f, i as int);
            }
            assert(model[i as int] == opt_text(titles@[i as int]));
            match &titles[i] {
                Some(href) => {
                    let url = url_of(href.as_str());
                    proof {
                        lemma_add_one(links, url@, before);
                    }
                    if self.urls.add_link(url) {
                        any_new = true;
                    }
                },
                None => {},
            }
            i = i + 1;
        }
        assert(model.take(i as int) =~= model);
        any_new
    }

    /// Takes up the first of these links as the page to read next. Tells whether
    /// there is one.
    fn set_next(&mut self, nexts: &Vec<Option<String>>) -> (more: bool)
        requires
            old(self).wf(),
        ensures
            final(self).wf(),
            final(self)@ == (DiscoveryModel {
                urls: old(self)@.urls,
                next: next_page(opt_texts(nexts@)),
            }),
            more == (final(self)@.next is Some),
    {
        self.next_url = None;
        if nexts.len() > 0 {
            assert(opt_texts(nexts@)[0] == opt_text(nexts@[0]));
            match &nexts[0] {
                Some(href) => {
                    self.next_url = Some(url_of(href.as_str()));
                    return true;
                },
                None => {},
            }
        }
        false
    }

    /// Takes in a page with these titles and these links to a next page. Tells
    /// whether there is a next page to read.
    pub fn add_page(
        &mut self,
        titles: &Vec<Option<String>>,
        nexts: &Vec<Option<String>>,
    ) -> (more: bool)
        requires
            old(self).wf(),
        ensures
            final(self).wf(),
            final(self)@ == after_page(old(self)@, opt_texts(titles@), opt_texts(nexts@)),
            more == (final(self)@.next is Some),
    {
        if self.add_articles(titles) {
            self.set_next(nexts)
        } else {
            self.next_url = None;
            false
        }
    }

    /// Takes in the page `html`. Tells whether there is a next page to read.
    pub fn read_page(&mut self, html: &str) -> (more: bool)
        requires
            old(self).wf(),
            page_fits(html@),
        ensures
            final(self).wf(),
            final(self)@ == after_page(
                old(self)@,
                selected_hrefs(html@, ARTICLE_SELECTOR@),
                selected_hrefs(html@, NEXT_SELECTOR@),
            ),
            more == (final(self)@.next is Some),
    {
        let titles = title_hrefs(html);
        let nexts = next_hrefs(html);
        self.add_page(&titles, &nexts)
    }

    /// Takes in what came of fetching `page_url`, and decides how to go on.
    pub fn page_fetched<E>(
        &mut self,
        page_url: &str,
        fetched: Result<String, FetchFailure<E>>,
    ) -> (step: DiscoveryStep<E>)
        requires
            old(self).wf(),
            fetched matches Ok(html) ==> page_fits(html@),
        ensures
            final(self).wf(),
            match fetched {
                Ok(html) => {
                    &&& final(self)@ == after_page(
                        old(self)@,
                        selected_hrefs(html@, ARTICLE_SELECTOR@),
                        selected_hrefs(html@, NEXT_SELECTOR@),
                    )
                    &&& step == if final(self)@.next is Some {
                        DiscoveryStep::<E>::Continue
                    } else {
                        DiscoveryStep::<E>::Done
                    }
                },
                Err(failure) => {
                    &&& final(self)@ == after_failure(old(self)@)
                    &&& if old(self)@.urls.len() > 0 {
                        step matches DiscoveryStep::Stop { warning } && warning@
                            == pagination_warning(failure.stage, page_url@, failure.text@)
                    } else {
                        step matches DiscoveryStep::Fail { context, cause } && context@
                            == failure_context(failure.stage) && cause == failure.cause
                    }
                },
            },
    {
        let have_articles = self.urls.len() > 0;
        match fetch_page(page_url, have_articles, fetched) {
            PageOutcome::Page(html) => {
                if self.read_page(html.as_str()) {
                    DiscoveryStep::Continue
                } else {
                    DiscoveryStep::Done
                }
            },
            PageOutcome::Skip { warning } => {
                self.next_url = None;
                DiscoveryStep::Stop { warning }
            },
            PageOutcome::Fail { context, cause } => {
                self.next_url = None;
                DiscoveryStep::Fail { context, cause }
            },
        }
    }

    /// The addresses of the articles found, in the order in which they were
    /// found.
    pub fn into_urls(self) -> (urls: Vec<String>)
        ensures
            texts(urls@) == self@.urls,
    {
        self.urls.into_links()
    }
}

/// What can come of fetching a category page.
pub enum PageModel {
    Links { titles: Seq<Option<Seq<char>>>, nexts: Seq<Option<Seq<char>>> },
    Lost,
}

/// How far discovery has come after a fetched page.
pub open spec fn after_fetch(before: DiscoveryModel, page: PageModel) -> DiscoveryModel {
    match page {
        PageModel::Links { titles, nexts } => after_page(before, titles, nexts),
        PageModel::Lost => after_failure(before),
    }
}

/// How far discovery has come when the pages asked for, one after the other,
/// came to `pages`. Nothing is read once there is no next page.
pub open spec fn discovered(before: DiscoveryModel, pages: Seq<PageModel>) -> DiscoveryModel
    decreases pages.len(),
{
    if pages.len() == 0 || before.next is None {
        before
    } else {
        discovered(after_fetch(before, pages[0]), pages.drop_first())
    }
}

/// Each article is found once, and each is an address on the site.
pub open spec fn sound(model: DiscoveryModel) -> bool {
    &&& model.urls.no_duplicates()
    &&& forall|i: int| 0 <= i < model.urls.len() ==> BASE_URL@.is_prefix_of(#[trigger] model.urls[i])
}

/// One page keeps the list of articles sound, keeps what was found before in its
/// place, and adds exactly the articles that the page links to.
pub proof fn law_page_adds_its_articles(
    before: DiscoveryModel,
    titles: Seq<Option<Seq<char>>>,
    nexts: Seq<Option<Seq<char>>>,
)
    requires
        sound(before),
    ensures
        sound(after_page(before, titles, nexts)),
        before.urls.is_prefix_of(after_page(before, titles, nexts).urls),
        forall|url: Seq<char>|
            after_page(before, titles, nexts).urls.contains(url) <==> before.urls.contains(url)
                || exists|href: Seq<char>| #[trigger]
                titles.contains(Some(href)) && url == site_url(href),
{
    let f = |h: Option<Seq<char>>| article_link(h);
    let links = article_links(titles);
    let after = after_page(before, titles, nexts);
    lemma_remove_duplicates(links, before.urls);
    assert forall|url: Seq<char>| #[trigger] links.contains(url) implies exists|href: Seq<char>|
        #[trigger] titles.contains(Some(href)) && url == site_url(href) by {
        titles.lemma_filter_map_contains(f, url);
        let t = choose|t: Option<Seq<char>>| #[trigger] titles.contains(t) && f(t) == Some(url);
        assert(titles.contains(Some(t->0)));
    }
    assert forall|href: Seq<char>| #[trigger] titles.contains(Some(href)) implies links.contains(
        site_url(href),
    ) by {
        crate::links::lemma_filter_map_keeps(titles, f, Some(href));
    }
    assert forall|i: int| 0 <= i < after.urls.len() implies BASE_URL@.is_prefix_of(
        #[trigger] after.urls[i],
    ) by {
        let url = after.urls[i];
        assert(after.urls.contains(url));
        if before.urls.contains(url) {
            let k = choose|k: int| 0 <= k < before.urls.len() && before.urls[k] == url;
            assert(BASE_URL@.is_prefix_of(before.urls[k]));
        } else {
            assert(links.contains(url));
            let href = choose|href: Seq<char>| #[trigger]
                titles.contains(Some(href)) && url == site_url(href);
            assert(BASE_URL@ =~= url.subrange(0, BASE_URL@.len() as int));
        }
    }
}

/// However the pages come out, no article is found twice, each is an address on
/// the site, and what was found once is never lost again.
pub proof fn law_discovery_is_sound(before: DiscoveryModel, pages: Seq<PageModel>)
    requires
        sound(before),
    ensures
        sound(discovered(before, pages)),
        before.urls.is_prefix_of(discovered(before, pages).urls),
    decreases pages.len(),
{
    if pages.len() > 0 && before.next is Some {
        let after = after_fetch(before, pages[0]);
        match pages[0] {
            PageModel::Links { titles, nexts } => {
                law_page_adds_its_articles(before, titles, nexts);
            },
            PageModel::Lost => {
                assert(before.urls =~= before.urls.subrange(0, before.urls.len() as int));
            },
        }
        law_discovery_is_sound(after, pages.drop_first());
        let all = discovered(before, pages).urls;
        assert(before.urls =~= all.subrange(0, before.urls.len() as int)) by {
            assert(before.urls =~= after.urls.subrange(0, before.urls.len() as int));
            assert(after.urls =~= all.subrange(0, after.urls.len() as int));
            assert forall|i: int| 0 <= i < before.urls.len() implies before.urls[i] == all[i] by {
                assert(before.urls[i] == after.urls.subrange(0, before.urls.len() as int)[i]);
                assert(after.urls[i] == all.subrange(0, after.urls.len() as int)[i]);
            }
        }
    } else {
        assert(before.urls =~= before.urls.subrange(0, before.urls.len() as int));
    }
}

/// A page that cannot be had ends discovery with the articles found so far.
pub proof fn law_lost_page_keeps_articles(before: DiscoveryModel, pages: Seq<PageModel>)
    requires
        pages.len() > 0,
        pages[0] is Lost,
    ensures
        discovered(before, pages).urls == before.urls,
        discovered(before, pages).next is None,
{
    if before.next is Some {
        let after = after_fetch(before, pages[0]);
        assert(discovered(after, pages.drop_first()) == after);
    }
}

/// Discovery goes on to another page only when the last one had something new.
pub proof fn law_each_page_brings_news(
    before: DiscoveryModel,
    titles: Seq<Option<Seq<char>>>,
    nexts: Seq<Option<Seq<char>>>,
)
    requires
        sound(before),
        after_page(before, titles, nexts).next is Some,
    ensures
        after_page(before, titles, nexts).urls.len() > before.urls.len(),
{
    law_page_adds_its_articles(before, titles, nexts);
}

/// Only the loss of the first page leaves nothing to go on with: whenever a later
/// page is asked for, articles were found before.
pub proof fn law_later_pages_have_articles(pages: Seq<PageModel>)
    requires
        pages.len() > 0,
        discovered(discovery_start(), pages).next is Some,
    ensures
        discovered(discovery_start(), pages).urls.len() > 0,
{
    let start = discovery_start();
    let first = after_fetch(start, pages[0]);
    assert(sound(start));
    match pages[0] {
        PageModel::Links { titles, nexts } => {
            law_page_adds_its_articles(start, titles, nexts);
            law_discovery_is_sound(first, pages.drop_first());
        },
        PageModel::Lost => {
            law_lost_page_keeps_articles(start, pages);
        },
    }
}

} // verus!
