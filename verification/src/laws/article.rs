//! Where each image of an article goes, and which images are still to be had.

use vstd::prelude::*;

use crate::article::{
    filename_of, image_device, image_filename, image_models, image_plan,
    image_plans, opt_image, opt_images, plan_article, plan_image,
    plan_image_for, plan_images, scan_images, scanned, ArticleScan, ImageModel, ImagePlan,
};
use crate::device::lowercase;
use crate::laws::device::{is_device_folder, law_device_folder};
use crate::laws::site::{lemma_lists_images, lists_images};
use crate::settings::Settings;
use crate::site::{image_links, law_image_links, selected_hrefs};
use crate::text::{lemma_trim_leading, texts};

verus! {

/// `filename` is what stands behind `/s` and the slashes that follow it.
pub open spec fn is_filename(link: Seq<char>, filename: Seq<char>) -> bool {
    &&& filename.len() + 2 <= link.len()
    &&& link.skip(link.len() - filename.len()) == filename
    &&& forall|i: int| 2 <= i < link.len() - filename.len() ==> #[trigger] link[i] == '/'
    &&& filename.len() > 0 ==> filename[0] != '/'
}

proof fn lemma_is_filename(link: Seq<char>)
    requires
        "/s"@.is_prefix_of(link),
    ensures
        is_filename(link, image_filename(link)),
{
    reveal_strlit("/s");
    let rest = link.skip(2);
    let filename = image_filename(link);
    lemma_trim_leading(rest, '/');
    assert(rest.skip(rest.len() - filename.len()) =~= filename);
    assert(link.skip(link.len() - filename.len()) =~= rest.skip(rest.len() - filename.len()));
    assert forall|i: int| 2 <= i < link.len() - filename.len() implies #[trigger] link[i]
        == '/' by {
        assert(rest[i - 2] == '/');
    }
}

/// The file name of an image is what stands behind `/s` and the slashes that
/// follow it.
pub proof fn law_filename(link: &str, filename: &str)
    requires
        call_ensures(filename_of, (link,), filename),
        "/s"@.is_prefix_of(link@),
    ensures
        is_filename(link@, filename@),
{
    lemma_is_filename(link@);
}

/// `plan` is the plan of the image behind a link. It has the address of the link
/// and its file name. Its folders are that of the device, exactly where images are
/// sorted by device, and in it that of the article, exactly where they are sorted
/// by article. There is no plan exactly where the link has no file name.
pub open spec fn plans(
    link: Seq<char>,
    device: Seq<char>,
    article: Seq<char>,
    device_sort: bool,
    article_sort: bool,
    plan: Option<ImageModel>,
) -> bool {
    match plan {
        Some(image) => {
            &&& image.url == "https://basicappleguy.com"@ + link
            &&& image.filename.len() > 0
            &&& is_filename(link, image.filename)
            &&& device_sort && article_sort ==> image.folders.len() == 2 && image.folders[0]
                == device && image.folders[1] == article
            &&& device_sort && !article_sort ==> image.folders.len() == 1 && image.folders[0]
                == device
            &&& !device_sort && article_sort ==> image.folders.len() == 1 && image.folders[0]
                == article
            &&& !device_sort && !article_sort ==> image.folders.len() == 0
        },
        None => is_filename(link, Seq::empty()),
    }
}

proof fn lemma_plans(
    link: Seq<char>,
    device: Seq<char>,
    article: Seq<char>,
    device_sort: bool,
    article_sort: bool,
)
    requires
        "/s"@.is_prefix_of(link),
    ensures
        plans(
            link,
            device,
            article,
            device_sort,
            article_sort,
            image_plan(link, device, article, device_sort, article_sort),
        ),
{
    lemma_is_filename(link);
    if image_filename(link).len() == 0 {
        assert(image_filename(link) =~= Seq::empty());
    }
}

/// Whatever the device is, an image goes into its folder and that of the article
/// exactly as asked.
pub proof fn law_plan_image_for(
    link: &str,
    device: &str,
    article: &str,
    device_sort: bool,
    article_sort: bool,
    plan: Option<ImagePlan>,
)
    requires
        call_ensures(plan_image_for, (link, device, article, device_sort, article_sort), plan),
        "/s"@.is_prefix_of(link@),
    ensures
        plans(link@, device@, article@, device_sort, article_sort, opt_image(plan)),
{
    lemma_plans(link@, device@, article@, device_sort, article_sort);
}

/// The model of a plan is what the plan holds.
pub proof fn law_plan_model(plan: ImagePlan)
    ensures
        opt_image(Some(plan)) == Some(plan@),
        opt_image(None) is None,
        plan@.url == plan.url@,
        plan@.filename == plan.filename@,
        plan@.folders.len() == plan.folders@.len(),
        forall|i: int|
            0 <= i < plan.folders@.len() ==> #[trigger] plan@.folders[i] == plan.folders@[i]@,
{
}

/// `plan` is the plan of the image behind a link, in the folder of the device that
/// its file name names.
pub open spec fn plans_by_name(
    link: Seq<char>,
    article: Seq<char>,
    settings: Settings,
    plan: Option<ImageModel>,
) -> bool {
    forall|filename: Seq<char>, device: Seq<char>|
        is_filename(link, filename) && is_device_folder(
            #[trigger] lowercase(filename),
            device,
        ) ==> #[trigger] plans(
            link,
            device,
            article,
            settings.device_sort,
            settings.article_sort,
            plan,
        )
}

/// A link has one file name.
proof fn lemma_one_filename(link: Seq<char>, one: Seq<char>, other: Seq<char>)
    requires
        is_filename(link, one),
        is_filename(link, other),
    ensures
        one == other,
{
    if one.len() > other.len() {
        assert(one[0] == link.skip(link.len() - one.len())[0]);
        assert(link[link.len() - one.len()] == '/');
    }
    if other.len() > one.len() {
        assert(other[0] == link.skip(link.len() - other.len())[0]);
        assert(link[link.len() - other.len()] == '/');
    }
}

proof fn lemma_plans_by_name(link: Seq<char>, article: Seq<char>, settings: Settings)
    requires
        "/s"@.is_prefix_of(link),
    ensures
        plans_by_name(
            link,
            article,
            settings,
            image_plan(
                link,
                image_device(link),
                article,
                settings.device_sort,
                settings.article_sort,
            ),
        ),
{
    let name = image_filename(link);
    let plan = image_plan(
        link,
        image_device(link),
        article,
        settings.device_sort,
        settings.article_sort,
    );
    lemma_is_filename(link);
    lemma_plans(link, image_device(link), article, settings.device_sort, settings.article_sort);
    law_device_folder(lowercase(name));
    assert forall|filename: Seq<char>, device: Seq<char>|
        is_filename(link, filename) && is_device_folder(
            #[trigger] lowercase(filename),
            device,
        ) implies #[trigger] plans(
        link,
        device,
        article,
        settings.device_sort,
        settings.article_sort,
        plan,
    ) by {
        lemma_one_filename(link, filename, name);
        assert(device == image_device(link));
    }
}

/// An image goes into the folder of the device that its own file name names, and
/// into that of its article, exactly as the settings ask.
pub proof fn law_plan_image(
    link: &str,
    article: &str,
    settings: Settings,
    plan: Option<ImagePlan>,
)
    requires
        call_ensures(plan_image, (link, article, &settings), plan),
        "/s"@.is_prefix_of(link@),
    ensures
        plans_by_name(link@, article@, settings, opt_image(plan)),
        plan matches Some(image) ==> is_filename(link@, image.filename@) && (settings.device_sort
            ==> image.folders@.len() > 0 && is_device_folder(
            lowercase(image.filename@),
            image.folders@[0]@,
        )),
{
    lemma_plans_by_name(link@, article@, settings);
    lemma_plans(
        link@,
        image_device(link@),
        article@,
        settings.device_sort,
        settings.article_sort,
    );
    law_device_folder(lowercase(image_filename(link@)));
    if plan is Some {
        let image = plan->0;
        assert(opt_image(plan) == Some(image@));
        if settings.device_sort {
            assert(image@.folders[0] == image.folders@[0]@);
        }
    }
}

/// Each link has its plan, in order.
pub open spec fn plans_all(
    links: Seq<Seq<char>>,
    article: Seq<char>,
    settings: Settings,
    all: Seq<Option<ImagePlan>>,
) -> bool {
    &&& all.len() == links.len()
    &&& forall|i: int|
        0 <= i < links.len() ==> plans_by_name(
            links[i],
            article,
            settings,
            opt_image(#[trigger] all[i]),
        )
}

proof fn lemma_plans_all(
    links: Seq<Seq<char>>,
    article: Seq<char>,
    settings: Settings,
    all: Seq<Option<ImagePlan>>,
)
    requires
        forall|i: int| 0 <= i < links.len() ==> "/s"@.is_prefix_of(#[trigger] links[i]),
        opt_images(all) == image_plans(links, article, settings),
    ensures
        plans_all(links, article, settings, all),
{
    assert(opt_images(all).len() == all.len());
    assert forall|i: int| 0 <= i < links.len() implies plans_by_name(
        links[i],
        article,
        settings,
        opt_image(#[trigger] all[i]),
    ) by {
        assert("/s"@.is_prefix_of(links[i]));
        lemma_plans_by_name(links[i], article, settings);
        assert(opt_images(all)[i] == opt_image(all[i]));
    }
}

/// Of some links, each is planned, in order.
pub proof fn law_plan_images(
    links: Vec<String>,
    article: &str,
    settings: Settings,
    all: Vec<Option<ImagePlan>>,
)
    requires
        call_ensures(plan_images, (&links, article, &settings), all),
        forall|i: int| 0 <= i < links@.len() ==> "/s"@.is_prefix_of((#[trigger] links@[i])@),
    ensures
        plans_all(texts(links@), article@, settings, all@),
{
    assert forall|i: int| 0 <= i < texts(links@).len() implies "/s"@.is_prefix_of(
        #[trigger] texts(links@)[i],
    ) by {
        assert("/s"@.is_prefix_of(links@[i]@));
    }
    lemma_plans_all(texts(links@), article@, settings, all@);
}

/// Of an article, the images that its paragraphs link to are planned, each once,
/// in order, and nothing else.
pub proof fn law_plan_article(
    html: &str,
    article: &str,
    settings: Settings,
    all: Vec<Option<ImagePlan>>,
) -> (links: Seq<Seq<char>>)
    requires
        call_ensures(plan_article, (html, article, &settings), all),
    ensures
        lists_images(selected_hrefs(html@, "p a"@), links),
        plans_all(links, article@, settings, all@),
{
    let hrefs = selected_hrefs(html@, "p a"@);
    let links = image_links(hrefs).remove_duplicates(Seq::empty());
    lemma_lists_images(hrefs);
    law_image_links(hrefs);
    reveal_strlit("/s/");
    reveal_strlit("/s");
    assert forall|i: int| 0 <= i < links.len() implies "/s"@.is_prefix_of(#[trigger] links[i]) by {
        let link = links[i];
        assert(links.contains(link));
        assert(link.take(3)[0] == "/s/"@[0] && link.take(3)[1] == "/s/"@[1]);
        assert("/s"@ =~= link.take(2));
    }
    lemma_plans_all(links, article@, settings, all@);
    links
}

/// A scan begins with nothing found and nothing to be had.
pub proof fn law_scan_begins(scan: ArticleScan)
    requires
        call_ensures(ArticleScan::new, (), scan),
    ensures
        scan@.already_existed == 0,
        scan@.tasks.len() == 0,
{
}

/// An image that is on disk is counted, and one that is not is to be had, behind
/// those before it.
pub proof fn law_looked(scan: &mut ArticleScan, plan: ImagePlan, exists_on_disk: bool)
    requires
        call_ensures(ArticleScan::looked, (scan, plan, exists_on_disk), ()),
    ensures
        exists_on_disk ==> final(scan)@.already_existed == old(scan)@.already_existed + 1,
        exists_on_disk ==> final(scan)@.tasks == old(scan)@.tasks,
        !exists_on_disk ==> final(scan)@.already_existed == old(scan)@.already_existed,
        !exists_on_disk ==> final(scan)@.tasks == old(scan)@.tasks.push(plan@),
{
}

/// What a scan tells of itself is what it holds.
pub proof fn law_scan_tells(scan: ArticleScan, existed: u32, n: usize, tasks: Vec<ImagePlan>)
    requires
        call_ensures(ArticleScan::already_existed, (&scan,), existed),
        call_ensures(ArticleScan::to_download, (&scan,), n),
        call_ensures(ArticleScan::into_tasks, (scan,), tasks),
    ensures
        existed == scan@.already_existed,
        n == scan@.tasks.len(),
        tasks@.len() == scan@.tasks.len(),
        forall|i: int| 0 <= i < tasks@.len() ==> (#[trigger] tasks@[i])@ == scan@.tasks[i],
{
    assert forall|i: int| 0 <= i < tasks@.len() implies (#[trigger] tasks@[i])@
        == scan@.tasks[i] by {
        assert(image_models(tasks@)[i] == tasks@[i]@);
    }
}

/// `chosen` are the numbers of the images that are on disk, or that are not, in
/// order.
pub open spec fn are_those(
    all: Seq<Option<ImageModel>>,
    on_disk: Seq<bool>,
    wanted: bool,
    chosen: Seq<int>,
) -> bool {
    &&& forall|i: int| #[trigger]
        chosen.contains(i) <==> 0 <= i < all.len() && all[i] is Some && on_disk[i] == wanted
    &&& forall|a: int, b: int|
        0 <= a < b < chosen.len() ==> #[trigger] chosen[a] < #[trigger] chosen[b]
}

/// The numbers of the images that are on disk, or that are not.
spec fn those(all: Seq<Option<ImageModel>>, on_disk: Seq<bool>, wanted: bool) -> Seq<int>
    decreases all.len(),
{
    if all.len() == 0 {
        Seq::empty()
    } else {
        let before = those(all.drop_last(), on_disk, wanted);
        if all.last() is Some && on_disk[all.len() - 1] == wanted {
            before.push(all.len() - 1)
        } else {
            before
        }
    }
}

proof fn lemma_those(all: Seq<Option<ImageModel>>, on_disk: Seq<bool>, wanted: bool)
    ensures
        are_those(all, on_disk, wanted, those(all, on_disk, wanted)),
    decreases all.len(),
{
    if all.len() > 0 {
        let short = all.drop_last();
        let n = short.len() as int;
        let before = those(short, on_disk, wanted);
        let chosen = those(all, on_disk, wanted);
        lemma_those(short, on_disk, wanted);
        assert forall|i: int| #[trigger] chosen.contains(i) <==> 0 <= i < all.len() && all[i]
            is Some && on_disk[i] == wanted by {
            if before.contains(i) {
                let k = choose|k: int| 0 <= k < before.len() && before[k] == i;
                assert(chosen[k] == i);
                assert(short[i] == all[i]);
            }
            if chosen.contains(i) {
                let k = choose|k: int| 0 <= k < chosen.len() && chosen[k] == i;
                if k < before.len() {
                    assert(before[k] == i);
                    assert(before.contains(i));
                }
            }
            if 0 <= i < all.len() && all[i] is Some && on_disk[i] == wanted {
                if i < n {
                    assert(short[i] == all[i]);
                    assert(before.contains(i));
                } else {
                    assert(chosen.last() == i);
                }
            }
        }
        assert forall|a: int, b: int| 0 <= a < b < chosen.len() implies #[trigger] chosen[a]
            < #[trigger] chosen[b] by {
            assert(chosen[a] == before[a]);
            assert(before.contains(before[a]));
            if b < before.len() {
                assert(chosen[b] == before[b]);
            }
        }
    }
}

/// The images that are not on disk are to be had, in order, and the others are
/// counted.
pub proof fn law_scanned(all: Seq<Option<ImageModel>>, on_disk: Seq<bool>) -> (chosen: (
    Seq<int>,
    Seq<int>,
))
    ensures
        are_those(all, on_disk, false, chosen.0),
        are_those(all, on_disk, true, chosen.1),
        scanned(all, on_disk).tasks.len() == chosen.0.len(),
        forall|k: int|
            0 <= k < chosen.0.len() ==> all[#[trigger] chosen.0[k]] == Some(
                scanned(all, on_disk).tasks[k],
            ),
        scanned(all, on_disk).already_existed == chosen.1.len(),
    decreases all.len(),
{
    let chosen = (those(all, on_disk, false), those(all, on_disk, true));
    lemma_those(all, on_disk, false);
    lemma_those(all, on_disk, true);
    if all.len() > 0 {
        let short = all.drop_last();
        let before = law_scanned(short, on_disk);
        lemma_scan_witness(short, on_disk, before);
        let tasks = scanned(all, on_disk).tasks;
        assert forall|k: int| 0 <= k < chosen.0.len() implies all[#[trigger] chosen.0[k]] == Some(
            tasks[k],
        ) by {
            if k < before.0.len() {
                assert(chosen.0[k] == before.0[k]);
                assert(before.0.contains(before.0[k]));
                assert(short[before.0[k]] == all[before.0[k]]);
            }
        }
    }
    chosen
}

/// The numbers in order are told by which they are.
proof fn lemma_scan_witness(
    all: Seq<Option<ImageModel>>,
    on_disk: Seq<bool>,
    chosen: (Seq<int>, Seq<int>),
)
    requires
        are_those(all, on_disk, false, chosen.0),
        are_those(all, on_disk, true, chosen.1),
    ensures
        chosen.0 == those(all, on_disk, false),
        chosen.1 == those(all, on_disk, true),
{
    lemma_those(all, on_disk, false);
    lemma_those(all, on_disk, true);
    lemma_same_order(chosen.0, those(all, on_disk, false));
    lemma_same_order(chosen.1, those(all, on_disk, true));
}

/// Two rising lists of the same numbers are the same.
proof fn lemma_same_order(one: Seq<int>, other: Seq<int>)
    requires
        forall|i: int| #[trigger] one.contains(i) <==> other.contains(i),
        forall|a: int, b: int| 0 <= a < b < one.len() ==> #[trigger] one[a] < #[trigger] one[b],
        forall|a: int, b: int|
            0 <= a < b < other.len() ==> #[trigger] other[a] < #[trigger] other[b],
    ensures
        one == other,
    decreases one.len(),
{
    if one.len() == 0 {
        if other.len() > 0 {
            assert(other.contains(other[0]));
            assert(one.contains(other[0]));
        }
        assert(one =~= other);
    } else {
        assert(one.contains(one[0]));
        assert(other.contains(one[0]));
        let m = one.last();
        assert(one.contains(m));
        assert(other.contains(m));
        let k = choose|k: int| 0 <= k < other.len() && other[k] == m;
        assert(other.contains(other.last()));
        assert(one.contains(other.last()));
        let l = choose|l: int| 0 <= l < one.len() && one[l] == other.last();
        assert(m == other.last());
        let a = one.drop_last();
        let b = other.drop_last();
        assert forall|i: int| #[trigger] a.contains(i) <==> b.contains(i) by {
            if a.contains(i) {
                let p = choose|p: int| 0 <= p < a.len() && a[p] == i;
                assert(one[p] == i && one[p] < one[one.len() - 1]);
                assert(one.contains(i));
                assert(other.contains(i));
                let q = choose|q: int| 0 <= q < other.len() && other[q] == i;
                assert(b[q] == i);
            }
            if b.contains(i) {
                let q = choose|q: int| 0 <= q < b.len() && b[q] == i;
                assert(other[q] == i && other[q] < other[other.len() - 1]);
                assert(other.contains(i));
                assert(one.contains(i));
                let p = choose|p: int| 0 <= p < one.len() && one[p] == i;
                assert(a[p] == i);
            }
        }
        lemma_same_order(a, b);
        assert(one =~= a.push(m));
        assert(other =~= b.push(m));
    }
}

/// Of the images of an article, those that are not on disk are to be had, in
/// order, and the others are counted.
pub proof fn law_scan_images(
    all: Vec<Option<ImagePlan>>,
    on_disk: Vec<bool>,
    scan: ArticleScan,
) -> (chosen: (Seq<int>, Seq<int>))
    requires
        call_ensures(scan_images, (all, &on_disk), scan),
    ensures
        are_those(opt_images(all@), on_disk@, false, chosen.0),
        are_those(opt_images(all@), on_disk@, true, chosen.1),
        scan@.tasks.len() == chosen.0.len(),
        forall|k: int|
            0 <= k < chosen.0.len() ==> opt_images(all@)[#[trigger] chosen.0[k]] == Some(
                scan@.tasks[k],
            ),
        scan@.already_existed == chosen.1.len(),
{
    law_scanned(opt_images(all@), on_disk@)
}

} // verus!
