//! The images of an article: where each goes, and which are still to be had.

use vstd::prelude::*;
use vstd::string::StrSliceExecFns;
use vstd::utf8::is_ascii_chars;

use crate::device::{ascii_lowercase, categorize_filename, device_folder, lowercase};
use crate::settings::Settings;
use crate::site::{
    image_links, image_links_of, law_image_links, page_fits, selected_hrefs, site_url, url_of, IMAGE_PREFIX,
    IMAGE_SELECTOR,
};
use crate::text::{lemma_trim_leading, texts, trim_leading, trim_leading_char};

verus! {

/// The part of an image link that is no part of the file name.
pub const IMAGE_ROOT: &'static str = "/s";

/// An image to be had: its address, the folders below the output directory that
/// it goes into, outermost first, and its file name.
#[derive(Debug, PartialEq, Eq)]
pub struct ImagePlan {
    pub url: String,
    pub folders: Vec<String>,
    pub filename: String,
}

/// An image to be had.
pub struct ImageModel {
    pub url: Seq<char>,
    pub folders: Seq<Seq<char>>,
    pub filename: Seq<char>,
}

impl View for ImagePlan {
    type V = ImageModel;

    open spec fn view(&self) -> ImageModel {
        ImageModel {
            url: self.url@,
            folders: texts(self.folders@),
            filename: self.filename@,
        }
    }
}

/// The images to be had.
pub open spec fn image_models(plans: Seq<ImagePlan>) -> Seq<ImageModel> {
    plans.map_values(|plan: ImagePlan| plan@)
}

/// The image to be had, if there is one.
pub open spec fn opt_image(plan: Option<ImagePlan>) -> Option<ImageModel> {
    match plan {
        Some(p) => Some(p@),
        None => None,
    }
}

/// The images to be had, with the gaps kept.
pub open spec fn opt_images(plans: Seq<Option<ImagePlan>>) -> Seq<Option<ImageModel>> {
    plans.map_values(|plan: Option<ImagePlan>| opt_image(plan))
}

/// The file name of the image behind a link: what follows the root, without
/// leading slashes.
pub open spec fn image_filename(link: Seq<char>) -> Seq<char> {
    trim_leading(link.skip(IMAGE_ROOT@.len() as int), '/')
}

/// The folders that an image goes into: one for its device, and in that one for
/// its article, each only where it is asked for.
pub open spec fn image_folders(
    device_sort: bool,
    article_sort: bool,
    device: Seq<char>,
    article: Seq<char>,
) -> Seq<Seq<char>> {
    if device_sort && article_sort {
        seq![device, article]
    } else if device_sort {
        seq![device]
    } else if article_sort {
        seq![article]
    } else {
        seq![]
    }
}

/// What is to be had behind a link: nothing where it has no file name.
pub open spec fn image_plan(
    link: Seq<char>,
    device: Seq<char>,
    article: Seq<char>,
    device_sort: bool,
    article_sort: bool,
) -> Option<ImageModel> {
    if image_filename(link).len() == 0 {
        None
    } else {
        Some(
            ImageModel {
                url: site_url(link),
                folders: image_folders(device_sort, article_sort, device, article),
                filename: image_filename(link),
            },
        )
    }
}

/// The file name of the image behind a link.
pub fn filename_of<'a>(link: &'a str) -> (filename: &'a str)
    requires
        IMAGE_ROOT@.is_prefix_of(link@),
    ensures
        filename@ == image_filename(link@),
{
    proof {
        reveal_strlit("/s");
    }
    let len: usize = link.unicode_len();
    let rest = link.substring_char(2, len);
    assert(rest@ =~= link@.skip(IMAGE_ROOT@.len() as int));
    trim_leading_char(rest, '/')
}

/// Plans the image behind a link, when its device folder is known.
pub fn plan_image_for(
    link: &str,
    device: &str,
    article: &str,
    device_sort: bool,
    article_sort: bool,
) -> (plan: Option<ImagePlan>)
    requires
        IMAGE_ROOT@.is_prefix_of(link@),
    ensures
        opt_image(plan) == image_plan(link@, device@, article@, device_sort, article_sort),
{
    let filename = filename_of(link);
    if filename.is_empty() {
        return None;
    }
    let mut folders: Vec<String> = Vec::new();
    if device_sort {
        folders.push(device.to_owned());
    }
    if article_sort {
        folders.push(article.to_owned());
    }
    assert(texts(folders@) =~= image_folders(device_sort, article_sort, device@, article@));
    Some(ImagePlan { url: url_of(link), folders, filename: filename.to_owned() })
}

/// The device folder that the image behind a link belongs to.
pub open spec fn image_device(link: Seq<char>) -> Seq<char> {
    device_folder(lowercase(image_filename(link)))
}

/// Plans the image behind a link.
pub fn plan_image(link: &str, article: &str, settings: &Settings) -> (plan: Option<ImagePlan>)
    requires
        IMAGE_ROOT@.is_prefix_of(link@),
    ensures
        opt_image(plan) == image_plan(
            link@,
            image_device(link@),
            article@,
            settings.device_sort,
            settings.article_sort,
        ),
        is_ascii_chars(image_filename(link@)) ==> opt_image(plan) == image_plan(
            link@,
            device_folder(ascii_lowercase(image_filename(link@))),
            article@,
            settings.device_sort,
            settings.article_sort,
        ),
{
    let device = categorize_filename(filename_of(link));
    plan_image_for(link, device, article, settings.device_sort, settings.article_sort)
}

/// What is to be had behind each of these links.
pub open spec fn image_plans(
    links: Seq<Seq<char>>,
    article: Seq<char>,
    settings: Settings,
) -> Seq<Option<ImageModel>> {
    links.map_values(
        |link: Seq<char>|
            image_plan(
                link,
                image_device(link),
                article,
                settings.device_sort,
                settings.article_sort,
            ),
    )
}

/// Plans the images behind these links.
pub fn plan_images(links: &Vec<String>, article: &str, settings: &Settings) -> (plans: Vec<
    Option<ImagePlan>,
>)
    requires
        forall|i: int| 0 <= i < links.len() ==> IMAGE_ROOT@.is_prefix_of((#[trigger] links@[i])@),
    ensures
        opt_images(plans@) == image_plans(texts(links@), article@, *settings),
{
    let mut plans: Vec<Option<ImagePlan>> = Vec::new();
    let mut i: usize = 0;
    while i < links.len()
        invariant
            i <= links.len(),
            forall|k: int|
                0 <= k < links.len() ==> IMAGE_ROOT@.is_prefix_of((#[trigger] links@[k])@),
            opt_images(plans@) =~= image_plans(texts(links@), article@, *settings).take(i as int),
        decreases links.len() - i,
    {
        let ghost before = plans@;
        let plan = plan_image(links[i].as_str(), article, settings);
        plans.push(plan);
        assert(opt_images(plans@) =~= opt_images(before).push(opt_image(plan)));
        i = i + 1;
    }
    plans
}

/// Plans the images of the article `html` that goes by the name `article`.
pub fn plan_article(html: &str, article: &str, settings: &Settings) -> (plans: Vec<
    Option<ImagePlan>,
>)
    requires
        page_fits(html@),
    ensures
        opt_images(plans@) == image_plans(
            image_links(selected_hrefs(html@, IMAGE_SELECTOR@)).remove_duplicates(Seq::empty()),
            article@,
            *settings,
        ),
{
    let links = image_links_of(html);
    proof {
        let hrefs = selected_hrefs(html@, IMAGE_SELECTOR@);
        law_image_links(hrefs);
        reveal_strlit("/s/");
        reveal_strlit("/s");
        assert forall|i: int| 0 <= i < links.len() implies IMAGE_ROOT@.is_prefix_of(
            (#[trigger] links@[i])@,
        ) by {
            let link = texts(links@)[i];
            assert(texts(links@).contains(link));
            assert(IMAGE_PREFIX@.is_prefix_of(link));
            assert(link.take(3)[0] == IMAGE_PREFIX@[0] && link.take(3)[1] == IMAGE_PREFIX@[1]);
            assert(IMAGE_ROOT@ =~= link.take(2));
        }
    }
    plan_images(&links, article, settings)
}

/// What became of the images looked for on disk: how many were there, and which
/// are to be downloaded.
pub struct ScanModel {
    pub already_existed: nat,
    pub tasks: Seq<ImageModel>,
}

/// Nothing looked for yet.
pub open spec fn scan_start() -> ScanModel {
    ScanModel { already_existed: 0, tasks: Seq::empty() }
}

/// One image more looked for. What exists is skipped, the rest is to be
/// downloaded.
pub open spec fn after_look(before: ScanModel, image: ImageModel, exists_on_disk: bool) -> ScanModel {
    if exists_on_disk {
        ScanModel { already_existed: before.already_existed + 1, tasks: before.tasks }
    } else {
        ScanModel { already_existed: before.already_existed, tasks: before.tasks.push(image) }
    }
}

/// The images of an article, as they are looked for on disk.
pub struct ArticleScan {
    already_existed: u32,
    tasks: Vec<ImagePlan>,
}

impl View for ArticleScan {
    type V = ScanModel;

    closed spec fn view(&self) -> ScanModel {
        ScanModel { already_existed: self.already_existed as nat, tasks: image_models(self.tasks@) }
    }
}

impl ArticleScan {
    /// Nothing looked for yet.
    pub fn new() -> (scan: ArticleScan)
        ensures
            scan@ == scan_start(),
    {
        let scan = ArticleScan { already_existed: 0, tasks: Vec::new() };
        assert(scan@.tasks =~= Seq::empty());
        scan
    }

    /// Takes in whether an image is on disk.
    pub fn looked(&mut self, plan: ImagePlan, exists_on_disk: bool)
        requires
            exists_on_disk ==> old(self)@.already_existed < u32::MAX,
        ensures
            final(self)@ == after_look(old(self)@, plan@, exists_on_disk),
    {
        if exists_on_disk {
            self.already_existed = self.already_existed + 1;
        } else {
            let ghost before = self.tasks@;
            self.tasks.push(plan);
            assert(image_models(self.tasks@) =~= image_models(before).push(plan@));
        }
    }

    /// The number of images that were on disk.
    pub fn already_existed(&self) -> (n: u32)
        ensures
            n == self@.already_existed,
    {
        self.already_existed
    }

    /// The number of images to be downloaded.
    pub fn to_download(&self) -> (n: usize)
        ensures
            n == self@.tasks.len(),
    {
        self.tasks.len()
    }

    /// The images to be downloaded.
    pub fn into_tasks(self) -> (tasks: Vec<ImagePlan>)
        ensures
            image_models(tasks@) == self@.tasks,
    {
        self.tasks
    }
}

/// What became of the images `plans` when each was on disk as `on_disk` says.
pub open spec fn scanned(plans: Seq<Option<ImageModel>>, on_disk: Seq<bool>) -> ScanModel
    decreases plans.len(),
{
    if plans.len() == 0 {
        scan_start()
    } else {
        let before = scanned(plans.drop_last(), on_disk);
        match plans.last() {
            Some(image) => after_look(before, image, on_disk[plans.len() - 1]),
            None => before,
        }
    }
}

/// Sorts the images `plans` into those that are on disk, as `on_disk` says of
/// each, and those to be downloaded.
pub fn scan_images(plans: Vec<Option<ImagePlan>>, on_disk: &Vec<bool>) -> (scan: ArticleScan)
    requires
        plans.len() == on_disk.len(),
        plans.len() <= u32::MAX,
    ensures
        scan@ == scanned(opt_images(plans@), on_disk@),
{
    let mut scan = ArticleScan::new();
    let ghost model = opt_images(plans@);
    let mut i: usize = 0;
    for plan in it: plans
        invariant
            it.seq() == plans@,
            i == it.index(),
            model == opt_images(plans@),
            plans.len() == on_disk.len(),
            plans.len() <= u32::MAX,
            scan@ == scanned(model.take(i as int), on_disk@),
            scan@.already_existed <= i,
    {
        proof {
            assert(model.take(i + 1).drop_last() =~= model.take(i as int));
            assert(model[i as int] == opt_image(plans@[i as int]));
        }
        match plan {
            Some(image) => {
                scan.looked(image, on_disk[i]);
            },
            None => {},
        }
        i = i + 1;
    }
    assert(model.take(i as int) =~= model);
    scan
}

/// The images that are there at all.
pub open spec fn planned(plans: Seq<Option<ImageModel>>) -> Seq<ImageModel> {
    plans.filter_map(|plan: Option<ImageModel>| plan)
}

/// With both sorts an image goes into the folder of its article in the folder of
/// its device; with one of them, into that folder; with neither, into the output
/// directory itself.
pub proof fn law_output_structure(device: Seq<char>, article: Seq<char>)
    ensures
        image_folders(true, true, device, article) == seq![device, article],
        image_folders(true, false, device, article) == seq![device],
        image_folders(false, true, device, article) == seq![article],
        image_folders(false, false, device, article) == Seq::<Seq<char>>::empty(),
{
}

/// A planned image has a file name that begins with no slash and ends the link,
/// and its address is that of the link. Only slashes stand between the root and
/// the file name.
pub proof fn law_planned_image(
    link: Seq<char>,
    device: Seq<char>,
    article: Seq<char>,
    device_sort: bool,
    article_sort: bool,
)
    requires
        IMAGE_ROOT@.is_prefix_of(link),
    ensures
        match image_plan(link, device, article, device_sort, article_sort) {
            Some(image) => {
                &&& image.url == site_url(link)
                &&& image.filename.len() > 0
                &&& image.filename[0] != '/'
                &&& image.filename.is_suffix_of(link)
                &&& forall|i: int|
                    IMAGE_ROOT@.len() <= i < link.len() - image.filename.len() ==> #[trigger] link[i]
                        == '/'
            },
            None => forall|i: int| IMAGE_ROOT@.len() <= i < link.len() ==> #[trigger] link[i] == '/',
        },
{
    let root = IMAGE_ROOT@.len() as int;
    let rest = link.skip(root);
    let filename = image_filename(link);
    lemma_trim_leading(rest, '/');
    assert forall|i: int| root <= i < link.len() - filename.len() implies #[trigger] link[i]
        == '/' by {
        assert(rest[i - root] == '/');
    }
    assert(link.subrange(link.len() - filename.len(), link.len() as int) =~= filename) by {
        assert forall|i: int| 0 <= i < filename.len() implies filename[i] == link[link.len()
            - filename.len() + i] by {
            assert(filename[i] == rest.subrange(rest.len() - filename.len(), rest.len() as int)[i]);
        }
    }
}

/// Each image of an article is either skipped or to be downloaded, and what is to
/// be downloaded is an image that was not on disk.
pub proof fn law_existing_images_are_skipped(plans: Seq<Option<ImageModel>>, on_disk: Seq<bool>)
    requires
        plans.len() <= on_disk.len(),
    ensures
        scanned(plans, on_disk).already_existed + scanned(plans, on_disk).tasks.len() == planned(
            plans,
        ).len(),
        forall|image: ImageModel|
            scanned(plans, on_disk).tasks.contains(image) <==> exists|i: int|
                0 <= i < plans.len() && #[trigger] plans[i] == Some(image) && !on_disk[i],
    decreases plans.len(),
{
    if plans.len() > 0 {
        let n = plans.len() - 1;
        let short = plans.drop_last();
        let before = scanned(short, on_disk);
        let after = scanned(plans, on_disk);
        law_existing_images_are_skipped(short, on_disk);
        assert forall|image: ImageModel|
            after.tasks.contains(image) <==> exists|i: int|
                0 <= i < plans.len() && #[trigger] plans[i] == Some(image) && !on_disk[i] by {
            if after.tasks.contains(image) {
                let k = choose|k: int| 0 <= k < after.tasks.len() && after.tasks[k] == image;
                if k < before.tasks.len() {
                    assert(before.tasks.contains(before.tasks[k]));
                    let i = choose|i: int|
                        0 <= i < short.len() && #[trigger] short[i] == Some(image) && !on_disk[i];
                    assert(plans[i] == Some(image));
                } else {
                    assert(plans[n] == Some(image));
                }
            }
            if exists|i: int|
                0 <= i < plans.len() && #[trigger] plans[i] == Some(image) && !on_disk[i] {
                let i = choose|i: int|
                    0 <= i < plans.len() && #[trigger] plans[i] == Some(image) && !on_disk[i];
                if i < n {
                    assert(short[i] == Some(image));
                    assert(before.tasks.contains(image));
                    let k = choose|k: int| 0 <= k < before.tasks.len() && before.tasks[k] == image;
                    assert(after.tasks[k] == image);
                } else {
                    assert(after.tasks.last() == image);
                }
            }
        }
    }
}

/// Running again over an article whose images are all on disk downloads nothing.
pub proof fn law_rerun_downloads_nothing(plans: Seq<Option<ImageModel>>, on_disk: Seq<bool>)
    requires
        plans.len() <= on_disk.len(),
        forall|i: int| 0 <= i < plans.len() && plans[i] is Some ==> #[trigger] on_disk[i],
    ensures
        scanned(plans, on_disk).tasks.len() == 0,
        scanned(plans, on_disk).already_existed == planned(plans).len(),
{
    law_existing_images_are_skipped(plans, on_disk);
    let tasks = scanned(plans, on_disk).tasks;
    if tasks.len() > 0 {
        assert(tasks.contains(tasks[0]));
        let i = choose|i: int|
            0 <= i < plans.len() && #[trigger] plans[i] == Some(tasks[0]) && !on_disk[i];
        assert(on_disk[i]);
    }
}

} // verus!
