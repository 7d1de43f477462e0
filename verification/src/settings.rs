//! The settings of a run: what the command line says, else what the
//! configuration file says, else the defaults.

use vstd::prelude::*;

use crate::expansion::names_home;
use crate::paths::{
    environment_made, expand_path, law_plain_path_is_kept, may_become, opt_path, FilePath,
    PathModel,
};

verus! {

pub const DEFAULT_OUTPUT: &'static str = "downloads";

pub const DEFAULT_PARALLEL_ARTICLES: usize = 4;

pub const DEFAULT_PARALLEL_IMAGES: usize = 3;

pub const DEFAULT_DELAY: u64 = 250;

/// What the command line asks for.
#[derive(Debug)]
pub struct Args {
    /// Output directory for downloaded wallpapers.
    pub output: Option<FilePath>,
    /// Maximum number of articles to fetch concurrently.
    pub parallel_articles: Option<u64>,
    /// Maximum number of images to download concurrently per article.
    pub parallel_images: Option<u64>,
    /// Sort images into device subfolders.
    pub device_sort: Option<bool>,
    /// Sort images into article subfolders.
    pub article_sort: Option<bool>,
    /// Delay in milliseconds between downloads.
    pub delay: Option<u64>,
    /// Open the output folder when finished.
    pub open: bool,
    /// Path to the configuration file.
    pub config: Option<FilePath>,
}

/// What the configuration file asks for. All fields are optional.
#[derive(Debug)]
pub struct Config {
    pub output: Option<FilePath>,
    pub parallel_articles: Option<usize>,
    pub parallel_images: Option<usize>,
    pub device_sort: Option<bool>,
    pub article_sort: Option<bool>,
    pub delay: Option<u64>,
    pub open_on_finish: Option<bool>,
}

/// The settings in force.
#[derive(Debug)]
pub struct Settings {
    pub output: FilePath,
    pub parallel_articles: usize,
    pub parallel_images: usize,
    pub device_sort: bool,
    pub article_sort: bool,
    pub delay: u64,
    pub open_on_finish: bool,
}

/// Why settings are refused.
#[derive(Clone, Copy, Debug, PartialEq, Eq, Structural)]
pub enum SettingsError {
    ZeroParallelArticles,
    ZeroParallelImages,
}

impl SettingsError {
    /// What the user is told.
    pub fn message(&self) -> (text: &'static str)
        ensures
            text@ == match *self {
                SettingsError::ZeroParallelArticles => "parallel_articles must be at least 1"@,
                SettingsError::ZeroParallelImages => "parallel_images must be at least 1"@,
            },
    {
        match self {
            SettingsError::ZeroParallelArticles => "parallel_articles must be at least 1",
            SettingsError::ZeroParallelImages => "parallel_images must be at least 1",
        }
    }
}

impl Default for Config {
    /// A configuration that asks for nothing.
    fn default() -> (config: Config)
        ensures
            config == no_config(),
    {
        Config {
            output: None,
            parallel_articles: None,
            parallel_images: None,
            device_sort: None,
            article_sort: None,
            delay: None,
            open_on_finish: None,
        }
    }
}

/// The configuration that asks for nothing.
pub open spec fn no_config() -> Config {
    Config {
        output: None,
        parallel_articles: None,
        parallel_images: None,
        device_sort: None,
        article_sort: None,
        delay: None,
        open_on_finish: None,
    }
}

/// The command line's value, else the configuration's, else the default.
pub open spec fn pick<T>(cli: Option<T>, config: Option<T>, default: T) -> T {
    match cli {
        Some(v) => v,
        None => match config {
            Some(v) => v,
            None => default,
        },
    }
}

/// A count from the command line as the machine counts.
pub open spec fn machine_count(count: Option<u64>) -> Option<usize> {
    match count {
        Some(v) => Some(v as usize),
        None => None,
    }
}

/// The output directory that was asked for, before expansion.
pub open spec fn asked_output(args: Args, config: Config) -> PathModel {
    pick(opt_path(args.output), opt_path(config.output), PathModel::Text(DEFAULT_OUTPUT@))
}

/// The number of articles to fetch at once that was asked for.
pub open spec fn asked_articles(args: Args, config: Config) -> usize {
    pick(
        machine_count(args.parallel_articles),
        config.parallel_articles,
        DEFAULT_PARALLEL_ARTICLES,
    )
}

/// The number of images to download at once that was asked for.
pub open spec fn asked_images(args: Args, config: Config) -> usize {
    pick(machine_count(args.parallel_images), config.parallel_images, DEFAULT_PARALLEL_IMAGES)
}

/// Why what was asked for is refused, if it is: nothing runs at a width of zero.
pub open spec fn refusal(args: Args, config: Config) -> Option<SettingsError> {
    if asked_articles(args, config) == 0 {
        Some(SettingsError::ZeroParallelArticles)
    } else if asked_images(args, config) == 0 {
        Some(SettingsError::ZeroParallelImages)
    } else {
        None
    }
}

/// Every setting but the output directory is the one that was asked for.
pub open spec fn follows(settings: Settings, args: Args, config: Config) -> bool {
    &&& settings.parallel_articles == asked_articles(args, config)
    &&& settings.parallel_images == asked_images(args, config)
    &&& settings.device_sort == pick(args.device_sort, config.device_sort, true)
    &&& settings.article_sort == pick(args.article_sort, config.article_sort, true)
    &&& settings.delay == pick(args.delay, config.delay, DEFAULT_DELAY)
    &&& settings.open_on_finish == (args.open || config.open_on_finish == Some(true))
}

impl Settings {
    /// Settings that a run can work with: it always makes progress.
    pub open spec fn valid(&self) -> bool {
        &&& self.parallel_articles >= 1
        &&& self.parallel_images >= 1
    }
}

fn pick_value<T: Copy>(cli: Option<T>, config: Option<T>, default: T) -> (value: T)
    ensures
        value == pick(cli, config, default),
{
    match cli {
        Some(v) => v,
        None => match config {
            Some(v) => v,
            None => default,
        },
    }
}

fn count_from_cli(count: Option<u64>) -> (n: Option<usize>)
    ensures
        n == machine_count(count),
{
    match count {
        Some(v) => Some(#[verifier::truncate] (v as usize)),
        None => None,
    }
}

/// The output directory that was asked for.
pub fn choose_output(cli: Option<FilePath>, config: Option<FilePath>) -> (output: FilePath)
    ensures
        output@ == pick(opt_path(cli), opt_path(config), PathModel::Text(DEFAULT_OUTPUT@)),
{
    match cli {
        Some(path) => path,
        None => match config {
            Some(path) => path,
            None => FilePath::from_text(DEFAULT_OUTPUT),
        },
    }
}

/// Settles all settings but the output directory, which is given.
pub fn settings_with_output(args: &Args, config: &Config, output: FilePath) -> (result: Result<
    Settings,
    SettingsError,
>)
    ensures
        match result {
            Ok(settings) => refusal(*args, *config) is None && follows(settings, *args, *config)
                && settings.output == output && settings.valid(),
            Err(error) => refusal(*args, *config) == Some(error),
        },
{
    let parallel_articles: usize = pick_value(
        count_from_cli(args.parallel_articles),
        config.parallel_articles,
        DEFAULT_PARALLEL_ARTICLES,
    );
    let parallel_images: usize = pick_value(
        count_from_cli(args.parallel_images),
        config.parallel_images,
        DEFAULT_PARALLEL_IMAGES,
    );
    if parallel_articles == 0 {
        return Err(SettingsError::ZeroParallelArticles);
    }
    if parallel_images == 0 {
        return Err(SettingsError::ZeroParallelImages);
    }
    Ok(
        Settings {
            output,
            parallel_articles,
            parallel_images,
            device_sort: pick_value(args.device_sort, config.device_sort, true),
            article_sort: pick_value(args.article_sort, config.article_sort, true),
            delay: pick_value(args.delay, config.delay, DEFAULT_DELAY),
            open_on_finish: args.open || match config.open_on_finish {
                Some(open) => open,
                None => false,
            },
        },
    )
}

/// Merges the command line and the configuration file into the settings in
/// force. The output directory has `~` and variables expanded.
pub fn merge_settings(args: Args, config: Config) -> (result: Result<Settings, SettingsError>)
    ensures
        match result {
            Ok(settings) => refusal(args, config) is None && follows(settings, args, config)
                && may_become(asked_output(args, config), settings.output@) && environment_made(
                asked_output(args, config),
                settings.output@,
            ) && settings.valid(),
            Err(error) => refusal(args, config) == Some(error),
        },
{
    let mut args = args;
    let mut config = config;
    let asked = choose_output(args.output.take(), config.output.take());
    let output = expand_path(asked);
    settings_with_output(&args, &config, output)
}

/// The command line takes precedence: what it gives is what is in force,
/// whatever the configuration file says.
pub proof fn law_cli_takes_precedence(settings: Settings, args: Args, config: Config)
    requires
        follows(settings, args, config),
    ensures
        args.output is Some ==> asked_output(args, config) == args.output->0@,
        args.parallel_articles is Some ==> settings.parallel_articles
            == args.parallel_articles->0 as usize,
        args.parallel_images is Some ==> settings.parallel_images
            == args.parallel_images->0 as usize,
        args.device_sort is Some ==> settings.device_sort == args.device_sort->0,
        args.article_sort is Some ==> settings.article_sort == args.article_sort->0,
        args.delay is Some ==> settings.delay == args.delay->0,
        args.open ==> settings.open_on_finish,
{
}

/// Two configurations that differ only in what the command line gives come to the
/// same: both are refused alike, or the same settings follow from them.
pub proof fn law_config_behind_cli_does_not_matter(args: Args, one: Config, other: Config)
    requires
        args.output is None ==> opt_path(one.output) == opt_path(other.output),
        args.parallel_articles is None ==> one.parallel_articles == other.parallel_articles,
        args.parallel_images is None ==> one.parallel_images == other.parallel_images,
        args.device_sort is None ==> one.device_sort == other.device_sort,
        args.article_sort is None ==> one.article_sort == other.article_sort,
        args.delay is None ==> one.delay == other.delay,
        !args.open ==> one.open_on_finish == other.open_on_finish,
    ensures
        refusal(args, one) == refusal(args, other),
        asked_output(args, one) == asked_output(args, other),
        forall|settings: Settings|
            follows(settings, args, one) <==> follows(settings, args, other),
        forall|a: Settings, b: Settings|
            follows(a, args, one) && follows(b, args, other) && a.output == b.output ==> a == b,
{
}

/// The configuration file fills in what the command line leaves open.
pub proof fn law_config_overrides_defaults(settings: Settings, args: Args, config: Config)
    requires
        follows(settings, args, config),
    ensures
        args.output is None && config.output is Some ==> asked_output(args, config)
            == config.output->0@,
        args.parallel_articles is None && config.parallel_articles is Some
            ==> settings.parallel_articles == config.parallel_articles->0,
        args.parallel_images is None && config.parallel_images is Some ==> settings.parallel_images
            == config.parallel_images->0,
        args.device_sort is None && config.device_sort is Some ==> settings.device_sort
            == config.device_sort->0,
        args.article_sort is None && config.article_sort is Some ==> settings.article_sort
            == config.article_sort->0,
        args.delay is None && config.delay is Some ==> settings.delay == config.delay->0,
        !args.open && config.open_on_finish is Some ==> settings.open_on_finish
            == config.open_on_finish->0,
{
}

/// Every field of the configuration file is optional: what neither it nor the
/// command line gives has its default.
pub proof fn law_defaults_fill_in(settings: Settings, args: Args, config: Config)
    requires
        follows(settings, args, config),
    ensures
        args.output is None && config.output is None ==> asked_output(args, config)
            == PathModel::Text(DEFAULT_OUTPUT@),
        args.parallel_articles is None && config.parallel_articles is None
            ==> settings.parallel_articles == DEFAULT_PARALLEL_ARTICLES,
        args.parallel_images is None && config.parallel_images is None ==> settings.parallel_images
            == DEFAULT_PARALLEL_IMAGES,
        args.device_sort is None && config.device_sort is None ==> settings.device_sort,
        args.article_sort is None && config.article_sort is None ==> settings.article_sort,
        args.delay is None && config.delay is None ==> settings.delay == DEFAULT_DELAY,
        !args.open && config.open_on_finish is None ==> !settings.open_on_finish,
{
}

/// An output directory that is asked for as a plain text, without `$` and not in
/// the home directory, is in force as it is.
pub proof fn law_plain_output_is_in_force(
    settings: Settings,
    args: Args,
    config: Config,
    text: Seq<char>,
)
    requires
        may_become(asked_output(args, config), settings.output@),
        asked_output(args, config) == PathModel::Text(text),
        !text.contains('$'),
        !names_home(text),
    ensures
        settings.output@ == PathModel::Text(text),
{
    law_plain_path_is_kept(text, settings.output@);
}

/// The default output directory is in force as it is, whatever the environment.
pub proof fn law_default_output_is_in_force(settings: Settings, args: Args, config: Config)
    requires
        may_become(asked_output(args, config), settings.output@),
        args.output is None,
        config.output is None,
    ensures
        settings.output@ == PathModel::Text(DEFAULT_OUTPUT@),
{
    reveal_strlit("downloads");
    law_plain_output_is_in_force(settings, args, config, DEFAULT_OUTPUT@);
}

} // verus!
