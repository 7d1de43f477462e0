//! What is in force when the command line, the configuration file and the
//! environment have had their say.

use vstd::prelude::*;

use crate::expansion::{law_expansion_is_asked_for, shell_gave};
use crate::paths::{expand_path, with_expansion, FilePath, PathModel};
use crate::settings::{
    choose_output, merge_settings, settings_with_output, Args, Config, Settings, SettingsError,
    DEFAULT_DELAY, DEFAULT_OUTPUT, DEFAULT_PARALLEL_ARTICLES, DEFAULT_PARALLEL_IMAGES,
};

verus! {

/// The number of articles in force is that of the command line, else that of the
/// configuration, else the default.
pub open spec fn articles_in_force(args: Args, config: Config, n: usize) -> bool {
    &&& args.parallel_articles matches Some(cli) ==> n == cli as usize
    &&& args.parallel_articles is None && config.parallel_articles is Some ==> Some(n)
        == config.parallel_articles
    &&& args.parallel_articles is None && config.parallel_articles is None ==> n
        == DEFAULT_PARALLEL_ARTICLES
}

/// The number of images in force is that of the command line, else that of the
/// configuration, else the default.
pub open spec fn images_in_force(args: Args, config: Config, n: usize) -> bool {
    &&& args.parallel_images matches Some(cli) ==> n == cli as usize
    &&& args.parallel_images is None && config.parallel_images is Some ==> Some(n)
        == config.parallel_images
    &&& args.parallel_images is None && config.parallel_images is None ==> n
        == DEFAULT_PARALLEL_IMAGES
}

/// Settings are refused only for a zero, and for each zero by its name.
pub proof fn law_settings_are_refused_only_for_a_zero(
    args: Args,
    config: Config,
    articles: usize,
    images: usize,
    result: Result<Settings, SettingsError>,
)
    requires
        call_ensures(merge_settings, (args, config), result),
        articles_in_force(args, config, articles),
        images_in_force(args, config, images),
    ensures
        result is Ok <==> articles >= 1 && images >= 1,
        result == Err::<Settings, SettingsError>(SettingsError::ZeroParallelArticles) <==> articles
            == 0,
        result == Err::<Settings, SettingsError>(SettingsError::ZeroParallelImages) <==> articles
            != 0 && images == 0,
{
}

/// The same holds when the output directory is given.
pub proof fn law_given_output_is_refused_only_for_a_zero(
    args: Args,
    config: Config,
    output: FilePath,
    articles: usize,
    images: usize,
    result: Result<Settings, SettingsError>,
)
    requires
        call_ensures(settings_with_output, (&args, &config, output), result),
        articles_in_force(args, config, articles),
        images_in_force(args, config, images),
    ensures
        result is Ok <==> articles >= 1 && images >= 1,
        result == Err::<Settings, SettingsError>(SettingsError::ZeroParallelArticles) <==> articles
            == 0,
        result == Err::<Settings, SettingsError>(SettingsError::ZeroParallelImages) <==> articles
            != 0 && images == 0,
        result matches Ok(settings) ==> settings.output == output,
{
}

/// Every setting in force is the one that the command line gives, else the one
/// that the configuration gives, else its default.
pub open spec fn settings_in_force(args: Args, config: Config, settings: Settings) -> bool {
    &&& articles_in_force(args, config, settings.parallel_articles)
    &&& images_in_force(args, config, settings.parallel_images)
    &&& args.device_sort matches Some(v) ==> settings.device_sort == v
    &&& args.device_sort is None && config.device_sort is Some ==> Some(settings.device_sort)
        == config.device_sort
    &&& args.device_sort is None && config.device_sort is None ==> settings.device_sort
    &&& args.article_sort matches Some(v) ==> settings.article_sort == v
    &&& args.article_sort is None && config.article_sort is Some ==> Some(settings.article_sort)
        == config.article_sort
    &&& args.article_sort is None && config.article_sort is None ==> settings.article_sort
    &&& args.delay matches Some(v) ==> settings.delay == v
    &&& args.delay is None && config.delay is Some ==> Some(settings.delay) == config.delay
    &&& args.delay is None && config.delay is None ==> settings.delay == DEFAULT_DELAY
    &&& settings.open_on_finish <==> args.open || config.open_on_finish == Some(true)
}

/// Merging puts in force what was asked for.
pub proof fn law_merged_settings_are_in_force(args: Args, config: Config, settings: Settings)
    requires
        call_ensures(merge_settings, (args, config), Ok(settings)),
    ensures
        settings_in_force(args, config, settings),
{
}

/// The same holds when the output directory is given.
pub proof fn law_given_output_settings_are_in_force(
    args: Args,
    config: Config,
    output: FilePath,
    settings: Settings,
)
    requires
        call_ensures(settings_with_output, (&args, &config, output), Ok(settings)),
    ensures
        settings_in_force(args, config, settings),
        settings.output == output,
{
}

/// A configuration that nothing was written into asks for nothing.
pub proof fn law_default_config(config: Config)
    requires
        call_ensures(<Config as Default>::default, (), config),
    ensures
        config.output is None,
        config.parallel_articles is None,
        config.parallel_images is None,
        config.device_sort is None,
        config.article_sort is None,
        config.delay is None,
        config.open_on_finish is None,
{
}

/// The user is told which number is zero.
pub proof fn law_refusal_message(error: SettingsError, text: &'static str)
    requires
        call_ensures(SettingsError::message, (&error,), text),
    ensures
        error is ZeroParallelArticles ==> text@ == "parallel_articles must be at least 1"@,
        error is ZeroParallelImages ==> text@ == "parallel_images must be at least 1"@,
{
}

/// The output directory asked for is that of the command line, else that of the
/// configuration, else the default.
pub proof fn law_chosen_output(cli: Option<FilePath>, config: Option<FilePath>, output: FilePath)
    requires
        call_ensures(choose_output, (cli, config), output),
    ensures
        cli matches Some(path) ==> output@ == path@,
        cli is None ==> (config matches Some(path) ==> output@ == path@),
        cli is None && config is None ==> output@ == PathModel::Text(DEFAULT_OUTPUT@),
{
}

/// What a path is expanded to is what the environment makes of it: the outcome of
/// a call on that very text, such as the home directory for a `~`. The text stays
/// only where that call gave no outcome or the same text, and a path that is no
/// text stays in any case.
pub open spec fn asked_of_the_environment(before: PathModel, after: PathModel) -> bool {
    match before {
        PathModel::Native(path) => after == PathModel::Native(path),
        PathModel::Text(text) => {
            &&& after is Text
            &&& shell_gave(text, Some(after->Text_0)) || (shell_gave(text, None) && after
                == PathModel::Text(text))
        },
    }
}

/// What an expansion gave is taken, and the text itself where it gave nothing.
pub proof fn law_with_expansion(text: String, expanded: Option<String>, result: FilePath)
    requires
        call_ensures(with_expansion, (text, expanded), result),
    ensures
        expanded matches Some(e) ==> result@ == PathModel::Text(e@),
        expanded is None ==> result@ == PathModel::Text(text@),
{
}

/// A path is expanded by asking the environment, and comes out as it answers.
pub proof fn law_path_comes_out_as_the_environment_answers(path: FilePath, result: FilePath)
    requires
        call_ensures(expand_path, (path,), result),
    ensures
        asked_of_the_environment(path@, result@),
{
}

/// The output directory in force is what the environment makes of the one asked
/// for.
pub proof fn law_output_comes_out_as_the_environment_answers(
    args: Args,
    config: Config,
    settings: Settings,
)
    requires
        call_ensures(merge_settings, (args, config), Ok(settings)),
    ensures
        args.output matches Some(path) ==> asked_of_the_environment(path@, settings.output@),
        args.output is None ==> (config.output matches Some(path) ==> asked_of_the_environment(
            path@,
            settings.output@,
        )),
        args.output is None && config.output is None ==> asked_of_the_environment(
            PathModel::Text(DEFAULT_OUTPUT@),
            settings.output@,
        ),
{
}

/// The answer comes out of a call of the outside function on that text.
pub(crate) proof fn law_environment_is_asked(text: Seq<char>, after: PathModel)
    requires
        asked_of_the_environment(PathModel::Text(text), after),
    ensures
        after is Text,
        exists|asked: &str, answer: Option<String>|
            asked@ == text && (answer matches Some(a) ==> after == PathModel::Text(a@)) && (answer
                is None ==> after == PathModel::Text(text)) && #[trigger] call_ensures(
                crate::expansion::shell_expand,
                (asked,),
                answer,
            ),
{
    if shell_gave(text, Some(after->Text_0)) {
        law_expansion_is_asked_for(text, Some(after->Text_0));
    } else {
        law_expansion_is_asked_for(text, None);
    }
}

} // verus!
