use std::path::PathBuf;

use wallpaper_downloader::paths::{expand_path, with_expansion, FilePath};
use wallpaper_downloader::settings::{
    merge_settings, settings_with_output, Args, Config, SettingsError, DEFAULT_DELAY,
    DEFAULT_OUTPUT, DEFAULT_PARALLEL_ARTICLES, DEFAULT_PARALLEL_IMAGES,
};

fn default_args() -> Args {
    Args {
        output: None,
        parallel_articles: None,
        parallel_images: None,
        device_sort: None,
        article_sort: None,
        delay: None,
        open: false,
        config: None,
    }
}

fn path(text: &str) -> Option<FilePath> {
    Some(FilePath::from_text(text))
}

#[test]
fn merge_config_overrides_defaults() {
    let config = Config {
        output: path("from_config"),
        parallel_articles: Some(10),
        parallel_images: Some(6),
        device_sort: Some(false),
        article_sort: Some(false),
        delay: Some(999),
        open_on_finish: Some(true),
    };
    let s = merge_settings(default_args(), config).unwrap();

    assert_eq!(s.output, FilePath::from_text("from_config"));
    assert_eq!(s.parallel_articles, 10);
    assert_eq!(s.parallel_images, 6);
    assert_eq!(s.device_sort, false);
    assert_eq!(s.article_sort, false);
    assert_eq!(s.delay, 999);
    assert_eq!(s.open_on_finish, true);
}

#[test]
fn merge_cli_overrides_config() {
    let args = Args {
        output: path("cli_output"),
        parallel_articles: Some(2),
        parallel_images: Some(1),
        device_sort: Some(true),
        article_sort: Some(true),
        delay: Some(100),
        open: false,
        config: None,
    };
    let config = Config {
        output: path("config_output"),
        parallel_articles: Some(10),
        parallel_images: Some(6),
        device_sort: Some(false),
        article_sort: Some(false),
        delay: Some(999),
        open_on_finish: Some(true),
    };
    let s = merge_settings(args, config).unwrap();

    assert_eq!(s.output, FilePath::from_text("cli_output"));
    assert_eq!(s.parallel_articles, 2);
    assert_eq!(s.parallel_images, 1);
    assert_eq!(s.device_sort, true);
    assert_eq!(s.article_sort, true);
    assert_eq!(s.delay, 100);
    assert_eq!(s.open_on_finish, true);
}

#[test]
fn merge_falls_back_to_defaults() {
    let s = merge_settings(default_args(), Config::default()).unwrap();

    assert_eq!(s.output, FilePath::from_text(DEFAULT_OUTPUT));
    assert_eq!(s.parallel_articles, DEFAULT_PARALLEL_ARTICLES);
    assert_eq!(s.parallel_images, DEFAULT_PARALLEL_IMAGES);
    assert_eq!(s.device_sort, true);
    assert_eq!(s.article_sort, true);
    assert_eq!(s.delay, DEFAULT_DELAY);
    assert_eq!(s.open_on_finish, false);
}

#[test]
fn merge_rejects_zero_parallel_articles() {
    let config = Config { parallel_articles: Some(0), ..Config::default() };
    assert!(merge_settings(default_args(), config).is_err());
}

#[test]
fn merge_rejects_zero_parallel_images() {
    let config = Config { parallel_images: Some(0), ..Config::default() };
    assert!(merge_settings(default_args(), config).is_err());
}

fn default_error(args: Args, config: Config) -> SettingsError {
    merge_settings(args, config).unwrap_err()
}

#[test]
fn merge_names_what_is_wrong() {
    let zero_articles = Config { parallel_articles: Some(0), ..Config::default() };
    let error = default_error(default_args(), zero_articles);
    assert_eq!(error, SettingsError::ZeroParallelArticles);
    assert_eq!(error.message(), "parallel_articles must be at least 1");

    let zero_images = Config { parallel_images: Some(0), ..Config::default() };
    let error = default_error(default_args(), zero_images);
    assert_eq!(error, SettingsError::ZeroParallelImages);
    assert_eq!(error.message(), "parallel_images must be at least 1");

    let both = Config {
        parallel_articles: Some(0),
        parallel_images: Some(0),
        ..Config::default()
    };
    assert_eq!(default_error(default_args(), both), SettingsError::ZeroParallelArticles);
}

#[test]
fn merge_cli_mends_a_zero_in_the_config() {
    let args = Args { parallel_articles: Some(5), ..default_args() };
    let config = Config { parallel_articles: Some(0), ..Config::default() };
    assert_eq!(merge_settings(args, config).unwrap().parallel_articles, 5);
}

#[test]
fn merge_open_flag_wins() {
    let args = Args { open: true, ..default_args() };
    let config = Config { open_on_finish: Some(false), ..Config::default() };
    assert!(merge_settings(args, config).unwrap().open_on_finish);
}

#[test]
fn merge_with_a_given_output() {
    let args = Args { output: path("ignored"), ..default_args() };
    let s = settings_with_output(&args, &Config::default(), FilePath::from_text("given")).unwrap();
    assert_eq!(s.output, FilePath::from_text("given"));
}

#[test]
fn expand_keeps_plain_paths() {
    for text in ["", "downloads", "/abs/dir", "~someone/dir", "a~b", "dir/~"] {
        assert_eq!(expand_path(FilePath::from_text(text)), FilePath::from_text(text));
    }
}

#[test]
fn expand_replaces_variables() {
    let default = expand_path(FilePath::from_text("a/${WALLPAPER_TEST_UNSET:-y}/x"));
    assert_eq!(default, FilePath::from_text("a/y/x"));
    let escaped = expand_path(FilePath::from_text("a$$b"));
    assert_eq!(escaped, FilePath::from_text("a$b"));
    let unset = expand_path(FilePath::from_text("$WALLPAPER_TEST_UNSET/x"));
    assert_eq!(unset, FilePath::from_text("$WALLPAPER_TEST_UNSET/x"));
}

#[test]
fn expand_keeps_the_text_around_variables() {
    let cases = [
        ("${WALLPAPER_TEST_UNSET:-a}/${WALLPAPER_TEST_UNSET:-b}.c", "a/b.c"),
        ("${WALLPAPER_TEST_UNSET:-$$}$$", "$$$"),
        ("x${WALLPAPER_TEST_UNSET:-}y", "xy"),
        ("${WALLPAPER_TEST_UNSET:-~/a}", "~/a"),
        ("$$/$WALLPAPER_TEST_UNSET", "$$/$WALLPAPER_TEST_UNSET"),
        ("${WALLPAPER_TEST_UNSET}x", "${WALLPAPER_TEST_UNSET}x"),
        ("${:-WALLPAPER_TEST_UNSET}", "${:-WALLPAPER_TEST_UNSET}"),
    ];
    for (text, expected) in cases {
        assert_eq!(expand_path(FilePath::from_text(text)), FilePath::from_text(expected));
    }
}

#[test]
fn config_behind_the_command_line_does_not_matter() {
    let args = || Args { delay: Some(7), parallel_images: Some(2), ..default_args() };
    let one = Config { delay: Some(1), parallel_images: Some(0), ..Config::default() };
    let other = Config { delay: Some(2), ..Config::default() };
    let one = merge_settings(args(), one).unwrap();
    let other = merge_settings(args(), other).unwrap();
    assert_eq!((one.delay, one.parallel_images), (7, 2));
    assert_eq!((other.delay, other.parallel_images), (7, 2));
    assert_eq!(one.output, other.output);
}

#[test]
fn expand_reads_dollars_without_a_variable() {
    let cases = [
        ("$$", "$"),
        ("$$NAME/x", "$NAME/x"),
        ("a$$$$b", "a$$b"),
        ("$", "$"),
        ("a$", "a$"),
        ("a$/b", "a$/b"),
        ("${abc", "${abc"),
        ("$}{", "$}{"),
        ("~x/$$", "~x/$"),
    ];
    for (text, expected) in cases {
        assert_eq!(expand_path(FilePath::from_text(text)), FilePath::from_text(expected));
    }
}

#[test]
fn expand_uses_the_home_directory() {
    let expected = match dirs::home_dir().and_then(|h| h.into_os_string().into_string().ok()) {
        Some(home) => format!("{home}/Wallpapers"),
        None => "~/Wallpapers".to_string(),
    };
    let expanded = expand_path(FilePath::from_text("~/Wallpapers"));
    assert_eq!(expanded, FilePath::Text(expected));
}

#[test]
fn expand_leaves_native_paths_alone() {
    let native = FilePath::Native(PathBuf::from("~/$HOME"));
    assert_eq!(expand_path(native), FilePath::Native(PathBuf::from("~/$HOME")));
}

#[test]
fn expansion_that_failed_keeps_the_text() {
    let kept = with_expansion("$x".to_string(), None);
    assert_eq!(kept, FilePath::from_text("$x"));
    let taken = with_expansion("$x".to_string(), Some("y".to_string()));
    assert_eq!(taken, FilePath::from_text("y"));
}

#[test]
fn merge_expands_the_output() {
    let args = Args { output: path("${WALLPAPER_TEST_UNSET:-walls}/new"), ..default_args() };
    let s = merge_settings(args, Config::default()).unwrap();
    assert_eq!(s.output, FilePath::from_text("walls/new"));
}
