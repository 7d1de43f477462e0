use std::path::PathBuf;

use wallpaper_downloader::lookup::{
    after_global_probe, after_local_probe, first_step, global_step, ConfigFile, ConfigStep,
};
use wallpaper_downloader::paths::FilePath;

fn local() -> ConfigFile {
    ConfigFile { base: FilePath::from_text("config.toml"), below: vec![] }
}

fn global(home: FilePath) -> ConfigFile {
    ConfigFile {
        base: home,
        below: vec![
            ".config".to_string(),
            "wallpaper-downloader".to_string(),
            "config.toml".to_string(),
        ],
    }
}

#[test]
fn named_file_is_loaded_first() {
    let named = FilePath::from_text("/etc/mine.toml");
    let file = ConfigFile { base: FilePath::from_text("/etc/mine.toml"), below: vec![] };
    assert_eq!(first_step(Some(named)), ConfigStep::Load(file));
}

#[test]
fn local_file_comes_next() {
    assert_eq!(first_step(None), ConfigStep::ProbeLocal(local()));
    let home = Some(FilePath::from_text("/home/a"));
    assert_eq!(after_local_probe(local(), true, home), ConfigStep::Load(local()));
    assert_eq!(after_local_probe(local(), true, None), ConfigStep::Load(local()));
}

#[test]
fn global_file_comes_last() {
    let home = || FilePath::from_text("/home/a");
    let step = after_local_probe(local(), false, Some(home()));
    assert_eq!(step, ConfigStep::ProbeGlobal(global(home())));
    assert_eq!(global_step(Some(home())), ConfigStep::ProbeGlobal(global(home())));
    assert_eq!(after_global_probe(global(home()), true), ConfigStep::Load(global(home())));
    assert_eq!(after_global_probe(global(home()), false), ConfigStep::UseDefaults);
}

#[test]
fn home_that_is_no_text_is_handed_on() {
    let home = || FilePath::Native(PathBuf::from("/home/a"));
    let step = after_local_probe(local(), false, Some(home()));
    assert_eq!(step, ConfigStep::ProbeGlobal(global(home())));
}

#[test]
fn without_a_home_there_is_no_global_file() {
    assert_eq!(after_local_probe(local(), false, None), ConfigStep::UseDefaults);
    assert_eq!(global_step(None), ConfigStep::UseDefaults);
}
