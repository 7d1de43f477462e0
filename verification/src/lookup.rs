//! Looking for the configuration file: the one that the command line names, else
//! the one in the current directory, else the one in the user's home directory,
//! `~/.config/wallpaper-downloader/config.toml`.

use vstd::prelude::*;

use crate::paths::{opt_path, FilePath, PathModel};
use crate::settings::{asked_output, follows, no_config, refusal, Args, Config, Settings};
use crate::text::texts;

verus! {

pub const CONFIG_FILE: &'static str = "config.toml";

pub const CONFIG_HOME: &'static str = ".config";

pub const CONFIG_FOLDER: &'static str = "wallpaper-downloader";

/// A configuration file: a path, and the steps to go down from it.
#[derive(Debug, PartialEq, Eq)]
pub struct ConfigFile {
    pub base: FilePath,
    pub below: Vec<String>,
}

/// Which configuration file it is.
pub struct ConfigFileModel {
    pub base: PathModel,
    pub below: Seq<Seq<char>>,
}

impl View for ConfigFile {
    type V = ConfigFileModel;

    open spec fn view(&self) -> ConfigFileModel {
        ConfigFileModel { base: self.base@, below: texts(self.below@) }
    }
}

/// What to do next about the configuration file.
#[derive(Debug, PartialEq, Eq)]
pub enum ConfigStep {
    /// Load this file.
    Load(ConfigFile),
    /// See whether there is this file in the current directory.
    ProbeLocal(ConfigFile),
    /// See whether there is this file in the user's home directory.
    ProbeGlobal(ConfigFile),
    /// Do without a configuration file.
    UseDefaults,
}

/// What to do next about the configuration file.
pub enum ConfigStepModel {
    Load(ConfigFileModel),
    ProbeLocal(ConfigFileModel),
    ProbeGlobal(ConfigFileModel),
    UseDefaults,
}

impl View for ConfigStep {
    type V = ConfigStepModel;

    open spec fn view(&self) -> ConfigStepModel {
        match self {
            ConfigStep::Load(file) => ConfigStepModel::Load(file@),
            ConfigStep::ProbeLocal(file) => ConfigStepModel::ProbeLocal(file@),
            ConfigStep::ProbeGlobal(file) => ConfigStepModel::ProbeGlobal(file@),
            ConfigStep::UseDefaults => ConfigStepModel::UseDefaults,
        }
    }
}

/// The file that the command line names.
pub open spec fn named_file(path: PathModel) -> ConfigFileModel {
    ConfigFileModel { base: path, below: seq![] }
}

/// The file in the current directory.
pub open spec fn local_file() -> ConfigFileModel {
    ConfigFileModel { base: PathModel::Text(CONFIG_FILE@), below: seq![] }
}

/// The file in the user's home directory.
pub open spec fn global_file(home: PathModel) -> ConfigFileModel {
    ConfigFileModel { base: home, below: seq![CONFIG_HOME@, CONFIG_FOLDER@, CONFIG_FILE@] }
}

/// The step to the user's home directory, if there is one.
pub open spec fn global_step_model(home: Option<PathModel>) -> ConfigStepModel {
    match home {
        Some(dir) => ConfigStepModel::ProbeGlobal(global_file(dir)),
        None => ConfigStepModel::UseDefaults,
    }
}

/// The first step, by what the command line says.
pub open spec fn first_step_model(named: Option<PathModel>) -> ConfigStepModel {
    match named {
        Some(path) => ConfigStepModel::Load(named_file(path)),
        None => ConfigStepModel::ProbeLocal(local_file()),
    }
}

/// The first step, by what the command line says.
pub fn first_step(named: Option<FilePath>) -> (step: ConfigStep)
    ensures
        step@ == first_step_model(opt_path(named)),
{
    match named {
        Some(path) => {
            let step = ConfigStep::Load(ConfigFile { base: path, below: Vec::new() });
            assert(step@->Load_0.below =~= seq![]);
            step
        },
        None => {
            let step = ConfigStep::ProbeLocal(
                ConfigFile { base: FilePath::from_text(CONFIG_FILE), below: Vec::new() },
            );
            assert(step@->ProbeLocal_0.below =~= seq![]);
            step
        },
    }
}

/// The step to the user's home directory, if there is one.
pub fn global_step(home: Option<FilePath>) -> (step: ConfigStep)
    ensures
        step@ == global_step_model(opt_path(home)),
{
    match home {
        Some(dir) => {
            let mut below: Vec<String> = Vec::new();
            below.push(CONFIG_HOME.to_owned());
            below.push(CONFIG_FOLDER.to_owned());
            below.push(CONFIG_FILE.to_owned());
            assert(texts(below@) =~= seq![CONFIG_HOME@, CONFIG_FOLDER@, CONFIG_FILE@]);
            ConfigStep::ProbeGlobal(ConfigFile { base: dir, below })
        },
        None => ConfigStep::UseDefaults,
    }
}

/// The step after looking for the file in the current directory. Where there is
/// none, the user's home directory comes next, if there is one.
pub fn after_local_probe(
    file: ConfigFile,
    exists_on_disk: bool,
    home: Option<FilePath>,
) -> (step: ConfigStep)
    ensures
        exists_on_disk ==> step == ConfigStep::Load(file),
        !exists_on_disk ==> step@ == global_step_model(opt_path(home)),
{
    if exists_on_disk {
        ConfigStep::Load(file)
    } else {
        global_step(home)
    }
}

/// The step after looking for the file in the user's home directory.
pub fn after_global_probe(file: ConfigFile, exists_on_disk: bool) -> (step: ConfigStep)
    ensures
        step == if exists_on_disk {
            ConfigStep::Load(file)
        } else {
            ConfigStep::UseDefaults
        },
{
    if exists_on_disk {
        ConfigStep::Load(file)
    } else {
        ConfigStep::UseDefaults
    }
}

/// The step after a probe, when the user's home directory is `home` and the file
/// probed for is there as told.
pub open spec fn after_probe(
    step: ConfigStepModel,
    home: Option<PathModel>,
    local_exists: bool,
    global_exists: bool,
) -> ConfigStepModel {
    match step {
        ConfigStepModel::ProbeLocal(file) => if local_exists {
            ConfigStepModel::Load(file)
        } else {
            global_step_model(home)
        },
        ConfigStepModel::ProbeGlobal(file) => if global_exists {
            ConfigStepModel::Load(file)
        } else {
            ConfigStepModel::UseDefaults
        },
        settled => settled,
    }
}

/// What the lookup comes to after its two probes.
pub open spec fn lookup_end(
    named: Option<PathModel>,
    home: Option<PathModel>,
    local_exists: bool,
    global_exists: bool,
) -> ConfigStepModel {
    after_probe(
        after_probe(first_step_model(named), home, local_exists, global_exists),
        home,
        local_exists,
        global_exists,
    )
}

/// The configuration that the lookup brings, when the files hold `contents`: that
/// of the one file that it loads, and none where it loads none.
pub open spec fn looked_up_config(
    end: ConfigStepModel,
    contents: spec_fn(ConfigFileModel) -> Config,
) -> Config {
    match end {
        ConfigStepModel::Load(file) => contents(file),
        _ => no_config(),
    }
}

/// Two probes settle which configuration file is loaded: the one that the command
/// line names; else the one in the current directory, if it is there; else the
/// one in the user's home directory, if it is there; else none.
pub proof fn law_lookup_order(
    named: Option<PathModel>,
    home: Option<PathModel>,
    local_exists: bool,
    global_exists: bool,
)
    ensures
        lookup_end(named, home, local_exists, global_exists) == match named {
            Some(path) => ConfigStepModel::Load(named_file(path)),
            None => if local_exists {
                ConfigStepModel::Load(local_file())
            } else {
                match home {
                    Some(dir) if global_exists => ConfigStepModel::Load(global_file(dir)),
                    _ => ConfigStepModel::UseDefaults,
                }
            },
        },
{
}

/// Configuration files are not merged with one another: where the command line
/// names one, or there is one in the current directory, it does not matter which
/// files come later in the order, or what they hold.
pub proof fn law_later_files_do_not_matter(
    args: Args,
    named: Option<PathModel>,
    one_home: Option<PathModel>,
    one_local: bool,
    one_global: bool,
    one_contents: spec_fn(ConfigFileModel) -> Config,
    other_home: Option<PathModel>,
    other_local: bool,
    other_global: bool,
    other_contents: spec_fn(ConfigFileModel) -> Config,
)
    requires
        named is Some || one_local,
        named is None ==> other_local == one_local,
        ({
            let chosen = match named {
                Some(path) => named_file(path),
                None => local_file(),
            };
            one_contents(chosen) == other_contents(chosen)
        }),
    ensures
        lookup_end(named, one_home, one_local, one_global) == lookup_end(
            named,
            other_home,
            other_local,
            other_global,
        ),
        ({
            let one = looked_up_config(
                lookup_end(named, one_home, one_local, one_global),
                one_contents,
            );
            let other = looked_up_config(
                lookup_end(named, other_home, other_local, other_global),
                other_contents,
            );
            &&& one == other
            &&& refusal(args, one) == refusal(args, other)
            &&& asked_output(args, one) == asked_output(args, other)
            &&& forall|s: Settings| follows(s, args, one) <==> follows(s, args, other)
        }),
{
}

} // verus!
