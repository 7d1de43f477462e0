//! Which configuration file is looked for where.

use vstd::prelude::*;

use crate::lookup::{
    after_global_probe, after_local_probe, first_step, global_step, global_step_model, ConfigFile,
    ConfigStep,
};
use crate::paths::{opt_path, FilePath, PathModel};
use crate::text::texts;

verus! {

/// The file that the command line names is loaded, as it is named; without one,
/// `config.toml` is looked for in the current directory.
pub proof fn law_first_step(named: Option<FilePath>, step: ConfigStep)
    requires
        call_ensures(first_step, (named,), step),
    ensures
        named matches Some(path) ==> (step matches ConfigStep::Load(file) && file.base@ == path@
            && file.below@.len() == 0),
        named is None ==> (step matches ConfigStep::ProbeLocal(file) && file.base@
            == PathModel::Text("config.toml"@) && file.below@.len() == 0),
{
    if named is Some {
        assert(step@->Load_0.below.len() == 0);
    } else {
        assert(step@->ProbeLocal_0.below.len() == 0);
    }
}

/// `step` looks for `.config/wallpaper-downloader/config.toml` in `home`, or does
/// without a file where there is no home.
pub open spec fn looks_in_home(home: Option<FilePath>, step: ConfigStep) -> bool {
    &&& home matches Some(dir) ==> {
        &&& step matches ConfigStep::ProbeGlobal(file)
        &&& file.base@ == dir@
        &&& file.below@.len() == 3
        &&& file.below@[0]@ == ".config"@
        &&& file.below@[1]@ == "wallpaper-downloader"@
        &&& file.below@[2]@ == "config.toml"@
    }
    &&& home is None ==> step is UseDefaults
}

/// The step to the home directory.
pub proof fn law_global_step(home: Option<FilePath>, step: ConfigStep)
    requires
        call_ensures(global_step, (home,), step),
    ensures
        looks_in_home(home, step),
{
    lemma_looks_in_home(home, step);
}

proof fn lemma_looks_in_home(home: Option<FilePath>, step: ConfigStep)
    requires
        step@ == global_step_model(opt_path(home)),
    ensures
        looks_in_home(home, step),
{
    if home is Some {
        let below = step->ProbeGlobal_0.below@;
        let model = step@->ProbeGlobal_0.below;
        assert(model == texts(below));
        assert(model[0] == below[0]@ && model[1] == below[1]@ && model[2] == below[2]@);
    }
}

/// A file in the current directory is loaded; without one, the home directory
/// comes next.
pub proof fn law_after_local_probe(
    file: ConfigFile,
    exists_on_disk: bool,
    home: Option<FilePath>,
    step: ConfigStep,
)
    requires
        call_ensures(after_local_probe, (file, exists_on_disk, home), step),
    ensures
        exists_on_disk ==> step == ConfigStep::Load(file),
        !exists_on_disk ==> looks_in_home(home, step),
{
    if !exists_on_disk {
        lemma_looks_in_home(home, step);
    }
}

/// A file in the home directory is loaded; without one, there is none.
pub proof fn law_after_global_probe(file: ConfigFile, exists_on_disk: bool, step: ConfigStep)
    requires
        call_ensures(after_global_probe, (file, exists_on_disk), step),
    ensures
        exists_on_disk ==> step == ConfigStep::Load(file),
        !exists_on_disk ==> step is UseDefaults,
{
}

} // verus!
