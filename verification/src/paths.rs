//! File paths as the settings hold them, and what expansion makes of them.

use std::path::PathBuf;

use vstd::prelude::*;

use crate::expansion::{
    expand_text, expands_with, lemma_literal_without_dollar, lemma_one_variable,
    lemma_prefix_is_kept, lemma_without_variables, literal_text, may_expand_to, may_fail,
    names_home, one_variable, shell_gave,
};

verus! {

/// `std::path::PathBuf`, carried through unread.
#[verifier::external_type_specification]
#[verifier::external_body]
pub struct ExPathBuf(PathBuf);

/// A path. A path that is valid Unicode, and is to be expanded, is held as text;
/// any other one as the platform's own value, which is only handed on.
#[derive(Debug, PartialEq, Eq)]
pub enum FilePath {
    Text(String),
    Native(PathBuf),
}

/// What a path is, as far as the settings look into it.
pub enum PathModel {
    Text(Seq<char>),
    Native(PathBuf),
}

impl View for FilePath {
    type V = PathModel;

    open spec fn view(&self) -> PathModel {
        match self {
            FilePath::Text(text) => PathModel::Text(text@),
            FilePath::Native(path) => PathModel::Native(*path),
        }
    }
}

impl FilePath {
    /// The path that `text` names.
    pub fn from_text(text: &str) -> (path: FilePath)
        ensures
            path@ == PathModel::Text(text@),
    {
        FilePath::Text(text.to_owned())
    }
}

/// The model of a path that may be absent.
pub open spec fn opt_path(path: Option<FilePath>) -> Option<PathModel> {
    match path {
        Some(p) => Some(p@),
        None => None,
    }
}

/// Takes the outcome of an expansion, or the text itself where there is none.
pub fn with_expansion(text: String, expanded: Option<String>) -> (result: FilePath)
    ensures
        result@ == PathModel::Text(
            match expanded {
                Some(e) => e@,
                None => text@,
            },
        ),
{
    match expanded {
        Some(e) => FilePath::Text(e),
        None => FilePath::Text(text),
    }
}

/// `after` is what `before` can become when `~` and variables are expanded. A
/// path that is no text is left alone, and so is one whose expansion fails.
pub open spec fn may_become(before: PathModel, after: PathModel) -> bool {
    match before {
        PathModel::Native(_) => after == before,
        PathModel::Text(text) => after matches PathModel::Text(t) && (may_expand_to(text, t) || (
        may_fail(text) && t == text)),
    }
}

/// `after` is what the environment made of `before`: a path that is no text is
/// left alone, a text becomes what its expansion gave, and stays where that
/// failed.
pub open spec fn environment_made(before: PathModel, after: PathModel) -> bool {
    match before {
        PathModel::Native(_) => after == before,
        PathModel::Text(text) => after matches PathModel::Text(t) && (shell_gave(text, Some(t)) || (
        shell_gave(text, None) && t == text)),
    }
}

/// Expands `~` and variables in a path. A path that is no valid Unicode, and one
/// that cannot be expanded, is handed back as it is.
pub fn expand_path(path: FilePath) -> (result: FilePath)
    ensures
        may_become(path@, result@),
        environment_made(path@, result@),
{
    match path {
        FilePath::Text(text) => {
            let expanded = expand_text(text.as_str());
            with_expansion(text, expanded)
        },
        FilePath::Native(native) => FilePath::Native(native),
    }
}

/// A path in which no variable is looked up, and that does not ask for the home
/// directory, becomes what it stands for, whatever the environment.
pub proof fn law_path_without_variables(text: Seq<char>, after: PathModel)
    requires
        may_become(PathModel::Text(text), after),
        literal_text(text) is Some,
        !names_home(text),
    ensures
        after == PathModel::Text(literal_text(text)->0),
{
    lemma_without_variables(text);
}

/// A path without `$` that does not ask for the home directory is not changed by
/// expansion.
pub proof fn law_plain_path_is_kept(text: Seq<char>, after: PathModel)
    requires
        may_become(PathModel::Text(text), after),
        !text.contains('$'),
        !names_home(text),
    ensures
        after == PathModel::Text(text),
{
    lemma_literal_without_dollar(text);
    law_path_without_variables(text, after);
}

/// Of a path that asks for the home directory, and holds no `$`, at most the `~`
/// is replaced.
pub proof fn law_home_path_keeps_its_rest(text: Seq<char>, after: PathModel)
    requires
        may_become(PathModel::Text(text), after),
        !text.contains('$'),
        names_home(text),
    ensures
        after matches PathModel::Text(t) && text.skip(1).is_suffix_of(t),
{
    lemma_literal_without_dollar(text);
    lemma_without_variables(text);
    let t = after->Text_0;
    assert(t.subrange(t.len() - (text.len() - 1), t.len() as int) =~= text.skip(1));
}

/// Of a path that holds one variable, and does not begin with `~`, at most the
/// variable is replaced: what stands before it and behind it stays in place.
pub proof fn law_text_around_a_variable_is_kept(
    text: Seq<char>,
    from: int,
    to: int,
    after: PathModel,
)
    requires
        may_become(PathModel::Text(text), after),
        one_variable(text, from, to),
        text[0] != '~',
    ensures
        after matches PathModel::Text(t) && exists|value: Seq<char>|
            t == #[trigger] (text.take(from) + value + text.skip(to)),
{
    let t = after->Text_0;
    if may_expand_to(text, t) {
        let (letters, answers) = choose|letters: Set<char>, answers: Seq<Option<Seq<char>>>|
            #[trigger]
            expands_with(text, letters, answers, t);
        lemma_one_variable(text, from, to, letters, answers);
    } else {
        let value = text.subrange(from, to);
        assert(text =~= text.take(from) + value + text.skip(to));
    }
}

/// Up to the first `$`, a path that does not begin with `~` is kept as it is.
pub proof fn law_text_before_variables_is_kept(text: Seq<char>, n: int, after: PathModel)
    requires
        may_become(PathModel::Text(text), after),
        0 <= n <= text.len(),
        !text.take(n).contains('$'),
        text.len() == 0 || text[0] != '~',
    ensures
        after matches PathModel::Text(t) && text.take(n).is_prefix_of(t),
{
    let t = after->Text_0;
    if may_expand_to(text, t) {
        let (letters, answers) = choose|letters: Set<char>, answers: Seq<Option<Seq<char>>>|
            #[trigger]
            expands_with(text, letters, answers, t);
        lemma_prefix_is_kept(text, n, letters, answers);
    }
}

} // verus!
