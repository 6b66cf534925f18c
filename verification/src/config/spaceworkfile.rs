//! The configuration that a project keeps at its root, and the walk up
//! the directories that finds it again.

use crate::config::document::{entry_string, string_at};
use crate::config::languagefile::{LanguageFile, LanguageFileView};
use crate::error::{Error, Failure};
use crate::path::AbsolutePath;
use crate::text::{lowercase, same_text};
use crate::spacework::workspace::{is_inside_workspace, Action, ActionView};
use vstd::prelude::*;
use vstd::string::*;

verus! {

/// The name of a project's configuration file.
pub const CONFIG_FILE: &'static str = "spacework.toml";

/// A project's configuration.
#[derive(Debug, PartialEq, Eq)]
pub struct SpaceworkFile {
    pub workspace: Workspace,
}

/// The `[workspace]` table of a project's configuration: the name of the
/// language that the project was made for.
#[derive(Debug, PartialEq, Eq)]
pub struct Workspace {
    pub language: String,
}

/// A configuration together with the directory that holds it: the
/// project's root.
#[derive(Debug, PartialEq, Eq)]
pub struct Located {
    pub dir: AbsolutePath,
    pub file: SpaceworkFile,
}

/// A search for the nearest configuration, on its way from a directory
/// up to the workspace root: `dir` is the directory to look into next.
#[derive(Debug, PartialEq, Eq)]
pub struct Walk {
    pub root: AbsolutePath,
    pub dir: AbsolutePath,
}

/// How a search goes on after one directory was looked into.
#[derive(Debug, PartialEq, Eq)]
pub enum Step {
    /// The directory holds the configuration: the search is over.
    Found(Located),
    /// It holds none: the search goes on in its parent.
    Continue(Walk),
}

/// The language that the configuration `text` records, where it is a
/// TOML document with a string `language` in its table `workspace`.
pub open spec fn configured_language(text: Seq<char>) -> Option<Seq<char>> {
    entry_string(text, "workspace"@, "language"@)
}

/// The text of the configuration that records `language`.
pub open spec fn config_text(language: Seq<char>) -> Seq<char> {
    "[workspace]\nlanguage = \""@ + language + "\""@
}

/// Whether a project of the language `file` finds its way back to it:
/// the language's name is its own lowercase form, a configuration that
/// records the name reads back as that name, and the language's source
/// file is not named like the configuration file.
pub open spec fn is_recorded_faithfully(file: LanguageFileView) -> bool {
    &&& lowercase(file.language.name) == file.language.name
    &&& configured_language(config_text(file.language.name)) == Some(file.language.name)
    &&& file.workspace.src != CONFIG_FILE@
}

/// The path of the configuration file of the directory `dir`.
pub open spec fn config_path(dir: Seq<Seq<char>>) -> Seq<Seq<char>> {
    dir.push(CONFIG_FILE@)
}

/// The language recorded in the directory `dir`, where the files `files`
/// hold a configuration for it.
pub open spec fn configuration_in(
    files: Map<Seq<Seq<char>>, Seq<char>>,
    dir: Seq<Seq<char>>,
) -> Option<Seq<char>> {
    if files.contains_key(config_path(dir)) {
        configured_language(files[config_path(dir)])
    } else {
        None
    }
}

/// What a search from `dir` finds among the files `files`: the nearest
/// directory, from `dir` up to `root`, that holds a configuration, and
/// the language recorded there.
pub open spec fn found_from(
    files: Map<Seq<Seq<char>>, Seq<char>>,
    root: Seq<Seq<char>>,
    dir: Seq<Seq<char>>,
) -> Option<(Seq<Seq<char>>, Seq<char>)>
    decreases dir.len(),
{
    if configuration_in(files, dir) is Some {
        Some((dir, configuration_in(files, dir)->0))
    } else if dir.len() <= root.len() {
        None
    } else {
        found_from(files, root, dir.drop_last())
    }
}

/// The directories that a search from `dir` looks into, in order.
pub open spec fn inspected_from(
    files: Map<Seq<Seq<char>>, Seq<char>>,
    root: Seq<Seq<char>>,
    dir: Seq<Seq<char>>,
) -> Seq<Seq<Seq<char>>>
    decreases dir.len(),
{
    if configuration_in(files, dir) is Some || dir.len() <= root.len() {
        seq![dir]
    } else {
        seq![dir] + inspected_from(files, root, dir.drop_last())
    }
}

/// A directory below the root, inside the workspace, has its parent
/// inside the workspace too.
pub proof fn lemma_parent_stays_inside(root: Seq<Seq<char>>, dir: Seq<Seq<char>>)
    requires
        root.is_prefix_of(dir),
        dir.len() > root.len(),
    ensures
        root.is_prefix_of(dir.drop_last()),
        dir.drop_last().is_prefix_of(dir),
{
    assert(root =~= dir.drop_last().subrange(0, root.len() as int));
    assert(dir.drop_last() =~= dir.subrange(0, dir.len() - 1));
}

/// A search that starts inside the workspace looks into no more
/// directories than lie from its start up to the root, and into none
/// outside the workspace: each is the start or an ancestor of it, and is
/// the root or below it.
pub proof fn lemma_search_is_bounded(
    files: Map<Seq<Seq<char>>, Seq<char>>,
    root: Seq<Seq<char>>,
    dir: Seq<Seq<char>>,
)
    requires
        root.is_prefix_of(dir),
    ensures
        1 <= inspected_from(files, root, dir).len() <= dir.len() - root.len() + 1,
        forall|i: int|
            0 <= i < inspected_from(files, root, dir).len() ==> root.is_prefix_of(
                #[trigger] inspected_from(files, root, dir)[i],
            ) && inspected_from(files, root, dir)[i].is_prefix_of(dir),
    decreases dir.len(),
{
    assert(dir.is_prefix_of(dir)) by {
        assert(dir =~= dir.subrange(0, dir.len() as int));
    }
    if !(configuration_in(files, dir) is Some || dir.len() <= root.len()) {
        let up = dir.drop_last();
        lemma_parent_stays_inside(root, dir);
        lemma_search_is_bounded(files, root, up);
        let rest = inspected_from(files, root, up);
        assert forall|i: int| 0 <= i < inspected_from(files, root, dir).len() implies root.is_prefix_of(
            #[trigger] inspected_from(files, root, dir)[i],
        ) && inspected_from(files, root, dir)[i].is_prefix_of(dir) by {
            if i > 0 {
                let seen = rest[i - 1];
                assert(inspected_from(files, root, dir)[i] == seen);
                assert(seen.is_prefix_of(up));
                assert(seen =~= dir.subrange(0, seen.len() as int));
            }
        }
    }
}

/// Where no directory from the start up to the workspace root holds a
/// configuration, the search finds none, after it has looked into each
/// of those directories once.
pub proof fn lemma_search_without_configuration(
    files: Map<Seq<Seq<char>>, Seq<char>>,
    root: Seq<Seq<char>>,
    dir: Seq<Seq<char>>,
)
    requires
        root.is_prefix_of(dir),
        forall|between: Seq<Seq<char>>|
            root.is_prefix_of(between) && between.is_prefix_of(dir) ==> #[trigger] configuration_in(
                files,
                between,
            ) is None,
    ensures
        found_from(files, root, dir) is None,
        inspected_from(files, root, dir).len() == dir.len() - root.len() + 1,
    decreases dir.len(),
{
    assert(dir.is_prefix_of(dir)) by {
        assert(dir =~= dir.subrange(0, dir.len() as int));
    }
    assert(configuration_in(files, dir) is None);
    if dir.len() > root.len() {
        let up = dir.drop_last();
        lemma_parent_stays_inside(root, dir);
        assert forall|between: Seq<Seq<char>>|
            root.is_prefix_of(between) && between.is_prefix_of(up) implies #[trigger] configuration_in(
            files,
            between,
        ) is None by {
            assert(between =~= dir.subrange(0, between.len() as int));
        }
        lemma_search_without_configuration(files, root, up);
    }
}

/// A search from anywhere in a project finds the project's own
/// configuration: where `project`, inside the workspace, holds a
/// configuration and no directory below it on the way down to `dir`
/// holds one, the search from `dir` finds what the search from `project`
/// finds.
pub proof fn lemma_search_from_below(
    files: Map<Seq<Seq<char>>, Seq<char>>,
    root: Seq<Seq<char>>,
    project: Seq<Seq<char>>,
    dir: Seq<Seq<char>>,
)
    requires
        root.is_prefix_of(project),
        project.is_prefix_of(dir),
        configuration_in(files, project) is Some,
        forall|between: Seq<Seq<char>>|
            project.is_prefix_of(between) && between.is_prefix_of(dir) && between != project
                ==> #[trigger] configuration_in(files, between) is None,
    ensures
        found_from(files, root, dir) == Some((project, configuration_in(files, project)->0)),
        found_from(files, root, dir) == found_from(files, root, project),
    decreases dir.len(),
{
    assert(dir.is_prefix_of(dir)) by {
        assert(dir =~= dir.subrange(0, dir.len() as int));
    }
    if dir.len() == project.len() {
        assert(dir =~= project);
    } else {
        assert(dir != project);
        assert(configuration_in(files, dir) is None);
        let up = dir.drop_last();
        lemma_parent_stays_inside(project, dir);
        assert forall|between: Seq<Seq<char>>|
            project.is_prefix_of(between) && between.is_prefix_of(up) && between != project implies #[trigger] configuration_in(
            files,
            between,
        ) is None by {
            assert(between =~= dir.subrange(0, between.len() as int));
        }
        lemma_search_from_below(files, root, project, up);
    }
}

impl SpaceworkFile {
    /// The configuration that records the language read from its
    /// `workspace.language` entry, if the entry was there.
    pub fn from_entry(language: Option<String>) -> (made: Result<SpaceworkFile, Error>)
        ensures
            made is Ok <==> language is Some,
            made matches Ok(file) ==> file.workspace.language == language->0,
            made matches Err(e) ==> e@ == Failure::MalformedConfiguration,
    {
        match language {
            Some(language) => Ok(SpaceworkFile { workspace: Workspace { language } }),
            None => Err(Error::MalformedConfiguration),
        }
    }

    /// The configuration that the TOML document `sw_file` holds.
    pub fn from_str(sw_file: &str) -> (made: Result<SpaceworkFile, Error>)
        ensures
            made is Ok <==> configured_language(sw_file@) is Some,
            made matches Ok(file) ==> Some(file.workspace.language@) == configured_language(
                sw_file@,
            ),
            made matches Err(e) ==> e@ == Failure::MalformedConfiguration,
    {
        SpaceworkFile::from_entry(string_at(sw_file, "workspace", "language"))
    }

    /// The text of the configuration that records `language`.
    pub fn text_for(language: &str) -> (text: String)
        ensures
            text@ == config_text(language@),
    {
        "[workspace]\nlanguage = \"".to_owned().concat(language).concat("\"")
    }

    /// The configuration file to write into the project directory `dir`
    /// for a project in the language of `langfile`: it records the
    /// language's name.
    pub fn create(dir: &AbsolutePath, langfile: &LanguageFile) -> (file: Action)
        ensures
            file@ == ActionView::WriteFile(config_path(dir@), config_text(langfile@.language.name)),
    {
        Action::WriteFile(
            dir.join(CONFIG_FILE),
            SpaceworkFile::text_for(langfile.language.name.as_str()),
        )
    }

    /// Whether a project of the language of `langfile` finds its way back
    /// to it, told by writing its configuration and reading it again.
    pub fn records_faithfully(langfile: &LanguageFile) -> (faithful: bool)
        ensures
            faithful == is_recorded_faithfully(langfile@),
    {
        let name = langfile.language.name.as_str();
        let lowered = name.to_lowercase();
        if !same_text(lowered.as_str(), name) {
            return false;
        }
        if same_text(langfile.workspace.src.as_str(), CONFIG_FILE) {
            return false;
        }
        match SpaceworkFile::from_str(SpaceworkFile::text_for(name).as_str()) {
            Ok(read) => same_text(read.workspace.language.as_str(), name),
            Err(_) => false,
        }
    }

    /// Begins the search for the configuration nearest to `dir`, which
    /// must be inside the workspace at `root`.
    pub fn find_in_dir(root: &AbsolutePath, dir: &AbsolutePath) -> (begun: Result<Walk, Error>)
        ensures
            begun is Ok <==> root@.is_prefix_of(dir@),
            begun matches Ok(walk) ==> walk.root@ == root@ && walk.dir@ == dir@ && walk.wf(),
            begun matches Err(e) ==> e@ == Failure::NotInWorkspace,
    {
        if !is_inside_workspace(dir, root) {
            Err(Error::NotInWorkspace)
        } else {
            Ok(Walk { root: root.duplicate(), dir: dir.duplicate() })
        }
    }
}

impl Walk {
    /// Whether the directory to look into is inside the workspace.
    pub open spec fn wf(&self) -> bool {
        self.root@.is_prefix_of(self.dir@)
    }

    /// How many directories lie between the one to look into and the
    /// workspace root: how many times the search can still go up.
    pub open spec fn depth(&self) -> int {
        self.dir@.len() - self.root@.len()
    }

    /// The one file that the search wants read next: the configuration
    /// file of the directory to look into.
    pub fn config_path(&self) -> (file: AbsolutePath)
        ensures
            file@ == config_path(self.dir@),
    {
        self.dir.join(CONFIG_FILE)
    }

    /// Goes on with the search, given what reading the file at
    /// `config_path` gave: its text, or `None` where it could not be
    /// read. A text that is a configuration ends the search in this
    /// directory. Otherwise the search moves to the parent directory,
    /// unless that would leave the workspace: then there is no
    /// configuration to find.
    pub fn advance(self, read: Option<&str>) -> (next: Result<Step, Error>)
        ensures
            ({
                let here = match read {
                    Some(text) => configured_language(text@),
                    None => None,
                };
                match next {
                    Ok(Step::Found(located)) => here == Some(located.file.workspace.language@)
                        && located.dir == self.dir,
                    Ok(Step::Continue(walk)) => here is None && self.depth() > 0 && walk.root
                        == self.root && walk.dir@ == self.dir@.drop_last() && walk.depth()
                        == self.depth() - 1 && (self.wf() ==> walk.wf()),
                    Err(e) => here is None && self.depth() <= 0 && e@
                        == Failure::ConfigurationNotFound,
                }
            }),
    {
        match read {
            Some(text) => match SpaceworkFile::from_str(text) {
                Ok(file) => {
                    return Ok(Step::Found(Located { dir: self.dir, file }));
                },
                Err(_) => {},
            },
            None => {},
        }
        if self.dir.components.len() <= self.root.components.len() {
            return Err(Error::ConfigurationNotFound);
        }
        match self.dir.parent() {
            Some(up) => {
                proof {
                    if self.wf() {
                        assert(self.root@ =~= up@.subrange(0, self.root@.len() as int));
                    }
                }
                Ok(Step::Continue(Walk { root: self.root, dir: up }))
            },
            None => Err(Error::ConfigurationNotFound),
        }
    }
}

} // verus!
