//! The workspace root, the projects below it, and the steps that create
//! a project.

use crate::config::languagefile::{resolved, template_for, LanguageFile, LanguageFileView};
use crate::config::spaceworkfile::{
    config_path, config_text, configuration_in, configured_language, found_from,
    is_recorded_faithfully, lemma_search_from_below, Located, SpaceworkFile, CONFIG_FILE,
};
use crate::registry::{
    builtin_registry, disjoint, is_builtin_failure, lemma_resolve_finds_its_language,
};
use crate::command::{is_invocation, Invocation};
use crate::error::{Error, Failure};
use crate::path::{is_below, is_plain_name, is_plain_name_text, render, AbsolutePath};
use vstd::prelude::*;

verus! {

/// What the environment says of the user's home directory.
#[derive(Debug)]
pub enum Home {
    /// The home directory.
    Found(AbsolutePath),
    /// The environment does not name a home directory.
    NotPresent,
    /// The environment names one, but not as valid text.
    NotUnicode,
}

/// One step of work on the filesystem, for the caller to carry out.
#[derive(Debug, PartialEq, Eq)]
pub enum Action {
    /// Create this directory.
    CreateDir(AbsolutePath),
    /// Create this file with these contents.
    WriteFile(AbsolutePath, String),
    /// Write this down in the history.
    Record(String),
}

/// A step as contracts speak of it.
pub enum ActionView {
    CreateDir(Seq<Seq<char>>),
    WriteFile(Seq<Seq<char>>, Seq<char>),
    Record(Seq<char>),
}

impl View for Action {
    type V = ActionView;

    open spec fn view(&self) -> ActionView {
        match self {
            Action::CreateDir(dir) => ActionView::CreateDir(dir@),
            Action::WriteFile(file, contents) => ActionView::WriteFile(file@, contents@),
            Action::Record(text) => ActionView::Record(text@),
        }
    }
}

/// The workspace, as the place where projects are created.
pub struct Workspace;

/// A project that is about to be created: where it goes and what its
/// first files hold.
#[derive(Debug, PartialEq, Eq)]
pub struct Project {
    /// The workspace root.
    pub root: AbsolutePath,
    /// The project's own directory.
    pub dir: AbsolutePath,
    /// The name of the project's language, as its configuration records
    /// it.
    pub language: String,
    /// The name of the project's source file.
    pub src: String,
    /// What the source file holds at first.
    pub template: String,
}

/// A project as contracts speak of it.
pub struct ProjectView {
    pub root: Seq<Seq<char>>,
    pub dir: Seq<Seq<char>>,
    pub language: Seq<char>,
    pub src: Seq<char>,
    pub template: Seq<char>,
}

impl View for Project {
    type V = ProjectView;

    open spec fn view(&self) -> ProjectView {
        ProjectView {
            root: self.root@,
            dir: self.dir@,
            language: self.language@,
            src: self.src@,
            template: self.template@,
        }
    }
}

/// The steps of a list, as contracts speak of them.
pub open spec fn action_views(actions: Seq<Action>) -> Seq<ActionView> {
    actions.map_values(|action: Action| action@)
}

impl ProjectView {
    /// Whether the project keeps to its workspace: its directory is the
    /// root or lies below it under plain names, and its source file has
    /// a plain name.
    pub open spec fn is_confined(self) -> bool {
        is_below(self.dir, self.root) && is_plain_name(self.src)
    }

    /// The steps that create the project's own tree: its directory with
    /// `src` and `bin` in it, then its configuration, then its source
    /// file.
    pub open spec fn own_steps(self) -> Seq<ActionView> {
        seq![
            ActionView::CreateDir(self.dir),
            ActionView::CreateDir(self.dir.push("src"@)),
            ActionView::CreateDir(self.dir.push("bin"@)),
            ActionView::WriteFile(config_path(self.dir), config_text(self.language)),
            ActionView::WriteFile(self.dir.push("src"@).push(self.src), self.template),
        ]
    }

    /// The steps that create the workspace root, and write down in the
    /// history that it was created.
    pub open spec fn root_steps(self) -> Seq<ActionView> {
        seq![
            ActionView::CreateDir(self.root),
            ActionView::Record("Created spacework directory: "@ + render(self.root)),
        ]
    }

    /// The steps that create the project, the workspace root first where
    /// it is not there yet.
    pub open spec fn steps(self, root_exists: bool) -> Seq<ActionView> {
        if root_exists {
            self.own_steps()
        } else {
            self.root_steps() + self.own_steps()
        }
    }
}

/// What creating the project `proj_name` for the language `file` in the
/// workspace at `root` starts from: the project's directory is the one
/// named `proj_name` in the language's directory. Both must be the name
/// of one directory, so that the project lies below the root.
pub open spec fn project_for(
    file: LanguageFileView,
    root: Seq<Seq<char>>,
    proj_name: Seq<char>,
) -> Result<ProjectView, Failure> {
    if !is_plain_name(proj_name) {
        Err(Failure::InvalidName(proj_name))
    } else if !is_plain_name(file.workspace.dir) {
        Err(Failure::InvalidName(file.workspace.dir))
    } else {
        project_of(file, root, proj_name)
    }
}

/// The project `proj_name` for the language `file`, whose source file
/// needs a template.
pub open spec fn project_of(
    file: LanguageFileView,
    root: Seq<Seq<char>>,
    proj_name: Seq<char>,
) -> Result<ProjectView, Failure> {
    match template_for(file.workspace.src) {
        Some(template) => Ok(
            ProjectView {
                root,
                dir: root.push(file.workspace.dir).push(proj_name),
                language: file.language.name,
                src: file.workspace.src,
                template,
            },
        ),
        None => Err(Failure::TemplateNotFound(file.workspace.src)),
    }
}

/// Whether a step keeps to the workspace at `root`: what it creates is
/// the root or lies below it, under names that are each the name of one
/// directory or file.
pub open spec fn is_confined(step: ActionView, root: Seq<Seq<char>>) -> bool {
    match step {
        ActionView::CreateDir(at) => is_below(at, root),
        ActionView::WriteFile(at, _) => is_below(at, root),
        ActionView::Record(_) => true,
    }
}

/// The names that the library itself gives to directories and files are
/// each the name of one directory or file.
pub proof fn lemma_own_names_are_plain()
    ensures
        is_plain_name("src"@),
        is_plain_name("bin"@),
        is_plain_name(CONFIG_FILE@),
        is_plain_name("main.c"@),
        is_plain_name("main.cpp"@),
{
    reveal_strlit("src");
    reveal_strlit("bin");
    reveal_strlit("spacework.toml");
    reveal_strlit("main.c");
    reveal_strlit("main.cpp");
    reveal_strlit(".");
    reveal_strlit("..");
    assert("src"@ =~= seq!['s', 'r', 'c']);
    assert("bin"@ =~= seq!['b', 'i', 'n']);
    assert("spacework.toml"@ =~= seq![
        's',
        'p',
        'a',
        'c',
        'e',
        'w',
        'o',
        'r',
        'k',
        '.',
        't',
        'o',
        'm',
        'l',
    ]);
    assert("main.c"@ =~= seq!['m', 'a', 'i', 'n', '.', 'c']);
    assert("main.cpp"@ =~= seq!['m', 'a', 'i', 'n', '.', 'c', 'p', 'p']);
}

/// Every step that creates a project which keeps to its workspace
/// keeps to it too.
pub proof fn lemma_steps_are_confined(project: ProjectView, root_exists: bool)
    requires
        project.is_confined(),
    ensures
        forall|i: int|
            0 <= i < project.steps(root_exists).len() ==> is_confined(
                #[trigger] project.steps(root_exists)[i],
                project.root,
            ),
{
    let root = project.root;
    let dir = project.dir;
    lemma_own_names_are_plain();
    assert(root =~= root.subrange(0, root.len() as int));
    assert(is_below(root, root));
    assert(is_below(dir.push("src"@), root)) by {
        assert(root =~= dir.push("src"@).subrange(0, root.len() as int));
    }
    assert(is_below(dir.push("bin"@), root)) by {
        assert(root =~= dir.push("bin"@).subrange(0, root.len() as int));
    }
    assert(is_below(config_path(dir), root)) by {
        assert(root =~= config_path(dir).subrange(0, root.len() as int));
    }
    assert(is_below(dir.push("src"@).push(project.src), root)) by {
        assert(root =~= dir.push("src"@).push(project.src).subrange(0, root.len() as int));
    }
    let own = project.own_steps();
    assert forall|i: int| 0 <= i < own.len() implies is_confined(#[trigger] own[i], root) by {}
    if !root_exists {
        let all = project.steps(false);
        assert forall|i: int| 0 <= i < all.len() implies is_confined(#[trigger] all[i], root) by {
            if i >= 2 {
                assert(all[i] == own[i - 2]);
            }
        }
    }
}

/// A project never leaves the workspace: its directory lies two names
/// below the root, the language's and its own, and every step that
/// creates it keeps to the workspace.
pub proof fn lemma_project_is_confined(
    file: LanguageFileView,
    root: Seq<Seq<char>>,
    proj_name: Seq<char>,
    root_exists: bool,
)
    requires
        project_for(file, root, proj_name) is Ok,
    ensures
        ({
            let project = project_for(file, root, proj_name)->Ok_0;
            &&& project.root == root
            &&& project.dir == root.push(file.workspace.dir).push(proj_name)
            &&& project.is_confined()
            &&& project.dir != root
            &&& forall|i: int|
                0 <= i < project.steps(root_exists).len() ==> is_confined(
                    #[trigger] project.steps(root_exists)[i],
                    root,
                )
        }),
{
    let project = project_for(file, root, proj_name)->Ok_0;
    lemma_own_names_are_plain();
    assert(is_plain_name(project.src));
    assert(root =~= project.dir.subrange(0, root.len() as int));
    assert(is_below(project.dir, root));
    lemma_steps_are_confined(project, root_exists);
}

/// Whether `made` is the outcome `wanted`.
pub open spec fn is_project(made: Result<Project, Error>, wanted: Result<ProjectView, Failure>) -> bool {
    match made {
        Ok(project) => wanted == Ok::<ProjectView, Failure>(project@),
        Err(e) => wanted == Err::<ProjectView, Failure>(e@),
    }
}

impl Project {
    /// The steps to carry out, in this order, to create the project,
    /// given whether the workspace root and the project's directory are
    /// there already. A project whose directory is there is never
    /// created again, and nothing is to be done for it. Nor is anything
    /// done for a project that would not keep to its workspace: every
    /// step given keeps to it.
    pub fn actions(&self, root_exists: bool, dir_exists: bool) -> (planned: Result<
        Vec<Action>,
        Error,
    >)
        ensures
            planned is Ok <==> self@.is_confined() && !dir_exists,
            planned matches Ok(steps) ==> action_views(steps@) == self@.steps(root_exists)
                && forall|i: int|
                0 <= i < steps@.len() ==> is_confined(#[trigger] action_views(steps@)[i], self@.root),
            planned matches Err(e) ==> e@ == (if !is_below(self@.dir, self@.root) {
                Failure::NotInWorkspace
            } else if !is_plain_name(self@.src) {
                Failure::InvalidName(self@.src)
            } else {
                Failure::ProjectAlreadyExists(render(self@.dir))
            }),
    {
        if !self.dir.is_below(&self.root) {
            return Err(Error::NotInWorkspace);
        }
        if !is_plain_name_text(self.src.as_str()) {
            return Err(Error::InvalidName(self.src.clone()));
        }
        if dir_exists {
            return Err(Error::ProjectAlreadyExists(self.dir.to_string()));
        }
        let mut steps: Vec<Action> = Vec::new();
        if !root_exists {
            steps.push(Action::CreateDir(self.root.duplicate()));
            steps.push(
                Action::Record(
                    "Created spacework directory: ".to_owned().concat(
                        self.root.to_string().as_str(),
                    ),
                ),
            );
        }
        let src_dir = self.dir.join("src");
        let source = src_dir.join(self.src.as_str());
        steps.push(Action::CreateDir(self.dir.duplicate()));
        steps.push(Action::CreateDir(src_dir));
        steps.push(Action::CreateDir(self.dir.join("bin")));
        steps.push(
            Action::WriteFile(
                self.dir.join(CONFIG_FILE),
                SpaceworkFile::text_for(self.language.as_str()),
            ),
        );
        steps.push(Action::WriteFile(source, self.template.clone()));
        assert(action_views(steps@) =~= self@.steps(root_exists));
        proof {
            lemma_steps_are_confined(self@, root_exists);
        }
        Ok(steps)
    }
}

impl Workspace {
    /// The project `proj_name` for the language that `langfile`
    /// describes, in the workspace at `workspace_root`.
    pub fn create_with(
        langfile: &LanguageFile,
        workspace_root: &AbsolutePath,
        proj_name: &str,
    ) -> (made: Result<Project, Error>)
        ensures
            is_project(made, project_for(langfile@, workspace_root@, proj_name@)),
            made is Ok ==> is_plain_name(proj_name@) && is_plain_name(langfile@.workspace.dir),
            made matches Ok(project) ==> is_below(project@.dir, workspace_root@) && project@.dir
                != workspace_root@,
    {
        proof {
            if project_for(langfile@, workspace_root@, proj_name@) is Ok {
                lemma_project_is_confined(langfile@, workspace_root@, proj_name@, true);
            }
        }
        if !is_plain_name_text(proj_name) {
            return Err(Error::InvalidName(proj_name.to_owned()));
        }
        if !is_plain_name_text(langfile.workspace.dir.as_str()) {
            return Err(Error::InvalidName(langfile.workspace.dir.clone()));
        }
        let template = match langfile.template() {
            Ok(text) => text,
            Err(e) => {
                return Err(e);
            },
        };
        Ok(
            Project {
                root: workspace_root.duplicate(),
                dir: workspace_root.join(langfile.workspace.dir.as_str()).join(proj_name),
                language: langfile.language.name.clone(),
                src: langfile.workspace.src.clone(),
                template: template.to_owned(),
            },
        )
    }

    /// The project `proj_name` for the language that goes by `lang`, in
    /// the workspace at `workspace_root`.
    pub fn create(workspace_root: &AbsolutePath, proj_name: &str, lang: &str) -> (made: Result<
        Project,
        Error,
    >)
        ensures
            builtin_registry() is None ==> made is Err && is_builtin_failure(made->Err_0@),
            builtin_registry() is Some ==> (match resolved(builtin_registry()->0, lang@) {
                Ok(file) => is_project(made, project_for(file, workspace_root@, proj_name@)),
                Err(failure) => made is Err && made->Err_0@ == failure,
            }),
            made matches Ok(project) ==> is_plain_name(proj_name@) && is_below(
                project@.dir,
                workspace_root@,
            ) && project@.dir != workspace_root@,
    {
        match LanguageFile::from_language(lang) {
            Ok(langfile) => Workspace::create_with(&langfile, workspace_root, proj_name),
            Err(e) => Err(e),
        }
    }

    /// The project to create from what the command line gave: a project
    /// needs a name, and then a language.
    pub fn create_from_options(
        workspace_root: &AbsolutePath,
        proj_name: Option<&str>,
        lang: Option<&str>,
    ) -> (made: Result<Project, Error>)
        ensures
            proj_name is None ==> made is Err && made->Err_0@ == Failure::NameRequired,
            proj_name is Some && lang is None ==> made is Err && made->Err_0@
                == Failure::LanguageRequired,
            proj_name is Some && lang is Some && builtin_registry() is None ==> made is Err
                && is_builtin_failure(made->Err_0@),
            proj_name is Some && lang is Some && builtin_registry() is Some ==> (match resolved(
                builtin_registry()->0,
                lang->0@,
            ) {
                Ok(file) => is_project(made, project_for(file, workspace_root@, proj_name->0@)),
                Err(failure) => made is Err && made->Err_0@ == failure,
            }),
            made matches Ok(project) ==> is_below(project@.dir, workspace_root@) && project@.dir
                != workspace_root@,
    {
        let proj_name = match proj_name {
            Some(proj_name) => proj_name,
            None => {
                return Err(Error::NameRequired);
            },
        };
        let lang = match lang {
            Some(lang) => lang,
            None => {
                return Err(Error::LanguageRequired);
            },
        };
        Workspace::create(workspace_root, proj_name, lang)
    }
}

/// The command that builds the project whose configuration was found:
/// the build command of the language that the configuration names, for
/// the directory that holds the configuration. A configuration whose
/// language no longer goes by its recorded name builds nothing.
pub fn build(found: &Located) -> (made: Result<Invocation, Error>)
    ensures
        builtin_registry() is None ==> made is Err && is_builtin_failure(made->Err_0@),
        builtin_registry() is Some ==> (match resolved(
            builtin_registry()->0,
            found.file.workspace.language@,
        ) {
            Ok(file) => is_invocation(made, file.invocation(file.cmd.build, found.dir@)),
            Err(failure) => made is Err && made->Err_0@ == failure,
        }),
{
    match LanguageFile::from_language(found.file.workspace.language.as_str()) {
        Ok(langfile) => langfile.build(&found.dir),
        Err(e) => Err(e),
    }
}

/// The workspace root: the directory `spacework` in the user's home
/// directory. Without a home directory there is no workspace.
pub fn workspace_dir(home: Home) -> (root: Result<AbsolutePath, Error>)
    ensures
        match home {
            Home::Found(dir) => root is Ok && root->Ok_0@ == dir@.push("spacework"@),
            Home::NotPresent => root is Err && root->Err_0@ == Failure::HomeNotPresent,
            Home::NotUnicode => root is Err && root->Err_0@ == Failure::HomeNotUnicode,
        },
{
    match home {
        Home::Found(dir) => Ok(dir.join("spacework")),
        Home::NotPresent => Err(Error::HomeNotPresent),
        Home::NotUnicode => Err(Error::HomeNotUnicode),
    }
}

/// Whether `path` is the workspace root or lies below it. Only the two
/// paths are compared; nothing needs to exist.
pub fn is_inside_workspace(path: &AbsolutePath, workspace_root: &AbsolutePath) -> (inside: bool)
    ensures
        inside == workspace_root@.is_prefix_of(path@),
{
    path.starts_with(workspace_root)
}

/// A path is inside the workspace exactly if it is the root followed by
/// some components, none or more.
pub proof fn lemma_inside_is_root_and_below(path: Seq<Seq<char>>, root: Seq<Seq<char>>)
    ensures
        root.is_prefix_of(path) <==> exists|below: Seq<Seq<char>>| path == root + below,
{
    if root.is_prefix_of(path) {
        assert(path =~= root + path.skip(root.len() as int));
    }
    if exists|below: Seq<Seq<char>>| path == root + below {
        let below = choose|below: Seq<Seq<char>>| path == root + below;
        assert(root =~= (root + below).subrange(0, root.len() as int));
    }
}

/// No proper ancestor of the workspace root is inside the workspace, and
/// no directory beside the root either: one that has the root's parent
/// and another name.
pub proof fn lemma_ancestors_and_siblings_are_outside(path: Seq<Seq<char>>, root: Seq<Seq<char>>)
    ensures
        path.len() < root.len() ==> !root.is_prefix_of(path),
        root.len() > 0 && path.len() == root.len() && path.last() != root.last()
            ==> !root.is_prefix_of(path),
{
    if root.len() > 0 && path.len() == root.len() && path.last() != root.last() {
        if root.is_prefix_of(path) {
            assert(path.subrange(0, root.len() as int)[root.len() - 1] == path[root.len() - 1]);
        }
    }
}

/// What is on disk, as far as creating and finding projects goes: the
/// directories that exist, and the files with what they hold.
pub struct Tree {
    pub dirs: Set<Seq<Seq<char>>>,
    pub files: Map<Seq<Seq<char>>, Seq<char>>,
}

impl Tree {
    /// Whether the tree hangs together: every directory but the
    /// filesystem root lies in a directory, and so does every file.
    pub open spec fn wf(self) -> bool {
        &&& forall|dir: Seq<Seq<char>>| #[trigger]
            self.dirs.contains(dir) && dir.len() > 0 ==> self.dirs.contains(dir.drop_last())
        &&& forall|file: Seq<Seq<char>>| #[trigger]
            self.files.contains_key(file) ==> file.len() > 0 && self.dirs.contains(
                file.drop_last(),
            )
    }

    /// The tree after one step was carried out. Creating a directory
    /// creates the directories above it that are missing.
    pub open spec fn after(self, action: ActionView) -> Tree {
        match action {
            ActionView::CreateDir(dir) => Tree {
                dirs: self.dirs.union(Set::new(|above: Seq<Seq<char>>| above.is_prefix_of(dir))),
                files: self.files,
            },
            ActionView::WriteFile(file, contents) => Tree {
                dirs: self.dirs,
                files: self.files.insert(file, contents),
            },
            ActionView::Record(_) => self,
        }
    }

    /// The tree after the steps were carried out, one after the other.
    pub open spec fn after_all(self, actions: Seq<ActionView>) -> Tree
        decreases actions.len(),
    {
        if actions.len() == 0 {
            self
        } else {
            self.after_all(actions.drop_last()).after(actions.last())
        }
    }
}

/// In a tree that hangs together, a directory that exists has all the
/// directories above it.
pub proof fn lemma_ancestors_exist(tree: Tree, above: Seq<Seq<char>>, dir: Seq<Seq<char>>)
    requires
        tree.wf(),
        tree.dirs.contains(dir),
        above.is_prefix_of(dir),
    ensures
        tree.dirs.contains(above),
    decreases dir.len(),
{
    if above.len() == dir.len() {
        assert(above =~= dir);
    } else {
        assert(above =~= dir.drop_last().subrange(0, above.len() as int));
        lemma_ancestors_exist(tree, above, dir.drop_last());
    }
}

/// Carrying out the steps of a project in a workspace whose root is
/// there leaves the project's directory with `src` and `bin` in it, its
/// configuration in the project's directory and its source file in
/// `src`, and changes no other file.
pub proof fn lemma_created_tree(tree: Tree, project: ProjectView)
    ensures
        ({
            let made = tree.after_all(project.steps(true));
            &&& made.dirs.contains(project.dir)
            &&& made.dirs.contains(project.dir.push("src"@))
            &&& made.dirs.contains(project.dir.push("bin"@))
            &&& tree.dirs.subset_of(made.dirs)
            &&& made.files == tree.files.insert(
                config_path(project.dir),
                config_text(project.language),
            ).insert(project.dir.push("src"@).push(project.src), project.template)
        }),
{
    let steps = project.own_steps();
    let t0 = tree;
    let t1 = t0.after(steps[0]);
    let t2 = t1.after(steps[1]);
    let t3 = t2.after(steps[2]);
    let t4 = t3.after(steps[3]);
    let t5 = t4.after(steps[4]);
    let s1 = steps.take(1);
    let s2 = steps.take(2);
    let s3 = steps.take(3);
    let s4 = steps.take(4);
    assert(s1.drop_last() =~= Seq::<ActionView>::empty());
    assert(s2.drop_last() =~= s1);
    assert(s3.drop_last() =~= s2);
    assert(s4.drop_last() =~= s3);
    assert(steps.drop_last() =~= s4);
    assert(tree.after_all(s1.drop_last()) == t0);
    assert(tree.after_all(s1) == t1);
    assert(tree.after_all(s2) == t2);
    assert(tree.after_all(s3) == t3);
    assert(tree.after_all(s4) == t4);
    assert(tree.after_all(steps) == t5);
    let dir = project.dir;
    assert(dir.is_prefix_of(dir)) by {
        assert(dir =~= dir.subrange(0, dir.len() as int));
    }
    assert(dir.push("src"@).is_prefix_of(dir.push("src"@))) by {
        assert(dir.push("src"@) =~= dir.push("src"@).subrange(0, dir.len() as int + 1));
    }
    assert(dir.push("bin"@).is_prefix_of(dir.push("bin"@))) by {
        assert(dir.push("bin"@) =~= dir.push("bin"@).subrange(0, dir.len() as int + 1));
    }
}

/// A project is never created twice: once its steps were carried out its
/// directory is there, whether or not the workspace root had to be
/// created first.
pub proof fn lemma_created_project_exists(tree: Tree, project: ProjectView, root_exists: bool)
    ensures
        tree.after_all(project.steps(root_exists)).dirs.contains(project.dir),
{
    if root_exists {
        lemma_created_tree(tree, project);
    } else {
        let first = tree.after(project.root_steps()[0]);
        lemma_after_root_steps(tree, project);
        lemma_created_tree(first, project);
    }
}

/// After a project was created where none was, a search from its
/// directory, or from any directory below it, finds the project's
/// directory and the language that its configuration records. This is
/// said of a project whose source file is not named like the
/// configuration file, and of a language name that reads back from the
/// configuration as it was written.
pub proof fn lemma_created_project_is_found(
    tree: Tree,
    project: ProjectView,
    root_exists: bool,
    dir: Seq<Seq<char>>,
)
    requires
        tree.wf(),
        !tree.dirs.contains(project.dir),
        project.root.is_prefix_of(project.dir),
        project.dir.is_prefix_of(dir),
        project.src != CONFIG_FILE@,
        configured_language(config_text(project.language)) == Some(project.language),
    ensures
        found_from(tree.after_all(project.steps(root_exists)).files, project.root, dir) == Some(
            (project.dir, project.language),
        ),
{
    let config = config_path(project.dir);
    let source = project.dir.push("src"@).push(project.src);
    let files = tree.files.insert(config, config_text(project.language)).insert(
        source,
        project.template,
    );
    if root_exists {
        lemma_created_tree(tree, project);
    } else {
        let first = tree.after(project.root_steps()[0]);
        lemma_after_root_steps(tree, project);
        lemma_created_tree(first, project);
    }
    assert(tree.after_all(project.steps(root_exists)).files == files);
    assert(config != source) by {
        assert(config.len() == project.dir.len() + 1);
        assert(source.len() == project.dir.len() + 2);
    }
    assert(configuration_in(files, project.dir) == Some(project.language));
    assert forall|between: Seq<Seq<char>>|
        project.dir.is_prefix_of(between) && between.is_prefix_of(dir) && between
            != project.dir implies #[trigger] configuration_in(files, between) is None by {
        let wanted = config_path(between);
        assert(wanted.drop_last() =~= between);
        assert(config.drop_last() =~= project.dir);
        assert(source.drop_last() =~= project.dir.push("src"@));
        if tree.files.contains_key(wanted) {
            assert(tree.dirs.contains(wanted.drop_last()));
            lemma_ancestors_exist(tree, project.dir, between);
        }
        if wanted == source {
            assert(wanted.last() == CONFIG_FILE@);
            assert(source.last() == project.src);
        }
        assert(!files.contains_key(wanted));
    }
    lemma_search_from_below(files, project.root, project.dir, dir);
}

/// Creating a project and finding it again leads back to its language:
/// where no two languages of the registry share a name, a project
/// created for one of them is found from its directory and from any
/// directory below it, and the language that its configuration records
/// is looked up as the language it was created for. This is said of a
/// language that is recorded faithfully.
pub proof fn lemma_round_trip(
    languages: Seq<LanguageFileView>,
    at: int,
    tree: Tree,
    root: Seq<Seq<char>>,
    proj_name: Seq<char>,
    root_exists: bool,
    dir: Seq<Seq<char>>,
)
    requires
        disjoint(languages),
        0 <= at < languages.len(),
        is_recorded_faithfully(languages[at]),
        project_for(languages[at], root, proj_name) is Ok,
        tree.wf(),
        !tree.dirs.contains(project_for(languages[at], root, proj_name)->Ok_0.dir),
        project_for(languages[at], root, proj_name)->Ok_0.dir.is_prefix_of(dir),
    ensures
        ({
            let project = project_for(languages[at], root, proj_name)->Ok_0;
            let found = found_from(tree.after_all(project.steps(root_exists)).files, root, dir);
            found matches Some(place) && place.0 == project.dir && resolved(languages, place.1)
                == Ok::<LanguageFileView, Failure>(languages[at])
        }),
{
    let project = project_for(languages[at], root, proj_name)->Ok_0;
    assert(root.is_prefix_of(project.dir)) by {
        assert(root =~= project.dir.subrange(0, root.len() as int));
    }
    lemma_created_project_is_found(tree, project, root_exists, dir);
    lemma_resolve_finds_its_language(languages, at, languages[at].language.name);
}

/// Creating the workspace root first changes the directories and no
/// file: the project's own steps go on from the tree with the root in
/// it.
pub proof fn lemma_after_root_steps(tree: Tree, project: ProjectView)
    ensures
        tree.after_all(project.steps(false)) == tree.after(project.root_steps()[0]).after_all(
            project.own_steps(),
        ),
{
    let create = project.root_steps()[0];
    let record = project.root_steps()[1];
    assert(project.steps(false) =~= seq![create] + (seq![record] + project.own_steps()));
    lemma_after_all_first(tree, create, seq![record] + project.own_steps());
    lemma_after_all_first(tree.after(create), record, project.own_steps());
}

/// Carrying out a step and then others is carrying out all of them.
pub proof fn lemma_after_all_first(tree: Tree, first: ActionView, others: Seq<ActionView>)
    ensures
        tree.after_all(seq![first] + others) == tree.after(first).after_all(others),
    decreases others.len(),
{
    let all = seq![first] + others;
    if others.len() == 0 {
        assert(all.drop_last() =~= Seq::<ActionView>::empty());
        assert(all.last() == first);
        assert(tree.after_all(all.drop_last()) == tree);
    } else {
        assert(all.drop_last() =~= seq![first] + others.drop_last());
        assert(all.last() == others.last());
        lemma_after_all_first(tree, first, others.drop_last());
    }
}

} // verus!
