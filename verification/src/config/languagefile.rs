//! Language descriptions: what a language is called, how its projects
//! are laid out and how they are built.

use crate::config::document::{
    entry_present, entry_string, entry_strings, present_at, string_at, strings_at, text_of,
};
use crate::error::{Error, Failure};
use crate::command::{invocation_for, is_invocation, Invocation, InvocationView};
use crate::path::{render, AbsolutePath};
use crate::registry::{builtin_registry, is_builtin_failure, Registry};
use crate::text::{
    chars_of, contains_text, ends_with, lemma_texts_push, lowercase, same_text, string_of,
    texts,
};
use vstd::prelude::*;

verus! {

/// The description of C that the registry starts with.
pub const C_LANGFILE: &'static str = "[language]\nname = \"c\"\naliases = []\ncompiler = \"gcc\"\noutput = \"bin\"\nstandard = \"-std=c17\"\nextensions = [\"c\"]\noptimization_levels = [\"-O0\", \"-O1\", \"-O2\", \"-O3\"]\nwarnings = [\"-Wall\", \"-Wextra\"]\n\n[cmd]\nbuild = \"gcc -std=c17 -Wall -Wextra SRC -o OUT\"\nrun = \"OUT\"\n\n[workspace]\ndir = \"c\"\nsrc = \"main.c\"\n";

/// The description of C++ that the registry starts with.
pub const CPP_LANGFILE: &'static str = "[language]\nname = \"cpp\"\naliases = [\"c++\"]\ncompiler = \"g++\"\noutput = \"bin\"\nstandard = \"-std=c++20\"\nextensions = [\"cpp\", \"cc\", \"cxx\"]\noptimization_levels = [\"-O0\", \"-O1\", \"-O2\", \"-O3\"]\nwarnings = [\"-Wall\", \"-Wextra\"]\n\n[cmd]\nbuild = \"g++ -std=c++20 -Wall -Wextra SRC -o OUT\"\nrun = \"OUT\"\n\n[workspace]\ndir = \"cpp\"\nsrc = \"main.cpp\"\n";

/// What a new C project's source file holds.
pub const C_TEMPLATE: &'static str = "int puts(const char *text);\n\nint main(void) {\n    puts(\"Hello, world!\");\n    return 0;\n}\n";

/// What a new C++ project's source file holds.
pub const CPP_TEMPLATE: &'static str = "int main() {\n    return 0;\n}\n";

/// The description of one language.
#[derive(Debug, PartialEq, Eq)]
pub struct LanguageFile {
    pub language: Language,
    pub cmd: Cmd,
    pub workspace: Workspace,
}

/// What a language is called and how its compiler is used.
#[derive(Debug, PartialEq, Eq)]
pub struct Language {
    pub name: String,
    pub aliases: Vec<String>,
    pub compiler: String,
    pub output: String,
    pub standard: Option<String>,
    pub extensions: Vec<String>,
    pub optimization_levels: Vec<String>,
    pub warnings: Vec<String>,
}

/// Where the projects of a language live below the workspace root, and
/// the name of a new project's source file.
#[derive(Debug, PartialEq, Eq)]
pub struct Workspace {
    pub dir: String,
    pub src: String,
}

/// The command templates of a language. `SRC` stands for the source file
/// and `OUT` for the output file.
#[derive(Debug, PartialEq, Eq)]
pub struct Cmd {
    pub build: String,
    pub run: String,
}

/// A `[language]` table as contracts speak of it.
pub struct LanguageView {
    pub name: Seq<char>,
    pub aliases: Seq<Seq<char>>,
    pub compiler: Seq<char>,
    pub output: Seq<char>,
    pub standard: Option<Seq<char>>,
    pub extensions: Seq<Seq<char>>,
    pub optimization_levels: Seq<Seq<char>>,
    pub warnings: Seq<Seq<char>>,
}

/// A `[workspace]` table as contracts speak of it.
pub struct WorkspaceView {
    pub dir: Seq<char>,
    pub src: Seq<char>,
}

/// A `[cmd]` table as contracts speak of it.
pub struct CmdView {
    pub build: Seq<char>,
    pub run: Seq<char>,
}

/// A language description as contracts speak of it.
pub struct LanguageFileView {
    pub language: LanguageView,
    pub cmd: CmdView,
    pub workspace: WorkspaceView,
}

impl View for Language {
    type V = LanguageView;

    open spec fn view(&self) -> LanguageView {
        LanguageView {
            name: self.name@,
            aliases: texts(self.aliases@),
            compiler: self.compiler@,
            output: self.output@,
            standard: text_of(self.standard),
            extensions: texts(self.extensions@),
            optimization_levels: texts(self.optimization_levels@),
            warnings: texts(self.warnings@),
        }
    }
}

impl View for Workspace {
    type V = WorkspaceView;

    open spec fn view(&self) -> WorkspaceView {
        WorkspaceView { dir: self.dir@, src: self.src@ }
    }
}

impl View for Cmd {
    type V = CmdView;

    open spec fn view(&self) -> CmdView {
        CmdView { build: self.build@, run: self.run@ }
    }
}

impl View for LanguageFile {
    type V = LanguageFileView;

    open spec fn view(&self) -> LanguageFileView {
        LanguageFileView { language: self.language@, cmd: self.cmd@, workspace: self.workspace@ }
    }
}

/// The `[language]` table of the document `text`, where it is complete.
/// Only `standard` may be left out; where it is there, it is a string.
pub open spec fn language_described(text: Seq<char>) -> Option<LanguageView> {
    let name = entry_string(text, "language"@, "name"@);
    let aliases = entry_strings(text, "language"@, "aliases"@);
    let compiler = entry_string(text, "language"@, "compiler"@);
    let output = entry_string(text, "language"@, "output"@);
    let extensions = entry_strings(text, "language"@, "extensions"@);
    let optimization_levels = entry_strings(text, "language"@, "optimization_levels"@);
    let warnings = entry_strings(text, "language"@, "warnings"@);
    let standard = entry_string(text, "language"@, "standard"@);
    if name is Some && aliases is Some && compiler is Some && output is Some && extensions is Some
        && optimization_levels is Some && warnings is Some && (standard is Some || !entry_present(
        text,
        "language"@,
        "standard"@,
    )) {
        Some(
            LanguageView {
                name: name->0,
                aliases: aliases->0,
                compiler: compiler->0,
                output: output->0,
                standard,
                extensions: extensions->0,
                optimization_levels: optimization_levels->0,
                warnings: warnings->0,
            },
        )
    } else {
        None
    }
}

/// The `[cmd]` table of the document `text`, where it is complete.
pub open spec fn cmd_described(text: Seq<char>) -> Option<CmdView> {
    let build = entry_string(text, "cmd"@, "build"@);
    let run = entry_string(text, "cmd"@, "run"@);
    if build is Some && run is Some {
        Some(CmdView { build: build->0, run: run->0 })
    } else {
        None
    }
}

/// The `[workspace]` table of the document `text`, where it is complete.
pub open spec fn workspace_described(text: Seq<char>) -> Option<WorkspaceView> {
    let dir = entry_string(text, "workspace"@, "dir"@);
    let src = entry_string(text, "workspace"@, "src"@);
    if dir is Some && src is Some {
        Some(WorkspaceView { dir: dir->0, src: src->0 })
    } else {
        None
    }
}

/// The language that the document `text` describes, where its three
/// tables are complete.
pub open spec fn described(text: Seq<char>) -> Option<LanguageFileView> {
    let language = language_described(text);
    let cmd = cmd_described(text);
    let workspace = workspace_described(text);
    if language is Some && cmd is Some && workspace is Some {
        Some(LanguageFileView { language: language->0, cmd: cmd->0, workspace: workspace->0 })
    } else {
        None
    }
}

impl Language {
    /// The `[language]` table made of its entries, each as far as it was
    /// there. Every entry but `standard` is needed.
    pub fn from_entries(
        name: Option<String>,
        aliases: Option<Vec<String>>,
        compiler: Option<String>,
        output: Option<String>,
        standard: Option<String>,
        extensions: Option<Vec<String>>,
        optimization_levels: Option<Vec<String>>,
        warnings: Option<Vec<String>>,
    ) -> (made: Option<Language>)
        ensures
            made is Some <==> name is Some && aliases is Some && compiler is Some && output is Some
                && extensions is Some && optimization_levels is Some && warnings is Some,
            made matches Some(language) ==> language.name == name->0 && language.aliases
                == aliases->0 && language.compiler == compiler->0 && language.output == output->0
                && language.standard == standard && language.extensions == extensions->0
                && language.optimization_levels == optimization_levels->0 && language.warnings
                == warnings->0,
    {
        match (name, aliases, compiler, output, extensions, optimization_levels, warnings) {
            (
                Some(name),
                Some(aliases),
                Some(compiler),
                Some(output),
                Some(extensions),
                Some(optimization_levels),
                Some(warnings),
            ) => Some(
                Language {
                    name,
                    aliases,
                    compiler,
                    output,
                    standard,
                    extensions,
                    optimization_levels,
                    warnings,
                },
            ),
            _ => None,
        }
    }

    /// The `[language]` table read from a document.
    pub fn from_document(text: &str) -> (made: Option<Language>)
        ensures
            made is Some <==> language_described(text@) is Some,
            made is Some ==> made->0@ == language_described(text@)->0,
    {
        let standard = string_at(text, "language", "standard");
        if standard.is_none() && present_at(text, "language", "standard") {
            return None;
        }
        Language::from_entries(
            string_at(text, "language", "name"),
            strings_at(text, "language", "aliases"),
            string_at(text, "language", "compiler"),
            string_at(text, "language", "output"),
            standard,
            strings_at(text, "language", "extensions"),
            strings_at(text, "language", "optimization_levels"),
            strings_at(text, "language", "warnings"),
        )
    }
}

impl Cmd {
    /// The `[cmd]` table made of its entries, each as far as it was
    /// there. Both are needed.
    pub fn from_entries(build: Option<String>, run: Option<String>) -> (made: Option<Cmd>)
        ensures
            made is Some <==> build is Some && run is Some,
            made matches Some(cmd) ==> cmd.build == build->0 && cmd.run == run->0,
    {
        match (build, run) {
            (Some(build), Some(run)) => Some(Cmd { build, run }),
            _ => None,
        }
    }

    /// The `[cmd]` table read from a document.
    pub fn from_document(text: &str) -> (made: Option<Cmd>)
        ensures
            made is Some <==> cmd_described(text@) is Some,
            made is Some ==> made->0@ == cmd_described(text@)->0,
    {
        Cmd::from_entries(string_at(text, "cmd", "build"), string_at(text, "cmd", "run"))
    }
}

impl Workspace {
    /// The `[workspace]` table made of its entries, each as far as it was
    /// there. Both are needed.
    pub fn from_entries(dir: Option<String>, src: Option<String>) -> (made: Option<Workspace>)
        ensures
            made is Some <==> dir is Some && src is Some,
            made matches Some(workspace) ==> workspace.dir == dir->0 && workspace.src == src->0,
    {
        match (dir, src) {
            (Some(dir), Some(src)) => Some(Workspace { dir, src }),
            _ => None,
        }
    }

    /// The `[workspace]` table read from a document.
    pub fn from_document(text: &str) -> (made: Option<Workspace>)
        ensures
            made is Some <==> workspace_described(text@) is Some,
            made is Some ==> made->0@ == workspace_described(text@)->0,
    {
        Workspace::from_entries(
            string_at(text, "workspace", "dir"),
            string_at(text, "workspace", "src"),
        )
    }
}

impl LanguageFile {
    /// The description made of its three tables, each as far as it was
    /// complete. All three are needed.
    pub fn from_tables(
        language: Option<Language>,
        cmd: Option<Cmd>,
        workspace: Option<Workspace>,
    ) -> (made: Result<LanguageFile, Error>)
        ensures
            made is Ok <==> language is Some && cmd is Some && workspace is Some,
            made matches Ok(file) ==> file.language == language->0 && file.cmd == cmd->0
                && file.workspace == workspace->0,
            made matches Err(e) ==> e@ == Failure::MalformedDescriptor,
    {
        match (language, cmd, workspace) {
            (Some(language), Some(cmd), Some(workspace)) => Ok(
                LanguageFile { language, cmd, workspace },
            ),
            _ => Err(Error::MalformedDescriptor),
        }
    }
}

/// The descriptions of a list of language files, in order.
pub open spec fn views(files: Seq<LanguageFile>) -> Seq<LanguageFileView> {
    files.map_values(|file: LanguageFile| file@)
}

impl LanguageFileView {
    /// Whether the language goes by `name`: it is its name or one of its
    /// aliases, letter for letter.
    pub open spec fn answers_to(self, name: Seq<char>) -> bool {
        self.language.name == name || self.language.aliases.contains(name)
    }
}

/// Whether `at` is the place of the first language of `files` that goes
/// by `name`.
pub open spec fn is_first_answering(files: Seq<LanguageFileView>, name: Seq<char>, at: int) -> bool {
    &&& 0 <= at < files.len()
    &&& files[at].answers_to(name)
    &&& forall|before: int| 0 <= before < at ==> !#[trigger] files[before].answers_to(name)
}

/// The place of the first language of `files` that goes by `name`.
pub open spec fn first_match(files: Seq<LanguageFileView>, name: Seq<char>) -> Option<int> {
    if exists|at: int| is_first_answering(files, name, at) {
        Some(choose|at: int| is_first_answering(files, name, at))
    } else {
        None
    }
}

/// What looking up `given` among `files` yields: the first language that
/// goes by the lowercase form of `given`, or the failure that holds
/// `given` as it was written.
pub open spec fn resolved(files: Seq<LanguageFileView>, given: Seq<char>) -> Result<
    LanguageFileView,
    Failure,
> {
    match first_match(files, lowercase(given)) {
        Some(at) => Ok(files[at]),
        None => Err(Failure::UnknownLanguage(given)),
    }
}

/// The languages that the library itself describes, where both of their
/// documents are complete.
pub open spec fn builtin_described() -> Option<Seq<LanguageFileView>> {
    if described(C_LANGFILE@) is Some && described(CPP_LANGFILE@) is Some {
        Some(seq![described(C_LANGFILE@)->0, described(CPP_LANGFILE@)->0])
    } else {
        None
    }
}

/// The place of the first language of `files` that goes by `name`,
/// letter for letter.
pub fn position(files: &Vec<LanguageFile>, name: &str) -> (found: Option<usize>)
    ensures
        found matches Some(at) ==> first_match(views(files@), name@) == Some(at as int),
        found is None ==> first_match(views(files@), name@) is None,
{
    let mut i: usize = 0;
    while i < files.len()
        invariant
            i <= files.len(),
            forall|before: int| 0 <= before < i ==> !#[trigger] views(files@)[before].answers_to(name@),
        decreases files.len() - i,
    {
        if files[i].answers_to(name) {
            assert(is_first_answering(views(files@), name@, i as int));
            return Some(i);
        }
        i += 1;
    }
    None
}

/// Whether `name` ends with a `.` and `extension`.
pub open spec fn has_extension(name: Seq<char>, extension: Seq<char>) -> bool {
    (seq!['.'] + extension).is_suffix_of(name)
}

/// Whether `at` is the place of the first of `extensions` that ends
/// `name`.
pub open spec fn is_first_extension(name: Seq<char>, extensions: Seq<Seq<char>>, at: int) -> bool {
    &&& 0 <= at < extensions.len()
    &&& has_extension(name, extensions[at])
    &&& forall|before: int| 0 <= before < at ==> !has_extension(name, #[trigger] extensions[before])
}

/// `name` without its extension: without the `.` and the first of
/// `extensions` that ends it. A name that none of them ends has no
/// extension to take off.
pub open spec fn without_extension(name: Seq<char>, extensions: Seq<Seq<char>>) -> Option<
    Seq<char>,
> {
    if exists|at: int| is_first_extension(name, extensions, at) {
        let at = choose|at: int| is_first_extension(name, extensions, at);
        Some(name.take(name.len() - extensions[at].len() - 1))
    } else {
        None
    }
}

/// Where one of the extensions ends a name, one of them is the first to
/// do so.
pub proof fn lemma_first_extension(name: Seq<char>, extensions: Seq<Seq<char>>, at: int)
    requires
        0 <= at < extensions.len(),
        has_extension(name, extensions[at]),
    ensures
        exists|first: int| first <= at && is_first_extension(name, extensions, first),
    decreases at,
{
    if exists|before: int| 0 <= before < at && has_extension(name, #[trigger] extensions[before]) {
        let before = choose|before: int|
            0 <= before < at && has_extension(name, #[trigger] extensions[before]);
        lemma_first_extension(name, extensions, before);
    } else {
        assert(is_first_extension(name, extensions, at));
    }
}

/// A name has an extension to take off exactly if one of the extensions,
/// after a `.`, ends it; and what is left is shorter than the name.
pub proof fn lemma_extension_matches(name: Seq<char>, extensions: Seq<Seq<char>>)
    ensures
        without_extension(name, extensions) is Some <==> exists|i: int|
            0 <= i < extensions.len() && has_extension(name, #[trigger] extensions[i]),
        without_extension(name, extensions) is Some ==> without_extension(name, extensions)->0.len()
            < name.len(),
{
    if exists|i: int| 0 <= i < extensions.len() && has_extension(name, #[trigger] extensions[i]) {
        let i = choose|i: int|
            0 <= i < extensions.len() && has_extension(name, #[trigger] extensions[i]);
        lemma_first_extension(name, extensions, i);
    }
    if without_extension(name, extensions) is Some {
        let at = choose|at: int| is_first_extension(name, extensions, at);
        assert(has_extension(name, extensions[at]));
        assert((seq!['.'] + extensions[at]).len() == extensions[at].len() + 1);
    }
}

/// The source template kept for a source file name.
pub open spec fn template_for(src: Seq<char>) -> Option<Seq<char>> {
    if src == "main.c"@ {
        Some(C_TEMPLATE@)
    } else if src == "main.cpp"@ {
        Some(CPP_TEMPLATE@)
    } else {
        None
    }
}

impl LanguageFileView {
    /// The name of the build's output file: the source file's name
    /// without its extension.
    pub open spec fn output_name(self) -> Option<Seq<char>> {
        without_extension(self.workspace.src, self.language.extensions)
    }

    /// The path of the source file of the project at `project`.
    pub open spec fn source_path(self, project: Seq<Seq<char>>) -> Seq<char> {
        render(project.push("src"@).push(self.workspace.src))
    }

    /// The path of the output file of the project at `project`, for a
    /// source file that has an extension.
    pub open spec fn output_path(self, project: Seq<Seq<char>>) -> Seq<char> {
        render(project.push("bin"@).push(self.output_name()->0))
    }

    /// The command that `template` gives for the project at `project`.
    /// There is none where no extension of the language ends the source
    /// file's name.
    pub open spec fn invocation(self, template: Seq<char>, project: Seq<Seq<char>>) -> Result<
        InvocationView,
        Failure,
    > {
        if self.output_name() is None {
            Err(Failure::NoMatchingSourceExtension(self.workspace.src))
        } else {
            invocation_for(template, self.source_path(project), self.output_path(project))
        }
    }
}

/// The names of the languages of `files`, in order.
pub open spec fn all_names(files: Seq<LanguageFileView>) -> Seq<Seq<char>> {
    files.map_values(|file: LanguageFileView| file.language.name)
}

/// The aliases of the languages of `files`: those of the first language,
/// then those of the second, and so on.
pub open spec fn all_aliases(files: Seq<LanguageFileView>) -> Seq<Seq<char>>
    decreases files.len(),
{
    if files.len() == 0 {
        Seq::empty()
    } else {
        all_aliases(files.drop_last()) + files.last().language.aliases
    }
}

/// The names of the languages of `files` and, apart from them, their
/// aliases.
pub fn names_and_aliases(files: &Vec<LanguageFile>) -> (listed: (Vec<String>, Vec<String>))
    ensures
        texts(listed.0@) == all_names(views(files@)),
        texts(listed.1@) == all_aliases(views(files@)),
{
    let mut languages: Vec<String> = Vec::new();
    let mut aliases: Vec<String> = Vec::new();
    let mut i: usize = 0;
    assert(views(files@).take(0) =~= Seq::<LanguageFileView>::empty());
    while i < files.len()
        invariant
            i <= files.len(),
            texts(languages@) == all_names(views(files@).take(i as int)),
            texts(aliases@) == all_aliases(views(files@).take(i as int)),
        decreases files.len() - i,
    {
        let file = &files[i];
        let ghost done = views(files@).take(i as int);
        let ghost next = views(files@).take(i + 1);
        proof {
            assert(next.drop_last() =~= done);
            assert(next.last() == file@);
            lemma_texts_push(languages@, file.language.name);
            assert(all_names(next) =~= all_names(done).push(file@.language.name));
        }
        languages.push(file.language.name.clone());
        let ghost before = texts(aliases@);
        let mut k: usize = 0;
        while k < file.language.aliases.len()
            invariant
                k <= file.language.aliases.len(),
                texts(aliases@) == before + file@.language.aliases.take(k as int),
            decreases file.language.aliases.len() - k,
        {
            proof {
                lemma_texts_push(aliases@, file.language.aliases@[k as int]);
                assert(file@.language.aliases.take(k + 1) =~= file@.language.aliases.take(
                    k as int,
                ).push(file@.language.aliases[k as int]));
            }
            aliases.push(file.language.aliases[k].clone());
            k += 1;
        }
        assert(file@.language.aliases.take(file@.language.aliases.len() as int)
            =~= file@.language.aliases);
        i += 1;
    }
    assert(views(files@).take(files@.len() as int) =~= views(files@));
    (languages, aliases)
}

impl LanguageFile {
    /// The text that a new project's source file starts with.
    pub fn template(&self) -> (found: Result<&'static str, Error>)
        ensures
            found is Ok <==> template_for(self@.workspace.src) is Some,
            found matches Ok(text) ==> Some(text@) == template_for(self@.workspace.src),
            found matches Err(e) ==> e@ == Failure::TemplateNotFound(self@.workspace.src),
    {
        if same_text(self.workspace.src.as_str(), "main.c") {
            Ok(C_TEMPLATE)
        } else if same_text(self.workspace.src.as_str(), "main.cpp") {
            Ok(CPP_TEMPLATE)
        } else {
            Err(Error::TemplateNotFound(self.workspace.src.clone()))
        }
    }

    /// The name of the build's output file: the source file's name
    /// without the `.` and the first extension of the language that ends
    /// it. A source file name that none of the extensions ends is
    /// refused.
    pub fn output_name(&self) -> (made: Result<String, Error>)
        ensures
            made is Ok <==> exists|i: int|
                0 <= i < self@.language.extensions.len() && has_extension(
                    self@.workspace.src,
                    #[trigger] self@.language.extensions[i],
                ),
            made matches Ok(name) ==> Some(name@) == self@.output_name(),
            made matches Err(e) ==> self@.output_name() is None && e@
                == Failure::NoMatchingSourceExtension(self@.workspace.src),
    {
        let name = chars_of(self.workspace.src.as_str());
        let extensions = &self.language.extensions;
        let mut i: usize = 0;
        while i < extensions.len()
            invariant
                i <= extensions.len(),
                name@ == self@.workspace.src,
                extensions == &self.language.extensions,
                forall|before: int|
                    0 <= before < i ==> !has_extension(
                        name@,
                        #[trigger] self@.language.extensions[before],
                    ),
            decreases extensions.len() - i,
        {
            let mut suffix: Vec<char> = Vec::new();
            suffix.push('.');
            let mut extension = chars_of(extensions[i].as_str());
            suffix.append(&mut extension);
            assert(suffix@ =~= seq!['.'] + self@.language.extensions[i as int]);
            if ends_with(&name, &suffix) {
                assert(is_first_extension(name@, self@.language.extensions, i as int));
                let mut stripped = name;
                stripped.truncate(stripped.len() - suffix.len());
                return Ok(string_of(&stripped));
            }
            i += 1;
        }
        Err(Error::NoMatchingSourceExtension(self.workspace.src.clone()))
    }

    /// The command that `template` gives for the project at `project`.
    fn invocation(&self, template: &str, project: &AbsolutePath) -> (made: Result<
        Invocation,
        Error,
    >)
        ensures
            is_invocation(made, self@.invocation(template@, project@)),
    {
        let outfile = match self.output_name() {
            Ok(name) => name,
            Err(e) => {
                return Err(e);
            },
        };
        let source = project.join("src").join(self.workspace.src.as_str()).to_string();
        let output = project.join("bin").join(outfile.as_str()).to_string();
        Invocation::from_template(template, source.as_str(), output.as_str())
    }

    /// The command that builds the project at `project`: the language's
    /// build template, filled in with the paths of the project's source
    /// file and output file.
    pub fn build(&self, project: &AbsolutePath) -> (made: Result<Invocation, Error>)
        ensures
            is_invocation(made, self@.invocation(self@.cmd.build, project@)),
    {
        self.invocation(self.cmd.build.as_str(), project)
    }

    /// The command that runs the project at `project`: the language's run
    /// template, filled in like the build template.
    pub fn run(&self, project: &AbsolutePath) -> (made: Result<Invocation, Error>)
        ensures
            is_invocation(made, self@.invocation(self@.cmd.run, project@)),
    {
        self.invocation(self.cmd.run.as_str(), project)
    }

    /// The names of the languages that the library itself describes and,
    /// apart from them, their aliases.
    pub fn available_languages() -> (listed: Result<(Vec<String>, Vec<String>), Error>)
        ensures
            listed is Ok <==> builtin_registry() is Some,
            listed matches Ok(lists) ==> texts(lists.0@) == all_names(builtin_registry()->0)
                && texts(lists.1@) == all_aliases(builtin_registry()->0),
            listed matches Err(e) ==> is_builtin_failure(e@),
    {
        match Registry::builtin() {
            Ok(registry) => Ok(registry.all_names_and_aliases()),
            Err(e) => Err(e),
        }
    }

    /// The language that goes by `lang_name`, among those that the
    /// library itself describes. Upper and lower case are not told apart.
    /// Nothing is looked up where the library's languages make no
    /// registry.
    pub fn from_language(lang_name: &str) -> (found: Result<LanguageFile, Error>)
        ensures
            builtin_registry() is None ==> found is Err && is_builtin_failure(found->Err_0@),
            builtin_registry() is Some ==> (match found {
                Ok(file) => resolved(builtin_registry()->0, lang_name@) == Ok::<
                    LanguageFileView,
                    Failure,
                >(file@),
                Err(e) => resolved(builtin_registry()->0, lang_name@) == Err::<
                    LanguageFileView,
                    Failure,
                >(e@),
            }),
    {
        let mut registry = match Registry::builtin() {
            Ok(registry) => registry,
            Err(e) => {
                return Err(e);
            },
        };
        let lowered = lang_name.to_lowercase();
        match position(&registry.langfiles, lowered.as_str()) {
            Some(at) => Ok(registry.langfiles.remove(at)),
            None => Err(Error::UnknownLanguage(lang_name.to_owned())),
        }
    }

    /// Whether the language goes by `name`, letter for letter.
    pub fn answers_to(&self, name: &str) -> (answers: bool)
        ensures
            answers == self@.answers_to(name@),
    {
        contains_text(&self.language.aliases, name) || same_text(self.language.name.as_str(), name)
    }

    /// The languages that the library itself describes, C and C++, read
    /// from their documents.
    pub fn langfiles() -> (loaded: Result<Vec<LanguageFile>, Error>)
        ensures
            loaded is Ok <==> described(C_LANGFILE@) is Some && described(CPP_LANGFILE@) is Some,
            loaded matches Ok(files) ==> views(files@) == seq![
                described(C_LANGFILE@)->0,
                described(CPP_LANGFILE@)->0,
            ],
            loaded matches Err(e) ==> e@ == Failure::MalformedDescriptor,
    {
        let c = match LanguageFile::from_document(C_LANGFILE) {
            Ok(file) => file,
            Err(e) => {
                return Err(e);
            },
        };
        let cpp = match LanguageFile::from_document(CPP_LANGFILE) {
            Ok(file) => file,
            Err(e) => {
                return Err(e);
            },
        };
        let mut files: Vec<LanguageFile> = Vec::new();
        files.push(c);
        files.push(cpp);
        assert(views(files@) =~= seq![described(C_LANGFILE@)->0, described(CPP_LANGFILE@)->0]);
        Ok(files)
    }

    /// The description that the TOML document `text` holds. A document
    /// that lacks a table or an entry describes no language.
    pub fn from_document(text: &str) -> (made: Result<LanguageFile, Error>)
        ensures
            made is Ok <==> described(text@) is Some,
            made matches Ok(file) ==> file@ == described(text@)->0,
            made matches Err(e) ==> e@ == Failure::MalformedDescriptor,
    {
        LanguageFile::from_tables(
            Language::from_document(text),
            Cmd::from_document(text),
            Workspace::from_document(text),
        )
    }
}

} // verus!
