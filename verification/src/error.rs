//! The ways in which workspace operations fail.

use vstd::prelude::*;
use vstd::string::*;

verus! {

/// Why an operation on the workspace could not be carried out.
#[derive(Debug, PartialEq, Eq)]
pub enum Error {
    /// The home directory is not known: the environment does not name it.
    HomeNotPresent,
    /// The home directory is not known: its name is not valid text.
    HomeNotUnicode,
    /// No language of the registry goes by this name or alias. Holds the
    /// name as it was given.
    UnknownLanguage(String),
    /// A language description lacks an entry, or is not a TOML document.
    MalformedDescriptor,
    /// Two languages of a registry go by this name.
    NameCollision(String),
    /// No source template is kept for this source file name.
    TemplateNotFound(String),
    /// A project configuration does not name the project's language, or
    /// is not a TOML document.
    MalformedConfiguration,
    /// The directory is not inside the workspace.
    NotInWorkspace,
    /// A project was asked for without a name.
    NameRequired,
    /// This is not the name of one directory: it is empty, holds a `/`,
    /// or is `.` or `..`.
    InvalidName(String),
    /// A project was asked for without a language.
    LanguageRequired,
    /// The project's directory is already there. Holds its rendered path.
    ProjectAlreadyExists(String),
    /// No directory from the starting one up to the workspace root holds a
    /// project configuration.
    ConfigurationNotFound,
    /// None of the language's extensions ends this source file name.
    NoMatchingSourceExtension(String),
    /// This command template holds no program name once filled in.
    MalformedInvocationTemplate(String),
    /// A run file does not list complete commands, or is not a TOML
    /// document.
    MalformedRunfile,
    /// No command of the run file goes by this name.
    CommandNotFound(String),
    /// The language is run, not compiled.
    NotCompiled,
    /// No file of the project has the extension of a known language.
    NoSourceFiles,
}

/// An error as contracts speak of it: the same kinds, with texts in
/// place of strings.
pub enum Failure {
    HomeNotPresent,
    HomeNotUnicode,
    UnknownLanguage(Seq<char>),
    MalformedDescriptor,
    NameCollision(Seq<char>),
    TemplateNotFound(Seq<char>),
    MalformedConfiguration,
    NotInWorkspace,
    NameRequired,
    InvalidName(Seq<char>),
    LanguageRequired,
    ProjectAlreadyExists(Seq<char>),
    ConfigurationNotFound,
    NoMatchingSourceExtension(Seq<char>),
    MalformedInvocationTemplate(Seq<char>),
    MalformedRunfile,
    CommandNotFound(Seq<char>),
    NotCompiled,
    NoSourceFiles,
}

impl View for Error {
    type V = Failure;

    open spec fn view(&self) -> Failure {
        match self {
            Error::HomeNotPresent => Failure::HomeNotPresent,
            Error::HomeNotUnicode => Failure::HomeNotUnicode,
            Error::UnknownLanguage(name) => Failure::UnknownLanguage(name@),
            Error::MalformedDescriptor => Failure::MalformedDescriptor,
            Error::NameCollision(name) => Failure::NameCollision(name@),
            Error::TemplateNotFound(file) => Failure::TemplateNotFound(file@),
            Error::MalformedConfiguration => Failure::MalformedConfiguration,
            Error::NotInWorkspace => Failure::NotInWorkspace,
            Error::NameRequired => Failure::NameRequired,
            Error::InvalidName(name) => Failure::InvalidName(name@),
            Error::LanguageRequired => Failure::LanguageRequired,
            Error::ProjectAlreadyExists(dir) => Failure::ProjectAlreadyExists(dir@),
            Error::ConfigurationNotFound => Failure::ConfigurationNotFound,
            Error::NoMatchingSourceExtension(file) => Failure::NoMatchingSourceExtension(file@),
            Error::MalformedInvocationTemplate(template) => Failure::MalformedInvocationTemplate(
                template@,
            ),
            Error::MalformedRunfile => Failure::MalformedRunfile,
            Error::CommandNotFound(name) => Failure::CommandNotFound(name@),
            Error::NotCompiled => Failure::NotCompiled,
            Error::NoSourceFiles => Failure::NoSourceFiles,
        }
    }
}

impl Error {
    /// The text of the message for this error.
    pub open spec fn message_text(&self) -> Seq<char> {
        match self {
            Error::HomeNotPresent => "HOME environment variable not found. Unable to create workspace"@,
            Error::HomeNotUnicode => "Unable to parse HOME environment variable: Invalid unicode"@,
            Error::UnknownLanguage(name) => "Language file not found for `"@ + name@
                + "`. Check your spelling or consider creating one in your spacework directory."@,
            Error::MalformedDescriptor => "Language file is not a complete language description"@,
            Error::NameCollision(name) => "More than one language goes by `"@ + name@ + "`"@,
            Error::TemplateNotFound(file) => "Unable to find matching template file for `"@ + file@
                + "`."@,
            Error::MalformedConfiguration => "`spacework.toml` does not name a workspace language"@,
            Error::NotInWorkspace => "Must be inside a spacework workspace"@,
            Error::NameRequired => "Workspace requires a name"@,
            Error::InvalidName(name) => "`"@ + name@ + "` is not the name of one directory"@,
            Error::LanguageRequired => "Workspace requires a language"@,
            Error::ProjectAlreadyExists(dir) => "Project directory already exists: "@ + dir@,
            Error::ConfigurationNotFound => "`spacework.toml` file not found"@,
            Error::NoMatchingSourceExtension(file) => "Unable to find matching file extension for `"@
                + file@ + "`."@,
            Error::MalformedInvocationTemplate(template) => "Problem parsing arguments of `"@
                + template@ + "`"@,
            Error::MalformedRunfile => "Runfile does not list complete commands"@,
            Error::CommandNotFound(name) => "`"@ + name@ + "` not found in runfile"@,
            Error::NotCompiled => "Unable to compile python; try `spacework run` instead"@,
            Error::NoSourceFiles => "Found no files to compile."@,
        }
    }

    /// One human-readable line that says what went wrong and names the
    /// offending input, file or template where there is one.
    pub fn message(&self) -> (msg: String)
        ensures
            msg@ == self.message_text(),
    {
        match self {
            Error::HomeNotPresent => "HOME environment variable not found. Unable to create workspace".to_owned(),
            Error::HomeNotUnicode => "Unable to parse HOME environment variable: Invalid unicode".to_owned(),
            Error::UnknownLanguage(name) => "Language file not found for `".to_owned().concat(
                name.as_str(),
            ).concat(
                "`. Check your spelling or consider creating one in your spacework directory.",
            ),
            Error::MalformedDescriptor => "Language file is not a complete language description".to_owned(),
            Error::NameCollision(name) => "More than one language goes by `".to_owned().concat(
                name.as_str(),
            ).concat("`"),
            Error::TemplateNotFound(file) => "Unable to find matching template file for `".to_owned().concat(
                file.as_str(),
            ).concat("`."),
            Error::MalformedConfiguration => "`spacework.toml` does not name a workspace language".to_owned(),
            Error::NotInWorkspace => "Must be inside a spacework workspace".to_owned(),
            Error::NameRequired => "Workspace requires a name".to_owned(),
            Error::InvalidName(name) => "`".to_owned().concat(name.as_str()).concat(
                "` is not the name of one directory",
            ),
            Error::LanguageRequired => "Workspace requires a language".to_owned(),
            Error::ProjectAlreadyExists(dir) => "Project directory already exists: ".to_owned().concat(
                dir.as_str(),
            ),
            Error::ConfigurationNotFound => "`spacework.toml` file not found".to_owned(),
            Error::NoMatchingSourceExtension(file) => "Unable to find matching file extension for `".to_owned().concat(
                file.as_str(),
            ).concat("`."),
            Error::MalformedInvocationTemplate(template) => "Problem parsing arguments of `".to_owned().concat(
                template.as_str(),
            ).concat("`"),
            Error::MalformedRunfile => "Runfile does not list complete commands".to_owned(),
            Error::CommandNotFound(name) => "`".to_owned().concat(name.as_str()).concat(
                "` not found in runfile",
            ),
            Error::NotCompiled => "Unable to compile python; try `spacework run` instead".to_owned(),
            Error::NoSourceFiles => "Found no files to compile.".to_owned(),
        }
    }
}

} // verus!
