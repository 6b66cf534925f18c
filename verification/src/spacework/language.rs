//! The languages whose compile commands are known without a language
//! description.

use crate::command::{Invocation, InvocationView};
use crate::config::languagefile::{Language as Description, LanguageView};
use crate::error::{Error, Failure};
use crate::text::{lemma_texts_push, lowercase, same_text, texts};
use vstd::prelude::*;

verus! {

/// A language with a source file name of its own.
#[derive(Debug, PartialEq, Eq, Structural, Clone, Copy)]
pub enum Language {
    C,
    Cpp,
    Python,
}

/// The language that goes by the name `name`, letter for letter.
pub open spec fn language_named(name: Seq<char>) -> Option<Language> {
    if name == "c"@ {
        Some(Language::C)
    } else if name == "cpp"@ || name == "c++"@ {
        Some(Language::Cpp)
    } else if name == "py"@ || name == "python"@ {
        Some(Language::Python)
    } else {
        None
    }
}

/// The language whose source files have the extension `extension`.
pub open spec fn language_of_extension(extension: Seq<char>) -> Option<Language> {
    if extension == "c"@ {
        Some(Language::C)
    } else if extension == "cpp"@ {
        Some(Language::Cpp)
    } else if extension == "py"@ {
        Some(Language::Python)
    } else {
        None
    }
}

/// Whether `at` is the place of the first of `extensions` that is the
/// extension of a language.
pub open spec fn is_first_known(extensions: Seq<Seq<char>>, at: int) -> bool {
    &&& 0 <= at < extensions.len()
    &&& language_of_extension(extensions[at]) is Some
    &&& forall|before: int|
        0 <= before < at ==> language_of_extension(#[trigger] extensions[before]) is None
}

/// The arguments that compile a C++ project with what `cpp` says of the
/// compiler: the language standard, if one is set, the highest
/// optimization level, if there are any, then the source file and the
/// output file.
pub open spec fn cpp_args(cpp: LanguageView) -> Seq<Seq<char>> {
    let standard = match cpp.standard {
        Some(standard) => seq![standard],
        None => Seq::empty(),
    };
    let level = if cpp.optimization_levels.len() > 0 {
        seq![cpp.optimization_levels.last()]
    } else {
        Seq::empty()
    };
    standard + level + seq!["src/main.cpp"@, "-o"@, "bin/testing"@]
}

impl Language {
    /// The language that goes by `s`. Upper and lower case are not told
    /// apart.
    pub fn from_str(s: &str) -> (found: Result<Language, Error>)
        ensures
            found is Ok <==> language_named(lowercase(s@)) is Some,
            found matches Ok(language) ==> Some(language) == language_named(lowercase(s@)),
            found matches Err(e) ==> e@ == Failure::UnknownLanguage(s@),
    {
        let lowered = s.to_lowercase();
        let name = lowered.as_str();
        if same_text(name, "c") {
            Ok(Language::C)
        } else if same_text(name, "cpp") || same_text(name, "c++") {
            Ok(Language::Cpp)
        } else if same_text(name, "py") || same_text(name, "python") {
            Ok(Language::Python)
        } else {
            Err(Error::UnknownLanguage(s.to_owned()))
        }
    }

    /// The language of a project, told by the extensions of its files:
    /// the language of the first extension that belongs to one.
    pub fn from_extensions(extensions: &Vec<String>) -> (found: Result<Language, Error>)
        ensures
            match found {
                Ok(language) => exists|at: int| #[trigger]
                    is_first_known(texts(extensions@), at) && language_of_extension(
                        texts(extensions@)[at],
                    ) == Some(language),
                Err(e) => e@ == Failure::NoSourceFiles && forall|at: int|
                    0 <= at < extensions@.len() ==> language_of_extension(
                        #[trigger] texts(extensions@)[at],
                    ) is None,
            },
    {
        let mut i: usize = 0;
        while i < extensions.len()
            invariant
                i <= extensions.len(),
                forall|before: int|
                    0 <= before < i ==> language_of_extension(
                        #[trigger] texts(extensions@)[before],
                    ) is None,
            decreases extensions.len() - i,
        {
            let extension = extensions[i].as_str();
            assert(texts(extensions@)[i as int] == extension@);
            if same_text(extension, "c") {
                assert(is_first_known(texts(extensions@), i as int));
                return Ok(Language::C);
            } else if same_text(extension, "cpp") {
                assert(is_first_known(texts(extensions@), i as int));
                return Ok(Language::Cpp);
            } else if same_text(extension, "py") {
                assert(is_first_known(texts(extensions@), i as int));
                return Ok(Language::Python);
            }
            i += 1;
        }
        Err(Error::NoSourceFiles)
    }

    /// The name of the source file of a project in this language.
    pub fn src_file(&self) -> (name: &'static str)
        ensures
            name@ == match self {
                Language::C => "main.c"@,
                Language::Cpp => "main.cpp"@,
                Language::Python => "main.py"@,
            },
    {
        match self {
            Language::C => "main.c",
            Language::Cpp => "main.cpp",
            Language::Python => "main.py",
        }
    }

    /// The command that compiles a project in this language, run from
    /// the project's directory. C is compiled with `gcc` to the C17
    /// standard; C++ as `cpp` says; Python is not compiled.
    pub fn compile(&self, cpp: &Description) -> (made: Result<Invocation, Error>)
        ensures
            match self {
                Language::C => made is Ok && made->Ok_0@ == (InvocationView {
                    program: "gcc"@,
                    args: seq!["-std=c17"@, "src/main.c"@, "-o"@, "bin/testing"@],
                }),
                Language::Cpp => made is Ok && made->Ok_0@ == (InvocationView {
                    program: cpp@.compiler,
                    args: cpp_args(cpp@),
                }),
                Language::Python => made is Err && made->Err_0@ == Failure::NotCompiled,
            },
    {
        match self {
            Language::C => Ok(Language::compile_c()),
            Language::Cpp => Ok(Language::compile_cpp(cpp)),
            Language::Python => Err(Error::NotCompiled),
        }
    }

    fn compile_cpp(cpp: &Description) -> (made: Invocation)
        ensures
            made@ == (InvocationView { program: cpp@.compiler, args: cpp_args(cpp@) }),
    {
        let mut args: Vec<String> = Vec::new();
        match &cpp.standard {
            Some(standard) => {
                proof {
                    lemma_texts_push(args@, *standard);
                }
                args.push(standard.clone());
            },
            None => {},
        }
        let levels = &cpp.optimization_levels;
        if levels.len() > 0 {
            proof {
                lemma_texts_push(args@, levels@[levels@.len() - 1]);
            }
            args.push(levels[levels.len() - 1].clone());
        }
        let source = "src/main.cpp".to_owned();
        proof {
            lemma_texts_push(args@, source);
        }
        args.push(source);
        let flag = "-o".to_owned();
        proof {
            lemma_texts_push(args@, flag);
        }
        args.push(flag);
        let output = "bin/testing".to_owned();
        proof {
            lemma_texts_push(args@, output);
        }
        args.push(output);
        assert(texts(args@) =~= cpp_args(cpp@));
        Invocation { program: cpp.compiler.clone(), args }
    }

    fn compile_c() -> (made: Invocation)
        ensures
            made@ == (InvocationView {
                program: "gcc"@,
                args: seq!["-std=c17"@, "src/main.c"@, "-o"@, "bin/testing"@],
            }),
    {
        let mut args: Vec<String> = Vec::new();
        args.push("-std=c17".to_owned());
        args.push("src/main.c".to_owned());
        args.push("-o".to_owned());
        args.push("bin/testing".to_owned());
        assert(texts(args@) =~= seq!["-std=c17"@, "src/main.c"@, "-o"@, "bin/testing"@]);
        Invocation { program: "gcc".to_owned(), args }
    }
}

} // verus!
