//! Commands made from invocation templates.

use crate::error::{Error, Failure};
use crate::text::{chars_of, split_whitespace, substitute, substituted, texts, words};
use vstd::prelude::*;

verus! {

/// A program to run and the arguments to hand it.
#[derive(Debug, PartialEq, Eq)]
pub struct Invocation {
    pub program: String,
    pub args: Vec<String>,
}

/// `template` with the source path in place of each `SRC` and the
/// output path in place of each `OUT`. Only the template is searched for
/// the two: a path that holds one of them is put in as it is.
pub open spec fn fill_template(template: Seq<char>, source: Seq<char>, output: Seq<char>) -> Seq<
    char,
> {
    substituted(template, "SRC"@, source, "OUT"@, output)
}

/// A command as contracts speak of it.
pub struct InvocationView {
    pub program: Seq<char>,
    pub args: Seq<Seq<char>>,
}

impl View for Invocation {
    type V = InvocationView;

    open spec fn view(&self) -> InvocationView {
        InvocationView { program: self.program@, args: texts(self.args@) }
    }
}

/// The command that the filled-in `template` spells: its first word is
/// the program, its other words are the arguments. A template without a
/// word names no program.
pub open spec fn invocation_for(template: Seq<char>, source: Seq<char>, output: Seq<char>) -> Result<
    InvocationView,
    Failure,
> {
    let all = words(fill_template(template, source, output));
    if all.len() > 0 {
        Ok(InvocationView { program: all[0], args: all.skip(1) })
    } else {
        Err(Failure::MalformedInvocationTemplate(template))
    }
}

/// Whether `made` is the outcome `wanted`.
pub open spec fn is_invocation(
    made: Result<Invocation, Error>,
    wanted: Result<InvocationView, Failure>,
) -> bool {
    match made {
        Ok(invocation) => wanted == Ok::<InvocationView, Failure>(invocation@),
        Err(e) => wanted == Err::<InvocationView, Failure>(e@),
    }
}

impl Invocation {
    /// The command that `template` gives for a source file and an output
    /// file. A template without any word once filled in names no program
    /// and is refused, by its own text.
    pub fn from_template(template: &str, source: &str, output: &str) -> (made: Result<
        Invocation,
        Error,
    >)
        ensures
            is_invocation(made, invocation_for(template@, source@, output@)),
    {
        let filled = substitute(
            &chars_of(template),
            &chars_of("SRC"),
            &chars_of(source),
            &chars_of("OUT"),
            &chars_of(output),
        );
        let mut all = split_whitespace(&filled);
        if all.len() == 0 {
            return Err(Error::MalformedInvocationTemplate(template.to_owned()));
        }
        let program = all.remove(0);
        assert(texts(all@) =~= words(fill_template(template@, source@, output@)).skip(1));
        Ok(Invocation { program, args: all })
    }
}

} // verus!
