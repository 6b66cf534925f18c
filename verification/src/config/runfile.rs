//! Run files: named commands to run as they stand.

use crate::command::{Invocation, InvocationView};
use crate::config::document::{column_at, entry_column, texts_of};
use crate::error::{Error, Failure};
use crate::text::{chars_of, same_text, split_whitespace, texts, words};
use vstd::prelude::*;

verus! {

/// The commands of a run file, in its order.
#[derive(Debug, PartialEq, Eq)]
pub struct RunFile {
    pub cmd: Vec<Cmd>,
}

/// A command of a run file: its name, the program, and the arguments as
/// one text.
#[derive(Debug, PartialEq, Eq)]
pub struct Cmd {
    pub name: String,
    pub bin: String,
    pub args: String,
}

/// A command of a run file as contracts speak of it.
pub struct CmdView {
    pub name: Seq<char>,
    pub bin: Seq<char>,
    pub args: Seq<char>,
}

impl View for Cmd {
    type V = CmdView;

    open spec fn view(&self) -> CmdView {
        CmdView { name: self.name@, bin: self.bin@, args: self.args@ }
    }
}

impl View for RunFile {
    type V = Seq<CmdView>;

    open spec fn view(&self) -> Seq<CmdView> {
        self.cmd@.map_values(|cmd: Cmd| cmd@)
    }
}

/// The commands made of the names, programs and arguments of a run
/// file's tables. There are none to make where one of the three is
/// missing, or where they are not equally many.
pub open spec fn commands_of(
    names: Option<Seq<Seq<char>>>,
    bins: Option<Seq<Seq<char>>>,
    args: Option<Seq<Seq<char>>>,
) -> Option<Seq<CmdView>> {
    if names is Some && bins is Some && args is Some && names->0.len() == bins->0.len()
        && names->0.len() == args->0.len() {
        Some(
            Seq::new(
                names->0.len(),
                |i: int| CmdView { name: names->0[i], bin: bins->0[i], args: args->0[i] },
            ),
        )
    } else {
        None
    }
}

/// The commands that the run file `text` lists in its tables `cmd`.
pub open spec fn runfile_described(text: Seq<char>) -> Option<Seq<CmdView>> {
    commands_of(
        entry_column(text, "cmd"@, "name"@),
        entry_column(text, "cmd"@, "bin"@),
        entry_column(text, "cmd"@, "args"@),
    )
}

/// Whether `at` is the place of the first command of `cmds` named
/// `name`.
pub open spec fn is_first_named(cmds: Seq<CmdView>, name: Seq<char>, at: int) -> bool {
    &&& 0 <= at < cmds.len()
    &&& cmds[at].name == name
    &&& forall|before: int| 0 <= before < at ==> (#[trigger] cmds[before]).name != name
}

/// What running `command` from `cmds` starts: the program of the first
/// command of that name, with the words of its arguments.
pub open spec fn command_for(cmds: Seq<CmdView>, command: Seq<char>) -> Result<
    InvocationView,
    Failure,
> {
    if exists|at: int| is_first_named(cmds, command, at) {
        let at = choose|at: int| is_first_named(cmds, command, at);
        Ok(InvocationView { program: cmds[at].bin, args: words(cmds[at].args) })
    } else {
        Err(Failure::CommandNotFound(command))
    }
}

impl RunFile {
    /// The run file made of the names, the programs and the arguments of
    /// its commands, each list as far as it was there.
    pub fn from_columns(
        names: Option<Vec<String>>,
        bins: Option<Vec<String>>,
        args: Option<Vec<String>>,
    ) -> (made: Result<RunFile, Error>)
        ensures
            made is Ok <==> commands_of(texts_of(names), texts_of(bins), texts_of(args)) is Some,
            made matches Ok(runfile) ==> Some(runfile@) == commands_of(
                texts_of(names),
                texts_of(bins),
                texts_of(args),
            ),
            made matches Err(e) ==> e@ == Failure::MalformedRunfile,
    {
        let (names, bins, args) = match (names, bins, args) {
            (Some(names), Some(bins), Some(args)) => (names, bins, args),
            _ => {
                return Err(Error::MalformedRunfile);
            },
        };
        if names.len() != bins.len() || names.len() != args.len() {
            return Err(Error::MalformedRunfile);
        }
        let mut cmd: Vec<Cmd> = Vec::new();
        let mut i: usize = 0;
        while i < names.len()
            invariant
                i <= names.len(),
                names.len() == bins.len(),
                names.len() == args.len(),
                cmd@.len() == i,
                forall|k: int|
                    0 <= k < i ==> (#[trigger] cmd@[k])@ == (CmdView {
                        name: names@[k]@,
                        bin: bins@[k]@,
                        args: args@[k]@,
                    }),
            decreases names.len() - i,
        {
            cmd.push(Cmd { name: names[i].clone(), bin: bins[i].clone(), args: args[i].clone() });
            i += 1;
        }
        let runfile = RunFile { cmd };
        assert(runfile@ =~= commands_of(
            Some(texts(names@)),
            Some(texts(bins@)),
            Some(texts(args@)),
        )->0);
        Ok(runfile)
    }

    /// The run file that the TOML document `text` holds.
    pub fn from_document(text: &str) -> (made: Result<RunFile, Error>)
        ensures
            made is Ok <==> runfile_described(text@) is Some,
            made matches Ok(runfile) ==> Some(runfile@) == runfile_described(text@),
            made matches Err(e) ==> e@ == Failure::MalformedRunfile,
    {
        RunFile::from_columns(
            column_at(text, "cmd", "name"),
            column_at(text, "cmd", "bin"),
            column_at(text, "cmd", "args"),
        )
    }

    /// What running `command` starts: the program of the first command
    /// of that name, with the words of its arguments.
    pub fn invocation(&self, command: &str) -> (made: Result<Invocation, Error>)
        ensures
            match made {
                Ok(invocation) => command_for(self@, command@) == Ok::<InvocationView, Failure>(
                    invocation@,
                ),
                Err(e) => command_for(self@, command@) == Err::<InvocationView, Failure>(e@),
            },
    {
        let mut i: usize = 0;
        while i < self.cmd.len()
            invariant
                i <= self.cmd.len(),
                forall|before: int| 0 <= before < i ==> (#[trigger] self@[before]).name != command@,
            decreases self.cmd.len() - i,
        {
            let cmd = &self.cmd[i];
            if same_text(cmd.name.as_str(), command) {
                assert(is_first_named(self@, command@, i as int));
                return Ok(
                    Invocation {
                        program: cmd.bin.clone(),
                        args: split_whitespace(&chars_of(cmd.args.as_str())),
                    },
                );
            }
            i += 1;
        }
        Err(Error::CommandNotFound(command.to_owned()))
    }
}

/// What running `command` from the run file `runfile` starts.
pub fn run(command: &str, runfile: &str) -> (made: Result<Invocation, Error>)
    ensures
        runfile_described(runfile@) is None ==> made is Err && made->Err_0@
            == Failure::MalformedRunfile,
        runfile_described(runfile@) is Some ==> (match made {
            Ok(invocation) => command_for(runfile_described(runfile@)->0, command@) == Ok::<
                InvocationView,
                Failure,
            >(invocation@),
            Err(e) => command_for(runfile_described(runfile@)->0, command@) == Err::<
                InvocationView,
                Failure,
            >(e@),
        }),
{
    match RunFile::from_document(runfile) {
        Ok(file) => file.invocation(command),
        Err(e) => Err(e),
    }
}

} // verus!
