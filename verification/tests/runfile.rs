use spacework::command::Invocation;
use spacework::config::runfile::{run, Cmd, RunFile};
use spacework::error::Error;

const RUNFILE: &str = "[[cmd]]\nname = \"hello\"\nbin = \"echo\"\nargs = \"Hello,   world!\"\n\n[[cmd]]\nname = \"list\"\nbin = \"ls\"\nargs = \"\"\n\n[[cmd]]\nname = \"hello\"\nbin = \"shadowed\"\nargs = \"x\"\n";

#[test]
fn reads_the_commands_of_a_run_file() {
    let runfile = RunFile::from_document(RUNFILE).unwrap();
    assert_eq!(runfile.cmd.len(), 3);
    assert_eq!(
        runfile.cmd[0],
        Cmd { name: "hello".to_string(), bin: "echo".to_string(), args: "Hello,   world!".to_string() }
    );
    assert_eq!(runfile.cmd[1].name, "list");
    assert_eq!(runfile.cmd[2].bin, "shadowed");
}

#[test]
fn runs_the_first_command_of_the_name() {
    assert_eq!(
        run("hello", RUNFILE),
        Ok(Invocation {
            program: "echo".to_string(),
            args: vec!["Hello,".to_string(), "world!".to_string()],
        })
    );
    assert_eq!(run("list", RUNFILE), Ok(Invocation { program: "ls".to_string(), args: Vec::new() }));
}

#[test]
fn unknown_command_is_reported_by_name() {
    assert_eq!(run("Hello", RUNFILE), Err(Error::CommandNotFound("Hello".to_string())));
    assert_eq!(
        Error::CommandNotFound("Hello".to_string()).message(),
        "`Hello` not found in runfile"
    );
}

#[test]
fn malformed_run_file_is_refused() {
    assert_eq!(run("hello", ""), Err(Error::MalformedRunfile));
    assert_eq!(run("hello", "[[cmd]]\nname = \"hello\"\nbin = \"echo\"\n"), Err(Error::MalformedRunfile));
    assert_eq!(run("hello", "[cmd]\nname = \"hello\"\nbin = \"echo\"\nargs = \"\"\n"), Err(Error::MalformedRunfile));
    assert_eq!(run("hello", "cmd = [1]\n"), Err(Error::MalformedRunfile));
    assert_eq!(Error::MalformedRunfile.message(), "Runfile does not list complete commands");
}

#[test]
fn run_file_needs_all_columns_equally_long() {
    let one = Some(vec!["a".to_string()]);
    let two = Some(vec!["a".to_string(), "b".to_string()]);
    assert_eq!(RunFile::from_columns(one.clone(), one.clone(), None), Err(Error::MalformedRunfile));
    assert_eq!(RunFile::from_columns(None, one.clone(), one.clone()), Err(Error::MalformedRunfile));
    assert_eq!(RunFile::from_columns(one.clone(), two.clone(), one.clone()), Err(Error::MalformedRunfile));
    assert_eq!(RunFile::from_columns(two.clone(), two.clone(), one.clone()), Err(Error::MalformedRunfile));
    let made = RunFile::from_columns(
        Some(vec!["n1".to_string(), "n2".to_string()]),
        Some(vec!["b1".to_string(), "b2".to_string()]),
        Some(vec!["a1".to_string(), "a2".to_string()]),
    )
    .unwrap();
    assert_eq!(
        made.cmd,
        vec![
            Cmd { name: "n1".to_string(), bin: "b1".to_string(), args: "a1".to_string() },
            Cmd { name: "n2".to_string(), bin: "b2".to_string(), args: "a2".to_string() },
        ]
    );
    assert_eq!(
        RunFile::from_columns(Some(Vec::new()), Some(Vec::new()), Some(Vec::new())),
        Ok(RunFile { cmd: Vec::new() })
    );
}
