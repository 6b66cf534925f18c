use spacework::command::Invocation;
use spacework::config::languagefile::{LanguageFile, C_TEMPLATE};
use spacework::config::spaceworkfile::{Located, SpaceworkFile, Step, Workspace as Recorded};
use spacework::error::Error;
use spacework::path::AbsolutePath;
use spacework::spacework::workspace::{
    build, is_inside_workspace, workspace_dir, Action, Home, Project, Workspace,
};

fn path(parts: &[&str]) -> AbsolutePath {
    AbsolutePath::new(parts.iter().map(|part| part.to_string()).collect())
}

#[test]
fn detects_inside_workspace_dir() {
    let root = workspace_dir(Home::Found(path(&["home", "me"]))).unwrap();
    assert!(!is_inside_workspace(&path(&["tmp"]), &root));
    assert!(is_inside_workspace(&root, &root));
}

#[test]
fn descendants_are_inside_siblings_and_ancestors_are_not() {
    let root = path(&["home", "me", "spacework"]);
    assert!(is_inside_workspace(&path(&["home", "me", "spacework", "c"]), &root));
    assert!(is_inside_workspace(&path(&["home", "me", "spacework", "c", "demo", "src"]), &root));
    assert!(!is_inside_workspace(&path(&["home", "me"]), &root));
    assert!(!is_inside_workspace(&path(&["home"]), &root));
    assert!(!is_inside_workspace(&path(&[]), &root));
    assert!(!is_inside_workspace(&path(&["home", "me", "other"]), &root));
    assert!(!is_inside_workspace(&path(&["home", "me", "spaceworks"]), &root));
    assert!(!is_inside_workspace(&path(&["home", "me", "space"]), &root));
    assert!(!is_inside_workspace(&path(&["home", "you", "spacework", "c"]), &root));
    assert!(is_inside_workspace(&path(&["anything"]), &path(&[])));
}

#[test]
fn workspace_lies_in_the_home_directory() {
    assert_eq!(
        workspace_dir(Home::Found(path(&["home", "me"]))),
        Ok(path(&["home", "me", "spacework"]))
    );
    assert_eq!(workspace_dir(Home::Found(path(&[]))), Ok(path(&["spacework"])));
    assert_eq!(workspace_dir(Home::NotPresent), Err(Error::HomeNotPresent));
    assert_eq!(workspace_dir(Home::NotUnicode), Err(Error::HomeNotUnicode));
    assert_eq!(
        Error::HomeNotPresent.message(),
        "HOME environment variable not found. Unable to create workspace"
    );
    assert_eq!(
        Error::HomeNotUnicode.message(),
        "Unable to parse HOME environment variable: Invalid unicode"
    );
}

#[test]
fn fresh_project_in_an_empty_workspace() {
    let root = path(&["home", "me", "spacework"]);
    let project = Workspace::create(&root, "demo", "c").unwrap();
    assert_eq!(project.dir, path(&["home", "me", "spacework", "c", "demo"]));
    assert_eq!(project.dir.to_string(), "/home/me/spacework/c/demo");
    assert_eq!(
        project.actions(false, false),
        Ok(vec![
            Action::CreateDir(path(&["home", "me", "spacework"])),
            Action::Record("Created spacework directory: /home/me/spacework".to_string()),
            Action::CreateDir(path(&["home", "me", "spacework", "c", "demo"])),
            Action::CreateDir(path(&["home", "me", "spacework", "c", "demo", "src"])),
            Action::CreateDir(path(&["home", "me", "spacework", "c", "demo", "bin"])),
            Action::WriteFile(
                path(&["home", "me", "spacework", "c", "demo", "spacework.toml"]),
                "[workspace]\nlanguage = \"c\"".to_string()
            ),
            Action::WriteFile(
                path(&["home", "me", "spacework", "c", "demo", "src", "main.c"]),
                C_TEMPLATE.to_string()
            ),
        ])
    );
}

#[test]
fn existing_root_is_not_created_again() {
    let root = path(&["w"]);
    let project = Workspace::create(&root, "foo", "cpp").unwrap();
    let steps = project.actions(true, false).unwrap();
    assert_eq!(steps.len(), 5);
    assert_eq!(steps[0], Action::CreateDir(path(&["w", "cpp", "foo"])));
}

#[test]
fn creating_twice_is_refused_the_second_time() {
    let root = path(&["home", "me", "spacework"]);
    let first = Workspace::create(&root, "foo", "cpp").unwrap();
    assert!(first.actions(true, false).is_ok());
    let second = Workspace::create(&root, "foo", "cpp").unwrap();
    assert_eq!(second, first);
    assert_eq!(
        second.actions(true, true),
        Err(Error::ProjectAlreadyExists("/home/me/spacework/cpp/foo".to_string()))
    );
    assert_eq!(
        Error::ProjectAlreadyExists("/home/me/spacework/cpp/foo".to_string()).message(),
        "Project directory already exists: /home/me/spacework/cpp/foo"
    );
}

#[test]
fn project_of_an_unknown_language_is_refused() {
    let root = path(&["w"]);
    assert_eq!(
        Workspace::create(&root, "demo", "Cobol"),
        Err(Error::UnknownLanguage("Cobol".to_string()))
    );
    assert_eq!(
        Error::UnknownLanguage("Cobol".to_string()).message(),
        "Language file not found for `Cobol`. Check your spelling or consider creating one in your spacework directory."
    );
}

#[test]
fn project_needs_a_name_and_a_language() {
    let root = path(&["w"]);
    assert_eq!(
        Workspace::create_from_options(&root, None, Some("c")),
        Err(Error::NameRequired)
    );
    assert_eq!(Workspace::create_from_options(&root, None, None), Err(Error::NameRequired));
    assert_eq!(
        Workspace::create_from_options(&root, Some("demo"), None),
        Err(Error::LanguageRequired)
    );
    assert_eq!(
        Workspace::create_from_options(&root, Some("demo"), Some("C++")),
        Workspace::create(&root, "demo", "cpp")
    );
    assert_eq!(Error::NameRequired.message(), "Workspace requires a name");
    assert_eq!(Error::LanguageRequired.message(), "Workspace requires a language");
}

#[test]
fn project_of_a_described_language() {
    let mut c = LanguageFile::from_language("c").unwrap();
    c.workspace.dir = "see".to_string();
    let made = Workspace::create_with(&c, &path(&["w"]), "demo");
    assert_eq!(
        made,
        Ok(Project {
            root: path(&["w"]),
            dir: path(&["w", "see", "demo"]),
            language: "c".to_string(),
            src: "main.c".to_string(),
            template: C_TEMPLATE.to_string(),
        })
    );
    c.workspace.src = "start.c".to_string();
    assert_eq!(
        Workspace::create_with(&c, &path(&["w"]), "demo"),
        Err(Error::TemplateNotFound("start.c".to_string()))
    );
    assert_eq!(
        Error::TemplateNotFound("start.c".to_string()).message(),
        "Unable to find matching template file for `start.c`."
    );
}

#[test]
fn created_project_is_found_again() {
    let root = path(&["home", "me", "spacework"]);
    let project = Workspace::create(&root, "demo", "C++").unwrap();
    let steps = project.actions(true, false).unwrap();
    let written: Vec<(&AbsolutePath, &String)> = steps
        .iter()
        .filter_map(|step| match step {
            Action::WriteFile(file, text) => Some((file, text)),
            Action::CreateDir(_) | Action::Record(_) => None,
        })
        .collect();
    for start in [project.dir.duplicate(), project.dir.join("src"), project.dir.join("bin")] {
        let mut walk = SpaceworkFile::find_in_dir(&root, &start).unwrap();
        let found = loop {
            let wanted = walk.config_path();
            let text = written.iter().find(|(at, _)| **at == wanted).map(|(_, text)| text.as_str());
            match walk.advance(text).unwrap() {
                Step::Found(located) => break located,
                Step::Continue(next) => walk = next,
            }
        };
        assert_eq!(found.dir, project.dir);
        assert_eq!(
            LanguageFile::from_language(&found.file.workspace.language),
            LanguageFile::from_language("C++")
        );
    }
}

#[test]
fn builds_the_project_that_was_found() {
    let found = Located {
        dir: path(&["home", "me", "spacework", "cpp", "demo"]),
        file: SpaceworkFile { workspace: Recorded { language: "cpp".to_string() } },
    };
    assert_eq!(
        build(&found),
        Ok(Invocation {
            program: "g++".to_string(),
            args: vec![
                "-std=c++20".to_string(),
                "-Wall".to_string(),
                "-Wextra".to_string(),
                "/home/me/spacework/cpp/demo/src/main.cpp".to_string(),
                "-o".to_string(),
                "/home/me/spacework/cpp/demo/bin/main".to_string(),
            ],
        })
    );
}

#[test]
fn recorded_language_that_is_gone_builds_nothing() {
    let found = Located {
        dir: path(&["w", "py", "demo"]),
        file: SpaceworkFile { workspace: Recorded { language: "python".to_string() } },
    };
    assert_eq!(build(&found), Err(Error::UnknownLanguage("python".to_string())));
}

#[test]
#[should_panic]
fn cfg_not_found_in_non_workspace_dir() {
    let root = workspace_dir(Home::Found(path(&["home", "me"]))).unwrap();
    let tmp = path(&["tmp"]);

    SpaceworkFile::find_in_dir(&root, &tmp).unwrap();
}

#[test]
fn cfg_found_in_workspace_dir() {
    let root = workspace_dir(Home::Found(path(&["home", "me"]))).unwrap();
    let project = Workspace::create(&root, ".spacework_test", "cpp").unwrap();
    let config = SpaceworkFile::create(&project.dir, &LanguageFile::from_language("cpp").unwrap());

    let walk = SpaceworkFile::find_in_dir(&root, &project.dir).unwrap();
    let read = match &config {
        Action::WriteFile(file, text) if *file == walk.config_path() => Some(text.as_str()),
        _ => None,
    };
    match walk.advance(read).unwrap() {
        Step::Found(found) => {
            assert_eq!(found.dir, project.dir);
            assert_eq!(found.file.workspace.language, "cpp");
        }
        Step::Continue(_) => panic!("the project's own configuration was passed over"),
    }
}

#[test]
fn project_names_that_leave_the_workspace_are_refused() {
    let root = path(&["home", "me", "spacework"]);
    for name in ["../../../x", "/tmp/x", "a/b", "..", ".", "", "x/"] {
        assert_eq!(
            Workspace::create(&root, name, "c"),
            Err(Error::InvalidName(name.to_string()))
        );
        assert_eq!(
            Workspace::create_from_options(&root, Some(name), Some("c")),
            Err(Error::InvalidName(name.to_string()))
        );
    }
    assert_eq!(
        Error::InvalidName("a/b".to_string()).message(),
        "`a/b` is not the name of one directory"
    );
    let odd = Workspace::create(&root, "..x", "c").unwrap();
    assert_eq!(odd.dir, path(&["home", "me", "spacework", "c", "..x"]));
    assert!(odd.dir.has_plain_names());
}

#[test]
fn language_directories_that_leave_the_workspace_are_refused() {
    let root = path(&["w"]);
    let mut c = LanguageFile::from_language("c").unwrap();
    c.workspace.dir = "../c".to_string();
    assert_eq!(
        Workspace::create_with(&c, &root, "demo"),
        Err(Error::InvalidName("../c".to_string()))
    );
    c.workspace.dir = "".to_string();
    assert_eq!(Workspace::create_with(&c, &root, "demo"), Err(Error::InvalidName("".to_string())));
    assert_eq!(
        Workspace::create_with(&c, &root, "a/b"),
        Err(Error::InvalidName("a/b".to_string()))
    );
}

#[test]
fn every_step_of_a_project_stays_below_the_root() {
    let root = path(&["home", "me", "spacework"]);
    let project = Workspace::create(&root, "demo", "cpp").unwrap();
    for step in project.actions(false, false).unwrap().iter() {
        match step {
            Action::CreateDir(at) | Action::WriteFile(at, _) => {
                assert!(is_inside_workspace(at, &root));
                assert!(at.has_plain_names());
            }
            Action::Record(text) => assert!(text.ends_with("/home/me/spacework")),
        }
    }
}

#[test]
fn projects_made_by_hand_are_held_to_the_workspace_too() {
    let mut project = Workspace::create(&path(&["w"]), "demo", "c").unwrap();
    assert!(project.actions(true, false).is_ok());
    project.dir = path(&["elsewhere", "c", "demo"]);
    assert_eq!(project.actions(true, false), Err(Error::NotInWorkspace));
    project.dir = path(&["w", "c", "..", "..", "demo"]);
    assert_eq!(project.actions(false, false), Err(Error::NotInWorkspace));
    project.dir = path(&["w", "c", "a/b"]);
    assert_eq!(project.actions(true, true), Err(Error::NotInWorkspace));
    project.dir = path(&["w", "c", "demo"]);
    project.src = "../main.c".to_string();
    assert_eq!(project.actions(true, false), Err(Error::InvalidName("../main.c".to_string())));
    project.src = "main.c".to_string();
    assert_eq!(
        project.actions(true, true),
        Err(Error::ProjectAlreadyExists("/w/c/demo".to_string()))
    );
}
