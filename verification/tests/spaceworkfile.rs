use spacework::config::languagefile::LanguageFile;
use spacework::config::spaceworkfile::{Located, SpaceworkFile, Step, Walk, Workspace, CONFIG_FILE};
use spacework::error::Error;
use spacework::path::AbsolutePath;
use spacework::spacework::workspace::Action;

fn path(parts: &[&str]) -> AbsolutePath {
    AbsolutePath::new(parts.iter().map(|part| part.to_string()).collect())
}

/// Runs a search over files kept in memory, and counts the reads.
fn search(
    root: &AbsolutePath,
    start: &AbsolutePath,
    files: &[(AbsolutePath, &str)],
) -> (Result<Located, Error>, Vec<AbsolutePath>) {
    let mut read = Vec::new();
    let mut walk = match SpaceworkFile::find_in_dir(root, start) {
        Ok(walk) => walk,
        Err(e) => return (Err(e), read),
    };
    loop {
        let wanted = walk.config_path();
        let text = files.iter().find(|(at, _)| *at == wanted).map(|(_, text)| *text);
        read.push(wanted);
        match walk.advance(text) {
            Ok(Step::Found(located)) => return (Ok(located), read),
            Ok(Step::Continue(next)) => walk = next,
            Err(e) => return (Err(e), read),
        }
    }
}

#[test]
fn configuration_text_names_the_language() {
    assert_eq!(SpaceworkFile::text_for("cpp"), "[workspace]\nlanguage = \"cpp\"");
    assert_eq!(CONFIG_FILE, "spacework.toml");
}

#[test]
fn configuration_reads_back_as_written() {
    let file = SpaceworkFile::from_str(&SpaceworkFile::text_for("cpp")).unwrap();
    assert_eq!(file, SpaceworkFile { workspace: Workspace { language: "cpp".to_string() } });
    let file = SpaceworkFile::from_str("other = 1\n[workspace]\nlanguage = 'c'\nmore = true\n").unwrap();
    assert_eq!(file.workspace.language, "c");
}

#[test]
fn malformed_configuration_is_refused() {
    assert_eq!(SpaceworkFile::from_str(""), Err(Error::MalformedConfiguration));
    assert_eq!(SpaceworkFile::from_str("[workspace]\n"), Err(Error::MalformedConfiguration));
    assert_eq!(
        SpaceworkFile::from_str("[workspace]\nlanguage = 3\n"),
        Err(Error::MalformedConfiguration)
    );
    assert_eq!(SpaceworkFile::from_str("language = \"c\"\n"), Err(Error::MalformedConfiguration));
    assert_eq!(SpaceworkFile::from_str("[workspace\nlanguage"), Err(Error::MalformedConfiguration));
    assert_eq!(SpaceworkFile::from_entry(None), Err(Error::MalformedConfiguration));
    assert_eq!(
        SpaceworkFile::from_entry(Some("c".to_string())),
        Ok(SpaceworkFile { workspace: Workspace { language: "c".to_string() } })
    );
}

#[test]
fn configuration_file_goes_into_the_project_directory() {
    let cpp = LanguageFile::from_language("c++").unwrap();
    let dir = path(&["home", "me", "spacework", "cpp", "demo"]);
    assert_eq!(
        SpaceworkFile::create(&dir, &cpp),
        Action::WriteFile(
            path(&["home", "me", "spacework", "cpp", "demo", "spacework.toml"]),
            "[workspace]\nlanguage = \"cpp\"".to_string()
        )
    );
}

#[test]
fn search_outside_the_workspace_is_refused() {
    let root = path(&["home", "me", "spacework"]);
    assert_eq!(SpaceworkFile::find_in_dir(&root, &path(&["tmp"])), Err(Error::NotInWorkspace));
    assert_eq!(SpaceworkFile::find_in_dir(&root, &path(&["home", "me"])), Err(Error::NotInWorkspace));
    assert_eq!(
        SpaceworkFile::find_in_dir(&root, &path(&["home", "me", "spaceworks", "c"])),
        Err(Error::NotInWorkspace)
    );
    assert_eq!(SpaceworkFile::find_in_dir(&root, &path(&[])), Err(Error::NotInWorkspace));
    let (found, read) = search(&root, &path(&["tmp"]), &[]);
    assert_eq!(found, Err(Error::NotInWorkspace));
    assert!(read.is_empty());
}

#[test]
fn search_begins_where_it_was_asked_to() {
    let root = path(&["home", "me", "spacework"]);
    let start = path(&["home", "me", "spacework", "c", "demo", "src"]);
    let walk = SpaceworkFile::find_in_dir(&root, &start).unwrap();
    assert_eq!(walk, Walk { root: path(&["home", "me", "spacework"]), dir: start });
    assert_eq!(
        walk.config_path(),
        path(&["home", "me", "spacework", "c", "demo", "src", "spacework.toml"])
    );
}

#[test]
fn search_without_configuration_ends_at_the_root() {
    let root = path(&["home", "me", "spacework"]);
    let start = path(&["home", "me", "spacework", "c", "demo", "src"]);
    let outside = (path(&["home", "me", "spacework.toml"]), "[workspace]\nlanguage = \"c\"");
    let (found, read) = search(&root, &start, &[outside]);
    assert_eq!(found, Err(Error::ConfigurationNotFound));
    assert_eq!(
        read,
        vec![
            path(&["home", "me", "spacework", "c", "demo", "src", "spacework.toml"]),
            path(&["home", "me", "spacework", "c", "demo", "spacework.toml"]),
            path(&["home", "me", "spacework", "c", "spacework.toml"]),
            path(&["home", "me", "spacework", "spacework.toml"]),
        ]
    );
    let (found, read) = search(&root, &root, &[]);
    assert_eq!(found, Err(Error::ConfigurationNotFound));
    assert_eq!(read, vec![path(&["home", "me", "spacework", "spacework.toml"])]);
    assert_eq!(Error::ConfigurationNotFound.message(), "`spacework.toml` file not found");
}

#[test]
fn search_from_nested_directory_finds_the_same_configuration() {
    let root = path(&["home", "me", "spacework"]);
    let project = path(&["home", "me", "spacework", "c", "demo"]);
    let files = [(project.join("spacework.toml"), "[workspace]\nlanguage = \"c\"")];
    let (from_project, _) = search(&root, &project, &files);
    let (from_src, read) = search(&root, &project.join("src"), &files);
    let wanted = Located {
        dir: path(&["home", "me", "spacework", "c", "demo"]),
        file: SpaceworkFile { workspace: Workspace { language: "c".to_string() } },
    };
    assert_eq!(from_project, Ok(wanted));
    assert_eq!(from_src, from_project);
    assert_eq!(read.len(), 2);
    let (from_deep, _) = search(&root, &project.join("src").join("a").join("b"), &files);
    assert_eq!(from_deep, from_project);
}

#[test]
fn search_takes_the_nearest_configuration() {
    let root = path(&["w"]);
    let files = [
        (path(&["w", "spacework.toml"]), "[workspace]\nlanguage = \"c\""),
        (path(&["w", "cpp", "demo", "spacework.toml"]), "[workspace]\nlanguage = \"cpp\""),
    ];
    let (found, _) = search(&root, &path(&["w", "cpp", "demo", "src"]), &files);
    assert_eq!(found.unwrap().file.workspace.language, "cpp");
    let (found, _) = search(&root, &path(&["w", "cpp"]), &files);
    let found = found.unwrap();
    assert_eq!(found.file.workspace.language, "c");
    assert_eq!(found.dir, path(&["w"]));
}

#[test]
fn search_passes_over_what_is_no_configuration() {
    let root = path(&["w"]);
    let files = [
        (path(&["w", "c", "spacework.toml"]), "[workspace]\nlanguage = \"c\""),
        (path(&["w", "c", "demo", "spacework.toml"]), "not a configuration"),
    ];
    let (found, read) = search(&root, &path(&["w", "c", "demo"]), &files);
    assert_eq!(found.unwrap().dir, path(&["w", "c"]));
    assert_eq!(read.len(), 2);
}

#[test]
fn one_step_of_the_search() {
    let walk = Walk { root: path(&["w"]), dir: path(&["w", "c", "demo"]) };
    assert_eq!(
        walk.advance(None),
        Ok(Step::Continue(Walk { root: path(&["w"]), dir: path(&["w", "c"]) }))
    );
    let walk = Walk { root: path(&["w"]), dir: path(&["w"]) };
    assert_eq!(walk.advance(Some("nothing")), Err(Error::ConfigurationNotFound));
    let walk = Walk { root: path(&["w"]), dir: path(&["w"]) };
    assert_eq!(
        walk.advance(Some("[workspace]\nlanguage = \"c\"")),
        Ok(Step::Found(Located {
            dir: path(&["w"]),
            file: SpaceworkFile { workspace: Workspace { language: "c".to_string() } },
        }))
    );
    let at_filesystem_root = Walk { root: path(&[]), dir: path(&[]) };
    assert_eq!(at_filesystem_root.advance(None), Err(Error::ConfigurationNotFound));
}

#[test]
fn builtin_languages_are_recorded_faithfully() {
    for file in LanguageFile::langfiles().unwrap().iter() {
        assert!(SpaceworkFile::records_faithfully(file));
    }
}

#[test]
fn some_languages_would_not_find_their_way_back() {
    let mut odd = LanguageFile::from_language("c").unwrap();
    odd.language.name = "C".to_string();
    assert!(!SpaceworkFile::records_faithfully(&odd));
    odd.language.name = "say \"c\"".to_string();
    assert!(!SpaceworkFile::records_faithfully(&odd));
    odd.language.name = "back\\slash".to_string();
    assert!(!SpaceworkFile::records_faithfully(&odd));
    odd.language.name = "c".to_string();
    assert!(SpaceworkFile::records_faithfully(&odd));
    odd.workspace.src = "spacework.toml".to_string();
    assert!(!SpaceworkFile::records_faithfully(&odd));
}
