use spacework::config::languagefile::LanguageFile;
use spacework::error::Error;
use spacework::registry::Registry;

#[test]
fn all_langfiles_found_and_parseable() {
    let files = LanguageFile::langfiles().unwrap();
    assert_eq!(files.len(), 2);
    assert_eq!(files[0].language.name, "c");
    assert_eq!(files[1].language.name, "cpp");
    assert_eq!(files[1].language.aliases, vec!["c++".to_string()]);
}

#[test]
fn resolves_aliases_without_regard_to_case() {
    let registry = Registry::builtin().unwrap();
    let by_alias = registry.resolve("C++").unwrap();
    let by_name = registry.resolve("cpp").unwrap();
    let by_upper = registry.resolve("CPP").unwrap();
    assert_eq!(by_alias.language.name, "cpp");
    assert_eq!(by_alias, by_name);
    assert_eq!(by_name, by_upper);
}

#[test]
fn unknown_language_keeps_the_input_as_written() {
    let registry = Registry::builtin().unwrap();
    let err = registry.resolve("Eldritch Horrors").unwrap_err();
    assert_eq!(err, Error::UnknownLanguage("Eldritch Horrors".to_string()));
    assert!(err.message().contains("Eldritch Horrors"));
}

#[test]
fn registry_refuses_shared_names() {
    let mut files = LanguageFile::langfiles().unwrap();
    files[0].language.aliases.push("c++".to_string());
    assert_eq!(Registry::new(files).unwrap_err(), Error::NameCollision("c++".to_string()));
    let mut files = LanguageFile::langfiles().unwrap();
    files[1].language.name = "c".to_string();
    assert_eq!(Registry::new(files).unwrap_err(), Error::NameCollision("c".to_string()));
    let mut files = LanguageFile::langfiles().unwrap();
    files[1].language.aliases.push("c".to_string());
    assert_eq!(Registry::new(files).unwrap_err(), Error::NameCollision("c".to_string()));
    assert_eq!(
        Error::NameCollision("c".to_string()).message(),
        "More than one language goes by `c`"
    );
}

#[test]
fn registry_keeps_its_languages_in_order() {
    let files = LanguageFile::langfiles().unwrap();
    let registry = Registry::new(files).unwrap();
    assert_eq!(registry.langfiles, LanguageFile::langfiles().unwrap());
    assert!(Registry::new(Vec::new()).unwrap().langfiles.is_empty());
    let (names, aliases) = registry.all_names_and_aliases();
    assert_eq!(names, vec!["c", "cpp"]);
    assert_eq!(aliases, vec!["c++"]);
}

#[test]
fn registry_with_a_repeated_alias_in_one_language_is_fine() {
    let mut files = LanguageFile::langfiles().unwrap();
    files[1].language.aliases.push("c++".to_string());
    files[1].language.aliases.push("cpp".to_string());
    let registry = Registry::new(files).unwrap();
    assert_eq!(registry.resolve("C++").unwrap().language.name, "cpp");
}

#[test]
fn lookup_lowers_the_input_not_the_names() {
    let mut files = LanguageFile::langfiles().unwrap();
    files[0].language.name = "C".to_string();
    let registry = Registry::new(files).unwrap();
    assert_eq!(registry.resolve("C"), Err(Error::UnknownLanguage("C".to_string())));
    assert_eq!(registry.resolve("c"), Err(Error::UnknownLanguage("c".to_string())));
    assert_eq!(registry.resolve("ÇPP"), Err(Error::UnknownLanguage("ÇPP".to_string())));
}

#[test]
fn descriptor_and_configuration_errors_have_messages() {
    assert_eq!(
        Error::MalformedDescriptor.message(),
        "Language file is not a complete language description"
    );
    assert_eq!(
        Error::MalformedConfiguration.message(),
        "`spacework.toml` does not name a workspace language"
    );
    assert_eq!(Error::NotInWorkspace.message(), "Must be inside a spacework workspace");
}
