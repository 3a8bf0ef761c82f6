use ghutil::cli::{dispatch, display_name, CliError, Command, CommandKind, Request};

fn args(a: &[&str]) -> Vec<String> {
    a.iter().map(|s| s.to_string()).collect()
}

#[test]
fn display_name_strips_directories() {
    assert_eq!(display_name("a/b/notes.txt"), "notes.txt");
    assert_eq!(display_name("notes.txt"), "notes.txt");
    assert_eq!(display_name("/abs/dir/file.rs"), "file.rs");
    assert_eq!(display_name("a/b/"), "b");
}

#[test]
fn display_name_falls_back_to_path() {
    assert_eq!(display_name("/"), "/");
    assert_eq!(display_name(""), "");
    assert_eq!(display_name("a/.."), "a/..");
    assert_eq!(display_name("."), ".");
}

#[test]
fn help_comes_first() {
    assert!(matches!(dispatch(&args(&[]), true, false, false), Ok(Request::Help)));
    assert!(matches!(dispatch(&args(&["gist"]), true, false, true), Ok(Request::Help)));
}

#[test]
fn missing_credential_fails_before_any_command() {
    for a in [&["list-repos"][..], &["store-repos"], &["repo-stats", "o", "r"], &["bogus"], &[]] {
        assert_eq!(dispatch(&args(a), false, false, false).unwrap_err(), CliError::MissingCredential);
    }
}

#[test]
fn unknown_or_missing_command() {
    assert_eq!(dispatch(&args(&[]), false, false, true).unwrap_err(), CliError::UnknownCommand);
    assert_eq!(dispatch(&args(&["push"]), false, false, true).unwrap_err(), CliError::UnknownCommand);
}

#[test]
fn commands_without_arguments() {
    assert!(matches!(
        dispatch(&args(&["list-repos"]), false, false, true),
        Ok(Request::Run(Command::ListRepos))
    ));
    assert!(matches!(
        dispatch(&args(&["store-repos", "extra"]), false, false, true),
        Ok(Request::Run(Command::StoreRepos))
    ));
}

#[test]
fn repo_stats_arguments() {
    assert_eq!(
        dispatch(&args(&["repo-stats", "acme"]), false, false, true).unwrap_err(),
        CliError::NotEnoughArguments(CommandKind::RepoStats)
    );
    match dispatch(&args(&["repo-stats", "acme", "widget"]), false, false, true) {
        Ok(Request::Run(Command::RepoStats { owner, repo })) => {
            assert_eq!(owner, "acme");
            assert_eq!(repo, "widget");
        }
        other => panic!("unexpected {other:?}"),
    }
}

#[test]
fn gist_arguments_and_visibility() {
    assert_eq!(
        dispatch(&args(&["gist", "a/b/notes.txt"]), false, false, true).unwrap_err(),
        CliError::NotEnoughArguments(CommandKind::Gist)
    );
    match dispatch(&args(&["gist", "a/b/notes.txt", "my notes"]), false, false, true) {
        Ok(Request::Run(Command::Gist { path, description, public })) => {
            assert_eq!(path, "a/b/notes.txt");
            assert_eq!(description, "my notes");
            assert!(public);
        }
        other => panic!("unexpected {other:?}"),
    }
    match dispatch(&args(&["gist", "f", "d"]), false, true, true) {
        Ok(Request::Run(Command::Gist { public, .. })) => assert!(!public),
        other => panic!("unexpected {other:?}"),
    }
}
