use gir::errors::GirError;
use gir::repository::{
    repo_default_config, repo_find_step, repo_find_verdict, GitConfig, GitRepository, RepoFindStep,
};

fn config_with_version(v: &str) -> GitConfig {
    let mut conf = GitConfig::new();
    conf.set("core", "repositoryformatversion", v);
    conf
}

#[test]
fn version_zero_is_accepted() {
    let repo =
        GitRepository::new("/tmp/wt".to_string(), false, true, Some(config_with_version("0")))
            .unwrap();
    assert_eq!(repo.get_worktree(), "/tmp/wt");
    assert_eq!(repo.get_gitdir(), "/tmp/wt/.git");
}

#[test]
fn version_one_is_unsupported() {
    let err =
        GitRepository::new("/tmp/wt".to_string(), false, true, Some(config_with_version("1")))
            .unwrap_err();
    match err {
        GirError::UnsupportedFormatVersion { found } => assert_eq!(found, 1),
        other => panic!("expected UnsupportedFormatVersion, got {:?}", other),
    }
}

#[test]
fn negative_version_is_unsupported() {
    let err =
        GitRepository::new("/tmp/wt".to_string(), false, true, Some(config_with_version("-3")))
            .unwrap_err();
    assert!(matches!(err, GirError::UnsupportedFormatVersion { found: -3 }));
}

#[test]
fn non_integer_version_is_an_error_not_a_panic() {
    let err = GitRepository::new(
        "/tmp/wt".to_string(),
        false,
        true,
        Some(config_with_version("banana")),
    )
    .unwrap_err();
    assert!(matches!(err, GirError::Io { .. }));
}

#[test]
fn plus_signed_zero_version_is_accepted() {
    let repo =
        GitRepository::new("/tmp/wt".to_string(), false, true, Some(config_with_version("+0")));
    assert!(repo.is_ok());
}

#[test]
fn absent_version_key_is_accepted() {
    let repo = GitRepository::new("/tmp/wt".to_string(), false, true, Some(GitConfig::new()));
    assert!(repo.is_ok());
}

#[test]
fn missing_metadata_directory_is_not_a_repository() {
    let err = GitRepository::new("/tmp/wt".to_string(), false, false, Some(GitConfig::new()))
        .unwrap_err();
    assert!(matches!(err, GirError::NotARepository));
}

#[test]
fn missing_config_without_force_is_not_a_repository() {
    let err = GitRepository::new("/tmp/wt".to_string(), false, true, None).unwrap_err();
    assert!(matches!(err, GirError::NotARepository));
}

#[test]
fn forced_construction_skips_every_check() {
    let repo = GitRepository::new("/tmp/wt".to_string(), true, false, None).unwrap();
    assert_eq!(repo.get_gitdir(), "/tmp/wt/.git");
    let repo2 =
        GitRepository::new("/tmp/wt".to_string(), true, false, Some(config_with_version("9")));
    assert!(repo2.is_ok());
}

#[test]
fn default_config_settings() {
    let conf = repo_default_config();
    assert_eq!(
        conf.get("core", "repositoryformatversion").as_deref(),
        Some("0")
    );
    assert_eq!(conf.get("core", "filemode").as_deref(), Some("false"));
    assert_eq!(conf.get("core", "bare").as_deref(), Some("false"));
    assert_eq!(conf.getint("core", "repositoryformatversion"), Some(Some(0)));
    assert_eq!(conf.get("core", "missing"), None);
    assert_eq!(conf.get("other", "bare"), None);
}

#[test]
fn getint_distinguishes_absent_and_unparseable() {
    let mut conf = GitConfig::new();
    conf.set("core", "repositoryformatversion", "banana");
    assert_eq!(conf.getint("core", "repositoryformatversion"), None);
    assert_eq!(conf.getint("core", "absent"), Some(None));
    conf.set("core", "repositoryformatversion", "-42");
    assert_eq!(
        conf.getint("core", "repositoryformatversion"),
        Some(Some(-42))
    );
}

#[test]
fn set_overrides_earlier_values() {
    let mut conf = GitConfig::new();
    conf.set("core", "bare", "false");
    conf.set("core", "bare", "true");
    assert_eq!(conf.get("core", "bare").as_deref(), Some("true"));
}

#[test]
fn locator_steps() {
    assert_eq!(repo_find_step(true, true), RepoFindStep::Found);
    assert_eq!(repo_find_step(true, false), RepoFindStep::Ascend);
    assert_eq!(repo_find_step(false, false), RepoFindStep::RootReached);
    // The root is examined like any other directory.
    assert_eq!(repo_find_step(false, true), RepoFindStep::Found);
}

#[test]
fn locator_verdict_when_nothing_found() {
    let required = repo_find_verdict(true);
    assert!(matches!(required, Err(GirError::RepositoryNotFound)));
    let optional = repo_find_verdict(false);
    assert!(matches!(optional, Ok(None)));
}

#[test]
fn error_messages_are_distinct_and_named() {
    assert_eq!(
        GirError::NotARepository.message(),
        "Not a git repository"
    );
    assert_eq!(
        GirError::RepositoryNotFound.message(),
        "No Repository found"
    );
    assert_eq!(
        GirError::UnsupportedFormatVersion { found: 1 }.message(),
        "Unsupported repositoryformatversion: 1"
    );
    assert_eq!(
        GirError::UnsupportedFormatVersion { found: -7 }.message(),
        "Unsupported repositoryformatversion: -7"
    );
    assert_eq!(GirError::NotADirectory.message(), "Not a directory");
    assert_eq!(GirError::DirectoryNotEmpty.message(), "Directory not empty");
    assert_eq!(
        GirError::MalformedObject { identifier: "abcd".to_string() }.message(),
        "Malformed object abcd: bad length"
    );
    assert_eq!(
        GirError::UnknownObjectType { tag: "widget".to_string(), identifier: None }.message(),
        "Unknown type widget!"
    );
    assert_eq!(
        GirError::UnknownObjectType {
            tag: "widget".to_string(),
            identifier: Some("abcd".to_string())
        }
        .message(),
        "Unknown type widget for object abcd"
    );
    assert_eq!(
        GirError::Io { detail: "disk on fire".to_string() }.message(),
        "disk on fire"
    );
}
