use nibble::fetch::{
    archive_entry_target, check_extracted, default_registry, resolve_tarball_url, source_to_tarball_url,
    verify_fetched_manifest, FetchError,
};
use nibble::manifest::Dependency;

fn dep(alias: &str, at: &str, version: Option<&str>, source: Option<&str>) -> Dependency {
    Dependency::from_install_args(
        alias.to_string(),
        Some(at.to_string()),
        version.map(|v| v.to_string()),
        source.map(|s| s.to_string()),
    )
}

#[test]
fn github_sources() {
    assert_eq!(
        source_to_tarball_url("github:owner/repo", Some("v1.0")).unwrap(),
        "https://github.com/owner/repo/archive/refs/tags/v1.0.tar.gz"
    );
    assert_eq!(
        source_to_tarball_url("github:/owner/repo/", None).unwrap(),
        "https://github.com/owner/repo/archive/refs/heads/main.tar.gz"
    );
    assert!(matches!(
        source_to_tarball_url("github:owner", None),
        Err(FetchError::InvalidGitHubSource(s)) if s == "github:owner"
    ));
    assert!(matches!(
        source_to_tarball_url("github:a/b/c", None),
        Err(FetchError::InvalidGitHubSource(_))
    ));
}

#[test]
fn gitlab_sources() {
    assert_eq!(
        source_to_tarball_url("gitlab:owner/repo", Some("1.2")).unwrap(),
        "https://gitlab.com/owner/repo/-/archive/1.2/repo-1.2.tar.gz"
    );
    assert_eq!(
        source_to_tarball_url("gitlab:owner/repo", None).unwrap(),
        "https://gitlab.com/owner/repo/-/archive/main/repo-main.tar.gz"
    );
    assert!(matches!(
        source_to_tarball_url("gitlab:", None),
        Err(FetchError::InvalidGitLabSource(_))
    ));
}

#[test]
fn hosted_sources_need_two_nonempty_parts() {
    assert!(matches!(
        source_to_tarball_url("github:a//b", None),
        Err(FetchError::InvalidGitHubSource(_))
    ));
    assert!(matches!(
        source_to_tarball_url("gitlab:/a/", Some("1")),
        Err(FetchError::InvalidGitLabSource(_))
    ));
    assert_eq!(
        source_to_tarball_url("github:a/b", None).unwrap(),
        "https://github.com/a/b/archive/refs/heads/main.tar.gz"
    );
}

#[test]
fn url_sources_substitute_the_version() {
    assert_eq!(
        source_to_tarball_url("https://x.org/{version}/p-{version}.tar.gz", Some("2.0")).unwrap(),
        "https://x.org/2.0/p-2.0.tar.gz"
    );
    assert_eq!(
        source_to_tarball_url("https://x.org/p-{version}.tar.gz", None).unwrap(),
        "https://x.org/p-main.tar.gz"
    );
    assert_eq!(source_to_tarball_url("https://x.org/p.tar.gz", Some("1")).unwrap(), "https://x.org/p.tar.gz");
}

#[test]
fn registry_resolution() {
    assert_eq!(default_registry(), vec![("std".to_string(), "mysz-lang/mysz-std".to_string())]);
    assert_eq!(
        resolve_tarball_url(&dep("std", "std", Some("0.3.5"), None)).unwrap(),
        "https://github.com/mysz-lang/mysz-std/archive/refs/tags/0.3.5.tar.gz"
    );
    assert_eq!(
        resolve_tarball_url(&dep("s", "std", None, None)).unwrap(),
        "https://github.com/mysz-lang/mysz-std/archive/refs/heads/main.tar.gz"
    );
    assert!(matches!(
        resolve_tarball_url(&dep("x", "unknown", None, None)),
        Err(FetchError::NotInRegistry(a)) if a == "unknown"
    ));
    assert_eq!(
        resolve_tarball_url(&dep("u", "u", Some("3"), Some("github:a/b"))).unwrap(),
        "https://github.com/a/b/archive/refs/tags/3.tar.gz"
    );
}

#[test]
fn fetched_manifest_checks() {
    let m = "at name=\"std\" version=\"0.3.5\"\n";
    assert!(verify_fetched_manifest(&dep("s", "std", Some("0.3.5"), None), Some(m)).is_ok());
    assert!(verify_fetched_manifest(&dep("s", "std", None, None), Some(m)).is_ok());
    assert!(matches!(
        verify_fetched_manifest(&dep("s", "other", None, None), Some(m)),
        Err(FetchError::NameMismatch { declared, .. }) if declared == "std"
    ));
    assert!(matches!(
        verify_fetched_manifest(&dep("s", "std", Some("1.0"), None), Some(m)),
        Err(FetchError::VersionMismatch { requested, declared, .. }) if requested == "1.0" && declared == "0.3.5"
    ));
    assert!(matches!(
        verify_fetched_manifest(&dep("s", "std", None, None), None),
        Err(FetchError::MissingManifest(a)) if a == "s"
    ));
    assert!(matches!(
        verify_fetched_manifest(&dep("s", "std", None, None), Some("bogus {")),
        Err(FetchError::InvalidManifest { .. })
    ));
}

#[test]
fn empty_archive_is_refused() {
    let d = dep("s", "std", None, None);
    assert!(matches!(check_extracted(&d, 0), Err(FetchError::EmptyArchive(a)) if a == "s"));
    assert!(check_extracted(&d, 3).is_ok());
}

#[test]
fn archive_entries_lose_their_top_folder() {
    let parts = |xs: &[&str]| xs.iter().map(|x| x.to_string()).collect::<Vec<String>>();
    assert_eq!(archive_entry_target(&parts(&[])), None);
    assert_eq!(archive_entry_target(&parts(&["pkg-1.0"])), None);
    assert_eq!(
        archive_entry_target(&parts(&["pkg-1.0", "src", "main.mysz"])),
        Some(parts(&["src", "main.mysz"]))
    );
}
