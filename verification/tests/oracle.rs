use update_telemetry::updater::{AutoUpdateStatus, AutoUpdater, CommitShaLookupError};
use update_telemetry::version::{AppCommitSha, ReleaseChannel, SemanticVersion, VersionCheckType};

#[test]
fn test_stable_does_not_update_when_fetched_version_is_not_higher() {
    let release_channel = ReleaseChannel::Stable;
    let app_commit_sha: Result<Option<String>, CommitShaLookupError> = Ok(Some("a".to_string()));
    let installed_version = SemanticVersion::new(1, 0, 0);
    let status = AutoUpdateStatus::Idle;
    let fetched_version = SemanticVersion::new(1, 0, 0);

    let newer_version = AutoUpdater::check_if_fetched_version_is_newer(
        release_channel,
        app_commit_sha,
        installed_version,
        fetched_version.version_string(),
        status,
    );

    assert_eq!(newer_version.unwrap(), None);
}

#[test]
fn test_stable_does_update_when_fetched_version_is_higher() {
    let release_channel = ReleaseChannel::Stable;
    let app_commit_sha: Result<Option<String>, CommitShaLookupError> = Ok(Some("a".to_string()));
    let installed_version = SemanticVersion::new(1, 0, 0);
    let status = AutoUpdateStatus::Idle;
    let fetched_version = SemanticVersion::new(1, 0, 1);

    let newer_version = AutoUpdater::check_if_fetched_version_is_newer(
        release_channel,
        app_commit_sha,
        installed_version,
        fetched_version.version_string(),
        status,
    );

    assert_eq!(
        newer_version.unwrap(),
        Some(VersionCheckType::Semantic(fetched_version))
    );
}

#[test]
fn test_stable_does_not_update_when_fetched_version_is_not_higher_than_cached() {
    let release_channel = ReleaseChannel::Stable;
    let app_commit_sha: Result<Option<String>, CommitShaLookupError> = Ok(Some("a".to_string()));
    let installed_version = SemanticVersion::new(1, 0, 0);
    let status = AutoUpdateStatus::Updated {
        binary_path: String::new(),
        version: VersionCheckType::Semantic(SemanticVersion::new(1, 0, 1)),
    };
    let fetched_version = SemanticVersion::new(1, 0, 1);

    let newer_version = AutoUpdater::check_if_fetched_version_is_newer(
        release_channel,
        app_commit_sha,
        installed_version,
        fetched_version.version_string(),
        status,
    );

    assert_eq!(newer_version.unwrap(), None);
}

#[test]
fn test_stable_does_update_when_fetched_version_is_higher_than_cached() {
    let release_channel = ReleaseChannel::Stable;
    let app_commit_sha: Result<Option<String>, CommitShaLookupError> = Ok(Some("a".to_string()));
    let installed_version = SemanticVersion::new(1, 0, 0);
    let status = AutoUpdateStatus::Updated {
        binary_path: String::new(),
        version: VersionCheckType::Semantic(SemanticVersion::new(1, 0, 1)),
    };
    let fetched_version = SemanticVersion::new(1, 0, 2);

    let newer_version = AutoUpdater::check_if_fetched_version_is_newer(
        release_channel,
        app_commit_sha,
        installed_version,
        fetched_version.version_string(),
        status,
    );

    assert_eq!(
        newer_version.unwrap(),
        Some(VersionCheckType::Semantic(fetched_version))
    );
}

#[test]
fn test_nightly_does_not_update_when_fetched_sha_is_same() {
    let release_channel = ReleaseChannel::Nightly;
    let app_commit_sha: Result<Option<String>, CommitShaLookupError> = Ok(Some("a".to_string()));
    let installed_version = SemanticVersion::new(1, 0, 0);
    let status = AutoUpdateStatus::Idle;
    let fetched_sha = "a".to_string();

    let newer_version = AutoUpdater::check_if_fetched_version_is_newer(
        release_channel,
        app_commit_sha,
        installed_version,
        fetched_sha,
        status,
    );

    assert_eq!(newer_version.unwrap(), None);
}

#[test]
fn test_nightly_does_update_when_fetched_sha_is_not_same() {
    let release_channel = ReleaseChannel::Nightly;
    let app_commit_sha: Result<Option<String>, CommitShaLookupError> = Ok(Some("a".to_string()));
    let installed_version = SemanticVersion::new(1, 0, 0);
    let status = AutoUpdateStatus::Idle;
    let fetched_sha = "b".to_string();

    let newer_version = AutoUpdater::check_if_fetched_version_is_newer(
        release_channel,
        app_commit_sha,
        installed_version,
        fetched_sha.clone(),
        status,
    );

    assert_eq!(
        newer_version.unwrap(),
        Some(VersionCheckType::Sha(AppCommitSha::new(fetched_sha)))
    );
}

#[test]
fn test_nightly_does_not_update_when_fetched_sha_is_same_as_cached() {
    let release_channel = ReleaseChannel::Nightly;
    let app_commit_sha: Result<Option<String>, CommitShaLookupError> = Ok(Some("a".to_string()));
    let installed_version = SemanticVersion::new(1, 0, 0);
    let status = AutoUpdateStatus::Updated {
        binary_path: String::new(),
        version: VersionCheckType::Sha(AppCommitSha::new("b".to_string())),
    };
    let fetched_sha = "b".to_string();

    let newer_version = AutoUpdater::check_if_fetched_version_is_newer(
        release_channel,
        app_commit_sha,
        installed_version,
        fetched_sha,
        status,
    );

    assert_eq!(newer_version.unwrap(), None);
}

#[test]
fn test_nightly_does_update_when_fetched_sha_is_not_same_as_cached() {
    let release_channel = ReleaseChannel::Nightly;
    let app_commit_sha: Result<Option<String>, CommitShaLookupError> = Ok(Some("a".to_string()));
    let installed_version = SemanticVersion::new(1, 0, 0);
    let status = AutoUpdateStatus::Updated {
        binary_path: String::new(),
        version: VersionCheckType::Sha(AppCommitSha::new("b".to_string())),
    };
    let fetched_sha = "c".to_string();

    let newer_version = AutoUpdater::check_if_fetched_version_is_newer(
        release_channel,
        app_commit_sha,
        installed_version,
        fetched_sha.clone(),
        status,
    );

    assert_eq!(
        newer_version.unwrap(),
        Some(VersionCheckType::Sha(AppCommitSha::new(fetched_sha)))
    );
}

#[test]
fn test_nightly_does_update_when_installed_versions_sha_cannot_be_retrieved() {
    let release_channel = ReleaseChannel::Nightly;
    let app_commit_sha: Result<Option<String>, CommitShaLookupError> = Ok(None);
    let installed_version = SemanticVersion::new(1, 0, 0);
    let status = AutoUpdateStatus::Idle;
    let fetched_sha = "a".to_string();

    let newer_version = AutoUpdater::check_if_fetched_version_is_newer(
        release_channel,
        app_commit_sha,
        installed_version,
        fetched_sha.clone(),
        status,
    );

    assert_eq!(
        newer_version.unwrap(),
        Some(VersionCheckType::Sha(AppCommitSha::new(fetched_sha)))
    );
}

#[test]
fn test_nightly_does_not_update_when_cached_update_is_same_as_fetched_and_installed_versions_sha_cannot_be_retrieved()
 {
    let release_channel = ReleaseChannel::Nightly;
    let app_commit_sha: Result<Option<String>, CommitShaLookupError> = Ok(None);
    let installed_version = SemanticVersion::new(1, 0, 0);
    let status = AutoUpdateStatus::Updated {
        binary_path: String::new(),
        version: VersionCheckType::Sha(AppCommitSha::new("b".to_string())),
    };
    let fetched_sha = "b".to_string();

    let newer_version = AutoUpdater::check_if_fetched_version_is_newer(
        release_channel,
        app_commit_sha,
        installed_version,
        fetched_sha,
        status,
    );

    assert_eq!(newer_version.unwrap(), None);
}

#[test]
fn test_nightly_does_update_when_cached_update_is_not_same_as_fetched_and_installed_versions_sha_cannot_be_retrieved()
 {
    let release_channel = ReleaseChannel::Nightly;
    let app_commit_sha: Result<Option<String>, CommitShaLookupError> = Ok(None);
    let installed_version = SemanticVersion::new(1, 0, 0);
    let status = AutoUpdateStatus::Updated {
        binary_path: String::new(),
        version: VersionCheckType::Sha(AppCommitSha::new("b".to_string())),
    };
    let fetched_sha = "c".to_string();

    let newer_version = AutoUpdater::check_if_fetched_version_is_newer(
        release_channel,
        app_commit_sha,
        installed_version,
        fetched_sha.clone(),
        status,
    );

    assert_eq!(
        newer_version.unwrap(),
        Some(VersionCheckType::Sha(AppCommitSha::new(fetched_sha)))
    );
}
