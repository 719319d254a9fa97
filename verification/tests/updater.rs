use musializer::updater::{
    check_release, is_newer_version, release_info, release_version, GitHubAsset, GitHubRelease,
    UpdaterCommand, VersionCheckError,
};

fn release(tag: &str, name: Option<&str>, body: Option<&str>) -> GitHubRelease {
    GitHubRelease {
        tag_name: tag.to_string(),
        name: name.map(str::to_string),
        body: body.map(str::to_string),
        html_url: format!("https://example.invalid/releases/{}", tag),
        published_at: None,
        assets: vec![GitHubAsset {
            name: "musializer-rs".to_string(),
            browser_download_url: "https://example.invalid/dl".to_string(),
            size: 1024,
        }],
    }
}

#[test]
fn test_semver_comparison() {
    assert_eq!(is_newer_version("0.2.0", "0.1.0").unwrap(), true);
    assert_eq!(is_newer_version("0.1.1", "0.1.0").unwrap(), true);
    assert_eq!(is_newer_version("0.2.0", "0.1.1").unwrap(), true);
}

#[test]
fn older_or_equal_versions_are_not_newer() {
    assert_eq!(is_newer_version("0.1.0", "0.2.0").unwrap(), false);
    assert_eq!(is_newer_version("1.0.0", "1.0.0").unwrap(), false);
    assert_eq!(is_newer_version("1.0.0-rc.1", "1.0.0").unwrap(), false);
    assert_eq!(is_newer_version("1.0.0", "1.0.0-rc.1").unwrap(), true);
}

#[test]
fn invalid_current_version_is_reported_first() {
    match is_newer_version("garbage", "not-a-version") {
        Err(VersionCheckError::InvalidCurrentVersion { version, reason }) => {
            assert_eq!(version, "not-a-version");
            assert!(!reason.is_empty());
        }
        other => panic!("unexpected {:?}", other),
    }
}

#[test]
fn invalid_release_version_is_reported() {
    let err = is_newer_version("1.x", "0.1.0").unwrap_err();
    match &err {
        VersionCheckError::InvalidReleaseVersion { version, .. } => assert_eq!(version, "1.x"),
        other => panic!("unexpected {:?}", other),
    }
    assert!(err.message().starts_with("Failed to parse release version '1.x': "));
    let err = is_newer_version("1.0.0", "").unwrap_err();
    assert_eq!(
        err.message(),
        "Failed to parse current version '': empty string, expected a semver version"
    );
}

#[test]
fn tag_prefix_is_stripped() {
    assert_eq!(release_version("v0.2.0"), "0.2.0");
    assert_eq!(release_version("vv1.0.0"), "1.0.0");
    assert_eq!(release_version("1.0.0"), "1.0.0");
    assert_eq!(release_version("version"), "ersion");
    assert_eq!(release_version(""), "");
}

#[test]
fn newer_release_is_offered_with_details() {
    let rel = release("v0.2.0", Some("Musializer-RS v0.2.0 Release"), Some("## What Changed"));
    let info = check_release(&rel, "0.1.0").unwrap().expect("update offered");
    assert_eq!(info.version, "v0.2.0");
    assert_eq!(info.title, "Musializer-RS v0.2.0 Release");
    assert_eq!(info.changelog, "## What Changed");
    assert_eq!(info.html_url, "https://example.invalid/releases/v0.2.0");
}

#[test]
fn missing_title_and_notes_get_defaults() {
    let info = release_info(&release("v3.1.4", None, None));
    assert_eq!(info.title, "v3.1.4");
    assert_eq!(info.changelog, "No changelog notes provided for this release.");
}

#[test]
fn same_or_older_release_is_not_offered() {
    assert_eq!(check_release(&release("v0.1.0", None, None), "0.1.0").unwrap(), None);
    assert_eq!(check_release(&release("v0.0.9", None, None), "0.1.0").unwrap(), None);
}

#[test]
fn unparsable_release_tag_is_an_error() {
    match check_release(&release("nightly", None, None), "0.1.0") {
        Err(VersionCheckError::InvalidReleaseVersion { version, .. }) => assert_eq!(version, "nightly"),
        other => panic!("unexpected {:?}", other),
    }
}

#[test]
fn commands_carry_their_target() {
    let cmd = UpdaterCommand::ApplyUpdate { target_version: "v0.2.0".to_string() };
    match cmd.clone() {
        UpdaterCommand::ApplyUpdate { target_version } => assert_eq!(target_version, "v0.2.0"),
        UpdaterCommand::CheckNow => panic!("wrong command"),
    }
}
