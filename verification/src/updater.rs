//! Release metadata of the in-app updater and the decision whether a published
//! release is newer than the running version.
//!
//! Version numbers are parsed and ordered by the `semver` crate; this module
//! decides, from a release fetched from the hosting service, whether to offer it
//! and with which title and notes.
use vstd::prelude::*;

verus! {

/// A downloadable asset attached to a published release.
#[derive(Debug, Clone)]
pub struct GitHubAsset {
    pub name: String,
    pub browser_download_url: String,
    pub size: u64,
}

/// A published release as the hosting service describes it.
#[derive(Debug, Clone)]
pub struct GitHubRelease {
    pub tag_name: String,
    pub name: Option<String>,
    pub body: Option<String>,
    pub html_url: String,
    pub published_at: Option<String>,
    pub assets: Vec<GitHubAsset>,
}

/// What the update dialog shows about an available release.
#[derive(Debug, Clone, PartialEq)]
pub struct ReleaseInfo {
    pub version: String,
    pub title: String,
    pub changelog: String,
    pub html_url: String,
}

/// Commands sent from the interface to the background updater.
#[derive(Debug, Clone)]
pub enum UpdaterCommand {
    CheckNow,
    ApplyUpdate { target_version: String },
}

/// Why a release could not be compared with the running version.
#[derive(Debug, Clone)]
pub enum VersionCheckError {
    /// The running version is not a semantic version; `reason` is the parser's message.
    InvalidCurrentVersion { version: String, reason: String },
    /// The release's version is not a semantic version; `reason` is the parser's message.
    InvalidReleaseVersion { version: String, reason: String },
}

/// Whether `semver::Version::parse` accepts `text`.
pub uninterp spec fn semver_accepts(text: Seq<char>) -> bool;

/// The message of the error `semver::Version::parse` reports for `text`.
pub uninterp spec fn semver_rejection(text: Seq<char>) -> Seq<char>;

/// Whether the version parsed from `newer` orders strictly after the version
/// parsed from `older` in the `semver` crate's ordering.
pub uninterp spec fn semver_orders_after(newer: Seq<char>, older: Seq<char>) -> bool;

/// Calls `semver::Version::parse(text)`. Trusted: it succeeds exactly when
/// `semver_accepts(text@)`, and its error's message is `semver_rejection(text@)`;
/// both are functions of the text alone, as the parser reads nothing else.
#[verifier::external_body]
fn parse_semver(text: &str) -> (r: Result<(), String>)
    ensures
        r is Ok <==> semver_accepts(text@),
        r matches Err(msg) ==> msg@ == semver_rejection(text@),
{
    match semver::Version::parse(text) {
        Ok(_) => Ok(()),
        Err(e) => Err(e.to_string()),
    }
}

/// Parses both versions with `semver::Version::parse` and compares them with the
/// `>` of `semver::Version` (its derived order). Trusted: the result is
/// `semver_orders_after(newer@, older@)`; a version never orders after itself,
/// and two versions never order after each other, as the order is a total order.
#[verifier::external_body]
fn semver_gt(newer: &str, older: &str) -> (r: bool)
    requires
        semver_accepts(newer@),
        semver_accepts(older@),
    ensures
        r == semver_orders_after(newer@, older@),
        newer@ == older@ ==> !r,
        r ==> !semver_orders_after(older@, newer@),
{
    match (semver::Version::parse(newer), semver::Version::parse(older)) {
        (Ok(n), Ok(o)) => n > o,
        _ => false,
    }
}

/// `s` without its leading `v` characters.
pub open spec fn strip_leading_v(s: Seq<char>) -> Seq<char>
    decreases s.len(),
{
    if s.len() > 0 && s[0] == 'v' {
        strip_leading_v(s.drop_first())
    } else {
        s
    }
}

proof fn lemma_strip_leading_v(s: Seq<char>, k: int)
    requires
        0 <= k <= s.len(),
        forall|i: int| 0 <= i < k ==> s[i] == 'v',
        k == s.len() || s[k] != 'v',
    ensures
        strip_leading_v(s) == s.subrange(k, s.len() as int),
    decreases k,
{
    if k > 0 {
        lemma_strip_leading_v(s.drop_first(), k - 1);
        assert(s.drop_first().subrange(k - 1, s.len() - 1) =~= s.subrange(k, s.len() as int));
    } else {
        assert(s.subrange(0, s.len() as int) =~= s);
    }
}

/// The version number a release tag names: the tag without its leading `v`s
/// (`v0.2.0` names `0.2.0`).
pub fn release_version(tag: &str) -> (version: &str)
    ensures
        version@ == strip_leading_v(tag@),
{
    let len = tag.unicode_len();
    let mut k: usize = 0;
    while k < len && tag.get_char(k) == 'v'
        invariant
            len == tag@.len(),
            k <= len,
            forall|i: int| 0 <= i < k ==> tag@[i] == 'v',
        decreases len - k,
    {
        k = k + 1;
    }
    proof {
        lemma_strip_leading_v(tag@, k as int);
    }
    tag.substring_char(k, len)
}

/// The release details shown for `release`: its tag as the version, its name as
/// the title (the tag when it has none), its notes as the changelog (a fixed
/// sentence when it has none) and its page.
pub open spec fn release_info_of(release: GitHubRelease) -> (Seq<char>, Seq<char>, Seq<char>, Seq<char>) {
    (
        release.tag_name@,
        match release.name {
            Some(n) => n@,
            None => release.tag_name@,
        },
        match release.body {
            Some(b) => b@,
            None => "No changelog notes provided for this release."@,
        },
        release.html_url@,
    )
}

/// Builds the release details shown for `release` (see `release_info_of`).
pub fn release_info(release: &GitHubRelease) -> (info: ReleaseInfo)
    ensures
        (info.version@, info.title@, info.changelog@, info.html_url@) == release_info_of(*release),
{
    let title = match &release.name {
        Some(n) => n.clone(),
        None => release.tag_name.clone(),
    };
    let changelog = match &release.body {
        Some(b) => b.clone(),
        None => "No changelog notes provided for this release.".to_owned(),
    };
    ReleaseInfo {
        version: release.tag_name.clone(),
        title,
        changelog,
        html_url: release.html_url.clone(),
    }
}

/// Both versions parse as semantic versions.
pub open spec fn versions_parse(latest: Seq<char>, current: Seq<char>) -> bool {
    semver_accepts(current) && semver_accepts(latest)
}

/// `e` is the error reported when comparing `latest` with `current` fails: the
/// running version is checked first, and the parser's message is kept.
pub open spec fn reports_version_error(e: VersionCheckError, latest: Seq<char>, current: Seq<char>) -> bool {
    if !semver_accepts(current) {
        e matches VersionCheckError::InvalidCurrentVersion { version, reason } && version@ == current
            && reason@ == semver_rejection(current)
    } else {
        e matches VersionCheckError::InvalidReleaseVersion { version, reason } && version@ == latest
            && reason@ == semver_rejection(latest)
    }
}

/// Whether the release version `latest` is newer than the running version
/// `current`. The running version is checked first; a version that does not
/// parse is reported with the parser's message.
pub fn is_newer_version(latest: &str, current: &str) -> (r: Result<bool, VersionCheckError>)
    ensures
        r is Err <==> !versions_parse(latest@, current@),
        r matches Err(e) ==> reports_version_error(e, latest@, current@),
        r matches Ok(newer) ==> newer == semver_orders_after(latest@, current@),
        latest@ == current@ ==> !(r matches Ok(true)),
        r matches Ok(true) ==> !semver_orders_after(current@, latest@),
{
    match parse_semver(current) {
        Ok(()) => {},
        Err(reason) => {
            return Err(VersionCheckError::InvalidCurrentVersion { version: current.to_owned(), reason });
        },
    }
    match parse_semver(latest) {
        Ok(()) => {},
        Err(reason) => {
            return Err(VersionCheckError::InvalidReleaseVersion { version: latest.to_owned(), reason });
        },
    }
    Ok(semver_gt(latest, current))
}

/// Decides whether `release` is an update for the running version `current`:
/// `Some` with its details when its version (the tag without leading `v`s) is
/// newer, `None` when it is not, an error when either version does not parse.
pub fn check_release(release: &GitHubRelease, current: &str) -> (r: Result<Option<ReleaseInfo>, VersionCheckError>)
    ensures
        r is Err <==> !versions_parse(strip_leading_v(release.tag_name@), current@),
        r matches Err(e) ==> reports_version_error(e, strip_leading_v(release.tag_name@), current@),
        r matches Ok(offer) ==> (offer is Some <==> semver_orders_after(
            strip_leading_v(release.tag_name@),
            current@,
        )),
        r matches Ok(Some(info)) ==> (info.version@, info.title@, info.changelog@, info.html_url@)
            == release_info_of(*release),
        strip_leading_v(release.tag_name@) == current@ ==> !(r matches Ok(Some(_))),
        r matches Ok(Some(_)) ==> !semver_orders_after(current@, strip_leading_v(release.tag_name@)),
{
    let latest = release_version(release.tag_name.as_str());
    match is_newer_version(latest, current) {
        Ok(true) => Ok(Some(release_info(release))),
        Ok(false) => Ok(None),
        Err(e) => Err(e),
    }
}

impl VersionCheckError {
    /// The message shown when a release check fails.
    pub fn message(&self) -> (text: String)
        ensures
            text@ == match self {
                VersionCheckError::InvalidCurrentVersion { version, reason } =>
                    "Failed to parse current version '"@ + version@ + "': "@ + reason@,
                VersionCheckError::InvalidReleaseVersion { version, reason } =>
                    "Failed to parse release version '"@ + version@ + "': "@ + reason@,
            },
    {
        match self {
            VersionCheckError::InvalidCurrentVersion { version, reason } => {
                let mut text = "Failed to parse current version '".to_owned();
                text.append(version.as_str());
                text.append("': ");
                text.append(reason.as_str());
                text
            },
            VersionCheckError::InvalidReleaseVersion { version, reason } => {
                let mut text = "Failed to parse release version '".to_owned();
                text.append(version.as_str());
                text.append("': ");
                text.append(reason.as_str());
                text
            },
        }
    }
}

} // verus!
