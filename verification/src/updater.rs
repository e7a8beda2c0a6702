//! The self-update state machine: the decision whether a fetched release is
//! newer than what is installed, the status it drives, and the persisted
//! notification flag.  Fetching metadata, downloading archives and mounting
//! images are the embedding application's work; it reports each outcome here
//! as an event.

use vstd::prelude::*;
use crate::version::{
    AppCommitSha, IdentityView, InvalidVersionString, ReleaseChannel, SemanticVersion,
    VersionCheckType, parse_semantic_version, spec_parse_semantic_version,
};

verus! {

/// The installed-sha probe failed, so the running build's sha is unknown.
#[derive(Clone, Copy, Debug, PartialEq, Eq, Structural)]
pub struct CommitShaLookupError;

/// Current state of the updater.  Exactly one status is current at any time
/// and transitions are strictly sequential.
#[derive(Debug, PartialEq, Eq)]
pub enum AutoUpdateStatus {
    Idle,
    Checking,
    Downloading { version: VersionCheckType },
    Installing { version: VersionCheckType },
    Updated { binary_path: String, version: VersionCheckType },
    Errored { message: String },
}

impl Clone for AutoUpdateStatus {
    fn clone(&self) -> (r: Self)
        ensures
            r == *self,
    {
        match self {
            AutoUpdateStatus::Idle => AutoUpdateStatus::Idle,
            AutoUpdateStatus::Checking => AutoUpdateStatus::Checking,
            AutoUpdateStatus::Downloading { version } => AutoUpdateStatus::Downloading {
                version: version.clone(),
            },
            AutoUpdateStatus::Installing { version } => AutoUpdateStatus::Installing {
                version: version.clone(),
            },
            AutoUpdateStatus::Updated { binary_path, version } => AutoUpdateStatus::Updated {
                binary_path: binary_path.clone(),
                version: version.clone(),
            },
            AutoUpdateStatus::Errored { message } => AutoUpdateStatus::Errored {
                message: message.clone(),
            },
        }
    }
}

impl AutoUpdateStatus {
    pub fn is_updated(&self) -> (r: bool)
        ensures
            r == (self matches AutoUpdateStatus::Updated { .. }),
    {
        matches!(self, AutoUpdateStatus::Updated { .. })
    }
}

/// The identity carried by an `Updated` status, if any.
pub open spec fn spec_cached_identity(status: AutoUpdateStatus) -> Option<IdentityView> {
    match status {
        AutoUpdateStatus::Updated { version, .. } => Some(version@),
        _ => None,
    }
}

/// The installed sha the probe reported, when it reported one: a lookup
/// error and an empty sha both mean the installed sha is unknown.
pub open spec fn known_installed_sha(
    probe: Result<Option<String>, CommitShaLookupError>,
) -> Option<Seq<char>> {
    match probe {
        Ok(Some(sha)) => if sha@.len() > 0 {
            Some(sha@)
        } else {
            None
        },
        _ => None,
    }
}

/// What `check_if_fetched_version_is_newer` decides, as a value.
///
/// On semantic channels the fetched string must parse; the fetched version is
/// announced exactly when it is strictly newer than the cached `Updated`
/// version when one is present, else the installed version.  On sha channels
/// the fetched sha is announced unless it equals the cached sha or the known
/// installed sha; an unknown installed sha never blocks an update.
pub open spec fn spec_decide(
    channel: ReleaseChannel,
    probe: Result<Option<String>, CommitShaLookupError>,
    installed: SemanticVersion,
    fetched: Seq<char>,
    status: AutoUpdateStatus,
) -> Result<Option<IdentityView>, InvalidVersionString> {
    if channel.uses_semantic_versions() {
        match spec_parse_semantic_version(fetched) {
            Option::None => Err(InvalidVersionString),
            Option::Some(f) => {
                let baseline = match spec_cached_identity(status) {
                    Option::Some(IdentityView::Semantic(cached)) => cached,
                    _ => installed,
                };
                if baseline.spec_lt(f) {
                    Ok(Some(IdentityView::Semantic(f)))
                } else {
                    Ok(None)
                }
            },
        }
    } else {
        let cached_blocks = match spec_cached_identity(status) {
            Option::Some(IdentityView::Sha(cached)) => cached == fetched,
            _ => false,
        };
        let known_blocks = match known_installed_sha(probe) {
            Option::Some(sha) => sha == fetched,
            Option::None => false,
        };
        if cached_blocks || known_blocks {
            Ok(None)
        } else {
            Ok(Some(IdentityView::Sha(fetched)))
        }
    }
}

/// The value of an oracle result.
pub open spec fn decision_view(
    r: Result<Option<VersionCheckType>, InvalidVersionString>,
) -> Result<Option<IdentityView>, InvalidVersionString> {
    match r {
        Ok(Option::Some(v)) => Ok(Some(v@)),
        Ok(Option::None) => Ok(None),
        Err(e) => Err(e),
    }
}

impl AutoUpdater {
    /// The version oracle: decides whether the fetched release is an update
    /// worth announcing, and which identity it carries.  Pure: the caller
    /// fetches the metadata and probes the installed sha.
    pub fn check_if_fetched_version_is_newer(
        release_channel: ReleaseChannel,
        app_commit_sha: Result<Option<String>, CommitShaLookupError>,
        installed_version: SemanticVersion,
        fetched_version: String,
        status: AutoUpdateStatus,
    ) -> (r: Result<Option<VersionCheckType>, InvalidVersionString>)
        ensures
            decision_view(r) == spec_decide(
                release_channel,
                app_commit_sha,
                installed_version,
                fetched_version@,
                status,
            ),
    {
        match release_channel {
            ReleaseChannel::Stable | ReleaseChannel::Preview => {
                let fetched = match parse_semantic_version(fetched_version.as_str()) {
                    Ok(v) => v,
                    Err(e) => {
                        return Err(e);
                    },
                };
                let baseline = match &status {
                    AutoUpdateStatus::Updated {
                        version: VersionCheckType::Semantic(cached),
                        ..
                    } => *cached,
                    _ => installed_version,
                };
                if fetched.newer_than(&baseline) {
                    Ok(Some(VersionCheckType::Semantic(fetched)))
                } else {
                    Ok(None)
                }
            },
            ReleaseChannel::Nightly | ReleaseChannel::Dev => {
                let cached_blocks = match &status {
                    AutoUpdateStatus::Updated { version: VersionCheckType::Sha(cached), .. } => {
                        cached.full == fetched_version
                    },
                    _ => false,
                };
                let known_blocks = match &app_commit_sha {
                    Ok(Some(sha)) => !sha.as_str().is_empty() && *sha == fetched_version,
                    _ => false,
                };
                if cached_blocks || known_blocks {
                    Ok(None)
                } else {
                    Ok(Some(VersionCheckType::Sha(AppCommitSha::new(fetched_version))))
                }
            },
        }
    }
}

/// On a semantic channel with no cached update, the oracle announces the
/// fetched version exactly when it is strictly newer than the installed one.
pub proof fn lemma_decide_semantic_against_installed(
    channel: ReleaseChannel,
    probe: Result<Option<String>, CommitShaLookupError>,
    installed: SemanticVersion,
    fetched: Seq<char>,
    f: SemanticVersion,
)
    requires
        channel.uses_semantic_versions(),
        spec_parse_semantic_version(fetched) == Some(f),
    ensures
        installed.spec_lt(f) ==> spec_decide(channel, probe, installed, fetched, AutoUpdateStatus::Idle)
            == Result::<Option<IdentityView>, InvalidVersionString>::Ok(Some(IdentityView::Semantic(f))),
        !installed.spec_lt(f) ==> spec_decide(channel, probe, installed, fetched, AutoUpdateStatus::Idle)
            == Result::<Option<IdentityView>, InvalidVersionString>::Ok(None),
{
}

/// Once an `Updated` status caches a semantic version, the oracle compares
/// against the cache alone: the fetched version is announced exactly when it
/// is strictly newer than the cached one, whatever version is installed.
pub proof fn lemma_decide_semantic_against_cached(
    channel: ReleaseChannel,
    probe: Result<Option<String>, CommitShaLookupError>,
    installed: SemanticVersion,
    fetched: Seq<char>,
    f: SemanticVersion,
    status: AutoUpdateStatus,
    cached: SemanticVersion,
)
    requires
        channel.uses_semantic_versions(),
        spec_parse_semantic_version(fetched) == Some(f),
        spec_cached_identity(status) == Some(IdentityView::Semantic(cached)),
    ensures
        cached.spec_lt(f) ==> spec_decide(channel, probe, installed, fetched, status)
            == Result::<Option<IdentityView>, InvalidVersionString>::Ok(Some(IdentityView::Semantic(f))),
        !cached.spec_lt(f) ==> spec_decide(channel, probe, installed, fetched, status)
            == Result::<Option<IdentityView>, InvalidVersionString>::Ok(None),
{
}

/// `lemma_decide_semantic_against_installed`, stated over the versions
/// alone: for any installed and fetched versions on a semantic channel with
/// no cached update, handing the oracle the rendered fetched version
/// announces it exactly when it is strictly newer than the installed one.
pub proof fn lemma_decide_semantic_rendered(
    channel: ReleaseChannel,
    probe: Result<Option<String>, CommitShaLookupError>,
    installed: SemanticVersion,
    fetched: SemanticVersion,
)
    requires
        channel.uses_semantic_versions(),
    ensures
        installed.spec_lt(fetched) ==> spec_decide(
            channel,
            probe,
            installed,
            fetched.spec_version_string(),
            AutoUpdateStatus::Idle,
        ) == Result::<Option<IdentityView>, InvalidVersionString>::Ok(
            Some(IdentityView::Semantic(fetched)),
        ),
        !installed.spec_lt(fetched) ==> spec_decide(
            channel,
            probe,
            installed,
            fetched.spec_version_string(),
            AutoUpdateStatus::Idle,
        ) == Result::<Option<IdentityView>, InvalidVersionString>::Ok(None),
{
    crate::version::lemma_parse_of_version_string(fetched);
}

/// `lemma_decide_semantic_against_cached`, stated over the versions alone:
/// once an `Updated` status caches a semantic version, the rendered fetched
/// version is announced exactly when it is strictly newer than the cache,
/// whatever version is installed.
pub proof fn lemma_decide_semantic_cached_rendered(
    channel: ReleaseChannel,
    probe: Result<Option<String>, CommitShaLookupError>,
    installed: SemanticVersion,
    fetched: SemanticVersion,
    status: AutoUpdateStatus,
    cached: SemanticVersion,
)
    requires
        channel.uses_semantic_versions(),
        spec_cached_identity(status) == Some(IdentityView::Semantic(cached)),
    ensures
        cached.spec_lt(fetched) ==> spec_decide(
            channel,
            probe,
            installed,
            fetched.spec_version_string(),
            status,
        ) == Result::<Option<IdentityView>, InvalidVersionString>::Ok(
            Some(IdentityView::Semantic(fetched)),
        ),
        !cached.spec_lt(fetched) ==> spec_decide(
            channel,
            probe,
            installed,
            fetched.spec_version_string(),
            status,
        ) == Result::<Option<IdentityView>, InvalidVersionString>::Ok(None),
{
    crate::version::lemma_parse_of_version_string(fetched);
}

/// On a sha channel with a known installed sha and no cached update, the
/// oracle announces the fetched sha exactly when it differs from the
/// installed one.
pub proof fn lemma_decide_sha_known(
    channel: ReleaseChannel,
    probe: Result<Option<String>, CommitShaLookupError>,
    installed: SemanticVersion,
    fetched: Seq<char>,
    sha: Seq<char>,
)
    requires
        !channel.uses_semantic_versions(),
        known_installed_sha(probe) == Some(sha),
    ensures
        fetched != sha ==> spec_decide(channel, probe, installed, fetched, AutoUpdateStatus::Idle)
            == Result::<Option<IdentityView>, InvalidVersionString>::Ok(Some(IdentityView::Sha(fetched))),
        fetched == sha ==> spec_decide(channel, probe, installed, fetched, AutoUpdateStatus::Idle)
            == Result::<Option<IdentityView>, InvalidVersionString>::Ok(None),
{
}

/// On a sha channel with an unknown installed sha, the oracle always
/// announces the fetched sha, unless an `Updated` status already caches that
/// very sha.
pub proof fn lemma_decide_sha_unknown(
    channel: ReleaseChannel,
    probe: Result<Option<String>, CommitShaLookupError>,
    installed: SemanticVersion,
    fetched: Seq<char>,
    status: AutoUpdateStatus,
)
    requires
        !channel.uses_semantic_versions(),
        known_installed_sha(probe) is None,
    ensures
        spec_cached_identity(status) == Some(IdentityView::Sha(fetched)) ==> spec_decide(
            channel,
            probe,
            installed,
            fetched,
            status,
        ) == Result::<Option<IdentityView>, InvalidVersionString>::Ok(None),
        (match spec_cached_identity(status) {
            Option::Some(IdentityView::Sha(cached)) => cached != fetched,
            _ => true,
        }) ==> spec_decide(channel, probe, installed, fetched, status)
            == Result::<Option<IdentityView>, InvalidVersionString>::Ok(Some(IdentityView::Sha(fetched))),
{
}

/// One release record from the fetched metadata: the version (or sha)
/// label and the archive's download URL.
#[derive(Debug, PartialEq, Eq)]
pub struct JsonRelease {
    pub version: String,
    pub url: String,
}

impl Clone for JsonRelease {
    fn clone(&self) -> (r: Self)
        ensures
            r == *self,
    {
        JsonRelease { version: self.version.clone(), url: self.url.clone() }
    }
}

/// The key under which the "show update notification" flag is persisted in
/// the external key-value store.  Presence means the notification is
/// pending; there is no value payload.
pub open spec fn spec_notification_key() -> Seq<char> {
    "auto-updater-should-show-updated-notification"@
}

pub fn should_show_update_notification_key() -> (r: &'static str)
    ensures
        r@ == spec_notification_key(),
{
    "auto-updater-should-show-updated-notification"
}

/// An operation on the external key-value store.
#[derive(Debug, PartialEq, Eq)]
pub enum KeyValueOp {
    Write { key: String, value: String },
    Delete { key: String },
}

/// The store operation that records or clears the "show update
/// notification" flag: write an empty value to set it, delete the key to
/// clear it.  Either operation is idempotent, so replaying it is harmless.
pub fn should_show_update_notification_op(should_show: bool) -> (r: KeyValueOp)
    ensures
        should_show ==> (r matches KeyValueOp::Write { key, value } && key@
            == spec_notification_key() && value@ == Seq::<char>::empty()),
        !should_show ==> (r matches KeyValueOp::Delete { key } && key@
            == spec_notification_key()),
{
    let key = should_show_update_notification_key().to_owned();
    if should_show {
        KeyValueOp::Write { key, value: String::new() }
    } else {
        KeyValueOp::Delete { key }
    }
}

/// Reads the persisted flag: the notification is pending exactly when the
/// key is present, whatever was stored under it.
pub fn should_show_update_notification_from(stored: Option<String>) -> (r: bool)
    ensures
        r == (stored matches Option::Some(_)),
{
    stored.is_some()
}

/// Where release notes for the current version live: a path under the api
/// base for semantic channels, a fixed source-history page for the others.
pub open spec fn spec_release_notes_location(
    channel: ReleaseChannel,
    version: SemanticVersion,
) -> Seq<char> {
    match channel {
        ReleaseChannel::Stable | ReleaseChannel::Preview => "/releases/"@
            + channel.spec_dev_name() + "/"@ + version.spec_version_string(),
        ReleaseChannel::Nightly => "https://github.com/zed-industries/zed/commits/nightly/"@,
        ReleaseChannel::Dev => "https://github.com/zed-industries/zed/commits/main/"@,
    }
}

pub fn release_notes_location(channel: ReleaseChannel, version: SemanticVersion) -> (r: String)
    ensures
        r@ == spec_release_notes_location(channel, version),
{
    match channel {
        ReleaseChannel::Stable | ReleaseChannel::Preview => {
            let mut r = String::new();
            r.append("/releases/");
            r.append(channel.dev_name());
            r.append("/");
            let rendered = version.version_string();
            r.append(rendered.as_str());
            proof {
                assert(r@ == Seq::<char>::empty() + "/releases/"@ + channel.spec_dev_name()
                    + "/"@ + version.spec_version_string());
                assert(r@ =~= "/releases/"@ + channel.spec_dev_name() + "/"@
                    + version.spec_version_string());
            }
            r
        },
        ReleaseChannel::Nightly => "https://github.com/zed-industries/zed/commits/nightly/"
            .to_owned(),
        ReleaseChannel::Dev => "https://github.com/zed-industries/zed/commits/main/".to_owned(),
    }
}

/// An outcome the driving task reports back to the state machine.  The
/// strings of failed outcomes are the human-readable causes to retain.
#[derive(Debug, PartialEq, Eq)]
pub enum UpdateEvent {
    /// A poll began and the latest release metadata is being fetched.
    CheckRequested,
    /// The oracle ran on the fetched metadata; `Err` carries the parse
    /// error's description.
    DecisionReady(Result<Option<VersionCheckType>, String>),
    /// The binary for the decided version was downloaded, or failed to be.
    DownloadFinished(Result<(), String>),
    /// The downloaded binary was installed at the carried path, or failed.
    InstallFinished(Result<String, String>),
    /// The user dismissed the current status.
    Dismissed,
}

/// The transition relation of the updater: a total function over
/// (current status, event) pairs.
///
/// Download and install outcomes matter only in the state that awaits them;
/// reported in any other state they leave the status unchanged, so a stale
/// task cannot corrupt a dismissed or restarted cycle.
pub open spec fn spec_step(status: AutoUpdateStatus, event: UpdateEvent) -> AutoUpdateStatus {
    match event {
        UpdateEvent::CheckRequested => AutoUpdateStatus::Checking,
        UpdateEvent::DecisionReady(Ok(Option::Some(version))) => AutoUpdateStatus::Downloading {
            version,
        },
        UpdateEvent::DecisionReady(Ok(Option::None)) => AutoUpdateStatus::Idle,
        UpdateEvent::DecisionReady(Err(message)) => AutoUpdateStatus::Errored { message },
        UpdateEvent::DownloadFinished(outcome) => match status {
            AutoUpdateStatus::Downloading { version } => match outcome {
                Ok(_) => AutoUpdateStatus::Installing { version },
                Err(message) => AutoUpdateStatus::Errored { message },
            },
            _ => status,
        },
        UpdateEvent::InstallFinished(outcome) => match status {
            AutoUpdateStatus::Installing { version } => match outcome {
                Ok(binary_path) => AutoUpdateStatus::Updated { binary_path, version },
                Err(message) => AutoUpdateStatus::Errored { message },
            },
            _ => status,
        },
        UpdateEvent::Dismissed => AutoUpdateStatus::Idle,
    }
}

/// Applies one event to a status.
pub fn step_status(status: AutoUpdateStatus, event: UpdateEvent) -> (r: AutoUpdateStatus)
    ensures
        r == spec_step(status, event),
{
    match event {
        UpdateEvent::CheckRequested => AutoUpdateStatus::Checking,
        UpdateEvent::DecisionReady(Ok(Some(version))) => AutoUpdateStatus::Downloading { version },
        UpdateEvent::DecisionReady(Ok(None)) => AutoUpdateStatus::Idle,
        UpdateEvent::DecisionReady(Err(message)) => AutoUpdateStatus::Errored { message },
        UpdateEvent::DownloadFinished(outcome) => match status {
            AutoUpdateStatus::Downloading { version } => match outcome {
                Ok(_) => AutoUpdateStatus::Installing { version },
                Err(message) => AutoUpdateStatus::Errored { message },
            },
            other => other,
        },
        UpdateEvent::InstallFinished(outcome) => match status {
            AutoUpdateStatus::Installing { version } => match outcome {
                Ok(binary_path) => AutoUpdateStatus::Updated { binary_path, version },
                Err(message) => AutoUpdateStatus::Errored { message },
            },
            other => other,
        },
        UpdateEvent::Dismissed => AutoUpdateStatus::Idle,
    }
}

/// `Updated` is entered only from `Installing`: a status that is neither
/// already `Updated` nor `Installing` never becomes `Updated` in one step,
/// so the machine cannot skip from `Idle` straight to `Updated`.
pub proof fn lemma_updated_only_from_installing(status: AutoUpdateStatus, event: UpdateEvent)
    requires
        !(status matches AutoUpdateStatus::Installing { .. }),
        !(status matches AutoUpdateStatus::Updated { .. }),
    ensures
        !(spec_step(status, event) matches AutoUpdateStatus::Updated { .. }),
{
}

/// `Installing` is entered only from `Downloading`.
pub proof fn lemma_installing_only_from_downloading(status: AutoUpdateStatus, event: UpdateEvent)
    requires
        !(status matches AutoUpdateStatus::Downloading { .. }),
        !(status matches AutoUpdateStatus::Installing { .. }),
    ensures
        !(spec_step(status, event) matches AutoUpdateStatus::Installing { .. }),
{
}

/// The update-check and self-update state machine.  It owns the current
/// status and the at-most-one-in-flight poll guard; all I/O outcomes reach
/// it as `UpdateEvent`s.
pub struct AutoUpdater {
    status: AutoUpdateStatus,
    current_version: SemanticVersion,
    poll_in_flight: bool,
}

impl AutoUpdater {
    pub closed spec fn spec_status(self) -> AutoUpdateStatus {
        self.status
    }

    pub closed spec fn spec_current_version(self) -> SemanticVersion {
        self.current_version
    }

    pub closed spec fn spec_poll_in_flight(self) -> bool {
        self.poll_in_flight
    }

    pub fn new(current_version: SemanticVersion) -> (r: Self)
        ensures
            r.spec_status() matches AutoUpdateStatus::Idle,
            r.spec_current_version() == current_version,
            !r.spec_poll_in_flight(),
    {
        AutoUpdater { status: AutoUpdateStatus::Idle, current_version, poll_in_flight: false }
    }

    pub fn current_version(&self) -> (r: SemanticVersion)
        ensures
            r == self.spec_current_version(),
    {
        self.current_version
    }

    pub fn status(&self) -> (r: AutoUpdateStatus)
        ensures
            r == self.spec_status(),
    {
        self.status.clone()
    }

    /// Starts a poll unless one is already in flight; a second request while
    /// one is pending is a no-op and reports `false`.
    pub fn begin_check(&mut self) -> (started: bool)
        ensures
            started == !old(self).spec_poll_in_flight(),
            final(self).spec_current_version() == old(self).spec_current_version(),
            started ==> final(self).spec_poll_in_flight() && final(self).spec_status()
                matches AutoUpdateStatus::Checking,
            !started ==> *final(self) == *old(self),
    {
        if self.poll_in_flight {
            false
        } else {
            self.poll_in_flight = true;
            self.apply_event(UpdateEvent::CheckRequested);
            true
        }
    }

    /// The driving task finished (successfully or not); a new poll may start.
    pub fn end_poll(&mut self)
        ensures
            final(self).spec_status() == old(self).spec_status(),
            final(self).spec_current_version() == old(self).spec_current_version(),
            !final(self).spec_poll_in_flight(),
    {
        self.poll_in_flight = false;
    }

    /// Applies one reported outcome to the status.
    pub fn apply_event(&mut self, event: UpdateEvent)
        ensures
            final(self).spec_status() == spec_step(old(self).spec_status(), event),
            final(self).spec_current_version() == old(self).spec_current_version(),
            final(self).spec_poll_in_flight() == old(self).spec_poll_in_flight(),
    {
        let mut status = AutoUpdateStatus::Idle;
        core::mem::swap(&mut status, &mut self.status);
        self.status = step_status(status, event);
    }

    /// Resets a non-`Idle` status to `Idle` and reports whether anything
    /// changed: `false` exactly when the status was already `Idle`.
    pub fn dismiss_error(&mut self) -> (changed: bool)
        ensures
            changed == !(old(self).spec_status() matches AutoUpdateStatus::Idle),
            final(self).spec_status() matches AutoUpdateStatus::Idle,
            final(self).spec_current_version() == old(self).spec_current_version(),
            final(self).spec_poll_in_flight() == old(self).spec_poll_in_flight(),
            !changed ==> *final(self) == *old(self),
    {
        if matches!(self.status, AutoUpdateStatus::Idle) {
            false
        } else {
            self.apply_event(UpdateEvent::Dismissed);
            true
        }
    }
}

} // verus!
