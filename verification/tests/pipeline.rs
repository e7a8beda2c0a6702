use update_telemetry::checksum::calculate_json_checksum;
use update_telemetry::coalescer::{clamped_duration_millis, CoalescedPeriod, EventCoalescer};
use update_telemetry::telemetry::{
    assistant_event_type, project_type_of_file_name, project_types_of_file_names, AssistantPhase,
    EventWrapper, TelemetrySettings, TelemetryState,
};
use update_telemetry::updater::{
    release_notes_location, should_show_update_notification_from,
    should_show_update_notification_op, AutoUpdateStatus, AutoUpdater, KeyValueOp, UpdateEvent,
};
use update_telemetry::version::{
    parse_semantic_version, ReleaseChannel, SemanticVersion, VersionCheckType,
};

fn test_state(max_queue_size: usize, coalesce_gap_millis: u64) -> TelemetryState {
    TelemetryState::new(
        TelemetrySettings { diagnostics: false, metrics: false },
        Some("stable".to_string()),
        "x86_64".to_string(),
        "Linux".to_string(),
        "1.0.0".to_string(),
        max_queue_size,
        coalesce_gap_millis,
    )
}

fn event(payload: &str) -> EventWrapper {
    EventWrapper { milliseconds_since_first_event: 0, payload: payload.to_string() }
}

#[test]
fn parse_accepts_major_minor_patch() {
    assert_eq!(parse_semantic_version("1.2.3"), Ok(SemanticVersion::new(1, 2, 3)));
    assert_eq!(parse_semantic_version("0.0.0"), Ok(SemanticVersion::new(0, 0, 0)));
    assert_eq!(
        parse_semantic_version("10.200.3000"),
        Ok(SemanticVersion::new(10, 200, 3000))
    );
}

#[test]
fn parse_rejects_malformed_strings() {
    assert!(parse_semantic_version("").is_err());
    assert!(parse_semantic_version("abc").is_err());
    assert!(parse_semantic_version("1.2").is_err());
    assert!(parse_semantic_version("1.2.3.4").is_err());
    assert!(parse_semantic_version("1..3").is_err());
    assert!(parse_semantic_version("1.2.x").is_err());
    assert!(parse_semantic_version("1.2.3 ").is_err());
    // One more than u64::MAX in the patch position.
    assert!(parse_semantic_version("1.0.18446744073709551616").is_err());
}

#[test]
fn version_string_renders_components_in_decimal() {
    assert_eq!(SemanticVersion::new(1, 0, 0).version_string(), "1.0.0");
    assert_eq!(SemanticVersion::new(10, 20, 30).version_string(), "10.20.30");
}

#[test]
fn stable_with_malformed_fetched_version_is_a_parse_error() {
    let decision = AutoUpdater::check_if_fetched_version_is_newer(
        ReleaseChannel::Stable,
        Ok(Some("a".to_string())),
        SemanticVersion::new(1, 0, 0),
        "not-a-version".to_string(),
        AutoUpdateStatus::Idle,
    );
    assert!(decision.is_err());
}

#[test]
fn nightly_with_empty_installed_sha_is_treated_as_unknown() {
    let decision = AutoUpdater::check_if_fetched_version_is_newer(
        ReleaseChannel::Nightly,
        Ok(Some(String::new())),
        SemanticVersion::new(1, 0, 0),
        "a".to_string(),
        AutoUpdateStatus::Idle,
    );
    assert_eq!(
        decision.unwrap().map(|v| match v {
            VersionCheckType::Sha(sha) => sha.full,
            VersionCheckType::Semantic(_) => panic!("expected a sha identity"),
        }),
        Some("a".to_string())
    );
}

#[test]
fn nightly_with_failed_sha_lookup_forces_update() {
    let decision = AutoUpdater::check_if_fetched_version_is_newer(
        ReleaseChannel::Nightly,
        Err(update_telemetry::updater::CommitShaLookupError),
        SemanticVersion::new(1, 0, 0),
        "a".to_string(),
        AutoUpdateStatus::Idle,
    );
    assert!(decision.unwrap().is_some());
}

#[test]
fn dismiss_on_idle_returns_false_and_changes_nothing() {
    let mut updater = AutoUpdater::new(SemanticVersion::new(1, 0, 0));
    assert!(!updater.dismiss_error());
    assert_eq!(updater.status(), AutoUpdateStatus::Idle);
}

#[test]
fn dismiss_on_any_other_state_returns_true_and_resets_to_idle() {
    let mut updater = AutoUpdater::new(SemanticVersion::new(1, 0, 0));
    assert!(updater.begin_check());
    assert_eq!(updater.status(), AutoUpdateStatus::Checking);
    assert!(updater.dismiss_error());
    assert_eq!(updater.status(), AutoUpdateStatus::Idle);
}

#[test]
fn second_check_while_one_is_pending_is_a_no_op() {
    let mut updater = AutoUpdater::new(SemanticVersion::new(1, 0, 0));
    assert!(updater.begin_check());
    assert!(!updater.begin_check());
    updater.end_poll();
    assert!(updater.begin_check());
}

#[test]
fn full_update_cycle_reaches_updated_through_every_stage() {
    let mut updater = AutoUpdater::new(SemanticVersion::new(1, 0, 0));
    assert!(updater.begin_check());
    let target = VersionCheckType::Semantic(SemanticVersion::new(1, 0, 1));
    updater.apply_event(UpdateEvent::DecisionReady(Ok(Some(target.clone()))));
    assert_eq!(updater.status(), AutoUpdateStatus::Downloading { version: target.clone() });
    updater.apply_event(UpdateEvent::DownloadFinished(Ok(())));
    assert_eq!(updater.status(), AutoUpdateStatus::Installing { version: target.clone() });
    updater.apply_event(UpdateEvent::InstallFinished(Ok("/tmp/zed-new".to_string())));
    updater.end_poll();
    let status = updater.status();
    assert!(status.is_updated());
    assert_eq!(
        status,
        AutoUpdateStatus::Updated { binary_path: "/tmp/zed-new".to_string(), version: target }
    );
}

#[test]
fn failed_download_errors_with_retained_cause() {
    let mut updater = AutoUpdater::new(SemanticVersion::new(1, 0, 0));
    updater.begin_check();
    let target = VersionCheckType::Semantic(SemanticVersion::new(1, 0, 1));
    updater.apply_event(UpdateEvent::DecisionReady(Ok(Some(target))));
    updater.apply_event(UpdateEvent::DownloadFinished(Err("connection reset".to_string())));
    assert_eq!(
        updater.status(),
        AutoUpdateStatus::Errored { message: "connection reset".to_string() }
    );
    assert!(updater.dismiss_error());
    assert_eq!(updater.status(), AutoUpdateStatus::Idle);
}

#[test]
fn stale_download_outcome_in_idle_changes_nothing() {
    let mut updater = AutoUpdater::new(SemanticVersion::new(1, 0, 0));
    updater.apply_event(UpdateEvent::DownloadFinished(Ok(())));
    assert_eq!(updater.status(), AutoUpdateStatus::Idle);
    updater.apply_event(UpdateEvent::InstallFinished(Ok("p".to_string())));
    assert_eq!(updater.status(), AutoUpdateStatus::Idle);
}

#[test]
fn notification_flag_ops_and_read_back() {
    let op = should_show_update_notification_op(true);
    assert_eq!(
        op,
        KeyValueOp::Write {
            key: "auto-updater-should-show-updated-notification".to_string(),
            value: String::new(),
        }
    );
    let op = should_show_update_notification_op(false);
    assert_eq!(
        op,
        KeyValueOp::Delete { key: "auto-updater-should-show-updated-notification".to_string() }
    );
    assert!(should_show_update_notification_from(Some(String::new())));
    assert!(!should_show_update_notification_from(None));
}

#[test]
fn release_notes_route_by_channel() {
    let v = SemanticVersion::new(1, 2, 3);
    assert_eq!(release_notes_location(ReleaseChannel::Stable, v), "/releases/stable/1.2.3");
    assert_eq!(release_notes_location(ReleaseChannel::Preview, v), "/releases/preview/1.2.3");
    assert_eq!(
        release_notes_location(ReleaseChannel::Nightly, v),
        "https://github.com/zed-industries/zed/commits/nightly/"
    );
    assert_eq!(
        release_notes_location(ReleaseChannel::Dev, v),
        "https://github.com/zed-industries/zed/commits/main/"
    );
}

#[test]
fn coalescer_merges_two_events_within_window() {
    let mut coalescer = EventCoalescer::new(20_000);
    assert_eq!(coalescer.log_event(1_000, "rust"), None);
    assert_eq!(coalescer.log_event(5_000, "rust"), None);
    // The next event lies outside the window and emits the merged period
    // spanning both earlier events.
    let closed = coalescer.log_event(100_000, "rust");
    assert_eq!(
        closed,
        Some(CoalescedPeriod {
            start_millis: 1_000,
            end_millis: 5_000,
            environment: "rust".to_string(),
        })
    );
}

#[test]
fn coalescer_closes_period_on_environment_change() {
    let mut coalescer = EventCoalescer::new(20_000);
    assert_eq!(coalescer.log_event(1_000, "rust"), None);
    let closed = coalescer.log_event(2_000, "toml");
    assert_eq!(
        closed,
        Some(CoalescedPeriod {
            start_millis: 1_000,
            end_millis: 1_000,
            environment: "rust".to_string(),
        })
    );
    // The new period belongs to the new environment.
    let closed = coalescer.log_event(50_000, "rust");
    assert_eq!(
        closed,
        Some(CoalescedPeriod {
            start_millis: 2_000,
            end_millis: 2_000,
            environment: "toml".to_string(),
        })
    );
}

#[test]
fn coalescer_flush_emits_open_period_once() {
    let mut coalescer = EventCoalescer::new(20_000);
    assert_eq!(coalescer.flush(), None);
    coalescer.log_event(1_000, "rust");
    coalescer.log_event(2_000, "rust");
    let closed = coalescer.flush();
    assert_eq!(
        closed,
        Some(CoalescedPeriod {
            start_millis: 1_000,
            end_millis: 2_000,
            environment: "rust".to_string(),
        })
    );
    assert_eq!(coalescer.flush(), None);
}

#[test]
fn clamped_duration_handles_backwards_clock_and_caps_at_a_day() {
    assert_eq!(clamped_duration_millis(100, 50), 0);
    assert_eq!(clamped_duration_millis(0, 5_000), 5_000);
    assert_eq!(clamped_duration_millis(0, 90_000_000), 86_400_000);
}

#[test]
fn queue_flushes_exactly_at_max_size() {
    let mut state = test_state(3, 20_000);
    assert_eq!(state.enqueue_event(event("e1")), None);
    assert_eq!(state.enqueue_event(event("e2")), None);
    let batch = state.enqueue_event(event("e3")).expect("third enqueue must flush");
    assert_eq!(batch.len(), 3);
    assert_eq!(batch[0].payload, "e1");
    assert_eq!(batch[1].payload, "e2");
    assert_eq!(batch[2].payload, "e3");
    // The queue is empty immediately after the flush.
    assert_eq!(state.flush_events(), None);
    // Later events go into the next batch.
    assert_eq!(state.enqueue_event(event("e4")), None);
}

#[test]
fn timer_flush_drains_everything_and_empty_flush_is_a_no_op() {
    let mut state = test_state(50, 20_000);
    assert_eq!(state.flush_events(), None);
    state.enqueue_event(event("a"));
    state.enqueue_event(event("b"));
    let batch = state.flush_events().expect("nonempty queue must drain");
    assert_eq!(batch.len(), 2);
    assert_eq!(batch[0].payload, "a");
    assert_eq!(batch[1].payload, "b");
    assert_eq!(state.flush_events(), None);
}

#[test]
fn relative_event_millis_pins_the_first_event() {
    let mut state = test_state(50, 20_000);
    assert_eq!(state.relative_event_millis(5_000), 0);
    assert_eq!(state.relative_event_millis(7_500), 2_500);
    // A clock that went backwards reports zero rather than underflowing.
    assert_eq!(state.relative_event_millis(4_000), 0);
}

#[test]
fn checksum_requires_a_seed() {
    assert_eq!(calculate_json_checksum(None, &b"payload".to_vec()), None);
}

#[test]
fn checksum_is_deterministic_for_same_seed_and_payload() {
    let seed = b"0123456789abcdef".to_vec();
    let payload = b"{\"events\":[]}".to_vec();
    let first = calculate_json_checksum(Some(&seed), &payload);
    let second = calculate_json_checksum(Some(&seed), &payload);
    assert!(first.is_some());
    assert_eq!(first, second);
    // A different payload must not produce the same digest.
    let other = calculate_json_checksum(Some(&seed), &b"{\"events\":[1]}".to_vec());
    assert_ne!(first, other);
}

#[test]
fn checksum_matches_known_sha256_digest() {
    // With an empty seed the digest is the plain SHA-256 of the payload;
    // for "abc" that digest is a published reference value.
    let checksum = calculate_json_checksum(Some(&Vec::new()), &b"abc".to_vec());
    assert_eq!(
        checksum.as_deref(),
        Some("ba7816bf8f01cfea414140de5dae2223b00361a396177a9cb410ff61f20015ad")
    );
}

#[test]
fn project_type_classification_by_basename() {
    assert_eq!(project_type_of_file_name("pnpm-lock.yaml"), Some("pnpm"));
    assert_eq!(project_type_of_file_name("yarn.lock"), Some("yarn"));
    assert_eq!(project_type_of_file_name("package.json"), Some("node"));
    assert_eq!(project_type_of_file_name("global.json"), Some("dotnet"));
    assert_eq!(project_type_of_file_name("Directory.Build.props"), Some("dotnet"));
    assert_eq!(project_type_of_file_name("app.csproj"), Some("dotnet"));
    assert_eq!(project_type_of_file_name("app.fsproj"), Some("dotnet"));
    assert_eq!(project_type_of_file_name("app.vbproj"), Some("dotnet"));
    assert_eq!(project_type_of_file_name("solution.sln"), Some("dotnet"));
    assert_eq!(project_type_of_file_name("main.rs"), None);
    assert_eq!(project_type_of_file_name("package.json5"), None);
    assert_eq!(project_type_of_file_name("sln"), None);
}

#[test]
fn project_types_are_sorted_and_deduplicated() {
    let names = vec![
        "yarn.lock".to_string(),
        "package.json".to_string(),
        "other.txt".to_string(),
        "package.json".to_string(),
    ];
    let tags = project_types_of_file_names(&names);
    assert_eq!(tags, vec!["node".to_string(), "yarn".to_string()]);
}

#[test]
fn detector_reports_a_workspace_once() {
    let mut state = test_state(50, 20_000);
    let names = vec!["package.json".to_string(), "yarn.lock".to_string()];
    let tags = state.detect_project_types(7, &names);
    assert_eq!(tags, Some(vec!["node".to_string(), "yarn".to_string()]));
    // A second scan of the same workspace reports nothing, whatever changed.
    let names = vec!["pnpm-lock.yaml".to_string()];
    assert_eq!(state.detect_project_types(7, &names), None);
    // Other workspaces are unaffected.
    assert_eq!(state.detect_project_types(8, &names), Some(vec!["pnpm".to_string()]));
}

#[test]
fn detector_keeps_scanning_until_something_matches() {
    let mut state = test_state(50, 20_000);
    let names = vec!["README.md".to_string()];
    assert_eq!(state.detect_project_types(7, &names), Some(Vec::new()));
    // Nothing matched, so the workspace was not retired.
    let names = vec!["solution.sln".to_string()];
    assert_eq!(state.detect_project_types(7, &names), Some(vec!["dotnet".to_string()]));
}

#[test]
fn log_edit_event_reports_closed_period_with_clamped_duration() {
    let mut state = test_state(50, 20_000);
    assert_eq!(state.log_edit_event(1_000, "rust", false), None);
    assert_eq!(state.log_edit_event(5_000, "rust", false), None);
    let report = state.log_edit_event(100_000, "rust", true).expect("period must close");
    assert_eq!(report.duration_millis, 4_000);
    assert_eq!(report.environment, "rust");
    assert!(report.is_via_ssh);
}

#[test]
fn start_and_user_info_respect_metrics_setting() {
    let mut state = test_state(50, 20_000);
    state.start(
        Some("system".to_string()),
        Some("install".to_string()),
        "session".to_string(),
        "1.0.1".to_string(),
        "Linux".to_string(),
    );
    assert_eq!(state.system_id(), Some("system".to_string()));
    assert_eq!(state.installation_id(), Some("install".to_string()));
    // Metrics are disabled, so the logged-in user is not recorded.
    state.set_authenticated_user_info(Some("user".to_string()), true);
    assert_eq!(state.metrics_id(), None);
    assert_eq!(state.is_staff(), None);

    let mut state = TelemetryState::new(
        TelemetrySettings { diagnostics: true, metrics: true },
        None,
        "aarch64".to_string(),
        "macOS".to_string(),
        "1.0.0".to_string(),
        50,
        20_000,
    );
    state.set_authenticated_user_info(Some("user".to_string()), true);
    assert_eq!(state.metrics_id(), Some("user".to_string()));
    assert_eq!(state.is_staff(), Some(true));
}

#[test]
fn metrics_enabled_reflects_settings() {
    let state = test_state(50, 20_000);
    assert!(!state.metrics_enabled());
    let state = TelemetryState::new(
        TelemetrySettings { diagnostics: false, metrics: true },
        None,
        "x86_64".to_string(),
        "Linux".to_string(),
        "1.0.0".to_string(),
        50,
        20_000,
    );
    assert!(state.metrics_enabled());
}

#[test]
fn os_release_lines_yield_name_and_version() {
    let lines = vec![
        "NAME=\"Debian GNU/Linux\"".to_string(),
        "ID=debian".to_string(),
        "VERSION_ID=\"12\"".to_string(),
    ];
    assert_eq!(
        update_telemetry::os_release::os_version_from_release_lines(&lines),
        "debian 12"
    );
}

#[test]
fn os_release_later_entries_override_earlier_ones() {
    let lines = vec![
        "ID=one".to_string(),
        "ID=two".to_string(),
        "comment line without equals".to_string(),
    ];
    assert_eq!(
        update_telemetry::os_release::os_version_from_release_lines(&lines),
        "two unknown"
    );
}

#[test]
fn os_release_defaults_to_unknown() {
    assert_eq!(
        update_telemetry::os_release::os_version_from_release_lines(&Vec::new()),
        "unknown unknown"
    );
}

#[test]
fn assistant_phases_map_to_event_names() {
    assert_eq!(assistant_event_type(AssistantPhase::Response), "Assistant Responded");
    assert_eq!(assistant_event_type(AssistantPhase::Invoked), "Assistant Invoked");
    assert_eq!(assistant_event_type(AssistantPhase::Accepted), "Assistant Response Accepted");
    assert_eq!(assistant_event_type(AssistantPhase::Rejected), "Assistant Response Rejected");
}
