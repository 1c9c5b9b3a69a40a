use std::path::PathBuf;
use std::str::FromStr;

use josephine_core::check::{CheckResult, Metric, Severity};
use josephine_core::config::{CheckThresholds, Config};
use josephine_core::export::PrometheusExport;
use josephine_core::lang::{t, Lang};
use josephine_core::messages::{
    alert_message, recovery_message, update_ahead, update_available, update_done,
    update_up_to_date,
};
use josephine_core::profile::Profile;
use josephine_core::rules::{AlertState, RulesEngine};
use josephine_core::source::{Commands, StubCommands, Sysfs};
use josephine_core::update::{
    channel_from_path, compare, install_plan, parse_sha256_line, release_from, Asset,
    InstallChannel, InstallPlan, UpdateStatus,
};
use josephine_core::voice;

const FORBIDDEN: [&str; 5] = ["ERROR", "FATAL", "PANIC", "CRASH", "ÉCHEC"];

// --- config ---

#[test]
fn default_config_is_valid() {
    assert!(Config::default().validate().is_ok());
}

#[test]
fn invalid_warning_critical_rejected() {
    let mut config = Config::default();
    config.checks.cpu.warning = 96_000;
    assert!(config.validate().is_err());
}

// --- i18n ---

#[test]
fn defaults_to_english() {
    assert_eq!(Lang::default(), Lang::En);
    assert_eq!(t(Lang::default(), "hello", "bonjour"), "hello");
}

// --- messages ---

fn sample_metric(value: i64) -> Metric {
    Metric {
        name: "usage_percent".into(),
        value,
        unit: "%".into(),
        threshold_warning: Some(85_000),
        threshold_critical: Some(95_000),
    }
}

fn thresholds() -> CheckThresholds {
    CheckThresholds {
        enabled: true,
        interval_secs: 30,
        warning: 85_000,
        critical: 95_000,
    }
}

#[test]
fn messages_never_use_alarmist_vocabulary() {
    for lang in [Lang::En, Lang::Fr] {
        let msg = alert_message("cpu", &sample_metric(96_000), &thresholds(), AlertState::Critical, lang);
        for word in FORBIDDEN {
            assert!(
                !msg.to_uppercase().contains(word),
                "{lang:?} message contains {word}: {msg}"
            );
        }
    }
}

#[test]
fn recovery_messages_are_warm() {
    assert!(recovery_message("cpu", &sample_metric(40_000), Lang::En).contains("breathing"));
    assert!(recovery_message("cpu", &sample_metric(40_000), Lang::Fr).contains("respire"));
}

#[test]
fn alerts_mention_doctor_in_both_languages() {
    for lang in [Lang::En, Lang::Fr] {
        let msg = alert_message("disk", &sample_metric(92_000), &thresholds(), AlertState::Warning, lang);
        assert!(msg.contains("josephine doctor"));
    }
}

#[test]
fn update_messages_stay_warm() {
    for lang in [Lang::En, Lang::Fr] {
        let messages = [
            update_up_to_date("0.5.0", lang),
            update_ahead("0.6.0", "0.5.0", lang),
            update_available("0.6.0", lang),
            update_done("0.6.0", lang),
        ];
        for msg in messages {
            for word in FORBIDDEN {
                assert!(!msg.to_uppercase().contains(word), "alarmist: {msg}");
            }
        }
    }
}

// --- profiles ---

#[test]
fn every_preset_is_valid() {
    for profile in Profile::all() {
        assert!(profile.config().validate().is_ok(), "preset `{}` is invalid", profile.name());
    }
}

#[test]
fn laptop_is_the_defaults() {
    assert_eq!(Profile::Laptop.config(), Config::default());
}

#[test]
fn machines_on_mains_power_do_not_watch_a_battery() {
    assert!(!Profile::Desktop.config().checks.battery.enabled);
    assert!(!Profile::Server.config().checks.battery.enabled);
    assert!(Profile::Laptop.config().checks.battery.enabled);
}

#[test]
fn a_server_watches_services_and_storage_more_closely() {
    let server = Profile::Server.config();
    let default = Config::default();

    assert!(server.checks.disk.warning < default.checks.disk.warning);
    assert!(server.checks.inode.warning < default.checks.inode.warning);
    assert!(server.checks.systemd.failed_critical < default.checks.systemd.failed_critical);
    assert!(server.checks.systemd.interval_secs < default.checks.systemd.interval_secs);
}

#[test]
fn a_server_speaks_to_the_journal_not_a_desktop() {
    let server = Profile::Server.config();
    assert!(!server.notifications.desktop);
    assert!(server.notifications.terminal);
}

#[test]
fn names_round_trip() {
    for profile in Profile::all() {
        assert_eq!(Profile::from_str(profile.name()).unwrap(), profile);
    }
    assert_eq!(Profile::from_str("  SERVER ").unwrap(), Profile::Server);
    assert!(Profile::from_str("toaster").is_err());
}

// --- voice ---

#[test]
fn every_pool_is_bilingual_and_calm() {
    let mut all: Vec<&'static str> = Vec::new();
    for lang in [Lang::En, Lang::Fr] {
        for _ in 0..80 {
            all.push(voice::status_tagline(lang));
            all.push(voice::all_clear(lang));
            all.push(voice::fix_tagline(lang));
            all.push(voice::fix_all_good(lang));
            all.push(voice::fix_hands_off(lang));
            all.push(voice::daemon_started(lang));
            all.push(voice::daemon_stopped(lang));
            all.push(voice::daemon_restarted(lang));
            all.push(voice::daemon_back_on_guard(lang));
            all.push(voice::notify_test_body(lang));
            all.push(voice::error_lead(lang));
            all.push(voice::history_calm(lang));
            all.push(voice::history_closing(lang));
            for sev in [Severity::Info, Severity::Attention, Severity::Critique] {
                all.push(voice::doctor_verdict(sev, lang));
            }
        }
    }
    for s in all {
        assert!(!s.trim().is_empty(), "empty phrasing");
        let upper = s.to_uppercase();
        for word in FORBIDDEN {
            assert!(!upper.contains(word), "alarmist word in: {s}");
        }
    }
}

#[test]
fn index_stays_in_bounds_and_varies() {
    let mut seen = std::collections::HashSet::new();
    for _ in 0..200 {
        let i = voice::index(5);
        assert!(i < 5);
        seen.insert(i);
    }
    assert!(seen.len() >= 2, "index() looks stuck: {seen:?}");
}

#[test]
fn single_element_pool_is_slot_zero() {
    assert_eq!(voice::index(1), 0);
    assert_eq!(voice::index(0), 0);
}

// --- rules ---

fn metric(value: i64, warning: i64, critical: i64) -> Metric {
    Metric {
        name: "usage_percent".into(),
        value,
        unit: "%".into(),
        threshold_warning: Some(warning),
        threshold_critical: Some(critical),
    }
}

#[test]
fn no_notification_when_state_unchanged() {
    let mut engine = RulesEngine::new();
    let t = thresholds();
    let m = metric(90_000, 85_000, 95_000);

    let first = engine.evaluate_check("cpu", std::slice::from_ref(&m), &t, Lang::En);
    assert_eq!(first.len(), 1);

    let second = engine.evaluate_check("cpu", &[m], &t, Lang::En);
    assert!(second.is_empty());
}

#[test]
fn recovery_notifies_once() {
    let mut engine = RulesEngine::new();
    let t = thresholds();

    engine.evaluate_check("cpu", &[metric(90_000, 85_000, 95_000)], &t, Lang::En);
    let recovery = engine.evaluate_check("cpu", &[metric(50_000, 85_000, 95_000)], &t, Lang::En);

    assert_eq!(recovery.len(), 1);
    assert!(recovery[0].recovered);
}

#[test]
fn escalation_warning_to_critical() {
    let mut engine = RulesEngine::new();
    let t = thresholds();

    engine.evaluate_check("cpu", &[metric(86_000, 85_000, 95_000)], &t, Lang::En);
    let critical = engine.evaluate_check("cpu", &[metric(96_000, 85_000, 95_000)], &t, Lang::En);

    assert_eq!(critical.len(), 1);
    assert_eq!(critical[0].to, AlertState::Critical);
}

// --- sources ---

#[test]
fn system_root_leaves_absolute_paths_alone() {
    let sysfs = Sysfs::system();
    assert_eq!(
        PathBuf::from(sysfs.path("/sys/class/thermal")),
        PathBuf::from("/sys/class/thermal")
    );
}

#[test]
fn rooted_paths_land_under_the_fixture() {
    let sysfs = Sysfs::rooted("/tmp/fixture");
    assert_eq!(
        PathBuf::from(sysfs.path("/sys/class/thermal")),
        PathBuf::from("/tmp/fixture/sys/class/thermal")
    );
}

#[test]
fn a_stub_answers_only_the_programs_it_knows() {
    let commands = StubCommands::new().with("df", "canned");
    assert_eq!(commands.output("df", &["-iPT"]), Some("canned".into()));
    assert_eq!(commands.output("journalctl", &["-k"]), None);
}

// --- update ---

fn sample_release() -> josephine_core::update::ReleaseInfo {
    let asset = |name: &str, url: &str, size: u64| Asset {
        name: name.into(),
        download_url: url.into(),
        size,
    };
    release_from(
        "v0.3.0".into(),
        "https://github.com/systm-d/josephine/releases/tag/v0.3.0".into(),
        "Notes".into(),
        vec![
            asset("josephine_0.3.0-1_amd64.deb", "https://example/deb", 10),
            asset("josephine_0.3.0-1_amd64.deb.sha256", "https://example/deb.sha256", 1),
            asset("josephine-0.3.0-1.x86_64.rpm", "https://example/rpm", 20),
            asset(
                "josephine-0.3.0-x86_64-unknown-linux-gnu.tar.gz",
                "https://example/tgz",
                30,
            ),
        ],
    )
}

#[test]
fn parse_release_extracts_version_and_assets() {
    let r = sample_release();
    assert_eq!(r.tag, "v0.3.0");
    assert_eq!(r.version, "0.3.0");
    assert_eq!(r.assets.len(), 4);
}

#[test]
fn compare_detects_all_orderings() {
    assert_eq!(compare("0.2.1", "0.2.1"), UpdateStatus::UpToDate);
    assert_eq!(
        compare("0.2.1", "0.3.0"),
        UpdateStatus::Available("0.3.0".into())
    );
    // Numeric, not lexical: 0.2.10 must beat 0.2.9.
    assert_eq!(
        compare("0.2.9", "0.2.10"),
        UpdateStatus::Available("0.2.10".into())
    );
    assert_eq!(compare("0.3.0", "0.2.1"), UpdateStatus::Ahead);
}

#[test]
fn asset_for_matches_by_suffix() {
    let r = sample_release();
    assert_eq!(
        r.asset_for(InstallChannel::Deb).unwrap().name,
        "josephine_0.3.0-1_amd64.deb"
    );
    assert_eq!(
        r.asset_for(InstallChannel::Rpm).unwrap().name,
        "josephine-0.3.0-1.x86_64.rpm"
    );
    assert_eq!(
        r.asset_for(InstallChannel::Tarball).unwrap().name,
        "josephine-0.3.0-x86_64-unknown-linux-gnu.tar.gz"
    );
    assert!(r.asset_for(InstallChannel::Cargo).is_none());
}

#[test]
fn deb_asset_is_not_the_sha256_sidecar() {
    let r = sample_release();
    let deb = r.asset_for(InstallChannel::Deb).unwrap();
    assert!(!deb.name.ends_with(".sha256"));
    assert_eq!(
        r.checksum_for(deb).unwrap().name,
        "josephine_0.3.0-1_amd64.deb.sha256"
    );
}

#[test]
fn channel_from_path_spots_cargo_and_brew() {
    assert_eq!(
        channel_from_path("/home/x/.cargo/bin/josephine"),
        Some(InstallChannel::Cargo)
    );
    assert_eq!(
        channel_from_path("/home/linuxbrew/.linuxbrew/bin/josephine"),
        Some(InstallChannel::Homebrew)
    );
    assert_eq!(channel_from_path("/usr/bin/josephine"), None);
}

#[test]
fn install_plan_uses_apt_for_deb() {
    let plan = install_plan(InstallChannel::Deb, "/tmp/j.deb");
    assert_eq!(
        plan,
        InstallPlan::Run {
            command: vec!["apt".into(), "install".into(), "/tmp/j.deb".into()],
            sudo: true,
        }
    );
}

#[test]
fn install_plan_defers_to_third_party_managers() {
    assert!(matches!(
        install_plan(InstallChannel::Homebrew, ""),
        InstallPlan::Manual(_)
    ));
    assert!(matches!(
        install_plan(InstallChannel::Pacman, ""),
        InstallPlan::Manual(_)
    ));
}

#[test]
fn sha256_line_takes_first_field() {
    assert_eq!(
        parse_sha256_line("abc123  josephine.deb\n").as_deref(),
        Some("abc123")
    );
}

// --- export ---

fn result(check: &str, metric: &str, value: i64, warning: Option<i64>) -> CheckResult {
    CheckResult {
        check_name: check.into(),
        metrics: vec![Metric {
            name: metric.into(),
            value,
            unit: "%".into(),
            threshold_warning: warning,
            threshold_critical: None,
        }],
        details: vec![],
        top_processes: vec![],
        status_value: None,
    }
}

#[test]
fn renders_values_and_severity() {
    let mut export = PrometheusExport::new();
    export.record(&result("cpu", "usage_percent", 12_500, Some(85_000)));
    export.record(&result("disk", "usage_percent_worst", 91_000, Some(85_000)));

    let text = export.render(1_700_000_000);

    assert!(
        text.contains("josephine_metric{check=\"cpu\",metric=\"usage_percent\",unit=\"%\"} 12.5"),
        "{text}"
    );
    assert!(text.contains("josephine_check_severity{check=\"cpu\"} 0"), "{text}");
    assert!(text.contains("josephine_check_severity{check=\"disk\"} 1"), "{text}");
    assert!(
        text.contains("josephine_last_write_timestamp_seconds 1700000000"),
        "{text}"
    );
}

#[test]
fn every_metric_family_is_declared_once() {
    let mut export = PrometheusExport::new();
    export.record(&result("cpu", "usage_percent", 1_000, None));
    export.record(&result("memory", "usage_percent", 2_000, None));

    let text = export.render(0);

    assert_eq!(text.matches("# TYPE josephine_metric gauge").count(), 1);
    assert_eq!(text.matches("# TYPE josephine_check_severity gauge").count(), 1);
}

#[test]
fn a_later_result_replaces_the_earlier_one() {
    let mut export = PrometheusExport::new();
    export.record(&result("cpu", "usage_percent", 10_000, None));
    export.record(&result("cpu", "usage_percent", 90_000, None));

    let text = export.render(0);
    assert_eq!(text.matches("josephine_metric{check=\"cpu\"").count(), 1);
    assert!(text.contains("} 90"), "{text}");
}

#[test]
fn label_values_are_escaped() {
    let mut export = PrometheusExport::new();
    export.record(&result("od\"d", "back\\slash", 1_000, None));

    let text = export.render(0);
    assert!(text.contains("check=\"od\\\"d\""), "{text}");
    assert!(text.contains("metric=\"back\\\\slash\""), "{text}");
}
