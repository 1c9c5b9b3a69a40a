use josephine_core::check::{human_size, metric_samples, CheckResult, Metric, Severity};
use josephine_core::messages::{alert_message, recovery_message};
use josephine_core::rules::{announce_on_desktop, recorded_state, AlertState, RulesEngine};
use josephine_core::checks::cpu::{self, CpuSample};
use josephine_core::checks::disk::{self, DiskSample};
use josephine_core::checks::memory::{self, MemorySample};
use josephine_core::checks::processes::{top_indices, ProcessSample};
use josephine_core::checks::network::up_interfaces;
use josephine_core::checks::smart::block_devices;
use josephine_core::checks::updates::{detect_manager, listing_for, parse_listing, Manager};
use josephine_core::checks::{build_checks, interval_for_check, thresholds_for};
use josephine_core::config::{CheckId, CheckThresholds, Config};
use josephine_core::daemon::{parse_pid, start_refusal, status_from, stop_target, tail_lines, DaemonStatus};
use josephine_core::display::{
    bar_plain, format_event_value, format_max, global_severity, metric_scale, plain_state,
    primary_metric, stub_hint,
    systemd_all_clear, StubCommand,
};
use josephine_core::export::PrometheusExport;
use josephine_core::lang::Lang;
use josephine_core::numfmt::{
    display_milli_exec, fmt_milli_exec, parse_decimal_milli, parse_i64, parse_u64,
};
use josephine_core::paths::{Paths, PathsError};
use josephine_core::source::{Commands, StubCommands, Sysfs};
use josephine_core::update::{
    compare, current_version, detect_channel_for, hex_of, parse_sha256_line, sha256_hex_of,
    status_for, InstallChannel, UpdateStatus,
};
use josephine_core::voice::slot;

fn chars(s: &str) -> Vec<char> {
    s.chars().collect()
}

fn text(v: Vec<char>) -> String {
    v.into_iter().collect()
}

// --- numbers ---

#[test]
fn decimals_read_as_exact_thousandths() {
    assert_eq!(parse_decimal_milli(&chars("3.42")), Some(3_420));
    assert_eq!(parse_decimal_milli(&chars("-2.5")), Some(-2_500));
    assert_eq!(parse_decimal_milli(&chars("+7.")), Some(7_000));
    assert_eq!(parse_decimal_milli(&chars(".5")), Some(500));
    // Beyond thousandths, to the nearest with ties to even.
    assert_eq!(parse_decimal_milli(&chars("1.0005")), Some(1_000));
    assert_eq!(parse_decimal_milli(&chars("1.0015")), Some(1_002));
    assert_eq!(parse_decimal_milli(&chars("")), None);
    assert_eq!(parse_decimal_milli(&chars(".")), None);
    assert_eq!(parse_decimal_milli(&chars("1.2.3")), None);
    assert_eq!(parse_decimal_milli(&chars("-")), None);
    assert_eq!(parse_decimal_milli(&chars("9%")), None);
}

#[test]
fn decimals_take_exponents_and_any_length() {
    assert_eq!(parse_decimal_milli(&chars("1e2")), Some(100_000));
    assert_eq!(parse_decimal_milli(&chars("1.5E1")), Some(15_000));
    assert_eq!(parse_decimal_milli(&chars("1e+5")), Some(100_000_000));
    assert_eq!(parse_decimal_milli(&chars("-1e3")), Some(-1_000_000));
    assert_eq!(parse_decimal_milli(&chars("2.5e-3")), Some(2));
    assert_eq!(parse_decimal_milli(&chars("15E-4")), Some(2));
    assert_eq!(parse_decimal_milli(&chars("5e-4")), Some(0));
    assert_eq!(parse_decimal_milli(&chars("1e-400")), Some(0));
    assert_eq!(parse_decimal_milli(&chars("0e400")), Some(0));
    assert_eq!(parse_decimal_milli(&chars("1e400")), None);
    assert_eq!(parse_decimal_milli(&chars("1e99999999999999999999999999")), None);
    assert_eq!(parse_decimal_milli(&chars("1e-99999999999999999999999999")), Some(0));
    assert_eq!(parse_decimal_milli(&chars("0.0000000000000000000001")), Some(0));
    assert_eq!(
        parse_decimal_milli(&chars("12345678901234567890123e-20")),
        Some(123_457)
    );
    assert_eq!(
        parse_decimal_milli(&chars("000000000000000000000000042")),
        Some(42_000)
    );
    assert_eq!(parse_decimal_milli(&chars("9223372036854775.807")), Some(i64::MAX));
    assert_eq!(parse_decimal_milli(&chars("9223372036854775.808")), None);
    assert_eq!(parse_decimal_milli(&chars("1e")), None);
    assert_eq!(parse_decimal_milli(&chars("e5")), None);
    assert_eq!(parse_decimal_milli(&chars(".e5")), None);
    assert_eq!(parse_decimal_milli(&chars("1e5.0")), None);
    assert_eq!(parse_decimal_milli(&chars("inf")), None);
}

#[test]
fn integers_read_as_rust_reads_them() {
    assert_eq!(parse_i64(&chars("-42")), Some(-42));
    assert_eq!(parse_i64(&chars("+7")), Some(7));
    assert_eq!(parse_i64(&chars("-9223372036854775808")), Some(i64::MIN));
    assert_eq!(parse_i64(&chars("9223372036854775808")), None);
    assert_eq!(parse_i64(&chars("-")), None);
    assert_eq!(parse_u64(&chars("18446744073709551615")), Some(u64::MAX));
    assert_eq!(parse_u64(&chars("18446744073709551616")), None);
}

#[test]
fn fixed_point_renders_like_format() {
    assert_eq!(text(display_milli_exec(12_500)), "12.5");
    assert_eq!(text(display_milli_exec(90_000)), "90");
    assert_eq!(text(display_milli_exec(-3_420)), "-3.42");
    assert_eq!(text(fmt_milli_exec(61_500, 0)), "62");
    assert_eq!(text(fmt_milli_exec(62_500, 0)), "62");
    assert_eq!(text(fmt_milli_exec(12_345, 1)), "12.3");
    assert_eq!(text(fmt_milli_exec(750, 2)), "0.75");
    assert_eq!(human_size(28 * 1_073_741_824), "28G");
    assert_eq!(human_size(5 * 1_073_741_824 + 966_367_641), "5.9G");
    assert_eq!(human_size(512 * 1_048_576), "512M");
}

// --- processes, memory, cpu, disk ---

#[test]
fn top_processes_follow_a_stable_descending_sort() {
    assert_eq!(top_indices(&vec![5, 9, 9, 1], 3), vec![1, 2, 0]);
    assert_eq!(top_indices(&vec![1, 2], 10), vec![1, 0]);
    assert_eq!(top_indices(&vec![], 10), Vec::<usize>::new());
}

fn process(name: &str, pid: u32, memory: u64, cpu: i64) -> ProcessSample {
    ProcessSample { name: name.into(), pid, memory, cpu }
}

fn generic() -> CheckThresholds {
    CheckThresholds { enabled: true, interval_secs: 30, warning: 85_000, critical: 95_000 }
}

#[test]
fn memory_report_reads_exactly() {
    let gib = 1_073_741_824u64;
    let sample = MemorySample { total: 16 * gib, used: 4 * gib, swap_total: 0, swap_used: 0 };
    let processes = vec![
        process("a", 1, 100 * 1_048_576, 0),
        process("b", 2, 300 * 1_048_576, 0),
        process("c", 3, 300 * 1_048_576, 0),
    ];
    let result = memory::build_result(&sample, &processes, &generic());
    assert_eq!(result.metrics[0].value, 25_000);
    assert_eq!(result.metrics[1].value, 0);
    assert_eq!(
        result.details,
        vec!["Mémoire utilisée : 25.0 % (4.0 / 16.0 Go)", "Swap utilisé : 0.0 %"]
    );
    assert_eq!(result.status_value.as_deref(), Some("25% (4.0G / 16G)"));
    assert_eq!(
        result.top_processes,
        vec!["b (PID 2) — 300.0 Mo", "c (PID 3) — 300.0 Mo", "a (PID 1) — 100.0 Mo"]
    );
}

#[test]
fn cpu_report_reads_exactly() {
    let sample = CpuSample { usage: 12_345, load_one: 1_500, load_five: 750, load_fifteen: 250 };
    let processes = vec![process("idle", 7, 0, 0), process("busy", 8, 0, 40_000)];
    let result = cpu::build_result(&sample, &processes, &generic(), Lang::En);
    assert_eq!(
        result.details,
        vec!["CPU usage: 12.3 %", "Load average: 1.50 / 0.75 / 0.25 (1/5/15 min)"]
    );
    assert_eq!(result.status_value.as_deref(), Some("12%"));
    assert_eq!(result.top_processes, vec!["busy (PID 8) — 40.0 %", "idle (PID 7) — 0.0 %"]);
}

fn disk_sample(fs: &str, mount: &str, total: u64, available: u64, ssd: bool) -> DiskSample {
    DiskSample { file_system: fs.into(), mount: mount.into(), total, available, is_ssd: ssd }
}

#[test]
fn disk_report_reads_exactly() {
    let gib = 1_073_741_824u64;
    let disks = vec![
        disk_sample("ext4", "/", 100 * gib, 25 * gib, true),
        disk_sample("tmpfs", "/run", gib, gib, false),
        disk_sample("ext4", "/home", 200 * gib, 150 * gib, false),
    ];
    let result = disk::build_result(&disks, &generic(), Lang::En);
    assert_eq!(
        result.details,
        vec![
            "/ (ext4): 75.0 % used (75.0 / 100.0 GB)",
            "  └ SSD detected on /",
            "/home (ext4): 25.0 % used (50.0 / 200.0 GB)",
        ]
    );
    let names: Vec<&str> = result.metrics.iter().map(|m| m.name.as_str()).collect();
    assert_eq!(names, vec!["usage_percent__", "usage_percent__home", "usage_percent_worst"]);
    assert_eq!(result.metrics[2].value, 75_000);
    assert_eq!(result.status_value.as_deref(), Some("75% of “/” (75G / 100G)"));
    assert_eq!(result.top_processes, vec!["Fullest partition: / (75.0 %)"]);
    assert!(disk::skip_filesystem("squashfs"));
    assert!(!disk::skip_filesystem("btrfs"));
}

#[test]
fn no_partition_reads_as_such() {
    let result = disk::build_result(&vec![], &generic(), Lang::Fr);
    assert_eq!(result.details, vec!["Aucune partition montée détectée."]);
    assert_eq!(result.status_value.as_deref(), Some("Aucune partition"));
    assert_eq!(result.top_processes, vec!["Partition la plus remplie : / (0.0 %)"]);
}

// --- scheduling ---

#[test]
fn the_default_configuration_builds_its_checks_in_order() {
    let config = Config::default();
    assert_eq!(
        build_checks(&config.checks),
        vec![
            CheckId::Cpu,
            CheckId::Memory,
            CheckId::Disk,
            CheckId::Temperature,
            CheckId::Systemd,
            CheckId::Updates,
            CheckId::Network,
            CheckId::Battery,
            CheckId::Inode,
            CheckId::Kernel,
            CheckId::Filesystem,
            CheckId::Timesync,
            CheckId::Security,
        ]
    );
    assert_eq!(interval_for_check("timesync", &config.checks), 300);
    assert_eq!(interval_for_check("security", &config.checks), 300);
    assert_eq!(interval_for_check("network", &config.checks), 60);
    assert_eq!(interval_for_check("nothing", &config.checks), 60);
    assert_eq!(interval_for_check("updates", &config.checks), 3600);
    let t = thresholds_for("temperature", &config);
    assert_eq!((t.warning, t.critical), (75_000, 90_000));
    assert_eq!(thresholds_for("network", &config), CheckThresholds::default());
}

// --- the guardian ---

#[test]
fn pid_files_and_logs_read_as_expected() {
    assert_eq!(parse_pid(" 1234\n"), Some(1234));
    assert_eq!(parse_pid("4294967296"), None);
    assert_eq!(parse_pid("abc"), None);
    assert_eq!(tail_lines("a\nb\nc\n", 2), "b\nc");
    assert_eq!(tail_lines("a\nb", 5), "a\nb");
    assert_eq!(tail_lines("", 5), "");
}

#[test]
fn starting_and_stopping_follow_the_status() {
    let (running, stale) = status_from(Some(42), true, None);
    assert!(!stale);
    assert!(matches!(running, DaemonStatus::Running { pid: 42, .. }));
    let (stopped, stale) = status_from(Some(42), false, None);
    assert!(stale);
    assert!(matches!(stopped, DaemonStatus::Stopped));
    assert_eq!(
        start_refusal(&running).as_deref(),
        Some("Joséphine veille déjà sur votre machine (PID 42)")
    );
    assert_eq!(start_refusal(&stopped), None);
    assert_eq!(stop_target(&running), Ok(42));
    assert_eq!(
        stop_target(&stopped),
        Err("Joséphine ne veille pas actuellement".to_string())
    );
}

#[test]
fn paths_sit_under_the_platform_directories() {
    let p = Paths::from_dirs("/home/u/.config", "/home/u/.local/share/");
    assert_eq!(p.config, "/home/u/.config/josephine/config.yaml");
    assert_eq!(p.data_dir, "/home/u/.local/share/josephine");
    assert_eq!(p.database, "/home/u/.local/share/josephine/josephine.db");
    assert_eq!(p.pid_file, "/home/u/.local/share/josephine/daemon.pid");
    assert_eq!(p.log_file, "/home/u/.local/share/josephine/daemon.log");
    assert_eq!(
        PathsError::NoDataDir.message(),
        "impossible de déterminer le répertoire de données"
    );
    assert_eq!(Sysfs::rooted("/tmp/fx/").path("//sys"), "/tmp/fx/sys");
}

// --- the command line ---

#[test]
fn gauges_and_values_read_as_the_table_shows_them() {
    assert_eq!(bar_plain(50_000, 100_000, 4), "██░░");
    assert_eq!(bar_plain(-1, 100_000, 4), "░░░░");
    assert_eq!(bar_plain(150_000, 100_000, 3), "███");
    // A scale under one unit counts as one: 0.5 fills half.
    assert_eq!(bar_plain(500, 10, 2), "█░");
    assert_eq!(format_max(Some(61_500), "°C"), "62°C");
    assert_eq!(format_max(None, "%"), "—");
    assert_eq!(format_event_value("systemd", "failed_units", 2_000), "2 service(s)");
    assert_eq!(format_event_value("systemd", "max_restarts", 3_000), "3 restart(s)");
    assert_eq!(format_event_value("temperature", "temp_max_celsius", 80_400), "80 °C");
    assert_eq!(format_event_value("disk", "usage_percent_worst", 91_000), "91 %");
    assert_eq!(plain_state(Severity::Attention), "attention");
    assert_eq!(stub_hint(StubCommand::Clean { dry_run: true }), "`josephine clean --dry-run` — nettoyage avec aperçu");
}

fn gauge(name: &str, unit: &str, value: i64, warning: Option<i64>, critical: Option<i64>) -> Metric {
    Metric {
        name: name.into(),
        value,
        unit: unit.into(),
        threshold_warning: warning,
        threshold_critical: critical,
    }
}

#[test]
fn summary_shows_the_first_metric_with_a_warning_threshold() {
    let mut r = one_metric("cpu", "load", 1_000, None);
    assert_eq!(primary_metric(&r), Some(0));
    r.metrics.push(gauge("usage", "%", 40_000, Some(80_000), Some(95_000)));
    r.metrics.push(gauge("temp", "°C", 50_000, Some(70_000), None));
    assert_eq!(primary_metric(&r), Some(1));
    r.metrics.clear();
    assert_eq!(primary_metric(&r), None);
}

#[test]
fn gauges_fill_at_100_percent_or_at_the_critical_threshold() {
    assert_eq!(metric_scale(&gauge("usage", "%", 40_000, Some(80_000), Some(95_000))), 100_000);
    assert_eq!(metric_scale(&gauge("temp", "°C", 50_000, Some(70_000), Some(85_000))), 85_000);
    assert_eq!(metric_scale(&gauge("load", "", 1_500, None, None)), 1_500);
}

fn one_metric(check: &str, name: &str, value: i64, warning: Option<i64>) -> CheckResult {
    CheckResult {
        check_name: check.into(),
        metrics: vec![Metric {
            name: name.into(),
            value,
            unit: "".into(),
            threshold_warning: warning,
            threshold_critical: None,
        }],
        details: vec![],
        top_processes: vec![],
        status_value: None,
    }
}

#[test]
fn the_machine_is_as_well_as_its_worst_check() {
    assert_eq!(global_severity(&vec![]), Severity::Info);
    let results = vec![
        one_metric("cpu", "usage_percent", 10_000, Some(85_000)),
        one_metric("disk", "usage_percent_worst", 90_000, Some(85_000)),
    ];
    assert_eq!(global_severity(&results), Severity::Attention);
    assert!(systemd_all_clear(&one_metric("systemd", "failed_units", 999, None)));
    assert!(!systemd_all_clear(&one_metric("systemd", "failed_units", 1_000, None)));
}

// --- updates ---

#[test]
fn checksums_are_lowercase_hex_sha256() {
    assert_eq!(
        sha256_hex_of(b"abc"),
        "ba7816bf8f01cfea414140de5dae2223b00361a396177a9cb410ff61f20015ad"
    );
    assert_eq!(sha256_hex_of(b"").len(), 64);
    assert_eq!(hex_of(&[0x00, 0x0f, 0xa0, 0xff]), "000fa0ff");
    assert_eq!(parse_sha256_line("ABC123  josephine.deb").as_deref(), Some("abc123"));
    assert_eq!(parse_sha256_line("   \n"), None);
}

#[test]
fn versions_that_are_not_semver_compare_as_text() {
    assert_eq!(compare("dev", "dev"), UpdateStatus::UpToDate);
    assert_eq!(compare("dev", "0.2.0"), UpdateStatus::Available("0.2.0".into()));
    assert_eq!(compare("1.0.0-rc.1", "1.0.0"), UpdateStatus::Available("1.0.0".into()));
    assert_eq!(status_for(Some(-1), "b", "a"), UpdateStatus::Ahead);
    assert_eq!(status_for(None, "a", "b"), UpdateStatus::Available("b".into()));
    assert_eq!(current_version(), "0.1.0");
}

#[test]
fn install_channel_comes_from_the_path_then_the_package_databases() {
    let nobody = StubCommands::new();
    assert_eq!(detect_channel_for(&nobody, "/usr/bin/josephine"), InstallChannel::Tarball);
    assert_eq!(detect_channel_for(&nobody, "/home/x/bin/josephine"), InstallChannel::Unknown);
    let rpm = StubCommands::new().with("rpm", "josephine-0.3.0-1.x86_64\n");
    assert_eq!(detect_channel_for(&rpm, "/usr/bin/josephine"), InstallChannel::Rpm);
    assert_eq!(detect_channel_for(&rpm, "/home/x/.cargo/bin/josephine"), InstallChannel::Cargo);
}

// --- the export ---

#[test]
fn the_export_keeps_checks_in_name_order() {
    let mut export = PrometheusExport::new();
    export.record(&one_metric("memory", "usage_percent", 2_000, None));
    export.record(&one_metric("cpu", "usage_percent", 1_000, None));
    let text = export.render(-5);
    let cpu = text.find("check=\"cpu\"").unwrap();
    let memory = text.find("check=\"memory\"").unwrap();
    assert!(cpu < memory, "{text}");
    assert!(text.ends_with("josephine_last_write_timestamp_seconds -5\n"), "{text}");
}

// --- phrasing slots ---

#[test]
fn a_pool_of_one_always_uses_its_only_phrasing() {
    for seed in [0u64, 1, 42, u64::MAX] {
        assert_eq!(slot(seed, 1), 0);
        assert!(slot(seed, 7) < 7);
    }
}

// --- what the guardian records ---

#[test]
fn a_round_records_every_sample_and_announces_only_when_asked() {
    let result = one_metric("cpu", "usage_percent", 90_000, Some(85_000));
    assert_eq!(metric_samples(&result), vec![("usage_percent".to_string(), 90_000)]);

    let mut engine = RulesEngine::new();
    let thresholds = CheckThresholds::default();
    let up = engine.evaluate_check("cpu", &result.metrics, &thresholds, Lang::En);
    assert_eq!(up.len(), 1);
    assert_eq!(recorded_state(&up[0]), "WARNING");
    assert!(announce_on_desktop(true, &up[0]));
    assert!(!announce_on_desktop(false, &up[0]));

    let calm = one_metric("cpu", "usage_percent", 10_000, Some(85_000));
    let down = engine.evaluate_check("cpu", &calm.metrics, &thresholds, Lang::En);
    assert_eq!(down.len(), 1);
    assert_eq!(recorded_state(&down[0]), "RECOVERED");
}

// --- tone ---

#[test]
fn every_known_check_speaks_calmly() {
    let forbidden = ["ERROR", "FATAL", "PANIC", "CRASH", "ÉCHEC"];
    let checks = [
        "cpu", "memory", "disk", "temperature", "systemd", "updates", "network", "battery", "inode",
        "smart", "kernel",
    ];
    let thresholds = CheckThresholds::default();
    for check in checks {
        for name in ["usage_percent", "swap_percent", "failed_units", "max_restarts"] {
            for value in [-5_000i64, 0, 3_000, 96_400, 1_234_567_000] {
                let m = Metric {
                    name: name.to_string(),
                    value,
                    unit: "%".to_string(),
                    threshold_warning: Some(85_000),
                    threshold_critical: Some(95_000),
                };
                for lang in [Lang::En, Lang::Fr] {
                    let mut messages = vec![recovery_message(check, &m, lang)];
                    for state in [AlertState::Warning, AlertState::Critical] {
                        messages.push(alert_message(check, &m, &thresholds, state, lang));
                    }
                    for msg in messages {
                        assert!(!msg.is_empty());
                        for word in forbidden {
                            assert!(!msg.to_uppercase().contains(word), "alarmist: {msg}");
                        }
                    }
                }
            }
        }
    }
}

#[test]
fn an_unknown_check_is_quoted_as_named() {
    let m = Metric {
        name: "level".to_string(),
        value: 12_500,
        unit: "u".to_string(),
        threshold_warning: Some(10_000),
        threshold_critical: None,
    };
    let msg = alert_message("pressure", &m, &CheckThresholds::default(), AlertState::Warning, Lang::En);
    assert_eq!(msg, "pressure is out of range (12.5 u). Nothing serious yet — `josephine doctor`?");
}

// --- what gets asked ---

#[test]
fn smart_asks_about_disks_in_order() {
    let names: Vec<String> =
        ["vda", "sdb", "loop0", "nvme0n1", "sda", "sr0"].iter().map(|s| s.to_string()).collect();
    assert_eq!(block_devices(&names), vec!["/dev/nvme0n1", "/dev/sda", "/dev/sdb", "/dev/vda"]);
    assert!(block_devices(&Vec::new()).is_empty());
}

#[test]
fn each_manager_lists_its_updates_its_own_way() {
    assert_eq!(listing_for(Manager::Dnf, false), ("dnf", vec!["-q", "check-update"]));
    assert_eq!(listing_for(Manager::Apt, true), ("apt", vec!["list", "--upgradable"]));
    assert_eq!(listing_for(Manager::Pacman, true), ("checkupdates", vec![]));
    assert_eq!(listing_for(Manager::Pacman, false), ("pacman", vec!["-Qu"]));
    assert_eq!(parse_listing(Manager::Pacman, "linux 6.1-1 -> 6.2-1\n\nvim 9.0-1 -> 9.1-1\n"), vec!["linux", "vim"]);
    assert_eq!(
        parse_listing(Manager::Apt, "Listing...\nvim/stable 2:9.0 amd64 [upgradable from: 2:8.2]\n"),
        vec!["vim"]
    );
}

#[test]
fn interfaces_that_are_up_are_listed_in_order() {
    let entries: Vec<(String, String)> = [
        ("wlp2s0", "up\n"),
        ("lo", "unknown\n"),
        ("enp3s0", "down\n"),
        ("docker0", " up "),
        ("eth1", "up"),
    ]
    .iter()
    .map(|(n, s)| (n.to_string(), s.to_string()))
    .collect();
    assert_eq!(up_interfaces(entries), vec!["docker0", "eth1", "wlp2s0"]);
    assert!(up_interfaces(Vec::new()).is_empty());
}

/// Commands that echo the program they were asked to run.
struct Echo;

impl Commands for Echo {
    fn output(&self, program: &str, args: &[&str]) -> Option<String> {
        Some(format!("{program} {}", args.join(" ")))
    }
}

#[test]
fn a_machine_where_everything_runs_uses_dnf() {
    assert_eq!(detect_manager(&Echo), Some(Manager::Dnf));
    let only_pacman = StubCommands::new().with("pacman", "Pacman v6.1.0");
    assert_eq!(detect_manager(&only_pacman), Some(Manager::Pacman));
    assert_eq!(detect_manager(&StubCommands::new()), None);
}

#[test]
fn every_alert_points_to_the_doctor() {
    let checks = [
        "cpu", "memory", "disk", "temperature", "systemd", "updates", "network", "battery", "inode",
        "smart", "kernel", "pressure",
    ];
    let thresholds = CheckThresholds::default();
    for check in checks {
        for name in ["usage_percent", "swap_percent", "failed_units"] {
            for value in [0i64, 1_000, 2_500, 97_000] {
                let m = Metric {
                    name: name.to_string(),
                    value,
                    unit: "%".to_string(),
                    threshold_warning: Some(85_000),
                    threshold_critical: None,
                };
                for lang in [Lang::En, Lang::Fr] {
                    for state in [AlertState::Warning, AlertState::Critical] {
                        let msg = alert_message(check, &m, &thresholds, state, lang);
                        assert!(msg.contains("`josephine doctor`"), "{msg}");
                    }
                }
            }
        }
    }
}

#[test]
fn more_space_available_than_the_size_reads_as_negative_use() {
    let gib = 1_073_741_824u64;
    let disks = vec![disk_sample("ext4", "/data", 2 * gib, 3 * gib, false)];
    let result = disk::build_result(&disks, &CheckThresholds::default(), Lang::En);
    assert_eq!(result.metrics[0].name, "usage_percent__data");
    assert_eq!(result.metrics[0].value, -50_000);
    assert_eq!(result.details, vec!["/data (ext4): -50.0 % used (-1.0 / 2.0 GB)"]);
    // Such a partition is never the fullest.
    assert_eq!(result.metrics[1].value, 0);
    assert_eq!(result.status_value.as_deref(), Some("No partition"));
}

#[test]
fn a_fresh_engine_announces_each_metric_out_of_range_once() {
    let mut engine = RulesEngine::new();
    let warn = |name: &str, value: i64| Metric {
        name: name.to_string(),
        value,
        unit: "%".to_string(),
        threshold_warning: Some(85_000),
        threshold_critical: Some(95_000),
    };
    let metrics = vec![
        warn("usage_percent", 90_000),
        warn("swap_percent", 10_000),
        Metric { threshold_warning: None, ..warn("load", 99_000) },
        warn("other_percent", 99_000),
    ];
    let out = engine.evaluate_check("memory", &metrics, &CheckThresholds::default(), Lang::En);
    let seen: Vec<(&str, AlertState, AlertState, bool, bool)> = out
        .iter()
        .map(|t| (t.metric_name.as_str(), t.from, t.to, t.notify, t.recovered))
        .collect();
    assert_eq!(
        seen,
        vec![
            ("usage_percent", AlertState::Normal, AlertState::Warning, true, false),
            ("other_percent", AlertState::Normal, AlertState::Critical, true, false),
        ]
    );
    // Critical easing to warning is silent; the warning back to normal recovers.
    let next = vec![warn("usage_percent", 10_000), warn("swap_percent", 10_000), warn("other_percent", 90_000)];
    let out = engine.evaluate_check("memory", &next, &CheckThresholds::default(), Lang::En);
    assert_eq!(out.len(), 1);
    assert_eq!((out[0].metric_name.as_str(), out[0].recovered), ("usage_percent", true));
    assert_eq!(engine.state(&"memory".to_string(), &"other_percent".to_string()), AlertState::Warning);
}

#[test]
fn the_export_keeps_the_last_result_of_each_check_in_name_order() {
    let mut export = PrometheusExport::new();
    export.record(&one_metric("memory", "usage_percent", 95_000, Some(85_000)));
    export.record(&one_metric("cpu", "usage_percent", 50_000, Some(85_000)));
    export.record(&one_metric("memory", "usage_percent", 10_000, Some(85_000)));
    let text = export.render(0);
    let severities: Vec<&str> =
        text.lines().filter(|l| l.starts_with("josephine_check_severity{")).collect();
    assert_eq!(
        severities,
        vec!["josephine_check_severity{check=\"cpu\"} 0", "josephine_check_severity{check=\"memory\"} 0"]
    );
    assert_eq!(text.matches("josephine_metric{check=\"memory\"").count(), 1);
    assert!(text.contains("josephine_metric{check=\"memory\",metric=\"usage_percent\",unit=\"\"} 10\n"));
}

#[test]
fn the_default_configuration_watches_the_clock_and_the_logins() {
    let ids = build_checks(&Config::default().checks);
    assert!(ids.contains(&CheckId::Timesync));
    assert!(ids.contains(&CheckId::Security));
    let mut config = Config::default();
    config.checks.timesync.enabled = false;
    config.checks.security.enabled = false;
    let ids = build_checks(&config.checks);
    assert!(!ids.contains(&CheckId::Timesync) && !ids.contains(&CheckId::Security));
}
