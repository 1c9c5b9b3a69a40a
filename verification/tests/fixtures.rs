//! Read → parse → report for the checks that read the machine, driven by the
//! contents a small laptop exposes (two thermal zones and an NVMe sensor, one
//! battery and a mains adapter, a default route, one interface up and `lo`
//! down) and by canned command output.

use josephine_core::check::{CheckResult, Severity};
use josephine_core::checks::{battery, inode, kernel, network, temperature};
use josephine_core::config::{
    BatteryCheckConfig, CheckThresholds, KernelCheckConfig, NetworkCheckConfig,
    TemperatureThresholds,
};
use josephine_core::lang::Lang;
use josephine_core::source::StubCommands;

fn metric(result: &CheckResult, name: &str) -> i64 {
    result
        .metrics
        .iter()
        .find(|m| m.name == name)
        .unwrap_or_else(|| panic!("no `{name}` metric in {:?}", result.check_name))
        .value
}

fn laptop_sensors() -> Vec<temperature::ThermalReading> {
    let mut readings = Vec::new();
    for (zone, temp, kind) in [
        ("thermal_zone0", "47000\n", "acpitz\n"),
        ("thermal_zone1", "61500\n", "x86_pkg_temp\n"),
    ] {
        assert!(temperature::is_thermal_zone(zone));
        let millis = temperature::parse_millidegrees(temp).expect("millidegrees");
        readings.extend(temperature::zone_reading(zone, millis, Some(kind)));
    }
    assert!(temperature::is_nvme("nvme0"));
    let millis = temperature::parse_millidegrees("39850\n").expect("millidegrees");
    readings.extend(temperature::nvme_reading("nvme0", millis));
    readings
}

fn temperature_thresholds() -> TemperatureThresholds {
    TemperatureThresholds {
        enabled: true,
        warning: 70_000,
        critical: 85_000,
        interval_secs: 60,
    }
}

#[test]
fn temperature_reads_every_sensor_and_reports_the_hottest() {
    let result = temperature::build_result(&laptop_sensors(), &temperature_thresholds(), Lang::En);

    // thermal_zone1 (61.5 °C) is hotter than thermal_zone0 (47.0) and the
    // NVMe sensor (39.85), so it sets the metric.
    assert_eq!(metric(&result, "temp_max_celsius"), 61_500);
    assert_eq!(result.worst_severity(), Severity::Info);
    assert_eq!(result.status_value.as_deref(), Some("62°C"));

    let details = result.details.join("\n");
    assert!(details.contains("acpitz"), "{details}");
    assert!(details.contains("x86_pkg_temp"), "{details}");
    assert!(details.contains("NVMe nvme0"), "{details}");
}

#[test]
fn temperature_without_sensors_says_so_rather_than_reporting_zero() {
    let result = temperature::build_result(&vec![], &temperature_thresholds(), Lang::En);

    assert_eq!(metric(&result, "temp_max_celsius"), 0);
    assert_eq!(result.worst_severity(), Severity::Info);
    let status = result.status_value.unwrap_or_default();
    assert!(status.contains("No sensor"), "{status}");
}

#[test]
fn battery_capacity_may_be_written_with_an_exponent() {
    let bat = battery::battery_from("BAT1", Some("Battery"), Some("1e2\n"), Some("Full"), None);
    assert_eq!(bat.map(|b| b.capacity), Some(100_000));
}

#[test]
fn battery_reads_the_battery_and_ignores_the_mains_adapter() {
    let health = battery::health_from(Some("43750000\n"), Some("50000000\n"));
    let bat0 = battery::battery_from(
        "BAT0",
        Some("Battery\n"),
        Some("64\n"),
        Some("Discharging\n"),
        health,
    );
    let ac = battery::battery_from("AC", Some("Mains\n"), None, None, None);
    assert!(ac.is_none());
    let batteries: Vec<_> = bat0.into_iter().chain(ac).collect();

    let result = battery::build_result(
        &batteries,
        &BatteryCheckConfig {
            enabled: true,
            warning: 25_000,
            critical: 10_000,
            interval_secs: 300,
        },
        Lang::En,
    );

    assert_eq!(metric(&result, "charge_percent"), 64_000);
    // Discharging, so depletion is 100 − 64.
    assert_eq!(metric(&result, "battery_depletion_percent"), 36_000);
    assert_eq!(result.worst_severity(), Severity::Info);

    // 43_750_000 / 50_000_000 = 87.5 %, rendered to the nearest percent.
    let details = result.details.join("\n");
    assert!(details.contains("88 % of design capacity"), "{details}");
    assert!(details.contains("BAT0"), "{details}");
    assert!(!details.contains("AC"), "the mains adapter leaked in: {details}");
}

const ROUTE_TABLE: &str = "Iface\tDestination\tGateway\tFlags\tRefCnt\tUse\tMetric\tMask\n\
wlan0\t00000000\t0101A8C0\t0003\t0\t0\t600\t00000000\n\
wlan0\t0001A8C0\t00000000\t0001\t0\t0\t600\t00FFFFFF\n";

fn network_config() -> NetworkCheckConfig {
    NetworkCheckConfig {
        enabled: true,
        warning: 100_000,
        critical: 300_000,
        interval_secs: 120,
    }
}

fn laptop_interfaces() -> Vec<String> {
    network::up_interfaces(vec![
        ("lo".to_string(), "down\n".to_string()),
        ("wlan0".to_string(), "up\n".to_string()),
    ])
}

#[test]
fn network_reads_the_route_table_and_pings_the_gateway() {
    let ping = "PING 192.168.1.1 (192.168.1.1) 56(84) bytes of data.\n\
                64 bytes from 192.168.1.1: icmp_seq=1 ttl=64 time=3.42 ms\n";
    let gateway = network::parse_default_gateway(ROUTE_TABLE);
    assert_eq!(gateway, Some((192, 168, 1, 1)));
    let stub = StubCommands::new().with("ping", ping);
    let latency = gateway.and_then(|gw| network::ping_latency(&stub, gw));

    let result = network::build_result(gateway, latency, &laptop_interfaces(), &vec![], &network_config());

    assert_eq!(metric(&result, "gateway_latency_ms"), 3_420);
    assert_eq!(result.worst_severity(), Severity::Info);

    let details = result.details.join("\n");
    assert!(details.contains("192.168.1.1"), "{details}");
    assert!(details.contains("wlan0"), "{details}");
    assert!(!details.contains(" lo"), "loopback listed as an interface: {details}");
}

#[test]
fn network_without_ping_reports_an_unreachable_gateway_not_a_crash() {
    let gateway = network::parse_default_gateway(ROUTE_TABLE);
    let stub = StubCommands::new();
    let latency = gateway.and_then(|gw| network::ping_latency(&stub, gw));
    assert_eq!(latency, None);

    let result = network::build_result(gateway, latency, &laptop_interfaces(), &vec![], &network_config());

    // Falls back to the warning threshold: a nudge, never a panic.
    assert_eq!(metric(&result, "gateway_latency_ms"), 100_000);
    assert_eq!(result.worst_severity(), Severity::Attention);
}

fn inode_thresholds() -> CheckThresholds {
    CheckThresholds {
        enabled: true,
        warning: 85_000,
        critical: 95_000,
        interval_secs: 300,
    }
}

#[test]
fn inode_parses_df_and_skips_pseudo_and_image_filesystems() {
    let df = "\
Filesystem     Type     Inodes  IUsed   IFree IUse% Mounted on
/dev/sda2      ext4    3276800 294912 2981888    9% /
tmpfs          tmpfs    2045123     42 2045081    1% /dev/shm
/dev/loop0     squashfs   12345  12345       0  100% /snap/core/1234
/dev/sda1      ext4     655360 622592   32768   95% /home
";
    let stub = StubCommands::new().with("df", df);
    let output = inode::read_df_inodes(&stub);
    let result = inode::result_from_df(output.as_deref(), &inode_thresholds(), Lang::En);

    // /home at 95 % is the worst real filesystem; the squashfs snap at 100 %
    // must not win.
    assert_eq!(metric(&result, "inode_usage_percent_worst"), 95_000);
    let details = result.details.join("\n");
    assert!(!details.contains("squashfs"), "{details}");
    assert!(!details.contains("/dev/shm"), "{details}");
}

#[test]
fn inode_without_df_reports_nothing_rather_than_zero_percent() {
    let stub = StubCommands::new();
    let output = inode::read_df_inodes(&stub);
    let result = inode::result_from_df(output.as_deref(), &inode_thresholds(), Lang::En);
    assert_eq!(result.worst_severity(), Severity::Info);
}

fn kernel_config() -> KernelCheckConfig {
    KernelCheckConfig {
        enabled: true,
        warning: 1_000,
        critical: 5_000,
        interval_secs: 600,
    }
}

#[test]
fn kernel_counts_oom_kills_and_faults_from_the_journal() {
    let journal = "\
Out of memory: Killed process 4242 (firefox) total-vm:9000000kB
usb 1-3: new high-speed USB device number 5 using xhci_hcd
BUG: kernel NULL pointer dereference, address: 0000000000000000
EXT4-fs (sda2): mounted filesystem with ordered data mode
";
    let stub = StubCommands::new().with("journalctl", journal);
    let log = kernel::recent_kernel_log(&stub);
    let result = kernel::result_from_log(log.as_deref(), &kernel_config(), Lang::En);

    // The OOM kill and the BUG line count; the USB and EXT4 lines do not.
    assert_eq!(metric(&result, "kernel_incidents"), 2_000);
    assert_eq!(result.worst_severity(), Severity::Attention);
}

#[test]
fn kernel_without_a_readable_journal_degrades_to_unavailable() {
    let stub = StubCommands::new();
    let log = kernel::recent_kernel_log(&stub);
    let result = kernel::result_from_log(log.as_deref(), &kernel_config(), Lang::En);

    assert_eq!(result.worst_severity(), Severity::Info);
    let status = result.status_value.unwrap_or_default();
    assert!(status.contains("Journal"), "{status}");
}
