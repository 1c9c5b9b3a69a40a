use josephine_core::check::{CheckResult, Severity};
use josephine_core::checks::battery::{self, BatteryReading};
use josephine_core::checks::inode::{self, InodeReading};
use josephine_core::checks::kernel;
use josephine_core::checks::network;
use josephine_core::checks::security;
use josephine_core::checks::smart::{parse_smart_health, Health};
use josephine_core::checks::systemd::parse_unit_line;
use josephine_core::checks::timesync;
use josephine_core::checks::updates::{parse_apt, parse_dnf, parse_pacman};
use josephine_core::config::{
    BatteryCheckConfig, CheckThresholds, KernelCheckConfig, SecurityCheckConfig,
    TimesyncCheckConfig,
};
use josephine_core::lang::Lang;

// --- kernel ---

fn kernel_config() -> KernelCheckConfig {
    KernelCheckConfig {
        enabled: true,
        interval_secs: 300,
        warning: 1_000,
        critical: 3_000,
    }
}

#[test]
fn counts_oom_and_oops_lines() {
    let log = "\
usb 1-2: new high-speed USB device
Out of memory: Killed process 1234 (chrome)
wlan0: authenticated
BUG: unable to handle kernel NULL pointer dereference
audit: type=1400
";
    assert_eq!(kernel::count_incidents(log), 2);
}

#[test]
fn calm_kernel_is_info() {
    let result = kernel::build_result(0, &kernel_config(), Lang::En);
    assert_eq!(result.worst_severity(), Severity::Info);
    assert_eq!(result.status_value.as_deref(), Some("0 incidents (1 h)"));
}

#[test]
fn many_incidents_escalate() {
    let result = kernel::build_result(4, &kernel_config(), Lang::En);
    assert_eq!(result.worst_severity(), Severity::Critique);
}

// --- security ---

const SAMPLE_AUTH_LOG: &str = "\
Accepted publickey for alice from 10.0.0.1 port 22
Failed password for invalid user admin from 203.0.113.5 port 45678 ssh2
Failed password for root from 203.0.113.5 port 45679 ssh2
pam_unix(sshd:auth): authentication failure; logname= uid=0
Invalid user guest from 203.0.113.6 port 12345
session opened for user alice
";

#[test]
fn counts_failed_auth_lines() {
    assert_eq!(security::count_failed_auths(SAMPLE_AUTH_LOG), 4);
}

#[test]
fn calm_journal_is_info() {
    let result = security::build_result(0, &SecurityCheckConfig::default(), Lang::En);
    assert_eq!(result.worst_severity(), Severity::Info);
    assert_eq!(
        result.status_value.as_deref(),
        Some("no failed logins (1 h)")
    );
}

#[test]
fn many_failures_escalate_to_critical() {
    let result = security::build_result(20, &SecurityCheckConfig::default(), Lang::En);
    assert_eq!(result.worst_severity(), Severity::Critique);
}

#[test]
fn moderate_failures_are_attention() {
    let result = security::build_result(7, &SecurityCheckConfig::default(), Lang::En);
    assert_eq!(result.worst_severity(), Severity::Attention);
}

// --- smart ---

#[test]
fn parses_ata_passed() {
    let sample = "SMART overall-health self-assessment test result: PASSED\n";
    assert_eq!(parse_smart_health(sample), Health::Passed);
}

#[test]
fn parses_ata_failed() {
    let sample = "SMART overall-health self-assessment test result: FAILED!\n";
    assert_eq!(parse_smart_health(sample), Health::Failing);
}

#[test]
fn parses_nvme_ok() {
    let sample = "SMART Health Status: OK\n";
    assert_eq!(parse_smart_health(sample), Health::Passed);
}

#[test]
fn unknown_when_absent() {
    assert_eq!(parse_smart_health("no verdict here"), Health::Unknown);
}

// --- systemd ---

#[test]
fn parse_unit_line_extracts_name() {
    assert_eq!(
        parse_unit_line("nginx.service loaded failed failed My Service"),
        Some("nginx.service".into())
    );
}

#[test]
fn parse_unit_line_skips_empty() {
    assert_eq!(parse_unit_line(""), None);
}

// --- timesync ---

#[test]
fn ntp_synchronized_yes_is_synced() {
    assert_eq!(timesync::parse_clock_unsynced("NTPSynchronized=yes\nNTP=yes\n"), 0);
}

#[test]
fn ntp_synchronized_no_is_unsynced() {
    assert_eq!(timesync::parse_clock_unsynced("NTPSynchronized=no\nNTP=no\n"), 1);
}

#[test]
fn missing_property_is_unsynced() {
    assert_eq!(timesync::parse_clock_unsynced("NTP=no\n"), 1);
}

#[test]
fn synced_is_info() {
    let result = timesync::build_result(0, &TimesyncCheckConfig::default(), Lang::En);
    assert_eq!(result.worst_severity(), Severity::Info);
    assert_eq!(result.status_value.as_deref(), Some("in sync"));
}

#[test]
fn unsynced_is_attention_not_critical() {
    let result = timesync::build_result(1, &TimesyncCheckConfig::default(), Lang::En);
    assert_eq!(result.worst_severity(), Severity::Attention);
    assert_eq!(result.status_value.as_deref(), Some("not synchronised"));
}

// --- updates ---

#[test]
fn parse_dnf_counts_package_lines_and_ignores_obsoleting() {
    let sample = "\nfoo.x86_64        1.2-3.fc43     updates\nbar.noarch        2.0-1.fc43     fedora\n\nObsoleting Packages\nbaz.x86_64        9.9            updates\n";
    let names = parse_dnf(sample);
    assert_eq!(names, vec!["foo.x86_64", "bar.noarch"]);
}

#[test]
fn parse_apt_counts_upgradable_lines() {
    let sample = "Listing...\nfoo/stable 1.2 amd64 [upgradable from: 1.1]\nbar/stable 3.0 amd64 [upgradable from: 2.9]\n";
    assert_eq!(parse_apt(sample), vec!["foo", "bar"]);
}

#[test]
fn parse_pacman_counts_nonempty_lines() {
    let sample = "linux 6.9 -> 6.10\nfirefox 1 -> 2\n";
    assert_eq!(parse_pacman(sample), vec!["linux", "firefox"]);
}

// --- network ---

#[test]
fn parses_default_gateway_little_endian() {
    // Destination 0.0.0.0, gateway 0101A8C0 (little-endian) = 192.168.1.1.
    let sample = "Iface\tDestination\tGateway\tFlags\n\
                  wlan0\t00000000\t0101A8C0\t0003\n\
                  wlan0\t0001A8C0\t00000000\t0001\n";
    assert_eq!(network::parse_default_gateway(sample), Some((192, 168, 1, 1)));
}

#[test]
fn no_default_route_yields_none() {
    let sample = "Iface\tDestination\tGateway\tFlags\n\
                  wlan0\t0001A8C0\t00000000\t0001\n";
    assert_eq!(network::parse_default_gateway(sample), None);
}

#[test]
fn parses_nameservers() {
    let sample = "# comment\nnameserver 127.0.0.53\nsearch lan\nnameserver 1.1.1.1\n";
    assert_eq!(network::parse_nameservers(sample), vec!["127.0.0.53", "1.1.1.1"]);
}

#[test]
fn parses_ping_time() {
    let sample = "64 bytes from 192.168.1.1: icmp_seq=1 ttl=64 time=12.4 ms\n";
    // 12.4 ms, in thousandths.
    assert_eq!(network::parse_ping_time(sample), Some(12_400));
}

// --- inode ---

fn inode_thresholds() -> CheckThresholds {
    CheckThresholds {
        enabled: true,
        interval_secs: 300,
        warning: 85_000,
        critical: 95_000,
    }
}

const DF_SAMPLE: &str = "\
Filesystem      Inodes  IUsed   IFree IUse% Mounted on
/dev/sda2      6111232 512345 5598887    9% /
tmpfs          4055820    123 4055697    1% /dev/shm
/dev/sda3     12222464 300000 11922464    3% /home
btrfsdev             -      -       -     -  /data
";

#[test]
fn parses_real_filesystems_only() {
    let readings = inode::parse_df_inodes(DF_SAMPLE);
    let mounts: Vec<&str> = readings.iter().map(|r| r.mount.as_str()).collect();
    assert_eq!(mounts, vec!["/", "/home"]);
}

#[test]
fn worst_drives_status_and_severity() {
    let result = inode::build_result(&inode::parse_df_inodes(DF_SAMPLE), &inode_thresholds(), Lang::En);
    assert_eq!(result.status_value.as_deref(), Some("9% of “/”"));
    assert_eq!(result.worst_severity(), Severity::Info);
}

#[test]
fn high_inode_usage_is_critical() {
    let readings = vec![InodeReading {
        mount: "/".into(),
        usage_percent: 97_000,
    }];
    let result = inode::build_result(&readings, &inode_thresholds(), Lang::En);
    assert_eq!(result.worst_severity(), Severity::Critique);
}

// --- battery ---

fn reading(capacity: i64, status: &str) -> BatteryReading {
    BatteryReading {
        name: "BAT0".into(),
        capacity,
        status: status.into(),
        health: None,
    }
}

fn battery_config() -> BatteryCheckConfig {
    BatteryCheckConfig {
        enabled: true,
        interval_secs: 120,
        warning: 20_000,
        critical: 10_000,
    }
}

#[test]
fn no_battery_is_informational() {
    let result = battery::build_result(&vec![], &battery_config(), Lang::En);
    assert_eq!(result.worst_severity(), Severity::Info);
    assert_eq!(result.status_value.as_deref(), Some("Pas de batterie"));
}

#[test]
fn low_but_charging_does_not_alarm() {
    let result = battery::build_result(&vec![reading(8_000, "Charging")], &battery_config(), Lang::En);
    assert_eq!(result.worst_severity(), Severity::Info);
}

#[test]
fn discharging_low_warns() {
    let result = battery::build_result(&vec![reading(15_000, "Discharging")], &battery_config(), Lang::En);
    assert_eq!(result.worst_severity(), Severity::Attention);
}

#[test]
fn discharging_very_low_is_critical() {
    let result = battery::build_result(&vec![reading(5_000, "Discharging")], &battery_config(), Lang::En);
    assert_eq!(result.worst_severity(), Severity::Critique);
}

#[test]
fn discharging_healthy_level_is_calm() {
    let result = battery::build_result(&vec![reading(80_000, "Discharging")], &battery_config(), Lang::En);
    assert_eq!(result.worst_severity(), Severity::Info);
}

// --- a few more readings of the same parsers ---

fn metric_value(result: &CheckResult, name: &str) -> i64 {
    result
        .metrics
        .iter()
        .find(|m| m.name == name)
        .unwrap_or_else(|| panic!("no `{name}` metric in {:?}", result.check_name))
        .value
}

#[test]
fn battery_status_and_depletion_read_exactly() {
    let result = battery::build_result(&vec![reading(15_000, "discharging")], &battery_config(), Lang::En);
    assert_eq!(result.status_value.as_deref(), Some("15 % (état inconnu)"));
    assert_eq!(metric_value(&result, "battery_depletion_percent"), 85_000);
    assert_eq!(result.details, vec!["BAT0 : 15 % — état inconnu"]);
}

#[test]
fn the_least_charged_battery_leads() {
    let batteries = vec![
        BatteryReading { name: "BAT0".into(), capacity: 50_000, status: "Full".into(), health: None },
        BatteryReading { name: "BAT1".into(), capacity: 30_000, status: "Charging".into(), health: None },
        BatteryReading { name: "BAT2".into(), capacity: 30_000, status: "Discharging".into(), health: None },
    ];
    let result = battery::build_result(&batteries, &battery_config(), Lang::Fr);
    assert_eq!(result.status_value.as_deref(), Some("30 % (en charge)"));
}

#[test]
fn inode_reads_typed_listings_and_keeps_the_last_of_equals() {
    let df = "\
Filesystem Type Inodes IUsed IFree IUse% Mounted on
/dev/a ext4 10 5 5 50% /a
/dev/b ext4 10 5 5 50% /b
";
    let readings = inode::parse_df_inodes(df);
    let mounts: Vec<&str> = readings.iter().map(|r| r.mount.as_str()).collect();
    assert_eq!(mounts, vec!["/a", "/b"]);
    let result = inode::build_result(&readings, &inode_thresholds(), Lang::Fr);
    assert_eq!(result.status_value.as_deref(), Some("50% de « /b »"));
    assert_eq!(result.details, vec!["/a : 50 % d'inodes utilisés", "/b : 50 % d'inodes utilisés"]);
}

#[test]
fn hexadecimal_gateway_fields_are_read_exactly() {
    assert_eq!(network::parse_hex_u32(&"+ff".chars().collect::<Vec<char>>()), Some(255));
    assert_eq!(network::parse_hex_u32(&"FFFFFFFF".chars().collect::<Vec<char>>()), Some(u32::MAX));
    assert_eq!(network::parse_hex_u32(&"100000000".chars().collect::<Vec<char>>()), None);
    assert_eq!(network::parse_hex_u32(&"".chars().collect::<Vec<char>>()), None);
    assert_eq!(network::parse_hex_u32(&"0x10".chars().collect::<Vec<char>>()), None);
    // A default route whose gateway is not hexadecimal ends the search.
    let table = "h\neth0 00000000 zz 0003\neth1 00000000 0101A8C0 0003\n";
    assert_eq!(network::parse_default_gateway(table), None);
}

#[test]
fn nameserver_lines_without_an_address_are_skipped() {
    let sample = "  nameserver   \nnameserver 9.9.9.9  \n";
    assert_eq!(network::parse_nameservers(sample), vec!["9.9.9.9"]);
}
