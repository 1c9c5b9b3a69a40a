//! The checks: their reading of what the machine reports, and the reports
//! they make of it; and which of them a configuration runs, and how often.
pub mod battery;
pub mod cpu;
pub mod disk;
pub mod inode;
pub mod kernel;
pub mod memory;
pub mod network;
pub mod processes;
pub mod security;
pub mod smart;
pub mod systemd;
pub mod temperature;
pub mod timesync;
pub mod updates;

use vstd::prelude::*;

use crate::config::{generic_thresholds, CheckId, CheckThresholds, ChecksConfig, Config};
use crate::text::eq_str;
use crate::text::chars_of;

verus! {

pub open spec fn when(on: bool, id: CheckId) -> Seq<CheckId> {
    if on {
        seq![id]
    } else {
        seq![]
    }
}

/// The checks a configuration turns on, in the order they are built.
pub open spec fn enabled_of(c: ChecksConfig) -> Seq<CheckId> {
    when(c.cpu.enabled, CheckId::Cpu) + when(c.memory.enabled, CheckId::Memory) + when(
        c.disk.enabled,
        CheckId::Disk,
    ) + when(c.temperature.enabled, CheckId::Temperature) + when(
        c.systemd.enabled,
        CheckId::Systemd,
    ) + when(c.updates.enabled, CheckId::Updates) + when(c.network.enabled, CheckId::Network)
        + when(c.battery.enabled, CheckId::Battery) + when(c.inode.enabled, CheckId::Inode) + when(
        c.smart.enabled,
        CheckId::Smart,
    ) + when(c.kernel.enabled, CheckId::Kernel) + when(c.filesystem.enabled, CheckId::Filesystem)
        + when(c.timesync.enabled, CheckId::Timesync) + when(c.security.enabled, CheckId::Security)
}

fn push_when(out: &mut Vec<CheckId>, on: bool, id: CheckId)
    ensures
        final(out)@ == old(out)@ + when(on, id),
{
    if on {
        out.push(id);
        assert(out@ =~= old(out)@ + when(on, id));
    } else {
        assert(out@ =~= old(out)@ + when(on, id));
    }
}

/// The checks to build for a configuration, in order.
pub fn build_checks(config: &ChecksConfig) -> (r: Vec<CheckId>)
    ensures
        r@ == enabled_of(*config),
{
    let mut r: Vec<CheckId> = Vec::new();
    push_when(&mut r, config.cpu.enabled, CheckId::Cpu);
    push_when(&mut r, config.memory.enabled, CheckId::Memory);
    push_when(&mut r, config.disk.enabled, CheckId::Disk);
    push_when(&mut r, config.temperature.enabled, CheckId::Temperature);
    push_when(&mut r, config.systemd.enabled, CheckId::Systemd);
    push_when(&mut r, config.updates.enabled, CheckId::Updates);
    push_when(&mut r, config.network.enabled, CheckId::Network);
    push_when(&mut r, config.battery.enabled, CheckId::Battery);
    push_when(&mut r, config.inode.enabled, CheckId::Inode);
    push_when(&mut r, config.smart.enabled, CheckId::Smart);
    push_when(&mut r, config.kernel.enabled, CheckId::Kernel);
    push_when(&mut r, config.filesystem.enabled, CheckId::Filesystem);
    push_when(&mut r, config.timesync.enabled, CheckId::Timesync);
    push_when(&mut r, config.security.enabled, CheckId::Security);
    assert(r@ =~= enabled_of(*config));
    r
}

/// How often the named check runs, in seconds; a name the scheduler does
/// not know runs every minute.
pub open spec fn interval_of(name: Seq<char>, c: ChecksConfig) -> u64 {
    if name == "cpu"@ {
        c.cpu.interval_secs
    } else if name == "memory"@ {
        c.memory.interval_secs
    } else if name == "disk"@ {
        c.disk.interval_secs
    } else if name == "temperature"@ {
        c.temperature.interval_secs
    } else if name == "systemd"@ {
        c.systemd.interval_secs
    } else if name == "updates"@ {
        c.updates.interval_secs
    } else if name == "network"@ {
        c.network.interval_secs
    } else if name == "battery"@ {
        c.battery.interval_secs
    } else if name == "inode"@ {
        c.inode.interval_secs
    } else if name == "smart"@ {
        c.smart.interval_secs
    } else if name == "kernel"@ {
        c.kernel.interval_secs
    } else if name == "filesystem"@ {
        c.filesystem.interval_secs
    } else if name == "timesync"@ {
        c.timesync.interval_secs
    } else if name == "security"@ {
        c.security.interval_secs
    } else {
        60
    }
}

/// How often the named check runs, in seconds.
pub fn interval_for_check(name: &str, config: &ChecksConfig) -> (r: u64)
    ensures
        r == interval_of(name@, *config),
{
    let n = chars_of(name);
    if eq_str(&n, "cpu") {
        config.cpu.interval_secs
    } else if eq_str(&n, "memory") {
        config.memory.interval_secs
    } else if eq_str(&n, "disk") {
        config.disk.interval_secs
    } else if eq_str(&n, "temperature") {
        config.temperature.interval_secs
    } else if eq_str(&n, "systemd") {
        config.systemd.interval_secs
    } else if eq_str(&n, "updates") {
        config.updates.interval_secs
    } else if eq_str(&n, "network") {
        config.network.interval_secs
    } else if eq_str(&n, "battery") {
        config.battery.interval_secs
    } else if eq_str(&n, "inode") {
        config.inode.interval_secs
    } else if eq_str(&n, "smart") {
        config.smart.interval_secs
    } else if eq_str(&n, "kernel") {
        config.kernel.interval_secs
    } else if eq_str(&n, "filesystem") {
        config.filesystem.interval_secs
    } else if eq_str(&n, "timesync") {
        config.timesync.interval_secs
    } else if eq_str(&n, "security") {
        config.security.interval_secs
    } else {
        60
    }
}

/// The thresholds the rules engine judges a check's metrics by: a check's
/// own for CPU, memory and disk; the temperature limits; the failed-unit
/// limits for systemd; the generic defaults for the rest.
pub open spec fn thresholds_of(name: Seq<char>, c: Config) -> CheckThresholds {
    if name == "cpu"@ {
        c.checks.cpu
    } else if name == "memory"@ {
        c.checks.memory
    } else if name == "disk"@ {
        c.checks.disk
    } else if name == "temperature"@ {
        CheckThresholds {
            enabled: c.checks.temperature.enabled,
            interval_secs: c.checks.temperature.interval_secs,
            warning: c.checks.temperature.warning,
            critical: c.checks.temperature.critical,
        }
    } else if name == "systemd"@ {
        CheckThresholds {
            enabled: c.checks.systemd.enabled,
            interval_secs: c.checks.systemd.interval_secs,
            warning: c.checks.systemd.failed_warning,
            critical: c.checks.systemd.failed_critical,
        }
    } else {
        generic_thresholds(30)
    }
}

/// The thresholds the rules engine judges the named check's metrics by.
pub fn thresholds_for(name: &str, config: &Config) -> (r: CheckThresholds)
    ensures
        r == thresholds_of(name@, *config),
{
    let n = chars_of(name);
    if eq_str(&n, "cpu") {
        config.checks.cpu
    } else if eq_str(&n, "memory") {
        config.checks.memory
    } else if eq_str(&n, "disk") {
        config.checks.disk
    } else if eq_str(&n, "temperature") {
        CheckThresholds {
            enabled: config.checks.temperature.enabled,
            interval_secs: config.checks.temperature.interval_secs,
            warning: config.checks.temperature.warning,
            critical: config.checks.temperature.critical,
        }
    } else if eq_str(&n, "systemd") {
        CheckThresholds {
            enabled: config.checks.systemd.enabled,
            interval_secs: config.checks.systemd.interval_secs,
            warning: config.checks.systemd.failed_warning,
            critical: config.checks.systemd.failed_critical,
        }
    } else {
        CheckThresholds::default()
    }
}

} // verus!
