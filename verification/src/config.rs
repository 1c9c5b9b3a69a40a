//! The configuration: which checks run, how often, and where their
//! thresholds sit; plus the rules a configuration must satisfy.
//!
//! Every threshold is a [`Milli`]: thousandths of the check's unit
//! (`85 %` is `85_000`, one failed unit is `1_000`).
use vstd::prelude::*;

use crate::lang::Lang;
use crate::numfmt::Milli;
use crate::text::{push_str, string_of};

verus! {

/// The checks Joséphine knows, by name.
#[derive(Debug, Clone, Copy, PartialEq, Eq, Structural)]
pub enum CheckId {
    Cpu,
    Memory,
    Disk,
    Temperature,
    Systemd,
    Updates,
    Network,
    Battery,
    Inode,
    Smart,
    Kernel,
    Filesystem,
    Timesync,
    Security,
}

pub open spec fn check_name_text(id: CheckId) -> Seq<char> {
    match id {
        CheckId::Cpu => "cpu"@,
        CheckId::Memory => "memory"@,
        CheckId::Disk => "disk"@,
        CheckId::Temperature => "temperature"@,
        CheckId::Systemd => "systemd"@,
        CheckId::Updates => "updates"@,
        CheckId::Network => "network"@,
        CheckId::Battery => "battery"@,
        CheckId::Inode => "inode"@,
        CheckId::Smart => "smart"@,
        CheckId::Kernel => "kernel"@,
        CheckId::Filesystem => "filesystem"@,
        CheckId::Timesync => "timesync"@,
        CheckId::Security => "security"@,
    }
}

impl CheckId {
    /// The check's name, as it appears in the configuration and in results.
    pub fn name(self) -> (s: &'static str)
        ensures
            s@ == check_name_text(self),
    {
        match self {
            CheckId::Cpu => "cpu",
            CheckId::Memory => "memory",
            CheckId::Disk => "disk",
            CheckId::Temperature => "temperature",
            CheckId::Systemd => "systemd",
            CheckId::Updates => "updates",
            CheckId::Network => "network",
            CheckId::Battery => "battery",
            CheckId::Inode => "inode",
            CheckId::Smart => "smart",
            CheckId::Kernel => "kernel",
            CheckId::Filesystem => "filesystem",
            CheckId::Timesync => "timesync",
            CheckId::Security => "security",
        }
    }
}

#[derive(Debug, Clone, Copy, PartialEq, Eq, Structural)]
pub struct CheckThresholds {
    pub enabled: bool,
    pub interval_secs: u64,
    pub warning: Milli,
    pub critical: Milli,
}

#[derive(Debug, Clone, Copy, PartialEq, Eq, Structural)]
pub struct TemperatureThresholds {
    pub enabled: bool,
    pub interval_secs: u64,
    pub warning: Milli,
    pub critical: Milli,
}

#[derive(Debug, Clone, Copy, PartialEq, Eq, Structural)]
pub struct SystemdCheckConfig {
    pub enabled: bool,
    pub interval_secs: u64,
    pub failed_warning: Milli,
    pub failed_critical: Milli,
    pub restarts_warning: Milli,
    pub restarts_critical: Milli,
}

#[derive(Debug, Clone, Copy, PartialEq, Eq, Structural)]
pub struct UpdatesCheckConfig {
    pub enabled: bool,
    pub interval_secs: u64,
    pub warning: Milli,
    pub critical: Milli,
}

#[derive(Debug, Clone, Copy, PartialEq, Eq, Structural)]
pub struct NetworkCheckConfig {
    pub enabled: bool,
    pub interval_secs: u64,
    /// Round-trip latency to the default gateway, in milliseconds.
    pub warning: Milli,
    pub critical: Milli,
}

#[derive(Debug, Clone, Copy, PartialEq, Eq, Structural)]
pub struct BatteryCheckConfig {
    pub enabled: bool,
    pub interval_secs: u64,
    /// Charge level (%) at or below which — while on battery — Joséphine warns.
    pub warning: Milli,
    pub critical: Milli,
}

/// SMART disk health. Off by default: `smartctl` typically needs root.
#[derive(Debug, Clone, Copy, PartialEq, Eq, Structural)]
pub struct SmartCheckConfig {
    pub enabled: bool,
    pub interval_secs: u64,
}

#[derive(Debug, Clone, Copy, PartialEq, Eq, Structural)]
pub struct KernelCheckConfig {
    pub enabled: bool,
    pub interval_secs: u64,
    /// Number of kernel incidents (OOM kills, oops…) in the last hour.
    pub warning: Milli,
    pub critical: Milli,
}

/// Read-only remounts: warning = critical = 1 by default (any is critical).
#[derive(Debug, Clone, Copy, PartialEq, Eq, Structural)]
pub struct FilesystemCheckConfig {
    pub enabled: bool,
    pub interval_secs: u64,
    pub warning: Milli,
    pub critical: Milli,
}

/// `clock_unsynced` flag: 0 synced, 1 not; warning 1 and critical 2 keep an
/// unsynchronised clock at attention.
#[derive(Debug, Clone, Copy, PartialEq, Eq, Structural)]
pub struct TimesyncCheckConfig {
    pub enabled: bool,
    pub interval_secs: u64,
    pub warning: Milli,
    pub critical: Milli,
}

#[derive(Debug, Clone, Copy, PartialEq, Eq, Structural)]
pub struct SecurityCheckConfig {
    pub enabled: bool,
    pub interval_secs: u64,
    /// Number of failed authentication attempts in the last hour.
    pub warning: Milli,
    pub critical: Milli,
}

#[derive(Debug, Clone, Copy, PartialEq, Eq, Structural)]
pub struct NotificationsConfig {
    pub desktop: bool,
    pub terminal: bool,
}

#[derive(Debug, Clone, Copy, PartialEq, Eq, Structural)]
pub struct HistoryConfig {
    pub enabled: bool,
    pub retention_days: u32,
}

#[derive(Debug, Clone, Copy, PartialEq, Eq, Structural)]
pub struct ChecksConfig {
    pub cpu: CheckThresholds,
    pub memory: CheckThresholds,
    pub disk: CheckThresholds,
    pub temperature: TemperatureThresholds,
    pub systemd: SystemdCheckConfig,
    pub updates: UpdatesCheckConfig,
    pub network: NetworkCheckConfig,
    pub battery: BatteryCheckConfig,
    pub inode: CheckThresholds,
    pub smart: SmartCheckConfig,
    pub kernel: KernelCheckConfig,
    pub filesystem: FilesystemCheckConfig,
    pub timesync: TimesyncCheckConfig,
    pub security: SecurityCheckConfig,
}

#[derive(Debug, Clone, Copy, PartialEq, Eq, Structural)]
pub struct Config {
    /// Language for all user-facing text: English by default.
    pub language: Lang,
    pub checks: ChecksConfig,
    pub notifications: NotificationsConfig,
    pub history: HistoryConfig,
}

// --- Defaults ----------------------------------------------------------------

pub fn default_true() -> (b: bool)
    ensures
        b,
{
    true
}

pub fn default_interval_30() -> (n: u64)
    ensures
        n == 30,
{
    30
}

pub fn default_interval_60() -> (n: u64)
    ensures
        n == 60,
{
    60
}

pub fn default_interval_120() -> (n: u64)
    ensures
        n == 120,
{
    120
}

pub fn default_interval_300() -> (n: u64)
    ensures
        n == 300,
{
    300
}

pub fn default_interval_3600() -> (n: u64)
    ensures
        n == 3600,
{
    3600
}

pub fn default_filesystem_interval() -> (n: u64)
    ensures
        n == 120,
{
    120
}

pub fn default_timesync_interval() -> (n: u64)
    ensures
        n == 300,
{
    300
}

pub fn default_security_interval() -> (n: u64)
    ensures
        n == 300,
{
    300
}

pub fn default_retention() -> (n: u32)
    ensures
        n == 90,
{
    90
}

pub open spec fn generic_thresholds(interval: u64) -> CheckThresholds {
    CheckThresholds { enabled: true, interval_secs: interval, warning: 85_000, critical: 95_000 }
}

pub open spec fn default_temperature() -> TemperatureThresholds {
    TemperatureThresholds { enabled: true, interval_secs: 60, warning: 75_000, critical: 90_000 }
}

pub open spec fn default_systemd() -> SystemdCheckConfig {
    SystemdCheckConfig {
        enabled: true,
        interval_secs: 120,
        failed_warning: 1_000,
        failed_critical: 3_000,
        restarts_warning: 5_000,
        restarts_critical: 10_000,
    }
}

pub open spec fn default_updates() -> UpdatesCheckConfig {
    UpdatesCheckConfig { enabled: true, interval_secs: 3600, warning: 1_000, critical: 50_000 }
}

pub open spec fn default_network() -> NetworkCheckConfig {
    NetworkCheckConfig { enabled: true, interval_secs: 60, warning: 150_000, critical: 500_000 }
}

pub open spec fn default_battery() -> BatteryCheckConfig {
    BatteryCheckConfig { enabled: true, interval_secs: 120, warning: 20_000, critical: 10_000 }
}

pub open spec fn default_smart() -> SmartCheckConfig {
    SmartCheckConfig { enabled: false, interval_secs: 3600 }
}

pub open spec fn default_kernel() -> KernelCheckConfig {
    KernelCheckConfig { enabled: true, interval_secs: 300, warning: 1_000, critical: 3_000 }
}

pub open spec fn default_filesystem() -> FilesystemCheckConfig {
    FilesystemCheckConfig { enabled: true, interval_secs: 120, warning: 1_000, critical: 1_000 }
}

pub open spec fn default_timesync() -> TimesyncCheckConfig {
    TimesyncCheckConfig { enabled: true, interval_secs: 300, warning: 1_000, critical: 2_000 }
}

pub open spec fn default_security() -> SecurityCheckConfig {
    SecurityCheckConfig { enabled: true, interval_secs: 300, warning: 5_000, critical: 20_000 }
}

pub open spec fn default_notifications() -> NotificationsConfig {
    NotificationsConfig { desktop: true, terminal: false }
}

pub open spec fn default_history() -> HistoryConfig {
    HistoryConfig { enabled: true, retention_days: 90 }
}

pub open spec fn default_checks() -> ChecksConfig {
    ChecksConfig {
        cpu: generic_thresholds(30),
        memory: generic_thresholds(60),
        disk: generic_thresholds(120),
        temperature: default_temperature(),
        systemd: default_systemd(),
        updates: default_updates(),
        network: default_network(),
        battery: default_battery(),
        inode: generic_thresholds(300),
        smart: default_smart(),
        kernel: default_kernel(),
        filesystem: default_filesystem(),
        timesync: default_timesync(),
        security: default_security(),
    }
}

pub open spec fn default_config() -> Config {
    Config {
        language: Lang::En,
        checks: default_checks(),
        notifications: default_notifications(),
        history: default_history(),
    }
}

impl Default for CheckThresholds {
    fn default() -> (r: Self)
        ensures
            r == generic_thresholds(30),
    {
        CheckThresholds { enabled: true, interval_secs: 30, warning: 85_000, critical: 95_000 }
    }
}

impl Default for TemperatureThresholds {
    fn default() -> (r: Self)
        ensures
            r == default_temperature(),
    {
        TemperatureThresholds { enabled: true, interval_secs: 60, warning: 75_000, critical: 90_000 }
    }
}

impl Default for SystemdCheckConfig {
    fn default() -> (r: Self)
        ensures
            r == default_systemd(),
    {
        SystemdCheckConfig {
            enabled: true,
            interval_secs: 120,
            failed_warning: 1_000,
            failed_critical: 3_000,
            restarts_warning: 5_000,
            restarts_critical: 10_000,
        }
    }
}

impl Default for UpdatesCheckConfig {
    fn default() -> (r: Self)
        ensures
            r == default_updates(),
    {
        UpdatesCheckConfig { enabled: true, interval_secs: 3600, warning: 1_000, critical: 50_000 }
    }
}

impl Default for NetworkCheckConfig {
    fn default() -> (r: Self)
        ensures
            r == default_network(),
    {
        NetworkCheckConfig { enabled: true, interval_secs: 60, warning: 150_000, critical: 500_000 }
    }
}

impl Default for BatteryCheckConfig {
    fn default() -> (r: Self)
        ensures
            r == default_battery(),
    {
        BatteryCheckConfig { enabled: true, interval_secs: 120, warning: 20_000, critical: 10_000 }
    }
}

impl Default for SmartCheckConfig {
    fn default() -> (r: Self)
        ensures
            r == default_smart(),
    {
        SmartCheckConfig { enabled: false, interval_secs: 3600 }
    }
}

impl Default for KernelCheckConfig {
    fn default() -> (r: Self)
        ensures
            r == default_kernel(),
    {
        KernelCheckConfig { enabled: true, interval_secs: 300, warning: 1_000, critical: 3_000 }
    }
}

impl Default for FilesystemCheckConfig {
    fn default() -> (r: Self)
        ensures
            r == default_filesystem(),
    {
        FilesystemCheckConfig { enabled: true, interval_secs: 120, warning: 1_000, critical: 1_000 }
    }
}

impl Default for TimesyncCheckConfig {
    fn default() -> (r: Self)
        ensures
            r == default_timesync(),
    {
        TimesyncCheckConfig { enabled: true, interval_secs: 300, warning: 1_000, critical: 2_000 }
    }
}

impl Default for SecurityCheckConfig {
    fn default() -> (r: Self)
        ensures
            r == default_security(),
    {
        SecurityCheckConfig { enabled: true, interval_secs: 300, warning: 5_000, critical: 20_000 }
    }
}

impl Default for NotificationsConfig {
    fn default() -> (r: Self)
        ensures
            r == default_notifications(),
    {
        NotificationsConfig { desktop: true, terminal: false }
    }
}

impl Default for HistoryConfig {
    fn default() -> (r: Self)
        ensures
            r == default_history(),
    {
        HistoryConfig { enabled: true, retention_days: 90 }
    }
}

impl Default for ChecksConfig {
    fn default() -> (r: Self)
        ensures
            r == default_checks(),
    {
        ChecksConfig {
            cpu: CheckThresholds {
                enabled: true,
                interval_secs: 30,
                warning: 85_000,
                critical: 95_000,
            },
            memory: CheckThresholds {
                enabled: true,
                interval_secs: 60,
                warning: 85_000,
                critical: 95_000,
            },
            disk: CheckThresholds {
                enabled: true,
                interval_secs: 120,
                warning: 85_000,
                critical: 95_000,
            },
            temperature: TemperatureThresholds::default(),
            systemd: SystemdCheckConfig::default(),
            updates: UpdatesCheckConfig::default(),
            network: NetworkCheckConfig::default(),
            battery: BatteryCheckConfig::default(),
            inode: CheckThresholds {
                enabled: true,
                interval_secs: 300,
                warning: 85_000,
                critical: 95_000,
            },
            smart: SmartCheckConfig::default(),
            kernel: KernelCheckConfig::default(),
            filesystem: FilesystemCheckConfig::default(),
            timesync: TimesyncCheckConfig::default(),
            security: SecurityCheckConfig::default(),
        }
    }
}

impl Default for Config {
    fn default() -> (r: Self)
        ensures
            r == default_config(),
    {
        Config {
            language: Lang::En,
            checks: ChecksConfig::default(),
            notifications: NotificationsConfig::default(),
            history: HistoryConfig::default(),
        }
    }
}

// --- Validation ---------------------------------------------------------------

/// Why a configuration is refused. Each names the rule that failed first.
#[derive(Debug, Clone, Copy, PartialEq, Eq, Structural)]
pub enum ConfigError {
    /// `checks.<name>.interval_secs` is below five seconds.
    IntervalTooShort(CheckId),
    /// A percentage (or temperature) warning outside its range.
    WarningOutOfRange(CheckId),
    /// A percentage (or temperature) critical outside its range.
    CriticalOutOfRange(CheckId),
    /// The battery's low-water marks are not both between 0 and 100 %.
    BatteryOutOfRange,
    /// A count threshold below one, or a latency that is not positive.
    BelowMinimum(CheckId),
    /// The warning threshold is not below the critical one (not at or below,
    /// for the filesystem check; critical not below warning, for the battery).
    OutOfOrder(CheckId),
    /// `checks.systemd.failed_warning` or `failed_critical` below one.
    FailedBelowMinimum,
    /// `checks.systemd.failed_warning` not below `failed_critical`.
    FailedOutOfOrder,
    /// `checks.systemd.restarts_warning` or `restarts_critical` below one.
    RestartsBelowMinimum,
    /// `checks.systemd.restarts_warning` not below `restarts_critical`.
    RestartsOutOfOrder,
    /// `history.retention_days` is zero.
    RetentionZero,
}

pub open spec fn percent_ok(v: Milli) -> bool {
    0 <= v <= 100_000
}

pub open spec fn thresholds_error(id: CheckId, t: CheckThresholds) -> Option<ConfigError> {
    if t.interval_secs < 5 {
        Some(ConfigError::IntervalTooShort(id))
    } else if !percent_ok(t.warning) {
        Some(ConfigError::WarningOutOfRange(id))
    } else if !percent_ok(t.critical) {
        Some(ConfigError::CriticalOutOfRange(id))
    } else if t.warning >= t.critical {
        Some(ConfigError::OutOfOrder(id))
    } else {
        None
    }
}

pub open spec fn temperature_error(t: TemperatureThresholds) -> Option<ConfigError> {
    let id = CheckId::Temperature;
    if t.interval_secs < 5 {
        Some(ConfigError::IntervalTooShort(id))
    } else if !(20_000 <= t.warning <= 150_000) {
        Some(ConfigError::WarningOutOfRange(id))
    } else if !(20_000 <= t.critical <= 150_000) {
        Some(ConfigError::CriticalOutOfRange(id))
    } else if t.warning >= t.critical {
        Some(ConfigError::OutOfOrder(id))
    } else {
        None
    }
}

pub open spec fn systemd_error(c: SystemdCheckConfig) -> Option<ConfigError> {
    if c.interval_secs < 5 {
        Some(ConfigError::IntervalTooShort(CheckId::Systemd))
    } else if c.failed_warning < 1_000 || c.failed_critical < 1_000 {
        Some(ConfigError::FailedBelowMinimum)
    } else if c.failed_warning >= c.failed_critical {
        Some(ConfigError::FailedOutOfOrder)
    } else if c.restarts_warning < 1_000 || c.restarts_critical < 1_000 {
        Some(ConfigError::RestartsBelowMinimum)
    } else if c.restarts_warning >= c.restarts_critical {
        Some(ConfigError::RestartsOutOfOrder)
    } else {
        None
    }
}

/// The shape shared by the count checks (updates, kernel, timesync,
/// security): at least one, warning strictly below critical.
pub open spec fn count_error(id: CheckId, interval: u64, warning: Milli, critical: Milli) -> Option<
    ConfigError,
> {
    if interval < 5 {
        Some(ConfigError::IntervalTooShort(id))
    } else if warning < 1_000 || critical < 1_000 {
        Some(ConfigError::BelowMinimum(id))
    } else if warning >= critical {
        Some(ConfigError::OutOfOrder(id))
    } else {
        None
    }
}

pub open spec fn network_error(c: NetworkCheckConfig) -> Option<ConfigError> {
    let id = CheckId::Network;
    if c.interval_secs < 5 {
        Some(ConfigError::IntervalTooShort(id))
    } else if c.warning <= 0 || c.critical <= 0 {
        Some(ConfigError::BelowMinimum(id))
    } else if c.warning >= c.critical {
        Some(ConfigError::OutOfOrder(id))
    } else {
        None
    }
}

pub open spec fn battery_error(c: BatteryCheckConfig) -> Option<ConfigError> {
    if c.interval_secs < 5 {
        Some(ConfigError::IntervalTooShort(CheckId::Battery))
    } else if !percent_ok(c.warning) || !percent_ok(c.critical) {
        Some(ConfigError::BatteryOutOfRange)
    } else if c.critical >= c.warning {
        Some(ConfigError::OutOfOrder(CheckId::Battery))
    } else {
        None
    }
}

pub open spec fn filesystem_error(c: FilesystemCheckConfig) -> Option<ConfigError> {
    let id = CheckId::Filesystem;
    if c.interval_secs < 5 {
        Some(ConfigError::IntervalTooShort(id))
    } else if c.warning < 1_000 || c.critical < 1_000 {
        Some(ConfigError::BelowMinimum(id))
    } else if c.warning > c.critical {
        Some(ConfigError::OutOfOrder(id))
    } else {
        None
    }
}

pub open spec fn first_error(a: Option<ConfigError>, b: Option<ConfigError>) -> Option<ConfigError> {
    if a is Some {
        a
    } else {
        b
    }
}

/// The first rule, in the order they are checked, that `c` breaks.
pub open spec fn config_error(c: Config) -> Option<ConfigError> {
    let k = c.checks;
    first_error(
        thresholds_error(CheckId::Cpu, k.cpu),
        first_error(
            thresholds_error(CheckId::Memory, k.memory),
            first_error(
                thresholds_error(CheckId::Disk, k.disk),
                first_error(
                    temperature_error(k.temperature),
                    first_error(
                        systemd_error(k.systemd),
                        first_error(
                            count_error(
                                CheckId::Updates,
                                k.updates.interval_secs,
                                k.updates.warning,
                                k.updates.critical,
                            ),
                            first_error(
                                network_error(k.network),
                                first_error(
                                    battery_error(k.battery),
                                    first_error(
                                        thresholds_error(CheckId::Inode, k.inode),
                                        first_error(
                                            count_error(
                                                CheckId::Kernel,
                                                k.kernel.interval_secs,
                                                k.kernel.warning,
                                                k.kernel.critical,
                                            ),
                                            first_error(
                                                filesystem_error(k.filesystem),
                                                first_error(
                                                    count_error(
                                                        CheckId::Timesync,
                                                        k.timesync.interval_secs,
                                                        k.timesync.warning,
                                                        k.timesync.critical,
                                                    ),
                                                    first_error(
                                                        count_error(
                                                            CheckId::Security,
                                                            k.security.interval_secs,
                                                            k.security.warning,
                                                            k.security.critical,
                                                        ),
                                                        first_error(
                                                            if k.smart.interval_secs < 5 {
                                                                Some(
                                                                    ConfigError::IntervalTooShort(
                                                                        CheckId::Smart,
                                                                    ),
                                                                )
                                                            } else {
                                                                None
                                                            },
                                                            if c.history.retention_days == 0 {
                                                                Some(ConfigError::RetentionZero)
                                                            } else {
                                                                None
                                                            },
                                                        ),
                                                    ),
                                                ),
                                            ),
                                        ),
                                    ),
                                ),
                            ),
                        ),
                    ),
                ),
            ),
        ),
    )
}

pub open spec fn as_result(e: Option<ConfigError>) -> Result<(), ConfigError> {
    match e {
        Some(e) => Err(e),
        None => Ok(()),
    }
}

fn validate_thresholds(id: CheckId, t: &CheckThresholds) -> (r: Result<(), ConfigError>)
    ensures
        r == as_result(thresholds_error(id, *t)),
{
    if t.interval_secs < 5 {
        return Err(ConfigError::IntervalTooShort(id));
    }
    if !(0 <= t.warning && t.warning <= 100_000) {
        return Err(ConfigError::WarningOutOfRange(id));
    }
    if !(0 <= t.critical && t.critical <= 100_000) {
        return Err(ConfigError::CriticalOutOfRange(id));
    }
    if t.warning >= t.critical {
        return Err(ConfigError::OutOfOrder(id));
    }
    Ok(())
}

fn validate_temperature(t: &TemperatureThresholds) -> (r: Result<(), ConfigError>)
    ensures
        r == as_result(temperature_error(*t)),
{
    let id = CheckId::Temperature;
    if t.interval_secs < 5 {
        return Err(ConfigError::IntervalTooShort(id));
    }
    if !(20_000 <= t.warning && t.warning <= 150_000) {
        return Err(ConfigError::WarningOutOfRange(id));
    }
    if !(20_000 <= t.critical && t.critical <= 150_000) {
        return Err(ConfigError::CriticalOutOfRange(id));
    }
    if t.warning >= t.critical {
        return Err(ConfigError::OutOfOrder(id));
    }
    Ok(())
}

fn validate_systemd(c: &SystemdCheckConfig) -> (r: Result<(), ConfigError>)
    ensures
        r == as_result(systemd_error(*c)),
{
    if c.interval_secs < 5 {
        return Err(ConfigError::IntervalTooShort(CheckId::Systemd));
    }
    if c.failed_warning < 1_000 || c.failed_critical < 1_000 {
        return Err(ConfigError::FailedBelowMinimum);
    }
    if c.failed_warning >= c.failed_critical {
        return Err(ConfigError::FailedOutOfOrder);
    }
    if c.restarts_warning < 1_000 || c.restarts_critical < 1_000 {
        return Err(ConfigError::RestartsBelowMinimum);
    }
    if c.restarts_warning >= c.restarts_critical {
        return Err(ConfigError::RestartsOutOfOrder);
    }
    Ok(())
}

fn validate_count(id: CheckId, interval: u64, warning: Milli, critical: Milli) -> (r: Result<
    (),
    ConfigError,
>)
    ensures
        r == as_result(count_error(id, interval, warning, critical)),
{
    if interval < 5 {
        return Err(ConfigError::IntervalTooShort(id));
    }
    if warning < 1_000 || critical < 1_000 {
        return Err(ConfigError::BelowMinimum(id));
    }
    if warning >= critical {
        return Err(ConfigError::OutOfOrder(id));
    }
    Ok(())
}

fn validate_network(c: &NetworkCheckConfig) -> (r: Result<(), ConfigError>)
    ensures
        r == as_result(network_error(*c)),
{
    let id = CheckId::Network;
    if c.interval_secs < 5 {
        return Err(ConfigError::IntervalTooShort(id));
    }
    if c.warning <= 0 || c.critical <= 0 {
        return Err(ConfigError::BelowMinimum(id));
    }
    if c.warning >= c.critical {
        return Err(ConfigError::OutOfOrder(id));
    }
    Ok(())
}

fn validate_battery(c: &BatteryCheckConfig) -> (r: Result<(), ConfigError>)
    ensures
        r == as_result(battery_error(*c)),
{
    if c.interval_secs < 5 {
        return Err(ConfigError::IntervalTooShort(CheckId::Battery));
    }
    if !(0 <= c.warning && c.warning <= 100_000) || !(0 <= c.critical && c.critical <= 100_000) {
        return Err(ConfigError::BatteryOutOfRange);
    }
    if c.critical >= c.warning {
        return Err(ConfigError::OutOfOrder(CheckId::Battery));
    }
    Ok(())
}

fn validate_filesystem(c: &FilesystemCheckConfig) -> (r: Result<(), ConfigError>)
    ensures
        r == as_result(filesystem_error(*c)),
{
    let id = CheckId::Filesystem;
    if c.interval_secs < 5 {
        return Err(ConfigError::IntervalTooShort(id));
    }
    if c.warning < 1_000 || c.critical < 1_000 {
        return Err(ConfigError::BelowMinimum(id));
    }
    if c.warning > c.critical {
        return Err(ConfigError::OutOfOrder(id));
    }
    Ok(())
}

/// A percentage check's thresholds: probed at least every five seconds,
/// warning and critical within 0–100 %, warning strictly below critical.
pub open spec fn percent_rules_hold(t: CheckThresholds) -> bool {
    t.interval_secs >= 5 && 0 <= t.warning && t.warning < t.critical && t.critical <= 100_000
}

/// A count check's thresholds: probed at least every five seconds, warning
/// at least one and strictly below critical.
pub open spec fn count_rules_hold(interval_secs: u64, warning: Milli, critical: Milli) -> bool {
    interval_secs >= 5 && 1_000 <= warning && warning < critical
}

/// Every rule of a configuration, each stated on its own fields.
pub open spec fn config_rules_hold(c: Config) -> bool {
    let k = c.checks;
    &&& percent_rules_hold(k.cpu)
    &&& percent_rules_hold(k.memory)
    &&& percent_rules_hold(k.disk)
    &&& percent_rules_hold(k.inode)
    &&& k.temperature.interval_secs >= 5
    &&& 20_000 <= k.temperature.warning && k.temperature.warning < k.temperature.critical
        && k.temperature.critical <= 150_000
    &&& k.systemd.interval_secs >= 5
    &&& 1_000 <= k.systemd.failed_warning && k.systemd.failed_warning < k.systemd.failed_critical
    &&& 1_000 <= k.systemd.restarts_warning && k.systemd.restarts_warning
        < k.systemd.restarts_critical
    &&& count_rules_hold(k.updates.interval_secs, k.updates.warning, k.updates.critical)
    &&& count_rules_hold(k.kernel.interval_secs, k.kernel.warning, k.kernel.critical)
    &&& count_rules_hold(k.timesync.interval_secs, k.timesync.warning, k.timesync.critical)
    &&& count_rules_hold(k.security.interval_secs, k.security.warning, k.security.critical)
    &&& k.network.interval_secs >= 5 && 0 < k.network.warning && k.network.warning
        < k.network.critical
    &&& k.battery.interval_secs >= 5 && 0 <= k.battery.critical && k.battery.critical
        < k.battery.warning && k.battery.warning <= 100_000
    &&& k.filesystem.interval_secs >= 5 && 1_000 <= k.filesystem.warning && k.filesystem.warning
        <= k.filesystem.critical
    &&& k.smart.interval_secs >= 5
    &&& c.history.retention_days > 0
}

/// A configuration passes validation exactly when every rule holds: in
/// particular, each percentage check (CPU, memory, disk, inodes) has
/// `0 <= warning < critical <= 100 %`.
pub proof fn law_validation_accepts_exactly_the_rules(c: Config)
    ensures
        config_error(c) is None <==> config_rules_hold(c),
        config_error(c) is None ==> c.checks.cpu.warning < c.checks.cpu.critical
            && c.checks.memory.warning < c.checks.memory.critical && c.checks.disk.warning
            < c.checks.disk.critical && c.checks.inode.warning < c.checks.inode.critical,
{
}

/// The first rule broken names its check: with the CPU and memory rules
/// kept, disk thresholds in range and in time but out of order are
/// reported as `OutOfOrder(Disk)`.
pub proof fn law_disk_out_of_order_is_reported(c: Config)
    requires
        percent_rules_hold(c.checks.cpu),
        percent_rules_hold(c.checks.memory),
        c.checks.disk.interval_secs >= 5,
        0 <= c.checks.disk.warning <= 100_000,
        0 <= c.checks.disk.critical <= 100_000,
        c.checks.disk.warning >= c.checks.disk.critical,
    ensures
        config_error(c) == Some(ConfigError::OutOfOrder(CheckId::Disk)),
{
}

impl Config {
    /// Check every rule, in order, and report the first one broken.
    pub fn validate(&self) -> (r: Result<(), ConfigError>)
        ensures
            r == as_result(config_error(*self)),
            r is Ok <==> config_rules_hold(*self),
    {
        proof {
            law_validation_accepts_exactly_the_rules(*self);
        }
        let k = &self.checks;
        validate_thresholds(CheckId::Cpu, &k.cpu)?;
        validate_thresholds(CheckId::Memory, &k.memory)?;
        validate_thresholds(CheckId::Disk, &k.disk)?;
        validate_temperature(&k.temperature)?;
        validate_systemd(&k.systemd)?;
        validate_count(CheckId::Updates, k.updates.interval_secs, k.updates.warning, k.updates.critical)?;
        validate_network(&k.network)?;
        validate_battery(&k.battery)?;
        validate_thresholds(CheckId::Inode, &k.inode)?;
        validate_count(CheckId::Kernel, k.kernel.interval_secs, k.kernel.warning, k.kernel.critical)?;
        validate_filesystem(&k.filesystem)?;
        validate_count(
            CheckId::Timesync,
            k.timesync.interval_secs,
            k.timesync.warning,
            k.timesync.critical,
        )?;
        validate_count(
            CheckId::Security,
            k.security.interval_secs,
            k.security.warning,
            k.security.critical,
        )?;
        if k.smart.interval_secs < 5 {
            return Err(ConfigError::IntervalTooShort(CheckId::Smart));
        }
        if self.history.retention_days == 0 {
            return Err(ConfigError::RetentionZero);
        }
        Ok(())
    }
}

/// The message shown for a refused configuration.
pub open spec fn config_error_text(e: ConfigError) -> Seq<char> {
    match e {
        ConfigError::IntervalTooShort(id) => "checks."@ + check_name_text(id)
            + ".interval_secs must be ≥ 5 seconds"@,
        ConfigError::WarningOutOfRange(id) => if id == CheckId::Temperature {
            "checks.temperature.warning must be between 20 and 150 °C"@
        } else {
            "checks."@ + check_name_text(id) + ".warning must be between 0 and 100"@
        },
        ConfigError::CriticalOutOfRange(id) => if id == CheckId::Temperature {
            "checks.temperature.critical must be between 20 and 150 °C"@
        } else {
            "checks."@ + check_name_text(id) + ".critical must be between 0 and 100"@
        },
        ConfigError::BatteryOutOfRange => "checks.battery.warning and critical must be between 0 and 100 %"@,
        ConfigError::BelowMinimum(id) => if id == CheckId::Network {
            "checks.network.warning and critical must be positive (ms)"@
        } else {
            "checks."@ + check_name_text(id) + ".warning and critical must be ≥ 1"@
        },
        ConfigError::OutOfOrder(id) => if id == CheckId::Battery {
            "checks.battery.critical must be less than warning (low-water marks)"@
        } else if id == CheckId::Filesystem {
            "checks.filesystem.warning must be less than or equal to critical"@
        } else {
            "checks."@ + check_name_text(id) + ".warning must be less than critical"@
        },
        ConfigError::FailedBelowMinimum => "checks.systemd.failed_warning and failed_critical must be ≥ 1"@,
        ConfigError::FailedOutOfOrder => "checks.systemd.failed_warning must be less than failed_critical"@,
        ConfigError::RestartsBelowMinimum => "checks.systemd.restarts_warning and restarts_critical must be ≥ 1"@,
        ConfigError::RestartsOutOfOrder => "checks.systemd.restarts_warning must be less than restarts_critical"@,
        ConfigError::RetentionZero => "history.retention_days must be greater than 0"@,
    }
}

fn check_message(id: CheckId, tail: &str) -> (s: String)
    ensures
        s@ == "checks."@ + check_name_text(id) + tail@,
{
    let mut out: Vec<char> = Vec::new();
    push_str(&mut out, "checks.");
    push_str(&mut out, id.name());
    push_str(&mut out, tail);
    string_of(out.as_slice())
}

impl ConfigError {
    /// The message shown to the user.
    pub fn message(&self) -> (s: String)
        ensures
            s@ == config_error_text(*self),
    {
        match *self {
            ConfigError::IntervalTooShort(id) => check_message(id, ".interval_secs must be ≥ 5 seconds"),
            ConfigError::WarningOutOfRange(id) => {
                if id == CheckId::Temperature {
                    "checks.temperature.warning must be between 20 and 150 °C".to_string()
                } else {
                    check_message(id, ".warning must be between 0 and 100")
                }
            },
            ConfigError::CriticalOutOfRange(id) => {
                if id == CheckId::Temperature {
                    "checks.temperature.critical must be between 20 and 150 °C".to_string()
                } else {
                    check_message(id, ".critical must be between 0 and 100")
                }
            },
            ConfigError::BatteryOutOfRange => "checks.battery.warning and critical must be between 0 and 100 %".to_string(),
            ConfigError::BelowMinimum(id) => {
                if id == CheckId::Network {
                    "checks.network.warning and critical must be positive (ms)".to_string()
                } else {
                    check_message(id, ".warning and critical must be ≥ 1")
                }
            },
            ConfigError::OutOfOrder(id) => {
                if id == CheckId::Battery {
                    "checks.battery.critical must be less than warning (low-water marks)".to_string()
                } else if id == CheckId::Filesystem {
                    "checks.filesystem.warning must be less than or equal to critical".to_string()
                } else {
                    check_message(id, ".warning must be less than critical")
                }
            },
            ConfigError::FailedBelowMinimum => "checks.systemd.failed_warning and failed_critical must be ≥ 1".to_string(),
            ConfigError::FailedOutOfOrder => "checks.systemd.failed_warning must be less than failed_critical".to_string(),
            ConfigError::RestartsBelowMinimum => "checks.systemd.restarts_warning and restarts_critical must be ≥ 1".to_string(),
            ConfigError::RestartsOutOfOrder => "checks.systemd.restarts_warning must be less than restarts_critical".to_string(),
            ConfigError::RetentionZero => "history.retention_days must be greater than 0".to_string(),
        }
    }
}

/// The default configuration satisfies every rule.
pub proof fn default_config_is_valid()
    ensures
        config_error(default_config()) is None,
{
}

} // verus!
