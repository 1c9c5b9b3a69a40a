//! Starter configurations for the kind of machine Joséphine is watching.
//!
//! A profile is a starting point, not a mode: it yields a plain configuration
//! that the user then owns. Nothing reads the profile name afterwards.
use vstd::prelude::*;

use crate::config::{
    config_error, default_config, BatteryCheckConfig, CheckThresholds, ChecksConfig, Config,
    HistoryConfig, NotificationsConfig, SecurityCheckConfig, SystemdCheckConfig,
};
use crate::lang::{t, Lang};
use crate::text::{
    ascii_lowercase, ascii_lowercase_chars, chars_of, eq_str, push_all, push_str, string_of,
    trim, trim_chars,
};

verus! {

/// The kind of machine a starter config is written for.
#[derive(Debug, Clone, Copy, PartialEq, Eq, Structural)]
pub enum Profile {
    /// A personal portable machine: the defaults, battery included.
    Laptop,
    /// A personal machine on mains power: no battery to watch.
    Desktop,
    /// A machine that serves other people: services and storage matter more,
    /// and nobody is sitting in front of it.
    Server,
}

pub open spec fn profile_name(p: Profile) -> Seq<char> {
    match p {
        Profile::Laptop => "laptop"@,
        Profile::Desktop => "desktop"@,
        Profile::Server => "server"@,
    }
}

/// The starter configuration for each kind of machine.
pub open spec fn profile_config(p: Profile) -> Config {
    let d = default_config();
    match p {
        Profile::Laptop => d,
        Profile::Desktop => Config {
            checks: ChecksConfig {
                battery: BatteryCheckConfig { enabled: false, ..d.checks.battery },
                ..d.checks
            },
            ..d
        },
        Profile::Server => Config {
            checks: ChecksConfig {
                battery: BatteryCheckConfig { enabled: false, ..d.checks.battery },
                systemd: SystemdCheckConfig {
                    failed_critical: 2_000,
                    interval_secs: 60,
                    ..d.checks.systemd
                },
                disk: CheckThresholds {
                    warning: 80_000,
                    critical: 90_000,
                    interval_secs: 60,
                    ..d.checks.disk
                },
                inode: CheckThresholds {
                    warning: 80_000,
                    critical: 90_000,
                    interval_secs: 120,
                    ..d.checks.inode
                },
                security: SecurityCheckConfig { interval_secs: 300, ..d.checks.security },
                ..d.checks
            },
            notifications: NotificationsConfig { desktop: false, terminal: true },
            history: HistoryConfig { retention_days: 90, ..d.history },
            ..d
        },
    }
}

/// The profile a user's text names: surrounding whitespace ignored, letters
/// compared without regard to ASCII case.
pub open spec fn profile_from_text(s: Seq<char>) -> Option<Profile> {
    let k = ascii_lowercase(trim(s));
    if k == "laptop"@ {
        Some(Profile::Laptop)
    } else if k == "desktop"@ {
        Some(Profile::Desktop)
    } else if k == "server"@ {
        Some(Profile::Server)
    } else {
        None
    }
}

pub open spec fn unknown_profile_text(lang: Lang, other: Seq<char>) -> Seq<char> {
    match lang {
        Lang::En => "unknown profile `"@ + other + "` — I know laptop, desktop and server"@,
        Lang::Fr => "profil inconnu « "@ + other + " » — je connais laptop, desktop et server"@,
    }
}

impl Profile {
    /// The three kinds of machine.
    pub fn all() -> (v: Vec<Profile>)
        ensures
            v@ == seq![Profile::Laptop, Profile::Desktop, Profile::Server],
    {
        let v = vec![Profile::Laptop, Profile::Desktop, Profile::Server];
        assert(v@ =~= seq![Profile::Laptop, Profile::Desktop, Profile::Server]);
        v
    }

    pub fn name(self) -> (s: &'static str)
        ensures
            s@ == profile_name(self),
    {
        match self {
            Profile::Laptop => "laptop",
            Profile::Desktop => "desktop",
            Profile::Server => "server",
        }
    }

    /// One line, in the user's language, for `--help` and the written file.
    pub fn description(self, lang: Lang) -> (s: &'static str)
        ensures
            s@ == (match (self, lang) {
                (Profile::Laptop, Lang::En) => "A portable machine: battery and temperature watched, the defaults."@,
                (Profile::Laptop, Lang::Fr) => "Une machine portable : batterie et température surveillées, les réglages par défaut."@,
                (Profile::Desktop, Lang::En) => "A machine on mains power: no battery, everything else as usual."@,
                (Profile::Desktop, Lang::Fr) => "Une machine sur secteur : pas de batterie, le reste comme d'habitude."@,
                (Profile::Server, Lang::En) => "A machine that serves others: services and storage watched closely, no battery, no desktop notification."@,
                (Profile::Server, Lang::Fr) => "Une machine qui sert les autres : services et stockage surveillés de près, pas de batterie, pas de notification bureau."@,
            }),
    {
        match self {
            Profile::Laptop => t(
                lang,
                "A portable machine: battery and temperature watched, the defaults.",
                "Une machine portable : batterie et température surveillées, les réglages par défaut.",
            ),
            Profile::Desktop => t(
                lang,
                "A machine on mains power: no battery, everything else as usual.",
                "Une machine sur secteur : pas de batterie, le reste comme d'habitude.",
            ),
            Profile::Server => t(
                lang,
                "A machine that serves others: services and storage watched closely, no battery, no desktop notification.",
                "Une machine qui sert les autres : services et stockage surveillés de près, pas de batterie, pas de notification bureau.",
            ),
        }
    }

    /// The starter configuration for this kind of machine.
    pub fn config(self) -> (c: Config)
        ensures
            c == profile_config(self),
    {
        let mut config = Config::default();
        match self {
            Profile::Laptop => {},
            Profile::Desktop => {
                config.checks.battery.enabled = false;
            },
            Profile::Server => {
                config.checks.battery.enabled = false;
                config.notifications.desktop = false;
                config.notifications.terminal = true;
                config.checks.systemd.failed_critical = 2_000;
                config.checks.systemd.interval_secs = 60;
                config.checks.disk.warning = 80_000;
                config.checks.disk.critical = 90_000;
                config.checks.disk.interval_secs = 60;
                config.checks.inode.warning = 80_000;
                config.checks.inode.critical = 90_000;
                config.checks.inode.interval_secs = 120;
                config.checks.security.interval_secs = 300;
                config.history.retention_days = 90;
            },
        }
        config
    }

    /// Read a profile name; the error explains, in `lang`, what was expected.
    pub fn parse(s: &str, lang: Lang) -> (r: Result<Profile, String>)
        ensures
            profile_from_text(s@) matches Some(p) ==> r == Ok::<Profile, String>(p),
            profile_from_text(s@) is None ==> (r matches Err(e) && e@ == unknown_profile_text(
                lang,
                ascii_lowercase(trim(s@)),
            )),
    {
        let chars = chars_of(s);
        let trimmed = trim_chars(&chars);
        let key = ascii_lowercase_chars(&trimmed);
        if eq_str(&key, "laptop") {
            Ok(Profile::Laptop)
        } else if eq_str(&key, "desktop") {
            Ok(Profile::Desktop)
        } else if eq_str(&key, "server") {
            Ok(Profile::Server)
        } else {
            let mut out: Vec<char> = Vec::new();
            match lang {
                Lang::En => {
                    push_str(&mut out, "unknown profile `");
                    push_all(&mut out, &key);
                    push_str(&mut out, "` — I know laptop, desktop and server");
                },
                Lang::Fr => {
                    push_str(&mut out, "profil inconnu « ");
                    push_all(&mut out, &key);
                    push_str(&mut out, " » — je connais laptop, desktop et server");
                },
            }
            Err(string_of(out.as_slice()))
        }
    }
}

impl std::str::FromStr for Profile {
    type Err = String;

    /// Read a profile name, explaining a refusal in English.
    fn from_str(s: &str) -> (r: Result<Profile, String>)
        ensures
            profile_from_text(s@) matches Some(p) ==> r == Ok::<Profile, String>(p),
            profile_from_text(s@) is None ==> (r matches Err(e) && e@ == unknown_profile_text(
                Lang::En,
                ascii_lowercase(trim(s@)),
            )),
    {
        Profile::parse(s, Lang::En)
    }
}

proof fn lemma_plain_word_reads_back(s: Seq<char>)
    requires
        s.len() > 0,
        forall|i: int| 0 <= i < s.len() ==> 'a' <= #[trigger] s[i] <= 'z',
    ensures
        ascii_lowercase(trim(s)) == s,
{
    crate::text::lemma_prefix_len_at(s, crate::text::ws_pred(), 0);
    assert(s.skip(0) =~= s);
    crate::text::lemma_suffix_ws_len_at(s, 0);
    assert(s.take(s.len() as int) =~= s);
    assert(ascii_lowercase(s) =~= s);
}

/// A profile's name reads back as that profile.
pub proof fn profile_names_round_trip(p: Profile)
    ensures
        profile_from_text(profile_name(p)) == Some(p),
{
    reveal_strlit("laptop");
    reveal_strlit("desktop");
    reveal_strlit("server");
    lemma_plain_word_reads_back(profile_name(p));
    assert("laptop"@[0] != "desktop"@[0]);
    assert("laptop"@[0] != "server"@[0]);
    assert("desktop"@[0] != "server"@[0]);
}

/// Every starter configuration satisfies the configuration rules, so a
/// written preset is never one Joséphine then refuses to start with.
pub proof fn every_profile_is_valid(p: Profile)
    ensures
        config_error(profile_config(p)) is None,
{
}

/// The laptop preset is exactly the defaults; the machines on mains power do
/// not watch a battery; a server watches services and storage more closely
/// and speaks to the journal rather than a desktop.
pub proof fn profile_presets_differ_as_intended()
    ensures
        profile_config(Profile::Laptop) == default_config(),
        !profile_config(Profile::Desktop).checks.battery.enabled,
        !profile_config(Profile::Server).checks.battery.enabled,
        profile_config(Profile::Laptop).checks.battery.enabled,
        profile_config(Profile::Server).checks.disk.warning < default_config().checks.disk.warning,
        profile_config(Profile::Server).checks.inode.warning < default_config().checks.inode.warning,
        profile_config(Profile::Server).checks.systemd.failed_critical
            < default_config().checks.systemd.failed_critical,
        profile_config(Profile::Server).checks.systemd.interval_secs
            < default_config().checks.systemd.interval_secs,
        !profile_config(Profile::Server).notifications.desktop,
        profile_config(Profile::Server).notifications.terminal,
{
}

} // verus!
