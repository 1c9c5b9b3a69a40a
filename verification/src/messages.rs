//! Notification messages, in English (default) and French. Direct, calm,
//! reassuring. Never alarmist.
use vstd::prelude::*;

use crate::check::Metric;
use crate::config::CheckThresholds;
use crate::lang::Lang;
use crate::numfmt::{digits, digits_of, fmt_milli, fmt_milli_exec, Milli};
use crate::rules::AlertState;
use crate::text::{chars_of, contains, eq_str, occurs_at, push_all, push_str, string_of};

verus! {

/// `count as u64` for a count given in thousandths: whole units, truncated,
/// and nothing below zero.
pub open spec fn whole_count(v: int) -> nat {
    if v <= 0 {
        0
    } else {
        (v / 1000) as nat
    }
}

pub open spec fn n0(v: int) -> Seq<char> {
    fmt_milli(v, 0)
}

pub open spec fn cpu_alert_text(value: int, state: AlertState, warning: int, lang: Lang) -> Seq<char> {
    match (state, lang) {
        (AlertState::Critical, Lang::En) => "CPU usage is at "@ + n0(value)
            + "% — critical. Your machine is under heavy load.\n\n`josephine doctor`, now."@,
        (AlertState::Critical, Lang::Fr) => "Le CPU est à "@ + n0(value)
            + " % — critique. Votre machine est sous forte charge.\n\n`josephine doctor`, maintenant."@,
        (AlertState::Warning, Lang::En) => "CPU usage is at "@ + n0(value) + "% (threshold: "@ + n0(
            warning,
        ) + "%). Worth a look.\n\n`josephine doctor`?"@,
        (AlertState::Warning, Lang::Fr) => "Le CPU est à "@ + n0(value) + " % (seuil : "@ + n0(
            warning,
        ) + " %). Ça mérite un coup d'œil.\n\n`josephine doctor` ?"@,
        (AlertState::Normal, _) => seq![],
    }
}

pub open spec fn memory_alert_text(value: int, lang: Lang) -> Seq<char> {
    match lang {
        Lang::En => "Memory is at "@ + n0(value)
            + "% — nearly full.\n\n`josephine doctor` to see what's using it."@,
        Lang::Fr => "La mémoire est à "@ + n0(value)
            + " % — presque pleine.\n\n`josephine doctor` pour voir ce qui l'utilise."@,
    }
}

pub open spec fn swap_alert_text(value: int, lang: Lang) -> Seq<char> {
    match lang {
        Lang::En => "Swap usage is high ("@ + n0(value)
            + "%).\n\n`josephine doctor` for more detail."@,
        Lang::Fr => "L'utilisation du swap est élevée ("@ + n0(value)
            + " %).\n\n`josephine doctor` pour en savoir plus."@,
    }
}

pub open spec fn disk_alert_text(value: int, lang: Lang) -> Seq<char> {
    match lang {
        Lang::En => "Disk usage is at "@ + n0(value)
            + "% — space is running low.\n\nSee what's taking up room: `josephine doctor`."@,
        Lang::Fr => "Le disque est à "@ + n0(value)
            + " % — l'espace se raréfie.\n\nVoyez ce qui prend de la place : `josephine doctor`."@,
    }
}

/// The limit a temperature warning quotes: the metric's critical threshold,
/// else its warning threshold, else the configured critical one.
pub open spec fn temperature_limit(m: Metric, th: CheckThresholds) -> int {
    if m.threshold_critical is Some {
        m.threshold_critical->0 as int
    } else if m.threshold_warning is Some {
        m.threshold_warning->0 as int
    } else {
        th.critical as int
    }
}

pub open spec fn temperature_alert_text(value: int, state: AlertState, limit: int, lang: Lang) -> Seq<
    char,
> {
    match (state, lang) {
        (AlertState::Critical, Lang::En) => n0(value)
            + "°C — critical. Your machine is running very hot.\n\nTake a look: `josephine doctor`."@,
        (AlertState::Critical, Lang::Fr) => n0(value)
            + " °C — critique. Votre machine chauffe fortement.\n\nUn coup d'œil : `josephine doctor`."@,
        (AlertState::Warning, Lang::En) => "Temperature is rising ("@ + n0(value) + "°C, threshold "@
            + n0(limit) + "°C).\n\n`josephine doctor`?"@,
        (AlertState::Warning, Lang::Fr) => "La température monte ("@ + n0(value) + " °C, seuil "@
            + n0(limit) + " °C).\n\n`josephine doctor` ?"@,
        (AlertState::Normal, _) => seq![],
    }
}

pub open spec fn systemd_failed_alert_text(count: int, lang: Lang) -> Seq<char> {
    let n = whole_count(count);
    match lang {
        Lang::En => (if n <= 1 {
            "1 service has stopped"@
        } else {
            digits(n) + " services have stopped"@
        }) + ".\n\nThe list: `josephine doctor`."@,
        Lang::Fr => (if n <= 1 {
            "1 service s'est arrêté"@
        } else {
            digits(n) + " services se sont arrêtés"@
        }) + ".\n\nLa liste : `josephine doctor`."@,
    }
}

pub open spec fn updates_alert_text(count: int, lang: Lang) -> Seq<char> {
    let n = whole_count(count);
    match lang {
        Lang::En => digits(n) + (if n <= 1 {
            " update is waiting for you"@
        } else {
            " updates are waiting for you"@
        }) + ".\n\nThe list: `josephine doctor`."@,
        Lang::Fr => digits(n) + (if n <= 1 {
            " mise à jour vous attend"@
        } else {
            " mises à jour vous attendent"@
        }) + ".\n\nLa liste : `josephine doctor`."@,
    }
}

pub open spec fn network_alert_text(latency: int, lang: Lang) -> Seq<char> {
    match lang {
        Lang::En => "Your network link is unstable ("@ + n0(latency)
            + " ms to the gateway, or no response at all).\n\nCheck the Wi-Fi or the cable: `josephine doctor`."@,
        Lang::Fr => "Le lien réseau est instable ("@ + n0(latency)
            + " ms vers la passerelle, voire aucune réponse).\n\nVérifiez le Wi-Fi ou le câble : `josephine doctor`."@,
    }
}

pub open spec fn battery_alert_text(depletion: int, lang: Lang) -> Seq<char> {
    let charge = 100_000 - depletion;
    match lang {
        Lang::En => "Your battery is down to "@ + n0(charge)
            + "%.\n\nPlug in when you can: `josephine doctor` for the full picture."@,
        Lang::Fr => "Votre batterie descend à "@ + n0(charge)
            + " %.\n\nBranchez-la quand vous pouvez : `josephine doctor` pour le détail."@,
    }
}

pub open spec fn inode_alert_text(percent: int, lang: Lang) -> Seq<char> {
    match lang {
        Lang::En => "Inodes are filling up ("@ + n0(percent)
            + "%) — many small files, even with free space left.\n\n`josephine doctor` to spot the partition."@,
        Lang::Fr => "Les inodes se remplissent ("@ + n0(percent)
            + " %) — de nombreux petits fichiers, même avec de l'espace libre.\n\n`josephine doctor` pour repérer la partition."@,
    }
}

pub open spec fn smart_alert_text(failing: int, lang: Lang) -> Seq<char> {
    let n = whole_count(failing);
    match lang {
        Lang::En => digits(n)
            + " disk(s) are reporting a SMART weakness.\n\nBack up without delay: `josephine doctor` for the details."@,
        Lang::Fr => digits(n)
            + " disque(s) signalent une faiblesse SMART.\n\nSauvegardez sans tarder : `josephine doctor` pour le détail."@,
    }
}

pub open spec fn kernel_alert_text(count: int, lang: Lang) -> Seq<char> {
    let n = whole_count(count);
    match lang {
        Lang::En => digits(n)
            + " kernel incident(s) this hour (OOM, oops…).\n\n`josephine doctor` for more detail."@,
        Lang::Fr => digits(n)
            + " incident(s) noyau cette heure (OOM, oops…).\n\n`josephine doctor` pour en savoir plus."@,
    }
}

pub open spec fn restarts_alert_text(count: int, lang: Lang) -> Seq<char> {
    match lang {
        Lang::En => "A service has restarted "@ + n0(count)
            + " times.\n\n`josephine doctor` to see why."@,
        Lang::Fr => "Un service a redémarré "@ + n0(count)
            + " fois.\n\n`josephine doctor` pour comprendre pourquoi."@,
    }
}

pub open spec fn other_alert_text(check: Seq<char>, value: int, unit: Seq<char>, lang: Lang) -> Seq<
    char,
> {
    match lang {
        Lang::En => check + " is out of range ("@ + fmt_milli(value, 1) + " "@ + unit
            + "). Nothing serious yet — `josephine doctor`?"@,
        Lang::Fr => check + " sort de sa plage ("@ + fmt_milli(value, 1) + " "@ + unit
            + "). Rien de grave pour l'instant — `josephine doctor` ?"@,
    }
}

/// The message for a metric that has just entered `state` (for the CPU and
/// the temperature, never `Normal`).
pub open spec fn alert_text(
    check: Seq<char>,
    m: Metric,
    th: CheckThresholds,
    state: AlertState,
    lang: Lang,
) -> Seq<char> {
    let v = m.value as int;
    if check == "cpu"@ {
        cpu_alert_text(v, state, th.warning as int, lang)
    } else if check == "memory"@ && m.name@ == "swap_percent"@ {
        swap_alert_text(v, lang)
    } else if check == "memory"@ {
        memory_alert_text(v, lang)
    } else if check == "disk"@ {
        disk_alert_text(v, lang)
    } else if check == "temperature"@ {
        temperature_alert_text(v, state, temperature_limit(m, th), lang)
    } else if check == "systemd"@ && m.name@ == "failed_units"@ {
        systemd_failed_alert_text(v, lang)
    } else if check == "systemd"@ {
        restarts_alert_text(v, lang)
    } else if check == "updates"@ {
        updates_alert_text(v, lang)
    } else if check == "network"@ {
        network_alert_text(v, lang)
    } else if check == "battery"@ {
        battery_alert_text(v, lang)
    } else if check == "inode"@ {
        inode_alert_text(v, lang)
    } else if check == "smart"@ {
        smart_alert_text(v, lang)
    } else if check == "kernel"@ {
        kernel_alert_text(v, lang)
    } else {
        other_alert_text(check, v, m.unit@, lang)
    }
}

/// For the battery, whatever the state, the alert quotes the charge left:
/// 100 % minus the depletion the metric carries, in whole percent.
pub proof fn law_battery_alert_quotes_charge_left(
    m: Metric,
    th: CheckThresholds,
    state: AlertState,
    lang: Lang,
)
    ensures
        alert_text("battery"@, m, th, state, lang) == match lang {
            Lang::En => "Your battery is down to "@ + fmt_milli(100_000 - m.value, 0)
                + "%.\n\nPlug in when you can: `josephine doctor` for the full picture."@,
            Lang::Fr => "Votre batterie descend à "@ + fmt_milli(100_000 - m.value, 0)
                + " %.\n\nBranchez-la quand vous pouvez : `josephine doctor` pour le détail."@,
        },
{
    reveal_strlit("battery");
    reveal_strlit("cpu");
    reveal_strlit("memory");
    reveal_strlit("disk");
    reveal_strlit("temperature");
    reveal_strlit("systemd");
    reveal_strlit("updates");
    reveal_strlit("network");
    assert("battery"@[0] != "cpu"@[0]);
    assert("battery"@ != "cpu"@);
    assert("battery"@[0] != "memory"@[0]);
    assert("battery"@ != "memory"@);
    assert("battery"@[0] != "disk"@[0]);
    assert("battery"@ != "disk"@);
    assert("battery"@[0] != "temperature"@[0]);
    assert("battery"@ != "temperature"@);
    assert("battery"@[0] != "systemd"@[0]);
    assert("battery"@ != "systemd"@);
    assert("battery"@[0] != "updates"@[0]);
    assert("battery"@ != "updates"@);
    assert("battery"@[0] != "network"@[0]);
    assert("battery"@ != "network"@);
}

/// The measurement an alert quotes, as it is written: the value in whole
/// units; for the battery, the charge left (100 % minus the depletion); for
/// the counts of stopped services, updates, failing disks and kernel
/// incidents, the whole count (at least one stopped service); for a check
/// that is not built in, the value with one decimal.
pub open spec fn alert_quote(check: Seq<char>, m: Metric) -> Seq<char> {
    let v = m.value as int;
    let n = whole_count(v);
    if check == "cpu"@ || (check == "memory"@ && m.name@ == "swap_percent"@) || check == "memory"@
        || check == "disk"@ || check == "temperature"@ {
        fmt_milli(v, 0)
    } else if check == "systemd"@ && m.name@ == "failed_units"@ {
        if n <= 1 {
            seq!['1']
        } else {
            digits(n)
        }
    } else if check == "systemd"@ {
        fmt_milli(v, 0)
    } else if check == "updates"@ {
        digits(n)
    } else if check == "network"@ {
        fmt_milli(v, 0)
    } else if check == "battery"@ {
        fmt_milli(100_000 - v, 0)
    } else if check == "inode"@ {
        fmt_milli(v, 0)
    } else if check == "smart"@ || check == "kernel"@ {
        digits(n)
    } else {
        fmt_milli(v, 1)
    }
}

proof fn lemma_quote_at_end(a: Seq<char>, q: Seq<char>)
    ensures
        contains(a + q, q),
{
    assert((a + q).subrange(a.len() as int, (a.len() + q.len()) as int) =~= q);
    assert(occurs_at(a + q, q, a.len() as int));
}

proof fn lemma_quote_at_start(q: Seq<char>, b: Seq<char>)
    ensures
        contains(q + b, q),
{
    assert((q + b).subrange(0, q.len() as int) =~= q);
    assert(occurs_at(q + b, q, 0));
}

proof fn lemma_quote_kept(x: Seq<char>, y: Seq<char>, q: Seq<char>)
    requires
        contains(x, q),
    ensures
        contains(x + y, q),
{
    let k = choose|k: int| occurs_at(x, q, k);
    assert((x + y).subrange(k, k + q.len()) =~= x.subrange(k, k + q.len()));
    assert(occurs_at(x + y, q, k));
}

/// `a + q + b` holds `q`.
proof fn lemma_quote_between(a: Seq<char>, q: Seq<char>, b: Seq<char>)
    ensures
        contains(a + q + b, q),
{
    lemma_quote_at_end(a, q);
    lemma_quote_kept(a + q, b, q);
}

/// `q + b` and `q + b + c` hold `q`.
proof fn lemma_quote_leading(q: Seq<char>, b: Seq<char>, c: Seq<char>)
    ensures
        contains(q + b, q),
        contains(q + b + c, q),
{
    lemma_quote_at_start(q, b);
    lemma_quote_kept(q + b, c, q);
}

/// Every alert quotes its measurement (see `alert_quote`): the reader
/// learns the value that set it off, in both languages, whatever the state.
pub proof fn law_alerts_quote_the_measurement(
    check: Seq<char>,
    m: Metric,
    th: CheckThresholds,
    state: AlertState,
    lang: Lang,
)
    requires
        state != AlertState::Normal || (check != "cpu"@ && check != "temperature"@),
    ensures
        contains(alert_text(check, m, th, state, lang), alert_quote(check, m)),
{
    let v = m.value as int;
    let n = whole_count(v);
    let q = alert_quote(check, m);
    if check == "cpu"@ {
        match (state, lang) {
            (AlertState::Critical, Lang::En) => lemma_quote_between("CPU usage is at "@, q,
                "% — critical. Your machine is under heavy load.\n\n`josephine doctor`, now."@),
            (AlertState::Critical, Lang::Fr) => lemma_quote_between("Le CPU est à "@, q,
                " % — critique. Votre machine est sous forte charge.\n\n`josephine doctor`, maintenant."@),
            (AlertState::Warning, Lang::En) => {
                lemma_quote_between("CPU usage is at "@, q, "% (threshold: "@);
                lemma_quote_kept("CPU usage is at "@ + q + "% (threshold: "@, n0(th.warning as int), q);
                lemma_quote_kept("CPU usage is at "@ + q + "% (threshold: "@ + n0(th.warning as int),
                    "%). Worth a look.\n\n`josephine doctor`?"@, q);
            },
            (AlertState::Warning, Lang::Fr) => {
                lemma_quote_between("Le CPU est à "@, q, " % (seuil : "@);
                lemma_quote_kept("Le CPU est à "@ + q + " % (seuil : "@, n0(th.warning as int), q);
                lemma_quote_kept("Le CPU est à "@ + q + " % (seuil : "@ + n0(th.warning as int),
                    " %). Ça mérite un coup d'œil.\n\n`josephine doctor` ?"@, q);
            },
            (AlertState::Normal, _) => {},
        }
    } else if check == "memory"@ && m.name@ == "swap_percent"@ {
        match lang {
            Lang::En => lemma_quote_between("Swap usage is high ("@, q,
                "%).\n\n`josephine doctor` for more detail."@),
            Lang::Fr => lemma_quote_between("L'utilisation du swap est élevée ("@, q,
                " %).\n\n`josephine doctor` pour en savoir plus."@),
        }
    } else if check == "memory"@ {
        match lang {
            Lang::En => lemma_quote_between("Memory is at "@, q,
                "% — nearly full.\n\n`josephine doctor` to see what's using it."@),
            Lang::Fr => lemma_quote_between("La mémoire est à "@, q,
                " % — presque pleine.\n\n`josephine doctor` pour voir ce qui l'utilise."@),
        }
    } else if check == "disk"@ {
        match lang {
            Lang::En => lemma_quote_between("Disk usage is at "@, q,
                "% — space is running low.\n\nSee what's taking up room: `josephine doctor`."@),
            Lang::Fr => lemma_quote_between("Le disque est à "@, q,
                " % — l'espace se raréfie.\n\nVoyez ce qui prend de la place : `josephine doctor`."@),
        }
    } else if check == "temperature"@ {
        let lim = n0(temperature_limit(m, th));
        match (state, lang) {
            (AlertState::Critical, Lang::En) => lemma_quote_at_start(q,
                "°C — critical. Your machine is running very hot.\n\nTake a look: `josephine doctor`."@),
            (AlertState::Critical, Lang::Fr) => lemma_quote_at_start(q,
                " °C — critique. Votre machine chauffe fortement.\n\nUn coup d'œil : `josephine doctor`."@),
            (AlertState::Warning, Lang::En) => {
                lemma_quote_between("Temperature is rising ("@, q, "°C, threshold "@);
                lemma_quote_kept("Temperature is rising ("@ + q + "°C, threshold "@, lim, q);
                lemma_quote_kept("Temperature is rising ("@ + q + "°C, threshold "@ + lim,
                    "°C).\n\n`josephine doctor`?"@, q);
            },
            (AlertState::Warning, Lang::Fr) => {
                lemma_quote_between("La température monte ("@, q, " °C, seuil "@);
                lemma_quote_kept("La température monte ("@ + q + " °C, seuil "@, lim, q);
                lemma_quote_kept("La température monte ("@ + q + " °C, seuil "@ + lim,
                    " °C).\n\n`josephine doctor` ?"@, q);
            },
            (AlertState::Normal, _) => {},
        }
    } else if check == "systemd"@ && m.name@ == "failed_units"@ {
        if n <= 1 {
            reveal_strlit("1 service has stopped");
            reveal_strlit("1 service s'est arrêté");
            match lang {
                Lang::En => {
                    lemma_quote_leading(seq!['1'], "1 service has stopped"@.skip(1),
                        ".\n\nThe list: `josephine doctor`."@);
                    assert(seq!['1'] + "1 service has stopped"@.skip(1) =~= "1 service has stopped"@);
                },
                Lang::Fr => {
                    lemma_quote_leading(seq!['1'], "1 service s'est arrêté"@.skip(1),
                        ".\n\nLa liste : `josephine doctor`."@);
                    assert(seq!['1'] + "1 service s'est arrêté"@.skip(1) =~= "1 service s'est arrêté"@);
                },
            }
        } else {
            match lang {
                Lang::En => lemma_quote_leading(q, " services have stopped"@,
                    ".\n\nThe list: `josephine doctor`."@),
                Lang::Fr => lemma_quote_leading(q, " services se sont arrêtés"@,
                    ".\n\nLa liste : `josephine doctor`."@),
            }
        }
    } else if check == "systemd"@ {
        match lang {
            Lang::En => lemma_quote_between("A service has restarted "@, q,
                " times.\n\n`josephine doctor` to see why."@),
            Lang::Fr => lemma_quote_between("Un service a redémarré "@, q,
                " fois.\n\n`josephine doctor` pour comprendre pourquoi."@),
        }
    } else if check == "updates"@ {
        let tail = match lang {
            Lang::En => ".\n\nThe list: `josephine doctor`."@,
            Lang::Fr => ".\n\nLa liste : `josephine doctor`."@,
        };
        let mid = match lang {
            Lang::En => if n <= 1 {
                " update is waiting for you"@
            } else {
                " updates are waiting for you"@
            },
            Lang::Fr => if n <= 1 {
                " mise à jour vous attend"@
            } else {
                " mises à jour vous attendent"@
            },
        };
        lemma_quote_leading(q, mid, tail);
    } else if check == "network"@ {
        match lang {
            Lang::En => lemma_quote_between("Your network link is unstable ("@, q,
                " ms to the gateway, or no response at all).\n\nCheck the Wi-Fi or the cable: `josephine doctor`."@),
            Lang::Fr => lemma_quote_between("Le lien réseau est instable ("@, q,
                " ms vers la passerelle, voire aucune réponse).\n\nVérifiez le Wi-Fi ou le câble : `josephine doctor`."@),
        }
    } else if check == "battery"@ {
        match lang {
            Lang::En => lemma_quote_between("Your battery is down to "@, q,
                "%.\n\nPlug in when you can: `josephine doctor` for the full picture."@),
            Lang::Fr => lemma_quote_between("Votre batterie descend à "@, q,
                " %.\n\nBranchez-la quand vous pouvez : `josephine doctor` pour le détail."@),
        }
    } else if check == "inode"@ {
        match lang {
            Lang::En => lemma_quote_between("Inodes are filling up ("@, q,
                "%) — many small files, even with free space left.\n\n`josephine doctor` to spot the partition."@),
            Lang::Fr => lemma_quote_between("Les inodes se remplissent ("@, q,
                " %) — de nombreux petits fichiers, même avec de l'espace libre.\n\n`josephine doctor` pour repérer la partition."@),
        }
    } else if check == "smart"@ {
        match lang {
            Lang::En => lemma_quote_at_start(q,
                " disk(s) are reporting a SMART weakness.\n\nBack up without delay: `josephine doctor` for the details."@),
            Lang::Fr => lemma_quote_at_start(q,
                " disque(s) signalent une faiblesse SMART.\n\nSauvegardez sans tarder : `josephine doctor` pour le détail."@),
        }
    } else if check == "kernel"@ {
        match lang {
            Lang::En => lemma_quote_at_start(q,
                " kernel incident(s) this hour (OOM, oops…).\n\n`josephine doctor` for more detail."@),
            Lang::Fr => lemma_quote_at_start(q,
                " incident(s) noyau cette heure (OOM, oops…).\n\n`josephine doctor` pour en savoir plus."@),
        }
    } else {
        let unit = m.unit@;
        match lang {
            Lang::En => {
                lemma_quote_between(check + " is out of range ("@, q, " "@);
                lemma_quote_kept(check + " is out of range ("@ + q + " "@, unit, q);
                lemma_quote_kept(check + " is out of range ("@ + q + " "@ + unit,
                    "). Nothing serious yet — `josephine doctor`?"@, q);
            },
            Lang::Fr => {
                lemma_quote_between(check + " sort de sa plage ("@, q, " "@);
                lemma_quote_kept(check + " sort de sa plage ("@ + q + " "@, unit, q);
                lemma_quote_kept(check + " sort de sa plage ("@ + q + " "@ + unit,
                    "). Rien de grave pour l'instant — `josephine doctor` ?"@, q);
            },
        }
    }
}

pub open spec fn en_fr(lang: Lang, en: Seq<char>, fr: Seq<char>) -> Seq<char> {
    match lang {
        Lang::En => en,
        Lang::Fr => fr,
    }
}

/// The message for a metric that is back to normal.
pub open spec fn recovery_text(check: Seq<char>, m: Metric, lang: Lang) -> Seq<char> {
    let v = m.value as int;
    if check == "cpu"@ {
        en_fr(
            lang,
            "Your processor is breathing again — CPU load is back to normal."@,
            "Votre processeur respire à nouveau — la charge CPU est revenue à la normale."@,
        )
    } else if check == "memory"@ && m.name@ == "swap_percent"@ {
        en_fr(
            lang,
            "Swap is back to normal ("@ + n0(v) + " %)."@,
            "Le swap est revenu à la normale ("@ + n0(v) + " %)."@,
        )
    } else if check == "memory"@ {
        en_fr(
            lang,
            "Memory usage is back to normal ("@ + n0(v) + " %)."@,
            "L'utilisation mémoire est revenue à la normale ("@ + n0(v) + " %)."@,
        )
    } else if check == "disk"@ {
        en_fr(
            lang,
            "Your disk has room again ("@ + n0(v) + " %)."@,
            "Votre disque a de nouveau de la place ("@ + n0(v) + " %)."@,
        )
    } else if check == "temperature"@ {
        en_fr(
            lang,
            "The temperature is coming down ("@ + n0(v) + " °C)."@,
            "La température redescend ("@ + n0(v) + " °C)."@,
        )
    } else if check == "systemd"@ && m.name@ == "failed_units"@ {
        en_fr(
            lang,
            "All your services are back up."@,
            "Tous vos services sont de nouveau opérationnels."@,
        )
    } else if check == "systemd"@ {
        en_fr(
            lang,
            "Restarts have stopped ("@ + n0(v) + "). Stability is back."@,
            "Les redémarrages se sont arrêtés ("@ + n0(v) + "). La stabilité est revenue."@,
        )
    } else if check == "updates"@ {
        en_fr(lang, "Everything is up to date."@, "Tout est à jour."@)
    } else if check == "network"@ {
        en_fr(
            lang,
            "The network is back, stable and steady."@,
            "Le réseau est revenu, stable et fluide."@,
        )
    } else if check == "battery"@ {
        en_fr(
            lang,
            "Your battery is back to a healthy level (or you're plugged in)."@,
            "Votre batterie est revenue à un niveau correct (ou vous êtes branché)."@,
        )
    } else if check == "inode"@ {
        en_fr(
            lang,
            "Inodes have room again on the disk."@,
            "Les inodes ont de nouveau de la place sur le disque."@,
        )
    } else if check == "smart"@ {
        en_fr(
            lang,
            "Your disks look healthy again on the SMART front."@,
            "Vos disques sont de nouveau sains côté SMART."@,
        )
    } else if check == "kernel"@ {
        en_fr(
            lang,
            "No more kernel incidents in the last hour."@,
            "Plus aucun incident noyau sur la dernière heure."@,
        )
    } else {
        en_fr(
            lang,
            check + " is back to normal ("@ + fmt_milli(v, 1) + " "@ + m.unit@ + ")."@,
            check + " est revenu à la normale ("@ + fmt_milli(v, 1) + " "@ + m.unit@ + ")."@,
        )
    }
}

// --- builders ------------------------------------------------------------------

fn push_n0(out: &mut Vec<char>, v: Milli)
    ensures
        final(out)@ == old(out)@ + n0(v as int),
{
    let s = fmt_milli_exec(v as i128, 0);
    push_all(out, &s);
}

fn whole_count_exec(v: Milli) -> (n: u64)
    ensures
        n as nat == whole_count(v as int),
{
    if v <= 0 {
        0
    } else {
        (v / 1000) as u64
    }
}

fn cpu_alert(out: &mut Vec<char>, value: Milli, state: AlertState, warning: Milli, lang: Lang)
    ensures
        final(out)@ == old(out)@ + cpu_alert_text(value as int, state, warning as int, lang),
{
    match (state, lang) {
        (AlertState::Critical, Lang::En) => {
            push_str(out, "CPU usage is at ");
            push_n0(out, value);
            push_str(out, "% — critical. Your machine is under heavy load.\n\n`josephine doctor`, now.");
        },
        (AlertState::Critical, Lang::Fr) => {
            push_str(out, "Le CPU est à ");
            push_n0(out, value);
            push_str(
                out,
                " % — critique. Votre machine est sous forte charge.\n\n`josephine doctor`, maintenant.",
            );
        },
        (AlertState::Warning, Lang::En) => {
            push_str(out, "CPU usage is at ");
            push_n0(out, value);
            push_str(out, "% (threshold: ");
            push_n0(out, warning);
            push_str(out, "%). Worth a look.\n\n`josephine doctor`?");
        },
        (AlertState::Warning, Lang::Fr) => {
            push_str(out, "Le CPU est à ");
            push_n0(out, value);
            push_str(out, " % (seuil : ");
            push_n0(out, warning);
            push_str(out, " %). Ça mérite un coup d'œil.\n\n`josephine doctor` ?");
        },
        (AlertState::Normal, _) => {},
    }
    assert(out@ =~= old(out)@ + cpu_alert_text(value as int, state, warning as int, lang));
}

fn temperature_alert(out: &mut Vec<char>, value: Milli, state: AlertState, limit: Milli, lang: Lang)
    ensures
        final(out)@ == old(out)@ + temperature_alert_text(value as int, state, limit as int, lang),
{
    match (state, lang) {
        (AlertState::Critical, Lang::En) => {
            push_n0(out, value);
            push_str(
                out,
                "°C — critical. Your machine is running very hot.\n\nTake a look: `josephine doctor`.",
            );
        },
        (AlertState::Critical, Lang::Fr) => {
            push_n0(out, value);
            push_str(
                out,
                " °C — critique. Votre machine chauffe fortement.\n\nUn coup d'œil : `josephine doctor`.",
            );
        },
        (AlertState::Warning, Lang::En) => {
            push_str(out, "Temperature is rising (");
            push_n0(out, value);
            push_str(out, "°C, threshold ");
            push_n0(out, limit);
            push_str(out, "°C).\n\n`josephine doctor`?");
        },
        (AlertState::Warning, Lang::Fr) => {
            push_str(out, "La température monte (");
            push_n0(out, value);
            push_str(out, " °C, seuil ");
            push_n0(out, limit);
            push_str(out, " °C).\n\n`josephine doctor` ?");
        },
        (AlertState::Normal, _) => {},
    }
    assert(out@ =~= old(out)@ + temperature_alert_text(value as int, state, limit as int, lang));
}

/// `before` + the value to no decimal + `after`, in either language.
fn value_between(
    out: &mut Vec<char>,
    lang: Lang,
    en_before: &str,
    en_after: &str,
    fr_before: &str,
    fr_after: &str,
    v: Milli,
)
    ensures
        final(out)@ == old(out)@ + en_fr(
            lang,
            en_before@ + n0(v as int) + en_after@,
            fr_before@ + n0(v as int) + fr_after@,
        ),
{
    match lang {
        Lang::En => {
            push_str(out, en_before);
            push_n0(out, v);
            push_str(out, en_after);
        },
        Lang::Fr => {
            push_str(out, fr_before);
            push_n0(out, v);
            push_str(out, fr_after);
        },
    }
    assert(out@ =~= old(out)@ + en_fr(
        lang,
        en_before@ + n0(v as int) + en_after@,
        fr_before@ + n0(v as int) + fr_after@,
    ));
}

fn count_then(out: &mut Vec<char>, n: u64, tail: &str)
    ensures
        final(out)@ == old(out)@ + digits(n as nat) + tail@,
{
    let d = digits_of(n);
    push_all(out, &d);
    push_str(out, tail);
    assert(out@ =~= old(out)@ + digits(n as nat) + tail@);
}

fn push_text(out: &mut Vec<char>, lang: Lang, en: &str, fr: &str)
    ensures
        final(out)@ == old(out)@ + en_fr(lang, en@, fr@),
{
    match lang {
        Lang::En => push_str(out, en),
        Lang::Fr => push_str(out, fr),
    }
}

fn other_alert(out: &mut Vec<char>, check: &Vec<char>, value: Milli, unit: &str, lang: Lang)
    ensures
        final(out)@ == old(out)@ + other_alert_text(check@, value as int, unit@, lang),
{
    push_all(out, check);
    push_text(out, lang, " is out of range (", " sort de sa plage (");
    let v = fmt_milli_exec(value as i128, 1);
    push_all(out, &v);
    push_str(out, " ");
    push_str(out, unit);
    push_text(
        out,
        lang,
        "). Nothing serious yet — `josephine doctor`?",
        "). Rien de grave pour l'instant — `josephine doctor` ?",
    );
    assert(out@ =~= old(out)@ + other_alert_text(check@, value as int, unit@, lang));
}

/// The alert for a metric that has just entered `state`.
pub fn alert_message(
    check_name: &str,
    metric: &Metric,
    thresholds: &CheckThresholds,
    state: AlertState,
    lang: Lang,
) -> (s: String)
    requires
        state != AlertState::Normal || (check_name@ != "cpu"@ && check_name@ != "temperature"@),
    ensures
        s@ == alert_text(check_name@, *metric, *thresholds, state, lang),
{
    let check = chars_of(check_name);
    let name = chars_of(metric.name.as_str());
    let v = metric.value;
    let mut out: Vec<char> = Vec::new();
    if eq_str(&check, "cpu") {
        cpu_alert(&mut out, v, state, thresholds.warning, lang);
    } else if eq_str(&check, "memory") && eq_str(&name, "swap_percent") {
        value_between(
            &mut out,
            lang,
            "Swap usage is high (",
            "%).\n\n`josephine doctor` for more detail.",
            "L'utilisation du swap est élevée (",
            " %).\n\n`josephine doctor` pour en savoir plus.",
            v,
        );
    } else if eq_str(&check, "memory") {
        value_between(
            &mut out,
            lang,
            "Memory is at ",
            "% — nearly full.\n\n`josephine doctor` to see what's using it.",
            "La mémoire est à ",
            " % — presque pleine.\n\n`josephine doctor` pour voir ce qui l'utilise.",
            v,
        );
    } else if eq_str(&check, "disk") {
        value_between(
            &mut out,
            lang,
            "Disk usage is at ",
            "% — space is running low.\n\nSee what's taking up room: `josephine doctor`.",
            "Le disque est à ",
            " % — l'espace se raréfie.\n\nVoyez ce qui prend de la place : `josephine doctor`.",
            v,
        );
    } else if eq_str(&check, "temperature") {
        let limit = match metric.threshold_critical {
            Some(c) => c,
            None => match metric.threshold_warning {
                Some(w) => w,
                None => thresholds.critical,
            },
        };
        temperature_alert(&mut out, v, state, limit, lang);
    } else if eq_str(&check, "systemd") && eq_str(&name, "failed_units") {
        let n = whole_count_exec(v);
        if n <= 1 {
            push_text(&mut out, lang, "1 service has stopped", "1 service s'est arrêté");
        } else {
            match lang {
                Lang::En => count_then(&mut out, n, " services have stopped"),
                Lang::Fr => count_then(&mut out, n, " services se sont arrêtés"),
            }
        }
        push_text(&mut out, lang, ".\n\nThe list: `josephine doctor`.", ".\n\nLa liste : `josephine doctor`.");
    } else if eq_str(&check, "systemd") {
        value_between(
            &mut out,
            lang,
            "A service has restarted ",
            " times.\n\n`josephine doctor` to see why.",
            "Un service a redémarré ",
            " fois.\n\n`josephine doctor` pour comprendre pourquoi.",
            v,
        );
    } else if eq_str(&check, "updates") {
        let n = whole_count_exec(v);
        match (lang, n <= 1) {
            (Lang::En, true) => count_then(&mut out, n, " update is waiting for you"),
            (Lang::En, false) => count_then(&mut out, n, " updates are waiting for you"),
            (Lang::Fr, true) => count_then(&mut out, n, " mise à jour vous attend"),
            (Lang::Fr, false) => count_then(&mut out, n, " mises à jour vous attendent"),
        }
        push_text(&mut out, lang, ".\n\nThe list: `josephine doctor`.", ".\n\nLa liste : `josephine doctor`.");
    } else if eq_str(&check, "network") {
        value_between(
            &mut out,
            lang,
            "Your network link is unstable (",
            " ms to the gateway, or no response at all).\n\nCheck the Wi-Fi or the cable: `josephine doctor`.",
            "Le lien réseau est instable (",
            " ms vers la passerelle, voire aucune réponse).\n\nVérifiez le Wi-Fi ou le câble : `josephine doctor`.",
            v,
        );
    } else if eq_str(&check, "battery") {
        let charge = fmt_milli_exec(100_000i128 - v as i128, 0);
        push_text(&mut out, lang, "Your battery is down to ", "Votre batterie descend à ");
        push_all(&mut out, &charge);
        push_text(
            &mut out,
            lang,
            "%.\n\nPlug in when you can: `josephine doctor` for the full picture.",
            " %.\n\nBranchez-la quand vous pouvez : `josephine doctor` pour le détail.",
        );
    } else if eq_str(&check, "inode") {
        value_between(
            &mut out,
            lang,
            "Inodes are filling up (",
            "%) — many small files, even with free space left.\n\n`josephine doctor` to spot the partition.",
            "Les inodes se remplissent (",
            " %) — de nombreux petits fichiers, même avec de l'espace libre.\n\n`josephine doctor` pour repérer la partition.",
            v,
        );
    } else if eq_str(&check, "smart") {
        let n = whole_count_exec(v);
        match lang {
            Lang::En => count_then(
                &mut out,
                n,
                " disk(s) are reporting a SMART weakness.\n\nBack up without delay: `josephine doctor` for the details.",
            ),
            Lang::Fr => count_then(
                &mut out,
                n,
                " disque(s) signalent une faiblesse SMART.\n\nSauvegardez sans tarder : `josephine doctor` pour le détail.",
            ),
        }
    } else if eq_str(&check, "kernel") {
        let n = whole_count_exec(v);
        match lang {
            Lang::En => count_then(
                &mut out,
                n,
                " kernel incident(s) this hour (OOM, oops…).\n\n`josephine doctor` for more detail.",
            ),
            Lang::Fr => count_then(
                &mut out,
                n,
                " incident(s) noyau cette heure (OOM, oops…).\n\n`josephine doctor` pour en savoir plus.",
            ),
        }
    } else {
        other_alert(&mut out, &check, v, metric.unit.as_str(), lang);
    }
    string_of(out.as_slice())
}

/// The message for a metric that is back to normal.
pub fn recovery_message(check_name: &str, metric: &Metric, lang: Lang) -> (s: String)
    ensures
        s@ == recovery_text(check_name@, *metric, lang),
{
    let check = chars_of(check_name);
    let name = chars_of(metric.name.as_str());
    let v = metric.value;
    let mut out: Vec<char> = Vec::new();
    if eq_str(&check, "cpu") {
        push_text(
            &mut out,
            lang,
            "Your processor is breathing again — CPU load is back to normal.",
            "Votre processeur respire à nouveau — la charge CPU est revenue à la normale.",
        );
    } else if eq_str(&check, "memory") && eq_str(&name, "swap_percent") {
        value_between(
            &mut out,
            lang,
            "Swap is back to normal (",
            " %).",
            "Le swap est revenu à la normale (",
            " %).",
            v,
        );
    } else if eq_str(&check, "memory") {
        value_between(
            &mut out,
            lang,
            "Memory usage is back to normal (",
            " %).",
            "L'utilisation mémoire est revenue à la normale (",
            " %).",
            v,
        );
    } else if eq_str(&check, "disk") {
        value_between(
            &mut out,
            lang,
            "Your disk has room again (",
            " %).",
            "Votre disque a de nouveau de la place (",
            " %).",
            v,
        );
    } else if eq_str(&check, "temperature") {
        value_between(
            &mut out,
            lang,
            "The temperature is coming down (",
            " °C).",
            "La température redescend (",
            " °C).",
            v,
        );
    } else if eq_str(&check, "systemd") && eq_str(&name, "failed_units") {
        push_text(
            &mut out,
            lang,
            "All your services are back up.",
            "Tous vos services sont de nouveau opérationnels.",
        );
    } else if eq_str(&check, "systemd") {
        value_between(
            &mut out,
            lang,
            "Restarts have stopped (",
            "). Stability is back.",
            "Les redémarrages se sont arrêtés (",
            "). La stabilité est revenue.",
            v,
        );
    } else if eq_str(&check, "updates") {
        push_text(&mut out, lang, "Everything is up to date.", "Tout est à jour.");
    } else if eq_str(&check, "network") {
        push_text(
            &mut out,
            lang,
            "The network is back, stable and steady.",
            "Le réseau est revenu, stable et fluide.",
        );
    } else if eq_str(&check, "battery") {
        push_text(
            &mut out,
            lang,
            "Your battery is back to a healthy level (or you're plugged in).",
            "Votre batterie est revenue à un niveau correct (ou vous êtes branché).",
        );
    } else if eq_str(&check, "inode") {
        push_text(
            &mut out,
            lang,
            "Inodes have room again on the disk.",
            "Les inodes ont de nouveau de la place sur le disque.",
        );
    } else if eq_str(&check, "smart") {
        push_text(
            &mut out,
            lang,
            "Your disks look healthy again on the SMART front.",
            "Vos disques sont de nouveau sains côté SMART.",
        );
    } else if eq_str(&check, "kernel") {
        push_text(
            &mut out,
            lang,
            "No more kernel incidents in the last hour.",
            "Plus aucun incident noyau sur la dernière heure.",
        );
    } else {
        push_all(&mut out, &check);
        push_text(&mut out, lang, " is back to normal (", " est revenu à la normale (");
        let f = fmt_milli_exec(v as i128, 1);
        push_all(&mut out, &f);
        push_str(&mut out, " ");
        push_str(&mut out, metric.unit.as_str());
        push_str(&mut out, ").");
    }
    string_of(out.as_slice())
}

// --- Self-update (`josephine update`) ---------------------------------------

fn sandwich(before: &str, middle: &str, after: &str) -> (s: String)
    ensures
        s@ == before@ + middle@ + after@,
{
    let mut out: Vec<char> = Vec::new();
    push_str(&mut out, before);
    push_str(&mut out, middle);
    push_str(&mut out, after);
    string_of(out.as_slice())
}

pub fn update_up_to_date(version: &str, lang: Lang) -> (s: String)
    ensures
        s@ == en_fr(
            lang,
            "You're already on the latest version ("@ + version@ + ")."@,
            "Vous avez déjà la dernière version ("@ + version@ + ")."@,
        ),
{
    match lang {
        Lang::En => sandwich("You're already on the latest version (", version, ")."),
        Lang::Fr => sandwich("Vous avez déjà la dernière version (", version, ")."),
    }
}

pub fn update_ahead(current: &str, latest: &str, lang: Lang) -> (s: String)
    ensures
        s@ == en_fr(
            lang,
            "Your version ("@ + current@ + ") is ahead of the latest published one ("@ + latest@
                + ")."@,
            "Votre version ("@ + current@ + ") devance la dernière publiée ("@ + latest@ + ")."@,
        ),
{
    let mut out: Vec<char> = Vec::new();
    push_text(&mut out, lang, "Your version (", "Votre version (");
    push_str(&mut out, current);
    push_text(
        &mut out,
        lang,
        ") is ahead of the latest published one (",
        ") devance la dernière publiée (",
    );
    push_str(&mut out, latest);
    push_str(&mut out, ").");
    proof {
        match lang {
            Lang::En => {},
            Lang::Fr => {},
        }
    }
    assert(out@ =~= en_fr(
        lang,
        "Your version ("@ + current@ + ") is ahead of the latest published one ("@ + latest@
            + ")."@,
        "Votre version ("@ + current@ + ") devance la dernière publiée ("@ + latest@ + ")."@,
    ));
    string_of(out.as_slice())
}

pub fn update_available(version: &str, lang: Lang) -> (s: String)
    ensures
        s@ == en_fr(
            lang,
            "A new version is available: "@ + version@ + "."@,
            "Une nouvelle version est disponible : "@ + version@ + "."@,
        ),
{
    match lang {
        Lang::En => sandwich("A new version is available: ", version, "."),
        Lang::Fr => sandwich("Une nouvelle version est disponible : ", version, "."),
    }
}

pub fn update_done(version: &str, lang: Lang) -> (s: String)
    ensures
        s@ == en_fr(
            lang,
            "Update complete — Joséphine is now on "@ + version@ + "."@,
            "Mise à jour terminée — Joséphine est maintenant en version "@ + version@ + "."@,
        ),
{
    match lang {
        Lang::En => sandwich("Update complete — Joséphine is now on ", version, "."),
        Lang::Fr => sandwich("Mise à jour terminée — Joséphine est maintenant en version ", version, "."),
    }
}

} // verus!
