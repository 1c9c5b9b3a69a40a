//! Battery — read from `/sys/class/power_supply`. Unlike the other checks,
//! *low* is bad, so the severity rides on an inverted "depletion" metric that
//! only rises while actually discharging (no false alarms while plugged in).
//! Desktops simply report that there is no battery.
use vstd::prelude::*;

use crate::check::{metric, metric_view, severity_of, CheckResult, ResultView, Severity};
use crate::config::BatteryCheckConfig;
use crate::lang::{t, Lang};
use crate::numfmt::{
    decimal_milli_of, fmt_milli, fmt_milli_exec, fmt_ratio, fmt_ratio_exec, parse_decimal_milli,
    Milli,
};
use crate::text::{
    ascii_lowercase, ascii_lowercase_chars, chars_of, eq_str, push_all, push_str, string_of, trim,
    trim_chars,
};

verus! {

/// The battery's full charge against its design capacity, in the same unit
/// (energy or charge), thousandths of it. [`health_from`] only gives one with
/// a positive design capacity, and a report shows the health only then.
#[derive(Debug, Clone, Copy)]
pub struct Health {
    pub full: Milli,
    pub design: Milli,
}

/// One battery as the kernel reports it.
#[derive(Debug, Clone)]
pub struct BatteryReading {
    pub name: String,
    /// Charge level, in thousandths of a percent.
    pub capacity: Milli,
    pub status: String,
    /// Current full charge against the design capacity, when exposed.
    pub health: Option<Health>,
}

/// What a reading says, as plain values.
pub struct BatteryView {
    pub name: Seq<char>,
    pub capacity: Milli,
    pub status: Seq<char>,
    pub health: Option<Health>,
}

pub open spec fn battery_views(v: Seq<BatteryReading>) -> Seq<BatteryView> {
    Seq::new(
        v.len(),
        |i: int|
            BatteryView {
                name: v[i].name@,
                capacity: v[i].capacity,
                status: v[i].status@,
                health: v[i].health,
            },
    )
}

/// A number read from a sysfs file: its trimmed text as a decimal.
pub fn read_number(text: &str) -> (r: Option<Milli>)
    ensures
        r == decimal_milli_of(trim(text@)),
{
    parse_decimal_milli(&trim_chars(&chars_of(text)))
}

/// The health a pair of readings gives: both must read as numbers and the
/// design capacity must be positive.
pub open spec fn health_of(full: Option<Seq<char>>, design: Option<Seq<char>>) -> Option<Health> {
    match (full, design) {
        (Some(f), Some(d)) => match (decimal_milli_of(trim(f)), decimal_milli_of(trim(d))) {
            (Some(fv), Some(dv)) => if dv > 0 {
                Some(Health { full: fv, design: dv })
            } else {
                None
            },
            _ => None,
        },
        _ => None,
    }
}

/// The health from the `*_full` and `*_full_design` files' contents.
pub fn health_from(full: Option<&str>, design: Option<&str>) -> (r: Option<Health>)
    ensures
        r == health_of(
            match full {
                Some(f) => Some(f@),
                None => None,
            },
            match design {
                Some(d) => Some(d@),
                None => None,
            },
        ),
{
    match (full, design) {
        (Some(f), Some(d)) => match (read_number(f), read_number(d)) {
            (Some(fv), Some(dv)) => if dv > 0 {
                Some(Health { full: fv, design: dv })
            } else {
                None
            },
            _ => None,
        },
        _ => None,
    }
}

/// The reading a `power_supply` entry gives: only an entry of type
/// `Battery` whose capacity reads as a number; a missing status reads as
/// `Unknown`.
pub open spec fn battery_of(
    name: Seq<char>,
    kind: Option<Seq<char>>,
    capacity: Option<Seq<char>>,
    status: Option<Seq<char>>,
    health: Option<Health>,
) -> Option<BatteryView> {
    match (kind, capacity) {
        (Some(k), Some(c)) => if trim(k) == "Battery"@ {
            match decimal_milli_of(trim(c)) {
                Some(cap) => Some(
                    BatteryView {
                        name,
                        capacity: cap,
                        status: match status {
                            Some(s) => trim(s),
                            None => "Unknown"@,
                        },
                        health,
                    },
                ),
                None => None,
            }
        } else {
            None
        },
        _ => None,
    }
}

pub open spec fn opt_view(s: Option<&str>) -> Option<Seq<char>> {
    match s {
        Some(x) => Some(x@),
        None => None,
    }
}

/// A battery from the contents of a `power_supply` entry's `type`,
/// `capacity` and `status` files.
pub fn battery_from(
    name: &str,
    kind: Option<&str>,
    capacity: Option<&str>,
    status: Option<&str>,
    health: Option<Health>,
) -> (r: Option<BatteryReading>)
    ensures
        r is Some <==> battery_of(
            name@,
            opt_view(kind),
            opt_view(capacity),
            opt_view(status),
            health,
        ) is Some,
        r matches Some(b) ==> battery_of(
            name@,
            opt_view(kind),
            opt_view(capacity),
            opt_view(status),
            health,
        ) == Some(
            BatteryView { name: b.name@, capacity: b.capacity, status: b.status@, health: b.health },
        ),
{
    match (kind, capacity) {
        (Some(k), Some(c)) => {
            if !eq_str(&trim_chars(&chars_of(k)), "Battery") {
                return None;
            }
            match read_number(c) {
                Some(cap) => {
                    let st = match status {
                        Some(s) => string_of(trim_chars(&chars_of(s)).as_slice()),
                        None => "Unknown".to_string(),
                    };
                    Some(
                        BatteryReading {
                            name: name.to_string(),
                            capacity: cap,
                            status: st,
                            health,
                        },
                    )
                },
                None => None,
            }
        },
        _ => None,
    }
}

/// The kernel's battery status, in French.
pub open spec fn state_text(status: Seq<char>) -> Seq<char> {
    let s = trim(status);
    if s == "Charging"@ {
        "en charge"@
    } else if s == "Discharging"@ {
        "sur batterie"@
    } else if s == "Full"@ {
        "pleine"@
    } else if s == "Not charging"@ {
        "branchée"@
    } else {
        "état inconnu"@
    }
}

/// Translate the kernel's battery status.
pub fn translate_status(status: &str) -> (r: &'static str)
    ensures
        r@ == state_text(status@),
{
    let s = trim_chars(&chars_of(status));
    if eq_str(&s, "Charging") {
        "en charge"
    } else if eq_str(&s, "Discharging") {
        "sur batterie"
    } else if eq_str(&s, "Full") {
        "pleine"
    } else if eq_str(&s, "Not charging") {
        "branchée"
    } else {
        "état inconnu"
    }
}

/// The battery that drives the report: the least charged, the first of
/// equally charged ones.
pub open spec fn lowest_index(bs: Seq<BatteryView>) -> int
    decreases bs.len(),
{
    if bs.len() <= 1 {
        0
    } else {
        let w = lowest_index(bs.drop_last());
        if bs.last().capacity < bs[w].capacity {
            bs.len() - 1
        } else {
            w
        }
    }
}

proof fn lemma_lowest_index(bs: Seq<BatteryView>)
    requires
        bs.len() > 0,
    ensures
        0 <= lowest_index(bs) < bs.len(),
        forall|i: int| 0 <= i < bs.len() ==> bs[lowest_index(bs)].capacity <= #[trigger] bs[i].capacity,
    decreases bs.len(),
{
    if bs.len() > 1 {
        lemma_lowest_index(bs.drop_last());
        assert forall|i: int| 0 <= i < bs.len() implies bs[lowest_index(bs)].capacity
            <= #[trigger] bs[i].capacity by {
            if i < bs.len() - 1 {
                assert(bs[i] == bs.drop_last()[i]);
            }
        }
    }
}

/// `x`, held to the range of a `Milli`.
pub open spec fn clamp(x: int) -> Milli {
    if x > i64::MAX {
        i64::MAX
    } else if x < i64::MIN {
        i64::MIN
    } else {
        x as Milli
    }
}

fn hundred_minus(x: Milli) -> (r: Milli)
    ensures
        r == clamp(100_000 - x),
{
    let v: i128 = 100_000i128 - x as i128;
    if v > 9_223_372_036_854_775_807i128 {
        9_223_372_036_854_775_807
    } else {
        v as i64
    }
}

/// Whether the battery is running down (`Discharging`, in any case).
pub open spec fn is_discharging(status: Seq<char>) -> bool {
    ascii_lowercase(status) == "discharging"@
}

/// The health as a percentage of the design capacity, capped at 100, to the
/// nearest whole percent.
pub open spec fn health_text(h: Health) -> Seq<char>
    recommends
        h.design > 0,
{
    let f: int = if h.full <= h.design {
        h.full as int
    } else {
        h.design as int
    };
    fmt_ratio(f * 100, h.design as nat, 0)
}

/// The health line, when the health is known.
pub open spec fn health_lines(health: Option<Health>, lang: Lang) -> Seq<Seq<char>> {
    match health {
        Some(h) => if h.design > 0 {
            seq![
                match lang {
                    Lang::En => "Health: "@ + health_text(h) + " % of design capacity"@,
                    Lang::Fr => "Santé : "@ + health_text(h) + " % de la capacité d'origine"@,
                },
            ]
        } else {
            seq![]
        },
        None => seq![],
    }
}

pub open spec fn battery_result_view(bs: Seq<BatteryView>, config: BatteryCheckConfig, lang: Lang) -> ResultView {
    if bs.len() == 0 {
        ResultView {
            check: "battery"@,
            metrics: seq![],
            details: seq!["Aucune batterie détectée (poste fixe ?)."@],
            top: seq![],
            status: Some("Pas de batterie"@),
        }
    } else {
        let b = bs[lowest_index(bs)];
        let state = state_text(b.status);
        let level = fmt_milli(b.capacity as int, 0);
        ResultView {
            check: "battery"@,
            metrics: seq![
                metric_view("charge_percent"@, b.capacity as int, "%"@, None, None),
                metric_view(
                    "battery_depletion_percent"@,
                    if is_discharging(b.status) {
                        clamp(100_000 - b.capacity) as int
                    } else {
                        0
                    },
                    "%"@,
                    Some(clamp(100_000 - config.warning)),
                    Some(clamp(100_000 - config.critical)),
                ),
            ],
            details: seq![b.name + " : "@ + level + " % — "@ + state] + health_lines(b.health, lang),
            top: seq![],
            status: Some(level + " % ("@ + state + ")"@),
        }
    }
}

/// The report: the least charged battery's level, informational only, and
/// its depletion (`100 − level` while discharging, `0` otherwise), which
/// carries the severity and is always present so that plugging the machine
/// back in reads as a recovery.
pub fn build_result(batteries: &Vec<BatteryReading>, config: &BatteryCheckConfig, lang: Lang) -> (r:
    CheckResult)
    ensures
        r@ == battery_result_view(battery_views(batteries@), *config, lang),
{
    let ghost bs = battery_views(batteries@);
    if batteries.len() == 0 {
        let r = CheckResult {
            check_name: "battery".to_string(),
            metrics: Vec::new(),
            details: vec!["Aucune batterie détectée (poste fixe ?).".to_string()],
            top_processes: Vec::new(),
            status_value: Some("Pas de batterie".to_string()),
        };
        let ghost want = battery_result_view(bs, *config, lang);
        assert(r@.details =~= want.details);
        assert(r@.metrics =~= want.metrics);
        assert(r@.top =~= want.top);
        return r;
    }
    let mut w: usize = 0;
    let mut i: usize = 1;
    while i < batteries.len()
        invariant
            1 <= i <= batteries.len(),
            bs == battery_views(batteries@),
            w == lowest_index(bs.take(i as int)),
            w < i,
        decreases batteries.len() - i,
    {
        proof {
            assert(bs.take(i + 1).drop_last() =~= bs.take(i as int));
            assert(bs.take(i + 1).last() == bs[i as int]);
            lemma_lowest_index(bs.take(i as int));
            assert(bs.take(i as int)[w as int] == bs[w as int]);
        }
        if batteries[i].capacity < batteries[w].capacity {
            w = i;
        }
        i = i + 1;
    }
    assert(bs.take(batteries.len() as int) =~= bs);
    let b = &batteries[w];
    let lower = ascii_lowercase_chars(&chars_of(b.status.as_str()));
    let discharging = eq_str(&lower, "discharging");
    let state = translate_status(b.status.as_str());
    let level = fmt_milli_exec(b.capacity as i128, 0);
    let depletion = if discharging {
        hundred_minus(b.capacity)
    } else {
        0
    };
    let metrics = vec![
        metric("charge_percent", b.capacity, "%", None, None),
        metric(
            "battery_depletion_percent",
            depletion,
            "%",
            Some(hundred_minus(config.warning)),
            Some(hundred_minus(config.critical)),
        ),
    ];
    let mut first: Vec<char> = Vec::new();
    push_all(&mut first, &chars_of(b.name.as_str()));
    push_str(&mut first, " : ");
    push_all(&mut first, &level);
    push_str(&mut first, " % — ");
    push_str(&mut first, state);
    let mut details: Vec<String> = Vec::new();
    details.push(string_of(first.as_slice()));
    proof {
        assert(bs[w as int].name == b.name@);
        assert(bs[w as int].health == b.health);
        assert(first@ == bs[w as int].name + " : "@ + fmt_milli(b.capacity as int, 0) + " % — "@
            + state_text(bs[w as int].status));
    }
    let ghost head = crate::check::texts(details@);
    assert(head =~= seq![first@]);
    match b.health {
        Some(h) if h.design > 0 => {
            let f: i128 = if h.full <= h.design {
                h.full as i128
            } else {
                h.design as i128
            };
            let pct = fmt_ratio_exec(f * 100, h.design as u64, 0);
            let mut line: Vec<char> = Vec::new();
            push_str(&mut line, t(lang, "Health: ", "Santé : "));
            push_all(&mut line, &pct);
            push_str(&mut line, t(lang, " % of design capacity", " % de la capacité d'origine"));
            details.push(string_of(line.as_slice()));
            assert(pct@ == health_text(h));
            assert(line@ == match lang {
                Lang::En => "Health: "@ + health_text(h) + " % of design capacity"@,
                Lang::Fr => "Santé : "@ + health_text(h) + " % de la capacité d'origine"@,
            });
            assert(crate::check::texts(details@) =~= head.push(line@));
            assert(crate::check::texts(details@) =~= head + health_lines(b.health, lang));
        },
        _ => {
            assert(crate::check::texts(details@) =~= head + health_lines(b.health, lang));
        },
    }
    let mut st: Vec<char> = Vec::new();
    push_all(&mut st, &level);
    push_str(&mut st, " % (");
    push_str(&mut st, state);
    push_str(&mut st, ")");
    let r = CheckResult {
        check_name: "battery".to_string(),
        metrics,
        details,
        top_processes: Vec::new(),
        status_value: Some(string_of(st.as_slice())),
    };
    let ghost want = battery_result_view(bs, *config, lang);
    assert(r@.details =~= want.details);
    assert(r@.metrics =~= want.metrics);
    assert(r@.top =~= want.top);
    r
}

/// A battery that is not discharging never raises an alert: with thresholds
/// below a full charge, every metric of its report is informational.
pub proof fn law_plugged_in_never_alarms(bs: Seq<BatteryView>, config: BatteryCheckConfig, lang: Lang)
    requires
        bs.len() > 0,
        !is_discharging(bs[lowest_index(bs)].status),
        config.warning < 100_000,
        config.critical < 100_000,
    ensures
        forall|i: int|
            0 <= i < battery_result_view(bs, config, lang).metrics.len() ==> severity_of(
                #[trigger] battery_result_view(bs, config, lang).metrics[i].value,
                battery_result_view(bs, config, lang).metrics[i].warning,
                battery_result_view(bs, config, lang).metrics[i].critical,
            ) == Severity::Info,
{
    let ms = battery_result_view(bs, config, lang).metrics;
    assert(ms.len() == 2);
    assert(severity_of(ms[0].value, ms[0].warning, ms[0].critical) == Severity::Info);
    assert(severity_of(ms[1].value, ms[1].warning, ms[1].critical) == Severity::Info);
}

} // verus!
