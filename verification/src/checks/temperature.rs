//! Temperature — the thermal zones under `/sys/class/thermal` and the NVMe
//! drives' own sensors under `/sys/class/nvme`, in millidegrees.
use vstd::prelude::*;

use crate::check::{metric, metric_view, texts, CheckResult, ResultView};
use crate::config::TemperatureThresholds;
use crate::lang::{t, Lang};
use crate::numfmt::{fmt_milli, fmt_milli_exec, parse_i64, parse_i64_of, Milli};
use crate::text::{
    chars_of, push_all, push_str, starts_with, starts_with_str, string_of, trim, trim_chars,
};

verus! {

/// One sensor.
#[derive(Debug, Clone)]
pub struct ThermalReading {
    pub label: String,
    /// Degrees Celsius, in thousandths (the kernel's millidegrees).
    pub celsius: Milli,
}

pub open spec fn reading_views(v: Seq<ThermalReading>) -> Seq<(Seq<char>, Milli)> {
    Seq::new(v.len(), |i: int| (v[i].label@, v[i].celsius))
}

/// A sensor file's millidegrees: its trimmed text as an integer.
pub fn parse_millidegrees(text: &str) -> (r: Option<i64>)
    ensures
        r == parse_i64_of(trim(text@)),
{
    parse_i64(&trim_chars(&chars_of(text)))
}

/// A `/sys/class/thermal` entry that is a thermal zone.
pub fn is_thermal_zone(name: &str) -> (b: bool)
    ensures
        b == starts_with(name@, "thermal_zone"@),
{
    starts_with_str(&chars_of(name), "thermal_zone")
}

/// A `/sys/class/nvme` entry that is an NVMe controller.
pub fn is_nvme(name: &str) -> (b: bool)
    ensures
        b == starts_with(name@, "nvme"@),
{
    starts_with_str(&chars_of(name), "nvme")
}

/// A thermal zone's reading: none at or below zero (a sensor that is off);
/// labelled by the zone's `type`, or by the zone's own name without one.
pub fn zone_reading(zone: &str, millis: i64, kind: Option<&str>) -> (r: Option<ThermalReading>)
    ensures
        millis <= 0 ==> r is None,
        millis > 0 ==> (r matches Some(x) && x.celsius == millis && x.label@ == match kind {
            Some(k) => trim(k@),
            None => zone@,
        }),
{
    if millis <= 0 {
        return None;
    }
    let label = match kind {
        Some(k) => string_of(trim_chars(&chars_of(k)).as_slice()),
        None => zone.to_string(),
    };
    Some(ThermalReading { label, celsius: millis })
}

/// An NVMe drive's reading, labelled `NVMe <device>`; none at or below zero.
pub fn nvme_reading(device: &str, millis: i64) -> (r: Option<ThermalReading>)
    ensures
        millis <= 0 ==> r is None,
        millis > 0 ==> (r matches Some(x) && x.celsius == millis && x.label@ == "NVMe "@ + device@),
{
    if millis <= 0 {
        return None;
    }
    let mut label: Vec<char> = Vec::new();
    push_str(&mut label, "NVMe ");
    push_str(&mut label, device);
    Some(ThermalReading { label: string_of(label.as_slice()), celsius: millis })
}

/// The highest reading, and never below zero.
pub open spec fn max_celsius(rs: Seq<(Seq<char>, Milli)>) -> Milli
    decreases rs.len(),
{
    if rs.len() == 0 {
        0
    } else {
        let m = max_celsius(rs.drop_last());
        if rs.last().1 > m {
            rs.last().1
        } else {
            m
        }
    }
}

/// The hottest sensor: the last of equally hot ones.
pub open spec fn hottest_index(rs: Seq<(Seq<char>, Milli)>) -> int
    decreases rs.len(),
{
    if rs.len() <= 1 {
        0
    } else {
        let w = hottest_index(rs.drop_last());
        if rs.last().1 >= rs[w].1 {
            rs.len() - 1
        } else {
            w
        }
    }
}

proof fn lemma_hottest_index(rs: Seq<(Seq<char>, Milli)>)
    requires
        rs.len() > 0,
    ensures
        0 <= hottest_index(rs) < rs.len(),
    decreases rs.len(),
{
    if rs.len() > 1 {
        lemma_hottest_index(rs.drop_last());
    }
}

pub open spec fn sensor_line(r: (Seq<char>, Milli)) -> Seq<char> {
    "  • "@ + r.0 + " : "@ + fmt_milli(r.1 as int, 1) + " °C"@
}

pub open spec fn temperature_result_view(
    rs: Seq<(Seq<char>, Milli)>,
    thresholds: TemperatureThresholds,
    lang: Lang,
) -> ResultView {
    if rs.len() == 0 {
        ResultView {
            check: "temperature"@,
            metrics: seq![
                metric_view(
                    "temp_max_celsius"@,
                    0,
                    "°C"@,
                    Some(thresholds.warning),
                    Some(thresholds.critical),
                ),
            ],
            details: seq![
                match lang {
                    Lang::En => "No temperature sensor detected."@,
                    Lang::Fr => "Aucun capteur de température détecté."@,
                },
                match lang {
                    Lang::En => "Check /sys/class/thermal or install lm-sensors."@,
                    Lang::Fr => "Vérifiez /sys/class/thermal ou installez lm-sensors."@,
                },
            ],
            top: seq![],
            status: Some(
                match lang {
                    Lang::En => "No sensor"@,
                    Lang::Fr => "Aucun capteur"@,
                },
            ),
        }
    } else {
        let max = max_celsius(rs);
        let hottest = rs[hottest_index(rs)].0;
        let shown = fmt_milli(max as int, 1);
        ResultView {
            check: "temperature"@,
            metrics: seq![
                metric_view(
                    "temp_max_celsius"@,
                    max as int,
                    "°C"@,
                    Some(thresholds.warning),
                    Some(thresholds.critical),
                ),
            ],
            details: seq![
                match lang {
                    Lang::En => "Max temperature: "@ + shown + " °C ("@ + hottest + ")"@,
                    Lang::Fr => "Température maximale : "@ + shown + " °C ("@ + hottest + ")"@,
                },
                match lang {
                    Lang::En => "Sensors:"@,
                    Lang::Fr => "Capteurs :"@,
                },
            ] + Seq::new(rs.len(), |i: int| sensor_line(rs[i])),
            top: seq![
                match lang {
                    Lang::En => "Hottest sensor: "@ + hottest + " ("@ + shown + " °C)"@,
                    Lang::Fr => "Capteur le plus chaud : "@ + hottest + " ("@ + shown + " °C)"@,
                },
            ],
            status: Some(fmt_milli(max as int, 0) + "°C"@),
        }
    }
}

/// The report: the hottest sensor sets the metric; every sensor is listed.
/// Without any sensor the metric reads zero and the report says so.
pub fn build_result(
    readings: &Vec<ThermalReading>,
    thresholds: &TemperatureThresholds,
    lang: Lang,
) -> (r: CheckResult)
    ensures
        r@ == temperature_result_view(reading_views(readings@), *thresholds, lang),
{
    let ghost rs = reading_views(readings@);
    if readings.len() == 0 {
        let metrics = vec![
            metric(
                "temp_max_celsius",
                0,
                "°C",
                Some(thresholds.warning),
                Some(thresholds.critical),
            ),
        ];
        let details = vec![
            t(lang, "No temperature sensor detected.", "Aucun capteur de température détecté.").to_string(),
            t(
                lang,
                "Check /sys/class/thermal or install lm-sensors.",
                "Vérifiez /sys/class/thermal ou installez lm-sensors.",
            ).to_string(),
        ];
        let r = CheckResult {
            check_name: "temperature".to_string(),
            metrics,
            details,
            top_processes: Vec::new(),
            status_value: Some(t(lang, "No sensor", "Aucun capteur").to_string()),
        };
        let ghost want = temperature_result_view(rs, *thresholds, lang);
        assert(r@.details =~= want.details);
        assert(r@.metrics =~= want.metrics);
        assert(r@.top =~= want.top);
        return r;
    }
    let mut max: i64 = 0;
    let mut w: usize = 0;
    let mut lines: Vec<String> = Vec::new();
    let mut i: usize = 0;
    while i < readings.len()
        invariant
            i <= readings.len(),
            readings.len() > 0,
            rs == reading_views(readings@),
            max == max_celsius(rs.take(i as int)),
            i > 0 ==> w == hottest_index(rs.take(i as int)),
            w < readings.len(),
            texts(lines@) == Seq::new(i as nat, |k: int| sensor_line(rs[k])),
        decreases readings.len() - i,
    {
        proof {
            assert(rs.take(i + 1).drop_last() =~= rs.take(i as int));
            assert(rs.take(i + 1).last() == rs[i as int]);
            if i > 0 {
                lemma_hottest_index(rs.take(i as int));
                assert(rs.take(i as int)[w as int] == rs[w as int]);
            }
        }
        let c = readings[i].celsius;
        if c > max {
            max = c;
        }
        if i == 0 || c >= readings[w].celsius {
            w = i;
        }
        let mut line: Vec<char> = Vec::new();
        push_str(&mut line, "  • ");
        push_all(&mut line, &chars_of(readings[i].label.as_str()));
        push_str(&mut line, " : ");
        push_all(&mut line, &fmt_milli_exec(c as i128, 1));
        push_str(&mut line, " °C");
        let ghost before = texts(lines@);
        lines.push(string_of(line.as_slice()));
        proof {
            assert(texts(lines@) =~= before.push(line@));
            assert(texts(lines@) =~= Seq::new((i + 1) as nat, |k: int| sensor_line(rs[k])));
        }
        i = i + 1;
    }
    assert(rs.take(readings.len() as int) =~= rs);
    let hottest = chars_of(readings[w].label.as_str());
    let shown = fmt_milli_exec(max as i128, 1);
    let mut head: Vec<char> = Vec::new();
    push_str(&mut head, t(lang, "Max temperature: ", "Température maximale : "));
    push_all(&mut head, &shown);
    push_str(&mut head, " °C (");
    push_all(&mut head, &hottest);
    push_str(&mut head, ")");
    let mut details: Vec<String> = Vec::new();
    details.push(string_of(head.as_slice()));
    details.push(t(lang, "Sensors:", "Capteurs :").to_string());
    let ghost head2 = texts(details@);
    let mut k: usize = 0;
    while k < lines.len()
        invariant
            k <= lines.len(),
            texts(details@) == head2 + texts(lines@).take(k as int),
        decreases lines.len() - k,
    {
        let ghost before = texts(details@);
        details.push(lines[k].clone());
        proof {
            assert(texts(details@) =~= before.push(lines@[k as int]@));
            assert(texts(lines@).take(k + 1) =~= texts(lines@).take(k as int).push(
                lines@[k as int]@,
            ));
        }
        k = k + 1;
    }
    assert(texts(lines@).take(lines.len() as int) =~= texts(lines@));
    let mut top: Vec<char> = Vec::new();
    push_str(&mut top, t(lang, "Hottest sensor: ", "Capteur le plus chaud : "));
    push_all(&mut top, &hottest);
    push_str(&mut top, " (");
    push_all(&mut top, &shown);
    push_str(&mut top, " °C)");
    let mut st: Vec<char> = Vec::new();
    push_all(&mut st, &fmt_milli_exec(max as i128, 0));
    push_str(&mut st, "°C");
    let metrics = vec![
        metric(
            "temp_max_celsius",
            max,
            "°C",
            Some(thresholds.warning),
            Some(thresholds.critical),
        ),
    ];
    let r = CheckResult {
        check_name: "temperature".to_string(),
        metrics,
        details,
        top_processes: vec![string_of(top.as_slice())],
        status_value: Some(string_of(st.as_slice())),
    };
    let ghost want = temperature_result_view(rs, *thresholds, lang);
    assert(r@.details =~= want.details);
    assert(r@.metrics =~= want.metrics);
    assert(r@.top =~= want.top);
    r
}

} // verus!
