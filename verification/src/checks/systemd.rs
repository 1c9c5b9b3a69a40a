//! systemd services — failed units, and the restart count of the busiest
//! running service.
use vstd::prelude::*;

use crate::check::{count_milli, count_to_milli, metric, metric_view, texts, CheckResult, ResultView};
use crate::config::SystemdCheckConfig;
use crate::source::{opt_text, Commands};
use crate::numfmt::{digits, digits_of, parse_u64, parse_u64_of};
use crate::text::{
    chars_of, eq_str, lines, push_all, push_str, split_lines, split_words, string_of, strs_view,
    trim, trim_chars, views, words,
};

verus! {

/// What `systemctl` reported.
#[derive(Debug, Clone)]
pub struct SystemdSnapshot {
    pub failed_units: Vec<String>,
    pub max_restarts: u64,
    pub max_restart_unit: Option<(String, u64)>,
    pub systemd_available: bool,
}

/// The unit a `systemctl --plain --no-legend` line names: its first word,
/// unless there is none or it is `0`.
pub open spec fn unit_of_line(line: Seq<char>) -> Option<Seq<char>> {
    let w = words(line);
    if w.len() == 0 {
        None
    } else {
        let u = trim(w[0]);
        if u.len() == 0 || u == "0"@ {
            None
        } else {
            Some(u)
        }
    }
}

pub fn parse_unit_line(line: &str) -> (r: Option<String>)
    ensures
        r is None <==> unit_of_line(line@) is None,
        r matches Some(u) ==> unit_of_line(line@) == Some(u@),
{
    let chars = chars_of(line);
    let w = split_words(&chars);
    if w.len() == 0 {
        return None;
    }
    proof {
        assert(views(w@)[0] == w@[0]@);
    }
    let unit = trim_chars(&w[0]);
    if unit.len() == 0 || eq_str(&unit, "0") {
        return None;
    }
    Some(string_of(unit.as_slice()))
}

/// The units named by the lines of a listing, in order.
pub open spec fn units_of(ls: Seq<Seq<char>>) -> Seq<Seq<char>>
    decreases ls.len(),
{
    if ls.len() == 0 {
        seq![]
    } else {
        let rest = units_of(ls.drop_last());
        match unit_of_line(ls.last()) {
            Some(u) => rest.push(u),
            None => rest,
        }
    }
}

/// The units a `systemctl` listing names.
pub fn units_from_listing(stdout: &str) -> (r: Vec<String>)
    ensures
        texts(r@) == units_of(lines(stdout@)),
{
    let chars = chars_of(stdout);
    let ls = split_lines(&chars);
    let ghost all = views(ls@);
    let mut r: Vec<String> = Vec::new();
    let mut i: usize = 0;
    while i < ls.len()
        invariant
            i <= ls@.len(),
            all == views(ls@),
            all == lines(stdout@),
            texts(r@) == units_of(all.take(i as int)),
        decreases ls@.len() - i,
    {
        proof {
            assert(all.take(i + 1).drop_last() =~= all.take(i as int));
            assert(all.take(i + 1).last() == ls@[i as int]@);
        }
        let line = string_of(ls[i].as_slice());
        let ghost before = r@;
        match parse_unit_line(line.as_str()) {
            Some(u) => {
                r.push(u);
                assert(texts(r@) =~= texts(before).push(u@));
            },
            None => {},
        }
        i = i + 1;
    }
    assert(all.take(ls@.len() as int) =~= all);
    r
}

/// The value of `systemctl show -p NRestarts --value`: the trimmed number,
/// or `0` when it is not one.
pub open spec fn restarts_of(text: Seq<char>) -> u64 {
    match parse_u64_of(trim(text)) {
        Some(n) => n,
        None => 0,
    }
}

pub fn parse_restarts(text: &str) -> (n: u64)
    ensures
        n == restarts_of(text@),
{
    let chars = chars_of(text);
    let t = trim_chars(&chars);
    match parse_u64(&t) {
        Some(n) => n,
        None => 0,
    }
}

pub open spec fn restart_views(v: Seq<(String, u64)>) -> Seq<(Seq<char>, u64)> {
    Seq::new(v.len(), |i: int| (v[i].0@, v[i].1))
}

/// The largest restart count, and the first unit to reach it (only a count
/// above zero names a unit).
pub open spec fn max_restart_of(us: Seq<(Seq<char>, u64)>) -> (u64, Option<(Seq<char>, u64)>)
    decreases us.len(),
{
    if us.len() == 0 {
        (0, None)
    } else {
        let (m, u) = max_restart_of(us.drop_last());
        let (name, count) = us.last();
        if count > m {
            (count, Some((name, count)))
        } else {
            (m, u)
        }
    }
}

/// The reported restart count is the largest among the running units: no
/// unit restarted more; when it is above zero, the unit named is the first
/// to reach it, with that count; when it is zero, no unit is named.
pub proof fn law_max_restarts_is_the_maximum(us: Seq<(Seq<char>, u64)>)
    ensures
        forall|i: int| 0 <= i < us.len() ==> (#[trigger] us[i]).1 <= max_restart_of(us).0,
        max_restart_of(us).0 == 0 ==> max_restart_of(us).1 is None,
        max_restart_of(us).0 > 0 ==> exists|i: int|
            0 <= i < us.len() && max_restart_of(us).1 == Some(#[trigger] us[i]) && us[i].1
                == max_restart_of(us).0 && forall|j: int|
                0 <= j < i ==> (#[trigger] us[j]).1 < max_restart_of(us).0,
    decreases us.len(),
{
    if us.len() > 0 {
        let rest = us.drop_last();
        law_max_restarts_is_the_maximum(rest);
        let (m, u) = max_restart_of(rest);
        assert forall|i: int| 0 <= i < us.len() implies (#[trigger] us[i]).1 <= max_restart_of(
            us,
        ).0 by {
            if i < rest.len() {
                assert(rest[i] == us[i]);
            }
        }
        if us.last().1 > m {
            let k = us.len() - 1;
            assert forall|j: int| 0 <= j < k implies (#[trigger] us[j]).1 < max_restart_of(us).0 by {
                assert(rest[j] == us[j]);
            }
            assert(us[k] == us.last());
        } else if m > 0 {
            let w = choose|i: int|
                0 <= i < rest.len() && u == Some(#[trigger] rest[i]) && rest[i].1 == m && forall|
                    j: int,
                | 0 <= j < i ==> (#[trigger] rest[j]).1 < m;
            assert(rest[w] == us[w]);
            assert forall|j: int| 0 <= j < w implies (#[trigger] us[j]).1 < max_restart_of(us).0 by {
                assert(rest[j] == us[j]);
            }
        }
    }
}

pub fn max_running_restarts(units: &Vec<(String, u64)>) -> (r: (u64, Option<(String, u64)>))
    ensures
        r.0 == max_restart_of(restart_views(units@)).0,
        (match r.1 {
            Some((n, c)) => Some((n@, c)),
            None => None,
        }) == max_restart_of(restart_views(units@)).1,
        forall|i: int| 0 <= i < units@.len() ==> (#[trigger] units@[i]).1 <= r.0,
{
    let ghost us = restart_views(units@);
    proof {
        law_max_restarts_is_the_maximum(us);
        assert forall|i: int| 0 <= i < units@.len() implies (#[trigger] units@[i]).1
            <= max_restart_of(us).0 by {
            assert(us[i].1 == units@[i].1);
        }
    }
    let mut max_restarts: u64 = 0;
    let mut max_unit: Option<(String, u64)> = None;
    let mut i: usize = 0;
    while i < units.len()
        invariant
            i <= units@.len(),
            us == restart_views(units@),
            max_restarts == max_restart_of(us.take(i as int)).0,
            (match max_unit {
                Some((n, c)) => Some((n@, c)),
                None => None,
            }) == max_restart_of(us.take(i as int)).1,
        decreases units@.len() - i,
    {
        proof {
            assert(us.take(i + 1).drop_last() =~= us.take(i as int));
            assert(us.take(i + 1).last() == us[i as int]);
        }
        let count = units[i].1;
        if count > max_restarts {
            max_restarts = count;
            max_unit = Some((units[i].0.clone(), count));
        }
        i = i + 1;
    }
    assert(us.take(units@.len() as int) =~= us);
    assert(forall|i: int| 0 <= i < units@.len() ==> (#[trigger] units@[i]).1 <= max_restarts);
    (max_restarts, max_unit)
}

pub open spec fn bullets(units: Seq<Seq<char>>) -> Seq<Seq<char>> {
    Seq::new(units.len(), |i: int| "  • "@ + units[i])
}

pub open spec fn systemd_details(
    failed: Seq<Seq<char>>,
    max_restarts: u64,
    max_unit: Option<(Seq<char>, u64)>,
    available: bool,
) -> Seq<Seq<char>> {
    seq![
        "Services en échec : "@ + digits(failed.len()),
        "Redémarrages max (service actif) : "@ + digits(max_restarts as nat),
    ] + (if failed.len() == 0 {
        seq!["Aucun service systemd en échec."@]
    } else {
        seq!["Services en échec :"@] + bullets(failed)
    }) + (match max_unit {
        Some((u, c)) => if c > 0 {
            seq!["  • "@ + u + " : "@ + digits(c as nat) + " redémarrage(s)"@]
        } else {
            seq![]
        },
        None => seq![],
    }) + (if !available {
        seq!["systemctl indisponible — check systemd ignoré."@]
    } else {
        seq![]
    })
}

pub open spec fn systemd_result_view(s: SystemdSnapshot, config: SystemdCheckConfig) -> ResultView {
    let failed = texts(s.failed_units@);
    ResultView {
        check: "systemd"@,
        metrics: seq![
            metric_view(
                "failed_units"@,
                count_milli(failed.len()) as int,
                "services"@,
                Some(config.failed_warning),
                Some(config.failed_critical),
            ),
            metric_view(
                "max_restarts"@,
                count_milli(s.max_restarts as nat) as int,
                "restarts"@,
                Some(config.restarts_warning),
                Some(config.restarts_critical),
            ),
        ],
        details: systemd_details(
            failed,
            s.max_restarts,
            match s.max_restart_unit {
                Some((n, c)) => Some((n@, c)),
                None => None,
            },
            s.systemd_available,
        ),
        top: failed,
        status: None,
    }
}

fn text_then_count(lead: &str, n: u64) -> (s: String)
    ensures
        s@ == lead@ + digits(n as nat),
{
    let mut out: Vec<char> = Vec::new();
    push_str(&mut out, lead);
    let d = digits_of(n);
    push_all(&mut out, &d);
    string_of(out.as_slice())
}

fn clone_all(v: &Vec<String>) -> (r: Vec<String>)
    ensures
        texts(r@) == texts(v@),
{
    let mut r: Vec<String> = Vec::new();
    let mut i: usize = 0;
    while i < v.len()
        invariant
            i <= v@.len(),
            texts(r@) == texts(v@).take(i as int),
        decreases v@.len() - i,
    {
        let c = v[i].clone();
        let ghost before = r@;
        r.push(c);
        assert(texts(r@) =~= texts(before).push(c@));
        assert(texts(r@) =~= texts(v@).take(i + 1));
        i = i + 1;
    }
    assert(texts(v@).take(v@.len() as int) =~= texts(v@));
    r
}

/// The report for what `systemctl` said.
pub fn snapshot_result(snapshot: &SystemdSnapshot, config: &SystemdCheckConfig) -> (r: CheckResult)
    ensures
        r@ == systemd_result_view(*snapshot, *config),
{
    let ghost failed = texts(snapshot.failed_units@);
    let n = snapshot.failed_units.len();
    let mut details: Vec<String> = Vec::new();
    details.push(text_then_count("Services en échec : ", n as u64));
    details.push(text_then_count("Redémarrages max (service actif) : ", snapshot.max_restarts));
    let ghost head = texts(details@);
    assert(head =~= seq![
        "Services en échec : "@ + digits(failed.len()),
        "Redémarrages max (service actif) : "@ + digits(snapshot.max_restarts as nat),
    ]);
    if n == 0 {
        details.push("Aucun service systemd en échec.".to_string());
    } else {
        details.push("Services en échec :".to_string());
        let mut i: usize = 0;
        while i < n
            invariant
                i <= n == snapshot.failed_units@.len(),
                failed == texts(snapshot.failed_units@),
                texts(details@) == head + seq!["Services en échec :"@] + bullets(failed).take(i as int),
            decreases n - i,
        {
            let mut line: Vec<char> = Vec::new();
            push_str(&mut line, "  • ");
            let u = chars_of(snapshot.failed_units[i].as_str());
            push_all(&mut line, &u);
            let ghost before = details@;
            details.push(string_of(line.as_slice()));
            assert(texts(details@) =~= texts(before).push("  • "@ + failed[i as int]));
            assert(bullets(failed).take(i + 1) =~= bullets(failed).take(i as int).push("  • "@ + failed[i as int]));
            i = i + 1;
        }
        assert(bullets(failed).take(n as int) =~= bullets(failed));
    }
    let ghost mid = texts(details@);
    assert(mid =~= head + (if failed.len() == 0 {
        seq!["Aucun service systemd en échec."@]
    } else {
        seq!["Services en échec :"@] + bullets(failed)
    }));
    match &snapshot.max_restart_unit {
        Some((unit, count)) => {
            if *count > 0 {
                let mut line: Vec<char> = Vec::new();
                push_str(&mut line, "  • ");
                let u = chars_of(unit.as_str());
                push_all(&mut line, &u);
                push_str(&mut line, " : ");
                let d = digits_of(*count);
                push_all(&mut line, &d);
                push_str(&mut line, " redémarrage(s)");
                details.push(string_of(line.as_slice()));
            }
        },
        None => {},
    }
    let ghost after_restarts = texts(details@);
    assert(after_restarts =~= mid + (match snapshot.max_restart_unit {
        Some((u, c)) => if c > 0 {
            seq!["  • "@ + u@ + " : "@ + digits(c as nat) + " redémarrage(s)"@]
        } else {
            seq![]
        },
        None => seq![],
    }));
    if !snapshot.systemd_available {
        details.push("systemctl indisponible — check systemd ignoré.".to_string());
    }
    assert(texts(details@) =~= after_restarts + (if !snapshot.systemd_available {
        seq!["systemctl indisponible — check systemd ignoré."@]
    } else {
        seq![]
    }));
    let failed_value = count_to_milli(n as u64);
    let restarts_value = count_to_milli(snapshot.max_restarts);
    let metrics = vec![
        metric(
            "failed_units",
            failed_value,
            "services",
            Some(config.failed_warning),
            Some(config.failed_critical),
        ),
        metric(
            "max_restarts",
            restarts_value,
            "restarts",
            Some(config.restarts_warning),
            Some(config.restarts_critical),
        ),
    ];
    let top = clone_all(&snapshot.failed_units);
    let r = CheckResult {
        check_name: "systemd".to_string(),
        metrics,
        details,
        top_processes: top,
        status_value: None,
    };
    assert(r@.details =~= systemd_result_view(*snapshot, *config).details);
    assert(r@.metrics =~= systemd_result_view(*snapshot, *config).metrics);
    r
}

/// The query for a unit's restart count.
pub open spec fn restarts_args(unit: Seq<char>) -> Seq<Seq<char>> {
    seq!["show"@, unit, "-p"@, "NRestarts"@, "--value"@]
}

/// The restart count a reply gives; `0` when the query failed.
pub open spec fn restarts_reply(reply: Option<Seq<char>>) -> u64 {
    match reply {
        Some(o) => restarts_of(o),
        None => 0,
    }
}

/// `n` is the restart count of `unit` that some reply of `systemctl` gives.
pub open spec fn restarts_given<C: Commands + ?Sized>(commands: &C, unit: Seq<char>, n: u64) -> bool {
    exists|reply: Option<Seq<char>>|
        commands.may_answer("systemctl"@, restarts_args(unit), reply) && n == restarts_reply(reply)
}

/// The restart count `systemctl show <unit> -p NRestarts --value` gives;
/// nothing when it fails.
pub fn service_restarts<C: Commands + ?Sized>(commands: &C, unit: &str) -> (n: u64)
    ensures
        restarts_given(commands, unit@, n),
{
    let args = vec!["show", unit, "-p", "NRestarts", "--value"];
    assert(strs_view(args@) =~= restarts_args(unit@));
    let reply = commands.output("systemctl", args.as_slice());
    let n = match &reply {
        Some(out) => parse_restarts(out.as_str()),
        None => 0,
    };
    assert(n == restarts_reply(opt_text(reply)));
    assert(commands.may_answer("systemctl"@, restarts_args(unit@), opt_text(reply)));
    n
}

pub open spec fn version_args() -> Seq<Seq<char>> {
    seq!["--version"@]
}

pub open spec fn failed_args() -> Seq<Seq<char>> {
    seq!["--failed"@, "--no-legend"@, "--plain"@, "--no-pager"@]
}

pub open spec fn running_args() -> Seq<Seq<char>> {
    seq!["list-units"@, "--type=service"@, "--state=running"@, "--no-legend"@, "--plain"@, "--no-pager"@]
}

/// The units a listing reply names; none when the query failed.
pub open spec fn listed(reply: Option<Seq<char>>) -> Seq<Seq<char>> {
    match reply {
        Some(o) => units_of(lines(o)),
        None => seq![],
    }
}

/// The busiest unit as plain values.
pub open spec fn unit_view(u: Option<(String, u64)>) -> Option<(Seq<char>, u64)> {
    match u {
        Some((n, c)) => Some((n@, c)),
        None => None,
    }
}

/// The snapshot reports, for the units some reply lists as running, a
/// restart count each that some reply gives, and the largest of them.
pub open spec fn restarts_reported<C: Commands + ?Sized>(commands: &C, r: SystemdSnapshot) -> bool {
    exists|reply: Option<Seq<char>>, counts: Seq<u64>|
        #![trigger commands.may_answer("systemctl"@, running_args(), reply), counts.len()]
        {
            &&& commands.may_answer("systemctl"@, running_args(), reply)
            &&& counts.len() == listed(reply).len()
            &&& forall|i: int|
                0 <= i < counts.len() ==> restarts_given(commands, listed(reply)[i], #[trigger] counts[i])
            &&& max_restart_of(Seq::new(counts.len(), |i: int| (listed(reply)[i], counts[i])))
                == (r.max_restarts, unit_view(r.max_restart_unit))
        }
}

/// Ask `systemctl` for the failed units and for the restart count of every
/// running service. Without a working `systemctl` (its `--version` fails),
/// nothing is reported and the snapshot says systemd is unavailable.
pub fn inspect_systemd<C: Commands + ?Sized>(commands: &C) -> (r: SystemdSnapshot)
    ensures
        !r.systemd_available ==> {
            &&& commands.may_answer("systemctl"@, version_args(), None)
            &&& r.failed_units@.len() == 0
            &&& r.max_restarts == 0
            &&& r.max_restart_unit is None
        },
        r.systemd_available ==> {
            &&& exists|o: Seq<char>| commands.may_answer("systemctl"@, version_args(), Some(o))
            &&& exists|reply: Option<Seq<char>>|
                commands.may_answer("systemctl"@, failed_args(), reply) && texts(r.failed_units@)
                    == listed(reply)
            &&& restarts_reported(commands, r)
        },
{
    let version = vec!["--version"];
    assert(strs_view(version@) =~= version_args());
    let answer = commands.output("systemctl", version.as_slice());
    if answer.is_none() {
        return SystemdSnapshot {
            failed_units: Vec::new(),
            max_restarts: 0,
            max_restart_unit: None,
            systemd_available: false,
        };
    }
    assert(commands.may_answer("systemctl"@, version_args(), Some(answer->0@)));
    let failed_query = vec!["--failed", "--no-legend", "--plain", "--no-pager"];
    assert(strs_view(failed_query@) =~= failed_args());
    let failed_reply = commands.output("systemctl", failed_query.as_slice());
    let failed_units = match &failed_reply {
        Some(out) => units_from_listing(out.as_str()),
        None => Vec::new(),
    };
    assert(texts(failed_units@) =~= listed(opt_text(failed_reply)));
    let running_query = vec![
        "list-units",
        "--type=service",
        "--state=running",
        "--no-legend",
        "--plain",
        "--no-pager",
    ];
    assert(strs_view(running_query@) =~= running_args());
    let running_reply = commands.output("systemctl", running_query.as_slice());
    let running = match &running_reply {
        Some(out) => units_from_listing(out.as_str()),
        None => Vec::new(),
    };
    let ghost names = listed(opt_text(running_reply));
    assert(texts(running@) =~= names);
    let mut counted: Vec<(String, u64)> = Vec::new();
    let mut i: usize = 0;
    while i < running.len()
        invariant
            i <= running.len(),
            texts(running@) == names,
            counted@.len() == i,
            forall|k: int|
                0 <= k < i ==> #[trigger] restart_views(counted@)[k].0 == names[k]
                    && restarts_given(commands, names[k], restart_views(counted@)[k].1),
        decreases running.len() - i,
    {
        let n = service_restarts(commands, running[i].as_str());
        let ghost before = counted@;
        counted.push((running[i].clone(), n));
        proof {
            assert forall|k: int| 0 <= k < i + 1 implies #[trigger] restart_views(counted@)[k].0
                == names[k] && restarts_given(commands, names[k], restart_views(counted@)[k].1) by {
                if k < i {
                    assert(restart_views(counted@)[k] == restart_views(before)[k]);
                }
            }
        }
        i = i + 1;
    }
    let (max_restarts, max_restart_unit) = max_running_restarts(&counted);
    let r = SystemdSnapshot { failed_units, max_restarts, max_restart_unit, systemd_available: true };
    proof {
        let us = restart_views(counted@);
        let counts = Seq::new(us.len(), |k: int| us[k].1);
        assert(us.len() == names.len());
        assert forall|k: int| 0 <= k < us.len() implies (names[k], counts[k]) == us[k] by {
            assert(restart_views(counted@)[k].0 == names[k]);
        }
        assert(Seq::new(counts.len(), |k: int| (names[k], counts[k])) =~= us);
        assert forall|k: int| 0 <= k < counts.len() implies restarts_given(
            commands,
            names[k],
            #[trigger] counts[k],
        ) by {
            assert(us[k].0 == names[k]);
        }
        assert(restarts_reported(commands, r)) by {
            assert(commands.may_answer("systemctl"@, running_args(), opt_text(running_reply)));
        }
    }
    r
}

} // verus!
