//! SMART disk health — `smartctl -H` per block device; any drive whose
//! self-assessment is not passing is flagged. Opt-in, since `smartctl`
//! usually needs root; an unreadable state is reported, never alarmed on.
use vstd::prelude::*;

use crate::check::{
    count_milli, count_to_milli, metric, metric_view, severity_of, texts, CheckResult, ResultView,
    Severity,
};
use crate::config::SmartCheckConfig;
use crate::numfmt::{digits, digits_of};
use crate::text::{
    ascending, chars_of, contains, contains_str, insert_sorted, lines, lower, lowercase_chars,
    push_all, push_str, split_lines, starts_with, starts_with_str, string_of, views,
};

verus! {

pub struct SmartCheck {
    pub config: SmartCheckConfig,
}

impl SmartCheck {
    pub fn new(config: SmartCheckConfig) -> (r: Self)
        ensures
            r.config == config,
    {
        SmartCheck { config }
    }
}

/// A drive's overall-health verdict.
#[derive(Debug, Clone, Copy, PartialEq, Eq, Structural)]
pub enum Health {
    Passed,
    Failing,
    Unknown,
}

pub open spec fn is_verdict_line(l: Seq<char>) -> bool {
    contains(l, "overall-health"@) || contains(l, "smart health status"@)
}

/// The verdict of the first line (in lowercase) that gives one: a verdict
/// line saying `passed` or `ok` passes, one saying `failed` fails.
pub open spec fn smart_health_of(ls: Seq<Seq<char>>) -> Health
    decreases ls.len(),
{
    if ls.len() == 0 {
        Health::Unknown
    } else {
        let l = lower(ls[0]);
        if is_verdict_line(l) && (contains(l, "passed"@) || contains(l, "ok"@)) {
            Health::Passed
        } else if is_verdict_line(l) && contains(l, "failed"@) {
            Health::Failing
        } else {
            smart_health_of(ls.drop_first())
        }
    }
}

/// Read the overall-health verdict from `smartctl -H` output (ATA or NVMe).
pub fn parse_smart_health(stdout: &str) -> (h: Health)
    ensures
        h == smart_health_of(lines(stdout@)),
{
    let chars = chars_of(stdout);
    let ls = split_lines(&chars);
    let ghost all = views(ls@);
    let mut i: usize = 0;
    proof {
        assert(all.skip(0) =~= all);
    }
    while i < ls.len()
        invariant
            i <= ls@.len(),
            all == views(ls@),
            all == lines(stdout@),
            smart_health_of(all.skip(i as int)) == smart_health_of(all),
        decreases ls@.len() - i,
    {
        proof {
            assert(all.skip(i as int)[0] == ls@[i as int]@);
            assert(all.skip(i as int).drop_first() =~= all.skip(i + 1));
        }
        let line = lowercase_chars(&ls[i]);
        let verdict = contains_str(&line, "overall-health") || contains_str(&line, "smart health status");
        if verdict {
            if contains_str(&line, "passed") || contains_str(&line, "ok") {
                return Health::Passed;
            }
            if contains_str(&line, "failed") {
                return Health::Failing;
            }
        }
        i = i + 1;
    }
    Health::Unknown
}

/// The block devices worth asking about (`sd*`, `nvme*`, `vd*`, `hd*`), as
/// device paths, in the order given.
pub open spec fn smart_devices(names: Seq<Seq<char>>) -> Seq<Seq<char>>
    decreases names.len(),
{
    if names.len() == 0 {
        seq![]
    } else {
        let n = names.last();
        let rest = smart_devices(names.drop_last());
        if starts_with(n, "sd"@) || starts_with(n, "nvme"@) || starts_with(n, "vd"@) || starts_with(
            n,
            "hd"@,
        ) {
            rest.push("/dev/"@ + n)
        } else {
            rest
        }
    }
}

/// The device paths worth asking about, in ascending order.
pub fn block_devices(names: &Vec<String>) -> (r: Vec<String>)
    ensures
        ascending(texts(r@)),
        texts(r@).to_multiset() == smart_devices(texts(names@)).to_multiset(),
{
    let mut r: Vec<String> = Vec::new();
    let mut i: usize = 0;
    assert(texts(names@).take(0) =~= Seq::<Seq<char>>::empty());
    assert(texts(r@) =~= smart_devices(texts(names@).take(0)));
    while i < names.len()
        invariant
            i <= names@.len(),
            ascending(texts(r@)),
            texts(r@).to_multiset() == smart_devices(texts(names@).take(i as int)).to_multiset(),
        decreases names@.len() - i,
    {
        proof {
            assert(texts(names@).take(i + 1).drop_last() =~= texts(names@).take(i as int));
        }
        let n = chars_of(names[i].as_str());
        if starts_with_str(&n, "sd") || starts_with_str(&n, "nvme") || starts_with_str(&n, "vd")
            || starts_with_str(&n, "hd") {
            let mut path: Vec<char> = Vec::new();
            push_str(&mut path, "/dev/");
            push_all(&mut path, &n);
            let ghost prev = smart_devices(texts(names@).take(i as int));
            insert_sorted(&mut r, string_of(path.as_slice()));
            proof {
                vstd::seq_lib::to_multiset_build(prev, "/dev/"@ + n@);
            }
        }
        i = i + 1;
    }
    assert(texts(names@).take(names@.len() as int) =~= texts(names@));
    r
}

pub open spec fn device_views(v: Seq<(String, Health)>) -> Seq<(Seq<char>, Health)> {
    Seq::new(v.len(), |i: int| (v[i].0@, v[i].1))
}

/// Drives with a verdict, drives failing, and a line per drive with a verdict.
pub open spec fn smart_tally(ds: Seq<(Seq<char>, Health)>) -> (nat, nat, Seq<Seq<char>>)
    decreases ds.len(),
{
    if ds.len() == 0 {
        (0, 0, seq![])
    } else {
        let (readable, failing, details) = smart_tally(ds.drop_last());
        let (dev, h) = ds.last();
        match h {
            Health::Passed => (readable + 1, failing, details.push(dev + " : sain (SMART OK)"@)),
            Health::Failing => (
                readable + 1,
                failing + 1,
                details.push(dev + " : ⚠ SMART en échec — sauvegardez !"@),
            ),
            Health::Unknown => (readable, failing, details),
        }
    }
}

pub open spec fn unavailable_view(reason: Seq<char>) -> ResultView {
    ResultView {
        check: "smart"@,
        metrics: seq![],
        details: seq![reason],
        top: seq![],
        status: Some("Indisponible"@),
    }
}

pub open spec fn smart_result_view(ds: Seq<(Seq<char>, Health)>) -> ResultView {
    let (readable, failing, details) = smart_tally(ds);
    if readable == 0 {
        unavailable_view("état SMART illisible (droits root requis, ou disques sans SMART)"@)
    } else {
        ResultView {
            check: "smart"@,
            metrics: seq![
                metric_view(
                    "smart_failing"@,
                    count_milli(failing) as int,
                    "disks"@,
                    Some(1000),
                    Some(1000),
                ),
            ],
            details,
            top: seq![],
            status: Some(
                if failing == 0 {
                    digits(readable) + " disque(s) sain(s)"@
                } else {
                    "⚠ "@ + digits(failing) + " disque(s) en alerte"@
                },
            ),
        }
    }
}

/// The report for a reason the drives could not be assessed.
pub fn unavailable(reason: &str) -> (r: CheckResult)
    ensures
        r@ == unavailable_view(reason@),
{
    let r = CheckResult {
        check_name: "smart".to_string(),
        metrics: Vec::new(),
        details: vec![reason.to_string()],
        top_processes: Vec::new(),
        status_value: Some("Indisponible".to_string()),
    };
    assert(r@.details =~= seq![reason@]);
    assert(r@.metrics =~= Seq::<crate::check::MetricView>::empty());
    assert(r@.top =~= Seq::<Seq<char>>::empty());
    r
}

/// The report for each drive's verdict.
pub fn build_result(devices: &Vec<(String, Health)>) -> (r: CheckResult)
    ensures
        r@ == smart_result_view(device_views(devices@)),
{
    let ghost ds = device_views(devices@);
    let mut readable: usize = 0;
    let mut failing: usize = 0;
    let mut details: Vec<String> = Vec::new();
    let mut i: usize = 0;
    while i < devices.len()
        invariant
            i <= devices@.len(),
            ds == device_views(devices@),
            failing <= readable <= i,
            smart_tally(ds.take(i as int)) == (readable as nat, failing as nat, texts(details@)),
        decreases devices@.len() - i,
    {
        proof {
            assert(ds.take(i + 1).drop_last() =~= ds.take(i as int));
            assert(ds.take(i + 1).last() == ds[i as int]);
        }
        let (dev, h) = (&devices[i].0, devices[i].1);
        let ghost before = details@;
        match h {
            Health::Passed => {
                readable = readable + 1;
                let mut line: Vec<char> = chars_of(dev.as_str());
                push_str(&mut line, " : sain (SMART OK)");
                details.push(string_of(line.as_slice()));
                assert(texts(details@) =~= texts(before).push(dev@ + " : sain (SMART OK)"@));
            },
            Health::Failing => {
                readable = readable + 1;
                failing = failing + 1;
                let mut line: Vec<char> = chars_of(dev.as_str());
                push_str(&mut line, " : ⚠ SMART en échec — sauvegardez !");
                details.push(string_of(line.as_slice()));
                assert(texts(details@) =~= texts(before).push(
                    dev@ + " : ⚠ SMART en échec — sauvegardez !"@,
                ));
            },
            Health::Unknown => {},
        }
        i = i + 1;
    }
    proof {
        assert(ds.take(devices@.len() as int) =~= ds);
    }
    if readable == 0 {
        return unavailable("état SMART illisible (droits root requis, ou disques sans SMART)");
    }
    let status = if failing == 0 {
        let mut s: Vec<char> = digits_of(readable as u64);
        push_str(&mut s, " disque(s) sain(s)");
        string_of(s.as_slice())
    } else {
        let mut s: Vec<char> = Vec::new();
        push_str(&mut s, "⚠ ");
        let d = digits_of(failing as u64);
        push_all(&mut s, &d);
        push_str(&mut s, " disque(s) en alerte");
        string_of(s.as_slice())
    };
    let value = count_to_milli(failing as u64);
    let metrics = vec![metric("smart_failing", value, "disks", Some(1000), Some(1000))];
    let r = CheckResult {
        check_name: "smart".to_string(),
        metrics,
        details,
        top_processes: Vec::new(),
        status_value: Some(status),
    };
    assert(r@.metrics =~= smart_result_view(ds).metrics);
    assert(r@.top =~= smart_result_view(ds).top);
    r
}

/// SMART never raises a false alarm: when no drive's state can be read the
/// report holds no metric at all, and otherwise its one metric is critical
/// exactly when some drive reports failing (and informational otherwise).
pub proof fn law_alarms_only_on_a_failing_drive(ds: Seq<(Seq<char>, Health)>)
    ensures
        smart_tally(ds).0 == 0 ==> smart_result_view(ds).metrics.len() == 0,
        smart_tally(ds).0 > 0 ==> {
            let m = smart_result_view(ds).metrics[0];
            &&& smart_result_view(ds).metrics.len() == 1
            &&& (severity_of(m.value, m.warning, m.critical) == Severity::Critique) == (
            smart_tally(ds).1 > 0)
            &&& (smart_tally(ds).1 == 0 ==> severity_of(m.value, m.warning, m.critical)
                == Severity::Info)
        },
{
}

} // verus!
