//! What a check reports: named measurements with optional thresholds, and
//! the severity those thresholds give them.
use vstd::prelude::*;

use crate::numfmt::{fmt_ratio, fmt_ratio_exec, Milli};
use crate::text::{push_all, push_str, string_of};

verus! {

/// How much a measurement should worry the user.
#[derive(Debug, Clone, Copy, PartialEq, Eq, Structural)]
pub enum Severity {
    Info,
    Attention,
    Critique,
}

/// The order of severities: `Info < Attention < Critique`.
pub open spec fn rank(s: Severity) -> int {
    match s {
        Severity::Info => 0,
        Severity::Attention => 1,
        Severity::Critique => 2,
    }
}

impl Severity {
    /// `0` for `Info`, `1` for `Attention`, `2` for `Critique`.
    pub fn level(self) -> (r: u8)
        ensures
            r as int == rank(self),
    {
        match self {
            Severity::Info => 0,
            Severity::Attention => 1,
            Severity::Critique => 2,
        }
    }

    /// The worse of two severities.
    pub fn max(self, other: Severity) -> (r: Severity)
        ensures
            r == worse(self, other),
    {
        if other.level() > self.level() {
            other
        } else {
            self
        }
    }
}

pub open spec fn worse(a: Severity, b: Severity) -> Severity {
    if rank(b) > rank(a) {
        b
    } else {
        a
    }
}

/// One measurement. `value` and the thresholds are in thousandths of `unit`.
#[derive(Debug, Clone)]
pub struct Metric {
    pub name: String,
    pub value: Milli,
    pub unit: String,
    pub threshold_warning: Option<Milli>,
    pub threshold_critical: Option<Milli>,
}

/// A check's report.
#[derive(Debug, Clone)]
pub struct CheckResult {
    pub check_name: String,
    pub metrics: Vec<Metric>,
    pub details: Vec<String>,
    pub top_processes: Vec<String>,
    /// Ready-to-display value for the `status` one-liner (e.g. `73% (28G / 38G)`).
    /// Falls back to the primary metric when `None`.
    pub status_value: Option<String>,
}

/// What a metric says, as plain values.
pub struct MetricView {
    pub name: Seq<char>,
    pub value: int,
    pub unit: Seq<char>,
    pub warning: Option<Milli>,
    pub critical: Option<Milli>,
}

impl View for Metric {
    type V = MetricView;

    open spec fn view(&self) -> MetricView {
        MetricView {
            name: self.name@,
            value: self.value as int,
            unit: self.unit@,
            warning: self.threshold_warning,
            critical: self.threshold_critical,
        }
    }
}

pub open spec fn metric_view(
    name: Seq<char>,
    value: int,
    unit: Seq<char>,
    warning: Option<Milli>,
    critical: Option<Milli>,
) -> MetricView {
    MetricView { name, value, unit, warning, critical }
}

/// The views of a list of texts.
pub open spec fn texts(v: Seq<String>) -> Seq<Seq<char>> {
    Seq::new(v.len(), |i: int| v[i]@)
}

pub open spec fn metric_views(v: Seq<Metric>) -> Seq<MetricView> {
    Seq::new(v.len(), |i: int| v[i]@)
}

/// What a result says, as plain values.
pub struct ResultView {
    pub check: Seq<char>,
    pub metrics: Seq<MetricView>,
    pub details: Seq<Seq<char>>,
    pub top: Seq<Seq<char>>,
    pub status: Option<Seq<char>>,
}

impl View for CheckResult {
    type V = ResultView;

    open spec fn view(&self) -> ResultView {
        ResultView {
            check: self.check_name@,
            metrics: metric_views(self.metrics@),
            details: texts(self.details@),
            top: texts(self.top_processes@),
            status: match self.status_value {
                Some(s) => Some(s@),
                None => None,
            },
        }
    }
}

/// Build a metric.
pub fn metric(
    name: &str,
    value: Milli,
    unit: &str,
    warning: Option<Milli>,
    critical: Option<Milli>,
) -> (m: Metric)
    ensures
        m@ == metric_view(name@, value as int, unit@, warning, critical),
{
    Metric {
        name: name.to_string(),
        value,
        unit: unit.to_string(),
        threshold_warning: warning,
        threshold_critical: critical,
    }
}

/// A count as a quantity in thousandths (counts beyond `i64::MAX / 1000`
/// stop there).
pub open spec fn count_milli(n: nat) -> Milli {
    if n <= 9_223_372_036_854_775 {
        (n * 1000) as Milli
    } else {
        9_223_372_036_854_775_000
    }
}

pub fn count_to_milli(n: u64) -> (v: Milli)
    ensures
        v == count_milli(n as nat),
{
    if n <= 9_223_372_036_854_775 {
        (n * 1000) as Milli
    } else {
        9_223_372_036_854_775_000
    }
}

/// Critical at or above the critical threshold, attention at or above the
/// warning threshold, informational otherwise.
pub open spec fn severity_of(value: int, warning: Option<Milli>, critical: Option<Milli>) -> Severity {
    if critical is Some && value >= critical->0 {
        Severity::Critique
    } else if warning is Some && value >= warning->0 {
        Severity::Attention
    } else {
        Severity::Info
    }
}

pub open spec fn metric_sev(m: Metric) -> Severity {
    severity_of(m.value as int, m.threshold_warning, m.threshold_critical)
}

/// The worst severity among the metrics (`Info` when there are none).
pub open spec fn worst_of(ms: Seq<Metric>) -> Severity
    decreases ms.len(),
{
    if ms.len() == 0 {
        Severity::Info
    } else {
        worse(worst_of(ms.drop_last()), metric_sev(ms.last()))
    }
}

/// A check's worst severity is the highest among its metrics: none ranks
/// above it, and it is one of theirs (`Info` when there are none).
pub proof fn law_worst_severity_is_the_highest(ms: Seq<Metric>)
    ensures
        forall|i: int| 0 <= i < ms.len() ==> rank(metric_sev(#[trigger] ms[i])) <= rank(worst_of(ms)),
        ms.len() == 0 ==> worst_of(ms) == Severity::Info,
        ms.len() > 0 ==> exists|i: int| 0 <= i < ms.len() && worst_of(ms) == metric_sev(#[trigger] ms[i]),
    decreases ms.len(),
{
    if ms.len() > 0 {
        let rest = ms.drop_last();
        law_worst_severity_is_the_highest(rest);
        assert forall|i: int| 0 <= i < ms.len() implies rank(metric_sev(#[trigger] ms[i])) <= rank(
            worst_of(ms),
        ) by {
            if i < rest.len() {
                assert(rest[i] == ms[i]);
            }
        }
        let last = ms.len() - 1;
        assert(ms[last] == ms.last());
        if rest.len() > 0 && worst_of(ms) == worst_of(rest) {
            let w = choose|i: int| 0 <= i < rest.len() && worst_of(rest) == metric_sev(#[trigger] rest[i]);
            assert(rest[w] == ms[w]);
        }
    }
}

/// A metric is critical from its critical threshold on, at attention from
/// its warning threshold on below that, informational otherwise; and a
/// higher value is never less severe.
pub proof fn law_severity_follows_the_thresholds(
    v: int,
    u: int,
    warning: Option<Milli>,
    critical: Option<Milli>,
)
    ensures
        critical is Some && v >= critical->0 ==> severity_of(v, warning, critical) == Severity::Critique,
        (critical is None || v < critical->0) && warning is Some && v >= warning->0 ==> severity_of(
            v,
            warning,
            critical,
        ) == Severity::Attention,
        (critical is None || v < critical->0) && (warning is None || v < warning->0) ==> severity_of(
            v,
            warning,
            critical,
        ) == Severity::Info,
        v <= u ==> rank(severity_of(v, warning, critical)) <= rank(severity_of(u, warning, critical)),
{
}

/// The severity of one metric against its own thresholds.
pub fn metric_severity(metric: &Metric) -> (s: Severity)
    ensures
        s == metric_sev(*metric),
{
    if let Some(critical) = metric.threshold_critical {
        if metric.value >= critical {
            return Severity::Critique;
        }
    }
    if let Some(warning) = metric.threshold_warning {
        if metric.value >= warning {
            return Severity::Attention;
        }
    }
    Severity::Info
}

impl CheckResult {
    /// The worst severity among this result's metrics.
    pub fn worst_severity(&self) -> (s: Severity)
        ensures
            s == worst_of(self.metrics@),
    {
        let mut worst = Severity::Info;
        let mut i: usize = 0;
        while i < self.metrics.len()
            invariant
                i <= self.metrics.len(),
                worst == worst_of(self.metrics@.take(i as int)),
            decreases self.metrics.len() - i,
        {
            let sev = metric_severity(&self.metrics[i]);
            proof {
                let t = self.metrics@.take(i + 1);
                assert(t.drop_last() =~= self.metrics@.take(i as int));
            }
            worst = worst.max(sev);
            i = i + 1;
        }
        assert(self.metrics@.take(self.metrics.len() as int) =~= self.metrics@);
        worst
    }
}

pub open spec fn gib() -> nat {
    1_073_741_824
}

pub open spec fn mib() -> nat {
    1_048_576
}

/// A byte count as a compact size: whole gibibytes from ten up (`28G`),
/// one decimal from one up (`4.9G`), whole mebibytes below (`512M`).
pub open spec fn human_size_text(bytes: nat) -> Seq<char> {
    if bytes >= gib() {
        if bytes >= 10 * gib() {
            fmt_ratio(bytes as int, gib(), 0) + "G"@
        } else {
            fmt_ratio(bytes as int, gib(), 1) + "G"@
        }
    } else {
        fmt_ratio(bytes as int, mib(), 0) + "M"@
    }
}

/// Format a byte count as a compact size (`28G`, `4.9G`, `512M`).
pub fn human_size(bytes: u64) -> (s: String)
    ensures
        s@ == human_size_text(bytes as nat),
{
    let mut out: Vec<char> = Vec::new();
    if bytes >= 1_073_741_824 {
        if bytes >= 10_737_418_240 {
            let v = fmt_ratio_exec(bytes as i128, 1_073_741_824, 0);
            push_all(&mut out, &v);
        } else {
            let v = fmt_ratio_exec(bytes as i128, 1_073_741_824, 1);
            push_all(&mut out, &v);
        }
        push_str(&mut out, "G");
    } else {
        let v = fmt_ratio_exec(bytes as i128, 1_048_576, 0);
        push_all(&mut out, &v);
        push_str(&mut out, "M");
    }
    string_of(out.as_slice())
}

/// The samples a result records: each metric's name and value, in order.
pub fn metric_samples(result: &CheckResult) -> (r: Vec<(String, Milli)>)
    ensures
        r@.len() == result.metrics@.len(),
        forall|i: int|
            0 <= i < r@.len() ==> #[trigger] r@[i].0@ == result.metrics@[i].name@ && r@[i].1
                == result.metrics@[i].value,
{
    let mut r: Vec<(String, Milli)> = Vec::new();
    let mut i: usize = 0;
    while i < result.metrics.len()
        invariant
            i <= result.metrics.len(),
            r@.len() == i,
            forall|k: int|
                0 <= k < i ==> #[trigger] r@[k].0@ == result.metrics@[k].name@ && r@[k].1
                    == result.metrics@[k].value,
        decreases result.metrics.len() - i,
    {
        let m = &result.metrics[i];
        r.push((string_of(crate::text::chars_of(m.name.as_str()).as_slice()), m.value));
        i = i + 1;
    }
    r
}

} // verus!
