//! What the command line shows: state words, the one-line verdict, gauge
//! bars, and the wording of values in the history.
use vstd::prelude::*;

use crate::check::{worse, worst_of, CheckResult, Metric, Severity};
use crate::numfmt::{fmt_milli, fmt_milli_exec, Milli};
use crate::text::{chars_of, eq_str, push_all, push_str, string_of};

verus! {

/// The state column of the plain status table.
pub fn plain_state(severity: Severity) -> (s: &'static str)
    ensures
        s@ == match severity {
            Severity::Info => "ok"@,
            Severity::Attention => "attention"@,
            Severity::Critique => "critique"@,
        },
{
    match severity {
        Severity::Info => "ok",
        Severity::Attention => "attention",
        Severity::Critique => "critique",
    }
}

/// The state badge of the rich status table.
pub fn state_label(severity: Severity) -> (s: &'static str)
    ensures
        s@ == match severity {
            Severity::Info => " ok "@,
            Severity::Attention => "alert"@,
            Severity::Critique => "crit"@,
        },
{
    match severity {
        Severity::Info => " ok ",
        Severity::Attention => "alert",
        Severity::Critique => "crit",
    }
}

/// The closing line of the status table for the machine's overall state.
pub fn global_message(severity: Severity) -> (s: &'static str)
    ensures
        s@ == match severity {
            Severity::Info => "Votre machine va bien."@,
            Severity::Attention => "Joséphine a remarqué quelque chose — consultez `josephine doctor`."@,
            Severity::Critique => "Une intervention serait utile — lancez `josephine doctor`."@,
        },
{
    match severity {
        Severity::Info => "Votre machine va bien.",
        Severity::Attention => "Joséphine a remarqué quelque chose — consultez `josephine doctor`.",
        Severity::Critique => "Une intervention serait utile — lancez `josephine doctor`.",
    }
}

pub open spec fn global_of(rs: Seq<CheckResult>) -> Severity
    decreases rs.len(),
{
    if rs.len() == 0 {
        Severity::Info
    } else {
        worse(global_of(rs.drop_last()), worst_of(rs.last().metrics@))
    }
}

/// The machine's overall state: the worst of every check's (`Info` with no
/// check at all).
pub fn global_severity(results: &Vec<CheckResult>) -> (s: Severity)
    ensures
        s == global_of(results@),
{
    let mut s = Severity::Info;
    let mut i: usize = 0;
    while i < results.len()
        invariant
            i <= results.len(),
            s == global_of(results@.take(i as int)),
        decreases results.len() - i,
    {
        proof {
            assert(results@.take(i + 1).drop_last() =~= results@.take(i as int));
        }
        s = s.max(results[i].worst_severity());
        i = i + 1;
    }
    assert(results@.take(results.len() as int) =~= results@);
    s
}

/// The exit code of `josephine status`: `0` when all is clear, `1` when
/// something deserves a look, `2` when something is critical — the worst
/// state among the checks.
pub fn status_exit_code(results: &Vec<CheckResult>) -> (code: i32)
    ensures
        code == crate::check::rank(global_of(results@)),
        0 <= code <= 2,
{
    global_severity(results).level() as i32
}

/// The actions of `josephine daemon`.
#[derive(Debug, Clone, Copy, PartialEq, Eq, Structural)]
pub enum DaemonAction {
    /// Start the guardian.
    Start,
    /// Stop it.
    Stop,
    /// Restart it.
    Restart,
    /// Show whether it runs.
    Status,
    /// Show its latest log lines.
    Logs,
}

/// The commands announced but not there yet.
#[derive(Debug, Clone, Copy, PartialEq, Eq, Structural)]
pub enum StubCommand {
    Clean { dry_run: bool },
    Fix,
    Report,
}

/// What an announced command will do.
pub fn stub_hint(cmd: StubCommand) -> (s: &'static str)
    ensures
        s@ == match cmd {
            StubCommand::Clean { dry_run: true } => "`josephine clean --dry-run` — nettoyage avec aperçu"@,
            StubCommand::Clean { dry_run: false } => "`josephine clean` — nettoyage guidé"@,
            StubCommand::Fix => "`josephine fix` — corrections accompagnées"@,
            StubCommand::Report => "`josephine report` — rapport complet exportable"@,
        },
{
    match cmd {
        StubCommand::Clean { dry_run: true } => "`josephine clean --dry-run` — nettoyage avec aperçu",
        StubCommand::Clean { dry_run: false } => "`josephine clean` — nettoyage guidé",
        StubCommand::Fix => "`josephine fix` — corrections accompagnées",
        StubCommand::Report => "`josephine report` — rapport complet exportable",
    }
}

/// A maximum over the history window, to the nearest unit, or a dash when
/// there is none.
pub fn format_max(value: Option<Milli>, unit: &str) -> (s: String)
    ensures
        s@ == match value {
            Some(v) => fmt_milli(v as int, 0) + unit@,
            None => "—"@,
        },
{
    match value {
        Some(v) => {
            let mut out: Vec<char> = Vec::new();
            push_all(&mut out, &fmt_milli_exec(v as i128, 0));
            push_str(&mut out, unit);
            string_of(out.as_slice())
        },
        None => "—".to_string(),
    }
}

pub open spec fn event_value_text(check: Seq<char>, metric: Seq<char>, v: int) -> Seq<char> {
    if check == "temperature"@ {
        fmt_milli(v, 0) + " °C"@
    } else if check == "systemd"@ && metric == "failed_units"@ {
        fmt_milli(v, 0) + " service(s)"@
    } else if check == "systemd"@ {
        fmt_milli(v, 0) + " restart(s)"@
    } else {
        fmt_milli(v, 0) + " %"@
    }
}

/// A recorded event's value in the words of its check.
pub fn format_event_value(check: &str, metric: &str, value: Milli) -> (s: String)
    ensures
        s@ == event_value_text(check@, metric@, value as int),
{
    let c = chars_of(check);
    let mut out: Vec<char> = Vec::new();
    push_all(&mut out, &fmt_milli_exec(value as i128, 0));
    if eq_str(&c, "temperature") {
        push_str(&mut out, " °C");
    } else if eq_str(&c, "systemd") && eq_str(&chars_of(metric), "failed_units") {
        push_str(&mut out, " service(s)");
    } else if eq_str(&c, "systemd") {
        push_str(&mut out, " restart(s)");
    } else {
        push_str(&mut out, " %");
    }
    string_of(out.as_slice())
}

/// How many of `width` cells a value fills on a gauge of `scale` (at least
/// one unit): the share of the scale, held between empty and full, rounded
/// to the nearest cell with halves up.
pub open spec fn filled_cells(value: Milli, scale: Milli, width: nat) -> nat {
    let s: int = if scale < 1000 {
        1000
    } else {
        scale as int
    };
    if value <= 0 {
        0
    } else if value >= s {
        width
    } else {
        ((2 * value * width + s) / (2 * s)) as nat
    }
}

pub open spec fn bar_text(filled: nat, width: nat) -> Seq<char> {
    Seq::new(filled, |i: int| '█') + Seq::new((width - filled) as nat, |i: int| '░')
}

/// A gauge of `width` cells: filled cells, then empty ones.
pub fn bar_plain(value: Milli, scale: Milli, width: usize) -> (s: String)
    ensures
        filled_cells(value, scale, width as nat) <= width,
        s@ == bar_text(filled_cells(value, scale, width as nat), width as nat),
{
    let sc: i64 = if scale < 1000 {
        1000
    } else {
        scale
    };
    let filled: usize = if value <= 0 {
        0
    } else if value >= sc {
        width
    } else {
        let v = value as u128;
        let w = width as u128;
        let s2 = sc as u128;
        assert(2 * v * w + s2 < 0x1_0000_0000_0000_0000_0000_0000_0000_0000) by (nonlinear_arith)
            requires
                v < s2,
                s2 < 0x8000_0000_0000_0000,
                w <= 0xffff_ffff_ffff_ffff,
        ;
        let f = (2 * v * w + s2) / (2 * s2);
        assert(f <= w) by (nonlinear_arith)
            requires
                f == (2 * v * w + s2) / (2 * s2),
                v < s2,
                s2 >= 1,
        ;
        f as usize
    };
    let mut out: Vec<char> = Vec::new();
    let mut i: usize = 0;
    while i < width
        invariant
            i <= width,
            filled <= width,
            out@ == bar_text(filled as nat, width as nat).take(i as int),
        decreases width - i,
    {
        if i < filled {
            out.push('█');
        } else {
            out.push('░');
        }
        assert(out@ =~= bar_text(filled as nat, width as nat).take(i + 1));
        i = i + 1;
    }
    assert(bar_text(filled as nat, width as nat).take(width as int) =~= bar_text(
        filled as nat,
        width as nat,
    ));
    string_of(out.as_slice())
}

/// The value of the first metric with the given name.
pub open spec fn first_value(ms: Seq<Metric>, name: Seq<char>) -> Option<Milli>
    decreases ms.len(),
{
    if ms.len() == 0 {
        None
    } else if ms[0].name@ == name {
        Some(ms[0].value)
    } else {
        first_value(ms.drop_first(), name)
    }
}

/// A count that reads as none: absent, or under one whole unit.
pub open spec fn counts_none(v: Option<Milli>) -> bool {
    match v {
        Some(x) => x < 1000,
        None => true,
    }
}

fn first_value_of(ms: &Vec<Metric>, name: &str) -> (r: Option<Milli>)
    ensures
        r == first_value(ms@, name@),
{
    let mut i: usize = 0;
    assert(ms@.skip(0) =~= ms@);
    while i < ms.len()
        invariant
            i <= ms.len(),
            first_value(ms@.skip(i as int), name@) == first_value(ms@, name@),
        decreases ms.len() - i,
    {
        proof {
            assert(ms@.skip(i as int)[0] == ms@[i as int]);
            assert(ms@.skip(i as int).drop_first() =~= ms@.skip(i + 1));
        }
        if eq_str(&chars_of(ms[i].name.as_str()), name) {
            return Some(ms[i].value);
        }
        i = i + 1;
    }
    None
}

/// A systemd report with no failed unit and no restart at all, which the
/// status table words as nothing to worry about.
pub fn systemd_all_clear(result: &CheckResult) -> (b: bool)
    ensures
        b == (counts_none(first_value(result.metrics@, "failed_units"@)) && counts_none(
            first_value(result.metrics@, "max_restarts"@),
        )),
{
    let failed = first_value_of(&result.metrics, "failed_units");
    let restarts = first_value_of(&result.metrics, "max_restarts");
    let none_failed = match failed {
        Some(v) => v < 1000,
        None => true,
    };
    let no_restarts = match restarts {
        Some(v) => v < 1000,
        None => true,
    };
    none_failed && no_restarts
}

/// The metric a summary line shows, by its index: the first metric with a
/// warning threshold, else the first one; `None` when there is none.
pub fn primary_metric(result: &CheckResult) -> (r: Option<usize>)
    ensures
        match r {
            None => result.metrics@.len() == 0,
            Some(i) => i < result.metrics@.len() && ((result.metrics@[i as int].threshold_warning is Some
                && forall|j: int|
                0 <= j < i ==> (#[trigger] result.metrics@[j]).threshold_warning is None) || (i == 0
                && forall|j: int|
                0 <= j < result.metrics@.len() ==> (
                #[trigger] result.metrics@[j]).threshold_warning is None)),
        },
{
    let mut i: usize = 0;
    while i < result.metrics.len()
        invariant
            i <= result.metrics@.len(),
            forall|j: int| 0 <= j < i ==> (#[trigger] result.metrics@[j]).threshold_warning is None,
        decreases result.metrics@.len() - i,
    {
        if result.metrics[i].threshold_warning.is_some() {
            return Some(i);
        }
        i = i + 1;
    }
    if result.metrics.len() > 0 {
        Some(0)
    } else {
        None
    }
}

/// A gauge's full scale: a percentage fills at 100 %, anything else at its
/// critical threshold, or at its own value when it has none.
pub fn metric_scale(metric: &Metric) -> (s: Milli)
    ensures
        s == if metric.unit@ == "%"@ {
            100_000
        } else {
            match metric.threshold_critical {
                Some(c) => c,
                None => metric.value,
            }
        },
{
    if eq_str(&chars_of(metric.unit.as_str()), "%") {
        100_000
    } else {
        match metric.threshold_critical {
            Some(c) => c,
            None => metric.value,
        }
    }
}

} // verus!
