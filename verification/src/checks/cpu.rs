//! CPU — overall use, the load average, and the busiest processes.
use vstd::prelude::*;

use crate::check::{metric, metric_view, texts, CheckResult, ResultView};
use crate::checks::processes::{top_indices, top_order, ProcessSample};
use crate::config::CheckThresholds;
use crate::lang::{t, Lang};
use crate::numfmt::{digits, digits_of, fmt_milli, fmt_milli_exec, Milli};
use crate::text::{chars_of, push_all, push_str, string_of};

verus! {

/// What the system says of its processors, in thousandths.
#[derive(Debug, Clone, Copy)]
pub struct CpuSample {
    /// Overall use, in thousandths of a percent.
    pub usage: Milli,
    /// Load average over one, five and fifteen minutes.
    pub load_one: Milli,
    pub load_five: Milli,
    pub load_fifteen: Milli,
}

pub open spec fn cpu_keys(ps: Seq<ProcessSample>) -> Seq<i128> {
    Seq::new(ps.len(), |i: int| ps[i].cpu as i128)
}

pub open spec fn cpu_line(p: ProcessSample) -> Seq<char> {
    p.name@ + " (PID "@ + digits(p.pid as nat) + ") — "@ + fmt_milli(p.cpu as int, 1) + " %"@
}

pub open spec fn cpu_result_view(
    s: CpuSample,
    ps: Seq<ProcessSample>,
    thresholds: CheckThresholds,
    lang: Lang,
) -> ResultView {
    let order = top_order(cpu_keys(ps), 10);
    let loads = fmt_milli(s.load_one as int, 2) + " / "@ + fmt_milli(s.load_five as int, 2) + " / "@
        + fmt_milli(s.load_fifteen as int, 2) + " (1/5/15 min)"@;
    ResultView {
        check: "cpu"@,
        metrics: seq![
            metric_view(
                "usage_percent"@,
                s.usage as int,
                "%"@,
                Some(thresholds.warning),
                Some(thresholds.critical),
            ),
        ],
        details: seq![
            match lang {
                Lang::En => "CPU usage: "@ + fmt_milli(s.usage as int, 1) + " %"@,
                Lang::Fr => "Utilisation CPU : "@ + fmt_milli(s.usage as int, 1) + " %"@,
            },
            match lang {
                Lang::En => "Load average: "@ + loads,
                Lang::Fr => "Charge moyenne : "@ + loads,
            },
        ],
        top: Seq::new(order.len(), |a: int| cpu_line(ps[order[a] as int])),
        status: Some(fmt_milli(s.usage as int, 0) + "%"@),
    }
}

/// The report: overall use against the thresholds, the load average, and
/// the ten busiest processes.
pub fn build_result(
    sample: &CpuSample,
    processes: &Vec<ProcessSample>,
    thresholds: &CheckThresholds,
    lang: Lang,
) -> (r: CheckResult)
    ensures
        r@ == cpu_result_view(*sample, processes@, *thresholds, lang),
{
    let mut keys: Vec<i128> = Vec::new();
    let mut i: usize = 0;
    while i < processes.len()
        invariant
            i <= processes.len(),
            keys@ == cpu_keys(processes@).take(i as int),
        decreases processes.len() - i,
    {
        keys.push(processes[i].cpu as i128);
        assert(keys@ =~= cpu_keys(processes@).take(i + 1));
        i = i + 1;
    }
    assert(keys@ =~= cpu_keys(processes@));
    let order = top_indices(&keys, 10);
    let mut top: Vec<String> = Vec::new();
    let mut a: usize = 0;
    while a < order.len()
        invariant
            a <= order.len(),
            order@ == top_order(cpu_keys(processes@), 10),
            crate::checks::processes::is_top(cpu_keys(processes@), order@, 10),
            texts(top@) == Seq::new(a as nat, |b: int| cpu_line(processes@[order@[b] as int])),
        decreases order.len() - a,
    {
        let p = &processes[order[a]];
        let mut line: Vec<char> = Vec::new();
        push_all(&mut line, &chars_of(p.name.as_str()));
        push_str(&mut line, " (PID ");
        push_all(&mut line, &digits_of(p.pid as u64));
        push_str(&mut line, ") — ");
        push_all(&mut line, &fmt_milli_exec(p.cpu as i128, 1));
        push_str(&mut line, " %");
        let ghost before = texts(top@);
        top.push(string_of(line.as_slice()));
        proof {
            assert(texts(top@) =~= before.push(line@));
            assert(texts(top@) =~= Seq::new(
                (a + 1) as nat,
                |b: int| cpu_line(processes@[order@[b] as int]),
            ));
        }
        a = a + 1;
    }
    let mut loads: Vec<char> = Vec::new();
    push_all(&mut loads, &fmt_milli_exec(sample.load_one as i128, 2));
    push_str(&mut loads, " / ");
    push_all(&mut loads, &fmt_milli_exec(sample.load_five as i128, 2));
    push_str(&mut loads, " / ");
    push_all(&mut loads, &fmt_milli_exec(sample.load_fifteen as i128, 2));
    push_str(&mut loads, " (1/5/15 min)");
    let mut first: Vec<char> = Vec::new();
    push_str(&mut first, t(lang, "CPU usage: ", "Utilisation CPU : "));
    push_all(&mut first, &fmt_milli_exec(sample.usage as i128, 1));
    push_str(&mut first, " %");
    let mut second: Vec<char> = Vec::new();
    push_str(&mut second, t(lang, "Load average: ", "Charge moyenne : "));
    push_all(&mut second, &loads);
    let mut st: Vec<char> = Vec::new();
    push_all(&mut st, &fmt_milli_exec(sample.usage as i128, 0));
    push_str(&mut st, "%");
    let metrics = vec![
        metric(
            "usage_percent",
            sample.usage,
            "%",
            Some(thresholds.warning),
            Some(thresholds.critical),
        ),
    ];
    let r = CheckResult {
        check_name: "cpu".to_string(),
        metrics,
        details: vec![string_of(first.as_slice()), string_of(second.as_slice())],
        top_processes: top,
        status_value: Some(string_of(st.as_slice())),
    };
    let ghost want = cpu_result_view(*sample, processes@, *thresholds, lang);
    assert(r@.details =~= want.details);
    assert(r@.metrics =~= want.metrics);
    assert(r@.top =~= want.top);
    r
}

} // verus!
