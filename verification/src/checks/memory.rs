//! Memory — RAM and swap in use, and the processes that hold the most.
use vstd::prelude::*;

use crate::check::{human_size, human_size_text, metric, metric_view, texts, CheckResult, ResultView};
use crate::checks::processes::{top_indices, top_order, ProcessSample};
use crate::config::CheckThresholds;
use crate::numfmt::{digits, digits_of, fmt_ratio, fmt_ratio_exec, round_half_even, Milli};
use crate::text::{chars_of, push_all, push_str, string_of};

verus! {

/// What the system says of its memory, in bytes.
#[derive(Debug, Clone, Copy)]
pub struct MemorySample {
    pub total: u64,
    pub used: u64,
    pub swap_total: u64,
    pub swap_used: u64,
}

/// `part` as a share of `whole`, in thousandths of a percent to the nearest
/// one; `0` when `whole` is nothing, and no more than a `Milli` holds.
pub open spec fn share_milli(part: nat, whole: nat) -> Milli {
    if whole == 0 {
        0
    } else {
        let v = round_half_even(part * 100_000, whole);
        if v > i64::MAX {
            i64::MAX
        } else {
            v as Milli
        }
    }
}

/// `part` as a share of `whole`, in percent with `d` decimals (`0` when
/// `whole` is nothing).
pub open spec fn share_text(part: nat, whole: nat, d: nat) -> Seq<char> {
    if whole == 0 {
        fmt_ratio(0, 1, d)
    } else {
        fmt_ratio(part as int * 100, whole, d)
    }
}

pub fn share(part: u64, whole: u64) -> (v: Milli)
    ensures
        v == share_milli(part as nat, whole as nat),
{
    if whole == 0 {
        return 0;
    }
    let v = crate::numfmt::round_half_even_exec(part as u128 * 100_000, whole as u128);
    if v > 9_223_372_036_854_775_807u128 {
        9_223_372_036_854_775_807
    } else {
        v as i64
    }
}

fn share_fmt(part: u64, whole: u64, d: u32) -> (s: Vec<char>)
    requires
        d <= 3,
    ensures
        s@ == share_text(part as nat, whole as nat, d as nat),
{
    if whole == 0 {
        fmt_ratio_exec(0, 1, d)
    } else {
        fmt_ratio_exec(part as i128 * 100, whole, d)
    }
}

pub open spec fn gib() -> nat {
    1_073_741_824
}

pub open spec fn memory_keys(ps: Seq<ProcessSample>) -> Seq<i128> {
    Seq::new(ps.len(), |i: int| ps[i].memory as i128)
}

pub open spec fn memory_line(p: ProcessSample) -> Seq<char> {
    p.name@ + " (PID "@ + digits(p.pid as nat) + ") — "@ + fmt_ratio(p.memory as int, 1_048_576, 1)
        + " Mo"@
}

pub open spec fn memory_result_view(
    m: MemorySample,
    ps: Seq<ProcessSample>,
    thresholds: CheckThresholds,
) -> ResultView {
    let order = top_order(memory_keys(ps), 10);
    ResultView {
        check: "memory"@,
        metrics: seq![
            metric_view(
                "usage_percent"@,
                share_milli(m.used as nat, m.total as nat) as int,
                "%"@,
                Some(thresholds.warning),
                Some(thresholds.critical),
            ),
            metric_view(
                "swap_percent"@,
                share_milli(m.swap_used as nat, m.swap_total as nat) as int,
                "%"@,
                Some(thresholds.warning),
                Some(thresholds.critical),
            ),
        ],
        details: seq![
            "Mémoire utilisée : "@ + share_text(m.used as nat, m.total as nat, 1) + " % ("@
                + fmt_ratio(m.used as int, gib(), 1) + " / "@ + fmt_ratio(m.total as int, gib(), 1)
                + " Go)"@,
            "Swap utilisé : "@ + share_text(m.swap_used as nat, m.swap_total as nat, 1) + " %"@,
        ],
        top: Seq::new(order.len(), |a: int| memory_line(ps[order[a] as int])),
        status: Some(
            share_text(m.used as nat, m.total as nat, 0) + "% ("@ + human_size_text(m.used as nat)
                + " / "@ + human_size_text(m.total as nat) + ")"@,
        ),
    }
}

/// The report: RAM and swap use against the thresholds, and the ten
/// processes holding the most memory.
pub fn build_result(
    sample: &MemorySample,
    processes: &Vec<ProcessSample>,
    thresholds: &CheckThresholds,
) -> (r: CheckResult)
    ensures
        r@ == memory_result_view(*sample, processes@, *thresholds),
{
    let mut keys: Vec<i128> = Vec::new();
    let mut i: usize = 0;
    while i < processes.len()
        invariant
            i <= processes.len(),
            keys@ == memory_keys(processes@).take(i as int),
        decreases processes.len() - i,
    {
        keys.push(processes[i].memory as i128);
        assert(keys@ =~= memory_keys(processes@).take(i + 1));
        i = i + 1;
    }
    assert(keys@ =~= memory_keys(processes@));
    let order = top_indices(&keys, 10);
    let mut top: Vec<String> = Vec::new();
    let mut a: usize = 0;
    while a < order.len()
        invariant
            a <= order.len(),
            order@ == top_order(memory_keys(processes@), 10),
            crate::checks::processes::is_top(memory_keys(processes@), order@, 10),
            texts(top@) == Seq::new(a as nat, |b: int| memory_line(processes@[order@[b] as int])),
        decreases order.len() - a,
    {
        let p = &processes[order[a]];
        let mut line: Vec<char> = Vec::new();
        push_all(&mut line, &chars_of(p.name.as_str()));
        push_str(&mut line, " (PID ");
        push_all(&mut line, &digits_of(p.pid as u64));
        push_str(&mut line, ") — ");
        push_all(&mut line, &fmt_ratio_exec(p.memory as i128, 1_048_576, 1));
        push_str(&mut line, " Mo");
        let ghost before = texts(top@);
        top.push(string_of(line.as_slice()));
        proof {
            assert(texts(top@) =~= before.push(line@));
            assert(texts(top@) =~= Seq::new(
                (a + 1) as nat,
                |b: int| memory_line(processes@[order@[b] as int]),
            ));
        }
        a = a + 1;
    }
    let mut first: Vec<char> = Vec::new();
    push_str(&mut first, "Mémoire utilisée : ");
    push_all(&mut first, &share_fmt(sample.used, sample.total, 1));
    push_str(&mut first, " % (");
    push_all(&mut first, &fmt_ratio_exec(sample.used as i128, 1_073_741_824, 1));
    push_str(&mut first, " / ");
    push_all(&mut first, &fmt_ratio_exec(sample.total as i128, 1_073_741_824, 1));
    push_str(&mut first, " Go)");
    let mut second: Vec<char> = Vec::new();
    push_str(&mut second, "Swap utilisé : ");
    push_all(&mut second, &share_fmt(sample.swap_used, sample.swap_total, 1));
    push_str(&mut second, " %");
    let mut st: Vec<char> = Vec::new();
    push_all(&mut st, &share_fmt(sample.used, sample.total, 0));
    push_str(&mut st, "% (");
    push_all(&mut st, &chars_of(human_size(sample.used).as_str()));
    push_str(&mut st, " / ");
    push_all(&mut st, &chars_of(human_size(sample.total).as_str()));
    push_str(&mut st, ")");
    let metrics = vec![
        metric(
            "usage_percent",
            share(sample.used, sample.total),
            "%",
            Some(thresholds.warning),
            Some(thresholds.critical),
        ),
        metric(
            "swap_percent",
            share(sample.swap_used, sample.swap_total),
            "%",
            Some(thresholds.warning),
            Some(thresholds.critical),
        ),
    ];
    let r = CheckResult {
        check_name: "memory".to_string(),
        metrics,
        details: vec![string_of(first.as_slice()), string_of(second.as_slice())],
        top_processes: top,
        status_value: Some(string_of(st.as_slice())),
    };
    let ghost want = memory_result_view(*sample, processes@, *thresholds);
    assert(r@.details =~= want.details);
    assert(r@.metrics =~= want.metrics);
    assert(r@.top =~= want.top);
    r
}

} // verus!
