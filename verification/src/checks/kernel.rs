//! Kernel incidents — out-of-memory kills and faults (oops / BUG / panic) in
//! the last hour of the kernel journal.
use vstd::prelude::*;

use crate::check::{count_milli, count_to_milli, metric, metric_view, texts, CheckResult, ResultView};
use crate::config::KernelCheckConfig;
use crate::lang::{t, Lang};
use crate::numfmt::digits;
use crate::numfmt::digits_of;
use crate::source::{opt_text, Commands};
use crate::text::{count_lines_mentioning, count_mentioning, lines, push_all, push_str, string_of, strs_view};

verus! {

pub open spec fn incident_patterns() -> Seq<Seq<char>> {
    seq![
        "out of memory"@,
        "oom-kill"@,
        "invoked oom-killer"@,
        "bug:"@,
        "oops"@,
        "kernel panic"@,
        "general protection fault"@,
    ]
}

/// Count the lines of a kernel log that mention an OOM kill or a fault,
/// compared without regard to case.
pub fn count_incidents(log: &str) -> (n: usize)
    ensures
        n == count_mentioning(lines(log@), incident_patterns()),
{
    let pats = vec![
        "out of memory",
        "oom-kill",
        "invoked oom-killer",
        "bug:",
        "oops",
        "kernel panic",
        "general protection fault",
    ];
    assert(strs_view(pats@) =~= incident_patterns());
    count_lines_mentioning(log, &pats)
}

/// The journal query for the kernel's messages of the last hour, bare.
pub open spec fn kernel_log_args() -> Seq<Seq<char>> {
    seq!["-k"@, "--since"@, "1 hour ago"@, "-o"@, "cat"@, "-q"@, "--no-pager"@]
}

/// The last hour of the kernel journal, from `journalctl -k`; `None` when
/// the journal cannot be read.
pub fn recent_kernel_log<C: Commands + ?Sized>(commands: &C) -> (r: Option<String>)
    ensures
        commands.may_answer("journalctl"@, kernel_log_args(), opt_text(r)),
{
    let args = vec!["-k", "--since", "1 hour ago", "-o", "cat", "-q", "--no-pager"];
    assert(strs_view(args@) =~= kernel_log_args());
    commands.output("journalctl", args.as_slice())
}

pub open spec fn kernel_result_view(incidents: nat, config: KernelCheckConfig, lang: Lang) -> ResultView {
    let n = digits(incidents);
    ResultView {
        check: "kernel"@,
        metrics: seq![
            metric_view(
                "kernel_incidents"@,
                count_milli(incidents) as int,
                "events"@,
                Some(config.warning),
                Some(config.critical),
            ),
        ],
        details: {
            let first = match lang {
                Lang::En => n + " kernel incident(s) in the last hour (OOM, oops, BUG…)"@,
                Lang::Fr => n + " incident(s) noyau dans la dernière heure (OOM, oops, BUG…)"@,
            };
            if incidents == 0 {
                seq![
                    first,
                    match lang {
                        Lang::En => "No kernel incidents in the last hour."@,
                        Lang::Fr => "Aucun incident noyau sur la dernière heure."@,
                    },
                ]
            } else {
                seq![first]
            }
        },
        top: seq![],
        status: Some(
            if incidents == 1 {
                "1 incident (1 h)"@
            } else {
                n + " incidents (1 h)"@
            },
        ),
    }
}

/// The report for a count of incidents.
pub fn build_result(incidents: usize, config: &KernelCheckConfig, lang: Lang) -> (r: CheckResult)
    ensures
        r@ == kernel_result_view(incidents as nat, *config, lang),
{
    let n = digits_of(incidents as u64);
    let status = if incidents == 1 {
        "1 incident (1 h)".to_string()
    } else {
        let mut out: Vec<char> = Vec::new();
        push_all(&mut out, &n);
        push_str(&mut out, " incidents (1 h)");
        string_of(out.as_slice())
    };
    let mut first: Vec<char> = Vec::new();
    push_all(&mut first, &n);
    push_str(
        &mut first,
        t(
            lang,
            " kernel incident(s) in the last hour (OOM, oops, BUG…)",
            " incident(s) noyau dans la dernière heure (OOM, oops, BUG…)",
        ),
    );
    let mut details: Vec<String> = Vec::new();
    details.push(string_of(first.as_slice()));
    if incidents == 0 {
        details.push(
            t(
                lang,
                "No kernel incidents in the last hour.",
                "Aucun incident noyau sur la dernière heure.",
            ).to_string(),
        );
    }
    let value = count_to_milli(incidents as u64);
    let metrics = vec![
        metric("kernel_incidents", value, "events", Some(config.warning), Some(config.critical)),
    ];
    let r = CheckResult {
        check_name: "kernel".to_string(),
        metrics,
        details,
        top_processes: Vec::new(),
        status_value: Some(status),
    };
    assert(r@.details =~= kernel_result_view(incidents as nat, *config, lang).details);
    assert(r@.metrics =~= kernel_result_view(incidents as nat, *config, lang).metrics);
    assert(r@.top =~= kernel_result_view(incidents as nat, *config, lang).top);
    r
}

/// The report when the kernel journal cannot be read: no metric, so no
/// alert, and a plain word that it is unreadable.
pub fn unavailable(lang: Lang) -> (r: CheckResult)
    ensures
        r@ == unavailable_view(lang),
{
    let details = vec![
        t(
            lang,
            "Kernel journal unreadable (systemd-journal group required?).",
            "Journal noyau inaccessible (groupe `systemd-journal` requis ?).",
        ).to_string(),
    ];
    let r = CheckResult {
        check_name: "kernel".to_string(),
        metrics: Vec::new(),
        details,
        top_processes: Vec::new(),
        status_value: Some(t(lang, "Journal unreadable", "Journal inaccessible").to_string()),
    };
    assert(r@.details =~= seq![
        match lang {
            Lang::En => "Kernel journal unreadable (systemd-journal group required?)."@,
            Lang::Fr => "Journal noyau inaccessible (groupe `systemd-journal` requis ?)."@,
        },
    ]);
    assert(r@.metrics =~= Seq::<crate::check::MetricView>::empty());
    assert(r@.top =~= Seq::<Seq<char>>::empty());
    r
}

/// The report for whatever the journal gave: unavailable when unreadable,
/// otherwise the count of incidents in it.
pub fn result_from_log(log: Option<&str>, config: &KernelCheckConfig, lang: Lang) -> (r: CheckResult)
    ensures
        log is None ==> r@ == unavailable_view(lang),
        log matches Some(l) ==> r@ == kernel_result_view(
            count_mentioning(lines(l@), incident_patterns()),
            *config,
            lang,
        ),
{
    match log {
        None => unavailable(lang),
        Some(l) => build_result(count_incidents(l), config, lang),
    }
}

pub open spec fn unavailable_view(lang: Lang) -> ResultView {
    ResultView {
        check: "kernel"@,
        metrics: seq![],
        details: seq![
            match lang {
                Lang::En => "Kernel journal unreadable (systemd-journal group required?)."@,
                Lang::Fr => "Journal noyau inaccessible (groupe `systemd-journal` requis ?)."@,
            },
        ],
        top: seq![],
        status: Some(
            match lang {
                Lang::En => "Journal unreadable"@,
                Lang::Fr => "Journal inaccessible"@,
            },
        ),
    }
}

} // verus!
