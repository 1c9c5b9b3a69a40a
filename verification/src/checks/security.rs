//! Security signals — failed logins and sudo attempts in the last hour.
use vstd::prelude::*;

use crate::check::{count_milli, count_to_milli, metric, metric_view, CheckResult, ResultView};
use crate::config::SecurityCheckConfig;
use crate::lang::{t, Lang};
use crate::numfmt::{digits, digits_of};
use crate::source::{opt_text, Commands};
use crate::text::{count_lines_mentioning, count_mentioning, lines, push_all, push_str, string_of, strs_view};

verus! {

pub open spec fn failed_auth_patterns() -> Seq<Seq<char>> {
    seq!["failed password"@, "authentication failure"@, "invalid user"@]
}

/// Count the lines that record a failed authentication, compared without
/// regard to case.
pub fn count_failed_auths(log: &str) -> (n: usize)
    ensures
        n == count_mentioning(lines(log@), failed_auth_patterns()),
{
    let pats = vec!["failed password", "authentication failure", "invalid user"];
    assert(strs_view(pats@) =~= failed_auth_patterns());
    count_lines_mentioning(log, &pats)
}

/// The journal query for the messages of the last hour, bare.
pub open spec fn auth_log_args() -> Seq<Seq<char>> {
    seq!["--since"@, "1 hour ago"@, "-o"@, "cat"@, "-q"@, "--no-pager"@]
}

/// The last hour of the journal; `None` when it cannot be read.
pub fn recent_auth_log<C: Commands + ?Sized>(commands: &C) -> (r: Option<String>)
    ensures
        commands.may_answer("journalctl"@, auth_log_args(), opt_text(r)),
{
    let args = vec!["--since", "1 hour ago", "-o", "cat", "-q", "--no-pager"];
    assert(strs_view(args@) =~= auth_log_args());
    commands.output("journalctl", args.as_slice())
}

pub open spec fn security_result_view(count: nat, config: SecurityCheckConfig, lang: Lang) -> ResultView {
    let n = digits(count);
    ResultView {
        check: "security"@,
        metrics: seq![
            metric_view(
                "failed_auths"@,
                count_milli(count) as int,
                "events"@,
                Some(config.warning),
                Some(config.critical),
            ),
        ],
        details: {
            let first = match (lang, count == 0) {
                (Lang::En, true) => "No failed authentication attempts in the last hour."@,
                (Lang::En, false) => n + " failed authentication attempt(s) in the last hour."@,
                (Lang::Fr, true) => "Aucune tentative d'authentification échouée sur la dernière heure."@,
                (Lang::Fr, false) => n
                    + " tentative(s) d'authentification échouée(s) sur la dernière heure."@,
            };
            if count == 0 {
                seq![
                    first,
                    match lang {
                        Lang::En => "No suspicious login activity in the last hour."@,
                        Lang::Fr => "Aucune activité de connexion suspecte sur la dernière heure."@,
                    },
                ]
            } else {
                seq![first]
            }
        },
        top: seq![],
        status: Some(
            match lang {
                Lang::En => if count == 0 {
                    "no failed logins (1 h)"@
                } else if count == 1 {
                    "1 failed login (1 h)"@
                } else {
                    n + " failed logins (1 h)"@
                },
                Lang::Fr => if count == 0 {
                    "aucune connexion échouée (1 h)"@
                } else if count == 1 {
                    "1 connexion échouée (1 h)"@
                } else {
                    n + " connexions échouées (1 h)"@
                },
            },
        ),
    }
}

fn count_text(n: &Vec<char>, tail: &str) -> (s: String)
    ensures
        s@ == n@ + tail@,
{
    let mut out: Vec<char> = Vec::new();
    push_all(&mut out, n);
    push_str(&mut out, tail);
    string_of(out.as_slice())
}

/// The report for a count of failed authentications.
pub fn build_result(count: usize, config: &SecurityCheckConfig, lang: Lang) -> (r: CheckResult)
    ensures
        r@ == security_result_view(count as nat, *config, lang),
{
    let n = digits_of(count as u64);
    let status = match lang {
        Lang::En => if count == 0 {
            "no failed logins (1 h)".to_string()
        } else if count == 1 {
            "1 failed login (1 h)".to_string()
        } else {
            count_text(&n, " failed logins (1 h)")
        },
        Lang::Fr => if count == 0 {
            "aucune connexion échouée (1 h)".to_string()
        } else if count == 1 {
            "1 connexion échouée (1 h)".to_string()
        } else {
            count_text(&n, " connexions échouées (1 h)")
        },
    };
    let first = match (lang, count == 0) {
        (Lang::En, true) => "No failed authentication attempts in the last hour.".to_string(),
        (Lang::En, false) => count_text(&n, " failed authentication attempt(s) in the last hour."),
        (Lang::Fr, true) => "Aucune tentative d'authentification échouée sur la dernière heure.".to_string(),
        (Lang::Fr, false) => count_text(
            &n,
            " tentative(s) d'authentification échouée(s) sur la dernière heure.",
        ),
    };
    let mut details: Vec<String> = Vec::new();
    details.push(first);
    if count == 0 {
        details.push(
            t(
                lang,
                "No suspicious login activity in the last hour.",
                "Aucune activité de connexion suspecte sur la dernière heure.",
            ).to_string(),
        );
    }
    let value = count_to_milli(count as u64);
    let metrics = vec![
        metric("failed_auths", value, "events", Some(config.warning), Some(config.critical)),
    ];
    let r = CheckResult {
        check_name: "security".to_string(),
        metrics,
        details,
        top_processes: Vec::new(),
        status_value: Some(status),
    };
    assert(r@.details =~= security_result_view(count as nat, *config, lang).details);
    assert(r@.metrics =~= security_result_view(count as nat, *config, lang).metrics);
    assert(r@.top =~= security_result_view(count as nat, *config, lang).top);
    r
}

pub open spec fn unavailable_view(lang: Lang) -> ResultView {
    ResultView {
        check: "security"@,
        metrics: seq![],
        details: seq![
            match lang {
                Lang::En => "Authentication journal unreadable (systemd-journal group required?)."@,
                Lang::Fr => "Journal d'authentification inaccessible (groupe `systemd-journal` requis ?)."@,
            },
        ],
        top: seq![],
        status: Some(
            match lang {
                Lang::En => "Unavailable"@,
                Lang::Fr => "Indisponible"@,
            },
        ),
    }
}

/// The report when the journal cannot be read.
pub fn unavailable(lang: Lang) -> (r: CheckResult)
    ensures
        r@ == unavailable_view(lang),
{
    let details = vec![
        t(
            lang,
            "Authentication journal unreadable (systemd-journal group required?).",
            "Journal d'authentification inaccessible (groupe `systemd-journal` requis ?).",
        ).to_string(),
    ];
    let r = CheckResult {
        check_name: "security".to_string(),
        metrics: Vec::new(),
        details,
        top_processes: Vec::new(),
        status_value: Some(t(lang, "Unavailable", "Indisponible").to_string()),
    };
    assert(r@.details =~= unavailable_view(lang).details);
    assert(r@.metrics =~= unavailable_view(lang).metrics);
    assert(r@.top =~= unavailable_view(lang).top);
    r
}

/// The report for whatever the journal gave.
pub fn result_from_log(log: Option<&str>, config: &SecurityCheckConfig, lang: Lang) -> (r: CheckResult)
    ensures
        log is None ==> r@ == unavailable_view(lang),
        log matches Some(l) ==> r@ == security_result_view(
            count_mentioning(lines(l@), failed_auth_patterns()),
            *config,
            lang,
        ),
{
    match log {
        None => unavailable(lang),
        Some(l) => build_result(count_failed_auths(l), config, lang),
    }
}

} // verus!
