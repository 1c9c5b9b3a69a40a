//! Clock synchronisation — an unsynchronised clock breaks log correlation,
//! certificate validation and schedules. Reads `timedatectl show`.
use vstd::prelude::*;

use crate::check::{metric, metric_view, CheckResult, ResultView};
use crate::config::TimesyncCheckConfig;
use crate::lang::{t, Lang};
use crate::source::{opt_text, Commands};
use crate::text::{
    chars_of, eq_str, lines, split_lines, starts_with, strip_prefix_str, strs_view, trim, trim_chars,
    views,
};

verus! {

/// `0` when the first `NTPSynchronized=` line says `yes`, `1` otherwise —
/// including when no such line exists (a drift risk is surfaced rather than
/// silently passed).
pub open spec fn clock_unsynced_of(ls: Seq<Seq<char>>) -> u8
    decreases ls.len(),
{
    if ls.len() == 0 {
        1
    } else {
        let l = trim(ls[0]);
        if starts_with(l, "NTPSynchronized="@) {
            if trim(l.skip("NTPSynchronized="@.len() as int)) == "yes"@ {
                0
            } else {
                1
            }
        } else {
            clock_unsynced_of(ls.drop_first())
        }
    }
}

/// Read the synchronisation flag from `timedatectl show` output.
pub fn parse_clock_unsynced(output: &str) -> (r: u8)
    ensures
        r == clock_unsynced_of(lines(output@)),
{
    let chars = chars_of(output);
    let ls = split_lines(&chars);
    let ghost all = views(ls@);
    let mut i: usize = 0;
    proof {
        assert(all.skip(0) =~= all);
    }
    while i < ls.len()
        invariant
            i <= ls@.len(),
            all == views(ls@),
            all == lines(output@),
            clock_unsynced_of(all.skip(i as int)) == clock_unsynced_of(all),
        decreases ls@.len() - i,
    {
        proof {
            assert(all.skip(i as int)[0] == ls@[i as int]@);
            assert(all.skip(i as int).drop_first() =~= all.skip(i + 1));
        }
        let line = trim_chars(&ls[i]);
        match strip_prefix_str(&line, "NTPSynchronized=") {
            Some(rest) => {
                let value = trim_chars(&rest);
                if eq_str(&value, "yes") {
                    return 0;
                } else {
                    return 1;
                }
            },
            None => {},
        }
        i = i + 1;
    }
    1
}

/// The `timedatectl` query for the two properties read.
pub open spec fn timedatectl_args() -> Seq<Seq<char>> {
    seq!["show"@, "--property=NTPSynchronized"@, "--property=NTP"@]
}

/// `timedatectl show` for the two properties read; `None` when it fails.
pub fn timedatectl_show<C: Commands + ?Sized>(commands: &C) -> (r: Option<String>)
    ensures
        commands.may_answer("timedatectl"@, timedatectl_args(), opt_text(r)),
{
    let args = vec!["show", "--property=NTPSynchronized", "--property=NTP"];
    assert(strs_view(args@) =~= timedatectl_args());
    commands.output("timedatectl", args.as_slice())
}

pub open spec fn timesync_result_view(unsynced: u8, config: TimesyncCheckConfig, lang: Lang) -> ResultView {
    let synced = unsynced == 0;
    ResultView {
        check: "timesync"@,
        metrics: seq![
            metric_view(
                "clock_unsynced"@,
                unsynced as int * 1000,
                "flag"@,
                Some(config.warning),
                Some(config.critical),
            ),
        ],
        details: {
            let first = match (lang, synced) {
                (Lang::En, true) => "System clock is synchronised via NTP."@,
                (Lang::En, false) => "System clock is not synchronised (NTP)."@,
                (Lang::Fr, true) => "L'horloge système est synchronisée via NTP."@,
                (Lang::Fr, false) => "L'horloge système n'est pas synchronisée (NTP)."@,
            };
            if synced {
                seq![
                    first,
                    match lang {
                        Lang::En => "NTP is active and the clock is in sync."@,
                        Lang::Fr => "Le NTP est actif et l'horloge est synchronisée."@,
                    },
                ]
            } else {
                seq![first]
            }
        },
        top: seq![],
        status: Some(
            match (lang, synced) {
                (Lang::En, true) => "in sync"@,
                (Lang::En, false) => "not synchronised"@,
                (Lang::Fr, true) => "synchronisée"@,
                (Lang::Fr, false) => "non synchronisée"@,
            },
        ),
    }
}

/// The report for the synchronisation flag.
pub fn build_result(unsynced: u8, config: &TimesyncCheckConfig, lang: Lang) -> (r: CheckResult)
    ensures
        r@ == timesync_result_view(unsynced, *config, lang),
{
    let synced = unsynced == 0;
    let status = match (lang, synced) {
        (Lang::En, true) => "in sync",
        (Lang::En, false) => "not synchronised",
        (Lang::Fr, true) => "synchronisée",
        (Lang::Fr, false) => "non synchronisée",
    };
    let first = match (lang, synced) {
        (Lang::En, true) => "System clock is synchronised via NTP.",
        (Lang::En, false) => "System clock is not synchronised (NTP).",
        (Lang::Fr, true) => "L'horloge système est synchronisée via NTP.",
        (Lang::Fr, false) => "L'horloge système n'est pas synchronisée (NTP).",
    };
    let mut details: Vec<String> = Vec::new();
    details.push(first.to_string());
    if synced {
        details.push(
            t(
                lang,
                "NTP is active and the clock is in sync.",
                "Le NTP est actif et l'horloge est synchronisée.",
            ).to_string(),
        );
    }
    let metrics = vec![
        metric(
            "clock_unsynced",
            (unsynced as i64) * 1000,
            "flag",
            Some(config.warning),
            Some(config.critical),
        ),
    ];
    let r = CheckResult {
        check_name: "timesync".to_string(),
        metrics,
        details,
        top_processes: Vec::new(),
        status_value: Some(status.to_string()),
    };
    assert(r@.details =~= timesync_result_view(unsynced, *config, lang).details);
    assert(r@.metrics =~= timesync_result_view(unsynced, *config, lang).metrics);
    assert(r@.top =~= timesync_result_view(unsynced, *config, lang).top);
    r
}

pub open spec fn unavailable_view(lang: Lang) -> ResultView {
    ResultView {
        check: "timesync"@,
        metrics: seq![],
        details: seq![
            match lang {
                Lang::En => "Clock status unavailable (`timedatectl` not found or failed)."@,
                Lang::Fr => "État de l'horloge indisponible (`timedatectl` introuvable ou en échec)."@,
            },
        ],
        top: seq![],
        status: Some(
            match lang {
                Lang::En => "Unavailable"@,
                Lang::Fr => "Indisponible"@,
            },
        ),
    }
}

/// The report when `timedatectl` cannot answer.
pub fn unavailable(lang: Lang) -> (r: CheckResult)
    ensures
        r@ == unavailable_view(lang),
{
    let details = vec![
        t(
            lang,
            "Clock status unavailable (`timedatectl` not found or failed).",
            "État de l'horloge indisponible (`timedatectl` introuvable ou en échec).",
        ).to_string(),
    ];
    let r = CheckResult {
        check_name: "timesync".to_string(),
        metrics: Vec::new(),
        details,
        top_processes: Vec::new(),
        status_value: Some(t(lang, "Unavailable", "Indisponible").to_string()),
    };
    assert(r@.details =~= unavailable_view(lang).details);
    assert(r@.metrics =~= unavailable_view(lang).metrics);
    assert(r@.top =~= unavailable_view(lang).top);
    r
}

/// The report for whatever `timedatectl` gave.
pub fn result_from_output(output: Option<&str>, config: &TimesyncCheckConfig, lang: Lang) -> (r: CheckResult)
    ensures
        output is None ==> r@ == unavailable_view(lang),
        output matches Some(o) ==> r@ == timesync_result_view(
            clock_unsynced_of(lines(o@)),
            *config,
            lang,
        ),
{
    match output {
        None => unavailable(lang),
        Some(o) => build_result(parse_clock_unsynced(o), config, lang),
    }
}

} // verus!
