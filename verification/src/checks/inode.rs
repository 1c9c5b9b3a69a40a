//! Inodes — a filesystem can be "full" on inodes while still showing free
//! space (lots of tiny files). Reads `df -iPT`, which runs fine as a normal
//! user; the listing without its `Type` column (`df -iP`) reads as well.
use vstd::prelude::*;

use crate::check::{metric, metric_view, CheckResult, ResultView};
use crate::config::CheckThresholds;
use crate::lang::{t, Lang};
use crate::numfmt::{decimal_milli_of, fmt_milli, fmt_milli_exec, parse_decimal_milli, Milli};
use crate::source::{opt_text, Commands};
use crate::text::{
    chars_of, eq_str, lines, push_all, push_str, split_lines, split_words, starts_with,
    starts_with_str, string_of, strs_view, views, words,
};

verus! {

/// One real filesystem's inode usage.
#[derive(Debug, Clone)]
pub struct InodeReading {
    pub mount: String,
    /// Percentage of inodes in use, in thousandths of a percent.
    pub usage_percent: Milli,
}

pub open spec fn reading_views(v: Seq<InodeReading>) -> Seq<(Seq<char>, Milli)> {
    Seq::new(v.len(), |i: int| (v[i].mount@, v[i].usage_percent))
}

/// Mount points that are not real storage: devices, kernel interfaces,
/// runtime state and snap images.
pub open spec fn is_pseudo_mount(m: Seq<char>) -> bool {
    ||| starts_with(m, "/dev"@)
    ||| starts_with(m, "/proc"@)
    ||| starts_with(m, "/sys"@)
    ||| starts_with(m, "/run"@)
    ||| starts_with(m, "/snap"@)
}

pub fn is_pseudo(mount: &Vec<char>) -> (b: bool)
    ensures
        b == is_pseudo_mount(mount@),
{
    starts_with_str(mount, "/dev") || starts_with_str(mount, "/proc") || starts_with_str(
        mount,
        "/sys",
    ) || starts_with_str(mount, "/run") || starts_with_str(mount, "/snap")
}

/// `s` without its trailing `%` signs (`str::trim_end_matches('%')`).
pub open spec fn trim_percent(s: Seq<char>) -> Seq<char>
    decreases s.len(),
{
    if s.len() > 0 && s.last() == '%' {
        trim_percent(s.drop_last())
    } else {
        s
    }
}

fn trim_percent_vec(s: &Vec<char>) -> (r: Vec<char>)
    ensures
        r@ == trim_percent(s@),
{
    let mut r = s.clone();
    assert(r@ =~= s@);
    while r.len() > 0 && r[r.len() - 1] == '%'
        invariant
            trim_percent(r@) == trim_percent(s@),
        decreases r.len(),
    {
        let ghost before = r@;
        r.pop();
        assert(r@ =~= before.drop_last());
    }
    r
}

/// The listing has a `Type` column (`df -T`) when its header says so.
pub open spec fn typed_listing(ls: Seq<Seq<char>>) -> bool {
    ls.len() > 0 && words(ls[0]).len() > 1 && words(ls[0])[1] == "Type"@
}

/// The mount point and usage one row gives, unless it is too short, a pseudo
/// mount, or has no inode accounting (`-` in place of the counts).
pub open spec fn inode_row(line: Seq<char>, typed: bool) -> Option<(Seq<char>, Milli)> {
    let f = words(line);
    let off: int = if typed {
        1
    } else {
        0
    };
    if f.len() < 6 + off {
        None
    } else if is_pseudo_mount(f[5 + off]) {
        None
    } else {
        match decimal_milli_of(trim_percent(f[4 + off])) {
            Some(v) => Some((f[5 + off], v)),
            None => None,
        }
    }
}

pub open spec fn inode_rows(rows: Seq<Seq<char>>, typed: bool) -> Seq<(Seq<char>, Milli)>
    decreases rows.len(),
{
    if rows.len() == 0 {
        seq![]
    } else {
        inode_rows(rows.drop_last(), typed) + match inode_row(rows.last(), typed) {
            Some(r) => seq![r],
            None => seq![],
        }
    }
}

/// The readings of a `df -iP` or `df -iPT` listing: every row after the
/// header that is a real filesystem with inode accounting.
pub open spec fn df_inodes_of(stdout: Seq<char>) -> Seq<(Seq<char>, Milli)> {
    let ls = lines(stdout);
    if ls.len() == 0 {
        seq![]
    } else {
        inode_rows(ls.drop_first(), typed_listing(ls))
    }
}

fn row_reading(line: &Vec<char>, typed: bool) -> (r: Option<InodeReading>)
    ensures
        r is Some <==> inode_row(line@, typed) is Some,
        r matches Some(x) ==> inode_row(line@, typed) == Some((x.mount@, x.usage_percent)),
{
    let f = split_words(line);
    let off: usize = if typed {
        1
    } else {
        0
    };
    if f.len() < 6 + off {
        return None;
    }
    proof {
        assert(views(f@)[5 + off] == f@[5 + off]@);
        assert(views(f@)[4 + off] == f@[4 + off]@);
    }
    if is_pseudo(&f[5 + off]) {
        return None;
    }
    let pct = trim_percent_vec(&f[4 + off]);
    match parse_decimal_milli(&pct) {
        Some(v) => Some(InodeReading { mount: string_of(f[5 + off].as_slice()), usage_percent: v }),
        None => None,
    }
}

/// Parse `df -iP` or `df -iPT` output, keeping only real filesystems with
/// inode accounting.
pub fn parse_df_inodes(stdout: &str) -> (r: Vec<InodeReading>)
    ensures
        reading_views(r@) == df_inodes_of(stdout@),
{
    let all = split_lines(&chars_of(stdout));
    let ghost ls = views(all@);
    let mut r: Vec<InodeReading> = Vec::new();
    if all.len() == 0 {
        assert(reading_views(r@) =~= Seq::<(Seq<char>, Milli)>::empty());
        return r;
    }
    let head = split_words(&all[0]);
    let typed = head.len() > 1 && eq_str(&head[1], "Type");
    proof {
        assert(ls[0] == all@[0]@);
        if head.len() > 1 {
            assert(views(head@)[1] == head@[1]@);
        }
        assert(typed == typed_listing(ls));
    }
    let ghost rows = ls.drop_first();
    let mut i: usize = 1;
    proof {
        assert(rows.take(0) =~= Seq::<Seq<char>>::empty());
        assert(reading_views(r@) =~= Seq::<(Seq<char>, Milli)>::empty());
    }
    while i < all.len()
        invariant
            1 <= i <= all.len(),
            ls == views(all@),
            ls == lines(stdout@),
            rows == ls.drop_first(),
            typed == typed_listing(ls),
            reading_views(r@) == inode_rows(rows.take(i - 1), typed),
        decreases all.len() - i,
    {
        proof {
            assert(rows.take(i as int).drop_last() =~= rows.take(i - 1));
            assert(rows.take(i as int).last() == all@[i as int]@);
        }
        let ghost before = r@;
        match row_reading(&all[i], typed) {
            Some(x) => {
                r.push(x);
                assert(reading_views(r@) =~= reading_views(before) + seq![
                    (x.mount@, x.usage_percent),
                ]);
            },
            None => {
                assert(reading_views(r@) =~= reading_views(before) + Seq::<
                    (Seq<char>, Milli),
                >::empty());
            },
        }
        i = i + 1;
    }
    assert(rows.take(all.len() - 1) =~= rows);
    r
}

/// Run `df -iPT`; `None` when it fails.
pub fn read_df_inodes<C: Commands + ?Sized>(commands: &C) -> (r: Option<String>)
    ensures
        commands.may_answer("df"@, seq!["-iPT"@], opt_text(r)),
{
    let args = vec!["-iPT"];
    assert(strs_view(args@) =~= seq!["-iPT"@]);
    commands.output("df", args.as_slice())
}

/// The index of the fullest reading; the last of equally full ones.
pub open spec fn worst_index(rs: Seq<(Seq<char>, Milli)>) -> int
    decreases rs.len(),
{
    if rs.len() <= 1 {
        0
    } else {
        let w = worst_index(rs.drop_last());
        if rs.last().1 >= rs[w].1 {
            rs.len() - 1
        } else {
            w
        }
    }
}

proof fn lemma_worst_index(rs: Seq<(Seq<char>, Milli)>)
    requires
        rs.len() > 0,
    ensures
        0 <= worst_index(rs) < rs.len(),
        forall|i: int| 0 <= i < rs.len() ==> #[trigger] rs[i].1 <= rs[worst_index(rs)].1,
    decreases rs.len(),
{
    if rs.len() > 1 {
        lemma_worst_index(rs.drop_last());
        let w = worst_index(rs.drop_last());
        assert forall|i: int| 0 <= i < rs.len() implies #[trigger] rs[i].1 <= rs[worst_index(
            rs,
        )].1 by {
            if i < rs.len() - 1 {
                assert(rs[i] == rs.drop_last()[i]);
            }
        }
    }
}

pub open spec fn inode_detail(r: (Seq<char>, Milli), lang: Lang) -> Seq<char> {
    match lang {
        Lang::En => r.0 + ": "@ + fmt_milli(r.1 as int, 0) + " % inodes used"@,
        Lang::Fr => r.0 + " : "@ + fmt_milli(r.1 as int, 0) + " % d'inodes utilisés"@,
    }
}

pub open spec fn inode_result_view(
    rs: Seq<(Seq<char>, Milli)>,
    thresholds: CheckThresholds,
    lang: Lang,
) -> ResultView {
    if rs.len() == 0 {
        ResultView {
            check: "inode"@,
            metrics: seq![],
            details: seq![
                match lang {
                    Lang::En => "Inode information unavailable."@,
                    Lang::Fr => "Information sur les inodes indisponible."@,
                },
            ],
            top: seq![],
            status: Some(
                match lang {
                    Lang::En => "Unavailable"@,
                    Lang::Fr => "Indisponible"@,
                },
            ),
        }
    } else {
        let w = rs[worst_index(rs)];
        ResultView {
            check: "inode"@,
            metrics: seq![
                metric_view(
                    "inode_usage_percent_worst"@,
                    w.1 as int,
                    "%"@,
                    Some(thresholds.warning),
                    Some(thresholds.critical),
                ),
            ],
            details: Seq::new(rs.len(), |i: int| inode_detail(rs[i], lang)),
            top: seq![],
            status: Some(
                match lang {
                    Lang::En => fmt_milli(w.1 as int, 0) + "% of “"@ + w.0 + "”"@,
                    Lang::Fr => fmt_milli(w.1 as int, 0) + "% de « "@ + w.0 + " »"@,
                },
            ),
        }
    }
}

/// The report for a set of readings: the fullest filesystem sets the metric
/// and the status; each one gets a line.
pub fn build_result(readings: &Vec<InodeReading>, thresholds: &CheckThresholds, lang: Lang) -> (r:
    CheckResult)
    ensures
        r@ == inode_result_view(reading_views(readings@), *thresholds, lang),
{
    let ghost rs = reading_views(readings@);
    if readings.len() == 0 {
        let r = CheckResult {
            check_name: "inode".to_string(),
            metrics: Vec::new(),
            details: vec![
                t(
                    lang,
                    "Inode information unavailable.",
                    "Information sur les inodes indisponible.",
                ).to_string(),
            ],
            top_processes: Vec::new(),
            status_value: Some(t(lang, "Unavailable", "Indisponible").to_string()),
        };
        let ghost want = inode_result_view(rs, *thresholds, lang);
        assert(r@.details =~= want.details);
        assert(r@.metrics =~= want.metrics);
        assert(r@.top =~= want.top);
        return r;
    }
    let mut w: usize = 0;
    let mut details: Vec<String> = Vec::new();
    let mut i: usize = 0;
    while i < readings.len()
        invariant
            i <= readings.len(),
            readings.len() > 0,
            rs == reading_views(readings@),
            i > 0 ==> w == worst_index(rs.take(i as int)),
            i == 0 ==> w == 0,
            w < readings.len(),
            crate::check::texts(details@) == Seq::new(i as nat, |k: int| inode_detail(rs[k], lang)),
        decreases readings.len() - i,
    {
        proof {
            assert(rs.take(i + 1).drop_last() =~= rs.take(i as int));
            if i > 0 {
                lemma_worst_index(rs.take(i as int));
                assert(rs.take(i as int)[w as int] == rs[w as int]);
            }
            assert(rs.take(i + 1).last() == rs[i as int]);
        }
        if readings[i].usage_percent >= readings[w].usage_percent {
            w = i;
        }
        let m = chars_of(readings[i].mount.as_str());
        let pct = fmt_milli_exec(readings[i].usage_percent as i128, 0);
        let mut line: Vec<char> = Vec::new();
        push_all(&mut line, &m);
        push_str(&mut line, t(lang, ": ", " : "));
        push_all(&mut line, &pct);
        push_str(&mut line, t(lang, " % inodes used", " % d'inodes utilisés"));
        let ghost before = details@;
        details.push(string_of(line.as_slice()));
        proof {
            assert(line@ == inode_detail(rs[i as int], lang));
            assert(crate::check::texts(details@) =~= crate::check::texts(before).push(line@));
            assert(crate::check::texts(details@) =~= Seq::new(
                (i + 1) as nat,
                |k: int| inode_detail(rs[k], lang),
            ));
        }
        i = i + 1;
    }
    assert(rs.take(readings.len() as int) =~= rs);
    let worst = &readings[w];
    let pct = fmt_milli_exec(worst.usage_percent as i128, 0);
    let m = chars_of(worst.mount.as_str());
    let mut st: Vec<char> = Vec::new();
    push_all(&mut st, &pct);
    push_str(&mut st, t(lang, "% of “", "% de « "));
    push_all(&mut st, &m);
    push_str(&mut st, t(lang, "”", " »"));
    let metrics = vec![
        metric(
            "inode_usage_percent_worst",
            worst.usage_percent,
            "%",
            Some(thresholds.warning),
            Some(thresholds.critical),
        ),
    ];
    let r = CheckResult {
        check_name: "inode".to_string(),
        metrics,
        details,
        top_processes: Vec::new(),
        status_value: Some(string_of(st.as_slice())),
    };
    let ghost want = inode_result_view(rs, *thresholds, lang);
    assert(r@.details =~= want.details);
    assert(r@.metrics =~= want.metrics);
    assert(r@.top =~= want.top);
    r
}

/// The report for whatever `df` gave: its readings, or none at all when it
/// could not run.
pub fn result_from_df(stdout: Option<&str>, thresholds: &CheckThresholds, lang: Lang) -> (r:
    CheckResult)
    ensures
        stdout is None ==> r@ == inode_result_view(seq![], *thresholds, lang),
        stdout matches Some(o) ==> r@ == inode_result_view(df_inodes_of(o@), *thresholds, lang),
{
    match stdout {
        None => {
            let none: Vec<InodeReading> = Vec::new();
            assert(reading_views(none@) =~= Seq::<(Seq<char>, Milli)>::empty());
            build_result(&none, thresholds, lang)
        },
        Some(o) => build_result(&parse_df_inodes(o), thresholds, lang),
    }
}

} // verus!
