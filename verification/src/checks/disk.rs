//! Disk space — every mounted partition that is real storage, and the
//! fullest one against the thresholds.
use vstd::prelude::*;

use crate::check::{
    human_size, human_size_text, metric, metric_view, metric_views, texts, CheckResult, Metric,
    MetricView, ResultView,
};
use crate::config::CheckThresholds;
use crate::lang::{t, Lang};
use crate::numfmt::{fmt_ratio, fmt_ratio_exec, round_half_even, Milli};
use crate::text::{chars_of, eq_str, push_all, push_str, string_of};

verus! {

/// One mounted partition, as the system lists it.
#[derive(Debug, Clone)]
pub struct DiskSample {
    pub file_system: String,
    pub mount: String,
    pub total: u64,
    pub available: u64,
    pub is_ssd: bool,
}

/// What a sample says, as plain values.
pub struct DiskView {
    pub fs: Seq<char>,
    pub mount: Seq<char>,
    pub total: u64,
    pub available: u64,
    pub ssd: bool,
}

pub open spec fn disk_views(v: Seq<DiskSample>) -> Seq<DiskView> {
    Seq::new(
        v.len(),
        |i: int|
            DiskView {
                fs: v[i].file_system@,
                mount: v[i].mount@,
                total: v[i].total,
                available: v[i].available,
                ssd: v[i].is_ssd,
            },
    )
}

pub open spec fn skipped_fs(name: Seq<char>) -> bool {
    ||| name == "tmpfs"@
    ||| name == "devtmpfs"@
    ||| name == "squashfs"@
    ||| name == "overlay"@
    ||| name == "efivarfs"@
    ||| name == "ramfs"@
}

/// Filesystems that are not storage: memory-backed, images and overlays.
pub fn skip_filesystem(name: &str) -> (b: bool)
    ensures
        b == skipped_fs(name@),
{
    let n = chars_of(name);
    eq_str(&n, "tmpfs") || eq_str(&n, "devtmpfs") || eq_str(&n, "squashfs") || eq_str(
        &n,
        "overlay",
    ) || eq_str(&n, "efivarfs") || eq_str(&n, "ramfs")
}

/// A partition that counts: real storage with a size.
pub open spec fn counted(d: DiskView) -> bool {
    !skipped_fs(d.fs) && d.total > 0
}

/// The bytes in use: the size less what is available (below zero when more
/// is reported available than the size).
pub open spec fn used_of(d: DiskView) -> int {
    d.total as int - d.available as int
}

/// The share in use, in thousandths of a percent, to the nearest one (ties
/// to even); a share below what thousandths can hold is held at the lowest.
pub open spec fn usage_milli(d: DiskView) -> Milli {
    let u = used_of(d);
    if u >= 0 {
        round_half_even((u * 100_000) as nat, d.total as nat) as Milli
    } else {
        let m = round_half_even((-u * 100_000) as nat, d.total as nat);
        if m > 9_223_372_036_854_775_808 {
            i64::MIN
        } else {
            (-m) as Milli
        }
    }
}

/// The fullest counted partition: the first that is fuller than every one
/// before it and than nothing at all (a partition with nothing in use never
/// is the fullest).
pub open spec fn fullest(ds: Seq<DiskView>) -> Option<int>
    decreases ds.len(),
{
    if ds.len() == 0 {
        None
    } else {
        let w = fullest(ds.drop_last());
        let d = ds.last();
        if !counted(d) {
            w
        } else {
            match w {
                None => if used_of(d) > 0 {
                    Some(ds.len() - 1)
                } else {
                    None
                },
                Some(j) => if used_of(d) * ds[j].total > used_of(ds[j]) * d.total {
                    Some(ds.len() - 1)
                } else {
                    w
                },
            }
        }
    }
}

proof fn lemma_fullest(ds: Seq<DiskView>)
    ensures
        fullest(ds) matches Some(j) ==> 0 <= j < ds.len() && counted(ds[j]) && used_of(ds[j]) > 0,
    decreases ds.len(),
{
    if ds.len() > 0 {
        lemma_fullest(ds.drop_last());
        if let Some(j) = fullest(ds.drop_last()) {
            assert(ds.drop_last()[j] == ds[j]);
            let d = ds.last();
            if counted(d) && used_of(d) * ds[j].total > used_of(ds[j]) * d.total {
                assert(used_of(d) > 0) by (nonlinear_arith)
                    requires
                        used_of(d) * ds[j].total > used_of(ds[j]) * d.total,
                        used_of(ds[j]) > 0,
                        d.total > 0,
                        ds[j].total >= 0,
                ;
            }
        }
    }
}

pub open spec fn slash_to_underscore(s: Seq<char>) -> Seq<char> {
    Seq::new(
        s.len(),
        |i: int|
            if s[i] == '/' {
                '_'
            } else {
                s[i]
            },
    )
}

pub open spec fn gib() -> nat {
    1_073_741_824
}

pub open spec fn disk_lines(d: DiskView, lang: Lang) -> Seq<Seq<char>> {
    let used = used_of(d) as int;
    let pct = fmt_ratio(used * 100, d.total as nat, 1);
    let u = fmt_ratio(used, gib(), 1);
    let tot = fmt_ratio(d.total as int, gib(), 1);
    seq![
        match lang {
            Lang::En => d.mount + " ("@ + d.fs + "): "@ + pct + " % used ("@ + u + " / "@ + tot + " GB)"@,
            Lang::Fr => d.mount + " ("@ + d.fs + ") : "@ + pct + " % utilisé ("@ + u + " / "@ + tot
                + " Go)"@,
        },
    ] + if d.ssd {
        seq![
            match lang {
                Lang::En => "  └ SSD detected on "@ + d.mount,
                Lang::Fr => "  └ SSD détecté sur "@ + d.mount,
            },
        ]
    } else {
        seq![]
    }
}

pub open spec fn disk_details(ds: Seq<DiskView>, lang: Lang) -> Seq<Seq<char>>
    decreases ds.len(),
{
    if ds.len() == 0 {
        seq![]
    } else {
        disk_details(ds.drop_last(), lang) + if counted(ds.last()) {
            disk_lines(ds.last(), lang)
        } else {
            seq![]
        }
    }
}

pub open spec fn disk_metric(d: DiskView) -> MetricView {
    metric_view(
        "usage_percent_"@ + slash_to_underscore(d.mount),
        usage_milli(d) as int,
        "%"@,
        None,
        None,
    )
}

pub open spec fn disk_metrics(ds: Seq<DiskView>) -> Seq<MetricView>
    decreases ds.len(),
{
    if ds.len() == 0 {
        seq![]
    } else {
        disk_metrics(ds.drop_last()) + if counted(ds.last()) {
            seq![disk_metric(ds.last())]
        } else {
            seq![]
        }
    }
}

/// The fullest partition's share in use, with `d` decimals (`0` without one).
pub open spec fn fullest_pct(ds: Seq<DiskView>, d: nat) -> Seq<char> {
    match fullest(ds) {
        Some(j) => fmt_ratio(used_of(ds[j]) as int * 100, ds[j].total as nat, d),
        None => fmt_ratio(0, 1, d),
    }
}

pub open spec fn disk_result_view(ds: Seq<DiskView>, thresholds: CheckThresholds, lang: Lang) -> ResultView {
    let w = fullest(ds);
    let worst_usage: Milli = match w {
        Some(j) => usage_milli(ds[j]),
        None => 0,
    };
    let worst_mount = match w {
        Some(j) => ds[j].mount,
        None => "/"@,
    };
    let details = disk_details(ds, lang);
    ResultView {
        check: "disk"@,
        metrics: disk_metrics(ds) + seq![
            metric_view(
                "usage_percent_worst"@,
                worst_usage as int,
                "%"@,
                Some(thresholds.warning),
                Some(thresholds.critical),
            ),
        ],
        details: if details.len() == 0 {
            seq![
                match lang {
                    Lang::En => "No mounted partition detected."@,
                    Lang::Fr => "Aucune partition montée détectée."@,
                },
            ]
        } else {
            details
        },
        top: seq![
            match lang {
                Lang::En => "Fullest partition: "@ + worst_mount + " ("@ + fullest_pct(ds, 1) + " %)"@,
                Lang::Fr => "Partition la plus remplie : "@ + worst_mount + " ("@ + fullest_pct(ds, 1)
                    + " %)"@,
            },
        ],
        status: Some(
            match w {
                Some(j) => {
                    let u = human_size_text(used_of(ds[j]) as nat);
                    let tot = human_size_text(ds[j].total as nat);
                    match lang {
                        Lang::En => fullest_pct(ds, 0) + "% of “"@ + worst_mount + "” ("@ + u + " / "@
                            + tot + ")"@,
                        Lang::Fr => fullest_pct(ds, 0) + "% de « "@ + worst_mount + " » ("@ + u + " / "@
                            + tot + ")"@,
                    }
                },
                None => match lang {
                    Lang::En => "No partition"@,
                    Lang::Fr => "Aucune partition"@,
                },
            },
        ),
    }
}

fn used_bytes(d: &DiskSample) -> (u: i128)
    ensures
        u == used_of(
            DiskView {
                fs: d.file_system@,
                mount: d.mount@,
                total: d.total,
                available: d.available,
                ssd: d.is_ssd,
            },
        ),
{
    d.total as i128 - d.available as i128
}

fn usage_value(d: &DiskSample) -> (v: Milli)
    requires
        d.total > 0,
    ensures
        v == usage_milli(
            DiskView {
                fs: d.file_system@,
                mount: d.mount@,
                total: d.total,
                available: d.available,
                ssd: d.is_ssd,
            },
        ),
{
    let u = used_bytes(d);
    if u >= 0 {
        let q = crate::numfmt::round_half_even_exec(u as u128 * 100_000, d.total as u128);
        proof {
            assert(q <= 100_001) by {
                assert((u as nat * 100_000) / (d.total as nat) <= 100_000) by (nonlinear_arith)
                    requires
                        d.total >= 1,
                        0 <= u <= d.total,
                ;
            }
        }
        q as i64
    } else {
        let m = crate::numfmt::round_half_even_exec((0 - u) as u128 * 100_000, d.total as u128);
        if m > 9_223_372_036_854_775_808 {
            i64::MIN
        } else {
            (0 - m as i128) as i64
        }
    }
}

fn slashes_replaced(s: &str) -> (r: Vec<char>)
    ensures
        r@ == slash_to_underscore(s@),
{
    let v = chars_of(s);
    let mut r: Vec<char> = Vec::new();
    let mut i: usize = 0;
    while i < v.len()
        invariant
            i <= v.len(),
            v@ == s@,
            r@ == slash_to_underscore(v@).take(i as int),
        decreases v.len() - i,
    {
        let c = if v[i] == '/' {
            '_'
        } else {
            v[i]
        };
        r.push(c);
        assert(r@ =~= slash_to_underscore(v@).take(i + 1));
        i = i + 1;
    }
    assert(slash_to_underscore(v@).take(v.len() as int) =~= slash_to_underscore(v@));
    r
}

fn disk_lines_exec(d: &DiskSample, lang: Lang) -> (r: Vec<String>)
    requires
        d.total > 0,
    ensures
        texts(r@) == disk_lines(
            DiskView {
                fs: d.file_system@,
                mount: d.mount@,
                total: d.total,
                available: d.available,
                ssd: d.is_ssd,
            },
            lang,
        ),
{
    let used = used_bytes(d);
    let pct = fmt_ratio_exec(used * 100, d.total, 1);
    let u = fmt_ratio_exec(used, 1_073_741_824, 1);
    let tot = fmt_ratio_exec(d.total as i128, 1_073_741_824, 1);
    let m = chars_of(d.mount.as_str());
    let mut line: Vec<char> = Vec::new();
    push_all(&mut line, &m);
    push_str(&mut line, " (");
    push_all(&mut line, &chars_of(d.file_system.as_str()));
    push_str(&mut line, t(lang, "): ", ") : "));
    push_all(&mut line, &pct);
    push_str(&mut line, t(lang, " % used (", " % utilisé ("));
    push_all(&mut line, &u);
    push_str(&mut line, " / ");
    push_all(&mut line, &tot);
    push_str(&mut line, t(lang, " GB)", " Go)"));
    let mut r: Vec<String> = Vec::new();
    r.push(string_of(line.as_slice()));
    if d.is_ssd {
        let mut s: Vec<char> = Vec::new();
        push_str(&mut s, t(lang, "  └ SSD detected on ", "  └ SSD détecté sur "));
        push_all(&mut s, &m);
        r.push(string_of(s.as_slice()));
    }
    let ghost want = disk_lines(
        DiskView {
            fs: d.file_system@,
            mount: d.mount@,
            total: d.total,
            available: d.available,
            ssd: d.is_ssd,
        },
        lang,
    );
    assert(texts(r@) =~= want);
    r
}

/// The report: one line and one metric per counted partition, the fullest
/// against the thresholds, its share and sizes as the status.
pub fn build_result(disks: &Vec<DiskSample>, thresholds: &CheckThresholds, lang: Lang) -> (r:
    CheckResult)
    ensures
        r@ == disk_result_view(disk_views(disks@), *thresholds, lang),
{
    let ghost ds = disk_views(disks@);
    let mut details: Vec<String> = Vec::new();
    let mut metrics: Vec<Metric> = Vec::new();
    let mut w: Option<usize> = None;
    let mut i: usize = 0;
    while i < disks.len()
        invariant
            i <= disks.len(),
            ds == disk_views(disks@),
            texts(details@) == disk_details(ds.take(i as int), lang),
            metric_views(metrics@) == disk_metrics(ds.take(i as int)),
            match w {
                Some(j) => fullest(ds.take(i as int)) == Some(j as int) && j < i && used_of(ds[j as int])
                    > 0 && ds[j as int].total > 0,
                None => fullest(ds.take(i as int)) is None,
            },
        decreases disks.len() - i,
    {
        let ghost t_i = ds.take(i + 1);
        proof {
            assert(t_i.drop_last() =~= ds.take(i as int));
            assert(t_i.last() == ds[i as int]);
            if let Some(j) = w {
                assert(t_i[j as int] == ds[j as int]);
            }
        }
        let d = &disks[i];
        if !skip_filesystem(d.file_system.as_str()) && d.total > 0 {
            let lines = disk_lines_exec(d, lang);
            let ghost before = texts(details@);
            let mut k: usize = 0;
            while k < lines.len()
                invariant
                    k <= lines.len(),
                    texts(details@) == before + texts(lines@).take(k as int),
                decreases lines.len() - k,
            {
                let ghost b2 = texts(details@);
                details.push(lines[k].clone());
                assert(texts(details@) =~= b2.push(lines@[k as int]@));
                assert(texts(lines@).take(k + 1) =~= texts(lines@).take(k as int).push(
                    lines@[k as int]@,
                ));
                k = k + 1;
            }
            assert(texts(lines@).take(lines.len() as int) =~= texts(lines@));
            let used = used_bytes(d);
            let mut name: Vec<char> = Vec::new();
            push_str(&mut name, "usage_percent_");
            push_all(&mut name, &slashes_replaced(d.mount.as_str()));
            let v = usage_value(d);
            let ghost mb = metric_views(metrics@);
            let name_s = string_of(name.as_slice());
            metrics.push(
                Metric {
                    name: name_s,
                    value: v,
                    unit: "%".to_string(),
                    threshold_warning: None,
                    threshold_critical: None,
                },
            );
            assert(metric_views(metrics@) =~= mb.push(disk_metric(ds[i as int])));
            match w {
                None => {
                    if used > 0 {
                        w = Some(i);
                    }
                },
                Some(j) => {
                    let uj = used_bytes(&disks[j]);
                    if used > 0 {
                        proof {
                            let a = used as nat;
                            let b = disks[j as int].total as nat;
                            let c = uj as nat;
                            let e = d.total as nat;
                            assert(a * b <= u64::MAX as nat * u64::MAX as nat) by (nonlinear_arith)
                                requires
                                    a <= u64::MAX,
                                    b <= u64::MAX,
                            ;
                            assert(c * e <= u64::MAX as nat * u64::MAX as nat) by (nonlinear_arith)
                                requires
                                    c <= u64::MAX,
                                    e <= u64::MAX,
                            ;
                        }
                        if used as u128 * disks[j].total as u128 > uj as u128 * d.total as u128 {
                            w = Some(i);
                        }
                    } else {
                        proof {
                            let dj = ds[j as int];
                            let dv = ds[i as int];
                            assert(!(used_of(dv) * dj.total > used_of(dj) * dv.total))
                                by (nonlinear_arith)
                                requires
                                    used_of(dv) <= 0,
                                    used_of(dj) > 0,
                                    dv.total > 0,
                                    dj.total >= 0,
                            ;
                        }
                    }
                },
            }
        } else {
            assert(texts(details@) =~= disk_details(ds.take(i as int), lang) + Seq::<
                Seq<char>,
            >::empty());
            assert(metric_views(metrics@) =~= disk_metrics(ds.take(i as int)) + Seq::<
                MetricView,
            >::empty());
        }
        i = i + 1;
    }
    assert(ds.take(disks.len() as int) =~= ds);
    proof {
        lemma_fullest(ds);
    }
    let (worst_usage, worst_pct1, worst_mount) = match w {
        Some(j) => {
            let d = &disks[j];
            let used = used_bytes(d);
            let v = usage_value(d);
            (
                v,
                fmt_ratio_exec(used * 100, d.total, 1),
                chars_of(d.mount.as_str()),
            )
        },
        None => (0i64, fmt_ratio_exec(0, 1, 1), chars_of("/")),
    };
    metrics.push(
        metric(
            "usage_percent_worst",
            worst_usage,
            "%",
            Some(thresholds.warning),
            Some(thresholds.critical),
        ),
    );
    if details.len() == 0 {
        details.push(
            t(lang, "No mounted partition detected.", "Aucune partition montée détectée.").to_string(),
        );
    }
    let mut top: Vec<char> = Vec::new();
    push_str(&mut top, t(lang, "Fullest partition: ", "Partition la plus remplie : "));
    push_all(&mut top, &worst_mount);
    push_str(&mut top, " (");
    push_all(&mut top, &worst_pct1);
    push_str(&mut top, " %)");
    let status = match w {
        Some(j) => {
            let d = &disks[j];
            let used = used_bytes(d);
            let pct = fmt_ratio_exec(used * 100, d.total, 0);
            let u = human_size(used as u64);
            let tot = human_size(d.total);
            let mut st: Vec<char> = Vec::new();
            push_all(&mut st, &pct);
            push_str(&mut st, t(lang, "% of “", "% de « "));
            push_all(&mut st, &worst_mount);
            push_str(&mut st, t(lang, "” (", " » ("));
            push_all(&mut st, &chars_of(u.as_str()));
            push_str(&mut st, " / ");
            push_all(&mut st, &chars_of(tot.as_str()));
            push_str(&mut st, ")");
            string_of(st.as_slice())
        },
        None => t(lang, "No partition", "Aucune partition").to_string(),
    };
    let r = CheckResult {
        check_name: "disk".to_string(),
        metrics,
        details,
        top_processes: vec![string_of(top.as_slice())],
        status_value: Some(status),
    };
    let ghost want = disk_result_view(ds, *thresholds, lang);
    assert(r@.details =~= want.details);
    assert(r@.metrics =~= want.metrics);
    assert(r@.top =~= want.top);
    r
}

} // verus!
