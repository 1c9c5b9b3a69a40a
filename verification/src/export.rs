//! Prometheus textfile export — the local, opt-in way to pull Joséphine's
//! latest results into a dashboard.
//!
//! No server and no port: the daemon writes a `.prom` file that
//! node-exporter's textfile collector already reads. When enabled, the file
//! holds only what `josephine status` already shows: per-check metric values
//! and a severity.
use vstd::prelude::*;

use crate::check::{worst_of, CheckResult, Metric, Severity};
use crate::numfmt::{digits, digits_of, display_milli, display_milli_exec, Milli};
use crate::text::{chars_of, contains, occurs_at, push_all, push_str, string_of};

verus! {

// --- The order of check names ---------------------------------------------------

/// `a` sorts before `b`: the order of `String`, which for UTF-8 text is the
/// lexicographic order of code points.
pub open spec fn str_less(a: Seq<char>, b: Seq<char>) -> bool
    decreases a.len(),
{
    if a.len() == 0 {
        b.len() > 0
    } else if b.len() == 0 {
        false
    } else if a[0] != b[0] {
        (a[0] as u32) < (b[0] as u32)
    } else {
        str_less(a.drop_first(), b.drop_first())
    }
}

pub proof fn lemma_str_less_irreflexive(a: Seq<char>)
    ensures
        !str_less(a, a),
    decreases a.len(),
{
    if a.len() > 0 {
        lemma_str_less_irreflexive(a.drop_first());
    }
}

pub proof fn lemma_str_less_trichotomy(a: Seq<char>, b: Seq<char>)
    ensures
        a == b || str_less(a, b) || str_less(b, a),
        !(str_less(a, b) && str_less(b, a)),
        !str_less(a, a),
    decreases a.len(),
{
    lemma_str_less_irreflexive(a);
    if a.len() > 0 && b.len() > 0 {
        lemma_str_less_trichotomy(a.drop_first(), b.drop_first());
        if a[0] != b[0] {
            vstd::utf8::char_u32_cast(a[0], a[0] as u32);
            vstd::utf8::char_u32_cast(b[0], b[0] as u32);
            assert((a[0] as u32) != (b[0] as u32));
        }
        if a[0] == b[0] && a.drop_first() == b.drop_first() {
            assert forall|k: int| 0 <= k < a.len() implies a[k] == b[k] by {
                if k > 0 {
                    assert(a[k] == a.drop_first()[k - 1]);
                    assert(b[k] == b.drop_first()[k - 1]);
                }
            }
            assert(a =~= b);
        }
    } else if a.len() == 0 && b.len() == 0 {
        assert(a =~= b);
    }
}

pub proof fn lemma_str_less_transitive(a: Seq<char>, b: Seq<char>, c: Seq<char>)
    requires
        str_less(a, b),
        str_less(b, c),
    ensures
        str_less(a, c),
    decreases a.len(),
{
    if a.len() > 0 && b.len() > 0 && c.len() > 0 {
        if a[0] == b[0] && b[0] == c[0] {
            lemma_str_less_transitive(a.drop_first(), b.drop_first(), c.drop_first());
        }
    }
}

/// Whether `a` sorts before `b`.
pub fn str_lt(a: &str, b: &str) -> (r: bool)
    ensures
        r == str_less(a@, b@),
{
    let x = chars_of(a);
    let y = chars_of(b);
    let mut i: usize = 0;
    proof {
        assert(x@.skip(0) =~= x@);
        assert(y@.skip(0) =~= y@);
    }
    while i < x.len() && i < y.len() && x[i] == y[i]
        invariant
            i <= x.len(),
            i <= y.len(),
            str_less(x@.skip(i as int), y@.skip(i as int)) == str_less(x@, y@),
        decreases x.len() - i,
    {
        assert(x@.skip(i as int).drop_first() =~= x@.skip(i + 1));
        assert(y@.skip(i as int).drop_first() =~= y@.skip(i + 1));
        i = i + 1;
    }
    if i == x.len() {
        i < y.len()
    } else if i == y.len() {
        false
    } else {
        assert(x@.skip(i as int)[0] == x@[i as int]);
        assert(y@.skip(i as int)[0] == y@[i as int]);
        (x[i] as u32) < (y[i] as u32)
    }
}

// --- Snapshots ------------------------------------------------------------------

/// A check's latest result as the export keeps it: its worst severity and
/// each metric's name, unit and value.
#[derive(Debug)]
pub struct Snapshot {
    pub severity: Severity,
    pub metrics: Vec<(String, String, Milli)>,
}

/// What a snapshot says, as plain values.
pub struct SnapshotView {
    pub severity: Severity,
    pub metrics: Seq<(Seq<char>, Seq<char>, Milli)>,
}

pub open spec fn triple_views(v: Seq<(String, String, Milli)>) -> Seq<(Seq<char>, Seq<char>, Milli)> {
    Seq::new(v.len(), |i: int| (v[i].0@, v[i].1@, v[i].2))
}

impl View for Snapshot {
    type V = SnapshotView;

    open spec fn view(&self) -> SnapshotView {
        SnapshotView { severity: self.severity, metrics: triple_views(self.metrics@) }
    }
}

/// The snapshot of a result.
pub open spec fn snapshot_of(metrics: Seq<Metric>) -> SnapshotView {
    SnapshotView {
        severity: worst_of(metrics),
        metrics: Seq::new(metrics.len(), |i: int| (metrics[i].name@, metrics[i].unit@, metrics[i].value)),
    }
}

fn snapshot(result: &CheckResult) -> (s: Snapshot)
    ensures
        s@ == snapshot_of(result.metrics@),
{
    let mut metrics: Vec<(String, String, Milli)> = Vec::new();
    let mut i: usize = 0;
    while i < result.metrics.len()
        invariant
            i <= result.metrics.len(),
            triple_views(metrics@) == snapshot_of(result.metrics@).metrics.take(i as int),
        decreases result.metrics.len() - i,
    {
        let m = &result.metrics[i];
        let name = string_of(chars_of(m.name.as_str()).as_slice());
        let unit = string_of(chars_of(m.unit.as_str()).as_slice());
        let ghost before = triple_views(metrics@);
        metrics.push((name, unit, m.value));
        assert(triple_views(metrics@) =~= before.push((m.name@, m.unit@, m.value)));
        assert(triple_views(metrics@) =~= snapshot_of(result.metrics@).metrics.take(i + 1));
        i = i + 1;
    }
    assert(snapshot_of(result.metrics@).metrics.take(result.metrics.len() as int) =~= snapshot_of(
        result.metrics@,
    ).metrics);
    Snapshot { severity: result.worst_severity(), metrics }
}

// --- The export -----------------------------------------------------------------

/// The latest result per check, ready to render, kept in the order of the
/// check names so that the file's lines keep a stable order between writes.
///
/// The entries are a vector kept sorted by name rather than a `BTreeMap`
/// keyed by `String`: with `String` keys, vstd's map specifications give
/// nothing to prove a lookup or the iteration order with, so both are
/// proved here, over the vector, as the type invariant and `lookup`.
#[derive(Debug)]
pub struct PrometheusExport {
    latest: Vec<(String, Snapshot)>,
}

pub open spec fn entry_views(v: Seq<(String, Snapshot)>) -> Seq<(Seq<char>, SnapshotView)> {
    Seq::new(v.len(), |i: int| (v[i].0@, v[i].1@))
}

/// Strictly increasing check names.
pub open spec fn sorted(es: Seq<(Seq<char>, SnapshotView)>) -> bool {
    forall|a: int, b: int| 0 <= a < b < es.len() ==> str_less(#[trigger] es[a].0, #[trigger] es[b].0)
}

/// The snapshot kept for a check.
pub open spec fn lookup(es: Seq<(Seq<char>, SnapshotView)>, check: Seq<char>) -> Option<SnapshotView>
    decreases es.len(),
{
    if es.len() == 0 {
        None
    } else if es.last().0 == check {
        Some(es.last().1)
    } else {
        lookup(es.drop_last(), check)
    }
}

impl PrometheusExport {
    #[verifier::type_invariant]
    spec fn in_order(&self) -> bool {
        sorted(entry_views(self.latest@))
    }

    /// The checks and their snapshots, in the order of their names.
    pub closed spec fn entries(&self) -> Seq<(Seq<char>, SnapshotView)> {
        entry_views(self.latest@)
    }

    /// An export with nothing recorded.
    pub fn new() -> (e: Self)
        ensures
            e.entries() == Seq::<(Seq<char>, SnapshotView)>::empty(),
    {
        let e = PrometheusExport { latest: Vec::new() };
        assert(e.entries() =~= Seq::<(Seq<char>, SnapshotView)>::empty());
        e
    }

    /// Record a check's newest result, replacing whatever it last reported.
    pub fn record(&mut self, result: &CheckResult)
        ensures
            records(
                old(self).entries(),
                final(self).entries(),
                result.check_name@,
                snapshot_of(result.metrics@),
            ),
    {
        proof {
            use_type_invariant(&*self);
        }
        let ghost before = self.entries();
        let mut v: Vec<(String, Snapshot)> = Vec::new();
        std::mem::swap(&mut v, &mut self.latest);
        assert(entry_views(v@) == before);
        let key = result.check_name.as_str();
        let mut i: usize = 0;
        while i < v.len() && str_lt(v[i].0.as_str(), key)
            invariant
                i <= v.len(),
                entry_views(v@) == before,
                sorted(before),
                forall|a: int| 0 <= a < i ==> str_less(#[trigger] before[a].0, key@),
            decreases v.len() - i,
        {
            i = i + 1;
        }
        let snap = snapshot(result);
        let ghost sv = snap@;
        if i < v.len() && crate::text::eq_str(&chars_of(v[i].0.as_str()), key) {
            let name = v[i].0.clone();
            proof {
                assert(v@[i as int].0@ == key@);
            }
            let entry = (string_of(chars_of(key).as_slice()), snap);
            v.set(i, entry);
            proof {
                let after = entry_views(v@);
                assert(after =~= before.update(i as int, (key@, sv)));
                assert forall|a: int, b: int| 0 <= a < b < after.len() implies str_less(
                    #[trigger] after[a].0,
                    #[trigger] after[b].0,
                ) by {
                    assert(after[a].0 == before[a].0);
                    assert(after[b].0 == before[b].0);
                }
                assert forall|check: Seq<char>| #[trigger]
                    lookup(after, check) == if check == key@ {
                        Some(sv)
                    } else {
                        lookup(before, check)
                    } by {
                    lemma_lookup_update(before, i as int, key@, sv, check);
                }
            }
        } else {
            proof {
                if i < v.len() {
                    lemma_str_less_trichotomy(before[i as int].0, key@);
                }
                assert forall|a: int| 0 <= a < before.len() implies #[trigger] before[a].0
                    != key@ by {
                    if a < i {
                        lemma_str_less_trichotomy(before[a].0, key@);
                    } else if a == i {
                    } else {
                        lemma_str_less_transitive(key@, before[i as int].0, before[a].0);
                        lemma_str_less_trichotomy(key@, key@);
                    }
                }
            }
            let entry = (string_of(chars_of(key).as_slice()), snap);
            v.insert(i, entry);
            proof {
                let after = entry_views(v@);
                assert(after =~= before.insert(i as int, (key@, sv)));
                assert forall|a: int, b: int| 0 <= a < b < after.len() implies str_less(
                    #[trigger] after[a].0,
                    #[trigger] after[b].0,
                ) by {
                    if b < i {
                    } else if b == i {
                    } else if a < i {
                        assert(after[b] == before[b - 1]);
                        if i < before.len() {
                            if b - 1 > i {
                                assert(str_less(before[i as int].0, before[b - 1].0));
                                lemma_str_less_transitive(key@, before[i as int].0, before[b - 1].0);
                            }
                            lemma_str_less_transitive(after[a].0, key@, after[b].0);
                        }
                    } else if a == i {
                        assert(after[b] == before[b - 1]);
                        if b - 1 > i {
                            assert(str_less(before[i as int].0, before[b - 1].0));
                            lemma_str_less_transitive(key@, before[i as int].0, before[b - 1].0);
                        }
                    } else {
                        assert(after[a] == before[a - 1]);
                        assert(after[b] == before[b - 1]);
                    }
                }
                assert forall|check: Seq<char>| #[trigger]
                    lookup(after, check) == if check == key@ {
                        Some(sv)
                    } else {
                        lookup(before, check)
                    } by {
                    lemma_lookup_insert(before, i as int, key@, sv, check);
                }
            }
        }
        self.latest = v;
    }
}

// --- Rendering ------------------------------------------------------------------

pub open spec fn escape_char(c: char) -> Seq<char> {
    if c == '\\' {
        seq!['\\', '\\']
    } else if c == '"' {
        seq!['\\', '"']
    } else if c == '\n' {
        seq!['\\', 'n']
    } else {
        seq![c]
    }
}

/// A Prometheus label value with backslash, double quote and newline
/// escaped.
pub open spec fn escaped(s: Seq<char>) -> Seq<char>
    decreases s.len(),
{
    if s.len() == 0 {
        seq![]
    } else {
        escaped(s.drop_last()) + escape_char(s.last())
    }
}

fn push_escaped(out: &mut Vec<char>, value: &str)
    ensures
        final(out)@ == old(out)@ + escaped(value@),
{
    let v = chars_of(value);
    let mut i: usize = 0;
    while i < v.len()
        invariant
            i <= v.len(),
            v@ == value@,
            out@ == old(out)@ + escaped(v@.take(i as int)),
        decreases v.len() - i,
    {
        let c = v[i];
        if c == '\\' {
            out.push('\\');
            out.push('\\');
        } else if c == '"' {
            out.push('\\');
            out.push('"');
        } else if c == '\n' {
            out.push('\\');
            out.push('n');
        } else {
            out.push(c);
        }
        proof {
            assert(v@.take(i + 1).drop_last() =~= v@.take(i as int));
            assert(v@.take(i + 1).last() == c);
        }
        assert(out@ =~= old(out)@ + escaped(v@.take(i + 1)));
        i = i + 1;
    }
    assert(v@.take(v.len() as int) =~= v@);
}

/// Escape a Prometheus label value: backslash, double quote, newline.
pub fn escape(value: &str) -> (r: String)
    ensures
        r@ == escaped(value@),
{
    let mut out: Vec<char> = Vec::new();
    push_escaped(&mut out, value);
    assert(out@ =~= escaped(value@));
    string_of(out.as_slice())
}

/// The parts one after the other.
pub open spec fn concat(parts: Seq<Seq<char>>) -> Seq<char>
    decreases parts.len(),
{
    if parts.len() == 0 {
        seq![]
    } else {
        concat(parts.drop_last()) + parts.last()
    }
}

pub open spec fn metric_sample(check: Seq<char>, m: (Seq<char>, Seq<char>, Milli)) -> Seq<char> {
    "josephine_metric{check=\""@ + escaped(check) + "\",metric=\""@ + escaped(m.0) + "\",unit=\""@
        + escaped(m.1) + "\"} "@ + display_milli(m.2 as int) + "\n"@
}

pub open spec fn check_samples(check: Seq<char>, ms: Seq<(Seq<char>, Seq<char>, Milli)>) -> Seq<char> {
    concat(Seq::new(ms.len(), |i: int| metric_sample(check, ms[i])))
}

pub open spec fn severity_sample(check: Seq<char>, s: Severity) -> Seq<char> {
    "josephine_check_severity{check=\""@ + escaped(check) + "\"} "@ + digits(
        crate::check::rank(s) as nat,
    ) + "\n"@
}

/// An integer in decimal, with its sign.
pub open spec fn int_text(t: int) -> Seq<char> {
    crate::numfmt::sign(t) + digits(crate::numfmt::abs(t))
}

/// The samples of the metric family, check after check.
pub open spec fn metric_lines(es: Seq<(Seq<char>, SnapshotView)>) -> Seq<char> {
    concat(Seq::new(es.len(), |i: int| check_samples(es[i].0, es[i].1.metrics)))
}

/// The samples of the severity family, check after check.
pub open spec fn severity_lines(es: Seq<(Seq<char>, SnapshotView)>) -> Seq<char> {
    concat(Seq::new(es.len(), |i: int| severity_sample(es[i].0, es[i].1.severity)))
}

/// The exposition text: each family declared once, then its samples in the
/// order of the check names; the write time last.
pub open spec fn render_text(es: Seq<(Seq<char>, SnapshotView)>, written_at: int) -> Seq<char> {
    "# HELP josephine_metric Latest value reported by a Joséphine check.\n"@
        + "# TYPE josephine_metric gauge\n"@ + metric_lines(es)
        + "# HELP josephine_check_severity Worst severity for a check: 0 ok, 1 attention, 2 critical.\n"@
        + "# TYPE josephine_check_severity gauge\n"@ + severity_lines(es)
        + "# HELP josephine_last_write_timestamp_seconds When Joséphine last wrote this file.\n"@
        + "# TYPE josephine_last_write_timestamp_seconds gauge\n"@
        + "josephine_last_write_timestamp_seconds "@ + int_text(written_at) + "\n"@
}

fn push_metric_sample(out: &mut Vec<char>, check: &str, m: &(String, String, Milli))
    ensures
        final(out)@ == old(out)@ + metric_sample(check@, (m.0@, m.1@, m.2)),
{
    push_str(out, "josephine_metric{check=\"");
    push_escaped(out, check);
    push_str(out, "\",metric=\"");
    push_escaped(out, m.0.as_str());
    push_str(out, "\",unit=\"");
    push_escaped(out, m.1.as_str());
    push_str(out, "\"} ");
    let v = display_milli_exec(m.2);
    push_all(out, &v);
    push_str(out, "\n");
    assert(out@ =~= old(out)@ + metric_sample(check@, (m.0@, m.1@, m.2)));
}

impl PrometheusExport {
    /// Render the exposition text.
    pub fn render(&self, written_at_unix_secs: i64) -> (s: String)
        ensures
            s@ == render_text(self.entries(), written_at_unix_secs as int),
    {
        let ghost es = self.entries();
        let mut out: Vec<char> = Vec::new();
        push_str(&mut out, "# HELP josephine_metric Latest value reported by a Joséphine check.\n");
        push_str(&mut out, "# TYPE josephine_metric gauge\n");
        let ghost head = out@;
        let ghost parts = Seq::new(es.len(), |i: int| check_samples(es[i].0, es[i].1.metrics));
        let mut i: usize = 0;
        while i < self.latest.len()
            invariant
                i <= self.latest.len(),
                es == self.entries(),
                es == entry_views(self.latest@),
                parts == Seq::new(es.len(), |i: int| check_samples(es[i].0, es[i].1.metrics)),
                out@ == head + concat(parts.take(i as int)),
            decreases self.latest.len() - i,
        {
            let check = self.latest[i].0.as_str();
            let ms = &self.latest[i].1.metrics;
            let ghost mv = triple_views(ms@);
            let ghost start = out@;
            let mut j: usize = 0;
            while j < ms.len()
                invariant
                    j <= ms.len(),
                    mv == triple_views(ms@),
                    out@ == start + concat(
                        Seq::new(mv.len(), |k: int| metric_sample(check@, mv[k])).take(j as int),
                    ),
                decreases ms.len() - j,
            {
                push_metric_sample(&mut out, check, &ms[j]);
                proof {
                    let all = Seq::new(mv.len(), |k: int| metric_sample(check@, mv[k]));
                    assert(all.take(j + 1).drop_last() =~= all.take(j as int));
                    assert(all.take(j + 1).last() == metric_sample(check@, mv[j as int]));
                }
                j = j + 1;
            }
            proof {
                let all = Seq::new(mv.len(), |k: int| metric_sample(check@, mv[k]));
                assert(all.take(mv.len() as int) =~= all);
                assert(parts[i as int] == check_samples(es[i as int].0, es[i as int].1.metrics));
                assert(es[i as int].1.metrics == mv);
                assert(parts.take(i + 1).drop_last() =~= parts.take(i as int));
                assert(parts.take(i + 1).last() == parts[i as int]);
            }
            i = i + 1;
        }
        assert(parts.take(es.len() as int) =~= parts);
        push_str(
            &mut out,
            "# HELP josephine_check_severity Worst severity for a check: 0 ok, 1 attention, 2 critical.\n",
        );
        push_str(&mut out, "# TYPE josephine_check_severity gauge\n");
        let ghost head2 = out@;
        let ghost sevs = Seq::new(es.len(), |i: int| severity_sample(es[i].0, es[i].1.severity));
        let mut i: usize = 0;
        while i < self.latest.len()
            invariant
                i <= self.latest.len(),
                es == entry_views(self.latest@),
                sevs == Seq::new(es.len(), |i: int| severity_sample(es[i].0, es[i].1.severity)),
                out@ == head2 + concat(sevs.take(i as int)),
            decreases self.latest.len() - i,
        {
            let ghost start = out@;
            push_str(&mut out, "josephine_check_severity{check=\"");
            push_escaped(&mut out, self.latest[i].0.as_str());
            push_str(&mut out, "\"} ");
            let level = self.latest[i].1.severity.level();
            push_all(&mut out, &digits_of(level as u64));
            push_str(&mut out, "\n");
            proof {
                assert(out@ =~= start + sevs[i as int]);
                assert(sevs.take(i + 1).drop_last() =~= sevs.take(i as int));
                assert(sevs.take(i + 1).last() == sevs[i as int]);
            }
            i = i + 1;
        }
        assert(sevs.take(es.len() as int) =~= sevs);
        push_str(
            &mut out,
            "# HELP josephine_last_write_timestamp_seconds When Joséphine last wrote this file.\n",
        );
        push_str(&mut out, "# TYPE josephine_last_write_timestamp_seconds gauge\n");
        push_str(&mut out, "josephine_last_write_timestamp_seconds ");
        if written_at_unix_secs < 0 {
            out.push('-');
        }
        let mag: u64 = if written_at_unix_secs < 0 {
            (0i128 - written_at_unix_secs as i128) as u64
        } else {
            written_at_unix_secs as u64
        };
        push_all(&mut out, &digits_of(mag));
        push_str(&mut out, "\n");
        assert(out@ =~= render_text(es, written_at_unix_secs as int));
        string_of(out.as_slice())
    }
}

proof fn lemma_lookup_absent(es: Seq<(Seq<char>, SnapshotView)>, check: Seq<char>)
    requires
        forall|a: int| 0 <= a < es.len() ==> #[trigger] es[a].0 != check,
    ensures
        lookup(es, check) is None,
    decreases es.len(),
{
    if es.len() > 0 {
        assert(es.last() == es[es.len() - 1]);
        lemma_lookup_absent(es.drop_last(), check);
    }
}

proof fn lemma_lookup_found(es: Seq<(Seq<char>, SnapshotView)>, i: int, check: Seq<char>)
    requires
        0 <= i < es.len(),
        es[i].0 == check,
        forall|a: int| i < a < es.len() ==> #[trigger] es[a].0 != check,
    ensures
        lookup(es, check) == Some(es[i].1),
    decreases es.len(),
{
    if es.len() - 1 > i {
        assert(es.last() == es[es.len() - 1]);
        lemma_lookup_found(es.drop_last(), i, check);
    }
}

/// In a sorted list a name occurs at one place only.
proof fn lemma_sorted_unique(es: Seq<(Seq<char>, SnapshotView)>, a: int, b: int)
    requires
        sorted(es),
        0 <= a < b < es.len(),
    ensures
        es[a].0 != es[b].0,
{
    lemma_str_less_trichotomy(es[a].0, es[b].0);
}

proof fn lemma_lookup_update(
    es: Seq<(Seq<char>, SnapshotView)>,
    i: int,
    key: Seq<char>,
    sv: SnapshotView,
    check: Seq<char>,
)
    requires
        sorted(es),
        0 <= i < es.len(),
        es[i].0 == key,
    ensures
        lookup(es.update(i, (key, sv)), check) == if check == key {
            Some(sv)
        } else {
            lookup(es, check)
        },
{
    let after = es.update(i, (key, sv));
    if check == key {
        assert forall|a: int| i < a < after.len() implies #[trigger] after[a].0 != check by {
            lemma_sorted_unique(es, i, a);
        }
        lemma_lookup_found(after, i, check);
    } else {
        lemma_lookup_same(es, after, check);
    }
}

/// Two lists that agree on every entry for `check` give the same answer.
proof fn lemma_lookup_same(
    es: Seq<(Seq<char>, SnapshotView)>,
    fs: Seq<(Seq<char>, SnapshotView)>,
    check: Seq<char>,
)
    requires
        es.len() == fs.len(),
        forall|a: int| 0 <= a < es.len() ==> (#[trigger] es[a].0 == check) == (fs[a].0 == check),
        forall|a: int| 0 <= a < es.len() && #[trigger] es[a].0 == check ==> es[a] == fs[a],
    ensures
        lookup(es, check) == lookup(fs, check),
    decreases es.len(),
{
    if es.len() > 0 {
        assert(es.last() == es[es.len() - 1]);
        assert(fs.last() == fs[fs.len() - 1]);
        assert forall|a: int| 0 <= a < es.drop_last().len() implies (
        #[trigger] es.drop_last()[a].0 == check) == (fs.drop_last()[a].0 == check) by {
            assert(es.drop_last()[a] == es[a]);
            assert(fs.drop_last()[a] == fs[a]);
        }
        assert forall|a: int| 0 <= a < es.drop_last().len() && #[trigger] es.drop_last()[a].0
            == check implies es.drop_last()[a] == fs.drop_last()[a] by {
            assert(es.drop_last()[a] == es[a]);
            assert(fs.drop_last()[a] == fs[a]);
        }
        lemma_lookup_same(es.drop_last(), fs.drop_last(), check);
    }
}

proof fn lemma_lookup_insert(
    es: Seq<(Seq<char>, SnapshotView)>,
    i: int,
    key: Seq<char>,
    sv: SnapshotView,
    check: Seq<char>,
)
    requires
        0 <= i <= es.len(),
        forall|a: int| 0 <= a < es.len() ==> #[trigger] es[a].0 != key,
    ensures
        lookup(es.insert(i, (key, sv)), check) == if check == key {
            Some(sv)
        } else {
            lookup(es, check)
        },
    decreases es.len(),
{
    let after = es.insert(i, (key, sv));
    if check == key {
        assert forall|a: int| i < a < after.len() implies #[trigger] after[a].0 != check by {
            assert(after[a] == es[a - 1]);
        }
        lemma_lookup_found(after, i, check);
    } else if i == es.len() {
        assert(after.drop_last() =~= es);
    } else {
        assert(after.last() == es.last());
        assert(after.drop_last() =~= es.drop_last().insert(i, (key, sv)));
        assert forall|a: int| 0 <= a < es.drop_last().len() implies #[trigger] es.drop_last()[a].0
            != key by {
            assert(es.drop_last()[a] == es[a]);
        }
        lemma_lookup_insert(es.drop_last(), i, key, sv, check);
    }
}

// --- Laws ----------------------------------------------------------------------

/// `s` holds no line break.
pub open spec fn one_line(s: Seq<char>) -> bool {
    forall|k: int| 0 <= k < s.len() ==> s[k] != '\n'
}

/// A line at position `i` of `s` begins `josephine_`, as every sample does
/// and no `#` declaration can.
pub open spec fn sample_starts_at(s: Seq<char>, i: int) -> bool {
    0 <= i && i + 10 <= s.len() && s.subrange(i, i + 10) == "josephine_"@
}

/// `s` is whole sample lines: empty or ending in a line break, and every
/// line of it begins `josephine_`.
pub open spec fn sample_lines(s: Seq<char>) -> bool {
    &&& (s.len() == 0 || s.last() == '\n')
    &&& forall|i: int|
        0 <= i < s.len() && (i == 0 || s[i - 1] == '\n') ==> #[trigger] sample_starts_at(s, i)
}

proof fn lemma_one_line_join(a: Seq<char>, b: Seq<char>)
    requires
        one_line(a),
        one_line(b),
    ensures
        one_line(a + b),
{
    assert forall|k: int| 0 <= k < (a + b).len() implies (a + b)[k] != '\n' by {
        if k < a.len() {
            assert((a + b)[k] == a[k]);
        } else {
            assert((a + b)[k] == b[k - a.len()]);
        }
    }
}

proof fn lemma_escaped_one_line(s: Seq<char>)
    ensures
        one_line(escaped(s)),
    decreases s.len(),
{
    if s.len() > 0 {
        lemma_escaped_one_line(s.drop_last());
        lemma_one_line_join(escaped(s.drop_last()), escape_char(s.last()));
    }
}

proof fn lemma_digits_one_line(n: nat)
    ensures
        one_line(digits(n)),
    decreases n,
{
    if n >= 10 {
        lemma_digits_one_line(n / 10);
        let c = crate::numfmt::digit_char(n % 10);
        assert(digits(n / 10).push(c) =~= digits(n / 10) + seq![c]);
        lemma_one_line_join(digits(n / 10), seq![c]);
    }
}

proof fn lemma_strip_zeros_prefix(s: Seq<char>)
    ensures
        crate::numfmt::strip_zeros(s).len() <= s.len(),
        forall|k: int|
            0 <= k < crate::numfmt::strip_zeros(s).len() ==> #[trigger] crate::numfmt::strip_zeros(s)[k]
                == s[k],
    decreases s.len(),
{
    if s.len() > 0 && s.last() == '0' {
        lemma_strip_zeros_prefix(s.drop_last());
    }
}

proof fn lemma_display_one_line(v: int)
    ensures
        one_line(display_milli(v)),
{
    let m = crate::numfmt::abs(v);
    let frac = m % 1000;
    lemma_digits_one_line(m / 1000);
    lemma_one_line_join(crate::numfmt::sign(v), digits(m / 1000));
    let head = crate::numfmt::sign(v) + digits(m / 1000);
    if frac == 0 {
        assert(display_milli(v) =~= head);
    } else {
        lemma_digits_one_line(frac);
        let padded = crate::numfmt::zero_pad(digits(frac), 3);
        if digits(frac).len() < 3 {
            let zeros = Seq::new((3 - digits(frac).len()) as nat, |i: int| '0');
            lemma_one_line_join(zeros, digits(frac));
        }
        lemma_strip_zeros_prefix(padded);
        let tail = crate::numfmt::strip_zeros(padded);
        lemma_one_line_join(seq!['.'], tail);
        lemma_one_line_join(head, seq!['.'] + tail);
        assert(display_milli(v) =~= head + (seq!['.'] + tail));
    }
}

/// A line begins `josephine_` and holds no break until its end.
proof fn lemma_one_sample(body: Seq<char>)
    requires
        one_line(body),
        sample_starts_at(body, 0),
    ensures
        sample_lines(body + "\n"@),
{
    reveal_strlit("\n");
    let s = body + "\n"@;
    assert(s.subrange(0, 10) =~= body.subrange(0, 10));
    assert forall|i: int| 0 <= i < s.len() && (i == 0 || s[i - 1] == '\n') implies #[trigger] sample_starts_at(
        s,
        i,
    ) by {
        if i > 0 {
            assert(s[i - 1] == body[i - 1]);
        }
    }
}

/// Whole sample lines one after the other are whole sample lines.
proof fn lemma_concat_sample_lines(parts: Seq<Seq<char>>)
    requires
        forall|j: int| 0 <= j < parts.len() ==> sample_lines(#[trigger] parts[j]),
    ensures
        sample_lines(concat(parts)),
    decreases parts.len(),
{
    if parts.len() > 0 {
        let init = parts.drop_last();
        assert forall|j: int| 0 <= j < init.len() implies sample_lines(#[trigger] init[j]) by {
            assert(init[j] == parts[j]);
        }
        lemma_concat_sample_lines(init);
        let a = concat(init);
        let b = parts.last();
        assert(sample_lines(b)) by {
            assert(b == parts[parts.len() - 1]);
        }
        let s = a + b;
        assert(concat(parts) == s);
        assert forall|i: int| 0 <= i < s.len() && (i == 0 || s[i - 1] == '\n') implies #[trigger] sample_starts_at(
            s,
            i,
        ) by {
            if i < a.len() {
                assert(a[i] == s[i]);
                if i > 0 {
                    assert(a[i - 1] == s[i - 1]);
                }
                assert(sample_starts_at(a, i));
                assert(s.subrange(i, i + 10) =~= a.subrange(i, i + 10));
            } else {
                let j = i - a.len();
                if j > 0 {
                    assert(s[i - 1] == b[j - 1]);
                }
                assert(sample_starts_at(b, j));
                assert(s.subrange(i, i + 10) =~= b.subrange(j, j + 10));
            }
        }
        if b.len() > 0 {
            assert(s.last() == b.last());
        } else {
            assert(s =~= a);
        }
    }
}

proof fn lemma_metric_sample_lines(check: Seq<char>, m: (Seq<char>, Seq<char>, Milli))
    ensures
        sample_lines(metric_sample(check, m)),
{
    let l1 = "josephine_metric{check=\""@;
    let l2 = "\",metric=\""@;
    let l3 = "\",unit=\""@;
    let l4 = "\"} "@;
    reveal_strlit("josephine_metric{check=\"");
    reveal_strlit("\",metric=\"");
    reveal_strlit("\",unit=\"");
    reveal_strlit("\"} ");
    reveal_strlit("josephine_");
    lemma_escaped_one_line(check);
    lemma_escaped_one_line(m.0);
    lemma_escaped_one_line(m.1);
    lemma_display_one_line(m.2 as int);
    assert(one_line(l1) && one_line(l2) && one_line(l3) && one_line(l4));
    lemma_one_line_join(l1, escaped(check));
    lemma_one_line_join(l1 + escaped(check), l2);
    lemma_one_line_join(l1 + escaped(check) + l2, escaped(m.0));
    lemma_one_line_join(l1 + escaped(check) + l2 + escaped(m.0), l3);
    lemma_one_line_join(l1 + escaped(check) + l2 + escaped(m.0) + l3, escaped(m.1));
    lemma_one_line_join(l1 + escaped(check) + l2 + escaped(m.0) + l3 + escaped(m.1), l4);
    let body = l1 + escaped(check) + l2 + escaped(m.0) + l3 + escaped(m.1) + l4;
    lemma_one_line_join(body, display_milli(m.2 as int));
    let full = body + display_milli(m.2 as int);
    assert(full.subrange(0, 10) =~= "josephine_"@);
    lemma_one_sample(full);
}

proof fn lemma_severity_sample_lines(check: Seq<char>, sev: Severity)
    ensures
        sample_lines(severity_sample(check, sev)),
{
    let l1 = "josephine_check_severity{check=\""@;
    let l2 = "\"} "@;
    reveal_strlit("josephine_check_severity{check=\"");
    reveal_strlit("\"} ");
    reveal_strlit("josephine_");
    lemma_escaped_one_line(check);
    let n = crate::check::rank(sev) as nat;
    lemma_digits_one_line(n);
    assert(one_line(l1) && one_line(l2));
    lemma_one_line_join(l1, escaped(check));
    lemma_one_line_join(l1 + escaped(check), l2);
    lemma_one_line_join(l1 + escaped(check) + l2, digits(n));
    let full = l1 + escaped(check) + l2 + digits(n);
    assert(full.subrange(0, 10) =~= "josephine_"@);
    lemma_one_sample(full);
}

/// The value a severity sample carries: `0` ok, `1` attention, `2` critical.
pub open spec fn severity_value_text(s: Severity) -> Seq<char> {
    match s {
        Severity::Info => seq!['0'],
        Severity::Attention => seq!['1'],
        Severity::Critique => seq!['2'],
    }
}

proof fn lemma_contains_within(x: Seq<char>, y: Seq<char>, n: Seq<char>)
    requires
        contains(x, n),
    ensures
        contains(x + y, n),
        contains(y + x, n),
{
    let i = choose|i: int| occurs_at(x, n, i);
    assert((x + y).subrange(i, i + n.len()) =~= x.subrange(i, i + n.len()));
    assert(occurs_at(x + y, n, i));
    assert((y + x).subrange(y.len() + i, y.len() + i + n.len()) =~= x.subrange(i, i + n.len()));
    assert(occurs_at(y + x, n, y.len() + i));
}

proof fn lemma_concat_holds_part(parts: Seq<Seq<char>>, j: int)
    requires
        0 <= j < parts.len(),
    ensures
        contains(concat(parts), parts[j]),
    decreases parts.len(),
{
    let front = concat(parts.drop_last());
    if j == parts.len() - 1 {
        let p = parts.last();
        assert((front + p).subrange(front.len() as int, (front.len() + p.len()) as int) =~= p);
        assert(occurs_at(front + p, p, front.len() as int));
    } else {
        lemma_concat_holds_part(parts.drop_last(), j);
        assert(parts.drop_last()[j] == parts[j]);
        lemma_contains_within(front, parts.last(), parts[j]);
    }
}

/// Every check the export holds has its severity sample in the text, and
/// that sample carries `2` for a check whose worst severity is critical,
/// `1` for attention and `0` for ok.
pub proof fn law_severity_sample_carries_the_worst_severity(
    es: Seq<(Seq<char>, SnapshotView)>,
    written_at: int,
    j: int,
)
    requires
        0 <= j < es.len(),
    ensures
        contains(
            render_text(es, written_at),
            "josephine_check_severity{check=\""@ + escaped(es[j].0) + "\"} "@ + severity_value_text(
                es[j].1.severity,
            ) + "\n"@,
        ),
{
    let sev = es[j].1.severity;
    let line = "josephine_check_severity{check=\""@ + escaped(es[j].0) + "\"} "@
        + severity_value_text(sev) + "\n"@;
    assert(digits(crate::check::rank(sev) as nat) =~= severity_value_text(sev)) by {
        reveal_with_fuel(digits, 2);
    }
    assert(severity_sample(es[j].0, sev) == line);
    let parts = Seq::new(es.len(), |i: int| severity_sample(es[i].0, es[i].1.severity));
    lemma_concat_holds_part(parts, j);
    let head = "# HELP josephine_metric Latest value reported by a Joséphine check.\n"@
        + "# TYPE josephine_metric gauge\n"@ + metric_lines(es)
        + "# HELP josephine_check_severity Worst severity for a check: 0 ok, 1 attention, 2 critical.\n"@
        + "# TYPE josephine_check_severity gauge\n"@;
    let tail = "# HELP josephine_last_write_timestamp_seconds When Joséphine last wrote this file.\n"@
        + "# TYPE josephine_last_write_timestamp_seconds gauge\n"@
        + "josephine_last_write_timestamp_seconds "@ + int_text(written_at) + "\n"@;
    lemma_contains_within(severity_lines(es), tail, line);
    lemma_contains_within(severity_lines(es) + tail, head, line);
    assert(render_text(es, written_at) =~= head + (severity_lines(es) + tail));
}

/// Every metric of every check the export holds has its sample in the text,
/// labelled with the check, the metric's name and unit, and carrying the
/// metric's value as Rust's `{}` writes it.
pub proof fn law_metric_sample_carries_the_value(
    es: Seq<(Seq<char>, SnapshotView)>,
    written_at: int,
    j: int,
    k: int,
)
    requires
        0 <= j < es.len(),
        0 <= k < es[j].1.metrics.len(),
    ensures
        contains(
            render_text(es, written_at),
            "josephine_metric{check=\""@ + escaped(es[j].0) + "\",metric=\""@ + escaped(
                es[j].1.metrics[k].0,
            ) + "\",unit=\""@ + escaped(es[j].1.metrics[k].1) + "\"} "@ + display_milli(
                es[j].1.metrics[k].2 as int,
            ) + "\n"@,
        ),
{
    let c = es[j].0;
    let ms = es[j].1.metrics;
    let line = "josephine_metric{check=\""@ + escaped(c) + "\",metric=\""@ + escaped(ms[k].0)
        + "\",unit=\""@ + escaped(ms[k].1) + "\"} "@ + display_milli(ms[k].2 as int) + "\n"@;
    let samples = Seq::new(ms.len(), |i: int| metric_sample(c, ms[i]));
    assert(samples[k] == line);
    lemma_concat_holds_part(samples, k);
    let parts = Seq::new(es.len(), |i: int| check_samples(es[i].0, es[i].1.metrics));
    assert(parts[j] == concat(samples));
    lemma_concat_holds_part(parts, j);
    lemma_contains_within_concat_parts(parts, j, line);
    let head = "# HELP josephine_metric Latest value reported by a Joséphine check.\n"@
        + "# TYPE josephine_metric gauge\n"@;
    let tail = "# HELP josephine_check_severity Worst severity for a check: 0 ok, 1 attention, 2 critical.\n"@
        + "# TYPE josephine_check_severity gauge\n"@ + severity_lines(es)
        + "# HELP josephine_last_write_timestamp_seconds When Joséphine last wrote this file.\n"@
        + "# TYPE josephine_last_write_timestamp_seconds gauge\n"@
        + "josephine_last_write_timestamp_seconds "@ + int_text(written_at) + "\n"@;
    lemma_contains_within(metric_lines(es), tail, line);
    lemma_contains_within(metric_lines(es) + tail, head, line);
    assert(render_text(es, written_at) =~= head + (metric_lines(es) + tail));
}

/// What a part holds, the concatenation holds.
proof fn lemma_contains_within_concat_parts(parts: Seq<Seq<char>>, j: int, n: Seq<char>)
    requires
        0 <= j < parts.len(),
        contains(parts[j], n),
    ensures
        contains(concat(parts), n),
    decreases parts.len(),
{
    let front = concat(parts.drop_last());
    if j == parts.len() - 1 {
        lemma_contains_within(parts.last(), front, n);
    } else {
        assert(parts.drop_last()[j] == parts[j]);
        lemma_contains_within_concat_parts(parts.drop_last(), j, n);
        lemma_contains_within(front, parts.last(), n);
    }
}

/// Each metric family is declared exactly once, ahead of its samples: the
/// text is each family's `# HELP` and `# TYPE` lines followed by its
/// samples, and every line of those samples begins `josephine_`, never `#`,
/// since label values are escaped and numbers hold no line break.
pub proof fn law_each_family_declared_once(es: Seq<(Seq<char>, SnapshotView)>, written_at: int)
    ensures
        render_text(es, written_at) == "# HELP josephine_metric Latest value reported by a Joséphine check.\n"@
            + "# TYPE josephine_metric gauge\n"@ + metric_lines(es)
            + "# HELP josephine_check_severity Worst severity for a check: 0 ok, 1 attention, 2 critical.\n"@
            + "# TYPE josephine_check_severity gauge\n"@ + severity_lines(es)
            + "# HELP josephine_last_write_timestamp_seconds When Joséphine last wrote this file.\n"@
            + "# TYPE josephine_last_write_timestamp_seconds gauge\n"@
            + ("josephine_last_write_timestamp_seconds "@ + int_text(written_at) + "\n"@),
        sample_lines(metric_lines(es)),
        sample_lines(severity_lines(es)),
        sample_lines("josephine_last_write_timestamp_seconds "@ + int_text(written_at) + "\n"@),
{
    let checks = Seq::new(es.len(), |i: int| check_samples(es[i].0, es[i].1.metrics));
    assert forall|j: int| 0 <= j < checks.len() implies sample_lines(#[trigger] checks[j]) by {
        let ms = es[j].1.metrics;
        let lines = Seq::new(ms.len(), |k: int| metric_sample(es[j].0, ms[k]));
        assert forall|k: int| 0 <= k < lines.len() implies sample_lines(#[trigger] lines[k]) by {
            lemma_metric_sample_lines(es[j].0, ms[k]);
        }
        lemma_concat_sample_lines(lines);
    }
    lemma_concat_sample_lines(checks);
    let sevs = Seq::new(es.len(), |i: int| severity_sample(es[i].0, es[i].1.severity));
    assert forall|j: int| 0 <= j < sevs.len() implies sample_lines(#[trigger] sevs[j]) by {
        lemma_severity_sample_lines(es[j].0, es[j].1.severity);
    }
    lemma_concat_sample_lines(sevs);
    let l = "josephine_last_write_timestamp_seconds "@;
    reveal_strlit("josephine_last_write_timestamp_seconds ");
    reveal_strlit("josephine_");
    lemma_digits_one_line(crate::numfmt::abs(written_at));
    lemma_one_line_join(crate::numfmt::sign(written_at), digits(crate::numfmt::abs(written_at)));
    assert(one_line(l));
    lemma_one_line_join(l, int_text(written_at));
    assert((l + int_text(written_at)).subrange(0, 10) =~= "josephine_"@);
    lemma_one_sample(l + int_text(written_at));
}


/// `after` is what recording a result named `name` with snapshot `snap`
/// makes of `before`, as `record` states it: the names stay in order, and
/// `name` now finds `snap` while every other name finds what it found.
pub open spec fn records(
    before: Seq<(Seq<char>, SnapshotView)>,
    after: Seq<(Seq<char>, SnapshotView)>,
    name: Seq<char>,
    snap: SnapshotView,
) -> bool {
    &&& sorted(after)
    &&& forall|c: Seq<char>| #[trigger]
        lookup(after, c) == if c == name {
            Some(snap)
        } else {
            lookup(before, c)
        }
}

/// The `i`-th of a run of `record` calls: from the `i`-th entries to the next.
pub open spec fn recorded_step(
    states: Seq<Seq<(Seq<char>, SnapshotView)>>,
    names: Seq<Seq<char>>,
    snaps: Seq<SnapshotView>,
    i: int,
) -> bool {
    records(states[i], states[i + 1], names[i], snaps[i])
}

/// The snapshot last recorded under `c` among the first `k` records.
pub open spec fn last_recorded(names: Seq<Seq<char>>, snaps: Seq<SnapshotView>, k: int, c: Seq<char>) -> Option<
    SnapshotView,
>
    decreases k,
{
    if k <= 0 {
        None
    } else if names[k - 1] == c {
        Some(snaps[k - 1])
    } else {
        last_recorded(names, snaps, k - 1, c)
    }
}

proof fn lemma_last_recorded_some(names: Seq<Seq<char>>, snaps: Seq<SnapshotView>, k: int, c: Seq<char>)
    requires
        0 <= k <= names.len(),
    ensures
        last_recorded(names, snaps, k, c) is Some <==> exists|i: int| 0 <= i < k && #[trigger] names[i] == c,
    decreases k,
{
    if k > 0 {
        lemma_last_recorded_some(names, snaps, k - 1, c);
        if names[k - 1] != c {
            if exists|i: int| 0 <= i < k && #[trigger] names[i] == c {
                let i = choose|i: int| 0 <= i < k && #[trigger] names[i] == c;
                assert(i < k - 1);
            }
        }
    }
}

proof fn lemma_run_of_records(
    states: Seq<Seq<(Seq<char>, SnapshotView)>>,
    names: Seq<Seq<char>>,
    snaps: Seq<SnapshotView>,
    k: int,
)
    requires
        states.len() == names.len() + 1,
        snaps.len() == names.len(),
        states[0] == Seq::<(Seq<char>, SnapshotView)>::empty(),
        forall|i: int| 0 <= i < names.len() ==> #[trigger] recorded_step(states, names, snaps, i),
        0 <= k <= names.len(),
    ensures
        sorted(states[k]),
        forall|c: Seq<char>| #[trigger] lookup(states[k], c) == last_recorded(names, snaps, k, c),
    decreases k,
{
    if k > 0 {
        lemma_run_of_records(states, names, snaps, k - 1);
        assert(recorded_step(states, names, snaps, k - 1));
        assert forall|c: Seq<char>| #[trigger] lookup(states[k], c) == last_recorded(names, snaps, k, c) by {
            assert(lookup(states[k - 1], c) == last_recorded(names, snaps, k - 1, c));
        }
    }
}

/// After a run of `record` calls on a new export (the `i`-th recording the
/// name `names[i]` with the snapshot `snaps[i]`), the export holds exactly
/// one entry per name recorded, in ascending order of the names, each with
/// the snapshot last recorded under it; these are the entries `render_text`
/// writes the samples of, in that order.
pub proof fn law_export_keeps_the_last_result_per_check(
    states: Seq<Seq<(Seq<char>, SnapshotView)>>,
    names: Seq<Seq<char>>,
    snaps: Seq<SnapshotView>,
)
    requires
        states.len() == names.len() + 1,
        snaps.len() == names.len(),
        states[0] == Seq::<(Seq<char>, SnapshotView)>::empty(),
        forall|i: int| 0 <= i < names.len() ==> #[trigger] recorded_step(states, names, snaps, i),
    ensures
        sorted(states.last()),
        forall|c: Seq<char>| #[trigger]
            lookup(states.last(), c) == last_recorded(names, snaps, names.len() as int, c),
        forall|j: int|
            0 <= j < states.last().len() ==> names.contains(#[trigger] states.last()[j].0) && Some(
                states.last()[j].1,
            ) == last_recorded(names, snaps, names.len() as int, states.last()[j].0),
        forall|c: Seq<char>|
            #[trigger] names.contains(c) ==> exists|j: int|
                0 <= j < states.last().len() && #[trigger] states.last()[j].0 == c,
{
    let n = names.len() as int;
    lemma_run_of_records(states, names, snaps, n);
    let es = states.last();
    assert(es == states[n]);
    assert forall|j: int| 0 <= j < es.len() implies names.contains(#[trigger] es[j].0) && Some(es[j].1)
        == last_recorded(names, snaps, n, es[j].0) by {
        let c = es[j].0;
        assert forall|a: int| j < a < es.len() implies #[trigger] es[a].0 != c by {
            lemma_sorted_unique(es, j, a);
        }
        lemma_lookup_found(es, j, c);
        lemma_last_recorded_some(names, snaps, n, c);
        let i = choose|i: int| 0 <= i < n && #[trigger] names[i] == c;
        assert(names[i] == c);
    }
    assert forall|c: Seq<char>| #[trigger] names.contains(c) implies exists|j: int|
        0 <= j < es.len() && #[trigger] es[j].0 == c by {
        let i = choose|i: int| 0 <= i < names.len() && names[i] == c;
        assert(names[i] == c);
        lemma_last_recorded_some(names, snaps, n, c);
        if forall|a: int| 0 <= a < es.len() ==> #[trigger] es[a].0 != c {
            lemma_lookup_absent(es, c);
        }
    }
}

} // verus!
