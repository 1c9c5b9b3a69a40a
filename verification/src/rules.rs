//! The alert state machine: one state per (check, metric), moved by each new
//! measurement, announcing escalations and recoveries exactly once.
use vstd::prelude::*;

use crate::check::{metric_sev, metric_severity, Metric, Severity};
use crate::config::CheckThresholds;
use crate::lang::Lang;
use crate::messages::{alert_message, alert_text, recovery_message, recovery_text};
use crate::numfmt::Milli;

verus! {

#[derive(Debug, Clone, Copy, PartialEq, Eq, Structural)]
pub enum AlertState {
    Normal,
    Warning,
    Critical,
}

pub open spec fn alert_state_text(s: AlertState) -> Seq<char> {
    match s {
        AlertState::Normal => "NORMAL"@,
        AlertState::Warning => "WARNING"@,
        AlertState::Critical => "CRITICAL"@,
    }
}

impl AlertState {
    pub fn as_str(self) -> (s: &'static str)
        ensures
            s@ == alert_state_text(self),
    {
        match self {
            AlertState::Normal => "NORMAL",
            AlertState::Warning => "WARNING",
            AlertState::Critical => "CRITICAL",
        }
    }
}

/// The state an event is stored under: `RECOVERED` for a recovery, the new
/// state otherwise.
pub fn recorded_state(transition: &StateTransition) -> (s: &'static str)
    ensures
        s@ == if transition.recovered {
            "RECOVERED"@
        } else {
            alert_state_text(transition.to)
        },
{
    if transition.recovered {
        "RECOVERED"
    } else {
        transition.to.as_str()
    }
}

/// Whether a recorded transition is announced on the desktop: only when
/// desktop notifications are on and the transition calls for one.
pub fn announce_on_desktop(desktop: bool, transition: &StateTransition) -> (b: bool)
    ensures
        b == (desktop && transition.notify),
{
    desktop && transition.notify
}

pub open spec fn alert_of_severity(s: Severity) -> AlertState {
    match s {
        Severity::Info => AlertState::Normal,
        Severity::Attention => AlertState::Warning,
        Severity::Critique => AlertState::Critical,
    }
}

pub fn severity_to_alert(severity: Severity) -> (a: AlertState)
    ensures
        a == alert_of_severity(severity),
{
    match severity {
        Severity::Info => AlertState::Normal,
        Severity::Attention => AlertState::Warning,
        Severity::Critique => AlertState::Critical,
    }
}

/// The state a metric's value puts it in.
pub open spec fn alert_of(m: Metric) -> AlertState {
    alert_of_severity(metric_sev(m))
}

/// A change of state worth telling the user about.
#[derive(Debug, Clone)]
pub struct StateTransition {
    pub check_name: String,
    pub metric_name: String,
    pub from: AlertState,
    pub to: AlertState,
    pub value: Milli,
    pub message: String,
    pub notify: bool,
    pub recovered: bool,
}

/// What a transition says, as plain values.
pub struct TransitionView {
    pub check: Seq<char>,
    pub metric: Seq<char>,
    pub from: AlertState,
    pub to: AlertState,
    pub value: int,
    pub message: Seq<char>,
    pub notify: bool,
    pub recovered: bool,
}

impl View for StateTransition {
    type V = TransitionView;

    open spec fn view(&self) -> TransitionView {
        TransitionView {
            check: self.check_name@,
            metric: self.metric_name@,
            from: self.from,
            to: self.to,
            value: self.value as int,
            message: self.message@,
            notify: self.notify,
            recovered: self.recovered,
        }
    }
}

/// The remembered states: a (check, metric) key absent from the map is
/// `Normal`.
pub type AlertStates = Map<(Seq<char>, Seq<char>), AlertState>;

pub open spec fn state_in(states: AlertStates, key: (Seq<char>, Seq<char>)) -> AlertState {
    if states.contains_key(key) {
        states[key]
    } else {
        AlertState::Normal
    }
}

/// Whether moving from `prev` to `cur` is announced: any escalation, and any
/// return to normal. Stepping down from critical to warning is silent.
pub open spec fn announced(prev: AlertState, cur: AlertState) -> bool {
    ||| (prev == AlertState::Normal && cur != AlertState::Normal)
    ||| (prev == AlertState::Warning && cur == AlertState::Critical)
    ||| (prev != AlertState::Normal && cur == AlertState::Normal)
}

/// One measurement through the machine: the new states, and the transition
/// announced, if any.
pub open spec fn step(
    states: AlertStates,
    check: Seq<char>,
    m: Metric,
    th: CheckThresholds,
    lang: Lang,
) -> (AlertStates, Option<TransitionView>) {
    let key = (check, m.name@);
    let prev = state_in(states, key);
    let cur = alert_of(m);
    if prev == cur {
        (states, None)
    } else {
        let next = states.insert(key, cur);
        if !announced(prev, cur) {
            (next, None)
        } else {
            let recovered = cur == AlertState::Normal;
            (
                next,
                Some(
                    TransitionView {
                        check,
                        metric: m.name@,
                        from: prev,
                        to: cur,
                        value: m.value as int,
                        message: if recovered {
                            recovery_text(check, m, lang)
                        } else {
                            alert_text(check, m, th, cur, lang)
                        },
                        notify: true,
                        recovered,
                    },
                ),
            )
        }
    }
}

/// A whole check's metrics through the machine, in order; metrics without a
/// warning threshold are not watched.
pub open spec fn run_check(
    states: AlertStates,
    check: Seq<char>,
    ms: Seq<Metric>,
    th: CheckThresholds,
    lang: Lang,
) -> (AlertStates, Seq<TransitionView>)
    decreases ms.len(),
{
    if ms.len() == 0 {
        (states, seq![])
    } else {
        let (s1, out) = run_check(states, check, ms.drop_last(), th, lang);
        let m = ms.last();
        if m.threshold_warning is None {
            (s1, out)
        } else {
            let (s2, t) = step(s1, check, m, th, lang);
            match t {
                Some(x) => (s2, out.push(x)),
                None => (s2, out),
            }
        }
    }
}

pub open spec fn views_of(v: Seq<StateTransition>) -> Seq<TransitionView> {
    Seq::new(v.len(), |i: int| v[i]@)
}

type Entry = (String, String, AlertState);

pub open spec fn entry_key(e: (String, String, AlertState)) -> (Seq<char>, Seq<char>) {
    (e.0@, e.1@)
}

/// The state remembered for a key: that of its last entry.
pub open spec fn lookup(s: Seq<(String, String, AlertState)>, key: (Seq<char>, Seq<char>)) -> Option<
    AlertState,
>
    decreases s.len(),
{
    if s.len() == 0 {
        None
    } else if entry_key(s.last()) == key {
        Some(s.last().2)
    } else {
        lookup(s.drop_last(), key)
    }
}

proof fn lemma_lookup_none(s: Seq<Entry>, key: (Seq<char>, Seq<char>))
    requires
        forall|j: int| 0 <= j < s.len() ==> entry_key(#[trigger] s[j]) != key,
    ensures
        lookup(s, key) is None,
    decreases s.len(),
{
    if s.len() > 0 {
        lemma_lookup_none(s.drop_last(), key);
    }
}

proof fn lemma_lookup_found(s: Seq<Entry>, key: (Seq<char>, Seq<char>), i: int)
    requires
        0 <= i < s.len(),
        entry_key(s[i]) == key,
        forall|j: int| i < j < s.len() ==> entry_key(#[trigger] s[j]) != key,
    ensures
        lookup(s, key) == Some(s[i].2),
    decreases s.len(),
{
    if i < s.len() - 1 {
        lemma_lookup_found(s.drop_last(), key, i);
    }
}

proof fn lemma_lookup_push(s: Seq<Entry>, e: Entry, key: (Seq<char>, Seq<char>))
    ensures
        lookup(s.push(e), key) == if entry_key(e) == key {
            Some(e.2)
        } else {
            lookup(s, key)
        },
{
    assert(s.push(e).drop_last() =~= s);
}

proof fn lemma_lookup_update(s: Seq<Entry>, i: int, e: Entry, key: (Seq<char>, Seq<char>))
    requires
        0 <= i < s.len(),
        entry_key(e) == entry_key(s[i]),
        forall|j: int| i < j < s.len() ==> entry_key(#[trigger] s[j]) != entry_key(s[i]),
    ensures
        lookup(s.update(i, e), key) == if entry_key(e) == key {
            Some(e.2)
        } else {
            lookup(s, key)
        },
    decreases s.len(),
{
    let t = s.update(i, e);
    if entry_key(e) == key {
        lemma_lookup_found(t, key, i);
    } else if i < s.len() - 1 {
        assert(t.drop_last() =~= s.drop_last().update(i, e));
        lemma_lookup_update(s.drop_last(), i, e, key);
    } else {
        assert(t.drop_last() =~= s.drop_last());
    }
}

/// Remembers the alert state of every (check, metric) seen, and turns each
/// new measurement into at most one announced transition.
///
/// The states are a vector of entries, the last one for a key winning,
/// rather than a `HashMap` keyed by `(String, String)`: with `String` keys,
/// vstd's map specifications give nothing to prove a lookup with, so the
/// map the engine stands for is its view, proved over the vector here.
pub struct RulesEngine {
    states: Vec<(String, String, AlertState)>,
}

impl View for RulesEngine {
    type V = AlertStates;

    closed spec fn view(&self) -> AlertStates {
        Map::new(
            |k: (Seq<char>, Seq<char>)| lookup(self.states@, k) is Some,
            |k: (Seq<char>, Seq<char>)| lookup(self.states@, k)->0,
        )
    }
}

impl RulesEngine {
    pub fn new() -> (r: Self)
        ensures
            r@ == Map::<(Seq<char>, Seq<char>), AlertState>::empty(),
    {
        let r = RulesEngine { states: Vec::new() };
        assert(r@ =~= Map::<(Seq<char>, Seq<char>), AlertState>::empty()) by {
            assert forall|k: (Seq<char>, Seq<char>)| lookup(r.states@, k) is None by {
                lemma_lookup_none(r.states@, k);
            }
        }
        r
    }

    /// The index of the last entry for this key.
    fn find(&self, check: &String, metric: &String) -> (r: Option<usize>)
        ensures
            r matches Some(i) ==> i < self.states@.len() && entry_key(self.states@[i as int]) == (
                check@,
                metric@,
            ) && forall|j: int|
                i < j < self.states@.len() ==> entry_key(#[trigger] self.states@[j]) != (
                    check@,
                    metric@,
                ),
            r is None ==> forall|j: int|
                0 <= j < self.states@.len() ==> entry_key(#[trigger] self.states@[j]) != (
                    check@,
                    metric@,
                ),
    {
        let mut i = self.states.len();
        while i > 0
            invariant
                i <= self.states@.len(),
                forall|j: int|
                    i <= j < self.states@.len() ==> entry_key(#[trigger] self.states@[j]) != (
                        check@,
                        metric@,
                    ),
            decreases i,
        {
            let e = &self.states[i - 1];
            if e.0 == *check && e.1 == *metric {
                return Some(i - 1);
            }
            i = i - 1;
        }
        None
    }

    /// The state remembered for (check, metric); `Normal` when never seen.
    pub fn state(&self, check: &String, metric: &String) -> (s: AlertState)
        ensures
            s == state_in(self@, (check@, metric@)),
    {
        match self.find(check, metric) {
            Some(i) => {
                proof {
                    lemma_lookup_found(self.states@, (check@, metric@), i as int);
                }
                self.states[i].2
            },
            None => {
                proof {
                    lemma_lookup_none(self.states@, (check@, metric@));
                }
                AlertState::Normal
            },
        }
    }

    fn set(&mut self, check: &String, metric: &String, state: AlertState)
        ensures
            final(self)@ == old(self)@.insert((check@, metric@), state),
    {
        let ghost key = (check@, metric@);
        match self.find(check, metric) {
            Some(i) => {
                let ghost before = self.states@;
                let e = (self.states[i].0.clone(), self.states[i].1.clone(), state);
                self.states.set(i, e);
                proof {
                    assert(self.states@ == before.update(i as int, e));
                    assert forall|k: (Seq<char>, Seq<char>)|
                        lookup(self.states@, k) == if k == key {
                            Some(state)
                        } else {
                            lookup(before, k)
                        } by {
                        lemma_lookup_update(before, i as int, e, k);
                    }
                    assert(self@ =~= old(self)@.insert(key, state));
                }
            },
            None => {
                let ghost before = self.states@;
                let e = (check.clone(), metric.clone(), state);
                self.states.push(e);
                proof {
                    assert forall|k: (Seq<char>, Seq<char>)|
                        lookup(self.states@, k) == if k == key {
                            Some(state)
                        } else {
                            lookup(before, k)
                        } by {
                        lemma_lookup_push(before, e, k);
                    }
                    assert(self@ =~= old(self)@.insert(key, state));
                }
            },
        }
    }

    /// Move one metric's state; announce the move when it is one.
    pub fn evaluate_metric(
        &mut self,
        check_name: &str,
        metric: &Metric,
        thresholds: &CheckThresholds,
        lang: Lang,
    ) -> (r: Option<StateTransition>)
        ensures
            (final(self)@, match r {
                Some(t) => Some(t@),
                None => None,
            }) == step(old(self)@, check_name@, *metric, *thresholds, lang),
    {
        let check = check_name.to_string();
        let previous = self.state(&check, &metric.name);
        let current = severity_to_alert(metric_severity(metric));
        if previous == current {
            return None;
        }
        self.set(&check, &metric.name, current);
        let notify = match (previous, current) {
            (AlertState::Normal, AlertState::Warning) => true,
            (AlertState::Normal, AlertState::Critical) => true,
            (AlertState::Warning, AlertState::Critical) => true,
            (AlertState::Warning, AlertState::Normal) => true,
            (AlertState::Critical, AlertState::Normal) => true,
            _ => false,
        };
        if !notify {
            return None;
        }
        let recovered = current == AlertState::Normal;
        let message = if recovered {
            recovery_message(check_name, metric, lang)
        } else {
            alert_message(check_name, metric, thresholds, current, lang)
        };
        Some(
            StateTransition {
                check_name: check,
                metric_name: metric.name.clone(),
                from: previous,
                to: current,
                value: metric.value,
                message,
                notify: true,
                recovered,
            },
        )
    }

    /// Run a check's metrics through the machine, in order, collecting the
    /// announced transitions. Metrics without a warning threshold are skipped.
    pub fn evaluate_check(
        &mut self,
        check_name: &str,
        metrics: &[Metric],
        thresholds: &CheckThresholds,
        lang: Lang,
    ) -> (r: Vec<StateTransition>)
        ensures
            (final(self)@, views_of(r@)) == run_check(
                old(self)@,
                check_name@,
                metrics@,
                *thresholds,
                lang,
            ),
    {
        let mut out: Vec<StateTransition> = Vec::new();
        let mut i: usize = 0;
        while i < metrics.len()
            invariant
                i <= metrics@.len(),
                (self@, views_of(out@)) == run_check(
                    old(self)@,
                    check_name@,
                    metrics@.take(i as int),
                    *thresholds,
                    lang,
                ),
            decreases metrics@.len() - i,
        {
            let m = &metrics[i];
            proof {
                assert(metrics@.take(i + 1).drop_last() =~= metrics@.take(i as int));
            }
            if m.threshold_warning.is_some() {
                let ghost before = out@;
                match self.evaluate_metric(check_name, m, thresholds, lang) {
                    Some(t) => {
                        out.push(t);
                        assert(views_of(out@) =~= views_of(before).push(t@));
                    },
                    None => {},
                }
            }
            i = i + 1;
        }
        assert(metrics@.take(metrics@.len() as int) =~= metrics@);
        out
    }
}

// --- Laws of the machine -------------------------------------------------------

/// A measurement that leaves a metric in the state it was already in changes
/// nothing and announces nothing.
pub proof fn law_unchanged_state_is_silent(
    states: AlertStates,
    check: Seq<char>,
    m: Metric,
    th: CheckThresholds,
    lang: Lang,
)
    requires
        state_in(states, (check, m.name@)) == alert_of(m),
    ensures
        step(states, check, m, th, lang) == (states, None::<TransitionView>),
{
}

/// After a measurement the machine remembers the state it put the metric in,
/// leaves every other metric's state alone, and so repeating the same
/// measurement announces nothing.
pub proof fn law_engine_remembers(
    states: AlertStates,
    check: Seq<char>,
    m: Metric,
    th: CheckThresholds,
    lang: Lang,
    other: (Seq<char>, Seq<char>),
)
    requires
        other != (check, m.name@),
    ensures
        state_in(step(states, check, m, th, lang).0, (check, m.name@)) == alert_of(m),
        state_in(step(states, check, m, th, lang).0, other) == state_in(states, other),
        step(step(states, check, m, th, lang).0, check, m, th, lang) == (
            step(states, check, m, th, lang).0,
            None::<TransitionView>,
        ),
{
}

/// Every announced transition notifies, goes from the remembered state to
/// the measured one, and is a recovery exactly when it lands on `Normal`.
pub proof fn law_announcements_are_faithful(
    states: AlertStates,
    check: Seq<char>,
    m: Metric,
    th: CheckThresholds,
    lang: Lang,
)
    ensures
        step(states, check, m, th, lang).1 matches Some(t) ==> {
            &&& t.notify
            &&& t.from == state_in(states, (check, m.name@))
            &&& t.to == alert_of(m)
            &&& t.from != t.to
            &&& t.recovered == (t.to == AlertState::Normal)
            &&& t.value == m.value as int
            &&& t.check == check
            &&& t.metric == m.name@
        },
        step(states, check, m, th, lang).1 is Some <==> announced(
            state_in(states, (check, m.name@)),
            alert_of(m),
        ),
{
}

/// A metric back below its thresholds after an alert is announced once as a
/// recovery; a further normal reading is silent.
pub proof fn law_recovery_announced_once(
    states: AlertStates,
    check: Seq<char>,
    m: Metric,
    again: Metric,
    th: CheckThresholds,
    lang: Lang,
)
    requires
        state_in(states, (check, m.name@)) != AlertState::Normal,
        alert_of(m) == AlertState::Normal,
        again.name@ == m.name@,
        alert_of(again) == AlertState::Normal,
    ensures
        step(states, check, m, th, lang).1 matches Some(t) && t.recovered && t.to
            == AlertState::Normal,
        step(step(states, check, m, th, lang).0, check, again, th, lang).1 is None,
{
}

/// A warning that worsens to critical is announced as an escalation.
pub proof fn law_escalation_is_announced(
    states: AlertStates,
    check: Seq<char>,
    m: Metric,
    th: CheckThresholds,
    lang: Lang,
)
    requires
        state_in(states, (check, m.name@)) == AlertState::Warning,
        alert_of(m) == AlertState::Critical,
    ensures
        step(states, check, m, th, lang).1 matches Some(t) && t.to == AlertState::Critical
            && !t.recovered && t.message == alert_text(check, m, th, AlertState::Critical, lang),
{
}

/// No two watched metrics of a check share a name.
pub open spec fn distinct_watched(ms: Seq<Metric>) -> bool {
    forall|i: int, j: int|
        0 <= i < j < ms.len() && (#[trigger] ms[i]).threshold_warning is Some && (
        #[trigger] ms[j]).threshold_warning is Some ==> ms[i].name@ != ms[j].name@
}

/// Every watched metric sits in the state its value gives it.
pub open spec fn settled(states: AlertStates, check: Seq<char>, ms: Seq<Metric>) -> bool {
    forall|i: int|
        0 <= i < ms.len() && (#[trigger] ms[i]).threshold_warning is Some ==> state_in(
            states,
            (check, ms[i].name@),
        ) == alert_of(ms[i])
}

proof fn lemma_settled_run_is_silent(
    states: AlertStates,
    check: Seq<char>,
    ms: Seq<Metric>,
    th: CheckThresholds,
    lang: Lang,
)
    requires
        settled(states, check, ms),
    ensures
        run_check(states, check, ms, th, lang) == (states, Seq::<TransitionView>::empty()),
    decreases ms.len(),
{
    if ms.len() > 0 {
        assert(settled(states, check, ms.drop_last())) by {
            assert forall|i: int|
                0 <= i < ms.drop_last().len() && (#[trigger] ms.drop_last()[i]).threshold_warning is Some
                implies state_in(states, (check, ms.drop_last()[i].name@)) == alert_of(
                ms.drop_last()[i],
            ) by {
                assert(ms.drop_last()[i] == ms[i]);
            }
        }
        lemma_settled_run_is_silent(states, check, ms.drop_last(), th, lang);
        if ms.last().threshold_warning is Some {
            assert(ms.last() == ms[ms.len() - 1]);
        }
    }
}

proof fn lemma_run_settles(
    states: AlertStates,
    check: Seq<char>,
    ms: Seq<Metric>,
    th: CheckThresholds,
    lang: Lang,
)
    requires
        distinct_watched(ms),
    ensures
        settled(run_check(states, check, ms, th, lang).0, check, ms),
    decreases ms.len(),
{
    if ms.len() > 0 {
        let init = ms.drop_last();
        assert(distinct_watched(init)) by {
            assert forall|i: int, j: int|
                0 <= i < j < init.len() && (#[trigger] init[i]).threshold_warning is Some && (
                #[trigger] init[j]).threshold_warning is Some implies init[i].name@ != init[j].name@ by {
                assert(init[i] == ms[i] && init[j] == ms[j]);
            }
        }
        lemma_run_settles(states, check, init, th, lang);
        let s1 = run_check(states, check, init, th, lang).0;
        let last = ms.last();
        let s2 = run_check(states, check, ms, th, lang).0;
        assert forall|i: int|
            0 <= i < ms.len() && (#[trigger] ms[i]).threshold_warning is Some implies state_in(
            s2,
            (check, ms[i].name@),
        ) == alert_of(ms[i]) by {
            if i == ms.len() - 1 {
                assert(ms[i] == last);
            } else {
                assert(init[i] == ms[i]);
                if last.threshold_warning is Some {
                    assert(ms[ms.len() - 1] == last);
                    assert(ms[i].name@ != last.name@);
                }
            }
        }
    }
}

/// Running a check a second time on the same measurements announces nothing
/// and changes nothing, when no two watched metrics share a name.
pub proof fn law_repeating_a_check_is_silent(
    states: AlertStates,
    check: Seq<char>,
    ms: Seq<Metric>,
    th: CheckThresholds,
    lang: Lang,
)
    requires
        distinct_watched(ms),
    ensures
        run_check(run_check(states, check, ms, th, lang).0, check, ms, th, lang) == (
            run_check(states, check, ms, th, lang).0,
            Seq::<TransitionView>::empty(),
        ),
{
    lemma_run_settles(states, check, ms, th, lang);
    lemma_settled_run_is_silent(run_check(states, check, ms, th, lang).0, check, ms, th, lang);
}


/// The announcement a measurement makes when judged against `states`.
pub open spec fn announcement(
    states: AlertStates,
    check: Seq<char>,
    m: Metric,
    th: CheckThresholds,
    lang: Lang,
) -> TransitionView {
    let cur = alert_of(m);
    let recovered = cur == AlertState::Normal;
    TransitionView {
        check,
        metric: m.name@,
        from: state_in(states, (check, m.name@)),
        to: cur,
        value: m.value as int,
        message: if recovered {
            recovery_text(check, m, lang)
        } else {
            alert_text(check, m, th, cur, lang)
        },
        notify: true,
        recovered,
    }
}

/// The announcements of a check's watched metrics, in order: one for each
/// whose state, as it stood before the check, moves in an announced way.
pub open spec fn announcements(
    states: AlertStates,
    check: Seq<char>,
    ms: Seq<Metric>,
    th: CheckThresholds,
    lang: Lang,
) -> Seq<TransitionView>
    decreases ms.len(),
{
    if ms.len() == 0 {
        seq![]
    } else {
        let rest = announcements(states, check, ms.drop_last(), th, lang);
        let m = ms.last();
        if m.threshold_warning is Some && announced(state_in(states, (check, m.name@)), alert_of(m)) {
            rest.push(announcement(states, check, m, th, lang))
        } else {
            rest
        }
    }
}

/// `k` is the key of one of the check's watched metrics.
pub open spec fn watched_key(check: Seq<char>, ms: Seq<Metric>, k: (Seq<char>, Seq<char>)) -> bool {
    exists|i: int| 0 <= i < ms.len() && (#[trigger] ms[i]).threshold_warning is Some && k == (check, ms[i].name@)
}

proof fn lemma_distinct_init(ms: Seq<Metric>)
    requires
        ms.len() > 0,
        distinct_watched(ms),
    ensures
        distinct_watched(ms.drop_last()),
{
    let init = ms.drop_last();
    assert forall|i: int, j: int|
        0 <= i < j < init.len() && (#[trigger] init[i]).threshold_warning is Some && (
        #[trigger] init[j]).threshold_warning is Some implies init[i].name@ != init[j].name@ by {
        assert(init[i] == ms[i] && init[j] == ms[j]);
    }
}

proof fn lemma_run_check_list(
    states: AlertStates,
    check: Seq<char>,
    ms: Seq<Metric>,
    th: CheckThresholds,
    lang: Lang,
)
    requires
        distinct_watched(ms),
    ensures
        run_check(states, check, ms, th, lang).1 == announcements(states, check, ms, th, lang),
        forall|i: int|
            0 <= i < ms.len() && (#[trigger] ms[i]).threshold_warning is Some ==> state_in(
                run_check(states, check, ms, th, lang).0,
                (check, ms[i].name@),
            ) == alert_of(ms[i]),
        forall|k: (Seq<char>, Seq<char>)|
            !watched_key(check, ms, k) ==> #[trigger] state_in(run_check(states, check, ms, th, lang).0, k)
                == state_in(states, k),
    decreases ms.len(),
{
    if ms.len() > 0 {
        let init = ms.drop_last();
        lemma_distinct_init(ms);
        lemma_run_check_list(states, check, init, th, lang);
        let s1 = run_check(states, check, init, th, lang).0;
        let m = ms.last();
        let key = (check, m.name@);
        let s2 = run_check(states, check, ms, th, lang).0;
        if m.threshold_warning is Some {
            assert(ms[ms.len() - 1] == m);
            assert(!watched_key(check, init, key)) by {
                if watched_key(check, init, key) {
                    let i = choose|i: int|
                        0 <= i < init.len() && (#[trigger] init[i]).threshold_warning is Some && key
                            == (check, init[i].name@);
                    assert(init[i] == ms[i]);
                }
            }
            assert(state_in(s1, key) == state_in(states, key));
        }
        assert forall|i: int|
            0 <= i < ms.len() && (#[trigger] ms[i]).threshold_warning is Some implies state_in(
            s2,
            (check, ms[i].name@),
        ) == alert_of(ms[i]) by {
            if i < ms.len() - 1 {
                assert(init[i] == ms[i]);
                if m.threshold_warning is Some {
                    assert(ms[ms.len() - 1] == m);
                    assert(ms[i].name@ != m.name@);
                }
            } else {
                assert(ms[i] == m);
            }
        }
        assert forall|k: (Seq<char>, Seq<char>)| !watched_key(check, ms, k) implies #[trigger] state_in(
            s2,
            k,
        ) == state_in(states, k) by {
            assert(!watched_key(check, init, k)) by {
                if watched_key(check, init, k) {
                    let i = choose|i: int|
                        0 <= i < init.len() && (#[trigger] init[i]).threshold_warning is Some && k
                            == (check, init[i].name@);
                    assert(init[i] == ms[i]);
                }
            }
            if m.threshold_warning is Some {
                assert(ms[ms.len() - 1] == m);
                assert(k != key);
                assert(state_in(s2, k) == state_in(s1, k));
            } else {
                assert(s2 == s1);
            }
            assert(state_in(s1, k) == state_in(states, k));
        }
    }
}

proof fn lemma_announcements_shape(
    states: AlertStates,
    check: Seq<char>,
    ms: Seq<Metric>,
    th: CheckThresholds,
    lang: Lang,
)
    ensures
        forall|i: int|
            0 <= i < announcements(states, check, ms, th, lang).len() ==> {
                let t = #[trigger] announcements(states, check, ms, th, lang)[i];
                &&& t.notify
                &&& t.check == check
                &&& t.from != t.to
                &&& !(t.from == AlertState::Critical && t.to == AlertState::Warning)
                &&& t.recovered == (t.to == AlertState::Normal)
            },
    decreases ms.len(),
{
    if ms.len() > 0 {
        lemma_announcements_shape(states, check, ms.drop_last(), th, lang);
    }
}

/// Running a check whose watched metrics have distinct names judges every
/// watched metric against the state it had before the check: the check
/// announces, in order, exactly one transition per watched metric whose
/// state moves in an announced way (any escalation, any return to normal,
/// never critical easing to warning), each from that earlier state to the
/// measured one and with `notify` set; afterwards every watched metric sits
/// in the state its value gives it and every other state is untouched.
pub proof fn law_check_announces_each_change(
    states: AlertStates,
    check: Seq<char>,
    ms: Seq<Metric>,
    th: CheckThresholds,
    lang: Lang,
)
    requires
        distinct_watched(ms),
    ensures
        run_check(states, check, ms, th, lang).1 == announcements(states, check, ms, th, lang),
        forall|i: int|
            0 <= i < announcements(states, check, ms, th, lang).len() ==> {
                let t = #[trigger] announcements(states, check, ms, th, lang)[i];
                &&& t.notify
                &&& t.check == check
                &&& t.from != t.to
                &&& !(t.from == AlertState::Critical && t.to == AlertState::Warning)
                &&& t.recovered == (t.to == AlertState::Normal)
            },
        forall|i: int|
            0 <= i < ms.len() && (#[trigger] ms[i]).threshold_warning is Some ==> state_in(
                run_check(states, check, ms, th, lang).0,
                (check, ms[i].name@),
            ) == alert_of(ms[i]),
        forall|k: (Seq<char>, Seq<char>)|
            !watched_key(check, ms, k) ==> #[trigger] state_in(run_check(states, check, ms, th, lang).0, k)
                == state_in(states, k),
{
    lemma_run_check_list(states, check, ms, th, lang);
    lemma_announcements_shape(states, check, ms, th, lang);
}

/// The announcements against states where nothing was seen yet: one per
/// watched metric that is not normal.
pub open spec fn first_alerts(check: Seq<char>, ms: Seq<Metric>) -> Seq<Seq<char>>
    decreases ms.len(),
{
    if ms.len() == 0 {
        seq![]
    } else {
        let rest = first_alerts(check, ms.drop_last());
        let m = ms.last();
        if m.threshold_warning is Some && alert_of(m) != AlertState::Normal {
            rest.push(m.name@)
        } else {
            rest
        }
    }
}

proof fn lemma_fresh_announcements(
    check: Seq<char>,
    ms: Seq<Metric>,
    th: CheckThresholds,
    lang: Lang,
)
    ensures
        announcements(Map::empty(), check, ms, th, lang).len() == first_alerts(check, ms).len(),
        forall|i: int|
            0 <= i < first_alerts(check, ms).len() ==> {
                let t = #[trigger] announcements(Map::empty(), check, ms, th, lang)[i];
                &&& t.metric == first_alerts(check, ms)[i]
                &&& t.from == AlertState::Normal
                &&& t.to != AlertState::Normal
                &&& t.notify
                &&& !t.recovered
            },
    decreases ms.len(),
{
    if ms.len() > 0 {
        lemma_fresh_announcements(check, ms.drop_last(), th, lang);
    }
}

/// A fresh engine (every state `Normal`) running a check whose watched
/// metrics have distinct names announces, in order, one alert per watched
/// metric that is not normal, from `Normal` to its state, with `notify`
/// set and no recovery.
pub proof fn law_fresh_engine_announces_every_alert(
    check: Seq<char>,
    ms: Seq<Metric>,
    th: CheckThresholds,
    lang: Lang,
)
    requires
        distinct_watched(ms),
    ensures
        run_check(Map::empty(), check, ms, th, lang).1.len() == first_alerts(check, ms).len(),
        forall|i: int|
            0 <= i < first_alerts(check, ms).len() ==> {
                let t = #[trigger] run_check(Map::empty(), check, ms, th, lang).1[i];
                &&& t.metric == first_alerts(check, ms)[i]
                &&& t.from == AlertState::Normal
                &&& t.to != AlertState::Normal
                &&& t.notify
                &&& !t.recovered
            },
{
    lemma_run_check_list(Map::empty(), check, ms, th, lang);
    lemma_fresh_announcements(check, ms, th, lang);
}

} // verus!
