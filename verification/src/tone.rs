//! How Joséphine speaks. What she never says: her notifications, her update
//! messages and the phrasings of her voice hold none of the alarmist words
//! `ERROR`, `FATAL`, `PANIC`, `CRASH` or `ÉCHEC`, in any mix of capitals and
//! small letters. What she always says: every alert points to
//! `josephine doctor`.
//!
//! A literal text is checked position by position (blocks of forty written
//! out, so that checking it is evaluation); a message built around numbers
//! is calm because digits and signs spell nothing, and a word cannot run
//! across a seam where one side is not a letter.
use vstd::prelude::*;

use crate::check::Metric;
use crate::config::CheckThresholds;
use crate::lang::Lang;
use crate::messages::{
    alert_text, battery_alert_text, cpu_alert_text, disk_alert_text, en_fr, inode_alert_text,
    kernel_alert_text, memory_alert_text, n0, network_alert_text, recovery_text,
    restarts_alert_text, smart_alert_text, swap_alert_text, systemd_failed_alert_text,
    temperature_alert_text, temperature_limit, updates_alert_text, whole_count,
};
use crate::voice::{
    all_clear_pool, daemon_back_on_guard_pool, daemon_restarted_pool, daemon_started_pool,
    daemon_stopped_pool, doctor_attention_pool, doctor_critique_pool, doctor_info_pool,
    error_lead_pool, fix_all_good_pool, fix_hands_off_pool, fix_tagline_pool, history_calm_pool,
    history_closing_pool, in_lang, notify_test_body_pool, one_of, status_tagline_pool,
};
use crate::numfmt::{abs, digit_char, digits, fixed_digits, fmt_milli, pow10, round_half_even, sign};
use crate::text::{contains, occurs_at};
use crate::rules::AlertState;

verus! {

/// A letter that can spell an alarmist word: `A`–`Z`, `a`–`z`, `É`, `é`.
pub open spec fn is_letter(c: char) -> bool {
    ('A' <= c && c <= 'Z') || ('a' <= c && c <= 'z') || c == 'É' || c == 'é'
}

/// `c` is the capital `w`, or its small form.
pub open spec fn same_letter(c: char, w: char) -> bool {
    c == w || ('A' <= w && w <= 'Z' && c as int == w as int + 32) || (w == 'É' && c == 'é')
}

/// The five capitals `a b c d e` are spelt at position `i` of `s`, whatever
/// the case of each letter.
pub open spec fn spelt_at(s: Seq<char>, i: int, a: char, b: char, c: char, d: char, e: char) -> bool {
    &&& 0 <= i
    &&& i + 5 <= s.len()
    &&& same_letter(s[i], a)
    &&& same_letter(s[i + 1], b)
    &&& same_letter(s[i + 2], c)
    &&& same_letter(s[i + 3], d)
    &&& same_letter(s[i + 4], e)
}

/// An alarmist word starts at position `i` of `s`.
pub open spec fn alarm_at(s: Seq<char>, i: int) -> bool {
    ||| spelt_at(s, i, 'E', 'R', 'R', 'O', 'R')
    ||| spelt_at(s, i, 'F', 'A', 'T', 'A', 'L')
    ||| spelt_at(s, i, 'P', 'A', 'N', 'I', 'C')
    ||| spelt_at(s, i, 'C', 'R', 'A', 'S', 'H')
    ||| spelt_at(s, i, 'É', 'C', 'H', 'E', 'C')
}

/// `s` holds no alarmist word, in any mix of capitals and small letters.
pub open spec fn calm(s: Seq<char>) -> bool {
    forall|i: int| 0 <= i < s.len() ==> !#[trigger] alarm_at(s, i)
}

/// No character of `s` is a letter (numbers, signs, punctuation), and there
/// is at least one.
pub open spec fn plain(s: Seq<char>) -> bool {
    s.len() > 0 && forall|k: int| 0 <= k < s.len() ==> !is_letter(#[trigger] s[k])
}

/// No alarmist word starts in positions `i .. j` of `s` (one position at a
/// time, so that a literal text can be checked by unfolding).
spec fn calm_between(s: Seq<char>, i: int, j: int) -> bool
    decreases j - i,
{
    if i >= j {
        true
    } else {
        !alarm_at(s, i) && calm_between(s, i + 1, j)
    }
}

proof fn lemma_calm_between(s: Seq<char>, i: int, j: int)
    requires
        calm_between(s, i, j),
    ensures
        forall|k: int| i <= k < j ==> !#[trigger] alarm_at(s, k),
    decreases j - i,
{
    if i < j {
        lemma_calm_between(s, i + 1, j);
    }
}

/// No alarmist word starts in the forty positions from `b` on, written out
/// so that a literal text is checked by evaluation alone.
spec fn calm_block(s: Seq<char>, b: int) -> bool {
    &&& !alarm_at(s, b)
    &&& !alarm_at(s, b + 1)
    &&& !alarm_at(s, b + 2)
    &&& !alarm_at(s, b + 3)
    &&& !alarm_at(s, b + 4)
    &&& !alarm_at(s, b + 5)
    &&& !alarm_at(s, b + 6)
    &&& !alarm_at(s, b + 7)
    &&& !alarm_at(s, b + 8)
    &&& !alarm_at(s, b + 9)
    &&& !alarm_at(s, b + 10)
    &&& !alarm_at(s, b + 11)
    &&& !alarm_at(s, b + 12)
    &&& !alarm_at(s, b + 13)
    &&& !alarm_at(s, b + 14)
    &&& !alarm_at(s, b + 15)
    &&& !alarm_at(s, b + 16)
    &&& !alarm_at(s, b + 17)
    &&& !alarm_at(s, b + 18)
    &&& !alarm_at(s, b + 19)
    &&& !alarm_at(s, b + 20)
    &&& !alarm_at(s, b + 21)
    &&& !alarm_at(s, b + 22)
    &&& !alarm_at(s, b + 23)
    &&& !alarm_at(s, b + 24)
    &&& !alarm_at(s, b + 25)
    &&& !alarm_at(s, b + 26)
    &&& !alarm_at(s, b + 27)
    &&& !alarm_at(s, b + 28)
    &&& !alarm_at(s, b + 29)
    &&& !alarm_at(s, b + 30)
    &&& !alarm_at(s, b + 31)
    &&& !alarm_at(s, b + 32)
    &&& !alarm_at(s, b + 33)
    &&& !alarm_at(s, b + 34)
    &&& !alarm_at(s, b + 35)
    &&& !alarm_at(s, b + 36)
    &&& !alarm_at(s, b + 37)
    &&& !alarm_at(s, b + 38)
    &&& !alarm_at(s, b + 39)
}

proof fn lemma_calm_block(s: Seq<char>, b: int)
    requires
        calm_block(s, b),
    ensures
        calm_between(s, b, b + 40),
{
    reveal_with_fuel(calm_between, 41);
}

/// A text of at most 200 characters, checked in blocks of forty.
proof fn lemma_text_calm(s: Seq<char>)
    requires
        s.len() <= 200,
        calm_block(s, 0),
        s.len() > 40 ==> calm_block(s, 40),
        s.len() > 80 ==> calm_block(s, 80),
        s.len() > 120 ==> calm_block(s, 120),
        s.len() > 160 ==> calm_block(s, 160),
    ensures
        calm(s),
{
    assert forall|i: int| 0 <= i < s.len() implies !#[trigger] alarm_at(s, i) by {
        let b = (i / 40) * 40;
        assert(b <= i < b + 40);
        lemma_calm_block(s, b);
        lemma_calm_between(s, b, b + 40);
    }
}

/// Every character of an alarmist word found in `s` is a letter.
proof fn lemma_alarm_letters(s: Seq<char>, i: int)
    requires
        alarm_at(s, i),
    ensures
        0 <= i,
        i + 5 <= s.len(),
        forall|k: int| i <= k < i + 5 ==> is_letter(#[trigger] s[k]),
{
    assert forall|k: int| i <= k < i + 5 implies is_letter(#[trigger] s[k]) by {
        if k == i {
        } else if k == i + 1 {
        } else if k == i + 2 {
        } else if k == i + 3 {
        } else {
        }
    }
}

/// A text without letters is calm.
pub proof fn lemma_plain_calm(s: Seq<char>)
    requires
        plain(s),
    ensures
        calm(s),
{
    assert forall|i: int| 0 <= i < s.len() implies !#[trigger] alarm_at(s, i) by {
        if alarm_at(s, i) {
            lemma_alarm_letters(s, i);
            assert(is_letter(s[i]));
        }
    }
}

/// Two calm texts joined where at least one side of the seam is not a
/// letter give a calm text.
pub proof fn lemma_join_calm(a: Seq<char>, b: Seq<char>)
    requires
        calm(a),
        calm(b),
        a.len() == 0 || b.len() == 0 || !is_letter(a.last()) || !is_letter(b[0]),
    ensures
        calm(a + b),
{
    let s = a + b;
    assert forall|i: int| 0 <= i < s.len() implies !#[trigger] alarm_at(s, i) by {
        if alarm_at(s, i) {
            lemma_alarm_letters(s, i);
            if i >= a.len() {
                let j = i - a.len();
                assert(s[i] == b[j] && s[i + 1] == b[j + 1] && s[i + 2] == b[j + 2] && s[i + 3]
                    == b[j + 3] && s[i + 4] == b[j + 4]);
                assert(alarm_at(b, j));
            } else if i + 5 <= a.len() {
                assert(s[i] == a[i] && s[i + 1] == a[i + 1] && s[i + 2] == a[i + 2] && s[i + 3]
                    == a[i + 3] && s[i + 4] == a[i + 4]);
                assert(alarm_at(a, i));
            } else {
                assert(is_letter(s[a.len() - 1]));
                assert(is_letter(s[a.len() as int]));
            }
        }
    }
}

/// A number's digits are plain.
pub proof fn lemma_digits_plain(n: nat)
    ensures
        plain(digits(n)),
    decreases n,
{
    if n >= 10 {
        lemma_digits_plain(n / 10);
        let d = digits(n / 10);
        let t = d.push(digit_char(n % 10));
        assert forall|k: int| 0 <= k < t.len() implies !is_letter(#[trigger] t[k]) by {
            if k < d.len() {
                assert(t[k] == d[k]);
            }
        }
    }
}

/// A quantity written to no decimal is plain.
pub proof fn lemma_whole_plain(v: int)
    ensures
        plain(fmt_milli(v, 0)),
{
    let n = round_half_even(abs(v) * pow10(0), 1000);
    lemma_digits_plain(n);
    let num = fixed_digits(n, 0);
    let t = sign(v) + num;
    assert(fmt_milli(v, 0) == t);
    assert forall|k: int| 0 <= k < t.len() implies !is_letter(#[trigger] t[k]) by {
        if k < sign(v).len() {
            assert(t[k] == '-');
        } else {
            assert(t[k] == num[k - sign(v).len()]);
        }
    }
}

/// A plain number followed by a calm text is calm.
pub proof fn lemma_plain_then(n: Seq<char>, b: Seq<char>)
    requires
        plain(n),
        calm(b),
    ensures
        calm(n + b),
{
    lemma_plain_calm(n);
    assert(!is_letter(n[n.len() - 1]));
    lemma_join_calm(n, b);
}

/// A calm text, a plain number and a calm text, in a row, are calm.
pub proof fn lemma_around_plain(a: Seq<char>, n: Seq<char>, b: Seq<char>)
    requires
        calm(a),
        plain(n),
        calm(b),
    ensures
        calm(a + n + b),
{
    lemma_plain_calm(n);
    assert(!is_letter(n[0]));
    lemma_join_calm(a, n);
    assert((a + n).last() == n[n.len() - 1]);
    assert(!is_letter(n[n.len() - 1]));
    lemma_join_calm(a + n, b);
}

proof fn lemma_cpu_alert_texts()
    ensures
        calm("CPU usage is at "@),
        calm("% — critical. Your machine is under heavy load.\n\n`josephine doctor`, now."@),
        calm("Le CPU est à "@),
        calm(" % — critique. Votre machine est sous forte charge.\n\n`josephine doctor`, maintenant."@),
        calm("% (threshold: "@),
        calm("%). Worth a look.\n\n`josephine doctor`?"@),
        calm(" % (seuil : "@),
        calm(" %). Ça mérite un coup d'œil.\n\n`josephine doctor` ?"@),
{
    assert(calm("CPU usage is at "@)) by {
        reveal_strlit("CPU usage is at ");
        lemma_text_calm("CPU usage is at "@);
    }
    assert(calm("% — critical. Your machine is under heavy load.\n\n`josephine doctor`, now."@)) by {
        reveal_strlit("% — critical. Your machine is under heavy load.\n\n`josephine doctor`, now.");
        lemma_text_calm("% — critical. Your machine is under heavy load.\n\n`josephine doctor`, now."@);
    }
    assert(calm("Le CPU est à "@)) by {
        reveal_strlit("Le CPU est à ");
        lemma_text_calm("Le CPU est à "@);
    }
    assert(calm(" % — critique. Votre machine est sous forte charge.\n\n`josephine doctor`, maintenant."@)) by {
        reveal_strlit(" % — critique. Votre machine est sous forte charge.\n\n`josephine doctor`, maintenant.");
        lemma_text_calm(" % — critique. Votre machine est sous forte charge.\n\n`josephine doctor`, maintenant."@);
    }
    assert(calm("% (threshold: "@)) by {
        reveal_strlit("% (threshold: ");
        lemma_text_calm("% (threshold: "@);
    }
    assert(calm("%). Worth a look.\n\n`josephine doctor`?"@)) by {
        reveal_strlit("%). Worth a look.\n\n`josephine doctor`?");
        lemma_text_calm("%). Worth a look.\n\n`josephine doctor`?"@);
    }
    assert(calm(" % (seuil : "@)) by {
        reveal_strlit(" % (seuil : ");
        lemma_text_calm(" % (seuil : "@);
    }
    assert(calm(" %). Ça mérite un coup d'œil.\n\n`josephine doctor` ?"@)) by {
        reveal_strlit(" %). Ça mérite un coup d'œil.\n\n`josephine doctor` ?");
        lemma_text_calm(" %). Ça mérite un coup d'œil.\n\n`josephine doctor` ?"@);
    }
}

proof fn lemma_cpu_alert_calm(value: int, state: AlertState, warning: int, lang: Lang)
    ensures
        calm(cpu_alert_text(value, state, warning, lang)),
{
    lemma_cpu_alert_texts();
    lemma_whole_plain(value);
    lemma_whole_plain(warning);
    match (state, lang) {
        (AlertState::Critical, Lang::En) => {
            lemma_around_plain(
                "CPU usage is at "@,
                n0(value),
                "% — critical. Your machine is under heavy load.\n\n`josephine doctor`, now."@,
            );
        },
        (AlertState::Critical, Lang::Fr) => {
            lemma_around_plain(
                "Le CPU est à "@,
                n0(value),
                " % — critique. Votre machine est sous forte charge.\n\n`josephine doctor`, maintenant."@,
            );
        },
        (AlertState::Warning, Lang::En) => {
            lemma_around_plain("CPU usage is at "@, n0(value), "% (threshold: "@);
            lemma_around_plain(
                "CPU usage is at "@ + n0(value) + "% (threshold: "@,
                n0(warning),
                "%). Worth a look.\n\n`josephine doctor`?"@,
            );
        },
        (AlertState::Warning, Lang::Fr) => {
            lemma_around_plain("Le CPU est à "@, n0(value), " % (seuil : "@);
            lemma_around_plain(
                "Le CPU est à "@ + n0(value) + " % (seuil : "@,
                n0(warning),
                " %). Ça mérite un coup d'œil.\n\n`josephine doctor` ?"@,
            );
        },
        (AlertState::Normal, _) => {},
    }
}

proof fn lemma_temperature_alert_texts()
    ensures
        calm("°C — critical. Your machine is running very hot.\n\nTake a look: `josephine doctor`."@),
        calm(" °C — critique. Votre machine chauffe fortement.\n\nUn coup d'œil : `josephine doctor`."@),
        calm("Temperature is rising ("@),
        calm("°C, threshold "@),
        calm("°C).\n\n`josephine doctor`?"@),
        calm("La température monte ("@),
        calm(" °C, seuil "@),
        calm(" °C).\n\n`josephine doctor` ?"@),
{
    assert(calm("°C — critical. Your machine is running very hot.\n\nTake a look: `josephine doctor`."@)) by {
        reveal_strlit("°C — critical. Your machine is running very hot.\n\nTake a look: `josephine doctor`.");
        lemma_text_calm("°C — critical. Your machine is running very hot.\n\nTake a look: `josephine doctor`."@);
    }
    assert(calm(" °C — critique. Votre machine chauffe fortement.\n\nUn coup d'œil : `josephine doctor`."@)) by {
        reveal_strlit(" °C — critique. Votre machine chauffe fortement.\n\nUn coup d'œil : `josephine doctor`.");
        lemma_text_calm(" °C — critique. Votre machine chauffe fortement.\n\nUn coup d'œil : `josephine doctor`."@);
    }
    assert(calm("Temperature is rising ("@)) by {
        reveal_strlit("Temperature is rising (");
        lemma_text_calm("Temperature is rising ("@);
    }
    assert(calm("°C, threshold "@)) by {
        reveal_strlit("°C, threshold ");
        lemma_text_calm("°C, threshold "@);
    }
    assert(calm("°C).\n\n`josephine doctor`?"@)) by {
        reveal_strlit("°C).\n\n`josephine doctor`?");
        lemma_text_calm("°C).\n\n`josephine doctor`?"@);
    }
    assert(calm("La température monte ("@)) by {
        reveal_strlit("La température monte (");
        lemma_text_calm("La température monte ("@);
    }
    assert(calm(" °C, seuil "@)) by {
        reveal_strlit(" °C, seuil ");
        lemma_text_calm(" °C, seuil "@);
    }
    assert(calm(" °C).\n\n`josephine doctor` ?"@)) by {
        reveal_strlit(" °C).\n\n`josephine doctor` ?");
        lemma_text_calm(" °C).\n\n`josephine doctor` ?"@);
    }
}

proof fn lemma_temperature_alert_calm(value: int, state: AlertState, limit: int, lang: Lang)
    ensures
        calm(temperature_alert_text(value, state, limit, lang)),
{
    lemma_temperature_alert_texts();
    lemma_whole_plain(value);
    lemma_whole_plain(limit);
    match (state, lang) {
        (AlertState::Critical, Lang::En) => {
            lemma_plain_then(
                n0(value),
                "°C — critical. Your machine is running very hot.\n\nTake a look: `josephine doctor`."@,
            );
        },
        (AlertState::Critical, Lang::Fr) => {
            lemma_plain_then(
                n0(value),
                " °C — critique. Votre machine chauffe fortement.\n\nUn coup d'œil : `josephine doctor`."@,
            );
        },
        (AlertState::Warning, Lang::En) => {
            lemma_around_plain("Temperature is rising ("@, n0(value), "°C, threshold "@);
            lemma_around_plain(
                "Temperature is rising ("@ + n0(value) + "°C, threshold "@,
                n0(limit),
                "°C).\n\n`josephine doctor`?"@,
            );
        },
        (AlertState::Warning, Lang::Fr) => {
            lemma_around_plain("La température monte ("@, n0(value), " °C, seuil "@);
            lemma_around_plain(
                "La température monte ("@ + n0(value) + " °C, seuil "@,
                n0(limit),
                " °C).\n\n`josephine doctor` ?"@,
            );
        },
        (AlertState::Normal, _) => {},
    }
}

proof fn lemma_value_alerts_texts_1()
    ensures
        calm("Memory is at "@),
        calm("% — nearly full.\n\n`josephine doctor` to see what's using it."@),
        calm("Swap usage is high ("@),
        calm("%).\n\n`josephine doctor` for more detail."@),
        calm("Disk usage is at "@),
        calm("% — space is running low.\n\nSee what's taking up room: `josephine doctor`."@),
        calm("Your network link is unstable ("@),
        calm(" ms to the gateway, or no response at all).\n\nCheck the Wi-Fi or the cable: `josephine doctor`."@),
        calm("Your battery is down to "@),
        calm("%.\n\nPlug in when you can: `josephine doctor` for the full picture."@),
{
    assert(calm("Memory is at "@)) by {
        reveal_strlit("Memory is at ");
        lemma_text_calm("Memory is at "@);
    }
    assert(calm("% — nearly full.\n\n`josephine doctor` to see what's using it."@)) by {
        reveal_strlit("% — nearly full.\n\n`josephine doctor` to see what's using it.");
        lemma_text_calm("% — nearly full.\n\n`josephine doctor` to see what's using it."@);
    }
    assert(calm("Swap usage is high ("@)) by {
        reveal_strlit("Swap usage is high (");
        lemma_text_calm("Swap usage is high ("@);
    }
    assert(calm("%).\n\n`josephine doctor` for more detail."@)) by {
        reveal_strlit("%).\n\n`josephine doctor` for more detail.");
        lemma_text_calm("%).\n\n`josephine doctor` for more detail."@);
    }
    assert(calm("Disk usage is at "@)) by {
        reveal_strlit("Disk usage is at ");
        lemma_text_calm("Disk usage is at "@);
    }
    assert(calm("% — space is running low.\n\nSee what's taking up room: `josephine doctor`."@)) by {
        reveal_strlit("% — space is running low.\n\nSee what's taking up room: `josephine doctor`.");
        lemma_text_calm("% — space is running low.\n\nSee what's taking up room: `josephine doctor`."@);
    }
    assert(calm("Your network link is unstable ("@)) by {
        reveal_strlit("Your network link is unstable (");
        lemma_text_calm("Your network link is unstable ("@);
    }
    assert(calm(" ms to the gateway, or no response at all).\n\nCheck the Wi-Fi or the cable: `josephine doctor`."@)) by {
        reveal_strlit(" ms to the gateway, or no response at all).\n\nCheck the Wi-Fi or the cable: `josephine doctor`.");
        lemma_text_calm(" ms to the gateway, or no response at all).\n\nCheck the Wi-Fi or the cable: `josephine doctor`."@);
    }
    assert(calm("Your battery is down to "@)) by {
        reveal_strlit("Your battery is down to ");
        lemma_text_calm("Your battery is down to "@);
    }
    assert(calm("%.\n\nPlug in when you can: `josephine doctor` for the full picture."@)) by {
        reveal_strlit("%.\n\nPlug in when you can: `josephine doctor` for the full picture.");
        lemma_text_calm("%.\n\nPlug in when you can: `josephine doctor` for the full picture."@);
    }
}

proof fn lemma_value_alerts_texts_2()
    ensures
        calm("Inodes are filling up ("@),
        calm("%) — many small files, even with free space left.\n\n`josephine doctor` to spot the partition."@),
        calm("A service has restarted "@),
        calm(" times.\n\n`josephine doctor` to see why."@),
        calm("La mémoire est à "@),
        calm(" % — presque pleine.\n\n`josephine doctor` pour voir ce qui l'utilise."@),
        calm("L'utilisation du swap est élevée ("@),
        calm(" %).\n\n`josephine doctor` pour en savoir plus."@),
        calm("Le disque est à "@),
        calm(" % — l'espace se raréfie.\n\nVoyez ce qui prend de la place : `josephine doctor`."@),
{
    assert(calm("Inodes are filling up ("@)) by {
        reveal_strlit("Inodes are filling up (");
        lemma_text_calm("Inodes are filling up ("@);
    }
    assert(calm("%) — many small files, even with free space left.\n\n`josephine doctor` to spot the partition."@)) by {
        reveal_strlit("%) — many small files, even with free space left.\n\n`josephine doctor` to spot the partition.");
        lemma_text_calm("%) — many small files, even with free space left.\n\n`josephine doctor` to spot the partition."@);
    }
    assert(calm("A service has restarted "@)) by {
        reveal_strlit("A service has restarted ");
        lemma_text_calm("A service has restarted "@);
    }
    assert(calm(" times.\n\n`josephine doctor` to see why."@)) by {
        reveal_strlit(" times.\n\n`josephine doctor` to see why.");
        lemma_text_calm(" times.\n\n`josephine doctor` to see why."@);
    }
    assert(calm("La mémoire est à "@)) by {
        reveal_strlit("La mémoire est à ");
        lemma_text_calm("La mémoire est à "@);
    }
    assert(calm(" % — presque pleine.\n\n`josephine doctor` pour voir ce qui l'utilise."@)) by {
        reveal_strlit(" % — presque pleine.\n\n`josephine doctor` pour voir ce qui l'utilise.");
        lemma_text_calm(" % — presque pleine.\n\n`josephine doctor` pour voir ce qui l'utilise."@);
    }
    assert(calm("L'utilisation du swap est élevée ("@)) by {
        reveal_strlit("L'utilisation du swap est élevée (");
        lemma_text_calm("L'utilisation du swap est élevée ("@);
    }
    assert(calm(" %).\n\n`josephine doctor` pour en savoir plus."@)) by {
        reveal_strlit(" %).\n\n`josephine doctor` pour en savoir plus.");
        lemma_text_calm(" %).\n\n`josephine doctor` pour en savoir plus."@);
    }
    assert(calm("Le disque est à "@)) by {
        reveal_strlit("Le disque est à ");
        lemma_text_calm("Le disque est à "@);
    }
    assert(calm(" % — l'espace se raréfie.\n\nVoyez ce qui prend de la place : `josephine doctor`."@)) by {
        reveal_strlit(" % — l'espace se raréfie.\n\nVoyez ce qui prend de la place : `josephine doctor`.");
        lemma_text_calm(" % — l'espace se raréfie.\n\nVoyez ce qui prend de la place : `josephine doctor`."@);
    }
}

proof fn lemma_value_alerts_texts_3()
    ensures
        calm("Le lien réseau est instable ("@),
        calm(" ms vers la passerelle, voire aucune réponse).\n\nVérifiez le Wi-Fi ou le câble : `josephine doctor`."@),
        calm("Votre batterie descend à "@),
        calm(" %.\n\nBranchez-la quand vous pouvez : `josephine doctor` pour le détail."@),
        calm("Les inodes se remplissent ("@),
        calm(" %) — de nombreux petits fichiers, même avec de l'espace libre.\n\n`josephine doctor` pour repérer la partition."@),
        calm("Un service a redémarré "@),
        calm(" fois.\n\n`josephine doctor` pour comprendre pourquoi."@),
{
    assert(calm("Le lien réseau est instable ("@)) by {
        reveal_strlit("Le lien réseau est instable (");
        lemma_text_calm("Le lien réseau est instable ("@);
    }
    assert(calm(" ms vers la passerelle, voire aucune réponse).\n\nVérifiez le Wi-Fi ou le câble : `josephine doctor`."@)) by {
        reveal_strlit(" ms vers la passerelle, voire aucune réponse).\n\nVérifiez le Wi-Fi ou le câble : `josephine doctor`.");
        lemma_text_calm(" ms vers la passerelle, voire aucune réponse).\n\nVérifiez le Wi-Fi ou le câble : `josephine doctor`."@);
    }
    assert(calm("Votre batterie descend à "@)) by {
        reveal_strlit("Votre batterie descend à ");
        lemma_text_calm("Votre batterie descend à "@);
    }
    assert(calm(" %.\n\nBranchez-la quand vous pouvez : `josephine doctor` pour le détail."@)) by {
        reveal_strlit(" %.\n\nBranchez-la quand vous pouvez : `josephine doctor` pour le détail.");
        lemma_text_calm(" %.\n\nBranchez-la quand vous pouvez : `josephine doctor` pour le détail."@);
    }
    assert(calm("Les inodes se remplissent ("@)) by {
        reveal_strlit("Les inodes se remplissent (");
        lemma_text_calm("Les inodes se remplissent ("@);
    }
    assert(calm(" %) — de nombreux petits fichiers, même avec de l'espace libre.\n\n`josephine doctor` pour repérer la partition."@)) by {
        reveal_strlit(" %) — de nombreux petits fichiers, même avec de l'espace libre.\n\n`josephine doctor` pour repérer la partition.");
        lemma_text_calm(" %) — de nombreux petits fichiers, même avec de l'espace libre.\n\n`josephine doctor` pour repérer la partition."@);
    }
    assert(calm("Un service a redémarré "@)) by {
        reveal_strlit("Un service a redémarré ");
        lemma_text_calm("Un service a redémarré "@);
    }
    assert(calm(" fois.\n\n`josephine doctor` pour comprendre pourquoi."@)) by {
        reveal_strlit(" fois.\n\n`josephine doctor` pour comprendre pourquoi.");
        lemma_text_calm(" fois.\n\n`josephine doctor` pour comprendre pourquoi."@);
    }
}

proof fn lemma_value_alerts_calm(v: int, lang: Lang)
    ensures
        calm(memory_alert_text(v, lang)),
        calm(swap_alert_text(v, lang)),
        calm(disk_alert_text(v, lang)),
        calm(network_alert_text(v, lang)),
        calm(battery_alert_text(v, lang)),
        calm(inode_alert_text(v, lang)),
        calm(restarts_alert_text(v, lang)),
{
    lemma_value_alerts_texts_1();
    lemma_value_alerts_texts_2();
    lemma_value_alerts_texts_3();
    lemma_whole_plain(v);
    lemma_whole_plain(100_000 - v);
    match lang {
        Lang::En => {
            lemma_around_plain("Memory is at "@, n0(v), "% — nearly full.\n\n`josephine doctor` to see what's using it."@);
            lemma_around_plain("Swap usage is high ("@, n0(v), "%).\n\n`josephine doctor` for more detail."@);
            lemma_around_plain(
                "Disk usage is at "@,
                n0(v),
                "% — space is running low.\n\nSee what's taking up room: `josephine doctor`."@,
            );
            lemma_around_plain(
                "Your network link is unstable ("@,
                n0(v),
                " ms to the gateway, or no response at all).\n\nCheck the Wi-Fi or the cable: `josephine doctor`."@,
            );
            lemma_around_plain(
                "Your battery is down to "@,
                n0(100_000 - v),
                "%.\n\nPlug in when you can: `josephine doctor` for the full picture."@,
            );
            lemma_around_plain(
                "Inodes are filling up ("@,
                n0(v),
                "%) — many small files, even with free space left.\n\n`josephine doctor` to spot the partition."@,
            );
            lemma_around_plain("A service has restarted "@, n0(v), " times.\n\n`josephine doctor` to see why."@);
        },
        Lang::Fr => {
            lemma_around_plain(
                "La mémoire est à "@,
                n0(v),
                " % — presque pleine.\n\n`josephine doctor` pour voir ce qui l'utilise."@,
            );
            lemma_around_plain(
                "L'utilisation du swap est élevée ("@,
                n0(v),
                " %).\n\n`josephine doctor` pour en savoir plus."@,
            );
            lemma_around_plain(
                "Le disque est à "@,
                n0(v),
                " % — l'espace se raréfie.\n\nVoyez ce qui prend de la place : `josephine doctor`."@,
            );
            lemma_around_plain(
                "Le lien réseau est instable ("@,
                n0(v),
                " ms vers la passerelle, voire aucune réponse).\n\nVérifiez le Wi-Fi ou le câble : `josephine doctor`."@,
            );
            lemma_around_plain(
                "Votre batterie descend à "@,
                n0(100_000 - v),
                " %.\n\nBranchez-la quand vous pouvez : `josephine doctor` pour le détail."@,
            );
            lemma_around_plain(
                "Les inodes se remplissent ("@,
                n0(v),
                " %) — de nombreux petits fichiers, même avec de l'espace libre.\n\n`josephine doctor` pour repérer la partition."@,
            );
            lemma_around_plain(
                "Un service a redémarré "@,
                n0(v),
                " fois.\n\n`josephine doctor` pour comprendre pourquoi."@,
            );
        },
    }
}

proof fn lemma_count_alerts_texts_1()
    ensures
        calm(".\n\nThe list: `josephine doctor`."@),
        ".\n\nThe list: `josephine doctor`."@.len() > 0 && !is_letter(".\n\nThe list: `josephine doctor`."@[0]),
        calm("1 service has stopped"@),
        calm(" update is waiting for you"@),
        calm(" services have stopped"@),
        calm(" updates are waiting for you"@),
        calm(" disk(s) are reporting a SMART weakness.\n\nBack up without delay: `josephine doctor` for the details."@),
        calm(" kernel incident(s) this hour (OOM, oops…).\n\n`josephine doctor` for more detail."@),
        calm(".\n\nLa liste : `josephine doctor`."@),
        ".\n\nLa liste : `josephine doctor`."@.len() > 0 && !is_letter(".\n\nLa liste : `josephine doctor`."@[0]),
        calm("1 service s'est arrêté"@),
        calm(" mise à jour vous attend"@),
{
    assert(calm(".\n\nThe list: `josephine doctor`."@) && ".\n\nThe list: `josephine doctor`."@.len() > 0 && !is_letter(".\n\nThe list: `josephine doctor`."@[0])) by {
        reveal_strlit(".\n\nThe list: `josephine doctor`.");
        lemma_text_calm(".\n\nThe list: `josephine doctor`."@);
    }
    assert(calm("1 service has stopped"@)) by {
        reveal_strlit("1 service has stopped");
        lemma_text_calm("1 service has stopped"@);
    }
    assert(calm(" update is waiting for you"@)) by {
        reveal_strlit(" update is waiting for you");
        lemma_text_calm(" update is waiting for you"@);
    }
    assert(calm(" services have stopped"@)) by {
        reveal_strlit(" services have stopped");
        lemma_text_calm(" services have stopped"@);
    }
    assert(calm(" updates are waiting for you"@)) by {
        reveal_strlit(" updates are waiting for you");
        lemma_text_calm(" updates are waiting for you"@);
    }
    assert(calm(" disk(s) are reporting a SMART weakness.\n\nBack up without delay: `josephine doctor` for the details."@)) by {
        reveal_strlit(" disk(s) are reporting a SMART weakness.\n\nBack up without delay: `josephine doctor` for the details.");
        lemma_text_calm(" disk(s) are reporting a SMART weakness.\n\nBack up without delay: `josephine doctor` for the details."@);
    }
    assert(calm(" kernel incident(s) this hour (OOM, oops…).\n\n`josephine doctor` for more detail."@)) by {
        reveal_strlit(" kernel incident(s) this hour (OOM, oops…).\n\n`josephine doctor` for more detail.");
        lemma_text_calm(" kernel incident(s) this hour (OOM, oops…).\n\n`josephine doctor` for more detail."@);
    }
    assert(calm(".\n\nLa liste : `josephine doctor`."@) && ".\n\nLa liste : `josephine doctor`."@.len() > 0 && !is_letter(".\n\nLa liste : `josephine doctor`."@[0])) by {
        reveal_strlit(".\n\nLa liste : `josephine doctor`.");
        lemma_text_calm(".\n\nLa liste : `josephine doctor`."@);
    }
    assert(calm("1 service s'est arrêté"@)) by {
        reveal_strlit("1 service s'est arrêté");
        lemma_text_calm("1 service s'est arrêté"@);
    }
    assert(calm(" mise à jour vous attend"@)) by {
        reveal_strlit(" mise à jour vous attend");
        lemma_text_calm(" mise à jour vous attend"@);
    }
}

proof fn lemma_count_alerts_texts_2()
    ensures
        calm(" services se sont arrêtés"@),
        calm(" mises à jour vous attendent"@),
        calm(" disque(s) signalent une faiblesse SMART.\n\nSauvegardez sans tarder : `josephine doctor` pour le détail."@),
        calm(" incident(s) noyau cette heure (OOM, oops…).\n\n`josephine doctor` pour en savoir plus."@),
{
    assert(calm(" services se sont arrêtés"@)) by {
        reveal_strlit(" services se sont arrêtés");
        lemma_text_calm(" services se sont arrêtés"@);
    }
    assert(calm(" mises à jour vous attendent"@)) by {
        reveal_strlit(" mises à jour vous attendent");
        lemma_text_calm(" mises à jour vous attendent"@);
    }
    assert(calm(" disque(s) signalent une faiblesse SMART.\n\nSauvegardez sans tarder : `josephine doctor` pour le détail."@)) by {
        reveal_strlit(" disque(s) signalent une faiblesse SMART.\n\nSauvegardez sans tarder : `josephine doctor` pour le détail.");
        lemma_text_calm(" disque(s) signalent une faiblesse SMART.\n\nSauvegardez sans tarder : `josephine doctor` pour le détail."@);
    }
    assert(calm(" incident(s) noyau cette heure (OOM, oops…).\n\n`josephine doctor` pour en savoir plus."@)) by {
        reveal_strlit(" incident(s) noyau cette heure (OOM, oops…).\n\n`josephine doctor` pour en savoir plus.");
        lemma_text_calm(" incident(s) noyau cette heure (OOM, oops…).\n\n`josephine doctor` pour en savoir plus."@);
    }
}

proof fn lemma_count_alerts_calm(v: int, lang: Lang)
    ensures
        calm(systemd_failed_alert_text(v, lang)),
        calm(updates_alert_text(v, lang)),
        calm(smart_alert_text(v, lang)),
        calm(kernel_alert_text(v, lang)),
{
    lemma_count_alerts_texts_1();
    lemma_count_alerts_texts_2();
    let n = whole_count(v);
    lemma_digits_plain(n);
    match lang {
        Lang::En => {
            if n <= 1 {
                lemma_join_calm("1 service has stopped"@, ".\n\nThe list: `josephine doctor`."@);
                lemma_plain_then(digits(n), " update is waiting for you"@);
                lemma_join_calm(digits(n) + " update is waiting for you"@, ".\n\nThe list: `josephine doctor`."@);
            } else {
                lemma_plain_then(digits(n), " services have stopped"@);
                lemma_join_calm(digits(n) + " services have stopped"@, ".\n\nThe list: `josephine doctor`."@);
                lemma_plain_then(digits(n), " updates are waiting for you"@);
                lemma_join_calm(digits(n) + " updates are waiting for you"@, ".\n\nThe list: `josephine doctor`."@);
            }
            lemma_plain_then(
                digits(n),
                " disk(s) are reporting a SMART weakness.\n\nBack up without delay: `josephine doctor` for the details."@,
            );
            lemma_plain_then(
                digits(n),
                " kernel incident(s) this hour (OOM, oops…).\n\n`josephine doctor` for more detail."@,
            );
        },
        Lang::Fr => {
            if n <= 1 {
                lemma_join_calm("1 service s'est arrêté"@, ".\n\nLa liste : `josephine doctor`."@);
                lemma_plain_then(digits(n), " mise à jour vous attend"@);
                lemma_join_calm(digits(n) + " mise à jour vous attend"@, ".\n\nLa liste : `josephine doctor`."@);
            } else {
                lemma_plain_then(digits(n), " services se sont arrêtés"@);
                lemma_join_calm(digits(n) + " services se sont arrêtés"@, ".\n\nLa liste : `josephine doctor`."@);
                lemma_plain_then(digits(n), " mises à jour vous attendent"@);
                lemma_join_calm(digits(n) + " mises à jour vous attendent"@, ".\n\nLa liste : `josephine doctor`."@);
            }
            lemma_plain_then(
                digits(n),
                " disque(s) signalent une faiblesse SMART.\n\nSauvegardez sans tarder : `josephine doctor` pour le détail."@,
            );
            lemma_plain_then(
                digits(n),
                " incident(s) noyau cette heure (OOM, oops…).\n\n`josephine doctor` pour en savoir plus."@,
            );
        },
    }
}

proof fn lemma_recoveries_texts_1()
    ensures
        calm("Your processor is breathing again — CPU load is back to normal."@),
        calm("Swap is back to normal ("@),
        calm(" %)."@),
        calm("Memory usage is back to normal ("@),
        calm("Your disk has room again ("@),
        calm("The temperature is coming down ("@),
        calm(" °C)."@),
        calm("All your services are back up."@),
        calm("Restarts have stopped ("@),
        calm("). Stability is back."@),
{
    assert(calm("Your processor is breathing again — CPU load is back to normal."@)) by {
        reveal_strlit("Your processor is breathing again — CPU load is back to normal.");
        lemma_text_calm("Your processor is breathing again — CPU load is back to normal."@);
    }
    assert(calm("Swap is back to normal ("@)) by {
        reveal_strlit("Swap is back to normal (");
        lemma_text_calm("Swap is back to normal ("@);
    }
    assert(calm(" %)."@)) by {
        reveal_strlit(" %).");
        lemma_text_calm(" %)."@);
    }
    assert(calm("Memory usage is back to normal ("@)) by {
        reveal_strlit("Memory usage is back to normal (");
        lemma_text_calm("Memory usage is back to normal ("@);
    }
    assert(calm("Your disk has room again ("@)) by {
        reveal_strlit("Your disk has room again (");
        lemma_text_calm("Your disk has room again ("@);
    }
    assert(calm("The temperature is coming down ("@)) by {
        reveal_strlit("The temperature is coming down (");
        lemma_text_calm("The temperature is coming down ("@);
    }
    assert(calm(" °C)."@)) by {
        reveal_strlit(" °C).");
        lemma_text_calm(" °C)."@);
    }
    assert(calm("All your services are back up."@)) by {
        reveal_strlit("All your services are back up.");
        lemma_text_calm("All your services are back up."@);
    }
    assert(calm("Restarts have stopped ("@)) by {
        reveal_strlit("Restarts have stopped (");
        lemma_text_calm("Restarts have stopped ("@);
    }
    assert(calm("). Stability is back."@)) by {
        reveal_strlit("). Stability is back.");
        lemma_text_calm("). Stability is back."@);
    }
}

proof fn lemma_recoveries_texts_2()
    ensures
        calm("Everything is up to date."@),
        calm("The network is back, stable and steady."@),
        calm("Your battery is back to a healthy level (or you're plugged in)."@),
        calm("Inodes have room again on the disk."@),
        calm("Your disks look healthy again on the SMART front."@),
        calm("No more kernel incidents in the last hour."@),
        calm("Votre processeur respire à nouveau — la charge CPU est revenue à la normale."@),
        calm("Le swap est revenu à la normale ("@),
        calm("L'utilisation mémoire est revenue à la normale ("@),
        calm("Votre disque a de nouveau de la place ("@),
{
    assert(calm("Everything is up to date."@)) by {
        reveal_strlit("Everything is up to date.");
        lemma_text_calm("Everything is up to date."@);
    }
    assert(calm("The network is back, stable and steady."@)) by {
        reveal_strlit("The network is back, stable and steady.");
        lemma_text_calm("The network is back, stable and steady."@);
    }
    assert(calm("Your battery is back to a healthy level (or you're plugged in)."@)) by {
        reveal_strlit("Your battery is back to a healthy level (or you're plugged in).");
        lemma_text_calm("Your battery is back to a healthy level (or you're plugged in)."@);
    }
    assert(calm("Inodes have room again on the disk."@)) by {
        reveal_strlit("Inodes have room again on the disk.");
        lemma_text_calm("Inodes have room again on the disk."@);
    }
    assert(calm("Your disks look healthy again on the SMART front."@)) by {
        reveal_strlit("Your disks look healthy again on the SMART front.");
        lemma_text_calm("Your disks look healthy again on the SMART front."@);
    }
    assert(calm("No more kernel incidents in the last hour."@)) by {
        reveal_strlit("No more kernel incidents in the last hour.");
        lemma_text_calm("No more kernel incidents in the last hour."@);
    }
    assert(calm("Votre processeur respire à nouveau — la charge CPU est revenue à la normale."@)) by {
        reveal_strlit("Votre processeur respire à nouveau — la charge CPU est revenue à la normale.");
        lemma_text_calm("Votre processeur respire à nouveau — la charge CPU est revenue à la normale."@);
    }
    assert(calm("Le swap est revenu à la normale ("@)) by {
        reveal_strlit("Le swap est revenu à la normale (");
        lemma_text_calm("Le swap est revenu à la normale ("@);
    }
    assert(calm("L'utilisation mémoire est revenue à la normale ("@)) by {
        reveal_strlit("L'utilisation mémoire est revenue à la normale (");
        lemma_text_calm("L'utilisation mémoire est revenue à la normale ("@);
    }
    assert(calm("Votre disque a de nouveau de la place ("@)) by {
        reveal_strlit("Votre disque a de nouveau de la place (");
        lemma_text_calm("Votre disque a de nouveau de la place ("@);
    }
}

proof fn lemma_recoveries_texts_3()
    ensures
        calm("La température redescend ("@),
        calm("Tous vos services sont de nouveau opérationnels."@),
        calm("Les redémarrages se sont arrêtés ("@),
        calm("). La stabilité est revenue."@),
        calm("Tout est à jour."@),
        calm("Le réseau est revenu, stable et fluide."@),
        calm("Votre batterie est revenue à un niveau correct (ou vous êtes branché)."@),
        calm("Les inodes ont de nouveau de la place sur le disque."@),
        calm("Vos disques sont de nouveau sains côté SMART."@),
        calm("Plus aucun incident noyau sur la dernière heure."@),
{
    assert(calm("La température redescend ("@)) by {
        reveal_strlit("La température redescend (");
        lemma_text_calm("La température redescend ("@);
    }
    assert(calm("Tous vos services sont de nouveau opérationnels."@)) by {
        reveal_strlit("Tous vos services sont de nouveau opérationnels.");
        lemma_text_calm("Tous vos services sont de nouveau opérationnels."@);
    }
    assert(calm("Les redémarrages se sont arrêtés ("@)) by {
        reveal_strlit("Les redémarrages se sont arrêtés (");
        lemma_text_calm("Les redémarrages se sont arrêtés ("@);
    }
    assert(calm("). La stabilité est revenue."@)) by {
        reveal_strlit("). La stabilité est revenue.");
        lemma_text_calm("). La stabilité est revenue."@);
    }
    assert(calm("Tout est à jour."@)) by {
        reveal_strlit("Tout est à jour.");
        lemma_text_calm("Tout est à jour."@);
    }
    assert(calm("Le réseau est revenu, stable et fluide."@)) by {
        reveal_strlit("Le réseau est revenu, stable et fluide.");
        lemma_text_calm("Le réseau est revenu, stable et fluide."@);
    }
    assert(calm("Votre batterie est revenue à un niveau correct (ou vous êtes branché)."@)) by {
        reveal_strlit("Votre batterie est revenue à un niveau correct (ou vous êtes branché).");
        lemma_text_calm("Votre batterie est revenue à un niveau correct (ou vous êtes branché)."@);
    }
    assert(calm("Les inodes ont de nouveau de la place sur le disque."@)) by {
        reveal_strlit("Les inodes ont de nouveau de la place sur le disque.");
        lemma_text_calm("Les inodes ont de nouveau de la place sur le disque."@);
    }
    assert(calm("Vos disques sont de nouveau sains côté SMART."@)) by {
        reveal_strlit("Vos disques sont de nouveau sains côté SMART.");
        lemma_text_calm("Vos disques sont de nouveau sains côté SMART."@);
    }
    assert(calm("Plus aucun incident noyau sur la dernière heure."@)) by {
        reveal_strlit("Plus aucun incident noyau sur la dernière heure.");
        lemma_text_calm("Plus aucun incident noyau sur la dernière heure."@);
    }
}

proof fn lemma_recoveries_calm(v: int, lang: Lang)
    ensures
        calm(en_fr(lang, "Your processor is breathing again — CPU load is back to normal."@, "Votre processeur respire à nouveau — la charge CPU est revenue à la normale."@)),
        calm(en_fr(lang, "Swap is back to normal ("@ + n0(v) + " %)."@, "Le swap est revenu à la normale ("@ + n0(v) + " %)."@)),
        calm(en_fr(lang, "Memory usage is back to normal ("@ + n0(v) + " %)."@, "L'utilisation mémoire est revenue à la normale ("@ + n0(v) + " %)."@)),
        calm(en_fr(lang, "Your disk has room again ("@ + n0(v) + " %)."@, "Votre disque a de nouveau de la place ("@ + n0(v) + " %)."@)),
        calm(en_fr(lang, "The temperature is coming down ("@ + n0(v) + " °C)."@, "La température redescend ("@ + n0(v) + " °C)."@)),
        calm(en_fr(lang, "All your services are back up."@, "Tous vos services sont de nouveau opérationnels."@)),
        calm(en_fr(lang, "Restarts have stopped ("@ + n0(v) + "). Stability is back."@, "Les redémarrages se sont arrêtés ("@ + n0(v) + "). La stabilité est revenue."@)),
        calm(en_fr(lang, "Everything is up to date."@, "Tout est à jour."@)),
        calm(en_fr(lang, "The network is back, stable and steady."@, "Le réseau est revenu, stable et fluide."@)),
        calm(en_fr(lang, "Your battery is back to a healthy level (or you're plugged in)."@, "Votre batterie est revenue à un niveau correct (ou vous êtes branché)."@)),
        calm(en_fr(lang, "Inodes have room again on the disk."@, "Les inodes ont de nouveau de la place sur le disque."@)),
        calm(en_fr(lang, "Your disks look healthy again on the SMART front."@, "Vos disques sont de nouveau sains côté SMART."@)),
        calm(en_fr(lang, "No more kernel incidents in the last hour."@, "Plus aucun incident noyau sur la dernière heure."@)),
{
    lemma_recoveries_texts_1();
    lemma_recoveries_texts_2();
    lemma_recoveries_texts_3();
    lemma_whole_plain(v);
    match lang {
        Lang::En => {
            lemma_around_plain("Swap is back to normal ("@, n0(v), " %)."@);
            lemma_around_plain("Memory usage is back to normal ("@, n0(v), " %)."@);
            lemma_around_plain("Your disk has room again ("@, n0(v), " %)."@);
            lemma_around_plain("The temperature is coming down ("@, n0(v), " °C)."@);
            lemma_around_plain("Restarts have stopped ("@, n0(v), "). Stability is back."@);
        },
        Lang::Fr => {
            lemma_around_plain("Le swap est revenu à la normale ("@, n0(v), " %)."@);
            lemma_around_plain("L'utilisation mémoire est revenue à la normale ("@, n0(v), " %)."@);
            lemma_around_plain("Votre disque a de nouveau de la place ("@, n0(v), " %)."@);
            lemma_around_plain("La température redescend ("@, n0(v), " °C)."@);
            lemma_around_plain("Les redémarrages se sont arrêtés ("@, n0(v), "). La stabilité est revenue."@);
        },
    }
}

/// A calm text joined on both sides to texts that end and start with no
/// letter is calm.
pub proof fn lemma_quoted(a: Seq<char>, x: Seq<char>, b: Seq<char>)
    requires
        calm(a),
        calm(x),
        calm(b),
        a.len() > 0 && !is_letter(a.last()),
        b.len() > 0 && !is_letter(b[0]),
    ensures
        calm(a + x + b),
{
    lemma_join_calm(a, x);
    if x.len() > 0 {
        assert((a + x).last() == x.last());
    } else {
        assert(a + x =~= a);
    }
    lemma_join_calm(a + x, b);
}

proof fn lemma_update_messages_texts_1()
    ensures
        calm("You're already on the latest version ("@),
        "You're already on the latest version ("@.len() > 0 && !is_letter("You're already on the latest version ("@.last()),
        calm(")."@),
        ")."@.len() > 0 && !is_letter(")."@[0]),
        calm("Your version ("@),
        "Your version ("@.len() > 0 && !is_letter("Your version ("@.last()),
        calm(") is ahead of the latest published one ("@),
        ") is ahead of the latest published one ("@.len() > 0 && !is_letter(") is ahead of the latest published one ("@[0]),
        ") is ahead of the latest published one ("@.len() > 0 && !is_letter(") is ahead of the latest published one ("@.last()),
        calm("A new version is available: "@),
        "A new version is available: "@.len() > 0 && !is_letter("A new version is available: "@.last()),
        calm("."@),
        "."@.len() > 0 && !is_letter("."@[0]),
        calm("Update complete — Joséphine is now on "@),
        "Update complete — Joséphine is now on "@.len() > 0 && !is_letter("Update complete — Joséphine is now on "@.last()),
        calm("Vous avez déjà la dernière version ("@),
        "Vous avez déjà la dernière version ("@.len() > 0 && !is_letter("Vous avez déjà la dernière version ("@.last()),
        calm("Votre version ("@),
        "Votre version ("@.len() > 0 && !is_letter("Votre version ("@.last()),
        calm(") devance la dernière publiée ("@),
        ") devance la dernière publiée ("@.len() > 0 && !is_letter(") devance la dernière publiée ("@[0]),
        ") devance la dernière publiée ("@.len() > 0 && !is_letter(") devance la dernière publiée ("@.last()),
{
    assert(calm("You're already on the latest version ("@) && "You're already on the latest version ("@.len() > 0 && !is_letter("You're already on the latest version ("@.last())) by {
        reveal_strlit("You're already on the latest version (");
        lemma_text_calm("You're already on the latest version ("@);
    }
    assert(calm(")."@) && ")."@.len() > 0 && !is_letter(")."@[0])) by {
        reveal_strlit(").");
        lemma_text_calm(")."@);
    }
    assert(calm("Your version ("@) && "Your version ("@.len() > 0 && !is_letter("Your version ("@.last())) by {
        reveal_strlit("Your version (");
        lemma_text_calm("Your version ("@);
    }
    assert(calm(") is ahead of the latest published one ("@) && ") is ahead of the latest published one ("@.len() > 0 && !is_letter(") is ahead of the latest published one ("@[0]) && ") is ahead of the latest published one ("@.len() > 0 && !is_letter(") is ahead of the latest published one ("@.last())) by {
        reveal_strlit(") is ahead of the latest published one (");
        lemma_text_calm(") is ahead of the latest published one ("@);
    }
    assert(calm("A new version is available: "@) && "A new version is available: "@.len() > 0 && !is_letter("A new version is available: "@.last())) by {
        reveal_strlit("A new version is available: ");
        lemma_text_calm("A new version is available: "@);
    }
    assert(calm("."@) && "."@.len() > 0 && !is_letter("."@[0])) by {
        reveal_strlit(".");
        lemma_text_calm("."@);
    }
    assert(calm("Update complete — Joséphine is now on "@) && "Update complete — Joséphine is now on "@.len() > 0 && !is_letter("Update complete — Joséphine is now on "@.last())) by {
        reveal_strlit("Update complete — Joséphine is now on ");
        lemma_text_calm("Update complete — Joséphine is now on "@);
    }
    assert(calm("Vous avez déjà la dernière version ("@) && "Vous avez déjà la dernière version ("@.len() > 0 && !is_letter("Vous avez déjà la dernière version ("@.last())) by {
        reveal_strlit("Vous avez déjà la dernière version (");
        lemma_text_calm("Vous avez déjà la dernière version ("@);
    }
    assert(calm("Votre version ("@) && "Votre version ("@.len() > 0 && !is_letter("Votre version ("@.last())) by {
        reveal_strlit("Votre version (");
        lemma_text_calm("Votre version ("@);
    }
    assert(calm(") devance la dernière publiée ("@) && ") devance la dernière publiée ("@.len() > 0 && !is_letter(") devance la dernière publiée ("@[0]) && ") devance la dernière publiée ("@.len() > 0 && !is_letter(") devance la dernière publiée ("@.last())) by {
        reveal_strlit(") devance la dernière publiée (");
        lemma_text_calm(") devance la dernière publiée ("@);
    }
}

proof fn lemma_update_messages_texts_2()
    ensures
        calm("Une nouvelle version est disponible : "@),
        "Une nouvelle version est disponible : "@.len() > 0 && !is_letter("Une nouvelle version est disponible : "@.last()),
        calm("Mise à jour terminée — Joséphine est maintenant en version "@),
        "Mise à jour terminée — Joséphine est maintenant en version "@.len() > 0 && !is_letter("Mise à jour terminée — Joséphine est maintenant en version "@.last()),
{
    assert(calm("Une nouvelle version est disponible : "@) && "Une nouvelle version est disponible : "@.len() > 0 && !is_letter("Une nouvelle version est disponible : "@.last())) by {
        reveal_strlit("Une nouvelle version est disponible : ");
        lemma_text_calm("Une nouvelle version est disponible : "@);
    }
    assert(calm("Mise à jour terminée — Joséphine est maintenant en version "@) && "Mise à jour terminée — Joséphine est maintenant en version "@.len() > 0 && !is_letter("Mise à jour terminée — Joséphine est maintenant en version "@.last())) by {
        reveal_strlit("Mise à jour terminée — Joséphine est maintenant en version ");
        lemma_text_calm("Mise à jour terminée — Joséphine est maintenant en version "@);
    }
}

/// The update messages are never alarmist either: whenever the version
/// numbers they quote are calm, so is every message, in both languages.
pub proof fn law_update_messages_never_alarmist(version: Seq<char>, latest: Seq<char>, lang: Lang)
    requires
        calm(version),
        calm(latest),
    ensures
        calm(en_fr(lang, "You're already on the latest version ("@ + version + ")."@, "Vous avez déjà la dernière version ("@ + version + ")."@)),
        calm(en_fr(lang, "Your version ("@ + version + ") is ahead of the latest published one ("@ + latest + ")."@, "Votre version ("@ + version + ") devance la dernière publiée ("@ + latest + ")."@)),
        calm(en_fr(lang, "A new version is available: "@ + version + "."@, "Une nouvelle version est disponible : "@ + version + "."@)),
        calm(en_fr(lang, "Update complete — Joséphine is now on "@ + version + "."@, "Mise à jour terminée — Joséphine est maintenant en version "@ + version + "."@)),
{
    lemma_update_messages_texts_1();
    lemma_update_messages_texts_2();
    match lang {
        Lang::En => {
            lemma_quoted("You're already on the latest version ("@, version, ")."@);
            lemma_quoted("Your version ("@, version, ") is ahead of the latest published one ("@);
            lemma_quoted("Your version ("@ + version + ") is ahead of the latest published one ("@, latest, ")."@);
            lemma_quoted("A new version is available: "@, version, "."@);
            lemma_quoted("Update complete — Joséphine is now on "@, version, "."@);
        },
        Lang::Fr => {
            lemma_quoted("Vous avez déjà la dernière version ("@, version, ")."@);
            lemma_quoted("Votre version ("@, version, ") devance la dernière publiée ("@);
            lemma_quoted("Votre version ("@ + version + ") devance la dernière publiée ("@, latest, ")."@);
            lemma_quoted("Une nouvelle version est disponible : "@, version, "."@);
            lemma_quoted("Mise à jour terminée — Joséphine est maintenant en version "@, version, "."@);
        },
    }
}


/// The checks whose messages are written out in full (any other check's
/// message quotes its own name and unit).
pub open spec fn known_check(check: Seq<char>) -> bool {
    ||| check == "cpu"@
    ||| check == "memory"@
    ||| check == "disk"@
    ||| check == "temperature"@
    ||| check == "systemd"@
    ||| check == "updates"@
    ||| check == "network"@
    ||| check == "battery"@
    ||| check == "inode"@
    ||| check == "smart"@
    ||| check == "kernel"@
}

/// Joséphine is never alarmist: every alert and every recovery message of a
/// known check, whatever the measurement, the thresholds and the language,
/// holds none of `ERROR`, `FATAL`, `PANIC`, `CRASH` or `ÉCHEC`, in any mix of
/// capitals and small letters.
pub proof fn law_notifications_never_alarmist(
    check: Seq<char>,
    m: Metric,
    th: CheckThresholds,
    state: AlertState,
    lang: Lang,
)
    requires
        known_check(check),
    ensures
        calm(alert_text(check, m, th, state, lang)),
        calm(recovery_text(check, m, lang)),
{
    let v = m.value as int;
    lemma_cpu_alert_calm(v, state, th.warning as int, lang);
    lemma_temperature_alert_calm(v, state, temperature_limit(m, th), lang);
    lemma_value_alerts_calm(v, lang);
    lemma_count_alerts_calm(v, lang);
    lemma_recoveries_calm(v, lang);
}

/// Every phrasing of `pool`, in English and in French, is calm.
pub open spec fn pool_calm(pool: Seq<(Seq<char>, Seq<char>)>) -> bool {
    forall|i: int| 0 <= i < pool.len() ==> calm(#[trigger] pool[i].0) && calm(pool[i].1)
}

/// A phrasing picked from a calm pool is calm.
pub proof fn lemma_picked_calm(s: Seq<char>, pool: Seq<(Seq<char>, Seq<char>)>, lang: Lang)
    requires
        pool_calm(pool),
        one_of(s, pool, lang),
    ensures
        calm(s),
{
    let i = choose|i: int| 0 <= i < pool.len() && s == in_lang(#[trigger] pool[i], lang);
    assert(calm(pool[i].0) && calm(pool[i].1));
}

proof fn lemma_status_tagline_pool_texts()
    ensures
        calm("Your machine, watched over."@),
        calm("Votre machine, sous bonne garde."@),
        calm("On watch, as ever."@),
        calm("De garde, comme toujours."@),
        calm("Keeping a quiet eye on things."@),
        calm("Je garde un œil, discrètement."@),
        calm("Everything under a watchful eye."@),
        calm("Tout est sous l'œil bienveillant."@),
        calm("Here, minding the machine."@),
        calm("Là, à veiller sur la machine."@),
{
    assert(calm("Your machine, watched over."@)) by {
        reveal_strlit("Your machine, watched over.");
        lemma_text_calm("Your machine, watched over."@);
    }
    assert(calm("Votre machine, sous bonne garde."@)) by {
        reveal_strlit("Votre machine, sous bonne garde.");
        lemma_text_calm("Votre machine, sous bonne garde."@);
    }
    assert(calm("On watch, as ever."@)) by {
        reveal_strlit("On watch, as ever.");
        lemma_text_calm("On watch, as ever."@);
    }
    assert(calm("De garde, comme toujours."@)) by {
        reveal_strlit("De garde, comme toujours.");
        lemma_text_calm("De garde, comme toujours."@);
    }
    assert(calm("Keeping a quiet eye on things."@)) by {
        reveal_strlit("Keeping a quiet eye on things.");
        lemma_text_calm("Keeping a quiet eye on things."@);
    }
    assert(calm("Je garde un œil, discrètement."@)) by {
        reveal_strlit("Je garde un œil, discrètement.");
        lemma_text_calm("Je garde un œil, discrètement."@);
    }
    assert(calm("Everything under a watchful eye."@)) by {
        reveal_strlit("Everything under a watchful eye.");
        lemma_text_calm("Everything under a watchful eye."@);
    }
    assert(calm("Tout est sous l'œil bienveillant."@)) by {
        reveal_strlit("Tout est sous l'œil bienveillant.");
        lemma_text_calm("Tout est sous l'œil bienveillant."@);
    }
    assert(calm("Here, minding the machine."@)) by {
        reveal_strlit("Here, minding the machine.");
        lemma_text_calm("Here, minding the machine."@);
    }
    assert(calm("Là, à veiller sur la machine."@)) by {
        reveal_strlit("Là, à veiller sur la machine.");
        lemma_text_calm("Là, à veiller sur la machine."@);
    }
}

proof fn lemma_status_tagline_pool_calm()
    ensures
        pool_calm(status_tagline_pool()),
{
    lemma_status_tagline_pool_texts();
    assert forall|i: int| 0 <= i < status_tagline_pool().len() implies calm(#[trigger] status_tagline_pool()[i].0) && calm(status_tagline_pool()[i].1) by {
        if i == 0 {} else if i == 1 {} else if i == 2 {} else if i == 3 {} else if i == 4 {}
    }
}

proof fn lemma_all_clear_pool_texts()
    ensures
        calm("All clear."@),
        calm("Tout est au vert."@),
        calm("Nothing needs you."@),
        calm("Rien ne réclame votre attention."@),
        calm("All quiet. Carry on."@),
        calm("Calme plat. Continuez."@),
        calm("Not a cloud in sight."@),
        calm("Pas un nuage à l'horizon."@),
        calm("Everything's in its right place."@),
        calm("Tout est à sa place."@),
{
    assert(calm("All clear."@)) by {
        reveal_strlit("All clear.");
        lemma_text_calm("All clear."@);
    }
    assert(calm("Tout est au vert."@)) by {
        reveal_strlit("Tout est au vert.");
        lemma_text_calm("Tout est au vert."@);
    }
    assert(calm("Nothing needs you."@)) by {
        reveal_strlit("Nothing needs you.");
        lemma_text_calm("Nothing needs you."@);
    }
    assert(calm("Rien ne réclame votre attention."@)) by {
        reveal_strlit("Rien ne réclame votre attention.");
        lemma_text_calm("Rien ne réclame votre attention."@);
    }
    assert(calm("All quiet. Carry on."@)) by {
        reveal_strlit("All quiet. Carry on.");
        lemma_text_calm("All quiet. Carry on."@);
    }
    assert(calm("Calme plat. Continuez."@)) by {
        reveal_strlit("Calme plat. Continuez.");
        lemma_text_calm("Calme plat. Continuez."@);
    }
    assert(calm("Not a cloud in sight."@)) by {
        reveal_strlit("Not a cloud in sight.");
        lemma_text_calm("Not a cloud in sight."@);
    }
    assert(calm("Pas un nuage à l'horizon."@)) by {
        reveal_strlit("Pas un nuage à l'horizon.");
        lemma_text_calm("Pas un nuage à l'horizon."@);
    }
    assert(calm("Everything's in its right place."@)) by {
        reveal_strlit("Everything's in its right place.");
        lemma_text_calm("Everything's in its right place."@);
    }
    assert(calm("Tout est à sa place."@)) by {
        reveal_strlit("Tout est à sa place.");
        lemma_text_calm("Tout est à sa place."@);
    }
}

proof fn lemma_all_clear_pool_calm()
    ensures
        pool_calm(all_clear_pool()),
{
    lemma_all_clear_pool_texts();
    assert forall|i: int| 0 <= i < all_clear_pool().len() implies calm(#[trigger] all_clear_pool()[i].0) && calm(all_clear_pool()[i].1) by {
        if i == 0 {} else if i == 1 {} else if i == 2 {} else if i == 3 {} else if i == 4 {}
    }
}

proof fn lemma_doctor_info_pool_texts()
    ensures
        calm("Clean bill of health — nothing needs you."@),
        calm("Rien à signaler — vous n'avez rien à faire."@),
        calm("Everything checks out. A model patient."@),
        calm("Tout est bon. Un patient modèle."@),
        calm("Fit as a fiddle."@),
        calm("En pleine forme."@),
        calm("A thorough look, and nothing to report."@),
        calm("Examen complet, rien à signaler."@),
{
    assert(calm("Clean bill of health — nothing needs you."@)) by {
        reveal_strlit("Clean bill of health — nothing needs you.");
        lemma_text_calm("Clean bill of health — nothing needs you."@);
    }
    assert(calm("Rien à signaler — vous n'avez rien à faire."@)) by {
        reveal_strlit("Rien à signaler — vous n'avez rien à faire.");
        lemma_text_calm("Rien à signaler — vous n'avez rien à faire."@);
    }
    assert(calm("Everything checks out. A model patient."@)) by {
        reveal_strlit("Everything checks out. A model patient.");
        lemma_text_calm("Everything checks out. A model patient."@);
    }
    assert(calm("Tout est bon. Un patient modèle."@)) by {
        reveal_strlit("Tout est bon. Un patient modèle.");
        lemma_text_calm("Tout est bon. Un patient modèle."@);
    }
    assert(calm("Fit as a fiddle."@)) by {
        reveal_strlit("Fit as a fiddle.");
        lemma_text_calm("Fit as a fiddle."@);
    }
    assert(calm("En pleine forme."@)) by {
        reveal_strlit("En pleine forme.");
        lemma_text_calm("En pleine forme."@);
    }
    assert(calm("A thorough look, and nothing to report."@)) by {
        reveal_strlit("A thorough look, and nothing to report.");
        lemma_text_calm("A thorough look, and nothing to report."@);
    }
    assert(calm("Examen complet, rien à signaler."@)) by {
        reveal_strlit("Examen complet, rien à signaler.");
        lemma_text_calm("Examen complet, rien à signaler."@);
    }
}

proof fn lemma_doctor_info_pool_calm()
    ensures
        pool_calm(doctor_info_pool()),
{
    lemma_doctor_info_pool_texts();
    assert forall|i: int| 0 <= i < doctor_info_pool().len() implies calm(#[trigger] doctor_info_pool()[i].0) && calm(doctor_info_pool()[i].1) by {
        if i == 0 {} else if i == 1 {} else if i == 2 {} else if i == 3 {}
    }
}

proof fn lemma_doctor_attention_pool_texts()
    ensures
        calm("A couple of things worth a glance — nothing urgent."@),
        calm("Deux ou trois choses à regarder — rien d'urgent."@),
        calm("Mostly well, with a note or two."@),
        calm("Globalement en forme, à une note ou deux près."@),
        calm("Nothing serious, but let's keep an eye on it."@),
        calm("Rien de grave, mais gardons un œil dessus."@),
{
    assert(calm("A couple of things worth a glance — nothing urgent."@)) by {
        reveal_strlit("A couple of things worth a glance — nothing urgent.");
        lemma_text_calm("A couple of things worth a glance — nothing urgent."@);
    }
    assert(calm("Deux ou trois choses à regarder — rien d'urgent."@)) by {
        reveal_strlit("Deux ou trois choses à regarder — rien d'urgent.");
        lemma_text_calm("Deux ou trois choses à regarder — rien d'urgent."@);
    }
    assert(calm("Mostly well, with a note or two."@)) by {
        reveal_strlit("Mostly well, with a note or two.");
        lemma_text_calm("Mostly well, with a note or two."@);
    }
    assert(calm("Globalement en forme, à une note ou deux près."@)) by {
        reveal_strlit("Globalement en forme, à une note ou deux près.");
        lemma_text_calm("Globalement en forme, à une note ou deux près."@);
    }
    assert(calm("Nothing serious, but let's keep an eye on it."@)) by {
        reveal_strlit("Nothing serious, but let's keep an eye on it.");
        lemma_text_calm("Nothing serious, but let's keep an eye on it."@);
    }
    assert(calm("Rien de grave, mais gardons un œil dessus."@)) by {
        reveal_strlit("Rien de grave, mais gardons un œil dessus.");
        lemma_text_calm("Rien de grave, mais gardons un œil dessus."@);
    }
}

proof fn lemma_doctor_attention_pool_calm()
    ensures
        pool_calm(doctor_attention_pool()),
{
    lemma_doctor_attention_pool_texts();
    assert forall|i: int| 0 <= i < doctor_attention_pool().len() implies calm(#[trigger] doctor_attention_pool()[i].0) && calm(doctor_attention_pool()[i].1) by {
        if i == 0 {} else if i == 1 {} else if i == 2 {}
    }
}

proof fn lemma_doctor_critique_pool_texts()
    ensures
        calm("Something wants your attention now. Details below."@),
        calm("Quelque chose réclame votre attention, maintenant. Détails plus bas."@),
        calm("Let's not dawdle — see below."@),
        calm("Ne traînons pas — voyez plus bas."@),
        calm("One thing can't wait. It's just below."@),
        calm("Une chose ne peut pas attendre. C'est juste en dessous."@),
{
    assert(calm("Something wants your attention now. Details below."@)) by {
        reveal_strlit("Something wants your attention now. Details below.");
        lemma_text_calm("Something wants your attention now. Details below."@);
    }
    assert(calm("Quelque chose réclame votre attention, maintenant. Détails plus bas."@)) by {
        reveal_strlit("Quelque chose réclame votre attention, maintenant. Détails plus bas.");
        lemma_text_calm("Quelque chose réclame votre attention, maintenant. Détails plus bas."@);
    }
    assert(calm("Let's not dawdle — see below."@)) by {
        reveal_strlit("Let's not dawdle — see below.");
        lemma_text_calm("Let's not dawdle — see below."@);
    }
    assert(calm("Ne traînons pas — voyez plus bas."@)) by {
        reveal_strlit("Ne traînons pas — voyez plus bas.");
        lemma_text_calm("Ne traînons pas — voyez plus bas."@);
    }
    assert(calm("One thing can't wait. It's just below."@)) by {
        reveal_strlit("One thing can't wait. It's just below.");
        lemma_text_calm("One thing can't wait. It's just below."@);
    }
    assert(calm("Une chose ne peut pas attendre. C'est juste en dessous."@)) by {
        reveal_strlit("Une chose ne peut pas attendre. C'est juste en dessous.");
        lemma_text_calm("Une chose ne peut pas attendre. C'est juste en dessous."@);
    }
}

proof fn lemma_doctor_critique_pool_calm()
    ensures
        pool_calm(doctor_critique_pool()),
{
    lemma_doctor_critique_pool_texts();
    assert forall|i: int| 0 <= i < doctor_critique_pool().len() implies calm(#[trigger] doctor_critique_pool()[i].0) && calm(doctor_critique_pool()[i].1) by {
        if i == 0 {} else if i == 1 {} else if i == 2 {}
    }
}

proof fn lemma_fix_tagline_pool_texts()
    ensures
        calm("The closest a terminal gets to a snap of the fingers."@),
        calm("Ce qu'un terminal fait de plus proche d'un claquement de doigts."@),
        calm("A snap of the fingers — give or take a keystroke."@),
        calm("Un claquement de doigts — à une touche près."@),
        calm("You point, I guide. No wand required."@),
        calm("Vous montrez, je guide. Pas besoin de baguette."@),
{
    assert(calm("The closest a terminal gets to a snap of the fingers."@)) by {
        reveal_strlit("The closest a terminal gets to a snap of the fingers.");
        lemma_text_calm("The closest a terminal gets to a snap of the fingers."@);
    }
    assert(calm("Ce qu'un terminal fait de plus proche d'un claquement de doigts."@)) by {
        reveal_strlit("Ce qu'un terminal fait de plus proche d'un claquement de doigts.");
        lemma_text_calm("Ce qu'un terminal fait de plus proche d'un claquement de doigts."@);
    }
    assert(calm("A snap of the fingers — give or take a keystroke."@)) by {
        reveal_strlit("A snap of the fingers — give or take a keystroke.");
        lemma_text_calm("A snap of the fingers — give or take a keystroke."@);
    }
    assert(calm("Un claquement de doigts — à une touche près."@)) by {
        reveal_strlit("Un claquement de doigts — à une touche près.");
        lemma_text_calm("Un claquement de doigts — à une touche près."@);
    }
    assert(calm("You point, I guide. No wand required."@)) by {
        reveal_strlit("You point, I guide. No wand required.");
        lemma_text_calm("You point, I guide. No wand required."@);
    }
    assert(calm("Vous montrez, je guide. Pas besoin de baguette."@)) by {
        reveal_strlit("Vous montrez, je guide. Pas besoin de baguette.");
        lemma_text_calm("Vous montrez, je guide. Pas besoin de baguette."@);
    }
}

proof fn lemma_fix_tagline_pool_calm()
    ensures
        pool_calm(fix_tagline_pool()),
{
    lemma_fix_tagline_pool_texts();
    assert forall|i: int| 0 <= i < fix_tagline_pool().len() implies calm(#[trigger] fix_tagline_pool()[i].0) && calm(fix_tagline_pool()[i].1) by {
        if i == 0 {} else if i == 1 {} else if i == 2 {}
    }
}

proof fn lemma_fix_all_good_pool_texts()
    ensures
        calm("✧ Nothing to fix — the machine's in good shape. I'll see myself out."@),
        calm("✧ Rien à réparer — la machine va bien. Je m'éclipse."@),
        calm("✧ All sound. My work here is done."@),
        calm("✧ Tout est sain. Ma mission ici est finie."@),
        calm("✧ Nothing broken. I'll slip away, then — ni vu ni connu."@),
        calm("✧ Rien de cassé. Je file, alors — ni vu ni connu."@),
{
    assert(calm("✧ Nothing to fix — the machine's in good shape. I'll see myself out."@)) by {
        reveal_strlit("✧ Nothing to fix — the machine's in good shape. I'll see myself out.");
        lemma_text_calm("✧ Nothing to fix — the machine's in good shape. I'll see myself out."@);
    }
    assert(calm("✧ Rien à réparer — la machine va bien. Je m'éclipse."@)) by {
        reveal_strlit("✧ Rien à réparer — la machine va bien. Je m'éclipse.");
        lemma_text_calm("✧ Rien à réparer — la machine va bien. Je m'éclipse."@);
    }
    assert(calm("✧ All sound. My work here is done."@)) by {
        reveal_strlit("✧ All sound. My work here is done.");
        lemma_text_calm("✧ All sound. My work here is done."@);
    }
    assert(calm("✧ Tout est sain. Ma mission ici est finie."@)) by {
        reveal_strlit("✧ Tout est sain. Ma mission ici est finie.");
        lemma_text_calm("✧ Tout est sain. Ma mission ici est finie."@);
    }
    assert(calm("✧ Nothing broken. I'll slip away, then — ni vu ni connu."@)) by {
        reveal_strlit("✧ Nothing broken. I'll slip away, then — ni vu ni connu.");
        lemma_text_calm("✧ Nothing broken. I'll slip away, then — ni vu ni connu."@);
    }
    assert(calm("✧ Rien de cassé. Je file, alors — ni vu ni connu."@)) by {
        reveal_strlit("✧ Rien de cassé. Je file, alors — ni vu ni connu.");
        lemma_text_calm("✧ Rien de cassé. Je file, alors — ni vu ni connu."@);
    }
}

proof fn lemma_fix_all_good_pool_calm()
    ensures
        pool_calm(fix_all_good_pool()),
{
    lemma_fix_all_good_pool_texts();
    assert forall|i: int| 0 <= i < fix_all_good_pool().len() implies calm(#[trigger] fix_all_good_pool()[i].0) && calm(fix_all_good_pool()[i].1) by {
        if i == 0 {} else if i == 1 {} else if i == 2 {}
    }
}

proof fn lemma_fix_hands_off_pool_texts()
    ensures
        calm("✧ No magic wand here: I show the way, you keep the wheel."@),
        calm("✧ Pas de baguette magique ici : je montre le chemin, vous gardez le volant."@),
        calm("✧ I point, you press. Nothing runs behind your back."@),
        calm("✧ Je montre, vous appuyez. Rien ne s'exécute dans votre dos."@),
        calm("✧ The wheel stays yours — I just lean over your shoulder."@),
        calm("✧ Le volant reste à vous — je me contente de regarder par-dessus votre épaule."@),
{
    assert(calm("✧ No magic wand here: I show the way, you keep the wheel."@)) by {
        reveal_strlit("✧ No magic wand here: I show the way, you keep the wheel.");
        lemma_text_calm("✧ No magic wand here: I show the way, you keep the wheel."@);
    }
    assert(calm("✧ Pas de baguette magique ici : je montre le chemin, vous gardez le volant."@)) by {
        reveal_strlit("✧ Pas de baguette magique ici : je montre le chemin, vous gardez le volant.");
        lemma_text_calm("✧ Pas de baguette magique ici : je montre le chemin, vous gardez le volant."@);
    }
    assert(calm("✧ I point, you press. Nothing runs behind your back."@)) by {
        reveal_strlit("✧ I point, you press. Nothing runs behind your back.");
        lemma_text_calm("✧ I point, you press. Nothing runs behind your back."@);
    }
    assert(calm("✧ Je montre, vous appuyez. Rien ne s'exécute dans votre dos."@)) by {
        reveal_strlit("✧ Je montre, vous appuyez. Rien ne s'exécute dans votre dos.");
        lemma_text_calm("✧ Je montre, vous appuyez. Rien ne s'exécute dans votre dos."@);
    }
    assert(calm("✧ The wheel stays yours — I just lean over your shoulder."@)) by {
        reveal_strlit("✧ The wheel stays yours — I just lean over your shoulder.");
        lemma_text_calm("✧ The wheel stays yours — I just lean over your shoulder."@);
    }
    assert(calm("✧ Le volant reste à vous — je me contente de regarder par-dessus votre épaule."@)) by {
        reveal_strlit("✧ Le volant reste à vous — je me contente de regarder par-dessus votre épaule.");
        lemma_text_calm("✧ Le volant reste à vous — je me contente de regarder par-dessus votre épaule."@);
    }
}

proof fn lemma_fix_hands_off_pool_calm()
    ensures
        pool_calm(fix_hands_off_pool()),
{
    lemma_fix_hands_off_pool_texts();
    assert forall|i: int| 0 <= i < fix_hands_off_pool().len() implies calm(#[trigger] fix_hands_off_pool()[i].0) && calm(fix_hands_off_pool()[i].1) by {
        if i == 0 {} else if i == 1 {} else if i == 2 {}
    }
}

proof fn lemma_daemon_started_pool_texts()
    ensures
        calm("Daemon started — on watch, eyes open. Go about your day."@),
        calm("Démon démarré — de garde, l'œil ouvert. Vaquez tranquille."@),
        calm("On duty. Off you go — I've got this."@),
        calm("En poste. Filez — je m'en occupe."@),
        calm("Settled in for the watch. Sleep easy."@),
        calm("Installée pour la veille. Dormez tranquille."@),
{
    assert(calm("Daemon started — on watch, eyes open. Go about your day."@)) by {
        reveal_strlit("Daemon started — on watch, eyes open. Go about your day.");
        lemma_text_calm("Daemon started — on watch, eyes open. Go about your day."@);
    }
    assert(calm("Démon démarré — de garde, l'œil ouvert. Vaquez tranquille."@)) by {
        reveal_strlit("Démon démarré — de garde, l'œil ouvert. Vaquez tranquille.");
        lemma_text_calm("Démon démarré — de garde, l'œil ouvert. Vaquez tranquille."@);
    }
    assert(calm("On duty. Off you go — I've got this."@)) by {
        reveal_strlit("On duty. Off you go — I've got this.");
        lemma_text_calm("On duty. Off you go — I've got this."@);
    }
    assert(calm("En poste. Filez — je m'en occupe."@)) by {
        reveal_strlit("En poste. Filez — je m'en occupe.");
        lemma_text_calm("En poste. Filez — je m'en occupe."@);
    }
    assert(calm("Settled in for the watch. Sleep easy."@)) by {
        reveal_strlit("Settled in for the watch. Sleep easy.");
        lemma_text_calm("Settled in for the watch. Sleep easy."@);
    }
    assert(calm("Installée pour la veille. Dormez tranquille."@)) by {
        reveal_strlit("Installée pour la veille. Dormez tranquille.");
        lemma_text_calm("Installée pour la veille. Dormez tranquille."@);
    }
}

proof fn lemma_daemon_started_pool_calm()
    ensures
        pool_calm(daemon_started_pool()),
{
    lemma_daemon_started_pool_texts();
    assert forall|i: int| 0 <= i < daemon_started_pool().len() implies calm(#[trigger] daemon_started_pool()[i].0) && calm(daemon_started_pool()[i].1) by {
        if i == 0 {} else if i == 1 {} else if i == 2 {}
    }
}

proof fn lemma_daemon_stopped_pool_texts()
    ensures
        calm("Daemon stopped. Call me at the slightest trouble."@),
        calm("Démon arrêté. Appelez-moi au moindre souci."@),
        calm("Off duty. You know where to find me."@),
        calm("Repos. Vous savez où me trouver."@),
        calm("Standing down. A word and I'm back."@),
        calm("Je me retire. Un mot et je reviens."@),
{
    assert(calm("Daemon stopped. Call me at the slightest trouble."@)) by {
        reveal_strlit("Daemon stopped. Call me at the slightest trouble.");
        lemma_text_calm("Daemon stopped. Call me at the slightest trouble."@);
    }
    assert(calm("Démon arrêté. Appelez-moi au moindre souci."@)) by {
        reveal_strlit("Démon arrêté. Appelez-moi au moindre souci.");
        lemma_text_calm("Démon arrêté. Appelez-moi au moindre souci."@);
    }
    assert(calm("Off duty. You know where to find me."@)) by {
        reveal_strlit("Off duty. You know where to find me.");
        lemma_text_calm("Off duty. You know where to find me."@);
    }
    assert(calm("Repos. Vous savez où me trouver."@)) by {
        reveal_strlit("Repos. Vous savez où me trouver.");
        lemma_text_calm("Repos. Vous savez où me trouver."@);
    }
    assert(calm("Standing down. A word and I'm back."@)) by {
        reveal_strlit("Standing down. A word and I'm back.");
        lemma_text_calm("Standing down. A word and I'm back."@);
    }
    assert(calm("Je me retire. Un mot et je reviens."@)) by {
        reveal_strlit("Je me retire. Un mot et je reviens.");
        lemma_text_calm("Je me retire. Un mot et je reviens."@);
    }
}

proof fn lemma_daemon_stopped_pool_calm()
    ensures
        pool_calm(daemon_stopped_pool()),
{
    lemma_daemon_stopped_pool_texts();
    assert forall|i: int| 0 <= i < daemon_stopped_pool().len() implies calm(#[trigger] daemon_stopped_pool()[i].0) && calm(daemon_stopped_pool()[i].1) by {
        if i == 0 {} else if i == 1 {} else if i == 2 {}
    }
}

proof fn lemma_daemon_restarted_pool_texts()
    ensures
        calm("Daemon restarted — back on watch."@),
        calm("Démon redémarré — de nouveau de garde."@),
        calm("Back on my feet, back on watch."@),
        calm("De nouveau sur pied, de nouveau de garde."@),
{
    assert(calm("Daemon restarted — back on watch."@)) by {
        reveal_strlit("Daemon restarted — back on watch.");
        lemma_text_calm("Daemon restarted — back on watch."@);
    }
    assert(calm("Démon redémarré — de nouveau de garde."@)) by {
        reveal_strlit("Démon redémarré — de nouveau de garde.");
        lemma_text_calm("Démon redémarré — de nouveau de garde."@);
    }
    assert(calm("Back on my feet, back on watch."@)) by {
        reveal_strlit("Back on my feet, back on watch.");
        lemma_text_calm("Back on my feet, back on watch."@);
    }
    assert(calm("De nouveau sur pied, de nouveau de garde."@)) by {
        reveal_strlit("De nouveau sur pied, de nouveau de garde.");
        lemma_text_calm("De nouveau sur pied, de nouveau de garde."@);
    }
}

proof fn lemma_daemon_restarted_pool_calm()
    ensures
        pool_calm(daemon_restarted_pool()),
{
    lemma_daemon_restarted_pool_texts();
    assert forall|i: int| 0 <= i < daemon_restarted_pool().len() implies calm(#[trigger] daemon_restarted_pool()[i].0) && calm(daemon_restarted_pool()[i].1) by {
        if i == 0 {} else if i == 1 {}
    }
}

proof fn lemma_daemon_back_on_guard_pool_texts()
    ensures
        calm("A `josephine daemon start` and I'm back on guard."@),
        calm("Un `josephine daemon start` et je reprends la garde."@),
        calm("Say `josephine daemon start` whenever you'd like me watching again."@),
        calm("Dites `josephine daemon start` quand vous voudrez que je reprenne la veille."@),
{
    assert(calm("A `josephine daemon start` and I'm back on guard."@)) by {
        reveal_strlit("A `josephine daemon start` and I'm back on guard.");
        lemma_text_calm("A `josephine daemon start` and I'm back on guard."@);
    }
    assert(calm("Un `josephine daemon start` et je reprends la garde."@)) by {
        reveal_strlit("Un `josephine daemon start` et je reprends la garde.");
        lemma_text_calm("Un `josephine daemon start` et je reprends la garde."@);
    }
    assert(calm("Say `josephine daemon start` whenever you'd like me watching again."@)) by {
        reveal_strlit("Say `josephine daemon start` whenever you'd like me watching again.");
        lemma_text_calm("Say `josephine daemon start` whenever you'd like me watching again."@);
    }
    assert(calm("Dites `josephine daemon start` quand vous voudrez que je reprenne la veille."@)) by {
        reveal_strlit("Dites `josephine daemon start` quand vous voudrez que je reprenne la veille.");
        lemma_text_calm("Dites `josephine daemon start` quand vous voudrez que je reprenne la veille."@);
    }
}

proof fn lemma_daemon_back_on_guard_pool_calm()
    ensures
        pool_calm(daemon_back_on_guard_pool()),
{
    lemma_daemon_back_on_guard_pool_texts();
    assert forall|i: int| 0 <= i < daemon_back_on_guard_pool().len() implies calm(#[trigger] daemon_back_on_guard_pool()[i].0) && calm(daemon_back_on_guard_pool()[i].1) by {
        if i == 0 {} else if i == 1 {}
    }
}

proof fn lemma_notify_test_body_pool_texts()
    ensures
        calm("Just looking in on you — if you can read this, desktop notifications are working."@),
        calm("Je viens prendre de vos nouvelles — si vous lisez ceci, les notifications de bureau fonctionnent."@),
        calm("A little wave from Joséphine — if you can see this, notifications are set."@),
        calm("Un petit coucou de Joséphine — si vous voyez ceci, les notifications sont en place."@),
        calm("Testing, testing — and if this reached you, all's wired up."@),
        calm("Test, test — et si ceci vous parvient, tout est branché."@),
{
    assert(calm("Just looking in on you — if you can read this, desktop notifications are working."@)) by {
        reveal_strlit("Just looking in on you — if you can read this, desktop notifications are working.");
        lemma_text_calm("Just looking in on you — if you can read this, desktop notifications are working."@);
    }
    assert(calm("Je viens prendre de vos nouvelles — si vous lisez ceci, les notifications de bureau fonctionnent."@)) by {
        reveal_strlit("Je viens prendre de vos nouvelles — si vous lisez ceci, les notifications de bureau fonctionnent.");
        lemma_text_calm("Je viens prendre de vos nouvelles — si vous lisez ceci, les notifications de bureau fonctionnent."@);
    }
    assert(calm("A little wave from Joséphine — if you can see this, notifications are set."@)) by {
        reveal_strlit("A little wave from Joséphine — if you can see this, notifications are set.");
        lemma_text_calm("A little wave from Joséphine — if you can see this, notifications are set."@);
    }
    assert(calm("Un petit coucou de Joséphine — si vous voyez ceci, les notifications sont en place."@)) by {
        reveal_strlit("Un petit coucou de Joséphine — si vous voyez ceci, les notifications sont en place.");
        lemma_text_calm("Un petit coucou de Joséphine — si vous voyez ceci, les notifications sont en place."@);
    }
    assert(calm("Testing, testing — and if this reached you, all's wired up."@)) by {
        reveal_strlit("Testing, testing — and if this reached you, all's wired up.");
        lemma_text_calm("Testing, testing — and if this reached you, all's wired up."@);
    }
    assert(calm("Test, test — et si ceci vous parvient, tout est branché."@)) by {
        reveal_strlit("Test, test — et si ceci vous parvient, tout est branché.");
        lemma_text_calm("Test, test — et si ceci vous parvient, tout est branché."@);
    }
}

proof fn lemma_notify_test_body_pool_calm()
    ensures
        pool_calm(notify_test_body_pool()),
{
    lemma_notify_test_body_pool_texts();
    assert forall|i: int| 0 <= i < notify_test_body_pool().len() implies calm(#[trigger] notify_test_body_pool()[i].0) && calm(notify_test_body_pool()[i].1) by {
        if i == 0 {} else if i == 1 {} else if i == 2 {}
    }
}

proof fn lemma_error_lead_pool_texts()
    ensures
        calm("✦ Joséphine ran into a snag:"@),
        calm("✦ Joséphine a rencontré un souci :"@),
        calm("✦ Joséphine tripped on something:"@),
        calm("✦ Joséphine a buté sur quelque chose :"@),
        calm("✦ Something got in Joséphine's way:"@),
        calm("✦ Quelque chose a gêné Joséphine :"@),
{
    assert(calm("✦ Joséphine ran into a snag:"@)) by {
        reveal_strlit("✦ Joséphine ran into a snag:");
        lemma_text_calm("✦ Joséphine ran into a snag:"@);
    }
    assert(calm("✦ Joséphine a rencontré un souci :"@)) by {
        reveal_strlit("✦ Joséphine a rencontré un souci :");
        lemma_text_calm("✦ Joséphine a rencontré un souci :"@);
    }
    assert(calm("✦ Joséphine tripped on something:"@)) by {
        reveal_strlit("✦ Joséphine tripped on something:");
        lemma_text_calm("✦ Joséphine tripped on something:"@);
    }
    assert(calm("✦ Joséphine a buté sur quelque chose :"@)) by {
        reveal_strlit("✦ Joséphine a buté sur quelque chose :");
        lemma_text_calm("✦ Joséphine a buté sur quelque chose :"@);
    }
    assert(calm("✦ Something got in Joséphine's way:"@)) by {
        reveal_strlit("✦ Something got in Joséphine's way:");
        lemma_text_calm("✦ Something got in Joséphine's way:"@);
    }
    assert(calm("✦ Quelque chose a gêné Joséphine :"@)) by {
        reveal_strlit("✦ Quelque chose a gêné Joséphine :");
        lemma_text_calm("✦ Quelque chose a gêné Joséphine :"@);
    }
}

proof fn lemma_error_lead_pool_calm()
    ensures
        pool_calm(error_lead_pool()),
{
    lemma_error_lead_pool_texts();
    assert forall|i: int| 0 <= i < error_lead_pool().len() implies calm(#[trigger] error_lead_pool()[i].0) && calm(error_lead_pool()[i].1) by {
        if i == 0 {} else if i == 1 {} else if i == 2 {}
    }
}

proof fn lemma_history_calm_pool_texts()
    ensures
        calm("A calm 24 hours. Nothing worth losing sleep over."@),
        calm("24 h tranquilles. Rien qui vaille de perdre le sommeil."@),
        calm("Twenty-four quiet hours on watch."@),
        calm("Vingt-quatre heures de veille sans histoire."@),
        calm("Nothing dramatic overnight — just the way we like it."@),
        calm("Rien de spectaculaire cette nuit — comme on aime."@),
{
    assert(calm("A calm 24 hours. Nothing worth losing sleep over."@)) by {
        reveal_strlit("A calm 24 hours. Nothing worth losing sleep over.");
        lemma_text_calm("A calm 24 hours. Nothing worth losing sleep over."@);
    }
    assert(calm("24 h tranquilles. Rien qui vaille de perdre le sommeil."@)) by {
        reveal_strlit("24 h tranquilles. Rien qui vaille de perdre le sommeil.");
        lemma_text_calm("24 h tranquilles. Rien qui vaille de perdre le sommeil."@);
    }
    assert(calm("Twenty-four quiet hours on watch."@)) by {
        reveal_strlit("Twenty-four quiet hours on watch.");
        lemma_text_calm("Twenty-four quiet hours on watch."@);
    }
    assert(calm("Vingt-quatre heures de veille sans histoire."@)) by {
        reveal_strlit("Vingt-quatre heures de veille sans histoire.");
        lemma_text_calm("Vingt-quatre heures de veille sans histoire."@);
    }
    assert(calm("Nothing dramatic overnight — just the way we like it."@)) by {
        reveal_strlit("Nothing dramatic overnight — just the way we like it.");
        lemma_text_calm("Nothing dramatic overnight — just the way we like it."@);
    }
    assert(calm("Rien de spectaculaire cette nuit — comme on aime."@)) by {
        reveal_strlit("Rien de spectaculaire cette nuit — comme on aime.");
        lemma_text_calm("Rien de spectaculaire cette nuit — comme on aime."@);
    }
}

proof fn lemma_history_calm_pool_calm()
    ensures
        pool_calm(history_calm_pool()),
{
    lemma_history_calm_pool_texts();
    assert forall|i: int| 0 <= i < history_calm_pool().len() implies calm(#[trigger] history_calm_pool()[i].0) && calm(history_calm_pool()[i].1) by {
        if i == 0 {} else if i == 1 {} else if i == 2 {}
    }
}

proof fn lemma_history_closing_pool_texts()
    ensures
        calm("All of it noted, so you didn't have to."@),
        calm("Tout est noté, pour que vous n'ayez pas à le faire."@),
        calm("Kept the log so you could sleep on it."@),
        calm("J'ai tenu le journal pour que vous puissiez dormir dessus."@),
        calm("That's the last day, from where I sit."@),
        calm("Voilà la dernière journée, vue d'ici."@),
{
    assert(calm("All of it noted, so you didn't have to."@)) by {
        reveal_strlit("All of it noted, so you didn't have to.");
        lemma_text_calm("All of it noted, so you didn't have to."@);
    }
    assert(calm("Tout est noté, pour que vous n'ayez pas à le faire."@)) by {
        reveal_strlit("Tout est noté, pour que vous n'ayez pas à le faire.");
        lemma_text_calm("Tout est noté, pour que vous n'ayez pas à le faire."@);
    }
    assert(calm("Kept the log so you could sleep on it."@)) by {
        reveal_strlit("Kept the log so you could sleep on it.");
        lemma_text_calm("Kept the log so you could sleep on it."@);
    }
    assert(calm("J'ai tenu le journal pour que vous puissiez dormir dessus."@)) by {
        reveal_strlit("J'ai tenu le journal pour que vous puissiez dormir dessus.");
        lemma_text_calm("J'ai tenu le journal pour que vous puissiez dormir dessus."@);
    }
    assert(calm("That's the last day, from where I sit."@)) by {
        reveal_strlit("That's the last day, from where I sit.");
        lemma_text_calm("That's the last day, from where I sit."@);
    }
    assert(calm("Voilà la dernière journée, vue d'ici."@)) by {
        reveal_strlit("Voilà la dernière journée, vue d'ici.");
        lemma_text_calm("Voilà la dernière journée, vue d'ici."@);
    }
}

proof fn lemma_history_closing_pool_calm()
    ensures
        pool_calm(history_closing_pool()),
{
    lemma_history_closing_pool_texts();
    assert forall|i: int| 0 <= i < history_closing_pool().len() implies calm(#[trigger] history_closing_pool()[i].0) && calm(history_closing_pool()[i].1) by {
        if i == 0 {} else if i == 1 {} else if i == 2 {}
    }
}

/// Joséphine's voice is never alarmist: every phrasing of every pool, in
/// English and in French, holds none of `ERROR`, `FATAL`, `PANIC`, `CRASH` or
/// `ÉCHEC`, in any mix of capitals and small letters.
pub proof fn law_voice_never_alarmist()
    ensures
        pool_calm(status_tagline_pool()),
        pool_calm(all_clear_pool()),
        pool_calm(doctor_info_pool()),
        pool_calm(doctor_attention_pool()),
        pool_calm(doctor_critique_pool()),
        pool_calm(fix_tagline_pool()),
        pool_calm(fix_all_good_pool()),
        pool_calm(fix_hands_off_pool()),
        pool_calm(daemon_started_pool()),
        pool_calm(daemon_stopped_pool()),
        pool_calm(daemon_restarted_pool()),
        pool_calm(daemon_back_on_guard_pool()),
        pool_calm(notify_test_body_pool()),
        pool_calm(error_lead_pool()),
        pool_calm(history_calm_pool()),
        pool_calm(history_closing_pool()),
{
    lemma_status_tagline_pool_calm();
    lemma_all_clear_pool_calm();
    lemma_doctor_info_pool_calm();
    lemma_doctor_attention_pool_calm();
    lemma_doctor_critique_pool_calm();
    lemma_fix_tagline_pool_calm();
    lemma_fix_all_good_pool_calm();
    lemma_fix_hands_off_pool_calm();
    lemma_daemon_started_pool_calm();
    lemma_daemon_stopped_pool_calm();
    lemma_daemon_restarted_pool_calm();
    lemma_daemon_back_on_guard_pool_calm();
    lemma_notify_test_body_pool_calm();
    lemma_error_lead_pool_calm();
    lemma_history_calm_pool_calm();
    lemma_history_closing_pool_calm();
}


// --- Where every alert points --------------------------------------------------

/// A word found in `b` is found in `a + b` too.
pub proof fn lemma_contains_after(a: Seq<char>, b: Seq<char>, w: Seq<char>)
    requires
        contains(b, w),
    ensures
        contains(a + b, w),
{
    let k = choose|k: int| occurs_at(b, w, k);
    assert((a + b).subrange(a.len() + k, a.len() + k + w.len()) =~= b.subrange(k, k + w.len()));
    assert(occurs_at(a + b, w, a.len() + k));
}

/// Every alert points the user to `josephine doctor`, in both languages,
/// whatever the check (a built-in one or not), the measurement and the
/// thresholds.
proof fn lemma_alerts_point_to_doctor_texts_1()
    ensures
        contains("% — critical. Your machine is under heavy load.\n\n`josephine doctor`, now."@, "josephine doctor"@),
        contains(" % — critique. Votre machine est sous forte charge.\n\n`josephine doctor`, maintenant."@, "josephine doctor"@),
        contains("%). Worth a look.\n\n`josephine doctor`?"@, "josephine doctor"@),
        contains(" %). Ça mérite un coup d'œil.\n\n`josephine doctor` ?"@, "josephine doctor"@),
        contains("% — nearly full.\n\n`josephine doctor` to see what's using it."@, "josephine doctor"@),
        contains(" % — presque pleine.\n\n`josephine doctor` pour voir ce qui l'utilise."@, "josephine doctor"@),
        contains("%).\n\n`josephine doctor` for more detail."@, "josephine doctor"@),
        contains(" %).\n\n`josephine doctor` pour en savoir plus."@, "josephine doctor"@),
        contains("% — space is running low.\n\nSee what's taking up room: `josephine doctor`."@, "josephine doctor"@),
        contains(" % — l'espace se raréfie.\n\nVoyez ce qui prend de la place : `josephine doctor`."@, "josephine doctor"@),
{
    assert(occurs_at("% — critical. Your machine is under heavy load.\n\n`josephine doctor`, now."@, "josephine doctor"@, 50)) by {
        reveal_strlit("% — critical. Your machine is under heavy load.\n\n`josephine doctor`, now.");
        reveal_strlit("josephine doctor");
        assert("% — critical. Your machine is under heavy load.\n\n`josephine doctor`, now."@.subrange(50, 66) =~= "josephine doctor"@);
    }
    assert(occurs_at(" % — critique. Votre machine est sous forte charge.\n\n`josephine doctor`, maintenant."@, "josephine doctor"@, 54)) by {
        reveal_strlit(" % — critique. Votre machine est sous forte charge.\n\n`josephine doctor`, maintenant.");
        reveal_strlit("josephine doctor");
        assert(" % — critique. Votre machine est sous forte charge.\n\n`josephine doctor`, maintenant."@.subrange(54, 70) =~= "josephine doctor"@);
    }
    assert(occurs_at("%). Worth a look.\n\n`josephine doctor`?"@, "josephine doctor"@, 20)) by {
        reveal_strlit("%). Worth a look.\n\n`josephine doctor`?");
        reveal_strlit("josephine doctor");
        assert("%). Worth a look.\n\n`josephine doctor`?"@.subrange(20, 36) =~= "josephine doctor"@);
    }
    assert(occurs_at(" %). Ça mérite un coup d'œil.\n\n`josephine doctor` ?"@, "josephine doctor"@, 32)) by {
        reveal_strlit(" %). Ça mérite un coup d'œil.\n\n`josephine doctor` ?");
        reveal_strlit("josephine doctor");
        assert(" %). Ça mérite un coup d'œil.\n\n`josephine doctor` ?"@.subrange(32, 48) =~= "josephine doctor"@);
    }
    assert(occurs_at("% — nearly full.\n\n`josephine doctor` to see what's using it."@, "josephine doctor"@, 19)) by {
        reveal_strlit("% — nearly full.\n\n`josephine doctor` to see what's using it.");
        reveal_strlit("josephine doctor");
        assert("% — nearly full.\n\n`josephine doctor` to see what's using it."@.subrange(19, 35) =~= "josephine doctor"@);
    }
    assert(occurs_at(" % — presque pleine.\n\n`josephine doctor` pour voir ce qui l'utilise."@, "josephine doctor"@, 23)) by {
        reveal_strlit(" % — presque pleine.\n\n`josephine doctor` pour voir ce qui l'utilise.");
        reveal_strlit("josephine doctor");
        assert(" % — presque pleine.\n\n`josephine doctor` pour voir ce qui l'utilise."@.subrange(23, 39) =~= "josephine doctor"@);
    }
    assert(occurs_at("%).\n\n`josephine doctor` for more detail."@, "josephine doctor"@, 6)) by {
        reveal_strlit("%).\n\n`josephine doctor` for more detail.");
        reveal_strlit("josephine doctor");
        assert("%).\n\n`josephine doctor` for more detail."@.subrange(6, 22) =~= "josephine doctor"@);
    }
    assert(occurs_at(" %).\n\n`josephine doctor` pour en savoir plus."@, "josephine doctor"@, 7)) by {
        reveal_strlit(" %).\n\n`josephine doctor` pour en savoir plus.");
        reveal_strlit("josephine doctor");
        assert(" %).\n\n`josephine doctor` pour en savoir plus."@.subrange(7, 23) =~= "josephine doctor"@);
    }
    assert(occurs_at("% — space is running low.\n\nSee what's taking up room: `josephine doctor`."@, "josephine doctor"@, 55)) by {
        reveal_strlit("% — space is running low.\n\nSee what's taking up room: `josephine doctor`.");
        reveal_strlit("josephine doctor");
        assert("% — space is running low.\n\nSee what's taking up room: `josephine doctor`."@.subrange(55, 71) =~= "josephine doctor"@);
    }
    assert(occurs_at(" % — l'espace se raréfie.\n\nVoyez ce qui prend de la place : `josephine doctor`."@, "josephine doctor"@, 61)) by {
        reveal_strlit(" % — l'espace se raréfie.\n\nVoyez ce qui prend de la place : `josephine doctor`.");
        reveal_strlit("josephine doctor");
        assert(" % — l'espace se raréfie.\n\nVoyez ce qui prend de la place : `josephine doctor`."@.subrange(61, 77) =~= "josephine doctor"@);
    }
}

proof fn lemma_alerts_point_to_doctor_texts_2()
    ensures
        contains("°C — critical. Your machine is running very hot.\n\nTake a look: `josephine doctor`."@, "josephine doctor"@),
        contains(" °C — critique. Votre machine chauffe fortement.\n\nUn coup d'œil : `josephine doctor`."@, "josephine doctor"@),
        contains("°C).\n\n`josephine doctor`?"@, "josephine doctor"@),
        contains(" °C).\n\n`josephine doctor` ?"@, "josephine doctor"@),
        contains(".\n\nThe list: `josephine doctor`."@, "josephine doctor"@),
        contains(".\n\nLa liste : `josephine doctor`."@, "josephine doctor"@),
        contains(" times.\n\n`josephine doctor` to see why."@, "josephine doctor"@),
        contains(" fois.\n\n`josephine doctor` pour comprendre pourquoi."@, "josephine doctor"@),
        contains(" ms to the gateway, or no response at all).\n\nCheck the Wi-Fi or the cable: `josephine doctor`."@, "josephine doctor"@),
        contains(" ms vers la passerelle, voire aucune réponse).\n\nVérifiez le Wi-Fi ou le câble : `josephine doctor`."@, "josephine doctor"@),
{
    assert(occurs_at("°C — critical. Your machine is running very hot.\n\nTake a look: `josephine doctor`."@, "josephine doctor"@, 64)) by {
        reveal_strlit("°C — critical. Your machine is running very hot.\n\nTake a look: `josephine doctor`.");
        reveal_strlit("josephine doctor");
        assert("°C — critical. Your machine is running very hot.\n\nTake a look: `josephine doctor`."@.subrange(64, 80) =~= "josephine doctor"@);
    }
    assert(occurs_at(" °C — critique. Votre machine chauffe fortement.\n\nUn coup d'œil : `josephine doctor`."@, "josephine doctor"@, 67)) by {
        reveal_strlit(" °C — critique. Votre machine chauffe fortement.\n\nUn coup d'œil : `josephine doctor`.");
        reveal_strlit("josephine doctor");
        assert(" °C — critique. Votre machine chauffe fortement.\n\nUn coup d'œil : `josephine doctor`."@.subrange(67, 83) =~= "josephine doctor"@);
    }
    assert(occurs_at("°C).\n\n`josephine doctor`?"@, "josephine doctor"@, 7)) by {
        reveal_strlit("°C).\n\n`josephine doctor`?");
        reveal_strlit("josephine doctor");
        assert("°C).\n\n`josephine doctor`?"@.subrange(7, 23) =~= "josephine doctor"@);
    }
    assert(occurs_at(" °C).\n\n`josephine doctor` ?"@, "josephine doctor"@, 8)) by {
        reveal_strlit(" °C).\n\n`josephine doctor` ?");
        reveal_strlit("josephine doctor");
        assert(" °C).\n\n`josephine doctor` ?"@.subrange(8, 24) =~= "josephine doctor"@);
    }
    assert(occurs_at(".\n\nThe list: `josephine doctor`."@, "josephine doctor"@, 14)) by {
        reveal_strlit(".\n\nThe list: `josephine doctor`.");
        reveal_strlit("josephine doctor");
        assert(".\n\nThe list: `josephine doctor`."@.subrange(14, 30) =~= "josephine doctor"@);
    }
    assert(occurs_at(".\n\nLa liste : `josephine doctor`."@, "josephine doctor"@, 15)) by {
        reveal_strlit(".\n\nLa liste : `josephine doctor`.");
        reveal_strlit("josephine doctor");
        assert(".\n\nLa liste : `josephine doctor`."@.subrange(15, 31) =~= "josephine doctor"@);
    }
    assert(occurs_at(" times.\n\n`josephine doctor` to see why."@, "josephine doctor"@, 10)) by {
        reveal_strlit(" times.\n\n`josephine doctor` to see why.");
        reveal_strlit("josephine doctor");
        assert(" times.\n\n`josephine doctor` to see why."@.subrange(10, 26) =~= "josephine doctor"@);
    }
    assert(occurs_at(" fois.\n\n`josephine doctor` pour comprendre pourquoi."@, "josephine doctor"@, 9)) by {
        reveal_strlit(" fois.\n\n`josephine doctor` pour comprendre pourquoi.");
        reveal_strlit("josephine doctor");
        assert(" fois.\n\n`josephine doctor` pour comprendre pourquoi."@.subrange(9, 25) =~= "josephine doctor"@);
    }
    assert(occurs_at(" ms to the gateway, or no response at all).\n\nCheck the Wi-Fi or the cable: `josephine doctor`."@, "josephine doctor"@, 76)) by {
        reveal_strlit(" ms to the gateway, or no response at all).\n\nCheck the Wi-Fi or the cable: `josephine doctor`.");
        reveal_strlit("josephine doctor");
        assert(" ms to the gateway, or no response at all).\n\nCheck the Wi-Fi or the cable: `josephine doctor`."@.subrange(76, 92) =~= "josephine doctor"@);
    }
    assert(occurs_at(" ms vers la passerelle, voire aucune réponse).\n\nVérifiez le Wi-Fi ou le câble : `josephine doctor`."@, "josephine doctor"@, 81)) by {
        reveal_strlit(" ms vers la passerelle, voire aucune réponse).\n\nVérifiez le Wi-Fi ou le câble : `josephine doctor`.");
        reveal_strlit("josephine doctor");
        assert(" ms vers la passerelle, voire aucune réponse).\n\nVérifiez le Wi-Fi ou le câble : `josephine doctor`."@.subrange(81, 97) =~= "josephine doctor"@);
    }
}

proof fn lemma_alerts_point_to_doctor_texts_3()
    ensures
        contains("%.\n\nPlug in when you can: `josephine doctor` for the full picture."@, "josephine doctor"@),
        contains(" %.\n\nBranchez-la quand vous pouvez : `josephine doctor` pour le détail."@, "josephine doctor"@),
        contains("%) — many small files, even with free space left.\n\n`josephine doctor` to spot the partition."@, "josephine doctor"@),
        contains(" %) — de nombreux petits fichiers, même avec de l'espace libre.\n\n`josephine doctor` pour repérer la partition."@, "josephine doctor"@),
        contains(" disk(s) are reporting a SMART weakness.\n\nBack up without delay: `josephine doctor` for the details."@, "josephine doctor"@),
        contains(" disque(s) signalent une faiblesse SMART.\n\nSauvegardez sans tarder : `josephine doctor` pour le détail."@, "josephine doctor"@),
        contains(" kernel incident(s) this hour (OOM, oops…).\n\n`josephine doctor` for more detail."@, "josephine doctor"@),
        contains(" incident(s) noyau cette heure (OOM, oops…).\n\n`josephine doctor` pour en savoir plus."@, "josephine doctor"@),
        contains("). Nothing serious yet — `josephine doctor`?"@, "josephine doctor"@),
        contains("). Rien de grave pour l'instant — `josephine doctor` ?"@, "josephine doctor"@),
{
    assert(occurs_at("%.\n\nPlug in when you can: `josephine doctor` for the full picture."@, "josephine doctor"@, 27)) by {
        reveal_strlit("%.\n\nPlug in when you can: `josephine doctor` for the full picture.");
        reveal_strlit("josephine doctor");
        assert("%.\n\nPlug in when you can: `josephine doctor` for the full picture."@.subrange(27, 43) =~= "josephine doctor"@);
    }
    assert(occurs_at(" %.\n\nBranchez-la quand vous pouvez : `josephine doctor` pour le détail."@, "josephine doctor"@, 38)) by {
        reveal_strlit(" %.\n\nBranchez-la quand vous pouvez : `josephine doctor` pour le détail.");
        reveal_strlit("josephine doctor");
        assert(" %.\n\nBranchez-la quand vous pouvez : `josephine doctor` pour le détail."@.subrange(38, 54) =~= "josephine doctor"@);
    }
    assert(occurs_at("%) — many small files, even with free space left.\n\n`josephine doctor` to spot the partition."@, "josephine doctor"@, 52)) by {
        reveal_strlit("%) — many small files, even with free space left.\n\n`josephine doctor` to spot the partition.");
        reveal_strlit("josephine doctor");
        assert("%) — many small files, even with free space left.\n\n`josephine doctor` to spot the partition."@.subrange(52, 68) =~= "josephine doctor"@);
    }
    assert(occurs_at(" %) — de nombreux petits fichiers, même avec de l'espace libre.\n\n`josephine doctor` pour repérer la partition."@, "josephine doctor"@, 66)) by {
        reveal_strlit(" %) — de nombreux petits fichiers, même avec de l'espace libre.\n\n`josephine doctor` pour repérer la partition.");
        reveal_strlit("josephine doctor");
        assert(" %) — de nombreux petits fichiers, même avec de l'espace libre.\n\n`josephine doctor` pour repérer la partition."@.subrange(66, 82) =~= "josephine doctor"@);
    }
    assert(occurs_at(" disk(s) are reporting a SMART weakness.\n\nBack up without delay: `josephine doctor` for the details."@, "josephine doctor"@, 66)) by {
        reveal_strlit(" disk(s) are reporting a SMART weakness.\n\nBack up without delay: `josephine doctor` for the details.");
        reveal_strlit("josephine doctor");
        assert(" disk(s) are reporting a SMART weakness.\n\nBack up without delay: `josephine doctor` for the details."@.subrange(66, 82) =~= "josephine doctor"@);
    }
    assert(occurs_at(" disque(s) signalent une faiblesse SMART.\n\nSauvegardez sans tarder : `josephine doctor` pour le détail."@, "josephine doctor"@, 70)) by {
        reveal_strlit(" disque(s) signalent une faiblesse SMART.\n\nSauvegardez sans tarder : `josephine doctor` pour le détail.");
        reveal_strlit("josephine doctor");
        assert(" disque(s) signalent une faiblesse SMART.\n\nSauvegardez sans tarder : `josephine doctor` pour le détail."@.subrange(70, 86) =~= "josephine doctor"@);
    }
    assert(occurs_at(" kernel incident(s) this hour (OOM, oops…).\n\n`josephine doctor` for more detail."@, "josephine doctor"@, 46)) by {
        reveal_strlit(" kernel incident(s) this hour (OOM, oops…).\n\n`josephine doctor` for more detail.");
        reveal_strlit("josephine doctor");
        assert(" kernel incident(s) this hour (OOM, oops…).\n\n`josephine doctor` for more detail."@.subrange(46, 62) =~= "josephine doctor"@);
    }
    assert(occurs_at(" incident(s) noyau cette heure (OOM, oops…).\n\n`josephine doctor` pour en savoir plus."@, "josephine doctor"@, 47)) by {
        reveal_strlit(" incident(s) noyau cette heure (OOM, oops…).\n\n`josephine doctor` pour en savoir plus.");
        reveal_strlit("josephine doctor");
        assert(" incident(s) noyau cette heure (OOM, oops…).\n\n`josephine doctor` pour en savoir plus."@.subrange(47, 63) =~= "josephine doctor"@);
    }
    assert(occurs_at("). Nothing serious yet — `josephine doctor`?"@, "josephine doctor"@, 26)) by {
        reveal_strlit("). Nothing serious yet — `josephine doctor`?");
        reveal_strlit("josephine doctor");
        assert("). Nothing serious yet — `josephine doctor`?"@.subrange(26, 42) =~= "josephine doctor"@);
    }
    assert(occurs_at("). Rien de grave pour l'instant — `josephine doctor` ?"@, "josephine doctor"@, 35)) by {
        reveal_strlit("). Rien de grave pour l'instant — `josephine doctor` ?");
        reveal_strlit("josephine doctor");
        assert("). Rien de grave pour l'instant — `josephine doctor` ?"@.subrange(35, 51) =~= "josephine doctor"@);
    }
}

pub proof fn law_alerts_point_to_doctor(
    check: Seq<char>,
    m: Metric,
    th: CheckThresholds,
    state: AlertState,
    lang: Lang,
)
    requires
        state != AlertState::Normal || (check != "cpu"@ && check != "temperature"@),
    ensures
        contains(alert_text(check, m, th, state, lang), "josephine doctor"@),
{
    lemma_alerts_point_to_doctor_texts_1();
    lemma_alerts_point_to_doctor_texts_2();
    lemma_alerts_point_to_doctor_texts_3();
    let v = m.value as int;
    let w = "josephine doctor"@;
    let n = whole_count(v);
    if check == "cpu"@ {
        match (state, lang) {
            (AlertState::Critical, Lang::En) => lemma_contains_after(
                "CPU usage is at "@ + n0(v),
                "% — critical. Your machine is under heavy load.\n\n`josephine doctor`, now."@,
                w,
            ),
            (AlertState::Critical, Lang::Fr) => lemma_contains_after(
                "Le CPU est à "@ + n0(v),
                " % — critique. Votre machine est sous forte charge.\n\n`josephine doctor`, maintenant."@,
                w,
            ),
            (AlertState::Warning, Lang::En) => lemma_contains_after(
                "CPU usage is at "@ + n0(v) + "% (threshold: "@ + n0(th.warning as int),
                "%). Worth a look.\n\n`josephine doctor`?"@,
                w,
            ),
            (AlertState::Warning, Lang::Fr) => lemma_contains_after(
                "Le CPU est à "@ + n0(v) + " % (seuil : "@ + n0(th.warning as int),
                " %). Ça mérite un coup d'œil.\n\n`josephine doctor` ?"@,
                w,
            ),
            (AlertState::Normal, _) => {},
        }
    } else if check == "memory"@ && m.name@ == "swap_percent"@ {
        match lang {
            Lang::En => lemma_contains_after(
                "Swap usage is high ("@ + n0(v),
                "%).\n\n`josephine doctor` for more detail."@,
                w,
            ),
            Lang::Fr => lemma_contains_after(
                "L'utilisation du swap est élevée ("@ + n0(v),
                " %).\n\n`josephine doctor` pour en savoir plus."@,
                w,
            ),
        }
    } else if check == "memory"@ {
        match lang {
            Lang::En => lemma_contains_after(
                "Memory is at "@ + n0(v),
                "% — nearly full.\n\n`josephine doctor` to see what's using it."@,
                w,
            ),
            Lang::Fr => lemma_contains_after(
                "La mémoire est à "@ + n0(v),
                " % — presque pleine.\n\n`josephine doctor` pour voir ce qui l'utilise."@,
                w,
            ),
        }
    } else if check == "disk"@ {
        match lang {
            Lang::En => lemma_contains_after(
                "Disk usage is at "@ + n0(v),
                "% — space is running low.\n\nSee what's taking up room: `josephine doctor`."@,
                w,
            ),
            Lang::Fr => lemma_contains_after(
                "Le disque est à "@ + n0(v),
                " % — l'espace se raréfie.\n\nVoyez ce qui prend de la place : `josephine doctor`."@,
                w,
            ),
        }
    } else if check == "temperature"@ {
        let limit = temperature_limit(m, th);
        match (state, lang) {
            (AlertState::Critical, Lang::En) => lemma_contains_after(
                n0(v),
                "°C — critical. Your machine is running very hot.\n\nTake a look: `josephine doctor`."@,
                w,
            ),
            (AlertState::Critical, Lang::Fr) => lemma_contains_after(
                n0(v),
                " °C — critique. Votre machine chauffe fortement.\n\nUn coup d'œil : `josephine doctor`."@,
                w,
            ),
            (AlertState::Warning, Lang::En) => lemma_contains_after(
                "Temperature is rising ("@ + n0(v) + "°C, threshold "@ + n0(limit),
                "°C).\n\n`josephine doctor`?"@,
                w,
            ),
            (AlertState::Warning, Lang::Fr) => lemma_contains_after(
                "La température monte ("@ + n0(v) + " °C, seuil "@ + n0(limit),
                " °C).\n\n`josephine doctor` ?"@,
                w,
            ),
            (AlertState::Normal, _) => {},
        }
    } else if check == "systemd"@ && m.name@ == "failed_units"@ {
        match lang {
            Lang::En => lemma_contains_after(
                if n <= 1 {
                    "1 service has stopped"@
                } else {
                    digits(n) + " services have stopped"@
                },
                ".\n\nThe list: `josephine doctor`."@,
                w,
            ),
            Lang::Fr => lemma_contains_after(
                if n <= 1 {
                    "1 service s'est arrêté"@
                } else {
                    digits(n) + " services se sont arrêtés"@
                },
                ".\n\nLa liste : `josephine doctor`."@,
                w,
            ),
        }
    } else if check == "systemd"@ {
        match lang {
            Lang::En => lemma_contains_after(
                "A service has restarted "@ + n0(v),
                " times.\n\n`josephine doctor` to see why."@,
                w,
            ),
            Lang::Fr => lemma_contains_after(
                "Un service a redémarré "@ + n0(v),
                " fois.\n\n`josephine doctor` pour comprendre pourquoi."@,
                w,
            ),
        }
    } else if check == "updates"@ {
        match lang {
            Lang::En => lemma_contains_after(
                digits(n) + (if n <= 1 {
                    " update is waiting for you"@
                } else {
                    " updates are waiting for you"@
                }),
                ".\n\nThe list: `josephine doctor`."@,
                w,
            ),
            Lang::Fr => lemma_contains_after(
                digits(n) + (if n <= 1 {
                    " mise à jour vous attend"@
                } else {
                    " mises à jour vous attendent"@
                }),
                ".\n\nLa liste : `josephine doctor`."@,
                w,
            ),
        }
    } else if check == "network"@ {
        match lang {
            Lang::En => lemma_contains_after(
                "Your network link is unstable ("@ + n0(v),
                " ms to the gateway, or no response at all).\n\nCheck the Wi-Fi or the cable: `josephine doctor`."@,
                w,
            ),
            Lang::Fr => lemma_contains_after(
                "Le lien réseau est instable ("@ + n0(v),
                " ms vers la passerelle, voire aucune réponse).\n\nVérifiez le Wi-Fi ou le câble : `josephine doctor`."@,
                w,
            ),
        }
    } else if check == "battery"@ {
        match lang {
            Lang::En => lemma_contains_after(
                "Your battery is down to "@ + n0(100_000 - v),
                "%.\n\nPlug in when you can: `josephine doctor` for the full picture."@,
                w,
            ),
            Lang::Fr => lemma_contains_after(
                "Votre batterie descend à "@ + n0(100_000 - v),
                " %.\n\nBranchez-la quand vous pouvez : `josephine doctor` pour le détail."@,
                w,
            ),
        }
    } else if check == "inode"@ {
        match lang {
            Lang::En => lemma_contains_after(
                "Inodes are filling up ("@ + n0(v),
                "%) — many small files, even with free space left.\n\n`josephine doctor` to spot the partition."@,
                w,
            ),
            Lang::Fr => lemma_contains_after(
                "Les inodes se remplissent ("@ + n0(v),
                " %) — de nombreux petits fichiers, même avec de l'espace libre.\n\n`josephine doctor` pour repérer la partition."@,
                w,
            ),
        }
    } else if check == "smart"@ {
        match lang {
            Lang::En => lemma_contains_after(
                digits(n),
                " disk(s) are reporting a SMART weakness.\n\nBack up without delay: `josephine doctor` for the details."@,
                w,
            ),
            Lang::Fr => lemma_contains_after(
                digits(n),
                " disque(s) signalent une faiblesse SMART.\n\nSauvegardez sans tarder : `josephine doctor` pour le détail."@,
                w,
            ),
        }
    } else if check == "kernel"@ {
        match lang {
            Lang::En => lemma_contains_after(
                digits(n),
                " kernel incident(s) this hour (OOM, oops…).\n\n`josephine doctor` for more detail."@,
                w,
            ),
            Lang::Fr => lemma_contains_after(
                digits(n),
                " incident(s) noyau cette heure (OOM, oops…).\n\n`josephine doctor` pour en savoir plus."@,
                w,
            ),
        }
    } else {
        match lang {
            Lang::En => lemma_contains_after(
                check + " is out of range ("@ + fmt_milli(v, 1) + " "@ + m.unit@,
                "). Nothing serious yet — `josephine doctor`?"@,
                w,
            ),
            Lang::Fr => lemma_contains_after(
                check + " sort de sa plage ("@ + fmt_milli(v, 1) + " "@ + m.unit@,
                "). Rien de grave pour l'instant — `josephine doctor` ?"@,
                w,
            ),
        }
    }
}

} // verus!
