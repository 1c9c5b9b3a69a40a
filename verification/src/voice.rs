//! Joséphine's voice — a little variety so she doesn't say things the exact
//! same way every time.
//!
//! Variety lives on personality lines only (greetings, "all clear",
//! sign-offs); the facts of an alert stay fixed. Every phrasing exists in
//! English and French. Each pool is a list of `(en, fr)` pairs; [`pick`]
//! returns one of them, in the requested language, at a slot drawn from the
//! clock.
use vstd::prelude::*;

use crate::check::Severity;
use crate::lang::Lang;

verus! {

/// Calls `SystemTime::now`; nothing is stated of the moment it reads.
#[verifier::external_body]
fn now() -> std::time::SystemTime {
    std::time::SystemTime::now()
}

/// Calls `SystemTime::duration_since` from the Unix epoch (`None` for a
/// moment before it); nothing is stated of the duration, which depends on the
/// moment given.
#[verifier::external_body]
fn since_epoch(t: &std::time::SystemTime) -> Option<std::time::Duration> {
    t.duration_since(std::time::UNIX_EPOCH).ok()
}

/// Calls `Duration::as_nanos`: the whole nanoseconds of a duration, which
/// Verus sees only as an opaque value, so nothing is stated of them.
#[verifier::external_body]
fn whole_nanos(d: &std::time::Duration) -> u128 {
    d.as_nanos()
}

/// A seed from the clock: the low 64 bits of the nanoseconds since the Unix
/// epoch (`0` for a clock set before it).
fn clock_seed() -> u64 {
    match since_epoch(&now()) {
        Some(d) => whole_nanos(&d) as u64,
        None => 0,
    }
}

/// One round of splitmix64 over `x`, spreading its low bits.
pub open spec fn mix(x: u64) -> u64 {
    let a = x ^ (x >> 30u64);
    let b = a.wrapping_mul(0xBF58_476D_1CE4_E5B9u64);
    let c = b ^ (b >> 27u64);
    let d = c.wrapping_mul(0x94D0_49BB_1331_11EBu64);
    d ^ (d >> 31u64)
}

/// The slot a seed selects in a pool of `len` phrasings.
pub open spec fn slot_for(seed: u64, len: usize) -> usize {
    if len <= 1 {
        0
    } else {
        (mix(seed) % (len as u64)) as usize
    }
}

/// The slot a seed selects: always `0` for a pool of at most one phrasing.
pub fn slot(seed: u64, len: usize) -> (i: usize)
    ensures
        i == slot_for(seed, len),
        len >= 1 ==> i < len,
{
    if len <= 1 {
        return 0;
    }
    let a = seed ^ (seed >> 30u64);
    let b = a.wrapping_mul(0xBF58_476D_1CE4_E5B9u64);
    let c = b ^ (b >> 27u64);
    let d = c.wrapping_mul(0x94D0_49BB_1331_11EBu64);
    let x = d ^ (d >> 31u64);
    (x % (len as u64)) as usize
}

/// A slot in `0..len` drawn from the clock: the slot some seed selects, the
/// seed being read from the clock (always `0` for a pool of at most one
/// phrasing).
pub fn index(len: usize) -> (i: usize)
    ensures
        len <= 1 ==> i == 0,
        len > 1 ==> i < len,
        exists|seed: u64| i == #[trigger] slot_for(seed, len),
{
    if len <= 1 {
        assert(0 == slot_for(0, len));
        return 0;
    }
    let seed = clock_seed();
    let i = slot(seed, len);
    assert(i == slot_for(seed, len));
    i
}

pub open spec fn in_lang(pair: (Seq<char>, Seq<char>), lang: Lang) -> Seq<char> {
    match lang {
        Lang::En => pair.0,
        Lang::Fr => pair.1,
    }
}

pub open spec fn pool_view(pool: Seq<(&'static str, &'static str)>) -> Seq<(Seq<char>, Seq<char>)> {
    Seq::new(pool.len(), |i: int| (pool[i].0@, pool[i].1@))
}

/// `s` is one of the pool's phrasings, in `lang`.
pub open spec fn one_of(s: Seq<char>, pool: Seq<(Seq<char>, Seq<char>)>, lang: Lang) -> bool {
    exists|i: int| 0 <= i < pool.len() && s == in_lang(#[trigger] pool[i], lang)
}

/// The phrasing at slot `i`, in `lang`.
pub fn pick_at(pool: &Vec<(&'static str, &'static str)>, i: usize, lang: Lang) -> (s: &'static str)
    requires
        i < pool@.len(),
    ensures
        s@ == in_lang(pool_view(pool@)[i as int], lang),
{
    let (en, fr) = pool[i];
    match lang {
        Lang::En => en,
        Lang::Fr => fr,
    }
}

/// One phrasing from `pool`, in `lang`, at a slot drawn from the clock.
pub fn pick(pool: &Vec<(&'static str, &'static str)>, lang: Lang) -> (s: &'static str)
    requires
        pool@.len() > 0,
    ensures
        one_of(s@, pool_view(pool@), lang),
{
    let i = index(pool.len());
    let s = pick_at(pool, i, lang);
    assert(s@ == in_lang(pool_view(pool@)[i as int], lang));
    s
}

pub open spec fn status_tagline_pool() -> Seq<(Seq<char>, Seq<char>)> {
    seq![
        ("Your machine, watched over."@, "Votre machine, sous bonne garde."@),
        ("On watch, as ever."@, "De garde, comme toujours."@),
        ("Keeping a quiet eye on things."@, "Je garde un œil, discrètement."@),
        ("Everything under a watchful eye."@, "Tout est sous l'œil bienveillant."@),
        ("Here, minding the machine."@, "Là, à veiller sur la machine."@),
    ]
}

fn status_tagline_phrasings() -> (v: Vec<(&'static str, &'static str)>)
    ensures
        pool_view(v@) == status_tagline_pool(),
        v@.len() == 5,
{
    let v = vec![
        ("Your machine, watched over.", "Votre machine, sous bonne garde."),
        ("On watch, as ever.", "De garde, comme toujours."),
        ("Keeping a quiet eye on things.", "Je garde un œil, discrètement."),
        ("Everything under a watchful eye.", "Tout est sous l'œil bienveillant."),
        ("Here, minding the machine.", "Là, à veiller sur la machine."),
    ];
    assert(pool_view(v@) =~= status_tagline_pool());
    v
}

/// The dimmed line under the title on `josephine` / `josephine status`.
pub fn status_tagline(lang: Lang) -> (s: &'static str)
    ensures
        one_of(s@, status_tagline_pool(), lang),
{
    pick(&status_tagline_phrasings(), lang)
}

pub open spec fn all_clear_pool() -> Seq<(Seq<char>, Seq<char>)> {
    seq![
        ("All clear."@, "Tout est au vert."@),
        ("Nothing needs you."@, "Rien ne réclame votre attention."@),
        ("All quiet. Carry on."@, "Calme plat. Continuez."@),
        ("Not a cloud in sight."@, "Pas un nuage à l'horizon."@),
        ("Everything's in its right place."@, "Tout est à sa place."@),
    ]
}

fn all_clear_phrasings() -> (v: Vec<(&'static str, &'static str)>)
    ensures
        pool_view(v@) == all_clear_pool(),
        v@.len() == 5,
{
    let v = vec![
        ("All clear.", "Tout est au vert."),
        ("Nothing needs you.", "Rien ne réclame votre attention."),
        ("All quiet. Carry on.", "Calme plat. Continuez."),
        ("Not a cloud in sight.", "Pas un nuage à l'horizon."),
        ("Everything's in its right place.", "Tout est à sa place."),
    ];
    assert(pool_view(v@) =~= all_clear_pool());
    v
}

/// The `status` footer when nothing needs attention.
pub fn all_clear(lang: Lang) -> (s: &'static str)
    ensures
        one_of(s@, all_clear_pool(), lang),
{
    pick(&all_clear_phrasings(), lang)
}

pub open spec fn doctor_info_pool() -> Seq<(Seq<char>, Seq<char>)> {
    seq![
        ("Clean bill of health — nothing needs you."@, "Rien à signaler — vous n'avez rien à faire."@),
        ("Everything checks out. A model patient."@, "Tout est bon. Un patient modèle."@),
        ("Fit as a fiddle."@, "En pleine forme."@),
        ("A thorough look, and nothing to report."@, "Examen complet, rien à signaler."@),
    ]
}

fn doctor_info_phrasings() -> (v: Vec<(&'static str, &'static str)>)
    ensures
        pool_view(v@) == doctor_info_pool(),
        v@.len() == 4,
{
    let v = vec![
        ("Clean bill of health — nothing needs you.", "Rien à signaler — vous n'avez rien à faire."),
        ("Everything checks out. A model patient.", "Tout est bon. Un patient modèle."),
        ("Fit as a fiddle.", "En pleine forme."),
        ("A thorough look, and nothing to report.", "Examen complet, rien à signaler."),
    ];
    assert(pool_view(v@) =~= doctor_info_pool());
    v
}

pub open spec fn doctor_attention_pool() -> Seq<(Seq<char>, Seq<char>)> {
    seq![
        ("A couple of things worth a glance — nothing urgent."@, "Deux ou trois choses à regarder — rien d'urgent."@),
        ("Mostly well, with a note or two."@, "Globalement en forme, à une note ou deux près."@),
        ("Nothing serious, but let's keep an eye on it."@, "Rien de grave, mais gardons un œil dessus."@),
    ]
}

fn doctor_attention_phrasings() -> (v: Vec<(&'static str, &'static str)>)
    ensures
        pool_view(v@) == doctor_attention_pool(),
        v@.len() == 3,
{
    let v = vec![
        ("A couple of things worth a glance — nothing urgent.", "Deux ou trois choses à regarder — rien d'urgent."),
        ("Mostly well, with a note or two.", "Globalement en forme, à une note ou deux près."),
        ("Nothing serious, but let's keep an eye on it.", "Rien de grave, mais gardons un œil dessus."),
    ];
    assert(pool_view(v@) =~= doctor_attention_pool());
    v
}

pub open spec fn doctor_critique_pool() -> Seq<(Seq<char>, Seq<char>)> {
    seq![
        ("Something wants your attention now. Details below."@, "Quelque chose réclame votre attention, maintenant. Détails plus bas."@),
        ("Let's not dawdle — see below."@, "Ne traînons pas — voyez plus bas."@),
        ("One thing can't wait. It's just below."@, "Une chose ne peut pas attendre. C'est juste en dessous."@),
    ]
}

fn doctor_critique_phrasings() -> (v: Vec<(&'static str, &'static str)>)
    ensures
        pool_view(v@) == doctor_critique_pool(),
        v@.len() == 3,
{
    let v = vec![
        ("Something wants your attention now. Details below.", "Quelque chose réclame votre attention, maintenant. Détails plus bas."),
        ("Let's not dawdle — see below.", "Ne traînons pas — voyez plus bas."),
        ("One thing can't wait. It's just below.", "Une chose ne peut pas attendre. C'est juste en dessous."),
    ];
    assert(pool_view(v@) =~= doctor_critique_pool());
    v
}

pub open spec fn fix_tagline_pool() -> Seq<(Seq<char>, Seq<char>)> {
    seq![
        ("The closest a terminal gets to a snap of the fingers."@, "Ce qu'un terminal fait de plus proche d'un claquement de doigts."@),
        ("A snap of the fingers — give or take a keystroke."@, "Un claquement de doigts — à une touche près."@),
        ("You point, I guide. No wand required."@, "Vous montrez, je guide. Pas besoin de baguette."@),
    ]
}

fn fix_tagline_phrasings() -> (v: Vec<(&'static str, &'static str)>)
    ensures
        pool_view(v@) == fix_tagline_pool(),
        v@.len() == 3,
{
    let v = vec![
        ("The closest a terminal gets to a snap of the fingers.", "Ce qu'un terminal fait de plus proche d'un claquement de doigts."),
        ("A snap of the fingers — give or take a keystroke.", "Un claquement de doigts — à une touche près."),
        ("You point, I guide. No wand required.", "Vous montrez, je guide. Pas besoin de baguette."),
    ];
    assert(pool_view(v@) =~= fix_tagline_pool());
    v
}

/// The dimmed tagline under the `fix` header.
pub fn fix_tagline(lang: Lang) -> (s: &'static str)
    ensures
        one_of(s@, fix_tagline_pool(), lang),
{
    pick(&fix_tagline_phrasings(), lang)
}

pub open spec fn fix_all_good_pool() -> Seq<(Seq<char>, Seq<char>)> {
    seq![
        ("✧ Nothing to fix — the machine's in good shape. I'll see myself out."@, "✧ Rien à réparer — la machine va bien. Je m'éclipse."@),
        ("✧ All sound. My work here is done."@, "✧ Tout est sain. Ma mission ici est finie."@),
        ("✧ Nothing broken. I'll slip away, then — ni vu ni connu."@, "✧ Rien de cassé. Je file, alors — ni vu ni connu."@),
    ]
}

fn fix_all_good_phrasings() -> (v: Vec<(&'static str, &'static str)>)
    ensures
        pool_view(v@) == fix_all_good_pool(),
        v@.len() == 3,
{
    let v = vec![
        ("✧ Nothing to fix — the machine's in good shape. I'll see myself out.", "✧ Rien à réparer — la machine va bien. Je m'éclipse."),
        ("✧ All sound. My work here is done.", "✧ Tout est sain. Ma mission ici est finie."),
        ("✧ Nothing broken. I'll slip away, then — ni vu ni connu.", "✧ Rien de cassé. Je file, alors — ni vu ni connu."),
    ];
    assert(pool_view(v@) =~= fix_all_good_pool());
    v
}

/// Closing line for `fix` when there was nothing to mend.
pub fn fix_all_good(lang: Lang) -> (s: &'static str)
    ensures
        one_of(s@, fix_all_good_pool(), lang),
{
    pick(&fix_all_good_phrasings(), lang)
}

pub open spec fn fix_hands_off_pool() -> Seq<(Seq<char>, Seq<char>)> {
    seq![
        ("✧ No magic wand here: I show the way, you keep the wheel."@, "✧ Pas de baguette magique ici : je montre le chemin, vous gardez le volant."@),
        ("✧ I point, you press. Nothing runs behind your back."@, "✧ Je montre, vous appuyez. Rien ne s'exécute dans votre dos."@),
        ("✧ The wheel stays yours — I just lean over your shoulder."@, "✧ Le volant reste à vous — je me contente de regarder par-dessus votre épaule."@),
    ]
}

fn fix_hands_off_phrasings() -> (v: Vec<(&'static str, &'static str)>)
    ensures
        pool_view(v@) == fix_hands_off_pool(),
        v@.len() == 3,
{
    let v = vec![
        ("✧ No magic wand here: I show the way, you keep the wheel.", "✧ Pas de baguette magique ici : je montre le chemin, vous gardez le volant."),
        ("✧ I point, you press. Nothing runs behind your back.", "✧ Je montre, vous appuyez. Rien ne s'exécute dans votre dos."),
        ("✧ The wheel stays yours — I just lean over your shoulder.", "✧ Le volant reste à vous — je me contente de regarder par-dessus votre épaule."),
    ];
    assert(pool_view(v@) =~= fix_hands_off_pool());
    v
}

/// Closing line for `fix` when it pointed at something to mend — she guides, you act.
pub fn fix_hands_off(lang: Lang) -> (s: &'static str)
    ensures
        one_of(s@, fix_hands_off_pool(), lang),
{
    pick(&fix_hands_off_phrasings(), lang)
}

pub open spec fn daemon_started_pool() -> Seq<(Seq<char>, Seq<char>)> {
    seq![
        ("Daemon started — on watch, eyes open. Go about your day."@, "Démon démarré — de garde, l'œil ouvert. Vaquez tranquille."@),
        ("On duty. Off you go — I've got this."@, "En poste. Filez — je m'en occupe."@),
        ("Settled in for the watch. Sleep easy."@, "Installée pour la veille. Dormez tranquille."@),
    ]
}

fn daemon_started_phrasings() -> (v: Vec<(&'static str, &'static str)>)
    ensures
        pool_view(v@) == daemon_started_pool(),
        v@.len() == 3,
{
    let v = vec![
        ("Daemon started — on watch, eyes open. Go about your day.", "Démon démarré — de garde, l'œil ouvert. Vaquez tranquille."),
        ("On duty. Off you go — I've got this.", "En poste. Filez — je m'en occupe."),
        ("Settled in for the watch. Sleep easy.", "Installée pour la veille. Dormez tranquille."),
    ];
    assert(pool_view(v@) =~= daemon_started_pool());
    v
}

/// Said when the background watcher starts.
pub fn daemon_started(lang: Lang) -> (s: &'static str)
    ensures
        one_of(s@, daemon_started_pool(), lang),
{
    pick(&daemon_started_phrasings(), lang)
}

pub open spec fn daemon_stopped_pool() -> Seq<(Seq<char>, Seq<char>)> {
    seq![
        ("Daemon stopped. Call me at the slightest trouble."@, "Démon arrêté. Appelez-moi au moindre souci."@),
        ("Off duty. You know where to find me."@, "Repos. Vous savez où me trouver."@),
        ("Standing down. A word and I'm back."@, "Je me retire. Un mot et je reviens."@),
    ]
}

fn daemon_stopped_phrasings() -> (v: Vec<(&'static str, &'static str)>)
    ensures
        pool_view(v@) == daemon_stopped_pool(),
        v@.len() == 3,
{
    let v = vec![
        ("Daemon stopped. Call me at the slightest trouble.", "Démon arrêté. Appelez-moi au moindre souci."),
        ("Off duty. You know where to find me.", "Repos. Vous savez où me trouver."),
        ("Standing down. A word and I'm back.", "Je me retire. Un mot et je reviens."),
    ];
    assert(pool_view(v@) =~= daemon_stopped_pool());
    v
}

/// Said when the background watcher stops.
pub fn daemon_stopped(lang: Lang) -> (s: &'static str)
    ensures
        one_of(s@, daemon_stopped_pool(), lang),
{
    pick(&daemon_stopped_phrasings(), lang)
}

pub open spec fn daemon_restarted_pool() -> Seq<(Seq<char>, Seq<char>)> {
    seq![
        ("Daemon restarted — back on watch."@, "Démon redémarré — de nouveau de garde."@),
        ("Back on my feet, back on watch."@, "De nouveau sur pied, de nouveau de garde."@),
    ]
}

fn daemon_restarted_phrasings() -> (v: Vec<(&'static str, &'static str)>)
    ensures
        pool_view(v@) == daemon_restarted_pool(),
        v@.len() == 2,
{
    let v = vec![
        ("Daemon restarted — back on watch.", "Démon redémarré — de nouveau de garde."),
        ("Back on my feet, back on watch.", "De nouveau sur pied, de nouveau de garde."),
    ];
    assert(pool_view(v@) =~= daemon_restarted_pool());
    v
}

/// Said when the background watcher restarts.
pub fn daemon_restarted(lang: Lang) -> (s: &'static str)
    ensures
        one_of(s@, daemon_restarted_pool(), lang),
{
    pick(&daemon_restarted_phrasings(), lang)
}

pub open spec fn daemon_back_on_guard_pool() -> Seq<(Seq<char>, Seq<char>)> {
    seq![
        ("A `josephine daemon start` and I'm back on guard."@, "Un `josephine daemon start` et je reprends la garde."@),
        ("Say `josephine daemon start` whenever you'd like me watching again."@, "Dites `josephine daemon start` quand vous voudrez que je reprenne la veille."@),
    ]
}

fn daemon_back_on_guard_phrasings() -> (v: Vec<(&'static str, &'static str)>)
    ensures
        pool_view(v@) == daemon_back_on_guard_pool(),
        v@.len() == 2,
{
    let v = vec![
        ("A `josephine daemon start` and I'm back on guard.", "Un `josephine daemon start` et je reprends la garde."),
        ("Say `josephine daemon start` whenever you'd like me watching again.", "Dites `josephine daemon start` quand vous voudrez que je reprenne la veille."),
    ];
    assert(pool_view(v@) =~= daemon_back_on_guard_pool());
    v
}

/// How to bring the watcher back.
pub fn daemon_back_on_guard(lang: Lang) -> (s: &'static str)
    ensures
        one_of(s@, daemon_back_on_guard_pool(), lang),
{
    pick(&daemon_back_on_guard_phrasings(), lang)
}

pub open spec fn notify_test_body_pool() -> Seq<(Seq<char>, Seq<char>)> {
    seq![
        ("Just looking in on you — if you can read this, desktop notifications are working."@, "Je viens prendre de vos nouvelles — si vous lisez ceci, les notifications de bureau fonctionnent."@),
        ("A little wave from Joséphine — if you can see this, notifications are set."@, "Un petit coucou de Joséphine — si vous voyez ceci, les notifications sont en place."@),
        ("Testing, testing — and if this reached you, all's wired up."@, "Test, test — et si ceci vous parvient, tout est branché."@),
    ]
}

fn notify_test_body_phrasings() -> (v: Vec<(&'static str, &'static str)>)
    ensures
        pool_view(v@) == notify_test_body_pool(),
        v@.len() == 3,
{
    let v = vec![
        ("Just looking in on you — if you can read this, desktop notifications are working.", "Je viens prendre de vos nouvelles — si vous lisez ceci, les notifications de bureau fonctionnent."),
        ("A little wave from Joséphine — if you can see this, notifications are set.", "Un petit coucou de Joséphine — si vous voyez ceci, les notifications sont en place."),
        ("Testing, testing — and if this reached you, all's wired up.", "Test, test — et si ceci vous parvient, tout est branché."),
    ];
    assert(pool_view(v@) =~= notify_test_body_pool());
    v
}

/// The body of the test notification.
pub fn notify_test_body(lang: Lang) -> (s: &'static str)
    ensures
        one_of(s@, notify_test_body_pool(), lang),
{
    pick(&notify_test_body_phrasings(), lang)
}

pub open spec fn error_lead_pool() -> Seq<(Seq<char>, Seq<char>)> {
    seq![
        ("✦ Joséphine ran into a snag:"@, "✦ Joséphine a rencontré un souci :"@),
        ("✦ Joséphine tripped on something:"@, "✦ Joséphine a buté sur quelque chose :"@),
        ("✦ Something got in Joséphine's way:"@, "✦ Quelque chose a gêné Joséphine :"@),
    ]
}

fn error_lead_phrasings() -> (v: Vec<(&'static str, &'static str)>)
    ensures
        pool_view(v@) == error_lead_pool(),
        v@.len() == 3,
{
    let v = vec![
        ("✦ Joséphine ran into a snag:", "✦ Joséphine a rencontré un souci :"),
        ("✦ Joséphine tripped on something:", "✦ Joséphine a buté sur quelque chose :"),
        ("✦ Something got in Joséphine's way:", "✦ Quelque chose a gêné Joséphine :"),
    ];
    assert(pool_view(v@) =~= error_lead_pool());
    v
}

/// Lead-in for the top-level error banner; the underlying error is appended.
/// Kept gentle — a stumble, not a catastrophe.
pub fn error_lead(lang: Lang) -> (s: &'static str)
    ensures
        one_of(s@, error_lead_pool(), lang),
{
    pick(&error_lead_phrasings(), lang)
}

pub open spec fn history_calm_pool() -> Seq<(Seq<char>, Seq<char>)> {
    seq![
        ("A calm 24 hours. Nothing worth losing sleep over."@, "24 h tranquilles. Rien qui vaille de perdre le sommeil."@),
        ("Twenty-four quiet hours on watch."@, "Vingt-quatre heures de veille sans histoire."@),
        ("Nothing dramatic overnight — just the way we like it."@, "Rien de spectaculaire cette nuit — comme on aime."@),
    ]
}

fn history_calm_phrasings() -> (v: Vec<(&'static str, &'static str)>)
    ensures
        pool_view(v@) == history_calm_pool(),
        v@.len() == 3,
{
    let v = vec![
        ("A calm 24 hours. Nothing worth losing sleep over.", "24 h tranquilles. Rien qui vaille de perdre le sommeil."),
        ("Twenty-four quiet hours on watch.", "Vingt-quatre heures de veille sans histoire."),
        ("Nothing dramatic overnight — just the way we like it.", "Rien de spectaculaire cette nuit — comme on aime."),
    ];
    assert(pool_view(v@) =~= history_calm_pool());
    v
}

/// Opening line for `history` when the last 24 h were uneventful.
pub fn history_calm(lang: Lang) -> (s: &'static str)
    ensures
        one_of(s@, history_calm_pool(), lang),
{
    pick(&history_calm_phrasings(), lang)
}

pub open spec fn history_closing_pool() -> Seq<(Seq<char>, Seq<char>)> {
    seq![
        ("All of it noted, so you didn't have to."@, "Tout est noté, pour que vous n'ayez pas à le faire."@),
        ("Kept the log so you could sleep on it."@, "J'ai tenu le journal pour que vous puissiez dormir dessus."@),
        ("That's the last day, from where I sit."@, "Voilà la dernière journée, vue d'ici."@),
    ]
}

fn history_closing_phrasings() -> (v: Vec<(&'static str, &'static str)>)
    ensures
        pool_view(v@) == history_closing_pool(),
        v@.len() == 3,
{
    let v = vec![
        ("All of it noted, so you didn't have to.", "Tout est noté, pour que vous n'ayez pas à le faire."),
        ("Kept the log so you could sleep on it.", "J'ai tenu le journal pour que vous puissiez dormir dessus."),
        ("That's the last day, from where I sit.", "Voilà la dernière journée, vue d'ici."),
    ];
    assert(pool_view(v@) =~= history_closing_pool());
    v
}

/// Closing line for `history` after showing the events.
pub fn history_closing(lang: Lang) -> (s: &'static str)
    ensures
        one_of(s@, history_closing_pool(), lang),
{
    pick(&history_closing_phrasings(), lang)
}

/// The opening verdict for `josephine doctor`, by overall severity — the
/// diagnosis before the check-by-check exam.
pub fn doctor_verdict(worst: Severity, lang: Lang) -> (s: &'static str)
    ensures
        one_of(
            s@,
            match worst {
                Severity::Info => doctor_info_pool(),
                Severity::Attention => doctor_attention_pool(),
                Severity::Critique => doctor_critique_pool(),
            },
            lang,
        ),
{
    match worst {
        Severity::Info => pick(&doctor_info_phrasings(), lang),
        Severity::Attention => pick(&doctor_attention_phrasings(), lang),
        Severity::Critique => pick(&doctor_critique_phrasings(), lang),
    }
}

} // verus!
