//! Pending package updates, from whichever of dnf, apt and pacman is present.
use vstd::prelude::*;

use crate::check::{count_milli, count_to_milli, metric, metric_view, texts, CheckResult, ResultView};
use crate::checks::systemd::bullets;
use crate::config::UpdatesCheckConfig;
use crate::lang::{t, Lang};
use crate::numfmt::{digits, digits_of};
use crate::source::{opt_text, Commands};
use crate::text::{
    chars_of, contains, contains_str, lines, prefix_len, push_all, push_str, split_lines,
    split_words, starts_with, starts_with_str, string_of, strs_view, trim, trim_chars, views,
    words,
};

verus! {

pub struct UpdatesCheck {
    pub config: UpdatesCheckConfig,
}

impl UpdatesCheck {
    pub fn new(config: UpdatesCheckConfig) -> (r: Self)
        ensures
            r.config == config,
    {
        UpdatesCheck { config }
    }
}

/// The package managers Joséphine knows how to ask.
#[derive(Debug, Clone, Copy, PartialEq, Eq, Structural)]
pub enum Manager {
    Dnf,
    Apt,
    Pacman,
}

pub open spec fn manager_label(m: Manager) -> Seq<char> {
    match m {
        Manager::Dnf => "dnf"@,
        Manager::Apt => "apt"@,
        Manager::Pacman => "pacman"@,
    }
}

impl Manager {
    pub fn label(self) -> (s: &'static str)
        ensures
            s@ == manager_label(self),
    {
        match self {
            Manager::Dnf => "dnf",
            Manager::Apt => "apt",
            Manager::Pacman => "pacman",
        }
    }
}

/// `bin --version` gave an output.
pub open spec fn runs<C: Commands + ?Sized>(commands: &C, bin: Seq<char>) -> bool {
    exists|o: Seq<char>| commands.may_answer(bin, seq!["--version"@], Some(o))
}

/// `bin --version` gave none: the program is missing or fails.
pub open spec fn missing<C: Commands + ?Sized>(commands: &C, bin: Seq<char>) -> bool {
    commands.may_answer(bin, seq!["--version"@], None)
}

/// Whether `bin --version` runs.
pub fn command_exists<C: Commands + ?Sized>(commands: &C, bin: &str) -> (b: bool)
    ensures
        b ==> runs(commands, bin@),
        !b ==> missing(commands, bin@),
{
    let args = vec!["--version"];
    assert(strs_view(args@) =~= seq!["--version"@]);
    let reply = commands.output(bin, args.as_slice());
    proof {
        if reply is Some {
            assert(commands.may_answer(bin@, seq!["--version"@], Some(reply->0@)));
        }
    }
    reply.is_some()
}

/// The first of dnf, apt and pacman that is installed.
pub fn detect_manager<C: Commands + ?Sized>(commands: &C) -> (r: Option<Manager>)
    ensures
        r == Some(Manager::Dnf) ==> runs(commands, "dnf"@),
        r == Some(Manager::Apt) ==> missing(commands, "dnf"@) && runs(commands, "apt"@),
        r == Some(Manager::Pacman) ==> missing(commands, "dnf"@) && missing(commands, "apt"@)
            && runs(commands, "pacman"@),
        r is None ==> missing(commands, "dnf"@) && missing(commands, "apt"@) && missing(
            commands,
            "pacman"@,
        ),
{
    if command_exists(commands, "dnf") {
        Some(Manager::Dnf)
    } else if command_exists(commands, "apt") {
        Some(Manager::Apt)
    } else if command_exists(commands, "pacman") {
        Some(Manager::Pacman)
    } else {
        None
    }
}

/// Package names in `dnf -q check-update` output: the first column of each
/// line with at least three columns whose first holds a `.`, up to the
/// "Obsoleting Packages" section.
pub open spec fn dnf_names(ls: Seq<Seq<char>>) -> Seq<Seq<char>>
    decreases ls.len(),
{
    if ls.len() == 0 {
        seq![]
    } else {
        let t = trim(ls[0]);
        if t.len() == 0 {
            dnf_names(ls.drop_first())
        } else if starts_with(t, "Obsoleting"@) {
            seq![]
        } else {
            let w = words(t);
            if w.len() >= 3 && contains(w[0], "."@) {
                seq![w[0]] + dnf_names(ls.drop_first())
            } else {
                dnf_names(ls.drop_first())
            }
        }
    }
}

pub fn parse_dnf(stdout: &str) -> (r: Vec<String>)
    ensures
        texts(r@) == dnf_names(lines(stdout@)),
{
    let chars = chars_of(stdout);
    let ls = split_lines(&chars);
    let ghost all = views(ls@);
    let mut names: Vec<String> = Vec::new();
    let mut i: usize = 0;
    proof {
        assert(all.skip(0) =~= all);
    }
    while i < ls.len()
        invariant
            i <= ls@.len(),
            all == views(ls@),
            all == lines(stdout@),
            texts(names@) + dnf_names(all.skip(i as int)) == dnf_names(all),
        decreases ls@.len() - i,
    {
        proof {
            assert(all.skip(i as int)[0] == ls@[i as int]@);
            assert(all.skip(i as int).drop_first() =~= all.skip(i + 1));
        }
        let trimmed = trim_chars(&ls[i]);
        if trimmed.len() == 0 {
            i = i + 1;
            continue;
        }
        if starts_with_str(&trimmed, "Obsoleting") {
            assert(texts(names@) + dnf_names(all.skip(i as int)) =~= texts(names@));
            return names;
        }
        let cols = split_words(&trimmed);
        if cols.len() >= 3 && contains_str(&cols[0], ".") {
            proof {
                assert(views(cols@)[0] == cols@[0]@);
            }
            let ghost before = names@;
            names.push(string_of(cols[0].as_slice()));
            proof {
                assert(texts(names@) =~= texts(before).push(cols@[0]@));
                assert(texts(names@) + dnf_names(all.skip(i + 1)) =~= texts(before) + (seq![
                    cols@[0]@,
                ] + dnf_names(all.skip(i + 1))));
            }
        } else {
            proof {
                if cols.len() >= 3 {
                    assert(views(cols@)[0] == cols@[0]@);
                }
            }
        }
        i = i + 1;
    }
    proof {
        assert(all.skip(i as int).len() == 0);
        assert(texts(names@) + dnf_names(all.skip(i as int)) =~= texts(names@));
    }
    names
}

pub open spec fn not_slash_pred() -> spec_fn(char) -> bool {
    |c: char| c != '/'
}

/// The text before the first `/` (all of it when there is none).
pub open spec fn before_slash(l: Seq<char>) -> Seq<char> {
    l.take(prefix_len(l, not_slash_pred()) as int)
}

/// Package names in `apt list --upgradable` output: on each line marked
/// `[upgradable`, the trimmed text before the first `/`.
pub open spec fn apt_names(ls: Seq<Seq<char>>) -> Seq<Seq<char>>
    decreases ls.len(),
{
    if ls.len() == 0 {
        seq![]
    } else {
        let rest = apt_names(ls.drop_last());
        let l = ls.last();
        if contains(l, "[upgradable"@) {
            rest.push(trim(before_slash(l)))
        } else {
            rest
        }
    }
}

fn text_before_slash(l: &Vec<char>) -> (r: Vec<char>)
    ensures
        r@ == before_slash(l@),
{
    let mut j: usize = 0;
    while j < l.len() && l[j] != '/'
        invariant
            j <= l.len(),
            forall|k: int| 0 <= k < j ==> #[trigger] l@[k] != '/',
        decreases l.len() - j,
    {
        j = j + 1;
    }
    proof {
        assert forall|k: int| 0 <= k < j implies (not_slash_pred())(#[trigger] l@[k]) by {}
        crate::text::lemma_prefix_len_at(l@, not_slash_pred(), j as int);
    }
    let mut r: Vec<char> = Vec::new();
    let mut k: usize = 0;
    while k < j
        invariant
            k <= j <= l.len(),
            r@ == l@.take(k as int),
        decreases j - k,
    {
        r.push(l[k]);
        assert(r@ =~= l@.take(k + 1));
        k = k + 1;
    }
    r
}

pub fn parse_apt(stdout: &str) -> (r: Vec<String>)
    ensures
        texts(r@) == apt_names(lines(stdout@)),
{
    let chars = chars_of(stdout);
    let ls = split_lines(&chars);
    let ghost all = views(ls@);
    let mut names: Vec<String> = Vec::new();
    let mut i: usize = 0;
    while i < ls.len()
        invariant
            i <= ls@.len(),
            all == views(ls@),
            all == lines(stdout@),
            texts(names@) == apt_names(all.take(i as int)),
        decreases ls@.len() - i,
    {
        proof {
            assert(all.take(i + 1).drop_last() =~= all.take(i as int));
            assert(all.take(i + 1).last() == ls@[i as int]@);
        }
        if contains_str(&ls[i], "[upgradable") {
            let head = text_before_slash(&ls[i]);
            let name = trim_chars(&head);
            let ghost before = names@;
            names.push(string_of(name.as_slice()));
            assert(texts(names@) =~= texts(before).push(name@));
        }
        i = i + 1;
    }
    assert(all.take(ls@.len() as int) =~= all);
    names
}

/// Package names in `checkupdates` / `pacman -Qu` output: the first word of
/// each line that is not blank.
pub open spec fn pacman_names(ls: Seq<Seq<char>>) -> Seq<Seq<char>>
    decreases ls.len(),
{
    if ls.len() == 0 {
        seq![]
    } else {
        let rest = pacman_names(ls.drop_last());
        let l = ls.last();
        if trim(l).len() > 0 && words(l).len() > 0 {
            rest.push(words(l)[0])
        } else {
            rest
        }
    }
}

pub fn parse_pacman(stdout: &str) -> (r: Vec<String>)
    ensures
        texts(r@) == pacman_names(lines(stdout@)),
{
    let chars = chars_of(stdout);
    let ls = split_lines(&chars);
    let ghost all = views(ls@);
    let mut names: Vec<String> = Vec::new();
    let mut i: usize = 0;
    while i < ls.len()
        invariant
            i <= ls@.len(),
            all == views(ls@),
            all == lines(stdout@),
            texts(names@) == pacman_names(all.take(i as int)),
        decreases ls@.len() - i,
    {
        proof {
            assert(all.take(i + 1).drop_last() =~= all.take(i as int));
            assert(all.take(i + 1).last() == ls@[i as int]@);
        }
        let trimmed = trim_chars(&ls[i]);
        if trimmed.len() > 0 {
            let w = split_words(&ls[i]);
            if w.len() > 0 {
                proof {
                    assert(views(w@)[0] == w@[0]@);
                }
                let ghost before = names@;
                names.push(string_of(w[0].as_slice()));
                assert(texts(names@) =~= texts(before).push(w@[0]@));
            }
        }
        i = i + 1;
    }
    assert(all.take(ls@.len() as int) =~= all);
    names
}

pub open spec fn shown_names(names: Seq<Seq<char>>) -> Seq<Seq<char>> {
    if names.len() > 10 {
        names.take(10)
    } else {
        names
    }
}

pub open spec fn updates_result_view(
    manager: Option<Manager>,
    names: Seq<Seq<char>>,
    config: UpdatesCheckConfig,
    lang: Lang,
) -> ResultView {
    let count = names.len();
    let n = digits(count);
    let shown = shown_names(names);
    ResultView {
        check: "updates"@,
        metrics: seq![
            metric_view(
                "updates_available"@,
                count_milli(count) as int,
                "updates"@,
                Some(config.warning),
                Some(config.critical),
            ),
        ],
        details: seq![
            match (manager, lang) {
                (Some(m), Lang::En) => "Manager: "@ + manager_label(m),
                (Some(m), Lang::Fr) => "Gestionnaire : "@ + manager_label(m),
                (None, Lang::En) => "No recognised package manager (apt/dnf/pacman)."@,
                (None, Lang::Fr) => "Aucun gestionnaire de paquets reconnu (apt/dnf/pacman)."@,
            },
            match lang {
                Lang::En => "Available updates: "@ + n,
                Lang::Fr => "Mises à jour disponibles : "@ + n,
            },
        ] + if count > 0 {
            seq![
                match lang {
                    Lang::En => "Packages concerned:"@,
                    Lang::Fr => "Paquets concernés :"@,
                },
            ] + bullets(shown)
        } else {
            seq![]
        },
        top: shown,
        status: Some(
            match manager {
                None => match lang {
                    Lang::En => "Unknown manager"@,
                    Lang::Fr => "Gestionnaire inconnu"@,
                },
                Some(_) => if count == 0 {
                    match lang {
                        Lang::En => "Up to date"@,
                        Lang::Fr => "À jour"@,
                    }
                } else if count == 1 {
                    match lang {
                        Lang::En => "1 update available"@,
                        Lang::Fr => "1 mise à jour disponible"@,
                    }
                } else {
                    match lang {
                        Lang::En => n + " updates available"@,
                        Lang::Fr => n + " mises à jour disponibles"@,
                    }
                },
            },
        ),
    }
}

fn lead_then(lead: &str, tail: &Vec<char>) -> (s: String)
    ensures
        s@ == lead@ + tail@,
{
    let mut out: Vec<char> = Vec::new();
    push_str(&mut out, lead);
    push_all(&mut out, tail);
    string_of(out.as_slice())
}

/// The command that lists a manager's pending updates: `dnf -q
/// check-update`, `apt list --upgradable`, and for pacman `checkupdates`
/// (safe, and needs no root) when it is installed, else `pacman -Qu`.
pub open spec fn listing_command(m: Manager, checkupdates: bool) -> (Seq<char>, Seq<Seq<char>>) {
    match m {
        Manager::Dnf => ("dnf"@, seq!["-q"@, "check-update"@]),
        Manager::Apt => ("apt"@, seq!["list"@, "--upgradable"@]),
        Manager::Pacman => if checkupdates {
            ("checkupdates"@, seq![])
        } else {
            ("pacman"@, seq!["-Qu"@])
        },
    }
}

pub fn listing_for(m: Manager, checkupdates: bool) -> (r: (&'static str, Vec<&'static str>))
    ensures
        (r.0@, strs_view(r.1@)) == listing_command(m, checkupdates),
{
    let r = match m {
        Manager::Dnf => ("dnf", vec!["-q", "check-update"]),
        Manager::Apt => ("apt", vec!["list", "--upgradable"]),
        Manager::Pacman => if checkupdates {
            ("checkupdates", Vec::new())
        } else {
            ("pacman", vec!["-Qu"])
        },
    };
    assert(strs_view(r.1@) =~= listing_command(m, checkupdates).1);
    r
}

/// The packages a manager's listing names.
pub open spec fn listed_updates(m: Manager, stdout: Seq<char>) -> Seq<Seq<char>> {
    match m {
        Manager::Dnf => dnf_names(lines(stdout)),
        Manager::Apt => apt_names(lines(stdout)),
        Manager::Pacman => pacman_names(lines(stdout)),
    }
}

/// Read a manager's listing with that manager's parser.
pub fn parse_listing(m: Manager, stdout: &str) -> (r: Vec<String>)
    ensures
        texts(r@) == listed_updates(m, stdout@),
{
    match m {
        Manager::Dnf => parse_dnf(stdout),
        Manager::Apt => parse_apt(stdout),
        Manager::Pacman => parse_pacman(stdout),
    }
}

/// The report for the manager found and the packages it lists.
pub fn build_result(
    manager: Option<Manager>,
    names: &Vec<String>,
    config: &UpdatesCheckConfig,
    lang: Lang,
) -> (r: CheckResult)
    ensures
        r@ == updates_result_view(manager, texts(names@), *config, lang),
{
    let ghost all = texts(names@);
    let count = names.len();
    let n = digits_of(count as u64);
    let mut details: Vec<String> = Vec::new();
    match manager {
        Some(m) => {
            let label = chars_of(m.label());
            details.push(lead_then(t(lang, "Manager: ", "Gestionnaire : "), &label));
        },
        None => {
            details.push(
                t(
                    lang,
                    "No recognised package manager (apt/dnf/pacman).",
                    "Aucun gestionnaire de paquets reconnu (apt/dnf/pacman).",
                ).to_string(),
            );
        },
    }
    details.push(lead_then(t(lang, "Available updates: ", "Mises à jour disponibles : "), &n));
    let ghost head = texts(details@);
    let limit = if count > 10 {
        10
    } else {
        count
    };
    let mut shown: Vec<String> = Vec::new();
    if count > 0 {
        details.push(t(lang, "Packages concerned:", "Paquets concernés :").to_string());
    }
    let ghost head2 = texts(details@);
    let mut i: usize = 0;
    while i < limit
        invariant
            i <= limit <= count == names@.len(),
            limit == shown_names(all).len(),
            all == texts(names@),
            texts(shown@) == shown_names(all).take(i as int),
            texts(details@) == head2 + bullets(shown_names(all)).take(i as int),
        decreases limit - i,
    {
        proof {
            assert(shown_names(all)[i as int] == all[i as int]);
        }
        let c = names[i].clone();
        let ghost before_shown = shown@;
        let ghost before_details = details@;
        let mut line: Vec<char> = Vec::new();
        push_str(&mut line, "  • ");
        let u = chars_of(c.as_str());
        push_all(&mut line, &u);
        details.push(string_of(line.as_slice()));
        shown.push(c);
        assert(texts(shown@) =~= texts(before_shown).push(all[i as int]));
        assert(texts(shown@) =~= shown_names(all).take(i + 1));
        assert(texts(details@) =~= texts(before_details).push("  • "@ + all[i as int]));
        assert(bullets(shown_names(all)).take(i + 1) =~= bullets(shown_names(all)).take(
            i as int,
        ).push("  • "@ + all[i as int]));
        i = i + 1;
    }
    assert(shown_names(all).take(limit as int) =~= shown_names(all));
    assert(bullets(shown_names(all)).take(limit as int) =~= bullets(shown_names(all)));
    let status = match manager {
        None => t(lang, "Unknown manager", "Gestionnaire inconnu").to_string(),
        Some(_) => if count == 0 {
            t(lang, "Up to date", "À jour").to_string()
        } else if count == 1 {
            t(lang, "1 update available", "1 mise à jour disponible").to_string()
        } else {
            let mut out: Vec<char> = Vec::new();
            push_all(&mut out, &n);
            push_str(&mut out, t(lang, " updates available", " mises à jour disponibles"));
            string_of(out.as_slice())
        },
    };
    let value = count_to_milli(count as u64);
    let metrics = vec![
        metric("updates_available", value, "updates", Some(config.warning), Some(config.critical)),
    ];
    let r = CheckResult {
        check_name: "updates".to_string(),
        metrics,
        details,
        top_processes: shown,
        status_value: Some(status),
    };
    assert(r@.details =~= updates_result_view(manager, all, *config, lang).details);
    assert(r@.metrics =~= updates_result_view(manager, all, *config, lang).metrics);
    r
}

} // verus!
