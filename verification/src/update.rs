//! Self-update: whether a newer Joséphine exists on GitHub Releases, which
//! package fits the current install, how to install it, and how to check a
//! download against its published checksum.
//!
//! Nothing here touches the network: the release payload is fetched elsewhere
//! and handed in. Joséphine only reaches the network on an explicit
//! `josephine update`, never in the background.
use vstd::prelude::*;

use sha2::Digest;

use crate::source::{opt_text, Commands};
use crate::text::{
    chars_of, contains, contains_str, ends_with, ends_with_str, eq_str,
    lower, lowercase_chars, split_words, starts_with, starts_with_str,
    string_of, strs_view, views, words,
};

verus! {

/// `owner/repo` published on GitHub Releases.
pub const REPO: &'static str = "systm-d/josephine";

/// GitHub REST endpoint for the latest published release.
pub const LATEST_RELEASE_URL: &'static str = "https://api.github.com/repos/systm-d/josephine/releases/latest";

/// The version this library was built as.
pub fn current_version() -> (v: &'static str)
    ensures
        v@ == "0.1.0"@,
{
    "0.1.0"
}

// --- Releases -------------------------------------------------------------------

/// A published release, distilled from the GitHub API payload.
#[derive(Debug, Clone)]
pub struct ReleaseInfo {
    pub tag: String,
    pub version: String,
    pub html_url: String,
    pub notes: String,
    pub assets: Vec<Asset>,
}

/// A downloadable file attached to a release.
#[derive(Debug, Clone)]
pub struct Asset {
    pub name: String,
    pub download_url: String,
    pub size: u64,
}

/// `s` without its leading `v` characters (`trim_start_matches('v')`).
pub open spec fn trim_vs(s: Seq<char>) -> Seq<char>
    decreases s.len(),
{
    if s.len() > 0 && s[0] == 'v' {
        trim_vs(s.drop_first())
    } else {
        s
    }
}

/// A release from the fields of the API payload: the version is the tag
/// without its leading `v`.
pub fn release_from(tag: String, html_url: String, notes: String, assets: Vec<Asset>) -> (r:
    ReleaseInfo)
    ensures
        r.tag@ == tag@,
        r.version@ == trim_vs(tag@),
        r.html_url@ == html_url@,
        r.notes@ == notes@,
        r.assets@ == assets@,
{
    let t = chars_of(tag.as_str());
    let mut k: usize = 0;
    assert(t@.skip(0) =~= t@);
    while k < t.len() && t[k] == 'v'
        invariant
            k <= t.len(),
            trim_vs(t@.skip(k as int)) == trim_vs(t@),
        decreases t.len() - k,
    {
        assert(t@.skip(k as int).drop_first() =~= t@.skip(k + 1));
        k = k + 1;
    }
    let mut v: Vec<char> = Vec::new();
    let mut i = k;
    while i < t.len()
        invariant
            k <= i <= t.len(),
            v@ == t@.subrange(k as int, i as int),
        decreases t.len() - i,
    {
        v.push(t[i]);
        assert(v@ =~= t@.subrange(k as int, i + 1));
        i = i + 1;
    }
    assert(v@ =~= t@.skip(k as int));
    ReleaseInfo { tag, version: string_of(v.as_slice()), html_url, notes, assets }
}

pub open spec fn asset_names(v: Seq<Asset>) -> Seq<Seq<char>> {
    Seq::new(v.len(), |i: int| v[i].name@)
}

/// The first name from index `i` on that ends with `suffix`.
pub open spec fn first_ending(names: Seq<Seq<char>>, suffix: Seq<char>, i: int) -> Option<int>
    decreases names.len() - i,
{
    if i < 0 || i >= names.len() {
        None
    } else if ends_with(names[i], suffix) {
        Some(i)
    } else {
        first_ending(names, suffix, i + 1)
    }
}

/// The first name from index `i` on that is `name`.
pub open spec fn first_named(names: Seq<Seq<char>>, name: Seq<char>, i: int) -> Option<int>
    decreases names.len() - i,
{
    if i < 0 || i >= names.len() {
        None
    } else if names[i] == name {
        Some(i)
    } else {
        first_named(names, name, i + 1)
    }
}

impl ReleaseInfo {
    /// The release asset matching a channel's package suffix, if any: the
    /// first whose name ends with it.
    pub fn asset_for(&self, channel: InstallChannel) -> (r: Option<&Asset>)
        ensures
            match suffix_of(channel) {
                None => r is None,
                Some(sfx) => match first_ending(asset_names(self.assets@), sfx, 0) {
                    None => r is None,
                    Some(i) => r == Some(&self.assets@[i]),
                },
            },
    {
        let sfx = match channel.package_suffix() {
            Some(s) => s,
            None => {
                return None;
            },
        };
        let ghost names = asset_names(self.assets@);
        let mut i: usize = 0;
        while i < self.assets.len()
            invariant
                i <= self.assets.len(),
                names == asset_names(self.assets@),
                suffix_of(channel) == Some(sfx@),
                first_ending(names, sfx@, i as int) == first_ending(names, sfx@, 0),
            decreases self.assets.len() - i,
        {
            if ends_with_str(&chars_of(self.assets[i].name.as_str()), sfx) {
                return Some(&self.assets[i]);
            }
            i = i + 1;
        }
        None
    }

    /// The published `.sha256` companion of an asset, if one was uploaded:
    /// the first asset named like it with `.sha256` appended.
    pub fn checksum_for(&self, asset: &Asset) -> (r: Option<&Asset>)
        ensures
            match first_named(asset_names(self.assets@), asset.name@ + ".sha256"@, 0) {
                None => r is None,
                Some(i) => r == Some(&self.assets@[i]),
            },
    {
        let mut want: Vec<char> = chars_of(asset.name.as_str());
        crate::text::push_str(&mut want, ".sha256");
        let want_s = string_of(want.as_slice());
        let ghost names = asset_names(self.assets@);
        let mut i: usize = 0;
        while i < self.assets.len()
            invariant
                i <= self.assets.len(),
                names == asset_names(self.assets@),
                want_s@ == asset.name@ + ".sha256"@,
                first_named(names, want_s@, i as int) == first_named(names, want_s@, 0),
            decreases self.assets.len() - i,
        {
            if eq_str(&chars_of(self.assets[i].name.as_str()), want_s.as_str()) {
                return Some(&self.assets[i]);
            }
            i = i + 1;
        }
        None
    }
}

// --- Version comparison -------------------------------------------------------

/// Where the local build sits relative to the latest published release.
#[derive(Debug, Clone, PartialEq, Eq)]
pub enum UpdateStatus {
    /// Running the newest published version.
    UpToDate,
    /// A newer version is available (carries that version string).
    Available(String),
    /// Local build is newer than anything published (a dev / pre-release build).
    Ahead,
}

/// What an [`UpdateStatus`] says, as plain values.
pub enum StatusView {
    UpToDate,
    Available(Seq<char>),
    Ahead,
}

impl View for UpdateStatus {
    type V = StatusView;

    open spec fn view(&self) -> StatusView {
        match self {
            UpdateStatus::UpToDate => StatusView::UpToDate,
            UpdateStatus::Available(v) => StatusView::Available(v@),
            UpdateStatus::Ahead => StatusView::Ahead,
        }
    }
}

/// Whether the `semver` crate reads `text` as a version (the grammar of
/// semver.org, as that crate implements it).
pub uninterp spec fn is_semver(text: Seq<char>) -> bool;

/// How the `semver` crate orders the versions `a` and `b` read as: negative,
/// zero or positive as `a` is lower than, equal to or higher than `b`.
pub uninterp spec fn semver_order(a: Seq<char>, b: Seq<char>) -> int;

#[verifier::external_type_specification]
#[verifier::external_body]
pub struct ExVersion(semver::Version);

/// A version string together with the `semver` crate's reading of it.
pub struct SemVersion {
    text: String,
    parsed: semver::Version,
}

impl View for SemVersion {
    type V = Seq<char>;

    closed spec fn view(&self) -> Seq<char> {
        self.text@
    }
}

/// Calls `semver::Version::parse`. Which texts it accepts is left to the name
/// `is_semver`; the value it reads is kept beside the text it came from.
#[verifier::external_body]
fn parse_semver(text: &str) -> (r: Option<SemVersion>)
    ensures
        r is Some <==> is_semver(text@),
        r matches Some(v) ==> v@ == text@,
{
    match semver::Version::parse(text) {
        Ok(parsed) => Some(SemVersion { text: text.to_string(), parsed }),
        Err(_) => None,
    }
}

/// Calls `Ord::cmp` on two versions read by the `semver` crate (derived
/// there: major, minor, patch, pre-release, then build metadata). The outcome
/// is left to the name `semver_order` of the two texts; one text read twice
/// compares equal to itself.
#[verifier::external_body]
fn order_of(a: &SemVersion, b: &SemVersion) -> (r: i8)
    ensures
        r == semver_order(a@, b@),
        -1 <= r <= 1,
        a@ == b@ ==> r == 0,
{
    match a.parsed.cmp(&b.parsed) {
        std::cmp::Ordering::Less => -1,
        std::cmp::Ordering::Equal => 0,
        std::cmp::Ordering::Greater => 1,
    }
}

/// The status for how the latest release orders against the local build
/// (`None` when either is not a version): newer is available, equal is up to
/// date, older means the local build is ahead. Without an order, only the
/// very same text is up to date.
pub open spec fn status_of(order: Option<int>, current: Seq<char>, latest: Seq<char>) -> StatusView {
    match order {
        Some(o) => if o > 0 {
            StatusView::Available(latest)
        } else if o == 0 {
            StatusView::UpToDate
        } else {
            StatusView::Ahead
        },
        None => if current == latest {
            StatusView::UpToDate
        } else {
            StatusView::Available(latest)
        },
    }
}

/// The status for a given order of the latest release against the local
/// build (`None` when either side is not a version).
pub fn status_for(order: Option<i8>, current: &str, latest: &str) -> (r: UpdateStatus)
    ensures
        r@ == status_of(
            match order {
                Some(o) => Some(o as int),
                None => None,
            },
            current@,
            latest@,
        ),
{
    match order {
        Some(o) => {
            if o > 0 {
                UpdateStatus::Available(latest.to_string())
            } else if o == 0 {
                UpdateStatus::UpToDate
            } else {
                UpdateStatus::Ahead
            }
        },
        None => {
            if eq_str(&chars_of(current), latest) {
                UpdateStatus::UpToDate
            } else {
                UpdateStatus::Available(latest.to_string())
            }
        },
    }
}

/// Compare two version strings by semantic-versioning rules, falling back
/// to an exact string comparison if either side is not valid semver (so
/// only an exact match is up to date then). The same version is always up
/// to date with itself.
pub fn compare(current: &str, latest: &str) -> (r: UpdateStatus)
    ensures
        r@ == status_of(
            if is_semver(current@) && is_semver(latest@) {
                Some(semver_order(latest@, current@))
            } else {
                None
            },
            current@,
            latest@,
        ),
        current@ == latest@ ==> r@ == StatusView::UpToDate,
{
    let cur = parse_semver(current);
    let new = parse_semver(latest);
    let order = match (&cur, &new) {
        (Some(c), Some(n)) => Some(order_of(n, c)),
        _ => None,
    };
    status_for(order, current, latest)
}

// --- Install channel ------------------------------------------------------------

/// How this binary was most likely installed; it decides how to update.
#[derive(Debug, Clone, Copy, PartialEq, Eq, Structural)]
pub enum InstallChannel {
    Deb,
    Rpm,
    Pacman,
    Cargo,
    Homebrew,
    Tarball,
    Unknown,
}

/// The release-asset suffix to download for a channel, when the update is
/// applied by installing a package.
pub open spec fn suffix_of(c: InstallChannel) -> Option<Seq<char>> {
    match c {
        InstallChannel::Deb => Some(".deb"@),
        InstallChannel::Rpm => Some(".rpm"@),
        InstallChannel::Tarball => Some(".tar.gz"@),
        _ => None,
    }
}

impl InstallChannel {
    fn package_suffix(self) -> (r: Option<&'static str>)
        ensures
            match suffix_of(self) {
                Some(s) => r matches Some(x) && x@ == s,
                None => r is None,
            },
    {
        match self {
            InstallChannel::Deb => Some(".deb"),
            InstallChannel::Rpm => Some(".rpm"),
            InstallChannel::Tarball => Some(".tar.gz"),
            _ => None,
        }
    }
}

/// The channel a path alone tells: Cargo's and Homebrew's install trees are
/// unambiguous.
pub open spec fn channel_of_path(path: Seq<char>) -> Option<InstallChannel> {
    if contains(path, "/.cargo/"@) {
        Some(InstallChannel::Cargo)
    } else if contains(path, "linuxbrew"@) || contains(path, "/Cellar/"@) {
        Some(InstallChannel::Homebrew)
    } else {
        None
    }
}

/// The path-only part of channel detection.
pub fn channel_from_path(path: &str) -> (r: Option<InstallChannel>)
    ensures
        r == channel_of_path(path@),
{
    let p = chars_of(path);
    if contains_str(&p, "/.cargo/") {
        Some(InstallChannel::Cargo)
    } else if contains_str(&p, "linuxbrew") || contains_str(&p, "/Cellar/") {
        Some(InstallChannel::Homebrew)
    } else {
        None
    }
}

/// The channel for a path, given the first package database (`dpkg`, `rpm`,
/// `pacman`, asked in that order) that owns the file: the path's own channel
/// first, then the owner's, then a manual copy when the file sits in a
/// system location, and unknown otherwise.
pub open spec fn channel_for(path: Seq<char>, owner: Option<InstallChannel>) -> InstallChannel {
    match channel_of_path(path) {
        Some(c) => c,
        None => match owner {
            Some(o) => o,
            None => if starts_with(path, "/usr/"@) || starts_with(path, "/opt/"@) {
                InstallChannel::Tarball
            } else {
                InstallChannel::Unknown
            },
        },
    }
}

/// The package database `bin`, asked with `flag` about `exe`, answered.
pub open spec fn claims<C: Commands + ?Sized>(
    commands: &C,
    bin: Seq<char>,
    flag: Seq<char>,
    exe: Seq<char>,
) -> bool {
    exists|o: Seq<char>| commands.may_answer(bin, seq![flag, exe], Some(o))
}

/// The package database `bin`, asked with `flag` about `exe`, gave nothing.
pub open spec fn disclaims<C: Commands + ?Sized>(
    commands: &C,
    bin: Seq<char>,
    flag: Seq<char>,
    exe: Seq<char>,
) -> bool {
    commands.may_answer(bin, seq![flag, exe], None)
}

/// The owner of `exe` as the package databases report it when asked in
/// turn: the first of `dpkg -S`, `rpm -qf` and `pacman -Qo` to answer.
pub open spec fn owner_reported<C: Commands + ?Sized>(
    commands: &C,
    exe: Seq<char>,
    owner: Option<InstallChannel>,
) -> bool {
    match owner {
        Some(InstallChannel::Deb) => claims(commands, "dpkg"@, "-S"@, exe),
        Some(InstallChannel::Rpm) => disclaims(commands, "dpkg"@, "-S"@, exe) && claims(
            commands,
            "rpm"@,
            "-qf"@,
            exe,
        ),
        Some(InstallChannel::Pacman) => disclaims(commands, "dpkg"@, "-S"@, exe) && disclaims(
            commands,
            "rpm"@,
            "-qf"@,
            exe,
        ) && claims(commands, "pacman"@, "-Qo"@, exe),
        None => disclaims(commands, "dpkg"@, "-S"@, exe) && disclaims(commands, "rpm"@, "-qf"@, exe)
            && disclaims(commands, "pacman"@, "-Qo"@, exe),
        Some(_) => false,
    }
}

/// Whether a package database claims the file (its query succeeds).
fn package_owns<C: Commands + ?Sized>(commands: &C, bin: &str, flag: &str, exe: &str) -> (b: bool)
    ensures
        b ==> claims(commands, bin@, flag@, exe@),
        !b ==> disclaims(commands, bin@, flag@, exe@),
{
    let args = vec![flag, exe];
    assert(strs_view(args@) =~= seq![flag@, exe@]);
    let reply = commands.output(bin, args.as_slice());
    proof {
        if reply is Some {
            assert(commands.may_answer(bin@, seq![flag@, exe@], Some(reply->0@)));
        }
    }
    reply.is_some()
}

/// Best-effort detection of how the binary at `exe` was installed: from its
/// path, else by asking `dpkg -S`, `rpm -qf` and `pacman -Qo` in turn.
pub fn detect_channel_for<C: Commands + ?Sized>(commands: &C, exe: &str) -> (r: InstallChannel)
    ensures
        channel_of_path(exe@) is Some ==> r == channel_for(exe@, None),
        channel_of_path(exe@) is None ==> exists|owner: Option<InstallChannel>|
            owner_reported(commands, exe@, owner) && r == channel_for(exe@, owner),
{
    if let Some(c) = channel_from_path(exe) {
        return c;
    }
    let owner = if package_owns(commands, "dpkg", "-S", exe) {
        Some(InstallChannel::Deb)
    } else if package_owns(commands, "rpm", "-qf", exe) {
        Some(InstallChannel::Rpm)
    } else if package_owns(commands, "pacman", "-Qo", exe) {
        Some(InstallChannel::Pacman)
    } else {
        None
    };
    assert(owner_reported(commands, exe@, owner));
    match owner {
        Some(o) => {
            assert(channel_for(exe@, owner) == o);
            o
        },
        None => {
            let p = chars_of(exe);
            let r = if starts_with_str(&p, "/usr/") || starts_with_str(&p, "/opt/") {
                InstallChannel::Tarball
            } else {
                InstallChannel::Unknown
            };
            assert(channel_for(exe@, owner) == r);
            r
        },
    }
}

// --- Install plan ---------------------------------------------------------------

/// What to do once the channel is known and a package may be on disk.
#[derive(Debug, Clone, PartialEq, Eq)]
pub enum InstallPlan {
    /// Run this argv to install; the caller prepends `sudo` when `sudo` is true.
    Run { command: Vec<String>, sudo: bool },
    /// A foreign package manager is not driven: show the user the command.
    Manual(String),
}

/// What an [`InstallPlan`] says, as plain values.
pub enum PlanView {
    Run(Seq<Seq<char>>, bool),
    Manual(Seq<char>),
}

impl View for InstallPlan {
    type V = PlanView;

    open spec fn view(&self) -> PlanView {
        match self {
            InstallPlan::Run { command, sudo } => PlanView::Run(
                crate::check::texts(command@),
                *sudo,
            ),
            InstallPlan::Manual(m) => PlanView::Manual(m@),
        }
    }
}

pub open spec fn plan_of(channel: InstallChannel, package: Seq<char>) -> PlanView {
    match channel {
        InstallChannel::Deb => PlanView::Run(seq!["apt"@, "install"@, package], true),
        InstallChannel::Rpm => PlanView::Run(seq!["dnf"@, "install"@, package], true),
        InstallChannel::Pacman => PlanView::Manual(
            "Sur Arch, la mise à jour passe par l'AUR : `yay -S josephine` (ou l'assistant AUR de votre choix)."@,
        ),
        InstallChannel::Homebrew => PlanView::Manual("Via Homebrew : `brew upgrade josephine`."@),
        InstallChannel::Cargo => PlanView::Manual(
            "Via cargo : `cargo install --git https://github.com/systm-d/josephine josephine`."@,
        ),
        _ => PlanView::Manual(
            "Récupérez la dernière archive sur https://github.com/systm-d/josephine/releases/latest et remplacez votre binaire."@,
        ),
    }
}

/// How to install `package` (a path) for the detected channel: through the
/// system package manager for `.deb` and `.rpm`, as a command to show the
/// user otherwise.
pub fn install_plan(channel: InstallChannel, package: &str) -> (r: InstallPlan)
    ensures
        r@ == plan_of(channel, package@),
{
    match channel {
        InstallChannel::Deb => {
            let command = vec!["apt".to_string(), "install".to_string(), package.to_string()];
            let r = InstallPlan::Run { command, sudo: true };
            assert(crate::check::texts(command@) =~= seq!["apt"@, "install"@, package@]);
            r
        },
        InstallChannel::Rpm => {
            let command = vec!["dnf".to_string(), "install".to_string(), package.to_string()];
            let r = InstallPlan::Run { command, sudo: true };
            assert(crate::check::texts(command@) =~= seq!["dnf"@, "install"@, package@]);
            r
        },
        InstallChannel::Pacman => InstallPlan::Manual(
            "Sur Arch, la mise à jour passe par l'AUR : `yay -S josephine` (ou l'assistant AUR de votre choix).".to_string(),
        ),
        InstallChannel::Homebrew => InstallPlan::Manual(
            "Via Homebrew : `brew upgrade josephine`.".to_string(),
        ),
        InstallChannel::Cargo => InstallPlan::Manual(
            "Via cargo : `cargo install --git https://github.com/systm-d/josephine josephine`.".to_string(),
        ),
        _ => InstallPlan::Manual(
            "Récupérez la dernière archive sur https://github.com/systm-d/josephine/releases/latest et remplacez votre binaire.".to_string(),
        ),
    }
}

// --- Checksum -------------------------------------------------------------------

/// The SHA-256 digest of some bytes (FIPS 180-4).
pub uninterp spec fn sha256(data: Seq<u8>) -> Seq<u8>;

/// Calls `sha2::Sha256::digest`. The digest is left to the name `sha256`;
/// it is the algorithm's fixed 32 bytes.
#[verifier::external_body]
fn sha256_digest(data: &[u8]) -> (r: Vec<u8>)
    ensures
        r@ == sha256(data@),
        r@.len() == 32,
{
    sha2::Sha256::digest(data).to_vec()
}

pub open spec fn hex_digit(n: nat) -> char {
    if n < 10 {
        (48 + n) as char
    } else {
        (87 + n) as char
    }
}

/// Bytes as lowercase hexadecimal, two digits each (`{:02x}`).
pub open spec fn hex_lower(bytes: Seq<u8>) -> Seq<char> {
    Seq::new(
        2 * bytes.len(),
        |i: int|
            if i % 2 == 0 {
                hex_digit((bytes[i / 2] / 16) as nat)
            } else {
                hex_digit((bytes[i / 2] % 16) as nat)
            },
    )
}

fn hex_char(n: u8) -> (c: char)
    requires
        n < 16,
    ensures
        c == hex_digit(n as nat),
{
    if n < 10 {
        (48 + n) as char
    } else {
        (87 + n) as char
    }
}

/// Bytes as lowercase hexadecimal.
pub fn hex_of(bytes: &[u8]) -> (s: String)
    ensures
        s@ == hex_lower(bytes@),
{
    let mut out: Vec<char> = Vec::new();
    let mut i: usize = 0;
    while i < bytes.len()
        invariant
            i <= bytes.len(),
            out@ == hex_lower(bytes@).take(2 * i),
        decreases bytes.len() - i,
    {
        let b = bytes[i];
        out.push(hex_char(b / 16));
        out.push(hex_char(b % 16));
        assert(out@ =~= hex_lower(bytes@).take(2 * (i + 1))) by {
            assert forall|k: int| 0 <= k < 2 * (i + 1) implies out@[k] == hex_lower(bytes@)[k] by {
                if k >= 2 * i {
                    assert(k / 2 == i);
                }
            }
        }
        i = i + 1;
    }
    assert(out@ =~= hex_lower(bytes@));
    string_of(out.as_slice())
}

/// The lowercase hexadecimal SHA-256 of some bytes (64 characters).
pub fn sha256_hex_of(data: &[u8]) -> (s: String)
    ensures
        s@ == hex_lower(sha256(data@)),
        s@.len() == 64,
{
    let d = sha256_digest(data);
    hex_of(d.as_slice())
}

/// The digest of a `sha256sum`-style line (`<hash>  <file>`): its first
/// field, lowercased.
pub fn parse_sha256_line(text: &str) -> (r: Option<String>)
    ensures
        words(text@).len() == 0 ==> r is None,
        words(text@).len() > 0 ==> (r matches Some(s) && s@ == lower(words(text@)[0])),
{
    let w = split_words(&chars_of(text));
    if w.len() == 0 {
        return None;
    }
    proof {
        assert(views(w@)[0] == w@[0]@);
    }
    Some(string_of(lowercase_chars(&w[0]).as_slice()))
}

} // verus!
