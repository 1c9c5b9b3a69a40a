//! Where a check reads the machine from.
//!
//! Checks read two kinds of thing: files the kernel exposes (`/proc`, `/sys`,
//! `/etc`) and the output of a handful of system commands (`df`, `ping`,
//! `journalctl`). Both are behind a seam so that a test can point a check at
//! a fixture tree and canned command output.
use vstd::prelude::*;

use crate::text::{chars_of, eq_str, push_all, push_str, string_of, strs_view};

verus! {

/// The filesystem a check reads system files from: the running machine, or
/// a fixture tree under which every absolute lookup is re-based.
#[derive(Debug, Clone)]
pub struct Sysfs {
    /// `None` is the real filesystem; `Some(dir)` a fixture tree.
    root: Option<String>,
}

impl Default for Sysfs {
    fn default() -> (s: Self)
        ensures
            s.root_view() is None,
    {
        Sysfs { root: None }
    }
}

/// `s` without its leading `/` characters (`str::trim_start_matches('/')`).
pub open spec fn trim_slashes(s: Seq<char>) -> Seq<char>
    decreases s.len(),
{
    if s.len() > 0 && s[0] == '/' {
        trim_slashes(s.drop_first())
    } else {
        s
    }
}

/// `Path::join` of a relative path onto a directory: a separator between
/// them unless the directory is empty or already ends with one.
pub open spec fn join_path(dir: Seq<char>, rel: Seq<char>) -> Seq<char> {
    if dir.len() == 0 || dir.last() == '/' {
        dir + rel
    } else {
        dir + "/"@ + rel
    }
}

impl Sysfs {
    pub closed spec fn root_view(&self) -> Option<Seq<char>> {
        match self.root {
            Some(r) => Some(r@),
            None => None,
        }
    }

    /// The running machine.
    pub fn system() -> (s: Self)
        ensures
            s.root_view() is None,
    {
        Sysfs { root: None }
    }

    /// A fixture tree standing in for the machine.
    pub fn rooted(root: &str) -> (s: Self)
        ensures
            s.root_view() == Some(root@),
    {
        Sysfs { root: Some(root.to_string()) }
    }

    /// Resolve an absolute system path under this root: unchanged for the
    /// running machine, joined (without its leading `/`) under a fixture
    /// tree's directory.
    pub fn path(&self, absolute: &str) -> (p: String)
        ensures
            p@ == match self.root_view() {
                None => absolute@,
                Some(dir) => join_path(dir, trim_slashes(absolute@)),
            },
    {
        match &self.root {
            None => absolute.to_string(),
            Some(root) => {
                let a = chars_of(absolute);
                let mut k: usize = 0;
                assert(a@.skip(0) =~= a@);
                while k < a.len() && a[k] == '/'
                    invariant
                        k <= a.len(),
                        trim_slashes(a@.skip(k as int)) == trim_slashes(a@),
                    decreases a.len() - k,
                {
                    assert(a@.skip(k as int).drop_first() =~= a@.skip(k + 1));
                    k = k + 1;
                }
                let dir = chars_of(root.as_str());
                let mut out: Vec<char> = Vec::new();
                push_all(&mut out, &dir);
                if dir.len() > 0 && dir[dir.len() - 1] != '/' {
                    push_str(&mut out, "/");
                }
                let ghost before = out@;
                let mut i = k;
                while i < a.len()
                    invariant
                        k <= i <= a.len(),
                        out@ == before + a@.subrange(k as int, i as int),
                    decreases a.len() - i,
                {
                    out.push(a[i]);
                    assert(out@ =~= before + a@.subrange(k as int, i + 1));
                    i = i + 1;
                }
                proof {
                    assert(a@.subrange(k as int, a.len() as int) =~= a@.skip(k as int));
                    assert(trim_slashes(a@.skip(k as int)) == a@.skip(k as int));
                }
                string_of(out.as_slice())
            },
        }
    }
}

/// An output as plain characters.
pub open spec fn opt_text(o: Option<String>) -> Option<Seq<char>> {
    match o {
        Some(s) => Some(s@),
        None => None,
    }
}

/// The system commands a check shells out to: the standard output of a
/// command that succeeded, or `None` for one that is missing, fails, or exits
/// non-zero, which every check treats as "cannot tell" rather than an error.
pub trait Commands: Send + Sync {
    /// Whether `out` is an output these commands may give for `program` run
    /// with `args`. What a machine answers varies from one run to the next,
    /// so this is a relation, not a function; canned answers do not vary.
    /// Commands that do not say otherwise may give any output.
    open spec fn may_answer(&self, program: Seq<char>, args: Seq<Seq<char>>, out: Option<Seq<char>>) -> bool {
        true
    }

    /// Run `program` with `args`.
    fn output(&self, program: &str, args: &[&str]) -> (r: Option<String>)
        ensures
            self.may_answer(program@, strs_view(args@), opt_text(r)),
    ;
}

/// Canned command output, keyed by program name — the test counterpart of
/// the real commands.
#[derive(Debug, Clone)]
pub struct StubCommands {
    responses: Vec<(String, String)>,
}

impl Default for StubCommands {
    fn default() -> (s: Self)
        ensures
            s.answers() == Seq::<(Seq<char>, Seq<char>)>::empty(),
    {
        let s = StubCommands { responses: Vec::new() };
        assert(s.answers() =~= Seq::<(Seq<char>, Seq<char>)>::empty());
        s
    }
}

/// The answer a list of canned outputs gives a program: that of its first
/// entry.
pub open spec fn answer_in(answers: Seq<(Seq<char>, Seq<char>)>, program: Seq<char>) -> Option<
    Seq<char>,
>
    decreases answers.len(),
{
    if answers.len() == 0 {
        None
    } else if answers[0].0 == program {
        Some(answers[0].1)
    } else {
        answer_in(answers.drop_first(), program)
    }
}

impl StubCommands {
    /// The canned outputs, in the order they were given.
    pub closed spec fn answers(&self) -> Seq<(Seq<char>, Seq<char>)> {
        Seq::new(self.responses@.len(), |i: int| (self.responses@[i].0@, self.responses@[i].1@))
    }

    /// No canned output at all: every program is missing.
    pub fn new() -> (s: Self)
        ensures
            s.answers() == Seq::<(Seq<char>, Seq<char>)>::empty(),
    {
        Self::default()
    }

    /// Answer `program` with `stdout`. A program with no answer yields
    /// `None`, standing in for a command that is not installed.
    pub fn with(self, program: &str, stdout: &str) -> (s: Self)
        ensures
            s.answers() == self.answers().push((program@, stdout@)),
    {
        let mut responses = self.responses;
        responses.push((program.to_string(), stdout.to_string()));
        let s = StubCommands { responses };
        assert(s.answers() =~= self.answers().push((program@, stdout@)));
        s
    }
}

impl Commands for StubCommands {
    /// A canned program answers with its first output, whatever the
    /// arguments; any other program is missing.
    open spec fn may_answer(&self, program: Seq<char>, args: Seq<Seq<char>>, out: Option<Seq<char>>) -> bool {
        out == answer_in(self.answers(), program)
    }

    fn output(&self, program: &str, args: &[&str]) -> (r: Option<String>)
        ensures
            match answer_in(self.answers(), program@) {
                Some(out) => r matches Some(s) && s@ == out,
                None => r is None,
            },
    {
        let p = chars_of(program);
        let ghost all = self.answers();
        let mut i: usize = 0;
        assert(all.skip(0) =~= all);
        while i < self.responses.len()
            invariant
                i <= self.responses.len(),
                all == self.answers(),
                p@ == program@,
                answer_in(all.skip(i as int), program@) == answer_in(all, program@),
            decreases self.responses.len() - i,
        {
            proof {
                assert(all.skip(i as int)[0] == all[i as int]);
                assert(all.skip(i as int).drop_first() =~= all.skip(i + 1));
            }
            if eq_str(&p, self.responses[i].0.as_str()) {
                let out = chars_of(self.responses[i].1.as_str());
                return Some(string_of(out.as_slice()));
            }
            i = i + 1;
        }
        None
    }
}

} // verus!
