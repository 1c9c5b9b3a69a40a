//! The background guardian's bookkeeping: what its pid file says about
//! whether it runs, what starting or stopping it may do, and the tail of its
//! log.
use vstd::prelude::*;

use crate::numfmt::{digits, digits_of, parse_u64, parse_u64_of};
use crate::text::{chars_of, join, lines, push_all, push_str, split_lines, string_of, trim, trim_chars, views};

verus! {

#[verifier::external_type_specification]
#[verifier::external_body]
pub struct ExSystemTime(std::time::SystemTime);

/// Whether the guardian runs.
#[derive(Debug, Clone)]
pub enum DaemonStatus {
    Running { pid: u32, started_at: Option<std::time::SystemTime> },
    Stopped,
}

/// A pid as the pid file holds it: its trimmed text as a `u32`.
pub open spec fn pid_of(content: Seq<char>) -> Option<u32> {
    match parse_u64_of(trim(content)) {
        Some(v) => if v <= u32::MAX {
            Some(v as u32)
        } else {
            None
        },
        None => None,
    }
}

/// Read a pid file's contents.
pub fn parse_pid(content: &str) -> (r: Option<u32>)
    ensures
        r == pid_of(content@),
{
    match parse_u64(&trim_chars(&chars_of(content))) {
        Some(v) => if v <= 4_294_967_295 {
            Some(v as u32)
        } else {
            None
        },
        None => None,
    }
}

/// The status the pid file and the process table give: running when the
/// recorded process is alive, stopped otherwise. The flag says whether the
/// pid file is stale (a pid whose process is gone) and should be removed.
pub fn status_from(pid: Option<u32>, alive: bool, started_at: Option<std::time::SystemTime>) -> (r: (
    DaemonStatus,
    bool,
))
    ensures
        match pid {
            Some(p) => if alive {
                (r.0 matches DaemonStatus::Running { pid: q, started_at: s } && q == p && s
                    == started_at) && !r.1
            } else {
                r.0 is Stopped && r.1
            },
            None => r.0 is Stopped && !r.1,
        },
{
    match pid {
        Some(p) => if alive {
            (DaemonStatus::Running { pid: p, started_at }, false)
        } else {
            (DaemonStatus::Stopped, true)
        },
        None => (DaemonStatus::Stopped, false),
    }
}

/// Why a start is refused: the guardian already runs.
pub fn start_refusal(status: &DaemonStatus) -> (r: Option<String>)
    ensures
        match status {
            DaemonStatus::Running { pid, .. } => r matches Some(m) && m@
                == "Joséphine veille déjà sur votre machine (PID "@ + digits(*pid as nat) + ")"@,
            DaemonStatus::Stopped => r is None,
        },
{
    match status {
        DaemonStatus::Running { pid, .. } => {
            let mut m: Vec<char> = Vec::new();
            push_str(&mut m, "Joséphine veille déjà sur votre machine (PID ");
            push_all(&mut m, &digits_of(*pid as u64));
            push_str(&mut m, ")");
            Some(string_of(m.as_slice()))
        },
        DaemonStatus::Stopped => None,
    }
}

/// The process a stop signals, or why there is none.
pub fn stop_target(status: &DaemonStatus) -> (r: Result<u32, String>)
    ensures
        match status {
            DaemonStatus::Running { pid, .. } => r == Ok::<u32, String>(*pid),
            DaemonStatus::Stopped => r matches Err(m) && m@ == "Joséphine ne veille pas actuellement"@,
        },
{
    match status {
        DaemonStatus::Running { pid, .. } => Ok(*pid),
        DaemonStatus::Stopped => Err("Joséphine ne veille pas actuellement".to_string()),
    }
}

/// What the log shows before the guardian has written anything.
pub fn no_logs_yet() -> (r: &'static str)
    ensures
        r@ == "(aucun log pour l'instant)"@,
{
    "(aucun log pour l'instant)"
}

/// The last `n` lines of a log (all of them when it has fewer), joined by
/// newlines.
pub fn tail_lines(content: &str, n: usize) -> (r: String)
    ensures
        r@ == join(
            lines(content@).skip(
                if lines(content@).len() > n {
                    lines(content@).len() - n
                } else {
                    0
                },
            ),
            "\n"@,
        ),
{
    let all = split_lines(&chars_of(content));
    let ghost ls = views(all@);
    let start = if all.len() > n {
        all.len() - n
    } else {
        0
    };
    let mut out: Vec<char> = Vec::new();
    let mut i = start;
    while i < all.len()
        invariant
            start <= i <= all.len(),
            ls == views(all@),
            ls == lines(content@),
            out@ == join(ls.subrange(start as int, i as int), "\n"@),
        decreases all.len() - i,
    {
        let ghost before = out@;
        if i > start {
            push_str(&mut out, "\n");
        }
        push_all(&mut out, &all[i]);
        proof {
            let part = ls.subrange(start as int, i + 1);
            assert(part.drop_last() =~= ls.subrange(start as int, i as int));
            assert(part.last() == all@[i as int]@);
            if i == start {
                assert(out@ =~= part[0]);
            } else {
                assert(out@ =~= before + "\n"@ + all@[i as int]@);
            }
        }
        i = i + 1;
    }
    assert(ls.subrange(start as int, all.len() as int) =~= ls.skip(start as int));
    string_of(out.as_slice())
}

} // verus!
