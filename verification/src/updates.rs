//! Which family of distribution the system belongs to, and how many updates
//! the package managers report as pending.

use vstd::prelude::*;
use crate::system::Packages;
use crate::text::{
    chars_of, contains_str, has_infix, has_prefix, lines, parse_usize_chars, split_lines,
    split_once, split_once_str, starts_with_str, to_lowercase, unicode_lower, usize_of,
};

verus! {

/// Distribution families whose package managers the update check knows.
#[derive(Debug, Clone, Copy, PartialEq, Eq, Structural)]
pub enum Distro {
    Arch,
    Debian,
    Unknown,
}

/// The family that the text of `/etc/os-release` names, once lower-cased.
pub open spec fn distro_of(lower_text: Seq<char>) -> Distro {
    if has_infix(lower_text, "arch"@) || has_infix(lower_text, "id_like=arch"@) {
        Distro::Arch
    } else if has_infix(lower_text, "debian"@) || has_infix(lower_text, "ubuntu"@) {
        Distro::Debian
    } else {
        Distro::Unknown
    }
}

impl Distro {
    /// Classifies the contents of `/etc/os-release` (case-insensitively).
    pub fn from_os_release(text: &str) -> (r: Distro)
        ensures
            r == distro_of(unicode_lower(text@)),
    {
        let low = to_lowercase(text);
        Distro::from_lowered(low.as_str())
    }

    /// Classifies the lower-cased contents of `/etc/os-release`.
    pub fn from_lowered(lower_text: &str) -> (r: Distro)
        ensures
            r == distro_of(lower_text@),
    {
        let v = chars_of(lower_text);
        if contains_str(&v, "arch") || contains_str(&v, "id_like=arch") {
            Distro::Arch
        } else if contains_str(&v, "debian") || contains_str(&v, "ubuntu") {
            Distro::Debian
        } else {
            Distro::Unknown
        }
    }
}

/// `lines().count()`: the number of lines of a command's output.
pub open spec fn line_count(t: Seq<char>) -> nat {
    lines(t).len()
}

/// How many of the lines start with `p`.
pub open spec fn count_prefixed(ls: Seq<Seq<char>>, p: Seq<char>) -> nat
    decreases ls.len(),
{
    if ls.len() == 0 {
        0
    } else {
        count_prefixed(ls.drop_last(), p) + if has_prefix(ls.last(), p) {
            1nat
        } else {
            0nat
        }
    }
}

/// The number that `apt-check` writes first, before any `;` (0 when that
/// field is not a number).
pub open spec fn apt_check_count(report: Seq<char>) -> nat {
    let field = match split_once(report, seq![';']) {
        Some(pr) => pr.0,
        None => report,
    };
    match usize_of(field) {
        Some(n) => n as nat,
        None => 0,
    }
}

/// A line count of an output that may be missing.
pub open spec fn lines_or_zero(out: Option<&str>) -> nat {
    match out {
        Some(t) => line_count(t@),
        None => 0,
    }
}

/// The updates that the checks report: `checkupdates` (or, when it gave
/// nothing, `pacman -Qu`), `flatpak remote-ls --updates`, and either
/// `apt-check` or, without it, the `Inst ` lines of `apt-get -s upgrade`.
pub open spec fn pending_total(
    checkupdates: Option<&str>,
    pacman: Option<&str>,
    flatpak: Option<&str>,
    apt_check: Option<&str>,
    apt_simulation: Option<&str>,
) -> nat {
    let arch = if checkupdates is Some {
        lines_or_zero(checkupdates)
    } else {
        lines_or_zero(pacman)
    };
    let apt = match apt_check {
        Some(e) => apt_check_count(e@),
        None => match apt_simulation {
            Some(o) => count_prefixed(lines(o@), "Inst "@),
            None => 0,
        },
    };
    arch + lines_or_zero(flatpak) + apt
}

fn line_count_of(t: &str) -> (r: usize)
    ensures
        r == line_count(t@),
{
    let v = chars_of(t);
    let ls = split_lines(&v);
    ls.len()
}

fn count_inst_lines(t: &str) -> (r: usize)
    ensures
        r == count_prefixed(lines(t@), "Inst "@),
{
    let v = chars_of(t);
    let ls = split_lines(&v);
    let ghost all = lines(t@);
    let mut n: usize = 0;
    let mut i: usize = 0;
    while i < ls.len()
        invariant
            i <= ls@.len(),
            ls@.len() == all.len(),
            forall|k: int| 0 <= k < ls@.len() ==> #[trigger] ls@[k]@ == all[k],
            n == count_prefixed(all.subrange(0, i as int), "Inst "@),
            n <= i,
        decreases ls@.len() - i,
    {
        let hit = starts_with_str(&ls[i], "Inst ");
        proof {
            assert(all.subrange(0, i + 1).drop_last() =~= all.subrange(0, i as int));
            assert(ls@[i as int]@ == all[i as int]);
        }
        if hit {
            n = n + 1;
        }
        i = i + 1;
    }
    assert(all.subrange(0, i as int) =~= all);
    n
}

fn apt_check_count_of(report: &str) -> (r: usize)
    ensures
        r == apt_check_count(report@),
{
    let v = chars_of(report);
    let ghost semi: Seq<char> = seq![';'];
    proof {
        reveal_strlit(";");
        assert(";"@ =~= semi);
    }
    let n = match split_once_str(&v, ";") {
        Some(pr) => parse_usize_chars(&pr.0),
        None => parse_usize_chars(&v),
    };
    match n {
        Some(k) => k,
        None => 0,
    }
}

fn add_opt(a: Option<usize>, b: usize) -> (r: Option<usize>)
    ensures
        match a {
            Some(x) => r == if x + b <= usize::MAX {
                Some((x + b) as usize)
            } else {
                None::<usize>
            },
            None => r is None,
        },
{
    match a {
        Some(x) => x.checked_add(b),
        None => None,
    }
}

/// Adds up the pending updates from the outputs of the checks that ran:
/// `checkupdates` and `pacman -Qu` (the latter consulted only without the
/// former), `flatpak remote-ls --updates`, and `apt-check` (its standard
/// error) or, where that tool is absent, `apt-get -s upgrade`. A missing
/// output counts nothing. `None` when the sum does not fit in a `usize`.
pub fn pending_update_count(
    checkupdates: Option<&str>,
    pacman: Option<&str>,
    flatpak: Option<&str>,
    apt_check: Option<&str>,
    apt_simulation: Option<&str>,
) -> (r: Option<usize>)
    ensures
        r == if pending_total(checkupdates, pacman, flatpak, apt_check, apt_simulation) <= usize::MAX {
            Some(pending_total(checkupdates, pacman, flatpak, apt_check, apt_simulation) as usize)
        } else {
            None::<usize>
        },
{
    let arch: usize = match checkupdates {
        Some(t) => line_count_of(t),
        None => match pacman {
            Some(t) => line_count_of(t),
            None => 0,
        },
    };
    let flat: usize = match flatpak {
        Some(t) => line_count_of(t),
        None => 0,
    };
    let apt: usize = match apt_check {
        Some(e) => apt_check_count_of(e),
        None => match apt_simulation {
            Some(o) => count_inst_lines(o),
            None => 0,
        },
    };
    let total = add_opt(add_opt(Some(arch), flat), apt);
    total
}

/// What a fresh count of pending updates changes: the count is kept on
/// the package summary, when there is one; `true` when the user is to be
/// told of it, that is when there are updates and the count differs from
/// the last one kept.
pub fn record_update_count(packages: &mut Option<Packages>, n: usize) -> (announce: bool)
    ensures
        announce == (n > 0 && match *old(packages) {
            Some(p) => p.pending_updates != Some(n),
            None => true,
        }),
        match *old(packages) {
            Some(p) => *final(packages) == Some(Packages { pending_updates: Some(n), ..p }),
            None => *final(packages) is None,
        },
{
    let prev: Option<usize> = match packages {
        Some(p) => p.pending_updates,
        None => None,
    };
    let changed = match prev {
        Some(k) => k != n,
        None => true,
    };
    match packages {
        Some(p) => {
            p.pending_updates = Some(n);
        },
        None => {},
    }
    n > 0 && changed
}

/// What the user is told on asking for an update check.
#[derive(Debug, Clone, Copy, PartialEq, Eq, Structural)]
pub enum UpdateStatus {
    /// The last check found nothing pending.
    UpToDate,
    /// The last check found this many updates.
    Pending(usize),
    /// No check has finished yet.
    Checking,
}

/// The answer to an update-check request, from the last count kept.
pub fn update_status(packages: &Option<Packages>) -> (r: UpdateStatus)
    ensures
        r == match *packages {
            Some(p) => match p.pending_updates {
                Some(0) => UpdateStatus::UpToDate,
                Some(n) => UpdateStatus::Pending(n),
                None => UpdateStatus::Checking,
            },
            None => UpdateStatus::Checking,
        },
{
    match packages {
        Some(p) => match p.pending_updates {
            Some(0) => UpdateStatus::UpToDate,
            Some(n) => UpdateStatus::Pending(n),
            None => UpdateStatus::Checking,
        },
        None => UpdateStatus::Checking,
    }
}

} // verus!
