//! The terminal deck's programs: locating them on `$PATH`, and the shell
//! that the terminal runs.

use vstd::prelude::*;
use crate::multiboot::path_join;
use crate::text::{chars_of, string_of};

verus! {

/// The directories of a `$PATH` value: split at every `:` (empty entries
/// stay, as `std::env::split_paths` leaves them on Unix).
pub open spec fn path_entries(p: Seq<char>) -> Seq<Seq<char>>
    decreases p.len(),
{
    if p.len() == 0 {
        seq![Seq::<char>::empty()]
    } else {
        let rest = path_entries(p.drop_first());
        if p[0] == ':' {
            seq![Seq::<char>::empty()] + rest
        } else {
            rest.update(0, seq![p[0]] + rest[0])
        }
    }
}

proof fn lemma_path_entries_nonempty(p: Seq<char>)
    ensures
        path_entries(p).len() >= 1,
    decreases p.len(),
{
    if p.len() > 0 {
        lemma_path_entries_nonempty(p.drop_first());
    }
}

fn split_path_var(v: &[char], from: usize) -> (r: Vec<Vec<char>>)
    requires
        from <= v@.len(),
    ensures
        r@.len() == path_entries(v@.subrange(from as int, v@.len() as int)).len(),
        forall|i: int| 0 <= i < r@.len() ==> #[trigger] r@[i]@ == path_entries(v@.subrange(from as int, v@.len() as int))[i],
    decreases v@.len() - from,
{
    let ghost t = v@.subrange(from as int, v@.len() as int);
    if from == v.len() {
        let mut r: Vec<Vec<char>> = Vec::new();
        r.push(Vec::new());
        assert(t =~= Seq::<char>::empty());
        return r;
    }
    let mut rest = split_path_var(v, from + 1);
    proof {
        assert(t.drop_first() =~= v@.subrange(from + 1, v@.len() as int));
        lemma_path_entries_nonempty(t.drop_first());
    }
    if v[from] == ':' {
        let mut r: Vec<Vec<char>> = Vec::new();
        r.push(Vec::new());
        let ghost rv = rest@;
        r.append(&mut rest);
        proof {
            let want = path_entries(t);
            assert(want == seq![Seq::<char>::empty()] + path_entries(t.drop_first()));
            assert forall|i: int| 0 <= i < r@.len() implies #[trigger] r@[i]@ == want[i] by {
                if i > 0 {
                    assert(r@[i] == rv[i - 1]);
                }
            }
        }
        r
    } else {
        let mut first: Vec<char> = Vec::new();
        first.push(v[from]);
        let mut head = rest.remove(0);
        first.append(&mut head);
        let ghost rv = rest@;
        let mut r: Vec<Vec<char>> = Vec::new();
        r.push(first);
        r.append(&mut rest);
        proof {
            let want = path_entries(t);
            assert forall|i: int| 0 <= i < r@.len() implies #[trigger] r@[i]@ == want[i] by {
                if i > 0 {
                    assert(r@[i] == rv[i - 1]);
                }
            }
        }
        r
    }
}

/// The places `bin` is looked for, in order: each `$PATH` directory joined
/// with the program's name.
pub fn path_candidates(bin: &str, path_var: &str) -> (r: Vec<String>)
    ensures
        r@.len() == path_entries(path_var@).len(),
        forall|i: int| 0 <= i < r@.len() ==> #[trigger] r@[i]@ == path_join(path_entries(path_var@)[i], bin@),
{
    let v = chars_of(path_var);
    let dirs = split_path_var(&v, 0);
    assert(v@.subrange(0, v@.len() as int) =~= v@);
    let mut out: Vec<String> = Vec::new();
    let mut i: usize = 0;
    while i < dirs.len()
        invariant
            i <= dirs@.len(),
            v@ == path_var@,
            dirs@.len() == path_entries(path_var@).len(),
            forall|k: int| 0 <= k < dirs@.len() ==> #[trigger] dirs@[k]@ == path_entries(path_var@)[k],
            out@.len() == i,
            forall|k: int| 0 <= k < i ==> #[trigger] out@[k]@ == path_join(path_entries(path_var@)[k], bin@),
        decreases dirs@.len() - i,
    {
        let d = string_of(&dirs[i]);
        let c = crate::multiboot::join(d.as_str(), bin);
        out.push(c);
        i = i + 1;
    }
    out
}

/// A regular file with an execute bit set (for owner, group or others).
pub fn is_executable_mode(is_file: bool, mode: u32) -> (r: bool)
    ensures
        r == (is_file && mode & 0o111u32 != 0),
{
    is_file && mode & 0o111u32 != 0
}

/// The shell the terminal runs: `$SHELL` when it is set and not empty,
/// else `/bin/bash` when it exists, else `/bin/sh`.
pub fn shell_program(shell_var: Option<String>, bash_exists: bool) -> (r: String)
    ensures
        match shell_var {
            Some(s) => s@.len() > 0 ==> r == s,
            None => true,
        },
        !(shell_var matches Some(s) && s@.len() > 0) ==> r@ == (if bash_exists {
            "/bin/bash"@
        } else {
            "/bin/sh"@
        }),
{
    if let Some(s) = shell_var {
        if chars_of(s.as_str()).len() > 0 {
            return s;
        }
    }
    if bash_exists {
        String::from_str("/bin/bash")
    } else {
        String::from_str("/bin/sh")
    }
}

/// The terminal type announced to the programs in the deck.
pub fn pty_term() -> (r: &'static str)
    ensures
        r@ == "xterm-256color"@,
{
    "xterm-256color"
}

} // verus!
