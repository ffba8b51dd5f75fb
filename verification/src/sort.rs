//! Stable insertion sort of items keyed by sequences of code units,
//! compared lexicographically. The orders used by the panels (names, or
//! tuples of flags, numbers and names) are all expressed as such keys.

use vstd::prelude::*;

verus! {

/// Lexicographic "strictly less" on key sequences; a proper prefix is smaller.
pub open spec fn seq_lt(a: Seq<u32>, b: Seq<u32>) -> bool
    decreases a.len(),
{
    if b.len() == 0 {
        false
    } else if a.len() == 0 {
        true
    } else if a[0] != b[0] {
        a[0] < b[0]
    } else {
        seq_lt(a.drop_first(), b.drop_first())
    }
}

pub proof fn lemma_seq_lt_irreflexive(a: Seq<u32>)
    ensures
        !seq_lt(a, a),
    decreases a.len(),
{
    if a.len() > 0 {
        lemma_seq_lt_irreflexive(a.drop_first());
    }
}

pub proof fn lemma_seq_lt_asym_total(a: Seq<u32>, b: Seq<u32>)
    ensures
        seq_lt(a, b) ==> !seq_lt(b, a),
        a != b ==> seq_lt(a, b) || seq_lt(b, a),
    decreases a.len(),
{
    if a.len() > 0 && b.len() > 0 && a[0] == b[0] {
        lemma_seq_lt_asym_total(a.drop_first(), b.drop_first());
        if a != b {
            assert(a.drop_first() != b.drop_first()) by {
                if a.drop_first() == b.drop_first() {
                    assert(a =~= seq![a[0]] + a.drop_first());
                    assert(b =~= seq![b[0]] + b.drop_first());
                }
            }
        }
    }
    if a.len() == 0 && b.len() == 0 {
        assert(a =~= b);
    }
}

pub proof fn lemma_seq_lt_transitive(a: Seq<u32>, b: Seq<u32>, c: Seq<u32>)
    requires
        seq_lt(a, b),
        seq_lt(b, c),
    ensures
        seq_lt(a, c),
    decreases a.len(),
{
    if a.len() > 0 && b.len() > 0 && c.len() > 0 && a[0] == b[0] && b[0] == c[0] {
        lemma_seq_lt_transitive(a.drop_first(), b.drop_first(), c.drop_first());
    }
}

/// `!seq_lt(b, a)`, i.e. `a` is not after `b`.
pub open spec fn seq_le(a: Seq<u32>, b: Seq<u32>) -> bool {
    !seq_lt(b, a)
}

pub proof fn lemma_le_lt_transitive(a: Seq<u32>, b: Seq<u32>, c: Seq<u32>)
    requires
        seq_le(a, b),
        seq_lt(b, c),
    ensures
        seq_lt(a, c),
{
    lemma_seq_lt_asym_total(a, b);
    if a != b {
        lemma_seq_lt_transitive(a, b, c);
    }
}

/// Lexicographic comparison of two keys.
pub fn key_lt(a: &[u32], b: &[u32]) -> (r: bool)
    ensures
        r == seq_lt(a@, b@),
{
    let mut i: usize = 0;
    assert(a@.skip(0) =~= a@);
    assert(b@.skip(0) =~= b@);
    while i < a.len() && i < b.len() && a[i] == b[i]
        invariant
            i <= a.len(),
            i <= b.len(),
            seq_lt(a@, b@) == seq_lt(a@.skip(i as int), b@.skip(i as int)),
        decreases a.len() - i,
    {
        assert(a@.skip(i as int).drop_first() =~= a@.skip(i + 1));
        assert(b@.skip(i as int).drop_first() =~= b@.skip(i + 1));
        i = i + 1;
    }
    if i == b.len() {
        assert(b@.skip(i as int).len() == 0);
        false
    } else if i == a.len() {
        true
    } else {
        assert(a@.skip(i as int)[0] == a@[i as int]);
        assert(b@.skip(i as int)[0] == b@[i as int]);
        a[i] < b[i]
    }
}

/// `perm` is a permutation of `0..n`.
pub open spec fn is_permutation(perm: Seq<int>, n: int) -> bool {
    &&& perm.len() == n
    &&& forall|i: int| 0 <= i < n ==> 0 <= #[trigger] perm[i] < n
    &&& forall|i: int, j: int| 0 <= i < j < n ==> perm[i] != perm[j]
}

/// The items are in key order.
pub open spec fn keys_sorted<T>(v: Seq<(Vec<u32>, T)>) -> bool {
    forall|i: int, j: int| 0 <= i < j < v.len() ==> seq_le(v[i].0@, v[j].0@)
}

/// `out` is `input` rearranged by `perm`, in key order, with items of equal
/// keys kept in their input order.
pub open spec fn stably_sorted_by<T>(
    input: Seq<(Vec<u32>, T)>,
    out: Seq<(Vec<u32>, T)>,
    perm: Seq<int>,
) -> bool {
    &&& out.len() == input.len()
    &&& is_permutation(perm, input.len() as int)
    &&& forall|i: int| 0 <= i < out.len() ==> #[trigger] out[i] == input[perm[i]]
    &&& keys_sorted(out)
    &&& forall|i: int, j: int|
        0 <= i < j < out.len() && out[i].0@ == out[j].0@ ==> perm[i] < perm[j]
}

/// Stable sort by key (the behaviour of `sort_by_key`).
pub fn stable_sort<T>(items: Vec<(Vec<u32>, T)>) -> (r: (Vec<(Vec<u32>, T)>, Ghost<Seq<int>>))
    ensures
        stably_sorted_by(items@, r.0@, r.1@),
{
    let ghost input = items@;
    let ghost n = items@.len() as int;
    let mut src = items;
    let mut out: Vec<(Vec<u32>, T)> = Vec::new();
    let ghost mut perm: Seq<int> = Seq::empty();
    let ghost mut k: int = 0;
    while src.len() > 0
        invariant
            0 <= k <= n,
            n == input.len(),
            src@ == input.subrange(k, n),
            out@.len() == k,
            perm.len() == k,
            forall|i: int| 0 <= i < k ==> 0 <= #[trigger] perm[i] < k,
            forall|i: int, j: int| 0 <= i < j < k ==> perm[i] != perm[j],
            forall|i: int| 0 <= i < k ==> #[trigger] out@[i] == input[perm[i]],
            keys_sorted(out@),
            forall|i: int, j: int| 0 <= i < j < k && out@[i].0@ == out@[j].0@ ==> perm[i] < perm[j],
        decreases src@.len(),
    {
        let x = src.remove(0);
        assert(x == input[k]);
        let mut pos: usize = 0;
        while pos < out.len() && !key_lt(&x.0, &out[pos].0)
            invariant
                pos <= out@.len(),
                forall|i: int| 0 <= i < pos ==> seq_le(#[trigger] out@[i].0@, x.0@),
            decreases out@.len() - pos,
        {
            pos = pos + 1;
        }
        proof {
            if pos < out@.len() {
                assert forall|j: int| pos <= j < out@.len() implies seq_lt(x.0@, #[trigger] out@[j].0@) by {
                    if j > pos {
                        assert(seq_le(out@[pos as int].0@, out@[j].0@));
                        lemma_lt_le_transitive(x.0@, out@[pos as int].0@, out@[j].0@);
                    }
                }
            }
        }
        let ghost old_out = out@;
        let ghost old_perm = perm;
        out.insert(pos, x);
        proof {
            perm = old_perm.insert(pos as int, k);
            assert(out@ == old_out.insert(pos as int, x));
            assert forall|i: int| 0 <= i < k + 1 implies 0 <= #[trigger] perm[i] < k + 1 by {
                if i < pos {
                    assert(perm[i] == old_perm[i]);
                } else if i > pos {
                    assert(perm[i] == old_perm[i - 1]);
                }
            }
            assert forall|i: int, j: int| 0 <= i < j < k + 1 implies perm[i] != perm[j] by {
                if i < pos && j < pos {
                    assert(perm[i] == old_perm[i] && perm[j] == old_perm[j]);
                } else if i < pos && j > pos {
                    assert(perm[i] == old_perm[i] && perm[j] == old_perm[j - 1]);
                } else if i > pos && j > pos {
                    assert(perm[i] == old_perm[i - 1] && perm[j] == old_perm[j - 1]);
                } else if i == pos {
                    assert(perm[j] == old_perm[j - 1]);
                } else {
                    assert(perm[i] == old_perm[i]);
                }
            }
            assert forall|i: int| 0 <= i < k + 1 implies #[trigger] out@[i] == input[perm[i]] by {
                if i < pos {
                    assert(out@[i] == old_out[i] && perm[i] == old_perm[i]);
                } else if i > pos {
                    assert(out@[i] == old_out[i - 1] && perm[i] == old_perm[i - 1]);
                }
            }
            assert forall|i: int, j: int| 0 <= i < j < out@.len() implies seq_le(out@[i].0@, out@[j].0@) by {
                if i < pos && j < pos {
                } else if i < pos && j == pos {
                } else if i < pos && j > pos {
                    assert(out@[j] == old_out[j - 1]);
                    assert(seq_lt(x.0@, old_out[j - 1].0@));
                    lemma_le_lt_transitive(out@[i].0@, x.0@, old_out[j - 1].0@);
                    lemma_seq_lt_asym_total(out@[i].0@, old_out[j - 1].0@);
                } else if i == pos {
                    assert(out@[j] == old_out[j - 1]);
                    assert(seq_lt(x.0@, old_out[j - 1].0@));
                    lemma_seq_lt_asym_total(x.0@, old_out[j - 1].0@);
                } else {
                    assert(out@[i] == old_out[i - 1]);
                    assert(out@[j] == old_out[j - 1]);
                }
            }
            assert forall|i: int, j: int|
                0 <= i < j < k + 1 && out@[i].0@ == out@[j].0@ implies perm[i] < perm[j] by {
                if i < pos && j < pos {
                    assert(perm[i] == old_perm[i] && perm[j] == old_perm[j]);
                } else if i < pos && j == pos {
                    assert(perm[i] == old_perm[i]);
                } else if i < pos && j > pos {
                    assert(perm[i] == old_perm[i] && perm[j] == old_perm[j - 1]);
                    assert(out@[j] == old_out[j - 1]);
                    assert(seq_lt(x.0@, old_out[j - 1].0@));
                    lemma_le_lt_transitive(out@[i].0@, x.0@, old_out[j - 1].0@);
                    lemma_seq_lt_irreflexive(out@[i].0@);
                } else if i == pos {
                    assert(out@[j] == old_out[j - 1]);
                    assert(seq_lt(x.0@, old_out[j - 1].0@));
                    lemma_seq_lt_irreflexive(x.0@);
                } else {
                    assert(perm[i] == old_perm[i - 1] && perm[j] == old_perm[j - 1]);
                    assert(out@[i] == old_out[i - 1]);
                    assert(out@[j] == old_out[j - 1]);
                }
            }
            k = k + 1;
            assert(src@ =~= input.subrange(k, n));
        }
    }
    proof {
        assert(k == n);
    }
    (out, Ghost(perm))
}

pub proof fn lemma_lt_le_transitive(a: Seq<u32>, b: Seq<u32>, c: Seq<u32>)
    requires
        seq_lt(a, b),
        seq_le(b, c),
    ensures
        seq_lt(a, c),
{
    lemma_seq_lt_asym_total(b, c);
    if b != c {
        lemma_seq_lt_transitive(a, b, c);
    }
}


/// Key of a character sequence: its code points (the order of `String`).
pub open spec fn chars_key(s: Seq<char>) -> Seq<u32> {
    s.map_values(|c: char| c as u32)
}

/// Appends the code points of `s` to a key.
pub fn push_chars_key(key: &mut Vec<u32>, s: &[char])
    ensures
        final(key)@ == old(key)@ + chars_key(s@),
{
    let ghost start = key@;
    let mut i: usize = 0;
    while i < s.len()
        invariant
            i <= s.len(),
            key@ == start + chars_key(s@.subrange(0, i as int)),
        decreases s.len() - i,
    {
        key.push(s[i] as u32);
        i = i + 1;
        assert(key@ =~= start + chars_key(s@.subrange(0, i as int)));
    }
    assert(s@.subrange(0, s.len() as int) =~= s@);
}

} // verus!
