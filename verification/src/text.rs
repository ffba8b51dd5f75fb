//! Character-sequence helpers shared by the parsers: ASCII case folding,
//! Unicode-whitespace trimming, prefix/suffix/infix search.

use vstd::prelude::*;
use vstd::string::*;

verus! {

/// Unicode `White_Space` property, as used by `char::is_whitespace`.
pub open spec fn is_ws(c: char) -> bool {
    let u = c as u32;
    ||| (9 <= u && u <= 13)
    ||| u == 32
    ||| u == 0x85
    ||| u == 0xA0
    ||| u == 0x1680
    ||| (0x2000 <= u && u <= 0x200A)
    ||| u == 0x2028
    ||| u == 0x2029
    ||| u == 0x202F
    ||| u == 0x205F
    ||| u == 0x3000
}

pub fn char_is_ws(c: char) -> (r: bool)
    ensures
        r == is_ws(c),
{
    let u = c as u32;
    (9 <= u && u <= 13) || u == 32 || u == 0x85 || u == 0xA0 || u == 0x1680 || (0x2000 <= u && u
        <= 0x200A) || u == 0x2028 || u == 0x2029 || u == 0x202F || u == 0x205F || u == 0x3000
}

/// ASCII lower-casing of one character.
pub open spec fn lower_char(c: char) -> char {
    if 65 <= c as u32 && c as u32 <= 90 {
        ((c as u32) + 32) as char
    } else {
        c
    }
}

pub fn char_to_lower(c: char) -> (r: char)
    ensures
        r == lower_char(c),
{
    if c >= 'A' && c <= 'Z' {
        let b: u8 = c as u8;
        ((b + 32) as char)
    } else {
        c
    }
}

pub open spec fn lower(s: Seq<char>) -> Seq<char> {
    s.map_values(|c: char| lower_char(c))
}


pub open spec fn trim_start(s: Seq<char>) -> Seq<char>
    decreases s.len(),
{
    if s.len() > 0 && is_ws(s[0]) {
        trim_start(s.drop_first())
    } else {
        s
    }
}

pub open spec fn trim_end(s: Seq<char>) -> Seq<char>
    decreases s.len(),
{
    if s.len() > 0 && is_ws(s.last()) {
        trim_end(s.drop_last())
    } else {
        s
    }
}

/// `str::trim`: leading and trailing Unicode whitespace removed.
pub open spec fn trim(s: Seq<char>) -> Seq<char> {
    trim_end(trim_start(s))
}

pub open spec fn has_prefix(s: Seq<char>, p: Seq<char>) -> bool {
    p.len() <= s.len() && s.subrange(0, p.len() as int) == p
}

pub open spec fn has_suffix(s: Seq<char>, p: Seq<char>) -> bool {
    p.len() <= s.len() && s.subrange(s.len() - p.len(), s.len() as int) == p
}

pub open spec fn occurs_at(s: Seq<char>, p: Seq<char>, i: int) -> bool {
    0 <= i && i + p.len() <= s.len() && s.subrange(i, i + p.len()) == p
}

/// `str::contains` with a string needle.
pub open spec fn has_infix(s: Seq<char>, p: Seq<char>) -> bool {
    exists|i: int| occurs_at(s, p, i)
}

/// `eq_ignore_ascii_case`.
pub open spec fn eq_ascii_ci(a: Seq<char>, b: Seq<char>) -> bool {
    lower(a) == lower(b)
}

/// What `str::to_lowercase` gives for a string: the Unicode lowercase mapping
/// as the standard library's tables and rules define it (a final sigma, for
/// one, depends on the characters around it).
pub uninterp spec fn unicode_lower(s: Seq<char>) -> Seq<char>;

/// Every character is ASCII.
pub open spec fn all_ascii(s: Seq<char>) -> bool {
    forall|i: int| 0 <= i < s.len() ==> (s[i] as u32) < 128
}

/// `str::to_lowercase`. Its result is named by `unicode_lower`; on ASCII text
/// the Unicode mapping is the ASCII one, which is the only fact stated of it.
#[verifier::external_body]
pub(crate) fn to_lowercase(s: &str) -> (r: String)
    ensures
        r@ == unicode_lower(s@),
        all_ascii(s@) ==> r@ == lower(s@),
{
    s.to_lowercase()
}

/// ASCII upper-casing of one character.
pub open spec fn upper_char(c: char) -> char {
    if 97 <= c as u32 && c as u32 <= 122 {
        ((c as u32) - 32) as char
    } else {
        c
    }
}

pub open spec fn upper(s: Seq<char>) -> Seq<char> {
    s.map_values(|c: char| upper_char(c))
}

/// What `str::to_uppercase` gives for a string: the Unicode uppercase
/// mapping, as the standard library's tables define it.
pub uninterp spec fn unicode_upper(s: Seq<char>) -> Seq<char>;

/// `str::to_uppercase`. Its result is named by `unicode_upper`; on ASCII text
/// the Unicode mapping is the ASCII one, which is the only fact stated of it.
#[verifier::external_body]
pub(crate) fn to_uppercase(s: &str) -> (r: String)
    ensures
        r@ == unicode_upper(s@),
        all_ascii(s@) ==> r@ == upper(s@),
{
    s.to_uppercase()
}

/// `String::from_utf8_lossy` applied to the given bytes.
pub uninterp spec fn utf8_lossy(b: Seq<u8>) -> Seq<char>;

/// Calls `String::from_utf8_lossy`. Claimed: the result is
/// `utf8_lossy(bytes)`, and when the bytes are valid UTF-8 it is the text
/// they encode (the documented behaviour). What invalid bytes become is not
/// stated.
#[verifier::external_body]
pub(crate) fn from_utf8_lossy(bytes: &[u8]) -> (r: String)
    ensures
        r@ == utf8_lossy(bytes@),
        vstd::utf8::valid_utf8(bytes@) ==> r@ == vstd::utf8::decode_utf8(bytes@),
{
    String::from_utf8_lossy(bytes).to_string()
}

/// Appends one character to a `String`.
#[verifier::external_body]
pub(crate) fn push_char(s: &mut String, c: char)
    ensures
        final(s)@ == old(s)@.push(c),
{
    s.push(c);
}

/// The characters of a string slice, in order.
pub fn chars_of(s: &str) -> (r: Vec<char>)
    ensures
        r@ == s@,
{
    let n = s.unicode_len();
    let mut r: Vec<char> = Vec::new();
    let mut i: usize = 0;
    while i < n
        invariant
            n == s@.len(),
            i <= n,
            r@ == s@.subrange(0, i as int),
        decreases n - i,
    {
        let c = s.get_char(i);
        r.push(c);
        i = i + 1;
        assert(r@ =~= s@.subrange(0, i as int));
    }
    assert(r@ =~= s@);
    r
}

/// Builds a `String` from characters.
pub fn string_of(v: &[char]) -> (r: String)
    ensures
        r@ == v@,
{
    let mut r = String::new();
    let mut i: usize = 0;
    while i < v.len()
        invariant
            i <= v.len(),
            r@ == v@.subrange(0, i as int),
        decreases v.len() - i,
    {
        push_char(&mut r, v[i]);
        i = i + 1;
        assert(r@ =~= v@.subrange(0, i as int));
    }
    assert(r@ =~= v@);
    r
}

pub fn lower_of(v: &[char]) -> (r: Vec<char>)
    ensures
        r@ == lower(v@),
{
    let mut r: Vec<char> = Vec::new();
    let mut i: usize = 0;
    while i < v.len()
        invariant
            i <= v.len(),
            r@ == lower(v@.subrange(0, i as int)),
        decreases v.len() - i,
    {
        r.push(char_to_lower(v[i]));
        i = i + 1;
        assert(r@ =~= lower(v@.subrange(0, i as int)));
    }
    assert(v@.subrange(0, v.len() as int) =~= v@);
    r
}

pub proof fn lemma_trim_start_step(s: Seq<char>, i: int)
    requires
        0 <= i < s.len(),
        is_ws(s[i]),
    ensures
        trim_start(s.subrange(i, s.len() as int)) == trim_start(s.subrange(i + 1, s.len() as int)),
{
    let t = s.subrange(i, s.len() as int);
    assert(t.drop_first() =~= s.subrange(i + 1, s.len() as int));
}

pub proof fn lemma_trim_end_step(s: Seq<char>, j: int)
    requires
        0 < j <= s.len(),
        is_ws(s[j - 1]),
    ensures
        trim_end(s.subrange(0, j)) == trim_end(s.subrange(0, j - 1)),
{
    let t = s.subrange(0, j);
    assert(t.drop_last() =~= s.subrange(0, j - 1));
}

/// `str::trim` on a character vector.
pub fn trim_of(v: &[char]) -> (r: Vec<char>)
    ensures
        r@ == trim(v@),
{
    let n = v.len();
    let mut i: usize = 0;
    assert(v@.subrange(0, n as int) =~= v@);
    while i < n && char_is_ws(v[i])
        invariant
            n == v@.len(),
            i <= n,
            trim_start(v@) == trim_start(v@.subrange(i as int, n as int)),
        decreases n - i,
    {
        proof {
            lemma_trim_start_step(v@, i as int);
        }
        i = i + 1;
    }
    assert(v@.subrange(0, n as int) =~= v@);
    let ghost rest = v@.subrange(i as int, n as int);
    assert(trim_start(rest) == rest);
    let mut j: usize = n;
    while j > i && char_is_ws(v[j - 1])
        invariant
            n == v@.len(),
            i <= j <= n,
            rest == v@.subrange(i as int, n as int),
            trim_end(rest) == trim_end(v@.subrange(i as int, j as int)),
        decreases j,
    {
        proof {
            let t = v@.subrange(i as int, n as int);
            assert(v@.subrange(i as int, j as int) =~= t.subrange(0, j - i));
            assert(v@.subrange(i as int, j - 1) =~= t.subrange(0, j - 1 - i));
            lemma_trim_end_step(t, j - i);
        }
        j = j - 1;
    }
    let mut r: Vec<char> = Vec::new();
    let mut k: usize = i;
    while k < j
        invariant
            i <= k <= j <= n,
            n == v@.len(),
            r@ == v@.subrange(i as int, k as int),
        decreases j - k,
    {
        r.push(v[k]);
        k = k + 1;
        assert(r@ =~= v@.subrange(i as int, k as int));
    }
    let ghost mid = v@.subrange(i as int, j as int);
    assert(trim_end(mid) == mid);
    r
}

/// `str::trim_start` on a character vector.
pub fn trim_start_of(v: &[char]) -> (r: Vec<char>)
    ensures
        r@ == trim_start(v@),
{
    let n = v.len();
    let mut i: usize = 0;
    assert(v@.subrange(0, n as int) =~= v@);
    while i < n && char_is_ws(v[i])
        invariant
            n == v@.len(),
            i <= n,
            trim_start(v@) == trim_start(v@.subrange(i as int, n as int)),
        decreases n - i,
    {
        proof {
            lemma_trim_start_step(v@, i as int);
        }
        i = i + 1;
    }
    let mut r: Vec<char> = Vec::new();
    let mut k: usize = i;
    while k < n
        invariant
            i <= k <= n,
            n == v@.len(),
            r@ == v@.subrange(i as int, k as int),
        decreases n - k,
    {
        r.push(v[k]);
        k = k + 1;
        assert(r@ =~= v@.subrange(i as int, k as int));
    }
    r
}

/// Whether `p` occurs in `s` at position `at`.
pub fn occurs_at_exec(s: &[char], p: &[char], at: usize) -> (r: bool)
    ensures
        r == occurs_at(s@, p@, at as int),
{
    if at > s.len() || p.len() > s.len() - at {
        return false;
    }
    let mut k: usize = 0;
    while k < p.len()
        invariant
            at + p.len() <= s.len(),
            k <= p.len(),
            forall|m: int| 0 <= m < k ==> s@[at + m] == p@[m],
        decreases p.len() - k,
    {
        if s[at + k] != p[k] {
            assert(s@.subrange(at as int, at + p.len())[k as int] != p@[k as int]);
            return false;
        }
        k = k + 1;
    }
    assert(s@.subrange(at as int, at + p.len()) =~= p@);
    true
}

pub fn starts_with(s: &[char], p: &[char]) -> (r: bool)
    ensures
        r == has_prefix(s@, p@),
{
    occurs_at_exec(s, p, 0)
}

pub fn ends_with(s: &[char], p: &[char]) -> (r: bool)
    ensures
        r == has_suffix(s@, p@),
{
    if p.len() > s.len() {
        return false;
    }
    occurs_at_exec(s, p, s.len() - p.len())
}

/// First position at which `p` occurs in `s`, if any.
pub fn find(s: &[char], p: &[char]) -> (r: Option<usize>)
    ensures
        match r {
            Some(i) => occurs_at(s@, p@, i as int) && forall|j: int|
                0 <= j < i ==> !occurs_at(s@, p@, j),
            None => !has_infix(s@, p@),
        },
{
    if p.len() > s.len() {
        return None;
    }
    let last = s.len() - p.len();
    let mut i: usize = 0;
    while i <= last
        invariant
            last + p.len() == s.len(),
            i <= last + 1,
            forall|j: int| 0 <= j < i ==> !occurs_at(s@, p@, j),
        decreases last + 1 - i,
    {
        if occurs_at_exec(s, p, i) {
            return Some(i);
        }
        if i == last {
            proof {
                assert forall|j: int| occurs_at(s@, p@, j) implies false by {
                    assert(j < i + 1);
                }
            }
            return None;
        }
        i = i + 1;
    }
    None
}

pub fn contains(s: &[char], p: &[char]) -> (r: bool)
    ensures
        r == has_infix(s@, p@),
{
    match find(s, p) {
        Some(_) => true,
        None => false,
    }
}

/// `str::contains` with a literal needle.
pub fn contains_str(s: &[char], p: &str) -> (r: bool)
    ensures
        r == has_infix(s@, p@),
{
    let pv = chars_of(p);
    contains(s, &pv)
}

pub fn starts_with_str(s: &[char], p: &str) -> (r: bool)
    ensures
        r == has_prefix(s@, p@),
{
    let pv = chars_of(p);
    starts_with(s, &pv)
}

pub fn ends_with_str(s: &[char], p: &str) -> (r: bool)
    ensures
        r == has_suffix(s@, p@),
{
    let pv = chars_of(p);
    ends_with(s, &pv)
}

pub fn seq_eq(a: &[char], b: &[char]) -> (r: bool)
    ensures
        r == (a@ == b@),
{
    if a.len() != b.len() {
        return false;
    }
    let r = occurs_at_exec(a, b, 0);
    proof {
        if r {
            assert(a@.subrange(0, b@.len() as int) =~= a@);
        } else {
            if a@ == b@ {
                assert(a@.subrange(0, b@.len() as int) =~= a@);
            }
        }
    }
    r
}

pub fn eq_str(a: &[char], b: &str) -> (r: bool)
    ensures
        r == (a@ == b@),
{
    let bv = chars_of(b);
    seq_eq(a, &bv)
}

/// Case-insensitive (ASCII) comparison, `eq_ignore_ascii_case`.
pub fn eq_ignore_ascii_case(a: &[char], b: &[char]) -> (r: bool)
    ensures
        r == eq_ascii_ci(a@, b@),
{
    let la = lower_of(a);
    let lb = lower_of(b);
    seq_eq(&la, &lb)
}

pub fn eq_ignore_ascii_case_str(a: &[char], b: &str) -> (r: bool)
    ensures
        r == eq_ascii_ci(a@, b@),
{
    let bv = chars_of(b);
    eq_ignore_ascii_case(a, &bv)
}


/// Index of the first `'\n'` in `t`, or `t.len()` when there is none.
pub open spec fn nl_index(t: Seq<char>) -> int
    decreases t.len(),
{
    if t.len() == 0 {
        0
    } else if t[0] == '\n' {
        0
    } else {
        1 + nl_index(t.drop_first())
    }
}

pub proof fn lemma_nl_index(t: Seq<char>, m: int)
    requires
        0 <= m <= t.len(),
        forall|k: int| 0 <= k < m ==> t[k] != '\n',
        m == t.len() || t[m] == '\n',
    ensures
        nl_index(t) == m,
    decreases t.len(),
{
    if t.len() > 0 && m > 0 {
        let d = t.drop_first();
        assert forall|k: int| 0 <= k < m - 1 implies d[k] != '\n' by {
            assert(d[k] == t[k + 1]);
        }
        lemma_nl_index(d, m - 1);
    }
}

pub proof fn lemma_nl_index_bounds(t: Seq<char>)
    ensures
        0 <= nl_index(t) <= t.len(),
        nl_index(t) < t.len() ==> t[nl_index(t)] == '\n',
    decreases t.len(),
{
    if t.len() > 0 && t[0] != '\n' {
        lemma_nl_index_bounds(t.drop_first());
    }
}

/// One `'\r'` removed from the end, as `str::lines` does before a `'\n'`.
pub open spec fn strip_cr(l: Seq<char>) -> Seq<char> {
    if l.len() > 0 && l.last() == '\r' {
        l.drop_last()
    } else {
        l
    }
}

/// `str::lines`: split at `"\n"` (and `"\r\n"`); a final line ending is optional.
pub open spec fn lines(t: Seq<char>) -> Seq<Seq<char>>
    decreases t.len(),
{
    if t.len() == 0 {
        Seq::empty()
    } else {
        let k = nl_index(t);
        proof {
            lemma_nl_index_bounds(t);
        }
        if k < t.len() {
            seq![strip_cr(t.subrange(0, k))] + lines(t.subrange(k + 1, t.len() as int))
        } else {
            seq![t]
        }
    }
}

/// Splits a text into its lines (`str::lines`).
pub fn split_lines(v: &[char]) -> (r: Vec<Vec<char>>)
    ensures
        r@.len() == lines(v@).len(),
        forall|i: int| 0 <= i < r@.len() ==> #[trigger] r@[i]@ == lines(v@)[i],
{
    let n = v.len();
    let mut r: Vec<Vec<char>> = Vec::new();
    let mut pos: usize = 0;
    let ghost mut done: Seq<Seq<char>> = Seq::empty();
    assert(v@.subrange(0, n as int) =~= v@);
    while pos < n
        invariant
            n == v@.len(),
            pos <= n,
            r@.len() == done.len(),
            forall|i: int| 0 <= i < r@.len() ==> #[trigger] r@[i]@ == done[i],
            lines(v@) == done + lines(v@.subrange(pos as int, n as int)),
        decreases n - pos,
    {
        let ghost t = v@.subrange(pos as int, n as int);
        let mut j: usize = pos;
        while j < n && v[j] != '\n'
            invariant
                pos <= j <= n,
                n == v@.len(),
                forall|k: int| pos <= k < j ==> v@[k] != '\n',
            decreases n - j,
        {
            j = j + 1;
        }
        proof {
            assert forall|k: int| 0 <= k < j - pos implies t[k] != '\n' by {
                assert(t[k] == v@[pos + k]);
            }
            lemma_nl_index(t, j - pos);
        }
        let mut line: Vec<char> = Vec::new();
        let mut k: usize = pos;
        while k < j
            invariant
                pos <= k <= j <= n,
                n == v@.len(),
                line@ == v@.subrange(pos as int, k as int),
            decreases j - k,
        {
            line.push(v[k]);
            k = k + 1;
            assert(line@ =~= v@.subrange(pos as int, k as int));
        }
        if j < n {
            if line.len() > 0 && line[line.len() - 1] == '\r' {
                line.pop();
            }
            proof {
                assert(t.subrange(0, j - pos) =~= v@.subrange(pos as int, j as int));
                assert(t.subrange(j - pos + 1, t.len() as int) =~= v@.subrange(j + 1, n as int));
                assert(lines(t) == seq![strip_cr(t.subrange(0, j - pos))] + lines(
                    t.subrange(j - pos + 1, t.len() as int),
                ));
                done = done.push(line@);
                assert(seq![line@] + lines(v@.subrange(j + 1, n as int)) =~= lines(t));
            }
            r.push(line);
            pos = j + 1;
            proof {
                assert(lines(v@) =~= done + lines(v@.subrange(pos as int, n as int)));
            }
        } else {
            proof {
                assert(t =~= v@.subrange(pos as int, j as int));
                done = done.push(line@);
                assert(v@.subrange(n as int, n as int) =~= Seq::<char>::empty());
                assert(lines(v@) =~= done + lines(v@.subrange(n as int, n as int)));
            }
            r.push(line);
            pos = n;
        }
    }
    proof {
        assert(v@.subrange(n as int, n as int) =~= Seq::<char>::empty());
        assert(lines(v@) =~= done);
    }
    r
}

/// Index of the first whitespace character in `t`, or `t.len()`.
pub open spec fn ws_index(t: Seq<char>) -> int
    decreases t.len(),
{
    if t.len() == 0 {
        0
    } else if is_ws(t[0]) {
        0
    } else {
        1 + ws_index(t.drop_first())
    }
}

pub proof fn lemma_ws_index(t: Seq<char>, m: int)
    requires
        0 <= m <= t.len(),
        forall|k: int| 0 <= k < m ==> !is_ws(t[k]),
        m == t.len() || is_ws(t[m]),
    ensures
        ws_index(t) == m,
    decreases t.len(),
{
    if t.len() > 0 && m > 0 {
        let d = t.drop_first();
        assert forall|k: int| 0 <= k < m - 1 implies !is_ws(d[k]) by {
            assert(d[k] == t[k + 1]);
        }
        lemma_ws_index(d, m - 1);
    }
}

pub proof fn lemma_ws_index_bounds(t: Seq<char>)
    ensures
        0 <= ws_index(t) <= t.len(),
        t.len() > 0 && !is_ws(t[0]) ==> ws_index(t) >= 1,
    decreases t.len(),
{
    if t.len() > 0 && !is_ws(t[0]) {
        lemma_ws_index_bounds(t.drop_first());
    }
}

/// `str::split_whitespace`: the maximal runs of non-whitespace characters.
pub open spec fn words(t: Seq<char>) -> Seq<Seq<char>>
    decreases t.len(),
{
    if t.len() == 0 {
        Seq::empty()
    } else if is_ws(t[0]) {
        words(t.drop_first())
    } else {
        let k = ws_index(t);
        proof {
            lemma_ws_index_bounds(t);
        }
        seq![t.subrange(0, k)] + words(t.subrange(k, t.len() as int))
    }
}

/// Splits a text into its whitespace-separated words (`str::split_whitespace`).
pub fn split_words(v: &[char]) -> (r: Vec<Vec<char>>)
    ensures
        r@.len() == words(v@).len(),
        forall|i: int| 0 <= i < r@.len() ==> #[trigger] r@[i]@ == words(v@)[i],
{
    let n = v.len();
    let mut r: Vec<Vec<char>> = Vec::new();
    let mut pos: usize = 0;
    let ghost mut done: Seq<Seq<char>> = Seq::empty();
    assert(v@.subrange(0, n as int) =~= v@);
    while pos < n
        invariant
            n == v@.len(),
            pos <= n,
            r@.len() == done.len(),
            forall|i: int| 0 <= i < r@.len() ==> #[trigger] r@[i]@ == done[i],
            words(v@) == done + words(v@.subrange(pos as int, n as int)),
        decreases n - pos,
    {
        let ghost t = v@.subrange(pos as int, n as int);
        if char_is_ws(v[pos]) {
            proof {
                assert(t.drop_first() =~= v@.subrange(pos + 1, n as int));
            }
            pos = pos + 1;
        } else {
            let mut j: usize = pos;
            while j < n && !char_is_ws(v[j])
                invariant
                    pos <= j <= n,
                    n == v@.len(),
                    forall|k: int| pos <= k < j ==> !is_ws(v@[k]),
                decreases n - j,
            {
                j = j + 1;
            }
            let mut w: Vec<char> = Vec::new();
            let mut k: usize = pos;
            while k < j
                invariant
                    pos <= k <= j <= n,
                    n == v@.len(),
                    w@ == v@.subrange(pos as int, k as int),
                decreases j - k,
            {
                w.push(v[k]);
                k = k + 1;
                assert(w@ =~= v@.subrange(pos as int, k as int));
            }
            proof {
                assert forall|k: int| 0 <= k < j - pos implies !is_ws(t[k]) by {
                    assert(t[k] == v@[pos + k]);
                }
                lemma_ws_index(t, j - pos);
                assert(t.subrange(0, j - pos) =~= w@);
                assert(t.subrange(j - pos, t.len() as int) =~= v@.subrange(j as int, n as int));
                done = done.push(w@);
            }
            r.push(w);
            pos = j;
            proof {
                assert(words(v@) =~= done + words(v@.subrange(pos as int, n as int)));
            }
        }
    }
    proof {
        assert(v@.subrange(n as int, n as int) =~= Seq::<char>::empty());
        assert(words(v@) =~= done);
    }
    r
}


/// Appends characters to a character vector.
pub fn append(v: &mut Vec<char>, w: &[char])
    ensures
        final(v)@ == old(v)@ + w@,
{
    let ghost start = v@;
    let mut i: usize = 0;
    while i < w.len()
        invariant
            i <= w.len(),
            v@ == start + w@.subrange(0, i as int),
        decreases w.len() - i,
    {
        v.push(w[i]);
        i = i + 1;
        assert(v@ =~= start + w@.subrange(0, i as int));
    }
    assert(w@.subrange(0, w.len() as int) =~= w@);
}

/// Appends the characters of a string slice to a character vector.
pub fn append_str(v: &mut Vec<char>, w: &str)
    ensures
        final(v)@ == old(v)@ + w@,
{
    let wv = chars_of(w);
    append(v, &wv);
}

/// Concatenation of two character sequences as a `String`.
pub fn concat_string(a: &[char], b: &[char]) -> (r: String)
    ensures
        r@ == a@ + b@,
{
    let mut v: Vec<char> = Vec::new();
    append(&mut v, a);
    append(&mut v, b);
    assert(v@ =~= a@ + b@);
    string_of(&v)
}


/// The decimal digit character of `d` (`0 <= d < 10`).
pub open spec fn digit_char(d: nat) -> char {
    ((d + 48) as u32) as char
}

/// Decimal notation of a natural number, without leading zeros (`"0"` for zero).
pub open spec fn decimal(n: nat) -> Seq<char>
    decreases n,
{
    if n < 10 {
        seq![digit_char(n)]
    } else {
        decimal(n / 10).push(digit_char(n % 10))
    }
}

/// Decimal notation of `n` (what `format!("{n}")` writes).
pub fn decimal_of(n: u64) -> (r: Vec<char>)
    ensures
        r@ == decimal(n as nat),
{
    let mut q: u64 = n;
    let mut acc: Vec<char> = Vec::new();
    while q >= 10
        invariant
            decimal(n as nat) == decimal(q as nat) + acc@,
        decreases q,
    {
        let d: u64 = q % 10;
        let c: char = ((d as u8) + 48) as char;
        assert(c == digit_char(d as nat));
        let ghost old_acc = acc@;
        acc.insert(0, c);
        assert(decimal(q as nat) == decimal((q / 10) as nat).push(c));
        assert(decimal(q as nat) + old_acc =~= decimal((q / 10) as nat) + acc@);
        q = q / 10;
    }
    let c: char = ((q as u8) + 48) as char;
    assert(c == digit_char(q as nat));
    acc.insert(0, c);
    assert(decimal(q as nat) =~= seq![c]);
    assert(decimal(n as nat) =~= acc@);
    acc
}

pub open spec fn is_digit(c: char) -> bool {
    '0' <= c && c <= '9'
}

/// Decimal value of a run of ASCII digits.
pub open spec fn decimal_value(ds: Seq<char>) -> nat
    decreases ds.len(),
{
    if ds.len() == 0 {
        0
    } else {
        decimal_value(ds.drop_last()) * 10 + ((ds.last() as u32) - 48) as nat
    }
}

pub open spec fn all_digits(s: Seq<char>) -> bool {
    forall|i: int| 0 <= i < s.len() ==> is_digit(#[trigger] s[i])
}

/// The digits of an unsigned number, after an optional `+`.
pub open spec fn unsigned_digits(s: Seq<char>) -> Seq<char> {
    if s.len() > 0 && s[0] == '+' {
        s.drop_first()
    } else {
        s
    }
}

/// `str::parse::<u32>`: an optional `+`, then one or more ASCII digits whose
/// value fits in a `u32`.
pub open spec fn u32_of(s: Seq<char>) -> Option<u32> {
    let b = unsigned_digits(s);
    if b.len() > 0 && all_digits(b) && decimal_value(b) <= u32::MAX {
        Some(decimal_value(b) as u32)
    } else {
        None
    }
}

/// `str::parse::<i32>`: an optional `+` or `-`, then one or more ASCII
/// digits whose signed value fits in an `i32`.
pub open spec fn i32_of(s: Seq<char>) -> Option<i32> {
    if s.len() > 0 && s[0] == '-' {
        let b = s.drop_first();
        if b.len() > 0 && all_digits(b) && decimal_value(b) <= 0x8000_0000 {
            Some((0 - decimal_value(b)) as i32)
        } else {
            None
        }
    } else {
        let b = unsigned_digits(s);
        if b.len() > 0 && all_digits(b) && decimal_value(b) <= i32::MAX {
            Some(decimal_value(b) as i32)
        } else {
            None
        }
    }
}

/// Appending digits never lowers the value.
pub proof fn lemma_decimal_prefix(s: Seq<char>, k: int)
    requires
        0 <= k <= s.len(),
        all_digits(s),
    ensures
        decimal_value(s.subrange(0, k)) <= decimal_value(s),
    decreases s.len(),
{
    if k < s.len() {
        let d = s.drop_last();
        assert(all_digits(d)) by {
            assert forall|i: int| 0 <= i < d.len() implies is_digit(#[trigger] d[i]) by {
                assert(d[i] == s[i]);
            }
        }
        lemma_decimal_prefix(d, k);
        assert(d.subrange(0, k) =~= s.subrange(0, k));
    } else {
        assert(s.subrange(0, k) =~= s);
    }
}

/// The value of the digits `v[from..]` when they are all digits and the
/// value is at most `limit`.
fn digits_up_to(v: &[char], from: usize, limit: u64) -> (r: Option<u64>)
    requires
        from <= v.len(),
        limit <= 0x1_0000_0000,
    ensures
        match r {
            Some(n) => all_digits(v@.skip(from as int)) && decimal_value(v@.skip(from as int)) == n
                && n <= limit,
            None => !(all_digits(v@.skip(from as int)) && decimal_value(v@.skip(from as int))
                <= limit),
        },
{
    let ghost t = v@.skip(from as int);
    let mut i: usize = from;
    let mut value: u64 = 0;
    assert(v@.subrange(from as int, from as int) =~= Seq::<char>::empty());
    while i < v.len()
        invariant
            from <= i <= v.len(),
            t == v@.skip(from as int),
            forall|k: int| from <= k < i ==> is_digit(v@[k]),
            value == decimal_value(v@.subrange(from as int, i as int)),
            value <= limit,
            limit <= 0x1_0000_0000,
        decreases v.len() - i,
    {
        let c = v[i];
        if !(c >= '0' && c <= '9') {
            proof {
                assert(t[i - from] == c);
            }
            return None;
        }
        let d: u64 = (c as u32 - 48) as u64;
        proof {
            assert(v@.subrange(from as int, i + 1).drop_last() =~= v@.subrange(from as int, i as int));
        }
        value = value * 10 + d;
        if value > limit {
            proof {
                if all_digits(t) {
                    lemma_decimal_prefix(t, i + 1 - from);
                    assert(t.subrange(0, i + 1 - from) =~= v@.subrange(from as int, i + 1));
                }
            }
            return None;
        }
        i = i + 1;
    }
    proof {
        assert(v@.subrange(from as int, i as int) =~= t);
        assert forall|k: int| 0 <= k < t.len() implies is_digit(#[trigger] t[k]) by {
            assert(t[k] == v@[from + k]);
        }
    }
    Some(value)
}

/// `str::parse::<u32>` on characters.
pub fn parse_u32_chars(v: &[char]) -> (r: Option<u32>)
    ensures
        r == u32_of(v@),
{
    let from: usize = if v.len() > 0 && v[0] == '+' {
        1
    } else {
        0
    };
    proof {
        if from == 0 {
            assert(v@.skip(0) =~= v@);
        } else {
            assert(v@.skip(1) =~= v@.drop_first());
        }
    }
    if from == v.len() {
        return None;
    }
    match digits_up_to(v, from, 0xffff_ffff) {
        Some(n) => Some(n as u32),
        None => None,
    }
}

/// `str::parse::<i32>` on characters.
pub fn parse_i32_chars(v: &[char]) -> (r: Option<i32>)
    ensures
        r == i32_of(v@),
{
    if v.len() > 0 && v[0] == '-' {
        assert(v@.skip(1) =~= v@.drop_first());
        if v.len() == 1 {
            return None;
        }
        match digits_up_to(v, 1, 0x8000_0000) {
            Some(n) => {
                let m: i64 = 0 - (n as i64);
                Some(m as i32)
            },
            None => None,
        }
    } else {
        let from: usize = if v.len() > 0 && v[0] == '+' {
            1
        } else {
            0
        };
        proof {
            if from == 0 {
                assert(v@.skip(0) =~= v@);
            } else {
                assert(v@.skip(1) =~= v@.drop_first());
            }
        }
        if from == v.len() {
            return None;
        }
        match digits_up_to(v, from, 0x7fff_ffff) {
            Some(n) => Some(n as i32),
            None => None,
        }
    }
}

/// `str::parse::<usize>`: an optional `+`, then one or more ASCII digits
/// whose value fits in a `usize`.
pub open spec fn usize_of(s: Seq<char>) -> Option<usize> {
    let b = unsigned_digits(s);
    if b.len() > 0 && all_digits(b) && decimal_value(b) <= usize::MAX {
        Some(decimal_value(b) as usize)
    } else {
        None
    }
}

/// `str::parse::<usize>` on characters.
pub fn parse_usize_chars(v: &[char]) -> (r: Option<usize>)
    ensures
        r == usize_of(v@),
{
    let from: usize = if v.len() > 0 && v[0] == '+' {
        1
    } else {
        0
    };
    proof {
        if from == 0 {
            assert(v@.skip(0) =~= v@);
        } else {
            assert(v@.skip(1) =~= v@.drop_first());
        }
    }
    if from == v.len() {
        return None;
    }
    let ghost t = v@.skip(from as int);
    let mut i: usize = from;
    let mut value: usize = 0;
    assert(v@.subrange(from as int, from as int) =~= Seq::<char>::empty());
    while i < v.len()
        invariant
            from <= i <= v.len(),
            t == v@.skip(from as int),
            t == unsigned_digits(v@),
            t.len() > 0,
            forall|k: int| from <= k < i ==> is_digit(v@[k]),
            value == decimal_value(v@.subrange(from as int, i as int)),
        decreases v.len() - i,
    {
        let c = v[i];
        if !(c >= '0' && c <= '9') {
            proof {
                assert(t[i - from] == c);
            }
            return None;
        }
        let d: usize = (c as u32 - 48) as usize;
        proof {
            assert(v@.subrange(from as int, i + 1).drop_last() =~= v@.subrange(from as int, i as int));
        }
        let next = match value.checked_mul(10) {
            Some(m) => m.checked_add(d),
            None => None,
        };
        match next {
            Some(nv) => {
                value = nv;
            },
            None => {
                proof {
                    assert(decimal_value(v@.subrange(from as int, i + 1)) > usize::MAX);
                    if all_digits(t) {
                        lemma_decimal_prefix(t, i + 1 - from);
                        assert(t.subrange(0, i + 1 - from) =~= v@.subrange(from as int, i + 1));
                    }
                }
                return None;
            },
        }
        i = i + 1;
    }
    proof {
        assert(v@.subrange(from as int, i as int) =~= t);
        assert forall|k: int| 0 <= k < t.len() implies is_digit(#[trigger] t[k]) by {
            assert(t[k] == v@[from + k]);
        }
    }
    Some(value)
}

/// `i` is the first position at which `p` occurs in `s`.
pub open spec fn first_at(s: Seq<char>, p: Seq<char>, i: int) -> bool {
    occurs_at(s, p, i) && forall|j: int| 0 <= j < i ==> !occurs_at(s, p, j)
}

/// `str::split_once`: the text before and after the first occurrence of `p`.
pub open spec fn split_once(s: Seq<char>, p: Seq<char>) -> Option<(Seq<char>, Seq<char>)> {
    if has_infix(s, p) {
        let i = choose|i: int| first_at(s, p, i);
        Some((s.subrange(0, i), s.subrange(i + p.len(), s.len() as int)))
    } else {
        None
    }
}

/// The characters `v[a..b]`.
pub fn copy_range(v: &[char], a: usize, b: usize) -> (r: Vec<char>)
    requires
        a <= b <= v.len(),
    ensures
        r@ == v@.subrange(a as int, b as int),
{
    let mut r: Vec<char> = Vec::new();
    let mut k: usize = a;
    while k < b
        invariant
            a <= k <= b <= v.len(),
            r@ == v@.subrange(a as int, k as int),
        decreases b - k,
    {
        r.push(v[k]);
        k = k + 1;
        assert(r@ =~= v@.subrange(a as int, k as int));
    }
    r
}

/// `split_once` on characters.
pub fn split_once_chars(s: &[char], p: &[char]) -> (r: Option<(Vec<char>, Vec<char>)>)
    ensures
        match r {
            Some(pr) => split_once(s@, p@) == Some((pr.0@, pr.1@)),
            None => split_once(s@, p@) is None,
        },
{
    match find(s, p) {
        Some(i) => {
            proof {
                assert(first_at(s@, p@, i as int));
                assert(has_infix(s@, p@));
                let c = choose|c: int| first_at(s@, p@, c);
                assert(first_at(s@, p@, c));
                if c < i {
                    assert(!occurs_at(s@, p@, c));
                } else if i < c {
                    assert(!occurs_at(s@, p@, i as int));
                }
                assert(c == i);
            }
            assert(occurs_at(s@, p@, i as int));
            assert(i + p@.len() <= s@.len());
            let pl = p.len();
            let sl = s.len();
            assert(i + pl <= sl);
            let a = copy_range(s, 0, i);
            let b = copy_range(s, i + pl, sl);
            Some((a, b))
        },
        None => None,
    }
}

/// `split_once` with a literal pattern.
pub fn split_once_str(s: &[char], p: &str) -> (r: Option<(Vec<char>, Vec<char>)>)
    ensures
        match r {
            Some(pr) => split_once(s@, p@) == Some((pr.0@, pr.1@)),
            None => split_once(s@, p@) is None,
        },
{
    let pv = chars_of(p);
    split_once_chars(s, &pv)
}

/// `trim_start_matches(c)`: every leading `c` removed.
pub open spec fn strip_leading(s: Seq<char>, c: char) -> Seq<char>
    decreases s.len(),
{
    if s.len() > 0 && s[0] == c {
        strip_leading(s.drop_first(), c)
    } else {
        s
    }
}

/// `trim_end_matches(c)`: every trailing `c` removed.
pub open spec fn strip_trailing(s: Seq<char>, c: char) -> Seq<char>
    decreases s.len(),
{
    if s.len() > 0 && s.last() == c {
        strip_trailing(s.drop_last(), c)
    } else {
        s
    }
}

pub fn strip_leading_of(v: &[char], c: char) -> (r: Vec<char>)
    ensures
        r@ == strip_leading(v@, c),
{
    let mut i: usize = 0;
    assert(v@.subrange(0, v@.len() as int) =~= v@);
    while i < v.len() && v[i] == c
        invariant
            i <= v.len(),
            strip_leading(v@, c) == strip_leading(v@.subrange(i as int, v@.len() as int), c),
        decreases v.len() - i,
    {
        assert(v@.subrange(i as int, v@.len() as int).drop_first() =~= v@.subrange(i + 1, v@.len() as int));
        i = i + 1;
    }
    let r = copy_range(v, i, v.len());
    proof {
        let rest = v@.subrange(i as int, v@.len() as int);
        if rest.len() > 0 {
            assert(rest[0] == v@[i as int]);
        }
    }
    r
}

pub fn strip_trailing_of(v: &[char], c: char) -> (r: Vec<char>)
    ensures
        r@ == strip_trailing(v@, c),
{
    let mut j: usize = v.len();
    assert(v@.subrange(0, v@.len() as int) =~= v@);
    while j > 0 && v[j - 1] == c
        invariant
            j <= v.len(),
            strip_trailing(v@, c) == strip_trailing(v@.subrange(0, j as int), c),
        decreases j,
    {
        assert(v@.subrange(0, j as int).drop_last() =~= v@.subrange(0, j - 1));
        j = j - 1;
    }
    let r = copy_range(v, 0, j);
    proof {
        let rest = v@.subrange(0, j as int);
        if rest.len() > 0 {
            assert(rest.last() == v@[j - 1]);
        }
    }
    r
}

/// `i` is the last position of `c` in `s`.
pub open spec fn last_at(s: Seq<char>, c: char, i: int) -> bool {
    0 <= i < s.len() && s[i] == c && forall|j: int| i < j < s.len() ==> s[j] != c
}

/// `str::rsplit_once` with a character: the text before and after its last
/// occurrence.
pub open spec fn rsplit_once(s: Seq<char>, c: char) -> Option<(Seq<char>, Seq<char>)> {
    if exists|i: int| 0 <= i < s.len() && s[i] == c {
        let i = choose|i: int| last_at(s, c, i);
        Some((s.subrange(0, i), s.subrange(i + 1, s.len() as int)))
    } else {
        None
    }
}

pub fn rsplit_once_char(s: &[char], c: char) -> (r: Option<(Vec<char>, Vec<char>)>)
    ensures
        match r {
            Some(pr) => rsplit_once(s@, c) == Some((pr.0@, pr.1@)),
            None => rsplit_once(s@, c) is None,
        },
{
    let mut j: usize = s.len();
    while j > 0
        invariant
            j <= s.len(),
            forall|k: int| j <= k < s.len() ==> s@[k] != c,
        decreases j,
    {
        if s[j - 1] == c {
            let i = j - 1;
            proof {
                assert(last_at(s@, c, i as int));
                let w = choose|w: int| last_at(s@, c, w);
                assert(last_at(s@, c, w));
                if w < i {
                    assert(s@[i as int] == c);
                } else if i < w {
                    assert(s@[w] == c);
                }
            }
            let a = copy_range(s, 0, i);
            let b = copy_range(s, j, s.len());
            return Some((a, b));
        }
        j = j - 1;
    }
    None
}

/// The digits and at most one point of a number's mantissa, with at least
/// one digit.
pub open spec fn float_mantissa(m: Seq<char>) -> bool {
    match split_once(m, "."@) {
        Some(p) => all_digits(p.0) && all_digits(p.1) && p.0.len() + p.1.len() > 0,
        None => m.len() > 0 && all_digits(m),
    }
}

/// Position of the first `e` or `E`, or the length when there is none.
pub open spec fn exponent_start(b: Seq<char>) -> int
    decreases b.len(),
{
    if b.len() == 0 || b[0] == 'e' || b[0] == 'E' {
        0
    } else {
        1 + exponent_start(b.drop_first())
    }
}

/// An exponent: nothing, or `e`/`E`, an optional sign, and one or more digits.
pub open spec fn float_exponent(x: Seq<char>) -> bool {
    x.len() == 0 || {
        let y = x.drop_first();
        let z = if y.len() > 0 && (y[0] == '+' || y[0] == '-') {
            y.drop_first()
        } else {
            y
        };
        z.len() > 0 && all_digits(z)
    }
}

/// Text that `str::parse::<f32>` accepts: an optional sign, then `inf`,
/// `infinity` or `nan` in any case, or a decimal number with an optional
/// exponent.
pub open spec fn float_text(s: Seq<char>) -> bool {
    let b = if s.len() > 0 && (s[0] == '+' || s[0] == '-') {
        s.drop_first()
    } else {
        s
    };
    let e = exponent_start(b);
    ||| eq_ascii_ci(b, "inf"@)
    ||| eq_ascii_ci(b, "infinity"@)
    ||| eq_ascii_ci(b, "nan"@)
    ||| (float_mantissa(b.subrange(0, e)) && float_exponent(b.subrange(e, b.len() as int)))
}

proof fn lemma_exponent_start(b: Seq<char>, k: int)
    requires
        0 <= k <= b.len(),
        forall|j: int| 0 <= j < k ==> b[j] != 'e' && b[j] != 'E',
        k == b.len() || b[k] == 'e' || b[k] == 'E',
    ensures
        exponent_start(b) == k,
    decreases b.len(),
{
    if b.len() > 0 && k > 0 {
        let d = b.drop_first();
        assert forall|j: int| 0 <= j < k - 1 implies d[j] != 'e' && d[j] != 'E' by {
            assert(d[j] == b[j + 1]);
        }
        if k < b.len() {
            assert(d[k - 1] == b[k]);
        }
        lemma_exponent_start(d, k - 1);
    }
}

fn all_digits_of(v: &[char]) -> (r: bool)
    ensures
        r == all_digits(v@),
{
    let mut i: usize = 0;
    while i < v.len()
        invariant
            i <= v.len(),
            forall|k: int| 0 <= k < i ==> is_digit(#[trigger] v@[k]),
        decreases v.len() - i,
    {
        if !(v[i] >= '0' && v[i] <= '9') {
            assert(!is_digit(v@[i as int]));
            return false;
        }
        i = i + 1;
    }
    true
}

/// Whether `str::parse::<f32>` accepts the text.
pub fn is_float_text(s: &[char]) -> (r: bool)
    ensures
        r == float_text(s@),
{
    let from: usize = if s.len() > 0 && (s[0] == '+' || s[0] == '-') {
        1
    } else {
        0
    };
    let b = copy_range(s, from, s.len());
    proof {
        if from == 1 {
            assert(b@ =~= s@.drop_first());
        } else {
            assert(b@ =~= s@);
        }
    }
    if eq_ignore_ascii_case_str(&b, "inf") || eq_ignore_ascii_case_str(&b, "infinity")
        || eq_ignore_ascii_case_str(&b, "nan") {
        return true;
    }
    let mut e: usize = 0;
    while e < b.len() && b[e] != 'e' && b[e] != 'E'
        invariant
            e <= b@.len(),
            forall|j: int| 0 <= j < e ==> b@[j] != 'e' && b@[j] != 'E',
        decreases b@.len() - e,
    {
        e = e + 1;
    }
    proof {
        lemma_exponent_start(b@, e as int);
    }
    let m = copy_range(&b, 0, e);
    let x = copy_range(&b, e, b.len());
    let mant = match split_once_str(&m, ".") {
        Some(p) => all_digits_of(&p.0) && all_digits_of(&p.1) && (p.0.len() > 0 || p.1.len() > 0),
        None => m.len() > 0 && all_digits_of(&m),
    };
    if !mant {
        return false;
    }
    if x.len() == 0 {
        return true;
    }
    let y = copy_range(&x, 1, x.len());
    assert(y@ =~= x@.drop_first());
    let z = if y.len() > 0 && (y[0] == '+' || y[0] == '-') {
        let z = copy_range(&y, 1, y.len());
        assert(z@ =~= y@.drop_first());
        z
    } else {
        y
    };
    z.len() > 0 && all_digits_of(&z)
}

/// `trim_start_matches(p)` with a text pattern: every leading copy of `p`
/// removed.
pub open spec fn strip_leading_text(s: Seq<char>, p: Seq<char>) -> Seq<char>
    decreases s.len(),
{
    if p.len() > 0 && has_prefix(s, p) {
        strip_leading_text(s.skip(p.len() as int), p)
    } else {
        s
    }
}

pub fn strip_leading_text_of(v: &[char], p: &str) -> (r: Vec<char>)
    ensures
        r@ == strip_leading_text(v@, p@),
{
    let pv = chars_of(p);
    let mut i: usize = 0;
    assert(v@.skip(0) =~= v@);
    while pv.len() > 0 && i <= v.len() && v.len() - i >= pv.len() && occurs_at_exec(v, &pv, i)
        invariant
            i <= v.len(),
            pv@ == p@,
            strip_leading_text(v@, p@) == strip_leading_text(v@.skip(i as int), p@),
        decreases v.len() - i,
    {
        proof {
            assert(v@.skip(i as int).subrange(0, pv@.len() as int) =~= v@.subrange(i as int, i + pv@.len()));
            assert(v@.skip(i as int).skip(pv@.len() as int) =~= v@.skip(i + pv@.len()));
        }
        i = i + pv.len();
    }
    proof {
        if pv@.len() > 0 && has_prefix(v@.skip(i as int), p@) {
            assert(v@.skip(i as int).subrange(0, pv@.len() as int) =~= v@.subrange(i as int, i + pv@.len()));
            assert(occurs_at(v@, pv@, i as int));
        }
    }
    let r = copy_range(v, i, v.len());
    assert(r@ =~= v@.skip(i as int));
    r
}

/// `i` is the last position at which `p` occurs in `s`.
pub open spec fn last_occurrence(s: Seq<char>, p: Seq<char>, i: int) -> bool {
    occurs_at(s, p, i) && forall|j: int| i < j ==> !occurs_at(s, p, j)
}

/// `str::rsplit_once` with a text pattern: the text before and after its
/// last occurrence.
pub open spec fn rsplit_once_text(s: Seq<char>, p: Seq<char>) -> Option<(Seq<char>, Seq<char>)> {
    if has_infix(s, p) {
        let i = choose|i: int| last_occurrence(s, p, i);
        Some((s.subrange(0, i), s.subrange(i + p.len(), s.len() as int)))
    } else {
        None
    }
}

pub fn rsplit_once_str(s: &[char], p: &str) -> (r: Option<(Vec<char>, Vec<char>)>)
    ensures
        match r {
            Some(pr) => rsplit_once_text(s@, p@) == Some((pr.0@, pr.1@)),
            None => rsplit_once_text(s@, p@) is None,
        },
{
    let pv = chars_of(p);
    if pv.len() > s.len() {
        proof {
            assert forall|j: int| !occurs_at(s@, p@, j) by {}
        }
        return None;
    }
    let last = s.len() - pv.len();
    let mut i: usize = last;
    loop
        invariant
            i <= last,
            last + pv@.len() == s@.len(),
            pv@ == p@,
            forall|k: int| i < k ==> !occurs_at(s@, p@, k),
        decreases i,
    {
        if occurs_at_exec(s, &pv, i) {
            proof {
                assert(last_occurrence(s@, p@, i as int));
                let w = choose|w: int| last_occurrence(s@, p@, w);
                assert(last_occurrence(s@, p@, w));
                if w < i {
                    assert(!occurs_at(s@, p@, i as int));
                } else if i < w {
                    assert(!occurs_at(s@, p@, w));
                }
            }
            let sl = s.len();
            let pl = pv.len();
            let a = copy_range(s, 0, i);
            let b = copy_range(s, i + pl, sl);
            return Some((a, b));
        }
        if i == 0 {
            proof {
                assert forall|k: int| !occurs_at(s@, p@, k) by {
                    if occurs_at(s@, p@, k) {
                        assert(k >= 0);
                    }
                }
            }
            return None;
        }
        i = i - 1;
    }
}

} // verus!
