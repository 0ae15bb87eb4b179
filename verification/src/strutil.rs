//! Character and string helpers shared by the parser and the resolution
//! engine: whitespace trimming, separator search, equality and prefix tests,
//! and ASCII-case-insensitive comparison.

use vstd::prelude::*;

verus! {

/// The whitespace characters that the spec grammar strips.
pub open spec fn is_ws(c: char) -> bool {
    c == ' ' || c == '\t' || c == '\n' || c == '\r'
}

/// Index of the first non-whitespace character at or after `i`, or the length.
pub open spec fn trim_start_idx(s: Seq<char>, i: int) -> int
    decreases s.len() - i,
{
    if i < 0 || i >= s.len() {
        s.len() as int
    } else if is_ws(s[i]) {
        trim_start_idx(s, i + 1)
    } else {
        i
    }
}

/// End of the last non-whitespace character strictly before `i`, or zero.
pub open spec fn trim_end_idx(s: Seq<char>, i: int) -> int
    decreases i,
{
    if i <= 0 || i > s.len() {
        0
    } else if is_ws(s[i - 1]) {
        trim_end_idx(s, i - 1)
    } else {
        i
    }
}

/// `s` with leading and trailing whitespace removed.
pub open spec fn trim_spec(s: Seq<char>) -> Seq<char> {
    let a = trim_start_idx(s, 0);
    let b = trim_end_idx(s, s.len() as int);
    if a <= b {
        s.subrange(a, b)
    } else {
        Seq::empty()
    }
}

pub proof fn lemma_trim_start_props(s: Seq<char>, i: int)
    requires
        0 <= i <= s.len(),
    ensures
        i <= trim_start_idx(s, i) <= s.len(),
        forall|j: int| i <= j < trim_start_idx(s, i) ==> is_ws(s[j]),
        trim_start_idx(s, i) < s.len() ==> !is_ws(s[trim_start_idx(s, i)]),
    decreases s.len() - i,
{
    if i < s.len() && is_ws(s[i]) {
        lemma_trim_start_props(s, i + 1);
    }
}

pub proof fn lemma_trim_end_props(s: Seq<char>, i: int)
    requires
        0 <= i <= s.len(),
    ensures
        0 <= trim_end_idx(s, i) <= i,
        forall|j: int| trim_end_idx(s, i) <= j < i ==> is_ws(s[j]),
        trim_end_idx(s, i) > 0 ==> !is_ws(s[trim_end_idx(s, i) - 1]),
    decreases i,
{
    if i > 0 && is_ws(s[i - 1]) {
        lemma_trim_end_props(s, i - 1);
    }
}

/// Whether `c` is grammar whitespace.
pub fn is_ws_exec(c: char) -> (r: bool)
    ensures
        r == is_ws(c),
{
    c == ' ' || c == '\t' || c == '\n' || c == '\r'
}

/// `s` with leading and trailing whitespace removed.
pub fn trim(s: &str) -> (r: &str)
    ensures
        r@ == trim_spec(s@),
{
    let n = s.unicode_len();
    let mut a: usize = 0;
    while a < n && is_ws_exec(s.get_char(a))
        invariant
            0 <= a <= n,
            n == s@.len(),
            trim_start_idx(s@, 0) == trim_start_idx(s@, a as int),
        decreases n - a,
    {
        a = a + 1;
    }
    proof {
        assert(trim_start_idx(s@, a as int) == a as int);
        lemma_trim_end_props(s@, n as int);
    }
    if a == n {
        // Everything is whitespace: the end scan also runs all the way down.
        proof {
            lemma_trim_start_props(s@, 0);
            let b = trim_end_idx(s@, n as int);
            if b > 0 {
                assert(!is_ws(s@[b - 1]));
                assert(is_ws(s@[b - 1]));
            }
            assert(trim_spec(s@) =~= Seq::<char>::empty());
            reveal_strlit("");
            assert(""@ =~= Seq::<char>::empty());
        }
        return "";
    }
    let mut b: usize = n;
    while b > a + 1 && is_ws_exec(s.get_char(b - 1))
        invariant
            a < b <= n,
            a < n,
            n == s@.len(),
            trim_end_idx(s@, n as int) == trim_end_idx(s@, b as int),
        decreases b,
    {
        b = b - 1;
    }
    proof {
        assert(trim_start_idx(s@, 0) == a as int);
        assert(!is_ws(s@[a as int]));
        if b == a + 1 {
            assert(trim_end_idx(s@, b as int) == b as int);
        } else {
            assert(!is_ws(s@[b as int - 1]));
            assert(trim_end_idx(s@, b as int) == b as int);
        }
    }
    s.substring_char(a, b)
}

/// Index of the first occurrence of `c` at or after `i`, or the length.
pub open spec fn find_idx(s: Seq<char>, i: int, c: char) -> int
    decreases s.len() - i,
{
    if i < 0 || i >= s.len() {
        s.len() as int
    } else if s[i] == c {
        i
    } else {
        find_idx(s, i + 1, c)
    }
}

pub proof fn lemma_find_props(s: Seq<char>, i: int, c: char)
    requires
        0 <= i <= s.len(),
    ensures
        i <= find_idx(s, i, c) <= s.len(),
        find_idx(s, i, c) < s.len() ==> s[find_idx(s, i, c)] == c,
        forall|j: int| i <= j < find_idx(s, i, c) ==> s[j] != c,
    decreases s.len() - i,
{
    if i < s.len() && s[i] != c {
        lemma_find_props(s, i + 1, c);
    }
}

/// First position of `c` in `s` at or after `from`, or the length of `s`.
pub fn find_char(s: &str, from: usize, c: char) -> (r: usize)
    requires
        from <= s@.len(),
    ensures
        r == find_idx(s@, from as int, c),
{
    let n = s.unicode_len();
    let mut i: usize = from;
    while i < n && s.get_char(i) != c
        invariant
            from <= i <= n,
            n == s@.len(),
            find_idx(s@, from as int, c) == find_idx(s@, i as int, c),
        decreases n - i,
    {
        i = i + 1;
    }
    i
}

/// Exact string equality.
pub fn str_eq(a: &str, b: &str) -> (r: bool)
    ensures
        r == (a@ == b@),
{
    let an = a.unicode_len();
    let bn = b.unicode_len();
    if an != bn {
        proof {
            assert(a@.len() != b@.len());
        }
        return false;
    }
    let mut i: usize = 0;
    while i < an
        invariant
            0 <= i <= an,
            an == a@.len(),
            an == b@.len(),
            forall|j: int| 0 <= j < i ==> a@[j] == b@[j],
        decreases an - i,
    {
        if a.get_char(i) != b.get_char(i) {
            return false;
        }
        i = i + 1;
    }
    proof {
        assert(a@ =~= b@);
    }
    true
}

/// Two characters are equal up to ASCII case.
pub open spec fn chars_eq_nocase(x: char, y: char) -> bool {
    x == y || (65 <= x as int <= 90 && y as int == x as int + 32) || (65 <= y as int <= 90
        && x as int == y as int + 32)
}

/// Two strings are equal up to ASCII case.
pub open spec fn seq_eq_nocase(a: Seq<char>, b: Seq<char>) -> bool {
    a.len() == b.len() && (forall|i: int| 0 <= i < a.len() ==> chars_eq_nocase(a[i], b[i]))
}

/// ASCII-case-insensitive string equality.
pub fn str_eq_nocase(a: &str, b: &str) -> (r: bool)
    ensures
        r == seq_eq_nocase(a@, b@),
{
    let an = a.unicode_len();
    let bn = b.unicode_len();
    if an != bn {
        return false;
    }
    let mut i: usize = 0;
    while i < an
        invariant
            0 <= i <= an,
            an == a@.len(),
            an == b@.len(),
            forall|j: int| 0 <= j < i ==> chars_eq_nocase(a@[j], b@[j]),
        decreases an - i,
    {
        let x = a.get_char(i) as u32;
        let y = b.get_char(i) as u32;
        let m = x == y || (65 <= x && x <= 90 && y == x + 32) || (65 <= y && y <= 90 && x == y
            + 32);
        if !m {
            proof {
                assert(!chars_eq_nocase(a@[i as int], b@[i as int]));
            }
            return false;
        }
        i = i + 1;
    }
    true
}

/// `p` is a prefix of `s`.
pub open spec fn is_prefix(p: Seq<char>, s: Seq<char>) -> bool {
    p.len() <= s.len() && p == s.subrange(0, p.len() as int)
}

/// Whether `p` is a prefix of `s`.
pub fn starts_with(s: &str, p: &str) -> (r: bool)
    ensures
        r == is_prefix(p@, s@),
{
    let pn = p.unicode_len();
    let sn = s.unicode_len();
    if pn > sn {
        proof {
            assert(!is_prefix(p@, s@));
        }
        return false;
    }
    let mut i: usize = 0;
    while i < pn
        invariant
            0 <= i <= pn,
            pn <= sn,
            pn == p@.len(),
            sn == s@.len(),
            forall|j: int| 0 <= j < i ==> p@[j] == s@[j],
        decreases pn - i,
    {
        if p.get_char(i) != s.get_char(i) {
            proof {
                assert(s@.subrange(0, pn as int)[i as int] == s@[i as int]);
            }
            return false;
        }
        i = i + 1;
    }
    proof {
        assert(p@ =~= s@.subrange(0, pn as int));
    }
    true
}

} // verus!
