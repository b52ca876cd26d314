//! Character-level utilities shared by the classifier and the span engine:
//! conversions between strings and character vectors, range copies, and
//! whitespace trimming with its specification.

use vstd::prelude::*;
use vstd::string::StrSliceExecFns;

verus! {

/// Relies on String::push: appends the given character to the end of the
/// string.
pub assume_specification[ String::push ](s: &mut String, ch: char)
    ensures
        final(s)@ == old(s)@.push(ch),
;

/// The whitespace characters the renderer strips when trimming a line:
/// the ASCII whitespace set.
pub open spec fn is_ws(c: char) -> bool {
    c == ' ' || c == '\t' || c == '\n' || c == '\r' || c == '\x0b' || c == '\x0c'
}

/// Executable form of [`is_ws`].
pub fn ws_char(c: char) -> (r: bool)
    ensures
        r == is_ws(c),
{
    c == ' ' || c == '\t' || c == '\n' || c == '\r' || c == '\x0b' || c == '\x0c'
}

/// Collects the characters of `s` into a vector.
pub fn to_char_vec(s: &str) -> (v: Vec<char>)
    ensures
        v@ == s@,
{
    let n = s.unicode_len();
    let mut v: Vec<char> = Vec::new();
    let mut i: usize = 0;
    while i < n
        invariant
            n == s@.len(),
            i <= n,
            v@ == s@.subrange(0, i as int),
        decreases n - i,
    {
        v.push(s.get_char(i));
        i = i + 1;
        proof {
            assert(v@ =~= s@.subrange(0, i as int));
        }
    }
    proof {
        assert(v@ =~= s@);
    }
    v
}

/// Collects the characters of `v` into a string.
pub fn chars_to_string(v: &Vec<char>) -> (s: String)
    ensures
        s@ == v@,
{
    let mut s = String::new();
    let mut i: usize = 0;
    while i < v.len()
        invariant
            i <= v@.len(),
            s@ == v@.subrange(0, i as int),
        decreases v@.len() - i,
    {
        s.push(v[i]);
        i = i + 1;
        proof {
            assert(s@ =~= v@.subrange(0, i as int));
        }
    }
    proof {
        assert(s@ =~= v@);
    }
    s
}

/// Copies `v[from..to]` into a fresh vector.
pub fn copy_range(v: &Vec<char>, from: usize, to: usize) -> (out: Vec<char>)
    requires
        from <= to <= v@.len(),
    ensures
        out@ == v@.subrange(from as int, to as int),
{
    let mut out: Vec<char> = Vec::new();
    let mut i: usize = from;
    while i < to
        invariant
            from <= i <= to <= v@.len(),
            out@ == v@.subrange(from as int, i as int),
        decreases to - i,
    {
        out.push(v[i]);
        i = i + 1;
        proof {
            assert(out@ =~= v@.subrange(from as int, i as int));
        }
    }
    out
}

/// Appends `v[from..to]` to `out`.
pub fn append_range(out: &mut Vec<char>, v: &Vec<char>, from: usize, to: usize)
    requires
        from <= to <= v@.len(),
    ensures
        final(out)@ == old(out)@ + v@.subrange(from as int, to as int),
{
    let mut i: usize = from;
    while i < to
        invariant
            from <= i <= to <= v@.len(),
            out@ == old(out)@ + v@.subrange(from as int, i as int),
        decreases to - i,
    {
        out.push(v[i]);
        i = i + 1;
        proof {
            assert(out@ =~= old(out)@ + v@.subrange(from as int, i as int));
        }
    }
}

/// Appends all of `v` to `out`.
pub fn append_all(out: &mut Vec<char>, v: &Vec<char>)
    ensures
        final(out)@ == old(out)@ + v@,
{
    append_range(out, v, 0, v.len());
    proof {
        assert(old(out)@ + v@.subrange(0, v@.len() as int) =~= old(out)@ + v@);
    }
}

/// The first index at or after `i` holding a non-whitespace character
/// (or the length of `s` if there is none).
pub open spec fn ws_scan_fwd(s: Seq<char>, i: int) -> int
    decreases s.len() - i,
{
    if i < 0 || i >= s.len() || !is_ws(s[i]) {
        i
    } else {
        ws_scan_fwd(s, i + 1)
    }
}

/// The index just after the last non-whitespace character strictly below
/// `i` (or 0 if there is none).
pub open spec fn ws_scan_back(s: Seq<char>, i: int) -> int
    decreases i,
{
    if i <= 0 || i > s.len() || !is_ws(s[i - 1]) {
        i
    } else {
        ws_scan_back(s, i - 1)
    }
}

/// `s` with leading and trailing whitespace removed.
pub open spec fn trimmed_of(s: Seq<char>) -> Seq<char> {
    let a = ws_scan_fwd(s, 0);
    let b = ws_scan_back(s, s.len() as int);
    if a <= b {
        s.subrange(a, b)
    } else {
        Seq::empty()
    }
}

/// What the forward whitespace scan returns: an in-range index, whitespace
/// everywhere before it, and a non-whitespace character at it unless the
/// scan ran off the end.
pub proof fn lemma_ws_scan_fwd(s: Seq<char>, i: int)
    requires
        0 <= i <= s.len(),
    ensures
        i <= ws_scan_fwd(s, i) <= s.len(),
        forall|j: int| i <= j < ws_scan_fwd(s, i) ==> is_ws(s[j]),
        ws_scan_fwd(s, i) < s.len() ==> !is_ws(s[ws_scan_fwd(s, i)]),
    decreases s.len() - i,
{
    if i < s.len() && is_ws(s[i]) {
        lemma_ws_scan_fwd(s, i + 1);
    }
}

/// What the backward whitespace scan returns: an in-range index, whitespace
/// everywhere at and after it up to the start point, and a non-whitespace
/// character just below it unless the scan reached 0.
pub proof fn lemma_ws_scan_back(s: Seq<char>, i: int)
    requires
        0 <= i <= s.len(),
    ensures
        0 <= ws_scan_back(s, i) <= i,
        forall|j: int| ws_scan_back(s, i) <= j < i ==> is_ws(s[j]),
        ws_scan_back(s, i) > 0 ==> !is_ws(s[ws_scan_back(s, i) - 1]),
    decreases i,
{
    if i > 0 && is_ws(s[i - 1]) {
        lemma_ws_scan_back(s, i - 1);
    }
}

/// `v` with leading and trailing whitespace removed.
pub fn trim_vec(v: &Vec<char>) -> (t: Vec<char>)
    ensures
        t@ == trimmed_of(v@),
{
    let n = v.len();
    let mut a: usize = 0;
    while a < n && ws_char(v[a])
        invariant
            a <= n == v@.len(),
            ws_scan_fwd(v@, 0) == ws_scan_fwd(v@, a as int),
        decreases n - a,
    {
        a = a + 1;
    }
    proof {
        assert(ws_scan_fwd(v@, a as int) == a as int);
    }
    if a == n {
        // Whitespace only: the trimmed line is empty.
        proof {
            lemma_ws_scan_back(v@, n as int);
        }
        let t: Vec<char> = Vec::new();
        proof {
            assert(t@ =~= trimmed_of(v@));
        }
        return t;
    }
    // v[a] is the first non-whitespace character, so the backward scan from
    // the end stops strictly above it.
    proof {
        lemma_ws_scan_back(v@, n as int);
        if ws_scan_back(v@, n as int) <= a as int {
            assert(is_ws(v@[a as int]));
        }
    }
    let mut b: usize = n;
    while ws_char(v[b - 1])
        invariant
            a < b <= n == v@.len(),
            ws_scan_back(v@, n as int) == ws_scan_back(v@, b as int),
            ws_scan_back(v@, n as int) > a as int,
            !is_ws(v@[a as int]),
        decreases b,
    {
        proof {
            lemma_ws_scan_back(v@, b as int);
            if ws_scan_back(v@, b as int) <= a as int {
                assert(is_ws(v@[a as int]));
            }
        }
        b = b - 1;
    }
    proof {
        assert(ws_scan_back(v@, b as int) == b as int);
    }
    let t = copy_range(v, a, b);
    proof {
        assert(t@ =~= trimmed_of(v@));
    }
    t
}

} // verus!
