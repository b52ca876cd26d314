//! The marker vocabulary of the inline span engine: the seven marker
//! families, searches for character runs, and the leftmost-candidate
//! selection that decides which marker is handled next.

use vstd::prelude::*;

verus! {

/// The kind of an inline span marker, ordered here as the scan evaluates
/// the families: longer markers first, then single-character emphasis,
/// then backticks.
#[derive(Clone, Copy, Debug, PartialEq, Eq, Structural)]
pub enum MarkerKind {
    /// `***`
    BoldItalicStar,
    /// `___`
    BoldItalicUnderscore,
    /// `**`
    BoldStar,
    /// `__`
    BoldUnderscore,
    /// `*`
    ItalicStar,
    /// `_`
    ItalicUnderscore,
    /// A backtick run.
    Code,
}

/// The character a marker family is written with.
pub open spec fn marker_char(k: MarkerKind) -> char {
    match k {
        MarkerKind::BoldItalicStar => '*',
        MarkerKind::BoldItalicUnderscore => '_',
        MarkerKind::BoldStar => '*',
        MarkerKind::BoldUnderscore => '_',
        MarkerKind::ItalicStar => '*',
        MarkerKind::ItalicUnderscore => '_',
        MarkerKind::Code => '`',
    }
}

/// How many characters a marker family consumes when it opens.
pub open spec fn marker_len(k: MarkerKind) -> nat {
    match k {
        MarkerKind::BoldItalicStar => 3,
        MarkerKind::BoldItalicUnderscore => 3,
        MarkerKind::BoldStar => 2,
        MarkerKind::BoldUnderscore => 2,
        MarkerKind::ItalicStar => 1,
        MarkerKind::ItalicUnderscore => 1,
        MarkerKind::Code => 1,
    }
}

/// `k` consecutive copies of `c` stand at position `i` of `s`.
pub open spec fn run_at(s: Seq<char>, c: char, k: nat, i: int) -> bool {
    &&& 0 <= i
    &&& i + k <= s.len()
    &&& forall|j: int| i <= j < i + k ==> s[j] == c
}

/// The first position at or after `i` where `k` consecutive copies of `c`
/// stand, if any.
pub open spec fn find_run(s: Seq<char>, c: char, k: nat, i: int) -> Option<int>
    decreases s.len() - i,
{
    if i < 0 || i + k > s.len() {
        None
    } else if run_at(s, c, k, i) {
        Some(i)
    } else {
        find_run(s, c, k, i + 1)
    }
}

/// What a successful run search returns: the first matching position at or
/// after the start; a failed search means there is no match anywhere after
/// the start.
pub proof fn lemma_find_run(s: Seq<char>, c: char, k: nat, i: int)
    requires
        0 <= i,
    ensures
        match find_run(s, c, k, i) {
            Some(r) => {
                &&& i <= r
                &&& r + k <= s.len()
                &&& run_at(s, c, k, r)
                &&& forall|j: int| i <= j < r ==> !run_at(s, c, k, j)
            },
            None => forall|j: int| i <= j ==> !run_at(s, c, k, j),
        },
    decreases s.len() - i,
{
    if i + k > s.len() {
        assert forall|j: int| i <= j implies !run_at(s, c, k, j) by {
            if run_at(s, c, k, j) {
                assert(j + k <= s.len());
            }
        }
    } else if run_at(s, c, k, i) {
    } else {
        lemma_find_run(s, c, k, i + 1);
    }
}

/// If `c` never occurs at or after `i`, no non-empty run of `c` starts
/// there either.
pub proof fn lemma_find_run_absent(s: Seq<char>, c: char, k: nat, i: int)
    requires
        0 <= i,
        1 <= k,
        forall|j: int| i <= j < s.len() ==> s[j] != c,
    ensures
        find_run(s, c, k, i) is None,
    decreases s.len() - i,
{
    if i + k <= s.len() {
        if run_at(s, c, k, i) {
            assert(s[i] == c);
        }
        lemma_find_run_absent(s, c, k, i + 1);
    }
}

/// The length of the run of `c` that starts at position `i` of `s`.
pub open spec fn run_len_at(s: Seq<char>, c: char, i: int) -> nat
    decreases s.len() - i,
{
    if i < 0 || i >= s.len() || s[i] != c {
        0
    } else {
        1 + run_len_at(s, c, i + 1)
    }
}

/// The run starting at `i` fits in `s`, consists of `c`, and is maximal.
pub proof fn lemma_run_len_at(s: Seq<char>, c: char, i: int)
    requires
        0 <= i <= s.len(),
    ensures
        i + run_len_at(s, c, i) <= s.len(),
        run_at(s, c, run_len_at(s, c, i), i),
        i + run_len_at(s, c, i) < s.len() ==> s[i + run_len_at(s, c, i)] != c,
        i < s.len() && s[i] == c ==> run_len_at(s, c, i) >= 1,
    decreases s.len() - i,
{
    if 0 <= i < s.len() && s[i] == c {
        lemma_run_len_at(s, c, i + 1);
        let k = run_len_at(s, c, i);
        assert(k == 1 + run_len_at(s, c, i + 1));
        assert(run_at(s, c, (k - 1) as nat, i + 1));
        assert forall|j: int| i <= j < i + k implies s[j] == c by {
            if j > i {
                assert(i + 1 <= j < i + 1 + (k - 1));
            }
        }
    }
}

/// Finds the first position at or after `from` where `k` consecutive
/// copies of `c` stand.
pub fn find_run_vec(v: &Vec<char>, c: char, k: usize, from: usize) -> (r: Option<usize>)
    requires
        from <= v@.len(),
        1 <= k,
    ensures
        ({
            let f = find_run(v@, c, k as nat, from as int);
            match r {
                Some(u) => f == Some(u as int),
                None => f is None,
            }
        }),
{
    let n = v.len();
    let mut i: usize = from;
    loop
        invariant
            from <= i <= n == v@.len(),
            1 <= k,
            find_run(v@, c, k as nat, from as int) == find_run(v@, c, k as nat, i as int),
        decreases n - i,
    {
        if k > n - i {
            return None;
        }
        if run_at_vec(v, c, k, i) {
            return Some(i);
        }
        i = i + 1;
    }
}

/// Checks whether `k` consecutive copies of `c` stand at position `i`.
pub fn run_at_vec(v: &Vec<char>, c: char, k: usize, i: usize) -> (r: bool)
    requires
        i + k <= v@.len(),
    ensures
        r == run_at(v@, c, k as nat, i as int),
{
    let n = v.len();
    let mut j: usize = 0;
    while j < k
        invariant
            j <= k,
            i + k <= n == v@.len(),
            forall|t: int| i <= t < i + j ==> v@[t] == c,
        decreases k - j,
    {
        if v[i + j] != c {
            return false;
        }
        j = j + 1;
    }
    true
}

/// Measures the run of `c` that starts at position `i`.
pub fn run_len_vec(v: &Vec<char>, c: char, i: usize) -> (n: usize)
    requires
        i <= v@.len(),
    ensures
        n as nat == run_len_at(v@, c, i as int),
        i + n <= v@.len(),
{
    let len = v.len();
    let mut j: usize = i;
    while j < len && v[j] == c
        invariant
            i <= j <= len == v@.len(),
            run_len_at(v@, c, i as int) == (j - i) + run_len_at(v@, c, j as int),
        decreases len - j,
    {
        j = j + 1;
    }
    j - i
}

/// A candidate occurrence of a marker family: its position, its kind, and
/// the number of characters its opener consumes.
pub open spec fn lift_cand(c: (usize, MarkerKind, usize)) -> (int, MarkerKind, int) {
    (c.0 as int, c.1, c.2 as int)
}

/// The candidate list contributed by one unguarded marker family.
pub open spec fn cand_entry(s: Seq<char>, pos: int, kind: MarkerKind) -> Seq<(int, MarkerKind, int)> {
    match find_run(s, marker_char(kind), marker_len(kind), pos) {
        Some(i) => seq![(i, kind, marker_len(kind) as int)],
        None => Seq::empty(),
    }
}

/// The candidate list contributed by a single-character emphasis family:
/// suppressed when the occurrence found is the start of a longer run of
/// the same character.
pub open spec fn italic_entry(s: Seq<char>, pos: int, kind: MarkerKind) -> Seq<(int, MarkerKind, int)> {
    match find_run(s, marker_char(kind), 1, pos) {
        Some(i) => if run_at(s, marker_char(kind), 2, i) {
            Seq::empty()
        } else {
            seq![(i, kind, 1)]
        },
        None => Seq::empty(),
    }
}

/// Every marker candidate found at or after `pos`, in the order the
/// families are evaluated.
pub open spec fn spec_candidates(s: Seq<char>, pos: int) -> Seq<(int, MarkerKind, int)> {
    cand_entry(s, pos, MarkerKind::BoldItalicStar) + cand_entry(s, pos, MarkerKind::BoldItalicUnderscore)
        + cand_entry(s, pos, MarkerKind::BoldStar) + cand_entry(s, pos, MarkerKind::BoldUnderscore)
        + italic_entry(s, pos, MarkerKind::ItalicStar) + italic_entry(s, pos, MarkerKind::ItalicUnderscore)
        + cand_entry(s, pos, MarkerKind::Code)
}

/// Keeps the candidate with the smaller position; the earlier one wins
/// ties.
pub open spec fn better(
    best: Option<(int, MarkerKind, int)>,
    x: (int, MarkerKind, int),
) -> Option<(int, MarkerKind, int)> {
    match best {
        None => Some(x),
        Some(b) => if x.0 < b.0 {
            Some(x)
        } else {
            best
        },
    }
}

/// Folds [`better`] over `cands[i..]`, starting from `best`.
pub open spec fn min_from(
    cands: Seq<(int, MarkerKind, int)>,
    i: int,
    best: Option<(int, MarkerKind, int)>,
) -> Option<(int, MarkerKind, int)>
    decreases cands.len() - i,
{
    if i < 0 || i >= cands.len() {
        best
    } else {
        min_from(cands, i + 1, better(best, cands[i]))
    }
}

/// The leftmost marker candidate at or after `pos`, with the earliest
/// family winning ties.
pub open spec fn next_marker(s: Seq<char>, pos: int) -> Option<(int, MarkerKind, int)> {
    min_from(spec_candidates(s, pos), 0, None)
}

/// What every candidate at or after `pos` satisfies: it lies at or after
/// `pos`, its length is the family's marker length, and the marker's
/// characters stand at its position.
pub open spec fn cand_ok(s: Seq<char>, pos: int, c: (int, MarkerKind, int)) -> bool {
    &&& pos <= c.0
    &&& c.2 == marker_len(c.1)
    &&& run_at(s, marker_char(c.1), marker_len(c.1), c.0)
}

/// The fold keeps [`cand_ok`] when the start value and all remaining
/// elements satisfy it.
proof fn lemma_min_from_ok(
    s: Seq<char>,
    pos: int,
    cands: Seq<(int, MarkerKind, int)>,
    i: int,
    best: Option<(int, MarkerKind, int)>,
)
    requires
        forall|j: int| i <= j < cands.len() ==> cand_ok(s, pos, #[trigger] cands[j]),
        best matches Some(b) ==> cand_ok(s, pos, b),
    ensures
        min_from(cands, i, best) matches Some(m) ==> cand_ok(s, pos, m),
    decreases cands.len() - i,
{
    if 0 <= i < cands.len() {
        lemma_min_from_ok(s, pos, cands, i + 1, better(best, cands[i]));
    }
}

/// Every candidate in the list satisfies [`cand_ok`].
pub proof fn lemma_candidates_ok(s: Seq<char>, pos: int)
    requires
        0 <= pos,
    ensures
        forall|j: int| 0 <= j < spec_candidates(s, pos).len() ==> cand_ok(
            s,
            pos,
            #[trigger] spec_candidates(s, pos)[j],
        ),
{
    let cands = spec_candidates(s, pos);
    assert forall|j: int| 0 <= j < cands.len() implies cand_ok(s, pos, #[trigger] cands[j]) by {
        lemma_find_run(s, '*', 3, pos);
        lemma_find_run(s, '_', 3, pos);
        lemma_find_run(s, '*', 2, pos);
        lemma_find_run(s, '_', 2, pos);
        lemma_find_run(s, '*', 1, pos);
        lemma_find_run(s, '_', 1, pos);
        lemma_find_run(s, '`', 1, pos);
    }
}

/// The marker the scan selects satisfies [`cand_ok`].
pub proof fn lemma_next_marker_ok(s: Seq<char>, pos: int)
    requires
        0 <= pos,
    ensures
        next_marker(s, pos) matches Some(m) ==> cand_ok(s, pos, m),
{
    let cands = spec_candidates(s, pos);
    lemma_candidates_ok(s, pos);
    lemma_min_from_ok(s, pos, cands, 0, None);
}

/// When none of the marker characters occurs at or after `pos`, the scan
/// finds nothing.
pub proof fn lemma_next_marker_absent(s: Seq<char>, pos: int)
    requires
        0 <= pos,
        forall|j: int| pos <= j < s.len() ==> s[j] != '*' && s[j] != '_' && s[j] != '`',
    ensures
        next_marker(s, pos) is None,
{
    lemma_find_run_absent(s, '*', 3, pos);
    lemma_find_run_absent(s, '_', 3, pos);
    lemma_find_run_absent(s, '*', 2, pos);
    lemma_find_run_absent(s, '_', 2, pos);
    lemma_find_run_absent(s, '*', 1, pos);
    lemma_find_run_absent(s, '_', 1, pos);
    lemma_find_run_absent(s, '`', 1, pos);
    assert(spec_candidates(s, pos) =~= Seq::<(int, MarkerKind, int)>::empty());
}

/// The candidate vector seen at the specification level.
pub open spec fn lifted(r: Seq<(usize, MarkerKind, usize)>) -> Seq<(int, MarkerKind, int)> {
    r.map_values(|c: (usize, MarkerKind, usize)| lift_cand(c))
}

/// Pushing a candidate appends its lifted form.
proof fn lemma_lifted_push(r: Seq<(usize, MarkerKind, usize)>, x: (usize, MarkerKind, usize))
    ensures
        lifted(r.push(x)) == lifted(r).push(lift_cand(x)),
{
    assert(lifted(r.push(x)) =~= lifted(r).push(lift_cand(x)));
}

/// Collects the marker candidates of every family at or after `from`,
/// evaluating the families in their fixed order.
#[verifier::rlimit(60)]
pub fn candidates_vec(v: &Vec<char>, from: usize) -> (r: Vec<(usize, MarkerKind, usize)>)
    requires
        from <= v@.len(),
    ensures
        lifted(r@) == spec_candidates(v@, from as int),
{
    let mut r: Vec<(usize, MarkerKind, usize)> = Vec::new();
    let ghost mut done: Seq<(int, MarkerKind, int)> = Seq::empty();
    proof {
        assert(lifted(r@) =~= done);
    }
    if let Some(i) = find_run_vec(v, '*', 3, from) {
        proof {
            lemma_lifted_push(r@, (i, MarkerKind::BoldItalicStar, 3));
        }
        r.push((i, MarkerKind::BoldItalicStar, 3));
    }
    proof {
        done = done + cand_entry(v@, from as int, MarkerKind::BoldItalicStar);
        assert(lifted(r@) =~= done);
    }
    if let Some(i) = find_run_vec(v, '_', 3, from) {
        proof {
            lemma_lifted_push(r@, (i, MarkerKind::BoldItalicUnderscore, 3));
        }
        r.push((i, MarkerKind::BoldItalicUnderscore, 3));
    }
    proof {
        done = done + cand_entry(v@, from as int, MarkerKind::BoldItalicUnderscore);
        assert(lifted(r@) =~= done);
    }
    if let Some(i) = find_run_vec(v, '*', 2, from) {
        proof {
            lemma_lifted_push(r@, (i, MarkerKind::BoldStar, 2));
        }
        r.push((i, MarkerKind::BoldStar, 2));
    }
    proof {
        done = done + cand_entry(v@, from as int, MarkerKind::BoldStar);
        assert(lifted(r@) =~= done);
    }
    if let Some(i) = find_run_vec(v, '_', 2, from) {
        proof {
            lemma_lifted_push(r@, (i, MarkerKind::BoldUnderscore, 2));
        }
        r.push((i, MarkerKind::BoldUnderscore, 2));
    }
    proof {
        done = done + cand_entry(v@, from as int, MarkerKind::BoldUnderscore);
        assert(lifted(r@) =~= done);
    }
    if let Some(i) = find_run_vec(v, '*', 1, from) {
        proof {
            lemma_find_run(v@, '*', 1, from as int);
        }
        let suppressed = if v.len() >= 2 && i <= v.len() - 2 {
            run_at_vec(v, '*', 2, i)
        } else {
            false
        };
        proof {
            if !(v@.len() >= 2 && i <= v@.len() - 2) {
                assert(!run_at(v@, '*', 2, i as int));
            }
        }
        if !suppressed {
            proof {
                lemma_lifted_push(r@, (i, MarkerKind::ItalicStar, 1));
            }
            r.push((i, MarkerKind::ItalicStar, 1));
        }
    }
    proof {
        done = done + italic_entry(v@, from as int, MarkerKind::ItalicStar);
        assert(lifted(r@) =~= done);
    }
    if let Some(i) = find_run_vec(v, '_', 1, from) {
        proof {
            lemma_find_run(v@, '_', 1, from as int);
        }
        let suppressed = if v.len() >= 2 && i <= v.len() - 2 {
            run_at_vec(v, '_', 2, i)
        } else {
            false
        };
        proof {
            if !(v@.len() >= 2 && i <= v@.len() - 2) {
                assert(!run_at(v@, '_', 2, i as int));
            }
        }
        if !suppressed {
            proof {
                lemma_lifted_push(r@, (i, MarkerKind::ItalicUnderscore, 1));
            }
            r.push((i, MarkerKind::ItalicUnderscore, 1));
        }
    }
    proof {
        done = done + italic_entry(v@, from as int, MarkerKind::ItalicUnderscore);
        assert(lifted(r@) =~= done);
    }
    if let Some(i) = find_run_vec(v, '`', 1, from) {
        proof {
            lemma_lifted_push(r@, (i, MarkerKind::Code, 1));
        }
        r.push((i, MarkerKind::Code, 1));
    }
    proof {
        done = done + cand_entry(v@, from as int, MarkerKind::Code);
        assert(lifted(r@) =~= done);
        assert(done =~= spec_candidates(v@, from as int));
    }
    r
}

/// [`lift_cand`] applied through an `Option`.
pub open spec fn lift_cand_opt(c: Option<(usize, MarkerKind, usize)>) -> Option<(int, MarkerKind, int)> {
    match c {
        Some(x) => Some(lift_cand(x)),
        None => None,
    }
}

/// Finds the leftmost marker candidate at or after `from`, with the
/// earliest family winning ties.
pub fn next_marker_vec(v: &Vec<char>, from: usize) -> (m: Option<(usize, MarkerKind, usize)>)
    requires
        from <= v@.len(),
    ensures
        lift_cand_opt(m) == next_marker(v@, from as int),
{
    let cands = candidates_vec(v, from);
    let ghost model = spec_candidates(v@, from as int);
    let mut best: Option<(usize, MarkerKind, usize)> = None;
    let mut i: usize = 0;
    while i < cands.len()
        invariant
            i <= cands@.len(),
            lifted(cands@) == model,
            min_from(model, 0, None) == min_from(model, i as int, lift_cand_opt(best)),
        decreases cands@.len() - i,
    {
        let c = cands[i];
        proof {
            assert(model[i as int] == lift_cand(cands@[i as int]));
        }
        best = match best {
            None => Some(c),
            Some(b) => if c.0 < b.0 {
                Some(c)
            } else {
                Some(b)
            },
        };
        i = i + 1;
    }
    best
}


/// Executable form of [`marker_char`].
pub fn marker_char_vec(k: MarkerKind) -> (c: char)
    ensures
        c == marker_char(k),
{
    match k {
        MarkerKind::BoldItalicStar => '*',
        MarkerKind::BoldItalicUnderscore => '_',
        MarkerKind::BoldStar => '*',
        MarkerKind::BoldUnderscore => '_',
        MarkerKind::ItalicStar => '*',
        MarkerKind::ItalicUnderscore => '_',
        MarkerKind::Code => '`',
    }
}

} // verus!
