//! Ratcliff/Obershelp similarity, as Python's `difflib.SequenceMatcher`
//! computes it: the integer parts. `real_quick` bounds by lengths,
//! `quick` by a histogram intersection, and the full measure sums the
//! matching blocks found by recursive longest-common-substring search.
//! The ratios themselves are `2 * matches / (la + lb)`.
use vstd::prelude::*;
use crate::text::chars_of;

verus! {

pub open spec fn same(a: Seq<char>, b: Seq<char>, i: int, j: int, t: int) -> bool {
    a[i + t] == b[j + t]
}

pub open spec fn same_back(a: Seq<char>, b: Seq<char>, r: int, c: int, t: int) -> bool {
    a[r - t] == b[c - t]
}

/// `a[i..i+k]` and `b[j..j+k]` are equal and lie in the given ranges.
pub open spec fn is_block(
    a: Seq<char>,
    b: Seq<char>,
    alo: int,
    ahi: int,
    blo: int,
    bhi: int,
    i: int,
    j: int,
    k: int,
) -> bool {
    &&& alo <= i
    &&& i + k <= ahi
    &&& blo <= j
    &&& j + k <= bhi
    &&& 0 <= k
    &&& forall|t: int| 0 <= t < k ==> #[trigger] same(a, b, i, j, t)
}

/// What `find_longest_match` returns: the longest block in the ranges;
/// among the longest, the one starting earliest in `a`, then earliest in
/// `b`; `(alo, blo, 0)` when there is none.
pub open spec fn is_longest(
    a: Seq<char>,
    b: Seq<char>,
    alo: int,
    ahi: int,
    blo: int,
    bhi: int,
    r: (int, int, int),
) -> bool {
    let (bi, bj, bs) = r;
    &&& is_block(a, b, alo, ahi, blo, bhi, bi, bj, bs)
    &&& forall|i: int, j: int, k: int|
        is_block(a, b, alo, ahi, blo, bhi, i, j, k) ==> k <= bs
    &&& bs > 0 ==> forall|i: int, j: int|
        #![trigger is_block(a, b, alo, ahi, blo, bhi, i, j, bs)]
        is_block(a, b, alo, ahi, blo, bhi, i, j, bs) ==> (bi < i || (bi == i && bj <= j))
    &&& bs == 0 ==> bi == alo && bj == blo
}

/// Length of the common run ending at `(r, c)`, not reaching before
/// `alo` / `blo`.
pub open spec fn run(a: Seq<char>, b: Seq<char>, alo: int, blo: int, r: int, c: int) -> int
    decreases r - alo + 1,
{
    if r < alo || c < blo || r >= a.len() || c >= b.len() || a[r] != b[c] {
        0
    } else {
        1 + run(a, b, alo, blo, r - 1, c - 1)
    }
}

proof fn lemma_run_block(a: Seq<char>, b: Seq<char>, alo: int, blo: int, r: int, c: int)
    requires
        alo >= 0,
        blo >= 0,
    ensures
        0 <= run(a, b, alo, blo, r, c),
        run(a, b, alo, blo, r, c) > 0 ==> r - run(a, b, alo, blo, r, c) + 1 >= alo && c - run(
            a,
            b,
            alo,
            blo,
            r,
            c,
        ) + 1 >= blo && r < a.len() && c < b.len(),
        forall|t: int|
            0 <= t < run(a, b, alo, blo, r, c) ==> #[trigger] same_back(a, b, r, c, t),
    decreases r - alo + 1,
{
    if !(r < alo || c < blo || r >= a.len() || c >= b.len() || a[r] != b[c]) {
        lemma_run_block(a, b, alo, blo, r - 1, c - 1);
        assert forall|t: int| 0 <= t < run(a, b, alo, blo, r, c) implies #[trigger] same_back(a, b, r, c, t) by {
            if t > 0 {
                assert(same_back(a, b, r - 1, c - 1, t - 1));
            }
        }
    }
}

/// A block of length `k` ending at `(r, c)` lies inside the run ending there.
proof fn lemma_block_run(a: Seq<char>, b: Seq<char>, alo: int, blo: int, r: int, c: int, k: int)
    requires
        alo >= 0,
        blo >= 0,
        0 <= k,
        r - k + 1 >= alo,
        c - k + 1 >= blo,
        r < a.len(),
        c < b.len(),
        forall|t: int| 0 <= t < k ==> #[trigger] same_back(a, b, r, c, t),
    ensures
        run(a, b, alo, blo, r, c) >= k,
    decreases k,
{
    lemma_run_block(a, b, alo, blo, r, c);
    if k > 0 {
        assert(same_back(a, b, r, c, 0));
        assert forall|t: int| 0 <= t < k - 1 implies #[trigger] same_back(a, b, r - 1, c - 1, t) by {
            assert(same_back(a, b, r, c, t + 1));
        }
        if k - 1 > 0 {
            lemma_block_run(a, b, alo, blo, r - 1, c - 1, k - 1);
        }
        lemma_run_block(a, b, alo, blo, r - 1, c - 1);
        assert(a[r] == b[c]) by {
            assert(same_back(a, b, r, c, 0));
        }
        assert(run(a, b, alo, blo, r, c) == 1 + run(a, b, alo, blo, r - 1, c - 1));
    }
}

/// Cell `(r, c)` comes before cell `(r2, c2)` in row-major order.
pub open spec fn before(r: int, c: int, r2: int, c2: int) -> bool {
    r < r2 || (r == r2 && c < c2)
}

/// `SequenceMatcher.find_longest_match` on the half-open ranges
/// `[alo, ahi)` of `a` and `[blo, bhi)` of `b`.
pub fn find_longest_match(
    a: &Vec<char>,
    b: &Vec<char>,
    alo: usize,
    ahi: usize,
    blo: usize,
    bhi: usize,
) -> (r: (usize, usize, usize))
    requires
        alo <= ahi <= a@.len(),
        blo <= bhi <= b@.len(),
    ensures
        is_longest(a@, b@, alo as int, ahi as int, blo as int, bhi as int, (r.0 as int, r.1 as int, r.2 as int)),
{
    let mut besti: usize = alo;
    let mut bestj: usize = blo;
    let mut bestsize: usize = 0;
    let mut prev: Vec<usize> = Vec::new();
    let mut z: usize = 0;
    while z < bhi
        invariant
            z <= bhi,
            prev@.len() == z,
            forall|t: int| 0 <= t < z ==> prev@[t] == 0,
        decreases bhi - z,
    {
        prev.push(0);
        z = z + 1;
    }
    // ghost end cell of the current best
    let ghost mut er: int = alo - 1;
    let ghost mut ec: int = blo - 1;
    let mut i: usize = alo;
    while i < ahi
        invariant
            alo <= i <= ahi <= a@.len(),
            blo <= bhi <= b@.len(),
            prev@.len() == bhi,
            forall|t: int| blo <= t < bhi ==> prev@[t] == run(a@, b@, alo as int, blo as int, i - 1, t),
            bestsize <= i - alo,
            forall|r: int, c: int|
                alo <= r < i && blo <= c < bhi ==> run(a@, b@, alo as int, blo as int, r, c) <= bestsize,
            bestsize > 0 ==> run(a@, b@, alo as int, blo as int, er, ec) == bestsize && alo <= er < i
                && blo <= ec < bhi && besti == er - bestsize + 1 && bestj == ec - bestsize + 1,
            bestsize > 0 ==> forall|r: int, c: int|
                alo <= r && blo <= c < bhi && before(r, c, er, ec) ==> run(
                    a@,
                    b@,
                    alo as int,
                    blo as int,
                    r,
                    c,
                ) < bestsize,
            bestsize == 0 ==> besti == alo && bestj == blo,
        decreases ahi - i,
    {
        let mut cur: Vec<usize> = Vec::new();
        let mut z2: usize = 0;
        while z2 < blo
            invariant
                z2 <= blo,
                cur@.len() == z2,
            decreases blo - z2,
        {
            cur.push(0);
            z2 = z2 + 1;
        }
        let mut j: usize = blo;
        while j < bhi
            invariant
                alo <= i < ahi <= a@.len(),
                blo <= j <= bhi <= b@.len(),
                prev@.len() == bhi,
                cur@.len() == j,
                forall|t: int| blo <= t < bhi ==> prev@[t] == run(a@, b@, alo as int, blo as int, i - 1, t),
                forall|t: int| blo <= t < j ==> cur@[t] == run(a@, b@, alo as int, blo as int, i as int, t),
                bestsize <= i - alo + 1,
                forall|r: int, c: int|
                    ((alo <= r < i && blo <= c < bhi) || (r == i && blo <= c < j)) ==> run(
                        a@,
                        b@,
                        alo as int,
                        blo as int,
                        r,
                        c,
                    ) <= bestsize,
                bestsize > 0 ==> run(a@, b@, alo as int, blo as int, er, ec) == bestsize && alo <= er
                    <= i && blo <= ec < bhi && besti == er - bestsize + 1 && bestj == ec - bestsize + 1,
                bestsize > 0 ==> forall|r: int, c: int|
                    alo <= r && blo <= c < bhi && before(r, c, er, ec) ==> run(
                        a@,
                        b@,
                        alo as int,
                        blo as int,
                        r,
                        c,
                    ) < bestsize,
                bestsize == 0 ==> besti == alo && bestj == blo,
            decreases bhi - j,
        {
            proof {
                lemma_run_block(a@, b@, alo as int, blo as int, i - 1, j - 1);
            }
            let k: usize = if a[i] == b[j] {
                if j > blo {
                    prev[j - 1] + 1
                } else {
                    1
                }
            } else {
                0
            };
            assert(k == run(a@, b@, alo as int, blo as int, i as int, j as int));
            cur.push(k);
            if k > bestsize {
                proof {
                    er = i as int;
                    ec = j as int;
                    lemma_run_block(a@, b@, alo as int, blo as int, i as int, j as int);
                }
                besti = i + 1 - k;
                bestj = j + 1 - k;
                bestsize = k;
            }
            j = j + 1;
        }
        prev = cur;
        i = i + 1;
    }
    proof {
        let a_ = a@;
        let b_ = b@;
        if bestsize > 0 {
            lemma_run_block(a_, b_, alo as int, blo as int, er, ec);
            assert forall|t: int| 0 <= t < bestsize implies #[trigger] same(a_, b_, besti as int, bestj as int, t) by {
                assert(same_back(a_, b_, er, ec, bestsize - 1 - t));
            }
        }
        assert forall|ii: int, jj: int, kk: int|
            is_block(a_, b_, alo as int, ahi as int, blo as int, bhi as int, ii, jj, kk) implies kk
            <= bestsize by {
            if kk > 0 {
                assert forall|t: int| 0 <= t < kk implies #[trigger] same_back(a_, b_, ii + kk - 1, jj + kk - 1, t) by {
                    assert(same(a_, b_, ii, jj, kk - 1 - t));
                }
                lemma_block_run(a_, b_, alo as int, blo as int, ii + kk - 1, jj + kk - 1, kk);
            }
        }
        if bestsize > 0 {
            assert forall|ii: int, jj: int|
                #![trigger is_block(a_, b_, alo as int, ahi as int, blo as int, bhi as int, ii, jj, bestsize as int)]
                is_block(a_, b_, alo as int, ahi as int, blo as int, bhi as int, ii, jj, bestsize as int) implies (
            besti < ii || (besti == ii && bestj <= jj)) by {
                let kk = bestsize as int;
                assert forall|t: int| 0 <= t < kk implies #[trigger] same_back(a_, b_, ii + kk - 1, jj + kk - 1, t) by {
                    assert(same(a_, b_, ii, jj, kk - 1 - t));
                }
                lemma_block_run(a_, b_, alo as int, blo as int, ii + kk - 1, jj + kk - 1, kk);
                if before(ii + kk - 1, jj + kk - 1, er, ec) {
                    assert(false);
                }
            }
        }
    }
    (besti, bestj, bestsize)
}


/// The block `find_longest_match` picks.
pub open spec fn longest(a: Seq<char>, b: Seq<char>, alo: int, ahi: int, blo: int, bhi: int) -> (int, int, int) {
    choose|r: (int, int, int)| is_longest(a, b, alo, ahi, blo, bhi, r)
}

/// Only one block meets [`is_longest`].
pub proof fn lemma_longest_unique(
    a: Seq<char>,
    b: Seq<char>,
    alo: int,
    ahi: int,
    blo: int,
    bhi: int,
    r1: (int, int, int),
    r2: (int, int, int),
)
    requires
        is_longest(a, b, alo, ahi, blo, bhi, r1),
        is_longest(a, b, alo, ahi, blo, bhi, r2),
    ensures
        r1 == r2,
{
    assert(r1.2 <= r2.2);
    assert(r2.2 <= r1.2);
    if r1.2 > 0 {
        assert(is_block(a, b, alo, ahi, blo, bhi, r2.0, r2.1, r1.2));
        assert(is_block(a, b, alo, ahi, blo, bhi, r1.0, r1.1, r2.2));
    }
}

/// Total length of the matching blocks: the longest block, then the same
/// search to its left and to its right.
pub open spec fn matching_total(a: Seq<char>, b: Seq<char>, alo: int, ahi: int, blo: int, bhi: int) -> int
    decreases ahi - alo,
{
    let r = longest(a, b, alo, ahi, blo, bhi);
    let i = r.0;
    let j = r.1;
    let k = r.2;
    if k <= 0 || i < alo || i + k > ahi || j < blo || j + k > bhi {
        0
    } else {
        k + (if alo < i && blo < j {
            matching_total(a, b, alo, i, blo, j)
        } else {
            0
        }) + (if i + k < ahi && j + k < bhi {
            matching_total(a, b, i + k, ahi, j + k, bhi)
        } else {
            0
        })
    }
}

/// The matched characters never outnumber either range.
pub proof fn lemma_matching_total_bound(a: Seq<char>, b: Seq<char>, alo: int, ahi: int, blo: int, bhi: int)
    requires
        alo <= ahi,
        blo <= bhi,
    ensures
        0 <= matching_total(a, b, alo, ahi, blo, bhi) <= ahi - alo,
        matching_total(a, b, alo, ahi, blo, bhi) <= bhi - blo,
    decreases ahi - alo,
{
    let r = longest(a, b, alo, ahi, blo, bhi);
    let i = r.0;
    let j = r.1;
    let k = r.2;
    if !(k <= 0 || i < alo || i + k > ahi || j < blo || j + k > bhi) {
        if alo < i && blo < j {
            lemma_matching_total_bound(a, b, alo, i, blo, j);
        }
        if i + k < ahi && j + k < bhi {
            lemma_matching_total_bound(a, b, i + k, ahi, j + k, bhi);
        }
    }
}

/// Sum of the lengths of every matching block in the given ranges.
pub fn sum_matching_blocks(
    a: &Vec<char>,
    b: &Vec<char>,
    alo: usize,
    ahi: usize,
    blo: usize,
    bhi: usize,
) -> (t: usize)
    requires
        alo <= ahi <= a@.len(),
        blo <= bhi <= b@.len(),
    ensures
        t == matching_total(a@, b@, alo as int, ahi as int, blo as int, bhi as int),
    decreases ahi - alo,
{
    let (i, j, k) = find_longest_match(a, b, alo, ahi, blo, bhi);
    proof {
        let r = (i as int, j as int, k as int);
        lemma_longest_unique(a@, b@, alo as int, ahi as int, blo as int, bhi as int, r, longest(a@, b@, alo as int, ahi as int, blo as int, bhi as int));
        lemma_matching_total_bound(a@, b@, alo as int, ahi as int, blo as int, bhi as int);
    }
    if k == 0 {
        return 0;
    }
    let mut total = k;
    if alo < i && blo < j {
        proof {
            lemma_matching_total_bound(a@, b@, alo as int, i as int, blo as int, j as int);
        }
        total = total + sum_matching_blocks(a, b, alo, i, blo, j);
    }
    if i + k < ahi && j + k < bhi {
        proof {
            lemma_matching_total_bound(a@, b@, (i + k) as int, ahi as int, (j + k) as int, bhi as int);
        }
        total = total + sum_matching_blocks(a, b, i + k, ahi, j + k, bhi);
    }
    total
}

/// `M` in `ratio = 2 * M / (la + lb)`: characters in matching blocks.
pub open spec fn matches_of(a: Seq<char>, b: Seq<char>) -> int {
    matching_total(a, b, 0, a.len() as int, 0, b.len() as int)
}

/// Number of characters in matching blocks of `a` and `b`, compared by
/// code point.
pub fn matching_chars(a: &str, b: &str) -> (m: usize)
    ensures
        m == matches_of(a@, b@),
        m <= a@.len(),
        m <= b@.len(),
{
    let av = chars_of(a);
    let bv = chars_of(b);
    proof {
        lemma_matching_total_bound(a@, b@, 0, a@.len() as int, 0, b@.len() as int);
    }
    sum_matching_blocks(&av, &bv, 0, av.len(), 0, bv.len())
}

/// `s` with the first occurrence of `c` removed.
pub open spec fn remove_first(s: Seq<char>, c: char) -> Seq<char>
    decreases s.len(),
{
    if s.len() == 0 {
        s
    } else if s[0] == c {
        s.drop_first()
    } else {
        seq![s[0]] + remove_first(s.drop_first(), c)
    }
}

/// Each character of `a` that still has a matching slot left in what
/// remains of `b` counts once and uses that slot up.
pub open spec fn quick(a: Seq<char>, b: Seq<char>) -> int
    decreases a.len(),
{
    if a.len() == 0 {
        0
    } else if b.contains(a[0]) {
        1 + quick(a.drop_first(), remove_first(b, a[0]))
    } else {
        quick(a.drop_first(), b)
    }
}

proof fn lemma_remove_first_at(s: Seq<char>, c: char, idx: int)
    requires
        0 <= idx < s.len(),
        s[idx] == c,
        forall|t: int| 0 <= t < idx ==> s[t] != c,
    ensures
        remove_first(s, c) == s.remove(idx),
        remove_first(s, c).len() == s.len() - 1,
    decreases idx,
{
    if idx > 0 {
        lemma_remove_first_at(s.drop_first(), c, idx - 1);
        assert(seq![s[0]] + s.drop_first().remove(idx - 1) =~= s.remove(idx));
    } else {
        assert(s.drop_first() =~= s.remove(0));
    }
}

proof fn lemma_remove_first_len(s: Seq<char>, c: char)
    requires
        s.contains(c),
    ensures
        remove_first(s, c).len() == s.len() - 1,
{
    let idx = choose|i: int| 0 <= i < s.len() && s[i] == c;
    let first = first_index(s, c, idx);
    lemma_remove_first_at(s, c, first);
}

proof fn first_index(s: Seq<char>, c: char, idx: int) -> (f: int)
    requires
        0 <= idx < s.len(),
        s[idx] == c,
    ensures
        0 <= f <= idx,
        s[f] == c,
        forall|t: int| 0 <= t < f ==> s[t] != c,
    decreases idx,
{
    if exists|t: int| 0 <= t < idx && s[t] == c {
        let t = choose|t: int| 0 <= t < idx && s[t] == c;
        first_index(s, c, t)
    } else {
        idx
    }
}

/// The histogram count never exceeds either length.
pub proof fn lemma_quick_bound(a: Seq<char>, b: Seq<char>)
    ensures
        0 <= quick(a, b) <= a.len(),
        quick(a, b) <= b.len(),
    decreases a.len(),
{
    if a.len() > 0 {
        if b.contains(a[0]) {
            lemma_remove_first_len(b, a[0]);
            lemma_quick_bound(a.drop_first(), remove_first(b, a[0]));
        } else {
            lemma_quick_bound(a.drop_first(), b);
        }
    }
}

/// Multiset-intersection count behind `quick_ratio`.
pub fn quick_matches(a: &str, b: &str) -> (m: usize)
    ensures
        m == quick(a@, b@),
        m <= a@.len(),
        m <= b@.len(),
{
    let av = chars_of(a);
    let mut rest = chars_of(b);
    let mut m: usize = 0;
    let mut i: usize = 0;
    proof {
        assert(av@.skip(0) =~= av@);
        lemma_quick_bound(a@, b@);
    }
    while i < av.len()
        invariant
            av@ == a@,
            i <= av@.len(),
            quick(a@, b@) == m + quick(av@.skip(i as int), rest@),
            m <= i,
            quick(a@, b@) <= b@.len(),
        decreases av@.len() - i,
    {
        let c = av[i];
        let ghost s = av@.skip(i as int);
        assert(s[0] == c);
        assert(s.drop_first() =~= av@.skip(i + 1));
        let mut idx: usize = 0;
        while idx < rest.len() && rest[idx] != c
            invariant
                idx <= rest@.len(),
                forall|t: int| 0 <= t < idx ==> rest@[t] != c,
            decreases rest@.len() - idx,
        {
            idx = idx + 1;
        }
        proof {
            lemma_quick_bound(av@.skip(i as int), rest@);
        }
        if idx < rest.len() {
            proof {
                lemma_remove_first_at(rest@, c, idx as int);
                assert(rest@.contains(c));
            }
            rest.remove(idx);
            m = m + 1;
        } else {
            assert(!rest@.contains(c));
        }
        i = i + 1;
    }
    m
}

/// `real_quick_ratio` and `quick_ratio` bound the full ratio from above:
/// the histogram count and the matching-block total never exceed the
/// shorter length.
pub proof fn lemma_upper_bounds(a: Seq<char>, b: Seq<char>)
    ensures
        quick(a, b) <= if a.len() <= b.len() { a.len() as int } else { b.len() as int },
        matches_of(a, b) <= if a.len() <= b.len() { a.len() as int } else { b.len() as int },
{
    lemma_quick_bound(a, b);
    lemma_matching_total_bound(a, b, 0, a.len() as int, 0, b.len() as int);
}

} // verus!
