//! Matching engine primitives: confidence buckets, the cover-Hamming
//! ladder that decides a bucket when both covers were hashed, name
//! normalisation for comparison, and Levenshtein distance.
use vstd::prelude::*;
use vstd::string::*;
use crate::text::{
    chars_of, is_whitespace, is_ws, join_sp, join_words, split_words, starts_with, string_of,
    trim, trim_chars, views, words, Sep, chars_starts_with, all_p, lemma_tok_p, lemma_join_all_p,
    lemma_words_are_words, lemma_join_sp_ends, is_word, is_sep, trim_start, trim_end,
    lemma_trim_start_len, lemma_trim_end_len, ascii_lower, ascii_lower_char,
};
use crate::unicode::{alnum, is_alphanumeric, lowercase_of, to_lowercase, is_ascii_text};
use crate::phash::{hamming, hamming_distance};

verus! {

/// Confidence bucket; drives auto-apply / review-queue / discard routing.
#[derive(Copy, Clone, Debug, PartialEq, Eq, Structural)]
pub enum Confidence {
    High,
    Medium,
    Low,
}

impl Confidence {
    pub fn as_str(self) -> (r: &'static str)
        ensures
            r@ == match self {
                Confidence::High => "high"@,
                Confidence::Medium => "medium"@,
                Confidence::Low => "low"@,
            },
    {
        match self {
            Confidence::High => "high",
            Confidence::Medium => "medium",
            Confidence::Low => "low",
        }
    }
}

/// Cover Hamming distance at or below which a candidate is a strong match.
pub const STRONG_SCORE_THRESH: u32 = 8;

/// Cover Hamming distance ceiling for the medium bucket.
pub const MIN_SCORE_THRESH: u32 = 16;

/// Minimum bit gap between the best two cover distances before the best
/// may stay high.
pub const MIN_SCORE_DISTANCE: u32 = 4;

pub open spec fn cover_bucket_spec(d: u32) -> Confidence {
    if d <= 8 {
        Confidence::High
    } else if d <= 16 {
        Confidence::Medium
    } else {
        Confidence::Low
    }
}

/// The bucket a candidate lands in: when both covers were hashed the
/// Hamming ladder decides regardless of the text score; otherwise the
/// bucket of the text score.
pub fn bucket(cover_hamming: Option<u32>, text_bucket: Confidence) -> (r: Confidence)
    ensures
        r == match cover_hamming {
            Some(d) => cover_bucket_spec(d),
            None => text_bucket,
        },
{
    match cover_hamming {
        Some(d) => if d <= STRONG_SCORE_THRESH {
            Confidence::High
        } else if d <= MIN_SCORE_THRESH {
            Confidence::Medium
        } else {
            Confidence::Low
        },
        None => text_bucket,
    }
}

/// Rank of a bucket, higher for more confidence.
pub open spec fn confidence_rank(c: Confidence) -> int {
    match c {
        Confidence::High => 2,
        Confidence::Medium => 1,
        Confidence::Low => 0,
    }
}

/// The cover-Hamming ladder: a distance of at most `STRONG_SCORE_THRESH`
/// bits is high confidence, one above it and at most `MIN_SCORE_THRESH`
/// is medium, anything further is low; closer covers never give less
/// confidence than farther ones. With no cover distance the text bucket
/// stands.
pub proof fn lemma_hamming_ladder(d: u32, e: u32, text_bucket: Confidence)
    ensures
        d <= STRONG_SCORE_THRESH ==> cover_bucket_spec(d) == Confidence::High,
        STRONG_SCORE_THRESH < d <= MIN_SCORE_THRESH ==> cover_bucket_spec(d) == Confidence::Medium,
        MIN_SCORE_THRESH < d ==> cover_bucket_spec(d) == Confidence::Low,
        (cover_bucket_spec(d) == Confidence::High) == (d <= STRONG_SCORE_THRESH),
        d <= e ==> confidence_rank(cover_bucket_spec(e)) <= confidence_rank(cover_bucket_spec(d)),
{
}

// ───────── Levenshtein ─────────

pub open spec fn min2(x: int, y: int) -> int {
    if x <= y {
        x
    } else {
        y
    }
}

/// Edit distance with unit-cost insertion, deletion and substitution.
pub open spec fn lev(a: Seq<char>, b: Seq<char>) -> int
    decreases a.len() + b.len(),
{
    if a.len() == 0 {
        b.len() as int
    } else if b.len() == 0 {
        a.len() as int
    } else {
        min2(
            min2(lev(a, b.drop_last()) + 1, lev(a.drop_last(), b) + 1),
            lev(a.drop_last(), b.drop_last()) + (if a.last() != b.last() {
                1int
            } else {
                0int
            }),
        )
    }
}

proof fn lemma_lev_bound(a: Seq<char>, b: Seq<char>)
    ensures
        0 <= lev(a, b),
        lev(a, b) <= if a.len() >= b.len() { a.len() as int } else { b.len() as int },
    decreases a.len() + b.len(),
{
    if a.len() > 0 && b.len() > 0 {
        lemma_lev_bound(a, b.drop_last());
        lemma_lev_bound(a.drop_last(), b);
        lemma_lev_bound(a.drop_last(), b.drop_last());
    }
}

proof fn lemma_lev_lower(a: Seq<char>, b: Seq<char>)
    ensures
        lev(a, b) >= a.len() - b.len(),
        lev(a, b) >= b.len() - a.len(),
    decreases a.len() + b.len(),
{
    if a.len() > 0 && b.len() > 0 {
        lemma_lev_lower(a, b.drop_last());
        lemma_lev_lower(a.drop_last(), b);
        lemma_lev_lower(a.drop_last(), b.drop_last());
    }
}

proof fn lemma_lev_self(a: Seq<char>)
    ensures
        lev(a, a) == 0,
    decreases a.len(),
{
    if a.len() > 0 {
        lemma_lev_self(a.drop_last());
        lemma_lev_bound(a, a.drop_last());
        lemma_lev_bound(a.drop_last(), a);
    }
}

proof fn lemma_lev_zero(a: Seq<char>, b: Seq<char>)
    requires
        lev(a, b) == 0,
    ensures
        a == b,
    decreases a.len() + b.len(),
{
    if a.len() > 0 && b.len() > 0 {
        lemma_lev_bound(a, b.drop_last());
        lemma_lev_bound(a.drop_last(), b);
        lemma_lev_bound(a.drop_last(), b.drop_last());
        lemma_lev_zero(a.drop_last(), b.drop_last());
        assert(a.drop_last().push(a.last()) =~= a);
        assert(b.drop_last().push(b.last()) =~= b);
    } else {
        assert(a =~= b);
    }
}

proof fn lemma_lev_symmetric(a: Seq<char>, b: Seq<char>)
    ensures
        lev(a, b) == lev(b, a),
    decreases a.len() + b.len(),
{
    if a.len() > 0 && b.len() > 0 {
        lemma_lev_symmetric(a, b.drop_last());
        lemma_lev_symmetric(a.drop_last(), b);
        lemma_lev_symmetric(a.drop_last(), b.drop_last());
    }
}

/// Edit distance is zero exactly between equal texts, is symmetric, is
/// at least the difference of the lengths and at most the longer length;
/// from the empty text it is the other text's length.
pub proof fn lemma_lev_laws(a: Seq<char>, b: Seq<char>)
    ensures
        (lev(a, b) == 0) == (a == b),
        lev(a, b) == lev(b, a),
        lev(a, b) >= a.len() - b.len(),
        lev(a, b) >= b.len() - a.len(),
        lev(a, b) <= if a.len() >= b.len() { a.len() as int } else { b.len() as int },
        lev(Seq::<char>::empty(), b) == b.len(),
{
    lemma_lev_bound(a, b);
    lemma_lev_lower(a, b);
    lemma_lev_symmetric(a, b);
    if lev(a, b) == 0 {
        lemma_lev_zero(a, b);
    }
    if a == b {
        lemma_lev_self(a);
    }
}

/// Levenshtein distance, compared by code point.
pub fn levenshtein(a: &str, b: &str) -> (d: usize)
    requires
        a@.len() < usize::MAX,
        b@.len() < usize::MAX,
    ensures
        d == lev(a@, b@),
{
    let av = chars_of(a);
    let bv = chars_of(b);
    let n = av.len();
    let m = bv.len();
    if n == 0 {
        return m;
    }
    if m == 0 {
        return n;
    }
    let mut prev: Vec<usize> = Vec::new();
    let mut j: usize = 0;
    while j <= m
        invariant
            j <= m + 1,
            m == bv@.len(),
            m < usize::MAX,
            prev@.len() == j,
            forall|t: int| 0 <= t < j ==> prev@[t] == t,
        decreases m + 1 - j,
    {
        prev.push(j);
        j = j + 1;
    }
    proof {
        assert forall|t: int| 0 <= t <= m implies prev@[t] == lev(av@.take(0), bv@.take(t)) by {
            assert(av@.take(0).len() == 0);
        }
    }
    let mut i: usize = 0;
    while i < n
        invariant
            n == av@.len(),
            m == bv@.len(),
            n < usize::MAX,
            m < usize::MAX,
            i <= n,
            prev@.len() == m + 1,
            forall|t: int| 0 <= t <= m ==> prev@[t] == lev(av@.take(i as int), bv@.take(t)),
        decreases n - i,
    {
        let mut curr: Vec<usize> = Vec::new();
        curr.push(i + 1);
        proof {
            assert(bv@.take(0).len() == 0);
            assert(av@.take(i + 1).len() == i + 1);
        }
        let ca = av[i];
        let mut j: usize = 0;
        while j < m
            invariant
                n == av@.len(),
                m == bv@.len(),
                n < usize::MAX,
                m < usize::MAX,
                i < n,
                j <= m,
                ca == av@[i as int],
                prev@.len() == m + 1,
                curr@.len() == j + 1,
                forall|t: int| 0 <= t <= m ==> prev@[t] == lev(av@.take(i as int), bv@.take(t)),
                forall|t: int| 0 <= t <= j ==> curr@[t] == lev(av@.take(i + 1), bv@.take(t)),
            decreases m - j,
        {
            let ghost ai = av@.take(i + 1);
            let ghost bj = bv@.take(j + 1);
            proof {
                assert(ai.drop_last() =~= av@.take(i as int));
                assert(bj.drop_last() =~= bv@.take(j as int));
                assert(ai.last() == ca);
                assert(bj.last() == bv@[j as int]);
                lemma_lev_bound(ai, bv@.take(j as int));
                lemma_lev_bound(av@.take(i as int), bj);
                lemma_lev_bound(av@.take(i as int), bv@.take(j as int));
            }
            let cost: usize = if ca != bv[j] {
                1
            } else {
                0
            };
            let ins = curr[j] + 1;
            let del = prev[j + 1] + 1;
            let sub = prev[j] + cost;
            let x = if ins <= del {
                ins
            } else {
                del
            };
            let v = if x <= sub {
                x
            } else {
                sub
            };
            assert(v == lev(ai, bj));
            curr.push(v);
            j = j + 1;
        }
        prev = curr;
        i = i + 1;
    }
    assert(av@.take(n as int) =~= av@);
    assert(bv@.take(m as int) =~= bv@);
    prev[m]
}

// ───────── name normalisation ─────────

/// A leading `the `, `a ` or `an ` removed (the first that applies).
pub open spec fn strip_leading_article(t: Seq<char>) -> Seq<char> {
    if starts_with(t, "the "@) {
        t.skip(4)
    } else if starts_with(t, "a "@) {
        t.skip(2)
    } else if starts_with(t, "an "@) {
        t.skip(3)
    } else {
        t
    }
}

/// Only the alphanumeric and whitespace characters, in order.
pub open spec fn keep_alnum_ws(s: Seq<char>) -> Seq<char>
    decreases s.len(),
{
    if s.len() == 0 {
        s
    } else {
        let r = keep_alnum_ws(s.drop_last());
        if alnum(s.last()) || is_ws(s.last()) {
            r.push(s.last())
        } else {
            r
        }
    }
}

/// The comparison key of a series name: lower-cased, trimmed, one leading
/// article removed, only letters, digits and whitespace kept, whitespace
/// runs collapsed to single spaces.
pub open spec fn match_key(s: Seq<char>) -> Seq<char> {
    join_sp(words(keep_alnum_ws(strip_leading_article(trim(lowercase_of(s)))), Sep::Whitespace))
}

/// [`keep_alnum_ws`] on ASCII text, where letters and digits are the ASCII
/// ones.
pub open spec fn keep_alnum_ws_ascii(s: Seq<char>) -> Seq<char>
    decreases s.len(),
{
    if s.len() == 0 {
        s
    } else {
        let r = keep_alnum_ws_ascii(s.drop_last());
        let c = s.last();
        if ('a' <= c && c <= 'z') || ('A' <= c && c <= 'Z') || ('0' <= c && c <= '9') || is_ws(c) {
            r.push(c)
        } else {
            r
        }
    }
}

/// The comparison key of an ASCII series name, with ASCII lower-casing.
pub open spec fn match_key_ascii(s: Seq<char>) -> Seq<char> {
    join_sp(words(keep_alnum_ws_ascii(strip_leading_article(trim(crate::text::ascii_lower(s)))), Sep::Whitespace))
}

proof fn lemma_trim_start_ascii(s: Seq<char>)
    requires
        is_ascii_text(s),
    ensures
        is_ascii_text(crate::text::trim_start(s)),
    decreases s.len(),
{
    if s.len() > 0 && is_ws(s[0]) {
        assert forall|i: int| 0 <= i < s.drop_first().len() implies (#[trigger] s.drop_first()[i] as u32) < 128 by {
            assert(s.drop_first()[i] == s[i + 1]);
        }
        lemma_trim_start_ascii(s.drop_first());
    }
}

proof fn lemma_trim_end_ascii(s: Seq<char>)
    requires
        is_ascii_text(s),
    ensures
        is_ascii_text(crate::text::trim_end(s)),
    decreases s.len(),
{
    if s.len() > 0 && is_ws(s.last()) {
        assert forall|i: int| 0 <= i < s.drop_last().len() implies (#[trigger] s.drop_last()[i] as u32) < 128 by {
            assert(s.drop_last()[i] == s[i]);
        }
        lemma_trim_end_ascii(s.drop_last());
    }
}

fn skip_chars(v: &Vec<char>, k: usize) -> (r: Vec<char>)
    requires
        k <= v@.len(),
    ensures
        r@ == v@.skip(k as int),
{
    let mut r: Vec<char> = Vec::new();
    let mut i: usize = k;
    while i < v.len()
        invariant
            k <= i <= v@.len(),
            r@ == v@.subrange(k as int, i as int),
        decreases v@.len() - i,
    {
        r.push(v[i]);
        i = i + 1;
        assert(r@ =~= v@.subrange(k as int, i as int));
    }
    assert(r@ =~= v@.skip(k as int));
    r
}

/// Fold case, strip a leading "the ", "a " or "an ", keep only
/// alphanumerics and whitespace, collapse whitespace.
pub fn normalize_for_match(s: &str) -> (r: String)
    ensures
        r@ == match_key(s@),
        is_ascii_text(s@) ==> r@ == match_key_ascii(s@),
{
    let lower = to_lowercase(s);
    let t = trim_chars(&chars_of(lower.as_str()));
    proof {
        if is_ascii_text(s@) {
            assert forall|i: int| 0 <= i < lower@.len() implies (#[trigger] lower@[i] as u32) < 128 by {
                assert(lower@[i] == crate::text::ascii_lower_char(s@[i]));
            }
            lemma_trim_start_ascii(lower@);
            lemma_trim_end_ascii(crate::text::trim_start(lower@));
        }
    }
    proof {
        reveal_strlit("the ");
        reveal_strlit("a ");
        reveal_strlit("an ");
    }
    let stripped = if chars_starts_with(&t, "the ") {
        skip_chars(&t, 4)
    } else if chars_starts_with(&t, "a ") {
        skip_chars(&t, 2)
    } else if chars_starts_with(&t, "an ") {
        skip_chars(&t, 3)
    } else {
        t
    };
    let mut kept: Vec<char> = Vec::new();
    let mut i: usize = 0;
    while i < stripped.len()
        invariant
            i <= stripped@.len(),
            kept@ == keep_alnum_ws(stripped@.take(i as int)),
            is_ascii_text(stripped@) ==> kept@ == keep_alnum_ws_ascii(stripped@.take(i as int)),
        decreases stripped@.len() - i,
    {
        let c = stripped[i];
        proof {
            assert(stripped@.take(i + 1).drop_last() =~= stripped@.take(i as int));
        }
        if is_alphanumeric(c) || is_whitespace(c) {
            kept.push(c);
        }
        i = i + 1;
    }
    assert(stripped@.take(stripped@.len() as int) =~= stripped@);
    let ws = split_words(&kept, Sep::Whitespace);
    string_of(&join_words(&ws))
}

// ───────── query facts ─────────

/// What a series search knows about the local series.
#[derive(Clone, Debug)]
pub struct SeriesQueryFacts {
    pub name: String,
    pub year: Option<i32>,
    pub publisher: Option<String>,
    pub volume: Option<i32>,
}

/// What an issue search knows about the local issue.
#[derive(Clone, Debug)]
pub struct IssueQueryFacts {
    pub series_name: String,
    pub series_year: Option<i32>,
    pub publisher: Option<String>,
    pub volume: Option<i32>,
    pub issue_number: String,
}

/// The cover distance, when both sides have a hash.
pub fn hamming_distance_opt(a: Option<i64>, b: Option<i64>) -> (r: Option<u32>)
    ensures
        (a is Some && b is Some) ==> (r matches Some(d) && d == hamming(a.unwrap(), b.unwrap())),
        !(a is Some && b is Some) ==> r is None,
{
    match (a, b) {
        (Some(x), Some(y)) => Some(hamming_distance(x, y)),
        _ => None,
    }
}

/// A character of a lower-cased ASCII key before the words are split.
pub open spec fn key_or_ws(c: char) -> bool {
    ('a' <= c && c <= 'z') || ('0' <= c && c <= '9') || is_ws(c)
}

proof fn lemma_keep_ascii_chars(s: Seq<char>)
    requires
        all_p(s, |c: char| ascii_lower_char(c) == c),
    ensures
        all_p(keep_alnum_ws_ascii(s), |c: char| key_or_ws(c)),
    decreases s.len(),
{
    if s.len() > 0 {
        let init = s.drop_last();
        assert forall|i: int| 0 <= i < init.len() implies (|c: char| ascii_lower_char(c) == c)(#[trigger] init[i]) by {
            assert(init[i] == s[i]);
        }
        lemma_keep_ascii_chars(init);
        let r = keep_alnum_ws_ascii(init);
        let c = s.last();
        assert((|c: char| ascii_lower_char(c) == c)(s[s.len() - 1]));
        if ('a' <= c && c <= 'z') || ('A' <= c && c <= 'Z') || ('0' <= c && c <= '9') || is_ws(c) {
            assert forall|i: int| 0 <= i < r.push(c).len() implies (|c: char| key_or_ws(c))(#[trigger] r.push(c)[i]) by {
                if i < r.len() {
                    assert(r.push(c)[i] == r[i]);
                }
            }
        }
    }
}

proof fn lemma_sub_all_p(s: Seq<char>, lo: int, hi: int, p: spec_fn(char) -> bool)
    requires
        all_p(s, p),
        0 <= lo <= hi <= s.len(),
    ensures
        all_p(s.subrange(lo, hi), p),
{
    assert forall|i: int| 0 <= i < s.subrange(lo, hi).len() implies p(#[trigger] s.subrange(lo, hi)[i]) by {
        assert(s.subrange(lo, hi)[i] == s[lo + i]);
    }
}

/// The key of an ASCII series name holds only lower-case ASCII letters,
/// digits and single spaces between words, with no space at either end.
pub proof fn lemma_match_key_ascii_charset(s: Seq<char>)
    ensures
        forall|i: int|
            0 <= i < match_key_ascii(s).len() ==> {
                let c = #[trigger] match_key_ascii(s)[i];
                ('a' <= c && c <= 'z') || ('0' <= c && c <= '9') || c == ' '
            },
        match_key_ascii(s).len() > 0 ==> match_key_ascii(s)[0] != ' ' && match_key_ascii(s).last()
            != ' ',
{
    let low = |c: char| ascii_lower_char(c) == c;
    let l = ascii_lower(s);
    assert(all_p(l, low)) by {
        assert forall|i: int| 0 <= i < l.len() implies low(#[trigger] l[i]) by {
            assert(l[i] == ascii_lower_char(s[i]));
        }
    }
    let ts = trim_start(l);
    lemma_trim_start_len(l);
    if ts.len() > 0 {
        lemma_sub_all_p(l, l.len() - ts.len(), l.len() as int, low);
        assert(ts =~= l.subrange(l.len() - ts.len(), l.len() as int));
    }
    assert(all_p(ts, low));
    let t = trim_end(ts);
    lemma_trim_end_len(ts);
    lemma_sub_all_p(ts, 0, t.len() as int, low);
    assert(t =~= ts.subrange(0, t.len() as int));
    assert(t == trim(l));
    let st = strip_leading_article(t);
    reveal_strlit("the ");
    reveal_strlit("a ");
    reveal_strlit("an ");
    assert(all_p(st, low)) by {
        if starts_with(t, "the "@) {
            lemma_sub_all_p(t, 4, t.len() as int, low);
            assert(st =~= t.subrange(4, t.len() as int));
        } else if starts_with(t, "a "@) {
            lemma_sub_all_p(t, 2, t.len() as int, low);
            assert(st =~= t.subrange(2, t.len() as int));
        } else if starts_with(t, "an "@) {
            lemma_sub_all_p(t, 3, t.len() as int, low);
            assert(st =~= t.subrange(3, t.len() as int));
        }
    }
    lemma_keep_ascii_chars(st);
    let kp = keep_alnum_ws_ascii(st);
    let k = Sep::Whitespace;
    let ko = |c: char| key_or_ws(c);
    let w = words(kp, k);
    lemma_words_are_words(kp, k);
    lemma_tok_p(kp, k, Seq::<char>::empty(), ko);
    let p2 = |c: char| c == ' ' || (key_or_ws(c) && !is_ws(c));
    assert forall|j: int| 0 <= j < w.len() implies all_p(#[trigger] w[j], p2) by {
        assert(is_word(w[j], k) && all_p(w[j], ko));
        assert forall|i: int| 0 <= i < w[j].len() implies p2(#[trigger] w[j][i]) by {
            assert(ko(w[j][i]));
            assert(!is_sep(k, w[j][i]));
        }
    }
    lemma_join_all_p(w, p2);
    let y = join_sp(w);
    assert(y == match_key_ascii(s));
    assert forall|i: int| 0 <= i < y.len() implies {
        let c = #[trigger] y[i];
        ('a' <= c && c <= 'z') || ('0' <= c && c <= '9') || c == ' '
    } by {
        assert(p2(y[i]));
    }
    if w.len() > 0 {
        lemma_join_sp_ends(w);
    }
}

} // verus!
