//! Character-level helpers shared by every module: whitespace, trimming,
//! ASCII case folding, splitting into words and joining them back, decimal
//! integers, and moving between `&str`, `String` and `Vec<char>`.
use vstd::prelude::*;
use vstd::string::*;

verus! {

// ───────── whitespace ─────────

/// Unicode `White_Space` property, which is what `char::is_whitespace`,
/// `str::trim` and `str::split_whitespace` test.
pub open spec fn is_ws(c: char) -> bool {
    ||| ('\t' <= c && c <= '\r')
    ||| c == ' '
    ||| c == '\u{85}'
    ||| c == '\u{A0}'
    ||| c == '\u{1680}'
    ||| ('\u{2000}' <= c && c <= '\u{200A}')
    ||| c == '\u{2028}'
    ||| c == '\u{2029}'
    ||| c == '\u{202F}'
    ||| c == '\u{205F}'
    ||| c == '\u{3000}'
}

pub fn is_whitespace(c: char) -> (r: bool)
    ensures
        r == is_ws(c),
{
    ('\t' <= c && c <= '\r') || c == ' ' || c == '\u{85}' || c == '\u{A0}' || c == '\u{1680}'
        || ('\u{2000}' <= c && c <= '\u{200A}') || c == '\u{2028}' || c == '\u{2029}'
        || c == '\u{202F}' || c == '\u{205F}' || c == '\u{3000}'
}

/// Every character is whitespace (this is `s.trim().is_empty()`).
pub open spec fn blank(s: Seq<char>) -> bool {
    forall|i: int| 0 <= i < s.len() ==> is_ws(#[trigger] s[i])
}

pub open spec fn trim_start(s: Seq<char>) -> Seq<char>
    decreases s.len(),
{
    if s.len() > 0 && is_ws(s[0]) {
        trim_start(s.drop_first())
    } else {
        s
    }
}

pub open spec fn trim_end(s: Seq<char>) -> Seq<char>
    decreases s.len(),
{
    if s.len() > 0 && is_ws(s.last()) {
        trim_end(s.drop_last())
    } else {
        s
    }
}

/// `str::trim`: leading and trailing whitespace removed.
pub open spec fn trim(s: Seq<char>) -> Seq<char> {
    trim_end(trim_start(s))
}

pub proof fn lemma_trim_start_skip(s: Seq<char>, i: int)
    requires
        0 <= i <= s.len(),
        forall|k: int| 0 <= k < i ==> is_ws(#[trigger] s[k]),
    ensures
        trim_start(s) == trim_start(s.skip(i)),
    decreases i,
{
    if i > 0 {
        assert(s.drop_first().skip(i - 1) =~= s.skip(i));
        assert forall|k: int| 0 <= k < i - 1 implies is_ws(#[trigger] s.drop_first()[k]) by {
            assert(s.drop_first()[k] == s[k + 1]);
        }
        lemma_trim_start_skip(s.drop_first(), i - 1);
    } else {
        assert(s.skip(0) =~= s);
    }
}

pub proof fn lemma_trim_end_take(s: Seq<char>, j: int)
    requires
        0 <= j <= s.len(),
        forall|k: int| j <= k < s.len() ==> is_ws(#[trigger] s[k]),
    ensures
        trim_end(s) == trim_end(s.take(j)),
    decreases s.len() - j,
{
    if j < s.len() {
        assert(s.drop_last().take(j) =~= s.take(j));
        lemma_trim_end_take(s.drop_last(), j);
    } else {
        assert(s.take(j) =~= s);
    }
}

pub proof fn lemma_trim_start_len(s: Seq<char>)
    ensures
        trim_start(s).len() <= s.len(),
        trim_start(s).len() == 0 <==> blank(s),
        trim_start(s).len() > 0 ==> !is_ws(trim_start(s)[0]),
        trim_start(s).len() > 0 ==> trim_start(s) == s.skip(s.len() - trim_start(s).len()),
    decreases s.len(),
{
    if s.len() > 0 && is_ws(s[0]) {
        lemma_trim_start_len(s.drop_first());
        if blank(s.drop_first()) {
            assert forall|i: int| 0 <= i < s.len() implies is_ws(#[trigger] s[i]) by {
                if i > 0 {
                    assert(s[i] == s.drop_first()[i - 1]);
                }
            }
        }
        if blank(s) {
            assert forall|i: int| 0 <= i < s.drop_first().len() implies is_ws(
                #[trigger] s.drop_first()[i],
            ) by {
                assert(s.drop_first()[i] == s[i + 1]);
            }
        }
        let t = trim_start(s.drop_first());
        if t.len() > 0 {
            assert(s.drop_first().skip(s.drop_first().len() - t.len()) =~= s.skip(
                s.len() - t.len(),
            ));
        }
    } else {
        if s.len() > 0 {
            assert(!blank(s)) by {
                assert(!is_ws(s[0]));
            }
            assert(s.skip(0) =~= s);
        }
    }
}

pub proof fn lemma_trim_end_len(s: Seq<char>)
    ensures
        trim_end(s).len() <= s.len(),
        trim_end(s).len() == 0 <==> blank(s),
        trim_end(s) == s.take(trim_end(s).len() as int),
        trim_end(s).len() > 0 ==> !is_ws(trim_end(s).last()),
    decreases s.len(),
{
    if s.len() > 0 && is_ws(s.last()) {
        lemma_trim_end_len(s.drop_last());
        let t = trim_end(s.drop_last());
        assert(s.drop_last().take(t.len() as int) =~= s.take(t.len() as int));
        if blank(s.drop_last()) {
            assert forall|i: int| 0 <= i < s.len() implies is_ws(#[trigger] s[i]) by {
                if i < s.len() - 1 {
                    assert(s[i] == s.drop_last()[i]);
                }
            }
        }
        if blank(s) {
            assert forall|i: int| 0 <= i < s.drop_last().len() implies is_ws(
                #[trigger] s.drop_last()[i],
            ) by {
                assert(s.drop_last()[i] == s[i]);
            }
        }
    } else {
        assert(s.take(s.len() as int) =~= s);
        if s.len() > 0 {
            assert(!blank(s)) by {
                assert(!is_ws(s[s.len() - 1]));
            }
        }
    }
}

/// `trim` on a sequence of characters.
pub fn trim_chars(s: &Vec<char>) -> (r: Vec<char>)
    ensures
        r@ == trim(s@),
{
    let n = s.len();
    let mut i: usize = 0;
    while i < n && is_whitespace(s[i])
        invariant
            n == s@.len(),
            i <= n,
            forall|k: int| 0 <= k < i ==> is_ws(#[trigger] s@[k]),
        decreases n - i,
    {
        i = i + 1;
    }
    let mut j: usize = n;
    while j > i && is_whitespace(s[j - 1])
        invariant
            n == s@.len(),
            i <= j <= n,
            forall|k: int| j <= k < n ==> is_ws(#[trigger] s@[k]),
        decreases j,
    {
        j = j - 1;
    }
    let mut r: Vec<char> = Vec::new();
    let mut k: usize = i;
    while k < j
        invariant
            n == s@.len(),
            i <= k <= j <= n,
            r@ == s@.subrange(i as int, k as int),
        decreases j - k,
    {
        r.push(s[k]);
        k = k + 1;
        assert(r@ =~= s@.subrange(i as int, k as int));
    }
    proof {
        lemma_trim_start_skip(s@, i as int);
        let t = s@.skip(i as int);
        // t starts with a non-whitespace char, or every char of t is whitespace
        if i < n {
            assert(!is_ws(t[0]));
            assert(trim_start(t) == t);
            lemma_trim_end_take(t, j - i);
            assert(t.take(j - i) =~= s@.subrange(i as int, j as int));
            if j > i {
                assert(!is_ws(s@[j - 1]));
                assert(trim_end(s@.subrange(i as int, j as int)) == s@.subrange(
                    i as int,
                    j as int,
                ));
            } else {
                assert(s@.subrange(i as int, j as int).len() == 0);
            }
        } else {
            assert(t.len() == 0);
            assert(s@.subrange(i as int, j as int).len() == 0);
        }
    }
    r
}

/// `s.trim().is_empty()`.
pub fn is_blank(s: &Vec<char>) -> (r: bool)
    ensures
        r == blank(s@),
{
    let mut i: usize = 0;
    while i < s.len()
        invariant
            i <= s@.len(),
            forall|k: int| 0 <= k < i ==> is_ws(#[trigger] s@[k]),
        decreases s@.len() - i,
    {
        if !is_whitespace(s[i]) {
            return false;
        }
        i = i + 1;
    }
    true
}

/// `Option<&str>` that is present and not blank.
pub open spec fn filled(v: Option<Seq<char>>) -> bool {
    match v {
        Some(s) => !blank(s),
        None => false,
    }
}

pub fn str_is_blank(s: &str) -> (r: bool)
    ensures
        r == blank(s@),
{
    let v = chars_of(s);
    is_blank(&v)
}

/// Present and not blank — `opt.as_deref().is_some_and(|s| !s.trim().is_empty())`.
pub fn opt_filled(v: &Option<String>) -> (r: bool)
    ensures
        r == filled(opt_view(*v)),
{
    match v {
        Some(s) => !str_is_blank(s.as_str()),
        None => false,
    }
}

pub open spec fn opt_view(v: Option<String>) -> Option<Seq<char>> {
    match v {
        Some(s) => Some(s@),
        None => None,
    }
}

// ───────── ASCII case ─────────

pub open spec fn ascii_lower_char(c: char) -> char {
    if 'A' <= c && c <= 'Z' {
        ((c as u32) + 32) as char
    } else {
        c
    }
}

pub open spec fn ascii_lower(s: Seq<char>) -> Seq<char> {
    s.map_values(|c: char| ascii_lower_char(c))
}

pub fn to_ascii_lower(c: char) -> (r: char)
    ensures
        r == ascii_lower_char(c),
{
    if 'A' <= c && c <= 'Z' {
        ((c as u8) + 32) as char
    } else {
        c
    }
}

/// `to_ascii_lowercase` on a sequence of characters.
pub fn ascii_lower_chars(s: &Vec<char>) -> (r: Vec<char>)
    ensures
        r@ == ascii_lower(s@),
{
    let mut r: Vec<char> = Vec::new();
    let mut i: usize = 0;
    while i < s.len()
        invariant
            i <= s@.len(),
            r@ == ascii_lower(s@.take(i as int)),
        decreases s@.len() - i,
    {
        r.push(to_ascii_lower(s[i]));
        i = i + 1;
        assert(r@ =~= ascii_lower(s@.take(i as int)));
    }
    assert(s@.take(s@.len() as int) =~= s@);
    r
}

// ───────── conversions ─────────

pub fn chars_of(s: &str) -> (v: Vec<char>)
    ensures
        v@ == s@,
{
    let n = s.unicode_len();
    let mut v: Vec<char> = Vec::new();
    let mut i: usize = 0;
    while i < n
        invariant
            n == s@.len(),
            i <= n,
            v@ == s@.subrange(0, i as int),
        decreases n - i,
    {
        let c = s.get_char(i);
        v.push(c);
        i = i + 1;
        assert(v@ =~= s@.subrange(0, i as int));
    }
    assert(v@ =~= s@);
    v
}

/// `String::push`.
#[verifier::external_body]
pub(crate) fn push_char(s: &mut String, c: char)
    ensures
        final(s)@ == old(s)@.push(c),
{
    s.push(c);
}

pub fn string_of(v: &Vec<char>) -> (s: String)
    ensures
        s@ == v@,
{
    let mut s = String::new();
    let mut i: usize = 0;
    while i < v.len()
        invariant
            i <= v@.len(),
            s@ == v@.take(i as int),
        decreases v@.len() - i,
    {
        push_char(&mut s, v[i]);
        i = i + 1;
        assert(s@ =~= v@.take(i as int));
    }
    assert(v@.take(v@.len() as int) =~= v@);
    s
}

/// Sequence equality, character by character.
pub fn chars_eq(a: &Vec<char>, b: &Vec<char>) -> (r: bool)
    ensures
        r == (a@ == b@),
{
    if a.len() != b.len() {
        return false;
    }
    let mut i: usize = 0;
    while i < a.len()
        invariant
            a@.len() == b@.len(),
            i <= a@.len(),
            forall|k: int| 0 <= k < i ==> a@[k] == b@[k],
        decreases a@.len() - i,
    {
        if a[i] != b[i] {
            return false;
        }
        i = i + 1;
    }
    assert(a@ =~= b@);
    true
}

pub fn str_eq(a: &str, b: &str) -> (r: bool)
    ensures
        r == (a@ == b@),
{
    chars_eq(&chars_of(a), &chars_of(b))
}

pub open spec fn ends_with(s: Seq<char>, suffix: Seq<char>) -> bool {
    suffix.len() <= s.len() && s.skip(s.len() - suffix.len()) == suffix
}

pub open spec fn starts_with(s: Seq<char>, prefix: Seq<char>) -> bool {
    prefix.len() <= s.len() && s.take(prefix.len() as int) == prefix
}

pub fn chars_ends_with(s: &Vec<char>, suffix: &str) -> (r: bool)
    ensures
        r == ends_with(s@, suffix@),
{
    let t = chars_of(suffix);
    if t.len() > s.len() {
        return false;
    }
    let off = s.len() - t.len();
    let mut i: usize = 0;
    while i < t.len()
        invariant
            t@ == suffix@,
            off + t@.len() == s@.len(),
            i <= t@.len(),
            forall|k: int| 0 <= k < i ==> s@[off + k] == t@[k],
        decreases t@.len() - i,
    {
        assert(off + i < s.len());
        if s[off + i] != t[i] {
            assert(s@.skip(off as int)[i as int] != t@[i as int]);
            return false;
        }
        i = i + 1;
    }
    assert(s@.skip(off as int) =~= t@);
    true
}

pub fn chars_starts_with(s: &Vec<char>, prefix: &str) -> (r: bool)
    ensures
        r == starts_with(s@, prefix@),
{
    let t = chars_of(prefix);
    if t.len() > s.len() {
        return false;
    }
    let mut i: usize = 0;
    while i < t.len()
        invariant
            t@ == prefix@,
            t@.len() <= s@.len(),
            i <= t@.len(),
            forall|k: int| 0 <= k < i ==> s@[k] == t@[k],
        decreases t@.len() - i,
    {
        if s[i] != t[i] {
            assert(s@.take(t@.len() as int)[i as int] != t@[i as int]);
            return false;
        }
        i = i + 1;
    }
    assert(s@.take(t@.len() as int) =~= t@);
    true
}

/// Concatenation of two pieces, as `format!("{a}{b}")` builds it.
pub fn concat2(a: &str, b: &str) -> (r: String)
    ensures
        r@ == a@ + b@,
{
    let mut s = String::from_str(a);
    s.append(b);
    s
}

/// Concatenation of three pieces, as `format!("{a}{b}{c}")` builds it.
pub fn concat3(a: &str, b: &str, c: &str) -> (r: String)
    ensures
        r@ == a@ + b@ + c@,
{
    let mut s = String::from_str(a);
    s.append(b);
    s.append(c);
    s
}


// ───────── words ─────────

/// Which characters separate words.
#[derive(Clone, Copy, PartialEq, Eq, Debug)]
pub enum Sep {
    /// `str::split_whitespace`.
    Whitespace,
    /// Whitespace or `-`.
    WhitespaceOrHyphen,
}

pub open spec fn is_sep(k: Sep, c: char) -> bool {
    match k {
        Sep::Whitespace => is_ws(c),
        Sep::WhitespaceOrHyphen => is_ws(c) || c == '-',
    }
}

pub fn sep_char(k: Sep, c: char) -> (r: bool)
    ensures
        r == is_sep(k, c),
{
    match k {
        Sep::Whitespace => is_whitespace(c),
        Sep::WhitespaceOrHyphen => is_whitespace(c) || c == '-',
    }
}

/// Maximal non-empty runs of non-separator characters, scanning left to
/// right with `cur` the run collected so far.
pub open spec fn tok(s: Seq<char>, k: Sep, cur: Seq<char>) -> Seq<Seq<char>>
    decreases s.len(),
{
    if s.len() == 0 {
        if cur.len() > 0 {
            seq![cur]
        } else {
            seq![]
        }
    } else if is_sep(k, s[0]) {
        (if cur.len() > 0 {
            seq![cur]
        } else {
            Seq::<Seq<char>>::empty()
        }) + tok(s.drop_first(), k, Seq::<char>::empty())
    } else {
        tok(s.drop_first(), k, cur.push(s[0]))
    }
}

/// The words of `s`: what `split(is_sep).filter(|w| !w.is_empty())` yields.
pub open spec fn words(s: Seq<char>, k: Sep) -> Seq<Seq<char>> {
    tok(s, k, Seq::<char>::empty())
}

/// A word is non-empty and holds no separator.
pub open spec fn is_word(w: Seq<char>, k: Sep) -> bool {
    w.len() > 0 && forall|i: int| 0 <= i < w.len() ==> !is_sep(k, #[trigger] w[i])
}

pub proof fn lemma_tok_words(s: Seq<char>, k: Sep, cur: Seq<char>)
    requires
        forall|i: int| 0 <= i < cur.len() ==> !is_sep(k, #[trigger] cur[i]),
    ensures
        forall|j: int| 0 <= j < tok(s, k, cur).len() ==> is_word(#[trigger] tok(s, k, cur)[j], k),
    decreases s.len(),
{
    if s.len() == 0 {
        if cur.len() > 0 {
            assert(tok(s, k, cur) =~= seq![cur]);
            assert(is_word(cur, k));
        }
    } else if is_sep(k, s[0]) {
        lemma_tok_words(s.drop_first(), k, Seq::<char>::empty());
        let head = if cur.len() > 0 {
            seq![cur]
        } else {
            Seq::<Seq<char>>::empty()
        };
        let rest = tok(s.drop_first(), k, Seq::<char>::empty());
        assert(tok(s, k, cur) == head + rest);
        assert forall|j: int| 0 <= j < (head + rest).len() implies is_word(
            #[trigger] (head + rest)[j],
            k,
        ) by {
            if j >= head.len() {
                assert((head + rest)[j] == rest[j - head.len()]);
            } else {
                assert(is_word(cur, k));
            }
        }
    } else {
        let c2 = cur.push(s[0]);
        assert forall|i: int| 0 <= i < c2.len() implies !is_sep(k, #[trigger] c2[i]) by {
            if i < cur.len() {
                assert(c2[i] == cur[i]);
            }
        }
        lemma_tok_words(s.drop_first(), k, c2);
        assert(tok(s, k, cur) == tok(s.drop_first(), k, c2));
    }
}

pub proof fn lemma_words_are_words(s: Seq<char>, k: Sep)
    ensures
        forall|j: int| 0 <= j < words(s, k).len() ==> is_word(#[trigger] words(s, k)[j], k),
{
    lemma_tok_words(s, k, Seq::<char>::empty());
}

/// The character sequences held by a vector of character vectors.
pub open spec fn views(v: Seq<Vec<char>>) -> Seq<Seq<char>> {
    v.map_values(|w: Vec<char>| w@)
}

/// Splits `s` into its words.
pub fn split_words(s: &Vec<char>, k: Sep) -> (r: Vec<Vec<char>>)
    ensures
        views(r@) == words(s@, k),
{
    let mut out: Vec<Vec<char>> = Vec::new();
    let mut cur: Vec<char> = Vec::new();
    let mut i: usize = 0;
    assert(s@.skip(0) =~= s@);
    assert(views(out@) =~= Seq::<Seq<char>>::empty());
    while i < s.len()
        invariant
            i <= s@.len(),
            words(s@, k) == views(out@) + tok(s@.skip(i as int), k, cur@),
        decreases s@.len() - i,
    {
        let ghost rest = s@.skip(i as int);
        assert(rest.drop_first() =~= s@.skip(i + 1));
        assert(rest[0] == s@[i as int]);
        let c = s[i];
        let ghost old_cur = cur@;
        let ghost old_out = views(out@);
        if sep_char(k, c) {
            proof {
                let head = if old_cur.len() > 0 {
                    seq![old_cur]
                } else {
                    Seq::<Seq<char>>::empty()
                };
                assert(tok(rest, k, old_cur) == head + tok(rest.drop_first(), k, Seq::<char>::empty()));
                assert(words(s@, k) =~= (old_out + head) + tok(s@.skip(i + 1), k, Seq::<char>::empty()));
            }
            if cur.len() > 0 {
                let ghost before = views(out@);
                let w = cur;
                out.push(w);
                cur = Vec::new();
                assert(views(out@) =~= before + seq![w@]);
            }
            assert(cur@ =~= Seq::<char>::empty());
            assert(views(out@) + tok(s@.skip(i + 1), k, cur@) =~= words(s@, k));
        } else {
            cur.push(c);
            assert(tok(rest, k, old_cur) == tok(rest.drop_first(), k, old_cur.push(c)));
        }
        i = i + 1;
    }
    if cur.len() > 0 {
        let ghost before = views(out@);
        let w = cur;
        out.push(w);
        assert(views(out@) =~= before + seq![w@]);
    }
    assert(views(out@) =~= words(s@, k)) by {
        assert(s@.skip(s@.len() as int).len() == 0);
    }
    out
}

/// Words joined by single spaces.
pub open spec fn join_sp(ws: Seq<Seq<char>>) -> Seq<char>
    decreases ws.len(),
{
    if ws.len() == 0 {
        Seq::<char>::empty()
    } else if ws.len() == 1 {
        ws[0]
    } else {
        join_sp(ws.drop_last()) + seq![' '] + ws.last()
    }
}

pub fn join_words(ws: &Vec<Vec<char>>) -> (r: Vec<char>)
    ensures
        r@ == join_sp(views(ws@)),
{
    let mut r: Vec<char> = Vec::new();
    let mut i: usize = 0;
    while i < ws.len()
        invariant
            i <= ws@.len(),
            r@ == join_sp(views(ws@).take(i as int)),
        decreases ws@.len() - i,
    {
        let ghost before = r@;
        if i > 0 {
            r.push(' ');
        }
        let w = &ws[i];
        let mut j: usize = 0;
        let ghost mid = r@;
        while j < w.len()
            invariant
                j <= w@.len(),
                r@ == mid + w@.take(j as int),
            decreases w@.len() - j,
        {
            r.push(w[j]);
            j = j + 1;
            assert(r@ =~= mid + w@.take(j as int));
        }
        assert(w@.take(w@.len() as int) =~= w@);
        assert(views(ws@).take(i + 1).drop_last() =~= views(ws@).take(i as int));
        assert(views(ws@)[i as int] == w@);
        if i == 0 {
            assert(r@ =~= join_sp(views(ws@).take(1)));
        } else {
            assert(r@ =~= join_sp(views(ws@).take(i + 1)));
        }
        i = i + 1;
    }
    assert(views(ws@).take(ws@.len() as int) =~= views(ws@));
    r
}

// ───────── decimal integers ─────────

pub open spec fn is_digit(c: char) -> bool {
    '0' <= c && c <= '9'
}

pub open spec fn digit_val(c: char) -> int {
    (c as int) - ('0' as int)
}

pub open spec fn all_digits(s: Seq<char>) -> bool {
    forall|i: int| 0 <= i < s.len() ==> is_digit(#[trigger] s[i])
}

/// Value of a run of decimal digits.
pub open spec fn dec_val(s: Seq<char>) -> int
    decreases s.len(),
{
    if s.len() == 0 {
        0
    } else {
        dec_val(s.drop_last()) * 10 + digit_val(s.last())
    }
}

/// What `str::parse::<i64>()` (or any signed integer type wide enough)
/// reads from `s`: an optional `+`/`-` sign and one or more ASCII digits,
/// nothing else, no surrounding whitespace.
pub open spec fn parse_int(s: Seq<char>) -> Option<int> {
    if s.len() > 0 && (s[0] == '+' || s[0] == '-') {
        let d = s.drop_first();
        if d.len() > 0 && all_digits(d) {
            Some(
                if s[0] == '-' {
                    -dec_val(d)
                } else {
                    dec_val(d)
                },
            )
        } else {
            None
        }
    } else if s.len() > 0 && all_digits(s) {
        Some(dec_val(s))
    } else {
        None
    }
}

/// `str::parse::<i32>()`: the integer, or an error when the text is not
/// an integer or the value does not fit.
pub open spec fn parse_i32(s: Seq<char>) -> Option<i32> {
    match parse_int(s) {
        Some(v) => if i32::MIN <= v && v <= i32::MAX {
            Some(v as i32)
        } else {
            None
        },
        None => None,
    }
}

pub proof fn lemma_dec_val_prefix(d: Seq<char>, k: int)
    requires
        all_digits(d),
        0 <= k <= d.len(),
    ensures
        0 <= dec_val(d.take(k)) <= dec_val(d),
    decreases d.len(),
{
    if k == d.len() {
        assert(d.take(k) =~= d);
        lemma_dec_val_nonneg(d);
    } else {
        assert(all_digits(d.drop_last()));
        lemma_dec_val_prefix(d.drop_last(), k);
        assert(d.drop_last().take(k) =~= d.take(k));
        lemma_dec_val_nonneg(d.drop_last());
        assert(is_digit(d[d.len() - 1]));
    }
}

pub proof fn lemma_dec_val_nonneg(d: Seq<char>)
    requires
        all_digits(d),
    ensures
        0 <= dec_val(d),
    decreases d.len(),
{
    if d.len() > 0 {
        assert(all_digits(d.drop_last()));
        lemma_dec_val_nonneg(d.drop_last());
        assert(is_digit(d[d.len() - 1]));
    }
}

pub fn parse_i32_chars(s: &Vec<char>) -> (r: Option<i32>)
    ensures
        r == parse_i32(s@),
{
    let n = s.len();
    if n == 0 {
        return None;
    }
    let neg = s[0] == '-';
    let start: usize = if s[0] == '+' || s[0] == '-' {
        1
    } else {
        0
    };
    if start >= n {
        return None;
    }
    let ghost d = s@.skip(start as int);
    let mut acc: i64 = 0;
    let mut i: usize = start;
    while i < n
        invariant
            n == s@.len(),
            start <= i <= n,
            start < n,
            d == s@.skip(start as int),
            start == 1 ==> d == s@.drop_first(),
            start == 0 ==> d == s@,
            (start == 1) == (s@[0] == '+' || s@[0] == '-'),
            start <= 1,
            neg == (s@[0] == '-'),
            all_digits(d.take(i - start)),
            acc == dec_val(d.take(i - start)),
            0 <= acc <= 2147483648,
        decreases n - i,
    {
        let c = s[i];
        if !('0' <= c && c <= '9') {
            proof {
                assert(d[i - start] == c);
                assert(!all_digits(d));
            }
            return None;
        }
        let dv = (c as u32 - '0' as u32) as i64;
        acc = acc * 10 + dv;
        i = i + 1;
        proof {
            let t = d.take(i - start);
            assert(t.drop_last() =~= d.take(i - 1 - start));
            assert(t.last() == c);
            assert forall|j: int| 0 <= j < t.len() implies is_digit(#[trigger] t[j]) by {
                if j < t.len() - 1 {
                    assert(t[j] == d.take(i - 1 - start)[j]);
                }
            }
        }
        if acc > 2147483648 {
            proof {
                if all_digits(d) {
                    lemma_dec_val_prefix(d, i - start);
                }
            }
            return None;
        }
    }
    proof {
        assert(d.take(n - start) =~= d);
        if start == 1 {
            assert(d =~= s@.drop_first());
        } else {
            assert(d =~= s@);
        }
    }
    if neg {
        Some((0 - acc) as i32)
    } else if acc > 2147483647 {
        None
    } else {
        Some(acc as i32)
    }
}

pub open spec fn digit_char(d: nat) -> char {
    ((d + ('0' as nat)) as u32) as char
}

/// Decimal text of a natural number, no leading zeros.
pub open spec fn dec_seq(n: nat) -> Seq<char>
    decreases n,
{
    if n < 10 {
        seq![digit_char(n)]
    } else {
        dec_seq(n / 10).push(digit_char(n % 10))
    }
}

/// Decimal text of an integer, as `to_string` writes it.
pub open spec fn int_text(n: int) -> Seq<char> {
    if n < 0 {
        seq!['-'] + dec_seq((-n) as nat)
    } else {
        dec_seq(n as nat)
    }
}

pub fn u64_digits(n: u64) -> (r: Vec<char>)
    ensures
        r@ == dec_seq(n as nat),
    decreases n,
{
    let d = ((n % 10) as u8 + 48u8) as char;
    if n < 10 {
        let mut v: Vec<char> = Vec::new();
        v.push(d);
        assert(v@ =~= dec_seq(n as nat));
        v
    } else {
        let mut v = u64_digits(n / 10);
        v.push(d);
        v
    }
}

/// `i64::to_string`.
pub fn i64_text(n: i64) -> (r: String)
    ensures
        r@ == int_text(n as int),
{
    if n < 0 {
        let m: u64 = (0i128 - n as i128) as u64;
        let mut v: Vec<char> = Vec::new();
        v.push('-');
        let ds = u64_digits(m);
        let mut i: usize = 0;
        while i < ds.len()
            invariant
                i <= ds@.len(),
                v@ == seq!['-'] + ds@.take(i as int),
            decreases ds@.len() - i,
        {
            v.push(ds[i]);
            i = i + 1;
            assert(v@ =~= seq!['-'] + ds@.take(i as int));
        }
        assert(ds@.take(ds@.len() as int) =~= ds@);
        string_of(&v)
    } else {
        let ds = u64_digits(n as u64);
        string_of(&ds)
    }
}


/// Equality with a literal.
pub fn eq_lit(v: &Vec<char>, lit: &str) -> (r: bool)
    ensures
        r == (v@ == lit@),
{
    chars_eq(v, &chars_of(lit))
}


/// A separator at the end of the text closes the current word and adds
/// nothing else.
pub proof fn lemma_tok_trailing_sep(u: Seq<char>, c: char, k: Sep, cur: Seq<char>)
    requires
        is_sep(k, c),
    ensures
        tok(u.push(c), k, cur) == tok(u, k, cur),
    decreases u.len(),
{
    if u.len() == 0 {
        assert(u.push(c).drop_first() =~= Seq::<char>::empty());
        assert(tok(Seq::<char>::empty(), k, Seq::<char>::empty()) =~= Seq::<Seq<char>>::empty());
        if cur.len() > 0 {
            assert(tok(u.push(c), k, cur) =~= seq![cur]);
        } else {
            assert(tok(u.push(c), k, cur) =~= Seq::<Seq<char>>::empty());
        }
    } else {
        assert(u.push(c).drop_first() =~= u.drop_first().push(c));
        assert(u.push(c)[0] == u[0]);
        if is_sep(k, u[0]) {
            lemma_tok_trailing_sep(u.drop_first(), c, k, Seq::<char>::empty());
        } else {
            lemma_tok_trailing_sep(u.drop_first(), c, k, cur.push(u[0]));
        }
    }
}

/// Text split at a separator tokenises as its two sides.
pub proof fn lemma_tok_split_at_sep(u: Seq<char>, c: char, v: Seq<char>, k: Sep, cur: Seq<char>)
    requires
        is_sep(k, c),
    ensures
        tok(u.push(c) + v, k, cur) == tok(u.push(c), k, cur) + tok(v, k, Seq::<char>::empty()),
    decreases u.len(),
{
    if u.len() == 0 {
        assert((u.push(c) + v).drop_first() =~= v);
        assert(u.push(c).drop_first() =~= Seq::<char>::empty());
        assert((u.push(c) + v)[0] == c);
        let head = if cur.len() > 0 {
            seq![cur]
        } else {
            Seq::<Seq<char>>::empty()
        };
        assert(tok(Seq::<char>::empty(), k, Seq::<char>::empty()) =~= Seq::<Seq<char>>::empty());
        assert(tok(u.push(c), k, cur) =~= head);
    } else {
        assert((u.push(c) + v).drop_first() =~= u.drop_first().push(c) + v);
        assert(u.push(c).drop_first() =~= u.drop_first().push(c));
        assert((u.push(c) + v)[0] == u[0]);
        assert(u.push(c)[0] == u[0]);
        if is_sep(k, u[0]) {
            lemma_tok_split_at_sep(u.drop_first(), c, v, k, Seq::<char>::empty());
            let head = if cur.len() > 0 {
                seq![cur]
            } else {
                Seq::<Seq<char>>::empty()
            };
            assert(head + (tok(u.drop_first().push(c), k, Seq::<char>::empty()) + tok(
                v,
                k,
                Seq::<char>::empty(),
            )) =~= (head + tok(u.drop_first().push(c), k, Seq::<char>::empty())) + tok(
                v,
                k,
                Seq::<char>::empty(),
            ));
        } else {
            lemma_tok_split_at_sep(u.drop_first(), c, v, k, cur.push(u[0]));
        }
    }
}

/// A single word tokenises as itself (after whatever was collected).
pub proof fn lemma_tok_word(w: Seq<char>, k: Sep, cur: Seq<char>)
    requires
        forall|i: int| 0 <= i < w.len() ==> !is_sep(k, #[trigger] w[i]),
        cur.len() + w.len() > 0,
    ensures
        tok(w, k, cur) == seq![cur + w],
    decreases w.len(),
{
    if w.len() == 0 {
        assert(cur + w =~= cur);
    } else {
        assert(!is_sep(k, w[0]));
        assert forall|i: int| 0 <= i < w.drop_first().len() implies !is_sep(
            k,
            #[trigger] w.drop_first()[i],
        ) by {
            assert(w.drop_first()[i] == w[i + 1]);
        }
        lemma_tok_word(w.drop_first(), k, cur.push(w[0]));
        assert(cur.push(w[0]) + w.drop_first() =~= cur + w);
    }
}

/// Splitting words that were joined by single spaces gives them back.
pub proof fn lemma_words_of_join(ws: Seq<Seq<char>>, k: Sep)
    requires
        forall|j: int| 0 <= j < ws.len() ==> is_word(#[trigger] ws[j], k),
    ensures
        words(join_sp(ws), k) == ws,
    decreases ws.len(),
{
    assert(is_sep(k, ' '));
    if ws.len() == 0 {
        assert(words(Seq::<char>::empty(), k) =~= Seq::<Seq<char>>::empty());
    } else if ws.len() == 1 {
        assert(is_word(ws[0], k));
        lemma_tok_word(ws[0], k, Seq::<char>::empty());
        assert(Seq::<char>::empty() + ws[0] =~= ws[0]);
        assert(seq![ws[0]] =~= ws);
    } else {
        let init = ws.drop_last();
        assert forall|j: int| 0 <= j < init.len() implies is_word(#[trigger] init[j], k) by {
            assert(init[j] == ws[j]);
        }
        lemma_words_of_join(init, k);
        let u = join_sp(init);
        let last = ws.last();
        assert(is_word(last, k));
        assert(join_sp(ws) == u + seq![' '] + last);
        assert(u + seq![' '] + last =~= u.push(' ') + last);
        lemma_tok_split_at_sep(u, ' ', last, k, Seq::<char>::empty());
        lemma_tok_trailing_sep(u, ' ', k, Seq::<char>::empty());
        lemma_tok_word(last, k, Seq::<char>::empty());
        assert(Seq::<char>::empty() + last =~= last);
        assert(init + seq![last] =~= ws);
    }
}

/// Every character of `s` satisfies `p`.
pub open spec fn all_p(s: Seq<char>, p: spec_fn(char) -> bool) -> bool {
    forall|i: int| 0 <= i < s.len() ==> p(#[trigger] s[i])
}

/// Every word cut from text whose characters all satisfy `p` (after a run
/// that does too) has characters that all satisfy it.
pub proof fn lemma_tok_p(s: Seq<char>, k: Sep, cur: Seq<char>, p: spec_fn(char) -> bool)
    requires
        all_p(s, p),
        all_p(cur, p),
    ensures
        forall|j: int| 0 <= j < tok(s, k, cur).len() ==> all_p(#[trigger] tok(s, k, cur)[j], p),
    decreases s.len(),
{
    if s.len() > 0 {
        assert(all_p(s.drop_first(), p)) by {
            assert forall|i: int| 0 <= i < s.drop_first().len() implies p(#[trigger] s.drop_first()[i]) by {
                assert(s.drop_first()[i] == s[i + 1]);
            }
        }
    }
    if s.len() == 0 {
        if cur.len() > 0 {
            assert(tok(s, k, cur) =~= seq![cur]);
        }
    } else if is_sep(k, s[0]) {
        lemma_tok_p(s.drop_first(), k, Seq::<char>::empty(), p);
        let head = if cur.len() > 0 {
            seq![cur]
        } else {
            Seq::<Seq<char>>::empty()
        };
        let rest = tok(s.drop_first(), k, Seq::<char>::empty());
        assert(tok(s, k, cur) == head + rest);
        assert forall|j: int| 0 <= j < (head + rest).len() implies all_p(#[trigger] (head + rest)[j], p) by {
            if j >= head.len() {
                assert((head + rest)[j] == rest[j - head.len()]);
            }
        }
    } else {
        let c2 = cur.push(s[0]);
        assert(all_p(c2, p)) by {
            assert forall|i: int| 0 <= i < c2.len() implies p(#[trigger] c2[i]) by {
                if i < cur.len() {
                    assert(c2[i] == cur[i]);
                }
            }
        }
        lemma_tok_p(s.drop_first(), k, c2, p);
        assert(tok(s, k, cur) == tok(s.drop_first(), k, c2));
    }
}

/// Joining words whose characters all satisfy `p` by spaces that satisfy
/// it gives text whose characters all satisfy it.
pub proof fn lemma_join_all_p(ws: Seq<Seq<char>>, p: spec_fn(char) -> bool)
    requires
        forall|j: int| 0 <= j < ws.len() ==> all_p(#[trigger] ws[j], p),
        p(' '),
    ensures
        all_p(join_sp(ws), p),
    decreases ws.len(),
{
    if ws.len() == 1 {
        assert(all_p(ws[0], p));
    } else if ws.len() > 1 {
        assert forall|j: int| 0 <= j < ws.drop_last().len() implies all_p(
            #[trigger] ws.drop_last()[j],
            p,
        ) by {
            assert(ws.drop_last()[j] == ws[j]);
        }
        lemma_join_all_p(ws.drop_last(), p);
        let a = join_sp(ws.drop_last());
        let b = ws.last();
        assert(all_p(b, p)) by {
            assert(b == ws[ws.len() - 1]);
        }
        let t = a + seq![' '] + b;
        assert forall|i: int| 0 <= i < t.len() implies p(#[trigger] t[i]) by {
            if i < a.len() {
                assert(t[i] == a[i]);
            } else if i == a.len() {
                assert(t[i] == ' ');
            } else {
                assert(t[i] == b[i - a.len() - 1]);
            }
        }
    }
}

/// Text that neither starts nor ends with whitespace is its own trim.
pub proof fn lemma_trim_fixed(s: Seq<char>)
    requires
        s.len() > 0 ==> !is_ws(s[0]) && !is_ws(s.last()),
    ensures
        trim(s) == s,
{
    assert(trim_start(s) == s);
    assert(trim_end(s) == s);
}

/// ASCII lower-casing a character leaves it whitespace exactly when it was,
/// and lower-casing twice is lower-casing once.
pub proof fn lemma_ascii_lower_char(c: char)
    ensures
        is_ws(ascii_lower_char(c)) == is_ws(c),
        ascii_lower_char(ascii_lower_char(c)) == ascii_lower_char(c),
{
}

/// Lower-cased text is fixed by lower-casing.
pub proof fn lemma_ascii_lower_lowered(s: Seq<char>)
    ensures
        all_p(ascii_lower(s), |c: char| ascii_lower_char(c) == c),
{
    assert forall|i: int| 0 <= i < ascii_lower(s).len() implies (|c: char| ascii_lower_char(c) == c)(
        #[trigger] ascii_lower(s)[i],
    ) by {
        lemma_ascii_lower_char(s[i]);
    }
}

/// Text whose characters lower-casing fixes is its own lower-case form.
pub proof fn lemma_ascii_lower_id(s: Seq<char>)
    requires
        all_p(s, |c: char| ascii_lower_char(c) == c),
    ensures
        ascii_lower(s) == s,
{
    assert forall|i: int| 0 <= i < s.len() implies ascii_lower(s)[i] == s[i] by {
        assert((|c: char| ascii_lower_char(c) == c)(s[i]));
    }
    assert(ascii_lower(s) =~= s);
}

/// Trimming and lower-casing text that was already trimmed and lower-cased
/// changes nothing.
pub proof fn lemma_lower_trim_idem(s: Seq<char>)
    ensures
        ascii_lower(trim(ascii_lower(trim(s)))) == ascii_lower(trim(s)),
{
    let t = trim(s);
    let l = ascii_lower(t);
    lemma_trim_start_len(s);
    lemma_trim_end_len(trim_start(s));
    if t.len() > 0 {
        let ts = trim_start(s);
        assert(ts.len() > 0);
        assert(t[0] == ts[0]);
        lemma_ascii_lower_char(t[0]);
        lemma_ascii_lower_char(t.last());
        assert(l[0] == ascii_lower_char(t[0]));
        assert(l.last() == ascii_lower_char(t.last()));
    }
    lemma_trim_fixed(l);
    lemma_ascii_lower_lowered(t);
    lemma_ascii_lower_id(l);
}

/// Words joined by spaces neither start nor end with whitespace.
pub proof fn lemma_join_sp_ends(ws: Seq<Seq<char>>)
    requires
        ws.len() > 0,
        forall|j: int| 0 <= j < ws.len() ==> is_word(#[trigger] ws[j], Sep::Whitespace),
    ensures
        join_sp(ws).len() > 0,
        !is_ws(join_sp(ws)[0]),
        !is_ws(join_sp(ws).last()),
    decreases ws.len(),
{
    assert(is_word(ws[0], Sep::Whitespace));
    if ws.len() > 1 {
        let init = ws.drop_last();
        assert forall|j: int| 0 <= j < init.len() implies is_word(#[trigger] init[j], Sep::Whitespace) by {
            assert(init[j] == ws[j]);
        }
        lemma_join_sp_ends(init);
        let a = join_sp(init);
        let b = ws.last();
        assert(is_word(b, Sep::Whitespace)) by {
            assert(b == ws[ws.len() - 1]);
        }
        let r = a + seq![' '] + b;
        assert(r[0] == a[0]);
        assert(r.last() == b[b.len() - 1]);
    }
}

} // verus!

verus! {

// ───────── keyed lists ─────────

/// The value of the first entry whose key is `key`: a list of pairs read
/// as a map, earlier entries shadowing later ones.
pub open spec fn first_match<V>(m: Seq<(String, V)>, key: Seq<char>) -> Option<V>
    decreases m.len(),
{
    if m.len() == 0 {
        None
    } else if m[0].0@ == key {
        Some(m[0].1)
    } else {
        first_match(m.drop_first(), key)
    }
}

/// Appending an entry changes the lookup only of a key that had none.
pub proof fn lemma_first_match_append<V>(m: Seq<(String, V)>, p: (String, V), k: Seq<char>)
    ensures
        first_match(m.push(p), k) == match first_match(m, k) {
            Some(v) => Some(v),
            None => if p.0@ == k {
                Some(p.1)
            } else {
                None
            },
        },
    decreases m.len(),
{
    let mp = m.push(p);
    if m.len() == 0 {
        assert(mp[0] == p);
        assert(mp.drop_first() =~= Seq::<(String, V)>::empty());
        assert(first_match(mp.drop_first(), k) is None);
    } else {
        assert(mp[0] == m[0]);
        assert(mp.drop_first() =~= m.drop_first().push(p));
        if m[0].0@ != k {
            lemma_first_match_append(m.drop_first(), p, k);
            assert(first_match(mp, k) == first_match(mp.drop_first(), k));
        }
    }
}

/// Index of the first entry keyed `key`.
pub fn find_key<V>(m: &Vec<(String, V)>, key: &str) -> (r: Option<usize>)
    ensures
        match r {
            Some(i) => i < m@.len() && m@[i as int].0@ == key@ && first_match(m@, key@) == Some(
                m@[i as int].1,
            ),
            None => first_match(m@, key@) is None,
        },
{
    let mut i: usize = 0;
    assert(m@.skip(0) =~= m@);
    while i < m.len()
        invariant
            i <= m@.len(),
            first_match(m@, key@) == first_match(m@.skip(i as int), key@),
        decreases m@.len() - i,
    {
        assert(m@.skip(i as int)[0] == m@[i as int]);
        if str_eq(m[i].0.as_str(), key) {
            return Some(i);
        }
        assert(m@.skip(i as int).drop_first() =~= m@.skip(i + 1));
        i = i + 1;
    }
    assert(m@.skip(i as int).len() == 0);
    None
}

/// `Option<String>::clone`, field by field.
pub fn clone_opt_string(v: &Option<String>) -> (r: Option<String>)
    ensures
        r == *v,
        opt_view(r) == opt_view(*v),
{
    match v {
        Some(s) => Some(s.clone()),
        None => None,
    }
}

/// The view of an `Option<&str>`.
pub open spec fn opt_str_view(v: Option<&str>) -> Option<Seq<char>> {
    match v {
        Some(s) => Some(s@),
        None => None,
    }
}

/// `s.trim()` as characters.
pub fn trim_str(s: &str) -> (r: Vec<char>)
    ensures
        r@ == trim(s@),
{
    trim_chars(&chars_of(s))
}

/// `s.trim().is_empty()` negated, on an optional string slice.
pub fn opt_str_filled(v: Option<&str>) -> (r: bool)
    ensures
        r == filled(opt_str_view(v)),
{
    match v {
        Some(s) => !str_is_blank(s),
        None => false,
    }
}

} // verus!

verus! {

/// `Vec<String>::clone`, element by element.
pub fn clone_strings(v: &Vec<String>) -> (r: Vec<String>)
    ensures
        r@ == v@,
{
    let mut r: Vec<String> = Vec::new();
    let mut i: usize = 0;
    while i < v.len()
        invariant
            i <= v@.len(),
            r@ == v@.take(i as int),
        decreases v@.len() - i,
    {
        r.push(v[i].clone());
        i = i + 1;
        assert(r@ =~= v@.take(i as int));
    }
    assert(v@.take(v@.len() as int) =~= v@);
    r
}

} // verus!

verus! {

/// The optional text is present and not blank.
pub open spec fn has_text(v: Option<String>) -> bool {
    filled(opt_view(v))
}

pub fn text_present(v: &Option<String>) -> (r: bool)
    ensures
        r == has_text(*v),
{
    opt_filled(v)
}

/// The text is not blank.
pub open spec fn nonblank(s: Seq<char>) -> bool {
    !blank(s)
}

pub fn str_nonblank(s: &str) -> (r: bool)
    ensures
        r == nonblank(s@),
{
    !str_is_blank(s)
}

} // verus!
