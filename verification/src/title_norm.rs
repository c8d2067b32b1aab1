//! Title sanitising for the matcher: the same input strings give the same
//! comparison keys as ComicTagger's title pipeline.
//!
//! 1. NFKD normalisation (accents and ligatures decompose);
//! 2. lower-casing;
//! 3. quotes discarded outright;
//! 4. other punctuation becomes a word boundary, other symbols and
//!    combining marks are dropped;
//! 5. articles are dropped;
//! 6. words are joined by single spaces.
use vstd::prelude::*;
use vstd::string::*;
use crate::unicode::{alnum, is_alphanumeric, is_ascii_text, lowercase_of, nfkd, nfkd_of, to_lowercase};
use crate::text::{
    lemma_words_of_join, ascii_lower, ascii_lower_char, chars_of, eq_lit, is_sep, is_whitespace, is_word, is_ws,
    join_sp, join_words, lemma_words_are_words, split_words, string_of, tok, views, words, Sep,
    all_p, lemma_tok_p, lemma_join_all_p, lemma_join_sp_ends,
};

verus! {

pub open spec fn is_quote(c: char) -> bool {
    c == '\'' || c == '"' || c == '\u{2019}' || c == '\u{2018}' || c == '\u{201C}' || c
        == '\u{201D}'
}

/// Punctuation that turns into a word boundary (hyphens are handled as
/// boundaries by the split itself).
pub open spec fn is_punct_char(c: char) -> bool {
    c == '!' || c == '?' || c == '.' || c == ',' || c == ':' || c == ';' || c == '/' || c == '\\'
        || c == '(' || c == ')' || c == '[' || c == ']' || c == '{' || c == '}' || c == '<' || c
        == '>' || c == '@' || c == '#' || c == '$' || c == '%' || c == '^' || c == '*' || c == '+'
        || c == '=' || c == '|' || c == '~' || c == '`' || c == '_' || c == '\u{2013}' || c
        == '\u{2014}' || c == '\u{2026}' || c == '\u{00B7}'
}

pub fn is_punct(c: char) -> (r: bool)
    ensures
        r == is_punct_char(c),
{
    c == '!' || c == '?' || c == '.' || c == ',' || c == ':' || c == ';' || c == '/' || c == '\\'
        || c == '(' || c == ')' || c == '[' || c == ']' || c == '{' || c == '}' || c == '<' || c
        == '>' || c == '@' || c == '#' || c == '$' || c == '%' || c == '^' || c == '*' || c == '+'
        || c == '=' || c == '|' || c == '~' || c == '`' || c == '_' || c == '\u{2013}' || c
        == '\u{2014}' || c == '\u{2026}' || c == '\u{00B7}'
}

/// Steps 3 and 4 for one character: quotes vanish, letters, digits,
/// whitespace and hyphens stay, punctuation becomes a space, anything
/// else vanishes.
pub open spec fn map_char(c: char) -> Option<char> {
    if is_quote(c) {
        None
    } else if alnum(c) || is_ws(c) || c == '-' {
        Some(c)
    } else if is_punct_char(c) {
        Some(' ')
    } else {
        None
    }
}

pub open spec fn map_chars(s: Seq<char>) -> Seq<char>
    decreases s.len(),
{
    if s.len() == 0 {
        Seq::<char>::empty()
    } else {
        let r = map_chars(s.drop_last());
        match map_char(s.last()) {
            Some(c) => r.push(c),
            None => r,
        }
    }
}

pub open spec fn is_article(w: Seq<char>) -> bool {
    w == "&"@ || w == "a"@ || w == "am"@ || w == "an"@ || w == "and"@ || w == "as"@ || w == "at"@
        || w == "be"@ || w == "but"@ || w == "by"@ || w == "for"@ || w == "if"@ || w == "is"@
        || w == "issue"@ || w == "it"@ || w == "it's"@ || w == "its"@ || w == "itself"@ || w
        == "of"@ || w == "or"@ || w == "so"@ || w == "the"@ || w == "with"@
}

pub open spec fn drop_articles(ws: Seq<Seq<char>>) -> Seq<Seq<char>>
    decreases ws.len(),
{
    if ws.len() == 0 {
        ws
    } else {
        let r = drop_articles(ws.drop_last());
        if is_article(ws.last()) {
            r
        } else {
            r.push(ws.last())
        }
    }
}

/// The match key of a title.
pub open spec fn sanitized(input: Seq<char>) -> Seq<char> {
    join_sp(
        drop_articles(words(map_chars(lowercase_of(nfkd_of(input))), Sep::WhitespaceOrHyphen)),
    )
}

/// An ASCII letter or digit: what `char::is_alphanumeric` holds of an
/// ASCII character.
pub open spec fn ascii_alnum(c: char) -> bool {
    ('a' <= c && c <= 'z') || ('A' <= c && c <= 'Z') || ('0' <= c && c <= '9')
}

/// [`map_char`] on ASCII text, where letters and digits are the ASCII ones.
pub open spec fn map_char_ascii(c: char) -> Option<char> {
    if is_quote(c) {
        None
    } else if ascii_alnum(c) || is_ws(c) || c == '-' {
        Some(c)
    } else if is_punct_char(c) {
        Some(' ')
    } else {
        None
    }
}

pub open spec fn map_chars_ascii(s: Seq<char>) -> Seq<char>
    decreases s.len(),
{
    if s.len() == 0 {
        Seq::<char>::empty()
    } else {
        let r = map_chars_ascii(s.drop_last());
        match map_char_ascii(s.last()) {
            Some(c) => r.push(c),
            None => r,
        }
    }
}

/// The match key of an ASCII title: NFKD leaves ASCII text as it is and
/// lower-casing is the ASCII one.
pub open spec fn sanitized_ascii(input: Seq<char>) -> Seq<char> {
    join_sp(drop_articles(words(map_chars_ascii(ascii_lower(input)), Sep::WhitespaceOrHyphen)))
}

fn article(w: &Vec<char>) -> (r: bool)
    ensures
        r == is_article(w@),
{
    eq_lit(w, "&") || eq_lit(w, "a") || eq_lit(w, "am") || eq_lit(w, "an") || eq_lit(w, "and")
        || eq_lit(w, "as") || eq_lit(w, "at") || eq_lit(w, "be") || eq_lit(w, "but") || eq_lit(
        w,
        "by",
    ) || eq_lit(w, "for") || eq_lit(w, "if") || eq_lit(w, "is") || eq_lit(w, "issue")
        || eq_lit(w, "it") || eq_lit(w, "it's") || eq_lit(w, "its") || eq_lit(w, "itself")
        || eq_lit(w, "of") || eq_lit(w, "or") || eq_lit(w, "so") || eq_lit(w, "the") || eq_lit(
        w,
        "with",
    )
}

fn map_all(s: &Vec<char>) -> (r: Vec<char>)
    ensures
        r@ == map_chars(s@),
        is_ascii_text(s@) ==> r@ == map_chars_ascii(s@),
{
    let mut r: Vec<char> = Vec::new();
    let mut i: usize = 0;
    while i < s.len()
        invariant
            i <= s@.len(),
            r@ == map_chars(s@.take(i as int)),
            is_ascii_text(s@) ==> r@ == map_chars_ascii(s@.take(i as int)),
        decreases s@.len() - i,
    {
        let c = s[i];
        proof {
            assert(s@.take(i + 1).drop_last() =~= s@.take(i as int));
        }
        let quote = c == '\'' || c == '"' || c == '\u{2019}' || c == '\u{2018}' || c == '\u{201C}'
            || c == '\u{201D}';
        if quote {
        } else if is_alphanumeric(c) || is_whitespace(c) || c == '-' {
            r.push(c);
        } else if is_punct(c) {
            r.push(' ');
        }
        i = i + 1;
    }
    assert(s@.take(s@.len() as int) =~= s@);
    r
}

fn without_articles(ws: Vec<Vec<char>>) -> (r: Vec<Vec<char>>)
    ensures
        views(r@) == drop_articles(views(ws@)),
{
    let mut r: Vec<Vec<char>> = Vec::new();
    let mut ws = ws;
    let ghost all = views(ws@);
    let n = ws.len();
    let mut taken: Vec<Vec<char>> = Vec::new();
    // consume from the front, keeping order
    let mut i: usize = 0;
    while i < n
        invariant
            n == all.len(),
            i <= n,
            views(ws@) == all.skip(i as int),
            views(r@) == drop_articles(all.take(i as int)),
        decreases n - i,
    {
        assert(views(ws@).len() == ws@.len());
        let ghost ws0 = ws@;
        assert(views(ws0)[0] == ws0[0]@);
        assert(all.skip(i as int)[0] == all[i as int]);
        let w = ws.remove(0);
        proof {
            assert(ws@ == ws0.remove(0));
            assert(views(ws@) =~= views(ws0).drop_first());
            assert(all.take(i + 1).drop_last() =~= all.take(i as int));
            assert(all.take(i + 1).last() == w@);
        }
        if !article(&w) {
            let ghost before = views(r@);
            r.push(w);
            assert(views(r@) =~= before.push(w@));
        }
        i = i + 1;
        assert(views(ws@) =~= all.skip(i as int));
    }
    assert(all.take(n as int) =~= all);
    r
}

/// Sanitise a series or issue title down to its match key.
pub fn sanitize_title(input: &str) -> (r: String)
    ensures
        r@ == sanitized(input@),
        is_ascii_text(input@) ==> r@ == sanitized_ascii(input@),
{
    let nfkd = nfkd(input);
    let folded = to_lowercase(nfkd.as_str());
    proof {
        if is_ascii_text(input@) {
            lemma_ascii_lower_ascii(input@);
        }
    }
    let chars = chars_of(folded.as_str());
    let mapped = map_all(&chars);
    let ws = split_words(&mapped, Sep::WhitespaceOrHyphen);
    let kept = without_articles(ws);
    let joined = join_words(&kept);
    string_of(&joined)
}

/// A character the per-character step leaves as it is.
pub open spec fn fixed(c: char) -> bool {
    map_char(c) == Some(c)
}

/// Every character of `s` is one the per-character step leaves as it is.
pub open spec fn all_fixed(s: Seq<char>) -> bool {
    all_p(s, |c: char| fixed(c))
}

proof fn lemma_map_chars_fixed(s: Seq<char>)
    ensures
        all_fixed(map_chars(s)),
    decreases s.len(),
{
    if s.len() > 0 {
        lemma_map_chars_fixed(s.drop_last());
        let r = map_chars(s.drop_last());
        match map_char(s.last()) {
            Some(c) => {
                assert(fixed(c));
                assert forall|i: int| 0 <= i < r.push(c).len() implies fixed(#[trigger] r.push(c)[i]) by {
                    if i < r.len() {
                        assert(r.push(c)[i] == r[i]);
                    }
                }
            },
            None => {},
        }
    }
}

proof fn lemma_map_chars_id(s: Seq<char>)
    requires
        all_fixed(s),
    ensures
        map_chars(s) == s,
    decreases s.len(),
{
    if s.len() > 0 {
        assert(all_fixed(s.drop_last())) by {
            assert forall|i: int| 0 <= i < s.drop_last().len() implies fixed(#[trigger] s.drop_last()[i]) by {
                assert(s.drop_last()[i] == s[i]);
            }
        }
        lemma_map_chars_id(s.drop_last());
        assert(fixed(s[s.len() - 1]));
        assert(s.drop_last().push(s.last()) =~= s);
    }
}

pub open spec fn good_words(ws: Seq<Seq<char>>, p: spec_fn(char) -> bool) -> bool {
    forall|j: int|
        0 <= j < ws.len() ==> is_word(#[trigger] ws[j], Sep::WhitespaceOrHyphen) && all_p(ws[j], p)
}

proof fn lemma_drop_articles_good(ws: Seq<Seq<char>>, p: spec_fn(char) -> bool)
    requires
        good_words(ws, p),
    ensures
        good_words(drop_articles(ws), p),
        forall|j: int| 0 <= j < drop_articles(ws).len() ==> !is_article(#[trigger] drop_articles(ws)[j]),
    decreases ws.len(),
{
    if ws.len() > 0 {
        assert(good_words(ws.drop_last(), p)) by {
            assert forall|j: int| 0 <= j < ws.drop_last().len() implies is_word(
                #[trigger] ws.drop_last()[j],
                Sep::WhitespaceOrHyphen,
            ) && all_p(ws.drop_last()[j], p) by {
                assert(ws.drop_last()[j] == ws[j]);
            }
        }
        lemma_drop_articles_good(ws.drop_last(), p);
        let r = drop_articles(ws.drop_last());
        if !is_article(ws.last()) {
            assert forall|j: int| 0 <= j < r.push(ws.last()).len() implies is_word(
                #[trigger] r.push(ws.last())[j],
                Sep::WhitespaceOrHyphen,
            ) && all_p(r.push(ws.last())[j], p) && !is_article(r.push(ws.last())[j]) by {
                if j < r.len() {
                    assert(r.push(ws.last())[j] == r[j]);
                } else {
                    assert(ws.last() == ws[ws.len() - 1]);
                }
            }
        }
    }
}

proof fn lemma_drop_articles_id(ws: Seq<Seq<char>>)
    requires
        forall|j: int| 0 <= j < ws.len() ==> !is_article(#[trigger] ws[j]),
    ensures
        drop_articles(ws) == ws,
    decreases ws.len(),
{
    if ws.len() > 0 {
        assert forall|j: int| 0 <= j < ws.drop_last().len() implies !is_article(
            #[trigger] ws.drop_last()[j],
        ) by {
            assert(ws.drop_last()[j] == ws[j]);
        }
        lemma_drop_articles_id(ws.drop_last());
        assert(!is_article(ws[ws.len() - 1]));
        assert(ws.drop_last().push(ws.last()) =~= ws);
    }
}

/// Sanitising a match key again gives the same key, for every input whose
/// key NFKD and lower-casing leave as it is (the named Unicode results are
/// not otherwise tied down; the wrappers give it for every ASCII key).
pub proof fn lemma_sanitize_idempotent(input: Seq<char>)
    requires
        nfkd_of(sanitized(input)) == sanitized(input),
        lowercase_of(sanitized(input)) == sanitized(input),
    ensures
        sanitized(sanitized(input)) == sanitized(input),
{
    let k = Sep::WhitespaceOrHyphen;
    let m = map_chars(lowercase_of(nfkd_of(input)));
    let w = words(m, k);
    lemma_map_chars_fixed(lowercase_of(nfkd_of(input)));
    lemma_words_are_words(m, k);
    let fx = |c: char| fixed(c);
    lemma_tok_p(m, k, Seq::<char>::empty(), fx);
    assert(good_words(w, fx));
    lemma_drop_articles_good(w, fx);
    let a = drop_articles(w);
    let y = join_sp(a);
    assert(y == sanitized(input));
    assert(fixed(' ')) by {
        assert(is_ws(' '));
    }
    lemma_join_all_p(a, fx);
    lemma_map_chars_id(y);
    assert(forall|j: int| 0 <= j < a.len() ==> is_word(#[trigger] a[j], k));
    lemma_words_of_join(a, k);
    lemma_drop_articles_id(a);
}

/// The key is a sequence of words joined by single spaces; no word is
/// empty, holds whitespace or a hyphen, or is an article.
pub proof fn lemma_sanitized_shape(input: Seq<char>)
    ensures
        sanitized(input) == join_sp(
            drop_articles(words(map_chars(lowercase_of(nfkd_of(input))), Sep::WhitespaceOrHyphen)),
        ),
        forall|j: int|
            0 <= j < words(sanitized(input), Sep::WhitespaceOrHyphen).len() ==> !is_article(
                #[trigger] words(sanitized(input), Sep::WhitespaceOrHyphen)[j],
            ),
{
    let k = Sep::WhitespaceOrHyphen;
    let m = map_chars(lowercase_of(nfkd_of(input)));
    let w = words(m, k);
    lemma_map_chars_fixed(lowercase_of(nfkd_of(input)));
    lemma_words_are_words(m, k);
    let fx = |c: char| fixed(c);
    lemma_tok_p(m, k, Seq::<char>::empty(), fx);
    lemma_drop_articles_good(w, fx);
    let a = drop_articles(w);
    assert(forall|j: int| 0 <= j < a.len() ==> is_word(#[trigger] a[j], k));
    lemma_words_of_join(a, k);
}


pub open spec fn key_char(c: char) -> bool {
    map_char_ascii(c) == Some(c) && ascii_lower_char(c) == c && (c as u32) < 128
}

proof fn lemma_ascii_lower_ascii(s: Seq<char>)
    requires
        is_ascii_text(s),
    ensures
        is_ascii_text(ascii_lower(s)),
        forall|i: int| 0 <= i < s.len() ==> ascii_lower_char(#[trigger] ascii_lower(s)[i]) == ascii_lower(s)[i],
{
    assert forall|i: int| 0 <= i < ascii_lower(s).len() implies (#[trigger] ascii_lower(s)[i] as u32) < 128 by {
        assert(ascii_lower(s)[i] == ascii_lower_char(s[i]));
        assert((s[i] as u32) < 128);
    }
}

proof fn lemma_map_chars_ascii_key(s: Seq<char>)
    requires
        forall|i: int| 0 <= i < s.len() ==> (#[trigger] s[i] as u32) < 128 && ascii_lower_char(s[i]) == s[i],
    ensures
        all_p(map_chars_ascii(s), |c: char| key_char(c)),
    decreases s.len(),
{
    if s.len() > 0 {
        lemma_map_chars_ascii_key(s.drop_last());
        let r = map_chars_ascii(s.drop_last());
        let x = s.last();
        assert((x as u32) < 128 && ascii_lower_char(x) == x) by {
            assert(x == s[s.len() - 1]);
        }
        match map_char_ascii(x) {
            Some(c) => {
                assert(key_char(c));
                assert forall|i: int| 0 <= i < r.push(c).len() implies (|c: char| key_char(c))(#[trigger] r.push(c)[i]) by {
                    if i < r.len() {
                        assert(r.push(c)[i] == r[i]);
                    }
                }
            },
            None => {},
        }
    }
}

proof fn lemma_map_chars_ascii_id(s: Seq<char>)
    requires
        all_p(s, |c: char| key_char(c)),
    ensures
        map_chars_ascii(s) == s,
        ascii_lower(s) == s,
    decreases s.len(),
{
    if s.len() > 0 {
        assert(all_p(s.drop_last(), |c: char| key_char(c))) by {
            assert forall|i: int| 0 <= i < s.drop_last().len() implies (|c: char| key_char(c))(#[trigger] s.drop_last()[i]) by {
                assert(s.drop_last()[i] == s[i]);
            }
        }
        lemma_map_chars_ascii_id(s.drop_last());
        assert(key_char(s[s.len() - 1]));
        assert(s.drop_last().push(s.last()) =~= s);
    }
    assert forall|i: int| 0 <= i < s.len() implies #[trigger] ascii_lower(s)[i] == s[i] by {
        assert(key_char(s[i]));
    }
    assert(ascii_lower(s) =~= s);
}

/// Sanitising an ASCII title gives an ASCII key, and sanitising that key
/// again gives the same key: on ASCII input [`sanitize_title`] is
/// idempotent.
pub proof fn lemma_sanitize_ascii_idempotent(input: Seq<char>)
    requires
        is_ascii_text(input),
    ensures
        is_ascii_text(sanitized_ascii(input)),
        sanitized_ascii(sanitized_ascii(input)) == sanitized_ascii(input),
{
    let k = Sep::WhitespaceOrHyphen;
    let kp = |c: char| key_char(c);
    let l = ascii_lower(input);
    lemma_ascii_lower_ascii(input);
    let m = map_chars_ascii(l);
    lemma_map_chars_ascii_key(l);
    let w = words(m, k);
    lemma_words_are_words(m, k);
    lemma_tok_p(m, k, Seq::<char>::empty(), kp);
    assert(good_words(w, kp));
    lemma_drop_articles_good(w, kp);
    let a = drop_articles(w);
    let y = join_sp(a);
    assert(y == sanitized_ascii(input));
    assert(key_char(' ')) by {
        assert(is_ws(' '));
    }
    lemma_join_all_p(a, kp);
    assert forall|i: int| 0 <= i < y.len() implies (#[trigger] y[i] as u32) < 128 by {
        assert(kp(y[i]));
    }
    lemma_map_chars_ascii_id(y);
    assert(forall|j: int| 0 <= j < a.len() ==> is_word(#[trigger] a[j], k));
    lemma_words_of_join(a, k);
    lemma_drop_articles_id(a);
}

/// The key of an ASCII title holds only lower-case ASCII letters, digits
/// and single spaces between words: punctuation, quotes, hyphens, other
/// whitespace and upper case are all gone.
pub proof fn lemma_sanitize_ascii_charset(input: Seq<char>)
    requires
        is_ascii_text(input),
    ensures
        forall|i: int|
            0 <= i < sanitized_ascii(input).len() ==> {
                let c = #[trigger] sanitized_ascii(input)[i];
                ('a' <= c && c <= 'z') || ('0' <= c && c <= '9') || c == ' '
            },
        sanitized_ascii(input).len() > 0 ==> sanitized_ascii(input)[0] != ' ' && sanitized_ascii(
            input,
        ).last() != ' ',
{
    let k = Sep::WhitespaceOrHyphen;
    let kp = |c: char| key_char(c);
    let l = ascii_lower(input);
    lemma_ascii_lower_ascii(input);
    let m = map_chars_ascii(l);
    lemma_map_chars_ascii_key(l);
    let w = words(m, k);
    lemma_words_are_words(m, k);
    lemma_tok_p(m, k, Seq::<char>::empty(), kp);
    assert(good_words(w, kp));
    lemma_drop_articles_good(w, kp);
    let a = drop_articles(w);
    let y = join_sp(a);
    let p2 = |c: char| c == ' ' || (key_char(c) && !is_sep(k, c));
    assert forall|j: int| 0 <= j < a.len() implies all_p(#[trigger] a[j], p2) by {
        assert(is_word(a[j], k) && all_p(a[j], kp));
        assert forall|i: int| 0 <= i < a[j].len() implies p2(#[trigger] a[j][i]) by {
            assert(kp(a[j][i]));
            assert(!is_sep(k, a[j][i]));
        }
    }
    lemma_join_all_p(a, p2);
    assert forall|i: int| 0 <= i < y.len() implies {
        let c = #[trigger] y[i];
        ('a' <= c && c <= 'z') || ('0' <= c && c <= '9') || c == ' '
    } by {
        assert(p2(y[i]));
    }
    if a.len() > 0 {
        let aw = a;
        assert forall|j: int| 0 <= j < aw.len() implies is_word(#[trigger] aw[j], Sep::Whitespace) by {
            assert(is_word(aw[j], k));
            assert forall|i: int| 0 <= i < aw[j].len() implies !is_sep(Sep::Whitespace, #[trigger] aw[j][i]) by {
                assert(!is_sep(k, aw[j][i]));
            }
        }
        lemma_join_sp_ends(aw);
    }
}

} // verus!
