//! Character-level text operations over `Vec<char>` / `Seq<char>`: whitespace
//! trimming and splitting, line splitting, prefixes, substrings, ASCII case
//! folding and decimal rendering. Every operation is specified by a spec
//! function of the same shape as the std operation it stands for.

use vstd::prelude::*;

verus! {

/// `String::push` appends one character to the end of the string.
pub assume_specification[ String::push ](s: &mut String, ch: char)
    ensures
        final(s)@ == old(s)@.push(ch),
;

// ---------------------------------------------------------------------------
// Conversions
// ---------------------------------------------------------------------------

/// The characters of `s`, in order.
pub fn chars_of(s: &str) -> (out: Vec<char>)
    ensures
        out@ == s@,
{
    let mut out: Vec<char> = Vec::new();
    for c in it: s.chars()
        invariant
            out@ == it.seq().take(it.index() as int),
            it.seq() == s@,
    {
        out.push(c);
    }
    out
}

/// A `String` holding exactly the characters of `v`.
pub fn string_of(v: &Vec<char>) -> (out: String)
    ensures
        out@ == v@,
{
    let mut out = String::new();
    let mut i: usize = 0;
    while i < v.len()
        invariant
            i <= v.len(),
            out@ == v@.take(i as int),
        decreases v.len() - i,
    {
        out.push(v[i]);
        proof {
            assert(v@.take(i as int).push(v@[i as int]) =~= v@.take(i + 1));
        }
        i += 1;
    }
    proof {
        assert(v@.take(v.len() as int) =~= v@);
    }
    out
}

/// The characters of a `String`.
pub fn chars_of_string(s: &String) -> (out: Vec<char>)
    ensures
        out@ == s@,
{
    chars_of(s.as_str())
}

/// A copy of a `String`.
pub fn copy_string(s: &String) -> (out: String)
    ensures
        out@ == s@,
{
    s.clone()
}

/// A copy of an optional `String`.
pub fn copy_opt_string(s: &Option<String>) -> (out: Option<String>)
    ensures
        opt_view(out) == opt_view(*s),
{
    match s {
        Some(x) => Some(x.clone()),
        None => None,
    }
}

/// The view of an optional string.
pub open spec fn opt_view(s: Option<String>) -> Option<Seq<char>> {
    match s {
        Some(x) => Some(x@),
        None => None,
    }
}

/// The views of a sequence of strings.
pub open spec fn strs_view(v: Seq<String>) -> Seq<Seq<char>> {
    v.map_values(|s: String| s@)
}

/// A copy of a vector of strings.
pub fn copy_strings(v: &Vec<String>) -> (out: Vec<String>)
    ensures
        strs_view(out@) == strs_view(v@),
{
    let mut out: Vec<String> = Vec::new();
    let mut i: usize = 0;
    while i < v.len()
        invariant
            i <= v.len(),
            strs_view(out@) == strs_view(v@).take(i as int),
        decreases v.len() - i,
    {
        let c = v[i].clone();
        let ghost before = out@;
        out.push(c);
        proof {
            assert(out@ == before.push(c));
            assert(strs_view(before).len() == before.len());
            assert(before.len() == i);
            assert forall|k: int| 0 <= k < i + 1 implies #[trigger] strs_view(out@)[k]
                == strs_view(v@).take(i + 1)[k] by {
                if k < i {
                    assert(strs_view(out@)[k] == out@[k]@);
                    assert(out@[k] == before[k]);
                    assert(strs_view(before)[k] == before[k]@);
                } else {
                    assert(strs_view(out@)[k] == c@);
                }
            }
            assert(strs_view(out@) =~= strs_view(v@).take(i + 1));
        }
        i += 1;
    }
    proof {
        assert(strs_view(v@).take(v.len() as int) =~= strs_view(v@));
    }
    out
}

/// Equality of two strings by their characters.
pub fn str_eq(a: &str, b: &str) -> (r: bool)
    ensures
        r == (a@ == b@),
{
    let x = chars_of(a);
    let y = chars_of(b);
    seq_eq(&x, &y)
}

/// Equality of two character vectors.
pub fn seq_eq(a: &Vec<char>, b: &Vec<char>) -> (r: bool)
    ensures
        r == (a@ == b@),
{
    if a.len() != b.len() {
        return false;
    }
    let mut i: usize = 0;
    while i < a.len()
        invariant
            i <= a.len(),
            a.len() == b.len(),
            forall|k: int| 0 <= k < i ==> a@[k] == b@[k],
        decreases a.len() - i,
    {
        if a[i] != b[i] {
            return false;
        }
        i += 1;
    }
    proof {
        assert(a@ =~= b@);
    }
    true
}

/// Equality of a character vector with the characters of `lit`.
pub fn eq_lit(a: &Vec<char>, lit: &str) -> (r: bool)
    ensures
        r == (a@ == lit@),
{
    let b = chars_of(lit);
    seq_eq(a, &b)
}

/// A subrange of a character vector, as a new vector.
pub fn slice(v: &Vec<char>, from: usize, to: usize) -> (out: Vec<char>)
    requires
        from <= to <= v.len(),
    ensures
        out@ == v@.subrange(from as int, to as int),
{
    let mut out: Vec<char> = Vec::new();
    let mut i = from;
    while i < to
        invariant
            from <= i <= to <= v.len(),
            out@ == v@.subrange(from as int, i as int),
        decreases to - i,
    {
        out.push(v[i]);
        proof {
            assert(out@ =~= v@.subrange(from as int, i + 1));
        }
        i += 1;
    }
    out
}

/// Append all of `b` to `a`.
pub fn append(a: &mut Vec<char>, b: &Vec<char>)
    ensures
        final(a)@ == old(a)@ + b@,
{
    let mut i: usize = 0;
    while i < b.len()
        invariant
            i <= b.len(),
            a@ == old(a)@ + b@.take(i as int),
        decreases b.len() - i,
    {
        a.push(b[i]);
        proof {
            assert(a@ =~= old(a)@ + b@.take(i + 1));
        }
        i += 1;
    }
    proof {
        assert(b@.take(b.len() as int) =~= b@);
    }
}

/// Append the characters of `lit` to `a`.
pub fn append_lit(a: &mut Vec<char>, lit: &str)
    ensures
        final(a)@ == old(a)@ + lit@,
{
    let b = chars_of(lit);
    append(a, &b);
}

// ---------------------------------------------------------------------------
// Whitespace, prefix runs, trimming
// ---------------------------------------------------------------------------

/// Unicode `White_Space`, the set `char::is_whitespace` tests.
pub open spec fn is_ws(c: char) -> bool {
    ||| c == '\t' || c == '\n' || c == '\x0B' || c == '\x0C' || c == '\r' || c == ' '
    ||| c == '\u{85}' || c == '\u{A0}' || c == '\u{1680}'
    ||| ('\u{2000}' <= c && c <= '\u{200A}')
    ||| c == '\u{2028}' || c == '\u{2029}' || c == '\u{202F}' || c == '\u{205F}'
    ||| c == '\u{3000}'
}

/// `char::is_whitespace`.
pub fn is_whitespace(c: char) -> (r: bool)
    ensures
        r == is_ws(c),
{
    c == '\t' || c == '\n' || c == '\x0B' || c == '\x0C' || c == '\r' || c == ' '
        || c == '\u{85}' || c == '\u{A0}' || c == '\u{1680}' || ('\u{2000}' <= c && c
        <= '\u{200A}') || c == '\u{2028}' || c == '\u{2029}' || c == '\u{202F}' || c
        == '\u{205F}' || c == '\u{3000}'
}

/// Number of leading whitespace characters.
pub open spec fn ws_prefix_len(s: Seq<char>) -> nat
    decreases s.len(),
{
    if s.len() == 0 {
        0
    } else if is_ws(s[0]) {
        1 + ws_prefix_len(s.drop_first())
    } else {
        0
    }
}

/// Number of leading non-whitespace characters.
pub open spec fn word_prefix_len(s: Seq<char>) -> nat
    decreases s.len(),
{
    if s.len() == 0 {
        0
    } else if !is_ws(s[0]) {
        1 + word_prefix_len(s.drop_first())
    } else {
        0
    }
}

/// Number of trailing whitespace characters.
pub open spec fn ws_suffix_len(s: Seq<char>) -> nat
    decreases s.len(),
{
    if s.len() == 0 {
        0
    } else if is_ws(s.last()) {
        1 + ws_suffix_len(s.drop_last())
    } else {
        0
    }
}

/// `str::trim_start`.
pub open spec fn trim_start(s: Seq<char>) -> Seq<char> {
    s.skip(ws_prefix_len(s) as int)
}

/// `str::trim_end`.
pub open spec fn trim_end(s: Seq<char>) -> Seq<char> {
    s.take(s.len() - ws_suffix_len(s))
}

/// `str::trim`.
pub open spec fn trim(s: Seq<char>) -> Seq<char> {
    trim_end(trim_start(s))
}

pub proof fn lemma_ws_prefix_len(s: Seq<char>, k: int)
    requires
        0 <= k <= s.len(),
        forall|i: int| 0 <= i < k ==> is_ws(#[trigger] s[i]),
        k == s.len() || !is_ws(s[k]),
    ensures
        ws_prefix_len(s) == k,
    decreases k,
{
    if k > 0 {
        assert(is_ws(s[0]));
        let t = s.drop_first();
        assert forall|i: int| 0 <= i < k - 1 implies is_ws(#[trigger] t[i]) by {
            assert(t[i] == s[i + 1]);
        }
        if k < s.len() {
            assert(t[k - 1] == s[k]);
        }
        lemma_ws_prefix_len(t, k - 1);
    }
}

pub proof fn lemma_word_prefix_len(s: Seq<char>, k: int)
    requires
        0 <= k <= s.len(),
        forall|i: int| 0 <= i < k ==> !is_ws(#[trigger] s[i]),
        k == s.len() || is_ws(s[k]),
    ensures
        word_prefix_len(s) == k,
    decreases k,
{
    if k > 0 {
        assert(!is_ws(s[0]));
        let t = s.drop_first();
        assert forall|i: int| 0 <= i < k - 1 implies !is_ws(#[trigger] t[i]) by {
            assert(t[i] == s[i + 1]);
        }
        if k < s.len() {
            assert(t[k - 1] == s[k]);
        }
        lemma_word_prefix_len(t, k - 1);
    }
}

pub proof fn lemma_ws_suffix_len(s: Seq<char>, k: int)
    requires
        0 <= k <= s.len(),
        forall|i: int| s.len() - k <= i < s.len() ==> is_ws(#[trigger] s[i]),
        k == s.len() || !is_ws(s[s.len() - k - 1]),
    ensures
        ws_suffix_len(s) == k,
    decreases k,
{
    if k > 0 {
        assert(is_ws(s[s.len() - 1]));
        let t = s.drop_last();
        assert forall|i: int| t.len() - (k - 1) <= i < t.len() implies is_ws(#[trigger] t[i]) by {
            assert(t[i] == s[i]);
        }
        if k < s.len() {
            assert(t[t.len() - (k - 1) - 1] == s[s.len() - k - 1]);
        }
        lemma_ws_suffix_len(t, k - 1);
    }
}

pub proof fn lemma_prefix_lens_bounded(s: Seq<char>)
    ensures
        ws_prefix_len(s) <= s.len(),
        word_prefix_len(s) <= s.len(),
        ws_suffix_len(s) <= s.len(),
        s.len() > 0 && !is_ws(s[0]) ==> word_prefix_len(s) >= 1,
    decreases s.len(),
{
    if s.len() > 0 {
        lemma_prefix_lens_bounded(s.drop_first());
        lemma_prefix_lens_bounded(s.drop_last());
    }
}

/// Index of the first non-whitespace character at or after `from`.
pub fn skip_ws(v: &Vec<char>, from: usize) -> (r: usize)
    requires
        from <= v.len(),
    ensures
        from <= r <= v.len(),
        r - from == ws_prefix_len(v@.skip(from as int)),
{
    let mut i = from;
    while i < v.len() && is_whitespace(v[i])
        invariant
            from <= i <= v.len(),
            forall|k: int| from <= k < i ==> is_ws(#[trigger] v@[k]),
        decreases v.len() - i,
    {
        i += 1;
    }
    proof {
        let s = v@.skip(from as int);
        assert forall|k: int| 0 <= k < i - from implies is_ws(#[trigger] s[k]) by {
            assert(s[k] == v@[from + k]);
        }
        lemma_ws_prefix_len(s, i - from);
    }
    i
}

/// Index of the first whitespace character at or after `from`.
pub fn skip_word(v: &Vec<char>, from: usize) -> (r: usize)
    requires
        from <= v.len(),
    ensures
        from <= r <= v.len(),
        r - from == word_prefix_len(v@.skip(from as int)),
{
    let mut i = from;
    while i < v.len() && !is_whitespace(v[i])
        invariant
            from <= i <= v.len(),
            forall|k: int| from <= k < i ==> !is_ws(#[trigger] v@[k]),
        decreases v.len() - i,
    {
        i += 1;
    }
    proof {
        let s = v@.skip(from as int);
        assert forall|k: int| 0 <= k < i - from implies !is_ws(#[trigger] s[k]) by {
            assert(s[k] == v@[from + k]);
        }
        lemma_word_prefix_len(s, i - from);
    }
    i
}

/// `str::trim` on a character vector.
pub fn trim_chars(v: &Vec<char>) -> (out: Vec<char>)
    ensures
        out@ == trim(v@),
{
    let start = skip_ws(v, 0);
    proof {
        assert(v@.skip(0) =~= v@);
    }
    let mut end = v.len();
    while end > start && is_whitespace(v[end - 1])
        invariant
            start <= end <= v.len(),
            forall|k: int| end <= k < v.len() ==> is_ws(#[trigger] v@[k]),
        decreases end,
    {
        end -= 1;
    }
    proof {
        let t = v@.skip(start as int);
        let k = v.len() - end;
        assert forall|i: int| t.len() - k <= i < t.len() implies is_ws(#[trigger] t[i]) by {
            assert(t[i] == v@[start + i]);
        }
        if k < t.len() {
            assert(t[t.len() - k - 1] == v@[end - 1]);
        }
        lemma_ws_suffix_len(t, k);
        assert(trim(v@) =~= v@.subrange(start as int, end as int));
    }
    slice(v, start, end)
}

/// `str::trim_start` on a character vector.
pub fn trim_start_chars(v: &Vec<char>) -> (out: Vec<char>)
    ensures
        out@ == trim_start(v@),
{
    let start = skip_ws(v, 0);
    proof {
        assert(v@.skip(0) =~= v@);
        lemma_prefix_lens_bounded(v@);
        assert(trim_start(v@) =~= v@.subrange(start as int, v.len() as int));
    }
    slice(v, start, v.len())
}

/// `str::trim` on a string.
pub fn trim_str(s: &str) -> (out: Vec<char>)
    ensures
        out@ == trim(s@),
{
    let v = chars_of(s);
    trim_chars(&v)
}

// ---------------------------------------------------------------------------
// Splitting
// ---------------------------------------------------------------------------

/// `str::split_whitespace`: the maximal runs of non-whitespace characters.
pub open spec fn words(s: Seq<char>) -> Seq<Seq<char>>
    decreases s.len(),
{
    let t = trim_start(s);
    if t.len() == 0 {
        seq![]
    } else {
        let n = word_prefix_len(t);
        if 0 < n <= t.len() && t.len() <= s.len() {
            seq![t.take(n as int)] + words(t.skip(n as int))
        } else {
            seq![]
        }
    }
}

pub proof fn lemma_words_ws(s: Seq<char>)
    requires
        s.len() > 0,
        is_ws(s[0]),
    ensures
        words(s) == words(s.drop_first()),
{
    assert(ws_prefix_len(s) == 1 + ws_prefix_len(s.drop_first()));
    lemma_prefix_lens_bounded(s);
    lemma_prefix_lens_bounded(s.drop_first());
    assert(trim_start(s) =~= trim_start(s.drop_first()));
    lemma_prefix_lens_bounded(s.drop_first());
    let t = trim_start(s);
    lemma_prefix_lens_bounded(t);
}

pub proof fn lemma_words_word(s: Seq<char>, n: int)
    requires
        s.len() > 0,
        !is_ws(s[0]),
        n == word_prefix_len(s),
    ensures
        0 < n <= s.len(),
        words(s) == seq![s.take(n)] + words(s.skip(n)),
{
    lemma_ws_prefix_len(s, 0);
    assert(trim_start(s) =~= s);
    lemma_prefix_lens_bounded(s);
}

/// There are no more words than characters.
pub proof fn lemma_words_len(s: Seq<char>)
    ensures
        words(s).len() <= s.len(),
    decreases s.len(),
{
    let t = trim_start(s);
    if t.len() > 0 {
        let n = word_prefix_len(t);
        if 0 < n <= t.len() && t.len() <= s.len() {
            lemma_words_len(t.skip(n as int));
        }
    }
}

/// The first `word_prefix_len(s)` characters are not whitespace.
pub proof fn lemma_word_prefix_chars(s: Seq<char>)
    ensures
        forall|i: int| 0 <= i < word_prefix_len(s) ==> !is_ws(#[trigger] s[i]),
    decreases s.len(),
{
    lemma_prefix_lens_bounded(s);
    if s.len() > 0 && !is_ws(s[0]) {
        let t = s.drop_first();
        lemma_word_prefix_chars(t);
        assert forall|i: int| 0 <= i < word_prefix_len(s) implies !is_ws(#[trigger] s[i]) by {
            if i > 0 {
                assert(s[i] == t[i - 1]);
            }
        }
    }
}

/// A word: non-empty, with no whitespace character.
pub open spec fn is_word(w: Seq<char>) -> bool {
    w.len() > 0 && forall|i: int| 0 <= i < w.len() ==> !is_ws(#[trigger] w[i])
}

/// Every piece that `words` yields is a word.
pub proof fn lemma_words_are_words(s: Seq<char>)
    ensures
        forall|k: int| 0 <= k < words(s).len() ==> is_word(#[trigger] words(s)[k]),
    decreases s.len(),
{
    let t = trim_start(s);
    lemma_prefix_lens_bounded(s);
    if t.len() > 0 {
        let n = word_prefix_len(t);
        if 0 < n <= t.len() && t.len() <= s.len() {
            lemma_words_are_words(t.skip(n as int));
            lemma_word_prefix_chars(t);
            let w = t.take(n as int);
            assert forall|i: int| 0 <= i < w.len() implies !is_ws(#[trigger] w[i]) by {
                assert(w[i] == t[i]);
            }
            assert forall|k: int| 0 <= k < words(s).len() implies is_word(#[trigger] words(s)[k]) by {
                if k > 0 {
                    assert(words(s)[k] == words(t.skip(n as int))[k - 1]);
                }
            }
        }
    }
}

/// `join` seen from its first piece.
pub proof fn lemma_join_first(ps: Seq<Seq<char>>, sep: Seq<char>)
    requires
        ps.len() >= 2,
    ensures
        join(ps, sep) == ps[0] + sep + join(ps.drop_first(), sep),
    decreases ps.len(),
{
    let dl = ps.drop_last();
    let df = ps.drop_first();
    if ps.len() == 2 {
        assert(join(dl, sep) == dl[0]);
        assert(join(df, sep) == df[0]);
        assert(join(ps, sep) == join(dl, sep) + sep + ps.last());
    } else {
        lemma_join_first(dl, sep);
        assert(dl.drop_first() =~= df.drop_last());
        assert(df.last() == ps.last());
        assert(join(df, sep) == join(df.drop_last(), sep) + sep + df.last());
        assert(join(ps, sep) == join(dl, sep) + sep + ps.last());
        assert(join(ps, sep) =~= ps[0] + sep + join(df, sep));
    }
}

/// Splitting words joined by single spaces gives the words back.
pub proof fn lemma_words_of_join(ws: Seq<Seq<char>>)
    requires
        forall|k: int| 0 <= k < ws.len() ==> is_word(#[trigger] ws[k]),
    ensures
        words(join(ws, " "@)) == ws,
    decreases ws.len(),
{
    reveal_strlit(" ");
    if ws.len() == 0 {
        lemma_words_empty(join(ws, " "@));
        assert(words(join(ws, " "@)) =~= ws);
    } else {
        let w = ws[0];
        assert(is_word(w));
        if ws.len() == 1 {
            assert(join(ws, " "@) == w);
            lemma_word_prefix_len(w, w.len() as int);
            lemma_words_word(w, w.len() as int);
            assert(w.take(w.len() as int) =~= w);
            lemma_words_empty(w.skip(w.len() as int));
            assert(words(w) =~= ws);
        } else {
            let rest = ws.drop_first();
            assert forall|k: int| 0 <= k < rest.len() implies is_word(#[trigger] rest[k]) by {
                assert(rest[k] == ws[k + 1]);
            }
            lemma_words_of_join(rest);
            lemma_join_first(ws, " "@);
            let j = join(rest, " "@);
            let s = w + " "@ + j;
            assert(s[w.len() as int] == ' ');
            assert forall|i: int| 0 <= i < w.len() implies !is_ws(#[trigger] s[i]) by {
                assert(s[i] == w[i]);
            }
            lemma_word_prefix_len(s, w.len() as int);
            assert(s[0] == w[0]);
            lemma_words_word(s, w.len() as int);
            assert(s.take(w.len() as int) =~= w);
            let u = s.skip(w.len() as int);
            assert(u[0] == ' ');
            lemma_words_ws(u);
            assert(u.drop_first() =~= j);
            assert(words(s) =~= ws);
        }
    }
}

/// Words of an empty sequence.
pub proof fn lemma_words_empty(s: Seq<char>)
    requires
        s.len() == 0,
    ensures
        words(s) == Seq::<Seq<char>>::empty(),
{
}

/// The views of a vector of character vectors.
pub open spec fn vecs_view(v: Seq<Vec<char>>) -> Seq<Seq<char>> {
    v.map_values(|x: Vec<char>| x@)
}

/// `str::split_whitespace`, collected.
pub fn split_whitespace(v: &Vec<char>) -> (out: Vec<Vec<char>>)
    ensures
        vecs_view(out@) == words(v@),
{
    let mut out: Vec<Vec<char>> = Vec::new();
    let mut i: usize = 0;
    proof {
        assert(v@.skip(0) =~= v@);
    }
    while i < v.len()
        invariant
            i <= v.len(),
            words(v@) == vecs_view(out@) + words(v@.skip(i as int)),
        decreases v.len() - i,
    {
        if is_whitespace(v[i]) {
            proof {
                lemma_words_ws(v@.skip(i as int));
                assert(v@.skip(i as int).drop_first() =~= v@.skip(i + 1));
            }
            i += 1;
        } else {
            let j = skip_word(v, i);
            proof {
                lemma_words_word(v@.skip(i as int), j - i);
                assert(v@.skip(i as int).take(j - i) =~= v@.subrange(i as int, j as int));
                assert(v@.skip(i as int).skip(j - i) =~= v@.skip(j as int));
            }
            let w = slice(v, i, j);
            let ghost before = out@;
            out.push(w);
            proof {
                assert(vecs_view(out@) =~= vecs_view(before) + seq![w@]);
            }
            i = j;
        }
    }
    proof {
        lemma_words_empty(v@.skip(i as int));
        assert(vecs_view(out@) + Seq::<Seq<char>>::empty() =~= vecs_view(out@));
    }
    out
}

// ---------------------------------------------------------------------------
// Prefixes, separators, substrings
// ---------------------------------------------------------------------------

/// `str::starts_with`.
pub open spec fn starts_with(s: Seq<char>, p: Seq<char>) -> bool {
    p.len() <= s.len() && s.take(p.len() as int) == p
}

/// `str::ends_with`.
pub open spec fn ends_with(s: Seq<char>, p: Seq<char>) -> bool {
    p.len() <= s.len() && s.skip(s.len() - p.len()) == p
}

/// `str::strip_prefix`.
pub open spec fn strip_prefix(s: Seq<char>, p: Seq<char>) -> Option<Seq<char>> {
    if starts_with(s, p) {
        Some(s.skip(p.len() as int))
    } else {
        None
    }
}

/// Whether `v` begins with `p`.
pub fn has_prefix(v: &Vec<char>, p: &Vec<char>) -> (r: bool)
    ensures
        r == starts_with(v@, p@),
{
    if p.len() > v.len() {
        return false;
    }
    let mut i: usize = 0;
    while i < p.len()
        invariant
            i <= p.len() <= v.len(),
            forall|k: int| 0 <= k < i ==> v@[k] == p@[k],
        decreases p.len() - i,
    {
        if v[i] != p[i] {
            proof {
                assert(v@.take(p.len() as int)[i as int] != p@[i as int]);
            }
            return false;
        }
        i += 1;
    }
    proof {
        assert(v@.take(p.len() as int) =~= p@);
    }
    true
}

/// Whether `v` ends with `p`.
pub fn has_suffix(v: &Vec<char>, p: &Vec<char>) -> (r: bool)
    ensures
        r == ends_with(v@, p@),
{
    if p.len() > v.len() {
        return false;
    }
    let off = v.len() - p.len();
    let mut i: usize = 0;
    while i < p.len()
        invariant
            i <= p.len() <= v.len(),
            off == v.len() - p.len(),
            forall|k: int| 0 <= k < i ==> v@[off + k] == p@[k],
        decreases p.len() - i,
    {
        if v[off + i] != p[i] {
            proof {
                assert(v@.skip(off as int)[i as int] != p@[i as int]);
            }
            return false;
        }
        i += 1;
    }
    proof {
        assert(v@.skip(off as int) =~= p@);
    }
    true
}

/// Whether `v` begins with the characters of `lit`.
pub fn has_prefix_lit(v: &Vec<char>, lit: &str) -> (r: bool)
    ensures
        r == starts_with(v@, lit@),
{
    let p = chars_of(lit);
    has_prefix(v, &p)
}

/// Whether `v` ends with the characters of `lit`.
pub fn has_suffix_lit(v: &Vec<char>, lit: &str) -> (r: bool)
    ensures
        r == ends_with(v@, lit@),
{
    let p = chars_of(lit);
    has_suffix(v, &p)
}

/// Index of the first occurrence of `c`, if any.
pub open spec fn first_index_of(s: Seq<char>, c: char) -> Option<int> {
    if exists|i: int| 0 <= i < s.len() && s[i] == c {
        Some(choose|i: int| 0 <= i < s.len() && s[i] == c && (forall|j: int| 0 <= j < i ==> s[j] != c))
    } else {
        None
    }
}

/// `str::split_once(c)`: the parts before and after the first `c`.
pub open spec fn split_once(s: Seq<char>, c: char) -> Option<(Seq<char>, Seq<char>)> {
    match first_index_of(s, c) {
        Some(i) => Some((s.take(i), s.skip(i + 1))),
        None => None,
    }
}

/// Characterization of `first_index_of` by a concrete index.
pub proof fn lemma_first_index_of(s: Seq<char>, c: char, k: int)
    requires
        0 <= k <= s.len(),
        forall|j: int| 0 <= j < k ==> s[j] != c,
    ensures
        k < s.len() && s[k] == c ==> first_index_of(s, c) == Some(k),
        k == s.len() ==> first_index_of(s, c) is None,
{
    if k < s.len() && s[k] == c {
        assert(exists|i: int| 0 <= i < s.len() && s[i] == c);
        let w = choose|i: int| 0 <= i < s.len() && s[i] == c && (forall|j: int| 0 <= j < i ==> s[j] != c);
        assert(0 <= k && k < s.len() && s[k] == c && (forall|j: int| 0 <= j < k ==> s[j] != c));
        if w < k {
            assert(s[w] != c);
        }
        if w > k {
            assert(s[k] != c);
        }
    }
}

/// Position of the first `c` in `v`, if any.
pub fn find_char(v: &Vec<char>, c: char) -> (r: Option<usize>)
    ensures
        match r {
            Some(i) => first_index_of(v@, c) == Some(i as int) && i < v.len(),
            None => first_index_of(v@, c) is None,
        },
{
    let mut i: usize = 0;
    while i < v.len()
        invariant
            i <= v.len(),
            forall|j: int| 0 <= j < i ==> v@[j] != c,
        decreases v.len() - i,
    {
        if v[i] == c {
            proof {
                lemma_first_index_of(v@, c, i as int);
            }
            return Some(i);
        }
        i += 1;
    }
    proof {
        lemma_first_index_of(v@, c, i as int);
    }
    None
}

/// `str::split_once(c)`.
pub fn split_once_char(v: &Vec<char>, c: char) -> (r: Option<(Vec<char>, Vec<char>)>)
    ensures
        match r {
            Some((a, b)) => split_once(v@, c) == Some((a@, b@)),
            None => split_once(v@, c) is None,
        },
{
    match find_char(v, c) {
        Some(i) => {
            let a = slice(v, 0, i);
            let b = slice(v, i + 1, v.len());
            proof {
                assert(a@ =~= v@.take(i as int));
                assert(b@ =~= v@.skip(i + 1));
            }
            Some((a, b))
        },
        None => None,
    }
}

/// Whether `needle` occurs in `hay` at position `i`.
pub open spec fn occurs_at(hay: Seq<char>, needle: Seq<char>, i: int) -> bool {
    0 <= i && i + needle.len() <= hay.len() && hay.subrange(i, i + needle.len()) == needle
}

/// `str::contains` for a string needle.
pub open spec fn contains(hay: Seq<char>, needle: Seq<char>) -> bool {
    exists|i: int| occurs_at(hay, needle, i)
}

/// Whether `needle` occurs in `hay`.
pub fn contains_chars(hay: &Vec<char>, needle: &Vec<char>) -> (r: bool)
    ensures
        r == contains(hay@, needle@),
{
    if needle.len() == 0 {
        proof {
            assert(hay@.subrange(0, 0) =~= needle@);
            assert(occurs_at(hay@, needle@, 0));
        }
        return true;
    }
    if needle.len() > hay.len() {
        return false;
    }
    let last = hay.len() - needle.len();
    let mut i: usize = 0;
    while i <= last
        invariant
            last == hay.len() - needle.len(),
            last < hay.len(),
            i <= last + 1,
            forall|k: int| 0 <= k < i ==> !occurs_at(hay@, needle@, k),
        decreases last + 1 - i,
    {
        let mut j: usize = 0;
        let mut ok = true;
        while j < needle.len()
            invariant
                i <= last,
                last == hay.len() - needle.len(),
                j <= needle.len(),
                ok ==> forall|k: int| 0 <= k < j ==> hay@[i + k] == needle@[k],
                !ok ==> !occurs_at(hay@, needle@, i as int),
            decreases needle.len() - j,
        {
            if hay[i + j] != needle[j] {
                proof {
                    assert(hay@.subrange(i as int, i + needle.len())[j as int] != needle@[j as int]);
                }
                ok = false;
            }
            j += 1;
        }
        if ok {
            proof {
                assert(hay@.subrange(i as int, i + needle.len()) =~= needle@);
                assert(occurs_at(hay@, needle@, i as int));
            }
            return true;
        }
        i += 1;
    }
    false
}

// ---------------------------------------------------------------------------
// ASCII case folding
// ---------------------------------------------------------------------------

/// `char::to_ascii_lowercase`.
pub open spec fn ascii_lower(c: char) -> char {
    if 'A' <= c && c <= 'Z' {
        ((c as u32) + 32) as char
    } else {
        c
    }
}

/// `str::to_ascii_lowercase`.
pub open spec fn ascii_lower_seq(s: Seq<char>) -> Seq<char> {
    s.map_values(|c: char| ascii_lower(c))
}

/// `char::to_ascii_lowercase`.
pub fn to_ascii_lower(c: char) -> (r: char)
    ensures
        r == ascii_lower(c),
{
    if 'A' <= c && c <= 'Z' {
        (((c as u32) + 32) as u8) as char
    } else {
        c
    }
}

/// `str::to_ascii_lowercase` on a character vector.
pub fn ascii_lowercase(v: &Vec<char>) -> (out: Vec<char>)
    ensures
        out@ == ascii_lower_seq(v@),
{
    let mut out: Vec<char> = Vec::new();
    let mut i: usize = 0;
    while i < v.len()
        invariant
            i <= v.len(),
            out@ == ascii_lower_seq(v@.take(i as int)),
        decreases v.len() - i,
    {
        out.push(to_ascii_lower(v[i]));
        proof {
            assert(ascii_lower_seq(v@.take(i + 1)) =~= ascii_lower_seq(v@.take(i as int)).push(
                ascii_lower(v@[i as int]),
            ));
        }
        i += 1;
    }
    proof {
        assert(v@.take(v.len() as int) =~= v@);
    }
    out
}


// ---------------------------------------------------------------------------
// Separator splitting and lines
// ---------------------------------------------------------------------------

/// `str::split(c)`: the pieces between occurrences of `c` (always at least one).
pub open spec fn split_on(s: Seq<char>, c: char) -> Seq<Seq<char>>
    decreases s.len(),
{
    match first_index_of(s, c) {
        Some(i) => if 0 <= i < s.len() {
            seq![s.take(i)] + split_on(s.skip(i + 1), c)
        } else {
            seq![s]
        },
        None => seq![s],
    }
}

/// `str::split(c)`, collected.
pub fn split_char(v: &Vec<char>, c: char) -> (out: Vec<Vec<char>>)
    ensures
        vecs_view(out@) == split_on(v@, c),
    decreases v.len(),
{
    match find_char(v, c) {
        Some(i) => {
            let head = slice(v, 0, i);
            let tail = slice(v, i + 1, v.len());
            let rest = split_char(&tail, c);
            let mut out: Vec<Vec<char>> = Vec::new();
            out.push(head);
            let mut j: usize = 0;
            let ghost first = out@;
            while j < rest.len()
                invariant
                    j <= rest.len(),
                    vecs_view(out@) == vecs_view(first) + vecs_view(rest@).take(j as int),
                    vecs_view(first) == seq![v@.take(i as int)],
                decreases rest.len() - j,
            {
                let ghost before = out@;
                let piece = slice(&rest[j], 0, rest[j].len());
                proof {
                    assert(piece@ =~= rest@[j as int]@);
                }
                out.push(piece);
                proof {
                    assert(vecs_view(out@) =~= vecs_view(before).push(piece@));
                    assert(vecs_view(rest@).take(j + 1) =~= vecs_view(rest@).take(j as int).push(
                        rest@[j as int]@,
                    ));
                    assert(vecs_view(out@) =~= vecs_view(first) + vecs_view(rest@).take(j + 1));
                }
                j += 1;
            }
            proof {
                assert(vecs_view(rest@).take(rest.len() as int) =~= vecs_view(rest@));
                assert(tail@ =~= v@.skip(i + 1));
                assert(head@ =~= v@.take(i as int));
            }
            out
        },
        None => {
            let mut out: Vec<Vec<char>> = Vec::new();
            let whole = slice(v, 0, v.len());
            proof {
                assert(whole@ =~= v@);
            }
            out.push(whole);
            proof {
                assert(vecs_view(out@) =~= seq![v@]);
            }
            out
        },
    }
}

/// A line without one trailing carriage return.
pub open spec fn strip_cr(l: Seq<char>) -> Seq<char> {
    if l.len() > 0 && l.last() == '\r' {
        l.drop_last()
    } else {
        l
    }
}

#[verifier::opaque]
/// `str::lines`: split on `\n`, a `\r\n` ending counts as one line ending, and
/// a final empty line (after a trailing newline) is not produced.
pub open spec fn lines(s: Seq<char>) -> Seq<Seq<char>>
    decreases s.len(),
{
    if s.len() == 0 {
        seq![]
    } else {
        match first_index_of(s, '\n') {
            Some(i) => if 0 <= i < s.len() {
                seq![strip_cr(s.take(i))] + lines(s.skip(i + 1))
            } else {
                seq![s]
            },
            None => seq![s],
        }
    }
}

pub proof fn lemma_lines_line(s: Seq<char>, k: int)
    requires
        0 <= k < s.len(),
        first_index_of(s, '\n') == Some(k),
    ensures
        lines(s) == seq![strip_cr(s.take(k))] + lines(s.skip(k + 1)),
{
    reveal(lines);
}

pub proof fn lemma_lines_last(s: Seq<char>)
    requires
        s.len() > 0,
        first_index_of(s, '\n') is None,
    ensures
        lines(s) == seq![s],
{
    reveal(lines);
}

/// Where `c` occurs, it has a first occurrence.
proof fn lemma_first_occurrence(s: Seq<char>, c: char, n: int) -> (k: int)
    requires
        0 <= n < s.len(),
        s[n] == c,
    ensures
        0 <= k <= n,
        s[k] == c,
        forall|j: int| 0 <= j < k ==> s[j] != c,
    decreases n,
{
    if exists|j: int| 0 <= j < n && s[j] == c {
        let j = choose|j: int| 0 <= j < n && s[j] == c;
        lemma_first_occurrence(s, c, j)
    } else {
        n
    }
}

/// Text that ends with a newline splits into lines independently of what
/// follows it.
pub proof fn lemma_lines_append(a: Seq<char>, b: Seq<char>)
    requires
        a.len() > 0,
        a.last() == '\n',
    ensures
        lines(a + b) == lines(a) + lines(b),
    decreases a.len(),
{
    let k = lemma_first_occurrence(a, '\n', a.len() - 1);
    lemma_first_index_of(a, '\n', k);
    let ab = a + b;
    assert forall|j: int| 0 <= j < k implies ab[j] != '\n' by {
        assert(ab[j] == a[j]);
    }
    assert(ab[k] == a[k]);
    lemma_first_index_of(ab, '\n', k);
    lemma_lines_line(a, k);
    lemma_lines_line(ab, k);
    assert(ab.take(k) =~= a.take(k));
    assert(ab.skip(k + 1) =~= a.skip(k + 1) + b);
    if k + 1 == a.len() {
        assert(a.skip(k + 1) =~= Seq::<char>::empty());
        assert(a.skip(k + 1) + b =~= b);
        reveal(lines);
        assert(lines(a.skip(k + 1)) =~= Seq::<Seq<char>>::empty());
        assert(lines(a) =~= seq![strip_cr(a.take(k))]);
    } else {
        let rest = a.skip(k + 1);
        assert(rest.last() == a.last());
        lemma_lines_append(rest, b);
    }
    assert(lines(a + b) =~= lines(a) + lines(b));
}

/// The line starting at `pos` and the position after its line ending.
fn next_line(v: &Vec<char>, pos: usize) -> (r: (Vec<char>, usize))
    requires
        pos < v.len(),
    ensures
        pos < r.1 <= v.len(),
        lines(v@.skip(pos as int)) == seq![r.0@] + lines(v@.skip(r.1 as int)),
{
    let ghost rest = v@.skip(pos as int);
    let mut j = pos;
    while j < v.len() && v[j] != '\n'
        invariant
            pos <= j <= v.len(),
            forall|k: int| pos <= k < j ==> v@[k] != '\n',
        decreases v.len() - j,
    {
        j += 1;
    }
    proof {
        assert forall|k: int| 0 <= k < j - pos implies rest[k] != '\n' by {
            assert(rest[k] == v@[pos + k]);
        }
        if j < v.len() {
            assert(rest[j - pos] == v@[j as int]);
        }
        lemma_first_index_of(rest, '\n', j - pos);
    }
    if j < v.len() {
        let mut end = j;
        if end > pos && v[end - 1] == '\r' {
            end = end - 1;
        }
        let line = slice(v, pos, end);
        proof {
            lemma_lines_line(rest, j - pos);
            assert(line@ =~= strip_cr(rest.take(j - pos)));
            assert(rest.skip(j - pos + 1) =~= v@.skip(j + 1));
        }
        (line, j + 1)
    } else {
        let line = slice(v, pos, v.len());
        proof {
            lemma_lines_last(rest);
            assert(line@ =~= rest);
            assert(v@.skip(v.len() as int) =~= Seq::<char>::empty());
            reveal(lines);
            assert(seq![line@] + lines(v@.skip(v.len() as int)) =~= seq![line@]);
        }
        (line, v.len())
    }
}

/// `str::lines`, collected.
pub fn lines_of(v: &Vec<char>) -> (out: Vec<Vec<char>>)
    ensures
        vecs_view(out@) == lines(v@),
{
    let mut out: Vec<Vec<char>> = Vec::new();
    let mut pos: usize = 0;
    proof {
        assert(v@.skip(0) =~= v@);
    }
    while pos < v.len()
        invariant
            pos <= v.len(),
            lines(v@) == vecs_view(out@) + lines(v@.skip(pos as int)),
        decreases v.len() - pos,
    {
        let (line, next) = next_line(v, pos);
        let ghost before = out@;
        out.push(line);
        proof {
            assert(vecs_view(out@) =~= vecs_view(before).push(line@));
            assert(vecs_view(out@) + lines(v@.skip(next as int)) =~= vecs_view(before) + (seq![line@]
                + lines(v@.skip(next as int))));
        }
        pos = next;
    }
    proof {
        reveal(lines);
        assert(lines(v@.skip(pos as int)) =~= Seq::<Seq<char>>::empty());
        assert(vecs_view(out@) + Seq::<Seq<char>>::empty() =~= vecs_view(out@));
    }
    out
}

/// Join pieces with a separator, as `[S]::join`.
pub open spec fn join(parts: Seq<Seq<char>>, sep: Seq<char>) -> Seq<char>
    decreases parts.len(),
{
    if parts.len() == 0 {
        seq![]
    } else if parts.len() == 1 {
        parts[0]
    } else {
        join(parts.drop_last(), sep) + sep + parts.last()
    }
}

/// Join string pieces with a separator.
pub fn join_strings(parts: &Vec<String>, sep: &str) -> (out: Vec<char>)
    ensures
        out@ == join(strs_view(parts@), sep@),
{
    let mut out: Vec<char> = Vec::new();
    let mut i: usize = 0;
    while i < parts.len()
        invariant
            i <= parts.len(),
            out@ == join(strs_view(parts@).take(i as int), sep@),
        decreases parts.len() - i,
    {
        let ghost before = strs_view(parts@).take(i as int);
        proof {
            assert(strs_view(parts@).take(i + 1).drop_last() =~= before);
        }
        if i > 0 {
            append_lit(&mut out, sep);
        }
        let p = chars_of_string(&parts[i]);
        append(&mut out, &p);
        proof {
            if i == 0 {
                assert(out@ =~= strs_view(parts@).take(1)[0]);
            }
        }
        i += 1;
    }
    proof {
        assert(strs_view(parts@).take(parts.len() as int) =~= strs_view(parts@));
    }
    out
}

/// Join character-vector pieces with a separator.
pub fn join_chars(parts: &Vec<Vec<char>>, sep: &str) -> (out: Vec<char>)
    ensures
        out@ == join(vecs_view(parts@), sep@),
{
    let mut out: Vec<char> = Vec::new();
    let mut i: usize = 0;
    while i < parts.len()
        invariant
            i <= parts.len(),
            out@ == join(vecs_view(parts@).take(i as int), sep@),
        decreases parts.len() - i,
    {
        proof {
            assert(vecs_view(parts@).take(i + 1).drop_last() =~= vecs_view(parts@).take(i as int));
        }
        if i > 0 {
            append_lit(&mut out, sep);
        }
        append(&mut out, &parts[i]);
        proof {
            if i == 0 {
                assert(out@ =~= vecs_view(parts@).take(1)[0]);
            }
        }
        i += 1;
    }
    proof {
        assert(vecs_view(parts@).take(parts.len() as int) =~= vecs_view(parts@));
    }
    out
}

// ---------------------------------------------------------------------------
// Decimal rendering and Unicode lowercase
// ---------------------------------------------------------------------------

/// The ASCII digit for `d < 10`.
pub open spec fn digit(d: nat) -> char {
    if d == 0 { '0' } else if d == 1 { '1' } else if d == 2 { '2' } else if d == 3 { '3' }
    else if d == 4 { '4' } else if d == 5 { '5' } else if d == 6 { '6' } else if d == 7 { '7' }
    else if d == 8 { '8' } else { '9' }
}

/// Decimal rendering of a natural number, as `Display` for unsigned integers.
pub open spec fn dec(n: nat) -> Seq<char>
    decreases n,
{
    if n < 10 {
        seq![digit(n)]
    } else {
        dec(n / 10).push(digit(n % 10))
    }
}

/// Decimal rendering of an integer, with a leading `-` for negatives.
pub open spec fn dec_int(n: int) -> Seq<char> {
    if n < 0 {
        seq!['-'] + dec((-n) as nat)
    } else {
        dec(n as nat)
    }
}

fn digit_char(d: u64) -> (c: char)
    requires
        d < 10,
    ensures
        c == digit(d as nat),
{
    if d == 0 { '0' } else if d == 1 { '1' } else if d == 2 { '2' } else if d == 3 { '3' }
    else if d == 4 { '4' } else if d == 5 { '5' } else if d == 6 { '6' } else if d == 7 { '7' }
    else if d == 8 { '8' } else { '9' }
}

/// Append the decimal digits of `n`.
pub fn push_dec(out: &mut Vec<char>, n: u64)
    ensures
        final(out)@ == old(out)@ + dec(n as nat),
    decreases n,
{
    if n < 10 {
        out.push(digit_char(n));
        proof {
            assert(old(out)@ + dec(n as nat) =~= old(out)@.push(digit(n as nat)));
        }
    } else {
        push_dec(out, n / 10);
        out.push(digit_char(n % 10));
        proof {
            assert(old(out)@ + dec(n as nat) =~= old(out)@ + dec((n / 10) as nat) + seq![
                digit((n % 10) as nat),
            ]);
        }
    }
}

/// Append the decimal rendering of a signed integer.
pub fn push_dec_i32(out: &mut Vec<char>, n: i32)
    ensures
        final(out)@ == old(out)@ + dec_int(n as int),
{
    if n < 0 {
        out.push('-');
        let m: u64 = (0 - (n as i64)) as u64;
        push_dec(out, m);
        proof {
            assert(old(out)@ + dec_int(n as int) =~= old(out)@.push('-') + dec(m as nat));
        }
    } else {
        push_dec(out, n as u64);
    }
}

/// Unicode lowercase mapping of a string, as `str::to_lowercase` computes it.
pub uninterp spec fn unicode_lower(s: Seq<char>) -> Seq<char>;

/// Calls `str::to_lowercase`, the full Unicode lowercase mapping. The claim is
/// only that the result is a function of the input's characters; the mapping
/// itself (Unicode case tables) is left unstated.
#[verifier::external_body]
pub(crate) fn to_lowercase(s: &str) -> (out: String)
    ensures
        out@ == unicode_lower(s@),
{
    s.to_lowercase()
}

/// Unicode lowercase of a character vector.
pub fn lowercase_chars(v: &Vec<char>) -> (out: Vec<char>)
    ensures
        out@ == unicode_lower(v@),
{
    let s = string_of(v);
    let l = to_lowercase(s.as_str());
    chars_of_string(&l)
}

} // verus!

verus! {

/// A text with no whitespace and no ASCII uppercase letter is unchanged by
/// trimming and by ASCII lowercasing.
pub proof fn lemma_plain_text(s: Seq<char>)
    requires
        forall|i: int| 0 <= i < s.len() ==> !is_ws(#[trigger] s[i]) && !('A' <= s[i] && s[i] <= 'Z'),
    ensures
        trim(s) == s,
        ascii_lower_seq(s) == s,
{
    if s.len() > 0 {
        lemma_ws_prefix_len(s, 0);
        lemma_ws_suffix_len(s, 0);
    } else {
        lemma_ws_prefix_len(s, 0);
        lemma_ws_suffix_len(s, 0);
    }
    assert(trim_start(s) =~= s);
    assert(trim(s) =~= s);
    assert(ascii_lower_seq(s) =~= s);
}

/// Where the leading whitespace stops, a non-whitespace character stands.
proof fn lemma_ws_prefix_stop(s: Seq<char>)
    ensures
        ws_prefix_len(s) <= s.len(),
        ws_prefix_len(s) < s.len() ==> !is_ws(s[ws_prefix_len(s) as int]),
    decreases s.len(),
{
    if s.len() > 0 && is_ws(s[0]) {
        lemma_ws_prefix_stop(s.drop_first());
    }
}

/// Where the trailing whitespace starts, a non-whitespace character precedes it.
proof fn lemma_ws_suffix_stop(s: Seq<char>)
    ensures
        ws_suffix_len(s) <= s.len(),
        ws_suffix_len(s) < s.len() ==> !is_ws(s[s.len() - ws_suffix_len(s) - 1]),
    decreases s.len(),
{
    if s.len() > 0 && is_ws(s.last()) {
        lemma_ws_suffix_stop(s.drop_last());
    }
}

/// A trimmed text neither starts nor ends with whitespace.
pub proof fn lemma_trim_ends(s: Seq<char>)
    ensures
        trim(s).len() > 0 ==> !is_ws(trim(s)[0]) && !is_ws(trim(s).last()),
{
    lemma_ws_prefix_stop(s);
    let u = trim_start(s);
    lemma_ws_suffix_stop(u);
    let t = trim(s);
    if t.len() > 0 {
        assert(t[0] == u[0]);
        assert(u[0] == s[ws_prefix_len(s) as int]);
        assert(t.last() == u[u.len() - ws_suffix_len(u) - 1]);
    }
}

/// A text that neither starts nor ends with whitespace is its own trim.
pub proof fn lemma_trim_unchanged(t: Seq<char>)
    requires
        t.len() > 0 ==> !is_ws(t[0]) && !is_ws(t.last()),
    ensures
        trim(t) == t,
{
    lemma_ws_prefix_len(t, 0);
    assert(trim_start(t) =~= t);
    lemma_ws_suffix_len(t, 0);
    assert(trim(t) =~= t);
}

/// ASCII lowercasing keeps whitespace and non-whitespace apart.
pub proof fn lemma_ascii_lower_ws(c: char)
    ensures
        is_ws(ascii_lower(c)) == is_ws(c),
{
}

/// ASCII lowercasing twice is lowercasing once.
pub proof fn lemma_ascii_lower_idempotent(s: Seq<char>)
    ensures
        ascii_lower_seq(ascii_lower_seq(s)) == ascii_lower_seq(s),
{
    assert(ascii_lower_seq(ascii_lower_seq(s)) =~= ascii_lower_seq(s));
}

/// A non-empty text with no whitespace is a single word.
pub proof fn lemma_single_word(s: Seq<char>)
    requires
        s.len() > 0,
        forall|i: int| 0 <= i < s.len() ==> !is_ws(#[trigger] s[i]),
    ensures
        words(s) == seq![s],
{
    lemma_ws_prefix_len(s, 0);
    assert(trim_start(s) =~= s);
    lemma_word_prefix_len(s, s.len() as int);
    lemma_words_word(s, s.len() as int);
    assert(s.take(s.len() as int) =~= s);
    lemma_words_empty(s.skip(s.len() as int));
    assert(seq![s] + words(s.skip(s.len() as int)) =~= seq![s]);
}

} // verus!
