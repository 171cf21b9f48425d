//! Free text to a structured [`Query`]: whitespace-separated tokens of the form
//! `key:value` become filters (`t:`/`tag:`, `c:`/`category:`, `lang:`,
//! `fav:`, `risk:`, and the negation `-t:`/`-tag:`); everything else is fuzzy
//! text. The parser never fails: unknown keys, empty values and unparseable
//! `lang:`/`risk:` values stay fuzzy text.

use vstd::prelude::*;
use vstd::view::View as ViewTrait;
use crate::model::{label_of, language_from_label, Language};
use super::{filters_view, risk_from_label, Filter, FilterView, Query, QueryView, RiskLevel, Sort, View, ViewSpec};
use crate::text::{
    ascii_lower_seq, ascii_lowercase, chars_of, eq_lit, has_prefix_lit, join, join_chars, slice,
    split_once, split_once_char, split_whitespace, starts_with, string_of, vecs_view, words, is_word,
    lemma_words_are_words, lemma_words_of_join,
};

verus! {

/// The filter a token denotes, if it is an operator.
#[verifier::opaque]
pub open spec fn operator_of(token: Seq<char>) -> Option<FilterView> {
    if starts_with(token, "-"@) {
        match split_once(token.skip(1), ':') {
            None => None,
            Some(kv) => {
                let key = ascii_lower_seq(kv.0);
                if (key == "t"@ || key == "tag"@) && kv.1.len() > 0 {
                    Some(FilterView::NotTag(ascii_lower_seq(kv.1)))
                } else {
                    None
                }
            },
        }
    } else {
        match split_once(token, ':') {
            None => None,
            Some(kv) => {
                let key = ascii_lower_seq(kv.0);
                let value = kv.1;
                if key == "fav"@ || key == "favorite"@ || key == "favourite"@ {
                    Some(FilterView::Favorite)
                } else if value.len() == 0 {
                    None
                } else if key == "t"@ || key == "tag"@ {
                    Some(FilterView::Tag(ascii_lower_seq(value)))
                } else if key == "c"@ || key == "category"@ {
                    Some(FilterView::Category(ascii_lower_seq(value)))
                } else if key == "lang"@ || key == "language"@ {
                    match language_from_label(value) {
                        Some(l) => Some(FilterView::Lang(l)),
                        None => None,
                    }
                } else if key == "risk"@ {
                    match risk_from_label(value) {
                        Some(r) => Some(FilterView::Risk(r)),
                        None => None,
                    }
                } else {
                    None
                }
            },
        }
    }
}

/// Filters (first occurrence of each, in order) and fuzzy terms of a token list.
pub open spec fn parse_tokens(tokens: Seq<Seq<char>>) -> (Seq<FilterView>, Seq<Seq<char>>)
    decreases tokens.len(),
{
    if tokens.len() == 0 {
        (seq![], seq![])
    } else {
        let prev = parse_tokens(tokens.drop_last());
        match operator_of(tokens.last()) {
            Some(f) => if prev.0.contains(f) {
                prev
            } else {
                (prev.0.push(f), prev.1)
            },
            None => (prev.0, prev.1.push(tokens.last())),
        }
    }
}

/// The query a free-text input denotes.
pub open spec fn parsed_query(input: Seq<char>) -> QueryView {
    let p = parse_tokens(words(input));
    QueryView { text: join(p.1, " "@), filters: p.0, view: ViewSpec::All, sort: Sort::Auto, limit: None }
}

/// Index of the last operator token among the first `n` tokens.
pub open spec fn last_operator_index(tokens: Seq<Seq<char>>, n: int) -> Option<int>
    decreases n,
{
    if n <= 0 || n > tokens.len() {
        None
    } else if operator_of(tokens[n - 1]) is Some {
        Some(n - 1)
    } else {
        last_operator_index(tokens, n - 1)
    }
}

/// The input with its last operator token removed (tokens re-joined by single
/// spaces), or unchanged when it holds no operator.
pub open spec fn popped(input: Seq<char>) -> Seq<char> {
    let tokens = words(input);
    match last_operator_index(tokens, tokens.len() as int) {
        Some(i) => join(tokens.remove(i), " "@),
        None => input,
    }
}

/// The fuzzy-text tokens of a token list: those that are not operators, in order.
pub open spec fn text_tokens(tokens: Seq<Seq<char>>) -> Seq<Seq<char>>
    decreases tokens.len(),
{
    if tokens.len() == 0 {
        seq![]
    } else if operator_of(tokens.last()) is Some {
        text_tokens(tokens.drop_last())
    } else {
        text_tokens(tokens.drop_last()).push(tokens.last())
    }
}

/// How many tokens of a token list are operators.
pub open spec fn operator_count(tokens: Seq<Seq<char>>) -> nat
    decreases tokens.len(),
{
    if tokens.len() == 0 {
        0
    } else if operator_of(tokens.last()) is Some {
        operator_count(tokens.drop_last()) + 1
    } else {
        operator_count(tokens.drop_last())
    }
}

/// The fuzzy terms of a parse are the non-operator tokens.
proof fn lemma_parse_terms(tokens: Seq<Seq<char>>)
    ensures
        parse_tokens(tokens).1 == text_tokens(tokens),
    decreases tokens.len(),
{
    if tokens.len() > 0 {
        lemma_parse_terms(tokens.drop_last());
    }
}

/// Removing one operator token keeps the text tokens and drops one operator.
proof fn lemma_remove_operator(tokens: Seq<Seq<char>>, i: int)
    requires
        0 <= i < tokens.len(),
        operator_of(tokens[i]) is Some,
    ensures
        text_tokens(tokens.remove(i)) == text_tokens(tokens),
        operator_count(tokens.remove(i)) + 1 == operator_count(tokens),
    decreases tokens.len(),
{
    let r = tokens.remove(i);
    if i == tokens.len() - 1 {
        assert(r =~= tokens.drop_last());
    } else {
        lemma_remove_operator(tokens.drop_last(), i);
        assert(r.drop_last() =~= tokens.drop_last().remove(i));
        assert(r.last() == tokens.last());
    }
}

/// What `last_operator_index` finds is an operator; when it finds nothing,
/// the first `n` tokens hold none.
proof fn lemma_last_operator_index(tokens: Seq<Seq<char>>, n: int)
    requires
        0 <= n <= tokens.len(),
    ensures
        last_operator_index(tokens, n) matches Some(i) ==> 0 <= i < n && operator_of(tokens[i]) is Some,
        last_operator_index(tokens, n) is None ==> operator_count(tokens.take(n)) == 0,
    decreases n,
{
    if n > 0 {
        lemma_last_operator_index(tokens, n - 1);
        assert(tokens.take(n).drop_last() =~= tokens.take(n - 1));
    } else {
        assert(tokens.take(n).len() == 0);
    }
}

/// Removing the last filter token from a query keeps its fuzzy text and takes
/// away exactly one operator token; an input with no operator token is
/// returned as it is.
pub proof fn lemma_pop_keeps_text(input: Seq<char>)
    ensures
        parsed_query(popped(input)).text == parsed_query(input).text,
        operator_count(words(input)) == 0 ==> popped(input) == input,
        operator_count(words(input)) > 0 ==> operator_count(words(popped(input))) + 1 == operator_count(
            words(input),
        ),
{
    let tokens = words(input);
    lemma_last_operator_index(tokens, tokens.len() as int);
    assert(tokens.take(tokens.len() as int) =~= tokens);
    match last_operator_index(tokens, tokens.len() as int) {
        Some(i) => {
            let r = tokens.remove(i);
            lemma_words_are_words(input);
            assert forall|k: int| 0 <= k < r.len() implies is_word(#[trigger] r[k]) by {
                if k < i {
                    assert(r[k] == tokens[k]);
                } else {
                    assert(r[k] == tokens[k + 1]);
                }
            }
            lemma_words_of_join(r);
            lemma_remove_operator(tokens, i);
            lemma_parse_terms(tokens);
            lemma_parse_terms(r);
        },
        None => {},
    }
}

fn lower_string(v: &Vec<char>) -> (s: String)
    ensures
        s@ == ascii_lower_seq(v@),
{
    string_of(&ascii_lowercase(v))
}

/// The filter a negated token body (after the `-`) denotes.
pub open spec fn negated_operator_of(rest: Seq<char>) -> Option<FilterView> {
    match split_once(rest, ':') {
        None => None,
        Some(kv) => {
            let key = ascii_lower_seq(kv.0);
            if (key == "t"@ || key == "tag"@) && kv.1.len() > 0 {
                Some(FilterView::NotTag(ascii_lower_seq(kv.1)))
            } else {
                None
            }
        },
    }
}

/// The filter a `key:value` pair denotes.
pub open spec fn keyed_operator_of(k: Seq<char>, value: Seq<char>) -> Option<FilterView> {
    let key = ascii_lower_seq(k);
    if key == "fav"@ || key == "favorite"@ || key == "favourite"@ {
        Some(FilterView::Favorite)
    } else if value.len() == 0 {
        None
    } else if key == "t"@ || key == "tag"@ {
        Some(FilterView::Tag(ascii_lower_seq(value)))
    } else if key == "c"@ || key == "category"@ {
        Some(FilterView::Category(ascii_lower_seq(value)))
    } else if key == "lang"@ || key == "language"@ {
        match language_from_label(value) {
            Some(l) => Some(FilterView::Lang(l)),
            None => None,
        }
    } else if key == "risk"@ {
        match risk_from_label(value) {
            Some(r) => Some(FilterView::Risk(r)),
            None => None,
        }
    } else {
        None
    }
}

pub proof fn lemma_operator_of_parts(token: Seq<char>)
    ensures
        operator_of(token) == if starts_with(token, "-"@) {
            negated_operator_of(token.skip(1))
        } else {
            match split_once(token, ':') {
                None => None,
                Some(kv) => keyed_operator_of(kv.0, kv.1),
            }
        },
{
    reveal(operator_of);
}

fn parse_negated(rest: &Vec<char>) -> (r: Option<Filter>)
    ensures
        match r {
            Some(f) => negated_operator_of(rest@) == Some(f@),
            None => negated_operator_of(rest@) is None,
        },
{
    let (k, v) = match split_once_char(rest, ':') {
        Some(x) => x,
        None => {
            return None;
        },
    };
    let key = ascii_lowercase(&k);
    if (eq_lit(&key, "t") || eq_lit(&key, "tag")) && v.len() > 0 {
        return Some(Filter::NotTag(lower_string(&v)));
    }
    None
}

fn parse_keyed(k: &Vec<char>, value: &Vec<char>) -> (r: Option<Filter>)
    ensures
        match r {
            Some(f) => keyed_operator_of(k@, value@) == Some(f@),
            None => keyed_operator_of(k@, value@) is None,
        },
{
    let key = ascii_lowercase(k);
    if eq_lit(&key, "fav") || eq_lit(&key, "favorite") || eq_lit(&key, "favourite") {
        return Some(Filter::Favorite);
    }
    if value.len() == 0 {
        return None;
    }
    if eq_lit(&key, "t") || eq_lit(&key, "tag") {
        Some(Filter::Tag(lower_string(value)))
    } else if eq_lit(&key, "c") || eq_lit(&key, "category") {
        Some(Filter::Category(lower_string(value)))
    } else if eq_lit(&key, "lang") || eq_lit(&key, "language") {
        let vs = string_of(value);
        match Language::from_label(vs.as_str()) {
            Some(l) => Some(Filter::Lang(l)),
            None => None,
        }
    } else if eq_lit(&key, "risk") {
        let vs = string_of(value);
        match RiskLevel::from_label(vs.as_str()) {
            Some(r) => Some(Filter::Risk(r)),
            None => None,
        }
    } else {
        None
    }
}

/// The filter a single token denotes, or `None` for plain fuzzy text.
pub fn parse_operator(token: &Vec<char>) -> (r: Option<Filter>)
    ensures
        match r {
            Some(f) => operator_of(token@) == Some(f@),
            None => operator_of(token@) is None,
        },
{
    proof {
        lemma_operator_of_parts(token@);
    }
    if has_prefix_lit(token, "-") {
        proof {
            reveal_strlit("-");
        }
        let rest = slice(token, 1, token.len());
        proof {
            assert(rest@ =~= token@.skip(1));
        }
        return parse_negated(&rest);
    }
    match split_once_char(token, ':') {
        Some((k, value)) => parse_keyed(&k, &value),
        None => None,
    }
}

fn contains_filter(fs: &Vec<Filter>, f: &Filter) -> (r: bool)
    ensures
        r == filters_view(fs@).contains(f@),
{
    let mut i: usize = 0;
    while i < fs.len()
        invariant
            i <= fs.len(),
            forall|k: int| 0 <= k < i ==> fs@[k]@ != f@,
        decreases fs.len() - i,
    {
        if fs[i].same_as(f) {
            proof {
                assert(filters_view(fs@)[i as int] == f@);
            }
            return true;
        }
        i += 1;
    }
    proof {
        if filters_view(fs@).contains(f@) {
            let k = choose|k: int| 0 <= k < filters_view(fs@).len() && filters_view(fs@)[k] == f@;
            assert(fs@[k]@ == f@);
        }
    }
    false
}

/// Parse a free-text query into a structured [`Query`]. Never fails: anything
/// not an operator becomes part of the fuzzy `text`; repeated filters are kept once.
pub fn parse_query(input: &str) -> (q: Query)
    ensures
        q@ == parsed_query(input@),
{
    let v = chars_of(input);
    let tokens = split_whitespace(&v);
    let mut filters: Vec<Filter> = Vec::new();
    let mut terms: Vec<Vec<char>> = Vec::new();
    let mut i: usize = 0;
    while i < tokens.len()
        invariant
            i <= tokens.len(),
            vecs_view(tokens@) == words(input@),
            parse_tokens(vecs_view(tokens@).take(i as int)) == (filters_view(filters@), vecs_view(terms@)),
        decreases tokens.len() - i,
    {
        let ghost pre = vecs_view(tokens@).take(i + 1);
        proof {
            assert(pre.drop_last() =~= vecs_view(tokens@).take(i as int));
            assert(pre.last() == tokens@[i as int]@);
        }
        match parse_operator(&tokens[i]) {
            Some(f) => {
                if !contains_filter(&filters, &f) {
                    let ghost before = filters@;
                    filters.push(f);
                    proof {
                        assert(filters_view(filters@) =~= filters_view(before).push(f@));
                    }
                }
            },
            None => {
                let ghost before = terms@;
                terms.push(slice(&tokens[i], 0, tokens[i].len()));
                proof {
                    assert(terms@.last()@ =~= tokens@[i as int]@);
                    assert(vecs_view(terms@) =~= vecs_view(before).push(tokens@[i as int]@));
                }
            },
        }
        i += 1;
    }
    proof {
        assert(vecs_view(tokens@).take(tokens.len() as int) =~= vecs_view(tokens@));
    }
    let text = join_chars(&terms, " ");
    Query { text: string_of(&text), filters, view: View::All, sort: Sort::Auto, limit: None }
}

/// Remove the last operator token from a raw query string. Fuzzy-text tokens are
/// kept; with no operator the string is returned unchanged.
pub fn pop_last_filter_token(input: &str) -> (out: String)
    ensures
        out@ == popped(input@),
{
    let v = chars_of(input);
    let tokens = split_whitespace(&v);
    let mut n = tokens.len();
    let mut found: Option<usize> = None;
    while n > 0 && found.is_none()
        invariant
            n <= tokens.len(),
            vecs_view(tokens@) == words(input@),
            found is None ==> last_operator_index(vecs_view(tokens@), tokens.len() as int)
                == last_operator_index(vecs_view(tokens@), n as int),
            found matches Some(i) ==> last_operator_index(vecs_view(tokens@), tokens.len() as int)
                == Some(i as int) && i < tokens.len(),
        decreases n,
    {
        proof {
            assert(vecs_view(tokens@)[n - 1] == tokens@[n - 1]@);
        }
        if parse_operator(&tokens[n - 1]).is_some() {
            found = Some(n - 1);
        }
        n -= 1;
    }
    match found {
        Some(idx) => {
            let mut kept: Vec<Vec<char>> = Vec::new();
            let mut j: usize = 0;
            while j < tokens.len()
                invariant
                    j <= tokens.len(),
                    idx < tokens.len(),
                    vecs_view(kept@) == if j <= idx {
                        vecs_view(tokens@).take(j as int)
                    } else {
                        vecs_view(tokens@).remove(idx as int).take(j - 1)
                    },
                decreases tokens.len() - j,
            {
                if j != idx {
                    let ghost before = kept@;
                    kept.push(slice(&tokens[j], 0, tokens[j].len()));
                    proof {
                        assert(kept@.last()@ =~= tokens@[j as int]@);
                        assert(vecs_view(kept@) =~= vecs_view(before).push(tokens@[j as int]@));
                        if j < idx {
                            assert(vecs_view(kept@) =~= vecs_view(tokens@).take(j + 1));
                        } else {
                            assert(vecs_view(kept@) =~= vecs_view(tokens@).remove(idx as int).take(j as int));
                        }
                    }
                } else {
                    proof {
                        assert(vecs_view(tokens@).take(j as int) =~= vecs_view(tokens@).remove(idx as int).take(j as int));
                    }
                }
                j += 1;
            }
            proof {
                assert(vecs_view(tokens@).remove(idx as int).take(tokens.len() - 1) =~= vecs_view(tokens@).remove(idx as int));
            }
            let out = join_chars(&kept, " ");
            string_of(&out)
        },
        None => input.to_string(),
    }
}

} // verus!

verus! {

/// A filter value that survives being typed back: non-empty, no whitespace,
/// no ASCII uppercase.
pub open spec fn chip_safe_value(t: Seq<char>) -> bool {
    t.len() > 0 && forall|i: int| 0 <= i < t.len() ==> !crate::text::is_ws(#[trigger] t[i]) && !('A'
        <= t[i] && t[i] <= 'Z')
}

/// Filters whose chip text parses back to themselves.
pub open spec fn chip_round_trips(f: FilterView) -> bool {
    match f {
        FilterView::Tag(t) => chip_safe_value(t),
        FilterView::Category(t) => chip_safe_value(t),
        FilterView::NotTag(t) => chip_safe_value(t),
        FilterView::Lang(l) => l != Language::Unknown,
        FilterView::Favorite => true,
        FilterView::Risk(_) => true,
        FilterView::Playlist(_) => false,
    }
}

proof fn lemma_risk_round_trip(r: RiskLevel)
    ensures
        risk_from_label(super::risk_label_of(r)) == Some(r),
{
    reveal_strlit("low");
    reveal_strlit("medium");
    reveal_strlit("med");
    reveal_strlit("high");
    crate::text::lemma_plain_text(super::risk_label_of(r));
}

proof fn lemma_split_at(c: Seq<char>, k: int)
    requires
        0 <= k < c.len(),
        c[k] == ':',
        forall|j: int| 0 <= j < k ==> c[j] != ':',
    ensures
        split_once(c, ':') == Some((c.take(k), c.skip(k + 1))),
{
    crate::text::lemma_first_index_of(c, ':', k);
}

proof fn lemma_keyed_value(prefix: Seq<char>, value: Seq<char>, c: Seq<char>)
    requires
        c == prefix + seq![':'] + value,
        forall|j: int| 0 <= j < prefix.len() ==> prefix[j] != ':',
    ensures
        split_once(c, ':') == Some((prefix, value)),
{
    lemma_split_at(c, prefix.len() as int);
    assert(c.take(prefix.len() as int) =~= prefix);
    assert(c.skip(prefix.len() as int + 1) =~= value);
}

proof fn lemma_plain_body(key: Seq<char>, value: Seq<char>)
    requires
        forall|j: int| 0 <= j < key.len() ==> key[j] != ':' && !crate::text::is_ws(#[trigger] key[j]),
        forall|i: int| 0 <= i < value.len() ==> !crate::text::is_ws(#[trigger] value[i]),
    ensures
        split_once(key + seq![':'] + value, ':') == Some((key, value)),
        forall|i: int| 0 <= i < (key + seq![':'] + value).len() ==> !crate::text::is_ws(
            #[trigger] (key + seq![':'] + value)[i],
        ),
{
    let body = key + seq![':'] + value;
    lemma_keyed_value(key, value, body);
    assert forall|i: int| 0 <= i < body.len() implies !crate::text::is_ws(#[trigger] body[i]) by {
        if i > key.len() {
            assert(body[i] == value[i - key.len() - 1]);
        } else if i < key.len() {
            assert(body[i] == key[i]);
        }
    }
}

proof fn lemma_one_token_query(c: Seq<char>, f: FilterView)
    requires
        c.len() > 0,
        forall|i: int| 0 <= i < c.len() ==> !crate::text::is_ws(#[trigger] c[i]),
        operator_of(c) == Some(f),
    ensures
        parsed_query(c) == (QueryView {
            text: seq![],
            filters: seq![f],
            view: ViewSpec::All,
            sort: Sort::Auto,
            limit: None,
        }),
{
    crate::text::lemma_single_word(c);
    assert(seq![c].drop_last() =~= Seq::<Seq<char>>::empty());
    assert(seq![c].last() == c);
    let e = Seq::<Seq<char>>::empty();
    assert(parse_tokens(e) == (Seq::<FilterView>::empty(), e));
    assert(!Seq::<FilterView>::empty().contains(f));
    assert(Seq::<FilterView>::empty().push(f) =~= seq![f]);
    assert(parse_tokens(seq![c]) == (seq![f], Seq::<Seq<char>>::empty()));
}

proof fn lemma_keyed_chip(key: Seq<char>, value: Seq<char>, f: FilterView)
    requires
        key.len() > 0,
        key[0] != '-',
        forall|j: int| 0 <= j < key.len() ==> key[j] != ':' && !crate::text::is_ws(#[trigger] key[j]),
        forall|i: int| 0 <= i < value.len() ==> !crate::text::is_ws(#[trigger] value[i]),
        keyed_operator_of(key, value) == Some(f),
    ensures
        parsed_query(key + seq![':'] + value) == (QueryView {
            text: seq![],
            filters: seq![f],
            view: ViewSpec::All,
            sort: Sort::Auto,
            limit: None,
        }),
{
    reveal_strlit("-");
    let body = key + seq![':'] + value;
    lemma_plain_body(key, value);
    lemma_operator_of_parts(body);
    assert(body[0] == key[0]);
    assert(!starts_with(body, "-"@));
    lemma_one_token_query(body, f);
}

proof fn lemma_value_chip(key: Seq<char>, t: Seq<char>, f: FilterView)
    requires
        key.len() > 0,
        key[0] != '-',
        forall|j: int| 0 <= j < key.len() ==> key[j] != ':' && !crate::text::is_ws(#[trigger] key[j]),
        chip_safe_value(t),
        keyed_operator_of(key, t) == Some(f),
    ensures
        parsed_query(key + seq![':'] + t) == (QueryView {
            text: seq![],
            filters: seq![f],
            view: ViewSpec::All,
            sort: Sort::Auto,
            limit: None,
        }),
{
    lemma_keyed_chip(key, t, f);
}

proof fn lemma_chip_tag(t: Seq<char>)
    requires
        chip_round_trips(FilterView::Tag(t)),
    ensures
        parsed_query(super::chip_of(FilterView::Tag(t))->0) == (QueryView {
            text: seq![],
            filters: seq![FilterView::Tag(t)],
            view: ViewSpec::All,
            sort: Sort::Auto,
            limit: None,
        }),
{
    let f = FilterView::Tag(t);
        reveal_strlit("t:");
        reveal_strlit("t");
        reveal_strlit("fav");
        reveal_strlit("favorite");
        reveal_strlit("favourite");
        crate::text::lemma_plain_text(t);
        assert(ascii_lower_seq("t"@) =~= "t"@);
        assert("t:"@ + t =~= "t"@ + seq![':'] + t);
        lemma_value_chip("t"@, t, f);
}

proof fn lemma_chip_category(t: Seq<char>)
    requires
        chip_round_trips(FilterView::Category(t)),
    ensures
        parsed_query(super::chip_of(FilterView::Category(t))->0) == (QueryView {
            text: seq![],
            filters: seq![FilterView::Category(t)],
            view: ViewSpec::All,
            sort: Sort::Auto,
            limit: None,
        }),
{
    let f = FilterView::Category(t);
        reveal_strlit("c:");
        reveal_strlit("c");
        reveal_strlit("t");
        reveal_strlit("tag");
        reveal_strlit("fav");
        reveal_strlit("favorite");
        reveal_strlit("favourite");
        crate::text::lemma_plain_text(t);
        assert(ascii_lower_seq("c"@) =~= "c"@);
        assert("c:"@ + t =~= "c"@ + seq![':'] + t);
        lemma_value_chip("c"@, t, f);
}

proof fn lemma_chip_lang(l: Language)
    requires
        chip_round_trips(FilterView::Lang(l)),
    ensures
        parsed_query(super::chip_of(FilterView::Lang(l))->0) == (QueryView {
            text: seq![],
            filters: seq![FilterView::Lang(l)],
            view: ViewSpec::All,
            sort: Sort::Auto,
            limit: None,
        }),
{
    let f = FilterView::Lang(l);
        reveal_strlit("lang:");
        reveal_strlit("lang");
        reveal_strlit("c");
        reveal_strlit("category");
        reveal_strlit("t");
        reveal_strlit("tag");
        reveal_strlit("fav");
        reveal_strlit("favorite");
        reveal_strlit("favourite");
        reveal_strlit("bash");
        reveal_strlit("python");
        reveal_strlit("rust");
        reveal_strlit("node");
        reveal_strlit("ruby");
        reveal_strlit("lua");
        reveal_strlit("sql");
        crate::model::lemma_label_round_trip(l);
        let v = label_of(l);
        crate::text::lemma_plain_text(v);
        assert(ascii_lower_seq("lang"@) =~= "lang"@);
        assert("lang:"@ + v =~= "lang"@ + seq![':'] + v);
        lemma_keyed_chip("lang"@, v, f);
}

proof fn lemma_chip_favorite()
    requires
        chip_round_trips(FilterView::Favorite),
    ensures
        parsed_query(super::chip_of(FilterView::Favorite)->0) == (QueryView {
            text: seq![],
            filters: seq![FilterView::Favorite],
            view: ViewSpec::All,
            sort: Sort::Auto,
            limit: None,
        }),
{
    let f = FilterView::Favorite;
        reveal_strlit("fav:");
        reveal_strlit("fav");
        assert(ascii_lower_seq("fav"@) =~= "fav"@);
        assert("fav:"@ =~= "fav"@ + seq![':'] + Seq::<char>::empty());
        lemma_keyed_chip("fav"@, Seq::<char>::empty(), f);
}

proof fn lemma_chip_risk(r: RiskLevel)
    requires
        chip_round_trips(FilterView::Risk(r)),
    ensures
        parsed_query(super::chip_of(FilterView::Risk(r))->0) == (QueryView {
            text: seq![],
            filters: seq![FilterView::Risk(r)],
            view: ViewSpec::All,
            sort: Sort::Auto,
            limit: None,
        }),
{
    let f = FilterView::Risk(r);
        reveal_strlit("risk:");
        reveal_strlit("risk");
        reveal_strlit("lang");
        reveal_strlit("language");
        reveal_strlit("c");
        reveal_strlit("category");
        reveal_strlit("t");
        reveal_strlit("tag");
        reveal_strlit("fav");
        reveal_strlit("favorite");
        reveal_strlit("favourite");
        reveal_strlit("low");
        reveal_strlit("medium");
        reveal_strlit("high");
        lemma_risk_round_trip(r);
        let v = super::risk_label_of(r);
        crate::text::lemma_plain_text(v);
        assert(ascii_lower_seq("risk"@) =~= "risk"@);
        assert("risk:"@ + v =~= "risk"@ + seq![':'] + v);
        lemma_keyed_chip("risk"@, v, f);
}

proof fn lemma_chip_nottag(t: Seq<char>)
    requires
        chip_round_trips(FilterView::NotTag(t)),
    ensures
        parsed_query(super::chip_of(FilterView::NotTag(t))->0) == (QueryView {
            text: seq![],
            filters: seq![FilterView::NotTag(t)],
            view: ViewSpec::All,
            sort: Sort::Auto,
            limit: None,
        }),
{
    let f = FilterView::NotTag(t);
        reveal_strlit("-t:");
        reveal_strlit("-");
        reveal_strlit("t");
        crate::text::lemma_plain_text(t);
        assert(ascii_lower_seq("t"@) =~= "t"@);
        let c = "-t:"@ + t;
        let body = "t"@ + seq![':'] + t;
        assert(c =~= seq!['-'] + body);
        assert(c.skip(1) =~= body);
        lemma_plain_body("t"@, t);
        lemma_operator_of_parts(c);
        assert(starts_with(c, "-"@)) by {
            assert(c.take(1) =~= "-"@);
        }
        assert forall|i: int| 0 <= i < c.len() implies !crate::text::is_ws(#[trigger] c[i]) by {
            if i > 0 {
                assert(c[i] == body[i - 1]);
            }
        }
        lemma_one_token_query(c, f);
}

/// The query holding just the filter `f`.
pub open spec fn only_filter(f: FilterView) -> QueryView {
    QueryView { text: seq![], filters: seq![f], view: ViewSpec::All, sort: Sort::Auto, limit: None }
}

proof fn lemma_negated_query(key: Seq<char>, value: Seq<char>, f: FilterView)
    requires
        forall|j: int| 0 <= j < key.len() ==> key[j] != ':' && !crate::text::is_ws(#[trigger] key[j]),
        forall|i: int| 0 <= i < value.len() ==> !crate::text::is_ws(#[trigger] value[i]),
        negated_operator_of(key + seq![':'] + value) == Some(f),
    ensures
        parsed_query(seq!['-'] + key + seq![':'] + value) == only_filter(f),
{
    reveal_strlit("-");
    let body = key + seq![':'] + value;
    let c = seq!['-'] + body;
    assert(seq!['-'] + key + seq![':'] + value =~= c);
    assert(c.skip(1) =~= body);
    lemma_plain_body(key, value);
    lemma_operator_of_parts(c);
    assert(starts_with(c, "-"@)) by {
        assert(c.take(1) =~= "-"@);
    }
    assert forall|i: int| 0 <= i < c.len() implies !crate::text::is_ws(#[trigger] c[i]) by {
        if i > 0 {
            assert(c[i] == body[i - 1]);
        }
    }
    lemma_one_token_query(c, f);
}

proof fn lemma_alias_tag(v: Seq<char>)
    requires
        v.len() > 0,
        forall|i: int| 0 <= i < v.len() ==> !crate::text::is_ws(#[trigger] v[i]),
    ensures
        parsed_query("t:"@ + v) == only_filter(FilterView::Tag(ascii_lower_seq(v))),
        parsed_query("tag:"@ + v) == only_filter(FilterView::Tag(ascii_lower_seq(v))),
{
    reveal_strlit("fav");
    reveal_strlit("favorite");
    reveal_strlit("favourite");
    assert("fav"@[0] == 'f' && "favorite"@[0] == 'f' && "favourite"@[0] == 'f');
    reveal_strlit("t:");
    reveal_strlit("t");
    assert(ascii_lower_seq("t"@) =~= "t"@);
    assert("t:"@ + v =~= "t"@ + seq![':'] + v);
    lemma_keyed_chip("t"@, v, FilterView::Tag(ascii_lower_seq(v)));
    reveal_strlit("tag:");
    reveal_strlit("tag");
    assert(ascii_lower_seq("tag"@) =~= "tag"@);
    assert("tag:"@ + v =~= "tag"@ + seq![':'] + v);
    lemma_keyed_chip("tag"@, v, FilterView::Tag(ascii_lower_seq(v)));
    assert("t"@[0] == 't' && "tag"@[0] == 't');
}

proof fn lemma_alias_category(v: Seq<char>)
    requires
        v.len() > 0,
        forall|i: int| 0 <= i < v.len() ==> !crate::text::is_ws(#[trigger] v[i]),
    ensures
        parsed_query("c:"@ + v) == only_filter(FilterView::Category(ascii_lower_seq(v))),
        parsed_query("category:"@ + v) == only_filter(FilterView::Category(ascii_lower_seq(v))),
{
    reveal_strlit("fav");
    reveal_strlit("favorite");
    reveal_strlit("favourite");
    reveal_strlit("t");
    reveal_strlit("tag");
    assert("fav"@[0] == 'f' && "favorite"@[0] == 'f' && "favourite"@[0] == 'f' && "t"@[0] == 't' && "tag"@[0] == 't');
    reveal_strlit("c:");
    reveal_strlit("c");
    assert(ascii_lower_seq("c"@) =~= "c"@);
    assert("c:"@ + v =~= "c"@ + seq![':'] + v);
    lemma_keyed_chip("c"@, v, FilterView::Category(ascii_lower_seq(v)));
    reveal_strlit("category:");
    reveal_strlit("category");
    assert(ascii_lower_seq("category"@) =~= "category"@);
    assert("category:"@ + v =~= "category"@ + seq![':'] + v);
    lemma_keyed_chip("category"@, v, FilterView::Category(ascii_lower_seq(v)));
    assert("c"@[0] == 'c' && "category"@[0] == 'c');
}

proof fn lemma_alias_favorite(v: Seq<char>)
    requires
        v.len() > 0,
        forall|i: int| 0 <= i < v.len() ==> !crate::text::is_ws(#[trigger] v[i]),
    ensures
        parsed_query("fav:"@ + v) == only_filter(FilterView::Favorite),
        parsed_query("favorite:"@ + v) == only_filter(FilterView::Favorite),
        parsed_query("favourite:"@ + v) == only_filter(FilterView::Favorite),
{
    reveal_strlit("fav:");
    reveal_strlit("fav");
    assert(ascii_lower_seq("fav"@) =~= "fav"@);
    assert("fav:"@ + v =~= "fav"@ + seq![':'] + v);
    lemma_keyed_chip("fav"@, v, FilterView::Favorite);
    reveal_strlit("favorite:");
    reveal_strlit("favorite");
    assert(ascii_lower_seq("favorite"@) =~= "favorite"@);
    assert("favorite:"@ + v =~= "favorite"@ + seq![':'] + v);
    lemma_keyed_chip("favorite"@, v, FilterView::Favorite);
    reveal_strlit("favourite:");
    reveal_strlit("favourite");
    assert(ascii_lower_seq("favourite"@) =~= "favourite"@);
    assert("favourite:"@ + v =~= "favourite"@ + seq![':'] + v);
    lemma_keyed_chip("favourite"@, v, FilterView::Favorite);
}

proof fn lemma_alias_lang(v: Seq<char>, l: Language)
    requires
        v.len() > 0,
        forall|i: int| 0 <= i < v.len() ==> !crate::text::is_ws(#[trigger] v[i]),
        language_from_label(v) == Some(l),
    ensures
        parsed_query("lang:"@ + v) == only_filter(FilterView::Lang(l)),
        parsed_query("language:"@ + v) == only_filter(FilterView::Lang(l)),
{
    reveal_strlit("fav");
    reveal_strlit("favorite");
    reveal_strlit("favourite");
    reveal_strlit("t");
    reveal_strlit("tag");
    reveal_strlit("c");
    reveal_strlit("category");
    assert("fav"@[0] == 'f' && "favorite"@[0] == 'f' && "favourite"@[0] == 'f' && "t"@[0] == 't' && "tag"@[0] == 't'
        && "c"@[0] == 'c' && "category"@[0] == 'c');
    reveal_strlit("lang:");
    reveal_strlit("lang");
    assert(ascii_lower_seq("lang"@) =~= "lang"@);
    assert("lang:"@ + v =~= "lang"@ + seq![':'] + v);
    lemma_keyed_chip("lang"@, v, FilterView::Lang(l));
    reveal_strlit("language:");
    reveal_strlit("language");
    assert(ascii_lower_seq("language"@) =~= "language"@);
    assert("language:"@ + v =~= "language"@ + seq![':'] + v);
    lemma_keyed_chip("language"@, v, FilterView::Lang(l));
    assert("lang"@[0] == 'l' && "language"@[0] == 'l');
}

proof fn lemma_alias_risk(v: Seq<char>, r: RiskLevel)
    requires
        v.len() > 0,
        forall|i: int| 0 <= i < v.len() ==> !crate::text::is_ws(#[trigger] v[i]),
        risk_from_label(v) == Some(r),
    ensures
        parsed_query("risk:"@ + v) == only_filter(FilterView::Risk(r)),
{
    reveal_strlit("fav");
    reveal_strlit("favorite");
    reveal_strlit("favourite");
    reveal_strlit("t");
    reveal_strlit("tag");
    reveal_strlit("c");
    reveal_strlit("category");
    reveal_strlit("lang");
    reveal_strlit("language");
    assert("fav"@[0] == 'f' && "favorite"@[0] == 'f' && "favourite"@[0] == 'f' && "t"@[0] == 't' && "tag"@[0] == 't'
        && "c"@[0] == 'c' && "category"@[0] == 'c' && "lang"@[0] == 'l' && "language"@[0] == 'l');
    reveal_strlit("risk:");
    reveal_strlit("risk");
    assert(ascii_lower_seq("risk"@) =~= "risk"@);
    assert("risk:"@ + v =~= "risk"@ + seq![':'] + v);
    lemma_keyed_chip("risk"@, v, FilterView::Risk(r));
    assert("risk"@[0] == 'r');
}

proof fn lemma_negated_key(key: Seq<char>, v: Seq<char>)
    requires
        ascii_lower_seq(key) == "t"@ || ascii_lower_seq(key) == "tag"@,
        forall|j: int| 0 <= j < key.len() ==> key[j] != ':' && !crate::text::is_ws(#[trigger] key[j]),
        v.len() > 0,
        forall|i: int| 0 <= i < v.len() ==> !crate::text::is_ws(#[trigger] v[i]),
    ensures
        parsed_query(seq!['-'] + key + seq![':'] + v) == only_filter(FilterView::NotTag(ascii_lower_seq(v))),
{
    lemma_plain_body(key, v);
    assert(negated_operator_of(key + seq![':'] + v) == Some(FilterView::NotTag(ascii_lower_seq(v))));
    lemma_negated_query(key, v, FilterView::NotTag(ascii_lower_seq(v)));
}

proof fn lemma_alias_nottag(v: Seq<char>)
    requires
        v.len() > 0,
        forall|i: int| 0 <= i < v.len() ==> !crate::text::is_ws(#[trigger] v[i]),
    ensures
        parsed_query("-t:"@ + v) == only_filter(FilterView::NotTag(ascii_lower_seq(v))),
        parsed_query("-tag:"@ + v) == only_filter(FilterView::NotTag(ascii_lower_seq(v))),
{
    reveal_strlit("-t:");
    reveal_strlit("-tag:");
    reveal_strlit("t");
    reveal_strlit("tag");
    assert(ascii_lower_seq("t"@) =~= "t"@);
    assert(ascii_lower_seq("tag"@) =~= "tag"@);
    assert("-t:"@ + v =~= seq!['-'] + "t"@ + seq![':'] + v);
    lemma_negated_key("t"@, v);
    assert("-tag:"@ + v =~= seq!['-'] + "tag"@ + seq![':'] + v);
    lemma_negated_key("tag"@, v);
}

/// The operator keys and their aliases, for every non-empty value without
/// whitespace: `t:v` and `tag:v` are one tag filter on the ASCII-lowercased
/// value; `-t:v` and `-tag:v` one excluded tag; `c:v` and `category:v` one
/// category filter; `fav:`, `favorite:` and `favourite:` the favorites filter
/// whatever follows; `lang:v` and `language:v` one language filter when `v`
/// names a language; `risk:v` one risk filter when `v` names a level. No fuzzy
/// text remains.
pub proof fn lemma_operator_aliases(v: Seq<char>)
    requires
        v.len() > 0,
        forall|i: int| 0 <= i < v.len() ==> !crate::text::is_ws(#[trigger] v[i]),
    ensures
        parsed_query("t:"@ + v) == only_filter(FilterView::Tag(ascii_lower_seq(v))),
        parsed_query("tag:"@ + v) == only_filter(FilterView::Tag(ascii_lower_seq(v))),
        parsed_query("-t:"@ + v) == only_filter(FilterView::NotTag(ascii_lower_seq(v))),
        parsed_query("-tag:"@ + v) == only_filter(FilterView::NotTag(ascii_lower_seq(v))),
        parsed_query("c:"@ + v) == only_filter(FilterView::Category(ascii_lower_seq(v))),
        parsed_query("category:"@ + v) == only_filter(FilterView::Category(ascii_lower_seq(v))),
        parsed_query("fav:"@ + v) == only_filter(FilterView::Favorite),
        parsed_query("favorite:"@ + v) == only_filter(FilterView::Favorite),
        parsed_query("favourite:"@ + v) == only_filter(FilterView::Favorite),
        language_from_label(v) matches Some(l) ==> parsed_query("lang:"@ + v) == only_filter(FilterView::Lang(l))
            && parsed_query("language:"@ + v) == only_filter(FilterView::Lang(l)),
        risk_from_label(v) matches Some(r) ==> parsed_query("risk:"@ + v) == only_filter(FilterView::Risk(r)),
{
    lemma_alias_tag(v);
    lemma_alias_nottag(v);
    lemma_alias_category(v);
    lemma_alias_favorite(v);
    if let Some(l) = language_from_label(v) {
        lemma_alias_lang(v, l);
    }
    if let Some(r) = risk_from_label(v) {
        lemma_alias_risk(v, r);
    }
}

/// A chip label, typed back into the parser, yields exactly that one filter and
/// no fuzzy text, for every filter whose value is non-empty, free of
/// whitespace and of ASCII uppercase (and never for `Lang(Unknown)`, whose
/// label is not a recognized language name, nor for a playlist, which has no chip).
pub proof fn lemma_chip_round_trip(f: FilterView)
    requires
        chip_round_trips(f),
    ensures
        super::chip_of(f) is Some,
        parsed_query(super::chip_of(f)->0) == (QueryView {
            text: seq![],
            filters: seq![f],
            view: ViewSpec::All,
            sort: Sort::Auto,
            limit: None,
        }),
{
    match f {
        FilterView::Tag(t) => lemma_chip_tag(t),
        FilterView::Category(t) => lemma_chip_category(t),
        FilterView::Lang(l) => lemma_chip_lang(l),
        FilterView::Favorite => lemma_chip_favorite(),
        FilterView::Risk(r) => lemma_chip_risk(r),
        FilterView::NotTag(t) => lemma_chip_nottag(t),
        FilterView::Playlist(_) => {},
    }
}

} // verus!
