//! What the panes show, decided without a terminal: the rows of the preview,
//! the parts of a result row, the runs of a name to highlight, the title of
//! the results list, the message of an empty list, and the coarse syntax kind
//! of a highlighter scope. Styling them is the renderer's business.

use vstd::prelude::*;
use super::{name_indices, name_indices_of, SyntaxKind, ViewMode};
use crate::cli::{match_label, match_label_of};
use crate::model::{display_name_of, label_of, EntryView, MatchField, SearchResult};
use crate::text::{
    append, append_lit, chars_of, chars_of_string, dec, has_prefix_lit, join, join_strings, lowercase_chars, opt_view,
    push_dec, starts_with, string_of, strs_view, trim, trim_str, unicode_lower,
};

verus! {

// ---------------------------------------------------------------------------
// Syntax kinds
// ---------------------------------------------------------------------------

/// The kind of a highlighter scope, by the start of its dotted name: comments,
/// strings, numeric constants, keywords and storage words; anything else is
/// normal text.
pub open spec fn syntax_kind_of(scope: Seq<char>) -> SyntaxKind {
    if starts_with(scope, "comment"@) {
        SyntaxKind::Comment
    } else if starts_with(scope, "string"@) {
        SyntaxKind::StringLit
    } else if starts_with(scope, "constant.numeric"@) {
        SyntaxKind::Number
    } else if starts_with(scope, "keyword"@) || starts_with(scope, "storage"@) {
        SyntaxKind::Keyword
    } else {
        SyntaxKind::Normal
    }
}

/// Scope names sort by their start: `comment…` is a comment, `string…` a
/// string literal, `constant.numeric…` a number, `keyword…` and `storage…`
/// keywords; any other scope is normal text.
pub proof fn lemma_scope_kinds(scope: Seq<char>)
    ensures
        starts_with(scope, "comment"@) ==> syntax_kind_of(scope) == SyntaxKind::Comment,
        starts_with(scope, "string"@) ==> syntax_kind_of(scope) == SyntaxKind::StringLit,
        starts_with(scope, "constant.numeric"@) ==> syntax_kind_of(scope) == SyntaxKind::Number,
        starts_with(scope, "keyword"@) || starts_with(scope, "storage"@) ==> syntax_kind_of(scope)
            == SyntaxKind::Keyword,
        !(starts_with(scope, "comment"@) || starts_with(scope, "string"@) || starts_with(scope, "constant.numeric"@)
            || starts_with(scope, "keyword"@) || starts_with(scope, "storage"@)) ==> syntax_kind_of(scope)
            == SyntaxKind::Normal,
{
    reveal_strlit("comment");
    reveal_strlit("string");
    reveal_strlit("constant.numeric");
    reveal_strlit("keyword");
    reveal_strlit("storage");
    assert("comment"@[0] == 'c' && "string"@[0] == 's' && "constant.numeric"@[0] == 'c' && "keyword"@[0] == 'k'
        && "storage"@[0] == 's' && "comment"@[1] == 'o' && "constant.numeric"@[1] == 'o'
        && "comment"@[2] == 'm' && "constant.numeric"@[2] == 'n' && "string"@[1] == 't' && "storage"@[1] == 't'
        && "string"@[2] == 'r' && "storage"@[2] == 'o');
    if starts_with(scope, "comment"@) {
        assert(scope.take(7)[0] == scope[0] && scope.take(7)[1] == scope[1] && scope.take(7)[2] == scope[2]);
    }
    if starts_with(scope, "string"@) {
        assert(scope.take(6)[0] == scope[0] && scope.take(6)[1] == scope[1] && scope.take(6)[2] == scope[2]);
    }
    if starts_with(scope, "constant.numeric"@) {
        assert(scope.take(16)[0] == scope[0] && scope.take(16)[1] == scope[1] && scope.take(16)[2] == scope[2]);
    }
    if starts_with(scope, "keyword"@) {
        assert(scope.take(7)[0] == scope[0]);
    }
    if starts_with(scope, "storage"@) {
        assert(scope.take(7)[0] == scope[0] && scope.take(7)[1] == scope[1] && scope.take(7)[2] == scope[2]);
    }
}

/// Classify a highlighter scope name (see [`syntax_kind_of`]).
pub fn classify(scope_name: &str) -> (k: SyntaxKind)
    ensures
        k == syntax_kind_of(scope_name@),
{
    let v = chars_of(scope_name);
    if has_prefix_lit(&v, "comment") {
        SyntaxKind::Comment
    } else if has_prefix_lit(&v, "string") {
        SyntaxKind::StringLit
    } else if has_prefix_lit(&v, "constant.numeric") {
        SyntaxKind::Number
    } else if has_prefix_lit(&v, "keyword") || has_prefix_lit(&v, "storage") {
        SyntaxKind::Keyword
    } else {
        SyntaxKind::Normal
    }
}

// ---------------------------------------------------------------------------
// Highlighted runs
// ---------------------------------------------------------------------------

/// Whether character position `i` is among the matched positions.
pub open spec fn is_hit(matched: Seq<usize>, i: int) -> bool {
    exists|k: int| 0 <= k < matched.len() && matched[k] == i
}

/// The runs of the first `n` characters: each a maximal stretch of
/// characters that are all matched or all not, with that flag.
pub open spec fn runs_upto(s: Seq<char>, matched: Seq<usize>, n: nat) -> Seq<(Seq<char>, bool)>
    decreases n,
{
    if n == 0 {
        seq![]
    } else {
        let prev = runs_upto(s, matched, (n - 1) as nat);
        let c = s[n - 1];
        let h = is_hit(matched, n - 1);
        if prev.len() > 0 && prev.last().1 == h {
            prev.drop_last().push((prev.last().0.push(c), h))
        } else {
            prev.push((seq![c], h))
        }
    }
}

/// The runs of a text to draw, matched ones emphasized (see [`runs_upto`]);
/// an empty text is one empty, unmatched run.
pub open spec fn highlight_runs_of(s: Seq<char>, matched: Seq<usize>) -> Seq<(Seq<char>, bool)> {
    if s.len() == 0 {
        seq![(seq![], false)]
    } else {
        runs_upto(s, matched, s.len())
    }
}

/// The texts of runs, concatenated.
pub open spec fn runs_text(rs: Seq<(Seq<char>, bool)>) -> Seq<char>
    decreases rs.len(),
{
    if rs.len() == 0 {
        seq![]
    } else {
        runs_text(rs.drop_last()) + rs.last().0
    }
}

/// The views of string runs.
pub open spec fn runs_view(v: Seq<(String, bool)>) -> Seq<(Seq<char>, bool)> {
    v.map_values(|r: (String, bool)| (r.0@, r.1))
}

/// The views of character-vector runs.
pub open spec fn vec_runs_view(v: Seq<(Vec<char>, bool)>) -> Seq<(Seq<char>, bool)> {
    v.map_values(|r: (Vec<char>, bool)| (r.0@, r.1))
}

/// The runs of a prefix spell out that prefix, none of them empty, and
/// neighbouring runs differ in their flag.
pub proof fn lemma_runs_upto(s: Seq<char>, matched: Seq<usize>, n: nat)
    requires
        n <= s.len(),
    ensures
        runs_text(runs_upto(s, matched, n)) == s.take(n as int),
        forall|k: int| 0 <= k < runs_upto(s, matched, n).len() ==> #[trigger] runs_upto(s, matched, n)[k].0.len() > 0,
        forall|k: int|
            0 <= k < runs_upto(s, matched, n).len() - 1 ==> #[trigger] runs_upto(s, matched, n)[k].1 != runs_upto(
                s,
                matched,
                n,
            )[k + 1].1,
    decreases n,
{
    if n > 0 {
        let m = (n - 1) as nat;
        lemma_runs_upto(s, matched, m);
        let prev = runs_upto(s, matched, m);
        let c = s[n - 1];
        let h = is_hit(matched, n - 1);
        if prev.len() > 0 && prev.last().1 == h {
            let cur = prev.drop_last().push((prev.last().0.push(c), h));
            assert(cur.drop_last() =~= prev.drop_last());
            assert(prev.drop_last().push(prev.last()) =~= prev);
            assert(runs_text(prev) == runs_text(prev.drop_last()) + prev.last().0);
            assert(runs_text(cur) =~= runs_text(prev) + seq![c]);
            assert(s.take(m as int).push(c) =~= s.take(n as int));
            assert forall|k: int| 0 <= k < cur.len() - 1 implies #[trigger] cur[k].1 != cur[k + 1].1 by {
                assert(cur[k] == prev[k]);
                if k + 1 < cur.len() - 1 {
                    assert(cur[k + 1] == prev[k + 1]);
                }
            }
        } else {
            let cur = prev.push((seq![c], h));
            assert(cur.drop_last() =~= prev);
            assert(runs_text(cur) =~= runs_text(prev) + seq![c]);
            assert(s.take(m as int).push(c) =~= s.take(n as int));
            assert forall|k: int| 0 <= k < cur.len() - 1 implies #[trigger] cur[k].1 != cur[k + 1].1 by {
                assert(cur[k] == prev[k]);
                if k + 1 < cur.len() - 1 {
                    assert(cur[k + 1] == prev[k + 1]);
                }
            }
        }
    }
}

/// The highlighted runs of a text spell out exactly that text, and
/// neighbouring runs differ in whether they are emphasized.
pub proof fn lemma_highlight_runs_spell_text(s: Seq<char>, matched: Seq<usize>)
    ensures
        runs_text(highlight_runs_of(s, matched)) == s,
        forall|k: int|
            0 <= k < highlight_runs_of(s, matched).len() - 1 ==> #[trigger] highlight_runs_of(s, matched)[k].1
                != highlight_runs_of(s, matched)[k + 1].1,
{
    if s.len() == 0 {
        let rs = highlight_runs_of(s, matched);
        let e = Seq::<(Seq<char>, bool)>::empty();
        assert(rs.drop_last() =~= e);
        assert(runs_text(e) == Seq::<char>::empty());
        assert(runs_text(rs) =~= s);
    } else {
        lemma_runs_upto(s, matched, s.len());
        assert(s.take(s.len() as int) =~= s);
    }
}

fn contains_index(matched: &[usize], i: usize) -> (r: bool)
    ensures
        r == is_hit(matched@, i as int),
{
    let mut k: usize = 0;
    while k < matched.len()
        invariant
            k <= matched.len(),
            forall|j: int| 0 <= j < k ==> matched@[j] != i,
        decreases matched.len() - k,
    {
        if matched[k] == i {
            return true;
        }
        k += 1;
    }
    false
}

/// Split a text into the runs to draw, emphasizing matched character
/// positions (see [`highlight_runs_of`]).
pub fn highlight_runs(text: &str, matched: &[usize]) -> (out: Vec<(String, bool)>)
    ensures
        runs_view(out@) == highlight_runs_of(text@, matched@),
{
    let cs = chars_of(text);
    let mut runs: Vec<(Vec<char>, bool)> = Vec::new();
    let mut i: usize = 0;
    while i < cs.len()
        invariant
            i <= cs.len(),
            cs@ == text@,
            vec_runs_view(runs@) == runs_upto(cs@, matched@, i as nat),
        decreases cs.len() - i,
    {
        let ghost prev = vec_runs_view(runs@);
        let h = contains_index(matched, i);
        let c = cs[i];
        let n = runs.len();
        if n > 0 && runs[n - 1].1 == h {
            let last = runs.pop().unwrap();
            let (mut v, b) = last;
            v.push(c);
            runs.push((v, b));
            proof {
                assert(vec_runs_view(runs@) =~= prev.drop_last().push((prev.last().0.push(c), h)));
            }
        } else {
            let mut v: Vec<char> = Vec::new();
            v.push(c);
            runs.push((v, h));
            proof {
                assert(vec_runs_view(runs@) =~= prev.push((seq![c], h)));
            }
        }
        i += 1;
    }
    let mut out: Vec<(String, bool)> = Vec::new();
    if cs.len() == 0 {
        out.push((String::new(), false));
        proof {
            assert(runs_view(out@) =~= highlight_runs_of(text@, matched@));
        }
        return out;
    }
    let mut j: usize = 0;
    while j < runs.len()
        invariant
            j <= runs.len(),
            runs_view(out@) == vec_runs_view(runs@).take(j as int),
        decreases runs.len() - j,
    {
        let text = string_of(&runs[j].0);
        let flag = runs[j].1;
        let ghost before = out@;
        out.push((text, flag));
        proof {
            assert(runs_view(out@) =~= runs_view(before).push((text@, flag)));
            assert(vec_runs_view(runs@).take(j + 1) =~= vec_runs_view(runs@).take(j as int).push(
                vec_runs_view(runs@)[j as int],
            ));
        }
        j += 1;
    }
    proof {
        assert(vec_runs_view(runs@).take(runs.len() as int) =~= vec_runs_view(runs@));
    }
    out
}

// ---------------------------------------------------------------------------
// The results list
// ---------------------------------------------------------------------------

/// The results list's title: the view with the count, then the active
/// playlist in brackets.
pub open spec fn list_title_of(view: ViewMode, count: nat, playlist: Option<Seq<char>>) -> Seq<char> {
    let base = match view {
        ViewMode::All => "results ("@,
        ViewMode::Favorites => "★ favorites ("@,
        ViewMode::Recents => "recents ("@,
    } + dec(count) + ")"@;
    match playlist {
        Some(p) => base + " ["@ + p + "]"@,
        None => base,
    }
}

/// The results list's title (see [`list_title_of`]).
pub fn list_title(view: ViewMode, count: usize, playlist: Option<&str>) -> (t: String)
    ensures
        t@ == list_title_of(
            view,
            count as nat,
            match playlist {
                Some(p) => Some(p@),
                None => None,
            },
        ),
{
    let mut v = chars_of(match view {
        ViewMode::All => "results (",
        ViewMode::Favorites => "★ favorites (",
        ViewMode::Recents => "recents (",
    });
    push_dec(&mut v, count as u64);
    append_lit(&mut v, ")");
    match playlist {
        Some(p) => {
            append_lit(&mut v, " [");
            append_lit(&mut v, p);
            append_lit(&mut v, "]");
        },
        None => {},
    }
    string_of(&v)
}

/// What an empty results list says, headline then hint: a query that matched
/// nothing, an empty playlist, or an empty view.
pub open spec fn empty_message_of(query: Seq<char>, playlist: Option<Seq<char>>, view: ViewMode) -> (
    Seq<char>,
    Seq<char>,
) {
    if trim(query).len() > 0 {
        ("no matches for “"@ + trim(query) + "”"@, "press Ctrl-U to clear the query, or refine it"@)
    } else {
        match playlist {
            Some(p) => ("playlist “"@ + p + "” is empty"@, "add scripts to it from the action menu (Enter)"@),
            None => match view {
                ViewMode::Favorites => ("no favorites yet"@, "press Ctrl-F on a script to star it"@),
                ViewMode::Recents => ("nothing run yet"@, "run a script (Ctrl-R) to build your history"@),
                ViewMode::All => ("no scripts found"@, "check your roots in ~/.config/scriptvault/config.yaml"@),
            },
        }
    }
}

/// What an empty results list says (see [`empty_message_of`]).
pub fn empty_message(query: &str, playlist: Option<&str>, view: ViewMode) -> (m: (String, String))
    ensures
        (m.0@, m.1@) == empty_message_of(
            query@,
            match playlist {
                Some(p) => Some(p@),
                None => None,
            },
            view,
        ),
{
    let t = trim_str(query);
    if t.len() > 0 {
        let mut v = chars_of("no matches for “");
        append(&mut v, &t);
        append_lit(&mut v, "”");
        return (string_of(&v), "press Ctrl-U to clear the query, or refine it".to_string());
    }
    match playlist {
        Some(p) => {
            let mut v = chars_of("playlist “");
            append_lit(&mut v, p);
            append_lit(&mut v, "” is empty");
            (string_of(&v), "add scripts to it from the action menu (Enter)".to_string())
        },
        None => match view {
            ViewMode::Favorites => ("no favorites yet".to_string(), "press Ctrl-F on a script to star it".to_string()),
            ViewMode::Recents => ("nothing run yet".to_string(), "run a script (Ctrl-R) to build your history".to_string()),
            ViewMode::All => (
                "no scripts found".to_string(),
                "check your roots in ~/.config/scriptvault/config.yaml".to_string(),
            ),
        },
    }
}

// ---------------------------------------------------------------------------
// Risk tags
// ---------------------------------------------------------------------------

/// The first tag from position `i` on whose lowercase form starts with
/// `risk:`.
pub open spec fn risk_tag_from(tags: Seq<Seq<char>>, i: int) -> Option<Seq<char>>
    decreases tags.len() - i,
{
    if i < 0 || i >= tags.len() {
        None
    } else if starts_with(unicode_lower(tags[i]), "risk:"@) {
        Some(tags[i])
    } else {
        risk_tag_from(tags, i + 1)
    }
}

/// The first risk tag of a script (see [`risk_tag_from`]).
pub fn risk_tag(tags: &Vec<String>) -> (r: Option<String>)
    ensures
        opt_view(r) == risk_tag_from(strs_view(tags@), 0),
{
    let ghost tv = strs_view(tags@);
    let mut i: usize = 0;
    while i < tags.len()
        invariant
            i <= tags.len(),
            tv == strs_view(tags@),
            risk_tag_from(tv, 0) == risk_tag_from(tv, i as int),
        decreases tags.len() - i,
    {
        let l = lowercase_chars(&chars_of_string(&tags[i]));
        if has_prefix_lit(&l, "risk:") {
            return Some(tags[i].clone());
        }
        i += 1;
    }
    None
}

// ---------------------------------------------------------------------------
// The preview
// ---------------------------------------------------------------------------

/// One row of the preview pane above the file's first lines.
#[derive(Debug, Clone, PartialEq, Eq)]
pub enum PreviewRow {
    /// A field: its key cell (right-aligned to eight columns, then `: `), its
    /// value, and whether the query matched that field.
    Field { key: String, value: String, emphasized: bool },
    /// The script's risk tag.
    Risk(String),
    /// A dimmed annotation: the last run, the personal note, the last output.
    Annotation(String),
}

/// The mathematical view of a [`PreviewRow`].
pub enum RowView {
    Field(Seq<char>, Seq<char>, bool),
    Risk(Seq<char>),
    Annotation(Seq<char>),
}

/// The view of a preview row.
pub open spec fn row_view(r: PreviewRow) -> RowView {
    match r {
        PreviewRow::Field { key, value, emphasized } => RowView::Field(key@, value@, emphasized),
        PreviewRow::Risk(t) => RowView::Risk(t@),
        PreviewRow::Annotation(t) => RowView::Annotation(t@),
    }
}

/// The views of preview rows.
pub open spec fn rows_view(v: Seq<PreviewRow>) -> Seq<RowView> {
    v.map_values(|r: PreviewRow| row_view(r))
}

/// A key right-aligned to eight columns, then `: `.
pub open spec fn key_cell_of(key: Seq<char>) -> Seq<char> {
    if key.len() >= 8 {
        key + ": "@
    } else {
        Seq::new((8 - key.len()) as nat, |i: int| ' ') + key + ": "@
    }
}

fn key_cell(key: &str) -> (out: String)
    ensures
        out@ == key_cell_of(key@),
{
    let k = chars_of(key);
    let mut v: Vec<char> = Vec::new();
    if k.len() < 8 {
        let pad = 8 - k.len();
        let mut i: usize = 0;
        while i < pad
            invariant
                i <= pad,
                v@ == Seq::new(i as nat, |j: int| ' '),
            decreases pad - i,
        {
            v.push(' ');
            proof {
                assert(v@ =~= Seq::new((i + 1) as nat, |j: int| ' '));
            }
            i += 1;
        }
    }
    append(&mut v, &k);
    append_lit(&mut v, ": ");
    proof {
        assert(v@ =~= key_cell_of(key@));
    }
    string_of(&v)
}

/// A field row; emphasized when it is the field the query matched.
pub open spec fn field_row(key: Seq<char>, value: Seq<char>, field: Option<MatchField>, matched: Option<MatchField>) -> RowView {
    RowView::Field(key_cell_of(key), value, field is Some && field == matched)
}

fn field(key: &str, value: String, which: Option<MatchField>, matched: Option<MatchField>) -> (r: PreviewRow)
    ensures
        row_view(r) == field_row(key@, value@, which, matched),
{
    let emphasized = match (which, matched) {
        (Some(f), Some(m)) => f == m,
        _ => false,
    };
    PreviewRow::Field { key: key_cell(key), value, emphasized }
}

/// The field the preview emphasizes: the matched one, only while a query is
/// typed.
pub open spec fn preview_match(query: Seq<char>, field: MatchField) -> Option<MatchField> {
    if trim(query).len() == 0 {
        None
    } else {
        Some(field)
    }
}

/// An optional text, present only when it is not blank.
pub open spec fn nonblank_text(t: Option<Seq<char>>) -> Option<Seq<char>> {
    match t {
        Some(s) => if trim(s).len() > 0 {
            Some(s)
        } else {
            None
        },
        None => None,
    }
}

/// One annotation row when the text is there, none otherwise.
pub open spec fn annotation_rows(prefix: Seq<char>, t: Option<Seq<char>>) -> Seq<RowView> {
    match t {
        Some(s) => seq![RowView::Annotation(prefix + s)],
        None => seq![],
    }
}

/// The description row, when there is a description.
pub open spec fn desc_rows(e: EntryView, m: Option<MatchField>) -> Seq<RowView> {
    match e.meta.desc {
        Some(d) => seq![field_row("desc"@, d, Some(MatchField::Desc), m)],
        None => seq![],
    }
}

/// The tags row, when there are tags.
pub open spec fn tag_rows(e: EntryView, m: Option<MatchField>) -> Seq<RowView> {
    if e.meta.tags.len() > 0 {
        seq![field_row("tags"@, join(e.meta.tags, ", "@), Some(MatchField::Tags), m)]
    } else {
        seq![]
    }
}

/// The risk row, when a tag names a risk.
pub open spec fn risk_rows(e: EntryView) -> Seq<RowView> {
    match risk_tag_from(e.meta.tags, 0) {
        Some(t) => seq![RowView::Risk("  risk: "@ + t)],
        None => seq![],
    }
}

/// The usage and category rows, each when set.
pub open spec fn usage_rows(e: EntryView, m: Option<MatchField>) -> Seq<RowView> {
    (match e.meta.usage {
        Some(u) => seq![field_row("usage"@, u, None, m)],
        None => seq![],
    }) + (match e.meta.category {
        Some(c) => seq![field_row("category"@, c, None, m)],
        None => seq![],
    })
}

/// The rows of the script's own metadata: name, then description, tags and
/// risk tag when there are any, usage and category when set, language and
/// path; the field the query matched is emphasized.
pub open spec fn meta_rows_of(e: EntryView, m: Option<MatchField>) -> Seq<RowView> {
    seq![field_row("name"@, display_name_of(e), Some(MatchField::Name), m)] + desc_rows(e, m) + tag_rows(e, m)
        + risk_rows(e) + usage_rows(e, m) + seq![
        field_row("lang"@, label_of(e.lang), None, m),
        field_row("path"@, e.path, Some(MatchField::Filename), m),
    ]
}

/// The preview rows of a selected result: its metadata rows (see
/// [`meta_rows_of`]), then the last run's summary, the personal note and the
/// last output, each when present and, for the note and output, not blank.
pub open spec fn preview_rows_of(
    e: EntryView,
    m: Option<MatchField>,
    recency: Option<Seq<char>>,
    note: Option<Seq<char>>,
    last_out: Option<Seq<char>>,
) -> Seq<RowView> {
    meta_rows_of(e, m) + annotation_rows("  last: "@, recency) + annotation_rows("  note: "@, nonblank_text(note))
        + annotation_rows("  out: "@, nonblank_text(last_out))
}

/// The view of an optional text.
pub open spec fn opt_str(t: Option<&str>) -> Option<Seq<char>> {
    match t {
        Some(s) => Some(s@),
        None => None,
    }
}

fn push_row(v: &mut Vec<PreviewRow>, r: PreviewRow)
    ensures
        rows_view(final(v)@) == rows_view(old(v)@).push(row_view(r)),
{
    let ghost before = v@;
    v.push(r);
    proof {
        assert(rows_view(v@) =~= rows_view(before).push(row_view(r)));
    }
}

fn annotate(v: &mut Vec<PreviewRow>, prefix: &str, t: Option<&str>, skip_blank: bool)
    ensures
        rows_view(final(v)@) == rows_view(old(v)@) + annotation_rows(
            prefix@,
            if skip_blank {
                nonblank_text(opt_str(t))
            } else {
                opt_str(t)
            },
        ),
{
    match t {
        Some(s) => {
            if skip_blank && trim_str(s).len() == 0 {
                proof {
                    assert(rows_view(v@) =~= rows_view(v@) + Seq::<RowView>::empty());
                }
                return;
            }
            let mut line = chars_of(prefix);
            append_lit(&mut line, s);
            push_row(v, PreviewRow::Annotation(string_of(&line)));
        },
        None => {
            proof {
                assert(rows_view(v@) =~= rows_view(v@) + Seq::<RowView>::empty());
            }
        },
    }
}

fn push_desc(v: &mut Vec<PreviewRow>, e: &crate::model::ScriptEntry, m: Option<MatchField>)
    ensures
        rows_view(final(v)@) == rows_view(old(v)@) + desc_rows(e@, m),
{
    match &e.meta.desc {
        Some(d) => push_row(v, field("desc", d.clone(), Some(MatchField::Desc), m)),
        None => {},
    }
    proof {
        assert(rows_view(final(v)@) =~= rows_view(old(v)@) + desc_rows(e@, m));
    }
}

fn push_tags(v: &mut Vec<PreviewRow>, e: &crate::model::ScriptEntry, m: Option<MatchField>)
    ensures
        rows_view(final(v)@) == rows_view(old(v)@) + tag_rows(e@, m),
{
    if e.meta.tags.len() > 0 {
        let j = join_strings(&e.meta.tags, ", ");
        push_row(v, field("tags", string_of(&j), Some(MatchField::Tags), m));
    }
    proof {
        assert(rows_view(final(v)@) =~= rows_view(old(v)@) + tag_rows(e@, m));
    }
}

fn push_risk(v: &mut Vec<PreviewRow>, e: &crate::model::ScriptEntry)
    ensures
        rows_view(final(v)@) == rows_view(old(v)@) + risk_rows(e@),
{
    match risk_tag(&e.meta.tags) {
        Some(t) => {
            let mut line = chars_of("  risk: ");
            append_lit(&mut line, t.as_str());
            push_row(v, PreviewRow::Risk(string_of(&line)));
        },
        None => {},
    }
    proof {
        assert(rows_view(final(v)@) =~= rows_view(old(v)@) + risk_rows(e@));
    }
}

fn push_usage(v: &mut Vec<PreviewRow>, e: &crate::model::ScriptEntry, m: Option<MatchField>)
    ensures
        rows_view(final(v)@) == rows_view(old(v)@) + usage_rows(e@, m),
{
    let ghost a = rows_view(v@);
    match &e.meta.usage {
        Some(u) => push_row(v, field("usage", u.clone(), None, m)),
        None => {},
    }
    match &e.meta.category {
        Some(c) => push_row(v, field("category", c.clone(), None, m)),
        None => {},
    }
    proof {
        assert(rows_view(final(v)@) =~= a + usage_rows(e@, m));
    }
}

fn meta_rows(e: &crate::model::ScriptEntry, m: Option<MatchField>) -> (v: Vec<PreviewRow>)
    ensures
        rows_view(v@) == meta_rows_of(e@, m),
{
    let mut v: Vec<PreviewRow> = Vec::new();
    push_row(&mut v, field("name", e.display_name().to_string(), Some(MatchField::Name), m));
    proof {
        assert(rows_view(v@) =~= seq![field_row("name"@, display_name_of(e@), Some(MatchField::Name), m)]);
    }
    push_desc(&mut v, e, m);
    push_tags(&mut v, e, m);
    push_risk(&mut v, e);
    push_usage(&mut v, e, m);
    let ghost a = rows_view(v@);
    push_row(&mut v, field("lang", e.lang.label().to_string(), None, m));
    push_row(&mut v, field("path", e.path.clone(), Some(MatchField::Filename), m));
    proof {
        assert(rows_view(v@) =~= a + seq![
            field_row("lang"@, label_of(e@.lang), None, m),
            field_row("path"@, e@.path, Some(MatchField::Filename), m),
        ]);
    }
    v
}

/// The preview rows of a selected result (see [`preview_rows_of`]); the
/// matched field is emphasized only while `query` is not blank.
pub fn preview_rows(
    r: &SearchResult,
    query: &str,
    recency: Option<&str>,
    note: Option<&str>,
    last_out: Option<&str>,
) -> (rows: Vec<PreviewRow>)
    ensures
        rows_view(rows@) == preview_rows_of(
            r@.entry,
            preview_match(query@, r.matched_field),
            opt_str(recency),
            opt_str(note),
            opt_str(last_out),
        ),
{
    let m = if trim_str(query).len() == 0 {
        None
    } else {
        Some(r.matched_field)
    };
    let mut v = meta_rows(&r.entry, m);
    annotate(&mut v, "  last: ", recency, false);
    annotate(&mut v, "  note: ", note, true);
    annotate(&mut v, "  out: ", last_out, true);
    v
}

// ---------------------------------------------------------------------------
// A result row
// ---------------------------------------------------------------------------

/// The parts of one row of the results list, left to right.
#[derive(Debug, Clone, PartialEq, Eq)]
pub struct RowParts {
    /// The selection rail.
    pub selected: bool,
    /// The favorite star.
    pub favorite: bool,
    /// The display name in runs, matched characters emphasized.
    pub name: Vec<(String, bool)>,
    /// `·<field>`, the field that matched, while a query is typed.
    pub badge: Option<String>,
    /// `[a, b]`, the tags, when there are any.
    pub tags: Option<String>,
    /// `[risk:…]`, the risk tag, when there is one.
    pub risk: Option<String>,
    /// The run-history hint, when the script was run before.
    pub hint: Option<String>,
}

/// The badge of a row: the matched field's label while a query is typed.
pub open spec fn badge_of(query: Seq<char>, f: MatchField) -> Option<Seq<char>> {
    if trim(query).len() > 0 {
        Some("·"@ + match_label_of(f))
    } else {
        None
    }
}

/// The bracketed tag list of a row, when there are tags.
pub open spec fn tags_cell_of(tags: Seq<Seq<char>>) -> Option<Seq<char>> {
    if tags.len() > 0 {
        Some("["@ + join(tags, ", "@) + "]"@)
    } else {
        None
    }
}

/// The bracketed risk tag of a row, when there is one.
pub open spec fn risk_cell_of(tags: Seq<Seq<char>>) -> Option<Seq<char>> {
    match risk_tag_from(tags, 0) {
        Some(t) => Some("["@ + t + "]"@),
        None => None,
    }
}

/// The parts of a result's row in the list: the rail and star as given, the
/// name's highlighted runs, the badge while `query` is not blank, the tags,
/// the risk tag, and the run hint as given.
pub fn row_parts(r: &SearchResult, query: &str, favorite: bool, selected: bool, hint: Option<String>) -> (p: RowParts)
    ensures
        p.selected == selected,
        p.favorite == favorite,
        runs_view(p.name@) == highlight_runs_of(display_name_of(r@.entry), name_indices_of(r@)),
        opt_view(p.badge) == badge_of(query@, r.matched_field),
        opt_view(p.tags) == tags_cell_of(r@.entry.meta.tags),
        opt_view(p.risk) == risk_cell_of(r@.entry.meta.tags),
        p.hint == hint,
{
    let name = highlight_runs(r.entry.display_name(), name_indices(r));
    let badge = if trim_str(query).len() > 0 {
        let mut v = chars_of("·");
        append_lit(&mut v, match_label(r.matched_field));
        Some(string_of(&v))
    } else {
        None
    };
    let tags = if r.entry.meta.tags.len() > 0 {
        let mut v = chars_of("[");
        let j = join_strings(&r.entry.meta.tags, ", ");
        append(&mut v, &j);
        append_lit(&mut v, "]");
        Some(string_of(&v))
    } else {
        None
    };
    let risk = match risk_tag(&r.entry.meta.tags) {
        Some(t) => {
            let mut v = chars_of("[");
            append_lit(&mut v, t.as_str());
            append_lit(&mut v, "]");
            Some(string_of(&v))
        },
        None => None,
    };
    RowParts { selected, favorite, name, badge, tags, risk, hint }
}

} // verus!
