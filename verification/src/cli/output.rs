//! The aligned results table of `search`: column widths from the content,
//! capped per column, then shrunk to the terminal (summary first, then path,
//! then name); cells truncated with `…`; the MATCH cell optionally coloured.

use vstd::prelude::*;
use crate::cli::{match_label, match_label_of};
use crate::model::{display_name_of, label_of, results_view, EntryView, ResultView, SearchResult};
use crate::text::{
    append, append_lit, chars_of, chars_of_string, eq_lit, join, join_strings, slice, string_of, trim,
    trim_chars,
};

verus! {

/// Whether ANSI colour is used.
#[derive(Debug, Clone, Copy, PartialEq, Eq, Structural)]
pub struct ColorChoice {
    pub enabled: bool,
}

impl ColorChoice {
    /// Colour only on a terminal, and only when `NO_COLOR` is not set to a
    /// non-empty value.
    pub fn from_stdout(stdout_is_terminal: bool, no_color: bool) -> (c: Self)
        ensures
            c.enabled == (stdout_is_terminal && !no_color),
    {
        ColorChoice { enabled: stdout_is_terminal && !no_color }
    }

    /// An explicit choice.
    pub fn enabled(enabled: bool) -> (c: Self)
        ensures
            c.enabled == enabled,
    {
        ColorChoice { enabled }
    }
}

/// Column widths, in characters.
#[derive(Debug, Clone, Copy, PartialEq, Eq, Structural)]
pub struct Widths {
    pub name: usize,
    pub lang: usize,
    pub matched: usize,
    pub path: usize,
    pub summary: usize,
}

pub const MAX_NAME: usize = 28;
pub const MAX_LANG: usize = 7;
pub const MAX_MATCH: usize = 5;
pub const MAX_PATH: usize = 48;
pub const MAX_SUMMARY: usize = 56;
pub const MIN_NAME: usize = 12;
pub const MIN_PATH: usize = 18;
pub const MIN_SUMMARY: usize = 0;

/// Every column within its cap.
pub open spec fn within_caps(w: Widths) -> bool {
    w.name <= MAX_NAME && w.lang <= MAX_LANG && w.matched <= MAX_MATCH && w.path <= MAX_PATH && w.summary
        <= MAX_SUMMARY
}

/// The table's width: the columns, the single spaces between the first four,
/// and two spaces before a summary column.
pub open spec fn table_width_of(w: Widths) -> int {
    w.name + w.lang + w.matched + w.path + w.summary + 3 + if w.summary > 0 {
        2int
    } else {
        0int
    }
}

/// The table's width (see [`table_width_of`]).
pub fn table_width(w: Widths) -> (r: usize)
    requires
        within_caps(w),
    ensures
        r == table_width_of(w),
{
    let gap: usize = if w.summary > 0 {
        2
    } else {
        0
    };
    w.name + w.lang + w.matched + w.path + w.summary + 3 + gap
}

/// Shrink to fit `target`: one character at a time from the summary, then the
/// path (down to its minimum), then the name (down to its minimum); stop when
/// the table fits or nothing can shrink.
pub open spec fn fitted(w: Widths, target: int) -> Widths
    decreases w.summary + w.path + w.name,
{
    if table_width_of(w) <= target {
        w
    } else if w.summary > MIN_SUMMARY {
        fitted(Widths { summary: (w.summary - 1) as usize, ..w }, target)
    } else if w.path > MIN_PATH {
        fitted(Widths { path: (w.path - 1) as usize, ..w }, target)
    } else if w.name > MIN_NAME {
        fitted(Widths { name: (w.name - 1) as usize, ..w }, target)
    } else {
        w
    }
}

/// Shrinking never leaves the table wider than the target unless no column
/// can shrink further.
pub proof fn lemma_fitted_fits(w: Widths, target: int)
    ensures
        table_width_of(fitted(w, target)) <= target || (fitted(w, target).summary == 0 && fitted(w, target).path
            <= MIN_PATH && fitted(w, target).name <= MIN_NAME),
        within_caps(w) ==> within_caps(fitted(w, target)),
    decreases w.summary + w.path + w.name,
{
    if table_width_of(w) <= target {
    } else if w.summary > MIN_SUMMARY {
        lemma_fitted_fits(Widths { summary: (w.summary - 1) as usize, ..w }, target);
    } else if w.path > MIN_PATH {
        lemma_fitted_fits(Widths { path: (w.path - 1) as usize, ..w }, target);
    } else if w.name > MIN_NAME {
        lemma_fitted_fits(Widths { name: (w.name - 1) as usize, ..w }, target);
    }
}

/// Shrink the widths to the terminal, when its width is known.
pub fn fit_widths_to_terminal(w: Widths, terminal_width: Option<usize>) -> (r: Widths)
    requires
        within_caps(w),
    ensures
        r == match terminal_width {
            Some(t) => fitted(w, t as int),
            None => w,
        },
{
    let target = match terminal_width {
        Some(t) => t,
        None => return w,
    };
    let mut cur = w;
    while table_width(cur) > target && (cur.summary > MIN_SUMMARY || cur.path > MIN_PATH || cur.name > MIN_NAME)
        invariant
            within_caps(cur),
            fitted(cur, target as int) == fitted(w, target as int),
        decreases cur.summary + cur.path + cur.name,
    {
        if cur.summary > MIN_SUMMARY {
            cur = Widths { summary: cur.summary - 1, ..cur };
        } else if cur.path > MIN_PATH {
            cur = Widths { path: cur.path - 1, ..cur };
        } else {
            cur = Widths { name: cur.name - 1, ..cur };
        }
    }
    cur
}

// ---------------------------------------------------------------------------
// Cells
// ---------------------------------------------------------------------------

/// `n` spaces.
pub open spec fn spaces(n: nat) -> Seq<char> {
    Seq::new(n, |i: int| ' ')
}

/// A text padded with spaces on the right to `w` characters (never cut), as
/// `{:<w$}` formats it.
pub open spec fn padded(s: Seq<char>, w: nat) -> Seq<char> {
    if s.len() >= w {
        s
    } else {
        s + spaces((w - s.len()) as nat)
    }
}

/// A text cut to at most `w` characters, the last one replaced by `…` when
/// cut.
pub open spec fn truncated(s: Seq<char>, w: nat) -> Seq<char> {
    if w == 0 {
        seq![]
    } else if s.len() <= w {
        s
    } else if w == 1 {
        seq!['…']
    } else {
        s.take(w - 1).push('…')
    }
}

/// Pad a text to `w` characters (see [`padded`]).
pub fn pad_right(value: &Vec<char>, width: usize) -> (out: Vec<char>)
    ensures
        out@ == padded(value@, width as nat),
{
    let mut out = slice(value, 0, value.len());
    proof {
        assert(out@ =~= value@);
    }
    if value.len() >= width {
        return out;
    }
    let mut i = value.len();
    while i < width
        invariant
            value.len() <= i <= width,
            out@ == value@ + spaces((i - value.len()) as nat),
        decreases width - i,
    {
        out.push(' ');
        proof {
            assert(out@ =~= value@ + spaces((i + 1 - value.len()) as nat));
        }
        i += 1;
    }
    out
}

/// Cut a text to `w` characters (see [`truncated`]).
pub fn truncate(value: &Vec<char>, width: usize) -> (out: Vec<char>)
    ensures
        out@ == truncated(value@, width as nat),
{
    if width == 0 {
        return Vec::new();
    }
    if value.len() <= width {
        return slice(value, 0, value.len());
    }
    if width == 1 {
        let mut out = Vec::new();
        out.push('…');
        return out;
    }
    let mut out = slice(value, 0, width - 1);
    out.push('…');
    out
}

/// The summary cell: the description and the bracketed, comma-separated tags.
pub open spec fn summary_of(e: EntryView) -> Seq<char> {
    let desc = match e.meta.desc {
        Some(d) => d,
        None => seq![],
    };
    let tags = if e.meta.tags.len() == 0 {
        seq![]
    } else {
        "["@ + join(e.meta.tags, ", "@) + "]"@
    };
    if desc.len() == 0 && tags.len() == 0 {
        seq![]
    } else if tags.len() == 0 {
        desc
    } else if desc.len() == 0 {
        tags
    } else {
        desc + " "@ + tags
    }
}

/// The summary cell of a result.
pub fn summary(r: &SearchResult) -> (out: Vec<char>)
    ensures
        out@ == summary_of(r@.entry),
{
    let desc: Vec<char> = match &r.entry.meta.desc {
        Some(d) => chars_of_string(d),
        None => Vec::new(),
    };
    let mut tags: Vec<char> = Vec::new();
    if r.entry.meta.tags.len() > 0 {
        tags = chars_of("[");
        let j = join_strings(&r.entry.meta.tags, ", ");
        append(&mut tags, &j);
        append_lit(&mut tags, "]");
    }
    if desc.len() == 0 && tags.len() == 0 {
        Vec::new()
    } else if tags.len() == 0 {
        desc
    } else if desc.len() == 0 {
        tags
    } else {
        let mut out = desc;
        out.push(' ');
        append(&mut out, &tags);
        proof {
            reveal_strlit(" ");
            assert(out@ =~= summary_of(r@.entry));
        }
        out
    }
}

/// The MATCH cell: `all` for an unscored, unhighlighted result (a blank
/// query), else the matched field's label.
pub open spec fn match_cell(r: ResultView) -> Seq<char> {
    if r.score == 0 && r.matched_indices.len() == 0 {
        "all"@
    } else {
        match_label_of(r.matched_field)
    }
}

/// The MATCH cell of a result.
pub fn result_match_label(r: &SearchResult) -> (out: &'static str)
    ensures
        out@ == match_cell(r@),
{
    if r.score == 0 && r.matched_indices.len() == 0 {
        "all"
    } else {
        match_label(r.matched_field)
    }
}

/// The ANSI colour of a MATCH cell by its trimmed label, when colour is on.
pub open spec fn colored(value: Seq<char>, enabled: bool) -> Seq<char> {
    if !enabled {
        value
    } else {
        let t = trim(value);
        if t == "name"@ {
            "\x1b[32m"@ + value + "\x1b[0m"@
        } else if t == "tags"@ {
            "\x1b[36m"@ + value + "\x1b[0m"@
        } else if t == "desc"@ {
            "\x1b[33m"@ + value + "\x1b[0m"@
        } else if t == "file"@ {
            "\x1b[35m"@ + value + "\x1b[0m"@
        } else {
            value
        }
    }
}

/// Colour a MATCH cell (see [`colored`]).
pub fn color_match(value: &Vec<char>, color: ColorChoice) -> (out: Vec<char>)
    ensures
        out@ == colored(value@, color.enabled),
{
    if !color.enabled {
        return slice(value, 0, value.len());
    }
    let t = trim_chars(value);
    let code = if eq_lit(&t, "name") {
        "\x1b[32m"
    } else if eq_lit(&t, "tags") {
        "\x1b[36m"
    } else if eq_lit(&t, "desc") {
        "\x1b[33m"
    } else if eq_lit(&t, "file") {
        "\x1b[35m"
    } else {
        return slice(value, 0, value.len());
    };
    let mut out = chars_of(code);
    append(&mut out, value);
    append_lit(&mut out, "\x1b[0m");
    out
}

// ---------------------------------------------------------------------------
// Rows and table
// ---------------------------------------------------------------------------

/// The header line.
pub open spec fn header_of(w: Widths) -> Seq<char> {
    padded("NAME"@, w.name as nat) + " "@ + padded("LANG"@, w.lang as nat) + " "@ + padded("MATCH"@, w.matched as nat)
        + " "@ + padded("PATH"@, w.path as nat) + if w.summary > 0 {
        "  "@ + padded("SUMMARY"@, w.summary as nat)
    } else {
        seq![]
    }
}

/// One result's line.
pub open spec fn row_of(r: ResultView, w: Widths, color: bool) -> Seq<char> {
    padded(truncated(display_name_of(r.entry), w.name as nat), w.name as nat) + " "@ + padded(
        truncated(label_of(r.entry.lang), w.lang as nat),
        w.lang as nat,
    ) + " "@ + colored(padded(match_cell(r), w.matched as nat), color) + " "@ + padded(
        truncated(r.entry.path, w.path as nat),
        w.path as nat,
    ) + if w.summary > 0 {
        "  "@ + padded(truncated(summary_of(r.entry), w.summary as nat), w.summary as nat)
    } else {
        seq![]
    }
}

fn push_cell(out: &mut Vec<char>, value: &Vec<char>, width: usize)
    ensures
        final(out)@ == old(out)@ + padded(truncated(value@, width as nat), width as nat),
{
    let t = truncate(value, width);
    let p = pad_right(&t, width);
    append(out, &p);
}

/// The header line (see [`header_of`]).
pub fn build_header(w: Widths) -> (out: String)
    ensures
        out@ == header_of(w),
{
    let mut v: Vec<char> = Vec::new();
    append(&mut v, &pad_right(&chars_of("NAME"), w.name));
    v.push(' ');
    append(&mut v, &pad_right(&chars_of("LANG"), w.lang));
    v.push(' ');
    append(&mut v, &pad_right(&chars_of("MATCH"), w.matched));
    v.push(' ');
    append(&mut v, &pad_right(&chars_of("PATH"), w.path));
    if w.summary > 0 {
        append_lit(&mut v, "  ");
        append(&mut v, &pad_right(&chars_of("SUMMARY"), w.summary));
    }
    proof {
        reveal_strlit(" ");
        assert(v@ =~= header_of(w));
    }
    string_of(&v)
}

/// One result's line (see [`row_of`]).
pub fn render_row(r: &SearchResult, w: Widths, color: ColorChoice) -> (out: String)
    ensures
        out@ == row_of(r@, w, color.enabled),
{
    let mut v: Vec<char> = Vec::new();
    push_cell(&mut v, &chars_of(r.entry.display_name()), w.name);
    v.push(' ');
    push_cell(&mut v, &chars_of(r.entry.lang.label()), w.lang);
    v.push(' ');
    let m = pad_right(&chars_of(result_match_label(r)), w.matched);
    append(&mut v, &color_match(&m, color));
    v.push(' ');
    push_cell(&mut v, &chars_of_string(&r.entry.path), w.path);
    if w.summary > 0 {
        append_lit(&mut v, "  ");
        push_cell(&mut v, &summary(r), w.summary);
    }
    proof {
        reveal_strlit(" ");
        assert(v@ =~= row_of(r@, w, color.enabled));
    }
    string_of(&v)
}

/// The widest of a text's length and `w`, capped.
fn wider(w: usize, s: &Vec<char>, cap: usize) -> (r: usize)
    requires
        w <= cap,
    ensures
        r == if s.len() > w {
            if s.len() < cap {
                s.len()
            } else {
                cap
            }
        } else {
            w
        },
{
    if s.len() > w {
        if s.len() < cap {
            s.len()
        } else {
            cap
        }
    } else {
        w
    }
}

/// The natural width of a column: the widest of its header and cells,
/// capped.
pub open spec fn column_width(head: nat, cells: Seq<nat>, cap: nat) -> nat
    decreases cells.len(),
{
    if cells.len() == 0 {
        if head < cap {
            head
        } else {
            cap
        }
    } else {
        let w = column_width(head, cells.drop_last(), cap);
        if cells.last() > w {
            if cells.last() < cap {
                cells.last()
            } else {
                cap
            }
        } else {
            w
        }
    }
}

/// The capped natural widths of the columns for these results.
pub open spec fn natural_widths(rs: Seq<ResultView>) -> Widths {
    Widths {
        name: column_width(4, rs.map_values(|r: ResultView| display_name_of(r.entry).len()), MAX_NAME as nat) as usize,
        lang: column_width(4, rs.map_values(|r: ResultView| label_of(r.entry.lang).len()), MAX_LANG as nat) as usize,
        matched: column_width(5, rs.map_values(|r: ResultView| match_cell(r).len()), MAX_MATCH as nat) as usize,
        path: column_width(4, rs.map_values(|r: ResultView| r.entry.path.len()), MAX_PATH as nat) as usize,
        summary: column_width(7, rs.map_values(|r: ResultView| summary_of(r.entry).len()), MAX_SUMMARY as nat) as usize,
    }
}

/// A column width never exceeds its cap.
proof fn lemma_column_width_capped(head: nat, cells: Seq<nat>, cap: nat)
    ensures
        column_width(head, cells, cap) <= cap,
    decreases cells.len(),
{
    if cells.len() > 0 {
        lemma_column_width_capped(head, cells.drop_last(), cap);
    }
}

/// Column widths for these results: the content's natural widths, capped,
/// then shrunk to the terminal width when it is known.
pub fn compute_widths(results: &[SearchResult], terminal_width: Option<usize>) -> (w: Widths)
    ensures
        w == (match terminal_width {
            Some(t) => fitted(natural_widths(results_view(results@)), t as int),
            None => natural_widths(results_view(results@)),
        }),
        within_caps(w),
{
    let ghost rs = results_view(results@);
    let mut w = Widths { name: 4, lang: 4, matched: 5, path: 4, summary: 7 };
    let mut i: usize = 0;
    while i < results.len()
        invariant
            i <= results.len(),
            rs == results_view(results@),
            within_caps(w),
            w.name == column_width(4, rs.take(i as int).map_values(|r: ResultView| display_name_of(r.entry).len()), MAX_NAME as nat),
            w.lang == column_width(4, rs.take(i as int).map_values(|r: ResultView| label_of(r.entry.lang).len()), MAX_LANG as nat),
            w.matched == column_width(5, rs.take(i as int).map_values(|r: ResultView| match_cell(r).len()), MAX_MATCH as nat),
            w.path == column_width(4, rs.take(i as int).map_values(|r: ResultView| r.entry.path.len()), MAX_PATH as nat),
            w.summary == column_width(7, rs.take(i as int).map_values(|r: ResultView| summary_of(r.entry).len()), MAX_SUMMARY as nat),
        decreases results.len() - i,
    {
        let r = &results[i];
        proof {
            assert(rs.take(i + 1).drop_last() =~= rs.take(i as int));
            assert(rs.take(i + 1).last() == r@);
            assert(rs.take(i + 1).map_values(|r: ResultView| display_name_of(r.entry).len()).drop_last() =~= rs.take(i as int).map_values(|r: ResultView| display_name_of(r.entry).len()));
            assert(rs.take(i + 1).map_values(|r: ResultView| label_of(r.entry.lang).len()).drop_last() =~= rs.take(i as int).map_values(|r: ResultView| label_of(r.entry.lang).len()));
            assert(rs.take(i + 1).map_values(|r: ResultView| match_cell(r).len()).drop_last() =~= rs.take(i as int).map_values(|r: ResultView| match_cell(r).len()));
            assert(rs.take(i + 1).map_values(|r: ResultView| r.entry.path.len()).drop_last() =~= rs.take(i as int).map_values(|r: ResultView| r.entry.path.len()));
            assert(rs.take(i + 1).map_values(|r: ResultView| summary_of(r.entry).len()).drop_last() =~= rs.take(i as int).map_values(|r: ResultView| summary_of(r.entry).len()));
        }
        let name = chars_of(r.entry.display_name());
        let lang = chars_of(r.entry.lang.label());
        let matched = chars_of(result_match_label(r));
        let path = chars_of_string(&r.entry.path);
        let sum = summary(r);
        w = Widths {
            name: wider(w.name, &name, MAX_NAME),
            lang: wider(w.lang, &lang, MAX_LANG),
            matched: wider(w.matched, &matched, MAX_MATCH),
            path: wider(w.path, &path, MAX_PATH),
            summary: wider(w.summary, &sum, MAX_SUMMARY),
        };
        i += 1;
    }
    proof {
        assert(rs.take(results.len() as int) =~= rs);
        match terminal_width {
            Some(t) => lemma_fitted_fits(w, t as int),
            None => {},
        }
    }
    fit_widths_to_terminal(w, terminal_width)
}

/// The horizontal rule under the header: `─` across the table's width.
pub open spec fn divider_of(n: nat) -> Seq<char> {
    Seq::new(n, |i: int| '─')
}

/// The rows of a table, each followed by a newline.
pub open spec fn rows_of(rs: Seq<ResultView>, w: Widths, color: bool) -> Seq<char>
    decreases rs.len(),
{
    if rs.len() == 0 {
        seq![]
    } else {
        rows_of(rs.drop_last(), w, color) + row_of(rs.last(), w, color) + seq!['\n']
    }
}

/// The whole table: nothing for no results; else the header, a rule, and a
/// line per result, widths as [`compute_widths`] gives them.
pub open spec fn table_of(rs: Seq<ResultView>, color: bool, terminal_width: Option<usize>) -> Seq<char> {
    if rs.len() == 0 {
        seq![]
    } else {
        let w = match terminal_width {
            Some(t) => fitted(natural_widths(rs), t as int),
            None => natural_widths(rs),
        };
        header_of(w) + seq!['\n'] + divider_of(table_width_of(w) as nat) + seq!['\n'] + rows_of(rs, w, color)
    }
}

/// Render the results table (see [`table_of`]). `terminal_width` is the
/// terminal's column count when known (the caller reads it from `COLUMNS`,
/// ignoring values under 50).
pub fn render_results_table(results: &[SearchResult], color: ColorChoice, terminal_width: Option<usize>) -> (out: String)
    ensures
        out@ == table_of(results_view(results@), color.enabled, terminal_width),
{
    if results.len() == 0 {
        return String::new();
    }
    let ghost rs = results_view(results@);
    let w = compute_widths(results, terminal_width);
    let mut v: Vec<char> = Vec::new();
    let h = build_header(w);
    append_lit(&mut v, h.as_str());
    v.push('\n');
    let tw = table_width(w);
    let ghost head = v@;
    let mut k: usize = 0;
    while k < tw
        invariant
            k <= tw,
            v@ == head + divider_of(k as nat),
        decreases tw - k,
    {
        v.push('─');
        proof {
            assert(v@ =~= head + divider_of((k + 1) as nat));
        }
        k += 1;
    }
    v.push('\n');
    let ghost top = v@;
    let mut i: usize = 0;
    while i < results.len()
        invariant
            i <= results.len(),
            rs == results_view(results@),
            v@ == top + rows_of(rs.take(i as int), w, color.enabled),
        decreases results.len() - i,
    {
        let row = render_row(&results[i], w, color);
        append_lit(&mut v, row.as_str());
        v.push('\n');
        proof {
            assert(rs.take(i + 1).drop_last() =~= rs.take(i as int));
            assert(rs.take(i + 1).last() == results@[i as int]@);
            assert(v@ =~= top + rows_of(rs.take(i + 1), w, color.enabled));
        }
        i += 1;
    }
    proof {
        assert(rs.take(results.len() as int) =~= rs);
        assert(v@ =~= table_of(rs, color.enabled, terminal_width));
    }
    string_of(&v)
}

} // verus!
