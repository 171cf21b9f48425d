//! The small, stable export shape of a search result (name, lang, path, tags,
//! desc — no search internals) and its CSV rendering. JSON rendering of the
//! same rows is done by the caller.

use vstd::prelude::*;
use crate::model::{display_name_of, label_of, results_view, EntryView, ResultView, SearchResult};
use crate::text::{append, append_lit, chars_of, chars_of_string, copy_strings, join, join_strings, string_of, strs_view};

verus! {

/// One exported script: the user-facing fields, flattened.
#[derive(Debug, Clone, PartialEq, Eq)]
pub struct ExportRow {
    pub name: String,
    pub lang: String,
    pub path: String,
    pub tags: Vec<String>,
    pub desc: String,
}

impl ExportRow {
    /// The export row of a result: display name, language label, path, tags,
    /// and the description (empty when absent).
    pub fn from_result(r: &SearchResult) -> (row: Self)
        ensures
            row.name@ == display_name_of(r@.entry),
            row.lang@ == label_of(r@.entry.lang),
            row.path@ == r@.entry.path,
            strs_view(row.tags@) == r@.entry.meta.tags,
            row.desc@ == match r@.entry.meta.desc {
                Some(d) => d,
                None => seq![],
            },
    {
        ExportRow {
            name: r.entry.display_name().to_string(),
            lang: r.entry.lang.label().to_string(),
            path: crate::text::copy_string(&r.entry.path),
            tags: copy_strings(&r.entry.meta.tags),
            desc: match &r.entry.meta.desc {
                Some(d) => crate::text::copy_string(d),
                None => String::new(),
            },
        }
    }
}

/// A CSV field per RFC 4180: always quoted, interior quotes doubled.
pub open spec fn csv_quoted(s: Seq<char>) -> Seq<char> {
    seq!['"'] + doubled_quotes(s) + seq!['"']
}

/// Every `"` doubled.
pub open spec fn doubled_quotes(s: Seq<char>) -> Seq<char>
    decreases s.len(),
{
    if s.len() == 0 {
        seq![]
    } else {
        doubled_quotes(s.drop_last()) + if s.last() == '"' {
            seq!['"', '"']
        } else {
            seq![s.last()]
        }
    }
}

/// Append a quoted CSV field.
pub fn csv_field(out: &mut Vec<char>, value: &Vec<char>)
    ensures
        final(out)@ == old(out)@ + csv_quoted(value@),
{
    let ghost start = out@;
    out.push('"');
    let mut i: usize = 0;
    while i < value.len()
        invariant
            i <= value.len(),
            out@ == start + seq!['"'] + doubled_quotes(value@.take(i as int)),
        decreases value.len() - i,
    {
        let c = value[i];
        if c == '"' {
            out.push('"');
        }
        out.push(c);
        proof {
            assert(value@.take(i + 1).drop_last() =~= value@.take(i as int));
            assert(out@ =~= start + seq!['"'] + doubled_quotes(value@.take(i + 1)));
        }
        i += 1;
    }
    out.push('"');
    proof {
        assert(value@.take(value.len() as int) =~= value@);
        assert(out@ =~= start + csv_quoted(value@));
    }
}

/// One CSV line of a result: its five fields quoted, tags joined by `;`.
pub open spec fn csv_line(e: EntryView) -> Seq<char> {
    csv_quoted(display_name_of(e)) + ","@ + csv_quoted(label_of(e.lang)) + ","@ + csv_quoted(e.path) + ","@
        + csv_quoted(join(e.meta.tags, ";"@)) + ","@ + csv_quoted(
        match e.meta.desc {
            Some(d) => d,
            None => seq![],
        },
    ) + "\n"@
}

/// The CSV lines of results.
pub open spec fn csv_lines(rs: Seq<ResultView>) -> Seq<char>
    decreases rs.len(),
{
    if rs.len() == 0 {
        seq![]
    } else {
        csv_lines(rs.drop_last()) + csv_line(rs.last().entry)
    }
}

/// Results as CSV: a header row then one line per result.
pub fn to_csv(results: &[SearchResult]) -> (out: String)
    ensures
        out@ == "name,lang,path,tags,desc\n"@ + csv_lines(results_view(results@)),
{
    let ghost rs = results_view(results@);
    let mut v = chars_of("name,lang,path,tags,desc\n");
    let ghost head = v@;
    let mut i: usize = 0;
    while i < results.len()
        invariant
            i <= results.len(),
            rs == results_view(results@),
            v@ == head + csv_lines(rs.take(i as int)),
        decreases results.len() - i,
    {
        let row = ExportRow::from_result(&results[i]);
        let ghost before = v@;
        csv_field(&mut v, &chars_of_string(&row.name));
        append_lit(&mut v, ",");
        csv_field(&mut v, &chars_of_string(&row.lang));
        append_lit(&mut v, ",");
        csv_field(&mut v, &chars_of_string(&row.path));
        append_lit(&mut v, ",");
        let tags = join_strings(&row.tags, ";");
        csv_field(&mut v, &tags);
        append_lit(&mut v, ",");
        csv_field(&mut v, &chars_of_string(&row.desc));
        append_lit(&mut v, "\n");
        proof {
            assert(rs.take(i + 1).drop_last() =~= rs.take(i as int));
            assert(rs.take(i + 1).last() == results@[i as int]@);
            assert(v@ =~= before + csv_line(results@[i as int]@.entry));
        }
        i += 1;
    }
    proof {
        assert(rs.take(results.len() as int) =~= rs);
    }
    string_of(&v)
}

} // verus!
