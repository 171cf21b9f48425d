//! Turn a candidate (its path, its text if readable, its sidecar metadata if a
//! usable one exists) into a fully resolved [`ScriptEntry`].

use vstd::prelude::*;
use crate::header::{header_meta, normalize_tags, normalized_tags, parse_header};
use crate::lang::{leader_language, leader_language_spec, resolve_language, resolved_language};
use crate::model::{entries_view, MetaSource, MetaView, ScriptEntry, ScriptMetadata, EntryView};
use crate::path::{file_name, file_name_of};
use crate::sidecar::{merge, merged};
use crate::text::{
    append, append_lit, chars_of, chars_of_string, lines, lines_of, opt_view, string_of,
    strs_view, trim, trim_chars, vecs_view,
};

verus! {

/// Whether a metadata view carries any field at all.
pub open spec fn has_any_spec(m: MetaView) -> bool {
    m.name is Some || m.desc is Some || m.usage is Some || m.category is Some || m.lang is Some
        || m.risk is Some || m.owner is Some || m.tags.len() > 0
}

/// Provenance from which sources contributed any field.
pub open spec fn source_of(header: MetaView, side: Option<MetaView>) -> MetaSource {
    let h = has_any_spec(header);
    let s = match side {
        Some(m) => has_any_spec(m),
        None => false,
    };
    if h && s {
        MetaSource::Both
    } else if h {
        MetaSource::Header
    } else if s {
        MetaSource::Sidecar
    } else {
        MetaSource::Unannotated
    }
}

/// `prefix:value` with the value trimmed, or nothing for an absent or blank value.
pub open spec fn field_tag(prefix: Seq<char>, value: Option<Seq<char>>) -> Option<Seq<char>> {
    match value {
        Some(v) => if trim(v).len() == 0 {
            None
        } else {
            Some(prefix + seq![':'] + trim(v))
        },
        None => None,
    }
}

/// Tags with the risk and owner fields appended as `risk:<v>` / `owner:<v>`.
pub open spec fn with_field_tags(m: MetaView) -> Seq<Seq<char>> {
    let t1 = match field_tag("risk"@, m.risk) {
        Some(t) => m.tags.push(t),
        None => m.tags,
    };
    match field_tag("owner"@, m.owner) {
        Some(t) => t1.push(t),
        None => t1,
    }
}

/// The first line of a text, or the empty text.
pub open spec fn first_line_of(contents: Seq<char>) -> Seq<char> {
    if lines(contents).len() > 0 {
        lines(contents)[0]
    } else {
        seq![]
    }
}

/// The final metadata of an entry built from `contents` and an optional sidecar.
pub open spec fn entry_meta(path: Seq<char>, contents: Seq<char>, side: Option<MetaView>) -> MetaView {
    let leader = leader_language_spec(path, first_line_of(contents));
    let header = header_meta(contents, leader);
    let m = match side {
        Some(s) => merged(header, s),
        None => header,
    };
    MetaView { tags: normalized_tags(with_field_tags(m)), ..m }
}

/// The entry built from a path, its text and its optional sidecar metadata.
pub open spec fn entry_spec(path: Seq<char>, contents: Seq<char>, side: Option<MetaView>) -> EntryView {
    let leader = leader_language_spec(path, first_line_of(contents));
    let header = header_meta(contents, leader);
    let meta = entry_meta(path, contents, side);
    EntryView {
        path,
        filename: match file_name_of(path) {
            Some(n) => n,
            None => seq![],
        },
        lang: resolved_language(leader, meta.lang),
        meta,
        source: source_of(header, side),
    }
}

/// True if this metadata carries any field at all.
pub fn has_any(meta: &ScriptMetadata) -> (r: bool)
    ensures
        r == has_any_spec(meta@),
{
    meta.name.is_some() || meta.desc.is_some() || meta.usage.is_some() || meta.category.is_some()
        || meta.lang.is_some() || meta.risk.is_some() || meta.owner.is_some() || meta.tags.len()
        > 0
}

/// Decide where metadata came from, from whether each source contributed any field.
pub fn resolve_source(header: &ScriptMetadata, sidecar: Option<&ScriptMetadata>) -> (r: MetaSource)
    ensures
        r == source_of(
            header@,
            match sidecar {
                Some(m) => Some(m@),
                None => None,
            },
        ),
{
    let has_header = has_any(header);
    let has_sidecar = match sidecar {
        Some(m) => has_any(m),
        None => false,
    };
    if has_header && has_sidecar {
        MetaSource::Both
    } else if has_header {
        MetaSource::Header
    } else if has_sidecar {
        MetaSource::Sidecar
    } else {
        MetaSource::Unannotated
    }
}

/// Build `prefix:value`, trimming the value and dropping an empty one.
pub fn normalized_field_tag(prefix: &str, value: Option<&str>) -> (r: Option<String>)
    ensures
        opt_view(r) == field_tag(
            prefix@,
            match value {
                Some(v) => Some(v@),
                None => None,
            },
        ),
{
    let v = match value {
        Some(v) => v,
        None => {
            return None;
        },
    };
    let t = crate::text::trim_str(v);
    if t.len() == 0 {
        None
    } else {
        let mut out = chars_of(prefix);
        out.push(':');
        append(&mut out, &t);
        Some(string_of(&out))
    }
}

fn opt_as_str(s: &Option<String>) -> (r: Option<&str>)
    ensures
        match r {
            Some(x) => opt_view(*s) == Some(x@),
            None => s is None,
        },
{
    match s {
        Some(x) => Some(x.as_str()),
        None => None,
    }
}

/// Append the risk and owner fields as canonical `risk:`/`owner:` tags.
fn append_structured_metadata_tags(meta: &mut ScriptMetadata)
    ensures
        final(meta)@ == (MetaView { tags: with_field_tags(old(meta)@), ..old(meta)@ }),
{
    let risk = normalized_field_tag("risk", opt_as_str(&meta.risk));
    if let Some(r) = risk {
        meta.tags.push(r);
    }
    let owner = normalized_field_tag("owner", opt_as_str(&meta.owner));
    if let Some(o) = owner {
        meta.tags.push(o);
    }
    proof {
        assert(strs_view(meta.tags@) =~= with_field_tags(old(meta)@));
    }
}

/// Build an entry from a path, the file's text, and the sidecar metadata (if a
/// usable sidecar exists).
pub fn build_entry(path: &str, contents: &str, sidecar: Option<ScriptMetadata>) -> (e: ScriptEntry)
    ensures
        e@ == entry_spec(
            path@,
            contents@,
            match sidecar {
                Some(m) => Some(m@),
                None => None,
            },
        ),
{
    let text = chars_of(contents);
    let ls = lines_of(&text);
    let first: Vec<char> = if ls.len() > 0 {
        proof {
            assert(vecs_view(ls@)[0] == ls@[0]@);
        }
        crate::text::slice(&ls[0], 0, ls[0].len())
    } else {
        Vec::new()
    };
    proof {
        assert(first@ =~= first_line_of(contents@));
    }
    let first_s = string_of(&first);
    let leader_lang = leader_language(path, first_s.as_str());
    let header_meta = parse_header(contents, leader_lang);
    let source = resolve_source(&header_meta, sidecar.as_ref());
    let mut meta = match sidecar {
        Some(side) => merge(header_meta, side),
        None => header_meta,
    };
    append_structured_metadata_tags(&mut meta);
    let mut tags: Vec<String> = Vec::new();
    std::mem::swap(&mut tags, &mut meta.tags);
    meta.tags = normalize_tags(tags);
    let resolved_lang = resolve_language(leader_lang, opt_as_str(&meta.lang));
    let pv = chars_of(path);
    let filename = match file_name(&pv) {
        Some(n) => string_of(&n),
        None => String::new(),
    };
    ScriptEntry { path: string_of(&pv), filename, lang: resolved_lang, meta, source }
}

/// One scan candidate: its path, its text when readable as UTF-8, and its
/// sidecar metadata when a usable sidecar exists.
pub struct Candidate {
    pub path: String,
    pub contents: Option<String>,
    pub sidecar: Option<ScriptMetadata>,
}

/// The view of one candidate.
pub open spec fn candidate_view(c: Candidate) -> (Seq<char>, Option<Seq<char>>, Option<MetaView>) {
    (c.path@, opt_view(c.contents), match c.sidecar {
        Some(m) => Some(m@),
        None => None,
    })
}

/// Entries for every readable candidate, in order; unreadable ones are dropped.
pub open spec fn entries_of(cs: Seq<(Seq<char>, Option<Seq<char>>, Option<MetaView>)>) -> Seq<EntryView>
    decreases cs.len(),
{
    if cs.len() == 0 {
        seq![]
    } else {
        let prev = entries_of(cs.drop_last());
        let c = cs.last();
        match c.1 {
            Some(text) => prev.push(entry_spec(c.0, text, c.2)),
            None => prev,
        }
    }
}


/// Parse many candidates, keeping only readable ones: a candidate whose text
/// could not be read is dropped, every readable one becomes an entry.
pub fn parse_all(candidates: Vec<Candidate>) -> (out: Vec<ScriptEntry>)
    ensures
        entries_view(out@) == entries_of(candidates@.map_values(|c: Candidate| candidate_view(c))),
{
    let ghost cs = candidates@.map_values(|c: Candidate| candidate_view(c));
    let mut out: Vec<ScriptEntry> = Vec::new();
    let mut rest = candidates;
    let mut taken: Vec<Candidate> = Vec::new();
    let mut i: usize = 0;
    let n = rest.len();
    while i < n
        invariant
            n == cs.len(),
            i <= n,
            cs == candidates@.map_values(|c: Candidate| candidate_view(c)),
            rest@ == candidates@,
            entries_view(out@) == entries_of(cs.take(i as int)),
        decreases n - i,
    {
        proof {
            assert(cs.take(i + 1).drop_last() =~= cs.take(i as int));
            assert(cs.take(i + 1).last() == candidate_view(rest@[i as int]));
        }
        let c = &rest[i];
        match &c.contents {
            Some(text) => {
                let side = match &c.sidecar {
                    Some(m) => Some(m.duplicate()),
                    None => None,
                };
                let e = build_entry(c.path.as_str(), text.as_str(), side);
                let ghost before = out@;
                out.push(e);
                proof {
                    assert(entries_view(out@) =~= entries_view(before).push(e@));
                }
            },
            None => {},
        }
        i += 1;
    }
    proof {
        assert(cs.take(n as int) =~= cs);
    }
    out
}

} // verus!
