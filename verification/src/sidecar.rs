//! Sidecar metadata: where a script's `<file>.scriptvault.yaml` lives, and how
//! its values merge with the inline header (the sidecar wins).

use vstd::prelude::*;
use crate::model::{MetaView, ScriptMetadata};
use crate::text::{chars_of, opt_view, string_of};

verus! {

/// The suffix appended to a script path to find its sidecar.
pub const SIDECAR_SUFFIX: &'static str = ".scriptvault.yaml";

/// The sidecar path of a script: the suffix appended to the full path.
pub fn sidecar_path(script: &str) -> (out: String)
    ensures
        out@ == script@ + SIDECAR_SUFFIX@,
{
    let mut v = chars_of(script);
    crate::text::append_lit(&mut v, SIDECAR_SUFFIX);
    string_of(&v)
}

/// `sidecar.or(header)` on one field.
pub open spec fn prefer(side: Option<Seq<char>>, head: Option<Seq<char>>) -> Option<Seq<char>> {
    match side {
        Some(v) => Some(v),
        None => head,
    }
}

/// The merged view: each optional field from the sidecar when set, else from the
/// header; the sidecar's tags only when it has any.
pub open spec fn merged(header: MetaView, side: MetaView) -> MetaView {
    MetaView {
        name: prefer(side.name, header.name),
        desc: prefer(side.desc, header.desc),
        usage: prefer(side.usage, header.usage),
        category: prefer(side.category, header.category),
        lang: prefer(side.lang, header.lang),
        risk: prefer(side.risk, header.risk),
        owner: prefer(side.owner, header.owner),
        tags: if side.tags.len() > 0 {
            side.tags
        } else {
            header.tags
        },
    }
}

/// A sidecar that sets nothing leaves the header's metadata as it is, and a
/// sidecar without tags never wipes the header's tags.
pub proof fn lemma_empty_sidecar_is_neutral(header: MetaView, side: MetaView)
    ensures
        side.tags.len() == 0 ==> merged(header, side).tags == header.tags,
        side.name is None && side.desc is None && side.usage is None && side.category is None && side.lang is None
            && side.risk is None && side.owner is None && side.tags.len() == 0 ==> merged(header, side) == header,
{
}

fn or_string(side: Option<String>, head: Option<String>) -> (r: Option<String>)
    ensures
        opt_view(r) == prefer(opt_view(side), opt_view(head)),
{
    match side {
        Some(v) => Some(v),
        None => head,
    }
}

/// Merge header metadata with sidecar metadata; the sidecar wins on conflict,
/// and its tags replace the header's only when it has any.
pub fn merge(header: ScriptMetadata, sidecar: ScriptMetadata) -> (m: ScriptMetadata)
    ensures
        m@ == merged(header@, sidecar@),
{
    let tags = if sidecar.tags.len() > 0 {
        sidecar.tags
    } else {
        header.tags
    };
    ScriptMetadata {
        name: or_string(sidecar.name, header.name),
        desc: or_string(sidecar.desc, header.desc),
        usage: or_string(sidecar.usage, header.usage),
        category: or_string(sidecar.category, header.category),
        lang: or_string(sidecar.lang, header.lang),
        risk: or_string(sidecar.risk, header.risk),
        owner: or_string(sidecar.owner, header.owner),
        tags,
    }
}

} // verus!
