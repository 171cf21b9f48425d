//! What the directory walk decides: which names are ignored (glob patterns,
//! compiled once; a bad pattern is an error, never silently dropped), which
//! files are candidate scripts, and how overlapping roots are deduplicated.
//! The walk itself (reading directories) is done by the caller.

use vstd::prelude::*;
use globset::{Glob, GlobSet, GlobSetBuilder};
use crate::error::ScriptVaultError;
use crate::lang::{is_known_script_ext, path_extension_language};
use crate::sidecar::SIDECAR_SUFFIX;
use crate::text::{
    chars_of, copy_string, ends_with, has_suffix_lit, join, join_strings, string_of, strs_view, trim,
    trim_str,
};

verus! {

#[verifier::external_type_specification]
#[verifier::external_body]
pub struct ExGlob(Glob);

#[verifier::external_type_specification]
#[verifier::external_body]
pub struct ExGlobSet(GlobSet);

#[verifier::external_type_specification]
#[verifier::external_body]
pub struct ExGlobSetBuilder(GlobSetBuilder);

#[verifier::external_type_specification]
#[verifier::external_body]
pub struct ExGlobError(globset::Error);

/// Whether `globset::Glob::new` accepts a pattern (with default options).
pub uninterp spec fn glob_valid(pattern: Seq<char>) -> bool;

/// `globset::Glob::new`. Claimed: whether it succeeds depends on the pattern
/// text alone, and the glob built holds that text.
#[verifier::external_body]
fn compile_glob(pattern: &str) -> (r: Result<Glob, globset::Error>)
    ensures
        r is Ok == glob_valid(pattern@),
        r matches Ok(g) ==> glob_pattern(g) == pattern@,
{
    Glob::new(pattern)
}

/// What a compiled glob holds: the pattern text it was built from, as
/// `Glob::glob` returns it.
pub uninterp spec fn glob_pattern(g: Glob) -> Seq<char>;

/// What a set builder holds: the patterns of the globs added, in order.
pub uninterp spec fn builder_globs(b: GlobSetBuilder) -> Seq<Seq<char>>;

/// What a glob set holds: the patterns of the globs it was built from, in
/// order.
pub uninterp spec fn set_globs(s: GlobSet) -> Seq<Seq<char>>;

/// Whether a set of globs with these patterns (compiled with default
/// options) matches the path `name`, as `GlobSet::is_match` answers: true
/// when any of them matches.
pub uninterp spec fn globs_match(globs: Seq<Seq<char>>, name: Seq<char>) -> bool;

/// `globset::GlobSetBuilder::new`: a builder holding no globs.
#[verifier::external_body]
fn new_builder() -> (b: GlobSetBuilder)
    ensures
        builder_globs(b) == Seq::<Seq<char>>::empty(),
{
    GlobSetBuilder::new()
}

/// `globset::GlobSetBuilder::add`: appends the glob to the builder's list.
#[verifier::external_body]
fn add_glob(builder: &mut GlobSetBuilder, glob: Glob)
    ensures
        builder_globs(*final(builder)) == builder_globs(*old(builder)).push(glob_pattern(glob)),
{
    builder.add(glob);
}

/// Whether `GlobSet::new` manages to compile globs with these patterns
/// (default options) into one matcher.
pub uninterp spec fn globs_build(globs: Seq<Seq<char>>) -> bool;

/// `globset::GlobSetBuilder::build`: compiles the added globs into one
/// matcher holding them all. Whether it succeeds depends on the added
/// patterns alone (see [`globs_build`]).
#[verifier::external_body]
fn build_set(builder: &GlobSetBuilder) -> (r: Result<GlobSet, globset::Error>)
    ensures
        r is Ok == globs_build(builder_globs(*builder)),
        r matches Ok(s) ==> set_globs(s) == builder_globs(*builder),
{
    builder.build()
}

/// `globset::GlobSet::is_match` on a name (see [`globs_match`]).
#[verifier::external_body]
fn set_matches(set: &GlobSet, name: &str) -> (r: bool)
    ensures
        r == globs_match(set_globs(*set), name@),
{
    set.is_match(name)
}

/// `<globset::Error as Display>::to_string`. Nothing is claimed of the text.
#[verifier::external_body]
fn glob_error_text(e: &globset::Error) -> String {
    e.to_string()
}

/// The ignore patterns that are not blank.
pub open spec fn nonblank(ps: Seq<Seq<char>>) -> Seq<Seq<char>>
    decreases ps.len(),
{
    if ps.len() == 0 {
        seq![]
    } else if trim(ps.last()).len() == 0 {
        nonblank(ps.drop_last())
    } else {
        nonblank(ps.drop_last()).push(ps.last())
    }
}

/// Index of the first non-blank pattern that does not compile.
pub open spec fn first_invalid(ps: Seq<Seq<char>>) -> Option<int>
    decreases ps.len(),
{
    if ps.len() == 0 {
        None
    } else {
        match first_invalid(ps.drop_last()) {
            Some(i) => Some(i),
            None => if trim(ps.last()).len() != 0 && !glob_valid(ps.last()) {
                Some(ps.len() - 1)
            } else {
                None
            },
        }
    }
}

/// Compiled ignore patterns, matched against an entry's own name.
pub struct IgnoreSet {
    set: GlobSet,
}

impl View for IgnoreSet {
    type V = Seq<Seq<char>>;

    /// The patterns compiled into the set, in order.
    closed spec fn view(&self) -> Seq<Seq<char>> {
        set_globs(self.set)
    }
}

/// Compile the ignore patterns. Blank patterns are skipped. The first
/// non-blank pattern that does not compile is an error naming it; otherwise
/// the set is built exactly when the non-blank patterns combine into one
/// matcher, and a failure to combine them is an error naming them all.
pub fn build_ignore_set(patterns: &Vec<String>) -> (r: Result<IgnoreSet, ScriptVaultError>)
    ensures
        match first_invalid(strs_view(patterns@)) {
            Some(i) => r matches Err(ScriptVaultError::BadIgnorePattern { pattern, .. }) && pattern@
                == strs_view(patterns@)[i],
            None => (r is Ok <==> globs_build(nonblank(strs_view(patterns@)))) && (r is Err ==> (r matches Err(
                ScriptVaultError::BadIgnorePattern { pattern, .. },
            ) && pattern@ == join(strs_view(patterns@), ", "@))),
        },
        r matches Ok(set) ==> set@ == nonblank(strs_view(patterns@)),
{
    let ghost ps = strs_view(patterns@);
    let mut builder = new_builder();
    let mut i: usize = 0;
    while i < patterns.len()
        invariant
            i <= patterns.len(),
            ps == strs_view(patterns@),
            first_invalid(ps.take(i as int)) is None,
            builder_globs(builder) == nonblank(ps.take(i as int)),
        decreases patterns.len() - i,
    {
        proof {
            assert(ps.take(i + 1).drop_last() =~= ps.take(i as int));
            assert(ps.take(i + 1).last() == patterns@[i as int]@);
        }
        let pat = patterns[i].as_str();
        let t = trim_str(pat);
        if t.len() > 0 {
            match compile_glob(pat) {
                Ok(g) => add_glob(&mut builder, g),
                Err(e) => {
                    proof {
                        lemma_first_invalid_prefix(ps, i as int + 1);
                    }
                    return Err(ScriptVaultError::BadIgnorePattern {
                        pattern: copy_string(&patterns[i]),
                        source: glob_error_text(&e),
                    });
                },
            }
        }
        i += 1;
    }
    proof {
        assert(ps.take(patterns.len() as int) =~= ps);
    }
    match build_set(&builder) {
        Ok(set) => Ok(IgnoreSet { set }),
        Err(e) => {
            let all = join_strings(patterns, ", ");
            Err(ScriptVaultError::BadIgnorePattern { pattern: string_of(&all), source: glob_error_text(&e) })
        },
    }
}

/// A first invalid pattern found in a prefix is the first invalid pattern.
pub proof fn lemma_first_invalid_prefix(ps: Seq<Seq<char>>, n: int)
    requires
        0 <= n <= ps.len(),
        first_invalid(ps.take(n)) is Some,
    ensures
        first_invalid(ps) == first_invalid(ps.take(n)),
    decreases ps.len() - n,
{
    if n < ps.len() {
        assert(ps.take(n + 1).drop_last() =~= ps.take(n));
        lemma_first_invalid_prefix(ps, n + 1);
    } else {
        assert(ps.take(n) =~= ps);
    }
}

impl IgnoreSet {
    /// Whether a file or directory name is ignored: matched against the
    /// entry's own name, never its whole path, so an ignored word in a root's
    /// ancestry cannot hide the root.
    pub fn is_ignored(&self, name: &str) -> (r: bool)
        ensures
            r == globs_match(self@, name@),
    {
        set_matches(&self.set, name)
    }
}

/// Whether a file name is a sidecar (metadata for a script, not a script).
pub fn is_sidecar_name(name: &str) -> (r: bool)
    ensures
        r == ends_with(name@, SIDECAR_SUFFIX@),
{
    let v = chars_of(name);
    has_suffix_lit(&v, SIDECAR_SUFFIX)
}

/// Whether the first bytes of a file are `#!`.
pub fn is_shebang_start(first: &[u8]) -> (r: bool)
    ensures
        r == (first@.len() >= 2 && first@[0] == 0x23u8 && first@[1] == 0x21u8),
{
    first.len() >= 2 && first[0] == 0x23u8 && first[1] == 0x21u8
}

/// Whether a regular file is a candidate script: not a sidecar, and with a
/// known script extension or starting with `#!`. `has_shebang` is only
/// consulted when the extension does not decide.
pub fn is_candidate(path: &str, name: &str, has_shebang: bool) -> (r: bool)
    ensures
        r == (!ends_with(name@, SIDECAR_SUFFIX@) && (path_extension_language(path@) is Some || has_shebang)),
{
    !is_sidecar_name(name) && (is_known_script_ext(path) || has_shebang)
}

/// Candidate paths with repeats dropped, first occurrences kept in order
/// (overlapping roots would otherwise list a file twice).
pub fn dedup_paths(paths: Vec<String>) -> (out: Vec<String>)
    ensures
        strs_view(out@) == crate::config::dedup_seq(strs_view(paths@)),
{
    crate::config::dedup_preserving_order(paths)
}

} // verus!
