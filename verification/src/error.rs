//! The library's one error type. Every variant carries plain values: where a
//! failure came from an I/O, parse or glob error, the variant holds that
//! error's message text.

use vstd::prelude::*;
use crate::text::{append_lit, string_of};

verus! {

/// Every way a core operation can fail.
#[derive(Debug, Clone, PartialEq, Eq)]
pub enum ScriptVaultError {
    /// The user's config file exists but could not be read.
    ConfigRead { path: String, source: String },
    /// The user's config file is present but malformed.
    ConfigParse { path: String, source: String },
    /// The built-in default configuration failed to parse.
    DefaultConfigParse(String),
    /// Valid YAML but semantically invalid (no roots, blank ignore, empty editor).
    ConfigInvalid(String),
    /// A configured ignore pattern could not be compiled.
    BadIgnorePattern { pattern: String, source: String },
    /// Persisting user state failed; `context` says which step.
    StateIo { context: String, source: String },
    /// Serializing state failed.
    StateSerialize(String),
    /// A script action (open in editor, run) failed.
    Action { context: String, source: Option<String> },
    /// A candidate could not be read as UTF-8 text.
    NotReadable { path: String, source: String },
}

/// The message of an error, as a user sees it.
pub open spec fn error_text(e: ScriptVaultError) -> Seq<char> {
    match e {
        ScriptVaultError::ConfigRead { path, source } => "failed to read config file "@ + path@ + ": "@ + source@,
        ScriptVaultError::ConfigParse { path, source } => "malformed config file "@ + path@ + ": "@ + source@,
        ScriptVaultError::DefaultConfigParse(source) => "failed to parse embedded default.yaml (this is a ScriptVault bug): "@
            + source@,
        ScriptVaultError::ConfigInvalid(m) => "invalid configuration: "@ + m@,
        ScriptVaultError::BadIgnorePattern { pattern, source } => "invalid ignore pattern "@ + str_debug(pattern@) + ": "@
            + source@,
        ScriptVaultError::StateIo { context, source } => context@ + ": "@ + source@,
        ScriptVaultError::StateSerialize(source) => "failed to serialize state: "@ + source@,
        ScriptVaultError::Action { context, .. } => context@,
        ScriptVaultError::NotReadable { path, source } => "cannot read as text: "@ + path@ + ": "@ + source@,
    }
}

/// What `format!("{:?}", s)` gives for a string: the text in double quotes,
/// with the characters `str`'s `Debug` escapes escaped.
pub uninterp spec fn str_debug(s: Seq<char>) -> Seq<char>;

/// Calls `<str as Debug>::fmt` through `format!("{:?}", ..)`. Claimed: the
/// result depends on the text alone; the escaping rules are left unstated.
#[verifier::external_body]
fn debug_quote(s: &str) -> (r: String)
    ensures
        r@ == str_debug(s@),
{
    format!("{:?}", s)
}

impl ScriptVaultError {
    /// The error's message, as a user sees it (see [`error_text`]).
    pub fn message(&self) -> (m: String)
        ensures
            m@ == error_text(*self),
    {
        let mut out: Vec<char> = Vec::new();
        match self {
            ScriptVaultError::ConfigRead { path, source } => {
                append_lit(&mut out, "failed to read config file ");
                append_lit(&mut out, path.as_str());
                append_lit(&mut out, ": ");
                append_lit(&mut out, source.as_str());
            },
            ScriptVaultError::ConfigParse { path, source } => {
                append_lit(&mut out, "malformed config file ");
                append_lit(&mut out, path.as_str());
                append_lit(&mut out, ": ");
                append_lit(&mut out, source.as_str());
            },
            ScriptVaultError::DefaultConfigParse(source) => {
                append_lit(&mut out, "failed to parse embedded default.yaml (this is a ScriptVault bug): ");
                append_lit(&mut out, source.as_str());
            },
            ScriptVaultError::ConfigInvalid(m) => {
                append_lit(&mut out, "invalid configuration: ");
                append_lit(&mut out, m.as_str());
            },
            ScriptVaultError::BadIgnorePattern { pattern, source } => {
                append_lit(&mut out, "invalid ignore pattern ");
                let q = debug_quote(pattern.as_str());
                append_lit(&mut out, q.as_str());
                append_lit(&mut out, ": ");
                append_lit(&mut out, source.as_str());
            },
            ScriptVaultError::StateIo { context, source } => {
                append_lit(&mut out, context.as_str());
                append_lit(&mut out, ": ");
                append_lit(&mut out, source.as_str());
            },
            ScriptVaultError::StateSerialize(source) => {
                append_lit(&mut out, "failed to serialize state: ");
                append_lit(&mut out, source.as_str());
            },
            ScriptVaultError::Action { context, .. } => {
                append_lit(&mut out, context.as_str());
            },
            ScriptVaultError::NotReadable { path, source } => {
                append_lit(&mut out, "cannot read as text: ");
                append_lit(&mut out, path.as_str());
                append_lit(&mut out, ": ");
                append_lit(&mut out, source.as_str());
            },
        }
        proof {
            assert(out@ =~= error_text(*self));
        }
        string_of(&out)
    }

    /// An action failure described by the library itself (no underlying error).
    pub fn action(context: String) -> (e: Self)
        ensures
            e == (ScriptVaultError::Action { context, source: None }),
    {
        ScriptVaultError::Action { context, source: None }
    }
}

} // verus!
