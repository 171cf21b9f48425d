//! The data flowing through the pipeline: metadata, languages, entries and
//! search results, each with a mathematical view used by the contracts.

use vstd::prelude::*;
use crate::text::{
    ascii_lower_seq, ascii_lowercase, copy_opt_string, copy_string, copy_strings, eq_lit, opt_view,
    strs_view, trim, trim_str,
};

verus! {

/// What is known about a script beyond where it lives. Every field is optional.
#[derive(Debug, Clone, PartialEq, Eq)]
pub struct ScriptMetadata {
    pub name: Option<String>,
    pub desc: Option<String>,
    pub tags: Vec<String>,
    pub usage: Option<String>,
    pub category: Option<String>,
    pub lang: Option<String>,
    pub risk: Option<String>,
    pub owner: Option<String>,
}

/// The mathematical view of [`ScriptMetadata`].
pub struct MetaView {
    pub name: Option<Seq<char>>,
    pub desc: Option<Seq<char>>,
    pub tags: Seq<Seq<char>>,
    pub usage: Option<Seq<char>>,
    pub category: Option<Seq<char>>,
    pub lang: Option<Seq<char>>,
    pub risk: Option<Seq<char>>,
    pub owner: Option<Seq<char>>,
}

impl View for ScriptMetadata {
    type V = MetaView;

    open spec fn view(&self) -> MetaView {
        MetaView {
            name: opt_view(self.name),
            desc: opt_view(self.desc),
            tags: strs_view(self.tags@),
            usage: opt_view(self.usage),
            category: opt_view(self.category),
            lang: opt_view(self.lang),
            risk: opt_view(self.risk),
            owner: opt_view(self.owner),
        }
    }
}

/// The all-empty metadata view.
pub open spec fn empty_meta() -> MetaView {
    MetaView {
        name: None,
        desc: None,
        tags: seq![],
        usage: None,
        category: None,
        lang: None,
        risk: None,
        owner: None,
    }
}

impl Default for ScriptMetadata {
    fn default() -> (m: Self)
        ensures
            m@ == empty_meta(),
    {
        let m = ScriptMetadata {
            name: None,
            desc: None,
            tags: Vec::new(),
            usage: None,
            category: None,
            lang: None,
            risk: None,
            owner: None,
        };
        proof {
            assert(m@.tags =~= Seq::<Seq<char>>::empty());
        }
        m
    }
}

impl ScriptMetadata {
    /// A field-by-field copy.
    pub fn duplicate(&self) -> (m: Self)
        ensures
            m@ == self@,
    {
        ScriptMetadata {
            name: copy_opt_string(&self.name),
            desc: copy_opt_string(&self.desc),
            tags: copy_strings(&self.tags),
            usage: copy_opt_string(&self.usage),
            category: copy_opt_string(&self.category),
            lang: copy_opt_string(&self.lang),
            risk: copy_opt_string(&self.risk),
            owner: copy_opt_string(&self.owner),
        }
    }
}

/// Where an entry's metadata came from.
#[derive(Debug, Clone, Copy, PartialEq, Eq, Structural)]
pub enum MetaSource {
    Header,
    Sidecar,
    Both,
    /// No annotations at all: indexed by filename and inferred language only.
    Unannotated,
}

/// The recognized languages, plus a fallback.
#[derive(Debug, Clone, Copy, PartialEq, Eq, Structural)]
pub enum Language {
    Bash,
    Python,
    Rust,
    Node,
    Ruby,
    Lua,
    Sql,
    Unknown,
}

/// The line-comment leader of a language.
pub open spec fn leader_of(l: Language) -> Seq<char> {
    match l {
        Language::Bash | Language::Python | Language::Ruby => "#"@,
        Language::Rust | Language::Node => "//"@,
        Language::Sql | Language::Lua => "--"@,
        Language::Unknown => "#"@,
    }
}

/// The canonical label of a language.
pub open spec fn label_of(l: Language) -> Seq<char> {
    match l {
        Language::Bash => "bash"@,
        Language::Python => "python"@,
        Language::Rust => "rust"@,
        Language::Node => "node"@,
        Language::Ruby => "ruby"@,
        Language::Lua => "lua"@,
        Language::Sql => "sql"@,
        Language::Unknown => "unknown"@,
    }
}

/// The language named by an already trimmed, lowercased label, if any.
pub open spec fn language_named(k: Seq<char>) -> Option<Language> {
    if k == "bash"@ || k == "sh"@ || k == "shell"@ || k == "zsh"@ {
        Some(Language::Bash)
    } else if k == "python"@ || k == "py"@ || k == "python3"@ {
        Some(Language::Python)
    } else if k == "rust"@ || k == "rs"@ {
        Some(Language::Rust)
    } else if k == "node"@ || k == "js"@ || k == "javascript"@ || k == "ts"@ || k
        == "typescript"@ {
        Some(Language::Node)
    } else if k == "ruby"@ || k == "rb"@ {
        Some(Language::Ruby)
    } else if k == "lua"@ {
        Some(Language::Lua)
    } else if k == "sql"@ {
        Some(Language::Sql)
    } else {
        None
    }
}

/// `Language::from_label`: trim, ASCII-lowercase, then look up the name.
pub open spec fn language_from_label(s: Seq<char>) -> Option<Language> {
    language_named(ascii_lower_seq(trim(s)))
}

impl Language {
    /// The line-comment marker the header parser scans for.
    pub fn comment_leader(&self) -> (r: &'static str)
        ensures
            r@ == leader_of(*self),
    {
        match self {
            Language::Bash | Language::Python | Language::Ruby => "#",
            Language::Rust | Language::Node => "//",
            Language::Sql | Language::Lua => "--",
            Language::Unknown => "#",
        }
    }

    /// A short, stable label for display and for the `lang` search field.
    pub fn label(&self) -> (r: &'static str)
        ensures
            r@ == label_of(*self),
    {
        match self {
            Language::Bash => "bash",
            Language::Python => "python",
            Language::Rust => "rust",
            Language::Node => "node",
            Language::Ruby => "ruby",
            Language::Lua => "lua",
            Language::Sql => "sql",
            Language::Unknown => "unknown",
        }
    }

    /// Parse a language from a free-text label (trimmed, ASCII case-insensitive),
    /// accepting common aliases; `None` for anything unrecognized.
    pub fn from_label(label: &str) -> (r: Option<Language>)
        ensures
            r == language_from_label(label@),
    {
        let t = trim_str(label);
        let k = ascii_lowercase(&t);
        if eq_lit(&k, "bash") || eq_lit(&k, "sh") || eq_lit(&k, "shell") || eq_lit(&k, "zsh") {
            Some(Language::Bash)
        } else if eq_lit(&k, "python") || eq_lit(&k, "py") || eq_lit(&k, "python3") {
            Some(Language::Python)
        } else if eq_lit(&k, "rust") || eq_lit(&k, "rs") {
            Some(Language::Rust)
        } else if eq_lit(&k, "node") || eq_lit(&k, "js") || eq_lit(&k, "javascript") || eq_lit(
            &k,
            "ts",
        ) || eq_lit(&k, "typescript") {
            Some(Language::Node)
        } else if eq_lit(&k, "ruby") || eq_lit(&k, "rb") {
            Some(Language::Ruby)
        } else if eq_lit(&k, "lua") {
            Some(Language::Lua)
        } else if eq_lit(&k, "sql") {
            Some(Language::Sql)
        } else {
            None
        }
    }
}

/// One fully-resolved, indexable script. `path` is the absolute path as text.
#[derive(Debug, Clone, PartialEq, Eq)]
pub struct ScriptEntry {
    pub path: String,
    pub filename: String,
    pub lang: Language,
    pub meta: ScriptMetadata,
    pub source: MetaSource,
}

/// The mathematical view of a [`ScriptEntry`].
pub struct EntryView {
    pub path: Seq<char>,
    pub filename: Seq<char>,
    pub lang: Language,
    pub meta: MetaView,
    pub source: MetaSource,
}

impl View for ScriptEntry {
    type V = EntryView;

    open spec fn view(&self) -> EntryView {
        EntryView {
            path: self.path@,
            filename: self.filename@,
            lang: self.lang,
            meta: self.meta@,
            source: self.source,
        }
    }
}

/// The display name: the explicit name if set, else the filename.
pub open spec fn display_name_of(e: EntryView) -> Seq<char> {
    match e.meta.name {
        Some(n) => n,
        None => e.filename,
    }
}

/// The views of a sequence of entries.
pub open spec fn entries_view(v: Seq<ScriptEntry>) -> Seq<EntryView> {
    v.map_values(|e: ScriptEntry| e@)
}

impl ScriptEntry {
    /// The best display name: the explicit `name` if set, else the filename.
    pub fn display_name(&self) -> (r: &str)
        ensures
            r@ == display_name_of(self@),
    {
        match &self.meta.name {
            Some(n) => n.as_str(),
            None => self.filename.as_str(),
        }
    }

    /// A field-by-field copy.
    pub fn duplicate(&self) -> (e: Self)
        ensures
            e@ == self@,
    {
        ScriptEntry {
            path: copy_string(&self.path),
            filename: copy_string(&self.filename),
            lang: self.lang,
            meta: self.meta.duplicate(),
            source: self.source,
        }
    }
}

/// Which field caused a search hit.
#[derive(Debug, Clone, Copy, PartialEq, Eq, Structural)]
pub enum MatchField {
    Name,
    Desc,
    Tags,
    Filename,
}

/// One hit from a query: an owned copy of the entry, the score, the winning
/// field and the matched character positions in that field.
#[derive(Debug, Clone, PartialEq, Eq)]
pub struct SearchResult {
    pub entry: ScriptEntry,
    pub score: i64,
    pub matched_field: MatchField,
    pub matched_indices: Vec<usize>,
}

/// The mathematical view of a [`SearchResult`].
pub struct ResultView {
    pub entry: EntryView,
    pub score: i64,
    pub matched_field: MatchField,
    pub matched_indices: Seq<usize>,
}

impl View for SearchResult {
    type V = ResultView;

    open spec fn view(&self) -> ResultView {
        ResultView {
            entry: self.entry@,
            score: self.score,
            matched_field: self.matched_field,
            matched_indices: self.matched_indices@,
        }
    }
}

impl SearchResult {
    /// A field-by-field copy.
    pub fn duplicate(&self) -> (r: Self)
        ensures
            r@ == self@,
    {
        let mut idx: Vec<usize> = Vec::new();
        let mut i: usize = 0;
        while i < self.matched_indices.len()
            invariant
                i <= self.matched_indices.len(),
                idx@ == self.matched_indices@.take(i as int),
            decreases self.matched_indices.len() - i,
        {
            idx.push(self.matched_indices[i]);
            proof {
                assert(idx@ =~= self.matched_indices@.take(i + 1));
            }
            i += 1;
        }
        proof {
            assert(idx@ =~= self.matched_indices@);
        }
        SearchResult {
            entry: self.entry.duplicate(),
            score: self.score,
            matched_field: self.matched_field,
            matched_indices: idx,
        }
    }
}

/// The views of a sequence of results.
pub open spec fn results_view(v: Seq<SearchResult>) -> Seq<ResultView> {
    v.map_values(|r: SearchResult| r@)
}

} // verus!

verus! {

/// The names `from_label` accepts, after trimming and ASCII lowercasing:
/// bash, sh, shell, zsh for Bash; python, py, python3 for Python; rust, rs
/// for Rust; node, js, javascript, ts, typescript for Node; ruby, rb for
/// Ruby; lua; sql. Anything else is not a language.
pub proof fn lemma_from_label_names(s: Seq<char>)
    ensures
        (ascii_lower_seq(trim(s)) == "bash"@ || ascii_lower_seq(trim(s)) == "sh"@ || ascii_lower_seq(trim(s)) == "shell"@ || ascii_lower_seq(trim(s)) == "zsh"@) ==> language_from_label(s) == Some(Language::Bash),
        (ascii_lower_seq(trim(s)) == "python"@ || ascii_lower_seq(trim(s)) == "py"@ || ascii_lower_seq(trim(s)) == "python3"@) ==> language_from_label(s) == Some(Language::Python),
        (ascii_lower_seq(trim(s)) == "rust"@ || ascii_lower_seq(trim(s)) == "rs"@) ==> language_from_label(s) == Some(Language::Rust),
        (ascii_lower_seq(trim(s)) == "node"@ || ascii_lower_seq(trim(s)) == "js"@ || ascii_lower_seq(trim(s)) == "javascript"@ || ascii_lower_seq(trim(s)) == "ts"@ || ascii_lower_seq(trim(s)) == "typescript"@) ==> language_from_label(s) == Some(Language::Node),
        (ascii_lower_seq(trim(s)) == "ruby"@ || ascii_lower_seq(trim(s)) == "rb"@) ==> language_from_label(s) == Some(Language::Ruby),
        (ascii_lower_seq(trim(s)) == "lua"@) ==> language_from_label(s) == Some(Language::Lua),
        (ascii_lower_seq(trim(s)) == "sql"@) ==> language_from_label(s) == Some(Language::Sql),
        !(ascii_lower_seq(trim(s)) == "bash"@ || ascii_lower_seq(trim(s)) == "sh"@ || ascii_lower_seq(trim(s)) == "shell"@ || ascii_lower_seq(trim(s)) == "zsh"@ || ascii_lower_seq(trim(s)) == "python"@ || ascii_lower_seq(trim(s)) == "py"@ || ascii_lower_seq(trim(s)) == "python3"@ || ascii_lower_seq(trim(s)) == "rust"@ || ascii_lower_seq(trim(s)) == "rs"@ || ascii_lower_seq(trim(s)) == "node"@ || ascii_lower_seq(trim(s)) == "js"@ || ascii_lower_seq(trim(s)) == "javascript"@ || ascii_lower_seq(trim(s)) == "ts"@ || ascii_lower_seq(trim(s)) == "typescript"@ || ascii_lower_seq(trim(s)) == "ruby"@ || ascii_lower_seq(trim(s)) == "rb"@ || ascii_lower_seq(trim(s)) == "lua"@ || ascii_lower_seq(trim(s)) == "sql"@) ==> language_from_label(s) is None,
{
    reveal_strlit("bash");
    reveal_strlit("sh");
    reveal_strlit("shell");
    reveal_strlit("zsh");
    reveal_strlit("python");
    reveal_strlit("py");
    reveal_strlit("python3");
    reveal_strlit("rust");
    reveal_strlit("rs");
    reveal_strlit("node");
    reveal_strlit("js");
    reveal_strlit("javascript");
    reveal_strlit("ts");
    reveal_strlit("typescript");
    reveal_strlit("ruby");
    reveal_strlit("rb");
    reveal_strlit("lua");
    reveal_strlit("sql");
    assert("bash"@.len() == 4 && "sh"@.len() == 2 && "shell"@.len() == 5 && "zsh"@.len() == 3 && "python"@.len() == 6 && "py"@.len() == 2 && "python3"@.len() == 7 && "rust"@.len() == 4 && "rs"@.len() == 2 && "node"@.len() == 4 && "js"@.len() == 2 && "javascript"@.len() == 10 && "ts"@.len() == 2 && "typescript"@.len() == 10 && "ruby"@.len() == 4 && "rb"@.len() == 2 && "lua"@.len() == 3 && "sql"@.len() == 3);
    assert("bash"@[0] == 'b' && "bash"@[1] == 'a' && "bash"@[2] == 's' && "sh"@[0] == 's' && "sh"@[1] == 'h' && "shell"@[0] == 's' && "shell"@[1] == 'h' && "shell"@[2] == 'e' && "zsh"@[0] == 'z' && "zsh"@[1] == 's' && "zsh"@[2] == 'h' && "python"@[0] == 'p' && "python"@[1] == 'y' && "python"@[2] == 't' && "py"@[0] == 'p' && "py"@[1] == 'y' && "python3"@[0] == 'p' && "python3"@[1] == 'y' && "python3"@[2] == 't' && "rust"@[0] == 'r' && "rust"@[1] == 'u' && "rust"@[2] == 's' && "rs"@[0] == 'r' && "rs"@[1] == 's' && "node"@[0] == 'n' && "node"@[1] == 'o' && "node"@[2] == 'd' && "js"@[0] == 'j' && "js"@[1] == 's' && "javascript"@[0] == 'j' && "javascript"@[1] == 'a' && "javascript"@[2] == 'v' && "ts"@[0] == 't' && "ts"@[1] == 's' && "typescript"@[0] == 't' && "typescript"@[1] == 'y' && "typescript"@[2] == 'p' && "ruby"@[0] == 'r' && "ruby"@[1] == 'u' && "ruby"@[2] == 'b' && "rb"@[0] == 'r' && "rb"@[1] == 'b' && "lua"@[0] == 'l' && "lua"@[1] == 'u' && "lua"@[2] == 'a' && "sql"@[0] == 's' && "sql"@[1] == 'q' && "sql"@[2] == 'l');
    let k = ascii_lower_seq(trim(s));
    if k.len() > 2 {
        assert(k[0] == k[0] && k[1] == k[1] && k[2] == k[2]);
    } else if k.len() > 1 {
        assert(k[0] == k[0] && k[1] == k[1]);
    } else if k.len() > 0 {
        assert(k[0] == k[0]);
    }
}

/// `from_label` ignores surrounding whitespace and ASCII case: a label reads
/// the same as its trimmed, lowercased form. It never yields `Unknown`.
pub proof fn lemma_from_label_normalizes(s: Seq<char>)
    ensures
        language_from_label(s) == language_from_label(ascii_lower_seq(trim(s))),
        language_from_label(s) != Some(Language::Unknown),
{
    let t = trim(s);
    let k = ascii_lower_seq(t);
    crate::text::lemma_trim_ends(s);
    if k.len() > 0 {
        crate::text::lemma_ascii_lower_ws(t[0]);
        crate::text::lemma_ascii_lower_ws(t.last());
        assert(k[0] == crate::text::ascii_lower(t[0]));
        assert(k.last() == crate::text::ascii_lower(t.last()));
    }
    crate::text::lemma_trim_unchanged(k);
    crate::text::lemma_ascii_lower_idempotent(t);
}

/// Every language except `Unknown` parses back from its own label.
pub proof fn lemma_label_round_trip(l: Language)
    requires
        l != Language::Unknown,
    ensures
        language_from_label(label_of(l)) == Some(l),
{
    reveal_strlit("bash");
    reveal_strlit("sh");
    reveal_strlit("shell");
    reveal_strlit("zsh");
    reveal_strlit("python");
    reveal_strlit("py");
    reveal_strlit("python3");
    reveal_strlit("rust");
    reveal_strlit("rs");
    reveal_strlit("node");
    reveal_strlit("js");
    reveal_strlit("javascript");
    reveal_strlit("ts");
    reveal_strlit("typescript");
    reveal_strlit("ruby");
    reveal_strlit("rb");
    reveal_strlit("lua");
    reveal_strlit("sql");
    crate::text::lemma_plain_text(label_of(l));
}

} // verus!
