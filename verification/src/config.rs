//! Configuration: a base layer (the built-in defaults) overlaid by the user's
//! layer, then `~` expanded in every root, then validated.
//!
//! - A user layer that sets no roots keeps the default roots.
//! - User ignores are appended to the defaults, duplicates dropped (first
//!   occurrence kept).
//! - A user editor replaces the default one.
//! - `~` and `~/...` in a root expand to the home directory.
//! - A config with no roots, a blank root, a blank ignore or a blank editor is
//!   rejected with a message saying what to fix.

use vstd::prelude::*;
use crate::error::ScriptVaultError;
use crate::text::{
    append_lit, chars_of, chars_of_string, copy_string, dec, eq_lit, has_prefix_lit, opt_view,
    push_dec, slice, starts_with, str_eq, string_of, strs_view, trim, trim_str,
};

verus! {

/// Effective configuration.
#[derive(Debug, Clone, PartialEq, Eq)]
pub struct Config {
    /// Directories to scan for scripts (recursively).
    pub roots: Vec<String>,
    /// Names and globs to skip while scanning.
    pub ignores: Vec<String>,
    /// Editor command for the "open" action; `None` falls back to `$EDITOR`.
    pub editor: Option<String>,
}

/// The mathematical view of a [`Config`].
pub struct ConfigView {
    pub roots: Seq<Seq<char>>,
    pub ignores: Seq<Seq<char>>,
    pub editor: Option<Seq<char>>,
}

impl View for Config {
    type V = ConfigView;

    open spec fn view(&self) -> ConfigView {
        ConfigView { roots: strs_view(self.roots@), ignores: strs_view(self.ignores@), editor: opt_view(self.editor) }
    }
}

impl Default for Config {
    fn default() -> (c: Self)
        ensures
            c@.roots.len() == 0,
            c@.ignores.len() == 0,
            c@.editor is None,
    {
        Config { roots: Vec::new(), ignores: Vec::new(), editor: None }
    }
}

// ---------------------------------------------------------------------------
// Merging
// ---------------------------------------------------------------------------

/// `s` without repeats, first occurrences kept in order.
pub open spec fn dedup_seq(s: Seq<Seq<char>>) -> Seq<Seq<char>>
    decreases s.len(),
{
    if s.len() == 0 {
        seq![]
    } else {
        let p = dedup_seq(s.drop_last());
        if p.contains(s.last()) {
            p
        } else {
            p.push(s.last())
        }
    }
}

/// The user layer over the defaults.
pub open spec fn merged_config(d: ConfigView, u: ConfigView) -> ConfigView {
    ConfigView {
        roots: if u.roots.len() > 0 {
            u.roots
        } else {
            d.roots
        },
        ignores: dedup_seq(d.ignores + u.ignores),
        editor: match u.editor {
            Some(e) => Some(e),
            None => d.editor,
        },
    }
}

/// Dropping repeats keeps exactly the elements that were there.
pub proof fn lemma_dedup_contains(s: Seq<Seq<char>>, x: Seq<char>)
    ensures
        dedup_seq(s).contains(x) == s.contains(x),
    decreases s.len(),
{
    if s.len() > 0 {
        lemma_dedup_contains(s.drop_last(), x);
        let p = dedup_seq(s.drop_last());
        let l = s.last();
        assert(s.contains(x) == (s.drop_last().contains(x) || x == l)) by {
            if s.contains(x) {
                let i = choose|i: int| 0 <= i < s.len() && s[i] == x;
                if i < s.len() - 1 {
                    assert(s.drop_last()[i] == x);
                }
            }
            if s.drop_last().contains(x) {
                let i = choose|i: int| 0 <= i < s.drop_last().len() && s.drop_last()[i] == x;
                assert(s[i] == x);
            }
            if x == l {
                assert(s[s.len() - 1] == x);
            }
        }
        assert(p.push(l).contains(x) == (p.contains(x) || x == l)) by {
            if p.push(l).contains(x) {
                let i = choose|i: int| 0 <= i < p.push(l).len() && p.push(l)[i] == x;
                if i < p.len() {
                    assert(p[i] == x);
                }
            }
            if p.contains(x) {
                let i = choose|i: int| 0 <= i < p.len() && p[i] == x;
                assert(p.push(l)[i] == x);
            }
            if x == l {
                assert(p.push(l)[p.len() as int] == x);
            }
        }
    }
}

/// No text occurs twice after dropping repeats.
pub proof fn lemma_dedup_distinct(s: Seq<Seq<char>>)
    ensures
        dedup_seq(s).no_duplicates(),
    decreases s.len(),
{
    if s.len() > 0 {
        lemma_dedup_distinct(s.drop_last());
    }
}

/// A partial user layer cannot erase what it does not set: without roots the
/// default roots stand, without an editor the default editor stands, and the
/// ignores are exactly the defaults' and the user's, each once.
pub proof fn lemma_partial_user_layer_keeps_defaults(d: ConfigView, u: ConfigView)
    ensures
        u.roots.len() == 0 ==> merged_config(d, u).roots == d.roots,
        u.roots.len() > 0 ==> merged_config(d, u).roots == u.roots,
        u.editor is None ==> merged_config(d, u).editor == d.editor,
        forall|x: Seq<char>|
            #[trigger] merged_config(d, u).ignores.contains(x) == (d.ignores.contains(x) || u.ignores.contains(x)),
        merged_config(d, u).ignores.no_duplicates(),
{
    lemma_dedup_distinct(d.ignores + u.ignores);
    assert forall|x: Seq<char>|
        #[trigger] merged_config(d, u).ignores.contains(x) == (d.ignores.contains(x) || u.ignores.contains(x)) by {
        lemma_dedup_contains(d.ignores + u.ignores, x);
        let both = d.ignores + u.ignores;
        if both.contains(x) {
            let k = choose|k: int| 0 <= k < both.len() && both[k] == x;
            if k < d.ignores.len() {
                assert(d.ignores[k] == x);
            } else {
                assert(u.ignores[k - d.ignores.len()] == x);
            }
        }
        if d.ignores.contains(x) {
            let k = choose|k: int| 0 <= k < d.ignores.len() && d.ignores[k] == x;
            assert(both[k] == x);
        }
        if u.ignores.contains(x) {
            let k = choose|k: int| 0 <= k < u.ignores.len() && u.ignores[k] == x;
            assert(both[d.ignores.len() + k] == x);
        }
    }
}

fn contains_string(v: &Vec<String>, s: &str) -> (r: bool)
    ensures
        r == strs_view(v@).contains(s@),
{
    let mut i: usize = 0;
    while i < v.len()
        invariant
            i <= v.len(),
            forall|k: int| 0 <= k < i ==> strs_view(v@)[k] != s@,
        decreases v.len() - i,
    {
        if str_eq(v[i].as_str(), s) {
            proof {
                assert(strs_view(v@)[i as int] == s@);
            }
            return true;
        }
        i += 1;
    }
    false
}

/// Drop repeated texts, keeping first occurrences in order.
pub fn dedup_preserving_order(items: Vec<String>) -> (out: Vec<String>)
    ensures
        strs_view(out@) == dedup_seq(strs_view(items@)),
{
    let ghost all = strs_view(items@);
    let mut out: Vec<String> = Vec::new();
    let mut i: usize = 0;
    while i < items.len()
        invariant
            i <= items.len(),
            all == strs_view(items@),
            strs_view(out@) == dedup_seq(all.take(i as int)),
        decreases items.len() - i,
    {
        proof {
            assert(all.take(i + 1).drop_last() =~= all.take(i as int));
            assert(all.take(i + 1).last() == items@[i as int]@);
        }
        if !contains_string(&out, items[i].as_str()) {
            let ghost before = out@;
            out.push(copy_string(&items[i]));
            proof {
                assert(strs_view(out@) =~= strs_view(before).push(items@[i as int]@));
            }
        }
        i += 1;
    }
    proof {
        assert(all.take(items.len() as int) =~= all);
    }
    out
}

impl Config {
    /// Overlay a user layer on `self` (the defaults), field by field: user
    /// roots replace the defaults only when non-empty; user ignores are
    /// appended and repeats dropped; a user editor wins.
    pub fn merge_user(self, user: Config) -> (c: Config)
        ensures
            c@ == merged_config(self@, user@),
    {
        let roots = if user.roots.len() > 0 {
            user.roots
        } else {
            self.roots
        };
        let mut all = self.ignores;
        let mut uig = user.ignores;
        let ghost a = strs_view(all@);
        let ghost b = strs_view(uig@);
        all.append(&mut uig);
        proof {
            assert(strs_view(all@) =~= a + b);
        }
        let ignores = dedup_preserving_order(all);
        let editor = match user.editor {
            Some(e) => Some(e),
            None => self.editor,
        };
        Config { roots, ignores, editor }
    }
}

// ---------------------------------------------------------------------------
// Tilde expansion
// ---------------------------------------------------------------------------

/// `Path::join` on text: an absolute `rest` replaces `base`; otherwise a `/`
/// is put between them unless `base` is empty or already ends with one.
pub open spec fn join_path(base: Seq<char>, rest: Seq<char>) -> Seq<char> {
    if rest.len() > 0 && rest[0] == '/' {
        rest
    } else if base.len() == 0 {
        rest
    } else if base.last() == '/' {
        base + rest
    } else {
        base + seq!['/'] + rest
    }
}

/// A path with a leading `~` (alone, or followed by `/`) replaced by the home
/// directory; unchanged when there is no such `~` or no home directory.
pub open spec fn expand_tilde_with(p: Seq<char>, home: Option<Seq<char>>) -> Seq<char> {
    match home {
        None => p,
        Some(h) => if p == seq!['~'] {
            h
        } else if starts_with(p, seq!['~', '/']) {
            join_path(h, p.skip(2))
        } else {
            p
        },
    }
}

/// Join two path texts (see [`join_path`]).
pub fn join_path_text(base: &str, rest: &Vec<char>) -> (out: Vec<char>)
    ensures
        out@ == join_path(base@, rest@),
{
    if rest.len() > 0 && rest[0] == '/' {
        return slice(rest, 0, rest.len());
    }
    let b = chars_of(base);
    if b.len() == 0 {
        return slice(rest, 0, rest.len());
    }
    let mut out = slice(&b, 0, b.len());
    if b[b.len() - 1] != '/' {
        out.push('/');
    }
    let ghost head = out@;
    let mut i: usize = 0;
    while i < rest.len()
        invariant
            i <= rest.len(),
            out@ == head + rest@.take(i as int),
        decreases rest.len() - i,
    {
        out.push(rest[i]);
        proof {
            assert(out@ =~= head + rest@.take(i + 1));
        }
        i += 1;
    }
    proof {
        assert(rest@.take(rest.len() as int) =~= rest@);
        assert(out@ =~= join_path(base@, rest@));
    }
    out
}

/// Expand a leading `~` given the home directory (see [`expand_tilde_with`]).
pub fn expand_tilde(path: &str, home: Option<&str>) -> (out: String)
    ensures
        out@ == expand_tilde_with(path@, match home {
            Some(h) => Some(h@),
            None => None,
        }),
{
    let v = chars_of(path);
    proof {
        reveal_strlit("~");
        reveal_strlit("~/");
    }
    match home {
        None => path.to_string(),
        Some(h) => {
            if eq_lit(&v, "~") {
                proof {
                    assert(v@ =~= seq!['~']);
                }
                h.to_string()
            } else if has_prefix_lit(&v, "~/") {
                proof {
                    assert("~/"@ =~= seq!['~', '/']);
                }
                let rest = slice(&v, 2, v.len());
                let out = join_path_text(h, &rest);
                proof {
                    assert(rest@ =~= path@.skip(2));
                }
                string_of(&out)
            } else {
                proof {
                    assert("~"@ =~= seq!['~']);
                    assert(v@ != seq!['~']);
                    assert("~/"@ =~= seq!['~', '/']);
                }
                path.to_string()
            }
        },
    }
}

/// `dirs::home_dir()` as text: `None` when the platform reports no home
/// directory or it is not valid UTF-8. Nothing is claimed of the value, which
/// comes from the environment.
#[verifier::external_body]
fn home_dir() -> Option<String> {
    dirs::home_dir().and_then(|p| p.into_os_string().into_string().ok())
}

/// Every root expanded against `home`.
pub open spec fn expanded_roots(roots: Seq<Seq<char>>, home: Option<Seq<char>>) -> Seq<Seq<char>> {
    roots.map_values(|r: Seq<char>| expand_tilde_with(r, home))
}

impl Config {
    /// `self` with every root tilde-expanded against `home`.
    pub fn expand_roots(self, home: Option<&str>) -> (c: Config)
        ensures
            c@.roots == expanded_roots(self@.roots, match home {
                Some(h) => Some(h@),
                None => None,
            }),
            c@.ignores == self@.ignores,
            c@.editor == self@.editor,
    {
        let ghost hv: Option<Seq<char>> = match home {
            Some(h) => Some(h@),
            None => None,
        };
        let mut roots: Vec<String> = Vec::new();
        let mut i: usize = 0;
        while i < self.roots.len()
            invariant
                i <= self.roots.len(),
                hv == (match home {
                    Some(h) => Some(h@),
                    None => None,
                }),
                roots.len() == i,
                forall|k: int| 0 <= k < i ==> #[trigger] roots@[k]@ == expand_tilde_with(self.roots@[k]@, hv),
            decreases self.roots.len() - i,
        {
            roots.push(expand_tilde(self.roots[i].as_str(), home));
            i += 1;
        }
        proof {
            assert forall|k: int| 0 <= k < roots.len() implies #[trigger] strs_view(roots@)[k] == expanded_roots(self@.roots, hv)[k] by {
                assert(self@.roots[k] == self.roots@[k]@);
            }
            assert(strs_view(roots@) =~= expanded_roots(self@.roots, hv));
        }
        Config { roots, ignores: self.ignores, editor: self.editor }
    }

    /// `self` with every root tilde-expanded against the user's home
    /// directory, whatever the environment reports it to be.
    pub fn with_expanded_roots(self) -> (c: Config)
        ensures
            exists|home: Option<Seq<char>>| c@.roots == expanded_roots(self@.roots, home),
            c@.ignores == self@.ignores,
            c@.editor == self@.editor,
    {
        let home = home_dir();
        match home {
            Some(h) => self.expand_roots(Some(h.as_str())),
            None => self.expand_roots(None),
        }
    }
}

// ---------------------------------------------------------------------------
// Validation
// ---------------------------------------------------------------------------

/// Index of the first blank (empty after trimming) text at or after `i`.
pub open spec fn first_blank_from(v: Seq<Seq<char>>, i: int) -> Option<int>
    decreases v.len() - i,
{
    if i < 0 || i >= v.len() {
        None
    } else if trim(v[i]).len() == 0 {
        Some(i)
    } else {
        first_blank_from(v, i + 1)
    }
}

/// Index of the first blank text.
pub open spec fn first_blank(v: Seq<Seq<char>>) -> Option<int> {
    first_blank_from(v, 0)
}

/// The message for a config without roots.
pub open spec fn no_roots_message() -> Seq<char> {
    "no scan roots configured — set at least one directory under `roots:` in ~/.config/scriptvault/config.yaml (e.g. `- ~/bin`)"@
}

/// The message for a set but blank editor.
pub open spec fn blank_editor_message() -> Seq<char> {
    "`editor:` is set but empty — remove it (to use $EDITOR) or give a command"@
}

/// What validation says of a configuration: `Ok` when it is fit to run with,
/// else the message for the first problem.
pub open spec fn validation(c: ConfigView) -> Result<(), Seq<char>> {
    if c.roots.len() == 0 {
        Err(no_roots_message())
    } else if first_blank(c.roots) is Some {
        Err("roots["@ + dec(first_blank(c.roots)->0 as nat)
            + "] is empty — remove the blank entry or give it a real path"@)
    } else if first_blank(c.ignores) is Some {
        Err("ignores["@ + dec(first_blank(c.ignores)->0 as nat)
            + "] is empty — remove the blank entry or give it a name/glob"@)
    } else if c.editor matches Some(e) && trim(e).len() == 0 {
        Err(blank_editor_message())
    } else {
        Ok(())
    }
}

fn blank_position(v: &Vec<String>) -> (r: Option<usize>)
    ensures
        match r {
            Some(i) => first_blank(strs_view(v@)) == Some(i as int),
            None => first_blank(strs_view(v@)) is None,
        },
{
    let ghost sv = strs_view(v@);
    let mut i: usize = 0;
    while i < v.len()
        invariant
            i <= v.len(),
            sv == strs_view(v@),
            first_blank(sv) == first_blank_from(sv, i as int),
        decreases v.len() - i,
    {
        let t = trim_str(v[i].as_str());
        if t.len() == 0 {
            return Some(i);
        }
        i += 1;
    }
    None
}

impl Config {
    /// Check the semantics YAML cannot: at least one root, no blank root, no
    /// blank ignore, and an editor, when set, that is not blank.
    pub fn validate(&self) -> (r: Result<(), ScriptVaultError>)
        ensures
            match validation(self@) {
                Ok(()) => r is Ok,
                Err(m) => r matches Err(ScriptVaultError::ConfigInvalid(s)) && s@ == m,
            },
    {
        if self.roots.len() == 0 {
            let m = "no scan roots configured — set at least one directory under `roots:` in ~/.config/scriptvault/config.yaml (e.g. `- ~/bin`)";
            return Err(ScriptVaultError::ConfigInvalid(m.to_string()));
        }
        match blank_position(&self.roots) {
            Some(pos) => {
                let mut out = chars_of("roots[");
                push_dec(&mut out, pos as u64);
                append_lit(&mut out, "] is empty — remove the blank entry or give it a real path");
                return Err(ScriptVaultError::ConfigInvalid(string_of(&out)));
            },
            None => {},
        }
        match blank_position(&self.ignores) {
            Some(pos) => {
                let mut out = chars_of("ignores[");
                push_dec(&mut out, pos as u64);
                append_lit(&mut out, "] is empty — remove the blank entry or give it a name/glob");
                return Err(ScriptVaultError::ConfigInvalid(string_of(&out)));
            },
            None => {},
        }
        match &self.editor {
            Some(e) => {
                let t = trim_str(e.as_str());
                if t.len() == 0 {
                    let m = "`editor:` is set but empty — remove it (to use $EDITOR) or give a command";
                    return Err(ScriptVaultError::ConfigInvalid(m.to_string()));
                }
            },
            None => {},
        }
        Ok(())
    }

    /// The shared end of loading: overlay the user layer (if any) on the
    /// defaults, expand `~` in every root against the user's home directory
    /// (whatever the environment reports), and validate.
    pub fn settle(defaults: Config, user: Option<Config>) -> (r: Result<Config, ScriptVaultError>)
        ensures
            exists|home: Option<Seq<char>>|
                settled_as(
                    r,
                    #[trigger] layered(defaults@, opt_config_view(user), home),
                ),
    {
        let merged = match user {
            Some(u) => defaults.merge_user(u),
            None => defaults,
        };
        let ghost mv = merged@;
        let config = merged.with_expanded_roots();
        proof {
            let h = choose|home: Option<Seq<char>>| config@.roots == expanded_roots(mv.roots, home);
            assert(config@ == layered(defaults@, opt_config_view(user), h));
        }
        match config.validate() {
            Ok(()) => Ok(config),
            Err(e) => Err(e),
        }
    }
}

/// The view of an optional configuration.
pub open spec fn opt_config_view(c: Option<Config>) -> Option<ConfigView> {
    match c {
        Some(c) => Some(c@),
        None => None,
    }
}

/// The defaults overlaid by the user layer (if any), roots expanded against
/// `home`.
pub open spec fn layered(d: ConfigView, u: Option<ConfigView>, home: Option<Seq<char>>) -> ConfigView {
    let m = match u {
        Some(u) => merged_config(d, u),
        None => d,
    };
    ConfigView { roots: expanded_roots(m.roots, home), ignores: m.ignores, editor: m.editor }
}

/// `r` is what validating `c` gives: `c` itself when valid, else the message.
pub open spec fn settled_as(r: Result<Config, ScriptVaultError>, c: ConfigView) -> bool {
    match validation(c) {
        Ok(()) => r matches Ok(x) && x@ == c,
        Err(msg) => r matches Err(ScriptVaultError::ConfigInvalid(s)) && s@ == msg,
    }
}

} // verus!
