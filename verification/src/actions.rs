//! The decisions behind the script actions (open in an editor, run, capture):
//! the editor's argv, the go-to-line convention per editor family, how a
//! script that is not directly executable is launched (its shebang
//! interpreter, `sh` for shell scripts, nothing otherwise), how much captured
//! output is kept, and how a finished run is reported. Spawning and waiting
//! are done by the caller.

use vstd::prelude::*;
use core::time::Duration;
use crate::error::ScriptVaultError;
use crate::model::Language;
use crate::path::{after_last_slash, basename, extension, extension_of};
use crate::text::{
    append_lit, chars_of, chars_of_string, contains_chars, dec, dec_int, eq_lit, has_prefix_lit,
    push_dec, push_dec_i32, split_whitespace, starts_with, string_of, trim_chars, trim_start,
    vecs_view, words,
};

verus! {

/// Default guardrail on a run, in seconds (30 minutes).
pub const DEFAULT_RUN_TIMEOUT_SECS: u64 = 1800;

/// Default number of bytes retained from each captured stream.
pub const DEFAULT_CAPTURE_BYTES: usize = 262144;

/// The whole seconds of a duration, as `Duration::as_secs` returns them.
pub uninterp spec fn whole_secs(d: Duration) -> u64;

/// `Duration::from_secs`: a duration of exactly `secs` seconds, so its whole
/// seconds are `secs`.
#[verifier::external_body]
fn duration_from_secs(secs: u64) -> (r: Duration)
    ensures
        whole_secs(r) == secs,
{
    Duration::from_secs(secs)
}

/// `Duration::as_secs`: the whole seconds of a duration (the fraction is
/// dropped).
#[verifier::external_body]
pub(crate) fn duration_secs(d: &Duration) -> (r: u64)
    ensures
        r == whole_secs(*d),
{
    d.as_secs()
}

/// Options shared by foreground and captured runs. `None` timeout = wait
/// forever.
#[derive(Debug, Clone, Copy, PartialEq, Eq)]
pub struct RunOptions {
    /// Maximum wall-clock runtime before the process group is killed.
    pub timeout: Option<Duration>,
    /// Maximum bytes retained from each output stream in capture mode.
    pub max_output_bytes: usize,
}

impl Default for RunOptions {
    fn default() -> (o: Self)
        ensures
            o.timeout is Some,
            whole_secs(o.timeout->0) == DEFAULT_RUN_TIMEOUT_SECS,
            o.max_output_bytes == DEFAULT_CAPTURE_BYTES,
    {
        RunOptions { timeout: Some(duration_from_secs(DEFAULT_RUN_TIMEOUT_SECS)), max_output_bytes: DEFAULT_CAPTURE_BYTES }
    }
}

/// The final state of a child process. `exit_code == None` means no normal
/// exit code was reported (signal, forced kill, unknown) — not success.
#[derive(Debug, Clone, Copy, PartialEq, Eq, Structural)]
pub struct WaitOutcome {
    pub exit_code: Option<i32>,
    /// Killed for exceeding the timeout.
    pub timed_out: bool,
}

impl Default for WaitOutcome {
    fn default() -> (o: Self)
        ensures
            o == (WaitOutcome { exit_code: None, timed_out: false }),
    {
        WaitOutcome { exit_code: None, timed_out: false }
    }
}

/// A clean run: exit code 0 and no timeout.
pub open spec fn clean_exit(o: WaitOutcome) -> bool {
    !o.timed_out && o.exit_code == Some(0i32)
}

impl WaitOutcome {
    /// A clean run: exit code 0 and no timeout.
    pub fn success(self) -> (r: bool)
        ensures
            r == clean_exit(self),
    {
        !self.timed_out && match self.exit_code {
            Some(c) => c == 0,
            None => false,
        }
    }
}

/// Captured output plus the child's outcome; each stream bounded, with a flag
/// telling a snippet from the full log.
#[derive(Debug, Clone, PartialEq, Eq)]
pub struct RunOutput {
    pub exit_code: Option<i32>,
    pub timed_out: bool,
    pub stdout: Vec<u8>,
    pub stderr: Vec<u8>,
    pub stdout_truncated: bool,
    pub stderr_truncated: bool,
}

impl RunOutput {
    /// A clean capture: exit code 0 and no timeout.
    pub fn success(&self) -> (r: bool)
        ensures
            r == (!self.timed_out && self.exit_code == Some(0i32)),
    {
        !self.timed_out && match self.exit_code {
            Some(c) => c == 0,
            None => false,
        }
    }
}

// ---------------------------------------------------------------------------
// Durations
// ---------------------------------------------------------------------------

/// A duration in whole seconds as text: whole minutes as `Nm`, else `Ns`.
pub open spec fn duration_text(secs: u64) -> Seq<char> {
    if secs >= 60 && secs % 60 == 0 {
        dec((secs / 60) as nat) + "m"@
    } else {
        dec(secs as nat) + "s"@
    }
}

/// Format a number of seconds (see [`duration_text`]).
pub fn format_secs(secs: u64) -> (out: String)
    ensures
        out@ == duration_text(secs),
{
    let mut v: Vec<char> = Vec::new();
    if secs >= 60 && secs % 60 == 0 {
        push_dec(&mut v, secs / 60);
        append_lit(&mut v, "m");
    } else {
        push_dec(&mut v, secs);
        append_lit(&mut v, "s");
    }
    string_of(&v)
}

/// Small human duration formatter for statuses and errors: the duration's
/// whole seconds formatted as [`duration_text`].
pub fn format_duration(duration: Duration) -> (out: String)
    ensures
        out@ == duration_text(whole_secs(duration)),
{
    format_secs(duration_secs(&duration))
}

// ---------------------------------------------------------------------------
// Commands
// ---------------------------------------------------------------------------

/// A program and its arguments.
#[derive(Debug, Clone, PartialEq, Eq)]
pub struct CommandSpec {
    pub program: String,
    pub args: Vec<String>,
}

/// The view of a command: program and arguments as texts.
pub open spec fn command_view(c: CommandSpec) -> (Seq<char>, Seq<Seq<char>>) {
    (c.program@, c.args@.map_values(|a: String| a@))
}

/// Editors taking `--goto file:N`.
pub open spec fn is_vscode_family(base: Seq<char>) -> bool {
    base == "code"@ || base == "codium"@ || base == "code-insiders"@
}

/// Editors taking `+N file`.
pub open spec fn is_plus_line_family(base: Seq<char>) -> bool {
    base == "vim"@ || base == "nvim"@ || base == "vi"@ || base == "nano"@ || base == "emacs"@
        || base == "emacsclient"@ || base == "kak"@ || base == "joe"@ || base == "micro"@
}

/// The arguments that open `path` at `line` in `program` (recognised by its
/// base name): `--goto path:N` for the VS Code family, `+N path` for the
/// terminal editors, just the path for any other editor.
pub open spec fn goto_args(program: Seq<char>, path: Seq<char>, line: nat) -> Seq<Seq<char>> {
    let base = after_last_slash(program);
    if is_vscode_family(base) {
        seq!["--goto"@, path + ":"@ + dec(line)]
    } else if is_plus_line_family(base) {
        seq!["+"@ + dec(line), path]
    } else {
        seq![path]
    }
}

/// Opening a file at a line, by the editor's own name whether it is given
/// bare or by a path: vim, nvim, vi, nano, emacs, emacsclient, kak, joe and
/// micro take `+N file`; code, codium and code-insiders take
/// `--goto file:N`; any other editor is given just the file.
pub proof fn lemma_goto_conventions(dir: Seq<char>, name: Seq<char>, path: Seq<char>, line: nat)
    requires
        forall|i: int| 0 <= i < name.len() ==> name[i] != '/',
    ensures
        (name == "vim"@ || name == "nvim"@ || name == "vi"@ || name == "nano"@ || name == "emacs"@
            || name == "emacsclient"@ || name == "kak"@ || name == "joe"@ || name == "micro"@) ==> {
            &&& goto_args(name, path, line) == seq!["+"@ + dec(line), path]
            &&& goto_args(dir + seq!['/'] + name, path, line) == seq!["+"@ + dec(line), path]
        },
        (name == "code"@ || name == "codium"@ || name == "code-insiders"@) ==> {
            &&& goto_args(name, path, line) == seq!["--goto"@, path + ":"@ + dec(line)]
            &&& goto_args(dir + seq!['/'] + name, path, line) == seq!["--goto"@, path + ":"@ + dec(line)]
        },
        !(name == "vim"@ || name == "nvim"@ || name == "vi"@ || name == "nano"@ || name == "emacs"@
            || name == "emacsclient"@ || name == "kak"@ || name == "joe"@ || name == "micro"@
            || name == "code"@ || name == "codium"@ || name == "code-insiders"@) ==> {
            &&& goto_args(name, path, line) == seq![path]
            &&& goto_args(dir + seq!['/'] + name, path, line) == seq![path]
        },
{
    reveal_strlit("vim");
    reveal_strlit("nvim");
    reveal_strlit("vi");
    reveal_strlit("nano");
    reveal_strlit("emacs");
    reveal_strlit("emacsclient");
    reveal_strlit("kak");
    reveal_strlit("joe");
    reveal_strlit("micro");
    reveal_strlit("code");
    reveal_strlit("codium");
    reveal_strlit("code-insiders");
    crate::path::lemma_after_last_slash_name(dir, name);
}

fn base_is_any(base: &Vec<char>, names: &[&str]) -> (r: bool)
    ensures
        r == exists|k: int| 0 <= k < names@.len() && base@ == (#[trigger] names@[k])@,
{
    let mut i: usize = 0;
    while i < names.len()
        invariant
            i <= names.len(),
            forall|k: int| 0 <= k < i ==> base@ != (#[trigger] names@[k])@,
        decreases names.len() - i,
    {
        if eq_lit(base, names[i]) {
            return true;
        }
        i += 1;
    }
    false
}

/// The go-to-line arguments (see [`goto_args`]).
pub fn goto_line_args(program: &str, path: &str, line: usize) -> (out: Vec<String>)
    ensures
        out@.map_values(|a: String| a@) == goto_args(program@, path@, line as nat),
{
    let base = basename(&chars_of(program));
    let vs = ["code", "codium", "code-insiders"];
    let plus = ["vim", "nvim", "vi", "nano", "emacs", "emacsclient", "kak", "joe", "micro"];
    let mut out: Vec<String> = Vec::new();
    let is_vs = base_is_any(&base, &vs);
    let is_plus = base_is_any(&base, &plus);
    proof {
        assert(is_vs == is_vscode_family(after_last_slash(program@))) by {
            if is_vscode_family(base@) {
                if base@ == "code"@ { assert(base@ == vs@[0]@); }
                if base@ == "codium"@ { assert(base@ == vs@[1]@); }
                if base@ == "code-insiders"@ { assert(base@ == vs@[2]@); }
            }
        }
        assert(is_plus == is_plus_line_family(after_last_slash(program@))) by {
            if is_plus_line_family(base@) {
                if base@ == "vim"@ { assert(base@ == plus@[0]@); }
                if base@ == "nvim"@ { assert(base@ == plus@[1]@); }
                if base@ == "vi"@ { assert(base@ == plus@[2]@); }
                if base@ == "nano"@ { assert(base@ == plus@[3]@); }
                if base@ == "emacs"@ { assert(base@ == plus@[4]@); }
                if base@ == "emacsclient"@ { assert(base@ == plus@[5]@); }
                if base@ == "kak"@ { assert(base@ == plus@[6]@); }
                if base@ == "joe"@ { assert(base@ == plus@[7]@); }
                if base@ == "micro"@ { assert(base@ == plus@[8]@); }
            }
        }
    }
    if is_vs {
        out.push("--goto".to_string());
        let mut g = chars_of(path);
        append_lit(&mut g, ":");
        push_dec(&mut g, line as u64);
        out.push(string_of(&g));
    } else if is_plus {
        let mut g = chars_of("+");
        push_dec(&mut g, line as u64);
        out.push(string_of(&g));
        out.push(path.to_string());
    } else {
        out.push(path.to_string());
    }
    proof {
        assert(out@.map_values(|a: String| a@) =~= goto_args(program@, path@, line as nat));
    }
    out
}

/// The message when no editor command is configured.
pub open spec fn no_editor_message() -> Seq<char> {
    "no editor configured (set `editor:` in config or $EDITOR)"@
}

/// The editor command that opens `path` (at `line`, when given): the first
/// word of `editor` is the program, the other words lead the arguments, then
/// the go-to-line arguments or just the path. A blank `editor` is an error.
pub open spec fn editor_command_of(editor: Seq<char>, path: Seq<char>, line: Option<usize>) -> Option<
    (Seq<char>, Seq<Seq<char>>),
> {
    let ws = words(editor);
    if ws.len() == 0 {
        None
    } else {
        Some(
            (
                ws[0],
                ws.drop_first() + match line {
                    Some(n) => goto_args(ws[0], path, n as nat),
                    None => seq![path],
                },
            ),
        )
    }
}

/// Build the editor command (see [`editor_command_of`]).
pub fn editor_command(editor: &str, path: &str, line: Option<usize>) -> (r: Result<CommandSpec, ScriptVaultError>)
    ensures
        match editor_command_of(editor@, path@, line) {
            Some(c) => r matches Ok(spec) && command_view(spec) == c,
            None => r matches Err(ScriptVaultError::Action { context, source }) && context@
                == no_editor_message() && source is None,
        },
{
    let ws = split_whitespace(&chars_of(editor));
    if ws.len() == 0 {
        return Err(
            ScriptVaultError::Action {
                context: "no editor configured (set `editor:` in config or $EDITOR)".to_string(),
                source: None,
            },
        );
    }
    let program = string_of(&ws[0]);
    let mut args: Vec<String> = Vec::new();
    let mut i: usize = 1;
    while i < ws.len()
        invariant
            1 <= i <= ws.len(),
            args.len() == i - 1,
            forall|k: int| 0 <= k < i - 1 ==> #[trigger] args@[k]@ == vecs_view(ws@)[k + 1],
        decreases ws.len() - i,
    {
        args.push(string_of(&ws[i]));
        i += 1;
    }
    let tail: Vec<String> = match line {
        Some(n) => goto_line_args(program.as_str(), path, n),
        None => {
            let mut t: Vec<String> = Vec::new();
            t.push(path.to_string());
            proof {
                assert(t@.map_values(|a: String| a@) =~= seq![path@]);
            }
            t
        },
    };
    let ghost head = args@.map_values(|a: String| a@);
    let mut j: usize = 0;
    while j < tail.len()
        invariant
            j <= tail.len(),
            args@.map_values(|a: String| a@) == head + tail@.map_values(|a: String| a@).take(j as int),
        decreases tail.len() - j,
    {
        let ghost before = args@;
        let item = crate::text::copy_string(&tail[j]);
        args.push(item);
        proof {
            assert(args@ =~= before.push(item));
            assert(args@.map_values(|a: String| a@) =~= before.map_values(|a: String| a@).push(tail@[j as int]@));
            assert(tail@.map_values(|a: String| a@).take(j + 1) =~= tail@.map_values(|a: String| a@).take(j as int).push(tail@[j as int]@));
            assert(args@.map_values(|a: String| a@) =~= head + tail@.map_values(|a: String| a@).take(j + 1));
        }
        j += 1;
    }
    proof {
        assert(head =~= vecs_view(ws@).drop_first());
        assert(tail@.map_values(|a: String| a@).take(tail.len() as int) =~= tail@.map_values(|a: String| a@));
    }
    Ok(CommandSpec { program, args })
}

// ---------------------------------------------------------------------------
// Launching a script that is not directly executable
// ---------------------------------------------------------------------------

/// The words after `#!` on a first line (leading whitespace allowed), or
/// `None` when the line is not a shebang.
pub open spec fn shebang_tokens(first_line: Seq<char>) -> Option<Seq<Seq<char>>> {
    let t = trim_start(first_line);
    if starts_with(t, "#!"@) {
        Some(words(t.skip(2)))
    } else {
        None
    }
}

/// Whether a text contains a character.
pub open spec fn has_char(s: Seq<char>, c: char) -> bool {
    exists|i: int| 0 <= i < s.len() && s[i] == c
}

/// The interpreter named by the arguments of an `env` shebang: after `-S`,
/// the next word and the rest as its arguments; otherwise the first word that
/// is neither an option (`-...`) nor an assignment (`...=...`), with the words
/// after it as arguments. The script path is the last argument.
pub open spec fn env_command(ts: Seq<Seq<char>>, path: Seq<char>) -> Option<(Seq<char>, Seq<Seq<char>>)>
    decreases ts.len(),
{
    if ts.len() == 0 {
        None
    } else if ts[0] == "-S"@ {
        if ts.len() > 1 {
            Some((ts[1], ts.skip(2).push(path)))
        } else {
            None
        }
    } else if starts_with(ts[0], "-"@) || has_char(ts[0], '=') {
        env_command(ts.drop_first(), path)
    } else {
        Some((ts[0], ts.drop_first().push(path)))
    }
}

/// The interpreter command a script's first line asks for, if any: the
/// program after `#!` with its arguments and the script path, or for
/// `.../env ...` the interpreter that `env` would run.
pub open spec fn shebang_command_of(first_line: Seq<char>, path: Seq<char>) -> Option<(Seq<char>, Seq<Seq<char>>)> {
    match shebang_tokens(first_line) {
        None => None,
        Some(ts) => if ts.len() == 0 {
            None
        } else if after_last_slash(ts[0]) == "env"@ {
            env_command(ts.drop_first(), path)
        } else {
            Some((ts[0], ts.drop_first().push(path)))
        },
    }
}

/// Whether a script without a shebang may be run by `sh`: it is known to be
/// Bash, or its extension is `sh`, `bash` or `zsh`.
pub open spec fn is_shell_script_spec(path: Seq<char>, lang_hint: Option<Language>) -> bool {
    lang_hint == Some(Language::Bash) || match extension_of(path) {
        Some(e) => e == "sh"@ || e == "bash"@ || e == "zsh"@,
        None => false,
    }
}

/// A script counts as a shell script when its language hint is Bash or its
/// extension is exactly `sh`, `bash` or `zsh`; nothing else does.
pub proof fn lemma_shell_scripts(path: Seq<char>, lang_hint: Option<Language>)
    ensures
        lang_hint == Some(Language::Bash) ==> is_shell_script_spec(path, lang_hint),
        extension_of(path) matches Some(e) && (e == "sh"@ || e == "bash"@ || e == "zsh"@) ==> is_shell_script_spec(
            path,
            lang_hint,
        ),
        lang_hint != Some(Language::Bash) && !(extension_of(path) matches Some(e) && (e == "sh"@ || e == "bash"@
            || e == "zsh"@)) ==> !is_shell_script_spec(path, lang_hint),
{
}

/// How to launch a script the OS would not execute directly: its shebang
/// interpreter; else `sh <path>` for a shell script; else nothing (a Python
/// or Ruby file is never fed to `sh`).
pub open spec fn fallback_command_of(first_line: Seq<char>, path: Seq<char>, lang_hint: Option<Language>) -> Option<
    (Seq<char>, Seq<Seq<char>>),
> {
    match shebang_command_of(first_line, path) {
        Some(c) => Some(c),
        None => if is_shell_script_spec(path, lang_hint) {
            Some(("sh"@, seq![path]))
        } else {
            None
        },
    }
}

fn strings_of(v: &Vec<Vec<char>>, from: usize) -> (out: Vec<String>)
    requires
        from <= v.len(),
    ensures
        out@.map_values(|a: String| a@) == vecs_view(v@).skip(from as int),
{
    let mut out: Vec<String> = Vec::new();
    let mut i = from;
    while i < v.len()
        invariant
            from <= i <= v.len(),
            out.len() == i - from,
            forall|k: int| 0 <= k < out.len() ==> #[trigger] out@[k]@ == vecs_view(v@)[from + k],
        decreases v.len() - i,
    {
        out.push(string_of(&v[i]));
        i += 1;
    }
    proof {
        assert(out@.map_values(|a: String| a@) =~= vecs_view(v@).skip(from as int));
    }
    out
}

fn command_with_path(program: &Vec<char>, args: Vec<String>, path: &str) -> (c: CommandSpec)
    ensures
        command_view(c) == (program@, args@.map_values(|a: String| a@).push(path@)),
{
    let mut args = args;
    let ghost before = args@;
    let p = path.to_string();
    args.push(p);
    proof {
        assert(args@ =~= before.push(p));
        assert(args@.map_values(|a: String| a@) =~= before.map_values(|a: String| a@).push(path@));
    }
    CommandSpec { program: string_of(program), args }
}

fn env_command_exec(ts: &Vec<Vec<char>>, from: usize, path: &str) -> (r: Option<CommandSpec>)
    requires
        from <= ts.len(),
    ensures
        match env_command(vecs_view(ts@).skip(from as int), path@) {
            Some(c) => r matches Some(spec) && command_view(spec) == c,
            None => r is None,
        },
    decreases ts.len() - from,
{
    let ghost rest = vecs_view(ts@).skip(from as int);
    if from == ts.len() {
        return None;
    }
    proof {
        assert(rest[0] == ts@[from as int]@);
        assert(rest.drop_first() =~= vecs_view(ts@).skip(from + 1));
        reveal_strlit("-S");
        reveal_strlit("-");
    }
    let t = &ts[from];
    if eq_lit(t, "-S") {
        if from + 1 < ts.len() {
            let args = strings_of(ts, from + 2);
            proof {
                assert(rest[1] == ts@[from + 1]@);
                assert(rest.skip(2) =~= vecs_view(ts@).skip(from + 2));
            }
            return Some(command_with_path(&ts[from + 1], args, path));
        }
        return None;
    }
    let mut eq = Vec::new();
    eq.push('=');
    let dash = has_prefix_lit(t, "-");
    let has_eq = contains_chars(t, &eq);
    proof {
        assert(eq@ =~= seq!['=']);
        if has_eq {
            let i = choose|i: int| crate::text::occurs_at(t@, eq@, i);
            assert(t@.subrange(i, i + 1)[0] == t@[i]);
        }
        if has_char(t@, '=') {
            let i = choose|i: int| 0 <= i < t@.len() && t@[i] == '=';
            assert(t@.subrange(i, i + 1) =~= eq@);
            assert(crate::text::occurs_at(t@, eq@, i));
        }
    }
    if dash || has_eq {
        return env_command_exec(ts, from + 1, path);
    }
    let args = strings_of(ts, from + 1);
    Some(command_with_path(t, args, path))
}

/// The interpreter command a first line asks for (see [`shebang_command_of`]).
pub fn shebang_command(first_line: &str, path: &str) -> (r: Option<CommandSpec>)
    ensures
        match shebang_command_of(first_line@, path@) {
            Some(c) => r matches Some(spec) && command_view(spec) == c,
            None => r is None,
        },
{
    let line = chars_of(first_line);
    let t = crate::text::trim_start_chars(&line);
    proof {
        reveal_strlit("#!");
        reveal_strlit("env");
    }
    if !has_prefix_lit(&t, "#!") {
        return None;
    }
    let body = crate::text::slice(&t, 2, t.len());
    let ts = split_whitespace(&body);
    proof {
        assert(body@ =~= t@.skip(2));
    }
    if ts.len() == 0 {
        return None;
    }
    let base = basename(&ts[0]);
    if eq_lit(&base, "env") {
        return env_command_exec(&ts, 1, path);
    }
    let args = strings_of(&ts, 1);
    proof {
        assert(vecs_view(ts@).skip(1) =~= vecs_view(ts@).drop_first());
    }
    Some(command_with_path(&ts[0], args, path))
}

/// Whether a script without a shebang may be run by `sh`.
pub fn is_shell_script(path: &str, lang_hint: Option<Language>) -> (r: bool)
    ensures
        r == is_shell_script_spec(path@, lang_hint),
{
    match lang_hint {
        Some(Language::Bash) => return true,
        _ => {},
    }
    match extension(&chars_of(path)) {
        Some(e) => eq_lit(&e, "sh") || eq_lit(&e, "bash") || eq_lit(&e, "zsh"),
        None => false,
    }
}

/// How to launch a script the OS would not execute directly, given its first
/// line (see [`fallback_command_of`]).
pub fn fallback_command(first_line: &str, path: &str, lang_hint: Option<Language>) -> (r: Option<CommandSpec>)
    ensures
        match fallback_command_of(first_line@, path@, lang_hint) {
            Some(c) => r matches Some(spec) && command_view(spec) == c,
            None => r is None,
        },
{
    match shebang_command(first_line, path) {
        Some(c) => Some(c),
        None => {
            if is_shell_script(path, lang_hint) {
                proof {
                    reveal_strlit("sh");
                }
                let c = command_with_path(&chars_of("sh"), Vec::new(), path);
                proof {
                    assert(Seq::<String>::empty().map_values(|a: String| a@).push(path@) =~= seq![path@]);
                }
                Some(c)
            } else {
                None
            }
        },
    }
}

// ---------------------------------------------------------------------------
// Reporting a finished run
// ---------------------------------------------------------------------------

/// The message for a run that did not succeed, given the text of its timeout.
pub open spec fn failure_text(outcome: WaitOutcome, label: Seq<char>, timeout_text: Seq<char>) -> Seq<char> {
    if outcome.timed_out {
        label + " timed out after "@ + timeout_text
    } else {
        match outcome.exit_code {
            Some(c) => label + " exited with status "@ + dec_int(c as int),
            None => label + " exited without a reported status"@,
        }
    }
}

/// The text that names a timeout: the duration's whole seconds formatted as
/// [`duration_text`], or "configured timeout" when there is none.
pub open spec fn timeout_text(timeout: Option<Duration>) -> Seq<char> {
    match timeout {
        Some(d) => duration_text(whole_secs(d)),
        None => "configured timeout"@,
    }
}

/// `r` is an action error with this message and no underlying error.
pub open spec fn action_error(r: Result<(), ScriptVaultError>, msg: Seq<char>) -> bool {
    r matches Err(ScriptVaultError::Action { context, source }) && source is None && context@ == msg
}

/// Turn a finished run into a result: `Ok` exactly when it succeeded, else an
/// action error saying it timed out (after the formatted timeout, or "after
/// configured timeout" without one), exited with a status, or exited without
/// one. `label` names the script.
pub fn finish_outcome(outcome: WaitOutcome, label: &str, timeout: Option<Duration>) -> (r: Result<(), ScriptVaultError>)
    ensures
        clean_exit(outcome) ==> r is Ok,
        !clean_exit(outcome) ==> action_error(r, failure_text(outcome, label@, timeout_text(timeout))),
{
    if outcome.success() {
        return Ok(());
    }
    let mut out = chars_of(label);
    if outcome.timed_out {
        let tt = match timeout {
            Some(d) => format_duration(d),
            None => {
                proof {
                    reveal_strlit("configured timeout");
                }
                "configured timeout".to_string()
            },
        };
        assert(tt@ == timeout_text(timeout));
        append_lit(&mut out, " timed out after ");
        append_lit(&mut out, tt.as_str());
    } else {
        match outcome.exit_code {
            Some(c) => {
                append_lit(&mut out, " exited with status ");
                push_dec_i32(&mut out, c);
            },
            None => {
                append_lit(&mut out, " exited without a reported status");
            },
        }
    }
    let r = Err(ScriptVaultError::Action { context: string_of(&out), source: None });
    proof {
        assert(out@ =~= failure_text(outcome, label@, timeout_text(timeout)));
    }
    r
}

// ---------------------------------------------------------------------------
// Bounded capture
// ---------------------------------------------------------------------------

/// The bytes kept of everything read: the first `limit`.
pub open spec fn retained_of(all: Seq<u8>, limit: usize) -> Seq<u8> {
    if all.len() <= limit {
        all
    } else {
        all.take(limit as int)
    }
}

/// Keep as much of a newly read chunk as the limit allows; `true` when some of
/// it had to be dropped.
pub fn retain_chunk(retained: &mut Vec<u8>, chunk: &[u8], limit: usize) -> (dropped: bool)
    ensures
        ({
            let remaining = if old(retained)@.len() < limit {
                limit - old(retained)@.len()
            } else {
                0
            };
            &&& final(retained)@ == old(retained)@ + (if chunk@.len() <= remaining {
                chunk@
            } else {
                chunk@.take(remaining)
            })
            &&& dropped == (chunk@.len() > remaining)
        }),
{
    let remaining = if retained.len() < limit {
        limit - retained.len()
    } else {
        0
    };
    let n = if chunk.len() <= remaining {
        chunk.len()
    } else {
        remaining
    };
    let ghost start = retained@;
    let mut i: usize = 0;
    while i < n
        invariant
            i <= n,
            n <= chunk@.len(),
            retained@ == start + chunk@.take(i as int),
        decreases n - i,
    {
        retained.push(chunk[i]);
        proof {
            assert(retained@ =~= start + chunk@.take(i + 1));
        }
        i += 1;
    }
    proof {
        if chunk@.len() <= remaining {
            assert(chunk@.take(n as int) =~= chunk@);
        }
    }
    chunk.len() > remaining
}

/// Retaining chunk by chunk keeps exactly the first `limit` bytes of all that
/// was read, and some chunk reports a drop exactly when more than `limit`
/// bytes were read in all.
pub proof fn lemma_retained_prefix(all: Seq<u8>, chunk: Seq<u8>, limit: usize)
    ensures
        ({
            let kept = retained_of(all, limit);
            let remaining = if kept.len() < limit {
                limit - kept.len()
            } else {
                0
            };
            &&& kept + (if chunk.len() <= remaining {
                chunk
            } else {
                chunk.take(remaining)
            }) == retained_of(all + chunk, limit)
            &&& (all.len() > limit || chunk.len() > remaining) == ((all + chunk).len() > limit)
        }),
{
    let kept = retained_of(all, limit);
    let remaining = if kept.len() < limit {
        limit - kept.len()
    } else {
        0
    };
    if all.len() <= limit {
        if chunk.len() <= remaining {
            assert(kept + chunk =~= retained_of(all + chunk, limit));
        } else {
            assert(kept + chunk.take(remaining) =~= (all + chunk).take(limit as int));
        }
    } else {
        assert(chunk.take(0) =~= Seq::<u8>::empty());
        assert(kept + chunk.take(0) =~= (all + chunk).take(limit as int));
    }
}

} // verus!
