//! Language inference. The leader language (shebang, then extension) picks
//! the comment leader used to read the header; the resolved language lets an
//! explicit `lang` label override it afterwards.

use vstd::prelude::*;
use crate::model::{language_from_label, Language};
use crate::path::{after_last_slash, basename, extension, extension_of};
use crate::text::{
    ascii_lower_seq, ascii_lowercase, chars_of, eq_lit, skip_ws, slice, split_whitespace,
    starts_with, strip_prefix, trim_start, vecs_view, words,
};

verus! {

/// The language an interpreter name denotes.
pub open spec fn interpreter_language(prog: Seq<char>) -> Option<Language> {
    if prog == "bash"@ || prog == "sh"@ || prog == "zsh"@ || prog == "dash"@ || prog == "ksh"@ {
        Some(Language::Bash)
    } else if prog == "python"@ {
        Some(Language::Python)
    } else if prog == "node"@ || prog == "nodejs"@ || prog == "deno"@ || prog == "bun"@ {
        Some(Language::Node)
    } else if prog == "ruby"@ {
        Some(Language::Ruby)
    } else if prog == "lua"@ || prog == "luajit"@ {
        Some(Language::Lua)
    } else {
        None
    }
}

/// The language a (lowercased) file extension denotes.
pub open spec fn extension_language(ext: Seq<char>) -> Option<Language> {
    if ext == "sh"@ || ext == "bash"@ || ext == "zsh"@ {
        Some(Language::Bash)
    } else if ext == "py"@ {
        Some(Language::Python)
    } else if ext == "rs"@ {
        Some(Language::Rust)
    } else if ext == "js"@ || ext == "mjs"@ || ext == "cjs"@ || ext == "ts"@ {
        Some(Language::Node)
    } else if ext == "rb"@ {
        Some(Language::Ruby)
    } else if ext == "lua"@ {
        Some(Language::Lua)
    } else if ext == "sql"@ {
        Some(Language::Sql)
    } else {
        None
    }
}

/// Whether `c` is an ASCII digit or a dot.
pub open spec fn is_version_char(c: char) -> bool {
    ('0' <= c && c <= '9') || c == '.'
}

/// `s` without its trailing run of digits and dots.
pub open spec fn trim_version_chars(s: Seq<char>) -> Seq<char>
    decreases s.len(),
{
    if s.len() > 0 && is_version_char(s.last()) {
        trim_version_chars(s.drop_last())
    } else {
        s
    }
}

/// Strip a trailing version (`python3.11` to `python`), keeping the original
/// when nothing would remain.
pub open spec fn strip_version(prog: Seq<char>) -> Seq<char> {
    if trim_version_chars(prog).len() == 0 {
        prog
    } else {
        trim_version_chars(prog)
    }
}

/// Index of the first token at or after `i` that does not start with `-`.
pub open spec fn first_non_flag(tokens: Seq<Seq<char>>, i: int) -> Option<int>
    decreases tokens.len() - i,
{
    if i < 0 || i >= tokens.len() {
        None
    } else if starts_with(tokens[i], "-"@) {
        first_non_flag(tokens, i + 1)
    } else {
        Some(i)
    }
}

/// The interpreter program a shebang line names (before version stripping).
pub open spec fn shebang_program(first_line: Seq<char>) -> Option<Seq<char>> {
    match strip_prefix(trim_start(first_line), "#!"@) {
        None => None,
        Some(rest) => {
            let tokens = words(rest);
            if tokens.len() == 0 {
                None
            } else {
                let prog = after_last_slash(tokens[0]);
                if prog == "env"@ {
                    match first_non_flag(tokens, 1) {
                        Some(k) => Some(after_last_slash(tokens[k])),
                        None => None,
                    }
                } else {
                    Some(prog)
                }
            }
        },
    }
}

/// The language a shebang line names, if any.
pub open spec fn shebang_language(first_line: Seq<char>) -> Option<Language> {
    match shebang_program(first_line) {
        Some(p) => interpreter_language(strip_version(p)),
        None => None,
    }
}

/// The language a path's extension names (ASCII case-insensitive), if any.
pub open spec fn path_extension_language(path: Seq<char>) -> Option<Language> {
    match extension_of(path) {
        Some(e) => extension_language(ascii_lower_seq(e)),
        None => None,
    }
}

/// Shebang first, then extension, then `Unknown`.
pub open spec fn leader_language_spec(path: Seq<char>, first_line: Seq<char>) -> Language {
    match shebang_language(first_line) {
        Some(l) => l,
        None => match path_extension_language(path) {
            Some(l) => l,
            None => Language::Unknown,
        },
    }
}

/// Without a recognized shebang the extension decides, ASCII case ignored:
/// `sh`, `bash`, `zsh` are Bash; `py` Python; `rs` Rust; `js`, `mjs`, `cjs`,
/// `ts` Node; `rb` Ruby; `lua` Lua; `sql` SQL. Exactly these extensions make
/// a known script; any other extension, or none, leaves the language Unknown.
pub proof fn lemma_extension_decides(path: Seq<char>, first_line: Seq<char>)
    requires
        shebang_language(first_line) is None,
    ensures
        extension_of(path) matches Some(e) && (ascii_lower_seq(e) == "sh"@ || ascii_lower_seq(e) == "bash"@
            || ascii_lower_seq(e) == "zsh"@) ==> leader_language_spec(path, first_line) == Language::Bash
            && path_extension_language(path) is Some,
        extension_of(path) matches Some(e) && ascii_lower_seq(e) == "py"@ ==> leader_language_spec(path, first_line)
            == Language::Python && path_extension_language(path) is Some,
        extension_of(path) matches Some(e) && ascii_lower_seq(e) == "rs"@ ==> leader_language_spec(path, first_line)
            == Language::Rust && path_extension_language(path) is Some,
        extension_of(path) matches Some(e) && (ascii_lower_seq(e) == "js"@ || ascii_lower_seq(e) == "mjs"@
            || ascii_lower_seq(e) == "cjs"@ || ascii_lower_seq(e) == "ts"@) ==> leader_language_spec(path, first_line)
            == Language::Node && path_extension_language(path) is Some,
        extension_of(path) matches Some(e) && ascii_lower_seq(e) == "rb"@ ==> leader_language_spec(path, first_line)
            == Language::Ruby && path_extension_language(path) is Some,
        extension_of(path) matches Some(e) && ascii_lower_seq(e) == "lua"@ ==> leader_language_spec(path, first_line)
            == Language::Lua && path_extension_language(path) is Some,
        extension_of(path) matches Some(e) && ascii_lower_seq(e) == "sql"@ ==> leader_language_spec(path, first_line)
            == Language::Sql && path_extension_language(path) is Some,
        !(extension_of(path) matches Some(e) && (ascii_lower_seq(e) == "sh"@ || ascii_lower_seq(e) == "bash"@
            || ascii_lower_seq(e) == "zsh"@ || ascii_lower_seq(e) == "py"@ || ascii_lower_seq(e) == "rs"@
            || ascii_lower_seq(e) == "js"@ || ascii_lower_seq(e) == "mjs"@ || ascii_lower_seq(e) == "cjs"@
            || ascii_lower_seq(e) == "ts"@ || ascii_lower_seq(e) == "rb"@ || ascii_lower_seq(e) == "lua"@
            || ascii_lower_seq(e) == "sql"@)) ==> leader_language_spec(path, first_line) == Language::Unknown
            && path_extension_language(path) is None,
{
    reveal_strlit("sh");
    reveal_strlit("bash");
    reveal_strlit("zsh");
    reveal_strlit("py");
    reveal_strlit("rs");
    reveal_strlit("js");
    reveal_strlit("mjs");
    reveal_strlit("cjs");
    reveal_strlit("ts");
    reveal_strlit("rb");
    reveal_strlit("lua");
    reveal_strlit("sql");
    assert("sh"@[0] == 's' && "bash"@[0] == 'b' && "zsh"@[0] == 'z' && "py"@[0] == 'p' && "rs"@[0] == 'r'
        && "js"@[0] == 'j' && "mjs"@[0] == 'm' && "cjs"@[0] == 'c' && "ts"@[0] == 't' && "rb"@[0] == 'r'
        && "lua"@[0] == 'l' && "sql"@[0] == 's' && "rs"@[1] == 's' && "rb"@[1] == 'b');
    match extension_of(path) {
        Some(e) => {
            let k = ascii_lower_seq(e);
            if k.len() > 1 {
                assert(k[0] == k[0] && k[1] == k[1]);
            }
        },
        None => {},
    }
}

/// A plain lowercase name: letters only.
pub open spec fn is_letters(name: Seq<char>) -> bool {
    name.len() > 0 && forall|i: int| 0 <= i < name.len() ==> 'a' <= #[trigger] name[i] && name[i] <= 'z'
}

proof fn lemma_plain_name(name: Seq<char>)
    requires
        is_letters(name),
    ensures
        crate::text::is_word(name),
        forall|i: int| 0 <= i < name.len() ==> #[trigger] name[i] != '/' && !is_version_char(name[i]),
        name[0] != '-',
{
}

/// Trailing version characters come off down to a name that ends in none.
proof fn lemma_trim_version_suffix(name: Seq<char>, ver: Seq<char>)
    requires
        name.len() > 0,
        !is_version_char(name.last()),
        forall|i: int| 0 <= i < ver.len() ==> is_version_char(#[trigger] ver[i]),
    ensures
        trim_version_chars(name + ver) == name,
        strip_version(name + ver) == name,
    decreases ver.len(),
{
    if ver.len() > 0 {
        assert((name + ver).drop_last() =~= name + ver.drop_last());
        assert((name + ver).last() == ver.last());
        lemma_trim_version_suffix(name, ver.drop_last());
    } else {
        assert(name + ver =~= name);
    }
}

/// The program a shebang names, by path or through `env`.
proof fn lemma_shebang_prog(dir: Seq<char>, prog: Seq<char>)
    requires
        crate::text::is_word(dir),
        crate::text::is_word(prog),
        forall|i: int| 0 <= i < prog.len() ==> #[trigger] prog[i] != '/',
        prog[0] != '-',
        prog != "env"@,
    ensures
        shebang_program("#!"@ + dir + seq!['/'] + prog) == Some(prog),
        shebang_program("#!/usr/bin/env "@ + prog) == Some(prog),
{
    reveal_strlit("#!");
    reveal_strlit("#!/usr/bin/env ");
    reveal_strlit("/usr/bin/env");
    reveal_strlit("/usr/bin");
    reveal_strlit("env");
    reveal_strlit("-");
    reveal_strlit(" ");
    // by path
    let l1 = "#!"@ + dir + seq!['/'] + prog;
    let r1 = dir + seq!['/'] + prog;
    crate::text::lemma_ws_prefix_len(l1, 0);
    assert(crate::text::trim_start(l1) =~= l1);
    assert(l1.take(2) =~= "#!"@);
    assert(l1.skip(2) =~= r1);
    assert forall|i: int| 0 <= i < r1.len() implies !crate::text::is_ws(#[trigger] r1[i]) by {
        if i < dir.len() {
            assert(r1[i] == dir[i]);
        } else if i > dir.len() {
            assert(r1[i] == prog[i - dir.len() - 1]);
        }
    }
    crate::text::lemma_single_word(r1);
    crate::path::lemma_after_last_slash_name(dir, prog);
    // through env
    let a = "/usr/bin/env"@;
    let l2 = "#!/usr/bin/env "@ + prog;
    let r2 = a + " "@ + prog;
    crate::text::lemma_ws_prefix_len(l2, 0);
    assert(crate::text::trim_start(l2) =~= l2);
    assert(l2.take(2) =~= "#!"@);
    assert(l2.skip(2) =~= r2);
    let ws = seq![a, prog];
    assert(crate::text::is_word(a));
    assert forall|k: int| 0 <= k < ws.len() implies crate::text::is_word(#[trigger] ws[k]) by {}
    assert(ws.drop_last() =~= seq![a]);
    assert(crate::text::join(ws, " "@) == crate::text::join(seq![a], " "@) + " "@ + prog);
    assert(crate::text::join(ws, " "@) =~= r2);
    crate::text::lemma_words_of_join(ws);
    assert(a =~= "/usr/bin"@ + seq!['/'] + "env"@);
    crate::path::lemma_after_last_slash_name("/usr/bin"@, "env"@);
    assert(!starts_with(prog, "-"@)) by {
        assert(prog.take(1)[0] == prog[0]);
    }
    assert(first_non_flag(ws, 1) == Some(1int));
    crate::path::lemma_after_last_slash_name(Seq::<char>::empty(), prog);
    assert(r1[0] == dir[0]);
}

/// One interpreter name, by path or through `env`, with a version suffix.
proof fn lemma_interpreter_case(dir: Seq<char>, name: Seq<char>, ver: Seq<char>, path: Seq<char>, lang: Language)
    requires
        crate::text::is_word(dir),
        forall|i: int| 0 <= i < ver.len() ==> ('0' <= #[trigger] ver[i] && ver[i] <= '9') || ver[i] == '.',
        is_letters(name),
        interpreter_language(name) == Some(lang),
    ensures
        leader_language_spec(path, "#!"@ + dir + seq!['/'] + name + ver) == lang,
        leader_language_spec(path, "#!/usr/bin/env "@ + name + ver) == lang,
{
    reveal_strlit("env");
    lemma_plain_name(name);
    let prog = name + ver;
    assert forall|i: int| 0 <= i < prog.len() implies !crate::text::is_ws(#[trigger] prog[i]) && prog[i] != '/' by {
        if i >= name.len() {
            assert(prog[i] == ver[i - name.len()]);
        } else {
            assert(prog[i] == name[i]);
        }
    }
    assert(prog[0] == name[0]);
    assert(prog != "env"@) by {
        if prog == "env"@ {
            assert(prog.len() == 3);
            assert(forall|i: int| 0 <= i < ver.len() ==> #[trigger] ver[i] != 'e' && ver[i] != 'n' && ver[i] != 'v');
            if name.len() < 3 {
                assert(prog[2] == ver[2 - name.len()]);
            }
            assert(name == "env"@) by {
                assert(name =~= prog.take(name.len() as int));
            }
            assert(interpreter_language("env"@) is None) by {
                reveal_strlit("bash");
                reveal_strlit("sh");
                reveal_strlit("zsh");
                reveal_strlit("dash");
                reveal_strlit("ksh");
                reveal_strlit("python");
                reveal_strlit("node");
                reveal_strlit("nodejs");
                reveal_strlit("deno");
                reveal_strlit("bun");
                reveal_strlit("ruby");
                reveal_strlit("lua");
                reveal_strlit("luajit");
                assert("env"@[0] == 'e' && "bash"@[0] == 'b' && "sh"@[0] == 's' && "zsh"@[0] == 'z' && "dash"@[0] == 'd'
                    && "ksh"@[0] == 'k' && "python"@[0] == 'p' && "node"@[0] == 'n' && "nodejs"@[0] == 'n'
                    && "deno"@[0] == 'd' && "bun"@[0] == 'b' && "ruby"@[0] == 'r' && "lua"@[0] == 'l'
                    && "luajit"@[0] == 'l');
            }
        }
    }
    lemma_trim_version_suffix(name, ver);
    lemma_shebang_prog(dir, prog);
    assert("#!"@ + dir + seq!['/'] + name + ver =~= "#!"@ + dir + seq!['/'] + prog);
    assert("#!/usr/bin/env "@ + name + ver =~= "#!/usr/bin/env "@ + prog);
}

/// A shebang names its interpreter by path (`#!<dir>/<name>`) or through
/// `env` (`#!/usr/bin/env <name>`), with any version digits after the name:
/// bash, sh, zsh, dash and ksh are Bash; python is Python; node, nodejs,
/// deno and bun are Node; ruby is Ruby; lua and luajit are Lua. Such a
/// shebang decides the language whatever the file is called.
pub proof fn lemma_shebang_interpreters(dir: Seq<char>, name: Seq<char>, ver: Seq<char>, path: Seq<char>)
    requires
        crate::text::is_word(dir),
        forall|i: int| 0 <= i < ver.len() ==> ('0' <= #[trigger] ver[i] && ver[i] <= '9') || ver[i] == '.',
    ensures
        (name == "bash"@ || name == "sh"@ || name == "zsh"@ || name == "dash"@ || name == "ksh"@) ==> leader_language_spec(path, "#!"@ + dir + seq!['/'] + name + ver) == Language::Bash
            && leader_language_spec(path, "#!/usr/bin/env "@ + name + ver) == Language::Bash,
        (name == "python"@) ==> leader_language_spec(path, "#!"@ + dir + seq!['/'] + name + ver) == Language::Python
            && leader_language_spec(path, "#!/usr/bin/env "@ + name + ver) == Language::Python,
        (name == "node"@ || name == "nodejs"@ || name == "deno"@ || name == "bun"@) ==> leader_language_spec(path, "#!"@ + dir + seq!['/'] + name + ver) == Language::Node
            && leader_language_spec(path, "#!/usr/bin/env "@ + name + ver) == Language::Node,
        (name == "ruby"@) ==> leader_language_spec(path, "#!"@ + dir + seq!['/'] + name + ver) == Language::Ruby
            && leader_language_spec(path, "#!/usr/bin/env "@ + name + ver) == Language::Ruby,
        (name == "lua"@ || name == "luajit"@) ==> leader_language_spec(path, "#!"@ + dir + seq!['/'] + name + ver) == Language::Lua
            && leader_language_spec(path, "#!/usr/bin/env "@ + name + ver) == Language::Lua,
{
    reveal_strlit("bash");
    reveal_strlit("sh");
    reveal_strlit("zsh");
    reveal_strlit("dash");
    reveal_strlit("ksh");
    reveal_strlit("python");
    reveal_strlit("node");
    reveal_strlit("nodejs");
    reveal_strlit("deno");
    reveal_strlit("bun");
    reveal_strlit("ruby");
    reveal_strlit("lua");
    reveal_strlit("luajit");
    assert("bash"@.len() == 4 && "sh"@.len() == 2 && "zsh"@.len() == 3 && "dash"@.len() == 4 && "ksh"@.len() == 3 && "python"@.len() == 6 && "node"@.len() == 4 && "nodejs"@.len() == 6 && "deno"@.len() == 4 && "bun"@.len() == 3 && "ruby"@.len() == 4 && "lua"@.len() == 3 && "luajit"@.len() == 6 && "bash"@[0] == 'b' && "bash"@[1] == 'a' && "bash"@[2] == 's' && "sh"@[0] == 's' && "sh"@[1] == 'h' && "zsh"@[0] == 'z' && "zsh"@[1] == 's' && "zsh"@[2] == 'h' && "dash"@[0] == 'd' && "dash"@[1] == 'a' && "dash"@[2] == 's' && "ksh"@[0] == 'k' && "ksh"@[1] == 's' && "ksh"@[2] == 'h' && "python"@[0] == 'p' && "python"@[1] == 'y' && "python"@[2] == 't' && "node"@[0] == 'n' && "node"@[1] == 'o' && "node"@[2] == 'd' && "nodejs"@[0] == 'n' && "nodejs"@[1] == 'o' && "nodejs"@[2] == 'd' && "deno"@[0] == 'd' && "deno"@[1] == 'e' && "deno"@[2] == 'n' && "bun"@[0] == 'b' && "bun"@[1] == 'u' && "bun"@[2] == 'n' && "ruby"@[0] == 'r' && "ruby"@[1] == 'u' && "ruby"@[2] == 'b' && "lua"@[0] == 'l' && "lua"@[1] == 'u' && "lua"@[2] == 'a' && "luajit"@[0] == 'l' && "luajit"@[1] == 'u' && "luajit"@[2] == 'a');
    if name.len() > 2 {
        assert(name[0] == name[0] && name[1] == name[1] && name[2] == name[2]);
    }
    if name == "bash"@ {
        assert(is_letters(name));
        assert(interpreter_language(name) == Some(Language::Bash));
        lemma_interpreter_case(dir, name, ver, path, Language::Bash);
    }
    if name == "sh"@ {
        assert(is_letters(name));
        assert(interpreter_language(name) == Some(Language::Bash));
        lemma_interpreter_case(dir, name, ver, path, Language::Bash);
    }
    if name == "zsh"@ {
        assert(is_letters(name));
        assert(interpreter_language(name) == Some(Language::Bash));
        lemma_interpreter_case(dir, name, ver, path, Language::Bash);
    }
    if name == "dash"@ {
        assert(is_letters(name));
        assert(interpreter_language(name) == Some(Language::Bash));
        lemma_interpreter_case(dir, name, ver, path, Language::Bash);
    }
    if name == "ksh"@ {
        assert(is_letters(name));
        assert(interpreter_language(name) == Some(Language::Bash));
        lemma_interpreter_case(dir, name, ver, path, Language::Bash);
    }
    if name == "python"@ {
        assert(is_letters(name));
        assert(interpreter_language(name) == Some(Language::Python));
        lemma_interpreter_case(dir, name, ver, path, Language::Python);
    }
    if name == "node"@ {
        assert(is_letters(name));
        assert(interpreter_language(name) == Some(Language::Node));
        lemma_interpreter_case(dir, name, ver, path, Language::Node);
    }
    if name == "nodejs"@ {
        assert(is_letters(name));
        assert(interpreter_language(name) == Some(Language::Node));
        lemma_interpreter_case(dir, name, ver, path, Language::Node);
    }
    if name == "deno"@ {
        assert(is_letters(name));
        assert(interpreter_language(name) == Some(Language::Node));
        lemma_interpreter_case(dir, name, ver, path, Language::Node);
    }
    if name == "bun"@ {
        assert(is_letters(name));
        assert(interpreter_language(name) == Some(Language::Node));
        lemma_interpreter_case(dir, name, ver, path, Language::Node);
    }
    if name == "ruby"@ {
        assert(is_letters(name));
        assert(interpreter_language(name) == Some(Language::Ruby));
        lemma_interpreter_case(dir, name, ver, path, Language::Ruby);
    }
    if name == "lua"@ {
        assert(is_letters(name));
        assert(interpreter_language(name) == Some(Language::Lua));
        lemma_interpreter_case(dir, name, ver, path, Language::Lua);
    }
    if name == "luajit"@ {
        assert(is_letters(name));
        assert(interpreter_language(name) == Some(Language::Lua));
        lemma_interpreter_case(dir, name, ver, path, Language::Lua);
    }
}

/// An explicit, recognized label wins; otherwise the leader language stands.
pub open spec fn resolved_language(leader: Language, declared: Option<Seq<char>>) -> Language {
    match declared {
        Some(d) => match language_from_label(d) {
            Some(l) => l,
            None => leader,
        },
        None => leader,
    }
}

fn interpreter_to_language(prog: &Vec<char>) -> (r: Option<Language>)
    ensures
        r == interpreter_language(prog@),
{
    if eq_lit(prog, "bash") || eq_lit(prog, "sh") || eq_lit(prog, "zsh") || eq_lit(prog, "dash")
        || eq_lit(prog, "ksh") {
        Some(Language::Bash)
    } else if eq_lit(prog, "python") {
        Some(Language::Python)
    } else if eq_lit(prog, "node") || eq_lit(prog, "nodejs") || eq_lit(prog, "deno") || eq_lit(
        prog,
        "bun",
    ) {
        Some(Language::Node)
    } else if eq_lit(prog, "ruby") {
        Some(Language::Ruby)
    } else if eq_lit(prog, "lua") || eq_lit(prog, "luajit") {
        Some(Language::Lua)
    } else {
        None
    }
}

fn ext_to_language(ext: &Vec<char>) -> (r: Option<Language>)
    ensures
        r == extension_language(ext@),
{
    if eq_lit(ext, "sh") || eq_lit(ext, "bash") || eq_lit(ext, "zsh") {
        Some(Language::Bash)
    } else if eq_lit(ext, "py") {
        Some(Language::Python)
    } else if eq_lit(ext, "rs") {
        Some(Language::Rust)
    } else if eq_lit(ext, "js") || eq_lit(ext, "mjs") || eq_lit(ext, "cjs") || eq_lit(ext, "ts") {
        Some(Language::Node)
    } else if eq_lit(ext, "rb") {
        Some(Language::Ruby)
    } else if eq_lit(ext, "lua") {
        Some(Language::Lua)
    } else if eq_lit(ext, "sql") {
        Some(Language::Sql)
    } else {
        None
    }
}

/// Strip a trailing run of digits and dots, keeping the original if nothing
/// would remain.
pub fn strip_version_suffix(prog: &Vec<char>) -> (out: Vec<char>)
    ensures
        out@ == strip_version(prog@),
{
    let mut n = prog.len();
    proof {
        assert(prog@.take(n as int) =~= prog@);
    }
    while n > 0 && (('0' <= prog[n - 1] && prog[n - 1] <= '9') || prog[n - 1] == '.')
        invariant
            n <= prog.len(),
            trim_version_chars(prog@) == trim_version_chars(prog@.take(n as int)),
        decreases n,
    {
        proof {
            assert(prog@.take(n as int).drop_last() =~= prog@.take(n - 1));
        }
        n -= 1;
    }
    if n == 0 {
        slice(prog, 0, prog.len())
    } else {
        slice(prog, 0, n)
    }
}

/// The language named by a shebang line, if any.
fn language_from_shebang(first_line: &Vec<char>) -> (r: Option<Language>)
    ensures
        r == shebang_language(first_line@),
{
    let start = skip_ws(first_line, 0);
    proof {
        assert(first_line@.skip(0) =~= first_line@);
        assert(trim_start(first_line@) =~= first_line@.skip(start as int));
    }
    let t = slice(first_line, start, first_line.len());
    if !crate::text::has_prefix_lit(&t, "#!") {
        return None;
    }
    proof {
        reveal_strlit("#!");
    }
    let rest = slice(&t, 2, t.len());
    proof {
        assert(rest@ =~= t@.skip(2));
    }
    let tokens = split_whitespace(&rest);
    if tokens.len() == 0 {
        return None;
    }
    proof {
        assert(vecs_view(tokens@)[0] == tokens@[0]@);
    }
    let mut prog = basename(&tokens[0]);
    if eq_lit(&prog, "env") {
        let mut i: usize = 1;
        while i < tokens.len() && crate::text::has_prefix_lit(&tokens[i], "-")
            invariant
                1 <= i <= tokens.len(),
                vecs_view(tokens@) == words(rest@),
                first_non_flag(vecs_view(tokens@), 1) == first_non_flag(vecs_view(tokens@), i as int),
            decreases tokens.len() - i,
        {
            proof {
                assert(vecs_view(tokens@)[i as int] == tokens@[i as int]@);
            }
            i += 1;
        }
        if i == tokens.len() {
            return None;
        }
        proof {
            assert(vecs_view(tokens@)[i as int] == tokens@[i as int]@);
        }
        prog = basename(&tokens[i]);
    }
    let p = strip_version_suffix(&prog);
    interpreter_to_language(&p)
}

/// Whether the path's extension names a known script language.
pub fn is_known_script_ext(path: &str) -> (r: bool)
    ensures
        r == path_extension_language(path@) is Some,
{
    let p = chars_of(path);
    language_from_extension(&p).is_some()
}

fn language_from_extension(path: &Vec<char>) -> (r: Option<Language>)
    ensures
        r == path_extension_language(path@),
{
    match extension(path) {
        Some(e) => {
            let l = ascii_lowercase(&e);
            ext_to_language(&l)
        },
        None => None,
    }
}

/// The language used to choose a comment leader: shebang wins over extension,
/// falling back to `Unknown`. `first_line` is the file's first line.
pub fn leader_language(path: &str, first_line: &str) -> (r: Language)
    ensures
        r == leader_language_spec(path@, first_line@),
{
    let fl = chars_of(first_line);
    if let Some(l) = language_from_shebang(&fl) {
        return l;
    }
    let p = chars_of(path);
    if let Some(l) = language_from_extension(&p) {
        return l;
    }
    Language::Unknown
}

/// The final language: an explicit, recognized `lang` label wins; otherwise the
/// leader language stands.
pub fn resolve_language(leader_lang: Language, declared: Option<&str>) -> (r: Language)
    ensures
        r == resolved_language(
            leader_lang,
            match declared {
                Some(d) => Some(d@),
                None => None,
            },
        ),
{
    match declared {
        Some(d) => match Language::from_label(d) {
            Some(l) => l,
            None => leader_lang,
        },
        None => leader_lang,
    }
}

} // verus!
