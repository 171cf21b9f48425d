//! Inline header parsing: the leading comment block of a script, read for
//! lines of the form `<leader> scriptvault.<key>: <value>`.
//!
//! The scan skips a first-line shebang, tolerates blank lines and ordinary
//! comments, stops at the first code line, and reads at most
//! [`MAX_SCAN_LINES`] lines.

use vstd::prelude::*;
use crate::model::{empty_meta, leader_of, Language, MetaView, ScriptMetadata};
use crate::text::{
    chars_of, chars_of_string, eq_lit, has_prefix, has_prefix_lit, lines, lines_of,
    lowercase_chars, lemma_lines_append, slice, is_word, is_ws, split_char, split_on, split_once, split_once_char, starts_with,
    string_of, strip_prefix, strs_view, trim, trim_chars, unicode_lower, vecs_view,
};

verus! {

/// Safety net on the number of lines scanned; the real stop is the first code line.
pub const MAX_SCAN_LINES: usize = 300;

/// One tag in canonical form: trimmed, then lowercased.
pub open spec fn canonical_tag(t: Seq<char>) -> Seq<char> {
    unicode_lower(trim(t))
}

/// Canonical tag list: each tag trimmed and lowercased, empties dropped, and
/// duplicates dropped keeping the first occurrence.
pub open spec fn normalized_tags(tags: Seq<Seq<char>>) -> Seq<Seq<char>>
    decreases tags.len(),
{
    if tags.len() == 0 {
        seq![]
    } else {
        let prev = normalized_tags(tags.drop_last());
        let t = canonical_tag(tags.last());
        if t.len() == 0 || prev.contains(t) {
            prev
        } else {
            prev.push(t)
        }
    }
}

/// The tags of a comma-separated list.
pub open spec fn parsed_tags(value: Seq<char>) -> Seq<Seq<char>> {
    normalized_tags(split_on(value, ','))
}

/// Record one `scriptvault.<key>: <value>` comment body on the metadata.
pub open spec fn apply_kv_spec(m: MetaView, body: Seq<char>) -> MetaView {
    match strip_prefix(body, "scriptvault."@) {
        None => m,
        Some(kv) => match split_once(kv, ':') {
            None => m,
            Some(parts) => {
                let key = trim(parts.0);
                let value = trim(parts.1);
                if value.len() == 0 {
                    m
                } else if key == "name"@ {
                    MetaView { name: Some(value), ..m }
                } else if key == "desc"@ || key == "description"@ {
                    MetaView { desc: Some(value), ..m }
                } else if key == "usage"@ {
                    MetaView { usage: Some(value), ..m }
                } else if key == "category"@ {
                    MetaView { category: Some(value), ..m }
                } else if key == "lang"@ || key == "language"@ {
                    MetaView { lang: Some(value), ..m }
                } else if key == "risk"@ {
                    MetaView { risk: Some(value), ..m }
                } else if key == "owner"@ {
                    MetaView { owner: Some(value), ..m }
                } else if key == "tags"@ || key == "tag"@ {
                    MetaView { tags: parsed_tags(value), ..m }
                } else {
                    m
                }
            },
        },
    }
}

/// The header scan from line `i` on, with metadata `m` gathered so far.
pub open spec fn header_scan(ls: Seq<Seq<char>>, i: int, leader: Seq<char>, m: MetaView) -> MetaView
    decreases ls.len() - i,
{
    if i < 0 || i >= ls.len() || i >= MAX_SCAN_LINES {
        m
    } else {
        let line = trim(ls[i]);
        if i == 0 && starts_with(line, "#!"@) {
            header_scan(ls, i + 1, leader, m)
        } else if line.len() == 0 {
            header_scan(ls, i + 1, leader, m)
        } else if starts_with(line, leader) {
            header_scan(ls, i + 1, leader, apply_kv_spec(m, trim(line.skip(leader.len() as int))))
        } else {
            m
        }
    }
}

/// The metadata the header of `contents` declares, read with `lang`'s leader.
pub open spec fn header_meta(contents: Seq<char>, lang: Language) -> MetaView {
    header_scan(lines(contents), 0, leader_of(lang), empty_meta())
}

/// Whether `v` holds an element equal to `t`.
pub fn vecs_contains(v: &Vec<Vec<char>>, t: &Vec<char>) -> (r: bool)
    ensures
        r == vecs_view(v@).contains(t@),
{
    let mut i: usize = 0;
    while i < v.len()
        invariant
            i <= v.len(),
            forall|k: int| 0 <= k < i ==> v@[k]@ != t@,
        decreases v.len() - i,
    {
        if crate::text::seq_eq(&v[i], t) {
            proof {
                assert(vecs_view(v@)[i as int] == t@);
            }
            return true;
        }
        i += 1;
    }
    proof {
        if vecs_view(v@).contains(t@) {
            let k = choose|k: int| 0 <= k < vecs_view(v@).len() && vecs_view(v@)[k] == t@;
            assert(v@[k]@ == t@);
        }
    }
    false
}

/// Canonicalize character-vector tags (see [`normalized_tags`]).
pub fn normalize_tag_chars(tags: &Vec<Vec<char>>) -> (out: Vec<Vec<char>>)
    ensures
        vecs_view(out@) == normalized_tags(vecs_view(tags@)),
{
    let mut out: Vec<Vec<char>> = Vec::new();
    let mut i: usize = 0;
    while i < tags.len()
        invariant
            i <= tags.len(),
            vecs_view(out@) == normalized_tags(vecs_view(tags@).take(i as int)),
        decreases tags.len() - i,
    {
        let ghost pre = vecs_view(tags@).take(i + 1);
        proof {
            assert(pre.drop_last() =~= vecs_view(tags@).take(i as int));
            assert(pre.last() == tags@[i as int]@);
        }
        let trimmed = trim_chars(&tags[i]);
        let t = lowercase_chars(&trimmed);
        if t.len() > 0 && !vecs_contains(&out, &t) {
            let ghost before = out@;
            out.push(t);
            proof {
                assert(vecs_view(out@) =~= vecs_view(before).push(t@));
            }
        }
        i += 1;
    }
    proof {
        assert(vecs_view(tags@).take(tags.len() as int) =~= vecs_view(tags@));
    }
    out
}

/// Strings from character vectors.
pub fn strings_of(v: &Vec<Vec<char>>) -> (out: Vec<String>)
    ensures
        strs_view(out@) == vecs_view(v@),
{
    let mut out: Vec<String> = Vec::new();
    let mut i: usize = 0;
    while i < v.len()
        invariant
            i <= v.len(),
            strs_view(out@) == vecs_view(v@).take(i as int),
        decreases v.len() - i,
    {
        let s = string_of(&v[i]);
        let ghost before = out@;
        out.push(s);
        proof {
            assert(strs_view(out@) =~= strs_view(before).push(s@));
            assert(vecs_view(v@).take(i + 1) =~= vecs_view(v@).take(i as int).push(v@[i as int]@));
        }
        i += 1;
    }
    proof {
        assert(vecs_view(v@).take(v.len() as int) =~= vecs_view(v@));
    }
    out
}

/// Character vectors from strings.
pub fn chars_of_strings(v: &Vec<String>) -> (out: Vec<Vec<char>>)
    ensures
        vecs_view(out@) == strs_view(v@),
{
    let mut out: Vec<Vec<char>> = Vec::new();
    let mut i: usize = 0;
    while i < v.len()
        invariant
            i <= v.len(),
            vecs_view(out@) == strs_view(v@).take(i as int),
        decreases v.len() - i,
    {
        let s = chars_of_string(&v[i]);
        let ghost before = out@;
        out.push(s);
        proof {
            assert(vecs_view(out@) =~= vecs_view(before).push(s@));
            assert(strs_view(v@).take(i + 1) =~= strs_view(v@).take(i as int).push(v@[i as int]@));
        }
        i += 1;
    }
    proof {
        assert(strs_view(v@).take(v.len() as int) =~= strs_view(v@));
    }
    out
}

/// Canonicalize a list of tags: trim, lowercase, drop empties, and drop
/// duplicates keeping the first occurrence.
pub fn normalize_tags(tags: Vec<String>) -> (out: Vec<String>)
    ensures
        strs_view(out@) == normalized_tags(strs_view(tags@)),
{
    let cs = chars_of_strings(&tags);
    let n = normalize_tag_chars(&cs);
    strings_of(&n)
}

/// Split a comma-separated tag string into canonical tags.
pub fn parse_tags(value: &str) -> (out: Vec<String>)
    ensures
        strs_view(out@) == parsed_tags(value@),
{
    let v = chars_of(value);
    let pieces = split_char(&v, ',');
    let n = normalize_tag_chars(&pieces);
    strings_of(&n)
}

/// If `body` is a `scriptvault.<key>: <value>` entry, record it on `meta`.
fn apply_kv(meta: &mut ScriptMetadata, body: &Vec<char>)
    ensures
        final(meta)@ == apply_kv_spec(old(meta)@, body@),
{
    if !has_prefix_lit(body, "scriptvault.") {
        return;
    }
    let p = chars_of("scriptvault.");
    let kv = slice(body, p.len(), body.len());
    proof {
        assert(kv@ =~= body@.skip(p.len() as int));
    }
    let parts = split_once_char(&kv, ':');
    let (k, v) = match parts {
        Some(x) => x,
        None => {
            return;
        },
    };
    let key = trim_chars(&k);
    let value = trim_chars(&v);
    if value.len() == 0 {
        return;
    }
    if eq_lit(&key, "name") {
        meta.name = Some(string_of(&value));
    } else if eq_lit(&key, "desc") || eq_lit(&key, "description") {
        meta.desc = Some(string_of(&value));
    } else if eq_lit(&key, "usage") {
        meta.usage = Some(string_of(&value));
    } else if eq_lit(&key, "category") {
        meta.category = Some(string_of(&value));
    } else if eq_lit(&key, "lang") || eq_lit(&key, "language") {
        meta.lang = Some(string_of(&value));
    } else if eq_lit(&key, "risk") {
        meta.risk = Some(string_of(&value));
    } else if eq_lit(&key, "owner") {
        meta.owner = Some(string_of(&value));
    } else if eq_lit(&key, "tags") || eq_lit(&key, "tag") {
        let pieces = split_char(&value, ',');
        let n = normalize_tag_chars(&pieces);
        meta.tags = strings_of(&n);
    }
}

/// Parse the inline header of `contents`, using `leader_lang`'s comment leader.
/// Yields whatever `scriptvault.*` keys were found (possibly none).
pub fn parse_header(contents: &str, leader_lang: Language) -> (meta: ScriptMetadata)
    ensures
        meta@ == header_meta(contents@, leader_lang),
{
    let leader = chars_of(leader_lang.comment_leader());
    let text = chars_of(contents);
    let ls = lines_of(&text);
    let mut meta = ScriptMetadata::default();
    let mut i: usize = 0;
    while i < ls.len()
        invariant
            i <= ls.len(),
            vecs_view(ls@) == lines(contents@),
            leader@ == leader_of(leader_lang),
            header_meta(contents@, leader_lang) == header_scan(vecs_view(ls@), i as int, leader@, meta@),
        ensures
            header_meta(contents@, leader_lang) == meta@,
        decreases ls.len() - i,
    {
        if i >= MAX_SCAN_LINES {
            break;
        }
        let line = trim_chars(&ls[i]);
        proof {
            assert(vecs_view(ls@)[i as int] == ls@[i as int]@);
        }
        if i == 0 && has_prefix_lit(&line, "#!") {
            i += 1;
            continue;
        }
        if line.len() == 0 {
            i += 1;
            continue;
        }
        if has_prefix(&line, &leader) {
            let after = slice(&line, leader.len(), line.len());
            let body = trim_chars(&after);
            proof {
                assert(after@ =~= line@.skip(leader@.len() as int));
            }
            apply_kv(&mut meta, &body);
            i += 1;
            continue;
        }
        break;
    }
    meta
}

// ---------------------------------------------------------------------------
// Laws
// ---------------------------------------------------------------------------

/// A normalized tag list holds no tag twice, and each of its tags is the
/// non-empty canonical form of some tag of the input.
pub proof fn lemma_normalized_tags_distinct(tags: Seq<Seq<char>>)
    ensures
        normalized_tags(tags).no_duplicates(),
        forall|j: int| 0 <= j < normalized_tags(tags).len() ==> (#[trigger] normalized_tags(tags)[j]).len() > 0
            && exists|k: int| 0 <= k < tags.len() && normalized_tags(tags)[j] == canonical_tag(tags[k]),
    decreases tags.len(),
{
    if tags.len() > 0 {
        let dl = tags.drop_last();
        lemma_normalized_tags_distinct(dl);
        let prev = normalized_tags(dl);
        let r = normalized_tags(tags);
        assert forall|j: int| 0 <= j < r.len() implies (#[trigger] r[j]).len() > 0
            && exists|k: int| 0 <= k < tags.len() && r[j] == canonical_tag(tags[k]) by {
            if j < prev.len() {
                assert(r[j] == prev[j]);
                let k = choose|k: int| 0 <= k < dl.len() && prev[j] == canonical_tag(dl[k]);
                assert(dl[k] == tags[k]);
            } else {
                assert(r[j] == canonical_tag(tags[tags.len() - 1]));
            }
        }
    }
}

/// A list of distinct, non-empty tags that are each their own canonical form
/// is left as it is by normalization.
pub proof fn lemma_normalized_tags_fixed(tags: Seq<Seq<char>>)
    requires
        tags.no_duplicates(),
        forall|j: int| 0 <= j < tags.len() ==> (#[trigger] tags[j]).len() > 0 && canonical_tag(tags[j]) == tags[j],
    ensures
        normalized_tags(tags) == tags,
    decreases tags.len(),
{
    if tags.len() > 0 {
        let dl = tags.drop_last();
        assert forall|j: int| 0 <= j < dl.len() implies (#[trigger] dl[j]).len() > 0 && canonical_tag(dl[j]) == dl[j] by {
            assert(dl[j] == tags[j]);
        }
        lemma_normalized_tags_fixed(dl);
        let t = tags.last();
        assert(canonical_tag(t) == t);
        if dl.contains(t) {
            let j = choose|j: int| 0 <= j < dl.len() && dl[j] == t;
            assert(tags[j] == tags[tags.len() - 1]);
        }
        assert(dl.push(t) =~= tags);
    }
}

/// Normalizing an already normalized tag list changes nothing, provided each
/// of its tags is its own canonical form (trimming and lowercasing it again
/// leaves it as it is).
pub proof fn lemma_normalize_tags_idempotent(tags: Seq<Seq<char>>)
    requires
        forall|j: int| 0 <= j < normalized_tags(tags).len() ==> canonical_tag(
            #[trigger] normalized_tags(tags)[j],
        ) == normalized_tags(tags)[j],
    ensures
        normalized_tags(normalized_tags(tags)) == normalized_tags(tags),
{
    lemma_normalized_tags_distinct(tags);
    lemma_normalized_tags_fixed(normalized_tags(tags));
}

/// Line `i` of `ls` is a code line for `leader`: not blank, not a first-line
/// shebang, and not a comment. The header scan stops there.
pub open spec fn is_code_line(ls: Seq<Seq<char>>, i: int, leader: Seq<char>) -> bool {
    let line = trim(ls[i]);
    line.len() > 0 && !(i == 0 && starts_with(line, "#!"@)) && !starts_with(line, leader)
}

/// The scan reads nothing past a code line.
proof fn lemma_scan_stops(ls1: Seq<Seq<char>>, ls2: Seq<Seq<char>>, i: int, j: int, leader: Seq<char>, m: MetaView)
    requires
        0 <= i <= j < ls1.len(),
        is_code_line(ls1, j, leader),
    ensures
        header_scan(ls1 + ls2, i, leader, m) == header_scan(ls1, i, leader, m),
    decreases ls1.len() - i,
{
    let ls = ls1 + ls2;
    assert(ls[i] == ls1[i]);
    if i < MAX_SCAN_LINES && i < j {
        let line = trim(ls1[i]);
        if i == 0 && starts_with(line, "#!"@) {
            lemma_scan_stops(ls1, ls2, i + 1, j, leader, m);
        } else if line.len() == 0 {
            lemma_scan_stops(ls1, ls2, i + 1, j, leader, m);
        } else if starts_with(line, leader) {
            lemma_scan_stops(ls1, ls2, i + 1, j, leader, apply_kv_spec(m, trim(line.skip(leader.len() as int))));
        }
    }
}

/// Nothing after the first code line is read: text appended after a complete
/// line that is code leaves the header unchanged (so a later
/// `scriptvault.name:` line, in a heredoc say, is ignored).
pub proof fn lemma_header_ignores_rest(c1: Seq<char>, rest: Seq<char>, lang: Language)
    requires
        c1.len() > 0,
        c1.last() == '\n',
        exists|j: int| 0 <= j < lines(c1).len() && is_code_line(lines(c1), j, leader_of(lang)),
    ensures
        header_meta(c1 + rest, lang) == header_meta(c1, lang),
{
    let j = choose|j: int| 0 <= j < lines(c1).len() && is_code_line(lines(c1), j, leader_of(lang));
    lemma_lines_append(c1, rest);
    lemma_scan_stops(lines(c1), lines(rest), 0, j, leader_of(lang), empty_meta());
}

/// Tags held by metadata: distinct and non-empty.
pub open spec fn tags_distinct(m: MetaView) -> bool {
    m.tags.no_duplicates() && forall|j: int| 0 <= j < m.tags.len() ==> (#[trigger] m.tags[j]).len() > 0
}

proof fn lemma_scan_tags(ls: Seq<Seq<char>>, i: int, leader: Seq<char>, m: MetaView)
    requires
        tags_distinct(m),
    ensures
        tags_distinct(header_scan(ls, i, leader, m)),
    decreases ls.len() - i,
{
    if 0 <= i < ls.len() && i < MAX_SCAN_LINES {
        let line = trim(ls[i]);
        if i == 0 && starts_with(line, "#!"@) {
            lemma_scan_tags(ls, i + 1, leader, m);
        } else if line.len() == 0 {
            lemma_scan_tags(ls, i + 1, leader, m);
        } else if starts_with(line, leader) {
            let body = trim(line.skip(leader.len() as int));
            let m2 = apply_kv_spec(m, body);
            match strip_prefix(body, "scriptvault."@) {
                Some(kv) => match split_once(kv, ':') {
                    Some(parts) => lemma_normalized_tags_distinct(split_on(trim(parts.1), ',')),
                    None => {},
                },
                None => {},
            }
            assert(tags_distinct(m2));
            lemma_scan_tags(ls, i + 1, leader, m2);
        }
    }
}

/// The tags a header declares are distinct and non-empty.
pub proof fn lemma_header_tags_distinct(contents: Seq<char>, lang: Language)
    ensures
        tags_distinct(header_meta(contents, lang)),
{
    lemma_scan_tags(lines(contents), 0, leader_of(lang), empty_meta());
}

/// One leading space and a word trim to the word.
proof fn lemma_trim_space_word(x: Seq<char>)
    requires
        is_word(x),
    ensures
        trim(seq![' '] + x) == x,
{
    let s = seq![' '] + x;
    assert(s[0] == ' ');
    assert(s[1] == x[0]);
    crate::text::lemma_ws_prefix_len(s, 1);
    let t = s.skip(1);
    assert(t =~= x);
    crate::text::lemma_ws_suffix_len(t, 0);
    assert(trim(s) =~= t.take(t.len() as int));
}

/// The line `<leader> scriptvault.name: <x>` read with that leader records
/// the name `x`.
proof fn lemma_name_body(x: Seq<char>)
    requires
        is_word(x),
    ensures
        apply_kv_spec(empty_meta(), trim(" scriptvault.name: "@ + x)).name == Some(x),
{
    reveal_strlit(" scriptvault.name: ");
    reveal_strlit("scriptvault.");
    reveal_strlit("name");
    let lit = "scriptvault.name: "@;
    reveal_strlit("scriptvault.name: ");
    assert(" scriptvault.name: "@ + x =~= seq![' '] + (lit + x));
    let w = lit + x;
    assert(w[0] == 's');
    crate::text::lemma_ws_prefix_len(seq![' '] + w, 1);
    assert((seq![' '] + w).skip(1) =~= w);
    assert(!is_ws(w[w.len() - 1])) by {
        assert(w[w.len() - 1] == x[x.len() - 1]);
    }
    crate::text::lemma_ws_suffix_len(w, 0);
    assert(trim(seq![' '] + w) =~= w);
    assert(w.take(12) =~= "scriptvault."@);
    let kv = w.skip(12);
    assert(kv =~= "name"@ + seq![':'] + (seq![' '] + x));
    assert forall|j: int| 0 <= j < 4 implies kv[j] != ':' by {
        assert(kv[j] == "name"@[j]);
    }
    assert(kv[4] == ':');
    crate::text::lemma_first_index_of(kv, ':', 4);
    assert(kv.take(4) =~= "name"@);
    assert(kv.skip(5) =~= seq![' '] + x);
    crate::text::lemma_plain_text("name"@);
    lemma_trim_space_word(x);
}

/// The content `<leader> scriptvault.name: <x>` and a newline is one line,
/// which the header scan reads as a comment under that leader.
proof fn lemma_name_header(ld: Seq<char>, x: Seq<char>, l: Language)
    requires
        leader_of(l) == ld,
        1 <= ld.len() <= 2,
        forall|j: int| 0 <= j < ld.len() ==> ld[j] == '#' || ld[j] == '/' || ld[j] == '-',
        is_word(x),
    ensures
        header_meta(ld + " scriptvault.name: "@ + x + "\n"@, l).name == Some(x),
{
    reveal_strlit(" scriptvault.name: ");
    reveal_strlit("\n");
    reveal_strlit("#!");
    let tail = " scriptvault.name: "@ + x;
    let line = ld + tail;
    let content = ld + " scriptvault.name: "@ + x + "\n"@;
    assert(content =~= line + seq!['\n']);
    let k = line.len() as int;
    assert forall|j: int| 0 <= j < k implies content[j] != '\n' by {
        assert(content[j] == line[j]);
        if j >= ld.len() + 19 {
            assert(line[j] == x[j - ld.len() - 19]);
        }
    }
    crate::text::lemma_first_index_of(content, '\n', k);
    crate::text::lemma_lines_line(content, k);
    assert(content.take(k) =~= line);
    assert(content.skip(k + 1) =~= Seq::<char>::empty());
    reveal(crate::text::lines);
    assert(crate::text::lines(content.skip(k + 1)) =~= Seq::<Seq<char>>::empty());
    assert(line.last() == x.last());
    assert(crate::text::strip_cr(line) == line);
    let ls = crate::text::lines(content);
    assert(ls =~= seq![line]);
    assert(line[0] == ld[0]);
    crate::text::lemma_trim_unchanged(line);
    assert(trim(ls[0]) == line);
    assert(!starts_with(line, "#!"@)) by {
        if ld.len() == 1 {
            assert(line[1] == ' ');
        } else {
            assert(line[1] == ld[1]);
        }
        assert(line.take(2)[1] == line[1]);
    }
    assert(line.take(ld.len() as int) =~= ld);
    assert(line.skip(ld.len() as int) =~= tail);
    assert(starts_with(line, ld));
    assert(line.len() > 0);
    lemma_name_body(x);
    let m1 = apply_kv_spec(empty_meta(), trim(tail));
    assert(header_scan(ls, 1, ld, m1) == m1);
    assert(header_scan(ls, 0, ld, empty_meta()) == header_scan(ls, 1, ld, m1));
    assert(header_meta(content, l) == header_scan(ls, 0, ld, empty_meta()));
}

/// A header line in each language's own comment syntax is read: `#` for
/// Bash, Python and Ruby (and scripts of unknown language), `//` for Rust and
/// Node, `--` for SQL and Lua. For every name without whitespace, a script
/// holding the line `<marker> scriptvault.name: <name>` has that name.
pub proof fn lemma_header_name_per_language(x: Seq<char>)
    requires
        is_word(x),
    ensures
        header_meta("# scriptvault.name: "@ + x + "\n"@, Language::Bash).name == Some(x),
        header_meta("# scriptvault.name: "@ + x + "\n"@, Language::Python).name == Some(x),
        header_meta("# scriptvault.name: "@ + x + "\n"@, Language::Ruby).name == Some(x),
        header_meta("# scriptvault.name: "@ + x + "\n"@, Language::Unknown).name == Some(x),
        header_meta("// scriptvault.name: "@ + x + "\n"@, Language::Rust).name == Some(x),
        header_meta("// scriptvault.name: "@ + x + "\n"@, Language::Node).name == Some(x),
        header_meta("-- scriptvault.name: "@ + x + "\n"@, Language::Sql).name == Some(x),
        header_meta("-- scriptvault.name: "@ + x + "\n"@, Language::Lua).name == Some(x),
{
    reveal_strlit("#");
    reveal_strlit("//");
    reveal_strlit("--");
    reveal_strlit(" scriptvault.name: ");
    reveal_strlit("# scriptvault.name: ");
    reveal_strlit("// scriptvault.name: ");
    reveal_strlit("-- scriptvault.name: ");
    assert("# scriptvault.name: "@ =~= "#"@ + " scriptvault.name: "@);
    assert("// scriptvault.name: "@ =~= "//"@ + " scriptvault.name: "@);
    assert("-- scriptvault.name: "@ =~= "--"@ + " scriptvault.name: "@);
    lemma_name_header("#"@, x, Language::Bash);
    lemma_name_header("#"@, x, Language::Python);
    lemma_name_header("#"@, x, Language::Ruby);
    lemma_name_header("#"@, x, Language::Unknown);
    lemma_name_header("//"@, x, Language::Rust);
    lemma_name_header("//"@, x, Language::Node);
    lemma_name_header("--"@, x, Language::Sql);
    lemma_name_header("--"@, x, Language::Lua);
}

} // verus!
