//! Memory files: full-text query cleaning, row ids, scopes and snippets.
use vstd::prelude::*;
use vstd::utf8::encode_utf8;

use crate::embedding::{fnv1a, fnv1a_spec};
use crate::text::{
    find_sub, first_occurrence, occurs_at, boundary_at, boundary_offsets, byte_len, byte_offset, chars_eq, chars_of, extend_chars, floor_at,
    floor_index, is_white, is_white_char, lemma_byte_offset_last, lemma_byte_offset_mono,
    lemma_floor_at_offset, lemma_floor_index, slice_chars, str_byte_len, string_from, string_of,
    string_views,
};

verus! {

/// A memory file as listed for inspection.
#[derive(Debug, Clone)]
pub struct MemoryDump {
    pub path: String,
    pub scope: String,
    pub size: usize,
    pub preview: String,
}

/// The row id of a memory file: FNV-1a of its path with the sign bit cleared.
pub open spec fn stable_hash_spec(s: Seq<char>) -> i64 {
    (fnv1a_spec(encode_utf8(s)) & 0x7fff_ffff_ffff_ffffu64) as i64
}

/// Stable (cross-process, cross-version) non-negative hash of a path.
pub fn stable_hash(s: &str) -> (h: i64)
    ensures
        h == stable_hash_spec(s@),
        h >= 0,
{
    let h = fnv1a(s);
    let m = h & 0x7fff_ffff_ffff_ffffu64;
    assert(m <= 0x7fff_ffff_ffff_ffffu64) by (bit_vector)
        requires
            m == h & 0x7fff_ffff_ffff_ffffu64,
    ;
    m as i64
}

/// Characters with a meaning in the full-text query syntax.
pub open spec fn is_fts_special(c: char) -> bool {
    c == '"' || c == '*' || c == '^' || c == '(' || c == ')' || c == '{' || c == '}' || c == '['
        || c == ']' || c == '-' || c == '+' || c == ':' || c == '~' || c == '!' || c == '|' || c
        == '&' || c == '<' || c == '>' || c == '=' || c == '/' || c == '\\'
}

/// Whether `c` has a meaning in the full-text query syntax.
fn fts_special(c: char) -> (r: bool)
    ensures
        r == is_fts_special(c),
{
    c == '"' || c == '*' || c == '^' || c == '(' || c == ')' || c == '{' || c == '}' || c == '['
        || c == ']' || c == '-' || c == '+' || c == ':' || c == '~' || c == '!' || c == '|' || c
        == '&' || c == '<' || c == '>' || c == '=' || c == '/' || c == '\\'
}

/// Words and the word being read after the characters of `cs`, where
/// special characters and whitespace separate words.
pub open spec fn fts_scan(cs: Seq<char>) -> (Seq<Seq<char>>, Seq<char>)
    decreases cs.len(),
{
    if cs.len() == 0 {
        (seq![], seq![])
    } else {
        let (ws, cur) = fts_scan(cs.drop_last());
        let c = cs.last();
        if is_fts_special(c) || is_white(c) {
            if cur.len() > 0 {
                (ws.push(cur), seq![])
            } else {
                (ws, seq![])
            }
        } else {
            (ws, cur.push(c))
        }
    }
}

/// The words of a query once its special characters are blanked.
pub open spec fn fts_words(q: Seq<char>) -> Seq<Seq<char>> {
    let (ws, cur) = fts_scan(q);
    if cur.len() > 0 {
        ws.push(cur)
    } else {
        ws
    }
}

/// Each word in double quotes.
pub open spec fn quoted(ws: Seq<Seq<char>>) -> Seq<Seq<char>> {
    ws.map_values(|w: Seq<char>| seq!['"'] + w + seq!['"'])
}

/// The cleaned full-text query: its words quoted as phrases, separated by
/// spaces; none when no word is left.
pub open spec fn fts_query_of(q: Seq<char>) -> Option<Seq<char>> {
    let ws = fts_words(q);
    if ws.len() == 0 {
        None
    } else {
        Some(crate::text::join_with(quoted(ws), seq![' ']))
    }
}

/// Blanks the full-text syntax characters of `query` and quotes each
/// remaining word as a phrase; `None` for a query with no word.
pub fn sanitize_fts_query(query: &str) -> (r: Option<String>)
    ensures
        match r {
            Some(s) => fts_query_of(query@) == Some(s@),
            None => fts_query_of(query@) is None,
        },
{
    let cs = chars_of(query);
    let mut ws: Vec<String> = Vec::new();
    let mut cur: Vec<char> = Vec::new();
    let mut i: usize = 0;
    assert(string_views(ws@) =~= seq![]);
    assert(cs@.take(0) =~= seq![]);
    while i < cs.len()
        invariant
            i <= cs@.len(),
            cs@ == query@,
            (string_views(ws@), cur@) == fts_scan(cs@.take(i as int)),
        decreases cs@.len() - i,
    {
        let c = cs[i];
        assert(cs@.take(i + 1).drop_last() =~= cs@.take(i as int));
        if fts_special(c) || is_white_char(c) {
            if cur.len() > 0 {
                let ghost before = ws@;
                ws.push(string_from(&cur));
                assert(string_views(ws@) =~= string_views(before).push(cur@));
            }
            cur = Vec::new();
            assert(cur@ =~= Seq::<char>::empty());
        } else {
            cur.push(c);
        }
        i += 1;
    }
    assert(cs@.take(cs@.len() as int) =~= cs@);
    if cur.len() > 0 {
        let ghost before = ws@;
        ws.push(string_from(&cur));
        assert(string_views(ws@) =~= string_views(before).push(cur@));
    }
    if ws.len() == 0 {
        return None;
    }
    let ghost words = string_views(ws@);
    let mut out: Vec<char> = Vec::new();
    let mut j: usize = 0;
    assert(quoted(words).take(0) =~= seq![]);
    while j < ws.len()
        invariant
            j <= ws@.len(),
            words == string_views(ws@),
            out@ == crate::text::join_with(quoted(words).take(j as int), seq![' ']),
        decreases ws@.len() - j,
    {
        assert(quoted(words).take(j + 1).drop_last() =~= quoted(words).take(j as int));
        assert(words[j as int] == ws@[j as int]@);
        let ghost before = out@;
        if j > 0 {
            out.push(' ');
        }
        out.push('"');
        extend_chars(&mut out, &chars_of(ws[j].as_str()));
        out.push('"');
        proof {
            let piece = seq!['"'] + words[j as int] + seq!['"'];
            assert(quoted(words).take(j + 1).last() == piece);
            if j > 0 {
                assert(out@ =~= before + seq![' '] + piece);
            } else {
                assert(out@ =~= piece);
            }
        }
        j += 1;
    }
    assert(quoted(words).take(ws@.len() as int) =~= quoted(words));
    Some(string_from(&out))
}

/// `path` with the leading components `base` taken off
/// (`Path::strip_prefix`), or none when `path` does not start with `base`.
pub uninterp spec fn path_strip_prefix(path: Seq<char>, base: Seq<char>) -> Option<Seq<char>>;

/// The first component of `path` (`Path::components`), or none when it has
/// none.
pub uninterp spec fn path_first_component(path: Seq<char>) -> Option<Seq<char>>;

/// `path` below `base`.
///
/// Trusted: calls `std::path::Path::strip_prefix`; the rest is only named.
#[verifier::external_body]
fn strip_prefix_of(path: &str, base: &str) -> (r: Option<String>)
    ensures
        match r {
            Some(rel) => path_strip_prefix(path@, base@) == Some(rel@),
            None => path_strip_prefix(path@, base@) is None,
        },
{
    std::path::Path::new(path).strip_prefix(base).ok().and_then(|rel| rel.to_str()).map(String::from)
}

/// The first component of `path`.
///
/// Trusted: calls `std::path::Path::components`; the component is only
/// named.
#[verifier::external_body]
fn first_component_of(path: &str) -> (r: Option<String>)
    ensures
        match r {
            Some(c) => path_first_component(path@) == Some(c@),
            None => path_first_component(path@) is None,
        },
{
    std::path::Path::new(path).components().next().and_then(|c| c.as_os_str().to_str()).map(String::from)
}

/// The first component of `path` relative to `base`, or none when `path`
/// is not under `base` or nothing is left.
pub open spec fn relative_head(base: Seq<char>, path: Seq<char>) -> Option<Seq<char>> {
    match path_strip_prefix(path, base) {
        Some(rel) => path_first_component(rel),
        None => None,
    }
}

/// The first component of `path` below `base`.
fn relative_head_of(base: &str, path: &str) -> (r: Option<String>)
    ensures
        crate::market::opt_view(r) == relative_head(base@, path@),
{
    match strip_prefix_of(path, base) {
        Some(rel) => first_component_of(rel.as_str()),
        None => None,
    }
}

/// The scope of a memory file whose first directory below the memory root is
/// `head`.
pub open spec fn scope_of_head(head: Option<Seq<char>>) -> Seq<char> {
    match head {
        Some(h) => if h == "global"@ {
            "global"@
        } else if h == "projects"@ {
            "project"@
        } else if h == "sessions"@ {
            "session"@
        } else {
            "memory"@
        },
        None => "memory"@,
    }
}

/// The scope named by a first directory (as found).
pub fn scope_for_head(head: Option<&str>) -> (r: &'static str)
    ensures
        r@ == scope_of_head(
            match head {
                Some(h) => Some(h@),
                None => None,
            },
        ),
{
    match head {
        Some(h) => {
            if crate::text::str_eq(h, "global") {
                "global"
            } else if crate::text::str_eq(h, "projects") {
                "project"
            } else if crate::text::str_eq(h, "sessions") {
                "session"
            } else {
                "memory"
            }
        },
        None => "memory",
    }
}

/// The scope of the memory file `path` under the memory root `base`:
/// `global`, `project` or `session` by its first directory, else `memory`.
pub fn scope_for_path(base: &str, path: &str) -> (r: &'static str)
    ensures
        r@ == scope_of_head(relative_head(base@, path@)),
{
    match relative_head_of(base, path) {
        Some(h) => scope_for_head(Some(h.as_str())),
        None => scope_for_head(None),
    }
}

/// `b` is the byte offset of a character boundary of `s`.
pub open spec fn is_boundary(s: Seq<char>, b: int) -> bool {
    exists|k: int| 0 <= k <= s.len() && byte_offset(s, k) == b
}

/// Byte window around the first hit: from 100 bytes before it to 100 bytes
/// after it (clamped to the text).
pub open spec fn hit_window(s: Seq<char>, q: Seq<char>) -> (int, int) {
    hit_window_at(s, q, first_occurrence(s, q))
}

/// Byte window around a hit at character `i`.
pub open spec fn hit_window_at(s: Seq<char>, q: Seq<char>, i: int) -> (int, int) {
    let pos = byte_offset(s, i) as int;
    let qb = byte_len(q) as int;
    (
        if pos >= 100 {
            pos - 100
        } else {
            0
        },
        if pos + qb + 100 <= byte_len(s) {
            pos + qb + 100
        } else {
            byte_len(s) as int
        },
    )
}

/// The snippet can be cut: there is no hit, or both window ends fall on
/// character boundaries.
pub open spec fn snippet_cut_ok(s: Seq<char>, q: Seq<char>) -> bool {
    first_occurrence(s, q) < 0 || (is_boundary(s, hit_window(s, q).0) && is_boundary(
        s,
        hit_window(s, q).1,
    ))
}

/// The snippet of a memory file for a query: the window around the first
/// hit between `...` marks, or the first 200 characters when there is none.
pub open spec fn memory_snippet(s: Seq<char>, q: Seq<char>) -> Seq<char> {
    if first_occurrence(s, q) < 0 {
        s.take(if s.len() < 200 {
            s.len() as int
        } else {
            200
        })
    } else {
        let (a, b) = hit_window(s, q);
        "..."@ + s.subrange(floor_index(s, a) as int, floor_index(s, b) as int) + "..."@
    }
}

/// The byte window around a hit at character `i`.
fn window_of(
    cs: &Vec<char>,
    offs: &Vec<usize>,
    total: usize,
    qb: usize,
    i: usize,
    Ghost(q): Ghost<Seq<char>>,
) -> (r: (usize, usize))
    requires
        offs@.len() == cs@.len() + 1,
        forall|k: int| 0 <= k <= cs@.len() ==> offs@[k] == byte_offset(cs@, k),
        total == byte_len(cs@),
        qb == byte_len(q),
        occurs_at(cs@, q, i as int),
    ensures
        r.0 == hit_window_at(cs@, q, i as int).0,
        r.1 == hit_window_at(cs@, q, i as int).1,
        r.0 <= r.1 <= total,
{
    let pos = offs[i];
    proof {
        lemma_byte_offset_mono(cs@, i as int, cs@.len() as int);
        lemma_byte_offset_last(cs@);
        lemma_byte_offset_mono(cs@, i as int, i + q.len());
    }
    let from = pos.saturating_sub(100);
    let to = if qb <= total - pos && 100 <= total - pos - qb {
        pos + qb + 100
    } else {
        total
    };
    (from, to)
}

/// Whether the snippet for `query` can be cut from `content` (see
/// `snippet_cut_ok`); callers check this before `extract_snippet`.
pub fn snippet_cut_allowed(content: &str, query: &str) -> (r: bool)
    ensures
        r == snippet_cut_ok(content@, query@),
{
    let cs = chars_of(content);
    let qs = chars_of(query);
    match find_sub(&cs, &qs) {
        None => true,
        Some(i) => {
            let total = str_byte_len(content);
            let offs = boundary_offsets(&cs);
            let qb = str_byte_len(query);
            let (from, to) = window_of(&cs, &offs, total, qb, i, Ghost(qs@));
            boundary_at(&offs, from, Ghost(cs@)) && boundary_at(&offs, to, Ghost(cs@))
        },
    }
}

/// The snippet of a memory file around the first hit of `query`.
pub fn extract_snippet(content: &str, query: &str) -> (r: String)
    requires
        snippet_cut_ok(content@, query@),
    ensures
        r@ == memory_snippet(content@, query@),
{
    let cs = chars_of(content);
    let qs = chars_of(query);
    match find_sub(&cs, &qs) {
        None => {
            let n = if cs.len() < 200 {
                cs.len()
            } else {
                200
            };
            let head = slice_chars(&cs, 0, n);
            assert(head@ =~= content@.take(n as int));
            string_from(&head)
        },
        Some(i) => {
            let total = str_byte_len(content);
            let offs = boundary_offsets(&cs);
            let qb = str_byte_len(query);
            let (from, to) = window_of(&cs, &offs, total, qb, i, Ghost(qs@));
            let a = floor_at(&offs, from, Ghost(cs@));
            let b = floor_at(&offs, to, Ghost(cs@));
            proof {
                let ka = choose|k: int| 0 <= k <= cs@.len() && byte_offset(cs@, k) == from;
                let kb = choose|k: int| 0 <= k <= cs@.len() && byte_offset(cs@, k) == to;
                lemma_floor_at_offset(cs@, ka);
                lemma_floor_at_offset(cs@, kb);
                crate::text::lemma_floor_index_mono(cs@, from as int, to as int);
            }
            let mut out: Vec<char> = chars_of("...");
            let mid = slice_chars(&cs, a, b);
            extend_chars(&mut out, &mid);
            extend_chars(&mut out, &chars_of("..."));
            string_from(&out)
        },
    }
}

/// The listing entry of a memory file: its path, scope, size in bytes and
/// first 200 characters.
pub fn dump_entry(path: String, scope: &str, content: &str) -> (r: MemoryDump)
    ensures
        r.path == path,
        r.scope@ == scope@,
        r.size == crate::text::byte_len(content@),
        r.preview@ == content@.take(if content@.len() < 200 { content@.len() as int } else { 200 }),
{
    let cs = chars_of(content);
    let n = if cs.len() < 200 {
        cs.len()
    } else {
        200
    };
    let preview = crate::text::string_of(&cs, 0, n);
    assert(content@.subrange(0, n as int) =~= content@.take(n as int));
    MemoryDump { path, scope: crate::text::owned(scope), size: crate::text::str_byte_len(content), preview }
}

/// The part a memory file adds to an agent's context: a heading for its
/// scope (`# 全局记忆` or `# 项目记忆`), the content and a blank line.
pub open spec fn context_part(global: bool, content: Seq<char>) -> Seq<char> {
    (if global {
        "# 全局记忆\n"@
    } else {
        "# 项目记忆\n"@
    }) + content + "\n\n"@
}

/// Appends a memory file's part to the context summary.
pub fn push_context_part(summary: &mut String, global: bool, content: &str)
    ensures
        final(summary)@ == old(summary)@ + context_part(global, content@),
{
    let mut v = chars_of(summary.as_str());
    if global {
        crate::text::extend_chars(&mut v, &chars_of("# 全局记忆\n"));
    } else {
        crate::text::extend_chars(&mut v, &chars_of("# 项目记忆\n"));
    }
    crate::text::extend_chars(&mut v, &chars_of(content));
    crate::text::extend_chars(&mut v, &chars_of("\n\n"));
    *summary = string_from(&v);
}

/// The text a conversation turn adds to a session's notes.
pub open spec fn exchange_text(user: Seq<char>, assistant: Seq<char>) -> Seq<char> {
    "\n## user\n"@ + user + "\n\n## assistant\n"@ + assistant + "\n"@
}

/// The text a conversation turn adds to a session's notes.
pub fn exchange_entry(user: &str, assistant: &str) -> (r: String)
    ensures
        r@ == exchange_text(user@, assistant@),
{
    let mut v = chars_of("\n## user\n");
    crate::text::extend_chars(&mut v, &chars_of(user));
    crate::text::extend_chars(&mut v, &chars_of("\n\n## assistant\n"));
    crate::text::extend_chars(&mut v, &chars_of(assistant));
    crate::text::extend_chars(&mut v, &chars_of("\n"));
    string_from(&v)
}

/// The indexed paths whose files no longer exist, in index order.
pub open spec fn stale(indexed: Seq<Seq<char>>, current: Seq<Seq<char>>) -> Seq<Seq<char>> {
    indexed.filter(|p: Seq<char>| !current.contains(p))
}

/// The indexed paths to drop from the index: those not among the current
/// files.
pub fn stale_paths(indexed: &Vec<String>, current: &Vec<String>) -> (r: Vec<String>)
    ensures
        r@.map_values(|s: String| s@) == stale(
            indexed@.map_values(|s: String| s@),
            current@.map_values(|s: String| s@),
        ),
{
    let ghost iv = indexed@.map_values(|s: String| s@);
    let ghost cv = current@.map_values(|s: String| s@);
    let mut out: Vec<String> = Vec::new();
    let mut i: usize = 0;
    assert(iv.take(0).filter(|p: Seq<char>| !cv.contains(p)) =~= Seq::<Seq<char>>::empty());
    assert(out@.map_values(|s: String| s@) =~= Seq::<Seq<char>>::empty());
    while i < indexed.len()
        invariant
            i <= indexed@.len(),
            iv == indexed@.map_values(|s: String| s@),
            cv == current@.map_values(|s: String| s@),
            out@.map_values(|s: String| s@) == iv.take(i as int).filter(|p: Seq<char>| !cv.contains(p)),
        decreases indexed@.len() - i,
    {
        let p = indexed[i].as_str();
        assert(iv[i as int] == p@);
        assert(iv.take(i + 1) =~= iv.take(i as int).push(p@));
        proof {
            iv.take(i as int).lemma_filter_push(p@, |q: Seq<char>| !cv.contains(q));
        }
        let mut found = false;
        let mut j: usize = 0;
        while j < current.len() && !found
            invariant
                j <= current@.len(),
                cv == current@.map_values(|s: String| s@),
                found ==> cv.contains(p@),
                !found ==> forall|q: int| 0 <= q < j ==> cv[q] != p@,
            decreases current@.len() - j + if found { 0int } else { 1int },
        {
            if crate::text::str_eq(current[j].as_str(), p) {
                assert(cv[j as int] == p@);
                found = true;
            } else {
                j += 1;
            }
        }
        if !found {
            let ghost before = out@;
            let s = crate::text::owned(p);
            out.push(s);
            assert(out@.map_values(|x: String| x@) =~= before.map_values(|x: String| x@).push(p@));
        }
        i += 1;
    }
    assert(iv.take(iv.len() as int) =~= iv);
    out
}

} // verus!
