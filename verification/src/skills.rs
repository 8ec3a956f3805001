//! Skills: their records, name normalisation for de-duplication, content
//! hashes and the front matter of `SKILL.md` files.
use vstd::prelude::*;

use crate::embedding::{to_lowercase, unicode_lowercase};
use crate::text::{
    find_sub, first_occurrence, str_eq,
    chars_eq, chars_of, extend_chars, find_char, find_from, lemma_find_from_range, lines_of,
    seqs_of, slice_chars, split_char, split_at_char, split_lines, string_from, trim, trimmed,
};

verus! {

/// A skill installed in the skills directory.
#[derive(Debug, Clone)]
pub struct InstalledSkill {
    pub id: String,
    pub name: String,
    pub folder_name: String,
    pub source: String,
    pub is_enabled: bool,
}

/// A skill found in a marketplace search.
#[derive(Debug, Clone)]
pub struct SkillSearchHit {
    pub id: String,
    pub name: String,
    pub description: String,
    /// Lowercase name of the marketplace it came from, or `local`.
    pub source: String,
    /// How to install it: `skills.sh:…`, `github:owner/repo[/path]`, `zip` or `local:path`.
    pub install_source: String,
    pub tags: Vec<String>,
    pub author: Option<String>,
    pub stars: Option<u64>,
    pub url: Option<String>,
    pub installed: bool,
}

/// A skill folder found on disk.
#[derive(Debug, Clone)]
pub struct LocalSkill {
    pub name: String,
    pub description: Option<String>,
    pub path: String,
}

/// `s` without its spaces.
pub open spec fn without_spaces(s: Seq<char>) -> Seq<char>
    decreases s.len(),
{
    if s.len() == 0 {
        seq![]
    } else if s.last() == ' ' {
        without_spaces(s.drop_last())
    } else {
        without_spaces(s.drop_last()).push(s.last())
    }
}

/// `s` with the suffix `suf` removed, when it has it and something is left.
pub open spec fn strip_suffix_nonempty(s: Seq<char>, suf: Seq<char>) -> Seq<char> {
    if suf.len() < s.len() && s.skip(s.len() - suf.len()) == suf {
        s.take(s.len() - suf.len())
    } else {
        s
    }
}

/// The key under which skill names are de-duplicated: lowercased, spaces
/// removed, then the suffixes `-agent`, `-skill`, `agent`, `skill` stripped
/// in that order (each only when something remains).
pub open spec fn normalized_name(name: Seq<char>) -> Seq<char> {
    let s0 = without_spaces(unicode_lowercase(name));
    let s1 = strip_suffix_nonempty(s0, "-agent"@);
    let s2 = strip_suffix_nonempty(s1, "-skill"@);
    let s3 = strip_suffix_nonempty(s2, "agent"@);
    strip_suffix_nonempty(s3, "skill"@)
}

/// Removes `suf` from the end of `v` when present and something remains.
fn strip_suffix_keep(v: Vec<char>, suf: &str) -> (r: Vec<char>)
    ensures
        r@ == strip_suffix_nonempty(v@, suf@),
{
    let sc = chars_of(suf);
    if sc.len() < v.len() {
        let start = v.len() - sc.len();
        let tail = slice_chars(&v, start, v.len());
        assert(tail@ =~= v@.skip(start as int));
        if chars_eq(&tail, &sc) {
            let head = slice_chars(&v, 0, start);
            assert(head@ =~= v@.take(start as int));
            return head;
        }
    }
    v
}

/// Normalises a skill name for de-duplication.
pub fn normalize_name(name: &str) -> (r: String)
    ensures
        r@ == normalized_name(name@),
{
    let lower = to_lowercase(name);
    let cs = chars_of(lower.as_str());
    let mut s: Vec<char> = Vec::new();
    let mut i: usize = 0;
    while i < cs.len()
        invariant
            i <= cs@.len(),
            cs@ == unicode_lowercase(name@),
            s@ == without_spaces(cs@.take(i as int)),
        decreases cs@.len() - i,
    {
        assert(cs@.take(i + 1).drop_last() =~= cs@.take(i as int));
        if cs[i] != ' ' {
            s.push(cs[i]);
        }
        i += 1;
    }
    assert(cs@.take(cs@.len() as int) =~= cs@);
    let s = strip_suffix_keep(s, "-agent");
    let s = strip_suffix_keep(s, "-skill");
    let s = strip_suffix_keep(s, "agent");
    let s = strip_suffix_keep(s, "skill");
    string_from(&s)
}

/// The 64-bit hash std's `DefaultHasher::new()` gives a string.
pub uninterp spec fn default_hash(s: Seq<char>) -> u64;

/// Hash of `content` with std's default hasher (fixed keys).
///
/// Trusted: calls `Hash::hash` on the string with a fresh
/// `std::collections::hash_map::DefaultHasher` and `finish`; the algorithm
/// is unspecified by std, so its result is only named.
#[verifier::external_body]
fn default_hash_of(content: &str) -> (h: u64)
    ensures
        h == default_hash(content@),
{
    let mut hasher = std::collections::hash_map::DefaultHasher::new();
    std::hash::Hash::hash(content, &mut hasher);
    std::hash::Hasher::finish(&hasher)
}

/// Lowercase hexadecimal digit for `d`.
pub open spec fn hex_digit(d: nat) -> char {
    if d < 10 {
        (('0' as u32) + d) as char
    } else {
        (('a' as u32) + d - 10) as char
    }
}

/// Lowercase hexadecimal form of `n` without leading zeros (`{:x}`).
pub open spec fn hex(n: nat) -> Seq<char>
    decreases n,
{
    if n < 16 {
        seq![hex_digit(n)]
    } else {
        hex(n / 16).push(hex_digit(n % 16))
    }
}

/// The hexadecimal digit for `d`.
pub(crate) fn hex_digit_of(d: u64) -> (c: char)
    requires
        d < 16,
    ensures
        c == hex_digit(d as nat),
{
    let b = d as u8;
    if b < 10 {
        ((48u8 + b) as char)
    } else {
        ((97u8 + b - 10) as char)
    }
}

/// Lowercase hexadecimal digits of `n`.
pub fn hex_chars(n: u64) -> (r: Vec<char>)
    ensures
        r@ == hex(n as nat),
    decreases n,
{
    if n < 16 {
        let mut r = Vec::new();
        r.push(hex_digit_of(n));
        assert(r@ =~= seq![hex_digit(n as nat)]);
        r
    } else {
        let mut r = hex_chars(n / 16);
        r.push(hex_digit_of(n % 16));
        r
    }
}

/// The content hash of a skill file: its default hash in lowercase hex.
pub fn compute_hash(content: &str) -> (r: String)
    ensures
        r@ == hex(default_hash(content@) as nat),
{
    let h = default_hash_of(content);
    string_from(&hex_chars(h))
}

/// A front-matter value.
#[derive(Debug, Clone, PartialEq)]
pub enum FrontValue {
    /// `[a, b, "c"]`.
    List(Vec<String>),
    /// `true` or `false`.
    Flag(bool),
    /// Any other value, as written (the caller reads it as a number when it
    /// parses as one, else as text via [`unquote_text`]).
    Scalar(String),
}

/// A front-matter value as plain values.
pub enum FrontSpec {
    List(Seq<Seq<char>>),
    Flag(bool),
    Scalar(Seq<char>),
}

/// The plain value of `v`.
pub open spec fn front_view(v: FrontValue) -> FrontSpec {
    match v {
        FrontValue::List(items) => FrontSpec::List(items@.map_values(|s: String| s@)),
        FrontValue::Flag(b) => FrontSpec::Flag(b),
        FrontValue::Scalar(s) => FrontSpec::Scalar(s@),
    }
}

/// `s` without leading double quotes.
pub open spec fn trim_start_quotes(s: Seq<char>) -> Seq<char>
    decreases s.len(),
{
    if s.len() > 0 && s[0] == '"' {
        trim_start_quotes(s.drop_first())
    } else {
        s
    }
}

/// `s` without trailing double quotes.
pub open spec fn trim_end_quotes(s: Seq<char>) -> Seq<char>
    decreases s.len(),
{
    if s.len() > 0 && s.last() == '"' {
        trim_end_quotes(s.drop_last())
    } else {
        s
    }
}

/// `s` without surrounding double quotes (`trim_matches('"')`).
pub open spec fn unquoted(s: Seq<char>) -> Seq<char> {
    trim_end_quotes(trim_start_quotes(s))
}

/// The items of a bracketed list body: split at commas, each trimmed and
/// unquoted.
pub open spec fn list_items(inner: Seq<char>) -> Seq<Seq<char>> {
    split_at_char(inner, ',', 0).map_values(|p: Seq<char>| unquoted(trim(p)))
}

/// The value written after a key.
pub open spec fn front_value(v: Seq<char>) -> FrontSpec {
    if v.len() > 0 && v[0] == '[' && v.last() == ']' {
        FrontSpec::List(list_items(v.subrange(1, v.len() - 1)))
    } else if v == "true"@ {
        FrontSpec::Flag(true)
    } else if v == "false"@ {
        FrontSpec::Flag(false)
    } else {
        FrontSpec::Scalar(v)
    }
}

/// The key and value of a front-matter line: none for blank lines, comments
/// and lines without a colon.
pub open spec fn front_entry(line: Seq<char>) -> Option<(Seq<char>, FrontSpec)> {
    let t = trim(line);
    if t.len() == 0 || t[0] == '#' {
        None
    } else {
        let i = find_from(t, ':', 0);
        if i < 0 {
            None
        } else {
            Some((trim(t.take(i)), front_value(trim(t.skip(i + 1)))))
        }
    }
}

/// The entries of the given front-matter lines, in order.
pub open spec fn front_entries(lines: Seq<Seq<char>>) -> Seq<(Seq<char>, FrontSpec)>
    decreases lines.len(),
{
    if lines.len() == 0 {
        seq![]
    } else {
        let prev = front_entries(lines.drop_last());
        match front_entry(lines.last()) {
            Some(e) => prev.push(e),
            None => prev,
        }
    }
}

/// The front matter of a document and its body: the block between a leading
/// `---` and the next `---`; without it, no entries and the whole text.
pub open spec fn frontmatter(content: Seq<char>) -> (Seq<(Seq<char>, FrontSpec)>, Seq<char>) {
    if content.len() >= 3 && content.take(3) == "---"@ {
        let rest = content.skip(3);
        let e = first_occurrence(rest, "---"@);
        if e >= 0 {
            (front_entries(lines_of(rest.take(e))), rest.skip(e + 3))
        } else {
            (seq![], content)
        }
    } else {
        (seq![], content)
    }
}

/// `v` without surrounding double quotes.
fn unquote(v: &Vec<char>) -> (r: Vec<char>)
    ensures
        r@ == unquoted(v@),
{
    let mut lo: usize = 0;
    assert(v@.skip(0) =~= v@);
    while lo < v.len() && v[lo] == '"'
        invariant
            lo <= v@.len(),
            trim_start_quotes(v@) == trim_start_quotes(v@.skip(lo as int)),
        decreases v@.len() - lo,
    {
        assert(v@.skip(lo as int).drop_first() =~= v@.skip(lo + 1));
        lo += 1;
    }
    let mut hi: usize = v.len();
    assert(v@.skip(lo as int) =~= v@.subrange(lo as int, hi as int));
    while hi > lo && v[hi - 1] == '"'
        invariant
            lo <= hi <= v@.len(),
            unquoted(v@) == trim_end_quotes(v@.subrange(lo as int, hi as int)),
        decreases hi,
    {
        assert(v@.subrange(lo as int, hi as int).drop_last() =~= v@.subrange(lo as int, hi - 1));
        hi -= 1;
    }
    slice_chars(v, lo, hi)
}

/// `s` without surrounding double quotes (`trim_matches('"')`).
pub fn unquote_text(s: &str) -> (r: String)
    ensures
        r@ == unquoted(s@),
{
    let cs = chars_of(s);
    string_from(&unquote(&cs))
}

/// The value written after a key (already trimmed).
fn parse_value(v: &Vec<char>) -> (r: FrontValue)
    ensures
        front_view(r) == front_value(v@),
{
    let n = v.len();
    if n > 0 && v[0] == '[' && v[n - 1] == ']' {
        let inner = slice_chars(v, 1, n - 1);
        let parts = split_char(&inner, ',');
        let mut items: Vec<String> = Vec::new();
        let mut i: usize = 0;
        let ghost ps = seqs_of(parts@);
        while i < parts.len()
            invariant
                i <= parts@.len(),
                ps == seqs_of(parts@),
                ps == split_at_char(inner@, ',', 0),
                items@.map_values(|s: String| s@) == ps.take(i as int).map_values(
                    |p: Seq<char>| unquoted(trim(p)),
                ),
            decreases parts@.len() - i,
        {
            let ghost before = items@;
            let t = trimmed(&parts[i]);
            let u = unquote(&t);
            let us = string_from(&u);
            items.push(us);
            assert(ps[i as int] == parts@[i as int]@);
            assert(ps.take(i + 1) =~= ps.take(i as int).push(ps[i as int]));
            assert(items@.map_values(|s: String| s@) =~= before.map_values(|s: String| s@).push(us@));
            assert(items@.map_values(|s: String| s@) =~= ps.take(i + 1).map_values(
                |p: Seq<char>| unquoted(trim(p)),
            ));
            i += 1;
        }
        assert(ps.take(parts@.len() as int) =~= ps);
        return FrontValue::List(items);
    }
    if chars_eq(v, &chars_of("true")) {
        return FrontValue::Flag(true);
    }
    if chars_eq(v, &chars_of("false")) {
        return FrontValue::Flag(false);
    }
    FrontValue::Scalar(string_from(v))
}

/// The entry of one front-matter line, if it has one.
fn parse_entry(line: &Vec<char>) -> (r: Option<(String, FrontValue)>)
    ensures
        match front_entry(line@) {
            Some(e) => r matches Some(p) && p.0@ == e.0 && front_view(p.1) == e.1,
            None => r is None,
        },
{
    let t = trimmed(line);
    if t.len() == 0 || t[0] == '#' {
        return None;
    }
    match find_char(&t, ':', 0) {
        None => None,
        Some(i) => {
            let key = trimmed(&slice_chars(&t, 0, i));
            assert(t@.subrange(0, i as int) =~= t@.take(i as int));
            let raw = slice_chars(&t, i + 1, t.len());
            assert(raw@ =~= t@.skip(i + 1));
            let value = trimmed(&raw);
            Some((string_from(&key), parse_value(&value)))
        },
    }
}

/// The entries of front-matter lines, in order.
fn entries_of_lines(lines: &Vec<Vec<char>>) -> (r: Vec<(String, FrontValue)>)
    ensures
        r@.map_values(|e: (String, FrontValue)| (e.0@, front_view(e.1))) == front_entries(seqs_of(lines@)),
{
    let ghost ls = seqs_of(lines@);
    let mut entries: Vec<(String, FrontValue)> = Vec::new();
    let mut i: usize = 0;
    assert(ls.take(0) =~= seq![]);
    assert(entries@.map_values(|e: (String, FrontValue)| (e.0@, front_view(e.1))) =~= seq![]);
    while i < lines.len()
        invariant
            i <= lines@.len(),
            ls == seqs_of(lines@),
            entries@.map_values(|e: (String, FrontValue)| (e.0@, front_view(e.1))) == front_entries(
                ls.take(i as int),
            ),
        decreases lines@.len() - i,
    {
        assert(ls.take(i + 1).drop_last() =~= ls.take(i as int));
        assert(ls[i as int] == lines@[i as int]@);
        let ghost before = entries@;
        match parse_entry(&lines[i]) {
            Some(p) => {
                entries.push(p);
                assert(entries@.map_values(|e: (String, FrontValue)| (e.0@, front_view(e.1)))
                    =~= before.map_values(|e: (String, FrontValue)| (e.0@, front_view(e.1))).push(
                    (p.0@, front_view(p.1)),
                ));
            },
            None => {},
        }
        i += 1;
    }
    assert(ls.take(lines@.len() as int) =~= ls);
    entries
}

/// Reads the front matter of a document: its `key: value` entries (lists,
/// flags, numbers, text) in order, and the body after it.
pub fn parse_frontmatter(content: &str) -> (r: (Vec<(String, FrontValue)>, String))
    ensures
        r.0@.map_values(|e: (String, FrontValue)| (e.0@, front_view(e.1))) == frontmatter(content@).0,
        r.1@ == frontmatter(content@).1,
{
    let cs = chars_of(content);
    let entries: Vec<(String, FrontValue)> = Vec::new();
    assert(entries@.map_values(|e: (String, FrontValue)| (e.0@, front_view(e.1))) =~= seq![]);
    proof {
        reveal_strlit("---");
    }
    let prefixed = cs.len() >= 3 && cs[0] == '-' && cs[1] == '-' && cs[2] == '-';
    if !prefixed {
        assert(!(content@.len() >= 3 && content@.take(3) == "---"@)) by {
            if content@.len() >= 3 && content@.take(3) == "---"@ {
                assert(content@.take(3)[0] == '-');
                assert(content@.take(3)[1] == '-');
                assert(content@.take(3)[2] == '-');
            }
        }
        return (entries, string_from(&cs));
    }
    assert(cs@.take(3) =~= "---"@);
    let rest = slice_chars(&cs, 3, cs.len());
    assert(rest@ =~= content@.skip(3));
    let marker = chars_of("---");
    match find_sub(&rest, &marker) {
        Some(e) => {
            let yaml = slice_chars(&rest, 0, e);
            assert(yaml@ =~= rest@.take(e as int));
            let body = slice_chars(&rest, e + 3, rest.len());
            assert(body@ =~= rest@.skip(e + 3));
            let lines = split_lines(&yaml);
            let found = entries_of_lines(&lines);
            (found, string_from(&body))
        },
        None => (entries, string_from(&cs)),
    }
}

/// The index of the last entry with key `key` among the first `k`, or -1
/// (a later entry overrides an earlier one).
pub open spec fn last_key_index(entries: Seq<(Seq<char>, FrontSpec)>, key: Seq<char>, k: int) -> int
    decreases k,
{
    if k <= 0 {
        -1
    } else if entries[k - 1].0 == key {
        k - 1
    } else {
        last_key_index(entries, key, k - 1)
    }
}

/// The text of a front-matter value: a scalar that is not a number,
/// unquoted.
pub open spec fn text_value(v: FrontSpec, numeric: bool) -> Option<Seq<char>> {
    match v {
        FrontSpec::Scalar(s) => if numeric {
            None
        } else {
            Some(unquoted(s))
        },
        _ => None,
    }
}

/// The text of the entry with key `key`, if it holds text.
pub open spec fn meta_text(entries: Seq<(Seq<char>, FrontSpec)>, numeric: Seq<bool>, key: Seq<char>) -> Option<Seq<char>> {
    let j = last_key_index(entries, key, entries.len() as int);
    if j < 0 {
        None
    } else {
        text_value(entries[j].1, numeric[j])
    }
}

/// The tags of the front matter: the items of a `tags` list, none
/// otherwise.
pub open spec fn meta_tags(entries: Seq<(Seq<char>, FrontSpec)>) -> Seq<Seq<char>> {
    let j = last_key_index(entries, "tags"@, entries.len() as int);
    if j < 0 {
        Seq::empty()
    } else {
        match entries[j].1 {
            FrontSpec::List(items) => items,
            _ => Seq::empty(),
        }
    }
}

/// What a skill's front matter says of it.
#[derive(Debug, Clone)]
pub struct SkillMeta {
    pub name: String,
    pub description: Option<String>,
    pub author: Option<String>,
    pub tags: Vec<String>,
}

/// The plain values of front-matter entries.
pub open spec fn entry_views(entries: Seq<(String, FrontValue)>) -> Seq<(Seq<char>, FrontSpec)> {
    entries.map_values(|e: (String, FrontValue)| (e.0@, front_view(e.1)))
}

/// The last entry with key `key`, if any.
fn find_last(entries: &Vec<(String, FrontValue)>, key: &str) -> (r: Option<usize>)
    ensures
        match r {
            Some(j) => j < entries@.len() && j as int == last_key_index(entry_views(entries@), key@, entries@.len() as int),
            None => last_key_index(entry_views(entries@), key@, entries@.len() as int) == -1,
        },
{
    let ghost ev = entry_views(entries@);
    let mut k: usize = entries.len();
    while k > 0
        invariant
            k <= entries@.len(),
            ev == entry_views(entries@),
            last_key_index(ev, key@, entries@.len() as int) == last_key_index(ev, key@, k as int),
        decreases k,
    {
        assert(ev[k - 1].0 == entries@[k - 1].0@);
        if str_eq(entries[k - 1].0.as_str(), key) {
            return Some(k - 1);
        }
        k -= 1;
    }
    None
}

/// The text of the entry with key `key`.
fn text_entry(entries: &Vec<(String, FrontValue)>, numeric: &Vec<bool>, key: &str) -> (r: Option<String>)
    requires
        numeric@.len() == entries@.len(),
    ensures
        match r {
            Some(t) => meta_text(entry_views(entries@), numeric@, key@) == Some(t@),
            None => meta_text(entry_views(entries@), numeric@, key@) is None,
        },
{
    match find_last(entries, key) {
        None => None,
        Some(j) => {
            assert(entry_views(entries@)[j as int] == (entries@[j as int].0@, front_view(entries@[j as int].1)));
            match &entries[j].1 {
                FrontValue::Scalar(s) => if numeric[j] {
                    None
                } else {
                    Some(unquote_text(s.as_str()))
                },
                _ => None,
            }
        },
    }
}

/// What a skill's front matter says: its name (the folder's name when the
/// front matter has none), description, author and tags.  `numeric[i]`
/// tells whether the scalar value of entry `i` reads as a number.
pub fn skill_meta(entries: &Vec<(String, FrontValue)>, numeric: &Vec<bool>, folder_name: &str) -> (r: SkillMeta)
    requires
        numeric@.len() == entries@.len(),
    ensures
        r.name@ == match meta_text(entry_views(entries@), numeric@, "name"@) {
            Some(n) => n,
            None => folder_name@,
        },
        opt_text(r.description) == meta_text(entry_views(entries@), numeric@, "description"@),
        opt_text(r.author) == meta_text(entry_views(entries@), numeric@, "author"@),
        r.tags@.map_values(|t: String| t@) == meta_tags(entry_views(entries@)),
{
    let name = match text_entry(entries, numeric, "name") {
        Some(n) => n,
        None => string_from(&chars_of(folder_name)),
    };
    let description = text_entry(entries, numeric, "description");
    let author = text_entry(entries, numeric, "author");
    let tags = match find_last(entries, "tags") {
        None => Vec::new(),
        Some(j) => {
            assert(entry_views(entries@)[j as int] == (entries@[j as int].0@, front_view(entries@[j as int].1)));
            match &entries[j].1 {
                FrontValue::List(items) => {
                    let mut out: Vec<String> = Vec::new();
                    let mut i: usize = 0;
                    while i < items.len()
                        invariant
                            i <= items@.len(),
                            out@.len() == i,
                            forall|q: int| 0 <= q < i ==> #[trigger] out@[q]@ == items@[q]@,
                        decreases items@.len() - i,
                    {
                        out.push(string_from(&chars_of(items[i].as_str())));
                        i += 1;
                    }
                    assert(out@.map_values(|t: String| t@) =~= items@.map_values(|s: String| s@));
                    out
                },
                _ => Vec::new(),
            }
        },
    };
    SkillMeta { name, description, author, tags }
}

/// The text of an optional string.
pub open spec fn opt_text(o: Option<String>) -> Option<Seq<char>> {
    match o {
        Some(s) => Some(s@),
        None => None,
    }
}

} // verus!
