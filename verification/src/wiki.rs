//! Wiki helpers: page path checks, index truncation and search snippets.
use vstd::prelude::*;

use crate::text::{
    join_with,
    lemma_byte_offset_mono, lemma_byte_offset_last,
    boundary_offsets, byte_len, chars_of, extend_chars, floor_at, floor_index, lemma_floor_index,
    lemma_floor_index_mono, lemma_floor_at_offset, byte_offset, lines_of, seqs_of, split_lines, str_byte_len, string_from,
    string_of,
};

verus! {

/// Why a page path was refused.
#[derive(Debug, Clone, Copy, PartialEq, Eq, Structural)]
pub enum WikiPathError {
    /// The path contains `..`.
    ParentSegment,
    /// The path starts at a root (`/` or `\`).
    Rooted,
    /// The resolved path leaves the wiki root.
    OutsideRoot,
}

impl WikiPathError {
    /// The message shown to the user.
    pub fn message(&self) -> (m: &'static str)
        ensures
            m@ == match self {
                WikiPathError::ParentSegment => "路径不能包含 '..'"@,
                WikiPathError::Rooted => "路径不能以 '/' 或 '\\' 开头"@,
                WikiPathError::OutsideRoot => "路径越界，已拒绝"@,
            },
    {
        match self {
            WikiPathError::ParentSegment => "路径不能包含 '..'",
            WikiPathError::Rooted => "路径不能以 '/' 或 '\\' 开头",
            WikiPathError::OutsideRoot => "路径越界，已拒绝",
        }
    }
}

/// `s` contains two adjacent dots.
pub open spec fn has_dotdot(s: Seq<char>) -> bool {
    exists|i: int| 0 <= i && i + 1 < s.len() && #[trigger] s[i] == '.' && s[i + 1] == '.'
}

/// `s` starts with `/` or `\`.
pub open spec fn is_rooted(s: Seq<char>) -> bool {
    s.len() > 0 && (s[0] == '/' || s[0] == '\\')
}

/// The verdict on a page path.
pub open spec fn page_path_verdict(s: Seq<char>) -> Result<(), WikiPathError> {
    if has_dotdot(s) {
        Err(WikiPathError::ParentSegment)
    } else if is_rooted(s) {
        Err(WikiPathError::Rooted)
    } else {
        Ok(())
    }
}

/// Checks that a page path stays relative to the wiki root: no `..`, and no
/// leading `/` or `\`.
pub fn validate_page_path(path: &str) -> (r: Result<(), WikiPathError>)
    ensures
        r == page_path_verdict(path@),
{
    let cs = chars_of(path);
    let n = cs.len();
    let mut i: usize = 0;
    while n > 0 && i < n - 1
        invariant
            n == cs@.len(),
            i <= n,
            cs@ == path@,
            forall|j: int| 0 <= j < i && j + 1 < n ==> !(#[trigger] cs@[j] == '.' && cs@[j + 1] == '.'),
        decreases n - i,
    {
        if cs[i] == '.' && cs[i + 1] == '.' {
            assert(cs@[i as int] == '.' && cs@[i + 1] == '.');
            return Err(WikiPathError::ParentSegment);
        }
        i += 1;
    }
    assert(!has_dotdot(path@));
    if n > 0 && (cs[0] == '/' || cs[0] == '\\') {
        return Err(WikiPathError::Rooted);
    }
    Ok(())
}

/// `Path::starts_with`: `root`'s components are a prefix of `target`'s.
pub uninterp spec fn path_starts_with(target: Seq<char>, root: Seq<char>) -> bool;

/// Whether path `target` lies under path `root`.
///
/// Trusted: calls `std::path::Path::starts_with`, which compares whole path
/// components; that comparison is only named here.
#[verifier::external_body]
fn path_has_prefix(target: &str, root: &str) -> (r: bool)
    ensures
        r == path_starts_with(target@, root@),
{
    std::path::Path::new(target).starts_with(root)
}

/// Refuses a target path that is not under the root.
pub fn ensure_within(target: &str, root: &str) -> (r: Result<(), WikiPathError>)
    ensures
        r == if path_starts_with(target@, root@) {
            Ok(())
        } else {
            Err(WikiPathError::OutsideRoot)
        },
{
    if path_has_prefix(target, root) {
        Ok(())
    } else {
        Err(WikiPathError::OutsideRoot)
    }
}

/// The first `max_lines` lines of `s`, joined with `\n`.
pub open spec fn truncated_lines(s: Seq<char>, max_lines: nat) -> Seq<char> {
    let ls = lines_of(s);
    join_with(
        if max_lines < ls.len() {
            ls.take(max_lines as int)
        } else {
            ls
        },
        seq!['\n'],
    )
}

/// Keeps the first `max_lines` lines of `s`.
pub fn truncate_md(s: &str, max_lines: usize) -> (r: String)
    ensures
        r@ == truncated_lines(s@, max_lines as nat),
{
    let cs = chars_of(s);
    let ls = split_lines(&cs);
    let k = if max_lines < ls.len() {
        max_lines
    } else {
        ls.len()
    };
    let ghost all = seqs_of(ls@);
    let mut out: Vec<char> = Vec::new();
    let mut i: usize = 0;
    assert(all.take(0) =~= seq![]);
    while i < k
        invariant
            k <= ls@.len(),
            all == seqs_of(ls@),
            i <= k,
            out@ == join_with(all.take(i as int), seq!['\n']),
        decreases k - i,
    {
        assert(all.take(i + 1).drop_last() =~= all.take(i as int));
        assert(all[i as int] == ls@[i as int]@);
        if i > 0 {
            out.push('\n');
        }
        extend_chars(&mut out, &ls[i]);
        i += 1;
    }
    if max_lines < ls.len() {
        assert(all.take(k as int) =~= all.take(max_lines as int));
    } else {
        assert(all.take(k as int) =~= all);
    }
    string_from(&out)
}

/// The snippet around a hit at byte `pos` of length `query_len`: from about
/// 100 bytes before to about 100 bytes after, both ends moved back to a
/// character boundary.
pub open spec fn snippet_of(s: Seq<char>, pos: nat, query_len: nat) -> Seq<char> {
    let from: int = if pos >= 100 {
        (pos - 100) as int
    } else {
        0
    };
    let to: int = if pos + query_len + 100 <= byte_len(s) {
        (pos + query_len + 100) as int
    } else {
        byte_len(s) as int
    };
    s.subrange(floor_index(s, from) as int, floor_index(s, to) as int)
}

/// Cuts the snippet of `content` around byte `pos` (never inside a character).
pub fn make_snippet(content: &str, pos: usize, query_len: usize) -> (r: String)
    requires
        pos + query_len + 100 <= usize::MAX,
    ensures
        r@ == snippet_of(content@, pos as nat, query_len as nat),
{
    let cs = chars_of(content);
    let total = str_byte_len(content);
    let offs = boundary_offsets(&cs);
    let from = pos.saturating_sub(100);
    let to = if pos + query_len + 100 <= total {
        pos + query_len + 100
    } else {
        total
    };
    let start = floor_at(&offs, from, Ghost(cs@));
    let end = floor_at(&offs, to, Ghost(cs@));
    proof {
        if from <= to {
            lemma_floor_index_mono(cs@, from as int, to as int);
        } else {
            lemma_floor_index(cs@, from as int);
            lemma_floor_index(cs@, to as int);
            assert(cs@.take(cs@.len() as int) =~= cs@);
        }
    }
    string_of(&cs, start, end)
}

/// Law: a hit that starts and ends on character boundaries lies wholly inside
/// its snippet.
pub proof fn law_snippet_covers_hit(s: Seq<char>, a: int, b: int)
    requires
        0 <= a <= b <= s.len(),
    ensures
        ({
            let pos = byte_offset(s, a);
            let q = (byte_offset(s, b) - byte_offset(s, a)) as nat;
            let from: int = if pos >= 100 {
                (pos - 100) as int
            } else {
                0
            };
            let to: int = if pos + q + 100 <= byte_len(s) {
                (pos + q + 100) as int
            } else {
                byte_len(s) as int
            };
            &&& floor_index(s, from) <= a
            &&& b <= floor_index(s, to) <= s.len()
            &&& snippet_of(s, pos, q) == s.subrange(floor_index(s, from) as int, floor_index(s, to) as int)
        }),
{
    let pos = byte_offset(s, a);
    lemma_byte_offset_mono(s, a, b);
    lemma_byte_offset_mono(s, b, s.len() as int);
    lemma_byte_offset_last(s);
    let q = (byte_offset(s, b) - byte_offset(s, a)) as nat;
    let from: int = if pos >= 100 {
        (pos - 100) as int
    } else {
        0
    };
    let to: int = if pos + q + 100 <= byte_len(s) {
        (pos + q + 100) as int
    } else {
        byte_len(s) as int
    };
    lemma_floor_at_offset(s, a);
    lemma_floor_at_offset(s, b);
    lemma_floor_index_mono(s, from, pos as int);
    lemma_floor_index_mono(s, byte_offset(s, b) as int, to);
    lemma_floor_index(s, to);
}

} // verus!
