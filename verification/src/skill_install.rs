//! Reading a marketplace install instruction: `local:<path>`,
//! `github:<owner>/<repo>[/<sub/path>]`, `skills.sh:…` and `zip:…` (both
//! refused: they are installed by hand), or a bare local path.  The prefix
//! is matched without regard to case.
use vstd::prelude::*;

use crate::embedding::unicode_lowercase;
use crate::embedding::to_lowercase;
use crate::text::{chars_of, join_strings, join_with, seqs_of, slice_chars, split_at_char, split_char, string_from, string_views, trim, trimmed};

verus! {

/// What an install instruction asks for.
#[derive(Debug, Clone, PartialEq, Eq)]
pub enum InstallTarget {
    /// Install from a local folder.
    Local(String),
    /// Clone a GitHub repository and install from it (or from a folder in it).
    Github { owner: String, repo: String, sub_path: Option<String> },
}

/// Why an install instruction was refused.
#[derive(Debug, Clone, Copy, PartialEq, Eq, Structural)]
pub enum InstallSourceError {
    MissingLocalPath,
    MissingRepoSpec,
    MissingOwner,
    MissingRepo,
    SkillsShUnsupported,
    ZipUnsupported,
}

impl InstallSourceError {
    /// The message shown for the error.
    pub fn message(&self) -> (m: &'static str)
        ensures
            m@ == match self {
                InstallSourceError::MissingLocalPath => "local: 缺少本地路径"@,
                InstallSourceError::MissingRepoSpec => "github: 缺少 owner/repo"@,
                InstallSourceError::MissingOwner => "github: 缺少 owner"@,
                InstallSourceError::MissingRepo => "github: 缺少 repo"@,
                InstallSourceError::SkillsShUnsupported => "skills.sh 在线安装暂不支持，请手动下载后使用 local: 本地路径安装"@,
                InstallSourceError::ZipUnsupported => "zip 在线安装暂不支持，请手动下载后使用 local: 本地路径安装"@,
            },
    {
        match self {
            InstallSourceError::MissingLocalPath => "local: 缺少本地路径",
            InstallSourceError::MissingRepoSpec => "github: 缺少 owner/repo",
            InstallSourceError::MissingOwner => "github: 缺少 owner",
            InstallSourceError::MissingRepo => "github: 缺少 repo",
            InstallSourceError::SkillsShUnsupported => "skills.sh 在线安装暂不支持，请手动下载后使用 local: 本地路径安装",
            InstallSourceError::ZipUnsupported => "zip 在线安装暂不支持，请手动下载后使用 local: 本地路径安装",
        }
    }
}

/// An install target as plain values.
pub enum TargetView {
    Local(Seq<char>),
    Github(Seq<char>, Seq<char>, Option<Seq<char>>),
}

/// The plain value of a target.
pub open spec fn target_view(t: InstallTarget) -> TargetView {
    match t {
        InstallTarget::Local(p) => TargetView::Local(p@),
        InstallTarget::Github { owner, repo, sub_path } => TargetView::Github(
            owner@,
            repo@,
            match sub_path {
                Some(s) => Some(s@),
                None => None,
            },
        ),
    }
}

/// The non-empty pieces of a sequence of pieces.
pub open spec fn non_empty(ps: Seq<Seq<char>>) -> Seq<Seq<char>>
    decreases ps.len(),
{
    if ps.len() == 0 {
        Seq::empty()
    } else if ps.last().len() == 0 {
        non_empty(ps.drop_last())
    } else {
        non_empty(ps.drop_last()).push(ps.last())
    }
}

/// The reading of a `github:` spec: owner, repository, and the remaining
/// path segments joined with `/` when there are any.
pub open spec fn github_target(spec: Seq<char>) -> Result<TargetView, InstallSourceError> {
    let parts = non_empty(split_at_char(spec, '/', 0));
    if parts.len() == 0 {
        Err(InstallSourceError::MissingOwner)
    } else if parts.len() == 1 {
        Err(InstallSourceError::MissingRepo)
    } else {
        Ok(
            TargetView::Github(
                parts[0],
                parts[1],
                if parts.len() == 2 {
                    None
                } else {
                    Some(join_with(parts.skip(2), seq!['/']))
                },
            ),
        )
    }
}

/// `s` starts with `p`.
pub open spec fn has_prefix(s: Seq<char>, p: Seq<char>) -> bool {
    p.len() <= s.len() && s.take(p.len() as int) == p
}

/// The reading of an install instruction.
pub open spec fn install_target(source: Seq<char>) -> Result<TargetView, InstallSourceError> {
    let lower = unicode_lowercase(source);
    if has_prefix(lower, "local:"@) {
        let path = if source.len() >= 6 {
            trim(source.skip(6))
        } else {
            Seq::empty()
        };
        if path.len() == 0 {
            Err(InstallSourceError::MissingLocalPath)
        } else {
            Ok(TargetView::Local(path))
        }
    } else if has_prefix(lower, "github:"@) {
        let spec = if source.len() >= 7 {
            trim(source.skip(7))
        } else {
            Seq::empty()
        };
        if spec.len() == 0 {
            Err(InstallSourceError::MissingRepoSpec)
        } else {
            github_target(spec)
        }
    } else if has_prefix(lower, "skills.sh:"@) {
        Err(InstallSourceError::SkillsShUnsupported)
    } else if has_prefix(lower, "zip:"@) {
        Err(InstallSourceError::ZipUnsupported)
    } else {
        Ok(TargetView::Local(source))
    }
}

/// Whether `s` starts with `p`.
fn starts_with_str(s: &Vec<char>, p: &str) -> (r: bool)
    ensures
        r == has_prefix(s@, p@),
{
    let pc = chars_of(p);
    if pc.len() > s.len() {
        return false;
    }
    let head = slice_chars(s, 0, pc.len());
    assert(head@ =~= s@.take(pc@.len() as int));
    crate::text::chars_eq(&head, &pc)
}

/// The trimmed text of `s` after its first `k` characters.
fn rest_after(s: &Vec<char>, k: usize) -> (r: Vec<char>)
    requires
        k <= s@.len(),
    ensures
        r@ == trim(s@.skip(k as int)),
{
    let tail = slice_chars(s, k, s.len());
    assert(tail@ =~= s@.skip(k as int));
    trimmed(&tail)
}

/// Reads a `github:` spec.
fn parse_github_spec(spec: &Vec<char>) -> (r: Result<InstallTarget, InstallSourceError>)
    ensures
        match r {
            Ok(t) => github_target(spec@) == Ok::<TargetView, InstallSourceError>(target_view(t)),
            Err(e) => github_target(spec@) == Err::<TargetView, InstallSourceError>(e),
        },
{
    let pieces = split_char(spec, '/');
    let ghost all = seqs_of(pieces@);
    let mut parts: Vec<String> = Vec::new();
    let mut i: usize = 0;
    while i < pieces.len()
        invariant
            i <= pieces@.len(),
            all == seqs_of(pieces@),
            string_views(parts@) == non_empty(all.take(i as int)),
        decreases pieces@.len() - i,
    {
        assert(all.take(i + 1).drop_last() =~= all.take(i as int));
        assert(all[i as int] == pieces@[i as int]@);
        if pieces[i].len() > 0 {
            let ghost before = parts@;
            let s = string_from(&pieces[i]);
            parts.push(s);
            assert(string_views(parts@) =~= string_views(before).push(s@));
        }
        i += 1;
    }
    assert(all.take(all.len() as int) =~= all);
    let ghost ps = string_views(parts@);
    if parts.len() == 0 {
        return Err(InstallSourceError::MissingOwner);
    }
    if parts.len() == 1 {
        return Err(InstallSourceError::MissingRepo);
    }
    let sub_path = if parts.len() == 2 {
        None
    } else {
        let mut rest: Vec<String> = Vec::new();
        let mut j: usize = 2;
        while j < parts.len()
            invariant
                2 <= j <= parts@.len(),
                ps == string_views(parts@),
                string_views(rest@) == ps.subrange(2, j as int),
            decreases parts@.len() - j,
        {
            let ghost before = rest@;
            let s = crate::text::owned(parts[j].as_str());
            rest.push(s);
            assert(string_views(rest@) =~= string_views(before).push(s@));
            assert(ps.subrange(2, j + 1) =~= ps.subrange(2, j as int).push(ps[j as int]));
            j += 1;
        }
        assert(ps.subrange(2, ps.len() as int) =~= ps.skip(2));
        let joined = join_strings(&rest, "/");
        proof {
            reveal_strlit("/");
            assert("/"@ =~= seq!['/']);
        }
        Some(string_from(&joined))
    };
    let owner = crate::text::owned(parts[0].as_str());
    let repo = crate::text::owned(parts[1].as_str());
    Ok(InstallTarget::Github { owner, repo, sub_path })
}

/// Reads an install instruction.
pub fn parse_install_source(source: &str) -> (r: Result<InstallTarget, InstallSourceError>)
    ensures
        match r {
            Ok(t) => install_target(source@) == Ok::<TargetView, InstallSourceError>(target_view(t)),
            Err(e) => install_target(source@) == Err::<TargetView, InstallSourceError>(e),
        },
{
    let lower = chars_of(to_lowercase(source).as_str());
    let sc = chars_of(source);
    if starts_with_str(&lower, "local:") {
        let path = if sc.len() >= 6 {
            rest_after(&sc, 6)
        } else {
            Vec::new()
        };
        if path.len() == 0 {
            return Err(InstallSourceError::MissingLocalPath);
        }
        return Ok(InstallTarget::Local(string_from(&path)));
    }
    if starts_with_str(&lower, "github:") {
        let spec = if sc.len() >= 7 {
            rest_after(&sc, 7)
        } else {
            Vec::new()
        };
        if spec.len() == 0 {
            return Err(InstallSourceError::MissingRepoSpec);
        }
        return parse_github_spec(&spec);
    }
    if starts_with_str(&lower, "skills.sh:") {
        return Err(InstallSourceError::SkillsShUnsupported);
    }
    if starts_with_str(&lower, "zip:") {
        return Err(InstallSourceError::ZipUnsupported);
    }
    Ok(InstallTarget::Local(crate::text::owned(source)))
}

} // verus!
