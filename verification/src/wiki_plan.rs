//! Applying a wiki write plan as a transaction.
//!
//! Every page path of the plan is checked before anything is written.  The
//! operations then turn, one at a time, into file-system steps; each step
//! comes with the undo entries to record once it has succeeded, and on a
//! failure the recorded entries are undone newest first.  Finally the index
//! and the change log get their new sections.
//!
//! The caller performs the steps and reads the files; this module decides
//! what to do and what to write.
use vstd::prelude::*;

use crate::asr_catalog::{join_path, path_join};
use crate::models::{WikiOp, WikiPage, WikiWritePlan, WikiWriteResult};
use crate::text::{
    chars_of, decimal, decimal_chars, extend_chars, find_char, find_from, join_strings, join_with,
    lemma_find_from_range, occurs_at, owned, rfind_before, rfind_char, slice_chars, string_from,
    string_of, string_views, trim, trimmed,
};
use crate::wiki::{
    ensure_within, page_path_verdict, path_starts_with, truncate_md, truncated_lines, validate_page_path,
    WikiPathError,
};

verus! {

/// `Path::parent` of a path, as text.
pub uninterp spec fn path_parent(p: Seq<char>) -> Option<Seq<char>>;

/// `Path::file_name` of a path, as text (empty when there is none).
pub uninterp spec fn path_file_name(p: Seq<char>) -> Seq<char>;

/// The parent directory of `p`.
///
/// Trusted: calls `std::path::Path::parent`; its result is only named.
#[verifier::external_body]
fn parent_of(p: &str) -> (r: Option<String>)
    ensures
        match r {
            Some(s) => path_parent(p@) == Some(s@),
            None => path_parent(p@) is None,
        },
{
    std::path::Path::new(p).parent().map(|q| q.to_string_lossy().into_owned())
}

/// The last component of `p`.
///
/// Trusted: calls `std::path::Path::file_name` (empty text when there is
/// none); its result is only named.
#[verifier::external_body]
pub(crate) fn file_name_of(p: &str) -> (r: String)
    ensures
        r@ == path_file_name(p@),
{
    std::path::Path::new(p).file_name().map(|n| n.to_string_lossy().into_owned()).unwrap_or_default()
}

/// A file-system step, as text.
pub enum FsStepView {
    CreateDir(Seq<char>),
    Write(Seq<char>, Seq<char>),
    Copy(Seq<char>, Seq<char>),
    Rename(Seq<char>, Seq<char>),
}

/// A file-system step for the caller to perform.
#[derive(Debug, Clone, PartialEq, Eq)]
pub enum FsStep {
    /// Create the directory and its parents.
    CreateDir(String),
    /// Write the text to the file (path, content).
    Write(String, String),
    /// Copy a file (from, to).
    Copy(String, String),
    /// Move a file (from, to).
    Rename(String, String),
}

impl View for FsStep {
    type V = FsStepView;

    open spec fn view(&self) -> FsStepView {
        match self {
            FsStep::CreateDir(p) => FsStepView::CreateDir(p@),
            FsStep::Write(p, c) => FsStepView::Write(p@, c@),
            FsStep::Copy(a, b) => FsStepView::Copy(a@, b@),
            FsStep::Rename(a, b) => FsStepView::Rename(a@, b@),
        }
    }
}

/// An undo entry, as text.
pub enum UndoView {
    DeleteCreated(Seq<char>),
    RestoreBackup(Seq<char>),
    RemoveBackup(Seq<char>),
    MoveBack(Seq<char>, Seq<char>),
    RestoreFile(Seq<char>, Seq<u8>),
}

/// How to undo a step that succeeded.
#[derive(Debug, Clone, PartialEq, Eq)]
pub enum UndoStep {
    /// Delete a page that was created.
    DeleteCreated(String),
    /// Move `<page>.bak` back over the page.
    RestoreBackup(String),
    /// Delete a backup file.
    RemoveBackup(String),
    /// Move a trashed page back (from, to).
    MoveBack(String, String),
    /// Write back a file's former bytes.
    RestoreFile(String, Vec<u8>),
}

impl View for UndoStep {
    type V = UndoView;

    open spec fn view(&self) -> UndoView {
        match self {
            UndoStep::DeleteCreated(p) => UndoView::DeleteCreated(p@),
            UndoStep::RestoreBackup(p) => UndoView::RestoreBackup(p@),
            UndoStep::RemoveBackup(p) => UndoView::RemoveBackup(p@),
            UndoStep::MoveBack(a, b) => UndoView::MoveBack(a@, b@),
            UndoStep::RestoreFile(p, b) => UndoView::RestoreFile(p@, b@),
        }
    }
}

/// A step together with the undo entries to record once it succeeded.
#[derive(Debug, Clone)]
pub struct PlannedStep {
    pub action: FsStep,
    pub undo: Vec<UndoStep>,
}

/// The views of undo entries.
pub open spec fn undo_views(u: Seq<UndoStep>) -> Seq<UndoView> {
    u.map_values(|x: UndoStep| x@)
}

impl View for PlannedStep {
    type V = (FsStepView, Seq<UndoView>);

    open spec fn view(&self) -> (FsStepView, Seq<UndoView>) {
        (self.action@, undo_views(self.undo@))
    }
}

/// The page path an operation touches, if any.
pub open spec fn op_page_path(op: WikiOp) -> Option<Seq<char>> {
    match op {
        WikiOp::CreatePage { path, .. } => Some(path@),
        WikiOp::UpdatePage { path, .. } => Some(path@),
        WikiOp::DeletePage { path, .. } => Some(path@),
        _ => None,
    }
}

/// The check of one operation's page path against the wiki root.
pub open spec fn op_check(root: Seq<char>, op: WikiOp) -> Result<(), WikiPathError> {
    match op_page_path(op) {
        None => Ok(()),
        Some(p) => match page_path_verdict(p) {
            Err(e) => Err(e),
            Ok(()) => if path_starts_with(path_join(root, p), root) {
                Ok(())
            } else {
                Err(WikiPathError::OutsideRoot)
            },
        },
    }
}

/// The check of a whole plan: the first operation that fails decides.
pub open spec fn plan_check(root: Seq<char>, ops: Seq<WikiOp>) -> Result<(), WikiPathError>
    decreases ops.len(),
{
    if ops.len() == 0 {
        Ok(())
    } else {
        match plan_check(root, ops.drop_last()) {
            Err(e) => Err(e),
            Ok(()) => op_check(root, ops.last()),
        }
    }
}

/// Checks every page path of the plan before anything is written: each must
/// be a relative path without `..` that stays under the wiki root.
pub fn precheck_plan(root: &str, plan: &WikiWritePlan) -> (r: Result<(), WikiPathError>)
    ensures
        r == plan_check(root@, plan.operations@),
{
    let ops = &plan.operations;
    let mut i: usize = 0;
    while i < ops.len()
        invariant
            i <= ops@.len(),
            ops@ == plan.operations@,
            plan_check(root@, ops@.take(i as int)) == Ok::<(), WikiPathError>(()),
        decreases ops@.len() - i,
    {
        assert(ops@.take(i + 1).drop_last() =~= ops@.take(i as int));
        assert(ops@.take(i + 1).last() == ops@[i as int]);
        let path: Option<&String> = match &ops[i] {
            WikiOp::CreatePage { path, .. } => Some(path),
            WikiOp::UpdatePage { path, .. } => Some(path),
            WikiOp::DeletePage { path, .. } => Some(path),
            _ => None,
        };
        match path {
            None => {},
            Some(p) => {
                match validate_page_path(p.as_str()) {
                    Err(e) => {
                        assert(op_check(root@, ops@[i as int]) == Err::<(), WikiPathError>(e));
                        assert(plan_check(root@, ops@.take(i + 1)) == Err::<(), WikiPathError>(e));
                        proof {
                            lemma_plan_check_prefix_err(root@, ops@, i as int + 1);
                        }
                        return Err(e);
                    },
                    Ok(()) => {},
                }
                let target = join_path(root, p.as_str());
                match ensure_within(target.as_str(), root) {
                    Err(e) => {
                        assert(op_check(root@, ops@[i as int]) == Err::<(), WikiPathError>(e));
                        assert(plan_check(root@, ops@.take(i + 1)) == Err::<(), WikiPathError>(e));
                        proof {
                            lemma_plan_check_prefix_err(root@, ops@, i as int + 1);
                        }
                        return Err(e);
                    },
                    Ok(()) => {},
                }
            },
        }
        i += 1;
    }
    assert(ops@.take(ops@.len() as int) =~= ops@);
    Ok(())
}

/// Once a prefix of the plan fails, the whole plan fails the same way.
proof fn lemma_plan_check_prefix_err(root: Seq<char>, ops: Seq<WikiOp>, k: int)
    requires
        0 <= k <= ops.len(),
        plan_check(root, ops.take(k)) is Err,
    ensures
        plan_check(root, ops) == plan_check(root, ops.take(k)),
    decreases ops.len() - k,
{
    if k < ops.len() {
        assert(ops.take(k + 1).drop_last() =~= ops.take(k));
        lemma_plan_check_prefix_err(root, ops, k + 1);
    } else {
        assert(ops.take(k) =~= ops);
    }
}

/// The directory into which deleted pages are moved: `.trash` beside the
/// wiki root (or inside it when the root has no parent).
pub open spec fn trash_dir_of(root: Seq<char>) -> Seq<char> {
    path_join(
        match path_parent(root) {
            Some(p) => p,
            None => root,
        },
        ".trash"@,
    )
}

/// The trash directory for a wiki root.
pub fn trash_dir(root: &str) -> (r: String)
    ensures
        r@ == trash_dir_of(root@),
{
    match parent_of(root) {
        Some(p) => join_path(p.as_str(), ".trash"),
        None => join_path(root, ".trash"),
    }
}

/// The steps that create the parent directory of `p`, when it has one.
pub open spec fn parent_steps(p: Seq<char>) -> Seq<(FsStepView, Seq<UndoView>)> {
    match path_parent(p) {
        Some(d) => seq![(FsStepView::CreateDir(d), Seq::<UndoView>::empty())],
        None => Seq::empty(),
    }
}

/// The text of a newly created page.
pub open spec fn new_page_text(title: Seq<char>, content: Seq<char>) -> Seq<char> {
    "# "@ + title + "\n\n"@ + content + "\n"@
}

/// The backup file of a page.
pub open spec fn backup_of(p: Seq<char>) -> Seq<char> {
    p + ".bak"@
}

/// The file-system steps of one operation, given whether its target page
/// exists.
pub open spec fn planned_steps(root: Seq<char>, trash: Seq<char>, op: WikiOp, exists: bool) -> Seq<
    (FsStepView, Seq<UndoView>),
> {
    match op {
        WikiOp::CreatePage { path, title, content } => {
            let t = path_join(root, path@);
            parent_steps(t) + seq![
                (FsStepView::Write(t, new_page_text(title@, content@)), seq![UndoView::DeleteCreated(t)]),
            ]
        },
        WikiOp::UpdatePage { path, content, .. } => {
            let t = path_join(root, path@);
            (if exists {
                seq![
                    (
                        FsStepView::Copy(t, backup_of(t)),
                        seq![UndoView::RestoreBackup(t), UndoView::RemoveBackup(backup_of(t))],
                    ),
                ]
            } else {
                Seq::empty()
            }) + parent_steps(t) + seq![(FsStepView::Write(t, content@), Seq::<UndoView>::empty())]
        },
        WikiOp::DeletePage { path, .. } => {
            let t = path_join(root, path@);
            let dest = path_join(trash, path_file_name(t));
            if exists {
                seq![
                    (FsStepView::CreateDir(trash), Seq::<UndoView>::empty()),
                    (FsStepView::Rename(t, dest), seq![UndoView::MoveBack(dest, t)]),
                ]
            } else {
                Seq::empty()
            }
        },
        _ => Seq::empty(),
    }
}

/// The line an operation adds to the change log.
pub open spec fn op_log_line(op: WikiOp, exists: bool) -> Seq<char> {
    match op {
        WikiOp::CreatePage { path, .. } => "- CreatePage: "@ + path@ + " (新页面)\n"@,
        WikiOp::UpdatePage { path, summary, .. } => "- UpdatePage: "@ + path@ + " ("@ + summary@ + ")\n"@,
        WikiOp::DeletePage { path, reason } => if exists {
            "- DeletePage: "@ + path@ + " (移至 .trash，原因: "@ + reason@ + ")\n"@
        } else {
            Seq::empty()
        },
        WikiOp::UpdateIndex { .. } => Seq::empty(),
        WikiOp::Noop { reason } => "- Noop: "@ + reason@ + "\n"@,
    }
}

/// The index entries an operation adds.
pub open spec fn op_index_entries(op: WikiOp) -> Seq<Seq<char>> {
    match op {
        WikiOp::CreatePage { path, title, .. } => seq!["- ["@ + title@ + "]("@ + path@ + ")"@],
        WikiOp::UpdateIndex { entries } => entries@.map_values(|e: String| e@),
        _ => Seq::empty(),
    }
}

/// Whether an operation counts as applied.
pub open spec fn op_applied(op: WikiOp, exists: bool) -> bool {
    match op {
        WikiOp::DeletePage { .. } => exists,
        WikiOp::Noop { .. } => false,
        _ => true,
    }
}

/// The progress of applying a plan.
#[derive(Debug, Clone)]
pub struct PlanRun {
    pub applied: usize,
    pub noop: usize,
    pub ops_log: String,
    pub index_entries: Vec<String>,
}

/// The views of some strings.
pub open spec fn views_of(v: Seq<String>) -> Seq<Seq<char>> {
    v.map_values(|s: String| s@)
}

/// Each entry followed by a line break.
pub open spec fn entry_lines(entries: Seq<Seq<char>>) -> Seq<char>
    decreases entries.len(),
{
    if entries.len() == 0 {
        Seq::empty()
    } else {
        entry_lines(entries.drop_last()) + entries.last() + "\n"@
    }
}

/// A file's text, or `fallback` when it is blank, ending with a line break.
pub open spec fn base_text(existing: Seq<char>, fallback: Seq<char>) -> Seq<char> {
    let b = if trim(existing).len() == 0 {
        fallback
    } else {
        existing
    };
    if b.len() > 0 && b.last() == '\n' {
        b
    } else {
        b.push('\n')
    }
}

/// The index after a run that added `entries`, stamped with `stamp`.
pub open spec fn index_text(existing: Seq<char>, stamp: Seq<char>, entries: Seq<Seq<char>>) -> Seq<char> {
    base_text(existing, "# Index\n"@) + "\n## 更新 "@ + stamp + "\n"@ + entry_lines(entries)
}

/// The change log after a run.
pub open spec fn log_text(
    existing: Seq<char>,
    stamp: Seq<char>,
    ops_log: Seq<char>,
    applied: nat,
    noop: nat,
) -> Seq<char> {
    base_text(existing, "# Log\n"@) + "\n## ["@ + stamp
        + "Z] ai-write | Wiki Updated\n\nSource: 对话导入 · 触发: write_ai\nOps:\n"@ + ops_log + "Result: "@
        + decimal(applied) + " ops applied, "@ + decimal(noop) + " noop\n"@
}

/// The summary of a run.
pub open spec fn run_summary(applied: nat, noop: nat) -> Seq<char> {
    decimal(applied) + " ops applied, "@ + decimal(noop) + " noop"@
}

/// A file's text, or `fallback` when it is blank, ending with a line break.
fn base_chars(existing: &str, fallback: &str) -> (r: Vec<char>)
    ensures
        r@ == base_text(existing@, fallback@),
{
    let ex = chars_of(existing);
    let t = trimmed(&ex);
    let mut b = if t.len() == 0 {
        chars_of(fallback)
    } else {
        ex
    };
    let n = b.len();
    if !(n > 0 && b[n - 1] == '\n') {
        b.push('\n');
    }
    b
}

impl PlanRun {
    /// A run that has applied nothing yet.
    pub fn new() -> (r: PlanRun)
        ensures
            r.applied == 0,
            r.noop == 0,
            r.ops_log@.len() == 0,
            r.index_entries@.len() == 0,
    {
        PlanRun { applied: 0, noop: 0, ops_log: String::new(), index_entries: Vec::new() }
    }

    /// Takes one operation of the plan (whose target page exists or not)
    /// into the run and returns its file-system steps in order.
    pub fn step(&mut self, root: &str, trash: &str, op: &WikiOp, exists: bool) -> (r: Vec<PlannedStep>)
        requires
            old(self).applied < usize::MAX,
            old(self).noop < usize::MAX,
        ensures
            r@.map_values(|p: PlannedStep| p@) == planned_steps(root@, trash@, *op, exists),
            final(self).applied == old(self).applied + if op_applied(*op, exists) {
                1int
            } else {
                0int
            },
            final(self).noop == old(self).noop + if op is Noop {
                1int
            } else {
                0int
            },
            final(self).ops_log@ == old(self).ops_log@ + op_log_line(*op, exists),
            views_of(final(self).index_entries@) == views_of(old(self).index_entries@) + op_index_entries(*op),
    {
        let steps = planned_for(root, trash, op, exists);
        let line = log_line(op, exists);
        let mut log = chars_of(self.ops_log.as_str());
        extend_chars(&mut log, &line);
        self.ops_log = string_from(&log);
        self.add_index_entries(op);
        if op_counts(op, exists) {
            self.applied = self.applied + 1;
        }
        match op {
            WikiOp::Noop { .. } => {
                self.noop = self.noop + 1;
            },
            _ => {},
        }
        steps
    }

    /// Appends the index entries of `op`.
    fn add_index_entries(&mut self, op: &WikiOp)
        ensures
            final(self).applied == old(self).applied,
            final(self).noop == old(self).noop,
            final(self).ops_log == old(self).ops_log,
            views_of(final(self).index_entries@) == views_of(old(self).index_entries@) + op_index_entries(*op),
    {
        let ghost before = views_of(self.index_entries@);
        match op {
            WikiOp::CreatePage { path, title, .. } => {
                let mut e = chars_of("- [");
                extend_chars(&mut e, &chars_of(title.as_str()));
                extend_chars(&mut e, &chars_of("]("));
                extend_chars(&mut e, &chars_of(path.as_str()));
                extend_chars(&mut e, &chars_of(")"));
                let s = string_from(&e);
                self.index_entries.push(s);
                assert(views_of(self.index_entries@) =~= before + op_index_entries(*op));
            },
            WikiOp::UpdateIndex { entries } => {
                let mut i: usize = 0;
                while i < entries.len()
                    invariant
                        i <= entries@.len(),
                        views_of(self.index_entries@) == before + views_of(entries@.take(i as int)),
                        self.applied == old(self).applied,
                        self.noop == old(self).noop,
                        self.ops_log == old(self).ops_log,
                    decreases entries@.len() - i,
                {
                    let ghost prev = self.index_entries@;
                    let c = entries[i].clone();
                    self.index_entries.push(c);
                    assert(self.index_entries@ == prev.push(c));
                    assert(views_of(prev.push(c)) =~= views_of(prev).push(c@));
                    assert(views_of(entries@.take(i + 1)) =~= views_of(entries@.take(i as int)).push(
                        entries@[i as int]@,
                    ));
                    assert(views_of(self.index_entries@) =~= before + views_of(entries@.take(i + 1)));
                    i += 1;
                }
                assert(entries@.take(entries@.len() as int) =~= entries@);
                assert(views_of(entries@) == op_index_entries(*op));
            },
            _ => {
                assert(views_of(self.index_entries@) =~= before + op_index_entries(*op));
            },
        }
    }

    /// The new index text when the run added entries (from the index's
    /// current text and a time stamp), or `None` when it added none.
    pub fn index_update(&self, existing: &str, stamp: &str) -> (r: Option<String>)
        ensures
            self.index_entries@.len() == 0 ==> r is None,
            self.index_entries@.len() > 0 ==> r is Some && r.unwrap()@ == index_text(
                existing@,
                stamp@,
                views_of(self.index_entries@),
            ),
    {
        if self.index_entries.len() == 0 {
            return None;
        }
        let mut out = base_chars(existing, "# Index\n");
        extend_chars(&mut out, &chars_of("\n## 更新 "));
        extend_chars(&mut out, &chars_of(stamp));
        extend_chars(&mut out, &chars_of("\n"));
        let ghost head = out@;
        let mut i: usize = 0;
        while i < self.index_entries.len()
            invariant
                i <= self.index_entries@.len(),
                out@ == head + entry_lines(views_of(self.index_entries@.take(i as int))),
            decreases self.index_entries@.len() - i,
        {
            extend_chars(&mut out, &chars_of(self.index_entries[i].as_str()));
            extend_chars(&mut out, &chars_of("\n"));
            assert(views_of(self.index_entries@.take(i + 1)).drop_last() =~= views_of(
                self.index_entries@.take(i as int),
            ));
            assert(views_of(self.index_entries@.take(i + 1)).last() == self.index_entries@[i as int]@);
            i += 1;
        }
        assert(self.index_entries@.take(self.index_entries@.len() as int) =~= self.index_entries@);
        Some(string_from(&out))
    }

    /// The new change-log text, from the log's current text and a time
    /// stamp.
    pub fn log_update(&self, existing: &str, stamp: &str) -> (r: String)
        ensures
            r@ == log_text(existing@, stamp@, self.ops_log@, self.applied as nat, self.noop as nat),
    {
        let mut out = base_chars(existing, "# Log\n");
        extend_chars(&mut out, &chars_of("\n## ["));
        extend_chars(&mut out, &chars_of(stamp));
        extend_chars(&mut out, &chars_of("Z] ai-write | Wiki Updated\n\nSource: 对话导入 · 触发: write_ai\nOps:\n"));
        extend_chars(&mut out, &chars_of(self.ops_log.as_str()));
        extend_chars(&mut out, &chars_of("Result: "));
        extend_chars(&mut out, &decimal_chars(self.applied as u64));
        extend_chars(&mut out, &chars_of(" ops applied, "));
        extend_chars(&mut out, &decimal_chars(self.noop as u64));
        extend_chars(&mut out, &chars_of(" noop\n"));
        string_from(&out)
    }

    /// The result reported for the run.
    pub fn result(&self) -> (r: WikiWriteResult)
        ensures
            r.applied == self.applied,
            r.noop == self.noop,
            r.summary@ == run_summary(self.applied as nat, self.noop as nat),
            r.log_appended,
    {
        let mut out = decimal_chars(self.applied as u64);
        extend_chars(&mut out, &chars_of(" ops applied, "));
        extend_chars(&mut out, &decimal_chars(self.noop as u64));
        extend_chars(&mut out, &chars_of(" noop"));
        WikiWriteResult {
            applied: self.applied,
            noop: self.noop,
            summary: string_from(&out),
            log_appended: true,
        }
    }
}

/// Whether `op` counts as applied.
fn op_counts(op: &WikiOp, exists: bool) -> (r: bool)
    ensures
        r == op_applied(*op, exists),
{
    match op {
        WikiOp::DeletePage { .. } => exists,
        WikiOp::Noop { .. } => false,
        _ => true,
    }
}

/// The change-log line of `op`.
fn log_line(op: &WikiOp, exists: bool) -> (r: Vec<char>)
    ensures
        r@ == op_log_line(*op, exists),
{
    let mut out: Vec<char> = Vec::new();
    match op {
        WikiOp::CreatePage { path, .. } => {
            extend_chars(&mut out, &chars_of("- CreatePage: "));
            extend_chars(&mut out, &chars_of(path.as_str()));
            extend_chars(&mut out, &chars_of(" (新页面)\n"));
        },
        WikiOp::UpdatePage { path, summary, .. } => {
            extend_chars(&mut out, &chars_of("- UpdatePage: "));
            extend_chars(&mut out, &chars_of(path.as_str()));
            extend_chars(&mut out, &chars_of(" ("));
            extend_chars(&mut out, &chars_of(summary.as_str()));
            extend_chars(&mut out, &chars_of(")\n"));
        },
        WikiOp::DeletePage { path, reason } => {
            if exists {
                extend_chars(&mut out, &chars_of("- DeletePage: "));
                extend_chars(&mut out, &chars_of(path.as_str()));
                extend_chars(&mut out, &chars_of(" (移至 .trash，原因: "));
                extend_chars(&mut out, &chars_of(reason.as_str()));
                extend_chars(&mut out, &chars_of(")\n"));
            }
        },
        WikiOp::UpdateIndex { .. } => {},
        WikiOp::Noop { reason } => {
            extend_chars(&mut out, &chars_of("- Noop: "));
            extend_chars(&mut out, &chars_of(reason.as_str()));
            extend_chars(&mut out, &chars_of("\n"));
        },
    }
    out
}

/// A step with no undo entries.
fn bare_step(action: FsStep) -> (r: PlannedStep)
    ensures
        r@ == (action@, Seq::<UndoView>::empty()),
{
    let r = PlannedStep { action, undo: Vec::new() };
    assert(undo_views(r.undo@) =~= Seq::<UndoView>::empty());
    r
}

/// Pushes the step that creates the parent directory of `t`, if it has one.
fn push_parent_step(out: &mut Vec<PlannedStep>, t: &str)
    ensures
        final(out)@.map_values(|p: PlannedStep| p@) == old(out)@.map_values(|p: PlannedStep| p@) + parent_steps(
            t@,
        ),
{
    let ghost before = out@.map_values(|p: PlannedStep| p@);
    match parent_of(t) {
        Some(d) => {
            out.push(bare_step(FsStep::CreateDir(d)));
            assert(out@.map_values(|p: PlannedStep| p@) =~= before + parent_steps(t@));
        },
        None => {
            assert(out@.map_values(|p: PlannedStep| p@) =~= before + parent_steps(t@));
        },
    }
}

/// The steps of one operation.
fn planned_for(root: &str, trash: &str, op: &WikiOp, exists: bool) -> (r: Vec<PlannedStep>)
    ensures
        r@.map_values(|p: PlannedStep| p@) == planned_steps(root@, trash@, *op, exists),
{
    let mut out: Vec<PlannedStep> = Vec::new();
    match op {
        WikiOp::CreatePage { path, title, content } => {
            let t = join_path(root, path.as_str());
            push_parent_step(&mut out, t.as_str());
            let ghost mid = out@.map_values(|p: PlannedStep| p@);
            let mut page = chars_of("# ");
            extend_chars(&mut page, &chars_of(title.as_str()));
            extend_chars(&mut page, &chars_of("\n\n"));
            extend_chars(&mut page, &chars_of(content.as_str()));
            extend_chars(&mut page, &chars_of("\n"));
            let mut undo: Vec<UndoStep> = Vec::new();
            undo.push(UndoStep::DeleteCreated(t.clone()));
            out.push(PlannedStep { action: FsStep::Write(t.clone(), string_from(&page)), undo });
            assert(undo_views(out@.last().undo@) =~= seq![UndoView::DeleteCreated(t@)]);
            assert(out@.map_values(|p: PlannedStep| p@) =~= planned_steps(root@, trash@, *op, exists));
        },
        WikiOp::UpdatePage { path, content, .. } => {
            let t = join_path(root, path.as_str());
            if exists {
                let mut bak = chars_of(t.as_str());
                extend_chars(&mut bak, &chars_of(".bak"));
                let bak_s = string_from(&bak);
                let mut undo: Vec<UndoStep> = Vec::new();
                undo.push(UndoStep::RestoreBackup(t.clone()));
                undo.push(UndoStep::RemoveBackup(bak_s.clone()));
                out.push(PlannedStep { action: FsStep::Copy(t.clone(), bak_s), undo });
                assert(bak_s@ == backup_of(t@));
                assert(undo_views(out@.last().undo@) =~= seq![
                    UndoView::RestoreBackup(t@),
                    UndoView::RemoveBackup(backup_of(t@)),
                ]);
                assert(out@.map_values(|p: PlannedStep| p@) =~= seq![
                    (
                        FsStepView::Copy(t@, backup_of(t@)),
                        seq![UndoView::RestoreBackup(t@), UndoView::RemoveBackup(backup_of(t@))],
                    ),
                ]);
            } else {
                assert(out@.map_values(|p: PlannedStep| p@) =~= Seq::<(FsStepView, Seq<UndoView>)>::empty());
            }
            let ghost first = out@.map_values(|p: PlannedStep| p@);
            push_parent_step(&mut out, t.as_str());
            let ghost second = out@.map_values(|p: PlannedStep| p@);
            assert(second == first + parent_steps(t@));
            let w = bare_step(FsStep::Write(t.clone(), content.clone()));
            out.push(w);
            assert(out@.map_values(|p: PlannedStep| p@) =~= second.push(w@));
            assert(out@.map_values(|p: PlannedStep| p@) =~= planned_steps(root@, trash@, *op, exists));
        },
        WikiOp::DeletePage { path, .. } => {
            if exists {
                let t = join_path(root, path.as_str());
                let name = file_name_of(t.as_str());
                let dest = join_path(trash, name.as_str());
                out.push(bare_step(FsStep::CreateDir(owned(trash))));
                let mut undo: Vec<UndoStep> = Vec::new();
                undo.push(UndoStep::MoveBack(dest.clone(), t.clone()));
                out.push(PlannedStep { action: FsStep::Rename(t, dest), undo });
                assert(undo_views(out@.last().undo@) =~= seq![UndoView::MoveBack(
                    path_join(trash@, path_file_name(path_join(root@, path@))),
                    path_join(root@, path@),
                )]);
            }
            assert(out@.map_values(|p: PlannedStep| p@) =~= planned_steps(root@, trash@, *op, exists));
        },
        _ => {
            assert(out@.map_values(|p: PlannedStep| p@) =~= planned_steps(root@, trash@, *op, exists));
        },
    }
    out
}

/// The recorded undo entries in the order to undo them: newest first.
pub fn rollback_order(undo: Vec<UndoStep>) -> (r: Vec<UndoStep>)
    ensures
        r@.len() == undo@.len(),
        forall|i: int| 0 <= i < undo@.len() ==> #[trigger] r@[i] == undo@[undo@.len() - 1 - i],
{
    let mut rest = undo;
    let mut out: Vec<UndoStep> = Vec::new();
    while rest.len() > 0
        invariant
            rest@.len() + out@.len() == undo@.len(),
            rest@ == undo@.take(rest@.len() as int),
            forall|i: int| 0 <= i < out@.len() ==> #[trigger] out@[i] == undo@[undo@.len() - 1 - i],
        decreases rest@.len(),
    {
        let ghost k = rest@.len();
        let x = rest.pop().unwrap();
        assert(x == undo@[k - 1]);
        out.push(x);
        assert(rest@ =~= undo@.take(rest@.len() as int));
    }
    out
}

/// The instructions given to the model that drafts a write plan.
pub const WIKI_PLAN_SYSTEM_PROMPT: &'static str = "你是知识库管理员。根据现有页面结构与新信息，输出一个 Wiki 写入计划（JSON）。\n可用操作：{\"operations\": [{\"op\":\"create_page\",\"path\":\"concepts/xx.md\",\"title\":\"xx\",\"content\":\"...\"}, {\"op\":\"update_page\",\"path\":\"...\",\"content\":\"全文\",\"summary\":\"变更说明\"}, {\"op\":\"delete_page\",\"path\":\"...\",\"reason\":\"...\"}, {\"op\":\"update_index\",\"entries\":[\"- [xx](concepts/xx.md)\"]}, {\"op\":\"noop\",\"reason\":\"...\"}]}\npath 必须相对 wiki/ 根且以 .md 结尾，不含 ..。信息与现有内容重复时用 noop。只输出 JSON。";

/// The line listing one page.
pub open spec fn page_line(p: WikiPage) -> Seq<char> {
    "- "@ + p.path@ + " (标题: "@ + p.title@ + ")"@
}

/// The listing of the first 50 pages, one per line.
pub open spec fn page_listing(pages: Seq<WikiPage>) -> Seq<char> {
    join_with(
        (if pages.len() > 50 {
            pages.take(50)
        } else {
            pages
        }).map_values(|p: WikiPage| page_line(p)),
        seq!['\n'],
    )
}

/// The request for a write plan: the first 200 lines of the index, the page
/// listing and the new information.
pub open spec fn write_prompt(index: Seq<char>, pages: Seq<WikiPage>, info: Seq<char>) -> Seq<char> {
    "现有页面索引（index.md 前 200 行）：\n"@ + truncated_lines(index, 200) + "\n\n页面清单：\n"@
        + page_listing(pages) + "\n\n要写入的新知识：\n"@ + info
}

/// Builds the request for a write plan.
pub fn wiki_write_prompt(index_text: &str, pages: &Vec<WikiPage>, info: &str) -> (r: String)
    ensures
        r@ == write_prompt(index_text@, pages@, info@),
{
    let k = if pages.len() > 50 {
        50
    } else {
        pages.len()
    };
    let ghost shown = (if pages@.len() > 50 {
        pages@.take(50)
    } else {
        pages@
    }).map_values(|p: WikiPage| page_line(p));
    let mut lines: Vec<String> = Vec::new();
    let mut i: usize = 0;
    while i < k
        invariant
            k <= pages@.len(),
            k == if pages@.len() > 50 { 50 } else { pages@.len() },
            shown == (if pages@.len() > 50 { pages@.take(50) } else { pages@ }).map_values(
                |p: WikiPage| page_line(p),
            ),
            i <= k,
            lines@.len() == i,
            forall|j: int| 0 <= j < i ==> #[trigger] lines@[j]@ == shown[j],
        decreases k - i,
    {
        let mut l = chars_of("- ");
        extend_chars(&mut l, &chars_of(pages[i].path.as_str()));
        extend_chars(&mut l, &chars_of(" (标题: "));
        extend_chars(&mut l, &chars_of(pages[i].title.as_str()));
        extend_chars(&mut l, &chars_of(")"));
        lines.push(string_from(&l));
        i += 1;
    }
    assert(string_views(lines@) =~= shown);
    let listing = join_strings(&lines, "\n");
    proof {
        reveal_strlit("\n");
        assert("\n"@ =~= seq!['\n']);
    }
    assert(listing@ == page_listing(pages@));
    let mut out = chars_of("现有页面索引（index.md 前 200 行）：\n");
    extend_chars(&mut out, &chars_of(truncate_md(index_text, 200).as_str()));
    extend_chars(&mut out, &chars_of("\n\n页面清单：\n"));
    extend_chars(&mut out, &listing);
    extend_chars(&mut out, &chars_of("\n\n要写入的新知识：\n"));
    extend_chars(&mut out, &chars_of(info));
    string_from(&out)
}

/// The request after an answer that could not be read.
pub open spec fn retry_prompt(user: Seq<char>, last_err: Seq<char>) -> Seq<char> {
    user + "\n\n上次输出解析失败："@ + last_err + "\n请严格按 JSON 格式重新输出。"@
}

/// Builds the request after an unreadable answer; `last_err` is the first
/// 200 lines of that answer.
pub fn wiki_retry_prompt(user: &str, last_err: &str) -> (r: String)
    ensures
        r@ == retry_prompt(user@, last_err@),
{
    let mut out = chars_of(user);
    extend_chars(&mut out, &chars_of("\n\n上次输出解析失败："));
    extend_chars(&mut out, &chars_of(last_err));
    extend_chars(&mut out, &chars_of("\n请严格按 JSON 格式重新输出。"));
    string_from(&out)
}

/// The last index at or before `i` where `q` occurs in `s`, or -1.
pub open spec fn last_occurrence_upto(s: Seq<char>, q: Seq<char>, i: int) -> int
    decreases i + 1,
{
    if i < 0 {
        -1
    } else if occurs_at(s, q, i) {
        i
    } else {
        last_occurrence_upto(s, q, i - 1)
    }
}

/// Where the body of a fenced answer starts: after the first line break.
pub open spec fn fence_start(c: Seq<char>) -> int {
    let nl = find_from(c, '\n', 0);
    if nl < 0 {
        0
    } else {
        nl + 1
    }
}

/// Where the body of a fenced answer ends: at the last fence.
pub open spec fn fence_end(c: Seq<char>) -> int {
    last_occurrence_upto(c, "```"@, c.len() - 3)
}

/// The answer is fenced (starts with three back quotes).
pub open spec fn is_fenced(c: Seq<char>) -> bool {
    c.len() >= 3 && c[0] == '`' && c[1] == '`' && c[2] == '`'
}

/// The answer can be cut: an unfenced answer always, a fenced one when its
/// first line break comes no later than its last fence.
pub open spec fn json_cut_ok(text: Seq<char>) -> bool {
    let c = trim(text);
    is_fenced(c) ==> fence_start(c) <= fence_end(c)
}

/// The JSON object text inside a model's answer: the answer trimmed, a code
/// fence removed, then from the first `{` to the last `}`.
pub open spec fn json_body_spec(text: Seq<char>) -> Option<Seq<char>> {
    let c = trim(text);
    let body = if is_fenced(c) {
        c.subrange(fence_start(c), fence_end(c))
    } else {
        c
    };
    let start = find_from(body, '{', 0);
    let stop = rfind_before(body, '}', body.len() as int);
    if start < 0 || stop < start {
        None
    } else {
        Some(body.subrange(start, stop + 1))
    }
}

/// Cuts the JSON object out of a model's answer (`None` when it has none).
pub fn json_body(text: &str) -> (r: Option<String>)
    requires
        json_cut_ok(text@),
    ensures
        match r {
            Some(s) => json_body_spec(text@) == Some(s@),
            None => json_body_spec(text@) is None,
        },
{
    let c = trimmed(&chars_of(text));
    let n = c.len();
    let fenced = n >= 3 && c[0] == '`' && c[1] == '`' && c[2] == '`';
    let body = if fenced {
        proof {
            lemma_find_from_range(c@, '\n', 0);
        }
        let start = match find_char(&c, '\n', 0) {
            Some(i) => i + 1,
            None => 0,
        };
        let end = last_fence(&c);
        slice_chars(&c, start, end)
    } else {
        c
    };
    let m = body.len();
    let start = match find_char(&body, '{', 0) {
        Some(i) => i,
        None => {
            return None;
        },
    };
    match rfind_char(&body, '}', m) {
        Some(stop) => {
            if stop < start {
                None
            } else {
                Some(string_of(&body, start, stop + 1))
            }
        },
        None => None,
    }
}

/// The index of the last fence in a fenced answer.
fn last_fence(c: &Vec<char>) -> (r: usize)
    requires
        is_fenced(c@),
    ensures
        r as int == fence_end(c@),
        r + 3 <= c@.len(),
{
    let n = c.len();
    let mut i: usize = n - 3;
    loop
        invariant
            n == c@.len(),
            is_fenced(c@),
            i + 3 <= c@.len(),
            last_occurrence_upto(c@, "```"@, c@.len() - 3) == last_occurrence_upto(c@, "```"@, i as int),
        decreases i,
    {
        proof {
            reveal_strlit("```");
        }
        if c[i] == '`' && c[i + 1] == '`' && c[i + 2] == '`' {
            assert(c@.subrange(i as int, i + 3) =~= "```"@);
            return i;
        }
        assert(!occurs_at(c@, "```"@, i as int)) by {
            if occurs_at(c@, "```"@, i as int) {
                assert(c@.subrange(i as int, i + 3)[0] == c@[i as int]);
                assert(c@.subrange(i as int, i + 3)[1] == c@[i + 1]);
                assert(c@.subrange(i as int, i + 3)[2] == c@[i + 2]);
            }
        }
        if i == 0 {
            assert(c@.subrange(0, 3) =~= "```"@);
            assert(false);
        }
        i -= 1;
    }
}

/// Why no write plan came out.
#[derive(Debug, Clone, PartialEq, Eq)]
pub enum WikiPlanError {
    /// Neither answer held a readable plan; the first 200 lines of the last.
    Unreadable(String),
    /// The plan has more than 10 operations.
    TooManyOperations,
}

impl WikiPlanError {
    /// The message shown for the error.
    pub fn message(&self) -> (r: String)
        ensures
            r@ == match self {
                WikiPlanError::Unreadable(e) => "无法解析 Wiki 写入计划: "@ + e@,
                WikiPlanError::TooManyOperations => "操作数超过 10 个，已截断拒绝"@,
            },
    {
        match self {
            WikiPlanError::Unreadable(e) => {
                let mut out = chars_of("无法解析 Wiki 写入计划: ");
                extend_chars(&mut out, &chars_of(e.as_str()));
                string_from(&out)
            },
            WikiPlanError::TooManyOperations => owned("操作数超过 10 个，已截断拒绝"),
        }
    }
}

/// Refuses a plan with more than 10 operations.
pub fn check_plan_size(plan: &WikiWritePlan) -> (r: Result<(), WikiPlanError>)
    ensures
        r is Ok <==> plan.operations@.len() <= 10,
        r is Err ==> r == Err::<(), WikiPlanError>(WikiPlanError::TooManyOperations),
{
    if plan.operations.len() > 10 {
        Err(WikiPlanError::TooManyOperations)
    } else {
        Ok(())
    }
}

} // verus!
