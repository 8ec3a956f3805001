//! The dashboard's agent board: each agent's latest session is placed in a
//! column by the state of that session.
use vstd::prelude::*;

use crate::models::{KanbanCard, KanbanData};

verus! {

/// The lifecycle of a chat session.
#[derive(Debug, Clone, Copy, PartialEq, Eq, Structural)]
pub enum SessionLifecycle {
    Created,
    Init,
    Ready,
    Running,
    Verifying,
    Paused,
    Done,
    InitFailed,
}

/// The columns of the board.
#[derive(Debug, Clone, Copy, PartialEq, Eq, Structural)]
pub enum KanbanColumn {
    Idle,
    Running,
    Done,
    Failed,
}

/// The column for a session in state `l` holding `message_count` messages.
/// A created or ready session that already has messages was finished
/// before the state was lost (a restart), so it counts as done.
pub open spec fn column_of(l: SessionLifecycle, message_count: i64) -> KanbanColumn {
    match l {
        SessionLifecycle::Init | SessionLifecycle::Running | SessionLifecycle::Verifying
        | SessionLifecycle::Paused => KanbanColumn::Running,
        SessionLifecycle::Done => KanbanColumn::Done,
        SessionLifecycle::InitFailed => KanbanColumn::Failed,
        SessionLifecycle::Created | SessionLifecycle::Ready => if message_count > 0 {
            KanbanColumn::Done
        } else {
            KanbanColumn::Idle
        },
    }
}

/// The column for a session.
pub fn kanban_column(l: SessionLifecycle, message_count: i64) -> (r: KanbanColumn)
    ensures
        r == column_of(l, message_count),
{
    match l {
        SessionLifecycle::Init | SessionLifecycle::Running | SessionLifecycle::Verifying
        | SessionLifecycle::Paused => KanbanColumn::Running,
        SessionLifecycle::Done => KanbanColumn::Done,
        SessionLifecycle::InitFailed => KanbanColumn::Failed,
        SessionLifecycle::Created | SessionLifecycle::Ready => if message_count > 0 {
            KanbanColumn::Done
        } else {
            KanbanColumn::Idle
        },
    }
}

/// The name of a lifecycle state.
pub open spec fn lifecycle_text(l: SessionLifecycle) -> Seq<char> {
    match l {
        SessionLifecycle::Created => "Created"@,
        SessionLifecycle::Init => "Init"@,
        SessionLifecycle::Ready => "Ready"@,
        SessionLifecycle::Running => "Running"@,
        SessionLifecycle::Verifying => "Verifying"@,
        SessionLifecycle::Paused => "Paused"@,
        SessionLifecycle::Done => "Done"@,
        SessionLifecycle::InitFailed => "InitFailed"@,
    }
}

/// The name of a lifecycle state, as the card shows it.
pub fn lifecycle_name(l: SessionLifecycle) -> (r: &'static str)
    ensures
        r@ == lifecycle_text(l),
{
    match l {
        SessionLifecycle::Created => "Created",
        SessionLifecycle::Init => "Init",
        SessionLifecycle::Ready => "Ready",
        SessionLifecycle::Running => "Running",
        SessionLifecycle::Verifying => "Verifying",
        SessionLifecycle::Paused => "Paused",
        SessionLifecycle::Done => "Done",
        SessionLifecycle::InitFailed => "InitFailed",
    }
}

/// An agent's most recent session.
#[derive(Debug, Clone)]
pub struct LatestSession {
    pub id: String,
    pub title: String,
    pub updated_at: i64,
    pub message_count: i64,
}

/// The card of an agent and its column.  `state` is the state the session
/// manager reports for the latest session; an agent without a session is
/// in the created state with no messages.
pub fn kanban_entry(
    agent_id: String,
    agent_name: String,
    agent_avatar: Option<String>,
    model_name: Option<String>,
    session: Option<LatestSession>,
    state: SessionLifecycle,
) -> (r: (KanbanColumn, KanbanCard))
    ensures
        ({
            let l = if session is Some {
                state
            } else {
                SessionLifecycle::Created
            };
            let count = match session {
                Some(s) => s.message_count,
                None => 0,
            };
            &&& r.0 == column_of(l, count)
            &&& r.1.agent_id == agent_id
            &&& r.1.agent_name == agent_name
            &&& r.1.agent_avatar == agent_avatar
            &&& r.1.model_name == model_name
            &&& r.1.lifecycle@ == lifecycle_text(l)
            &&& r.1.message_count == count
            &&& match session {
                Some(s) => r.1.session_id == Some(s.id) && r.1.session_title == Some(s.title)
                    && r.1.session_updated_at == Some(s.updated_at),
                None => r.1.session_id is None && r.1.session_title is None && r.1.session_updated_at is None,
            }
        }),
{
    let (l, session_id, session_title, session_updated_at, message_count) = match session {
        Some(s) => (state, Some(s.id), Some(s.title), Some(s.updated_at), s.message_count),
        None => (SessionLifecycle::Created, None, None, None, 0),
    };
    let column = kanban_column(l, message_count);
    let lifecycle = crate::text::owned(lifecycle_name(l));
    (
        column,
        KanbanCard {
            agent_id,
            agent_name,
            agent_avatar,
            model_name,
            session_id,
            session_title,
            session_updated_at,
            lifecycle,
            message_count,
        },
    )
}

/// The cards of one column, in order.
pub open spec fn column_cards(entries: Seq<(KanbanColumn, KanbanCard)>, c: KanbanColumn) -> Seq<KanbanCard>
    decreases entries.len(),
{
    if entries.len() == 0 {
        Seq::empty()
    } else {
        let rest = column_cards(entries.drop_last(), c);
        if entries.last().0 == c {
            rest.push(entries.last().1)
        } else {
            rest
        }
    }
}

/// Lays out the board: each card goes to its column, in the given order.
pub fn kanban_board(entries: Vec<(KanbanColumn, KanbanCard)>) -> (r: KanbanData)
    ensures
        r.idle@ == column_cards(entries@, KanbanColumn::Idle),
        r.running@ == column_cards(entries@, KanbanColumn::Running),
        r.done@ == column_cards(entries@, KanbanColumn::Done),
        r.failed@ == column_cards(entries@, KanbanColumn::Failed),
{
    let ghost all = entries@;
    let n = entries.len();
    let mut rest = entries;
    let mut idle: Vec<KanbanCard> = Vec::new();
    let mut running: Vec<KanbanCard> = Vec::new();
    let mut done: Vec<KanbanCard> = Vec::new();
    let mut failed: Vec<KanbanCard> = Vec::new();
    let mut k: usize = 0;
    while rest.len() > 0
        invariant
            n == all.len(),
            k + rest@.len() == all.len(),
            rest@ == all.skip(k as int),
            idle@ == column_cards(all.take(k as int), KanbanColumn::Idle),
            running@ == column_cards(all.take(k as int), KanbanColumn::Running),
            done@ == column_cards(all.take(k as int), KanbanColumn::Done),
            failed@ == column_cards(all.take(k as int), KanbanColumn::Failed),
        decreases rest@.len(),
    {
        let ghost before = rest@;
        let (c, card) = rest.remove(0);
        assert((c, card) == all[k as int]);
        assert(all.take(k + 1).drop_last() =~= all.take(k as int));
        assert(all.take(k + 1).last() == (c, card));
        match c {
            KanbanColumn::Idle => idle.push(card),
            KanbanColumn::Running => running.push(card),
            KanbanColumn::Done => done.push(card),
            KanbanColumn::Failed => failed.push(card),
        }
        k += 1;
        assert(rest@ =~= all.skip(k as int));
    }
    assert(all.take(all.len() as int) =~= all);
    KanbanData { idle, running, done, failed }
}

/// Every card lands in exactly one column: the columns together hold as
/// many cards as were laid out.
pub proof fn law_board_keeps_every_card(entries: Seq<(KanbanColumn, KanbanCard)>)
    ensures
        column_cards(entries, KanbanColumn::Idle).len() + column_cards(entries, KanbanColumn::Running).len()
            + column_cards(entries, KanbanColumn::Done).len() + column_cards(entries, KanbanColumn::Failed).len()
            == entries.len(),
    decreases entries.len(),
{
    if entries.len() > 0 {
        law_board_keeps_every_card(entries.drop_last());
    }
}


/// Law: a session still in progress (initialising, running, verifying or
/// paused) sits in the Running column whatever its message count, and a
/// session lands in Done exactly when it is done, or was created or ready
/// and already has messages.
pub proof fn law_in_progress_sessions_run(l: SessionLifecycle, message_count: i64)
    ensures
        (l == SessionLifecycle::Init || l == SessionLifecycle::Running || l == SessionLifecycle::Verifying
            || l == SessionLifecycle::Paused) ==> column_of(l, message_count) == KanbanColumn::Running,
        column_of(l, message_count) == KanbanColumn::Done <==> (l == SessionLifecycle::Done || ((l
            == SessionLifecycle::Created || l == SessionLifecycle::Ready) && message_count > 0)),
        column_of(l, message_count) == KanbanColumn::Failed <==> l == SessionLifecycle::InitFailed,
{
}

} // verus!
