use prism_agent::kanban::{
    kanban_board, kanban_column, kanban_entry, lifecycle_name, KanbanColumn, LatestSession,
    SessionLifecycle,
};

#[test]
fn lifecycle_columns() {
    assert_eq!(kanban_column(SessionLifecycle::Running, 0), KanbanColumn::Running);
    assert_eq!(kanban_column(SessionLifecycle::Paused, 3), KanbanColumn::Running);
    assert_eq!(kanban_column(SessionLifecycle::Done, 0), KanbanColumn::Done);
    assert_eq!(kanban_column(SessionLifecycle::InitFailed, 0), KanbanColumn::Failed);
    assert_eq!(kanban_column(SessionLifecycle::Created, 0), KanbanColumn::Idle);
    assert_eq!(kanban_column(SessionLifecycle::Ready, 2), KanbanColumn::Done);
    assert_eq!(lifecycle_name(SessionLifecycle::InitFailed), "InitFailed");
}

#[test]
fn agent_without_session_is_idle() {
    let (c, card) = kanban_entry("a1".into(), "写作".into(), None, Some("gpt".into()), None, SessionLifecycle::Running);
    assert_eq!(c, KanbanColumn::Idle);
    assert_eq!(card.lifecycle, "Created");
    assert_eq!(card.message_count, 0);
    assert!(card.session_id.is_none());
}

#[test]
fn board_groups_in_order() {
    let s = LatestSession { id: "s1".into(), title: "t".into(), updated_at: 5, message_count: 4 };
    let e1 = kanban_entry("a".into(), "A".into(), None, None, Some(s), SessionLifecycle::Ready);
    let e2 = kanban_entry("b".into(), "B".into(), None, None, None, SessionLifecycle::Ready);
    let s3 = LatestSession { id: "s3".into(), title: "t3".into(), updated_at: 6, message_count: 1 };
    let e3 = kanban_entry("c".into(), "C".into(), None, None, Some(s3), SessionLifecycle::Done);
    assert_eq!(e1.1.session_id.as_deref(), Some("s1"));
    let board = kanban_board(vec![e1, e2, e3]);
    assert_eq!(board.done.len(), 2);
    assert_eq!(board.done[0].agent_id, "a");
    assert_eq!(board.done[1].agent_id, "c");
    assert_eq!(board.idle.len(), 1);
    assert!(board.running.is_empty() && board.failed.is_empty());
}
