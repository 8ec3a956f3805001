use prism_agent::models::{WikiOp, WikiPage, WikiWritePlan};
use prism_agent::wiki::WikiPathError;
use prism_agent::wiki_plan::{
    check_plan_size, json_body, precheck_plan, rollback_order, trash_dir, wiki_retry_prompt,
    wiki_write_prompt, FsStep, PlanRun, UndoStep, WikiPlanError, WIKI_PLAN_SYSTEM_PROMPT,
};

fn create(path: &str, title: &str, content: &str) -> WikiOp {
    WikiOp::CreatePage { path: path.into(), title: title.into(), content: content.into() }
}

#[test]
fn precheck_accepts_relative_pages() {
    let plan = WikiWritePlan {
        operations: vec![
            create("a.md", "A", "x"),
            WikiOp::Noop { reason: "nothing".into() },
            WikiOp::UpdateIndex { entries: vec!["- [A](a.md)".into()] },
        ],
    };
    assert_eq!(precheck_plan("/w/wiki", &plan), Ok(()));
}

#[test]
fn precheck_refuses_whole_plan_on_one_bad_path() {
    let plan = WikiWritePlan {
        operations: vec![
            create("a.md", "A", "x"),
            WikiOp::DeletePage { path: "../secret.md".into(), reason: "r".into() },
            create("/etc/passwd", "B", "y"),
        ],
    };
    assert_eq!(precheck_plan("/w/wiki", &plan), Err(WikiPathError::ParentSegment));
    let plan2 = WikiWritePlan { operations: vec![create("/abs.md", "B", "y")] };
    assert_eq!(precheck_plan("/w/wiki", &plan2), Err(WikiPathError::Rooted));
}

#[test]
fn trash_sits_beside_wiki_root() {
    assert_eq!(trash_dir("/w/wiki"), "/w/.trash");
}

#[test]
fn create_page_steps_and_log() {
    let mut run = PlanRun::new();
    let steps = run.step("/w/wiki", "/w/.trash", &create("notes/a.md", "标题", "正文"), false);
    assert_eq!(steps.len(), 2);
    assert_eq!(steps[0].action, FsStep::CreateDir("/w/wiki/notes".into()));
    assert!(steps[0].undo.is_empty());
    assert_eq!(
        steps[1].action,
        FsStep::Write("/w/wiki/notes/a.md".into(), "# 标题\n\n正文\n".into())
    );
    assert_eq!(steps[1].undo, vec![UndoStep::DeleteCreated("/w/wiki/notes/a.md".into())]);
    assert_eq!(run.applied, 1);
    assert_eq!(run.noop, 0);
    assert_eq!(run.ops_log, "- CreatePage: notes/a.md (新页面)\n");
    assert_eq!(run.index_entries, vec!["- [标题](notes/a.md)".to_string()]);
}

#[test]
fn update_existing_page_backs_it_up_first() {
    let mut run = PlanRun::new();
    let op = WikiOp::UpdatePage { path: "a.md".into(), content: "new".into(), summary: "改写".into() };
    let steps = run.step("/w/wiki", "/w/.trash", &op, true);
    assert_eq!(steps.len(), 3);
    assert_eq!(steps[0].action, FsStep::Copy("/w/wiki/a.md".into(), "/w/wiki/a.md.bak".into()));
    assert_eq!(
        steps[0].undo,
        vec![
            UndoStep::RestoreBackup("/w/wiki/a.md".into()),
            UndoStep::RemoveBackup("/w/wiki/a.md.bak".into())
        ]
    );
    assert_eq!(steps[1].action, FsStep::CreateDir("/w/wiki".into()));
    assert_eq!(steps[2].action, FsStep::Write("/w/wiki/a.md".into(), "new".into()));
    assert_eq!(run.ops_log, "- UpdatePage: a.md (改写)\n");
    assert_eq!(run.applied, 1);
}

#[test]
fn update_missing_page_just_writes() {
    let mut run = PlanRun::new();
    let op = WikiOp::UpdatePage { path: "a.md".into(), content: "new".into(), summary: "s".into() };
    let steps = run.step("/w/wiki", "/w/.trash", &op, false);
    assert_eq!(steps.len(), 2);
    assert_eq!(steps[1].action, FsStep::Write("/w/wiki/a.md".into(), "new".into()));
}

#[test]
fn delete_moves_page_to_trash() {
    let mut run = PlanRun::new();
    let op = WikiOp::DeletePage { path: "sub/a.md".into(), reason: "过时".into() };
    let steps = run.step("/w/wiki", "/w/.trash", &op, true);
    assert_eq!(steps.len(), 2);
    assert_eq!(steps[0].action, FsStep::CreateDir("/w/.trash".into()));
    assert_eq!(steps[1].action, FsStep::Rename("/w/wiki/sub/a.md".into(), "/w/.trash/a.md".into()));
    assert_eq!(
        steps[1].undo,
        vec![UndoStep::MoveBack("/w/.trash/a.md".into(), "/w/wiki/sub/a.md".into())]
    );
    assert_eq!(run.ops_log, "- DeletePage: sub/a.md (移至 .trash，原因: 过时)\n");
    assert_eq!(run.applied, 1);
}

#[test]
fn delete_of_missing_page_does_nothing() {
    let mut run = PlanRun::new();
    let op = WikiOp::DeletePage { path: "a.md".into(), reason: "r".into() };
    let steps = run.step("/w/wiki", "/w/.trash", &op, false);
    assert!(steps.is_empty());
    assert_eq!(run.applied, 0);
    assert_eq!(run.ops_log, "");
}

#[test]
fn noop_and_index_ops_are_counted() {
    let mut run = PlanRun::new();
    assert!(run.step("/w", "/.trash", &WikiOp::Noop { reason: "已是最新".into() }, false).is_empty());
    let idx = WikiOp::UpdateIndex { entries: vec!["- [X](x.md)".into(), "- [Y](y.md)".into()] };
    assert!(run.step("/w", "/.trash", &idx, false).is_empty());
    assert_eq!(run.noop, 1);
    assert_eq!(run.applied, 1);
    assert_eq!(run.ops_log, "- Noop: 已是最新\n");
    assert_eq!(run.index_entries.len(), 2);
    let r = run.result();
    assert_eq!(r.summary, "1 ops applied, 1 noop");
    assert!(r.log_appended);
}

#[test]
fn index_and_log_texts() {
    let mut run = PlanRun::new();
    assert_eq!(run.index_update("", "2024-01-01 10:00"), None);
    run.step("/w/wiki", "/w/.trash", &create("a.md", "A", "x"), false);
    assert_eq!(
        run.index_update("", "2024-01-01 10:00").unwrap(),
        "# Index\n\n## 更新 2024-01-01 10:00\n- [A](a.md)\n"
    );
    assert_eq!(
        run.index_update("# 目录\n- old", "T").unwrap(),
        "# 目录\n- old\n\n## 更新 T\n- [A](a.md)\n"
    );
    assert_eq!(
        run.log_update("# Log", "2024-01-01T10:00:00").as_str(),
        "# Log\n\n## [2024-01-01T10:00:00Z] ai-write | Wiki Updated\n\nSource: 对话导入 · 触发: write_ai\nOps:\n- CreatePage: a.md (新页面)\nResult: 1 ops applied, 0 noop\n"
    );
    assert!(run.log_update("  \n", "S").starts_with("# Log\n\n## [SZ]"));
}

#[test]
fn rollback_runs_newest_first() {
    let undo = vec![
        UndoStep::DeleteCreated("a".into()),
        UndoStep::RemoveBackup("b".into()),
        UndoStep::RestoreFile("c".into(), vec![1, 2]),
    ];
    let r = rollback_order(undo);
    assert_eq!(
        r,
        vec![
            UndoStep::RestoreFile("c".into(), vec![1, 2]),
            UndoStep::RemoveBackup("b".into()),
            UndoStep::DeleteCreated("a".into()),
        ]
    );
}

#[test]
fn write_prompt_lists_pages_and_info() {
    let pages = vec![
        WikiPage { path: "a.md".into(), title: "甲".into(), size: 1 },
        WikiPage { path: "b/c.md".into(), title: "C".into(), size: 2 },
    ];
    let p = wiki_write_prompt("# Index\n- [甲](a.md)", &pages, "新知识");
    assert_eq!(
        p,
        "现有页面索引（index.md 前 200 行）：\n# Index\n- [甲](a.md)\n\n页面清单：\n- a.md (标题: 甲)\n- b/c.md (标题: C)\n\n要写入的新知识：\n新知识"
    );
    assert!(WIKI_PLAN_SYSTEM_PROMPT.contains("update_index"));
}

#[test]
fn write_prompt_keeps_first_fifty_pages() {
    let pages: Vec<WikiPage> = (0..60)
        .map(|i| WikiPage { path: format!("p{}.md", i), title: format!("T{}", i), size: 0 })
        .collect();
    let p = wiki_write_prompt("", &pages, "x");
    assert!(p.contains("- p49.md (标题: T49)"));
    assert!(!p.contains("p50.md"));
}

#[test]
fn retry_prompt_appends_error() {
    assert_eq!(
        wiki_retry_prompt("U", "bad"),
        "U\n\n上次输出解析失败：bad\n请严格按 JSON 格式重新输出。"
    );
}

#[test]
fn json_body_cuts_object() {
    assert_eq!(json_body("  here {\"a\": {\"b\": 1}} done ").as_deref(), Some("{\"a\": {\"b\": 1}}"));
    assert_eq!(json_body("```json\n{\"operations\": []}\n```").as_deref(), Some("{\"operations\": []}"));
    assert_eq!(json_body("no json"), None);
    assert_eq!(json_body("} then {"), None);
}

#[test]
fn plan_size_limit() {
    let ten = WikiWritePlan { operations: (0..10).map(|_| WikiOp::Noop { reason: "r".into() }).collect() };
    assert_eq!(check_plan_size(&ten), Ok(()));
    let eleven = WikiWritePlan { operations: (0..11).map(|_| WikiOp::Noop { reason: "r".into() }).collect() };
    assert_eq!(check_plan_size(&eleven), Err(WikiPlanError::TooManyOperations));
    assert_eq!(WikiPlanError::TooManyOperations.message(), "操作数超过 10 个，已截断拒绝");
    assert_eq!(WikiPlanError::Unreadable("x".into()).message(), "无法解析 Wiki 写入计划: x");
}
