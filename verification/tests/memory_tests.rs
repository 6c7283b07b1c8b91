use desktop_pet::memory::plan_notice;
use desktop_pet::memory::{
    accept_step, bigrams, conflict_index, detect_change, detect_explicit, looks_memorable,
    plan_memory, rank_memories, retrieve_order, suggest_kind, AcceptStep, Memory, MemoryPlan,
    PendingChange,
};
use desktop_pet::memory_view::{
    active_rows, active_rows_with, audit_rows, command_for, deleted_rows, deleted_rows_with, done_message,
    edit_save, kind_filter, memory_hits, pending_hits, pending_rows, pending_rows_with,
    EditSave, MemoryView, MgrCommand, ID_ACCEPT, ID_BACKUP, ID_DELETE, ID_EDIT_SAVE, ID_KIND,
    ID_PIN, ID_REFRESH, ID_VIEW_AUDIT, ID_VIEW_PENDING,
};

fn mem(id: i64, kind: &str, content: &str, pinned: bool) -> Memory {
    Memory {
        id,
        kind: kind.to_string(),
        content: content.to_string(),
        created_at: "2024-01-01T00:00:00+00:00".to_string(),
        updated_at: "2024-01-01T00:00:00+00:00".to_string(),
        source: "user_explicit".to_string(),
        status: "active".to_string(),
        pinned,
    }
}

fn pending(id: i64, action: &str, content: &str, target: Option<i64>) -> PendingChange {
    PendingChange {
        id,
        action: action.to_string(),
        kind: "fact".to_string(),
        content: content.to_string(),
        target_id: target,
        created_at: "2024-01-01T00:00:00+00:00".to_string(),
        source: "implicit".to_string(),
    }
}

#[test]
fn explicit_remember() {
    assert_eq!(detect_explicit("  记住：我喜欢绿茶  ").as_deref(), Some("我喜欢绿茶"));
    assert_eq!(detect_explicit("请记住: 生日是五月").as_deref(), Some("生日是五月"));
    assert_eq!(detect_explicit("帮我记住：周五开会").as_deref(), Some("周五开会"));
    assert_eq!(detect_explicit("记住 猫叫咪咪").as_deref(), Some("猫叫咪咪"));
    assert_eq!(detect_explicit("记住：   "), None);
    assert_eq!(detect_explicit("你记住了吗"), None);
}

#[test]
fn kinds_are_suggested() {
    assert_eq!(suggest_kind("我喜欢绿茶"), "preference");
    assert_eq!(suggest_kind("我正在做一个项目"), "project");
    assert_eq!(suggest_kind("我叫小明"), "relationship");
    assert_eq!(suggest_kind("今天下雨"), "fact");
}

#[test]
fn memorable_statements() {
    assert!(looks_memorable("我喜欢喝绿茶"));
    assert!(!looks_memorable("我喜欢喝什么？"));
    assert!(!looks_memorable("今天天气不错"));
    assert!(!looks_memorable(&format!("我喜欢{}", "长".repeat(60))));
}

#[test]
fn change_requests() {
    assert_eq!(detect_change("以后改成绿茶。").as_deref(), Some("绿茶"));
    assert_eq!(detect_change("把红茶换为 乌龙茶！").as_deref(), Some("乌龙茶"));
    assert_eq!(detect_change("改成。"), None);
    assert_eq!(detect_change("没有修改"), None);
}

#[test]
fn conflicts_share_two_units() {
    assert_eq!(bigrams("喜欢绿茶 and coffee"), vec!["喜欢", "欢绿", "绿茶", "and", "coffee"]);
    let ms = vec![mem(1, "fact", "我喜欢红茶", false), mem(2, "preference", "我喜欢绿茶", false)];
    assert_eq!(conflict_index(&ms, "我喜欢绿茶"), Some(0));
    assert_eq!(conflict_index(&ms, "今天下雨"), None);
}

#[test]
fn memory_plans() {
    let active = vec![mem(5, "preference", "我喜欢红茶", false)];
    match plan_memory("记住：我喜欢红茶加奶", &active) {
        MemoryPlan::Propose { action, kind, content, target_id, source } => {
            assert_eq!((action, kind, source), ("update", "preference", "user_explicit"));
            assert_eq!(content, "我喜欢红茶加奶");
            assert_eq!(target_id, Some(5));
        }
        other => panic!("unexpected {:?}", other),
    }
    match plan_memory("记住：周五开会", &active) {
        MemoryPlan::Create { kind, content } => {
            assert_eq!(kind, "fact");
            assert_eq!(content, "周五开会");
        }
        other => panic!("unexpected {:?}", other),
    }
    match plan_memory("以后改成绿茶", &active) {
        MemoryPlan::Propose { action, content, target_id, .. } => {
            assert_eq!(action, "update");
            assert_eq!(content, "绿茶");
            assert_eq!(target_id, Some(5));
        }
        other => panic!("unexpected {:?}", other),
    }
    assert!(matches!(plan_memory("以后改成绿茶", &[]), MemoryPlan::Nothing));
    match plan_memory("我叫小明", &active) {
        MemoryPlan::Propose { action, kind, content, target_id, source } => {
            assert_eq!((action, kind, source), ("create", "relationship", "implicit"));
            assert_eq!(content, "我叫小明");
            assert_eq!(target_id, None);
        }
        other => panic!("unexpected {:?}", other),
    }
    assert!(matches!(plan_memory("你好", &active), MemoryPlan::Nothing));
}

#[test]
fn retrieval_prefers_pinned_then_keywords() {
    let ms = vec![
        mem(1, "fact", "likes tea", false),
        mem(2, "fact", "works on rust project", false),
        mem(3, "fact", "pinned note", true),
        mem(4, "fact", "Rust and tea", false),
    ];
    assert_eq!(retrieve_order(&ms, "RUST tea", 12, 1200), vec![2, 3, 0, 1]);
    assert_eq!(retrieve_order(&ms, "rust", 2, 1200), vec![2, 1]);
    assert_eq!(retrieve_order(&ms, "", 12, 20), vec![2, 0]);
}

#[test]
fn accepting_pending_changes() {
    assert!(matches!(
        accept_step(&pending(1, "create", "x", None)),
        AcceptStep::Create { ref kind, ref content } if kind == "fact" && content == "x"
    ));
    assert!(matches!(
        accept_step(&pending(1, "update", "y", Some(9))),
        AcceptStep::Update { id: 9, ref content } if content == "y"
    ));
    assert!(matches!(accept_step(&pending(1, "delete", "", Some(3))), AcceptStep::Delete { id: 3 }));
    assert!(matches!(accept_step(&pending(1, "update", "y", None)), AcceptStep::Nothing));
    assert!(matches!(accept_step(&pending(1, "merge", "y", Some(1))), AcceptStep::Nothing));
}

#[test]
fn manager_commands() {
    assert_eq!(command_for(ID_VIEW_PENDING), MgrCommand::SetView(MemoryView::Pending));
    assert_eq!(command_for(ID_VIEW_AUDIT), MgrCommand::SetView(MemoryView::Audit));
    assert_eq!(command_for(ID_REFRESH), MgrCommand::Refresh);
    assert_eq!(command_for(ID_KIND), MgrCommand::Refresh);
    assert_eq!(command_for(ID_DELETE), MgrCommand::Delete);
    assert_eq!(command_for(ID_PIN), MgrCommand::Pin);
    assert_eq!(command_for(ID_ACCEPT), MgrCommand::Accept);
    assert_eq!(command_for(ID_EDIT_SAVE), MgrCommand::SaveEdit);
    assert_eq!(command_for(ID_BACKUP), MgrCommand::Backup);
    assert_eq!(command_for(1), MgrCommand::Nothing);
    assert_eq!(done_message(MgrCommand::Pin, true, false), Some("已 Pin"));
    assert_eq!(done_message(MgrCommand::Pin, false, false), None);
    assert_eq!(done_message(MgrCommand::Delete, true, false), None);
    assert_eq!(done_message(MgrCommand::Delete, true, true), Some("已删除（可在「已删除」恢复）"));
    assert_eq!(done_message(MgrCommand::Reject, true, false), Some("已拒绝"));
    assert_eq!(edit_save(Some(4), "new text"), EditSave::Update(4));
    assert_eq!(edit_save(Some(4), "  "), EditSave::NeedSelection);
    assert_eq!(edit_save(None, "new text"), EditSave::NeedSelection);
    assert_eq!(kind_filter(0), "all");
    assert_eq!(kind_filter(2), "preference");
    assert_eq!(kind_filter(5), "custom");
    assert_eq!(kind_filter(9), "all");
    assert_eq!(kind_filter(-1), "all");
}

#[test]
fn manager_rows() {
    let ms = vec![
        mem(1, "preference", "Likes Green Tea", true),
        mem(2, "fact", "born in May", false),
        mem(-3, "preference", "hates coffee", false),
    ];
    let rows = active_rows(&ms, "all", "");
    assert_eq!(
        rows,
        vec![
            (1, "#1 [preference] [pin] Likes Green Tea".to_string()),
            (2, "#2 [fact] born in May".to_string()),
            (-3, "#-3 [preference] hates coffee".to_string()),
        ]
    );
    assert_eq!(active_rows(&ms, "preference", "TEA"), vec![(1, "#1 [preference] [pin] Likes Green Tea".to_string())]);
    assert_eq!(active_rows(&ms, "project", ""), vec![]);
    assert_eq!(deleted_rows(&ms, "may"), vec![(2, "#2 [fact] born in May".to_string())]);
    let ps = vec![pending(7, "update", "Green tea", Some(1)), pending(8, "create", "cats", None)];
    assert_eq!(
        pending_rows(&ps, ""),
        vec![
            (7, "p#7 [update] ->#1 Green tea".to_string()),
            (8, "p#8 [create] cats".to_string()),
        ]
    );
    assert_eq!(pending_rows(&ps, "CAT"), vec![(8, "p#8 [create] cats".to_string())]);
}

#[test]
fn plan_notices() {
    let active = vec![mem(5, "preference", "我喜欢红茶", false)];
    let create = plan_memory("记住：周五开会", &active);
    assert_eq!(plan_notice(&create, true), Some("已加入记忆。"));
    assert_eq!(plan_notice(&create, false), None);
    let update = plan_memory("记住：我喜欢红茶加奶", &active);
    assert_eq!(plan_notice(&update, false), Some("已记录为待确认修改。"));
    let implicit = plan_memory("我叫小明", &active);
    assert_eq!(plan_notice(&implicit, false), None);
    assert_eq!(plan_notice(&plan_memory("你好", &active), true), None);
}

#[test]
fn ranking_on_given_lowered_text() {
    let ms = vec![
        mem(1, "fact", "x", false),
        mem(2, "fact", "y", true),
        mem(3, "fact", "z", false),
    ];
    let lowered = vec!["tea time".to_string(), "nothing".to_string(), "tea and rust".to_string()];
    assert_eq!(rank_memories(&ms, &lowered, "tea rust", 12, 100), vec![1, 2, 0]);
    assert_eq!(rank_memories(&ms, &lowered, "", 12, 100), vec![1, 0, 2]);
    assert_eq!(rank_memories(&ms, &lowered, "tea", 0, 100), Vec::<usize>::new());
}

#[test]
fn rows_on_given_hits() {
    let ms = vec![mem(1, "fact", "a", false), mem(2, "preference", "b", true)];
    assert_eq!(
        active_rows_with(&ms, &[false, true], "all"),
        vec![(2, "#2 [preference] [pin] b".to_string())]
    );
    assert_eq!(active_rows_with(&ms, &[true, true], "fact"), vec![(1, "#1 [fact] a".to_string())]);
    assert_eq!(deleted_rows_with(&ms, &[true, false]), vec![(1, "#1 [fact] a".to_string())]);
    let ps = vec![pending(4, "delete", "gone", Some(2))];
    assert_eq!(pending_rows_with(&ps, &[true]), vec![(4, "p#4 [delete] ->#2 gone".to_string())]);
    assert_eq!(pending_rows_with(&ps, &[false]), vec![]);
    assert_eq!(memory_hits(&ms, "A"), vec![true, false]);
    assert_eq!(memory_hits(&ms, ""), vec![true, true]);
    assert_eq!(pending_hits(&ps, "GONE"), vec![true]);
}

#[test]
fn audit_rows_list_every_entry() {
    let entries = vec![
        ("2024-01-02 10:00:00".to_string(), "update".to_string(), Some(5i64), Some("old \"x\"".to_string()), Some("new".to_string())),
        ("2024-01-02 09:00:00".to_string(), "reject".to_string(), None, None, None),
        ("2024-01-01 08:00:00".to_string(), "delete".to_string(), Some(-3i64), Some("gone".to_string()), None),
    ];
    let rows = audit_rows(&entries);
    assert_eq!(rows.len(), 3);
    assert_eq!(rows[0], (0, "2024-01-02 10:00:00 update #Some(5) Some(\"old \\\"x\\\"\")->Some(\"new\")".to_string()));
    assert_eq!(rows[1], (0, "2024-01-02 09:00:00 reject #None None->None".to_string()));
    assert_eq!(rows[2], (0, "2024-01-01 08:00:00 delete #Some(-3) Some(\"gone\")->None".to_string()));
    assert!(audit_rows(&[]).is_empty());
}
