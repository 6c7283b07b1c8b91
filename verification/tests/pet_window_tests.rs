use desktop_pet::behavior::PetEvent;
use desktop_pet::pointer::{
    key_event, Pointer, TrayAction, TrayClick, CMD_CHAR_BASE, CMD_NOD, CMD_QUIT, CMD_RESET,
    CMD_SHAKE, CMD_TRAY_AUTOSTART, CMD_TRAY_EXIT, CMD_TRAY_RESET, CMD_TRAY_TEST_BUBBLE,
    CMD_TRAY_TOGGLE_VISIBLE, TRAY_LEFT_DOUBLE, TRAY_LEFT_UP, TRAY_RIGHT_UP,
};
use desktop_pet::status::SharedStatus;

fn is(e: &Option<PetEvent>, want: &str) -> bool {
    match e {
        Some(ev) => format!("{:?}", ev) == want,
        None => want == "None",
    }
}

#[test]
fn click_then_quick_click_is_double_click() {
    let mut p = Pointer::new();
    assert!(p.left_down((10, 10), (100, 100), true));
    assert!(is(&p.left_up(1_000), "LeftClick"));
    assert!(p.left_down((10, 10), (100, 100), true));
    assert!(is(&p.left_up(1_399), "DoubleClick"));
    assert!(p.left_down((10, 10), (100, 100), true));
    assert!(is(&p.left_up(1_500), "LeftClick"));
}

#[test]
fn slow_clicks_stay_single() {
    let mut p = Pointer::new();
    p.left_down((0, 0), (0, 0), true);
    assert!(is(&p.left_up(1_000), "LeftClick"));
    p.left_down((0, 0), (0, 0), true);
    assert!(is(&p.left_up(1_400), "LeftClick"));
}

#[test]
fn press_off_the_model_does_nothing() {
    let mut p = Pointer::new();
    assert!(!p.left_down((5, 5), (0, 0), false));
    assert!(!p.dragging);
    assert!(is(&p.left_up(10), "None"));
}

#[test]
fn drag_starts_past_the_threshold_and_moves_the_window() {
    let mut p = Pointer::new();
    p.left_down((100, 100), (500, 400), true);
    let o = p.mouse_move((103, 105), true);
    assert!(is(&o.event, "None"));
    assert_eq!(o.move_to, Some((503, 405)));
    let o = p.mouse_move((106, 100), true);
    assert!(is(&o.event, "DragStart"));
    assert_eq!(o.move_to, Some((506, 400)));
    let o = p.mouse_move((90, 80), true);
    assert!(is(&o.event, "None"));
    assert_eq!(o.move_to, Some((490, 380)));
    assert!(is(&p.left_up(50), "DragEnd"));
    assert!(!p.dragging);
    assert_eq!(p.last_click_ms, None);
}

#[test]
fn hover_enter_and_leave_once_each() {
    let mut p = Pointer::new();
    assert!(is(&p.mouse_move((1, 1), true).event, "PointerEnter"));
    assert!(is(&p.mouse_move((2, 2), true).event, "None"));
    assert!(is(&p.mouse_move((3, 3), false).event, "PointerLeave"));
    assert!(is(&p.mouse_move((4, 4), false).event, "None"));
    assert_eq!(p.mouse_move((4, 4), false).move_to, None);
}

#[test]
fn context_menu_commands() {
    let mut p = Pointer::new();
    assert!(is(&p.right_up(false), "None"));
    assert!(!p.menu_open);
    assert!(is(&p.right_up(true), "RightClick"));
    assert!(p.menu_open);
    assert!(is(&p.context_menu_closed(CMD_NOD), "MenuNod"));
    assert!(!p.menu_open);
    assert!(is(&p.context_menu_closed(CMD_SHAKE), "MenuShake"));
    assert!(is(&p.context_menu_closed(CMD_RESET), "MenuReset"));
    assert!(is(&p.context_menu_closed(CMD_QUIT), "MenuQuit"));
    assert!(is(&p.context_menu_closed(0), "None"));
}

#[test]
fn tray_clicks_and_commands() {
    let mut p = Pointer::new();
    assert_eq!(p.tray_click(TRAY_LEFT_UP), TrayClick::ToggleVisibility);
    assert_eq!(p.tray_click(TRAY_LEFT_DOUBLE), TrayClick::ToggleVisibility);
    assert_eq!(p.tray_click(0x0200), TrayClick::Nothing);
    assert_eq!(p.tray_click(TRAY_RIGHT_UP), TrayClick::OpenMenu);
    assert!(p.menu_open);
    let chars = vec![
        ("default".to_string(), "Default".to_string()),
        ("cat".to_string(), "Cat".to_string()),
    ];
    assert!(matches!(p.tray_menu_closed(CMD_TRAY_TOGGLE_VISIBLE, &chars), TrayAction::ToggleVisibility));
    assert!(!p.menu_open);
    assert!(matches!(p.tray_menu_closed(CMD_TRAY_AUTOSTART, &chars), TrayAction::ToggleAutostart));
    assert!(matches!(p.tray_menu_closed(CMD_TRAY_RESET, &chars), TrayAction::Send(PetEvent::MenuReset)));
    assert!(matches!(p.tray_menu_closed(CMD_TRAY_EXIT, &chars), TrayAction::Send(PetEvent::MenuQuit)));
    assert!(matches!(p.tray_menu_closed(CMD_TRAY_TEST_BUBBLE, &chars), TrayAction::Nothing));
    match p.tray_menu_closed(CMD_CHAR_BASE + 1, &chars) {
        TrayAction::Send(PetEvent::TraySwitchCharacter(id)) => assert_eq!(id, "cat"),
        other => panic!("unexpected {:?}", other),
    }
    assert!(matches!(p.tray_menu_closed(CMD_CHAR_BASE + 2, &chars), TrayAction::Nothing));
}

#[test]
fn escape_quits() {
    assert!(is(&key_event(0x1B), "MenuQuit"));
    assert!(is(&key_event(0x41), "None"));
}

#[test]
fn status_snapshot_reflects_writes() {
    let mut s = SharedStatus::new();
    let snap = s.snapshot();
    assert!(snap.online);
    assert!(snap.visible);
    assert_eq!(snap.window_rect, [0, 0, 0, 0]);
    assert_eq!(snap.active_character, "");
    assert_eq!(snap.visible_rect, None);

    s.set_visible(false);
    s.set_rect(100, 200, 740, 840);
    s.set_visible_bounds(Some((10, 20, 300, 400)));
    s.set_active_character("cat");
    let snap = s.snapshot();
    assert!(!snap.visible);
    assert_eq!(snap.window_rect, [100, 200, 740, 840]);
    assert_eq!(snap.visible_rect, Some([110, 220, 400, 600]));
    assert_eq!(snap.active_character, "cat");

    s.set_visible_bounds(None);
    s.set_active_character("cat");
    let snap = s.snapshot();
    assert_eq!(snap.visible_rect, None);
    assert_eq!(snap.active_character, "cat");
}
