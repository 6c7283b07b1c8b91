//! Pointer and menu input on the pet window, turned into semantic events.
//!
//! The window layer asks the model whether the cursor is over it, reads the
//! cursor and window positions and the clock, shows the menus, and hands each
//! outcome to this state machine; what the pet should do comes back as a
//! [`PetEvent`] or a window action.
use vstd::prelude::*;
use crate::behavior::{event_action, PetAction, PetEvent, PRI_CONTROL, PRI_FORCE, PRI_NORMAL};

verus! {

/// A press that moves the cursor more than this many pixels (either axis)
/// becomes a drag.
pub const DRAG_THRESHOLD: i32 = 5;

/// Two clicks less than this many milliseconds apart make a double click.
pub const DOUBLE_CLICK_MS: u64 = 400;

/// Context menu commands.
pub const CMD_NOD: usize = 1;
pub const CMD_SHAKE: usize = 2;
pub const CMD_RESET: usize = 3;
pub const CMD_QUIT: usize = 4;

/// Tray menu commands.
pub const CMD_TRAY_TOGGLE_VISIBLE: usize = 100;
pub const CMD_TRAY_RESET: usize = 101;
pub const CMD_TRAY_AUTOSTART: usize = 102;
pub const CMD_TRAY_EXIT: usize = 103;
pub const CMD_TRAY_TEST_BUBBLE: usize = 104;
/// Tray command of the first character; the others follow in list order.
pub const CMD_CHAR_BASE: usize = 200;

/// Tray icon notifications (the mouse message that the icon reports).
pub const TRAY_LEFT_UP: u32 = 0x0202;
pub const TRAY_LEFT_DOUBLE: u32 = 0x0203;
pub const TRAY_RIGHT_UP: u32 = 0x0205;

/// Escape key.
pub const VK_ESCAPE: usize = 0x1B;

/// Pointer state of the pet window.
#[derive(Debug, Clone, Copy)]
pub struct Pointer {
    /// The left button went down on the model and has not come up.
    pub dragging: bool,
    /// This press has moved past the drag threshold.
    pub drag_moved: bool,
    /// Cursor position when the press began.
    pub drag_origin: (i32, i32),
    /// Window position when the press began.
    pub window_origin: (i32, i32),
    /// Time of the last single click, in milliseconds of a monotonic clock.
    pub last_click_ms: Option<u64>,
    /// The cursor is over the model.
    pub hovering: bool,
    /// A menu is open.
    pub menu_open: bool,
}

/// What a cursor move asks for.
#[derive(Debug)]
pub struct MoveOutcome {
    pub event: Option<PetEvent>,
    /// New window position while dragging.
    pub move_to: Option<(i32, i32)>,
}

/// `|d| > DRAG_THRESHOLD`.
pub open spec fn beyond_threshold(d: int) -> bool {
    d > DRAG_THRESHOLD || d < -DRAG_THRESHOLD
}

/// The window position that follows the cursor during a drag.
pub open spec fn drag_position(p: Pointer, cursor: (i32, i32)) -> (i32, i32) {
    (
        p.window_origin.0.wrapping_add(cursor.0.wrapping_sub(p.drag_origin.0)),
        p.window_origin.1.wrapping_add(cursor.1.wrapping_sub(p.drag_origin.1)),
    )
}

/// A cursor move to `cursor` (`hit`: over the model): the new state, the
/// event, and where the window goes. While dragging the window follows the
/// cursor, and the first move past the threshold starts the drag; otherwise
/// entering and leaving the model are reported once each.
pub open spec fn spec_mouse_move(p: Pointer, cursor: (i32, i32), hit: bool) -> (
    Pointer,
    Option<PetEvent>,
    Option<(i32, i32)>,
) {
    if p.dragging {
        let starts = !p.drag_moved && (beyond_threshold(cursor.0 - p.drag_origin.0)
            || beyond_threshold(cursor.1 - p.drag_origin.1));
        (
            Pointer { drag_moved: p.drag_moved || starts, ..p },
            if starts {
                Some(PetEvent::DragStart)
            } else {
                None
            },
            Some(drag_position(p, cursor)),
        )
    } else if hit && !p.hovering {
        (Pointer { hovering: true, ..p }, Some(PetEvent::PointerEnter), None)
    } else if !hit && p.hovering {
        (Pointer { hovering: false, ..p }, Some(PetEvent::PointerLeave), None)
    } else {
        (p, None, None)
    }
}

/// The state after the left button goes down (`hit`: on the model).
pub open spec fn spec_left_down(
    p: Pointer,
    cursor: (i32, i32),
    window: (i32, i32),
    hit: bool,
) -> Pointer {
    if hit {
        Pointer { dragging: true, drag_moved: false, drag_origin: cursor, window_origin: window, ..p }
    } else {
        p
    }
}

/// The event that the left button's release gives.
pub open spec fn spec_left_up_event(p: Pointer, now: u64) -> Option<PetEvent> {
    if !p.dragging {
        None
    } else if p.drag_moved {
        Some(PetEvent::DragEnd)
    } else if p.last_click_ms is Some && now.saturating_sub(p.last_click_ms->0) < DOUBLE_CLICK_MS {
        Some(PetEvent::DoubleClick)
    } else {
        Some(PetEvent::LeftClick)
    }
}

/// The state after the left button's release.
pub open spec fn spec_left_up(p: Pointer, now: u64) -> Pointer {
    if !p.dragging {
        p
    } else if p.drag_moved {
        Pointer { dragging: false, ..p }
    } else if p.last_click_ms is Some && now.saturating_sub(p.last_click_ms->0) < DOUBLE_CLICK_MS {
        Pointer { dragging: false, last_click_ms: None, ..p }
    } else {
        Pointer { dragging: false, last_click_ms: Some(now), ..p }
    }
}

/// The event that a context-menu command gives.
pub open spec fn spec_menu_event(cmd: usize) -> Option<PetEvent> {
    if cmd == CMD_NOD {
        Some(PetEvent::MenuNod)
    } else if cmd == CMD_SHAKE {
        Some(PetEvent::MenuShake)
    } else if cmd == CMD_RESET {
        Some(PetEvent::MenuReset)
    } else if cmd == CMD_QUIT {
        Some(PetEvent::MenuQuit)
    } else {
        None
    }
}

/// What a tray notification asks for.
#[derive(Debug, Clone, Copy, PartialEq, Eq, Structural)]
pub enum TrayClick {
    ToggleVisibility,
    OpenMenu,
    Nothing,
}

/// What a tray menu command asks for.
#[derive(Debug)]
pub enum TrayAction {
    ToggleVisibility,
    ToggleAutostart,
    Send(PetEvent),
    Nothing,
}

impl Pointer {
    /// Nothing pressed, nothing hovered, no menu, no earlier click.
    pub fn new() -> (r: Pointer)
        ensures
            !r.dragging,
            !r.drag_moved,
            r.last_click_ms is None,
            !r.hovering,
            !r.menu_open,
            r.drag_origin == (0i32, 0i32),
            r.window_origin == (0i32, 0i32),
    {
        Pointer {
            dragging: false,
            drag_moved: false,
            drag_origin: (0, 0),
            window_origin: (0, 0),
            last_click_ms: None,
            hovering: false,
            menu_open: false,
        }
    }

    /// The cursor moved to `cursor`; `hit` says whether it is over the model.
    pub fn mouse_move(&mut self, cursor: (i32, i32), hit: bool) -> (r: MoveOutcome)
        ensures
            (*final(self), r.event, r.move_to) == spec_mouse_move(*old(self), cursor, hit),
    {
        if self.dragging {
            let dx: i64 = cursor.0 as i64 - self.drag_origin.0 as i64;
            let dy: i64 = cursor.1 as i64 - self.drag_origin.1 as i64;
            let mut event: Option<PetEvent> = None;
            if !self.drag_moved && (dx > 5 || dx < -5 || dy > 5 || dy < -5) {
                self.drag_moved = true;
                event = Some(PetEvent::DragStart);
            }
            let nx = self.window_origin.0.wrapping_add(cursor.0.wrapping_sub(self.drag_origin.0));
            let ny = self.window_origin.1.wrapping_add(cursor.1.wrapping_sub(self.drag_origin.1));
            MoveOutcome { event, move_to: Some((nx, ny)) }
        } else if hit && !self.hovering {
            self.hovering = true;
            MoveOutcome { event: Some(PetEvent::PointerEnter), move_to: None }
        } else if !hit && self.hovering {
            self.hovering = false;
            MoveOutcome { event: Some(PetEvent::PointerLeave), move_to: None }
        } else {
            MoveOutcome { event: None, move_to: None }
        }
    }

    /// The left button went down at `cursor` with the window at `window`.
    /// Only a press on the model starts a press (and so possibly a drag);
    /// the result says whether the window should capture the mouse.
    pub fn left_down(&mut self, cursor: (i32, i32), window: (i32, i32), hit: bool) -> (captured:
        bool)
        ensures
            captured == hit,
            *final(self) == spec_left_down(*old(self), cursor, window, hit),
    {
        if !hit {
            return false;
        }
        self.dragging = true;
        self.drag_moved = false;
        self.drag_origin = cursor;
        self.window_origin = window;
        true
    }

    /// The left button came up at time `now` (milliseconds). A press that
    /// moved ends a drag (the caller then saves the window position); one that
    /// did not is a click, or a double click when the previous single click
    /// was less than [`DOUBLE_CLICK_MS`] earlier.
    pub fn left_up(&mut self, now: u64) -> (r: Option<PetEvent>)
        ensures
            r == spec_left_up_event(*old(self), now),
            *final(self) == spec_left_up(*old(self), now),
    {
        if !self.dragging {
            return None;
        }
        self.dragging = false;
        if self.drag_moved {
            return Some(PetEvent::DragEnd);
        }
        let is_double = match self.last_click_ms {
            Some(t) => now.saturating_sub(t) < DOUBLE_CLICK_MS,
            None => false,
        };
        if is_double {
            self.last_click_ms = None;
            Some(PetEvent::DoubleClick)
        } else {
            self.last_click_ms = Some(now);
            Some(PetEvent::LeftClick)
        }
    }

    /// The right button came up; on the model that is a right click, and the
    /// context menu opens (the caller shows it).
    pub fn right_up(&mut self, hit: bool) -> (r: Option<PetEvent>)
        ensures
            hit ==> r == Some(PetEvent::RightClick) && *final(self) == (Pointer {
                menu_open: true,
                ..*old(self)
            }),
            !hit ==> r is None && *final(self) == *old(self),
    {
        if hit {
            self.menu_open = true;
            Some(PetEvent::RightClick)
        } else {
            None
        }
    }

    /// The context menu closed with command `cmd` (0: none chosen).
    pub fn context_menu_closed(&mut self, cmd: usize) -> (r: Option<PetEvent>)
        ensures
            r == spec_menu_event(cmd),
            *final(self) == (Pointer { menu_open: false, ..*old(self) }),
    {
        self.menu_open = false;
        if cmd == CMD_NOD {
            Some(PetEvent::MenuNod)
        } else if cmd == CMD_SHAKE {
            Some(PetEvent::MenuShake)
        } else if cmd == CMD_RESET {
            Some(PetEvent::MenuReset)
        } else if cmd == CMD_QUIT {
            Some(PetEvent::MenuQuit)
        } else {
            None
        }
    }

    /// A tray icon notification: a left click toggles the window, a right
    /// click opens the tray menu (the caller shows it).
    pub fn tray_click(&mut self, mouse: u32) -> (r: TrayClick)
        ensures
            (mouse == TRAY_LEFT_UP || mouse == TRAY_LEFT_DOUBLE) ==> r == TrayClick::ToggleVisibility
                && *final(self) == *old(self),
            mouse == TRAY_RIGHT_UP ==> r == TrayClick::OpenMenu && *final(self) == (Pointer {
                menu_open: true,
                ..*old(self)
            }),
            !(mouse == TRAY_LEFT_UP || mouse == TRAY_LEFT_DOUBLE || mouse == TRAY_RIGHT_UP) ==> r
                == TrayClick::Nothing && *final(self) == *old(self),
    {
        if mouse == TRAY_LEFT_UP || mouse == TRAY_LEFT_DOUBLE {
            TrayClick::ToggleVisibility
        } else if mouse == TRAY_RIGHT_UP {
            self.menu_open = true;
            TrayClick::OpenMenu
        } else {
            TrayClick::Nothing
        }
    }

    /// The tray menu closed with command `cmd`; `characters` are the
    /// `(id, name)` pairs that the menu listed.
    pub fn tray_menu_closed(&mut self, cmd: usize, characters: &[(String, String)]) -> (r:
        TrayAction)
        ensures
            *final(self) == (Pointer { menu_open: false, ..*old(self) }),
            cmd == CMD_TRAY_TOGGLE_VISIBLE ==> r is ToggleVisibility,
            cmd == CMD_TRAY_RESET ==> r == TrayAction::Send(PetEvent::MenuReset),
            cmd == CMD_TRAY_AUTOSTART ==> r is ToggleAutostart,
            cmd == CMD_TRAY_EXIT ==> r == TrayAction::Send(PetEvent::MenuQuit),
            cmd >= CMD_CHAR_BASE && cmd - CMD_CHAR_BASE < characters@.len() ==> r
                is Send && r->Send_0 is TraySwitchCharacter && r->Send_0->TraySwitchCharacter_0@
                == characters@[cmd - CMD_CHAR_BASE].0@,
            cmd >= CMD_CHAR_BASE && cmd - CMD_CHAR_BASE >= characters@.len() ==> r is Nothing,
            cmd < CMD_CHAR_BASE && cmd != CMD_TRAY_TOGGLE_VISIBLE && cmd != CMD_TRAY_RESET && cmd
                != CMD_TRAY_AUTOSTART && cmd != CMD_TRAY_EXIT ==> r is Nothing,
    {
        self.menu_open = false;
        if cmd == CMD_TRAY_TOGGLE_VISIBLE {
            TrayAction::ToggleVisibility
        } else if cmd == CMD_TRAY_RESET {
            TrayAction::Send(PetEvent::MenuReset)
        } else if cmd == CMD_TRAY_AUTOSTART {
            TrayAction::ToggleAutostart
        } else if cmd == CMD_TRAY_EXIT {
            TrayAction::Send(PetEvent::MenuQuit)
        } else if cmd >= CMD_CHAR_BASE {
            let idx = cmd - CMD_CHAR_BASE;
            if idx < characters.len() {
                let id = characters[idx].0.clone();
                TrayAction::Send(PetEvent::TraySwitchCharacter(id))
            } else {
                TrayAction::Nothing
            }
        } else {
            TrayAction::Nothing
        }
    }
}

/// A key press: Escape quits, like the menu's quit.
pub fn key_event(vk: usize) -> (r: Option<PetEvent>)
    ensures
        vk == VK_ESCAPE ==> r == Some(PetEvent::MenuQuit),
        vk != VK_ESCAPE ==> r is None,
{
    if vk == VK_ESCAPE {
        Some(PetEvent::MenuQuit)
    } else {
        None
    }
}

/// A press on the model that does not move and is released, starting from a
/// state where nothing is pressed.
pub open spec fn spec_click(p: Pointer, at: (i32, i32), window: (i32, i32), now: u64) -> (
    Pointer,
    Option<PetEvent>,
) {
    let down = spec_left_down(p, at, window, true);
    (spec_left_up(down, now), spec_left_up_event(down, now))
}

/// Two clicks on the model less than [`DOUBLE_CLICK_MS`] apart make a single
/// click then a double click, and a third click after them is single again.
pub proof fn lemma_double_click(
    p: Pointer,
    at: (i32, i32),
    window: (i32, i32),
    t1: u64,
    t2: u64,
    t3: u64,
)
    requires
        !p.dragging,
        p.last_click_ms is None,
        t1 <= t2 < t1 + DOUBLE_CLICK_MS,
    ensures
        ({
            let (p1, e1) = spec_click(p, at, window, t1);
            let (p2, e2) = spec_click(p1, at, window, t2);
            let (p3, e3) = spec_click(p2, at, window, t3);
            &&& e1 == Some(PetEvent::LeftClick)
            &&& e2 == Some(PetEvent::DoubleClick)
            &&& e3 == Some(PetEvent::LeftClick)
            &&& !p3.dragging
        }),
{
}

/// A click at least [`DOUBLE_CLICK_MS`] after the one before it is a single
/// click, whatever the earlier one was.
pub proof fn lemma_slow_clicks_are_single(
    p: Pointer,
    at: (i32, i32),
    window: (i32, i32),
    t1: u64,
    t2: u64,
)
    requires
        !p.dragging,
        t1 + DOUBLE_CLICK_MS <= t2,
    ensures
        ({
            let (p1, e1) = spec_click(p, at, window, t1);
            let (p2, e2) = spec_click(p1, at, window, t2);
            e2 == Some(PetEvent::LeftClick)
        }),
{
}

/// Clicking the model makes the pet nod, and clicking it again within the
/// double-click time makes it shake.
pub proof fn lemma_click_nods_double_click_shakes(
    p: Pointer,
    at: (i32, i32),
    window: (i32, i32),
    t1: u64,
    t2: u64,
)
    requires
        !p.dragging,
        p.last_click_ms is None,
        t1 <= t2 < t1 + DOUBLE_CLICK_MS,
    ensures
        ({
            let (p1, e1) = spec_click(p, at, window, t1);
            let (p2, e2) = spec_click(p1, at, window, t2);
            &&& e1 is Some && event_action(e1->0) == Some((PetAction::Nod, PRI_NORMAL))
            &&& e2 is Some && event_action(e2->0) == Some((PetAction::Shake, PRI_FORCE))
        }),
{
}

/// The context menu's entries ask for a nod, a shake, a position reset and
/// quitting; the last two are control actions.
pub proof fn lemma_menu_actions()
    ensures
        event_action(spec_menu_event(CMD_NOD)->0) == Some((PetAction::Nod, PRI_NORMAL)),
        event_action(spec_menu_event(CMD_SHAKE)->0) == Some((PetAction::Shake, PRI_FORCE)),
        event_action(spec_menu_event(CMD_RESET)->0) == Some((PetAction::ResetPosition, PRI_CONTROL)),
        event_action(spec_menu_event(CMD_QUIT)->0) == Some((PetAction::Quit, PRI_CONTROL)),
{
}

/// Dragging the model moves the window with the cursor: past the threshold
/// the drag starts, the window goes to its starting position moved by the
/// cursor's displacement, and releasing ends the drag without counting as a
/// click.
pub proof fn lemma_drag_moves_window(
    p: Pointer,
    start: (i32, i32),
    window: (i32, i32),
    to: (i32, i32),
    now: u64,
)
    requires
        !p.dragging,
        beyond_threshold(to.0 - start.0) || beyond_threshold(to.1 - start.1),
    ensures
        ({
            let down = spec_left_down(p, start, window, true);
            let (moved, ev, pos) = spec_mouse_move(down, to, true);
            &&& ev == Some(PetEvent::DragStart)
            &&& pos == Some(
                (
                    window.0.wrapping_add(to.0.wrapping_sub(start.0)),
                    window.1.wrapping_add(to.1.wrapping_sub(start.1)),
                ),
            )
            &&& spec_left_up_event(moved, now) == Some(PetEvent::DragEnd)
            &&& spec_left_up(moved, now).last_click_ms == p.last_click_ms
            &&& !spec_left_up(moved, now).dragging
        }),
{
}

/// Small moves do not start a drag: a press released without passing the
/// threshold is a click.
pub proof fn lemma_small_move_is_click(
    p: Pointer,
    start: (i32, i32),
    window: (i32, i32),
    to: (i32, i32),
    now: u64,
)
    requires
        !p.dragging,
        p.last_click_ms is None,
        !beyond_threshold(to.0 - start.0),
        !beyond_threshold(to.1 - start.1),
    ensures
        ({
            let down = spec_left_down(p, start, window, true);
            let (moved, ev, pos) = spec_mouse_move(down, to, true);
            &&& ev is None
            &&& spec_left_up_event(moved, now) == Some(PetEvent::LeftClick)
        }),
{
}

} // verus!
