//! The pet's status as a read-only query sees it: visibility, window
//! rectangle, the model's visible bounds and the active character.
//!
//! The main loop writes it every frame and the control channel reads it; the
//! caller shares it between threads behind a lock.
use vstd::prelude::*;

verus! {

/// What a status query answers.
#[derive(Debug, Clone)]
pub struct StatusSnapshot {
    pub online: bool,
    pub visible: bool,
    /// Window rectangle on the screen: left, top, right, bottom.
    pub window_rect: [i32; 4],
    pub active_character: String,
    /// The model's visible bounds on the screen, when known.
    pub visible_rect: Option<[i32; 4]>,
}

/// The pet's status, written by the main loop.
#[derive(Debug)]
pub struct SharedStatus {
    visible: bool,
    /// Window rectangle: left, top, right, bottom.
    rect: [i32; 4],
    /// The model's visible bounds, in pixels of the window's client area.
    vis_rect: [i32; 4],
    vis_valid: bool,
    active_character: String,
}

/// Model of the status: what each write leaves behind.
pub struct StatusModel {
    pub visible: bool,
    pub rect: Seq<i32>,
    pub bounds: Option<Seq<i32>>,
    pub active_character: Seq<char>,
}

/// A client-area rectangle moved to the screen by the window's origin
/// (the window has no frame, so its client area is the window).
pub open spec fn to_screen(left: i32, top: i32, b: Seq<i32>) -> Seq<i32> {
    seq![
        left.wrapping_add(b[0]),
        top.wrapping_add(b[1]),
        left.wrapping_add(b[2]),
        top.wrapping_add(b[3]),
    ]
}

impl View for SharedStatus {
    type V = StatusModel;

    closed spec fn view(&self) -> StatusModel {
        StatusModel {
            visible: self.visible,
            rect: self.rect@,
            bounds: if self.vis_valid {
                Some(self.vis_rect@)
            } else {
                None
            },
            active_character: self.active_character@,
        }
    }
}

/// What a query of the status in model `m` answers.
pub open spec fn snapshot_holds(m: StatusModel, s: StatusSnapshot) -> bool {
    &&& s.online
    &&& s.visible == m.visible
    &&& s.window_rect@ == m.rect
    &&& s.active_character@ == m.active_character
    &&& match m.bounds {
        Some(b) => s.visible_rect is Some && s.visible_rect->0@ == to_screen(
            m.rect[0],
            m.rect[1],
            b,
        ),
        None => s.visible_rect is None,
    }
}

impl SharedStatus {
    /// Visible, at the origin, no bounds, no character.
    pub fn new() -> (r: SharedStatus)
        ensures
            r@.visible,
            r@.rect == seq![0i32, 0i32, 0i32, 0i32],
            r@.bounds is None,
            r@.active_character == Seq::<char>::empty(),
    {
        let r = SharedStatus {
            visible: true,
            rect: [0, 0, 0, 0],
            vis_rect: [0, 0, 0, 0],
            vis_valid: false,
            active_character: String::new(),
        };
        assert(r.rect@ =~= seq![0i32, 0i32, 0i32, 0i32]);
        r
    }

    /// Records whether the window is visible.
    pub fn set_visible(&mut self, v: bool)
        ensures
            final(self)@.visible == v,
            final(self)@.rect == old(self)@.rect,
            final(self)@.bounds == old(self)@.bounds,
            final(self)@.active_character == old(self)@.active_character,
    {
        self.visible = v;
    }

    /// Records the window rectangle.
    pub fn set_rect(&mut self, l: i32, t: i32, r: i32, b: i32)
        ensures
            final(self)@.rect == seq![l, t, r, b],
            final(self)@.visible == old(self)@.visible,
            final(self)@.bounds == old(self)@.bounds,
            final(self)@.active_character == old(self)@.active_character,
    {
        self.rect = [l, t, r, b];
        assert(self.rect@ =~= seq![l, t, r, b]);
    }

    /// Records the model's visible bounds (client-area pixels), or clears them.
    pub fn set_visible_bounds(&mut self, b: Option<(i32, i32, i32, i32)>)
        ensures
            match b {
                Some((l, t, r, bot)) => final(self)@.bounds == Some(seq![l, t, r, bot]),
                None => final(self)@.bounds is None,
            },
            final(self)@.visible == old(self)@.visible,
            final(self)@.rect == old(self)@.rect,
            final(self)@.active_character == old(self)@.active_character,
    {
        match b {
            Some((l, t, r, bot)) => {
                self.vis_rect = [l, t, r, bot];
                self.vis_valid = true;
                assert(self.vis_rect@ =~= seq![l, t, r, bot]);
            },
            None => {
                self.vis_valid = false;
            },
        }
    }

    /// Records the active character's id.
    pub fn set_active_character(&mut self, id: &str)
        ensures
            final(self)@.active_character == id@,
            final(self)@.visible == old(self)@.visible,
            final(self)@.rect == old(self)@.rect,
            final(self)@.bounds == old(self)@.bounds,
    {
        if !crate::text::str_eq(self.active_character.as_str(), id) {
            self.active_character = String::from_str(id);
        }
    }

    /// The status as a query answers it, the visible bounds moved to the screen.
    pub fn snapshot(&self) -> (r: StatusSnapshot)
        ensures
            snapshot_holds(self@, r),
    {
        let l = self.rect[0];
        let t = self.rect[1];
        let visible_rect = if self.vis_valid {
            let v = [
                l.wrapping_add(self.vis_rect[0]),
                t.wrapping_add(self.vis_rect[1]),
                l.wrapping_add(self.vis_rect[2]),
                t.wrapping_add(self.vis_rect[3]),
            ];
            assert(v@ =~= to_screen(l, t, self.vis_rect@));
            Some(v)
        } else {
            None
        };
        let w = [l, t, self.rect[2], self.rect[3]];
        assert(w@ =~= self.rect@);
        StatusSnapshot {
            online: true,
            visible: self.visible,
            window_rect: w,
            active_character: self.active_character.clone(),
            visible_rect,
        }
    }
}

/// Width of the agent's input window, in pixels.
pub const INPUT_WINDOW_W: i32 = 480;

/// Height of the agent's input window, in pixels.
pub const INPUT_WINDOW_H: i32 = 240;

/// Half of `d`, rounded toward zero as integer division rounds.
pub open spec fn half_toward_zero(d: i32) -> int {
    if d >= 0 {
        d / 2
    } else {
        -((-d) / 2)
    }
}

/// Where the agent's input window opens. Next to an online pet: centred
/// above it, 8 pixels apart; below it when that would leave the screen's
/// top; 8 pixels from the left edge when it would leave the left side.
/// With no pet: offset up and left from the cursor.
pub open spec fn spec_position_near_pet(status: Option<StatusSnapshot>, cursor: (i32, i32)) -> (
    i32,
    i32,
) {
    if status is Some && status->0.online {
        let w = status->0.window_rect@;
        let x0 = w[0].wrapping_add(half_toward_zero(w[2].wrapping_sub(w[0])) as i32).wrapping_sub(
            240,
        );
        let y0 = w[1].wrapping_sub(INPUT_WINDOW_H).wrapping_sub(8);
        (if x0 < 0 {
            8
        } else {
            x0
        }, if y0 < 0 {
            w[3].wrapping_add(8)
        } else {
            y0
        })
    } else {
        (cursor.0.wrapping_sub(190), cursor.1.wrapping_sub(75))
    }
}

/// The position for the agent's input window, from the pet's status as a
/// query answered it (`None` when the pet did not answer) and the cursor.
pub fn position_near_pet(status: &Option<StatusSnapshot>, cursor: (i32, i32)) -> (r: (i32, i32))
    ensures
        r == spec_position_near_pet(*status, cursor),
{
    if let Some(s) = status {
        if s.online {
            let l = s.window_rect[0];
            let t = s.window_rect[1];
            let d: i32 = s.window_rect[2].wrapping_sub(l);
            let mag: u32 = if d >= 0 {
                d as u32
            } else {
                (-(d as i64)) as u32
            };
            let hm: u32 = mag / 2;
            let h: i32 = if d >= 0 {
                hm as i32
            } else {
                -(hm as i32)
            };
            assert(h == half_toward_zero(d));
            let mut x = l.wrapping_add(h).wrapping_sub(240);
            let mut y = t.wrapping_sub(INPUT_WINDOW_H).wrapping_sub(8);
            if y < 0 {
                y = s.window_rect[3].wrapping_add(8);
            }
            if x < 0 {
                x = 8;
            }
            return (x, y);
        }
    }
    (cursor.0.wrapping_sub(190), cursor.1.wrapping_sub(75))
}

/// A query answers what the last write of each part left: after the window
/// rectangle and then the visible bounds are written, the snapshot holds that
/// rectangle, and the bounds moved by its top-left corner.
pub proof fn lemma_snapshot_reads_last_write(
    m: StatusModel,
    l: i32,
    t: i32,
    r: i32,
    b: i32,
    bounds: Seq<i32>,
    s: StatusSnapshot,
)
    requires
        bounds.len() == 4,
        snapshot_holds(
            StatusModel {
                visible: m.visible,
                rect: seq![l, t, r, b],
                bounds: Some(bounds),
                active_character: m.active_character,
            },
            s,
        ),
    ensures
        s.window_rect@ == seq![l, t, r, b],
        s.visible_rect is Some,
        s.visible_rect->0@[0] == l.wrapping_add(bounds[0]),
        s.visible_rect->0@[1] == t.wrapping_add(bounds[1]),
        s.visible_rect->0@[2] == l.wrapping_add(bounds[2]),
        s.visible_rect->0@[3] == t.wrapping_add(bounds[3]),
        s.visible == m.visible,
        s.active_character@ == m.active_character,
{
}

} // verus!
