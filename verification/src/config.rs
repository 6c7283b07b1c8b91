//! Settings of the pet (window position, active character) and of the agent
//! (provider, history, bubble length), with their defaults.
//!
//! Reading and writing the JSON files is done by the caller; keeping a saved
//! window position on the virtual screen is here.
use vstd::prelude::*;

verus! {

/// Window position and size, in pixels.
#[derive(Debug, Clone, Copy, PartialEq, Eq, Structural)]
pub struct WindowConfig {
    pub x: i32,
    pub y: i32,
    pub width: i32,
    pub height: i32,
}

/// Which character is active (`characters/<id>/`); empty means the first one.
#[derive(Debug, Clone)]
pub struct CharacterConfig {
    pub active_character: String,
}

/// The pet's settings.
#[derive(Debug, Clone)]
pub struct Config {
    pub window: WindowConfig,
    pub character: CharacterConfig,
}

/// The active character when none is configured.
pub fn default_active() -> (r: String)
    ensures
        r@ == "default"@,
{
    String::from_str("default")
}

impl Default for CharacterConfig {
    fn default() -> (r: CharacterConfig)
        ensures
            r.active_character@ == "default"@,
    {
        CharacterConfig { active_character: default_active() }
    }
}

impl Default for Config {
    /// 640 x 640 at (200, 200), default character.
    fn default() -> (r: Config)
        ensures
            r.window == (WindowConfig { x: 200, y: 200, width: 640, height: 640 }),
            r.character.active_character@ == "default"@,
    {
        Config {
            window: WindowConfig { x: 200, y: 200, width: 640, height: 640 },
            character: CharacterConfig::default(),
        }
    }
}

/// Pixels of the window that stay on the virtual screen.
pub const MARGIN: i32 = 100;

/// The virtual screen as the system reports it: origin and size.
#[derive(Debug, Clone, Copy)]
pub struct VirtualScreen {
    pub x: i32,
    pub y: i32,
    pub width: i32,
    pub height: i32,
}

/// `v.clamp(lo, hi)` for `lo <= hi`.
pub open spec fn clamp_int(v: int, lo: int, hi: int) -> int {
    if v < lo {
        lo
    } else if v > hi {
        hi
    } else {
        v
    }
}

/// The clamping can be computed: the bounds fit in `i32` and are ordered
/// (`i32::clamp` panics when they are not).
pub open spec fn screen_clamp_ok(w: WindowConfig, s: VirtualScreen) -> bool {
    let min_x = s.x - w.width + MARGIN;
    let max_x = s.x + s.width - MARGIN;
    let min_y = s.y - w.height + MARGIN;
    let max_y = s.y + s.height - MARGIN;
    (s.width <= 0 || s.height <= 0) || (i32::MIN <= s.x - w.width && s.x - w.width <= i32::MAX
        && i32::MIN <= min_x <= i32::MAX && i32::MIN <= s.x + s.width <= i32::MAX && i32::MIN
        <= max_x <= i32::MAX && i32::MIN <= s.y - w.height && s.y - w.height <= i32::MAX
        && i32::MIN <= min_y <= i32::MAX && i32::MIN <= s.y + s.height <= i32::MAX && i32::MIN
        <= max_y <= i32::MAX && min_x <= max_x && min_y <= max_y)
}

/// The window after keeping at least `MARGIN` pixels of it on the virtual screen;
/// unchanged when the screen size is not positive.
pub open spec fn spec_clamp_to_screen(w: WindowConfig, s: VirtualScreen) -> WindowConfig {
    if s.width <= 0 || s.height <= 0 {
        w
    } else {
        WindowConfig {
            x: clamp_int(w.x as int, s.x - w.width + MARGIN, s.x + s.width - MARGIN) as i32,
            y: clamp_int(w.y as int, s.y - w.height + MARGIN, s.y + s.height - MARGIN) as i32,
            ..w
        }
    }
}

impl Config {
    /// Moves the window back onto the virtual screen when the saved position
    /// lies outside it. Returns whether the position changed.
    pub fn clamp_to_screen(&mut self, screen: VirtualScreen) -> (changed: bool)
        requires
            screen_clamp_ok(old(self).window, screen),
        ensures
            final(self).window == spec_clamp_to_screen(old(self).window, screen),
            final(self).character == old(self).character,
            changed == (final(self).window != old(self).window),
    {
        if screen.width <= 0 || screen.height <= 0 {
            return false;
        }
        let w = self.window.width;
        let h = self.window.height;
        let min_x = screen.x - w + MARGIN;
        let max_x = screen.x + screen.width - MARGIN;
        let min_y = screen.y - h + MARGIN;
        let max_y = screen.y + screen.height - MARGIN;
        let nx = if self.window.x < min_x {
            min_x
        } else if self.window.x > max_x {
            max_x
        } else {
            self.window.x
        };
        let ny = if self.window.y < min_y {
            min_y
        } else if self.window.y > max_y {
            max_y
        } else {
            self.window.y
        };
        if nx != self.window.x || ny != self.window.y {
            self.window.x = nx;
            self.window.y = ny;
            true
        } else {
            false
        }
    }
}

/// Keeping a window on the screen twice moves it no further.
pub proof fn lemma_clamp_idempotent(w: WindowConfig, s: VirtualScreen)
    requires
        screen_clamp_ok(w, s),
    ensures
        spec_clamp_to_screen(spec_clamp_to_screen(w, s), s) == spec_clamp_to_screen(w, s),
{
}

/// A clamped window keeps at least `MARGIN` pixels inside the virtual screen.
pub proof fn lemma_clamp_on_screen(w: WindowConfig, s: VirtualScreen)
    requires
        screen_clamp_ok(w, s),
        s.width > 0,
        s.height > 0,
    ensures
        ({
            let c = spec_clamp_to_screen(w, s);
            &&& c.x + c.width >= s.x + MARGIN
            &&& c.x <= s.x + s.width - MARGIN
            &&& c.y + c.height >= s.y + MARGIN
            &&& c.y <= s.y + s.height - MARGIN
        }),
{
}

/// The agent's settings.
#[derive(Debug, Clone)]
pub struct AgentConfig {
    /// Provider name: "mock" or "openai_compatible".
    pub provider: String,
    /// Base URL of an OpenAI-compatible service, such as `http://127.0.0.1:8080/v1`.
    pub base_url: String,
    /// Model name, as the user configured it.
    pub model: String,
    /// API key (may be absent for local services).
    pub api_key: Option<String>,
    /// Request timeout, in seconds.
    pub timeout_secs: u64,
    /// System prompt.
    pub system_prompt: String,
    /// Most conversation rounds kept.
    pub history_limit: usize,
    /// Most characters shown in the bubble.
    pub bubble_max_chars: usize,
    /// Whether whole conversations go to the log.
    pub log_conversation: bool,
}

/// The default system prompt.
pub open spec fn spec_default_system_prompt() -> Seq<char> {
    "你是桌面角色的对话层。回复尽量简短自然，通常 1～3 句话，适合显示在小小的桌面气泡里。不要输出 Markdown 或大段格式。"@
}

/// The provider used when none is configured.
pub fn default_provider() -> (r: String)
    ensures
        r@ == "mock"@,
{
    String::from_str("mock")
}

/// Request timeout when none is configured, in seconds.
pub fn default_timeout() -> (r: u64)
    ensures
        r == 60,
{
    60
}

/// Conversation rounds kept when no limit is configured.
pub fn default_history_limit() -> (r: usize)
    ensures
        r == 12,
{
    12
}

/// Bubble length when none is configured, in characters.
pub fn default_bubble_max() -> (r: usize)
    ensures
        r == 80,
{
    80
}

/// The system prompt when none is configured.
pub fn default_system_prompt() -> (r: String)
    ensures
        r@ == spec_default_system_prompt(),
{
    String::from_str(
        "你是桌面角色的对话层。回复尽量简短自然，通常 1～3 句话，适合显示在小小的桌面气泡里。不要输出 Markdown 或大段格式。",
    )
}

impl Default for AgentConfig {
    fn default() -> (r: AgentConfig)
        ensures
            r.provider@ == "mock"@,
            r.base_url@.len() == 0,
            r.model@.len() == 0,
            r.api_key is None,
            r.timeout_secs == 60,
            r.system_prompt@ == spec_default_system_prompt(),
            r.history_limit == 12,
            r.bubble_max_chars == 80,
            !r.log_conversation,
    {
        AgentConfig {
            provider: default_provider(),
            base_url: String::new(),
            model: String::new(),
            api_key: None,
            timeout_secs: default_timeout(),
            system_prompt: default_system_prompt(),
            history_limit: default_history_limit(),
            bubble_max_chars: default_bubble_max(),
            log_conversation: false,
        }
    }
}

} // verus!
