//! The agent's input window: what each key, button, hotkey, tray click and
//! broadcast message asks for.
//!
//! The window layer reads the message, asks [`input_action`] what to do, and
//! does it: it shows, hides or moves the window, sends the box's text, and
//! shows the menus.
use vstd::prelude::*;
use crate::pointer::{TRAY_LEFT_DOUBLE, TRAY_LEFT_UP, TRAY_RIGHT_UP};

verus! {

/// Id of the global hotkey (Ctrl+Alt+Space) that calls up the window.
pub const HOTKEY_ID: i32 = 1;

/// Control id of the send button.
pub const ID_SEND: i32 = 1002;

/// Enter key.
pub const VK_RETURN: u32 = 0x0D;

/// Escape key.
pub const VK_ESCAPE: u32 = 0x1B;

/// Tray menu: open the input window.
pub const CMD_OPEN: usize = 1;

/// Tray menu: clear the conversation.
pub const CMD_CLEAR: usize = 2;

/// Tray menu: toggle starting with the system.
pub const CMD_AUTOSTART: usize = 3;

/// Tray menu: exit.
pub const CMD_EXIT: usize = 4;

/// Tray menu: open the memory manager.
pub const CMD_MEMORY_MGMT: usize = 6;

/// Tray menu command of the first persona; the others follow in list order.
pub const CMD_PERSONA_BASE: usize = 50;

/// A message that reaches the input window.
#[derive(Debug, Clone, Copy, PartialEq, Eq, Structural)]
pub enum InputEvent {
    /// Another instance asked this one to show its window.
    Wake,
    /// The pet's tray asked for the memory manager.
    OpenMemoryBroadcast,
    /// The pet's tray asked for the persona menu.
    OpenPersonaBroadcast,
    /// The pet's tray asked the agent to quit.
    QuitBroadcast,
    /// A global hotkey with this id was pressed.
    Hotkey(i32),
    /// A control reported a command: its id and notification code.
    Command(i32, u32),
    /// A key went down; `shift` says whether Shift was held.
    Key(u32, bool),
    /// The tray icon reported this mouse message.
    TrayMouse(u32),
    /// The tray menu closed with this command (0: none chosen).
    TrayCommand(usize),
    /// The window's close button.
    Close,
}

/// What the window layer does for a message.
#[derive(Debug, Clone, Copy, PartialEq, Eq, Structural)]
pub enum InputAction {
    /// Show the window next to the pet and focus the text box.
    Focus,
    /// Send the text box's text (nothing when it is blank).
    Send,
    /// Stop the request in flight; its answer will be dropped.
    Cancel,
    /// Hide the window; the process stays.
    Hide,
    /// Show the tray menu.
    ShowTrayMenu,
    /// Clear the short-term conversation.
    ClearConversation,
    /// Open the memory manager.
    OpenMemory,
    /// Show the persona menu.
    OpenPersonaMenu,
    /// Switch to the persona at this index of the listed personas.
    SwitchPersona(usize),
    /// Toggle starting with the system.
    ToggleAutostart,
    /// Close the window and end the agent.
    Exit,
    /// Let the system handle the message (Shift+Enter adds a line break).
    Default,
    /// Nothing.
    Nothing,
}

/// The action for a tray menu command, with `personas` personas listed.
pub open spec fn spec_tray_command(cmd: usize, personas: nat) -> InputAction {
    if cmd == CMD_OPEN {
        InputAction::Focus
    } else if cmd == CMD_CLEAR {
        InputAction::ClearConversation
    } else if cmd == CMD_MEMORY_MGMT {
        InputAction::OpenMemory
    } else if cmd >= CMD_PERSONA_BASE {
        if cmd - CMD_PERSONA_BASE < personas {
            InputAction::SwitchPersona((cmd - CMD_PERSONA_BASE) as usize)
        } else {
            InputAction::Nothing
        }
    } else if cmd == CMD_AUTOSTART {
        InputAction::ToggleAutostart
    } else if cmd == CMD_EXIT {
        InputAction::Exit
    } else {
        InputAction::Nothing
    }
}

/// The action for message `ev`, while a request is in flight (`thinking`)
/// or not, with `personas` personas listed in the tray menu. Enter sends and
/// Shift+Enter is left to the text box; Escape and the close button hide the
/// window; the send button sends, or stops the request in flight; the hotkey,
/// a wake-up and a left click on the tray icon show the window.
pub open spec fn spec_input_action(ev: InputEvent, thinking: bool, personas: nat) -> InputAction {
    match ev {
        InputEvent::Wake => InputAction::Focus,
        InputEvent::OpenMemoryBroadcast => InputAction::OpenMemory,
        InputEvent::OpenPersonaBroadcast => InputAction::OpenPersonaMenu,
        InputEvent::QuitBroadcast => InputAction::Exit,
        InputEvent::Hotkey(id) => if id == HOTKEY_ID {
            InputAction::Focus
        } else {
            InputAction::Nothing
        },
        InputEvent::Command(id, code) => if id == ID_SEND && code == 0 {
            if thinking {
                InputAction::Cancel
            } else {
                InputAction::Send
            }
        } else {
            InputAction::Nothing
        },
        InputEvent::Key(vk, shift) => if vk == VK_RETURN && !shift {
            InputAction::Send
        } else if vk == VK_ESCAPE {
            InputAction::Hide
        } else {
            InputAction::Default
        },
        InputEvent::TrayMouse(m) => if m == TRAY_LEFT_UP || m == TRAY_LEFT_DOUBLE {
            InputAction::Focus
        } else if m == TRAY_RIGHT_UP {
            InputAction::ShowTrayMenu
        } else {
            InputAction::Nothing
        },
        InputEvent::TrayCommand(cmd) => spec_tray_command(cmd, personas as nat),
        InputEvent::Close => InputAction::Hide,
    }
}

/// What the input window does for a message.
pub fn input_action(ev: InputEvent, thinking: bool, personas: usize) -> (r: InputAction)
    ensures
        r == spec_input_action(ev, thinking, personas as nat),
{
    match ev {
        InputEvent::Wake => InputAction::Focus,
        InputEvent::OpenMemoryBroadcast => InputAction::OpenMemory,
        InputEvent::OpenPersonaBroadcast => InputAction::OpenPersonaMenu,
        InputEvent::QuitBroadcast => InputAction::Exit,
        InputEvent::Hotkey(id) => {
            if id == HOTKEY_ID {
                InputAction::Focus
            } else {
                InputAction::Nothing
            }
        },
        InputEvent::Command(id, code) => {
            if id == ID_SEND && code == 0 {
                if thinking {
                    InputAction::Cancel
                } else {
                    InputAction::Send
                }
            } else {
                InputAction::Nothing
            }
        },
        InputEvent::Key(vk, shift) => {
            if vk == VK_RETURN && !shift {
                InputAction::Send
            } else if vk == VK_ESCAPE {
                InputAction::Hide
            } else {
                InputAction::Default
            }
        },
        InputEvent::TrayMouse(m) => {
            if m == TRAY_LEFT_UP || m == TRAY_LEFT_DOUBLE {
                InputAction::Focus
            } else if m == TRAY_RIGHT_UP {
                InputAction::ShowTrayMenu
            } else {
                InputAction::Nothing
            }
        },
        InputEvent::TrayCommand(cmd) => {
            if cmd == CMD_OPEN {
                InputAction::Focus
            } else if cmd == CMD_CLEAR {
                InputAction::ClearConversation
            } else if cmd == CMD_MEMORY_MGMT {
                InputAction::OpenMemory
            } else if cmd >= CMD_PERSONA_BASE {
                if cmd - CMD_PERSONA_BASE < personas {
                    InputAction::SwitchPersona(cmd - CMD_PERSONA_BASE)
                } else {
                    InputAction::Nothing
                }
            } else if cmd == CMD_AUTOSTART {
                InputAction::ToggleAutostart
            } else if cmd == CMD_EXIT {
                InputAction::Exit
            } else {
                InputAction::Nothing
            }
        },
        InputEvent::Close => InputAction::Hide,
    }
}

/// Enter sends the text, Shift+Enter is a line break, Escape
/// and the close button hide the window without ending the agent, and the
/// send button stops a request in flight instead of sending another.
pub proof fn lemma_keys_and_buttons(thinking: bool, personas: nat)
    ensures
        spec_input_action(InputEvent::Key(VK_RETURN, false), thinking, personas)
            == InputAction::Send,
        spec_input_action(InputEvent::Key(VK_RETURN, true), thinking, personas)
            == InputAction::Default,
        spec_input_action(InputEvent::Key(VK_ESCAPE, false), thinking, personas)
            == InputAction::Hide,
        spec_input_action(InputEvent::Close, thinking, personas) == InputAction::Hide,
        thinking ==> spec_input_action(InputEvent::Command(ID_SEND, 0), thinking, personas)
            == InputAction::Cancel,
        !thinking ==> spec_input_action(InputEvent::Command(ID_SEND, 0), thinking, personas)
            == InputAction::Send,
{
}

/// The tray menu opens the input window, clears the conversation, toggles
/// starting with the system and exits; a persona entry switches to the
/// persona it lists.
pub proof fn lemma_tray_menu(thinking: bool, personas: nat, i: nat)
    requires
        i < personas,
        CMD_PERSONA_BASE + i <= usize::MAX,
    ensures
        spec_input_action(InputEvent::TrayCommand(CMD_OPEN), thinking, personas)
            == InputAction::Focus,
        spec_input_action(InputEvent::TrayCommand(CMD_CLEAR), thinking, personas)
            == InputAction::ClearConversation,
        spec_input_action(InputEvent::TrayCommand(CMD_AUTOSTART), thinking, personas)
            == InputAction::ToggleAutostart,
        spec_input_action(InputEvent::TrayCommand(CMD_EXIT), thinking, personas)
            == InputAction::Exit,
        spec_input_action(
            InputEvent::TrayCommand((CMD_PERSONA_BASE + i) as usize),
            thinking,
            personas,
        ) == InputAction::SwitchPersona(i as usize),
{
}

} // verus!
