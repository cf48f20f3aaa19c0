//! What the keyboard handler decides before a key reaches the spaces.

use vstd::prelude::*;

verus! {

/// The first of the key codes of the function keys.
pub const KEY_F1: u32 = 59;

/// How many function keys switch the virtual terminal.
pub const TERMINAL_KEYS: u32 = 7;

/// The key code of the escape key.
pub const KEY_ESCAPE: u32 = 1;

/// What a key asks of the shell itself.
#[derive(Clone, Copy, Debug, PartialEq, Eq, Structural)]
pub struct KeyCommand {
    /// The virtual terminal to switch to.
    pub terminal: Option<u32>,
    /// The shell is to quit at once. The key goes no further.
    pub quit: bool,
}

/// The keyboard handler: which of the shell's own chords are held.
#[derive(Clone, Copy, Debug, PartialEq, Eq, Structural)]
pub struct SfKeyboardHandler {
    pub ctrl_alt_pressed: bool,
    pub ctrl_shift_opt_pressed: bool,
}

impl SfKeyboardHandler {
    /// What the key with the code `keycode` asks of the shell: with control
    /// and alt held, the function keys from the first to the seventh switch
    /// to the virtual terminals 1 to 7; with shift held as well, escape
    /// quits.
    pub open spec fn command(self, keycode: u32) -> KeyCommand {
        KeyCommand {
            terminal: if self.ctrl_alt_pressed && KEY_F1 <= keycode < KEY_F1 + TERMINAL_KEYS {
                Some((keycode - (KEY_F1 - 1)) as u32)
            } else {
                None
            },
            quit: self.ctrl_shift_opt_pressed && keycode == KEY_ESCAPE,
        }
    }

    /// A handler with no modifier held.
    pub fn new() -> (handler: SfKeyboardHandler)
        ensures
            handler == (SfKeyboardHandler {
                ctrl_alt_pressed: false,
                ctrl_shift_opt_pressed: false,
            }),
    {
        SfKeyboardHandler { ctrl_alt_pressed: false, ctrl_shift_opt_pressed: false }
    }

    /// Records which modifiers are held now.
    pub fn modifiers(&mut self, alt: bool, ctrl: bool, shift: bool)
        ensures
            *final(self) == (SfKeyboardHandler {
                ctrl_alt_pressed: alt && ctrl,
                ctrl_shift_opt_pressed: alt && ctrl && shift,
            }),
    {
        self.ctrl_alt_pressed = alt && ctrl;
        self.ctrl_shift_opt_pressed = alt && ctrl && shift;
    }

    /// What a key asks of the shell itself, before it is routed.
    pub fn on_key(&self, keycode: u32) -> (command: KeyCommand)
        ensures
            command == self.command(keycode),
    {
        let terminal: Option<u32> = if self.ctrl_alt_pressed && keycode >= KEY_F1 && keycode
            < KEY_F1 + TERMINAL_KEYS {
            Some(keycode - (KEY_F1 - 1))
        } else {
            None
        };
        KeyCommand { terminal, quit: self.ctrl_shift_opt_pressed && keycode == KEY_ESCAPE }
    }
}

} // verus!
