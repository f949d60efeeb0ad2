use vstd::prelude::*;

verus! {

/// The keysym of the Escape key.
pub const KEY_ESCAPE: u32 = 0xff1b;

/// The keysym of the `a` key.
pub const KEY_A: u32 = 0x61;

/// The keysym of the `c` key.
pub const KEY_C: u32 = 0x63;

/// The keysym of the `d` key.
pub const KEY_D: u32 = 0x64;

/// The keysym that switches to the first virtual terminal.
pub const KEY_SWITCH_VT_1: u32 = 0x1008fe01;

/// The keysym that switches to the twelfth virtual terminal.
pub const KEY_SWITCH_VT_12: u32 = 0x1008fe0c;

/// Key repetition, in keys per second.
#[derive(Debug, Clone, Copy, PartialEq, Eq)]
pub struct RepeatRate(pub u32);

impl Default for RepeatRate {
    fn default() -> (r: RepeatRate)
        ensures
            r.0 == 33,
    {
        RepeatRate(33)
    }
}

/// The wait before a held key repeats, in milliseconds.
#[derive(Debug, Clone, Copy, PartialEq, Eq)]
pub struct RepeatDelay(pub u32);

impl Default for RepeatDelay {
    fn default() -> (r: RepeatDelay)
        ensures
            r.0 == 500,
    {
        RepeatDelay(500)
    }
}

/// Keyboard settings: the keymap names and repetition.
#[derive(Debug, Clone, PartialEq, Eq)]
pub struct KeyboardConfig {
    pub xkb_rules: String,
    pub xkb_model: String,
    pub xkb_layout: String,
    pub xkb_variant: String,
    pub xkb_options: Option<String>,
    pub repeat_rate: RepeatRate,
    pub repeat_delay: RepeatDelay,
}

/// What a key binding of the floating policy asks for.
#[derive(Debug, Clone, Copy, PartialEq, Eq, Structural)]
pub enum KeyAction {
    /// Ask the focused window's client to close it.
    CloseFocused,
    /// Keep the output configuration under test.
    ApplyPendingTest,
    /// Revert the output configuration under test.
    CancelPendingTest,
    /// Print the windows.
    ListWindows,
}

/// The binding a key press triggers: Ctrl+Escape closes the focused
/// window, Ctrl+A and Ctrl+C apply or cancel an output test when one is
/// pending, Ctrl+Alt+D lists the windows. Key releases trigger nothing.
pub open spec fn binding(keysym: u32, pressed: bool, ctrl: bool, alt: bool, pending_test: bool) -> Option<KeyAction> {
    if !pressed {
        None
    } else if keysym == KEY_ESCAPE && ctrl {
        Some(KeyAction::CloseFocused)
    } else if keysym == KEY_A && ctrl && pending_test {
        Some(KeyAction::ApplyPendingTest)
    } else if keysym == KEY_C && ctrl && pending_test {
        Some(KeyAction::CancelPendingTest)
    } else if keysym == KEY_D && ctrl && alt {
        Some(KeyAction::ListWindows)
    } else {
        None
    }
}

/// The binding a key event triggers, if any; the event is consumed
/// exactly when there is one.
pub fn key_binding(keysym: u32, pressed: bool, ctrl: bool, alt: bool, pending_test: bool) -> (r: Option<KeyAction>)
    ensures
        r == binding(keysym, pressed, ctrl, alt, pending_test),
{
    if !pressed {
        None
    } else if keysym == KEY_ESCAPE && ctrl {
        Some(KeyAction::CloseFocused)
    } else if keysym == KEY_A && ctrl && pending_test {
        Some(KeyAction::ApplyPendingTest)
    } else if keysym == KEY_C && ctrl && pending_test {
        Some(KeyAction::CancelPendingTest)
    } else if keysym == KEY_D && ctrl && alt {
        Some(KeyAction::ListWindows)
    } else {
        None
    }
}

/// Switches virtual terminals on the XF86Switch_VT keys.
#[derive(Debug, Clone, Copy, PartialEq, Eq)]
pub struct VtSwitchEventFilter {
    /// Whether the backend runs in a session that can switch terminals.
    pub has_session: bool,
}

impl VtSwitchEventFilter {
    pub fn new(has_session: bool) -> (r: VtSwitchEventFilter)
        ensures
            r.has_session == has_session,
    {
        VtSwitchEventFilter { has_session }
    }

    /// Consumes the switch keys: returns `Some` with the terminal to switch
    /// to, numbered from one, and nothing for other keys. Without a session
    /// the key is consumed and no terminal is named.
    pub fn handle_keyboard_event(&self, keysym: u32) -> (r: Option<Option<u32>>)
        ensures
            r is Some <==> KEY_SWITCH_VT_1 <= keysym <= KEY_SWITCH_VT_12,
            r matches Some(vt) ==> vt == (if self.has_session {
                Some((keysym - KEY_SWITCH_VT_1 + 1) as u32)
            } else {
                None
            }),
    {
        if KEY_SWITCH_VT_1 <= keysym && keysym <= KEY_SWITCH_VT_12 {
            if self.has_session {
                Some(Some(keysym - KEY_SWITCH_VT_1 + 1))
            } else {
                Some(None)
            }
        } else {
            None
        }
    }
}

} // verus!
