//! The symbol table of supported physical keys and input flags: virtual-key
//! identifiers, their numeric codes and textual names, and the flag bits that
//! qualify synthetic keyboard and mouse inputs.

use vstd::prelude::*;
use vstd::string::StringExecFns;

verus! {

/// A virtual-key identifier for a physical key or mouse button, resolved
/// from textual script tokens.
#[derive(Copy, Clone, Debug, PartialEq, Eq, Hash, Structural)]
#[allow(non_camel_case_types)]
pub enum KeyCode {
    VK_NONE,
    VK_LBUTTON,
    VK_RBUTTON,
    VK_CANCEL,
    VK_MBUTTON,
    VK_XBUTTON1,
    VK_XBUTTON2,
    VK_BACK,
    VK_TAB,
    VK_CLEAR,
    VK_RETURN,
    VK_SHIFT,
    VK_CONTROL,
    VK_MENU,
    VK_PAUSE,
    VK_CAPITAL,
    VK_ESCAPE,
    VK_CONVERT,
    VK_NONCONVERT,
    VK_ACCEPT,
    VK_MODECHANGE,
    VK_SPACE,
    VK_PRIOR,
    VK_NEXT,
    VK_END,
    VK_HOME,
    VK_LEFT,
    VK_UP,
    VK_RIGHT,
    VK_DOWN,
    VK_SELECT,
    VK_PRINT,
    VK_EXECUTE,
    VK_SNAPSHOT,
    VK_INSERT,
    VK_DELETE,
    VK_HELP,
    VK_0,
    VK_1,
    VK_2,
    VK_3,
    VK_4,
    VK_5,
    VK_6,
    VK_7,
    VK_8,
    VK_9,
    VK_A,
    VK_B,
    VK_C,
    VK_D,
    VK_E,
    VK_F,
    VK_G,
    VK_H,
    VK_I,
    VK_J,
    VK_K,
    VK_L,
    VK_M,
    VK_N,
    VK_O,
    VK_P,
    VK_Q,
    VK_R,
    VK_S,
    VK_T,
    VK_U,
    VK_V,
    VK_W,
    VK_X,
    VK_Y,
    VK_Z,
    VK_LWIN,
    VK_RWIN,
    VK_APPS,
    VK_SLEEP,
    VK_NUMPAD0,
    VK_NUMPAD1,
    VK_NUMPAD2,
    VK_NUMPAD3,
    VK_NUMPAD4,
    VK_NUMPAD5,
    VK_NUMPAD6,
    VK_NUMPAD7,
    VK_NUMPAD8,
    VK_NUMPAD9,
    VK_MULTIPLY,
    VK_ADD,
    VK_SEPARATOR,
    VK_SUBTRACT,
    VK_DECIMAL,
    VK_DIVIDE,
    VK_F1,
    VK_F2,
    VK_F3,
    VK_F4,
    VK_F5,
    VK_F6,
    VK_F7,
    VK_F8,
    VK_F9,
    VK_F10,
    VK_F11,
    VK_F12,
    VK_F13,
    VK_F14,
    VK_F15,
    VK_F16,
    VK_F17,
    VK_F18,
    VK_F19,
    VK_F20,
    VK_F21,
    VK_F22,
    VK_F23,
    VK_F24,
    VK_NUMLOCK,
    VK_SCROLL,
    VK_LSHIFT,
    VK_RSHIFT,
    VK_LCONTROL,
    VK_RCONTROL,
    VK_LMENU,
    VK_RMENU,
    VK_BROWSER_BACK,
    VK_BROWSER_FORWARD,
    VK_BROWSER_REFRESH,
    VK_BROWSER_STOP,
    VK_BROWSER_SEARCH,
    VK_BROWSER_FAVORITES,
    VK_BROWSER_HOME,
    VK_VOLUME_MUTE,
    VK_VOLUME_DOWN,
    VK_VOLUME_UP,
    VK_MEDIA_NEXT_TRACK,
    VK_MEDIA_PREV_TRACK,
    VK_MEDIA_STOP,
    VK_MEDIA_PLAY_PAUSE,
    VK_LAUNCH_MAIL,
    VK_LAUNCH_MEDIA_SELECT,
    VK_LAUNCH_APP1,
    VK_LAUNCH_APP2,
    VK_OEM_1,
    VK_OEM_PLUS,
    VK_OEM_COMMA,
    VK_OEM_MINUS,
    VK_OEM_PERIOD,
    VK_OEM_2,
    VK_OEM_3,
    VK_OEM_4,
    VK_OEM_5,
    VK_OEM_6,
    VK_OEM_7,
    VK_OEM_8,
    VK_OEM_102,
    VK_PROCESSKEY,
    VK_PACKET,
    VK_ATTN,
    VK_CRSEL,
    VK_EXSEL,
    VK_EREOF,
    VK_PLAY,
    VK_ZOOM,
    VK_NONAME,
    VK_PA1,
    VK_OEM_CLEAR,
}

impl KeyCode {
    /// The numeric virtual-key code this identifier stands for.
    pub open spec fn spec_code(self) -> u32 {
        match self {
            KeyCode::VK_NONE => 0x00,
            KeyCode::VK_LBUTTON => 0x01,
            KeyCode::VK_RBUTTON => 0x02,
            KeyCode::VK_CANCEL => 0x03,
            KeyCode::VK_MBUTTON => 0x04,
            KeyCode::VK_XBUTTON1 => 0x05,
            KeyCode::VK_XBUTTON2 => 0x06,
            KeyCode::VK_BACK => 0x08,
            KeyCode::VK_TAB => 0x09,
            KeyCode::VK_CLEAR => 0x0C,
            KeyCode::VK_RETURN => 0x0D,
            KeyCode::VK_SHIFT => 0x10,
            KeyCode::VK_CONTROL => 0x11,
            KeyCode::VK_MENU => 0x12,
            KeyCode::VK_PAUSE => 0x13,
            KeyCode::VK_CAPITAL => 0x14,
            KeyCode::VK_ESCAPE => 0x1B,
            KeyCode::VK_CONVERT => 0x1C,
            KeyCode::VK_NONCONVERT => 0x1D,
            KeyCode::VK_ACCEPT => 0x1E,
            KeyCode::VK_MODECHANGE => 0x1F,
            KeyCode::VK_SPACE => 0x20,
            KeyCode::VK_PRIOR => 0x21,
            KeyCode::VK_NEXT => 0x22,
            KeyCode::VK_END => 0x23,
            KeyCode::VK_HOME => 0x24,
            KeyCode::VK_LEFT => 0x25,
            KeyCode::VK_UP => 0x26,
            KeyCode::VK_RIGHT => 0x27,
            KeyCode::VK_DOWN => 0x28,
            KeyCode::VK_SELECT => 0x29,
            KeyCode::VK_PRINT => 0x2A,
            KeyCode::VK_EXECUTE => 0x2B,
            KeyCode::VK_SNAPSHOT => 0x2C,
            KeyCode::VK_INSERT => 0x2D,
            KeyCode::VK_DELETE => 0x2E,
            KeyCode::VK_HELP => 0x2F,
            KeyCode::VK_0 => 0x30,
            KeyCode::VK_1 => 0x31,
            KeyCode::VK_2 => 0x32,
            KeyCode::VK_3 => 0x33,
            KeyCode::VK_4 => 0x34,
            KeyCode::VK_5 => 0x35,
            KeyCode::VK_6 => 0x36,
            KeyCode::VK_7 => 0x37,
            KeyCode::VK_8 => 0x38,
            KeyCode::VK_9 => 0x39,
            KeyCode::VK_A => 0x41,
            KeyCode::VK_B => 0x42,
            KeyCode::VK_C => 0x43,
            KeyCode::VK_D => 0x44,
            KeyCode::VK_E => 0x45,
            KeyCode::VK_F => 0x46,
            KeyCode::VK_G => 0x47,
            KeyCode::VK_H => 0x48,
            KeyCode::VK_I => 0x49,
            KeyCode::VK_J => 0x4A,
            KeyCode::VK_K => 0x4B,
            KeyCode::VK_L => 0x4C,
            KeyCode::VK_M => 0x4D,
            KeyCode::VK_N => 0x4E,
            KeyCode::VK_O => 0x4F,
            KeyCode::VK_P => 0x50,
            KeyCode::VK_Q => 0x51,
            KeyCode::VK_R => 0x52,
            KeyCode::VK_S => 0x53,
            KeyCode::VK_T => 0x54,
            KeyCode::VK_U => 0x55,
            KeyCode::VK_V => 0x56,
            KeyCode::VK_W => 0x57,
            KeyCode::VK_X => 0x58,
            KeyCode::VK_Y => 0x59,
            KeyCode::VK_Z => 0x5A,
            KeyCode::VK_LWIN => 0x5B,
            KeyCode::VK_RWIN => 0x5C,
            KeyCode::VK_APPS => 0x5D,
            KeyCode::VK_SLEEP => 0x5F,
            KeyCode::VK_NUMPAD0 => 0x60,
            KeyCode::VK_NUMPAD1 => 0x61,
            KeyCode::VK_NUMPAD2 => 0x62,
            KeyCode::VK_NUMPAD3 => 0x63,
            KeyCode::VK_NUMPAD4 => 0x64,
            KeyCode::VK_NUMPAD5 => 0x65,
            KeyCode::VK_NUMPAD6 => 0x66,
            KeyCode::VK_NUMPAD7 => 0x67,
            KeyCode::VK_NUMPAD8 => 0x68,
            KeyCode::VK_NUMPAD9 => 0x69,
            KeyCode::VK_MULTIPLY => 0x6A,
            KeyCode::VK_ADD => 0x6B,
            KeyCode::VK_SEPARATOR => 0x6C,
            KeyCode::VK_SUBTRACT => 0x6D,
            KeyCode::VK_DECIMAL => 0x6E,
            KeyCode::VK_DIVIDE => 0x6F,
            KeyCode::VK_F1 => 0x70,
            KeyCode::VK_F2 => 0x71,
            KeyCode::VK_F3 => 0x72,
            KeyCode::VK_F4 => 0x73,
            KeyCode::VK_F5 => 0x74,
            KeyCode::VK_F6 => 0x75,
            KeyCode::VK_F7 => 0x76,
            KeyCode::VK_F8 => 0x77,
            KeyCode::VK_F9 => 0x78,
            KeyCode::VK_F10 => 0x79,
            KeyCode::VK_F11 => 0x7A,
            KeyCode::VK_F12 => 0x7B,
            KeyCode::VK_F13 => 0x7C,
            KeyCode::VK_F14 => 0x7D,
            KeyCode::VK_F15 => 0x7E,
            KeyCode::VK_F16 => 0x7F,
            KeyCode::VK_F17 => 0x80,
            KeyCode::VK_F18 => 0x81,
            KeyCode::VK_F19 => 0x82,
            KeyCode::VK_F20 => 0x83,
            KeyCode::VK_F21 => 0x84,
            KeyCode::VK_F22 => 0x85,
            KeyCode::VK_F23 => 0x86,
            KeyCode::VK_F24 => 0x87,
            KeyCode::VK_NUMLOCK => 0x90,
            KeyCode::VK_SCROLL => 0x91,
            KeyCode::VK_LSHIFT => 0xA0,
            KeyCode::VK_RSHIFT => 0xA1,
            KeyCode::VK_LCONTROL => 0xA2,
            KeyCode::VK_RCONTROL => 0xA3,
            KeyCode::VK_LMENU => 0xA4,
            KeyCode::VK_RMENU => 0xA5,
            KeyCode::VK_BROWSER_BACK => 0xA6,
            KeyCode::VK_BROWSER_FORWARD => 0xA7,
            KeyCode::VK_BROWSER_REFRESH => 0xA8,
            KeyCode::VK_BROWSER_STOP => 0xA9,
            KeyCode::VK_BROWSER_SEARCH => 0xAA,
            KeyCode::VK_BROWSER_FAVORITES => 0xAB,
            KeyCode::VK_BROWSER_HOME => 0xAC,
            KeyCode::VK_VOLUME_MUTE => 0xAD,
            KeyCode::VK_VOLUME_DOWN => 0xAE,
            KeyCode::VK_VOLUME_UP => 0xAF,
            KeyCode::VK_MEDIA_NEXT_TRACK => 0xB0,
            KeyCode::VK_MEDIA_PREV_TRACK => 0xB1,
            KeyCode::VK_MEDIA_STOP => 0xB2,
            KeyCode::VK_MEDIA_PLAY_PAUSE => 0xB3,
            KeyCode::VK_LAUNCH_MAIL => 0xB4,
            KeyCode::VK_LAUNCH_MEDIA_SELECT => 0xB5,
            KeyCode::VK_LAUNCH_APP1 => 0xB6,
            KeyCode::VK_LAUNCH_APP2 => 0xB7,
            KeyCode::VK_OEM_1 => 0xBA,
            KeyCode::VK_OEM_PLUS => 0xBB,
            KeyCode::VK_OEM_COMMA => 0xBC,
            KeyCode::VK_OEM_MINUS => 0xBD,
            KeyCode::VK_OEM_PERIOD => 0xBE,
            KeyCode::VK_OEM_2 => 0xBF,
            KeyCode::VK_OEM_3 => 0xC0,
            KeyCode::VK_OEM_4 => 0xDB,
            KeyCode::VK_OEM_5 => 0xDC,
            KeyCode::VK_OEM_6 => 0xDD,
            KeyCode::VK_OEM_7 => 0xDE,
            KeyCode::VK_OEM_8 => 0xDF,
            KeyCode::VK_OEM_102 => 0xE2,
            KeyCode::VK_PROCESSKEY => 0xE5,
            KeyCode::VK_PACKET => 0xE7,
            KeyCode::VK_ATTN => 0xF6,
            KeyCode::VK_CRSEL => 0xF7,
            KeyCode::VK_EXSEL => 0xF8,
            KeyCode::VK_EREOF => 0xF9,
            KeyCode::VK_PLAY => 0xFA,
            KeyCode::VK_ZOOM => 0xFB,
            KeyCode::VK_NONAME => 0xFC,
            KeyCode::VK_PA1 => 0xFD,
            KeyCode::VK_OEM_CLEAR => 0xFE,
        }
    }

    /// The numeric virtual-key code this identifier stands for.
    pub fn code(self) -> (r: u32)
        ensures
            r == self.spec_code(),
    {
        match self {
            KeyCode::VK_NONE => 0x00,
            KeyCode::VK_LBUTTON => 0x01,
            KeyCode::VK_RBUTTON => 0x02,
            KeyCode::VK_CANCEL => 0x03,
            KeyCode::VK_MBUTTON => 0x04,
            KeyCode::VK_XBUTTON1 => 0x05,
            KeyCode::VK_XBUTTON2 => 0x06,
            KeyCode::VK_BACK => 0x08,
            KeyCode::VK_TAB => 0x09,
            KeyCode::VK_CLEAR => 0x0C,
            KeyCode::VK_RETURN => 0x0D,
            KeyCode::VK_SHIFT => 0x10,
            KeyCode::VK_CONTROL => 0x11,
            KeyCode::VK_MENU => 0x12,
            KeyCode::VK_PAUSE => 0x13,
            KeyCode::VK_CAPITAL => 0x14,
            KeyCode::VK_ESCAPE => 0x1B,
            KeyCode::VK_CONVERT => 0x1C,
            KeyCode::VK_NONCONVERT => 0x1D,
            KeyCode::VK_ACCEPT => 0x1E,
            KeyCode::VK_MODECHANGE => 0x1F,
            KeyCode::VK_SPACE => 0x20,
            KeyCode::VK_PRIOR => 0x21,
            KeyCode::VK_NEXT => 0x22,
            KeyCode::VK_END => 0x23,
            KeyCode::VK_HOME => 0x24,
            KeyCode::VK_LEFT => 0x25,
            KeyCode::VK_UP => 0x26,
            KeyCode::VK_RIGHT => 0x27,
            KeyCode::VK_DOWN => 0x28,
            KeyCode::VK_SELECT => 0x29,
            KeyCode::VK_PRINT => 0x2A,
            KeyCode::VK_EXECUTE => 0x2B,
            KeyCode::VK_SNAPSHOT => 0x2C,
            KeyCode::VK_INSERT => 0x2D,
            KeyCode::VK_DELETE => 0x2E,
            KeyCode::VK_HELP => 0x2F,
            KeyCode::VK_0 => 0x30,
            KeyCode::VK_1 => 0x31,
            KeyCode::VK_2 => 0x32,
            KeyCode::VK_3 => 0x33,
            KeyCode::VK_4 => 0x34,
            KeyCode::VK_5 => 0x35,
            KeyCode::VK_6 => 0x36,
            KeyCode::VK_7 => 0x37,
            KeyCode::VK_8 => 0x38,
            KeyCode::VK_9 => 0x39,
            KeyCode::VK_A => 0x41,
            KeyCode::VK_B => 0x42,
            KeyCode::VK_C => 0x43,
            KeyCode::VK_D => 0x44,
            KeyCode::VK_E => 0x45,
            KeyCode::VK_F => 0x46,
            KeyCode::VK_G => 0x47,
            KeyCode::VK_H => 0x48,
            KeyCode::VK_I => 0x49,
            KeyCode::VK_J => 0x4A,
            KeyCode::VK_K => 0x4B,
            KeyCode::VK_L => 0x4C,
            KeyCode::VK_M => 0x4D,
            KeyCode::VK_N => 0x4E,
            KeyCode::VK_O => 0x4F,
            KeyCode::VK_P => 0x50,
            KeyCode::VK_Q => 0x51,
            KeyCode::VK_R => 0x52,
            KeyCode::VK_S => 0x53,
            KeyCode::VK_T => 0x54,
            KeyCode::VK_U => 0x55,
            KeyCode::VK_V => 0x56,
            KeyCode::VK_W => 0x57,
            KeyCode::VK_X => 0x58,
            KeyCode::VK_Y => 0x59,
            KeyCode::VK_Z => 0x5A,
            KeyCode::VK_LWIN => 0x5B,
            KeyCode::VK_RWIN => 0x5C,
            KeyCode::VK_APPS => 0x5D,
            KeyCode::VK_SLEEP => 0x5F,
            KeyCode::VK_NUMPAD0 => 0x60,
            KeyCode::VK_NUMPAD1 => 0x61,
            KeyCode::VK_NUMPAD2 => 0x62,
            KeyCode::VK_NUMPAD3 => 0x63,
            KeyCode::VK_NUMPAD4 => 0x64,
            KeyCode::VK_NUMPAD5 => 0x65,
            KeyCode::VK_NUMPAD6 => 0x66,
            KeyCode::VK_NUMPAD7 => 0x67,
            KeyCode::VK_NUMPAD8 => 0x68,
            KeyCode::VK_NUMPAD9 => 0x69,
            KeyCode::VK_MULTIPLY => 0x6A,
            KeyCode::VK_ADD => 0x6B,
            KeyCode::VK_SEPARATOR => 0x6C,
            KeyCode::VK_SUBTRACT => 0x6D,
            KeyCode::VK_DECIMAL => 0x6E,
            KeyCode::VK_DIVIDE => 0x6F,
            KeyCode::VK_F1 => 0x70,
            KeyCode::VK_F2 => 0x71,
            KeyCode::VK_F3 => 0x72,
            KeyCode::VK_F4 => 0x73,
            KeyCode::VK_F5 => 0x74,
            KeyCode::VK_F6 => 0x75,
            KeyCode::VK_F7 => 0x76,
            KeyCode::VK_F8 => 0x77,
            KeyCode::VK_F9 => 0x78,
            KeyCode::VK_F10 => 0x79,
            KeyCode::VK_F11 => 0x7A,
            KeyCode::VK_F12 => 0x7B,
            KeyCode::VK_F13 => 0x7C,
            KeyCode::VK_F14 => 0x7D,
            KeyCode::VK_F15 => 0x7E,
            KeyCode::VK_F16 => 0x7F,
            KeyCode::VK_F17 => 0x80,
            KeyCode::VK_F18 => 0x81,
            KeyCode::VK_F19 => 0x82,
            KeyCode::VK_F20 => 0x83,
            KeyCode::VK_F21 => 0x84,
            KeyCode::VK_F22 => 0x85,
            KeyCode::VK_F23 => 0x86,
            KeyCode::VK_F24 => 0x87,
            KeyCode::VK_NUMLOCK => 0x90,
            KeyCode::VK_SCROLL => 0x91,
            KeyCode::VK_LSHIFT => 0xA0,
            KeyCode::VK_RSHIFT => 0xA1,
            KeyCode::VK_LCONTROL => 0xA2,
            KeyCode::VK_RCONTROL => 0xA3,
            KeyCode::VK_LMENU => 0xA4,
            KeyCode::VK_RMENU => 0xA5,
            KeyCode::VK_BROWSER_BACK => 0xA6,
            KeyCode::VK_BROWSER_FORWARD => 0xA7,
            KeyCode::VK_BROWSER_REFRESH => 0xA8,
            KeyCode::VK_BROWSER_STOP => 0xA9,
            KeyCode::VK_BROWSER_SEARCH => 0xAA,
            KeyCode::VK_BROWSER_FAVORITES => 0xAB,
            KeyCode::VK_BROWSER_HOME => 0xAC,
            KeyCode::VK_VOLUME_MUTE => 0xAD,
            KeyCode::VK_VOLUME_DOWN => 0xAE,
            KeyCode::VK_VOLUME_UP => 0xAF,
            KeyCode::VK_MEDIA_NEXT_TRACK => 0xB0,
            KeyCode::VK_MEDIA_PREV_TRACK => 0xB1,
            KeyCode::VK_MEDIA_STOP => 0xB2,
            KeyCode::VK_MEDIA_PLAY_PAUSE => 0xB3,
            KeyCode::VK_LAUNCH_MAIL => 0xB4,
            KeyCode::VK_LAUNCH_MEDIA_SELECT => 0xB5,
            KeyCode::VK_LAUNCH_APP1 => 0xB6,
            KeyCode::VK_LAUNCH_APP2 => 0xB7,
            KeyCode::VK_OEM_1 => 0xBA,
            KeyCode::VK_OEM_PLUS => 0xBB,
            KeyCode::VK_OEM_COMMA => 0xBC,
            KeyCode::VK_OEM_MINUS => 0xBD,
            KeyCode::VK_OEM_PERIOD => 0xBE,
            KeyCode::VK_OEM_2 => 0xBF,
            KeyCode::VK_OEM_3 => 0xC0,
            KeyCode::VK_OEM_4 => 0xDB,
            KeyCode::VK_OEM_5 => 0xDC,
            KeyCode::VK_OEM_6 => 0xDD,
            KeyCode::VK_OEM_7 => 0xDE,
            KeyCode::VK_OEM_8 => 0xDF,
            KeyCode::VK_OEM_102 => 0xE2,
            KeyCode::VK_PROCESSKEY => 0xE5,
            KeyCode::VK_PACKET => 0xE7,
            KeyCode::VK_ATTN => 0xF6,
            KeyCode::VK_CRSEL => 0xF7,
            KeyCode::VK_EXSEL => 0xF8,
            KeyCode::VK_EREOF => 0xF9,
            KeyCode::VK_PLAY => 0xFA,
            KeyCode::VK_ZOOM => 0xFB,
            KeyCode::VK_NONAME => 0xFC,
            KeyCode::VK_PA1 => 0xFD,
            KeyCode::VK_OEM_CLEAR => 0xFE,
        }
    }

    /// The key identifier for a numeric virtual-key code; codes that stand
    /// for no supported key give `VK_NONE`.
    pub open spec fn spec_from_code(code: u32) -> KeyCode {
        if code == 0x01 {
            KeyCode::VK_LBUTTON
        } else if code == 0x02 {
            KeyCode::VK_RBUTTON
        } else if code == 0x03 {
            KeyCode::VK_CANCEL
        } else if code == 0x04 {
            KeyCode::VK_MBUTTON
        } else if code == 0x05 {
            KeyCode::VK_XBUTTON1
        } else if code == 0x06 {
            KeyCode::VK_XBUTTON2
        } else if code == 0x08 {
            KeyCode::VK_BACK
        } else if code == 0x09 {
            KeyCode::VK_TAB
        } else if code == 0x0C {
            KeyCode::VK_CLEAR
        } else if code == 0x0D {
            KeyCode::VK_RETURN
        } else if code == 0x10 {
            KeyCode::VK_SHIFT
        } else if code == 0x11 {
            KeyCode::VK_CONTROL
        } else if code == 0x12 {
            KeyCode::VK_MENU
        } else if code == 0x13 {
            KeyCode::VK_PAUSE
        } else if code == 0x14 {
            KeyCode::VK_CAPITAL
        } else if code == 0x1B {
            KeyCode::VK_ESCAPE
        } else if code == 0x1C {
            KeyCode::VK_CONVERT
        } else if code == 0x1D {
            KeyCode::VK_NONCONVERT
        } else if code == 0x1E {
            KeyCode::VK_ACCEPT
        } else if code == 0x1F {
            KeyCode::VK_MODECHANGE
        } else if code == 0x20 {
            KeyCode::VK_SPACE
        } else if code == 0x21 {
            KeyCode::VK_PRIOR
        } else if code == 0x22 {
            KeyCode::VK_NEXT
        } else if code == 0x23 {
            KeyCode::VK_END
        } else if code == 0x24 {
            KeyCode::VK_HOME
        } else if code == 0x25 {
            KeyCode::VK_LEFT
        } else if code == 0x26 {
            KeyCode::VK_UP
        } else if code == 0x27 {
            KeyCode::VK_RIGHT
        } else if code == 0x28 {
            KeyCode::VK_DOWN
        } else if code == 0x29 {
            KeyCode::VK_SELECT
        } else if code == 0x2A {
            KeyCode::VK_PRINT
        } else if code == 0x2B {
            KeyCode::VK_EXECUTE
        } else if code == 0x2C {
            KeyCode::VK_SNAPSHOT
        } else if code == 0x2D {
            KeyCode::VK_INSERT
        } else if code == 0x2E {
            KeyCode::VK_DELETE
        } else if code == 0x2F {
            KeyCode::VK_HELP
        } else if code == 0x30 {
            KeyCode::VK_0
        } else if code == 0x31 {
            KeyCode::VK_1
        } else if code == 0x32 {
            KeyCode::VK_2
        } else if code == 0x33 {
            KeyCode::VK_3
        } else if code == 0x34 {
            KeyCode::VK_4
        } else if code == 0x35 {
            KeyCode::VK_5
        } else if code == 0x36 {
            KeyCode::VK_6
        } else if code == 0x37 {
            KeyCode::VK_7
        } else if code == 0x38 {
            KeyCode::VK_8
        } else if code == 0x39 {
            KeyCode::VK_9
        } else if code == 0x41 {
            KeyCode::VK_A
        } else if code == 0x42 {
            KeyCode::VK_B
        } else if code == 0x43 {
            KeyCode::VK_C
        } else if code == 0x44 {
            KeyCode::VK_D
        } else if code == 0x45 {
            KeyCode::VK_E
        } else if code == 0x46 {
            KeyCode::VK_F
        } else if code == 0x47 {
            KeyCode::VK_G
        } else if code == 0x48 {
            KeyCode::VK_H
        } else if code == 0x49 {
            KeyCode::VK_I
        } else if code == 0x4A {
            KeyCode::VK_J
        } else if code == 0x4B {
            KeyCode::VK_K
        } else if code == 0x4C {
            KeyCode::VK_L
        } else if code == 0x4D {
            KeyCode::VK_M
        } else if code == 0x4E {
            KeyCode::VK_N
        } else if code == 0x4F {
            KeyCode::VK_O
        } else if code == 0x50 {
            KeyCode::VK_P
        } else if code == 0x51 {
            KeyCode::VK_Q
        } else if code == 0x52 {
            KeyCode::VK_R
        } else if code == 0x53 {
            KeyCode::VK_S
        } else if code == 0x54 {
            KeyCode::VK_T
        } else if code == 0x55 {
            KeyCode::VK_U
        } else if code == 0x56 {
            KeyCode::VK_V
        } else if code == 0x57 {
            KeyCode::VK_W
        } else if code == 0x58 {
            KeyCode::VK_X
        } else if code == 0x59 {
            KeyCode::VK_Y
        } else if code == 0x5A {
            KeyCode::VK_Z
        } else if code == 0x5B {
            KeyCode::VK_LWIN
        } else if code == 0x5C {
            KeyCode::VK_RWIN
        } else if code == 0x5D {
            KeyCode::VK_APPS
        } else if code == 0x5F {
            KeyCode::VK_SLEEP
        } else if code == 0x60 {
            KeyCode::VK_NUMPAD0
        } else if code == 0x61 {
            KeyCode::VK_NUMPAD1
        } else if code == 0x62 {
            KeyCode::VK_NUMPAD2
        } else if code == 0x63 {
            KeyCode::VK_NUMPAD3
        } else if code == 0x64 {
            KeyCode::VK_NUMPAD4
        } else if code == 0x65 {
            KeyCode::VK_NUMPAD5
        } else if code == 0x66 {
            KeyCode::VK_NUMPAD6
        } else if code == 0x67 {
            KeyCode::VK_NUMPAD7
        } else if code == 0x68 {
            KeyCode::VK_NUMPAD8
        } else if code == 0x69 {
            KeyCode::VK_NUMPAD9
        } else if code == 0x6A {
            KeyCode::VK_MULTIPLY
        } else if code == 0x6B {
            KeyCode::VK_ADD
        } else if code == 0x6C {
            KeyCode::VK_SEPARATOR
        } else if code == 0x6D {
            KeyCode::VK_SUBTRACT
        } else if code == 0x6E {
            KeyCode::VK_DECIMAL
        } else if code == 0x6F {
            KeyCode::VK_DIVIDE
        } else if code == 0x70 {
            KeyCode::VK_F1
        } else if code == 0x71 {
            KeyCode::VK_F2
        } else if code == 0x72 {
            KeyCode::VK_F3
        } else if code == 0x73 {
            KeyCode::VK_F4
        } else if code == 0x74 {
            KeyCode::VK_F5
        } else if code == 0x75 {
            KeyCode::VK_F6
        } else if code == 0x76 {
            KeyCode::VK_F7
        } else if code == 0x77 {
            KeyCode::VK_F8
        } else if code == 0x78 {
            KeyCode::VK_F9
        } else if code == 0x79 {
            KeyCode::VK_F10
        } else if code == 0x7A {
            KeyCode::VK_F11
        } else if code == 0x7B {
            KeyCode::VK_F12
        } else if code == 0x7C {
            KeyCode::VK_F13
        } else if code == 0x7D {
            KeyCode::VK_F14
        } else if code == 0x7E {
            KeyCode::VK_F15
        } else if code == 0x7F {
            KeyCode::VK_F16
        } else if code == 0x80 {
            KeyCode::VK_F17
        } else if code == 0x81 {
            KeyCode::VK_F18
        } else if code == 0x82 {
            KeyCode::VK_F19
        } else if code == 0x83 {
            KeyCode::VK_F20
        } else if code == 0x84 {
            KeyCode::VK_F21
        } else if code == 0x85 {
            KeyCode::VK_F22
        } else if code == 0x86 {
            KeyCode::VK_F23
        } else if code == 0x87 {
            KeyCode::VK_F24
        } else if code == 0x90 {
            KeyCode::VK_NUMLOCK
        } else if code == 0x91 {
            KeyCode::VK_SCROLL
        } else if code == 0xA0 {
            KeyCode::VK_LSHIFT
        } else if code == 0xA1 {
            KeyCode::VK_RSHIFT
        } else if code == 0xA2 {
            KeyCode::VK_LCONTROL
        } else if code == 0xA3 {
            KeyCode::VK_RCONTROL
        } else if code == 0xA4 {
            KeyCode::VK_LMENU
        } else if code == 0xA5 {
            KeyCode::VK_RMENU
        } else if code == 0xA6 {
            KeyCode::VK_BROWSER_BACK
        } else if code == 0xA7 {
            KeyCode::VK_BROWSER_FORWARD
        } else if code == 0xA8 {
            KeyCode::VK_BROWSER_REFRESH
        } else if code == 0xA9 {
            KeyCode::VK_BROWSER_STOP
        } else if code == 0xAA {
            KeyCode::VK_BROWSER_SEARCH
        } else if code == 0xAB {
            KeyCode::VK_BROWSER_FAVORITES
        } else if code == 0xAC {
            KeyCode::VK_BROWSER_HOME
        } else if code == 0xAD {
            KeyCode::VK_VOLUME_MUTE
        } else if code == 0xAE {
            KeyCode::VK_VOLUME_DOWN
        } else if code == 0xAF {
            KeyCode::VK_VOLUME_UP
        } else if code == 0xB0 {
            KeyCode::VK_MEDIA_NEXT_TRACK
        } else if code == 0xB1 {
            KeyCode::VK_MEDIA_PREV_TRACK
        } else if code == 0xB2 {
            KeyCode::VK_MEDIA_STOP
        } else if code == 0xB3 {
            KeyCode::VK_MEDIA_PLAY_PAUSE
        } else if code == 0xB4 {
            KeyCode::VK_LAUNCH_MAIL
        } else if code == 0xB5 {
            KeyCode::VK_LAUNCH_MEDIA_SELECT
        } else if code == 0xB6 {
            KeyCode::VK_LAUNCH_APP1
        } else if code == 0xB7 {
            KeyCode::VK_LAUNCH_APP2
        } else if code == 0xBA {
            KeyCode::VK_OEM_1
        } else if code == 0xBB {
            KeyCode::VK_OEM_PLUS
        } else if code == 0xBC {
            KeyCode::VK_OEM_COMMA
        } else if code == 0xBD {
            KeyCode::VK_OEM_MINUS
        } else if code == 0xBE {
            KeyCode::VK_OEM_PERIOD
        } else if code == 0xBF {
            KeyCode::VK_OEM_2
        } else if code == 0xC0 {
            KeyCode::VK_OEM_3
        } else if code == 0xDB {
            KeyCode::VK_OEM_4
        } else if code == 0xDC {
            KeyCode::VK_OEM_5
        } else if code == 0xDD {
            KeyCode::VK_OEM_6
        } else if code == 0xDE {
            KeyCode::VK_OEM_7
        } else if code == 0xDF {
            KeyCode::VK_OEM_8
        } else if code == 0xE2 {
            KeyCode::VK_OEM_102
        } else if code == 0xE5 {
            KeyCode::VK_PROCESSKEY
        } else if code == 0xE7 {
            KeyCode::VK_PACKET
        } else if code == 0xF6 {
            KeyCode::VK_ATTN
        } else if code == 0xF7 {
            KeyCode::VK_CRSEL
        } else if code == 0xF8 {
            KeyCode::VK_EXSEL
        } else if code == 0xF9 {
            KeyCode::VK_EREOF
        } else if code == 0xFA {
            KeyCode::VK_PLAY
        } else if code == 0xFB {
            KeyCode::VK_ZOOM
        } else if code == 0xFC {
            KeyCode::VK_NONAME
        } else if code == 0xFD {
            KeyCode::VK_PA1
        } else if code == 0xFE {
            KeyCode::VK_OEM_CLEAR
        } else {
            KeyCode::VK_NONE
        }
    }

    /// The key identifier for a numeric virtual-key code; codes that stand
    /// for no supported key give `VK_NONE`.
    pub fn from_code(code: u32) -> (r: KeyCode)
        ensures
            r == Self::spec_from_code(code),
    {
        if code == 0x01 {
            KeyCode::VK_LBUTTON
        } else if code == 0x02 {
            KeyCode::VK_RBUTTON
        } else if code == 0x03 {
            KeyCode::VK_CANCEL
        } else if code == 0x04 {
            KeyCode::VK_MBUTTON
        } else if code == 0x05 {
            KeyCode::VK_XBUTTON1
        } else if code == 0x06 {
            KeyCode::VK_XBUTTON2
        } else if code == 0x08 {
            KeyCode::VK_BACK
        } else if code == 0x09 {
            KeyCode::VK_TAB
        } else if code == 0x0C {
            KeyCode::VK_CLEAR
        } else if code == 0x0D {
            KeyCode::VK_RETURN
        } else if code == 0x10 {
            KeyCode::VK_SHIFT
        } else if code == 0x11 {
            KeyCode::VK_CONTROL
        } else if code == 0x12 {
            KeyCode::VK_MENU
        } else if code == 0x13 {
            KeyCode::VK_PAUSE
        } else if code == 0x14 {
            KeyCode::VK_CAPITAL
        } else if code == 0x1B {
            KeyCode::VK_ESCAPE
        } else if code == 0x1C {
            KeyCode::VK_CONVERT
        } else if code == 0x1D {
            KeyCode::VK_NONCONVERT
        } else if code == 0x1E {
            KeyCode::VK_ACCEPT
        } else if code == 0x1F {
            KeyCode::VK_MODECHANGE
        } else if code == 0x20 {
            KeyCode::VK_SPACE
        } else if code == 0x21 {
            KeyCode::VK_PRIOR
        } else if code == 0x22 {
            KeyCode::VK_NEXT
        } else if code == 0x23 {
            KeyCode::VK_END
        } else if code == 0x24 {
            KeyCode::VK_HOME
        } else if code == 0x25 {
            KeyCode::VK_LEFT
        } else if code == 0x26 {
            KeyCode::VK_UP
        } else if code == 0x27 {
            KeyCode::VK_RIGHT
        } else if code == 0x28 {
            KeyCode::VK_DOWN
        } else if code == 0x29 {
            KeyCode::VK_SELECT
        } else if code == 0x2A {
            KeyCode::VK_PRINT
        } else if code == 0x2B {
            KeyCode::VK_EXECUTE
        } else if code == 0x2C {
            KeyCode::VK_SNAPSHOT
        } else if code == 0x2D {
            KeyCode::VK_INSERT
        } else if code == 0x2E {
            KeyCode::VK_DELETE
        } else if code == 0x2F {
            KeyCode::VK_HELP
        } else if code == 0x30 {
            KeyCode::VK_0
        } else if code == 0x31 {
            KeyCode::VK_1
        } else if code == 0x32 {
            KeyCode::VK_2
        } else if code == 0x33 {
            KeyCode::VK_3
        } else if code == 0x34 {
            KeyCode::VK_4
        } else if code == 0x35 {
            KeyCode::VK_5
        } else if code == 0x36 {
            KeyCode::VK_6
        } else if code == 0x37 {
            KeyCode::VK_7
        } else if code == 0x38 {
            KeyCode::VK_8
        } else if code == 0x39 {
            KeyCode::VK_9
        } else if code == 0x41 {
            KeyCode::VK_A
        } else if code == 0x42 {
            KeyCode::VK_B
        } else if code == 0x43 {
            KeyCode::VK_C
        } else if code == 0x44 {
            KeyCode::VK_D
        } else if code == 0x45 {
            KeyCode::VK_E
        } else if code == 0x46 {
            KeyCode::VK_F
        } else if code == 0x47 {
            KeyCode::VK_G
        } else if code == 0x48 {
            KeyCode::VK_H
        } else if code == 0x49 {
            KeyCode::VK_I
        } else if code == 0x4A {
            KeyCode::VK_J
        } else if code == 0x4B {
            KeyCode::VK_K
        } else if code == 0x4C {
            KeyCode::VK_L
        } else if code == 0x4D {
            KeyCode::VK_M
        } else if code == 0x4E {
            KeyCode::VK_N
        } else if code == 0x4F {
            KeyCode::VK_O
        } else if code == 0x50 {
            KeyCode::VK_P
        } else if code == 0x51 {
            KeyCode::VK_Q
        } else if code == 0x52 {
            KeyCode::VK_R
        } else if code == 0x53 {
            KeyCode::VK_S
        } else if code == 0x54 {
            KeyCode::VK_T
        } else if code == 0x55 {
            KeyCode::VK_U
        } else if code == 0x56 {
            KeyCode::VK_V
        } else if code == 0x57 {
            KeyCode::VK_W
        } else if code == 0x58 {
            KeyCode::VK_X
        } else if code == 0x59 {
            KeyCode::VK_Y
        } else if code == 0x5A {
            KeyCode::VK_Z
        } else if code == 0x5B {
            KeyCode::VK_LWIN
        } else if code == 0x5C {
            KeyCode::VK_RWIN
        } else if code == 0x5D {
            KeyCode::VK_APPS
        } else if code == 0x5F {
            KeyCode::VK_SLEEP
        } else if code == 0x60 {
            KeyCode::VK_NUMPAD0
        } else if code == 0x61 {
            KeyCode::VK_NUMPAD1
        } else if code == 0x62 {
            KeyCode::VK_NUMPAD2
        } else if code == 0x63 {
            KeyCode::VK_NUMPAD3
        } else if code == 0x64 {
            KeyCode::VK_NUMPAD4
        } else if code == 0x65 {
            KeyCode::VK_NUMPAD5
        } else if code == 0x66 {
            KeyCode::VK_NUMPAD6
        } else if code == 0x67 {
            KeyCode::VK_NUMPAD7
        } else if code == 0x68 {
            KeyCode::VK_NUMPAD8
        } else if code == 0x69 {
            KeyCode::VK_NUMPAD9
        } else if code == 0x6A {
            KeyCode::VK_MULTIPLY
        } else if code == 0x6B {
            KeyCode::VK_ADD
        } else if code == 0x6C {
            KeyCode::VK_SEPARATOR
        } else if code == 0x6D {
            KeyCode::VK_SUBTRACT
        } else if code == 0x6E {
            KeyCode::VK_DECIMAL
        } else if code == 0x6F {
            KeyCode::VK_DIVIDE
        } else if code == 0x70 {
            KeyCode::VK_F1
        } else if code == 0x71 {
            KeyCode::VK_F2
        } else if code == 0x72 {
            KeyCode::VK_F3
        } else if code == 0x73 {
            KeyCode::VK_F4
        } else if code == 0x74 {
            KeyCode::VK_F5
        } else if code == 0x75 {
            KeyCode::VK_F6
        } else if code == 0x76 {
            KeyCode::VK_F7
        } else if code == 0x77 {
            KeyCode::VK_F8
        } else if code == 0x78 {
            KeyCode::VK_F9
        } else if code == 0x79 {
            KeyCode::VK_F10
        } else if code == 0x7A {
            KeyCode::VK_F11
        } else if code == 0x7B {
            KeyCode::VK_F12
        } else if code == 0x7C {
            KeyCode::VK_F13
        } else if code == 0x7D {
            KeyCode::VK_F14
        } else if code == 0x7E {
            KeyCode::VK_F15
        } else if code == 0x7F {
            KeyCode::VK_F16
        } else if code == 0x80 {
            KeyCode::VK_F17
        } else if code == 0x81 {
            KeyCode::VK_F18
        } else if code == 0x82 {
            KeyCode::VK_F19
        } else if code == 0x83 {
            KeyCode::VK_F20
        } else if code == 0x84 {
            KeyCode::VK_F21
        } else if code == 0x85 {
            KeyCode::VK_F22
        } else if code == 0x86 {
            KeyCode::VK_F23
        } else if code == 0x87 {
            KeyCode::VK_F24
        } else if code == 0x90 {
            KeyCode::VK_NUMLOCK
        } else if code == 0x91 {
            KeyCode::VK_SCROLL
        } else if code == 0xA0 {
            KeyCode::VK_LSHIFT
        } else if code == 0xA1 {
            KeyCode::VK_RSHIFT
        } else if code == 0xA2 {
            KeyCode::VK_LCONTROL
        } else if code == 0xA3 {
            KeyCode::VK_RCONTROL
        } else if code == 0xA4 {
            KeyCode::VK_LMENU
        } else if code == 0xA5 {
            KeyCode::VK_RMENU
        } else if code == 0xA6 {
            KeyCode::VK_BROWSER_BACK
        } else if code == 0xA7 {
            KeyCode::VK_BROWSER_FORWARD
        } else if code == 0xA8 {
            KeyCode::VK_BROWSER_REFRESH
        } else if code == 0xA9 {
            KeyCode::VK_BROWSER_STOP
        } else if code == 0xAA {
            KeyCode::VK_BROWSER_SEARCH
        } else if code == 0xAB {
            KeyCode::VK_BROWSER_FAVORITES
        } else if code == 0xAC {
            KeyCode::VK_BROWSER_HOME
        } else if code == 0xAD {
            KeyCode::VK_VOLUME_MUTE
        } else if code == 0xAE {
            KeyCode::VK_VOLUME_DOWN
        } else if code == 0xAF {
            KeyCode::VK_VOLUME_UP
        } else if code == 0xB0 {
            KeyCode::VK_MEDIA_NEXT_TRACK
        } else if code == 0xB1 {
            KeyCode::VK_MEDIA_PREV_TRACK
        } else if code == 0xB2 {
            KeyCode::VK_MEDIA_STOP
        } else if code == 0xB3 {
            KeyCode::VK_MEDIA_PLAY_PAUSE
        } else if code == 0xB4 {
            KeyCode::VK_LAUNCH_MAIL
        } else if code == 0xB5 {
            KeyCode::VK_LAUNCH_MEDIA_SELECT
        } else if code == 0xB6 {
            KeyCode::VK_LAUNCH_APP1
        } else if code == 0xB7 {
            KeyCode::VK_LAUNCH_APP2
        } else if code == 0xBA {
            KeyCode::VK_OEM_1
        } else if code == 0xBB {
            KeyCode::VK_OEM_PLUS
        } else if code == 0xBC {
            KeyCode::VK_OEM_COMMA
        } else if code == 0xBD {
            KeyCode::VK_OEM_MINUS
        } else if code == 0xBE {
            KeyCode::VK_OEM_PERIOD
        } else if code == 0xBF {
            KeyCode::VK_OEM_2
        } else if code == 0xC0 {
            KeyCode::VK_OEM_3
        } else if code == 0xDB {
            KeyCode::VK_OEM_4
        } else if code == 0xDC {
            KeyCode::VK_OEM_5
        } else if code == 0xDD {
            KeyCode::VK_OEM_6
        } else if code == 0xDE {
            KeyCode::VK_OEM_7
        } else if code == 0xDF {
            KeyCode::VK_OEM_8
        } else if code == 0xE2 {
            KeyCode::VK_OEM_102
        } else if code == 0xE5 {
            KeyCode::VK_PROCESSKEY
        } else if code == 0xE7 {
            KeyCode::VK_PACKET
        } else if code == 0xF6 {
            KeyCode::VK_ATTN
        } else if code == 0xF7 {
            KeyCode::VK_CRSEL
        } else if code == 0xF8 {
            KeyCode::VK_EXSEL
        } else if code == 0xF9 {
            KeyCode::VK_EREOF
        } else if code == 0xFA {
            KeyCode::VK_PLAY
        } else if code == 0xFB {
            KeyCode::VK_ZOOM
        } else if code == 0xFC {
            KeyCode::VK_NONAME
        } else if code == 0xFD {
            KeyCode::VK_PA1
        } else if code == 0xFE {
            KeyCode::VK_OEM_CLEAR
        } else {
            KeyCode::VK_NONE
        }
    }

    /// The textual name of this key identifier, the inverse of `str_match`.
    pub open spec fn spec_name(self) -> Seq<char> {
        match self {
            KeyCode::VK_NONE => "VK_NONE"@,
            KeyCode::VK_LBUTTON => "VK_LBUTTON"@,
            KeyCode::VK_RBUTTON => "VK_RBUTTON"@,
            KeyCode::VK_CANCEL => "VK_CANCEL"@,
            KeyCode::VK_MBUTTON => "VK_MBUTTON"@,
            KeyCode::VK_XBUTTON1 => "VK_XBUTTON1"@,
            KeyCode::VK_XBUTTON2 => "VK_XBUTTON2"@,
            KeyCode::VK_BACK => "VK_BACK"@,
            KeyCode::VK_TAB => "VK_TAB"@,
            KeyCode::VK_CLEAR => "VK_CLEAR"@,
            KeyCode::VK_RETURN => "VK_RETURN"@,
            KeyCode::VK_SHIFT => "VK_SHIFT"@,
            KeyCode::VK_CONTROL => "VK_CONTROL"@,
            KeyCode::VK_MENU => "VK_MENU"@,
            KeyCode::VK_PAUSE => "VK_PAUSE"@,
            KeyCode::VK_CAPITAL => "VK_CAPITAL"@,
            KeyCode::VK_ESCAPE => "VK_ESCAPE"@,
            KeyCode::VK_CONVERT => "VK_CONVERT"@,
            KeyCode::VK_NONCONVERT => "VK_NONCONVERT"@,
            KeyCode::VK_ACCEPT => "VK_ACCEPT"@,
            KeyCode::VK_MODECHANGE => "VK_MODECHANGE"@,
            KeyCode::VK_SPACE => "VK_SPACE"@,
            KeyCode::VK_PRIOR => "VK_PRIOR"@,
            KeyCode::VK_NEXT => "VK_NEXT"@,
            KeyCode::VK_END => "VK_END"@,
            KeyCode::VK_HOME => "VK_HOME"@,
            KeyCode::VK_LEFT => "VK_LEFT"@,
            KeyCode::VK_UP => "VK_UP"@,
            KeyCode::VK_RIGHT => "VK_RIGHT"@,
            KeyCode::VK_DOWN => "VK_DOWN"@,
            KeyCode::VK_SELECT => "VK_SELECT"@,
            KeyCode::VK_PRINT => "VK_PRINT"@,
            KeyCode::VK_EXECUTE => "VK_EXECUTE"@,
            KeyCode::VK_SNAPSHOT => "VK_SNAPSHOT"@,
            KeyCode::VK_INSERT => "VK_INSERT"@,
            KeyCode::VK_DELETE => "VK_DELETE"@,
            KeyCode::VK_HELP => "VK_HELP"@,
            KeyCode::VK_0 => "VK_0"@,
            KeyCode::VK_1 => "VK_1"@,
            KeyCode::VK_2 => "VK_2"@,
            KeyCode::VK_3 => "VK_3"@,
            KeyCode::VK_4 => "VK_4"@,
            KeyCode::VK_5 => "VK_5"@,
            KeyCode::VK_6 => "VK_6"@,
            KeyCode::VK_7 => "VK_7"@,
            KeyCode::VK_8 => "VK_8"@,
            KeyCode::VK_9 => "VK_9"@,
            KeyCode::VK_A => "VK_A"@,
            KeyCode::VK_B => "VK_B"@,
            KeyCode::VK_C => "VK_C"@,
            KeyCode::VK_D => "VK_D"@,
            KeyCode::VK_E => "VK_E"@,
            KeyCode::VK_F => "VK_F"@,
            KeyCode::VK_G => "VK_G"@,
            KeyCode::VK_H => "VK_H"@,
            KeyCode::VK_I => "VK_I"@,
            KeyCode::VK_J => "VK_J"@,
            KeyCode::VK_K => "VK_K"@,
            KeyCode::VK_L => "VK_L"@,
            KeyCode::VK_M => "VK_M"@,
            KeyCode::VK_N => "VK_N"@,
            KeyCode::VK_O => "VK_O"@,
            KeyCode::VK_P => "VK_P"@,
            KeyCode::VK_Q => "VK_Q"@,
            KeyCode::VK_R => "VK_R"@,
            KeyCode::VK_S => "VK_S"@,
            KeyCode::VK_T => "VK_T"@,
            KeyCode::VK_U => "VK_U"@,
            KeyCode::VK_V => "VK_V"@,
            KeyCode::VK_W => "VK_W"@,
            KeyCode::VK_X => "VK_X"@,
            KeyCode::VK_Y => "VK_Y"@,
            KeyCode::VK_Z => "VK_Z"@,
            KeyCode::VK_LWIN => "VK_LWIN"@,
            KeyCode::VK_RWIN => "VK_RWIN"@,
            KeyCode::VK_APPS => "VK_APPS"@,
            KeyCode::VK_SLEEP => "VK_SLEEP"@,
            KeyCode::VK_NUMPAD0 => "VK_NUMPAD0"@,
            KeyCode::VK_NUMPAD1 => "VK_NUMPAD1"@,
            KeyCode::VK_NUMPAD2 => "VK_NUMPAD2"@,
            KeyCode::VK_NUMPAD3 => "VK_NUMPAD3"@,
            KeyCode::VK_NUMPAD4 => "VK_NUMPAD4"@,
            KeyCode::VK_NUMPAD5 => "VK_NUMPAD5"@,
            KeyCode::VK_NUMPAD6 => "VK_NUMPAD6"@,
            KeyCode::VK_NUMPAD7 => "VK_NUMPAD7"@,
            KeyCode::VK_NUMPAD8 => "VK_NUMPAD8"@,
            KeyCode::VK_NUMPAD9 => "VK_NUMPAD9"@,
            KeyCode::VK_MULTIPLY => "VK_MULTIPLY"@,
            KeyCode::VK_ADD => "VK_ADD"@,
            KeyCode::VK_SEPARATOR => "VK_SEPARATOR"@,
            KeyCode::VK_SUBTRACT => "VK_SUBTRACT"@,
            KeyCode::VK_DECIMAL => "VK_DECIMAL"@,
            KeyCode::VK_DIVIDE => "VK_DIVIDE"@,
            KeyCode::VK_F1 => "VK_F1"@,
            KeyCode::VK_F2 => "VK_F2"@,
            KeyCode::VK_F3 => "VK_F3"@,
            KeyCode::VK_F4 => "VK_F4"@,
            KeyCode::VK_F5 => "VK_F5"@,
            KeyCode::VK_F6 => "VK_F6"@,
            KeyCode::VK_F7 => "VK_F7"@,
            KeyCode::VK_F8 => "VK_F8"@,
            KeyCode::VK_F9 => "VK_F9"@,
            KeyCode::VK_F10 => "VK_F10"@,
            KeyCode::VK_F11 => "VK_F11"@,
            KeyCode::VK_F12 => "VK_F12"@,
            KeyCode::VK_F13 => "VK_F13"@,
            KeyCode::VK_F14 => "VK_F14"@,
            KeyCode::VK_F15 => "VK_F15"@,
            KeyCode::VK_F16 => "VK_F16"@,
            KeyCode::VK_F17 => "VK_F17"@,
            KeyCode::VK_F18 => "VK_F18"@,
            KeyCode::VK_F19 => "VK_F19"@,
            KeyCode::VK_F20 => "VK_F20"@,
            KeyCode::VK_F21 => "VK_F21"@,
            KeyCode::VK_F22 => "VK_F22"@,
            KeyCode::VK_F23 => "VK_F23"@,
            KeyCode::VK_F24 => "VK_F24"@,
            KeyCode::VK_NUMLOCK => "VK_NUMLOCK"@,
            KeyCode::VK_SCROLL => "VK_SCROLL"@,
            KeyCode::VK_LSHIFT => "VK_LSHIFT"@,
            KeyCode::VK_RSHIFT => "VK_RSHIFT"@,
            KeyCode::VK_LCONTROL => "VK_LCONTROL"@,
            KeyCode::VK_RCONTROL => "VK_RCONTROL"@,
            KeyCode::VK_LMENU => "VK_LMENU"@,
            KeyCode::VK_RMENU => "VK_RMENU"@,
            KeyCode::VK_BROWSER_BACK => "VK_BROWSER_BACK"@,
            KeyCode::VK_BROWSER_FORWARD => "VK_BROWSER_FORWARD"@,
            KeyCode::VK_BROWSER_REFRESH => "VK_BROWSER_REFRESH"@,
            KeyCode::VK_BROWSER_STOP => "VK_BROWSER_STOP"@,
            KeyCode::VK_BROWSER_SEARCH => "VK_BROWSER_SEARCH"@,
            KeyCode::VK_BROWSER_FAVORITES => "VK_BROWSER_FAVORITES"@,
            KeyCode::VK_BROWSER_HOME => "VK_BROWSER_HOME"@,
            KeyCode::VK_VOLUME_MUTE => "VK_VOLUME_MUTE"@,
            KeyCode::VK_VOLUME_DOWN => "VK_VOLUME_DOWN"@,
            KeyCode::VK_VOLUME_UP => "VK_VOLUME_UP"@,
            KeyCode::VK_MEDIA_NEXT_TRACK => "VK_MEDIA_NEXT_TRACK"@,
            KeyCode::VK_MEDIA_PREV_TRACK => "VK_MEDIA_PREV_TRACK"@,
            KeyCode::VK_MEDIA_STOP => "VK_MEDIA_STOP"@,
            KeyCode::VK_MEDIA_PLAY_PAUSE => "VK_MEDIA_PLAY_PAUSE"@,
            KeyCode::VK_LAUNCH_MAIL => "VK_LAUNCH_MAIL"@,
            KeyCode::VK_LAUNCH_MEDIA_SELECT => "VK_LAUNCH_MEDIA_SELECT"@,
            KeyCode::VK_LAUNCH_APP1 => "VK_LAUNCH_APP1"@,
            KeyCode::VK_LAUNCH_APP2 => "VK_LAUNCH_APP2"@,
            KeyCode::VK_OEM_1 => "VK_OEM_1"@,
            KeyCode::VK_OEM_PLUS => "VK_OEM_PLUS"@,
            KeyCode::VK_OEM_COMMA => "VK_OEM_COMMA"@,
            KeyCode::VK_OEM_MINUS => "VK_OEM_MINUS"@,
            KeyCode::VK_OEM_PERIOD => "VK_OEM_PERIOD"@,
            KeyCode::VK_OEM_2 => "VK_OEM_2"@,
            KeyCode::VK_OEM_3 => "VK_OEM_3"@,
            KeyCode::VK_OEM_4 => "VK_OEM_4"@,
            KeyCode::VK_OEM_5 => "VK_OEM_5"@,
            KeyCode::VK_OEM_6 => "VK_OEM_6"@,
            KeyCode::VK_OEM_7 => "VK_OEM_7"@,
            KeyCode::VK_OEM_8 => "VK_OEM_8"@,
            KeyCode::VK_OEM_102 => "VK_OEM_102"@,
            KeyCode::VK_PROCESSKEY => "VK_PROCESSKEY"@,
            KeyCode::VK_PACKET => "VK_PACKET"@,
            KeyCode::VK_ATTN => "VK_ATTN"@,
            KeyCode::VK_CRSEL => "VK_CRSEL"@,
            KeyCode::VK_EXSEL => "VK_EXSEL"@,
            KeyCode::VK_EREOF => "VK_EREOF"@,
            KeyCode::VK_PLAY => "VK_PLAY"@,
            KeyCode::VK_ZOOM => "VK_ZOOM"@,
            KeyCode::VK_NONAME => "VK_NONAME"@,
            KeyCode::VK_PA1 => "VK_PA1"@,
            KeyCode::VK_OEM_CLEAR => "VK_OEM_CLEAR"@,
        }
    }

    /// The textual name of this key identifier, the inverse of `str_match`.
    pub fn name(self) -> (r: String)
        ensures
            r@ == self.spec_name(),
    {
        match self {
            KeyCode::VK_NONE => String::from_str("VK_NONE"),
            KeyCode::VK_LBUTTON => String::from_str("VK_LBUTTON"),
            KeyCode::VK_RBUTTON => String::from_str("VK_RBUTTON"),
            KeyCode::VK_CANCEL => String::from_str("VK_CANCEL"),
            KeyCode::VK_MBUTTON => String::from_str("VK_MBUTTON"),
            KeyCode::VK_XBUTTON1 => String::from_str("VK_XBUTTON1"),
            KeyCode::VK_XBUTTON2 => String::from_str("VK_XBUTTON2"),
            KeyCode::VK_BACK => String::from_str("VK_BACK"),
            KeyCode::VK_TAB => String::from_str("VK_TAB"),
            KeyCode::VK_CLEAR => String::from_str("VK_CLEAR"),
            KeyCode::VK_RETURN => String::from_str("VK_RETURN"),
            KeyCode::VK_SHIFT => String::from_str("VK_SHIFT"),
            KeyCode::VK_CONTROL => String::from_str("VK_CONTROL"),
            KeyCode::VK_MENU => String::from_str("VK_MENU"),
            KeyCode::VK_PAUSE => String::from_str("VK_PAUSE"),
            KeyCode::VK_CAPITAL => String::from_str("VK_CAPITAL"),
            KeyCode::VK_ESCAPE => String::from_str("VK_ESCAPE"),
            KeyCode::VK_CONVERT => String::from_str("VK_CONVERT"),
            KeyCode::VK_NONCONVERT => String::from_str("VK_NONCONVERT"),
            KeyCode::VK_ACCEPT => String::from_str("VK_ACCEPT"),
            KeyCode::VK_MODECHANGE => String::from_str("VK_MODECHANGE"),
            KeyCode::VK_SPACE => String::from_str("VK_SPACE"),
            KeyCode::VK_PRIOR => String::from_str("VK_PRIOR"),
            KeyCode::VK_NEXT => String::from_str("VK_NEXT"),
            KeyCode::VK_END => String::from_str("VK_END"),
            KeyCode::VK_HOME => String::from_str("VK_HOME"),
            KeyCode::VK_LEFT => String::from_str("VK_LEFT"),
            KeyCode::VK_UP => String::from_str("VK_UP"),
            KeyCode::VK_RIGHT => String::from_str("VK_RIGHT"),
            KeyCode::VK_DOWN => String::from_str("VK_DOWN"),
            KeyCode::VK_SELECT => String::from_str("VK_SELECT"),
            KeyCode::VK_PRINT => String::from_str("VK_PRINT"),
            KeyCode::VK_EXECUTE => String::from_str("VK_EXECUTE"),
            KeyCode::VK_SNAPSHOT => String::from_str("VK_SNAPSHOT"),
            KeyCode::VK_INSERT => String::from_str("VK_INSERT"),
            KeyCode::VK_DELETE => String::from_str("VK_DELETE"),
            KeyCode::VK_HELP => String::from_str("VK_HELP"),
            KeyCode::VK_0 => String::from_str("VK_0"),
            KeyCode::VK_1 => String::from_str("VK_1"),
            KeyCode::VK_2 => String::from_str("VK_2"),
            KeyCode::VK_3 => String::from_str("VK_3"),
            KeyCode::VK_4 => String::from_str("VK_4"),
            KeyCode::VK_5 => String::from_str("VK_5"),
            KeyCode::VK_6 => String::from_str("VK_6"),
            KeyCode::VK_7 => String::from_str("VK_7"),
            KeyCode::VK_8 => String::from_str("VK_8"),
            KeyCode::VK_9 => String::from_str("VK_9"),
            KeyCode::VK_A => String::from_str("VK_A"),
            KeyCode::VK_B => String::from_str("VK_B"),
            KeyCode::VK_C => String::from_str("VK_C"),
            KeyCode::VK_D => String::from_str("VK_D"),
            KeyCode::VK_E => String::from_str("VK_E"),
            KeyCode::VK_F => String::from_str("VK_F"),
            KeyCode::VK_G => String::from_str("VK_G"),
            KeyCode::VK_H => String::from_str("VK_H"),
            KeyCode::VK_I => String::from_str("VK_I"),
            KeyCode::VK_J => String::from_str("VK_J"),
            KeyCode::VK_K => String::from_str("VK_K"),
            KeyCode::VK_L => String::from_str("VK_L"),
            KeyCode::VK_M => String::from_str("VK_M"),
            KeyCode::VK_N => String::from_str("VK_N"),
            KeyCode::VK_O => String::from_str("VK_O"),
            KeyCode::VK_P => String::from_str("VK_P"),
            KeyCode::VK_Q => String::from_str("VK_Q"),
            KeyCode::VK_R => String::from_str("VK_R"),
            KeyCode::VK_S => String::from_str("VK_S"),
            KeyCode::VK_T => String::from_str("VK_T"),
            KeyCode::VK_U => String::from_str("VK_U"),
            KeyCode::VK_V => String::from_str("VK_V"),
            KeyCode::VK_W => String::from_str("VK_W"),
            KeyCode::VK_X => String::from_str("VK_X"),
            KeyCode::VK_Y => String::from_str("VK_Y"),
            KeyCode::VK_Z => String::from_str("VK_Z"),
            KeyCode::VK_LWIN => String::from_str("VK_LWIN"),
            KeyCode::VK_RWIN => String::from_str("VK_RWIN"),
            KeyCode::VK_APPS => String::from_str("VK_APPS"),
            KeyCode::VK_SLEEP => String::from_str("VK_SLEEP"),
            KeyCode::VK_NUMPAD0 => String::from_str("VK_NUMPAD0"),
            KeyCode::VK_NUMPAD1 => String::from_str("VK_NUMPAD1"),
            KeyCode::VK_NUMPAD2 => String::from_str("VK_NUMPAD2"),
            KeyCode::VK_NUMPAD3 => String::from_str("VK_NUMPAD3"),
            KeyCode::VK_NUMPAD4 => String::from_str("VK_NUMPAD4"),
            KeyCode::VK_NUMPAD5 => String::from_str("VK_NUMPAD5"),
            KeyCode::VK_NUMPAD6 => String::from_str("VK_NUMPAD6"),
            KeyCode::VK_NUMPAD7 => String::from_str("VK_NUMPAD7"),
            KeyCode::VK_NUMPAD8 => String::from_str("VK_NUMPAD8"),
            KeyCode::VK_NUMPAD9 => String::from_str("VK_NUMPAD9"),
            KeyCode::VK_MULTIPLY => String::from_str("VK_MULTIPLY"),
            KeyCode::VK_ADD => String::from_str("VK_ADD"),
            KeyCode::VK_SEPARATOR => String::from_str("VK_SEPARATOR"),
            KeyCode::VK_SUBTRACT => String::from_str("VK_SUBTRACT"),
            KeyCode::VK_DECIMAL => String::from_str("VK_DECIMAL"),
            KeyCode::VK_DIVIDE => String::from_str("VK_DIVIDE"),
            KeyCode::VK_F1 => String::from_str("VK_F1"),
            KeyCode::VK_F2 => String::from_str("VK_F2"),
            KeyCode::VK_F3 => String::from_str("VK_F3"),
            KeyCode::VK_F4 => String::from_str("VK_F4"),
            KeyCode::VK_F5 => String::from_str("VK_F5"),
            KeyCode::VK_F6 => String::from_str("VK_F6"),
            KeyCode::VK_F7 => String::from_str("VK_F7"),
            KeyCode::VK_F8 => String::from_str("VK_F8"),
            KeyCode::VK_F9 => String::from_str("VK_F9"),
            KeyCode::VK_F10 => String::from_str("VK_F10"),
            KeyCode::VK_F11 => String::from_str("VK_F11"),
            KeyCode::VK_F12 => String::from_str("VK_F12"),
            KeyCode::VK_F13 => String::from_str("VK_F13"),
            KeyCode::VK_F14 => String::from_str("VK_F14"),
            KeyCode::VK_F15 => String::from_str("VK_F15"),
            KeyCode::VK_F16 => String::from_str("VK_F16"),
            KeyCode::VK_F17 => String::from_str("VK_F17"),
            KeyCode::VK_F18 => String::from_str("VK_F18"),
            KeyCode::VK_F19 => String::from_str("VK_F19"),
            KeyCode::VK_F20 => String::from_str("VK_F20"),
            KeyCode::VK_F21 => String::from_str("VK_F21"),
            KeyCode::VK_F22 => String::from_str("VK_F22"),
            KeyCode::VK_F23 => String::from_str("VK_F23"),
            KeyCode::VK_F24 => String::from_str("VK_F24"),
            KeyCode::VK_NUMLOCK => String::from_str("VK_NUMLOCK"),
            KeyCode::VK_SCROLL => String::from_str("VK_SCROLL"),
            KeyCode::VK_LSHIFT => String::from_str("VK_LSHIFT"),
            KeyCode::VK_RSHIFT => String::from_str("VK_RSHIFT"),
            KeyCode::VK_LCONTROL => String::from_str("VK_LCONTROL"),
            KeyCode::VK_RCONTROL => String::from_str("VK_RCONTROL"),
            KeyCode::VK_LMENU => String::from_str("VK_LMENU"),
            KeyCode::VK_RMENU => String::from_str("VK_RMENU"),
            KeyCode::VK_BROWSER_BACK => String::from_str("VK_BROWSER_BACK"),
            KeyCode::VK_BROWSER_FORWARD => String::from_str("VK_BROWSER_FORWARD"),
            KeyCode::VK_BROWSER_REFRESH => String::from_str("VK_BROWSER_REFRESH"),
            KeyCode::VK_BROWSER_STOP => String::from_str("VK_BROWSER_STOP"),
            KeyCode::VK_BROWSER_SEARCH => String::from_str("VK_BROWSER_SEARCH"),
            KeyCode::VK_BROWSER_FAVORITES => String::from_str("VK_BROWSER_FAVORITES"),
            KeyCode::VK_BROWSER_HOME => String::from_str("VK_BROWSER_HOME"),
            KeyCode::VK_VOLUME_MUTE => String::from_str("VK_VOLUME_MUTE"),
            KeyCode::VK_VOLUME_DOWN => String::from_str("VK_VOLUME_DOWN"),
            KeyCode::VK_VOLUME_UP => String::from_str("VK_VOLUME_UP"),
            KeyCode::VK_MEDIA_NEXT_TRACK => String::from_str("VK_MEDIA_NEXT_TRACK"),
            KeyCode::VK_MEDIA_PREV_TRACK => String::from_str("VK_MEDIA_PREV_TRACK"),
            KeyCode::VK_MEDIA_STOP => String::from_str("VK_MEDIA_STOP"),
            KeyCode::VK_MEDIA_PLAY_PAUSE => String::from_str("VK_MEDIA_PLAY_PAUSE"),
            KeyCode::VK_LAUNCH_MAIL => String::from_str("VK_LAUNCH_MAIL"),
            KeyCode::VK_LAUNCH_MEDIA_SELECT => String::from_str("VK_LAUNCH_MEDIA_SELECT"),
            KeyCode::VK_LAUNCH_APP1 => String::from_str("VK_LAUNCH_APP1"),
            KeyCode::VK_LAUNCH_APP2 => String::from_str("VK_LAUNCH_APP2"),
            KeyCode::VK_OEM_1 => String::from_str("VK_OEM_1"),
            KeyCode::VK_OEM_PLUS => String::from_str("VK_OEM_PLUS"),
            KeyCode::VK_OEM_COMMA => String::from_str("VK_OEM_COMMA"),
            KeyCode::VK_OEM_MINUS => String::from_str("VK_OEM_MINUS"),
            KeyCode::VK_OEM_PERIOD => String::from_str("VK_OEM_PERIOD"),
            KeyCode::VK_OEM_2 => String::from_str("VK_OEM_2"),
            KeyCode::VK_OEM_3 => String::from_str("VK_OEM_3"),
            KeyCode::VK_OEM_4 => String::from_str("VK_OEM_4"),
            KeyCode::VK_OEM_5 => String::from_str("VK_OEM_5"),
            KeyCode::VK_OEM_6 => String::from_str("VK_OEM_6"),
            KeyCode::VK_OEM_7 => String::from_str("VK_OEM_7"),
            KeyCode::VK_OEM_8 => String::from_str("VK_OEM_8"),
            KeyCode::VK_OEM_102 => String::from_str("VK_OEM_102"),
            KeyCode::VK_PROCESSKEY => String::from_str("VK_PROCESSKEY"),
            KeyCode::VK_PACKET => String::from_str("VK_PACKET"),
            KeyCode::VK_ATTN => String::from_str("VK_ATTN"),
            KeyCode::VK_CRSEL => String::from_str("VK_CRSEL"),
            KeyCode::VK_EXSEL => String::from_str("VK_EXSEL"),
            KeyCode::VK_EREOF => String::from_str("VK_EREOF"),
            KeyCode::VK_PLAY => String::from_str("VK_PLAY"),
            KeyCode::VK_ZOOM => String::from_str("VK_ZOOM"),
            KeyCode::VK_NONAME => String::from_str("VK_NONAME"),
            KeyCode::VK_PA1 => String::from_str("VK_PA1"),
            KeyCode::VK_OEM_CLEAR => String::from_str("VK_OEM_CLEAR"),
        }
    }

    /// The key named by a `VK_`-prefixed textual name; unrecognized names
    /// give `VK_NONE`.
    pub open spec fn spec_str_match(s: Seq<char>) -> KeyCode {
        if s == "VK_NONE"@ {
            KeyCode::VK_NONE
        } else if s == "VK_LBUTTON"@ {
            KeyCode::VK_LBUTTON
        } else if s == "VK_RBUTTON"@ {
            KeyCode::VK_RBUTTON
        } else if s == "VK_CANCEL"@ {
            KeyCode::VK_CANCEL
        } else if s == "VK_MBUTTON"@ {
            KeyCode::VK_MBUTTON
        } else if s == "VK_XBUTTON1"@ {
            KeyCode::VK_XBUTTON1
        } else if s == "VK_XBUTTON2"@ {
            KeyCode::VK_XBUTTON2
        } else if s == "VK_BACK"@ {
            KeyCode::VK_BACK
        } else if s == "VK_TAB"@ {
            KeyCode::VK_TAB
        } else if s == "VK_CLEAR"@ {
            KeyCode::VK_CLEAR
        } else if s == "VK_RETURN"@ {
            KeyCode::VK_RETURN
        } else if s == "VK_SHIFT"@ {
            KeyCode::VK_SHIFT
        } else if s == "VK_CONTROL"@ {
            KeyCode::VK_CONTROL
        } else if s == "VK_MENU"@ {
            KeyCode::VK_MENU
        } else if s == "VK_PAUSE"@ {
            KeyCode::VK_PAUSE
        } else if s == "VK_CAPITAL"@ {
            KeyCode::VK_CAPITAL
        } else if s == "VK_ESCAPE"@ {
            KeyCode::VK_ESCAPE
        } else if s == "VK_CONVERT"@ {
            KeyCode::VK_CONVERT
        } else if s == "VK_NONCONVERT"@ {
            KeyCode::VK_NONCONVERT
        } else if s == "VK_ACCEPT"@ {
            KeyCode::VK_ACCEPT
        } else if s == "VK_MODECHANGE"@ {
            KeyCode::VK_MODECHANGE
        } else if s == "VK_SPACE"@ {
            KeyCode::VK_SPACE
        } else if s == "VK_PRIOR"@ {
            KeyCode::VK_PRIOR
        } else if s == "VK_NEXT"@ {
            KeyCode::VK_NEXT
        } else if s == "VK_END"@ {
            KeyCode::VK_END
        } else if s == "VK_HOME"@ {
            KeyCode::VK_HOME
        } else if s == "VK_LEFT"@ {
            KeyCode::VK_LEFT
        } else if s == "VK_UP"@ {
            KeyCode::VK_UP
        } else if s == "VK_RIGHT"@ {
            KeyCode::VK_RIGHT
        } else if s == "VK_DOWN"@ {
            KeyCode::VK_DOWN
        } else if s == "VK_SELECT"@ {
            KeyCode::VK_SELECT
        } else if s == "VK_PRINT"@ {
            KeyCode::VK_PRINT
        } else if s == "VK_EXECUTE"@ {
            KeyCode::VK_EXECUTE
        } else if s == "VK_SNAPSHOT"@ {
            KeyCode::VK_SNAPSHOT
        } else if s == "VK_INSERT"@ {
            KeyCode::VK_INSERT
        } else if s == "VK_DELETE"@ {
            KeyCode::VK_DELETE
        } else if s == "VK_HELP"@ {
            KeyCode::VK_HELP
        } else if s == "VK_0"@ {
            KeyCode::VK_0
        } else if s == "VK_1"@ {
            KeyCode::VK_1
        } else if s == "VK_2"@ {
            KeyCode::VK_2
        } else if s == "VK_3"@ {
            KeyCode::VK_3
        } else if s == "VK_4"@ {
            KeyCode::VK_4
        } else if s == "VK_5"@ {
            KeyCode::VK_5
        } else if s == "VK_6"@ {
            KeyCode::VK_6
        } else if s == "VK_7"@ {
            KeyCode::VK_7
        } else if s == "VK_8"@ {
            KeyCode::VK_8
        } else if s == "VK_9"@ {
            KeyCode::VK_9
        } else if s == "VK_A"@ {
            KeyCode::VK_A
        } else if s == "VK_B"@ {
            KeyCode::VK_B
        } else if s == "VK_C"@ {
            KeyCode::VK_C
        } else if s == "VK_D"@ {
            KeyCode::VK_D
        } else if s == "VK_E"@ {
            KeyCode::VK_E
        } else if s == "VK_F"@ {
            KeyCode::VK_F
        } else if s == "VK_G"@ {
            KeyCode::VK_G
        } else if s == "VK_H"@ {
            KeyCode::VK_H
        } else if s == "VK_I"@ {
            KeyCode::VK_I
        } else if s == "VK_J"@ {
            KeyCode::VK_J
        } else if s == "VK_K"@ {
            KeyCode::VK_K
        } else if s == "VK_L"@ {
            KeyCode::VK_L
        } else if s == "VK_M"@ {
            KeyCode::VK_M
        } else if s == "VK_N"@ {
            KeyCode::VK_N
        } else if s == "VK_O"@ {
            KeyCode::VK_O
        } else if s == "VK_P"@ {
            KeyCode::VK_P
        } else if s == "VK_Q"@ {
            KeyCode::VK_Q
        } else if s == "VK_R"@ {
            KeyCode::VK_R
        } else if s == "VK_S"@ {
            KeyCode::VK_S
        } else if s == "VK_T"@ {
            KeyCode::VK_T
        } else if s == "VK_U"@ {
            KeyCode::VK_U
        } else if s == "VK_V"@ {
            KeyCode::VK_V
        } else if s == "VK_W"@ {
            KeyCode::VK_W
        } else if s == "VK_X"@ {
            KeyCode::VK_X
        } else if s == "VK_Y"@ {
            KeyCode::VK_Y
        } else if s == "VK_Z"@ {
            KeyCode::VK_Z
        } else if s == "VK_LWIN"@ {
            KeyCode::VK_LWIN
        } else if s == "VK_RWIN"@ {
            KeyCode::VK_RWIN
        } else if s == "VK_APPS"@ {
            KeyCode::VK_APPS
        } else if s == "VK_SLEEP"@ {
            KeyCode::VK_SLEEP
        } else if s == "VK_NUMPAD0"@ {
            KeyCode::VK_NUMPAD0
        } else if s == "VK_NUMPAD1"@ {
            KeyCode::VK_NUMPAD1
        } else if s == "VK_NUMPAD2"@ {
            KeyCode::VK_NUMPAD2
        } else if s == "VK_NUMPAD3"@ {
            KeyCode::VK_NUMPAD3
        } else if s == "VK_NUMPAD4"@ {
            KeyCode::VK_NUMPAD4
        } else if s == "VK_NUMPAD5"@ {
            KeyCode::VK_NUMPAD5
        } else if s == "VK_NUMPAD6"@ {
            KeyCode::VK_NUMPAD6
        } else if s == "VK_NUMPAD7"@ {
            KeyCode::VK_NUMPAD7
        } else if s == "VK_NUMPAD8"@ {
            KeyCode::VK_NUMPAD8
        } else if s == "VK_NUMPAD9"@ {
            KeyCode::VK_NUMPAD9
        } else if s == "VK_MULTIPLY"@ {
            KeyCode::VK_MULTIPLY
        } else if s == "VK_ADD"@ {
            KeyCode::VK_ADD
        } else if s == "VK_SEPARATOR"@ {
            KeyCode::VK_SEPARATOR
        } else if s == "VK_SUBTRACT"@ {
            KeyCode::VK_SUBTRACT
        } else if s == "VK_DECIMAL"@ {
            KeyCode::VK_DECIMAL
        } else if s == "VK_DIVIDE"@ {
            KeyCode::VK_DIVIDE
        } else if s == "VK_F1"@ {
            KeyCode::VK_F1
        } else if s == "VK_F2"@ {
            KeyCode::VK_F2
        } else if s == "VK_F3"@ {
            KeyCode::VK_F3
        } else if s == "VK_F4"@ {
            KeyCode::VK_F4
        } else if s == "VK_F5"@ {
            KeyCode::VK_F5
        } else if s == "VK_F6"@ {
            KeyCode::VK_F6
        } else if s == "VK_F7"@ {
            KeyCode::VK_F7
        } else if s == "VK_F8"@ {
            KeyCode::VK_F8
        } else if s == "VK_F9"@ {
            KeyCode::VK_F9
        } else if s == "VK_F10"@ {
            KeyCode::VK_F10
        } else if s == "VK_F11"@ {
            KeyCode::VK_F11
        } else if s == "VK_F12"@ {
            KeyCode::VK_F12
        } else if s == "VK_F13"@ {
            KeyCode::VK_F13
        } else if s == "VK_F14"@ {
            KeyCode::VK_F14
        } else if s == "VK_F15"@ {
            KeyCode::VK_F15
        } else if s == "VK_F16"@ {
            KeyCode::VK_F16
        } else if s == "VK_F17"@ {
            KeyCode::VK_F17
        } else if s == "VK_F18"@ {
            KeyCode::VK_F18
        } else if s == "VK_F19"@ {
            KeyCode::VK_F19
        } else if s == "VK_F20"@ {
            KeyCode::VK_F20
        } else if s == "VK_F21"@ {
            KeyCode::VK_F21
        } else if s == "VK_F22"@ {
            KeyCode::VK_F22
        } else if s == "VK_F23"@ {
            KeyCode::VK_F23
        } else if s == "VK_F24"@ {
            KeyCode::VK_F24
        } else if s == "VK_NUMLOCK"@ {
            KeyCode::VK_NUMLOCK
        } else if s == "VK_SCROLL"@ {
            KeyCode::VK_SCROLL
        } else if s == "VK_LSHIFT"@ {
            KeyCode::VK_LSHIFT
        } else if s == "VK_RSHIFT"@ {
            KeyCode::VK_RSHIFT
        } else if s == "VK_LCONTROL"@ {
            KeyCode::VK_LCONTROL
        } else if s == "VK_RCONTROL"@ {
            KeyCode::VK_RCONTROL
        } else if s == "VK_LMENU"@ {
            KeyCode::VK_LMENU
        } else if s == "VK_RMENU"@ {
            KeyCode::VK_RMENU
        } else if s == "VK_BROWSER_BACK"@ {
            KeyCode::VK_BROWSER_BACK
        } else if s == "VK_BROWSER_FORWARD"@ {
            KeyCode::VK_BROWSER_FORWARD
        } else if s == "VK_BROWSER_REFRESH"@ {
            KeyCode::VK_BROWSER_REFRESH
        } else if s == "VK_BROWSER_STOP"@ {
            KeyCode::VK_BROWSER_STOP
        } else if s == "VK_BROWSER_SEARCH"@ {
            KeyCode::VK_BROWSER_SEARCH
        } else if s == "VK_BROWSER_FAVORITES"@ {
            KeyCode::VK_BROWSER_FAVORITES
        } else if s == "VK_BROWSER_HOME"@ {
            KeyCode::VK_BROWSER_HOME
        } else if s == "VK_VOLUME_MUTE"@ {
            KeyCode::VK_VOLUME_MUTE
        } else if s == "VK_VOLUME_DOWN"@ {
            KeyCode::VK_VOLUME_DOWN
        } else if s == "VK_VOLUME_UP"@ {
            KeyCode::VK_VOLUME_UP
        } else if s == "VK_MEDIA_NEXT_TRACK"@ {
            KeyCode::VK_MEDIA_NEXT_TRACK
        } else if s == "VK_MEDIA_PREV_TRACK"@ {
            KeyCode::VK_MEDIA_PREV_TRACK
        } else if s == "VK_MEDIA_STOP"@ {
            KeyCode::VK_MEDIA_STOP
        } else if s == "VK_MEDIA_PLAY_PAUSE"@ {
            KeyCode::VK_MEDIA_PLAY_PAUSE
        } else if s == "VK_LAUNCH_MAIL"@ {
            KeyCode::VK_LAUNCH_MAIL
        } else if s == "VK_LAUNCH_MEDIA_SELECT"@ {
            KeyCode::VK_LAUNCH_MEDIA_SELECT
        } else if s == "VK_LAUNCH_APP1"@ {
            KeyCode::VK_LAUNCH_APP1
        } else if s == "VK_LAUNCH_APP2"@ {
            KeyCode::VK_LAUNCH_APP2
        } else if s == "VK_OEM_1"@ {
            KeyCode::VK_OEM_1
        } else if s == "VK_OEM_PLUS"@ {
            KeyCode::VK_OEM_PLUS
        } else if s == "VK_OEM_COMMA"@ {
            KeyCode::VK_OEM_COMMA
        } else if s == "VK_OEM_MINUS"@ {
            KeyCode::VK_OEM_MINUS
        } else if s == "VK_OEM_PERIOD"@ {
            KeyCode::VK_OEM_PERIOD
        } else if s == "VK_OEM_2"@ {
            KeyCode::VK_OEM_2
        } else if s == "VK_OEM_3"@ {
            KeyCode::VK_OEM_3
        } else if s == "VK_OEM_4"@ {
            KeyCode::VK_OEM_4
        } else if s == "VK_OEM_5"@ {
            KeyCode::VK_OEM_5
        } else if s == "VK_OEM_6"@ {
            KeyCode::VK_OEM_6
        } else if s == "VK_OEM_7"@ {
            KeyCode::VK_OEM_7
        } else if s == "VK_OEM_8"@ {
            KeyCode::VK_OEM_8
        } else if s == "VK_OEM_102"@ {
            KeyCode::VK_OEM_102
        } else if s == "VK_PROCESSKEY"@ {
            KeyCode::VK_PROCESSKEY
        } else if s == "VK_PACKET"@ {
            KeyCode::VK_PACKET
        } else if s == "VK_ATTN"@ {
            KeyCode::VK_ATTN
        } else if s == "VK_CRSEL"@ {
            KeyCode::VK_CRSEL
        } else if s == "VK_EXSEL"@ {
            KeyCode::VK_EXSEL
        } else if s == "VK_EREOF"@ {
            KeyCode::VK_EREOF
        } else if s == "VK_PLAY"@ {
            KeyCode::VK_PLAY
        } else if s == "VK_ZOOM"@ {
            KeyCode::VK_ZOOM
        } else if s == "VK_NONAME"@ {
            KeyCode::VK_NONAME
        } else if s == "VK_PA1"@ {
            KeyCode::VK_PA1
        } else if s == "VK_OEM_CLEAR"@ {
            KeyCode::VK_OEM_CLEAR
        } else {
            KeyCode::VK_NONE
        }
    }

    /// The key named by a `VK_`-prefixed textual name; unrecognized names
    /// give `VK_NONE`.
    pub fn str_match(s: &str) -> (r: KeyCode)
        ensures
            r == Self::spec_str_match(s@),
    {
        if crate::text::str_eq(s, "VK_NONE") {
            KeyCode::VK_NONE
        } else if crate::text::str_eq(s, "VK_LBUTTON") {
            KeyCode::VK_LBUTTON
        } else if crate::text::str_eq(s, "VK_RBUTTON") {
            KeyCode::VK_RBUTTON
        } else if crate::text::str_eq(s, "VK_CANCEL") {
            KeyCode::VK_CANCEL
        } else if crate::text::str_eq(s, "VK_MBUTTON") {
            KeyCode::VK_MBUTTON
        } else if crate::text::str_eq(s, "VK_XBUTTON1") {
            KeyCode::VK_XBUTTON1
        } else if crate::text::str_eq(s, "VK_XBUTTON2") {
            KeyCode::VK_XBUTTON2
        } else if crate::text::str_eq(s, "VK_BACK") {
            KeyCode::VK_BACK
        } else if crate::text::str_eq(s, "VK_TAB") {
            KeyCode::VK_TAB
        } else if crate::text::str_eq(s, "VK_CLEAR") {
            KeyCode::VK_CLEAR
        } else if crate::text::str_eq(s, "VK_RETURN") {
            KeyCode::VK_RETURN
        } else if crate::text::str_eq(s, "VK_SHIFT") {
            KeyCode::VK_SHIFT
        } else if crate::text::str_eq(s, "VK_CONTROL") {
            KeyCode::VK_CONTROL
        } else if crate::text::str_eq(s, "VK_MENU") {
            KeyCode::VK_MENU
        } else if crate::text::str_eq(s, "VK_PAUSE") {
            KeyCode::VK_PAUSE
        } else if crate::text::str_eq(s, "VK_CAPITAL") {
            KeyCode::VK_CAPITAL
        } else if crate::text::str_eq(s, "VK_ESCAPE") {
            KeyCode::VK_ESCAPE
        } else if crate::text::str_eq(s, "VK_CONVERT") {
            KeyCode::VK_CONVERT
        } else if crate::text::str_eq(s, "VK_NONCONVERT") {
            KeyCode::VK_NONCONVERT
        } else if crate::text::str_eq(s, "VK_ACCEPT") {
            KeyCode::VK_ACCEPT
        } else if crate::text::str_eq(s, "VK_MODECHANGE") {
            KeyCode::VK_MODECHANGE
        } else if crate::text::str_eq(s, "VK_SPACE") {
            KeyCode::VK_SPACE
        } else if crate::text::str_eq(s, "VK_PRIOR") {
            KeyCode::VK_PRIOR
        } else if crate::text::str_eq(s, "VK_NEXT") {
            KeyCode::VK_NEXT
        } else if crate::text::str_eq(s, "VK_END") {
            KeyCode::VK_END
        } else if crate::text::str_eq(s, "VK_HOME") {
            KeyCode::VK_HOME
        } else if crate::text::str_eq(s, "VK_LEFT") {
            KeyCode::VK_LEFT
        } else if crate::text::str_eq(s, "VK_UP") {
            KeyCode::VK_UP
        } else if crate::text::str_eq(s, "VK_RIGHT") {
            KeyCode::VK_RIGHT
        } else if crate::text::str_eq(s, "VK_DOWN") {
            KeyCode::VK_DOWN
        } else if crate::text::str_eq(s, "VK_SELECT") {
            KeyCode::VK_SELECT
        } else if crate::text::str_eq(s, "VK_PRINT") {
            KeyCode::VK_PRINT
        } else if crate::text::str_eq(s, "VK_EXECUTE") {
            KeyCode::VK_EXECUTE
        } else if crate::text::str_eq(s, "VK_SNAPSHOT") {
            KeyCode::VK_SNAPSHOT
        } else if crate::text::str_eq(s, "VK_INSERT") {
            KeyCode::VK_INSERT
        } else if crate::text::str_eq(s, "VK_DELETE") {
            KeyCode::VK_DELETE
        } else if crate::text::str_eq(s, "VK_HELP") {
            KeyCode::VK_HELP
        } else if crate::text::str_eq(s, "VK_0") {
            KeyCode::VK_0
        } else if crate::text::str_eq(s, "VK_1") {
            KeyCode::VK_1
        } else if crate::text::str_eq(s, "VK_2") {
            KeyCode::VK_2
        } else if crate::text::str_eq(s, "VK_3") {
            KeyCode::VK_3
        } else if crate::text::str_eq(s, "VK_4") {
            KeyCode::VK_4
        } else if crate::text::str_eq(s, "VK_5") {
            KeyCode::VK_5
        } else if crate::text::str_eq(s, "VK_6") {
            KeyCode::VK_6
        } else if crate::text::str_eq(s, "VK_7") {
            KeyCode::VK_7
        } else if crate::text::str_eq(s, "VK_8") {
            KeyCode::VK_8
        } else if crate::text::str_eq(s, "VK_9") {
            KeyCode::VK_9
        } else if crate::text::str_eq(s, "VK_A") {
            KeyCode::VK_A
        } else if crate::text::str_eq(s, "VK_B") {
            KeyCode::VK_B
        } else if crate::text::str_eq(s, "VK_C") {
            KeyCode::VK_C
        } else if crate::text::str_eq(s, "VK_D") {
            KeyCode::VK_D
        } else if crate::text::str_eq(s, "VK_E") {
            KeyCode::VK_E
        } else if crate::text::str_eq(s, "VK_F") {
            KeyCode::VK_F
        } else if crate::text::str_eq(s, "VK_G") {
            KeyCode::VK_G
        } else if crate::text::str_eq(s, "VK_H") {
            KeyCode::VK_H
        } else if crate::text::str_eq(s, "VK_I") {
            KeyCode::VK_I
        } else if crate::text::str_eq(s, "VK_J") {
            KeyCode::VK_J
        } else if crate::text::str_eq(s, "VK_K") {
            KeyCode::VK_K
        } else if crate::text::str_eq(s, "VK_L") {
            KeyCode::VK_L
        } else if crate::text::str_eq(s, "VK_M") {
            KeyCode::VK_M
        } else if crate::text::str_eq(s, "VK_N") {
            KeyCode::VK_N
        } else if crate::text::str_eq(s, "VK_O") {
            KeyCode::VK_O
        } else if crate::text::str_eq(s, "VK_P") {
            KeyCode::VK_P
        } else if crate::text::str_eq(s, "VK_Q") {
            KeyCode::VK_Q
        } else if crate::text::str_eq(s, "VK_R") {
            KeyCode::VK_R
        } else if crate::text::str_eq(s, "VK_S") {
            KeyCode::VK_S
        } else if crate::text::str_eq(s, "VK_T") {
            KeyCode::VK_T
        } else if crate::text::str_eq(s, "VK_U") {
            KeyCode::VK_U
        } else if crate::text::str_eq(s, "VK_V") {
            KeyCode::VK_V
        } else if crate::text::str_eq(s, "VK_W") {
            KeyCode::VK_W
        } else if crate::text::str_eq(s, "VK_X") {
            KeyCode::VK_X
        } else if crate::text::str_eq(s, "VK_Y") {
            KeyCode::VK_Y
        } else if crate::text::str_eq(s, "VK_Z") {
            KeyCode::VK_Z
        } else if crate::text::str_eq(s, "VK_LWIN") {
            KeyCode::VK_LWIN
        } else if crate::text::str_eq(s, "VK_RWIN") {
            KeyCode::VK_RWIN
        } else if crate::text::str_eq(s, "VK_APPS") {
            KeyCode::VK_APPS
        } else if crate::text::str_eq(s, "VK_SLEEP") {
            KeyCode::VK_SLEEP
        } else if crate::text::str_eq(s, "VK_NUMPAD0") {
            KeyCode::VK_NUMPAD0
        } else if crate::text::str_eq(s, "VK_NUMPAD1") {
            KeyCode::VK_NUMPAD1
        } else if crate::text::str_eq(s, "VK_NUMPAD2") {
            KeyCode::VK_NUMPAD2
        } else if crate::text::str_eq(s, "VK_NUMPAD3") {
            KeyCode::VK_NUMPAD3
        } else if crate::text::str_eq(s, "VK_NUMPAD4") {
            KeyCode::VK_NUMPAD4
        } else if crate::text::str_eq(s, "VK_NUMPAD5") {
            KeyCode::VK_NUMPAD5
        } else if crate::text::str_eq(s, "VK_NUMPAD6") {
            KeyCode::VK_NUMPAD6
        } else if crate::text::str_eq(s, "VK_NUMPAD7") {
            KeyCode::VK_NUMPAD7
        } else if crate::text::str_eq(s, "VK_NUMPAD8") {
            KeyCode::VK_NUMPAD8
        } else if crate::text::str_eq(s, "VK_NUMPAD9") {
            KeyCode::VK_NUMPAD9
        } else if crate::text::str_eq(s, "VK_MULTIPLY") {
            KeyCode::VK_MULTIPLY
        } else if crate::text::str_eq(s, "VK_ADD") {
            KeyCode::VK_ADD
        } else if crate::text::str_eq(s, "VK_SEPARATOR") {
            KeyCode::VK_SEPARATOR
        } else if crate::text::str_eq(s, "VK_SUBTRACT") {
            KeyCode::VK_SUBTRACT
        } else if crate::text::str_eq(s, "VK_DECIMAL") {
            KeyCode::VK_DECIMAL
        } else if crate::text::str_eq(s, "VK_DIVIDE") {
            KeyCode::VK_DIVIDE
        } else if crate::text::str_eq(s, "VK_F1") {
            KeyCode::VK_F1
        } else if crate::text::str_eq(s, "VK_F2") {
            KeyCode::VK_F2
        } else if crate::text::str_eq(s, "VK_F3") {
            KeyCode::VK_F3
        } else if crate::text::str_eq(s, "VK_F4") {
            KeyCode::VK_F4
        } else if crate::text::str_eq(s, "VK_F5") {
            KeyCode::VK_F5
        } else if crate::text::str_eq(s, "VK_F6") {
            KeyCode::VK_F6
        } else if crate::text::str_eq(s, "VK_F7") {
            KeyCode::VK_F7
        } else if crate::text::str_eq(s, "VK_F8") {
            KeyCode::VK_F8
        } else if crate::text::str_eq(s, "VK_F9") {
            KeyCode::VK_F9
        } else if crate::text::str_eq(s, "VK_F10") {
            KeyCode::VK_F10
        } else if crate::text::str_eq(s, "VK_F11") {
            KeyCode::VK_F11
        } else if crate::text::str_eq(s, "VK_F12") {
            KeyCode::VK_F12
        } else if crate::text::str_eq(s, "VK_F13") {
            KeyCode::VK_F13
        } else if crate::text::str_eq(s, "VK_F14") {
            KeyCode::VK_F14
        } else if crate::text::str_eq(s, "VK_F15") {
            KeyCode::VK_F15
        } else if crate::text::str_eq(s, "VK_F16") {
            KeyCode::VK_F16
        } else if crate::text::str_eq(s, "VK_F17") {
            KeyCode::VK_F17
        } else if crate::text::str_eq(s, "VK_F18") {
            KeyCode::VK_F18
        } else if crate::text::str_eq(s, "VK_F19") {
            KeyCode::VK_F19
        } else if crate::text::str_eq(s, "VK_F20") {
            KeyCode::VK_F20
        } else if crate::text::str_eq(s, "VK_F21") {
            KeyCode::VK_F21
        } else if crate::text::str_eq(s, "VK_F22") {
            KeyCode::VK_F22
        } else if crate::text::str_eq(s, "VK_F23") {
            KeyCode::VK_F23
        } else if crate::text::str_eq(s, "VK_F24") {
            KeyCode::VK_F24
        } else if crate::text::str_eq(s, "VK_NUMLOCK") {
            KeyCode::VK_NUMLOCK
        } else if crate::text::str_eq(s, "VK_SCROLL") {
            KeyCode::VK_SCROLL
        } else if crate::text::str_eq(s, "VK_LSHIFT") {
            KeyCode::VK_LSHIFT
        } else if crate::text::str_eq(s, "VK_RSHIFT") {
            KeyCode::VK_RSHIFT
        } else if crate::text::str_eq(s, "VK_LCONTROL") {
            KeyCode::VK_LCONTROL
        } else if crate::text::str_eq(s, "VK_RCONTROL") {
            KeyCode::VK_RCONTROL
        } else if crate::text::str_eq(s, "VK_LMENU") {
            KeyCode::VK_LMENU
        } else if crate::text::str_eq(s, "VK_RMENU") {
            KeyCode::VK_RMENU
        } else if crate::text::str_eq(s, "VK_BROWSER_BACK") {
            KeyCode::VK_BROWSER_BACK
        } else if crate::text::str_eq(s, "VK_BROWSER_FORWARD") {
            KeyCode::VK_BROWSER_FORWARD
        } else if crate::text::str_eq(s, "VK_BROWSER_REFRESH") {
            KeyCode::VK_BROWSER_REFRESH
        } else if crate::text::str_eq(s, "VK_BROWSER_STOP") {
            KeyCode::VK_BROWSER_STOP
        } else if crate::text::str_eq(s, "VK_BROWSER_SEARCH") {
            KeyCode::VK_BROWSER_SEARCH
        } else if crate::text::str_eq(s, "VK_BROWSER_FAVORITES") {
            KeyCode::VK_BROWSER_FAVORITES
        } else if crate::text::str_eq(s, "VK_BROWSER_HOME") {
            KeyCode::VK_BROWSER_HOME
        } else if crate::text::str_eq(s, "VK_VOLUME_MUTE") {
            KeyCode::VK_VOLUME_MUTE
        } else if crate::text::str_eq(s, "VK_VOLUME_DOWN") {
            KeyCode::VK_VOLUME_DOWN
        } else if crate::text::str_eq(s, "VK_VOLUME_UP") {
            KeyCode::VK_VOLUME_UP
        } else if crate::text::str_eq(s, "VK_MEDIA_NEXT_TRACK") {
            KeyCode::VK_MEDIA_NEXT_TRACK
        } else if crate::text::str_eq(s, "VK_MEDIA_PREV_TRACK") {
            KeyCode::VK_MEDIA_PREV_TRACK
        } else if crate::text::str_eq(s, "VK_MEDIA_STOP") {
            KeyCode::VK_MEDIA_STOP
        } else if crate::text::str_eq(s, "VK_MEDIA_PLAY_PAUSE") {
            KeyCode::VK_MEDIA_PLAY_PAUSE
        } else if crate::text::str_eq(s, "VK_LAUNCH_MAIL") {
            KeyCode::VK_LAUNCH_MAIL
        } else if crate::text::str_eq(s, "VK_LAUNCH_MEDIA_SELECT") {
            KeyCode::VK_LAUNCH_MEDIA_SELECT
        } else if crate::text::str_eq(s, "VK_LAUNCH_APP1") {
            KeyCode::VK_LAUNCH_APP1
        } else if crate::text::str_eq(s, "VK_LAUNCH_APP2") {
            KeyCode::VK_LAUNCH_APP2
        } else if crate::text::str_eq(s, "VK_OEM_1") {
            KeyCode::VK_OEM_1
        } else if crate::text::str_eq(s, "VK_OEM_PLUS") {
            KeyCode::VK_OEM_PLUS
        } else if crate::text::str_eq(s, "VK_OEM_COMMA") {
            KeyCode::VK_OEM_COMMA
        } else if crate::text::str_eq(s, "VK_OEM_MINUS") {
            KeyCode::VK_OEM_MINUS
        } else if crate::text::str_eq(s, "VK_OEM_PERIOD") {
            KeyCode::VK_OEM_PERIOD
        } else if crate::text::str_eq(s, "VK_OEM_2") {
            KeyCode::VK_OEM_2
        } else if crate::text::str_eq(s, "VK_OEM_3") {
            KeyCode::VK_OEM_3
        } else if crate::text::str_eq(s, "VK_OEM_4") {
            KeyCode::VK_OEM_4
        } else if crate::text::str_eq(s, "VK_OEM_5") {
            KeyCode::VK_OEM_5
        } else if crate::text::str_eq(s, "VK_OEM_6") {
            KeyCode::VK_OEM_6
        } else if crate::text::str_eq(s, "VK_OEM_7") {
            KeyCode::VK_OEM_7
        } else if crate::text::str_eq(s, "VK_OEM_8") {
            KeyCode::VK_OEM_8
        } else if crate::text::str_eq(s, "VK_OEM_102") {
            KeyCode::VK_OEM_102
        } else if crate::text::str_eq(s, "VK_PROCESSKEY") {
            KeyCode::VK_PROCESSKEY
        } else if crate::text::str_eq(s, "VK_PACKET") {
            KeyCode::VK_PACKET
        } else if crate::text::str_eq(s, "VK_ATTN") {
            KeyCode::VK_ATTN
        } else if crate::text::str_eq(s, "VK_CRSEL") {
            KeyCode::VK_CRSEL
        } else if crate::text::str_eq(s, "VK_EXSEL") {
            KeyCode::VK_EXSEL
        } else if crate::text::str_eq(s, "VK_EREOF") {
            KeyCode::VK_EREOF
        } else if crate::text::str_eq(s, "VK_PLAY") {
            KeyCode::VK_PLAY
        } else if crate::text::str_eq(s, "VK_ZOOM") {
            KeyCode::VK_ZOOM
        } else if crate::text::str_eq(s, "VK_NONAME") {
            KeyCode::VK_NONAME
        } else if crate::text::str_eq(s, "VK_PA1") {
            KeyCode::VK_PA1
        } else if crate::text::str_eq(s, "VK_OEM_CLEAR") {
            KeyCode::VK_OEM_CLEAR
        } else {
            KeyCode::VK_NONE
        }
    }
}

impl KeyCode {
    /// The key a single character maps to directly: ASCII letters of either
    /// case, ASCII digits, and the space character.  Characters that would
    /// need a platform keyboard-layout lookup map to nothing.
    pub open spec fn spec_from_char(c: char) -> Option<KeyCode> {
        if 97 <= c as u32 && c as u32 <= 122 {
            Some(Self::spec_from_code((c as u32 - 32) as u32))
        } else if 65 <= c as u32 && c as u32 <= 90 {
            Some(Self::spec_from_code(c as u32))
        } else if 48 <= c as u32 && c as u32 <= 57 {
            Some(Self::spec_from_code(c as u32))
        } else if c == ' ' {
            Some(KeyCode::VK_SPACE)
        } else {
            None
        }
    }

    /// The key a single character maps to directly: ASCII letters of either
    /// case, ASCII digits, and the space character.  Characters that would
    /// need a platform keyboard-layout lookup map to nothing.
    pub fn from_char(c: char) -> (r: Option<KeyCode>)
        ensures
            r == Self::spec_from_char(c),
    {
        let u = c as u32;
        if 97 <= u && u <= 122 {
            Some(Self::from_code(u - 32))
        } else if 65 <= u && u <= 90 {
            Some(Self::from_code(u))
        } else if 48 <= u && u <= 57 {
            Some(Self::from_code(u))
        } else if c == ' ' {
            Some(KeyCode::VK_SPACE)
        } else {
            None
        }
    }

    /// The key a textual token resolves to: a `VK_`-prefixed name, a single
    /// directly-mapped character, or a function key `F1` through `F24`.
    /// Anything else resolves to nothing.
    pub open spec fn spec_resolve(token: Seq<char>) -> Option<KeyCode> {
        if token.len() >= 3 && token.subrange(0, 3) == "VK_"@ {
            let k = Self::spec_str_match(token);
            if k != KeyCode::VK_NONE || token == "VK_NONE"@ {
                Some(k)
            } else {
                None
            }
        } else if token.len() == 1 {
            Self::spec_from_char(token[0])
        } else if token.len() >= 2 && token[0] == 'F' && crate::text::all_digits(
            token.skip(1),
        ) && 1 <= crate::text::digits_val(token.skip(1)) && crate::text::digits_val(token.skip(1))
            <= 24 {
            Some(Self::spec_from_code((111 + crate::text::digits_val(token.skip(1))) as u32))
        } else {
            None
        }
    }

    /// Resolves a textual token to the key it names, as [`Self::spec_resolve`]
    /// describes.
    pub fn resolve(token: &Vec<char>) -> (r: Option<KeyCode>)
        ensures
            r == Self::spec_resolve(token@),
    {
        proof {
            reveal_strlit("VK_");
            reveal_strlit("VK_NONE");
        }
        if token.len() >= 3 && token[0] == 'V' && token[1] == 'K' && token[2] == '_' {
            proof {
                assert(token@.subrange(0, 3) =~= "VK_"@);
            }
            let s = crate::text::chars_to_string(token);
            let k = Self::str_match(s.as_str());
            if k != KeyCode::VK_NONE {
                Some(k)
            } else if crate::text::chars_eq_str(token, "VK_NONE") {
                Some(k)
            } else {
                None
            }
        } else if token.len() >= 3 {
            proof {
                if token@.subrange(0, 3) == "VK_"@ {
                    assert(token@.subrange(0, 3)[0] == token@[0]);
                    assert(token@.subrange(0, 3)[1] == token@[1]);
                    assert(token@.subrange(0, 3)[2] == token@[2]);
                }
            }
            if token.len() >= 2 && token[0] == 'F' {
                let digits = crate::text::slice_chars(token, 1, token.len());
                proof {
                    assert(digits@ =~= token@.skip(1));
                }
                match crate::text::parse_u64_chars(&digits) {
                    Some(n) => if 1 <= n && n <= 24 {
                        Some(Self::from_code(111 + n as u32))
                    } else {
                        None
                    },
                    None => None,
                }
            } else {
                None
            }
        } else if token.len() == 1 {
            Self::from_char(token[0])
        } else if token.len() == 2 && token[0] == 'F' {
            let digits = crate::text::slice_chars(token, 1, token.len());
            proof {
                assert(digits@ =~= token@.skip(1));
            }
            match crate::text::parse_u64_chars(&digits) {
                Some(n) => if 1 <= n && n <= 24 {
                    Some(Self::from_code(111 + n as u32))
                } else {
                    None
                },
                None => None,
            }
        } else {
            None
        }
    }
}

impl DeepView for KeyCode {
    type V = KeyCode;

    open spec fn deep_view(&self) -> KeyCode {
        *self
    }
}

/// Flag bits that qualify a synthetic keyboard input.
#[derive(Copy, Clone, Debug, PartialEq, Eq, Structural)]
#[allow(non_camel_case_types)]
pub enum KeyboardFlags {
    NONE,
    KEYEVENTF_EXTENDEDKEY,
    KEYEVENTF_KEYUP,
    KEYEVENTF_UNICODE,
    KEYEVENTF_SCANCODE,
}

impl KeyboardFlags {
    /// The numeric flag bit this flag stands for.
    pub open spec fn spec_bits(self) -> u16 {
        match self {
            KeyboardFlags::NONE => 0x00,
            KeyboardFlags::KEYEVENTF_EXTENDEDKEY => 0x01,
            KeyboardFlags::KEYEVENTF_KEYUP => 0x02,
            KeyboardFlags::KEYEVENTF_UNICODE => 0x04,
            KeyboardFlags::KEYEVENTF_SCANCODE => 0x08,
        }
    }

    /// The numeric flag bit this flag stands for.
    pub fn bits(self) -> (r: u16)
        ensures
            r == self.spec_bits(),
    {
        match self {
            KeyboardFlags::NONE => 0x00,
            KeyboardFlags::KEYEVENTF_EXTENDEDKEY => 0x01,
            KeyboardFlags::KEYEVENTF_KEYUP => 0x02,
            KeyboardFlags::KEYEVENTF_UNICODE => 0x04,
            KeyboardFlags::KEYEVENTF_SCANCODE => 0x08,
        }
    }
}

/// Flag bits that qualify a synthetic mouse input.
#[derive(Copy, Clone, Debug, PartialEq, Eq, Structural)]
#[allow(non_camel_case_types)]
pub enum MouseFlags {
    NONE,
    MOUSEEVENTF_MOVE,
    MOUSEEVENTF_LEFTDOWN,
    MOUSEEVENTF_LEFTUP,
    MOUSEEVENTF_RIGHTDOWN,
    MOUSEEVENTF_RIGHTUP,
    MOUSEEVENTF_MIDDLEDOWN,
    MOUSEEVENTF_MIDDLEUP,
    MOUSEEVENTF_XDOWN,
    MOUSEEVENTF_XUP,
    MOUSEEVENTF_WHEEL,
    MOUSEEVENTF_HWHEEL,
    MOUSEEVENTF_MOVE_NOCOALESCE,
    MOUSEEVENTF_VIRTUALDESK,
    MOUSEEVENTF_ABSOLUTE,
}

impl MouseFlags {
    /// The numeric flag bit this flag stands for.
    pub open spec fn spec_bits(self) -> u16 {
        match self {
            MouseFlags::NONE => 0x00,
            MouseFlags::MOUSEEVENTF_MOVE => 0x01,
            MouseFlags::MOUSEEVENTF_LEFTDOWN => 0x02,
            MouseFlags::MOUSEEVENTF_LEFTUP => 0x04,
            MouseFlags::MOUSEEVENTF_RIGHTDOWN => 0x08,
            MouseFlags::MOUSEEVENTF_RIGHTUP => 0x10,
            MouseFlags::MOUSEEVENTF_MIDDLEDOWN => 0x20,
            MouseFlags::MOUSEEVENTF_MIDDLEUP => 0x40,
            MouseFlags::MOUSEEVENTF_XDOWN => 0x80,
            MouseFlags::MOUSEEVENTF_XUP => 0x100,
            MouseFlags::MOUSEEVENTF_WHEEL => 0x800,
            MouseFlags::MOUSEEVENTF_HWHEEL => 0x1000,
            MouseFlags::MOUSEEVENTF_MOVE_NOCOALESCE => 0x2000,
            MouseFlags::MOUSEEVENTF_VIRTUALDESK => 0x4000,
            MouseFlags::MOUSEEVENTF_ABSOLUTE => 0x8000,
        }
    }

    /// The numeric flag bit this flag stands for.
    pub fn bits(self) -> (r: u16)
        ensures
            r == self.spec_bits(),
    {
        match self {
            MouseFlags::NONE => 0x00,
            MouseFlags::MOUSEEVENTF_MOVE => 0x01,
            MouseFlags::MOUSEEVENTF_LEFTDOWN => 0x02,
            MouseFlags::MOUSEEVENTF_LEFTUP => 0x04,
            MouseFlags::MOUSEEVENTF_RIGHTDOWN => 0x08,
            MouseFlags::MOUSEEVENTF_RIGHTUP => 0x10,
            MouseFlags::MOUSEEVENTF_MIDDLEDOWN => 0x20,
            MouseFlags::MOUSEEVENTF_MIDDLEUP => 0x40,
            MouseFlags::MOUSEEVENTF_XDOWN => 0x80,
            MouseFlags::MOUSEEVENTF_XUP => 0x100,
            MouseFlags::MOUSEEVENTF_WHEEL => 0x800,
            MouseFlags::MOUSEEVENTF_HWHEEL => 0x1000,
            MouseFlags::MOUSEEVENTF_MOVE_NOCOALESCE => 0x2000,
            MouseFlags::MOUSEEVENTF_VIRTUALDESK => 0x4000,
            MouseFlags::MOUSEEVENTF_ABSOLUTE => 0x8000,
        }
    }
}

/// Auxiliary data sent with an extra-button mouse input.
#[derive(Copy, Clone, Debug, PartialEq, Eq, Structural)]
#[allow(non_camel_case_types)]
pub enum MouseData {
    NONE,
    XBUTTON1,
    XBUTTON2,
}

impl MouseData {
    /// The numeric value this datum stands for.
    pub open spec fn spec_bits(self) -> u16 {
        match self {
            MouseData::NONE => 0x00,
            MouseData::XBUTTON1 => 0x01,
            MouseData::XBUTTON2 => 0x02,
        }
    }

    /// The numeric value this datum stands for.
    pub fn bits(self) -> (r: u16)
        ensures
            r == self.spec_bits(),
    {
        match self {
            MouseData::NONE => 0x00,
            MouseData::XBUTTON1 => 0x01,
            MouseData::XBUTTON2 => 0x02,
        }
    }
}

/// Whether a key or button event presses or releases; a key event carrying
/// neither is a tap, a press immediately followed by a release.
#[derive(Copy, Clone, Debug, PartialEq, Eq, Structural)]
pub enum KeyUpDown {
    Down,
    Up,
}

/// A key's numeric code names that key back.
pub proof fn lemma_code_round_trip(k: KeyCode)
    ensures
        KeyCode::spec_from_code(k.spec_code()) == k,
{
}

impl KeyboardFlags {
    /// The flag a numeric flag bit stands for; unknown bits stand for none.
    pub open spec fn spec_from_bits(bits: u16) -> KeyboardFlags {
        if bits == 0x01 {
            KeyboardFlags::KEYEVENTF_EXTENDEDKEY
        } else if bits == 0x02 {
            KeyboardFlags::KEYEVENTF_KEYUP
        } else if bits == 0x04 {
            KeyboardFlags::KEYEVENTF_UNICODE
        } else if bits == 0x08 {
            KeyboardFlags::KEYEVENTF_SCANCODE
        } else {
            KeyboardFlags::NONE
        }
    }

    /// The flag a numeric flag bit stands for; unknown bits stand for none.
    pub fn from_bits(bits: u16) -> (r: KeyboardFlags)
        ensures
            r == Self::spec_from_bits(bits),
    {
        if bits == 0x01 {
            KeyboardFlags::KEYEVENTF_EXTENDEDKEY
        } else if bits == 0x02 {
            KeyboardFlags::KEYEVENTF_KEYUP
        } else if bits == 0x04 {
            KeyboardFlags::KEYEVENTF_UNICODE
        } else if bits == 0x08 {
            KeyboardFlags::KEYEVENTF_SCANCODE
        } else {
            KeyboardFlags::NONE
        }
    }
}

/// A keyboard flag's bit names that flag back.
pub proof fn lemma_keyboard_flags_round_trip(f: KeyboardFlags)
    ensures
        KeyboardFlags::spec_from_bits(f.spec_bits()) == f,
{
}

impl MouseFlags {
    /// The flag a numeric flag bit stands for; unknown bits stand for none.
    pub open spec fn spec_from_bits(bits: u16) -> MouseFlags {
        if bits == 0x01 {
            MouseFlags::MOUSEEVENTF_MOVE
        } else if bits == 0x02 {
            MouseFlags::MOUSEEVENTF_LEFTDOWN
        } else if bits == 0x04 {
            MouseFlags::MOUSEEVENTF_LEFTUP
        } else if bits == 0x08 {
            MouseFlags::MOUSEEVENTF_RIGHTDOWN
        } else if bits == 0x10 {
            MouseFlags::MOUSEEVENTF_RIGHTUP
        } else if bits == 0x20 {
            MouseFlags::MOUSEEVENTF_MIDDLEDOWN
        } else if bits == 0x40 {
            MouseFlags::MOUSEEVENTF_MIDDLEUP
        } else if bits == 0x80 {
            MouseFlags::MOUSEEVENTF_XDOWN
        } else if bits == 0x100 {
            MouseFlags::MOUSEEVENTF_XUP
        } else if bits == 0x800 {
            MouseFlags::MOUSEEVENTF_WHEEL
        } else if bits == 0x1000 {
            MouseFlags::MOUSEEVENTF_HWHEEL
        } else if bits == 0x2000 {
            MouseFlags::MOUSEEVENTF_MOVE_NOCOALESCE
        } else if bits == 0x4000 {
            MouseFlags::MOUSEEVENTF_VIRTUALDESK
        } else if bits == 0x8000 {
            MouseFlags::MOUSEEVENTF_ABSOLUTE
        } else {
            MouseFlags::NONE
        }
    }

    /// The flag a numeric flag bit stands for; unknown bits stand for none.
    pub fn from_bits(bits: u16) -> (r: MouseFlags)
        ensures
            r == Self::spec_from_bits(bits),
    {
        if bits == 0x01 {
            MouseFlags::MOUSEEVENTF_MOVE
        } else if bits == 0x02 {
            MouseFlags::MOUSEEVENTF_LEFTDOWN
        } else if bits == 0x04 {
            MouseFlags::MOUSEEVENTF_LEFTUP
        } else if bits == 0x08 {
            MouseFlags::MOUSEEVENTF_RIGHTDOWN
        } else if bits == 0x10 {
            MouseFlags::MOUSEEVENTF_RIGHTUP
        } else if bits == 0x20 {
            MouseFlags::MOUSEEVENTF_MIDDLEDOWN
        } else if bits == 0x40 {
            MouseFlags::MOUSEEVENTF_MIDDLEUP
        } else if bits == 0x80 {
            MouseFlags::MOUSEEVENTF_XDOWN
        } else if bits == 0x100 {
            MouseFlags::MOUSEEVENTF_XUP
        } else if bits == 0x800 {
            MouseFlags::MOUSEEVENTF_WHEEL
        } else if bits == 0x1000 {
            MouseFlags::MOUSEEVENTF_HWHEEL
        } else if bits == 0x2000 {
            MouseFlags::MOUSEEVENTF_MOVE_NOCOALESCE
        } else if bits == 0x4000 {
            MouseFlags::MOUSEEVENTF_VIRTUALDESK
        } else if bits == 0x8000 {
            MouseFlags::MOUSEEVENTF_ABSOLUTE
        } else {
            MouseFlags::NONE
        }
    }
}

/// A mouse flag's bit names that flag back.
pub proof fn lemma_mouse_flags_round_trip(f: MouseFlags)
    ensures
        MouseFlags::spec_from_bits(f.spec_bits()) == f,
{
}

} // verus!
