//! Keyboard buttons: the key symbols a canvas reports, as named keys or characters.
use vstd::prelude::*;

use crate::keysym::KeySym;

verus! {

/// A key that is not a character.
#[derive(Debug, Clone, Copy, PartialEq, Eq, Structural)]
pub enum SpecialKeyboardButton {
    BackSpace,
    Tab,
    Linefeed,
    Clear,
    Return,
    Pause,
    ScrollLock,
    SysReq,
    Escape,
    Delete,
    MultiKey,
    Codeinput,
    SingleCandidate,
    MultipleCandidate,
    PreviousCandidate,
    Home,
    Left,
    Up,
    Right,
    Down,
    Prior,
    PageUp,
    Next,
    PageDown,
    End,
    Begin,
    Select,
    Print,
    Execute,
    Insert,
    Undo,
    Redo,
    Menu,
    Find,
    Cancel,
    Help,
    Break,
    ModeSwitch,
    ScriptSwitch,
    NumLock,
    F1,
    F2,
    F3,
    F4,
    F5,
    F6,
    F7,
    F8,
    F9,
    F10,
    F11,
    F12,
    F13,
    F14,
    F15,
    F16,
    F17,
    F18,
    F19,
    F20,
    F21,
    F22,
    F23,
    F24,
    F25,
    F26,
    F27,
    F28,
    F29,
    F30,
    F31,
    F32,
    F33,
    F34,
    F35,
    ShiftL,
    ShiftR,
    ControlL,
    ControlR,
    CapsLock,
    ShiftLock,
    MetaL,
    MetaR,
    AltL,
    AltR,
    SuperL,
    SuperR,
    HyperL,
    HyperR,
}

/// A key: a named key or a character.
#[derive(Debug, Clone, Copy, PartialEq, Eq)]
pub enum KeyboardButton {
    Special(SpecialKeyboardButton),
    Unicode(char),
}

/// The named key of a key symbol, if it has one.
pub open spec fn spec_special(value: u32) -> Option<SpecialKeyboardButton> {
    if value == KeySym::BackSpace {
        Some(SpecialKeyboardButton::BackSpace)
    } else if value == KeySym::Tab {
        Some(SpecialKeyboardButton::Tab)
    } else if value == KeySym::Linefeed {
        Some(SpecialKeyboardButton::Linefeed)
    } else if value == KeySym::Clear {
        Some(SpecialKeyboardButton::Clear)
    } else if value == KeySym::Return {
        Some(SpecialKeyboardButton::Return)
    } else if value == KeySym::Pause {
        Some(SpecialKeyboardButton::Pause)
    } else if value == KeySym::Scroll_Lock {
        Some(SpecialKeyboardButton::ScrollLock)
    } else if value == KeySym::Sys_Req {
        Some(SpecialKeyboardButton::SysReq)
    } else if value == KeySym::Escape {
        Some(SpecialKeyboardButton::Escape)
    } else if value == KeySym::Delete {
        Some(SpecialKeyboardButton::Delete)
    } else if value == KeySym::Multi_key {
        Some(SpecialKeyboardButton::MultiKey)
    } else if value == KeySym::Codeinput {
        Some(SpecialKeyboardButton::Codeinput)
    } else if value == KeySym::SingleCandidate {
        Some(SpecialKeyboardButton::SingleCandidate)
    } else if value == KeySym::MultipleCandidate {
        Some(SpecialKeyboardButton::MultipleCandidate)
    } else if value == KeySym::PreviousCandidate {
        Some(SpecialKeyboardButton::PreviousCandidate)
    } else if value == KeySym::Home {
        Some(SpecialKeyboardButton::Home)
    } else if value == KeySym::Left {
        Some(SpecialKeyboardButton::Left)
    } else if value == KeySym::Up {
        Some(SpecialKeyboardButton::Up)
    } else if value == KeySym::Right {
        Some(SpecialKeyboardButton::Right)
    } else if value == KeySym::Down {
        Some(SpecialKeyboardButton::Down)
    } else if value == KeySym::Prior {
        Some(SpecialKeyboardButton::Prior)
    } else if value == KeySym::Next {
        Some(SpecialKeyboardButton::Next)
    } else if value == KeySym::End {
        Some(SpecialKeyboardButton::End)
    } else if value == KeySym::Begin {
        Some(SpecialKeyboardButton::Begin)
    } else if value == KeySym::Select {
        Some(SpecialKeyboardButton::Select)
    } else if value == KeySym::Print {
        Some(SpecialKeyboardButton::Print)
    } else if value == KeySym::Execute {
        Some(SpecialKeyboardButton::Execute)
    } else if value == KeySym::Insert {
        Some(SpecialKeyboardButton::Insert)
    } else if value == KeySym::Undo {
        Some(SpecialKeyboardButton::Undo)
    } else if value == KeySym::Redo {
        Some(SpecialKeyboardButton::Redo)
    } else if value == KeySym::Menu {
        Some(SpecialKeyboardButton::Menu)
    } else if value == KeySym::Find {
        Some(SpecialKeyboardButton::Find)
    } else if value == KeySym::Cancel {
        Some(SpecialKeyboardButton::Cancel)
    } else if value == KeySym::Help {
        Some(SpecialKeyboardButton::Help)
    } else if value == KeySym::Break {
        Some(SpecialKeyboardButton::Break)
    } else if value == KeySym::Mode_switch {
        Some(SpecialKeyboardButton::ModeSwitch)
    } else if value == KeySym::Num_Lock {
        Some(SpecialKeyboardButton::NumLock)
    } else if value == KeySym::F1 {
        Some(SpecialKeyboardButton::F1)
    } else if value == KeySym::F2 {
        Some(SpecialKeyboardButton::F2)
    } else if value == KeySym::F3 {
        Some(SpecialKeyboardButton::F3)
    } else if value == KeySym::F4 {
        Some(SpecialKeyboardButton::F4)
    } else if value == KeySym::F5 {
        Some(SpecialKeyboardButton::F5)
    } else if value == KeySym::F6 {
        Some(SpecialKeyboardButton::F6)
    } else if value == KeySym::F7 {
        Some(SpecialKeyboardButton::F7)
    } else if value == KeySym::F8 {
        Some(SpecialKeyboardButton::F8)
    } else if value == KeySym::F9 {
        Some(SpecialKeyboardButton::F9)
    } else if value == KeySym::F10 {
        Some(SpecialKeyboardButton::F10)
    } else if value == KeySym::F11 {
        Some(SpecialKeyboardButton::F11)
    } else if value == KeySym::F12 {
        Some(SpecialKeyboardButton::F12)
    } else if value == KeySym::F13 {
        Some(SpecialKeyboardButton::F13)
    } else if value == KeySym::F14 {
        Some(SpecialKeyboardButton::F14)
    } else if value == KeySym::F15 {
        Some(SpecialKeyboardButton::F15)
    } else if value == KeySym::F16 {
        Some(SpecialKeyboardButton::F16)
    } else if value == KeySym::F17 {
        Some(SpecialKeyboardButton::F17)
    } else if value == KeySym::F18 {
        Some(SpecialKeyboardButton::F18)
    } else if value == KeySym::F19 {
        Some(SpecialKeyboardButton::F19)
    } else if value == KeySym::F20 {
        Some(SpecialKeyboardButton::F20)
    } else if value == KeySym::F21 {
        Some(SpecialKeyboardButton::F21)
    } else if value == KeySym::F22 {
        Some(SpecialKeyboardButton::F22)
    } else if value == KeySym::F23 {
        Some(SpecialKeyboardButton::F23)
    } else if value == KeySym::F24 {
        Some(SpecialKeyboardButton::F24)
    } else if value == KeySym::F25 {
        Some(SpecialKeyboardButton::F25)
    } else if value == KeySym::F26 {
        Some(SpecialKeyboardButton::F26)
    } else if value == KeySym::F27 {
        Some(SpecialKeyboardButton::F27)
    } else if value == KeySym::F28 {
        Some(SpecialKeyboardButton::F28)
    } else if value == KeySym::F29 {
        Some(SpecialKeyboardButton::F29)
    } else if value == KeySym::F30 {
        Some(SpecialKeyboardButton::F30)
    } else if value == KeySym::F31 {
        Some(SpecialKeyboardButton::F31)
    } else if value == KeySym::F32 {
        Some(SpecialKeyboardButton::F32)
    } else if value == KeySym::F33 {
        Some(SpecialKeyboardButton::F33)
    } else if value == KeySym::F34 {
        Some(SpecialKeyboardButton::F34)
    } else if value == KeySym::F35 {
        Some(SpecialKeyboardButton::F35)
    } else if value == KeySym::Shift_L {
        Some(SpecialKeyboardButton::ShiftL)
    } else if value == KeySym::Shift_R {
        Some(SpecialKeyboardButton::ShiftR)
    } else if value == KeySym::Control_L {
        Some(SpecialKeyboardButton::ControlL)
    } else if value == KeySym::Control_R {
        Some(SpecialKeyboardButton::ControlR)
    } else if value == KeySym::Caps_Lock {
        Some(SpecialKeyboardButton::CapsLock)
    } else if value == KeySym::Shift_Lock {
        Some(SpecialKeyboardButton::ShiftLock)
    } else if value == KeySym::Meta_L {
        Some(SpecialKeyboardButton::MetaL)
    } else if value == KeySym::Meta_R {
        Some(SpecialKeyboardButton::MetaR)
    } else if value == KeySym::Alt_L {
        Some(SpecialKeyboardButton::AltL)
    } else if value == KeySym::Alt_R {
        Some(SpecialKeyboardButton::AltR)
    } else if value == KeySym::Super_L {
        Some(SpecialKeyboardButton::SuperL)
    } else if value == KeySym::Super_R {
        Some(SpecialKeyboardButton::SuperR)
    } else if value == KeySym::Hyper_L {
        Some(SpecialKeyboardButton::HyperL)
    } else if value == KeySym::Hyper_R {
        Some(SpecialKeyboardButton::HyperR)
    } else {
        None
    }
}

/// Whether `value` is the number of a character: at most `0x10FFFF` and not a surrogate.
pub open spec fn is_scalar(value: u32) -> bool {
    value <= 0x10FFFF && !(0xD800 <= value <= 0xDFFF)
}

/// `char::from_u32` of std: the documentation says it gives the character numbered
/// `value` exactly when `value` is at most `0x10FFFF` and not a surrogate.
#[verifier::external_body]
fn char_from_u32(value: u32) -> (r: Option<char>)
    ensures
        r is Some <==> is_scalar(value),
        r matches Some(c) ==> c as u32 == value,
{
    char::from_u32(value)
}

impl KeyboardButton {
    /// The key of a key symbol: a named key, or else the character it numbers; the empty
    /// symbols and numbers that are no character are given back as errors.
    pub fn try_from_keysym(value: KeySym) -> (r: Result<Self, KeySym>)
        ensures
            value.inner == KeySym::VOID_SYMBOL || value.inner == KeySym::NO_SYMBOL ==> r
                == Err::<Self, KeySym>(value),
            !(value.inner == KeySym::VOID_SYMBOL || value.inner == KeySym::NO_SYMBOL) ==> match spec_special(value.inner) {
                Some(b) => r == Ok::<Self, KeySym>(KeyboardButton::Special(b)),
                None => if is_scalar(value.inner) {
                    r matches Ok(KeyboardButton::Unicode(c)) && c as u32 == value.inner
                } else {
                    r == Err::<Self, KeySym>(value)
                },
            },
    {
        let v = value.inner;
        if v == KeySym::VOID_SYMBOL || v == KeySym::NO_SYMBOL {
            return Err(value);
        }
        if v == KeySym::BackSpace {
            Ok(KeyboardButton::Special(SpecialKeyboardButton::BackSpace))
        } else if v == KeySym::Tab {
            Ok(KeyboardButton::Special(SpecialKeyboardButton::Tab))
        } else if v == KeySym::Linefeed {
            Ok(KeyboardButton::Special(SpecialKeyboardButton::Linefeed))
        } else if v == KeySym::Clear {
            Ok(KeyboardButton::Special(SpecialKeyboardButton::Clear))
        } else if v == KeySym::Return {
            Ok(KeyboardButton::Special(SpecialKeyboardButton::Return))
        } else if v == KeySym::Pause {
            Ok(KeyboardButton::Special(SpecialKeyboardButton::Pause))
        } else if v == KeySym::Scroll_Lock {
            Ok(KeyboardButton::Special(SpecialKeyboardButton::ScrollLock))
        } else if v == KeySym::Sys_Req {
            Ok(KeyboardButton::Special(SpecialKeyboardButton::SysReq))
        } else if v == KeySym::Escape {
            Ok(KeyboardButton::Special(SpecialKeyboardButton::Escape))
        } else if v == KeySym::Delete {
            Ok(KeyboardButton::Special(SpecialKeyboardButton::Delete))
        } else if v == KeySym::Multi_key {
            Ok(KeyboardButton::Special(SpecialKeyboardButton::MultiKey))
        } else if v == KeySym::Codeinput {
            Ok(KeyboardButton::Special(SpecialKeyboardButton::Codeinput))
        } else if v == KeySym::SingleCandidate {
            Ok(KeyboardButton::Special(SpecialKeyboardButton::SingleCandidate))
        } else if v == KeySym::MultipleCandidate {
            Ok(KeyboardButton::Special(SpecialKeyboardButton::MultipleCandidate))
        } else if v == KeySym::PreviousCandidate {
            Ok(KeyboardButton::Special(SpecialKeyboardButton::PreviousCandidate))
        } else if v == KeySym::Home {
            Ok(KeyboardButton::Special(SpecialKeyboardButton::Home))
        } else if v == KeySym::Left {
            Ok(KeyboardButton::Special(SpecialKeyboardButton::Left))
        } else if v == KeySym::Up {
            Ok(KeyboardButton::Special(SpecialKeyboardButton::Up))
        } else if v == KeySym::Right {
            Ok(KeyboardButton::Special(SpecialKeyboardButton::Right))
        } else if v == KeySym::Down {
            Ok(KeyboardButton::Special(SpecialKeyboardButton::Down))
        } else if v == KeySym::Prior {
            Ok(KeyboardButton::Special(SpecialKeyboardButton::Prior))
        } else if v == KeySym::Next {
            Ok(KeyboardButton::Special(SpecialKeyboardButton::Next))
        } else if v == KeySym::End {
            Ok(KeyboardButton::Special(SpecialKeyboardButton::End))
        } else if v == KeySym::Begin {
            Ok(KeyboardButton::Special(SpecialKeyboardButton::Begin))
        } else if v == KeySym::Select {
            Ok(KeyboardButton::Special(SpecialKeyboardButton::Select))
        } else if v == KeySym::Print {
            Ok(KeyboardButton::Special(SpecialKeyboardButton::Print))
        } else if v == KeySym::Execute {
            Ok(KeyboardButton::Special(SpecialKeyboardButton::Execute))
        } else if v == KeySym::Insert {
            Ok(KeyboardButton::Special(SpecialKeyboardButton::Insert))
        } else if v == KeySym::Undo {
            Ok(KeyboardButton::Special(SpecialKeyboardButton::Undo))
        } else if v == KeySym::Redo {
            Ok(KeyboardButton::Special(SpecialKeyboardButton::Redo))
        } else if v == KeySym::Menu {
            Ok(KeyboardButton::Special(SpecialKeyboardButton::Menu))
        } else if v == KeySym::Find {
            Ok(KeyboardButton::Special(SpecialKeyboardButton::Find))
        } else if v == KeySym::Cancel {
            Ok(KeyboardButton::Special(SpecialKeyboardButton::Cancel))
        } else if v == KeySym::Help {
            Ok(KeyboardButton::Special(SpecialKeyboardButton::Help))
        } else if v == KeySym::Break {
            Ok(KeyboardButton::Special(SpecialKeyboardButton::Break))
        } else if v == KeySym::Mode_switch {
            Ok(KeyboardButton::Special(SpecialKeyboardButton::ModeSwitch))
        } else if v == KeySym::Num_Lock {
            Ok(KeyboardButton::Special(SpecialKeyboardButton::NumLock))
        } else if v == KeySym::F1 {
            Ok(KeyboardButton::Special(SpecialKeyboardButton::F1))
        } else if v == KeySym::F2 {
            Ok(KeyboardButton::Special(SpecialKeyboardButton::F2))
        } else if v == KeySym::F3 {
            Ok(KeyboardButton::Special(SpecialKeyboardButton::F3))
        } else if v == KeySym::F4 {
            Ok(KeyboardButton::Special(SpecialKeyboardButton::F4))
        } else if v == KeySym::F5 {
            Ok(KeyboardButton::Special(SpecialKeyboardButton::F5))
        } else if v == KeySym::F6 {
            Ok(KeyboardButton::Special(SpecialKeyboardButton::F6))
        } else if v == KeySym::F7 {
            Ok(KeyboardButton::Special(SpecialKeyboardButton::F7))
        } else if v == KeySym::F8 {
            Ok(KeyboardButton::Special(SpecialKeyboardButton::F8))
        } else if v == KeySym::F9 {
            Ok(KeyboardButton::Special(SpecialKeyboardButton::F9))
        } else if v == KeySym::F10 {
            Ok(KeyboardButton::Special(SpecialKeyboardButton::F10))
        } else if v == KeySym::F11 {
            Ok(KeyboardButton::Special(SpecialKeyboardButton::F11))
        } else if v == KeySym::F12 {
            Ok(KeyboardButton::Special(SpecialKeyboardButton::F12))
        } else if v == KeySym::F13 {
            Ok(KeyboardButton::Special(SpecialKeyboardButton::F13))
        } else if v == KeySym::F14 {
            Ok(KeyboardButton::Special(SpecialKeyboardButton::F14))
        } else if v == KeySym::F15 {
            Ok(KeyboardButton::Special(SpecialKeyboardButton::F15))
        } else if v == KeySym::F16 {
            Ok(KeyboardButton::Special(SpecialKeyboardButton::F16))
        } else if v == KeySym::F17 {
            Ok(KeyboardButton::Special(SpecialKeyboardButton::F17))
        } else if v == KeySym::F18 {
            Ok(KeyboardButton::Special(SpecialKeyboardButton::F18))
        } else if v == KeySym::F19 {
            Ok(KeyboardButton::Special(SpecialKeyboardButton::F19))
        } else if v == KeySym::F20 {
            Ok(KeyboardButton::Special(SpecialKeyboardButton::F20))
        } else if v == KeySym::F21 {
            Ok(KeyboardButton::Special(SpecialKeyboardButton::F21))
        } else if v == KeySym::F22 {
            Ok(KeyboardButton::Special(SpecialKeyboardButton::F22))
        } else if v == KeySym::F23 {
            Ok(KeyboardButton::Special(SpecialKeyboardButton::F23))
        } else if v == KeySym::F24 {
            Ok(KeyboardButton::Special(SpecialKeyboardButton::F24))
        } else if v == KeySym::F25 {
            Ok(KeyboardButton::Special(SpecialKeyboardButton::F25))
        } else if v == KeySym::F26 {
            Ok(KeyboardButton::Special(SpecialKeyboardButton::F26))
        } else if v == KeySym::F27 {
            Ok(KeyboardButton::Special(SpecialKeyboardButton::F27))
        } else if v == KeySym::F28 {
            Ok(KeyboardButton::Special(SpecialKeyboardButton::F28))
        } else if v == KeySym::F29 {
            Ok(KeyboardButton::Special(SpecialKeyboardButton::F29))
        } else if v == KeySym::F30 {
            Ok(KeyboardButton::Special(SpecialKeyboardButton::F30))
        } else if v == KeySym::F31 {
            Ok(KeyboardButton::Special(SpecialKeyboardButton::F31))
        } else if v == KeySym::F32 {
            Ok(KeyboardButton::Special(SpecialKeyboardButton::F32))
        } else if v == KeySym::F33 {
            Ok(KeyboardButton::Special(SpecialKeyboardButton::F33))
        } else if v == KeySym::F34 {
            Ok(KeyboardButton::Special(SpecialKeyboardButton::F34))
        } else if v == KeySym::F35 {
            Ok(KeyboardButton::Special(SpecialKeyboardButton::F35))
        } else if v == KeySym::Shift_L {
            Ok(KeyboardButton::Special(SpecialKeyboardButton::ShiftL))
        } else if v == KeySym::Shift_R {
            Ok(KeyboardButton::Special(SpecialKeyboardButton::ShiftR))
        } else if v == KeySym::Control_L {
            Ok(KeyboardButton::Special(SpecialKeyboardButton::ControlL))
        } else if v == KeySym::Control_R {
            Ok(KeyboardButton::Special(SpecialKeyboardButton::ControlR))
        } else if v == KeySym::Caps_Lock {
            Ok(KeyboardButton::Special(SpecialKeyboardButton::CapsLock))
        } else if v == KeySym::Shift_Lock {
            Ok(KeyboardButton::Special(SpecialKeyboardButton::ShiftLock))
        } else if v == KeySym::Meta_L {
            Ok(KeyboardButton::Special(SpecialKeyboardButton::MetaL))
        } else if v == KeySym::Meta_R {
            Ok(KeyboardButton::Special(SpecialKeyboardButton::MetaR))
        } else if v == KeySym::Alt_L {
            Ok(KeyboardButton::Special(SpecialKeyboardButton::AltL))
        } else if v == KeySym::Alt_R {
            Ok(KeyboardButton::Special(SpecialKeyboardButton::AltR))
        } else if v == KeySym::Super_L {
            Ok(KeyboardButton::Special(SpecialKeyboardButton::SuperL))
        } else if v == KeySym::Super_R {
            Ok(KeyboardButton::Special(SpecialKeyboardButton::SuperR))
        } else if v == KeySym::Hyper_L {
            Ok(KeyboardButton::Special(SpecialKeyboardButton::HyperL))
        } else if v == KeySym::Hyper_R {
            Ok(KeyboardButton::Special(SpecialKeyboardButton::HyperR))
        } else {
            match char_from_u32(v) {
                Some(c) => Ok(KeyboardButton::Unicode(c)),
                None => Err(value),
            }
        }
    }
}

} // verus!
