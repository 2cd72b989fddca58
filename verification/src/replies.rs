//! Replies of the core protocol.
use vstd::prelude::*;
use vstd::utf8::{decode_utf8, valid_utf8};

use crate::bytes::{
    pad, spec_le_i16, spec_le_i32, spec_le_u16, spec_le_u32, spec_pad, ByteReader,
};
use crate::error::{eof_error, Error};
use crate::keysym::KeySym;
use crate::ids::{
    lemma_raw_is_view, AtomId, ColormapId, KeyCode, OrNone, Timestamp, VisualId, WindowId, XId,
};

verus! {

/// Address family of a host in the access list.
#[derive(Debug, Clone, Copy, PartialEq, Eq, Structural, PartialOrd, Ord, Hash)]
pub enum HostFamily {
    Internet,
    DECnet,
    Chaos,
    ServerImplemented,
    InternetV6,
}

impl HostFamily {
    /// The variant encoded by `value`, if any.
    pub open spec fn spec_from_u8(value: u8) -> Option<HostFamily> {
        if value == 0 {
            Some(HostFamily::Internet)
        } else if value == 1 {
            Some(HostFamily::DECnet)
        } else if value == 2 {
            Some(HostFamily::Chaos)
        } else if value == 5 {
            Some(HostFamily::ServerImplemented)
        } else if value == 6 {
            Some(HostFamily::InternetV6)
        } else {
            None
        }
    }

    /// The variant encoded by `value`, if any.
    pub fn from_u8(value: u8) -> (r: Option<HostFamily>)
        ensures
            r == Self::spec_from_u8(value),
    {
        match value {
            0 => Some(HostFamily::Internet),
            1 => Some(HostFamily::DECnet),
            2 => Some(HostFamily::Chaos),
            5 => Some(HostFamily::ServerImplemented),
            6 => Some(HostFamily::InternetV6),
            _ => None,
        }
    }

    /// The wire value of the variant.
    pub open spec fn spec_to_u8(self) -> u8 {
        match self {
            HostFamily::Internet => 0,
            HostFamily::DECnet => 1,
            HostFamily::Chaos => 2,
            HostFamily::ServerImplemented => 5,
            HostFamily::InternetV6 => 6,
        }
    }

    /// The wire value of the variant.
    pub fn to_u8(self) -> (r: u8)
        ensures
            r == self.spec_to_u8(),
            Self::spec_from_u8(r) == Some(self),
    {
        match self {
            HostFamily::Internet => 0,
            HostFamily::DECnet => 1,
            HostFamily::Chaos => 2,
            HostFamily::ServerImplemented => 5,
            HostFamily::InternetV6 => 6,
        }
    }
}

/// Outcome of a pointer grab.
#[derive(Debug, Clone, Copy, PartialEq, Eq, Structural, PartialOrd, Ord, Hash)]
pub enum GrabPointerStatus {
    Success,
    AlreadyGrabbed,
    InvalidTime,
    NotViewable,
    Frozen,
}

impl GrabPointerStatus {
    /// The variant encoded by `value`, if any.
    pub open spec fn spec_from_u8(value: u8) -> Option<GrabPointerStatus> {
        if value == 0 {
            Some(GrabPointerStatus::Success)
        } else if value == 1 {
            Some(GrabPointerStatus::AlreadyGrabbed)
        } else if value == 2 {
            Some(GrabPointerStatus::InvalidTime)
        } else if value == 3 {
            Some(GrabPointerStatus::NotViewable)
        } else if value == 4 {
            Some(GrabPointerStatus::Frozen)
        } else {
            None
        }
    }

    /// The variant encoded by `value`, if any.
    pub fn from_u8(value: u8) -> (r: Option<GrabPointerStatus>)
        ensures
            r == Self::spec_from_u8(value),
    {
        match value {
            0 => Some(GrabPointerStatus::Success),
            1 => Some(GrabPointerStatus::AlreadyGrabbed),
            2 => Some(GrabPointerStatus::InvalidTime),
            3 => Some(GrabPointerStatus::NotViewable),
            4 => Some(GrabPointerStatus::Frozen),
            _ => None,
        }
    }

    /// The wire value of the variant.
    pub open spec fn spec_to_u8(self) -> u8 {
        match self {
            GrabPointerStatus::Success => 0,
            GrabPointerStatus::AlreadyGrabbed => 1,
            GrabPointerStatus::InvalidTime => 2,
            GrabPointerStatus::NotViewable => 3,
            GrabPointerStatus::Frozen => 4,
        }
    }

    /// The wire value of the variant.
    pub fn to_u8(self) -> (r: u8)
        ensures
            r == self.spec_to_u8(),
            Self::spec_from_u8(r) == Some(self),
    {
        match self {
            GrabPointerStatus::Success => 0,
            GrabPointerStatus::AlreadyGrabbed => 1,
            GrabPointerStatus::InvalidTime => 2,
            GrabPointerStatus::NotViewable => 3,
            GrabPointerStatus::Frozen => 4,
        }
    }
}

/// Outcome of a keyboard grab.
#[derive(Debug, Clone, Copy, PartialEq, Eq, Structural, PartialOrd, Ord, Hash)]
pub enum GrabKeyboardStatus {
    Success,
    AlreadyGrabbed,
    InvalidTime,
    NotViewable,
    Frozen,
}

impl GrabKeyboardStatus {
    /// The variant encoded by `value`, if any.
    pub open spec fn spec_from_u8(value: u8) -> Option<GrabKeyboardStatus> {
        if value == 0 {
            Some(GrabKeyboardStatus::Success)
        } else if value == 1 {
            Some(GrabKeyboardStatus::AlreadyGrabbed)
        } else if value == 2 {
            Some(GrabKeyboardStatus::InvalidTime)
        } else if value == 3 {
            Some(GrabKeyboardStatus::NotViewable)
        } else if value == 4 {
            Some(GrabKeyboardStatus::Frozen)
        } else {
            None
        }
    }

    /// The variant encoded by `value`, if any.
    pub fn from_u8(value: u8) -> (r: Option<GrabKeyboardStatus>)
        ensures
            r == Self::spec_from_u8(value),
    {
        match value {
            0 => Some(GrabKeyboardStatus::Success),
            1 => Some(GrabKeyboardStatus::AlreadyGrabbed),
            2 => Some(GrabKeyboardStatus::InvalidTime),
            3 => Some(GrabKeyboardStatus::NotViewable),
            4 => Some(GrabKeyboardStatus::Frozen),
            _ => None,
        }
    }

    /// The wire value of the variant.
    pub open spec fn spec_to_u8(self) -> u8 {
        match self {
            GrabKeyboardStatus::Success => 0,
            GrabKeyboardStatus::AlreadyGrabbed => 1,
            GrabKeyboardStatus::InvalidTime => 2,
            GrabKeyboardStatus::NotViewable => 3,
            GrabKeyboardStatus::Frozen => 4,
        }
    }

    /// The wire value of the variant.
    pub fn to_u8(self) -> (r: u8)
        ensures
            r == self.spec_to_u8(),
            Self::spec_from_u8(r) == Some(self),
    {
        match self {
            GrabKeyboardStatus::Success => 0,
            GrabKeyboardStatus::AlreadyGrabbed => 1,
            GrabKeyboardStatus::InvalidTime => 2,
            GrabKeyboardStatus::NotViewable => 3,
            GrabKeyboardStatus::Frozen => 4,
        }
    }
}

/// Where the focus reverts when the focused window becomes unviewable.
#[derive(Debug, Clone, Copy, PartialEq, Eq, Structural, PartialOrd, Ord, Hash)]
pub enum RevertTo {
    Nothing,
    PointerRoot,
    Parent,
}

impl RevertTo {
    /// The variant encoded by `value`, if any.
    pub open spec fn spec_from_u8(value: u8) -> Option<RevertTo> {
        if value == 0 {
            Some(RevertTo::Nothing)
        } else if value == 1 {
            Some(RevertTo::PointerRoot)
        } else if value == 2 {
            Some(RevertTo::Parent)
        } else {
            None
        }
    }

    /// The variant encoded by `value`, if any.
    pub fn from_u8(value: u8) -> (r: Option<RevertTo>)
        ensures
            r == Self::spec_from_u8(value),
    {
        match value {
            0 => Some(RevertTo::Nothing),
            1 => Some(RevertTo::PointerRoot),
            2 => Some(RevertTo::Parent),
            _ => None,
        }
    }

    /// The wire value of the variant.
    pub open spec fn spec_to_u8(self) -> u8 {
        match self {
            RevertTo::Nothing => 0,
            RevertTo::PointerRoot => 1,
            RevertTo::Parent => 2,
        }
    }

    /// The wire value of the variant.
    pub fn to_u8(self) -> (r: u8)
        ensures
            r == self.spec_to_u8(),
            Self::spec_from_u8(r) == Some(self),
    {
        match self {
            RevertTo::Nothing => 0,
            RevertTo::PointerRoot => 1,
            RevertTo::Parent => 2,
        }
    }
}

/// Drawing direction of a font.
#[derive(Debug, Clone, Copy, PartialEq, Eq, Structural, PartialOrd, Ord, Hash)]
pub enum DrawDirection {
    LeftToRight,
    RightToLeft,
}

impl DrawDirection {
    /// The variant encoded by `value`, if any.
    pub open spec fn spec_from_u8(value: u8) -> Option<DrawDirection> {
        if value == 0 {
            Some(DrawDirection::LeftToRight)
        } else if value == 1 {
            Some(DrawDirection::RightToLeft)
        } else {
            None
        }
    }

    /// The variant encoded by `value`, if any.
    pub fn from_u8(value: u8) -> (r: Option<DrawDirection>)
        ensures
            r == Self::spec_from_u8(value),
    {
        match value {
            0 => Some(DrawDirection::LeftToRight),
            1 => Some(DrawDirection::RightToLeft),
            _ => None,
        }
    }

    /// The wire value of the variant.
    pub open spec fn spec_to_u8(self) -> u8 {
        match self {
            DrawDirection::LeftToRight => 0,
            DrawDirection::RightToLeft => 1,
        }
    }

    /// The wire value of the variant.
    pub fn to_u8(self) -> (r: u8)
        ensures
            r == self.spec_to_u8(),
            Self::spec_from_u8(r) == Some(self),
    {
        match self {
            DrawDirection::LeftToRight => 0,
            DrawDirection::RightToLeft => 1,
        }
    }
}

/// Whether access control is enabled.
#[derive(Debug, Clone, Copy, PartialEq, Eq, Structural, PartialOrd, Ord, Hash)]
pub enum HostMode {
    Disabled,
    Enabled,
}

impl HostMode {
    /// The variant encoded by `value`, if any.
    pub open spec fn spec_from_u8(value: u8) -> Option<HostMode> {
        if value == 0 {
            Some(HostMode::Disabled)
        } else if value == 1 {
            Some(HostMode::Enabled)
        } else {
            None
        }
    }

    /// The variant encoded by `value`, if any.
    pub fn from_u8(value: u8) -> (r: Option<HostMode>)
        ensures
            r == Self::spec_from_u8(value),
    {
        match value {
            0 => Some(HostMode::Disabled),
            1 => Some(HostMode::Enabled),
            _ => None,
        }
    }

    /// The wire value of the variant.
    pub open spec fn spec_to_u8(self) -> u8 {
        match self {
            HostMode::Disabled => 0,
            HostMode::Enabled => 1,
        }
    }

    /// The wire value of the variant.
    pub fn to_u8(self) -> (r: u8)
        ensures
            r == self.spec_to_u8(),
            Self::spec_from_u8(r) == Some(self),
    {
        match self {
            HostMode::Disabled => 0,
            HostMode::Enabled => 1,
        }
    }
}

/// Outcome of setting the pointer mapping.
#[derive(Debug, Clone, Copy, PartialEq, Eq, Structural, PartialOrd, Ord, Hash)]
pub enum SetPointerMappingStatus {
    Success,
    Busy,
}

impl SetPointerMappingStatus {
    /// The variant encoded by `value`, if any.
    pub open spec fn spec_from_u8(value: u8) -> Option<SetPointerMappingStatus> {
        if value == 0 {
            Some(SetPointerMappingStatus::Success)
        } else if value == 1 {
            Some(SetPointerMappingStatus::Busy)
        } else {
            None
        }
    }

    /// The variant encoded by `value`, if any.
    pub fn from_u8(value: u8) -> (r: Option<SetPointerMappingStatus>)
        ensures
            r == Self::spec_from_u8(value),
    {
        match value {
            0 => Some(SetPointerMappingStatus::Success),
            1 => Some(SetPointerMappingStatus::Busy),
            _ => None,
        }
    }

    /// The wire value of the variant.
    pub open spec fn spec_to_u8(self) -> u8 {
        match self {
            SetPointerMappingStatus::Success => 0,
            SetPointerMappingStatus::Busy => 1,
        }
    }

    /// The wire value of the variant.
    pub fn to_u8(self) -> (r: u8)
        ensures
            r == self.spec_to_u8(),
            Self::spec_from_u8(r) == Some(self),
    {
        match self {
            SetPointerMappingStatus::Success => 0,
            SetPointerMappingStatus::Busy => 1,
        }
    }
}

/// Outcome of setting the modifier mapping.
#[derive(Debug, Clone, Copy, PartialEq, Eq, Structural, PartialOrd, Ord, Hash)]
pub enum SetModifierMappingStatus {
    Success,
    Busy,
    Failed,
}

impl SetModifierMappingStatus {
    /// The variant encoded by `value`, if any.
    pub open spec fn spec_from_u8(value: u8) -> Option<SetModifierMappingStatus> {
        if value == 0 {
            Some(SetModifierMappingStatus::Success)
        } else if value == 1 {
            Some(SetModifierMappingStatus::Busy)
        } else if value == 2 {
            Some(SetModifierMappingStatus::Failed)
        } else {
            None
        }
    }

    /// The variant encoded by `value`, if any.
    pub fn from_u8(value: u8) -> (r: Option<SetModifierMappingStatus>)
        ensures
            r == Self::spec_from_u8(value),
    {
        match value {
            0 => Some(SetModifierMappingStatus::Success),
            1 => Some(SetModifierMappingStatus::Busy),
            2 => Some(SetModifierMappingStatus::Failed),
            _ => None,
        }
    }

    /// The wire value of the variant.
    pub open spec fn spec_to_u8(self) -> u8 {
        match self {
            SetModifierMappingStatus::Success => 0,
            SetModifierMappingStatus::Busy => 1,
            SetModifierMappingStatus::Failed => 2,
        }
    }

    /// The wire value of the variant.
    pub fn to_u8(self) -> (r: u8)
        ensures
            r == self.spec_to_u8(),
            Self::spec_from_u8(r) == Some(self),
    {
        match self {
            SetModifierMappingStatus::Success => 0,
            SetModifierMappingStatus::Busy => 1,
            SetModifierMappingStatus::Failed => 2,
        }
    }
}

/// Attributes of a window.
#[derive(Debug, Clone, PartialEq, Eq)]
pub struct GetWindowAttributes {
    pub backing_store: u8,
    pub visual_id: u32,
    pub class: u16,
    pub bit_gravity: u8,
    pub win_gravity: u8,
    pub backing_planes: u32,
    pub backing_pixel: u32,
    pub save_under: bool,
    pub map_is_installed: bool,
    pub map_state: u8,
    pub override_redirect: bool,
    pub colormap: u32,
    pub all_even_masks: u32,
    pub your_even_masks: u32,
    pub do_not_propagate_mask: u16,
}

impl GetWindowAttributes {
    /// Whether `self` holds the fields encoded at the front of `s`.
    pub open spec fn decodes(self, s: Seq<u8>) -> bool {
        &&& self.backing_store == s[0]
        &&& self.visual_id == spec_le_u32(s, 7)
        &&& self.class == spec_le_u16(s, 11)
        &&& self.bit_gravity == s[13]
        &&& self.win_gravity == s[14]
        &&& self.backing_planes == spec_le_u32(s, 15)
        &&& self.backing_pixel == spec_le_u32(s, 19)
        &&& self.save_under == (s[23] != 0)
        &&& self.map_is_installed == (s[24] != 0)
        &&& self.map_state == s[25]
        &&& self.override_redirect == (s[26] != 0)
        &&& self.colormap == spec_le_u32(s, 27)
        &&& self.all_even_masks == spec_le_u32(s, 31)
        &&& self.your_even_masks == spec_le_u32(s, 35)
        &&& self.do_not_propagate_mask == spec_le_u16(s, 39)
    }

    /// Decodes the reply; its first byte was already consumed.
    pub fn from_le_bytes(conn: &mut ByteReader) -> (r: Result<Self, Error>)
        ensures
            ({
                let s = old(conn)@;
                if s.len() < 43 {
                    r == Err::<Self, Error>(eof_error()) && final(conn)@ == s
                } else {
                    r matches Ok(v) && v.decodes(s) && final(conn)@ == s.subrange(43, s.len() as int)
                }
            }),
    {
        proof {
            lemma_raw_is_view();
        }
        if conn.len() < 43 {
            return Err(Error::eof());
        }
        let backing_store = conn.byte(0);
        let visual_id = conn.le_u32_ahead(7);
        let class = conn.le_u16_ahead(11);
        let bit_gravity = conn.byte(13);
        let win_gravity = conn.byte(14);
        let backing_planes = conn.le_u32_ahead(15);
        let backing_pixel = conn.le_u32_ahead(19);
        let save_under = conn.byte(23) != 0;
        let map_is_installed = conn.byte(24) != 0;
        let map_state = conn.byte(25);
        let override_redirect = conn.byte(26) != 0;
        let colormap = conn.le_u32_ahead(27);
        let all_even_masks = conn.le_u32_ahead(31);
        let your_even_masks = conn.le_u32_ahead(35);
        let do_not_propagate_mask = conn.le_u16_ahead(39);
        conn.advance(43);
        Ok(GetWindowAttributes { backing_store, visual_id, class, bit_gravity, win_gravity, backing_planes, backing_pixel, save_under, map_is_installed, map_state, override_redirect, colormap, all_even_masks, your_even_masks, do_not_propagate_mask })
    }
}

/// Position and size of a drawable.
#[derive(Debug, Clone, PartialEq, Eq)]
pub struct GetGeometry {
    pub depth: u8,
    pub root: WindowId,
    pub x: i16,
    pub y: i16,
    pub width: u16,
    pub height: u16,
    pub border_width: u16,
}

impl GetGeometry {
    /// Whether `self` holds the fields encoded at the front of `s`.
    pub open spec fn decodes(self, s: Seq<u8>) -> bool {
        &&& self.depth == s[0]
        &&& self.root@ == spec_le_u32(s, 7)
        &&& self.x == spec_le_i16(s, 11)
        &&& self.y == spec_le_i16(s, 13)
        &&& self.width == spec_le_u16(s, 15)
        &&& self.height == spec_le_u16(s, 17)
        &&& self.border_width == spec_le_u16(s, 19)
    }

    /// Decodes the reply; its first byte was already consumed.
    pub fn from_le_bytes(conn: &mut ByteReader) -> (r: Result<Self, Error>)
        ensures
            ({
                let s = old(conn)@;
                if s.len() < 31 {
                    r == Err::<Self, Error>(eof_error()) && final(conn)@ == s
                } else {
                    r matches Ok(v) && v.decodes(s) && final(conn)@ == s.subrange(31, s.len() as int)
                }
            }),
    {
        proof {
            lemma_raw_is_view();
        }
        if conn.len() < 31 {
            return Err(Error::eof());
        }
        let depth = conn.byte(0);
        let root = WindowId::unchecked_from(conn.le_u32_ahead(7));
        let x = conn.le_i16_ahead(11);
        let y = conn.le_i16_ahead(13);
        let width = conn.le_u16_ahead(15);
        let height = conn.le_u16_ahead(17);
        let border_width = conn.le_u16_ahead(19);
        conn.advance(31);
        Ok(GetGeometry { depth, root, x, y, width, height, border_width })
    }
}

/// The atom of a name.
#[derive(Debug, Clone, PartialEq, Eq)]
pub struct InternAtom {
    pub atom: AtomId,
}

impl InternAtom {
    /// Whether `self` holds the fields encoded at the front of `s`.
    pub open spec fn decodes(self, s: Seq<u8>) -> bool {
        &&& self.atom@ == spec_le_u32(s, 7)
    }

    /// Decodes the reply; its first byte was already consumed.
    pub fn from_le_bytes(conn: &mut ByteReader) -> (r: Result<Self, Error>)
        ensures
            ({
                let s = old(conn)@;
                if s.len() < 31 {
                    r == Err::<Self, Error>(eof_error()) && final(conn)@ == s
                } else {
                    r matches Ok(v) && v.decodes(s) && final(conn)@ == s.subrange(31, s.len() as int)
                }
            }),
    {
        proof {
            lemma_raw_is_view();
        }
        if conn.len() < 31 {
            return Err(Error::eof());
        }
        let atom = AtomId::unchecked_from(conn.le_u32_ahead(7));
        conn.advance(31);
        Ok(InternAtom { atom })
    }
}

/// The owner of a selection.
#[derive(Debug, Clone, PartialEq, Eq)]
pub struct GetSelectionOwner {
    pub owner: WindowId,
}

impl GetSelectionOwner {
    /// Whether `self` holds the fields encoded at the front of `s`.
    pub open spec fn decodes(self, s: Seq<u8>) -> bool {
        &&& self.owner@ == spec_le_u32(s, 7)
    }

    /// Decodes the reply; its first byte was already consumed.
    pub fn from_le_bytes(conn: &mut ByteReader) -> (r: Result<Self, Error>)
        ensures
            ({
                let s = old(conn)@;
                if s.len() < 31 {
                    r == Err::<Self, Error>(eof_error()) && final(conn)@ == s
                } else {
                    r matches Ok(v) && v.decodes(s) && final(conn)@ == s.subrange(31, s.len() as int)
                }
            }),
    {
        proof {
            lemma_raw_is_view();
        }
        if conn.len() < 31 {
            return Err(Error::eof());
        }
        let owner = WindowId::unchecked_from(conn.le_u32_ahead(7));
        conn.advance(31);
        Ok(GetSelectionOwner { owner })
    }
}

/// Outcome of a pointer grab.
#[derive(Debug, Clone, PartialEq, Eq)]
pub struct GrabPointer {
    pub status: GrabPointerStatus,
}

impl GrabPointer {
    /// Whether `self` holds the fields encoded at the front of `s`.
    pub open spec fn decodes(self, s: Seq<u8>) -> bool {
        &&& GrabPointerStatus::spec_from_u8(s[0]) == Some(self.status)
    }

    /// The error decoding stops at, where an enumerated field holds an unknown value.
    pub open spec fn spec_invalid_enum(s: Seq<u8>) -> Option<Error> {
        if s.len() >= 1 && GrabPointerStatus::spec_from_u8(s[0]) is None {
            Some(Error::InvalidEnum("Self", s[0] as u64))
        } else {
            None
        }
    }

    /// Decodes the reply; its first byte was already consumed.
    pub fn from_le_bytes(conn: &mut ByteReader) -> (r: Result<Self, Error>)
        ensures
            ({
                let s = old(conn)@;
                if Self::spec_invalid_enum(s) is Some {
                    r == Err::<Self, Error>(Self::spec_invalid_enum(s)->0) && final(conn)@ == s
                } else if s.len() < 31 {
                    r == Err::<Self, Error>(eof_error()) && final(conn)@ == s
                } else {
                    r matches Ok(v) && v.decodes(s) && final(conn)@ == s.subrange(31, s.len() as int)
                }
            }),
    {
        proof {
            lemma_raw_is_view();
        }
        if conn.len() >= 1 && GrabPointerStatus::from_u8(conn.byte(0)).is_none() {
            return Err(Error::InvalidEnum("Self", conn.byte(0) as u64));
        }
        if conn.len() < 31 {
            return Err(Error::eof());
        }
        let status = match GrabPointerStatus::from_u8(conn.byte(0)) {
            Some(v) => v,
            None => return Err(Error::InvalidEnum("Self", conn.byte(0) as u64)),
        };
        conn.advance(31);
        Ok(GrabPointer { status })
    }
}

/// Outcome of a keyboard grab.
#[derive(Debug, Clone, PartialEq, Eq)]
pub struct GrabKeyboard {
    pub status: GrabKeyboardStatus,
}

impl GrabKeyboard {
    /// Whether `self` holds the fields encoded at the front of `s`.
    pub open spec fn decodes(self, s: Seq<u8>) -> bool {
        &&& GrabKeyboardStatus::spec_from_u8(s[0]) == Some(self.status)
    }

    /// The error decoding stops at, where an enumerated field holds an unknown value.
    pub open spec fn spec_invalid_enum(s: Seq<u8>) -> Option<Error> {
        if s.len() >= 1 && GrabKeyboardStatus::spec_from_u8(s[0]) is None {
            Some(Error::InvalidEnum("Self", s[0] as u64))
        } else {
            None
        }
    }

    /// Decodes the reply; its first byte was already consumed.
    pub fn from_le_bytes(conn: &mut ByteReader) -> (r: Result<Self, Error>)
        ensures
            ({
                let s = old(conn)@;
                if Self::spec_invalid_enum(s) is Some {
                    r == Err::<Self, Error>(Self::spec_invalid_enum(s)->0) && final(conn)@ == s
                } else if s.len() < 31 {
                    r == Err::<Self, Error>(eof_error()) && final(conn)@ == s
                } else {
                    r matches Ok(v) && v.decodes(s) && final(conn)@ == s.subrange(31, s.len() as int)
                }
            }),
    {
        proof {
            lemma_raw_is_view();
        }
        if conn.len() >= 1 && GrabKeyboardStatus::from_u8(conn.byte(0)).is_none() {
            return Err(Error::InvalidEnum("Self", conn.byte(0) as u64));
        }
        if conn.len() < 31 {
            return Err(Error::eof());
        }
        let status = match GrabKeyboardStatus::from_u8(conn.byte(0)) {
            Some(v) => v,
            None => return Err(Error::InvalidEnum("Self", conn.byte(0) as u64)),
        };
        conn.advance(31);
        Ok(GrabKeyboard { status })
    }
}

/// Position of the pointer.
#[derive(Debug, Clone, PartialEq, Eq)]
pub struct QueryPointer {
    pub same_screen: bool,
    pub root: WindowId,
    pub child: OrNone<WindowId>,
    pub root_x: i16,
    pub root_y: i16,
    pub win_x: i16,
    pub win_y: i16,
    pub mask: u16,
}

impl QueryPointer {
    /// Whether `self` holds the fields encoded at the front of `s`.
    pub open spec fn decodes(self, s: Seq<u8>) -> bool {
        &&& self.same_screen == (s[0] != 0)
        &&& self.root@ == spec_le_u32(s, 7)
        &&& self.child.spec_raw() == spec_le_u32(s, 11)
        &&& self.root_x == spec_le_i16(s, 15)
        &&& self.root_y == spec_le_i16(s, 17)
        &&& self.win_x == spec_le_i16(s, 19)
        &&& self.win_y == spec_le_i16(s, 21)
        &&& self.mask == spec_le_u16(s, 23)
    }

    /// Decodes the reply; its first byte was already consumed.
    pub fn from_le_bytes(conn: &mut ByteReader) -> (r: Result<Self, Error>)
        ensures
            ({
                let s = old(conn)@;
                if s.len() < 31 {
                    r == Err::<Self, Error>(eof_error()) && final(conn)@ == s
                } else {
                    r matches Ok(v) && v.decodes(s) && final(conn)@ == s.subrange(31, s.len() as int)
                }
            }),
    {
        proof {
            lemma_raw_is_view();
        }
        if conn.len() < 31 {
            return Err(Error::eof());
        }
        let same_screen = conn.byte(0) != 0;
        let root = WindowId::unchecked_from(conn.le_u32_ahead(7));
        let child = OrNone::new(WindowId::unchecked_from(conn.le_u32_ahead(11)));
        let root_x = conn.le_i16_ahead(15);
        let root_y = conn.le_i16_ahead(17);
        let win_x = conn.le_i16_ahead(19);
        let win_y = conn.le_i16_ahead(21);
        let mask = conn.le_u16_ahead(23);
        conn.advance(31);
        Ok(QueryPointer { same_screen, root, child, root_x, root_y, win_x, win_y, mask })
    }
}

/// Coordinates translated between windows.
#[derive(Debug, Clone, PartialEq, Eq)]
pub struct TranslateCoordinates {
    pub same_screen: bool,
    pub child: WindowId,
    pub dst_x: i16,
    pub dst_y: i16,
}

impl TranslateCoordinates {
    /// Whether `self` holds the fields encoded at the front of `s`.
    pub open spec fn decodes(self, s: Seq<u8>) -> bool {
        &&& self.same_screen == (s[0] != 0)
        &&& self.child@ == spec_le_u32(s, 7)
        &&& self.dst_x == spec_le_i16(s, 11)
        &&& self.dst_y == spec_le_i16(s, 13)
    }

    /// Decodes the reply; its first byte was already consumed.
    pub fn from_le_bytes(conn: &mut ByteReader) -> (r: Result<Self, Error>)
        ensures
            ({
                let s = old(conn)@;
                if s.len() < 31 {
                    r == Err::<Self, Error>(eof_error()) && final(conn)@ == s
                } else {
                    r matches Ok(v) && v.decodes(s) && final(conn)@ == s.subrange(31, s.len() as int)
                }
            }),
    {
        proof {
            lemma_raw_is_view();
        }
        if conn.len() < 31 {
            return Err(Error::eof());
        }
        let same_screen = conn.byte(0) != 0;
        let child = WindowId::unchecked_from(conn.le_u32_ahead(7));
        let dst_x = conn.le_i16_ahead(11);
        let dst_y = conn.le_i16_ahead(13);
        conn.advance(31);
        Ok(TranslateCoordinates { same_screen, child, dst_x, dst_y })
    }
}

/// Which keys are pressed, one bit per key code.
#[derive(Debug, Clone, PartialEq, Eq)]
pub struct QueryKeymap {
    pub keys: [u8; 32],
}

impl QueryKeymap {
    /// Whether `self` holds the fields encoded at the front of `s`.
    pub open spec fn decodes(self, s: Seq<u8>) -> bool {
        &&& self.keys@ == s.subrange(7, 39)
    }

    /// Decodes the reply; its first byte was already consumed.
    pub fn from_le_bytes(conn: &mut ByteReader) -> (r: Result<Self, Error>)
        ensures
            ({
                let s = old(conn)@;
                if s.len() < 39 {
                    r == Err::<Self, Error>(eof_error()) && final(conn)@ == s
                } else {
                    r matches Ok(v) && v.decodes(s) && final(conn)@ == s.subrange(39, s.len() as int)
                }
            }),
    {
        proof {
            lemma_raw_is_view();
        }
        if conn.len() < 39 {
            return Err(Error::eof());
        }
        let mut keys = [0u8; 32];
        let mut i: usize = 0;
        while i < 32
            invariant
                i <= 32,
                conn@ == old(conn)@,
                conn@.len() >= 39,
                forall|j: int| 0 <= j < i ==> keys@[j] == conn@[7 + j],
            decreases 32 - i,
        {
            keys[i] = conn.byte(7 + i);
            i = i + 1;
        }
        assert(keys@ =~= old(conn)@.subrange(7, 39));
        conn.advance(39);
        Ok(QueryKeymap { keys })
    }
}

/// Extents of a string in a font.
#[derive(Debug, Clone, PartialEq, Eq)]
pub struct QueryTextExtents {
    pub draw_direction: DrawDirection,
    pub font_ascent: i16,
    pub font_descent: i16,
    pub overall_ascent: i16,
    pub overall_descent: i16,
    pub overall_width: i32,
    pub overall_left: i32,
    pub overall_right: i32,
}

impl QueryTextExtents {
    /// Whether `self` holds the fields encoded at the front of `s`.
    pub open spec fn decodes(self, s: Seq<u8>) -> bool {
        &&& DrawDirection::spec_from_u8(s[0]) == Some(self.draw_direction)
        &&& self.font_ascent == spec_le_i16(s, 7)
        &&& self.font_descent == spec_le_i16(s, 9)
        &&& self.overall_ascent == spec_le_i16(s, 11)
        &&& self.overall_descent == spec_le_i16(s, 13)
        &&& self.overall_width == spec_le_i32(s, 15)
        &&& self.overall_left == spec_le_i32(s, 19)
        &&& self.overall_right == spec_le_i32(s, 23)
    }

    /// The error decoding stops at, where an enumerated field holds an unknown value.
    pub open spec fn spec_invalid_enum(s: Seq<u8>) -> Option<Error> {
        if s.len() >= 1 && DrawDirection::spec_from_u8(s[0]) is None {
            Some(Error::InvalidEnum("Self", s[0] as u64))
        } else {
            None
        }
    }

    /// Decodes the reply; its first byte was already consumed.
    pub fn from_le_bytes(conn: &mut ByteReader) -> (r: Result<Self, Error>)
        ensures
            ({
                let s = old(conn)@;
                if Self::spec_invalid_enum(s) is Some {
                    r == Err::<Self, Error>(Self::spec_invalid_enum(s)->0) && final(conn)@ == s
                } else if s.len() < 31 {
                    r == Err::<Self, Error>(eof_error()) && final(conn)@ == s
                } else {
                    r matches Ok(v) && v.decodes(s) && final(conn)@ == s.subrange(31, s.len() as int)
                }
            }),
    {
        proof {
            lemma_raw_is_view();
        }
        if conn.len() >= 1 && DrawDirection::from_u8(conn.byte(0)).is_none() {
            return Err(Error::InvalidEnum("Self", conn.byte(0) as u64));
        }
        if conn.len() < 31 {
            return Err(Error::eof());
        }
        let draw_direction = match DrawDirection::from_u8(conn.byte(0)) {
            Some(v) => v,
            None => return Err(Error::InvalidEnum("Self", conn.byte(0) as u64)),
        };
        let font_ascent = conn.le_i16_ahead(7);
        let font_descent = conn.le_i16_ahead(9);
        let overall_ascent = conn.le_i16_ahead(11);
        let overall_descent = conn.le_i16_ahead(13);
        let overall_width = conn.le_i32_ahead(15);
        let overall_left = conn.le_i32_ahead(19);
        let overall_right = conn.le_i32_ahead(23);
        conn.advance(31);
        Ok(QueryTextExtents { draw_direction, font_ascent, font_descent, overall_ascent, overall_descent, overall_width, overall_left, overall_right })
    }
}

/// An allocated read-only colormap entry.
#[derive(Debug, Clone, PartialEq, Eq)]
pub struct AllocColor {
    pub red: u16,
    pub green: u16,
    pub blue: u16,
    pub pixel: u32,
}

impl AllocColor {
    /// Whether `self` holds the fields encoded at the front of `s`.
    pub open spec fn decodes(self, s: Seq<u8>) -> bool {
        &&& self.red == spec_le_u16(s, 7)
        &&& self.green == spec_le_u16(s, 9)
        &&& self.blue == spec_le_u16(s, 11)
        &&& self.pixel == spec_le_u32(s, 15)
    }

    /// Decodes the reply; its first byte was already consumed.
    pub fn from_le_bytes(conn: &mut ByteReader) -> (r: Result<Self, Error>)
        ensures
            ({
                let s = old(conn)@;
                if s.len() < 31 {
                    r == Err::<Self, Error>(eof_error()) && final(conn)@ == s
                } else {
                    r matches Ok(v) && v.decodes(s) && final(conn)@ == s.subrange(31, s.len() as int)
                }
            }),
    {
        proof {
            lemma_raw_is_view();
        }
        if conn.len() < 31 {
            return Err(Error::eof());
        }
        let red = conn.le_u16_ahead(7);
        let green = conn.le_u16_ahead(9);
        let blue = conn.le_u16_ahead(11);
        let pixel = conn.le_u32_ahead(15);
        conn.advance(31);
        Ok(AllocColor { red, green, blue, pixel })
    }
}

/// An allocated read-only colormap entry for a named color.
#[derive(Debug, Clone, PartialEq, Eq)]
pub struct AllocNamedColor {
    pub pixel: u32,
    pub exact_red: u16,
    pub exact_green: u16,
    pub exact_blue: u16,
    pub visual_red: u16,
    pub visual_green: u16,
    pub visual_blue: u16,
}

impl AllocNamedColor {
    /// Whether `self` holds the fields encoded at the front of `s`.
    pub open spec fn decodes(self, s: Seq<u8>) -> bool {
        &&& self.pixel == spec_le_u32(s, 7)
        &&& self.exact_red == spec_le_u16(s, 11)
        &&& self.exact_green == spec_le_u16(s, 13)
        &&& self.exact_blue == spec_le_u16(s, 15)
        &&& self.visual_red == spec_le_u16(s, 17)
        &&& self.visual_green == spec_le_u16(s, 19)
        &&& self.visual_blue == spec_le_u16(s, 21)
    }

    /// Decodes the reply; its first byte was already consumed.
    pub fn from_le_bytes(conn: &mut ByteReader) -> (r: Result<Self, Error>)
        ensures
            ({
                let s = old(conn)@;
                if s.len() < 31 {
                    r == Err::<Self, Error>(eof_error()) && final(conn)@ == s
                } else {
                    r matches Ok(v) && v.decodes(s) && final(conn)@ == s.subrange(31, s.len() as int)
                }
            }),
    {
        proof {
            lemma_raw_is_view();
        }
        if conn.len() < 31 {
            return Err(Error::eof());
        }
        let pixel = conn.le_u32_ahead(7);
        let exact_red = conn.le_u16_ahead(11);
        let exact_green = conn.le_u16_ahead(13);
        let exact_blue = conn.le_u16_ahead(15);
        let visual_red = conn.le_u16_ahead(17);
        let visual_green = conn.le_u16_ahead(19);
        let visual_blue = conn.le_u16_ahead(21);
        conn.advance(31);
        Ok(AllocNamedColor { pixel, exact_red, exact_green, exact_blue, visual_red, visual_green, visual_blue })
    }
}

/// The values of a named color.
#[derive(Debug, Clone, PartialEq, Eq)]
pub struct LookupColor {
    pub exact_red: u16,
    pub exact_green: u16,
    pub exact_blue: u16,
    pub visual_red: u16,
    pub visual_green: u16,
    pub visual_blue: u16,
}

impl LookupColor {
    /// Whether `self` holds the fields encoded at the front of `s`.
    pub open spec fn decodes(self, s: Seq<u8>) -> bool {
        &&& self.exact_red == spec_le_u16(s, 7)
        &&& self.exact_green == spec_le_u16(s, 9)
        &&& self.exact_blue == spec_le_u16(s, 11)
        &&& self.visual_red == spec_le_u16(s, 13)
        &&& self.visual_green == spec_le_u16(s, 15)
        &&& self.visual_blue == spec_le_u16(s, 17)
    }

    /// Decodes the reply; its first byte was already consumed.
    pub fn from_le_bytes(conn: &mut ByteReader) -> (r: Result<Self, Error>)
        ensures
            ({
                let s = old(conn)@;
                if s.len() < 31 {
                    r == Err::<Self, Error>(eof_error()) && final(conn)@ == s
                } else {
                    r matches Ok(v) && v.decodes(s) && final(conn)@ == s.subrange(31, s.len() as int)
                }
            }),
    {
        proof {
            lemma_raw_is_view();
        }
        if conn.len() < 31 {
            return Err(Error::eof());
        }
        let exact_red = conn.le_u16_ahead(7);
        let exact_green = conn.le_u16_ahead(9);
        let exact_blue = conn.le_u16_ahead(11);
        let visual_red = conn.le_u16_ahead(13);
        let visual_green = conn.le_u16_ahead(15);
        let visual_blue = conn.le_u16_ahead(17);
        conn.advance(31);
        Ok(LookupColor { exact_red, exact_green, exact_blue, visual_red, visual_green, visual_blue })
    }
}

/// The best size of a cursor, tile or stipple.
#[derive(Debug, Clone, PartialEq, Eq)]
pub struct QueryBestSize {
    pub width: u16,
    pub height: u16,
}

impl QueryBestSize {
    /// Whether `self` holds the fields encoded at the front of `s`.
    pub open spec fn decodes(self, s: Seq<u8>) -> bool {
        &&& self.width == spec_le_u16(s, 7)
        &&& self.height == spec_le_u16(s, 9)
    }

    /// Decodes the reply; its first byte was already consumed.
    pub fn from_le_bytes(conn: &mut ByteReader) -> (r: Result<Self, Error>)
        ensures
            ({
                let s = old(conn)@;
                if s.len() < 31 {
                    r == Err::<Self, Error>(eof_error()) && final(conn)@ == s
                } else {
                    r matches Ok(v) && v.decodes(s) && final(conn)@ == s.subrange(31, s.len() as int)
                }
            }),
    {
        proof {
            lemma_raw_is_view();
        }
        if conn.len() < 31 {
            return Err(Error::eof());
        }
        let width = conn.le_u16_ahead(7);
        let height = conn.le_u16_ahead(9);
        conn.advance(31);
        Ok(QueryBestSize { width, height })
    }
}

/// Whether an extension is present and its codes.
#[derive(Debug, Clone, PartialEq, Eq)]
pub struct QueryExtension {
    pub present: bool,
    pub major_opcode: u8,
    pub first_event: u8,
    pub first_error: u8,
}

impl QueryExtension {
    /// Whether `self` holds the fields encoded at the front of `s`.
    pub open spec fn decodes(self, s: Seq<u8>) -> bool {
        &&& self.present == (s[7] != 0)
        &&& self.major_opcode == s[8]
        &&& self.first_event == s[9]
        &&& self.first_error == s[10]
    }

    /// Decodes the reply; its first byte was already consumed.
    pub fn from_le_bytes(conn: &mut ByteReader) -> (r: Result<Self, Error>)
        ensures
            ({
                let s = old(conn)@;
                if s.len() < 31 {
                    r == Err::<Self, Error>(eof_error()) && final(conn)@ == s
                } else {
                    r matches Ok(v) && v.decodes(s) && final(conn)@ == s.subrange(31, s.len() as int)
                }
            }),
    {
        proof {
            lemma_raw_is_view();
        }
        if conn.len() < 31 {
            return Err(Error::eof());
        }
        let present = conn.byte(7) != 0;
        let major_opcode = conn.byte(8);
        let first_event = conn.byte(9);
        let first_error = conn.byte(10);
        conn.advance(31);
        Ok(QueryExtension { present, major_opcode, first_event, first_error })
    }
}

/// Keyboard settings.
#[derive(Debug, Clone, PartialEq, Eq)]
pub struct GetKeyboardControl {
    pub global_auto_repeat: bool,
    pub led_mask: u32,
    pub key_click_percent: u8,
    pub bell_percent: u8,
    pub bell_pitch: u16,
    pub bell_duration: u16,
    pub auto_repeats: Vec<u8>,
}

impl GetKeyboardControl {
    /// Whether `self` holds the fields encoded at the front of `s`.
    pub open spec fn decodes(self, s: Seq<u8>) -> bool {
        &&& self.global_auto_repeat == (s[0] != 0)
        &&& self.led_mask == spec_le_u32(s, 7)
        &&& self.key_click_percent == s[11]
        &&& self.bell_percent == s[12]
        &&& self.bell_pitch == spec_le_u16(s, 13)
        &&& self.bell_duration == spec_le_u16(s, 15)
        &&& self.auto_repeats@ == s.subrange(19, 51)
    }

    /// Decodes the reply; its first byte was already consumed.
    pub fn from_le_bytes(conn: &mut ByteReader) -> (r: Result<Self, Error>)
        ensures
            ({
                let s = old(conn)@;
                if s.len() < 51 {
                    r == Err::<Self, Error>(eof_error()) && final(conn)@ == s
                } else {
                    r matches Ok(v) && v.decodes(s) && final(conn)@ == s.subrange(51, s.len() as int)
                }
            }),
    {
        proof {
            lemma_raw_is_view();
        }
        if conn.len() < 51 {
            return Err(Error::eof());
        }
        let global_auto_repeat = conn.byte(0) != 0;
        let led_mask = conn.le_u32_ahead(7);
        let key_click_percent = conn.byte(11);
        let bell_percent = conn.byte(12);
        let bell_pitch = conn.le_u16_ahead(13);
        let bell_duration = conn.le_u16_ahead(15);
        let auto_repeats = conn.copy_bytes(19, 32);
        conn.advance(51);
        Ok(GetKeyboardControl { global_auto_repeat, led_mask, key_click_percent, bell_percent, bell_pitch, bell_duration, auto_repeats })
    }
}

/// Pointer acceleration settings.
#[derive(Debug, Clone, PartialEq, Eq)]
pub struct GetPointerControl {
    pub acceleration_numerator: u16,
    pub acceleration_denominator: u16,
    pub threshold: u16,
}

impl GetPointerControl {
    /// Whether `self` holds the fields encoded at the front of `s`.
    pub open spec fn decodes(self, s: Seq<u8>) -> bool {
        &&& self.acceleration_numerator == spec_le_u16(s, 7)
        &&& self.acceleration_denominator == spec_le_u16(s, 9)
        &&& self.threshold == spec_le_u16(s, 11)
    }

    /// Decodes the reply; its first byte was already consumed.
    pub fn from_le_bytes(conn: &mut ByteReader) -> (r: Result<Self, Error>)
        ensures
            ({
                let s = old(conn)@;
                if s.len() < 31 {
                    r == Err::<Self, Error>(eof_error()) && final(conn)@ == s
                } else {
                    r matches Ok(v) && v.decodes(s) && final(conn)@ == s.subrange(31, s.len() as int)
                }
            }),
    {
        proof {
            lemma_raw_is_view();
        }
        if conn.len() < 31 {
            return Err(Error::eof());
        }
        let acceleration_numerator = conn.le_u16_ahead(7);
        let acceleration_denominator = conn.le_u16_ahead(9);
        let threshold = conn.le_u16_ahead(11);
        conn.advance(31);
        Ok(GetPointerControl { acceleration_numerator, acceleration_denominator, threshold })
    }
}

/// Screen saver settings.
#[derive(Debug, Clone, PartialEq, Eq)]
pub struct GetScreenSaver {
    pub timeout: u16,
    pub interval: u16,
    pub prefer_blanking: bool,
    pub allow_exposures: bool,
}

impl GetScreenSaver {
    /// Whether `self` holds the fields encoded at the front of `s`.
    pub open spec fn decodes(self, s: Seq<u8>) -> bool {
        &&& self.timeout == spec_le_u16(s, 7)
        &&& self.interval == spec_le_u16(s, 9)
        &&& self.prefer_blanking == (s[11] != 0)
        &&& self.allow_exposures == (s[12] != 0)
    }

    /// Decodes the reply; its first byte was already consumed.
    pub fn from_le_bytes(conn: &mut ByteReader) -> (r: Result<Self, Error>)
        ensures
            ({
                let s = old(conn)@;
                if s.len() < 31 {
                    r == Err::<Self, Error>(eof_error()) && final(conn)@ == s
                } else {
                    r matches Ok(v) && v.decodes(s) && final(conn)@ == s.subrange(31, s.len() as int)
                }
            }),
    {
        proof {
            lemma_raw_is_view();
        }
        if conn.len() < 31 {
            return Err(Error::eof());
        }
        let timeout = conn.le_u16_ahead(7);
        let interval = conn.le_u16_ahead(9);
        let prefer_blanking = conn.byte(11) != 0;
        let allow_exposures = conn.byte(12) != 0;
        conn.advance(31);
        Ok(GetScreenSaver { timeout, interval, prefer_blanking, allow_exposures })
    }
}

/// Outcome of setting the pointer mapping.
#[derive(Debug, Clone, PartialEq, Eq)]
pub struct SetPointerMapping {
    pub status: SetPointerMappingStatus,
}

impl SetPointerMapping {
    /// Whether `self` holds the fields encoded at the front of `s`.
    pub open spec fn decodes(self, s: Seq<u8>) -> bool {
        &&& SetPointerMappingStatus::spec_from_u8(s[0]) == Some(self.status)
    }

    /// The error decoding stops at, where an enumerated field holds an unknown value.
    pub open spec fn spec_invalid_enum(s: Seq<u8>) -> Option<Error> {
        if s.len() >= 1 && SetPointerMappingStatus::spec_from_u8(s[0]) is None {
            Some(Error::InvalidEnum("Self", s[0] as u64))
        } else {
            None
        }
    }

    /// Decodes the reply; its first byte was already consumed.
    pub fn from_le_bytes(conn: &mut ByteReader) -> (r: Result<Self, Error>)
        ensures
            ({
                let s = old(conn)@;
                if Self::spec_invalid_enum(s) is Some {
                    r == Err::<Self, Error>(Self::spec_invalid_enum(s)->0) && final(conn)@ == s
                } else if s.len() < 31 {
                    r == Err::<Self, Error>(eof_error()) && final(conn)@ == s
                } else {
                    r matches Ok(v) && v.decodes(s) && final(conn)@ == s.subrange(31, s.len() as int)
                }
            }),
    {
        proof {
            lemma_raw_is_view();
        }
        if conn.len() >= 1 && SetPointerMappingStatus::from_u8(conn.byte(0)).is_none() {
            return Err(Error::InvalidEnum("Self", conn.byte(0) as u64));
        }
        if conn.len() < 31 {
            return Err(Error::eof());
        }
        let status = match SetPointerMappingStatus::from_u8(conn.byte(0)) {
            Some(v) => v,
            None => return Err(Error::InvalidEnum("Self", conn.byte(0) as u64)),
        };
        conn.advance(31);
        Ok(SetPointerMapping { status })
    }
}

/// Outcome of setting the modifier mapping.
#[derive(Debug, Clone, PartialEq, Eq)]
pub struct SetModifierMapping {
    pub status: SetModifierMappingStatus,
}

impl SetModifierMapping {
    /// Whether `self` holds the fields encoded at the front of `s`.
    pub open spec fn decodes(self, s: Seq<u8>) -> bool {
        &&& SetModifierMappingStatus::spec_from_u8(s[0]) == Some(self.status)
    }

    /// The error decoding stops at, where an enumerated field holds an unknown value.
    pub open spec fn spec_invalid_enum(s: Seq<u8>) -> Option<Error> {
        if s.len() >= 1 && SetModifierMappingStatus::spec_from_u8(s[0]) is None {
            Some(Error::InvalidEnum("Self", s[0] as u64))
        } else {
            None
        }
    }

    /// Decodes the reply; its first byte was already consumed.
    pub fn from_le_bytes(conn: &mut ByteReader) -> (r: Result<Self, Error>)
        ensures
            ({
                let s = old(conn)@;
                if Self::spec_invalid_enum(s) is Some {
                    r == Err::<Self, Error>(Self::spec_invalid_enum(s)->0) && final(conn)@ == s
                } else if s.len() < 31 {
                    r == Err::<Self, Error>(eof_error()) && final(conn)@ == s
                } else {
                    r matches Ok(v) && v.decodes(s) && final(conn)@ == s.subrange(31, s.len() as int)
                }
            }),
    {
        proof {
            lemma_raw_is_view();
        }
        if conn.len() >= 1 && SetModifierMappingStatus::from_u8(conn.byte(0)).is_none() {
            return Err(Error::InvalidEnum("Self", conn.byte(0) as u64));
        }
        if conn.len() < 31 {
            return Err(Error::eof());
        }
        let status = match SetModifierMappingStatus::from_u8(conn.byte(0)) {
            Some(v) => v,
            None => return Err(Error::InvalidEnum("Self", conn.byte(0) as u64)),
        };
        conn.advance(31);
        Ok(SetModifierMapping { status })
    }
}

/// A property of a font.
#[derive(Debug, Clone, PartialEq, Eq)]
pub struct FontProp {
    pub name: AtomId,
    pub value: u32,
}

impl FontProp {
    /// Whether `self` holds the fields encoded at the front of `s`.
    pub open spec fn decodes(self, s: Seq<u8>) -> bool {
        &&& self.name@ == spec_le_u32(s, 0)
        &&& self.value == spec_le_u32(s, 4)
    }

    /// Decodes the structure from the front of the input.
    pub fn from_le_bytes(conn: &mut ByteReader) -> (r: Result<Self, Error>)
        ensures
            ({
                let s = old(conn)@;
                if s.len() < 8 {
                    r == Err::<Self, Error>(eof_error()) && final(conn)@ == s
                } else {
                    r matches Ok(v) && v.decodes(s) && final(conn)@ == s.subrange(8, s.len() as int)
                }
            }),
    {
        proof {
            lemma_raw_is_view();
        }
        if conn.len() < 8 {
            return Err(Error::eof());
        }
        let name = AtomId::unchecked_from(conn.le_u32_ahead(0));
        let value = conn.le_u32_ahead(4);
        conn.advance(8);
        Ok(FontProp { name, value })
    }
}

/// Metrics of one character of a font.
#[derive(Debug, Clone, PartialEq, Eq)]
pub struct CharInfo {
    pub left_side_bearing: i16,
    pub right_side_bearing: i16,
    pub character_width: i16,
    pub ascent: i16,
    pub descent: i16,
    pub attributes: u16,
}

impl CharInfo {
    /// Whether `self` holds the fields encoded at the front of `s`.
    pub open spec fn decodes(self, s: Seq<u8>) -> bool {
        &&& self.left_side_bearing == spec_le_i16(s, 0)
        &&& self.right_side_bearing == spec_le_i16(s, 2)
        &&& self.character_width == spec_le_i16(s, 4)
        &&& self.ascent == spec_le_i16(s, 6)
        &&& self.descent == spec_le_i16(s, 8)
        &&& self.attributes == spec_le_u16(s, 10)
    }

    /// Decodes the structure from the front of the input.
    pub fn from_le_bytes(conn: &mut ByteReader) -> (r: Result<Self, Error>)
        ensures
            ({
                let s = old(conn)@;
                if s.len() < 12 {
                    r == Err::<Self, Error>(eof_error()) && final(conn)@ == s
                } else {
                    r matches Ok(v) && v.decodes(s) && final(conn)@ == s.subrange(12, s.len() as int)
                }
            }),
    {
        proof {
            lemma_raw_is_view();
        }
        if conn.len() < 12 {
            return Err(Error::eof());
        }
        let left_side_bearing = conn.le_i16_ahead(0);
        let right_side_bearing = conn.le_i16_ahead(2);
        let character_width = conn.le_i16_ahead(4);
        let ascent = conn.le_i16_ahead(6);
        let descent = conn.le_i16_ahead(8);
        let attributes = conn.le_u16_ahead(10);
        conn.advance(12);
        Ok(CharInfo { left_side_bearing, right_side_bearing, character_width, ascent, descent, attributes })
    }
}

/// A color as red, green and blue intensities.
#[derive(Debug, Clone, PartialEq, Eq)]
pub struct Rgb {
    pub red: u16,
    pub green: u16,
    pub blue: u16,
}

impl Rgb {
    /// Whether `self` holds the fields encoded at the front of `s`.
    pub open spec fn decodes(self, s: Seq<u8>) -> bool {
        &&& self.red == spec_le_u16(s, 0)
        &&& self.green == spec_le_u16(s, 2)
        &&& self.blue == spec_le_u16(s, 4)
    }

    /// Decodes the structure from the front of the input.
    pub fn from_le_bytes(conn: &mut ByteReader) -> (r: Result<Self, Error>)
        ensures
            ({
                let s = old(conn)@;
                if s.len() < 8 {
                    r == Err::<Self, Error>(eof_error()) && final(conn)@ == s
                } else {
                    r matches Ok(v) && v.decodes(s) && final(conn)@ == s.subrange(8, s.len() as int)
                }
            }),
    {
        proof {
            lemma_raw_is_view();
        }
        if conn.len() < 8 {
            return Err(Error::eof());
        }
        let red = conn.le_u16_ahead(0);
        let green = conn.le_u16_ahead(2);
        let blue = conn.le_u16_ahead(4);
        conn.advance(8);
        Ok(Rgb { red, green, blue })
    }
}

/// A pointer position at a time.
#[derive(Debug, Clone, PartialEq, Eq)]
pub struct TimeCoord {
    pub time: Timestamp,
    pub x: i16,
    pub y: i16,
}

impl TimeCoord {
    /// Whether `self` holds the fields encoded at the front of `s`.
    pub open spec fn decodes(self, s: Seq<u8>) -> bool {
        &&& self.time@ == spec_le_u32(s, 0)
        &&& self.x == spec_le_i16(s, 4)
        &&& self.y == spec_le_i16(s, 6)
    }

    /// Decodes the structure from the front of the input.
    pub fn from_le_bytes(conn: &mut ByteReader) -> (r: Result<Self, Error>)
        ensures
            ({
                let s = old(conn)@;
                if s.len() < 8 {
                    r == Err::<Self, Error>(eof_error()) && final(conn)@ == s
                } else {
                    r matches Ok(v) && v.decodes(s) && final(conn)@ == s.subrange(8, s.len() as int)
                }
            }),
    {
        proof {
            lemma_raw_is_view();
        }
        if conn.len() < 8 {
            return Err(Error::eof());
        }
        let time = Timestamp::from_u32(conn.le_u32_ahead(0));
        let x = conn.le_i16_ahead(4);
        let y = conn.le_i16_ahead(6);
        conn.advance(8);
        Ok(TimeCoord { time, x, y })
    }
}

/// `count` little-endian 32-bit numbers stored one after another from `s[offset]` on.
pub open spec fn spec_u32s(s: Seq<u8>, offset: int, count: int) -> Seq<u32> {
    Seq::new(count as nat, |i: int| spec_le_u32(s, offset + 4 * i))
}

/// The raw values of a sequence of identifiers.
pub open spec fn spec_raws<T: XId>(ids: Seq<T>) -> Seq<u32> {
    ids.map_values(|w: T| w.spec_raw())
}

/// `count` identifiers stored one after another `offset` bytes ahead in `conn`.
pub fn read_ids<T: XId>(conn: &ByteReader, offset: usize, count: usize) -> (r: Vec<T>)
    requires
        offset + 4 * count <= conn@.len(),
    ensures
        spec_raws(r@) == spec_u32s(conn@, offset as int, count as int),
{
    let raw = conn.u32s_ahead(offset, count);
    assert(raw@ =~= spec_u32s(conn@, offset as int, count as int));
    let mut out: Vec<T> = Vec::new();
    let mut i: usize = 0;
    while i < count
        invariant
            i <= count,
            raw@ == spec_u32s(conn@, offset as int, count as int),
            out@.len() == i,
            forall|j: int| 0 <= j < i ==> #[trigger] out@[j].spec_raw() == raw@[j],
        decreases count - i,
    {
        out.push(T::unchecked_from(raw[i]));
        i = i + 1;
    }
    assert(spec_raws(out@) =~= spec_u32s(conn@, offset as int, count as int));
    out
}

/// A list of byte strings, each sent as its length in one byte followed by its bytes.
#[derive(Debug, Clone, PartialEq, Eq, PartialOrd, Ord)]
pub struct ListOfStr {
    pub strings: Vec<Vec<u8>>,
}

/// The first `count` length-prefixed strings at the front of `s`, with the number of bytes
/// they take; `None` where `s` ends before them.
pub open spec fn spec_strs(s: Seq<u8>, count: nat) -> Option<(Seq<Seq<u8>>, int)>
    decreases count,
{
    if count == 0 {
        Some((Seq::empty(), 0))
    } else if s.len() < 1 || s.len() < 1 + s[0] {
        None
    } else {
        let n = s[0] as int;
        match spec_strs(s.subrange(1 + n, s.len() as int), (count - 1) as nat) {
            Some((rest, used)) => Some((seq![s.subrange(1, 1 + n)] + rest, 1 + n + used)),
            None => None,
        }
    }
}

/// `strs` with `prefix` put before the strings and `used` added to the length.
pub open spec fn spec_prepend_strs(
    prefix: Seq<Seq<u8>>,
    used: int,
    strs: Option<(Seq<Seq<u8>>, int)>,
) -> Option<(Seq<Seq<u8>>, int)> {
    match strs {
        Some((rest, n)) => Some((prefix + rest, used + n)),
        None => None,
    }
}

/// The wire encoding of a list of strings: each one's length in one byte, then its bytes.
pub open spec fn spec_encode_strs(strings: Seq<Seq<u8>>) -> Seq<u8>
    decreases strings.len(),
{
    if strings.len() == 0 {
        Seq::empty()
    } else {
        seq![strings[0].len() as u8] + strings[0] + spec_encode_strs(strings.drop_first())
    }
}

/// Number of bytes the encoding of `strings` takes.
pub open spec fn spec_encoded_len(strings: Seq<Seq<u8>>) -> int
    decreases strings.len(),
{
    if strings.len() == 0 {
        0
    } else {
        strings[0].len() + 1 + spec_encoded_len(strings.drop_first())
    }
}

impl ListOfStr {
    /// The strings, as sequences of bytes.
    pub open spec fn spec_strings(self) -> Seq<Seq<u8>> {
        self.strings@.map_values(|v: Vec<u8>| v@)
    }

    /// Number of bytes the encoding takes: each string's length plus one.
    pub fn encoded_len(&self) -> (r: usize)
        requires
            spec_encoded_len(self.spec_strings()) <= usize::MAX,
        ensures
            r == spec_encoded_len(self.spec_strings()),
    {
        let mut total: usize = 0;
        let mut i: usize = 0;
        assert(self.spec_strings().subrange(0, self.strings@.len() as int) =~= self.spec_strings());
        while i < self.strings.len()
            invariant
                i <= self.strings@.len(),
                spec_encoded_len(self.spec_strings()) <= usize::MAX,
                total + spec_encoded_len(self.spec_strings().subrange(i as int, self.strings@.len() as int))
                    == spec_encoded_len(self.spec_strings()),
            decreases self.strings@.len() - i,
        {
            let ghost rest = self.spec_strings().subrange(i as int, self.strings@.len() as int);
            assert(rest.drop_first() =~= self.spec_strings().subrange(i + 1, self.strings@.len() as int));
            proof {
                lemma_encoded_len_nonneg(rest.drop_first());
            }
            total = total + self.strings[i].len() + 1;
            i = i + 1;
        }
        assert(self.spec_strings().subrange(i as int, self.strings@.len() as int) =~= Seq::<Seq<u8>>::empty());
        total
    }

    /// Decodes `strings_count` length-prefixed strings.
    pub fn from_le_bytes(strings_count: usize, conn: &mut ByteReader) -> (r: Result<Self, Error>)
        ensures
            ({
                let s = old(conn)@;
                match spec_strs(s, strings_count as nat) {
                    Some((strs, used)) => r matches Ok(v) && v.spec_strings() == strs
                        && final(conn)@ == s.subrange(used, s.len() as int),
                    None => r matches Err(e) && e == eof_error(),
                }
            }),
    {
        let ghost s = conn@;
        let mut strings: Vec<Vec<u8>> = Vec::new();
        let ghost mut used: int = 0;
        let mut i: usize = 0;
        proof {
            assert(s.subrange(0, s.len() as int) =~= s);
            assert(strings@.map_values(|v: Vec<u8>| v@) =~= Seq::<Seq<u8>>::empty());
            match spec_strs(s, strings_count as nat) {
                Some((rest, n)) => {
                    assert(Seq::<Seq<u8>>::empty() + rest =~= rest);
                },
                None => {},
            }
        }
        while i < strings_count
            invariant
                i <= strings_count,
                s == old(conn)@,
                0 <= used <= s.len(),
                conn@ == s.subrange(used, s.len() as int),
                spec_strs(s, strings_count as nat) == spec_prepend_strs(
                    strings@.map_values(|v: Vec<u8>| v@),
                    used,
                    spec_strs(conn@, (strings_count - i) as nat),
                ),
            decreases strings_count - i,
        {
            let ghost before = conn@;
            if conn.len() < 1 {
                assert(spec_strs(conn@, (strings_count - i) as nat) is None);
                assert(spec_strs(s, strings_count as nat) is None);
                return Err(Error::eof());
            }
            let string_len = conn.byte(0) as usize;
            if conn.len() - 1 < string_len {
                assert(spec_strs(conn@, (strings_count - i) as nat) is None);
                assert(spec_strs(s, strings_count as nat) is None);
                return Err(Error::eof());
            }
            conn.advance(1);
            let st = conn.take_bytes(string_len);
            let ghost prev = strings@.map_values(|v: Vec<u8>| v@);
            strings.push(st);
            proof {
                assert(strings@.map_values(|v: Vec<u8>| v@) =~= prev + seq![st@]);
                assert(st@ =~= before.subrange(1, 1 + string_len));
                assert(conn@ =~= before.subrange(1 + string_len, before.len() as int));
                assert(conn@ =~= s.subrange(used + 1 + string_len, s.len() as int));
                assert(prev + seq![st@] + Seq::<Seq<u8>>::empty() =~= prev + seq![st@]);
                match spec_strs(conn@, (strings_count - i - 1) as nat) {
                    Some((rest, n)) => {
                        assert(prev + (seq![st@] + rest) =~= prev + seq![st@] + rest);
                    },
                    None => {},
                }
                used = used + 1 + string_len;
            }
            i = i + 1;
        }
        proof {
            assert(strings@.map_values(|v: Vec<u8>| v@) + Seq::<Seq<u8>>::empty() =~= strings@.map_values(|v: Vec<u8>| v@));
        }
        Ok(Self { strings })
    }

    /// The wire encoding; every string must fit its length in one byte.
    pub fn to_le_bytes(&self) -> (r: Vec<u8>)
        requires
            forall|i: int| 0 <= i < self.strings@.len() ==> #[trigger] self.strings@[i]@.len() <= 255,
        ensures
            r@ == spec_encode_strs(self.spec_strings()),
    {
        let mut out: Vec<u8> = Vec::new();
        let mut i: usize = 0;
        assert(self.spec_strings().subrange(0, self.strings@.len() as int) =~= self.spec_strings());
        assert(Seq::<u8>::empty() + spec_encode_strs(self.spec_strings()) =~= spec_encode_strs(self.spec_strings()));
        while i < self.strings.len()
            invariant
                i <= self.strings@.len(),
                forall|j: int| 0 <= j < self.strings@.len() ==> #[trigger] self.strings@[j]@.len() <= 255,
                out@ + spec_encode_strs(self.spec_strings().subrange(i as int, self.strings@.len() as int))
                    == spec_encode_strs(self.spec_strings()),
            decreases self.strings@.len() - i,
        {
            let ghost rest = self.spec_strings().subrange(i as int, self.strings@.len() as int);
            assert(rest.drop_first() =~= self.spec_strings().subrange(i + 1, self.strings@.len() as int));
            let string = &self.strings[i];
            let ghost before = out@;
            out.push(string.len() as u8);
            let mut j: usize = 0;
            while j < string.len()
                invariant
                    j <= string@.len(),
                    string@.len() <= 255,
                    out@ == before + seq![string@.len() as u8] + string@.subrange(0, j as int),
                decreases string@.len() - j,
            {
                out.push(string[j]);
                j = j + 1;
                assert(out@ =~= before + seq![string@.len() as u8] + string@.subrange(0, j as int));
            }
            assert(string@.subrange(0, j as int) =~= string@);
            assert(rest[0] == string@);
            assert(out@ + spec_encode_strs(rest.drop_first()) =~= before + spec_encode_strs(rest));
            i = i + 1;
        }
        assert(self.spec_strings().subrange(i as int, self.strings@.len() as int) =~= Seq::<Seq<u8>>::empty());
        assert(out@ + Seq::<u8>::empty() =~= out@);
        out
    }
}

/// The encoded length of a list of strings is never negative.
pub proof fn lemma_encoded_len_nonneg(strings: Seq<Seq<u8>>)
    ensures
        spec_encoded_len(strings) >= 0,
    decreases strings.len(),
{
    if strings.len() > 0 {
        lemma_encoded_len_nonneg(strings.drop_first());
    }
}

/// Decoding the encoding of strings that fit their length in a byte gives them back, using
/// exactly the bytes of the encoding, whatever follows.
pub proof fn lemma_strs_encode_decode(strings: Seq<Seq<u8>>, rest: Seq<u8>)
    requires
        forall|i: int| 0 <= i < strings.len() ==> #[trigger] strings[i].len() <= 255,
    ensures
        spec_strs(spec_encode_strs(strings) + rest, strings.len()) == Some(
            (strings, spec_encode_strs(strings).len() as int),
        ),
    decreases strings.len(),
{
    if strings.len() > 0 {
        let tail = strings.drop_first();
        assert forall|i: int| 0 <= i < tail.len() implies #[trigger] tail[i].len() <= 255 by {
            assert(tail[i] == strings[i + 1]);
        }
        lemma_strs_encode_decode(tail, rest);
        let whole = spec_encode_strs(strings) + rest;
        let n = strings[0].len() as int;
        assert(whole[0] == n as u8);
        assert(whole.subrange(1, 1 + n) =~= strings[0]);
        assert(whole.subrange(1 + n, whole.len() as int) =~= spec_encode_strs(tail) + rest);
        assert(seq![strings[0]] + tail =~= strings);
    }
}

/// Encoding strings decoded from `s` gives back the bytes they were decoded from.
pub proof fn lemma_strs_decode_encode(s: Seq<u8>, count: nat)
    requires
        spec_strs(s, count) is Some,
    ensures
        ({
            let (strs, used) = spec_strs(s, count)->0;
            &&& 0 <= used <= s.len()
            &&& spec_encode_strs(strs) == s.subrange(0, used)
            &&& strs.len() == count
        }),
    decreases count,
{
    if count > 0 {
        let n = s[0] as int;
        let tail = s.subrange(1 + n, s.len() as int);
        lemma_strs_decode_encode(tail, (count - 1) as nat);
        let (rest, used) = spec_strs(tail, (count - 1) as nat)->0;
        let strs = seq![s.subrange(1, 1 + n)] + rest;
        assert(strs[0] =~= s.subrange(1, 1 + n));
        assert(strs.drop_first() =~= rest);
        assert(spec_encode_strs(strs) =~= s.subrange(0, 1 + n + used));
    }
}

/// Query tree reply: the root, parent and children of a window.
#[derive(Debug, Clone, PartialEq, Eq)]
pub struct QueryTree {
    pub root: WindowId,
    pub parent: OrNone<WindowId>,
    pub children: Vec<WindowId>,
}

impl QueryTree {
    /// Bytes the reply takes, not counting its first byte.
    pub open spec fn spec_len(s: Seq<u8>) -> int {
        31 + 4 * spec_le_u16(s, 15)
    }

    /// Whether `self` holds the fields encoded at the front of `s`.
    pub open spec fn decodes(self, s: Seq<u8>) -> bool {
        &&& self.root@ == spec_le_u32(s, 7)
        &&& self.parent.spec_raw() == spec_le_u32(s, 11)
        &&& spec_raws(self.children@) == spec_u32s(s, 31, spec_le_u16(s, 15) as int)
    }

    /// Decodes the reply; its first byte was already consumed.
    pub fn from_le_bytes(conn: &mut ByteReader) -> (r: Result<Self, Error>)
        ensures
            ({
                let s = old(conn)@;
                if s.len() < 31 || s.len() < Self::spec_len(s) {
                    r == Err::<Self, Error>(eof_error()) && final(conn)@ == s
                } else {
                    r matches Ok(v) && v.decodes(s) && final(conn)@ == s.subrange(
                        Self::spec_len(s),
                        s.len() as int,
                    )
                }
            }),
    {
        proof {
            lemma_raw_is_view();
        }
        if conn.len() < 31 {
            return Err(Error::eof());
        }
        let children_count = conn.le_u16_ahead(15) as usize;
        if conn.len() - 31 < 4 * children_count {
            return Err(Error::eof());
        }
        let root = WindowId::unchecked_from(conn.le_u32_ahead(7));
        let parent = OrNone::new(WindowId::unchecked_from(conn.le_u32_ahead(11)));
        let children = read_ids(conn, 31, children_count);
        conn.advance(31 + 4 * children_count);
        Ok(Self { root, parent, children })
    }
}

/// List properties reply: the atoms of a window's properties.
#[derive(Debug, Clone, PartialEq, Eq)]
pub struct ListProperties {
    pub atoms: Vec<AtomId>,
}

impl ListProperties {
    /// Bytes the reply takes, not counting its first byte.
    pub open spec fn spec_len(s: Seq<u8>) -> int {
        31 + 4 * spec_le_u16(s, 7)
    }

    /// Whether `self` holds the fields encoded at the front of `s`.
    pub open spec fn decodes(self, s: Seq<u8>) -> bool {
        spec_raws(self.atoms@) == spec_u32s(s, 31, spec_le_u16(s, 7) as int)
    }

    /// Decodes the reply; its first byte was already consumed.
    pub fn from_le_bytes(conn: &mut ByteReader) -> (r: Result<Self, Error>)
        ensures
            ({
                let s = old(conn)@;
                if s.len() < 31 || s.len() < Self::spec_len(s) {
                    r == Err::<Self, Error>(eof_error()) && final(conn)@ == s
                } else {
                    r matches Ok(v) && v.decodes(s) && final(conn)@ == s.subrange(
                        Self::spec_len(s),
                        s.len() as int,
                    )
                }
            }),
    {
        if conn.len() < 31 {
            return Err(Error::eof());
        }
        let atom_count = conn.le_u16_ahead(7) as usize;
        if conn.len() - 31 < 4 * atom_count {
            return Err(Error::eof());
        }
        let atoms = read_ids(conn, 31, atom_count);
        conn.advance(31 + 4 * atom_count);
        Ok(Self { atoms })
    }
}

/// List installed colormaps reply.
#[derive(Debug, Clone, PartialEq, Eq)]
pub struct ListInstalledColormaps {
    pub cmaps: Vec<ColormapId>,
}

impl ListInstalledColormaps {
    /// Bytes the reply takes, not counting its first byte.
    pub open spec fn spec_len(s: Seq<u8>) -> int {
        31 + 4 * spec_le_u16(s, 7)
    }

    /// Whether `self` holds the fields encoded at the front of `s`.
    pub open spec fn decodes(self, s: Seq<u8>) -> bool {
        spec_raws(self.cmaps@) == spec_u32s(s, 31, spec_le_u16(s, 7) as int)
    }

    /// Decodes the reply; its first byte was already consumed.
    pub fn from_le_bytes(conn: &mut ByteReader) -> (r: Result<Self, Error>)
        ensures
            ({
                let s = old(conn)@;
                if s.len() < 31 || s.len() < Self::spec_len(s) {
                    r == Err::<Self, Error>(eof_error()) && final(conn)@ == s
                } else {
                    r matches Ok(v) && v.decodes(s) && final(conn)@ == s.subrange(
                        Self::spec_len(s),
                        s.len() as int,
                    )
                }
            }),
    {
        if conn.len() < 31 {
            return Err(Error::eof());
        }
        let cmaps_count = conn.le_u16_ahead(7) as usize;
        if conn.len() - 31 < 4 * cmaps_count {
            return Err(Error::eof());
        }
        let cmaps = read_ids(conn, 31, cmaps_count);
        conn.advance(31 + 4 * cmaps_count);
        Ok(Self { cmaps })
    }
}

/// Alloc color cells reply: the allocated pixels and plane masks.
#[derive(Debug, Clone, PartialEq, Eq)]
pub struct AllocColorCells {
    pub pixels: Vec<u32>,
    pub masks: Vec<u32>,
}

impl AllocColorCells {
    /// Bytes the reply takes, not counting its first byte.
    pub open spec fn spec_len(s: Seq<u8>) -> int {
        31 + 4 * spec_le_u16(s, 7) + 4 * spec_le_u16(s, 9)
    }

    /// Whether `self` holds the fields encoded at the front of `s`.
    pub open spec fn decodes(self, s: Seq<u8>) -> bool {
        &&& self.pixels@ == spec_u32s(s, 31, spec_le_u16(s, 7) as int)
        &&& self.masks@ == spec_u32s(s, 31 + 4 * spec_le_u16(s, 7), spec_le_u16(s, 9) as int)
    }

    /// Decodes the reply; its first byte was already consumed.
    pub fn from_le_bytes(conn: &mut ByteReader) -> (r: Result<Self, Error>)
        ensures
            ({
                let s = old(conn)@;
                if s.len() < 31 || s.len() < Self::spec_len(s) {
                    r == Err::<Self, Error>(eof_error()) && final(conn)@ == s
                } else {
                    r matches Ok(v) && v.decodes(s) && final(conn)@ == s.subrange(
                        Self::spec_len(s),
                        s.len() as int,
                    )
                }
            }),
    {
        if conn.len() < 31 {
            return Err(Error::eof());
        }
        let pixels_count = conn.le_u16_ahead(7) as usize;
        let masks_count = conn.le_u16_ahead(9) as usize;
        if conn.len() - 31 < 4 * pixels_count + 4 * masks_count {
            return Err(Error::eof());
        }
        let pixels = conn.u32s_ahead(31, pixels_count);
        let masks = conn.u32s_ahead(31 + 4 * pixels_count, masks_count);
        assert(pixels@ =~= spec_u32s(conn@, 31, pixels_count as int));
        assert(masks@ =~= spec_u32s(conn@, 31 + 4 * pixels_count, masks_count as int));
        conn.advance(31 + 4 * pixels_count + 4 * masks_count);
        Ok(Self { pixels, masks })
    }
}

/// Alloc color planes reply.
#[derive(Debug, Clone, PartialEq, Eq)]
pub struct AllocColorPlanes {
    pub red_mask: u32,
    pub green_mask: u32,
    pub blue_mask: u32,
    pub pixels: Vec<u32>,
}

impl AllocColorPlanes {
    /// Bytes the reply takes, not counting its first byte.
    pub open spec fn spec_len(s: Seq<u8>) -> int {
        31 + 4 * spec_le_u16(s, 7)
    }

    /// Whether `self` holds the fields encoded at the front of `s`.
    pub open spec fn decodes(self, s: Seq<u8>) -> bool {
        &&& self.red_mask == spec_le_u32(s, 11)
        &&& self.green_mask == spec_le_u32(s, 15)
        &&& self.blue_mask == spec_le_u32(s, 19)
        &&& self.pixels@ == spec_u32s(s, 31, spec_le_u16(s, 7) as int)
    }

    /// Decodes the reply; its first byte was already consumed.
    pub fn from_le_bytes(conn: &mut ByteReader) -> (r: Result<Self, Error>)
        ensures
            ({
                let s = old(conn)@;
                if s.len() < 31 || s.len() < Self::spec_len(s) {
                    r == Err::<Self, Error>(eof_error()) && final(conn)@ == s
                } else {
                    r matches Ok(v) && v.decodes(s) && final(conn)@ == s.subrange(
                        Self::spec_len(s),
                        s.len() as int,
                    )
                }
            }),
    {
        if conn.len() < 31 {
            return Err(Error::eof());
        }
        let pixels_count = conn.le_u16_ahead(7) as usize;
        if conn.len() - 31 < 4 * pixels_count {
            return Err(Error::eof());
        }
        let red_mask = conn.le_u32_ahead(11);
        let green_mask = conn.le_u32_ahead(15);
        let blue_mask = conn.le_u32_ahead(19);
        let pixels = conn.u32s_ahead(31, pixels_count);
        assert(pixels@ =~= spec_u32s(conn@, 31, pixels_count as int));
        conn.advance(31 + 4 * pixels_count);
        Ok(Self { red_mask, green_mask, blue_mask, pixels })
    }
}


/// Get keyboard mapping reply: the key symbols of a range of key codes, a fixed number per
/// key code.
#[derive(Debug, Clone, PartialEq, Eq)]
pub struct GetKeyboardMapping {
    pub keysyms_per_keycode: u8,
    pub keysyms: Vec<KeySym>,
}

/// The numbers of a sequence of key symbols.
pub open spec fn spec_keysym_values(keysyms: Seq<KeySym>) -> Seq<u32> {
    keysyms.map_values(|k: KeySym| k.inner)
}

impl GetKeyboardMapping {
    /// The number of key symbols in the reply: as many whole key codes as the reply length
    /// covers, each with the per-key-code count.
    pub open spec fn spec_count(s: Seq<u8>) -> int {
        s[0] * (spec_le_u32(s, 3) / s[0] as u32)
    }

    /// Bytes the reply takes, not counting its first byte.
    pub open spec fn spec_len(s: Seq<u8>) -> int {
        31 + 4 * Self::spec_count(s)
    }

    /// Whether `self` holds the fields encoded at the front of `s`.
    pub open spec fn decodes(self, s: Seq<u8>) -> bool {
        &&& self.keysyms_per_keycode == s[0]
        &&& spec_keysym_values(self.keysyms@) == spec_u32s(s, 31, Self::spec_count(s))
    }

    /// Decodes the reply; its first byte was already consumed. A reply that announces zero
    /// key symbols per key code is not accepted.
    pub fn from_le_bytes(conn: &mut ByteReader) -> (r: Result<Self, Error>)
        requires
            old(conn)@.len() >= 31 ==> old(conn)@[0] != 0,
        ensures
            ({
                let s = old(conn)@;
                if s.len() < 31 || s.len() < Self::spec_len(s) {
                    r == Err::<Self, Error>(eof_error()) && final(conn)@ == s
                } else {
                    r matches Ok(v) && v.decodes(s) && final(conn)@ == s.subrange(
                        Self::spec_len(s),
                        s.len() as int,
                    )
                }
            }),
    {
        if conn.len() < 31 {
            return Err(Error::eof());
        }
        let n = conn.byte(0);
        let reply_length = conn.le_u32_ahead(3);
        let m = reply_length / (n as u32);
        assert(n as u32 * m <= reply_length) by (nonlinear_arith)
            requires
                n >= 1,
                m == reply_length / (n as u32),
        ;
        let count = n as usize * m as usize;
        if (conn.len() - 31) / 4 < count {
            return Err(Error::eof());
        }
        let raw = conn.u32s_ahead(31, count);
        let mut keysyms: Vec<KeySym> = Vec::new();
        let mut i: usize = 0;
        while i < count
            invariant
                i <= count,
                raw@.len() == count,
                keysyms@.len() == i,
                forall|j: int| 0 <= j < i ==> #[trigger] keysyms@[j].inner == raw@[j],
            decreases count - i,
        {
            keysyms.push(KeySym::from_raw(raw[i]));
            i = i + 1;
        }
        assert(spec_keysym_values(keysyms@) =~= spec_u32s(conn@, 31, count as int));
        conn.advance(31 + 4 * count);
        Ok(Self { keysyms_per_keycode: n, keysyms })
    }
}

/// The encoded length of strings is the length of their encoding.
pub proof fn lemma_encoded_len_is_len(strings: Seq<Seq<u8>>)
    ensures
        spec_encoded_len(strings) == spec_encode_strs(strings).len(),
    decreases strings.len(),
{
    if strings.len() > 0 {
        lemma_encoded_len_is_len(strings.drop_first());
    }
}

/// Motion events reply: the pointer positions recorded in a time interval.
#[derive(Debug, Clone, PartialEq, Eq)]
pub struct GetMotionEvents {
    pub events: Vec<TimeCoord>,
}

impl GetMotionEvents {
    /// The number of recorded positions.
    pub open spec fn spec_count(s: Seq<u8>) -> int {
        spec_le_u32(s, 7) as int
    }

    /// Bytes the reply takes, not counting its first byte.
    pub open spec fn spec_len(s: Seq<u8>) -> int {
        31 + 8 * Self::spec_count(s)
    }

    /// Whether `self` holds the positions encoded at the front of `s`.
    pub open spec fn decodes(&self, s: Seq<u8>) -> bool {
        &&& self.events@.len() == Self::spec_count(s)
        &&& forall|i: int|
            0 <= i < Self::spec_count(s) ==> (#[trigger] self.events@[i]).decodes(
                s.subrange(31 + 8 * i, s.len() as int),
            )
    }

    /// Decodes the reply; its first byte was already consumed.
    pub fn from_le_bytes(conn: &mut ByteReader) -> (r: Result<Self, Error>)
        ensures
            ({
                let s = old(conn)@;
                if s.len() < 31 || s.len() < Self::spec_len(s) {
                    r == Err::<Self, Error>(eof_error()) && final(conn)@ == s
                } else {
                    r matches Ok(v) && v.decodes(s) && final(conn)@ == s.subrange(
                        Self::spec_len(s),
                        s.len() as int,
                    )
                }
            }),
    {
        let ghost s = conn@;
        let available = conn.len();
        if available < 31 {
            return Err(Error::eof());
        }
        let count = conn.le_u32_ahead(7) as usize;
        if (available - 31) / 8 < count {
            return Err(Error::eof());
        }
        conn.advance(31);
        let mut events: Vec<TimeCoord> = Vec::new();
        let mut k: usize = 0;
        while k < count
            invariant
                k <= count,
                count == Self::spec_count(s),
                31 + 8 * count <= s.len(),
                conn@ == s.subrange(31 + 8 * k, s.len() as int),
                events@.len() == k,
                forall|j: int|
                    0 <= j < k ==> (#[trigger] events@[j]).decodes(
                        s.subrange(31 + 8 * j, s.len() as int),
                    ),
            decreases count - k,
        {
            assert(conn@.len() >= 8) by (nonlinear_arith)
                requires
                    conn@.len() == s.len() - (31 + 8 * k),
                    k < count,
                    31 + 8 * count <= s.len(),
            ;
            let event = match TimeCoord::from_le_bytes(conn) {
                Ok(v) => v,
                Err(e) => {
                    return Err(e);
                },
            };
            proof {
                assert(conn@ =~= s.subrange(31 + 8 * (k + 1), s.len() as int));
            }
            events.push(event);
            k = k + 1;
        }
        Ok(Self { events })
    }
}

/// Colors reply: the values of colormap entries.
#[derive(Debug, Clone, PartialEq, Eq)]
pub struct QueryColors {
    pub colors: Vec<Rgb>,
}

impl QueryColors {
    /// The number of colors.
    pub open spec fn spec_count(s: Seq<u8>) -> int {
        spec_le_u16(s, 7) as int
    }

    /// Bytes the reply takes, not counting its first byte.
    pub open spec fn spec_len(s: Seq<u8>) -> int {
        31 + 8 * Self::spec_count(s)
    }

    /// Whether `self` holds the colors encoded at the front of `s`.
    pub open spec fn decodes(&self, s: Seq<u8>) -> bool {
        &&& self.colors@.len() == Self::spec_count(s)
        &&& forall|i: int|
            0 <= i < Self::spec_count(s) ==> (#[trigger] self.colors@[i]).decodes(
                s.subrange(31 + 8 * i, s.len() as int),
            )
    }

    /// Decodes the reply; its first byte was already consumed.
    pub fn from_le_bytes(conn: &mut ByteReader) -> (r: Result<Self, Error>)
        ensures
            ({
                let s = old(conn)@;
                if s.len() < 31 || s.len() < Self::spec_len(s) {
                    r == Err::<Self, Error>(eof_error()) && final(conn)@ == s
                } else {
                    r matches Ok(v) && v.decodes(s) && final(conn)@ == s.subrange(
                        Self::spec_len(s),
                        s.len() as int,
                    )
                }
            }),
    {
        let ghost s = conn@;
        let available = conn.len();
        if available < 31 {
            return Err(Error::eof());
        }
        let count = conn.le_u16_ahead(7) as usize;
        if (available - 31) / 8 < count {
            return Err(Error::eof());
        }
        conn.advance(31);
        let mut colors: Vec<Rgb> = Vec::new();
        let mut k: usize = 0;
        while k < count
            invariant
                k <= count,
                count == Self::spec_count(s),
                31 + 8 * count <= s.len(),
                conn@ == s.subrange(31 + 8 * k, s.len() as int),
                colors@.len() == k,
                forall|j: int|
                    0 <= j < k ==> (#[trigger] colors@[j]).decodes(
                        s.subrange(31 + 8 * j, s.len() as int),
                    ),
            decreases count - k,
        {
            assert(conn@.len() >= 8) by (nonlinear_arith)
                requires
                    conn@.len() == s.len() - (31 + 8 * k),
                    k < count,
                    31 + 8 * count <= s.len(),
            ;
            let color = match Rgb::from_le_bytes(conn) {
                Ok(v) => v,
                Err(e) => {
                    return Err(e);
                },
            };
            proof {
                assert(conn@ =~= s.subrange(31 + 8 * (k + 1), s.len() as int));
            }
            colors.push(color);
            k = k + 1;
        }
        Ok(Self { colors })
    }
}

/// Where the input focus is.
#[derive(Debug, Clone, Copy)]
pub enum Focus {
    Nothing,
    PointerRoot,
    Window(WindowId),
}

/// Input focus reply: the focus window and where the focus reverts.
#[derive(Debug, Clone)]
pub struct GetInputFocus {
    pub revert_to: RevertTo,
    pub focus: Focus,
}

impl GetInputFocus {
    /// Whether `self` holds the fields encoded at the front of `s`.
    pub open spec fn decodes(&self, s: Seq<u8>) -> bool {
        &&& RevertTo::spec_from_u8(s[0]) == Some(self.revert_to)
        &&& match self.focus {
            Focus::Nothing => spec_le_u32(s, 7) == 0,
            Focus::PointerRoot => spec_le_u32(s, 7) == 1,
            Focus::Window(w) => spec_le_u32(s, 7) > 1 && w@ == spec_le_u32(s, 7),
        }
    }

    /// Decodes the reply; its first byte was already consumed.
    pub fn from_le_bytes(conn: &mut ByteReader) -> (r: Result<Self, Error>)
        ensures
            ({
                let s = old(conn)@;
                if s.len() >= 1 && RevertTo::spec_from_u8(s[0]) is None {
                    r == Err::<Self, Error>(Error::InvalidEnum("Self", s[0] as u64))
                        && final(conn)@ == s
                } else if s.len() < 31 {
                    r == Err::<Self, Error>(eof_error()) && final(conn)@ == s
                } else {
                    r matches Ok(v) && v.decodes(s) && final(conn)@ == s.subrange(31, s.len() as int)
                }
            }),
    {
        proof {
            lemma_raw_is_view();
        }
        if conn.len() >= 1 && RevertTo::from_u8(conn.byte(0)).is_none() {
            return Err(Error::InvalidEnum("Self", conn.byte(0) as u64));
        }
        if conn.len() < 31 {
            return Err(Error::eof());
        }
        let revert_to = match RevertTo::from_u8(conn.byte(0)) {
            Some(v) => v,
            None => return Err(Error::InvalidEnum("Self", conn.byte(0) as u64)),
        };
        let focus_value = conn.le_u32_ahead(7);
        let focus = match focus_value {
            0 => Focus::Nothing,
            1 => Focus::PointerRoot,
            wid => Focus::Window(WindowId::unchecked_from(wid)),
        };
        conn.advance(31);
        Ok(Self { revert_to, focus })
    }
}

/// Pointer mapping reply: the logical button of each physical button.
#[derive(Debug, Clone, PartialEq, Eq)]
pub struct GetPointerMapping {
    pub map: Vec<u8>,
}

impl GetPointerMapping {
    /// Bytes the reply takes, not counting its first byte.
    pub open spec fn spec_len(s: Seq<u8>) -> int {
        31 + s[0] + spec_pad(s[0] as int)
    }

    /// Decodes the reply; its first byte was already consumed.
    pub fn from_le_bytes(conn: &mut ByteReader) -> (r: Result<Self, Error>)
        ensures
            ({
                let s = old(conn)@;
                if s.len() < 31 || s.len() < Self::spec_len(s) {
                    r == Err::<Self, Error>(eof_error()) && final(conn)@ == s
                } else {
                    r matches Ok(v) && v.map@ == s.subrange(31, 31 + s[0]) && final(conn)@
                        == s.subrange(Self::spec_len(s), s.len() as int)
                }
            }),
    {
        let ghost s = conn@;
        if conn.len() < 31 {
            return Err(Error::eof());
        }
        let length_of_map = conn.byte(0) as usize;
        if conn.len() - 31 < length_of_map + pad(length_of_map) {
            return Err(Error::eof());
        }
        conn.advance(31);
        let map = conn.read_n_bytes(length_of_map)?;
        conn.drain(pad(length_of_map))?;
        proof {
            assert(conn@ =~= s.subrange(Self::spec_len(s), s.len() as int));
        }
        Ok(Self { map })
    }
}

/// Modifier mapping reply: for each of the eight modifiers, the key codes that set it.
#[derive(Debug, Clone, PartialEq, Eq)]
pub struct GetModifierMapping {
    pub keycodes_per_modifier: u8,
    pub keycodes: Vec<[KeyCode; 8]>,
}

impl GetModifierMapping {
    /// Bytes the reply takes, not counting its first byte.
    pub open spec fn spec_len(s: Seq<u8>) -> int {
        31 + 8 * s[0]
    }

    /// Whether `self` holds the key codes encoded at the front of `s`, eight by eight.
    pub open spec fn decodes(&self, s: Seq<u8>) -> bool {
        &&& self.keycodes_per_modifier == s[0]
        &&& self.keycodes@.len() == s[0]
        &&& forall|i: int, j: int|
            0 <= i < s[0] && 0 <= j < 8 ==> (#[trigger] self.keycodes@[i]@[j])@ == s[31 + 8 * i + j]
    }

    /// Decodes the reply; its first byte was already consumed.
    pub fn from_le_bytes(conn: &mut ByteReader) -> (r: Result<Self, Error>)
        ensures
            ({
                let s = old(conn)@;
                if s.len() < 31 || s.len() < Self::spec_len(s) {
                    r == Err::<Self, Error>(eof_error()) && final(conn)@ == s
                } else {
                    r matches Ok(v) && v.decodes(s) && final(conn)@ == s.subrange(
                        Self::spec_len(s),
                        s.len() as int,
                    )
                }
            }),
    {
        let ghost s = conn@;
        if conn.len() < 31 {
            return Err(Error::eof());
        }
        let keycodes_per_modifier = conn.byte(0);
        let n = keycodes_per_modifier as usize;
        if conn.len() - 31 < 8 * n {
            return Err(Error::eof());
        }
        let mut keycodes: Vec<[KeyCode; 8]> = Vec::new();
        let mut i: usize = 0;
        while i < n
            invariant
                i <= n,
                n == s[0],
                conn@ == s,
                31 + 8 * n <= s.len(),
                keycodes@.len() == i,
                forall|a: int, b: int|
                    0 <= a < i && 0 <= b < 8 ==> (#[trigger] keycodes@[a]@[b])@ == s[31 + 8 * a + b],
            decreases n - i,
        {
            let base = 31 + 8 * i;
            let group = [
                KeyCode::from_u8(conn.byte(base)),
                KeyCode::from_u8(conn.byte(base + 1)),
                KeyCode::from_u8(conn.byte(base + 2)),
                KeyCode::from_u8(conn.byte(base + 3)),
                KeyCode::from_u8(conn.byte(base + 4)),
                KeyCode::from_u8(conn.byte(base + 5)),
                KeyCode::from_u8(conn.byte(base + 6)),
                KeyCode::from_u8(conn.byte(base + 7)),
            ];
            keycodes.push(group);
            proof {
                assert forall|a: int, b: int|
                    0 <= a < i + 1 && 0 <= b < 8 implies (#[trigger] keycodes@[a]@[b])@ == s[31 + 8
                    * a + b] by {
                    if a == i {
                        assert(keycodes@[a] == group);
                    }
                }
            }
            i = i + 1;
        }
        conn.advance(31 + 8 * n);
        Ok(Self { keycodes_per_modifier, keycodes })
    }
}

/// Image reply: the depth, visual and pixel data of a rectangle of a drawable.
#[derive(Debug, Clone, PartialEq, Eq)]
pub struct GetImage {
    pub depth: u8,
    pub visual: OrNone<VisualId>,
    pub data: Vec<u8>,
}

impl GetImage {
    /// Bytes of pixel data: four per unit of the reply length.
    pub open spec fn spec_data_len(s: Seq<u8>) -> int {
        4 * spec_le_u32(s, 3)
    }

    /// Bytes the reply takes, not counting its first byte.
    pub open spec fn spec_len(s: Seq<u8>) -> int {
        31 + Self::spec_data_len(s)
    }

    /// Decodes the reply; its first byte was already consumed. The data length, four times
    /// the reply length, must fit 32 bits.
    pub fn from_le_bytes(conn: &mut ByteReader) -> (r: Result<Self, Error>)
        requires
            old(conn)@.len() >= 31 ==> 4 * spec_le_u32(old(conn)@, 3) <= u32::MAX,
        ensures
            ({
                let s = old(conn)@;
                if s.len() < 31 || s.len() < Self::spec_len(s) {
                    r == Err::<Self, Error>(eof_error()) && final(conn)@ == s
                } else {
                    r matches Ok(v) && v.depth == s[0] && v.visual.spec_raw() == spec_le_u32(s, 7)
                        && v.data@ == s.subrange(31, Self::spec_len(s)) && final(conn)@
                        == s.subrange(Self::spec_len(s), s.len() as int)
                }
            }),
    {
        proof {
            lemma_raw_is_view();
        }
        let ghost s = conn@;
        if conn.len() < 31 {
            return Err(Error::eof());
        }
        let depth = conn.byte(0);
        let reply_length = conn.le_u32_ahead(3);
        let visual = OrNone::new(VisualId::unchecked_from(conn.le_u32_ahead(7)));
        let data_length = reply_length * 4;
        if ((conn.len() - 31) as u64) < data_length as u64 {
            return Err(Error::eof());
        }
        conn.advance(31);
        let data = conn.read_n_bytes(data_length as usize)?;
        conn.drain(pad(data_length as usize))?;
        proof {
            assert(conn@ =~= s.subrange(Self::spec_len(s), s.len() as int));
        }
        Ok(Self { depth, visual, data })
    }
}

/// `String::from_utf8` of std: the documentation says it succeeds exactly when the bytes
/// are valid UTF-8, and the string then holds the characters they encode.
#[verifier::external_body]
pub(crate) fn string_from_utf8(bytes: Vec<u8>) -> (r: Option<String>)
    ensures
        r is Some <==> valid_utf8(bytes@),
        r matches Some(text) ==> text@ == decode_utf8(bytes@),
{
    match String::from_utf8(bytes) {
        Ok(text) => Some(text),
        Err(_) => None,
    }
}

/// A string of the protocol, held as UTF-8 text.
#[derive(Debug, Clone, PartialEq, Eq, PartialOrd, Ord, Hash)]
pub struct String8(String);

impl View for String8 {
    type V = Seq<char>;

    closed spec fn view(&self) -> Seq<char> {
        self.0@
    }
}

impl String8 {
    /// The text the bytes encode, when they are valid UTF-8.
    pub fn from_bytes(bytes: Vec<u8>) -> (r: Option<Self>)
        ensures
            r is Some <==> valid_utf8(bytes@),
            r matches Some(text) ==> text@ == decode_utf8(bytes@),
    {
        match string_from_utf8(bytes) {
            Some(text) => Some(String8(text)),
            None => None,
        }
    }

    /// The number of bytes of the UTF-8 encoding.
    pub fn len(&self) -> (r: usize)
        ensures
            r == vstd::utf8::encode_utf8(self@).len() as usize,
    {
        self.0.as_str().len()
    }

    /// Whether the text is empty.
    pub fn is_empty(&self) -> (r: bool)
        ensures
            r == (self@.len() == 0),
    {
        self.0.as_str().is_empty()
    }

    /// The text.
    pub fn as_str(&self) -> (r: &str)
        ensures
            r@ == self@,
    {
        self.0.as_str()
    }

    /// The text, as it is shown.
    pub fn to_string(&self) -> (r: String)
        ensures
            r@ == self@,
    {
        self.0.clone()
    }
}

/// Atom name reply: the name of an atom.
#[derive(Debug, Clone, PartialEq, Eq)]
pub struct GetAtomName {
    pub name: String8,
}

impl GetAtomName {
    /// The length of the name in bytes.
    pub open spec fn spec_name_len(s: Seq<u8>) -> int {
        spec_le_u16(s, 7) as int
    }

    /// Bytes the reply takes, not counting its first byte.
    pub open spec fn spec_len(s: Seq<u8>) -> int {
        31 + Self::spec_name_len(s) + spec_pad(Self::spec_name_len(s))
    }

    /// The bytes of the name.
    pub open spec fn spec_name(s: Seq<u8>) -> Seq<u8> {
        s.subrange(31, 31 + Self::spec_name_len(s))
    }

    /// Decodes the reply; its first byte was already consumed. A name that is not UTF-8 is
    /// refused.
    pub fn from_le_bytes(conn: &mut ByteReader) -> (r: Result<Self, Error>)
        ensures
            ({
                let s = old(conn)@;
                if s.len() < 31 || s.len() < 31 + Self::spec_name_len(s) {
                    r == Err::<Self, Error>(eof_error()) && final(conn)@ == s
                } else if !valid_utf8(Self::spec_name(s)) {
                    r == Err::<Self, Error>(Error::InvalidResponse("String8"))
                } else if s.len() < Self::spec_len(s) {
                    r == Err::<Self, Error>(eof_error())
                } else {
                    r matches Ok(v) && v.name@ == decode_utf8(Self::spec_name(s)) && final(conn)@
                        == s.subrange(Self::spec_len(s), s.len() as int)
                }
            }),
    {
        let ghost s = conn@;
        if conn.len() < 31 {
            return Err(Error::eof());
        }
        let name_length = conn.le_u16_ahead(7) as usize;
        if conn.len() - 31 < name_length {
            return Err(Error::eof());
        }
        conn.advance(31);
        let name = conn.take_bytes(name_length);
        assert(name@ =~= Self::spec_name(s));
        let name = match String8::from_bytes(name) {
            Some(name) => name,
            None => return Err(Error::InvalidResponse("String8")),
        };
        if let Err(e) = conn.drain(pad(name_length)) {
            return Err(e);
        }
        proof {
            assert(conn@ =~= s.subrange(Self::spec_len(s), s.len() as int));
        }
        Ok(Self { name })
    }
}

/// Property reply: the type, format and value of a window property.
#[derive(Debug, Clone, PartialEq, Eq)]
pub struct GetProperty {
    pub format: u8,
    pub type_: AtomId,
    pub bytes_after: u32,
    pub length_of_value: u32,
    pub value: Vec<u8>,
}

impl GetProperty {
    /// The length of the value in bytes: its length in units of the format.
    pub open spec fn spec_value_len(s: Seq<u8>) -> int {
        spec_le_u32(s, 15) * (s[0] / 8)
    }

    /// Bytes the reply takes, not counting its first byte.
    pub open spec fn spec_len(s: Seq<u8>) -> int {
        31 + Self::spec_value_len(s) + spec_pad(Self::spec_value_len(s))
    }

    /// Decodes the reply; its first byte was already consumed. The value's length in bytes
    /// must fit a `usize`.
    pub fn from_le_bytes(conn: &mut ByteReader) -> (r: Result<Self, Error>)
        requires
            old(conn)@.len() >= 31 ==> Self::spec_value_len(old(conn)@) <= usize::MAX,
        ensures
            ({
                let s = old(conn)@;
                if s.len() < 31 || s.len() < Self::spec_len(s) {
                    r == Err::<Self, Error>(eof_error()) && final(conn)@ == s
                } else {
                    r matches Ok(v) && v.format == s[0] && v.type_@ == spec_le_u32(s, 7)
                        && v.bytes_after == spec_le_u32(s, 11) && v.length_of_value == spec_le_u32(
                        s,
                        15,
                    ) && v.value@ == s.subrange(31, 31 + Self::spec_value_len(s)) && final(conn)@
                        == s.subrange(Self::spec_len(s), s.len() as int)
                }
            }),
    {
        proof {
            lemma_raw_is_view();
        }
        let ghost s = conn@;
        if conn.len() < 31 {
            return Err(Error::eof());
        }
        let format = conn.byte(0);
        let type_ = AtomId::unchecked_from(conn.le_u32_ahead(7));
        let bytes_after = conn.le_u32_ahead(11);
        let length_of_value = conn.le_u32_ahead(15);
        let value_length = length_of_value as usize * (format as usize / 8);
        let available = conn.len() - 31;
        if available < value_length || available - value_length < pad(value_length) {
            return Err(Error::eof());
        }
        conn.advance(31);
        let value = conn.take_bytes(value_length);
        conn.advance(pad(value_length));
        proof {
            assert(conn@ =~= s.subrange(Self::spec_len(s), s.len() as int));
        }
        Ok(Self { format, type_, bytes_after, length_of_value, value })
    }
}

/// Font list reply: the names of the fonts that match a pattern.
#[derive(Debug, Clone, PartialEq, Eq)]
pub struct ListFonts {
    pub names: ListOfStr,
}

impl ListFonts {
    /// The number of strings.
    pub open spec fn spec_count(s: Seq<u8>) -> nat {
        spec_le_u16(s, 7) as nat
    }

    /// Decodes the reply; its first byte was already consumed. The strings are
    /// followed by padding to a multiple of four bytes.
    pub fn from_le_bytes(conn: &mut ByteReader) -> (r: Result<Self, Error>)
        ensures
            ({
                let s = old(conn)@;
                if s.len() < 31 {
                    r == Err::<Self, Error>(eof_error()) && final(conn)@ == s
                } else {
                    match spec_strs(s.subrange(31, s.len() as int), Self::spec_count(s)) {
                        Some((strs, used)) => if s.len() < 31 + used + spec_pad(used) {
                            r == Err::<Self, Error>(eof_error())
                        } else {
                            r matches Ok(v) && v.names.spec_strings() == strs && final(conn)@
                                == s.subrange(31 + used + spec_pad(used), s.len() as int)
                        },
                        None => r == Err::<Self, Error>(eof_error()),
                    }
                }
            }),
    {
        let ghost s = conn@;
        if conn.len() < 31 {
            return Err(Error::eof());
        }
        let count = conn.le_u16_ahead(7) as usize;
        conn.advance(31);
        let names = match ListOfStr::from_le_bytes(count, conn) {
            Ok(v) => v,
            Err(e) => {
                return Err(e);
            },
        };
        proof {
            let (strs, used) = spec_strs(s.subrange(31, s.len() as int), count as nat)->0;
            lemma_strs_decode_encode(s.subrange(31, s.len() as int), count as nat);
            lemma_encoded_len_is_len(strs);
        }
        let rest_len = conn.len();
        let n = names.encoded_len();
        if let Err(e) = conn.drain(pad(n)) {
            return Err(e);
        }
        proof {
            assert(conn@ =~= s.subrange(31 + spec_encoded_len(names.spec_strings()) + spec_pad(spec_encoded_len(names.spec_strings())), s.len() as int));
        }
        Ok(Self { names })
    }
}

/// Font path reply: the directories searched for fonts.
#[derive(Debug, Clone, PartialEq, Eq)]
pub struct GetFontPath {
    pub paths: ListOfStr,
}

impl GetFontPath {
    /// The number of strings.
    pub open spec fn spec_count(s: Seq<u8>) -> nat {
        spec_le_u16(s, 7) as nat
    }

    /// Decodes the reply; its first byte was already consumed.
    pub fn from_le_bytes(conn: &mut ByteReader) -> (r: Result<Self, Error>)
        ensures
            ({
                let s = old(conn)@;
                if s.len() < 31 {
                    r == Err::<Self, Error>(eof_error()) && final(conn)@ == s
                } else {
                    match spec_strs(s.subrange(31, s.len() as int), Self::spec_count(s)) {
                        Some((strs, used)) => if s.len() < 31 + used {
                            r == Err::<Self, Error>(eof_error())
                        } else {
                            r matches Ok(v) && v.paths.spec_strings() == strs && final(conn)@
                                == s.subrange(31 + used, s.len() as int)
                        },
                        None => r == Err::<Self, Error>(eof_error()),
                    }
                }
            }),
    {
        let ghost s = conn@;
        if conn.len() < 31 {
            return Err(Error::eof());
        }
        let count = conn.le_u16_ahead(7) as usize;
        conn.advance(31);
        let paths = match ListOfStr::from_le_bytes(count, conn) {
            Ok(v) => v,
            Err(e) => {
                return Err(e);
            },
        };
        proof {
            let (strs, used) = spec_strs(s.subrange(31, s.len() as int), count as nat)->0;
            lemma_strs_decode_encode(s.subrange(31, s.len() as int), count as nat);
            assert(conn@ =~= s.subrange(31 + used, s.len() as int));
        }
        Ok(Self { paths })
    }
}

/// Extension list reply: the names of the extensions the server supports.
#[derive(Debug, Clone, PartialEq, Eq)]
pub struct ListExtensions {
    pub names: ListOfStr,
}

impl ListExtensions {
    /// The number of strings.
    pub open spec fn spec_count(s: Seq<u8>) -> nat {
        s[0] as nat
    }

    /// Decodes the reply; its first byte was already consumed. The strings are
    /// followed by padding to a multiple of four bytes.
    pub fn from_le_bytes(conn: &mut ByteReader) -> (r: Result<Self, Error>)
        ensures
            ({
                let s = old(conn)@;
                if s.len() < 31 {
                    r == Err::<Self, Error>(eof_error()) && final(conn)@ == s
                } else {
                    match spec_strs(s.subrange(31, s.len() as int), Self::spec_count(s)) {
                        Some((strs, used)) => if s.len() < 31 + used + spec_pad(used) {
                            r == Err::<Self, Error>(eof_error())
                        } else {
                            r matches Ok(v) && v.names.spec_strings() == strs && final(conn)@
                                == s.subrange(31 + used + spec_pad(used), s.len() as int)
                        },
                        None => r == Err::<Self, Error>(eof_error()),
                    }
                }
            }),
    {
        let ghost s = conn@;
        if conn.len() < 31 {
            return Err(Error::eof());
        }
        let count = conn.byte(0) as usize;
        conn.advance(31);
        let names = match ListOfStr::from_le_bytes(count, conn) {
            Ok(v) => v,
            Err(e) => {
                return Err(e);
            },
        };
        proof {
            let (strs, used) = spec_strs(s.subrange(31, s.len() as int), count as nat)->0;
            lemma_strs_decode_encode(s.subrange(31, s.len() as int), count as nat);
            lemma_encoded_len_is_len(strs);
        }
        let rest_len = conn.len();
        let n = names.encoded_len();
        if let Err(e) = conn.drain(pad(n)) {
            return Err(e);
        }
        proof {
            assert(conn@ =~= s.subrange(31 + spec_encoded_len(names.spec_strings()) + spec_pad(spec_encoded_len(names.spec_strings())), s.len() as int));
        }
        Ok(Self { names })
    }
}

/// Where the host structure that starts at `p` ends: its address is padded to four bytes.
pub open spec fn host_end(s: Seq<u8>, p: int) -> int {
    p + 4 + spec_le_u16(s, p + 2) + spec_pad(spec_le_u16(s, p + 2) as int)
}

/// The error decoding the host structure at `p` stops at, if any.
pub open spec fn host_error(s: Seq<u8>, p: int) -> Option<Error> {
    if s.len() < p + 1 {
        Some(eof_error())
    } else if HostFamily::spec_from_u8(s[p]) is None {
        Some(Error::InvalidEnum("Self", s[p] as u64))
    } else if s.len() < p + 4 || s.len() < host_end(s, p) {
        Some(eof_error())
    } else {
        None
    }
}

/// A host of the access list: its address family and address.
#[derive(Debug, Clone, PartialEq, Eq)]
pub struct Host {
    pub family: HostFamily,
    pub address: Vec<u8>,
}

impl Host {
    /// Whether `self` holds the host encoded at the front of `s`.
    pub open spec fn decodes(&self, s: Seq<u8>) -> bool {
        &&& HostFamily::spec_from_u8(s[0]) == Some(self.family)
        &&& self.address@ == s.subrange(4, 4 + spec_le_u16(s, 2))
    }

    /// Decodes the structure from the front of the input.
    pub fn from_le_bytes(conn: &mut ByteReader) -> (r: Result<Self, Error>)
        ensures
            ({
                let s = old(conn)@;
                match host_error(s, 0) {
                    Some(e) => r == Err::<Self, Error>(e) && final(conn)@ == s,
                    None => r matches Ok(v) && v.decodes(s) && final(conn)@ == s.subrange(
                        host_end(s, 0),
                        s.len() as int,
                    ),
                }
            }),
    {
        let ghost s = conn@;
        if conn.len() < 1 {
            return Err(Error::eof());
        }
        let family = match HostFamily::from_u8(conn.byte(0)) {
            Some(v) => v,
            None => return Err(Error::InvalidEnum("Self", conn.byte(0) as u64)),
        };
        if conn.len() < 4 {
            return Err(Error::eof());
        }
        let address_length = conn.le_u16_ahead(2) as usize;
        if conn.len() - 4 < address_length + pad(address_length) {
            return Err(Error::eof());
        }
        let address = conn.copy_bytes(4, address_length);
        conn.advance(4 + address_length + pad(address_length));
        Ok(Self { family, address })
    }
}

/// Where the host structure `i` of those from `at` on starts.
pub open spec fn host_at(s: Seq<u8>, at: int, i: nat) -> int
    decreases i,
{
    if i == 0 {
        at
    } else {
        host_end(s, host_at(s, at, (i - 1) as nat))
    }
}

/// The error decoding the `count` host structures from `at` on stops at, if any.
pub open spec fn hosts_error(s: Seq<u8>, at: int, count: nat) -> Option<Error>
    decreases count,
{
    if count == 0 {
        None
    } else {
        match hosts_error(s, at, (count - 1) as nat) {
            Some(e) => Some(e),
            None => host_error(s, host_at(s, at, (count - 1) as nat)),
        }
    }
}

/// A structure decodes the same from any of its suffixes.
proof fn lemma_host_error_shift(s: Seq<u8>, p: int)
    requires
        0 <= p <= s.len(),
    ensures
        host_error(s.subrange(p, s.len() as int), 0) == host_error(s, p),
        s.len() >= p + 4 ==> host_end(s.subrange(p, s.len() as int), 0) + p == host_end(s, p),
{
}

/// Host list reply: whether access control is on, and the hosts allowed.
#[derive(Debug, Clone, PartialEq, Eq)]
pub struct ListHosts {
    pub mode: HostMode,
    pub hosts: Vec<Host>,
}

impl ListHosts {
    /// The number of hosts.
    pub open spec fn spec_count(s: Seq<u8>) -> nat {
        spec_le_u16(s, 7) as nat
    }

    /// Decodes the reply; its first byte was already consumed.
    pub fn from_le_bytes(conn: &mut ByteReader) -> (r: Result<Self, Error>)
        ensures
            ({
                let s = old(conn)@;
                if s.len() >= 1 && HostMode::spec_from_u8(s[0]) is None {
                    r == Err::<Self, Error>(Error::InvalidEnum("Self", s[0] as u64))
                        && final(conn)@ == s
                } else if s.len() < 31 {
                    r == Err::<Self, Error>(eof_error()) && final(conn)@ == s
                } else {
                    match hosts_error(s, 31, Self::spec_count(s)) {
                        Some(e) => r == Err::<Self, Error>(e) && final(conn)@ == s,
                        None => r matches Ok(v) && HostMode::spec_from_u8(s[0]) == Some(v.mode)
                            && v.hosts@.len() == Self::spec_count(s) && (forall|i: int|
                            0 <= i < Self::spec_count(s) ==> (#[trigger] v.hosts@[i]).decodes(
                                s.subrange(host_at(s, 31, i as nat), s.len() as int),
                            )) && final(conn)@ == s.subrange(
                            host_at(s, 31, Self::spec_count(s)),
                            s.len() as int,
                        ),
                    }
                }
            }),
    {
        let ghost s = conn@;
        if conn.len() >= 1 && HostMode::from_u8(conn.byte(0)).is_none() {
            return Err(Error::InvalidEnum("Self", conn.byte(0) as u64));
        }
        if conn.len() < 31 {
            return Err(Error::eof());
        }
        let mode = match HostMode::from_u8(conn.byte(0)) {
            Some(v) => v,
            None => return Err(Error::InvalidEnum("Self", conn.byte(0) as u64)),
        };
        let count = conn.le_u16_ahead(7) as usize;
        let available = conn.len();
        let mut pos: usize = 31;
        let mut i: usize = 0;
        while i < count
            invariant
                conn@ == s,
                available == s.len(),
                s.len() >= 31,
                HostMode::spec_from_u8(s[0]) == Some(mode),
                count == Self::spec_count(s),
                i <= count,
                31 <= pos <= s.len(),
                pos == host_at(s, 31, i as nat),
                hosts_error(s, 31, i as nat) is None,
            decreases count - i,
        {
            let ghost ii = i as nat;
            assert(hosts_error(s, 31, ii + 1) == host_error(s, pos as int));
            if available - pos < 1 {
                proof {
                    lemma_hosts_error_stays(s, 31, ii + 1, count as nat);
                }
                return Err(Error::eof());
            }
            if HostFamily::from_u8(conn.byte(pos)).is_none() {
                proof {
                    lemma_hosts_error_stays(s, 31, ii + 1, count as nat);
                }
                return Err(Error::InvalidEnum("Self", conn.byte(pos) as u64));
            }
            if available - pos < 4 {
                proof {
                    lemma_hosts_error_stays(s, 31, ii + 1, count as nat);
                }
                return Err(Error::eof());
            }
            let n = conn.le_u16_ahead(pos + 2) as usize;
            if available - pos - 4 < n + pad(n) {
                proof {
                    lemma_hosts_error_stays(s, 31, ii + 1, count as nat);
                }
                return Err(Error::eof());
            }
            pos = pos + 4 + n + pad(n);
            assert(pos == host_at(s, 31, ii + 1));
            i = i + 1;
        }
        conn.advance(31);
        let mut hosts: Vec<Host> = Vec::new();
        let mut k: usize = 0;
        while k < count
            invariant
                k <= count,
                count == Self::spec_count(s),
                s.len() >= 31,
                hosts_error(s, 31, count as nat) is None,
                31 <= host_at(s, 31, k as nat) <= s.len(),
                conn@ == s.subrange(host_at(s, 31, k as nat), s.len() as int),
                hosts@.len() == k,
                forall|j: int|
                    0 <= j < k ==> (#[trigger] hosts@[j]).decodes(
                        s.subrange(host_at(s, 31, j as nat), s.len() as int),
                    ),
            decreases count - k,
        {
            let ghost kk = k as nat;
            let ghost p = host_at(s, 31, kk);
            proof {
                lemma_hosts_error_prefix(s, 31, kk, count as nat);
                lemma_host_error_shift(s, p);
            }
            let host = match Host::from_le_bytes(conn) {
                Ok(v) => v,
                Err(e) => {
                    return Err(e);
                },
            };
            proof {
                assert(conn@ =~= s.subrange(host_at(s, 31, kk + 1), s.len() as int));
            }
            hosts.push(host);
            k = k + 1;
        }
        Ok(Self { mode, hosts })
    }
}

/// When the hosts decode without error, each of the first ones does and ends within `s`.
proof fn lemma_hosts_error_prefix(s: Seq<u8>, at: int, k: nat, count: nat)
    requires
        k < count,
        hosts_error(s, at, count) is None,
    ensures
        host_error(s, host_at(s, at, k)) is None,
        hosts_error(s, at, k + 1) is None,
    decreases count,
{
    if k + 1 < count {
        lemma_hosts_error_prefix(s, at, k, (count - 1) as nat);
    }
}

/// Once decoding the hosts fails, decoding more of them fails the same way.
proof fn lemma_hosts_error_stays(s: Seq<u8>, at: int, k: nat, count: nat)
    requires
        k <= count,
        hosts_error(s, at, k) is Some,
    ensures
        hosts_error(s, at, count) == hosts_error(s, at, k),
    decreases count,
{
    if k < count {
        lemma_hosts_error_stays(s, at, k, (count - 1) as nat);
    }
}

/// The character metrics stored `at` bytes ahead in `conn`.
fn char_info_at(conn: &ByteReader, at: usize) -> (r: CharInfo)
    requires
        at + 12 <= conn@.len(),
    ensures
        r.decodes(conn@.subrange(at as int, conn@.len() as int)),
{
    let available = conn.len();
    assert(at + 12 <= available);
    let r = CharInfo {
        left_side_bearing: conn.le_i16_ahead(at),
        right_side_bearing: conn.le_i16_ahead(at + 2),
        character_width: conn.le_i16_ahead(at + 4),
        ascent: conn.le_i16_ahead(at + 6),
        descent: conn.le_i16_ahead(at + 8),
        attributes: conn.le_u16_ahead(at + 10),
    };
    let ghost t = conn@.subrange(at as int, conn@.len() as int);
    assert(spec_le_i16(t, 0) == spec_le_i16(conn@, at as int));
    assert(spec_le_i16(t, 2) == spec_le_i16(conn@, at + 2));
    assert(spec_le_i16(t, 4) == spec_le_i16(conn@, at + 4));
    assert(spec_le_i16(t, 6) == spec_le_i16(conn@, at + 6));
    assert(spec_le_i16(t, 8) == spec_le_i16(conn@, at + 8));
    assert(spec_le_u16(t, 10) == spec_le_u16(conn@, at + 10));
    r
}

/// `count` font properties stored from `at` bytes ahead in `conn` on.
fn font_props_at(conn: &ByteReader, at: usize, count: usize) -> (r: Vec<FontProp>)
    requires
        at + 8 * count <= conn@.len(),
    ensures
        r@.len() == count,
        forall|i: int|
            0 <= i < count ==> (#[trigger] r@[i]).decodes(
                conn@.subrange(at + 8 * i, conn@.len() as int),
            ),
{
    proof {
        lemma_raw_is_view();
    }
    let available = conn.len();
    let mut out: Vec<FontProp> = Vec::new();
    let mut i: usize = 0;
    while i < count
        invariant
            i <= count,
            available == conn@.len(),
            at + 8 * count <= conn@.len(),
            out@.len() == i,
            forall|j: int|
                0 <= j < i ==> (#[trigger] out@[j]).decodes(
                    conn@.subrange(at + 8 * j, conn@.len() as int),
                ),
        decreases count - i,
    {
        proof {
            lemma_raw_is_view();
        }
        let p = at + 8 * i;
        let prop = FontProp {
            name: AtomId::unchecked_from(conn.le_u32_ahead(p)),
            value: conn.le_u32_ahead(p + 4),
        };
        let ghost t = conn@.subrange(p as int, conn@.len() as int);
        assert(spec_le_u32(t, 0) == spec_le_u32(conn@, p as int));
        assert(spec_le_u32(t, 4) == spec_le_u32(conn@, p + 4));
        out.push(prop);
        i = i + 1;
    }
    out
}

/// Font information reply: the metrics and properties of a font.
#[derive(Debug, Clone, PartialEq, Eq)]
pub struct QueryFont {
    pub min_bounds: CharInfo,
    pub max_bounds: CharInfo,
    pub min_char_or_byte2: u16,
    pub max_char_or_byte2: u16,
    pub default_char: u16,
    pub properties: Vec<FontProp>,
    pub draw_direction: DrawDirection,
    pub min_byte1: u8,
    pub max_byte1: u8,
    pub all_chars_exist: bool,
    pub font_ascent: i16,
    pub font_descent: i16,
    pub char_infos: Vec<CharInfo>,
}

impl QueryFont {
    /// The number of font properties.
    pub open spec fn spec_props(s: Seq<u8>) -> int {
        spec_le_u16(s, 45) as int
    }

    /// The number of character metrics.
    pub open spec fn spec_chars(s: Seq<u8>) -> int {
        spec_le_u32(s, 55) as int
    }

    /// Bytes the reply takes, not counting its first byte.
    pub open spec fn spec_len(s: Seq<u8>) -> int {
        59 + 8 * Self::spec_props(s) + 12 * Self::spec_chars(s)
    }

    /// Whether `self` holds the fields encoded at the front of `s`.
    pub open spec fn decodes(&self, s: Seq<u8>) -> bool {
        &&& self.min_bounds.decodes(s.subrange(7, s.len() as int))
        &&& self.max_bounds.decodes(s.subrange(23, s.len() as int))
        &&& self.min_char_or_byte2 == spec_le_u16(s, 39)
        &&& self.max_char_or_byte2 == spec_le_u16(s, 41)
        &&& self.default_char == spec_le_u16(s, 43)
        &&& DrawDirection::spec_from_u8(s[47]) == Some(self.draw_direction)
        &&& self.min_byte1 == s[48]
        &&& self.max_byte1 == s[49]
        &&& self.all_chars_exist == (s[50] != 0)
        &&& self.font_ascent == spec_le_i16(s, 51)
        &&& self.font_descent == spec_le_i16(s, 53)
        &&& self.properties@.len() == Self::spec_props(s)
        &&& forall|i: int|
            0 <= i < Self::spec_props(s) ==> (#[trigger] self.properties@[i]).decodes(
                s.subrange(59 + 8 * i, s.len() as int),
            )
        &&& self.char_infos@.len() == Self::spec_chars(s)
        &&& forall|i: int|
            0 <= i < Self::spec_chars(s) ==> (#[trigger] self.char_infos@[i]).decodes(
                s.subrange(59 + 8 * Self::spec_props(s) + 12 * i, s.len() as int),
            )
    }

    /// Decodes the reply; its first byte was already consumed.
    pub fn from_le_bytes(conn: &mut ByteReader) -> (r: Result<Self, Error>)
        ensures
            ({
                let s = old(conn)@;
                if s.len() >= 48 && DrawDirection::spec_from_u8(s[47]) is None {
                    r == Err::<Self, Error>(Error::InvalidEnum("Self", s[47] as u64))
                        && final(conn)@ == s
                } else if s.len() < 59 || s.len() < Self::spec_len(s) {
                    r == Err::<Self, Error>(eof_error()) && final(conn)@ == s
                } else {
                    r matches Ok(v) && v.decodes(s) && final(conn)@ == s.subrange(
                        Self::spec_len(s),
                        s.len() as int,
                    )
                }
            }),
    {
        let ghost s = conn@;
        let available = conn.len();
        if available >= 48 && DrawDirection::from_u8(conn.byte(47)).is_none() {
            return Err(Error::InvalidEnum("Self", conn.byte(47) as u64));
        }
        if available < 59 {
            return Err(Error::eof());
        }
        let properties_count = conn.le_u16_ahead(45) as usize;
        let char_infos_count = conn.le_u32_ahead(55) as usize;
        if (available - 59) / 8 < properties_count {
            return Err(Error::eof());
        }
        let chars_at = 59 + 8 * properties_count;
        if (available - chars_at) / 12 < char_infos_count {
            return Err(Error::eof());
        }
        let draw_direction = match DrawDirection::from_u8(conn.byte(47)) {
            Some(v) => v,
            None => return Err(Error::InvalidEnum("Self", conn.byte(47) as u64)),
        };
        let min_bounds = char_info_at(conn, 7);
        let max_bounds = char_info_at(conn, 23);
        let properties = font_props_at(conn, 59, properties_count);
        let mut char_infos: Vec<CharInfo> = Vec::new();
        let mut i: usize = 0;
        while i < char_infos_count
            invariant
                i <= char_infos_count,
                conn@ == s,
                available == s.len(),
                chars_at + 12 * char_infos_count <= s.len(),
                char_infos@.len() == i,
                forall|j: int|
                    0 <= j < i ==> (#[trigger] char_infos@[j]).decodes(
                        s.subrange(chars_at + 12 * j, s.len() as int),
                    ),
            decreases char_infos_count - i,
        {
            char_infos.push(char_info_at(conn, chars_at + 12 * i));
            i = i + 1;
        }
        let r = Self {
            min_bounds,
            max_bounds,
            min_char_or_byte2: conn.le_u16_ahead(39),
            max_char_or_byte2: conn.le_u16_ahead(41),
            default_char: conn.le_u16_ahead(43),
            properties,
            draw_direction,
            min_byte1: conn.byte(48),
            max_byte1: conn.byte(49),
            all_chars_exist: conn.byte(50) != 0,
            font_ascent: conn.le_i16_ahead(51),
            font_descent: conn.le_i16_ahead(53),
            char_infos,
        };
        conn.advance(chars_at + 12 * char_infos_count);
        Ok(r)
    }
}

/// One font of a font information listing.
#[derive(Debug, Clone, PartialEq, Eq)]
pub struct ListFontsWithInfoPiece {
    pub min_bounds: CharInfo,
    pub max_bounds: CharInfo,
    pub min_char_or_byte2: u16,
    pub max_char_or_byte2: u16,
    pub default_char: u16,
    pub properties: Vec<FontProp>,
    pub draw_direction: DrawDirection,
    pub min_byte1: u8,
    pub max_byte1: u8,
    pub all_chars_exist: bool,
    pub font_ascent: i16,
    pub font_descent: i16,
    pub name: Vec<u8>,
}

/// A reply of a font information listing: one font, or the end of the listing.
#[derive(Debug, Clone, PartialEq, Eq)]
pub enum ListFontsWithInfoPartial {
    ListFontsWithInfoPiece(ListFontsWithInfoPiece),
    ListFontsWithInfoEnd,
}

impl ListFontsWithInfoPartial {
    /// The number of font properties.
    pub open spec fn spec_props(s: Seq<u8>) -> int {
        spec_le_u16(s, 45) as int
    }

    /// Bytes a font's reply takes, not counting its first byte.
    pub open spec fn spec_piece_len(s: Seq<u8>) -> int {
        59 + 8 * Self::spec_props(s) + s[0] + spec_pad(s[0] as int)
    }

    /// Whether `piece` holds the font encoded at the front of `s`.
    pub open spec fn piece_decodes(piece: ListFontsWithInfoPiece, s: Seq<u8>) -> bool {
        &&& piece.min_bounds.decodes(s.subrange(7, s.len() as int))
        &&& piece.max_bounds.decodes(s.subrange(23, s.len() as int))
        &&& piece.min_char_or_byte2 == spec_le_u16(s, 39)
        &&& piece.max_char_or_byte2 == spec_le_u16(s, 41)
        &&& piece.default_char == spec_le_u16(s, 43)
        &&& DrawDirection::spec_from_u8(s[47]) == Some(piece.draw_direction)
        &&& piece.min_byte1 == s[48]
        &&& piece.max_byte1 == s[49]
        &&& piece.all_chars_exist == (s[50] != 0)
        &&& piece.font_ascent == spec_le_i16(s, 51)
        &&& piece.font_descent == spec_le_i16(s, 53)
        &&& piece.properties@.len() == Self::spec_props(s)
        &&& forall|i: int|
            0 <= i < Self::spec_props(s) ==> (#[trigger] piece.properties@[i]).decodes(
                s.subrange(59 + 8 * i, s.len() as int),
            )
        &&& piece.name@ == s.subrange(59 + 8 * Self::spec_props(s), 59 + 8 * Self::spec_props(s) + s[0])
    }

    /// Decodes the reply; its first byte was already consumed. A zero name length marks the
    /// end of the listing.
    pub fn from_le_bytes(conn: &mut ByteReader) -> (r: Result<Self, Error>)
        ensures
            ({
                let s = old(conn)@;
                if s.len() < 1 {
                    r == Err::<Self, Error>(eof_error()) && final(conn)@ == s
                } else if s[0] == 0 {
                    if s.len() < 59 {
                        r == Err::<Self, Error>(eof_error()) && final(conn)@ == s
                    } else {
                        r == Ok::<Self, Error>(ListFontsWithInfoPartial::ListFontsWithInfoEnd)
                            && final(conn)@ == s.subrange(59, s.len() as int)
                    }
                } else if s.len() >= 48 && DrawDirection::spec_from_u8(s[47]) is None {
                    r == Err::<Self, Error>(Error::InvalidEnum("Self", s[47] as u64))
                        && final(conn)@ == s
                } else if s.len() < 59 || s.len() < Self::spec_piece_len(s) {
                    r == Err::<Self, Error>(eof_error()) && final(conn)@ == s
                } else {
                    r matches Ok(ListFontsWithInfoPartial::ListFontsWithInfoPiece(piece))
                        && Self::piece_decodes(piece, s) && final(conn)@ == s.subrange(
                        Self::spec_piece_len(s),
                        s.len() as int,
                    )
                }
            }),
    {
        let ghost s = conn@;
        let available = conn.len();
        if available < 1 {
            return Err(Error::eof());
        }
        let name_length = conn.byte(0) as usize;
        if name_length == 0 {
            if available < 59 {
                return Err(Error::eof());
            }
            conn.advance(59);
            return Ok(ListFontsWithInfoPartial::ListFontsWithInfoEnd);
        }
        if available >= 48 && DrawDirection::from_u8(conn.byte(47)).is_none() {
            return Err(Error::InvalidEnum("Self", conn.byte(47) as u64));
        }
        if available < 59 {
            return Err(Error::eof());
        }
        let properties_count = conn.le_u16_ahead(45) as usize;
        if (available - 59) / 8 < properties_count {
            return Err(Error::eof());
        }
        let name_at = 59 + 8 * properties_count;
        if available - name_at < name_length + pad(name_length) {
            return Err(Error::eof());
        }
        let draw_direction = match DrawDirection::from_u8(conn.byte(47)) {
            Some(v) => v,
            None => return Err(Error::InvalidEnum("Self", conn.byte(47) as u64)),
        };
        let piece = ListFontsWithInfoPiece {
            min_bounds: char_info_at(conn, 7),
            max_bounds: char_info_at(conn, 23),
            min_char_or_byte2: conn.le_u16_ahead(39),
            max_char_or_byte2: conn.le_u16_ahead(41),
            default_char: conn.le_u16_ahead(43),
            properties: font_props_at(conn, 59, properties_count),
            draw_direction,
            min_byte1: conn.byte(48),
            max_byte1: conn.byte(49),
            all_chars_exist: conn.byte(50) != 0,
            font_ascent: conn.le_i16_ahead(51),
            font_descent: conn.le_i16_ahead(53),
            name: conn.copy_bytes(name_at, name_length),
        };
        conn.advance(name_at + name_length + pad(name_length));
        Ok(ListFontsWithInfoPartial::ListFontsWithInfoPiece(piece))
    }
}

/// Font information listing: the fonts received so far, one reply each.
#[derive(Debug, Clone, PartialEq, Eq)]
pub struct ListFontsWithInfo {
    pub replies: Vec<ListFontsWithInfoPiece>,
}

/// A decoded reply.
#[derive(Debug, Clone)]
pub enum SomeReply {
    GetWindowAttributes(GetWindowAttributes),
    GetGeometry(GetGeometry),
    QueryTree(QueryTree),
    InternAtom(InternAtom),
    GetAtomName(GetAtomName),
    GetProperty(GetProperty),
    ListProperties(ListProperties),
    GetSelectionOwner(GetSelectionOwner),
    GrabPointer(GrabPointer),
    GrabKeyboard(GrabKeyboard),
    QueryPointer(QueryPointer),
    GetMotionEvents(GetMotionEvents),
    TranslateCoordinates(TranslateCoordinates),
    GetInputFocus(GetInputFocus),
    QueryKeymap(QueryKeymap),
    QueryFont(QueryFont),
    QueryTextExtents(QueryTextExtents),
    ListFonts(ListFonts),
    ListFontsWithInfo(ListFontsWithInfo),
    ListFontsWithInfoPartial(ListFontsWithInfoPartial),
    GetFontPath(GetFontPath),
    GetImage(GetImage),
    ListInstalledColormaps(ListInstalledColormaps),
    AllocColor(AllocColor),
    AllocNamedColor(AllocNamedColor),
    AllocColorCells(AllocColorCells),
    AllocColorPlanes(AllocColorPlanes),
    QueryColors(QueryColors),
    LookupColor(LookupColor),
    QueryBestSize(QueryBestSize),
    QueryExtension(QueryExtension),
    ListExtensions(ListExtensions),
    GetKeyboardMapping(GetKeyboardMapping),
    GetKeyboardControl(GetKeyboardControl),
    GetPointerControl(GetPointerControl),
    GetScreenSaver(GetScreenSaver),
    ListHosts(ListHosts),
    SetPointerMapping(SetPointerMapping),
    GetPointerMapping(GetPointerMapping),
    SetModifierMapping(SetModifierMapping),
    GetModifierMapping(GetModifierMapping),
    ExtensionRandr(crate::randr_replies::SomeReply),
}

/// The kind of a reply, by the request that asked for it.
#[derive(Debug, Clone, Copy, PartialEq, Eq, Structural)]
pub enum ReplyType {
    GetWindowAttributes,
    GetGeometry,
    QueryTree,
    InternAtom,
    GetAtomName,
    GetProperty,
    ListProperties,
    GetSelectionOwner,
    GrabPointer,
    GrabKeyboard,
    QueryPointer,
    GetMotionEvents,
    TranslateCoordinates,
    GetInputFocus,
    QueryKeymap,
    QueryFont,
    QueryTextExtents,
    ListFonts,
    ListFontsWithInfo,
    GetFontPath,
    GetImage,
    ListInstalledColormaps,
    AllocColor,
    AllocNamedColor,
    AllocColorCells,
    AllocColorPlanes,
    QueryColors,
    LookupColor,
    QueryBestSize,
    QueryExtension,
    ListExtensions,
    GetKeyboardMapping,
    GetKeyboardControl,
    GetPointerControl,
    GetScreenSaver,
    ListHosts,
    SetPointerMapping,
    GetPointerMapping,
    SetModifierMapping,
    GetModifierMapping,
    ExtensionRandr(crate::randr_replies::ReplyType),
}

/// A reply that arrived for a request; a font information listing arrives in several.
#[derive(Debug)]
pub struct ReceivedReply {
    pub reply_type: ReplyType,
    pub reply: Result<SomeReply, ()>,
    pub done_receiving: bool,
}

/// Whether a received reply is a font information listing still open to more fonts.
pub open spec fn open_listing(received: ReceivedReply) -> bool {
    !received.done_receiving && received.reply matches Ok(SomeReply::ListFontsWithInfo(_))
}

impl ReceivedReply {
    /// Adds a further reply to a font information listing: a font is appended, the end
    /// marker closes the listing. Returns whether the reply belonged to the listing;
    /// otherwise nothing changes.
    pub fn append_reply(&mut self, reply: SomeReply) -> (r: bool)
        ensures
            r == (open_listing(*old(self)) && reply is ListFontsWithInfoPartial),
            final(self).reply_type == old(self).reply_type,
            !r ==> *final(self) == *old(self),
            r && (reply matches SomeReply::ListFontsWithInfoPartial(p) && p is ListFontsWithInfoEnd)
                ==> final(self).done_receiving && final(self).reply == old(self).reply,
            r && (reply matches SomeReply::ListFontsWithInfoPartial(p) && p is ListFontsWithInfoPiece)
                ==> !final(self).done_receiving && (final(self).reply matches Ok(
                SomeReply::ListFontsWithInfo(list),
            ) && old(self).reply matches Ok(SomeReply::ListFontsWithInfo(before))
                && reply matches SomeReply::ListFontsWithInfoPartial(
                ListFontsWithInfoPartial::ListFontsWithInfoPiece(piece),
            ) && list.replies@ == before.replies@.push(piece)),
    {
        if self.done_receiving {
            return false;
        }
        let is_listing = match &self.reply {
            Ok(SomeReply::ListFontsWithInfo(_)) => true,
            _ => false,
        };
        if !is_listing {
            return false;
        }
        match reply {
            SomeReply::ListFontsWithInfoPartial(ListFontsWithInfoPartial::ListFontsWithInfoEnd) => {
                self.done_receiving = true;
                true
            },
            SomeReply::ListFontsWithInfoPartial(
                ListFontsWithInfoPartial::ListFontsWithInfoPiece(piece),
            ) => {
                match &mut self.reply {
                    Ok(SomeReply::ListFontsWithInfo(list)) => {
                        list.replies.push(piece);
                    },
                    _ => {},
                }
                true
            },
            _ => false,
        }
    }
}

/// The state of a reply that a request awaits.
#[derive(Debug)]
pub enum AwaitingReply {
    NotReceived(ReplyType),
    Discarded(ReplyType),
    Received(ReceivedReply),
}

impl AwaitingReply {
    /// The kind of the reply.
    pub open spec fn spec_reply_type(&self) -> ReplyType {
        match self {
            AwaitingReply::NotReceived(reply_type) => *reply_type,
            AwaitingReply::Discarded(reply_type) => *reply_type,
            AwaitingReply::Received(received) => received.reply_type,
        }
    }

    /// The kind of the reply.
    pub fn reply_type(&self) -> (r: ReplyType)
        ensures
            r == self.spec_reply_type(),
    {
        match self {
            AwaitingReply::NotReceived(reply_type) => *reply_type,
            AwaitingReply::Discarded(reply_type) => *reply_type,
            AwaitingReply::Received(received) => received.reply_type,
        }
    }
}

/// A kind of reply that can be taken out of a decoded reply.
pub trait XReply: Sized {
    /// The reply that `reply` holds, if it is of this kind.
    spec fn spec_from_reply(reply: SomeReply) -> Option<Self>;

    /// The reply that `reply` holds, if it is of this kind.
    fn from_reply(reply: SomeReply) -> (r: Option<Self>)
        ensures
            r == Self::spec_from_reply(reply),
    ;
}

impl XReply for GetWindowAttributes {
    open spec fn spec_from_reply(reply: SomeReply) -> Option<Self> {
        match reply {
            SomeReply::GetWindowAttributes(r) => Some(r),
            _ => None,
        }
    }

    fn from_reply(reply: SomeReply) -> (r: Option<Self>) {
        match reply {
            SomeReply::GetWindowAttributes(r) => Some(r),
            _ => None,
        }
    }
}

impl XReply for GetGeometry {
    open spec fn spec_from_reply(reply: SomeReply) -> Option<Self> {
        match reply {
            SomeReply::GetGeometry(r) => Some(r),
            _ => None,
        }
    }

    fn from_reply(reply: SomeReply) -> (r: Option<Self>) {
        match reply {
            SomeReply::GetGeometry(r) => Some(r),
            _ => None,
        }
    }
}

impl XReply for QueryTree {
    open spec fn spec_from_reply(reply: SomeReply) -> Option<Self> {
        match reply {
            SomeReply::QueryTree(r) => Some(r),
            _ => None,
        }
    }

    fn from_reply(reply: SomeReply) -> (r: Option<Self>) {
        match reply {
            SomeReply::QueryTree(r) => Some(r),
            _ => None,
        }
    }
}

impl XReply for InternAtom {
    open spec fn spec_from_reply(reply: SomeReply) -> Option<Self> {
        match reply {
            SomeReply::InternAtom(r) => Some(r),
            _ => None,
        }
    }

    fn from_reply(reply: SomeReply) -> (r: Option<Self>) {
        match reply {
            SomeReply::InternAtom(r) => Some(r),
            _ => None,
        }
    }
}

impl XReply for GetAtomName {
    open spec fn spec_from_reply(reply: SomeReply) -> Option<Self> {
        match reply {
            SomeReply::GetAtomName(r) => Some(r),
            _ => None,
        }
    }

    fn from_reply(reply: SomeReply) -> (r: Option<Self>) {
        match reply {
            SomeReply::GetAtomName(r) => Some(r),
            _ => None,
        }
    }
}

impl XReply for GetProperty {
    open spec fn spec_from_reply(reply: SomeReply) -> Option<Self> {
        match reply {
            SomeReply::GetProperty(r) => Some(r),
            _ => None,
        }
    }

    fn from_reply(reply: SomeReply) -> (r: Option<Self>) {
        match reply {
            SomeReply::GetProperty(r) => Some(r),
            _ => None,
        }
    }
}

impl XReply for ListProperties {
    open spec fn spec_from_reply(reply: SomeReply) -> Option<Self> {
        match reply {
            SomeReply::ListProperties(r) => Some(r),
            _ => None,
        }
    }

    fn from_reply(reply: SomeReply) -> (r: Option<Self>) {
        match reply {
            SomeReply::ListProperties(r) => Some(r),
            _ => None,
        }
    }
}

impl XReply for GetSelectionOwner {
    open spec fn spec_from_reply(reply: SomeReply) -> Option<Self> {
        match reply {
            SomeReply::GetSelectionOwner(r) => Some(r),
            _ => None,
        }
    }

    fn from_reply(reply: SomeReply) -> (r: Option<Self>) {
        match reply {
            SomeReply::GetSelectionOwner(r) => Some(r),
            _ => None,
        }
    }
}

impl XReply for GrabPointer {
    open spec fn spec_from_reply(reply: SomeReply) -> Option<Self> {
        match reply {
            SomeReply::GrabPointer(r) => Some(r),
            _ => None,
        }
    }

    fn from_reply(reply: SomeReply) -> (r: Option<Self>) {
        match reply {
            SomeReply::GrabPointer(r) => Some(r),
            _ => None,
        }
    }
}

impl XReply for GrabKeyboard {
    open spec fn spec_from_reply(reply: SomeReply) -> Option<Self> {
        match reply {
            SomeReply::GrabKeyboard(r) => Some(r),
            _ => None,
        }
    }

    fn from_reply(reply: SomeReply) -> (r: Option<Self>) {
        match reply {
            SomeReply::GrabKeyboard(r) => Some(r),
            _ => None,
        }
    }
}

impl XReply for QueryPointer {
    open spec fn spec_from_reply(reply: SomeReply) -> Option<Self> {
        match reply {
            SomeReply::QueryPointer(r) => Some(r),
            _ => None,
        }
    }

    fn from_reply(reply: SomeReply) -> (r: Option<Self>) {
        match reply {
            SomeReply::QueryPointer(r) => Some(r),
            _ => None,
        }
    }
}

impl XReply for GetMotionEvents {
    open spec fn spec_from_reply(reply: SomeReply) -> Option<Self> {
        match reply {
            SomeReply::GetMotionEvents(r) => Some(r),
            _ => None,
        }
    }

    fn from_reply(reply: SomeReply) -> (r: Option<Self>) {
        match reply {
            SomeReply::GetMotionEvents(r) => Some(r),
            _ => None,
        }
    }
}

impl XReply for TranslateCoordinates {
    open spec fn spec_from_reply(reply: SomeReply) -> Option<Self> {
        match reply {
            SomeReply::TranslateCoordinates(r) => Some(r),
            _ => None,
        }
    }

    fn from_reply(reply: SomeReply) -> (r: Option<Self>) {
        match reply {
            SomeReply::TranslateCoordinates(r) => Some(r),
            _ => None,
        }
    }
}

impl XReply for GetInputFocus {
    open spec fn spec_from_reply(reply: SomeReply) -> Option<Self> {
        match reply {
            SomeReply::GetInputFocus(r) => Some(r),
            _ => None,
        }
    }

    fn from_reply(reply: SomeReply) -> (r: Option<Self>) {
        match reply {
            SomeReply::GetInputFocus(r) => Some(r),
            _ => None,
        }
    }
}

impl XReply for QueryKeymap {
    open spec fn spec_from_reply(reply: SomeReply) -> Option<Self> {
        match reply {
            SomeReply::QueryKeymap(r) => Some(r),
            _ => None,
        }
    }

    fn from_reply(reply: SomeReply) -> (r: Option<Self>) {
        match reply {
            SomeReply::QueryKeymap(r) => Some(r),
            _ => None,
        }
    }
}

impl XReply for QueryFont {
    open spec fn spec_from_reply(reply: SomeReply) -> Option<Self> {
        match reply {
            SomeReply::QueryFont(r) => Some(r),
            _ => None,
        }
    }

    fn from_reply(reply: SomeReply) -> (r: Option<Self>) {
        match reply {
            SomeReply::QueryFont(r) => Some(r),
            _ => None,
        }
    }
}

impl XReply for QueryTextExtents {
    open spec fn spec_from_reply(reply: SomeReply) -> Option<Self> {
        match reply {
            SomeReply::QueryTextExtents(r) => Some(r),
            _ => None,
        }
    }

    fn from_reply(reply: SomeReply) -> (r: Option<Self>) {
        match reply {
            SomeReply::QueryTextExtents(r) => Some(r),
            _ => None,
        }
    }
}

impl XReply for ListFonts {
    open spec fn spec_from_reply(reply: SomeReply) -> Option<Self> {
        match reply {
            SomeReply::ListFonts(r) => Some(r),
            _ => None,
        }
    }

    fn from_reply(reply: SomeReply) -> (r: Option<Self>) {
        match reply {
            SomeReply::ListFonts(r) => Some(r),
            _ => None,
        }
    }
}

impl XReply for ListFontsWithInfo {
    open spec fn spec_from_reply(reply: SomeReply) -> Option<Self> {
        match reply {
            SomeReply::ListFontsWithInfo(r) => Some(r),
            _ => None,
        }
    }

    fn from_reply(reply: SomeReply) -> (r: Option<Self>) {
        match reply {
            SomeReply::ListFontsWithInfo(r) => Some(r),
            _ => None,
        }
    }
}

impl XReply for GetFontPath {
    open spec fn spec_from_reply(reply: SomeReply) -> Option<Self> {
        match reply {
            SomeReply::GetFontPath(r) => Some(r),
            _ => None,
        }
    }

    fn from_reply(reply: SomeReply) -> (r: Option<Self>) {
        match reply {
            SomeReply::GetFontPath(r) => Some(r),
            _ => None,
        }
    }
}

impl XReply for GetImage {
    open spec fn spec_from_reply(reply: SomeReply) -> Option<Self> {
        match reply {
            SomeReply::GetImage(r) => Some(r),
            _ => None,
        }
    }

    fn from_reply(reply: SomeReply) -> (r: Option<Self>) {
        match reply {
            SomeReply::GetImage(r) => Some(r),
            _ => None,
        }
    }
}

impl XReply for ListInstalledColormaps {
    open spec fn spec_from_reply(reply: SomeReply) -> Option<Self> {
        match reply {
            SomeReply::ListInstalledColormaps(r) => Some(r),
            _ => None,
        }
    }

    fn from_reply(reply: SomeReply) -> (r: Option<Self>) {
        match reply {
            SomeReply::ListInstalledColormaps(r) => Some(r),
            _ => None,
        }
    }
}

impl XReply for AllocColor {
    open spec fn spec_from_reply(reply: SomeReply) -> Option<Self> {
        match reply {
            SomeReply::AllocColor(r) => Some(r),
            _ => None,
        }
    }

    fn from_reply(reply: SomeReply) -> (r: Option<Self>) {
        match reply {
            SomeReply::AllocColor(r) => Some(r),
            _ => None,
        }
    }
}

impl XReply for AllocNamedColor {
    open spec fn spec_from_reply(reply: SomeReply) -> Option<Self> {
        match reply {
            SomeReply::AllocNamedColor(r) => Some(r),
            _ => None,
        }
    }

    fn from_reply(reply: SomeReply) -> (r: Option<Self>) {
        match reply {
            SomeReply::AllocNamedColor(r) => Some(r),
            _ => None,
        }
    }
}

impl XReply for AllocColorCells {
    open spec fn spec_from_reply(reply: SomeReply) -> Option<Self> {
        match reply {
            SomeReply::AllocColorCells(r) => Some(r),
            _ => None,
        }
    }

    fn from_reply(reply: SomeReply) -> (r: Option<Self>) {
        match reply {
            SomeReply::AllocColorCells(r) => Some(r),
            _ => None,
        }
    }
}

impl XReply for AllocColorPlanes {
    open spec fn spec_from_reply(reply: SomeReply) -> Option<Self> {
        match reply {
            SomeReply::AllocColorPlanes(r) => Some(r),
            _ => None,
        }
    }

    fn from_reply(reply: SomeReply) -> (r: Option<Self>) {
        match reply {
            SomeReply::AllocColorPlanes(r) => Some(r),
            _ => None,
        }
    }
}

impl XReply for QueryColors {
    open spec fn spec_from_reply(reply: SomeReply) -> Option<Self> {
        match reply {
            SomeReply::QueryColors(r) => Some(r),
            _ => None,
        }
    }

    fn from_reply(reply: SomeReply) -> (r: Option<Self>) {
        match reply {
            SomeReply::QueryColors(r) => Some(r),
            _ => None,
        }
    }
}

impl XReply for LookupColor {
    open spec fn spec_from_reply(reply: SomeReply) -> Option<Self> {
        match reply {
            SomeReply::LookupColor(r) => Some(r),
            _ => None,
        }
    }

    fn from_reply(reply: SomeReply) -> (r: Option<Self>) {
        match reply {
            SomeReply::LookupColor(r) => Some(r),
            _ => None,
        }
    }
}

impl XReply for QueryBestSize {
    open spec fn spec_from_reply(reply: SomeReply) -> Option<Self> {
        match reply {
            SomeReply::QueryBestSize(r) => Some(r),
            _ => None,
        }
    }

    fn from_reply(reply: SomeReply) -> (r: Option<Self>) {
        match reply {
            SomeReply::QueryBestSize(r) => Some(r),
            _ => None,
        }
    }
}

impl XReply for QueryExtension {
    open spec fn spec_from_reply(reply: SomeReply) -> Option<Self> {
        match reply {
            SomeReply::QueryExtension(r) => Some(r),
            _ => None,
        }
    }

    fn from_reply(reply: SomeReply) -> (r: Option<Self>) {
        match reply {
            SomeReply::QueryExtension(r) => Some(r),
            _ => None,
        }
    }
}

impl XReply for ListExtensions {
    open spec fn spec_from_reply(reply: SomeReply) -> Option<Self> {
        match reply {
            SomeReply::ListExtensions(r) => Some(r),
            _ => None,
        }
    }

    fn from_reply(reply: SomeReply) -> (r: Option<Self>) {
        match reply {
            SomeReply::ListExtensions(r) => Some(r),
            _ => None,
        }
    }
}

impl XReply for GetKeyboardMapping {
    open spec fn spec_from_reply(reply: SomeReply) -> Option<Self> {
        match reply {
            SomeReply::GetKeyboardMapping(r) => Some(r),
            _ => None,
        }
    }

    fn from_reply(reply: SomeReply) -> (r: Option<Self>) {
        match reply {
            SomeReply::GetKeyboardMapping(r) => Some(r),
            _ => None,
        }
    }
}

impl XReply for GetKeyboardControl {
    open spec fn spec_from_reply(reply: SomeReply) -> Option<Self> {
        match reply {
            SomeReply::GetKeyboardControl(r) => Some(r),
            _ => None,
        }
    }

    fn from_reply(reply: SomeReply) -> (r: Option<Self>) {
        match reply {
            SomeReply::GetKeyboardControl(r) => Some(r),
            _ => None,
        }
    }
}

impl XReply for GetPointerControl {
    open spec fn spec_from_reply(reply: SomeReply) -> Option<Self> {
        match reply {
            SomeReply::GetPointerControl(r) => Some(r),
            _ => None,
        }
    }

    fn from_reply(reply: SomeReply) -> (r: Option<Self>) {
        match reply {
            SomeReply::GetPointerControl(r) => Some(r),
            _ => None,
        }
    }
}

impl XReply for GetScreenSaver {
    open spec fn spec_from_reply(reply: SomeReply) -> Option<Self> {
        match reply {
            SomeReply::GetScreenSaver(r) => Some(r),
            _ => None,
        }
    }

    fn from_reply(reply: SomeReply) -> (r: Option<Self>) {
        match reply {
            SomeReply::GetScreenSaver(r) => Some(r),
            _ => None,
        }
    }
}

impl XReply for ListHosts {
    open spec fn spec_from_reply(reply: SomeReply) -> Option<Self> {
        match reply {
            SomeReply::ListHosts(r) => Some(r),
            _ => None,
        }
    }

    fn from_reply(reply: SomeReply) -> (r: Option<Self>) {
        match reply {
            SomeReply::ListHosts(r) => Some(r),
            _ => None,
        }
    }
}

impl XReply for SetPointerMapping {
    open spec fn spec_from_reply(reply: SomeReply) -> Option<Self> {
        match reply {
            SomeReply::SetPointerMapping(r) => Some(r),
            _ => None,
        }
    }

    fn from_reply(reply: SomeReply) -> (r: Option<Self>) {
        match reply {
            SomeReply::SetPointerMapping(r) => Some(r),
            _ => None,
        }
    }
}

impl XReply for GetPointerMapping {
    open spec fn spec_from_reply(reply: SomeReply) -> Option<Self> {
        match reply {
            SomeReply::GetPointerMapping(r) => Some(r),
            _ => None,
        }
    }

    fn from_reply(reply: SomeReply) -> (r: Option<Self>) {
        match reply {
            SomeReply::GetPointerMapping(r) => Some(r),
            _ => None,
        }
    }
}

impl XReply for SetModifierMapping {
    open spec fn spec_from_reply(reply: SomeReply) -> Option<Self> {
        match reply {
            SomeReply::SetModifierMapping(r) => Some(r),
            _ => None,
        }
    }

    fn from_reply(reply: SomeReply) -> (r: Option<Self>) {
        match reply {
            SomeReply::SetModifierMapping(r) => Some(r),
            _ => None,
        }
    }
}

impl XReply for GetModifierMapping {
    open spec fn spec_from_reply(reply: SomeReply) -> Option<Self> {
        match reply {
            SomeReply::GetModifierMapping(r) => Some(r),
            _ => None,
        }
    }

    fn from_reply(reply: SomeReply) -> (r: Option<Self>) {
        match reply {
            SomeReply::GetModifierMapping(r) => Some(r),
            _ => None,
        }
    }
}

} // verus!
