//! Events sent by the X server, each 32 bytes long.
use vstd::prelude::*;

use crate::bytes::{
    le_i16_at, le_u16_at, le_u32_at, lemma_i16_pattern_roundtrip, lemma_le_u16_bytes_roundtrip,
    lemma_le_u32_bytes_roundtrip, lemma_u16_bytes_roundtrip, lemma_u16_i16_pattern_roundtrip,
    lemma_u32_bytes_roundtrip, push_i16, push_u16, push_u32, spec_i16_as_u16, spec_i16_bytes,
    spec_le_i16, spec_le_u16, spec_le_u32, spec_u16_bytes, spec_u32_bytes,
};
use crate::ids::{lemma_raw_is_view, AtomId, ColormapId, OrNone, ResourceId, WindowId, XId};

verus! {

/// Detail of a pointer motion event.
#[derive(Debug, Clone, Copy, PartialEq, Eq, Structural, PartialOrd, Ord, Hash)]
pub enum MotionNotifyDetail {
    Normal,
    Hint,
}

impl MotionNotifyDetail {
    /// The variant encoded by `value`, if any.
    pub open spec fn spec_from_u8(value: u8) -> Option<MotionNotifyDetail> {
        if value == 0 {
            Some(MotionNotifyDetail::Normal)
        } else if value == 1 {
            Some(MotionNotifyDetail::Hint)
        } else {
            None
        }
    }

    /// The variant encoded by `value`, if any.
    pub fn from_u8(value: u8) -> (r: Option<MotionNotifyDetail>)
        ensures
            r == Self::spec_from_u8(value),
    {
        match value {
            0 => Some(MotionNotifyDetail::Normal),
            1 => Some(MotionNotifyDetail::Hint),
            _ => None,
        }
    }

    /// The wire value of the variant.
    pub open spec fn spec_to_u8(self) -> u8 {
        match self {
            MotionNotifyDetail::Normal => 0,
            MotionNotifyDetail::Hint => 1,
        }
    }

    /// The wire value of the variant.
    pub fn to_u8(self) -> (r: u8)
        ensures
            r == self.spec_to_u8(),
            Self::spec_from_u8(r) == Some(self),
    {
        match self {
            MotionNotifyDetail::Normal => 0,
            MotionNotifyDetail::Hint => 1,
        }
    }
}

/// Mode of an enter or leave event.
#[derive(Debug, Clone, Copy, PartialEq, Eq, Structural, PartialOrd, Ord, Hash)]
pub enum EnterLeaveNotifyMode {
    Normal,
    Grab,
    Ungrab,
}

impl EnterLeaveNotifyMode {
    /// The variant encoded by `value`, if any.
    pub open spec fn spec_from_u8(value: u8) -> Option<EnterLeaveNotifyMode> {
        if value == 0 {
            Some(EnterLeaveNotifyMode::Normal)
        } else if value == 1 {
            Some(EnterLeaveNotifyMode::Grab)
        } else if value == 2 {
            Some(EnterLeaveNotifyMode::Ungrab)
        } else {
            None
        }
    }

    /// The variant encoded by `value`, if any.
    pub fn from_u8(value: u8) -> (r: Option<EnterLeaveNotifyMode>)
        ensures
            r == Self::spec_from_u8(value),
    {
        match value {
            0 => Some(EnterLeaveNotifyMode::Normal),
            1 => Some(EnterLeaveNotifyMode::Grab),
            2 => Some(EnterLeaveNotifyMode::Ungrab),
            _ => None,
        }
    }

    /// The wire value of the variant.
    pub open spec fn spec_to_u8(self) -> u8 {
        match self {
            EnterLeaveNotifyMode::Normal => 0,
            EnterLeaveNotifyMode::Grab => 1,
            EnterLeaveNotifyMode::Ungrab => 2,
        }
    }

    /// The wire value of the variant.
    pub fn to_u8(self) -> (r: u8)
        ensures
            r == self.spec_to_u8(),
            Self::spec_from_u8(r) == Some(self),
    {
        match self {
            EnterLeaveNotifyMode::Normal => 0,
            EnterLeaveNotifyMode::Grab => 1,
            EnterLeaveNotifyMode::Ungrab => 2,
        }
    }
}

/// Detail of an enter or leave event.
#[derive(Debug, Clone, Copy, PartialEq, Eq, Structural, PartialOrd, Ord, Hash)]
pub enum EnterLeaveNotifyDetail {
    Ancestor,
    Virtual,
    Inferior,
    Nonlinear,
    NonlinearVirtual,
}

impl EnterLeaveNotifyDetail {
    /// The variant encoded by `value`, if any.
    pub open spec fn spec_from_u8(value: u8) -> Option<EnterLeaveNotifyDetail> {
        if value == 0 {
            Some(EnterLeaveNotifyDetail::Ancestor)
        } else if value == 1 {
            Some(EnterLeaveNotifyDetail::Virtual)
        } else if value == 2 {
            Some(EnterLeaveNotifyDetail::Inferior)
        } else if value == 3 {
            Some(EnterLeaveNotifyDetail::Nonlinear)
        } else if value == 4 {
            Some(EnterLeaveNotifyDetail::NonlinearVirtual)
        } else {
            None
        }
    }

    /// The variant encoded by `value`, if any.
    pub fn from_u8(value: u8) -> (r: Option<EnterLeaveNotifyDetail>)
        ensures
            r == Self::spec_from_u8(value),
    {
        match value {
            0 => Some(EnterLeaveNotifyDetail::Ancestor),
            1 => Some(EnterLeaveNotifyDetail::Virtual),
            2 => Some(EnterLeaveNotifyDetail::Inferior),
            3 => Some(EnterLeaveNotifyDetail::Nonlinear),
            4 => Some(EnterLeaveNotifyDetail::NonlinearVirtual),
            _ => None,
        }
    }

    /// The wire value of the variant.
    pub open spec fn spec_to_u8(self) -> u8 {
        match self {
            EnterLeaveNotifyDetail::Ancestor => 0,
            EnterLeaveNotifyDetail::Virtual => 1,
            EnterLeaveNotifyDetail::Inferior => 2,
            EnterLeaveNotifyDetail::Nonlinear => 3,
            EnterLeaveNotifyDetail::NonlinearVirtual => 4,
        }
    }

    /// The wire value of the variant.
    pub fn to_u8(self) -> (r: u8)
        ensures
            r == self.spec_to_u8(),
            Self::spec_from_u8(r) == Some(self),
    {
        match self {
            EnterLeaveNotifyDetail::Ancestor => 0,
            EnterLeaveNotifyDetail::Virtual => 1,
            EnterLeaveNotifyDetail::Inferior => 2,
            EnterLeaveNotifyDetail::Nonlinear => 3,
            EnterLeaveNotifyDetail::NonlinearVirtual => 4,
        }
    }
}

/// Detail of a focus event.
#[derive(Debug, Clone, Copy, PartialEq, Eq, Structural, PartialOrd, Ord, Hash)]
pub enum FocusInOutDetail {
    Ancestor,
    Virtual,
    Inferior,
    Nonlinear,
    NonlinearVirtual,
    Pointer,
    PointerRoot,
    Nothing,
}

impl FocusInOutDetail {
    /// The variant encoded by `value`, if any.
    pub open spec fn spec_from_u8(value: u8) -> Option<FocusInOutDetail> {
        if value == 0 {
            Some(FocusInOutDetail::Ancestor)
        } else if value == 1 {
            Some(FocusInOutDetail::Virtual)
        } else if value == 2 {
            Some(FocusInOutDetail::Inferior)
        } else if value == 3 {
            Some(FocusInOutDetail::Nonlinear)
        } else if value == 4 {
            Some(FocusInOutDetail::NonlinearVirtual)
        } else if value == 5 {
            Some(FocusInOutDetail::Pointer)
        } else if value == 6 {
            Some(FocusInOutDetail::PointerRoot)
        } else if value == 7 {
            Some(FocusInOutDetail::Nothing)
        } else {
            None
        }
    }

    /// The variant encoded by `value`, if any.
    pub fn from_u8(value: u8) -> (r: Option<FocusInOutDetail>)
        ensures
            r == Self::spec_from_u8(value),
    {
        match value {
            0 => Some(FocusInOutDetail::Ancestor),
            1 => Some(FocusInOutDetail::Virtual),
            2 => Some(FocusInOutDetail::Inferior),
            3 => Some(FocusInOutDetail::Nonlinear),
            4 => Some(FocusInOutDetail::NonlinearVirtual),
            5 => Some(FocusInOutDetail::Pointer),
            6 => Some(FocusInOutDetail::PointerRoot),
            7 => Some(FocusInOutDetail::Nothing),
            _ => None,
        }
    }

    /// The wire value of the variant.
    pub open spec fn spec_to_u8(self) -> u8 {
        match self {
            FocusInOutDetail::Ancestor => 0,
            FocusInOutDetail::Virtual => 1,
            FocusInOutDetail::Inferior => 2,
            FocusInOutDetail::Nonlinear => 3,
            FocusInOutDetail::NonlinearVirtual => 4,
            FocusInOutDetail::Pointer => 5,
            FocusInOutDetail::PointerRoot => 6,
            FocusInOutDetail::Nothing => 7,
        }
    }

    /// The wire value of the variant.
    pub fn to_u8(self) -> (r: u8)
        ensures
            r == self.spec_to_u8(),
            Self::spec_from_u8(r) == Some(self),
    {
        match self {
            FocusInOutDetail::Ancestor => 0,
            FocusInOutDetail::Virtual => 1,
            FocusInOutDetail::Inferior => 2,
            FocusInOutDetail::Nonlinear => 3,
            FocusInOutDetail::NonlinearVirtual => 4,
            FocusInOutDetail::Pointer => 5,
            FocusInOutDetail::PointerRoot => 6,
            FocusInOutDetail::Nothing => 7,
        }
    }
}

/// Mode of a focus event.
#[derive(Debug, Clone, Copy, PartialEq, Eq, Structural, PartialOrd, Ord, Hash)]
pub enum FocusInOutMode {
    Normal,
    Grab,
    Ungrab,
    WhileGrabbed,
}

impl FocusInOutMode {
    /// The variant encoded by `value`, if any.
    pub open spec fn spec_from_u8(value: u8) -> Option<FocusInOutMode> {
        if value == 0 {
            Some(FocusInOutMode::Normal)
        } else if value == 1 {
            Some(FocusInOutMode::Grab)
        } else if value == 2 {
            Some(FocusInOutMode::Ungrab)
        } else if value == 3 {
            Some(FocusInOutMode::WhileGrabbed)
        } else {
            None
        }
    }

    /// The variant encoded by `value`, if any.
    pub fn from_u8(value: u8) -> (r: Option<FocusInOutMode>)
        ensures
            r == Self::spec_from_u8(value),
    {
        match value {
            0 => Some(FocusInOutMode::Normal),
            1 => Some(FocusInOutMode::Grab),
            2 => Some(FocusInOutMode::Ungrab),
            3 => Some(FocusInOutMode::WhileGrabbed),
            _ => None,
        }
    }

    /// The wire value of the variant.
    pub open spec fn spec_to_u8(self) -> u8 {
        match self {
            FocusInOutMode::Normal => 0,
            FocusInOutMode::Grab => 1,
            FocusInOutMode::Ungrab => 2,
            FocusInOutMode::WhileGrabbed => 3,
        }
    }

    /// The wire value of the variant.
    pub fn to_u8(self) -> (r: u8)
        ensures
            r == self.spec_to_u8(),
            Self::spec_from_u8(r) == Some(self),
    {
        match self {
            FocusInOutMode::Normal => 0,
            FocusInOutMode::Grab => 1,
            FocusInOutMode::Ungrab => 2,
            FocusInOutMode::WhileGrabbed => 3,
        }
    }
}

/// New visibility of a window.
#[derive(Debug, Clone, Copy, PartialEq, Eq, Structural, PartialOrd, Ord, Hash)]
pub enum VisibilityNotifyState {
    Unobscured,
    PartiallyObscured,
    FullyObscured,
}

impl VisibilityNotifyState {
    /// The variant encoded by `value`, if any.
    pub open spec fn spec_from_u8(value: u8) -> Option<VisibilityNotifyState> {
        if value == 0 {
            Some(VisibilityNotifyState::Unobscured)
        } else if value == 1 {
            Some(VisibilityNotifyState::PartiallyObscured)
        } else if value == 2 {
            Some(VisibilityNotifyState::FullyObscured)
        } else {
            None
        }
    }

    /// The variant encoded by `value`, if any.
    pub fn from_u8(value: u8) -> (r: Option<VisibilityNotifyState>)
        ensures
            r == Self::spec_from_u8(value),
    {
        match value {
            0 => Some(VisibilityNotifyState::Unobscured),
            1 => Some(VisibilityNotifyState::PartiallyObscured),
            2 => Some(VisibilityNotifyState::FullyObscured),
            _ => None,
        }
    }

    /// The wire value of the variant.
    pub open spec fn spec_to_u8(self) -> u8 {
        match self {
            VisibilityNotifyState::Unobscured => 0,
            VisibilityNotifyState::PartiallyObscured => 1,
            VisibilityNotifyState::FullyObscured => 2,
        }
    }

    /// The wire value of the variant.
    pub fn to_u8(self) -> (r: u8)
        ensures
            r == self.spec_to_u8(),
            Self::spec_from_u8(r) == Some(self),
    {
        match self {
            VisibilityNotifyState::Unobscured => 0,
            VisibilityNotifyState::PartiallyObscured => 1,
            VisibilityNotifyState::FullyObscured => 2,
        }
    }
}

/// Requested stacking of a window.
#[derive(Debug, Clone, Copy, PartialEq, Eq, Structural, PartialOrd, Ord, Hash)]
pub enum StackMode {
    Above,
    Below,
    TopIf,
    BottomIf,
    Opposite,
}

impl StackMode {
    /// The variant encoded by `value`, if any.
    pub open spec fn spec_from_u8(value: u8) -> Option<StackMode> {
        if value == 0 {
            Some(StackMode::Above)
        } else if value == 1 {
            Some(StackMode::Below)
        } else if value == 2 {
            Some(StackMode::TopIf)
        } else if value == 3 {
            Some(StackMode::BottomIf)
        } else if value == 4 {
            Some(StackMode::Opposite)
        } else {
            None
        }
    }

    /// The variant encoded by `value`, if any.
    pub fn from_u8(value: u8) -> (r: Option<StackMode>)
        ensures
            r == Self::spec_from_u8(value),
    {
        match value {
            0 => Some(StackMode::Above),
            1 => Some(StackMode::Below),
            2 => Some(StackMode::TopIf),
            3 => Some(StackMode::BottomIf),
            4 => Some(StackMode::Opposite),
            _ => None,
        }
    }

    /// The wire value of the variant.
    pub open spec fn spec_to_u8(self) -> u8 {
        match self {
            StackMode::Above => 0,
            StackMode::Below => 1,
            StackMode::TopIf => 2,
            StackMode::BottomIf => 3,
            StackMode::Opposite => 4,
        }
    }

    /// The wire value of the variant.
    pub fn to_u8(self) -> (r: u8)
        ensures
            r == self.spec_to_u8(),
            Self::spec_from_u8(r) == Some(self),
    {
        match self {
            StackMode::Above => 0,
            StackMode::Below => 1,
            StackMode::TopIf => 2,
            StackMode::BottomIf => 3,
            StackMode::Opposite => 4,
        }
    }
}

/// Where a circulated window was placed.
#[derive(Debug, Clone, Copy, PartialEq, Eq, Structural, PartialOrd, Ord, Hash)]
pub enum CirculateNotifyPlace {
    Top,
    Bottom,
}

impl CirculateNotifyPlace {
    /// The variant encoded by `value`, if any.
    pub open spec fn spec_from_u8(value: u8) -> Option<CirculateNotifyPlace> {
        if value == 0 {
            Some(CirculateNotifyPlace::Top)
        } else if value == 1 {
            Some(CirculateNotifyPlace::Bottom)
        } else {
            None
        }
    }

    /// The variant encoded by `value`, if any.
    pub fn from_u8(value: u8) -> (r: Option<CirculateNotifyPlace>)
        ensures
            r == Self::spec_from_u8(value),
    {
        match value {
            0 => Some(CirculateNotifyPlace::Top),
            1 => Some(CirculateNotifyPlace::Bottom),
            _ => None,
        }
    }

    /// The wire value of the variant.
    pub open spec fn spec_to_u8(self) -> u8 {
        match self {
            CirculateNotifyPlace::Top => 0,
            CirculateNotifyPlace::Bottom => 1,
        }
    }

    /// The wire value of the variant.
    pub fn to_u8(self) -> (r: u8)
        ensures
            r == self.spec_to_u8(),
            Self::spec_from_u8(r) == Some(self),
    {
        match self {
            CirculateNotifyPlace::Top => 0,
            CirculateNotifyPlace::Bottom => 1,
        }
    }
}

/// What happened to a property.
#[derive(Debug, Clone, Copy, PartialEq, Eq, Structural, PartialOrd, Ord, Hash)]
pub enum PropertyNotifyState {
    NewValue,
    Deleted,
}

impl PropertyNotifyState {
    /// The variant encoded by `value`, if any.
    pub open spec fn spec_from_u8(value: u8) -> Option<PropertyNotifyState> {
        if value == 0 {
            Some(PropertyNotifyState::NewValue)
        } else if value == 1 {
            Some(PropertyNotifyState::Deleted)
        } else {
            None
        }
    }

    /// The variant encoded by `value`, if any.
    pub fn from_u8(value: u8) -> (r: Option<PropertyNotifyState>)
        ensures
            r == Self::spec_from_u8(value),
    {
        match value {
            0 => Some(PropertyNotifyState::NewValue),
            1 => Some(PropertyNotifyState::Deleted),
            _ => None,
        }
    }

    /// The wire value of the variant.
    pub open spec fn spec_to_u8(self) -> u8 {
        match self {
            PropertyNotifyState::NewValue => 0,
            PropertyNotifyState::Deleted => 1,
        }
    }

    /// The wire value of the variant.
    pub fn to_u8(self) -> (r: u8)
        ensures
            r == self.spec_to_u8(),
            Self::spec_from_u8(r) == Some(self),
    {
        match self {
            PropertyNotifyState::NewValue => 0,
            PropertyNotifyState::Deleted => 1,
        }
    }
}

/// Whether a colormap is installed.
#[derive(Debug, Clone, Copy, PartialEq, Eq, Structural, PartialOrd, Ord, Hash)]
pub enum ColormapNotifyState {
    Uninstalled,
    Installed,
}

impl ColormapNotifyState {
    /// The variant encoded by `value`, if any.
    pub open spec fn spec_from_u8(value: u8) -> Option<ColormapNotifyState> {
        if value == 0 {
            Some(ColormapNotifyState::Uninstalled)
        } else if value == 1 {
            Some(ColormapNotifyState::Installed)
        } else {
            None
        }
    }

    /// The variant encoded by `value`, if any.
    pub fn from_u8(value: u8) -> (r: Option<ColormapNotifyState>)
        ensures
            r == Self::spec_from_u8(value),
    {
        match value {
            0 => Some(ColormapNotifyState::Uninstalled),
            1 => Some(ColormapNotifyState::Installed),
            _ => None,
        }
    }

    /// The wire value of the variant.
    pub open spec fn spec_to_u8(self) -> u8 {
        match self {
            ColormapNotifyState::Uninstalled => 0,
            ColormapNotifyState::Installed => 1,
        }
    }

    /// The wire value of the variant.
    pub fn to_u8(self) -> (r: u8)
        ensures
            r == self.spec_to_u8(),
            Self::spec_from_u8(r) == Some(self),
    {
        match self {
            ColormapNotifyState::Uninstalled => 0,
            ColormapNotifyState::Installed => 1,
        }
    }
}

/// Which mapping changed.
#[derive(Debug, Clone, Copy, PartialEq, Eq, Structural, PartialOrd, Ord, Hash)]
pub enum MappingNotifyRequest {
    Modifier,
    Keyboard,
    Pointer,
}

impl MappingNotifyRequest {
    /// The variant encoded by `value`, if any.
    pub open spec fn spec_from_u8(value: u8) -> Option<MappingNotifyRequest> {
        if value == 0 {
            Some(MappingNotifyRequest::Modifier)
        } else if value == 1 {
            Some(MappingNotifyRequest::Keyboard)
        } else if value == 2 {
            Some(MappingNotifyRequest::Pointer)
        } else {
            None
        }
    }

    /// The variant encoded by `value`, if any.
    pub fn from_u8(value: u8) -> (r: Option<MappingNotifyRequest>)
        ensures
            r == Self::spec_from_u8(value),
    {
        match value {
            0 => Some(MappingNotifyRequest::Modifier),
            1 => Some(MappingNotifyRequest::Keyboard),
            2 => Some(MappingNotifyRequest::Pointer),
            _ => None,
        }
    }

    /// The wire value of the variant.
    pub open spec fn spec_to_u8(self) -> u8 {
        match self {
            MappingNotifyRequest::Modifier => 0,
            MappingNotifyRequest::Keyboard => 1,
            MappingNotifyRequest::Pointer => 2,
        }
    }

    /// The wire value of the variant.
    pub fn to_u8(self) -> (r: u8)
        ensures
            r == self.spec_to_u8(),
            Self::spec_from_u8(r) == Some(self),
    {
        match self {
            MappingNotifyRequest::Modifier => 0,
            MappingNotifyRequest::Keyboard => 1,
            MappingNotifyRequest::Pointer => 2,
        }
    }
}

/// A key or button was pressed or released.
#[derive(Debug, Clone, PartialEq, Eq)]
pub struct KeyPressRelease {
    pub detail: u8,
    pub time: u32,
    pub root: u32,
    pub event: u32,
    pub child: OrNone<WindowId>,
    pub root_x: i16,
    pub root_y: i16,
    pub event_x: i16,
    pub event_y: i16,
    pub state: u16,
    pub same_screen: bool,
}

impl KeyPressRelease {
    /// Whether `raw` holds a well-formed event of this kind.
    pub open spec fn spec_valid(raw: Seq<u8>) -> bool {
        &&& raw[30] <= 1
    }

    /// Whether `self` holds the fields encoded in `raw`.
    pub open spec fn decodes(self, raw: Seq<u8>) -> bool {
        &&& self.detail == raw[1]
        &&& self.time == spec_le_u32(raw, 4)
        &&& self.root == spec_le_u32(raw, 8)
        &&& self.event == spec_le_u32(raw, 12)
        &&& self.child.spec_raw() == spec_le_u32(raw, 16)
        &&& self.root_x == spec_le_i16(raw, 20)
        &&& self.root_y == spec_le_i16(raw, 22)
        &&& self.event_x == spec_le_i16(raw, 24)
        &&& self.event_y == spec_le_i16(raw, 26)
        &&& self.state == spec_le_u16(raw, 28)
        &&& self.same_screen == (raw[30] == 1)
    }

    /// Decodes the event from its 32 bytes; `None` where the bytes are not well-formed.
    pub fn from_le_bytes(raw: &[u8; 32]) -> (r: Option<Self>)
        ensures
            r is Some <==> Self::spec_valid(raw@),
            r matches Some(e) ==> e.decodes(raw@),
    {
        let s = raw.as_slice();
        proof {
            lemma_raw_is_view();
        }
        if raw[30] > 1 {
            return None;
        }
        let detail = raw[1];
        let time = le_u32_at(s, 4);
        let root = le_u32_at(s, 8);
        let event = le_u32_at(s, 12);
        let child = OrNone::new(WindowId::unchecked_from(le_u32_at(s, 16)));
        let root_x = le_i16_at(s, 20);
        let root_y = le_i16_at(s, 22);
        let event_x = le_i16_at(s, 24);
        let event_y = le_i16_at(s, 26);
        let state = le_u16_at(s, 28);
        let same_screen = raw[30] == 1;
        Some(KeyPressRelease { detail, time, root, event, child, root_x, root_y, event_x, event_y, state, same_screen })
    }
}

/// The pointer moved.
#[derive(Debug, Clone, PartialEq, Eq)]
pub struct MotionNotify {
    pub detail: MotionNotifyDetail,
    pub sequence_number: u16,
    pub time: u32,
    pub root: WindowId,
    pub event: WindowId,
    pub child: OrNone<WindowId>,
    pub root_x: i16,
    pub root_y: i16,
    pub event_x: i16,
    pub event_y: i16,
    pub state: u16,
    pub same_screen: bool,
}

impl MotionNotify {
    /// Whether `raw` holds a well-formed event of this kind.
    pub open spec fn spec_valid(raw: Seq<u8>) -> bool {
        &&& MotionNotifyDetail::spec_from_u8(raw[1]) is Some
        &&& raw[30] <= 1
    }

    /// Whether `self` holds the fields encoded in `raw`.
    pub open spec fn decodes(self, raw: Seq<u8>) -> bool {
        &&& MotionNotifyDetail::spec_from_u8(raw[1]) == Some(self.detail)
        &&& self.sequence_number == spec_le_u16(raw, 2)
        &&& self.time == spec_le_u32(raw, 4)
        &&& self.root@ == spec_le_u32(raw, 8)
        &&& self.event@ == spec_le_u32(raw, 12)
        &&& self.child.spec_raw() == spec_le_u32(raw, 16)
        &&& self.root_x == spec_le_i16(raw, 20)
        &&& self.root_y == spec_le_i16(raw, 22)
        &&& self.event_x == spec_le_i16(raw, 24)
        &&& self.event_y == spec_le_i16(raw, 26)
        &&& self.state == spec_le_u16(raw, 28)
        &&& self.same_screen == (raw[30] == 1)
    }

    /// Decodes the event from its 32 bytes; `None` where the bytes are not well-formed.
    pub fn from_le_bytes(raw: &[u8; 32]) -> (r: Option<Self>)
        ensures
            r is Some <==> Self::spec_valid(raw@),
            r matches Some(e) ==> e.decodes(raw@),
    {
        let s = raw.as_slice();
        proof {
            lemma_raw_is_view();
        }
        if raw[30] > 1 {
            return None;
        }
        let detail = match MotionNotifyDetail::from_u8(raw[1]) {
            Some(v) => v,
            None => return None,
        };
        let sequence_number = le_u16_at(s, 2);
        let time = le_u32_at(s, 4);
        let root = WindowId::unchecked_from(le_u32_at(s, 8));
        let event = WindowId::unchecked_from(le_u32_at(s, 12));
        let child = OrNone::new(WindowId::unchecked_from(le_u32_at(s, 16)));
        let root_x = le_i16_at(s, 20);
        let root_y = le_i16_at(s, 22);
        let event_x = le_i16_at(s, 24);
        let event_y = le_i16_at(s, 26);
        let state = le_u16_at(s, 28);
        let same_screen = raw[30] == 1;
        Some(MotionNotify { detail, sequence_number, time, root, event, child, root_x, root_y, event_x, event_y, state, same_screen })
    }
}

/// The pointer entered or left a window.
#[derive(Debug, Clone, PartialEq, Eq)]
pub struct EnterLeaveNotify {
    pub detail: EnterLeaveNotifyDetail,
    pub sequence_number: u16,
    pub time: u32,
    pub root: WindowId,
    pub event: WindowId,
    pub child: OrNone<WindowId>,
    pub root_x: i16,
    pub root_y: i16,
    pub event_x: i16,
    pub event_y: i16,
    pub state: u16,
    pub mode: EnterLeaveNotifyMode,
    pub same_screen_focus: u8,
}

impl EnterLeaveNotify {
    /// Whether `raw` holds a well-formed event of this kind.
    pub open spec fn spec_valid(raw: Seq<u8>) -> bool {
        &&& EnterLeaveNotifyDetail::spec_from_u8(raw[1]) is Some
        &&& EnterLeaveNotifyMode::spec_from_u8(raw[30]) is Some
    }

    /// Whether `self` holds the fields encoded in `raw`.
    pub open spec fn decodes(self, raw: Seq<u8>) -> bool {
        &&& EnterLeaveNotifyDetail::spec_from_u8(raw[1]) == Some(self.detail)
        &&& self.sequence_number == spec_le_u16(raw, 2)
        &&& self.time == spec_le_u32(raw, 4)
        &&& self.root@ == spec_le_u32(raw, 8)
        &&& self.event@ == spec_le_u32(raw, 12)
        &&& self.child.spec_raw() == spec_le_u32(raw, 16)
        &&& self.root_x == spec_le_i16(raw, 20)
        &&& self.root_y == spec_le_i16(raw, 22)
        &&& self.event_x == spec_le_i16(raw, 24)
        &&& self.event_y == spec_le_i16(raw, 26)
        &&& self.state == spec_le_u16(raw, 28)
        &&& EnterLeaveNotifyMode::spec_from_u8(raw[30]) == Some(self.mode)
        &&& self.same_screen_focus == raw[31]
    }

    /// Decodes the event from its 32 bytes; `None` where the bytes are not well-formed.
    pub fn from_le_bytes(raw: &[u8; 32]) -> (r: Option<Self>)
        ensures
            r is Some <==> Self::spec_valid(raw@),
            r matches Some(e) ==> e.decodes(raw@),
    {
        let s = raw.as_slice();
        proof {
            lemma_raw_is_view();
        }
        let detail = match EnterLeaveNotifyDetail::from_u8(raw[1]) {
            Some(v) => v,
            None => return None,
        };
        let sequence_number = le_u16_at(s, 2);
        let time = le_u32_at(s, 4);
        let root = WindowId::unchecked_from(le_u32_at(s, 8));
        let event = WindowId::unchecked_from(le_u32_at(s, 12));
        let child = OrNone::new(WindowId::unchecked_from(le_u32_at(s, 16)));
        let root_x = le_i16_at(s, 20);
        let root_y = le_i16_at(s, 22);
        let event_x = le_i16_at(s, 24);
        let event_y = le_i16_at(s, 26);
        let state = le_u16_at(s, 28);
        let mode = match EnterLeaveNotifyMode::from_u8(raw[30]) {
            Some(v) => v,
            None => return None,
        };
        let same_screen_focus = raw[31];
        Some(EnterLeaveNotify { detail, sequence_number, time, root, event, child, root_x, root_y, event_x, event_y, state, mode, same_screen_focus })
    }
}

/// A window gained or lost the input focus.
#[derive(Debug, Clone, PartialEq, Eq)]
pub struct FocusInOut {
    pub detail: FocusInOutDetail,
    pub sequence_number: u16,
    pub event: WindowId,
    pub mode: FocusInOutMode,
}

impl FocusInOut {
    /// Whether `raw` holds a well-formed event of this kind.
    pub open spec fn spec_valid(raw: Seq<u8>) -> bool {
        &&& FocusInOutDetail::spec_from_u8(raw[1]) is Some
        &&& FocusInOutMode::spec_from_u8(raw[8]) is Some
    }

    /// Whether `self` holds the fields encoded in `raw`.
    pub open spec fn decodes(self, raw: Seq<u8>) -> bool {
        &&& FocusInOutDetail::spec_from_u8(raw[1]) == Some(self.detail)
        &&& self.sequence_number == spec_le_u16(raw, 2)
        &&& self.event@ == spec_le_u32(raw, 4)
        &&& FocusInOutMode::spec_from_u8(raw[8]) == Some(self.mode)
    }

    /// Decodes the event from its 32 bytes; `None` where the bytes are not well-formed.
    pub fn from_le_bytes(raw: &[u8; 32]) -> (r: Option<Self>)
        ensures
            r is Some <==> Self::spec_valid(raw@),
            r matches Some(e) ==> e.decodes(raw@),
    {
        let s = raw.as_slice();
        proof {
            lemma_raw_is_view();
        }
        let detail = match FocusInOutDetail::from_u8(raw[1]) {
            Some(v) => v,
            None => return None,
        };
        let sequence_number = le_u16_at(s, 2);
        let event = WindowId::unchecked_from(le_u32_at(s, 4));
        let mode = match FocusInOutMode::from_u8(raw[8]) {
            Some(v) => v,
            None => return None,
        };
        Some(FocusInOut { detail, sequence_number, event, mode })
    }
}

/// The state of the keyboard after an enter or focus event.
#[derive(Debug, Clone, PartialEq, Eq)]
pub struct KeymapNotify {
    pub keys: [u8; 31],
}

impl KeymapNotify {
    /// Whether `raw` holds a well-formed event of this kind.
    pub open spec fn spec_valid(raw: Seq<u8>) -> bool {
        true
    }

    /// Whether `self` holds the fields encoded in `raw`.
    pub open spec fn decodes(self, raw: Seq<u8>) -> bool {
        &&& self.keys@ == raw.subrange(1, 32)
    }

    /// Decodes the event from its 32 bytes; `None` where the bytes are not well-formed.
    pub fn from_le_bytes(raw: &[u8; 32]) -> (r: Option<Self>)
        ensures
            r is Some <==> Self::spec_valid(raw@),
            r matches Some(e) ==> e.decodes(raw@),
    {
        let s = raw.as_slice();
        proof {
            lemma_raw_is_view();
        }
        let mut keys = [0u8; 31];
        let mut i: usize = 0;
        while i < 31
            invariant
                i <= 31,
                s@ == raw@,
                forall|j: int| 0 <= j < i ==> keys@[j] == raw@[1 + j],
            decreases 31 - i,
        {
            keys[i] = s[1 + i];
            i = i + 1;
        }
        assert(keys@ =~= raw@.subrange(1, 32));
        Some(KeymapNotify { keys })
    }
}

/// A region of a window must be redrawn.
#[derive(Debug, Clone, PartialEq, Eq)]
pub struct Expose {
    pub sequence_number: u16,
    pub window: WindowId,
    pub x: u16,
    pub y: u16,
    pub width: u16,
    pub height: u16,
    pub count: u16,
}

impl Expose {
    /// Whether `raw` holds a well-formed event of this kind.
    pub open spec fn spec_valid(raw: Seq<u8>) -> bool {
        true
    }

    /// Whether `self` holds the fields encoded in `raw`.
    pub open spec fn decodes(self, raw: Seq<u8>) -> bool {
        &&& self.sequence_number == spec_le_u16(raw, 2)
        &&& self.window@ == spec_le_u32(raw, 4)
        &&& self.x == spec_le_u16(raw, 8)
        &&& self.y == spec_le_u16(raw, 10)
        &&& self.width == spec_le_u16(raw, 12)
        &&& self.height == spec_le_u16(raw, 14)
        &&& self.count == spec_le_u16(raw, 16)
    }

    /// Decodes the event from its 32 bytes; `None` where the bytes are not well-formed.
    pub fn from_le_bytes(raw: &[u8; 32]) -> (r: Option<Self>)
        ensures
            r is Some <==> Self::spec_valid(raw@),
            r matches Some(e) ==> e.decodes(raw@),
    {
        let s = raw.as_slice();
        proof {
            lemma_raw_is_view();
        }
        let sequence_number = le_u16_at(s, 2);
        let window = WindowId::unchecked_from(le_u32_at(s, 4));
        let x = le_u16_at(s, 8);
        let y = le_u16_at(s, 10);
        let width = le_u16_at(s, 12);
        let height = le_u16_at(s, 14);
        let count = le_u16_at(s, 16);
        Some(Expose { sequence_number, window, x, y, width, height, count })
    }
}

/// A region of a drawable was not available as the source of a copy.
#[derive(Debug, Clone, PartialEq, Eq)]
pub struct GraphicsExposure {
    pub sequence_number: u16,
    pub drawable: ResourceId,
    pub x: u16,
    pub y: u16,
    pub width: u16,
    pub height: u16,
    pub minor_opcode: u16,
    pub count: u16,
    pub major_opcode: u8,
}

impl GraphicsExposure {
    /// Whether `raw` holds a well-formed event of this kind.
    pub open spec fn spec_valid(raw: Seq<u8>) -> bool {
        true
    }

    /// Whether `self` holds the fields encoded in `raw`.
    pub open spec fn decodes(self, raw: Seq<u8>) -> bool {
        &&& self.sequence_number == spec_le_u16(raw, 2)
        &&& self.drawable@ == spec_le_u32(raw, 4)
        &&& self.x == spec_le_u16(raw, 8)
        &&& self.y == spec_le_u16(raw, 10)
        &&& self.width == spec_le_u16(raw, 12)
        &&& self.height == spec_le_u16(raw, 14)
        &&& self.minor_opcode == spec_le_u16(raw, 16)
        &&& self.count == spec_le_u16(raw, 18)
        &&& self.major_opcode == raw[20]
    }

    /// Decodes the event from its 32 bytes; `None` where the bytes are not well-formed.
    pub fn from_le_bytes(raw: &[u8; 32]) -> (r: Option<Self>)
        ensures
            r is Some <==> Self::spec_valid(raw@),
            r matches Some(e) ==> e.decodes(raw@),
    {
        let s = raw.as_slice();
        proof {
            lemma_raw_is_view();
        }
        let sequence_number = le_u16_at(s, 2);
        let drawable = ResourceId::unchecked_from(le_u32_at(s, 4));
        let x = le_u16_at(s, 8);
        let y = le_u16_at(s, 10);
        let width = le_u16_at(s, 12);
        let height = le_u16_at(s, 14);
        let minor_opcode = le_u16_at(s, 16);
        let count = le_u16_at(s, 18);
        let major_opcode = raw[20];
        Some(GraphicsExposure { sequence_number, drawable, x, y, width, height, minor_opcode, count, major_opcode })
    }
}

/// A copy needed no redrawing.
#[derive(Debug, Clone, PartialEq, Eq)]
pub struct NoExposure {
    pub sequence_number: u16,
    pub drawable: ResourceId,
    pub minor_opcode: u16,
    pub major_opcode: u8,
}

impl NoExposure {
    /// Whether `raw` holds a well-formed event of this kind.
    pub open spec fn spec_valid(raw: Seq<u8>) -> bool {
        true
    }

    /// Whether `self` holds the fields encoded in `raw`.
    pub open spec fn decodes(self, raw: Seq<u8>) -> bool {
        &&& self.sequence_number == spec_le_u16(raw, 2)
        &&& self.drawable@ == spec_le_u32(raw, 4)
        &&& self.minor_opcode == spec_le_u16(raw, 8)
        &&& self.major_opcode == raw[10]
    }

    /// Decodes the event from its 32 bytes; `None` where the bytes are not well-formed.
    pub fn from_le_bytes(raw: &[u8; 32]) -> (r: Option<Self>)
        ensures
            r is Some <==> Self::spec_valid(raw@),
            r matches Some(e) ==> e.decodes(raw@),
    {
        let s = raw.as_slice();
        proof {
            lemma_raw_is_view();
        }
        let sequence_number = le_u16_at(s, 2);
        let drawable = ResourceId::unchecked_from(le_u32_at(s, 4));
        let minor_opcode = le_u16_at(s, 8);
        let major_opcode = raw[10];
        Some(NoExposure { sequence_number, drawable, minor_opcode, major_opcode })
    }
}

/// The visibility of a window changed.
#[derive(Debug, Clone, PartialEq, Eq)]
pub struct VisibilityNotify {
    pub sequence_number: u16,
    pub window: WindowId,
    pub state: VisibilityNotifyState,
}

impl VisibilityNotify {
    /// Whether `raw` holds a well-formed event of this kind.
    pub open spec fn spec_valid(raw: Seq<u8>) -> bool {
        &&& VisibilityNotifyState::spec_from_u8(raw[8]) is Some
    }

    /// Whether `self` holds the fields encoded in `raw`.
    pub open spec fn decodes(self, raw: Seq<u8>) -> bool {
        &&& self.sequence_number == spec_le_u16(raw, 2)
        &&& self.window@ == spec_le_u32(raw, 4)
        &&& VisibilityNotifyState::spec_from_u8(raw[8]) == Some(self.state)
    }

    /// Decodes the event from its 32 bytes; `None` where the bytes are not well-formed.
    pub fn from_le_bytes(raw: &[u8; 32]) -> (r: Option<Self>)
        ensures
            r is Some <==> Self::spec_valid(raw@),
            r matches Some(e) ==> e.decodes(raw@),
    {
        let s = raw.as_slice();
        proof {
            lemma_raw_is_view();
        }
        let sequence_number = le_u16_at(s, 2);
        let window = WindowId::unchecked_from(le_u32_at(s, 4));
        let state = match VisibilityNotifyState::from_u8(raw[8]) {
            Some(v) => v,
            None => return None,
        };
        Some(VisibilityNotify { sequence_number, window, state })
    }
}

/// A window was created.
#[derive(Debug, Clone, PartialEq, Eq)]
pub struct CreateNotify {
    pub sequence_number: u16,
    pub parent: WindowId,
    pub window: WindowId,
    pub x: i16,
    pub y: i16,
    pub width: u16,
    pub height: u16,
    pub border_width: u16,
    pub override_redirect: bool,
}

impl CreateNotify {
    /// Whether `raw` holds a well-formed event of this kind.
    pub open spec fn spec_valid(raw: Seq<u8>) -> bool {
        &&& raw[22] <= 1
    }

    /// Whether `self` holds the fields encoded in `raw`.
    pub open spec fn decodes(self, raw: Seq<u8>) -> bool {
        &&& self.sequence_number == spec_le_u16(raw, 2)
        &&& self.parent@ == spec_le_u32(raw, 4)
        &&& self.window@ == spec_le_u32(raw, 8)
        &&& self.x == spec_le_i16(raw, 12)
        &&& self.y == spec_le_i16(raw, 14)
        &&& self.width == spec_le_u16(raw, 16)
        &&& self.height == spec_le_u16(raw, 18)
        &&& self.border_width == spec_le_u16(raw, 20)
        &&& self.override_redirect == (raw[22] == 1)
    }

    /// Decodes the event from its 32 bytes; `None` where the bytes are not well-formed.
    pub fn from_le_bytes(raw: &[u8; 32]) -> (r: Option<Self>)
        ensures
            r is Some <==> Self::spec_valid(raw@),
            r matches Some(e) ==> e.decodes(raw@),
    {
        let s = raw.as_slice();
        proof {
            lemma_raw_is_view();
        }
        if raw[22] > 1 {
            return None;
        }
        let sequence_number = le_u16_at(s, 2);
        let parent = WindowId::unchecked_from(le_u32_at(s, 4));
        let window = WindowId::unchecked_from(le_u32_at(s, 8));
        let x = le_i16_at(s, 12);
        let y = le_i16_at(s, 14);
        let width = le_u16_at(s, 16);
        let height = le_u16_at(s, 18);
        let border_width = le_u16_at(s, 20);
        let override_redirect = raw[22] == 1;
        Some(CreateNotify { sequence_number, parent, window, x, y, width, height, border_width, override_redirect })
    }
}

/// A window was destroyed.
#[derive(Debug, Clone, PartialEq, Eq)]
pub struct DestroyNotify {
    pub sequence_number: u16,
    pub event: WindowId,
    pub window: WindowId,
}

impl DestroyNotify {
    /// Whether `raw` holds a well-formed event of this kind.
    pub open spec fn spec_valid(raw: Seq<u8>) -> bool {
        true
    }

    /// Whether `self` holds the fields encoded in `raw`.
    pub open spec fn decodes(self, raw: Seq<u8>) -> bool {
        &&& self.sequence_number == spec_le_u16(raw, 2)
        &&& self.event@ == spec_le_u32(raw, 4)
        &&& self.window@ == spec_le_u32(raw, 8)
    }

    /// Decodes the event from its 32 bytes; `None` where the bytes are not well-formed.
    pub fn from_le_bytes(raw: &[u8; 32]) -> (r: Option<Self>)
        ensures
            r is Some <==> Self::spec_valid(raw@),
            r matches Some(e) ==> e.decodes(raw@),
    {
        let s = raw.as_slice();
        proof {
            lemma_raw_is_view();
        }
        let sequence_number = le_u16_at(s, 2);
        let event = WindowId::unchecked_from(le_u32_at(s, 4));
        let window = WindowId::unchecked_from(le_u32_at(s, 8));
        Some(DestroyNotify { sequence_number, event, window })
    }
}

/// A window was unmapped.
#[derive(Debug, Clone, PartialEq, Eq)]
pub struct UnmapNotify {
    pub sequence_number: u16,
    pub event: WindowId,
    pub window: WindowId,
    pub from_configure: bool,
}

impl UnmapNotify {
    /// Whether `raw` holds a well-formed event of this kind.
    pub open spec fn spec_valid(raw: Seq<u8>) -> bool {
        &&& raw[12] <= 1
    }

    /// Whether `self` holds the fields encoded in `raw`.
    pub open spec fn decodes(self, raw: Seq<u8>) -> bool {
        &&& self.sequence_number == spec_le_u16(raw, 2)
        &&& self.event@ == spec_le_u32(raw, 4)
        &&& self.window@ == spec_le_u32(raw, 8)
        &&& self.from_configure == (raw[12] == 1)
    }

    /// Decodes the event from its 32 bytes; `None` where the bytes are not well-formed.
    pub fn from_le_bytes(raw: &[u8; 32]) -> (r: Option<Self>)
        ensures
            r is Some <==> Self::spec_valid(raw@),
            r matches Some(e) ==> e.decodes(raw@),
    {
        let s = raw.as_slice();
        proof {
            lemma_raw_is_view();
        }
        if raw[12] > 1 {
            return None;
        }
        let sequence_number = le_u16_at(s, 2);
        let event = WindowId::unchecked_from(le_u32_at(s, 4));
        let window = WindowId::unchecked_from(le_u32_at(s, 8));
        let from_configure = raw[12] == 1;
        Some(UnmapNotify { sequence_number, event, window, from_configure })
    }
}

/// A window was mapped.
#[derive(Debug, Clone, PartialEq, Eq)]
pub struct MapNotify {
    pub event: WindowId,
    pub window: WindowId,
    pub override_redirect: bool,
}

impl MapNotify {
    /// Whether `raw` holds a well-formed event of this kind.
    pub open spec fn spec_valid(raw: Seq<u8>) -> bool {
        &&& raw[12] <= 1
    }

    /// Whether `self` holds the fields encoded in `raw`.
    pub open spec fn decodes(self, raw: Seq<u8>) -> bool {
        &&& self.event@ == spec_le_u32(raw, 4)
        &&& self.window@ == spec_le_u32(raw, 8)
        &&& self.override_redirect == (raw[12] == 1)
    }

    /// Decodes the event from its 32 bytes; `None` where the bytes are not well-formed.
    pub fn from_le_bytes(raw: &[u8; 32]) -> (r: Option<Self>)
        ensures
            r is Some <==> Self::spec_valid(raw@),
            r matches Some(e) ==> e.decodes(raw@),
    {
        let s = raw.as_slice();
        proof {
            lemma_raw_is_view();
        }
        if raw[12] > 1 {
            return None;
        }
        let event = WindowId::unchecked_from(le_u32_at(s, 4));
        let window = WindowId::unchecked_from(le_u32_at(s, 8));
        let override_redirect = raw[12] == 1;
        Some(MapNotify { event, window, override_redirect })
    }
}

/// A client asked to map a window.
#[derive(Debug, Clone, PartialEq, Eq)]
pub struct MapRequest {
    pub sequence_number: u16,
    pub parent: WindowId,
    pub window: WindowId,
}

impl MapRequest {
    /// Whether `raw` holds a well-formed event of this kind.
    pub open spec fn spec_valid(raw: Seq<u8>) -> bool {
        true
    }

    /// Whether `self` holds the fields encoded in `raw`.
    pub open spec fn decodes(self, raw: Seq<u8>) -> bool {
        &&& self.sequence_number == spec_le_u16(raw, 2)
        &&& self.parent@ == spec_le_u32(raw, 4)
        &&& self.window@ == spec_le_u32(raw, 8)
    }

    /// Decodes the event from its 32 bytes; `None` where the bytes are not well-formed.
    pub fn from_le_bytes(raw: &[u8; 32]) -> (r: Option<Self>)
        ensures
            r is Some <==> Self::spec_valid(raw@),
            r matches Some(e) ==> e.decodes(raw@),
    {
        let s = raw.as_slice();
        proof {
            lemma_raw_is_view();
        }
        let sequence_number = le_u16_at(s, 2);
        let parent = WindowId::unchecked_from(le_u32_at(s, 4));
        let window = WindowId::unchecked_from(le_u32_at(s, 8));
        Some(MapRequest { sequence_number, parent, window })
    }
}

/// A window got a new parent.
#[derive(Debug, Clone, PartialEq, Eq)]
pub struct ReparentNotify {
    pub sequence_number: u16,
    pub event: WindowId,
    pub window: WindowId,
    pub parent: WindowId,
    pub x: i16,
    pub y: i16,
    pub override_redirect: bool,
}

impl ReparentNotify {
    /// Whether `raw` holds a well-formed event of this kind.
    pub open spec fn spec_valid(raw: Seq<u8>) -> bool {
        &&& raw[20] <= 1
    }

    /// Whether `self` holds the fields encoded in `raw`.
    pub open spec fn decodes(self, raw: Seq<u8>) -> bool {
        &&& self.sequence_number == spec_le_u16(raw, 2)
        &&& self.event@ == spec_le_u32(raw, 4)
        &&& self.window@ == spec_le_u32(raw, 8)
        &&& self.parent@ == spec_le_u32(raw, 12)
        &&& self.x == spec_le_i16(raw, 16)
        &&& self.y == spec_le_i16(raw, 18)
        &&& self.override_redirect == (raw[20] == 1)
    }

    /// Decodes the event from its 32 bytes; `None` where the bytes are not well-formed.
    pub fn from_le_bytes(raw: &[u8; 32]) -> (r: Option<Self>)
        ensures
            r is Some <==> Self::spec_valid(raw@),
            r matches Some(e) ==> e.decodes(raw@),
    {
        let s = raw.as_slice();
        proof {
            lemma_raw_is_view();
        }
        if raw[20] > 1 {
            return None;
        }
        let sequence_number = le_u16_at(s, 2);
        let event = WindowId::unchecked_from(le_u32_at(s, 4));
        let window = WindowId::unchecked_from(le_u32_at(s, 8));
        let parent = WindowId::unchecked_from(le_u32_at(s, 12));
        let x = le_i16_at(s, 16);
        let y = le_i16_at(s, 18);
        let override_redirect = raw[20] == 1;
        Some(ReparentNotify { sequence_number, event, window, parent, x, y, override_redirect })
    }
}

/// The position, size or stacking of a window changed.
#[derive(Debug, Clone, PartialEq, Eq)]
pub struct ConfigureNotify {
    _event_code: u8,
    _unused: u8,
    pub sequence_number: u16,
    pub event: WindowId,
    pub window: WindowId,
    pub above_sibling: OrNone<WindowId>,
    pub x: i16,
    pub y: i16,
    pub width: u16,
    pub height: u16,
    pub border_width: u16,
    pub override_redirect: bool,
    _pad: [u8; 5],
}

impl ConfigureNotify {
    /// The window the event was reported to.
    pub closed spec fn spec_event_window(&self) -> WindowId {
        self.event
    }

    /// The new width of the window.
    pub closed spec fn spec_width(&self) -> u16 {
        self.width
    }

    /// The new height of the window.
    pub closed spec fn spec_height(&self) -> u16 {
        self.height
    }

    /// The window the event was reported to.
    pub fn event_window(&self) -> (r: WindowId)
        ensures
            r == self.spec_event_window(),
    {
        self.event
    }

    /// The new width of the window.
    pub fn window_width(&self) -> (r: u16)
        ensures
            r == self.spec_width(),
    {
        self.width
    }

    /// The new height of the window.
    pub fn window_height(&self) -> (r: u16)
        ensures
            r == self.spec_height(),
    {
        self.height
    }

    /// Whether `raw` holds a well-formed event of this kind.
    pub open spec fn spec_valid(raw: Seq<u8>) -> bool {
        &&& raw[26] <= 1
    }

    /// Whether `self` holds the fields encoded in `raw`.
    pub closed spec fn decodes(self, raw: Seq<u8>) -> bool {
        &&& self.sequence_number == spec_le_u16(raw, 2)
        &&& self.event@ == spec_le_u32(raw, 4)
        &&& self.window@ == spec_le_u32(raw, 8)
        &&& self.above_sibling.spec_raw() == spec_le_u32(raw, 12)
        &&& self.x == spec_le_i16(raw, 16)
        &&& self.y == spec_le_i16(raw, 18)
        &&& self.width == spec_le_u16(raw, 20)
        &&& self.height == spec_le_u16(raw, 22)
        &&& self.border_width == spec_le_u16(raw, 24)
        &&& self.override_redirect == (raw[26] == 1)
    }

    /// Whether the fields that carry no meaning hold the bytes of `raw` at their place.
    pub closed spec fn decodes_hidden(self, raw: Seq<u8>) -> bool {
        &&& self._event_code == raw[0]
        &&& self._unused == raw[1]
        &&& self._pad@ == raw.subrange(27, 32)
    }

    /// Decodes the event from its 32 bytes; `None` where the bytes are not well-formed.
    pub fn from_le_bytes(raw: &[u8; 32]) -> (r: Option<Self>)
        ensures
            r is Some <==> Self::spec_valid(raw@),
            r matches Some(e) ==> e.decodes(raw@),
            r matches Some(e) ==> e.decodes_hidden(raw@),
    {
        let s = raw.as_slice();
        proof {
            lemma_raw_is_view();
        }
        if raw[26] > 1 {
            return None;
        }
        let _event_code = raw[0];
        let _unused = raw[1];
        let sequence_number = le_u16_at(s, 2);
        let event = WindowId::unchecked_from(le_u32_at(s, 4));
        let window = WindowId::unchecked_from(le_u32_at(s, 8));
        let above_sibling = OrNone::new(WindowId::unchecked_from(le_u32_at(s, 12)));
        let x = le_i16_at(s, 16);
        let y = le_i16_at(s, 18);
        let width = le_u16_at(s, 20);
        let height = le_u16_at(s, 22);
        let border_width = le_u16_at(s, 24);
        let override_redirect = raw[26] == 1;
        let mut _pad = [0u8; 5];
        let mut i: usize = 0;
        while i < 5
            invariant
                i <= 5,
                s@ == raw@,
                forall|j: int| 0 <= j < i ==> _pad@[j] == raw@[27 + j],
            decreases 5 - i,
        {
            _pad[i] = s[27 + i];
            i = i + 1;
        }
        assert(_pad@ =~= raw@.subrange(27, 32));
        Some(ConfigureNotify { _event_code, _unused, sequence_number, event, window, above_sibling, x, y, width, height, border_width, override_redirect, _pad })
    }
}

/// A client asked to reconfigure a window.
#[derive(Debug, Clone, PartialEq, Eq)]
pub struct ConfigureRequest {
    pub stack_mode: StackMode,
    pub sequence_number: u16,
    pub parent: WindowId,
    pub window: WindowId,
    pub sibling: OrNone<WindowId>,
    pub x: i16,
    pub y: i16,
    pub width: u16,
    pub height: u16,
    pub border_width: u16,
    pub value_mask: u16,
}

impl ConfigureRequest {
    /// Whether `raw` holds a well-formed event of this kind.
    pub open spec fn spec_valid(raw: Seq<u8>) -> bool {
        &&& StackMode::spec_from_u8(raw[1]) is Some
    }

    /// Whether `self` holds the fields encoded in `raw`.
    pub open spec fn decodes(self, raw: Seq<u8>) -> bool {
        &&& StackMode::spec_from_u8(raw[1]) == Some(self.stack_mode)
        &&& self.sequence_number == spec_le_u16(raw, 2)
        &&& self.parent@ == spec_le_u32(raw, 4)
        &&& self.window@ == spec_le_u32(raw, 8)
        &&& self.sibling.spec_raw() == spec_le_u32(raw, 12)
        &&& self.x == spec_le_i16(raw, 16)
        &&& self.y == spec_le_i16(raw, 18)
        &&& self.width == spec_le_u16(raw, 20)
        &&& self.height == spec_le_u16(raw, 22)
        &&& self.border_width == spec_le_u16(raw, 24)
        &&& self.value_mask == spec_le_u16(raw, 26)
    }

    /// Decodes the event from its 32 bytes; `None` where the bytes are not well-formed.
    pub fn from_le_bytes(raw: &[u8; 32]) -> (r: Option<Self>)
        ensures
            r is Some <==> Self::spec_valid(raw@),
            r matches Some(e) ==> e.decodes(raw@),
    {
        let s = raw.as_slice();
        proof {
            lemma_raw_is_view();
        }
        let stack_mode = match StackMode::from_u8(raw[1]) {
            Some(v) => v,
            None => return None,
        };
        let sequence_number = le_u16_at(s, 2);
        let parent = WindowId::unchecked_from(le_u32_at(s, 4));
        let window = WindowId::unchecked_from(le_u32_at(s, 8));
        let sibling = OrNone::new(WindowId::unchecked_from(le_u32_at(s, 12)));
        let x = le_i16_at(s, 16);
        let y = le_i16_at(s, 18);
        let width = le_u16_at(s, 20);
        let height = le_u16_at(s, 22);
        let border_width = le_u16_at(s, 24);
        let value_mask = le_u16_at(s, 26);
        Some(ConfigureRequest { stack_mode, sequence_number, parent, window, sibling, x, y, width, height, border_width, value_mask })
    }
}

/// A window moved because its parent was resized.
#[derive(Debug, Clone, PartialEq, Eq)]
pub struct GravityNotify {
    pub sequence_number: u16,
    pub event: WindowId,
    pub window: WindowId,
    pub x: i16,
    pub y: i16,
}

impl GravityNotify {
    /// Whether `raw` holds a well-formed event of this kind.
    pub open spec fn spec_valid(raw: Seq<u8>) -> bool {
        true
    }

    /// Whether `self` holds the fields encoded in `raw`.
    pub open spec fn decodes(self, raw: Seq<u8>) -> bool {
        &&& self.sequence_number == spec_le_u16(raw, 2)
        &&& self.event@ == spec_le_u32(raw, 4)
        &&& self.window@ == spec_le_u32(raw, 8)
        &&& self.x == spec_le_i16(raw, 12)
        &&& self.y == spec_le_i16(raw, 14)
    }

    /// Decodes the event from its 32 bytes; `None` where the bytes are not well-formed.
    pub fn from_le_bytes(raw: &[u8; 32]) -> (r: Option<Self>)
        ensures
            r is Some <==> Self::spec_valid(raw@),
            r matches Some(e) ==> e.decodes(raw@),
    {
        let s = raw.as_slice();
        proof {
            lemma_raw_is_view();
        }
        let sequence_number = le_u16_at(s, 2);
        let event = WindowId::unchecked_from(le_u32_at(s, 4));
        let window = WindowId::unchecked_from(le_u32_at(s, 8));
        let x = le_i16_at(s, 12);
        let y = le_i16_at(s, 14);
        Some(GravityNotify { sequence_number, event, window, x, y })
    }
}

/// A client asked to resize a window.
#[derive(Debug, Clone, PartialEq, Eq)]
pub struct ResizeRequest {
    pub sequence_number: u16,
    pub window: WindowId,
    pub width: u16,
    pub height: u16,
}

impl ResizeRequest {
    /// Whether `raw` holds a well-formed event of this kind.
    pub open spec fn spec_valid(raw: Seq<u8>) -> bool {
        true
    }

    /// Whether `self` holds the fields encoded in `raw`.
    pub open spec fn decodes(self, raw: Seq<u8>) -> bool {
        &&& self.sequence_number == spec_le_u16(raw, 2)
        &&& self.window@ == spec_le_u32(raw, 4)
        &&& self.width == spec_le_u16(raw, 8)
        &&& self.height == spec_le_u16(raw, 10)
    }

    /// Decodes the event from its 32 bytes; `None` where the bytes are not well-formed.
    pub fn from_le_bytes(raw: &[u8; 32]) -> (r: Option<Self>)
        ensures
            r is Some <==> Self::spec_valid(raw@),
            r matches Some(e) ==> e.decodes(raw@),
    {
        let s = raw.as_slice();
        proof {
            lemma_raw_is_view();
        }
        let sequence_number = le_u16_at(s, 2);
        let window = WindowId::unchecked_from(le_u32_at(s, 4));
        let width = le_u16_at(s, 8);
        let height = le_u16_at(s, 10);
        Some(ResizeRequest { sequence_number, window, width, height })
    }
}

/// A window was restacked by a circulate request.
#[derive(Debug, Clone, PartialEq, Eq)]
pub struct CirculateNotify {
    pub sequence_number: u16,
    pub event: WindowId,
    pub window: WindowId,
    pub place: CirculateNotifyPlace,
}

impl CirculateNotify {
    /// Whether `raw` holds a well-formed event of this kind.
    pub open spec fn spec_valid(raw: Seq<u8>) -> bool {
        &&& CirculateNotifyPlace::spec_from_u8(raw[16]) is Some
    }

    /// Whether `self` holds the fields encoded in `raw`.
    pub open spec fn decodes(self, raw: Seq<u8>) -> bool {
        &&& self.sequence_number == spec_le_u16(raw, 2)
        &&& self.event@ == spec_le_u32(raw, 4)
        &&& self.window@ == spec_le_u32(raw, 8)
        &&& CirculateNotifyPlace::spec_from_u8(raw[16]) == Some(self.place)
    }

    /// Decodes the event from its 32 bytes; `None` where the bytes are not well-formed.
    pub fn from_le_bytes(raw: &[u8; 32]) -> (r: Option<Self>)
        ensures
            r is Some <==> Self::spec_valid(raw@),
            r matches Some(e) ==> e.decodes(raw@),
    {
        let s = raw.as_slice();
        proof {
            lemma_raw_is_view();
        }
        let sequence_number = le_u16_at(s, 2);
        let event = WindowId::unchecked_from(le_u32_at(s, 4));
        let window = WindowId::unchecked_from(le_u32_at(s, 8));
        let place = match CirculateNotifyPlace::from_u8(raw[16]) {
            Some(v) => v,
            None => return None,
        };
        Some(CirculateNotify { sequence_number, event, window, place })
    }
}

/// A client asked to circulate a window.
#[derive(Debug, Clone, PartialEq, Eq)]
pub struct CirculateRequest {
    pub sequence_number: u16,
    pub event: WindowId,
    pub window: WindowId,
    pub place: CirculateNotifyPlace,
}

impl CirculateRequest {
    /// Whether `raw` holds a well-formed event of this kind.
    pub open spec fn spec_valid(raw: Seq<u8>) -> bool {
        &&& CirculateNotifyPlace::spec_from_u8(raw[16]) is Some
    }

    /// Whether `self` holds the fields encoded in `raw`.
    pub open spec fn decodes(self, raw: Seq<u8>) -> bool {
        &&& self.sequence_number == spec_le_u16(raw, 2)
        &&& self.event@ == spec_le_u32(raw, 4)
        &&& self.window@ == spec_le_u32(raw, 8)
        &&& CirculateNotifyPlace::spec_from_u8(raw[16]) == Some(self.place)
    }

    /// Decodes the event from its 32 bytes; `None` where the bytes are not well-formed.
    pub fn from_le_bytes(raw: &[u8; 32]) -> (r: Option<Self>)
        ensures
            r is Some <==> Self::spec_valid(raw@),
            r matches Some(e) ==> e.decodes(raw@),
    {
        let s = raw.as_slice();
        proof {
            lemma_raw_is_view();
        }
        let sequence_number = le_u16_at(s, 2);
        let event = WindowId::unchecked_from(le_u32_at(s, 4));
        let window = WindowId::unchecked_from(le_u32_at(s, 8));
        let place = match CirculateNotifyPlace::from_u8(raw[16]) {
            Some(v) => v,
            None => return None,
        };
        Some(CirculateRequest { sequence_number, event, window, place })
    }
}

/// A property of a window changed.
#[derive(Debug, Clone, PartialEq, Eq)]
pub struct PropertyNotify {
    pub sequence_number: u16,
    pub window: WindowId,
    pub atom: AtomId,
    pub time: u32,
    pub state: PropertyNotifyState,
}

impl PropertyNotify {
    /// Whether `raw` holds a well-formed event of this kind.
    pub open spec fn spec_valid(raw: Seq<u8>) -> bool {
        &&& PropertyNotifyState::spec_from_u8(raw[16]) is Some
    }

    /// Whether `self` holds the fields encoded in `raw`.
    pub open spec fn decodes(self, raw: Seq<u8>) -> bool {
        &&& self.sequence_number == spec_le_u16(raw, 2)
        &&& self.window@ == spec_le_u32(raw, 4)
        &&& self.atom@ == spec_le_u32(raw, 8)
        &&& self.time == spec_le_u32(raw, 12)
        &&& PropertyNotifyState::spec_from_u8(raw[16]) == Some(self.state)
    }

    /// Decodes the event from its 32 bytes; `None` where the bytes are not well-formed.
    pub fn from_le_bytes(raw: &[u8; 32]) -> (r: Option<Self>)
        ensures
            r is Some <==> Self::spec_valid(raw@),
            r matches Some(e) ==> e.decodes(raw@),
    {
        let s = raw.as_slice();
        proof {
            lemma_raw_is_view();
        }
        let sequence_number = le_u16_at(s, 2);
        let window = WindowId::unchecked_from(le_u32_at(s, 4));
        let atom = AtomId::unchecked_from(le_u32_at(s, 8));
        let time = le_u32_at(s, 12);
        let state = match PropertyNotifyState::from_u8(raw[16]) {
            Some(v) => v,
            None => return None,
        };
        Some(PropertyNotify { sequence_number, window, atom, time, state })
    }
}

/// A client lost the ownership of a selection.
#[derive(Debug, Clone, PartialEq, Eq)]
pub struct SelectionClear {
    pub sequence_number: u16,
    pub time: u32,
    pub owner: WindowId,
    pub selection: AtomId,
}

impl SelectionClear {
    /// Whether `raw` holds a well-formed event of this kind.
    pub open spec fn spec_valid(raw: Seq<u8>) -> bool {
        true
    }

    /// Whether `self` holds the fields encoded in `raw`.
    pub open spec fn decodes(self, raw: Seq<u8>) -> bool {
        &&& self.sequence_number == spec_le_u16(raw, 2)
        &&& self.time == spec_le_u32(raw, 4)
        &&& self.owner@ == spec_le_u32(raw, 8)
        &&& self.selection@ == spec_le_u32(raw, 12)
    }

    /// Decodes the event from its 32 bytes; `None` where the bytes are not well-formed.
    pub fn from_le_bytes(raw: &[u8; 32]) -> (r: Option<Self>)
        ensures
            r is Some <==> Self::spec_valid(raw@),
            r matches Some(e) ==> e.decodes(raw@),
    {
        let s = raw.as_slice();
        proof {
            lemma_raw_is_view();
        }
        let sequence_number = le_u16_at(s, 2);
        let time = le_u32_at(s, 4);
        let owner = WindowId::unchecked_from(le_u32_at(s, 8));
        let selection = AtomId::unchecked_from(le_u32_at(s, 12));
        Some(SelectionClear { sequence_number, time, owner, selection })
    }
}

/// A client asked for the conversion of a selection.
#[derive(Debug, Clone, PartialEq, Eq)]
pub struct SelectionRequest {
    pub sequence_number: u16,
    pub time: u32,
    pub owner: WindowId,
    pub requestor: WindowId,
    pub selection: AtomId,
    pub target: AtomId,
    pub property: OrNone<AtomId>,
}

impl SelectionRequest {
    /// Whether `raw` holds a well-formed event of this kind.
    pub open spec fn spec_valid(raw: Seq<u8>) -> bool {
        true
    }

    /// Whether `self` holds the fields encoded in `raw`.
    pub open spec fn decodes(self, raw: Seq<u8>) -> bool {
        &&& self.sequence_number == spec_le_u16(raw, 2)
        &&& self.time == spec_le_u32(raw, 4)
        &&& self.owner@ == spec_le_u32(raw, 8)
        &&& self.requestor@ == spec_le_u32(raw, 12)
        &&& self.selection@ == spec_le_u32(raw, 16)
        &&& self.target@ == spec_le_u32(raw, 20)
        &&& self.property.spec_raw() == spec_le_u32(raw, 24)
    }

    /// Decodes the event from its 32 bytes; `None` where the bytes are not well-formed.
    pub fn from_le_bytes(raw: &[u8; 32]) -> (r: Option<Self>)
        ensures
            r is Some <==> Self::spec_valid(raw@),
            r matches Some(e) ==> e.decodes(raw@),
    {
        let s = raw.as_slice();
        proof {
            lemma_raw_is_view();
        }
        let sequence_number = le_u16_at(s, 2);
        let time = le_u32_at(s, 4);
        let owner = WindowId::unchecked_from(le_u32_at(s, 8));
        let requestor = WindowId::unchecked_from(le_u32_at(s, 12));
        let selection = AtomId::unchecked_from(le_u32_at(s, 16));
        let target = AtomId::unchecked_from(le_u32_at(s, 20));
        let property = OrNone::new(AtomId::unchecked_from(le_u32_at(s, 24)));
        Some(SelectionRequest { sequence_number, time, owner, requestor, selection, target, property })
    }
}

/// The answer to a selection conversion.
#[derive(Debug, Clone, PartialEq, Eq)]
pub struct SelectionNotify {
    pub sequence_number: u16,
    pub time: u32,
    pub requestor: WindowId,
    pub selection: AtomId,
    pub target: AtomId,
    pub property: OrNone<AtomId>,
}

impl SelectionNotify {
    /// Whether `raw` holds a well-formed event of this kind.
    pub open spec fn spec_valid(raw: Seq<u8>) -> bool {
        true
    }

    /// Whether `self` holds the fields encoded in `raw`.
    pub open spec fn decodes(self, raw: Seq<u8>) -> bool {
        &&& self.sequence_number == spec_le_u16(raw, 2)
        &&& self.time == spec_le_u32(raw, 4)
        &&& self.requestor@ == spec_le_u32(raw, 8)
        &&& self.selection@ == spec_le_u32(raw, 12)
        &&& self.target@ == spec_le_u32(raw, 16)
        &&& self.property.spec_raw() == spec_le_u32(raw, 20)
    }

    /// Decodes the event from its 32 bytes; `None` where the bytes are not well-formed.
    pub fn from_le_bytes(raw: &[u8; 32]) -> (r: Option<Self>)
        ensures
            r is Some <==> Self::spec_valid(raw@),
            r matches Some(e) ==> e.decodes(raw@),
    {
        let s = raw.as_slice();
        proof {
            lemma_raw_is_view();
        }
        let sequence_number = le_u16_at(s, 2);
        let time = le_u32_at(s, 4);
        let requestor = WindowId::unchecked_from(le_u32_at(s, 8));
        let selection = AtomId::unchecked_from(le_u32_at(s, 12));
        let target = AtomId::unchecked_from(le_u32_at(s, 16));
        let property = OrNone::new(AtomId::unchecked_from(le_u32_at(s, 20)));
        Some(SelectionNotify { sequence_number, time, requestor, selection, target, property })
    }
}

/// A colormap was changed, installed or uninstalled.
#[derive(Debug, Clone, PartialEq, Eq)]
pub struct ColormapNotify {
    pub sequence_number: u16,
    pub window: WindowId,
    pub colormap: OrNone<ColormapId>,
    pub new: bool,
    pub state: ColormapNotifyState,
}

impl ColormapNotify {
    /// Whether `raw` holds a well-formed event of this kind.
    pub open spec fn spec_valid(raw: Seq<u8>) -> bool {
        &&& raw[12] <= 1
        &&& ColormapNotifyState::spec_from_u8(raw[13]) is Some
    }

    /// Whether `self` holds the fields encoded in `raw`.
    pub open spec fn decodes(self, raw: Seq<u8>) -> bool {
        &&& self.sequence_number == spec_le_u16(raw, 2)
        &&& self.window@ == spec_le_u32(raw, 4)
        &&& self.colormap.spec_raw() == spec_le_u32(raw, 8)
        &&& self.new == (raw[12] == 1)
        &&& ColormapNotifyState::spec_from_u8(raw[13]) == Some(self.state)
    }

    /// Decodes the event from its 32 bytes; `None` where the bytes are not well-formed.
    pub fn from_le_bytes(raw: &[u8; 32]) -> (r: Option<Self>)
        ensures
            r is Some <==> Self::spec_valid(raw@),
            r matches Some(e) ==> e.decodes(raw@),
    {
        let s = raw.as_slice();
        proof {
            lemma_raw_is_view();
        }
        if raw[12] > 1 {
            return None;
        }
        let sequence_number = le_u16_at(s, 2);
        let window = WindowId::unchecked_from(le_u32_at(s, 4));
        let colormap = OrNone::new(ColormapId::unchecked_from(le_u32_at(s, 8)));
        let new = raw[12] == 1;
        let state = match ColormapNotifyState::from_u8(raw[13]) {
            Some(v) => v,
            None => return None,
        };
        Some(ColormapNotify { sequence_number, window, colormap, new, state })
    }
}

/// A message sent by another client.
#[derive(Debug, Clone, PartialEq, Eq)]
pub struct ClientMessage {
    pub format: u8,
    pub sequence_number: u16,
    pub window: WindowId,
    pub type_message: AtomId,
    pub data: [u8; 20],
}

impl ClientMessage {
    /// Whether `raw` holds a well-formed event of this kind.
    pub open spec fn spec_valid(raw: Seq<u8>) -> bool {
        true
    }

    /// Whether `self` holds the fields encoded in `raw`.
    pub open spec fn decodes(self, raw: Seq<u8>) -> bool {
        &&& self.format == raw[1]
        &&& self.sequence_number == spec_le_u16(raw, 2)
        &&& self.window@ == spec_le_u32(raw, 4)
        &&& self.type_message@ == spec_le_u32(raw, 8)
        &&& self.data@ == raw.subrange(12, 32)
    }

    /// Decodes the event from its 32 bytes; `None` where the bytes are not well-formed.
    pub fn from_le_bytes(raw: &[u8; 32]) -> (r: Option<Self>)
        ensures
            r is Some <==> Self::spec_valid(raw@),
            r matches Some(e) ==> e.decodes(raw@),
    {
        let s = raw.as_slice();
        proof {
            lemma_raw_is_view();
        }
        let format = raw[1];
        let sequence_number = le_u16_at(s, 2);
        let window = WindowId::unchecked_from(le_u32_at(s, 4));
        let type_message = AtomId::unchecked_from(le_u32_at(s, 8));
        let mut data = [0u8; 20];
        let mut i: usize = 0;
        while i < 20
            invariant
                i <= 20,
                s@ == raw@,
                forall|j: int| 0 <= j < i ==> data@[j] == raw@[12 + j],
            decreases 20 - i,
        {
            data[i] = s[12 + i];
            i = i + 1;
        }
        assert(data@ =~= raw@.subrange(12, 32));
        Some(ClientMessage { format, sequence_number, window, type_message, data })
    }
}

/// A keyboard, modifier or pointer mapping changed.
#[derive(Debug, Clone, PartialEq, Eq)]
pub struct MappingNotify {
    pub sequence_number: u16,
    pub request: MappingNotifyRequest,
    pub first_keycode: u8,
    pub count: u8,
}

impl MappingNotify {
    /// Whether `raw` holds a well-formed event of this kind.
    pub open spec fn spec_valid(raw: Seq<u8>) -> bool {
        &&& MappingNotifyRequest::spec_from_u8(raw[4]) is Some
    }

    /// Whether `self` holds the fields encoded in `raw`.
    pub open spec fn decodes(self, raw: Seq<u8>) -> bool {
        &&& self.sequence_number == spec_le_u16(raw, 2)
        &&& MappingNotifyRequest::spec_from_u8(raw[4]) == Some(self.request)
        &&& self.first_keycode == raw[5]
        &&& self.count == raw[6]
    }

    /// Decodes the event from its 32 bytes; `None` where the bytes are not well-formed.
    pub fn from_le_bytes(raw: &[u8; 32]) -> (r: Option<Self>)
        ensures
            r is Some <==> Self::spec_valid(raw@),
            r matches Some(e) ==> e.decodes(raw@),
    {
        let s = raw.as_slice();
        proof {
            lemma_raw_is_view();
        }
        let sequence_number = le_u16_at(s, 2);
        let request = match MappingNotifyRequest::from_u8(raw[4]) {
            Some(v) => v,
            None => return None,
        };
        let first_keycode = raw[5];
        let count = raw[6];
        Some(MappingNotify { sequence_number, request, first_keycode, count })
    }
}

/// Any event the server may send.
#[derive(Debug, Clone, PartialEq, Eq)]
pub enum SomeEvent {
    KeyPress(KeyPressRelease),
    KeyRelease(KeyPressRelease),
    ButtonPress(KeyPressRelease),
    ButtonRelease(KeyPressRelease),
    MotionNotify(MotionNotify),
    EnterNotify(EnterLeaveNotify),
    LeaveNotify(EnterLeaveNotify),
    FocusIn(FocusInOut),
    FocusOut(FocusInOut),
    KeymapNotify(KeymapNotify),
    Expose(Expose),
    GraphicsExposure(GraphicsExposure),
    NoExposure(NoExposure),
    VisibilityNotify(VisibilityNotify),
    CreateNotify(CreateNotify),
    DestroyNotify(DestroyNotify),
    UnmapNotify(UnmapNotify),
    MapNotify(MapNotify),
    MapRequest(MapRequest),
    ReparentNotify(ReparentNotify),
    ConfigureNotify(ConfigureNotify),
    ConfigureRequest(ConfigureRequest),
    GravityNotify(GravityNotify),
    ResizeRequest(ResizeRequest),
    CirculateNotify(CirculateNotify),
    CirculateRequest(CirculateRequest),
    PropertyNotify(PropertyNotify),
    SelectionClear(SelectionClear),
    SelectionRequest(SelectionRequest),
    SelectionNotify(SelectionNotify),
    ColormapNotify(ColormapNotify),
    ClientMessage(ClientMessage),
    MappingNotify(MappingNotify),
    UnknownEvent(UnknownEvent),
}

impl SomeEvent {
    /// Whether `r` is what decoding the event bytes `raw` gives.
    pub open spec fn spec_decoded(raw: Seq<u8>, r: Option<SomeEvent>) -> bool {
        if raw[0] == 2 {
            if KeyPressRelease::spec_valid(raw) {
                r matches Some(SomeEvent::KeyPress(e)) && e.decodes(raw)
            } else {
                r is None
            }
        } else if raw[0] == 3 {
            if KeyPressRelease::spec_valid(raw) {
                r matches Some(SomeEvent::KeyRelease(e)) && e.decodes(raw)
            } else {
                r is None
            }
        } else if raw[0] == 4 {
            if KeyPressRelease::spec_valid(raw) {
                r matches Some(SomeEvent::ButtonPress(e)) && e.decodes(raw)
            } else {
                r is None
            }
        } else if raw[0] == 5 {
            if KeyPressRelease::spec_valid(raw) {
                r matches Some(SomeEvent::ButtonRelease(e)) && e.decodes(raw)
            } else {
                r is None
            }
        } else if raw[0] == 6 {
            if MotionNotify::spec_valid(raw) {
                r matches Some(SomeEvent::MotionNotify(e)) && e.decodes(raw)
            } else {
                r is None
            }
        } else if raw[0] == 7 {
            if EnterLeaveNotify::spec_valid(raw) {
                r matches Some(SomeEvent::EnterNotify(e)) && e.decodes(raw)
            } else {
                r is None
            }
        } else if raw[0] == 8 {
            if EnterLeaveNotify::spec_valid(raw) {
                r matches Some(SomeEvent::LeaveNotify(e)) && e.decodes(raw)
            } else {
                r is None
            }
        } else if raw[0] == 9 {
            if FocusInOut::spec_valid(raw) {
                r matches Some(SomeEvent::FocusIn(e)) && e.decodes(raw)
            } else {
                r is None
            }
        } else if raw[0] == 10 {
            if FocusInOut::spec_valid(raw) {
                r matches Some(SomeEvent::FocusOut(e)) && e.decodes(raw)
            } else {
                r is None
            }
        } else if raw[0] == 11 {
            if KeymapNotify::spec_valid(raw) {
                r matches Some(SomeEvent::KeymapNotify(e)) && e.decodes(raw)
            } else {
                r is None
            }
        } else if raw[0] == 12 {
            if Expose::spec_valid(raw) {
                r matches Some(SomeEvent::Expose(e)) && e.decodes(raw)
            } else {
                r is None
            }
        } else if raw[0] == 13 {
            if GraphicsExposure::spec_valid(raw) {
                r matches Some(SomeEvent::GraphicsExposure(e)) && e.decodes(raw)
            } else {
                r is None
            }
        } else if raw[0] == 14 {
            if NoExposure::spec_valid(raw) {
                r matches Some(SomeEvent::NoExposure(e)) && e.decodes(raw)
            } else {
                r is None
            }
        } else if raw[0] == 15 {
            if VisibilityNotify::spec_valid(raw) {
                r matches Some(SomeEvent::VisibilityNotify(e)) && e.decodes(raw)
            } else {
                r is None
            }
        } else if raw[0] == 16 {
            if CreateNotify::spec_valid(raw) {
                r matches Some(SomeEvent::CreateNotify(e)) && e.decodes(raw)
            } else {
                r is None
            }
        } else if raw[0] == 17 {
            if DestroyNotify::spec_valid(raw) {
                r matches Some(SomeEvent::DestroyNotify(e)) && e.decodes(raw)
            } else {
                r is None
            }
        } else if raw[0] == 18 {
            if UnmapNotify::spec_valid(raw) {
                r matches Some(SomeEvent::UnmapNotify(e)) && e.decodes(raw)
            } else {
                r is None
            }
        } else if raw[0] == 19 {
            if MapNotify::spec_valid(raw) {
                r matches Some(SomeEvent::MapNotify(e)) && e.decodes(raw)
            } else {
                r is None
            }
        } else if raw[0] == 20 {
            if MapRequest::spec_valid(raw) {
                r matches Some(SomeEvent::MapRequest(e)) && e.decodes(raw)
            } else {
                r is None
            }
        } else if raw[0] == 21 {
            if ReparentNotify::spec_valid(raw) {
                r matches Some(SomeEvent::ReparentNotify(e)) && e.decodes(raw)
            } else {
                r is None
            }
        } else if raw[0] == 22 {
            if ConfigureNotify::spec_valid(raw) {
                r matches Some(SomeEvent::ConfigureNotify(e)) && e.decodes(raw) && e.decodes_hidden(raw)
            } else {
                r is None
            }
        } else if raw[0] == 23 {
            if ConfigureRequest::spec_valid(raw) {
                r matches Some(SomeEvent::ConfigureRequest(e)) && e.decodes(raw)
            } else {
                r is None
            }
        } else if raw[0] == 24 {
            if GravityNotify::spec_valid(raw) {
                r matches Some(SomeEvent::GravityNotify(e)) && e.decodes(raw)
            } else {
                r is None
            }
        } else if raw[0] == 25 {
            if ResizeRequest::spec_valid(raw) {
                r matches Some(SomeEvent::ResizeRequest(e)) && e.decodes(raw)
            } else {
                r is None
            }
        } else if raw[0] == 26 {
            if CirculateNotify::spec_valid(raw) {
                r matches Some(SomeEvent::CirculateNotify(e)) && e.decodes(raw)
            } else {
                r is None
            }
        } else if raw[0] == 27 {
            if CirculateRequest::spec_valid(raw) {
                r matches Some(SomeEvent::CirculateRequest(e)) && e.decodes(raw)
            } else {
                r is None
            }
        } else if raw[0] == 28 {
            if PropertyNotify::spec_valid(raw) {
                r matches Some(SomeEvent::PropertyNotify(e)) && e.decodes(raw)
            } else {
                r is None
            }
        } else if raw[0] == 29 {
            if SelectionClear::spec_valid(raw) {
                r matches Some(SomeEvent::SelectionClear(e)) && e.decodes(raw)
            } else {
                r is None
            }
        } else if raw[0] == 30 {
            if SelectionRequest::spec_valid(raw) {
                r matches Some(SomeEvent::SelectionRequest(e)) && e.decodes(raw)
            } else {
                r is None
            }
        } else if raw[0] == 31 {
            if SelectionNotify::spec_valid(raw) {
                r matches Some(SomeEvent::SelectionNotify(e)) && e.decodes(raw)
            } else {
                r is None
            }
        } else if raw[0] == 32 {
            if ColormapNotify::spec_valid(raw) {
                r matches Some(SomeEvent::ColormapNotify(e)) && e.decodes(raw)
            } else {
                r is None
            }
        } else if raw[0] == 33 {
            if ClientMessage::spec_valid(raw) {
                r matches Some(SomeEvent::ClientMessage(e)) && e.decodes(raw)
            } else {
                r is None
            }
        } else if raw[0] == 34 {
            if MappingNotify::spec_valid(raw) {
                r matches Some(SomeEvent::MappingNotify(e)) && e.decodes(raw)
            } else {
                r is None
            }
        } else {
            r matches Some(SomeEvent::UnknownEvent(e)) && e.decodes(raw)
        }
    }

    /// Decodes an event from its 32 bytes, by the event code in the first byte; `None` where
    /// the bytes are not a well-formed event of that code.
    pub fn from_le_bytes(raw: &[u8; 32]) -> (r: Option<SomeEvent>)
        ensures
            Self::spec_decoded(raw@, r),
    {
        let event_code = raw[0];
        match event_code {
            2 => match KeyPressRelease::from_le_bytes(raw) {
                Some(e) => Some(SomeEvent::KeyPress(e)),
                None => None,
            },
            3 => match KeyPressRelease::from_le_bytes(raw) {
                Some(e) => Some(SomeEvent::KeyRelease(e)),
                None => None,
            },
            4 => match KeyPressRelease::from_le_bytes(raw) {
                Some(e) => Some(SomeEvent::ButtonPress(e)),
                None => None,
            },
            5 => match KeyPressRelease::from_le_bytes(raw) {
                Some(e) => Some(SomeEvent::ButtonRelease(e)),
                None => None,
            },
            6 => match MotionNotify::from_le_bytes(raw) {
                Some(e) => Some(SomeEvent::MotionNotify(e)),
                None => None,
            },
            7 => match EnterLeaveNotify::from_le_bytes(raw) {
                Some(e) => Some(SomeEvent::EnterNotify(e)),
                None => None,
            },
            8 => match EnterLeaveNotify::from_le_bytes(raw) {
                Some(e) => Some(SomeEvent::LeaveNotify(e)),
                None => None,
            },
            9 => match FocusInOut::from_le_bytes(raw) {
                Some(e) => Some(SomeEvent::FocusIn(e)),
                None => None,
            },
            10 => match FocusInOut::from_le_bytes(raw) {
                Some(e) => Some(SomeEvent::FocusOut(e)),
                None => None,
            },
            11 => match KeymapNotify::from_le_bytes(raw) {
                Some(e) => Some(SomeEvent::KeymapNotify(e)),
                None => None,
            },
            12 => match Expose::from_le_bytes(raw) {
                Some(e) => Some(SomeEvent::Expose(e)),
                None => None,
            },
            13 => match GraphicsExposure::from_le_bytes(raw) {
                Some(e) => Some(SomeEvent::GraphicsExposure(e)),
                None => None,
            },
            14 => match NoExposure::from_le_bytes(raw) {
                Some(e) => Some(SomeEvent::NoExposure(e)),
                None => None,
            },
            15 => match VisibilityNotify::from_le_bytes(raw) {
                Some(e) => Some(SomeEvent::VisibilityNotify(e)),
                None => None,
            },
            16 => match CreateNotify::from_le_bytes(raw) {
                Some(e) => Some(SomeEvent::CreateNotify(e)),
                None => None,
            },
            17 => match DestroyNotify::from_le_bytes(raw) {
                Some(e) => Some(SomeEvent::DestroyNotify(e)),
                None => None,
            },
            18 => match UnmapNotify::from_le_bytes(raw) {
                Some(e) => Some(SomeEvent::UnmapNotify(e)),
                None => None,
            },
            19 => match MapNotify::from_le_bytes(raw) {
                Some(e) => Some(SomeEvent::MapNotify(e)),
                None => None,
            },
            20 => match MapRequest::from_le_bytes(raw) {
                Some(e) => Some(SomeEvent::MapRequest(e)),
                None => None,
            },
            21 => match ReparentNotify::from_le_bytes(raw) {
                Some(e) => Some(SomeEvent::ReparentNotify(e)),
                None => None,
            },
            22 => match ConfigureNotify::from_le_bytes(raw) {
                Some(e) => Some(SomeEvent::ConfigureNotify(e)),
                None => None,
            },
            23 => match ConfigureRequest::from_le_bytes(raw) {
                Some(e) => Some(SomeEvent::ConfigureRequest(e)),
                None => None,
            },
            24 => match GravityNotify::from_le_bytes(raw) {
                Some(e) => Some(SomeEvent::GravityNotify(e)),
                None => None,
            },
            25 => match ResizeRequest::from_le_bytes(raw) {
                Some(e) => Some(SomeEvent::ResizeRequest(e)),
                None => None,
            },
            26 => match CirculateNotify::from_le_bytes(raw) {
                Some(e) => Some(SomeEvent::CirculateNotify(e)),
                None => None,
            },
            27 => match CirculateRequest::from_le_bytes(raw) {
                Some(e) => Some(SomeEvent::CirculateRequest(e)),
                None => None,
            },
            28 => match PropertyNotify::from_le_bytes(raw) {
                Some(e) => Some(SomeEvent::PropertyNotify(e)),
                None => None,
            },
            29 => match SelectionClear::from_le_bytes(raw) {
                Some(e) => Some(SomeEvent::SelectionClear(e)),
                None => None,
            },
            30 => match SelectionRequest::from_le_bytes(raw) {
                Some(e) => Some(SomeEvent::SelectionRequest(e)),
                None => None,
            },
            31 => match SelectionNotify::from_le_bytes(raw) {
                Some(e) => Some(SomeEvent::SelectionNotify(e)),
                None => None,
            },
            32 => match ColormapNotify::from_le_bytes(raw) {
                Some(e) => Some(SomeEvent::ColormapNotify(e)),
                None => None,
            },
            33 => match ClientMessage::from_le_bytes(raw) {
                Some(e) => Some(SomeEvent::ClientMessage(e)),
                None => None,
            },
            34 => match MappingNotify::from_le_bytes(raw) {
                Some(e) => Some(SomeEvent::MappingNotify(e)),
                None => None,
            },
            _ => Some(SomeEvent::UnknownEvent(UnknownEvent::from_le_bytes(raw))),
        }
    }
}

/// An event whose code this library does not know.
#[derive(Debug, Clone, PartialEq, Eq)]
pub struct UnknownEvent {
    pub sequence_number: u16,
    pub raw: [u8; 32],
}

impl UnknownEvent {
    /// Whether `self` holds the event bytes `raw`.
    pub open spec fn decodes(self, raw: Seq<u8>) -> bool {
        &&& self.sequence_number == spec_le_u16(raw, 2)
        &&& self.raw@ == raw
    }

    /// The sequence number and bytes of any event.
    pub fn from_le_bytes(raw: &[u8; 32]) -> (r: Self)
        ensures
            r.decodes(raw@),
            r.raw@ == raw@,
            r.sequence_number == spec_le_u16(raw@, 2),
    {
        let s = raw.as_slice();
        UnknownEvent { sequence_number: le_u16_at(s, 2), raw: *raw }
    }
}

impl ConfigureNotify {
    /// The 32 bytes of the event, fields at their places.
    pub closed spec fn spec_to_bytes(self) -> Seq<u8> {
        seq![self._event_code, self._unused] + spec_u16_bytes(self.sequence_number)
            + spec_u32_bytes(self.event@) + spec_u32_bytes(self.window@) + spec_u32_bytes(
            self.above_sibling.spec_raw(),
        ) + spec_i16_bytes(self.x) + spec_i16_bytes(self.y) + spec_u16_bytes(self.width)
            + spec_u16_bytes(self.height) + spec_u16_bytes(self.border_width) + seq![
            if self.override_redirect {
                1u8
            } else {
                0u8
            },
        ] + self._pad@
    }

    /// The 32 bytes of the event, as the server would send them.
    pub fn to_le_bytes(self) -> (r: [u8; 32])
        ensures
            r@ == self.spec_to_bytes(),
    {
        proof {
            lemma_raw_is_view();
        }
        let mut out: Vec<u8> = Vec::new();
        out.push(self._event_code);
        out.push(self._unused);
        push_u16(&mut out, self.sequence_number);
        push_u32(&mut out, self.event.raw());
        push_u32(&mut out, self.window.raw());
        push_u32(&mut out, self.above_sibling.raw());
        push_i16(&mut out, self.x);
        push_i16(&mut out, self.y);
        push_u16(&mut out, self.width);
        push_u16(&mut out, self.height);
        push_u16(&mut out, self.border_width);
        out.push(if self.override_redirect { 1 } else { 0 });
        let mut i: usize = 0;
        while i < 5
            invariant
                i <= 5,
                out@.len() == 27 + i,
                out@ == self.spec_to_bytes().subrange(0, 27 + i as int),
            decreases 5 - i,
        {
            out.push(self._pad[i]);
            i = i + 1;
            assert(out@ =~= self.spec_to_bytes().subrange(0, 27 + i as int));
        }
        assert(out@ =~= self.spec_to_bytes());
        let mut res = [0u8; 32];
        let mut j: usize = 0;
        while j < 32
            invariant
                j <= 32,
                out@ == self.spec_to_bytes(),
                forall|k: int| 0 <= k < j ==> res@[k] == out@[k],
            decreases 32 - j,
        {
            res[j] = out[j];
            j = j + 1;
        }
        assert(res@ =~= self.spec_to_bytes());
        res
    }

    /// Encoding an event and decoding the bytes gives the same event back.
    pub proof fn lemma_encode_decode(self, x: ConfigureNotify)
        requires
            x.decodes(self.spec_to_bytes()),
            x.decodes_hidden(self.spec_to_bytes()),
        ensures
            Self::spec_valid(self.spec_to_bytes()),
            x == self,
    {
        let b = self.spec_to_bytes();
        lemma_u16_bytes_roundtrip(self.sequence_number);
        lemma_u32_bytes_roundtrip(self.event@);
        lemma_u32_bytes_roundtrip(self.window@);
        lemma_u32_bytes_roundtrip(self.above_sibling.spec_raw());
        lemma_u16_bytes_roundtrip(spec_i16_as_u16(self.x));
        lemma_u16_bytes_roundtrip(spec_i16_as_u16(self.y));
        lemma_u16_bytes_roundtrip(self.width);
        lemma_u16_bytes_roundtrip(self.height);
        lemma_u16_bytes_roundtrip(self.border_width);
        lemma_i16_pattern_roundtrip(self.x);
        lemma_i16_pattern_roundtrip(self.y);
        assert(b.subrange(2, 4) =~= spec_u16_bytes(self.sequence_number));
        assert(spec_le_u16(b, 2) == spec_le_u16(b.subrange(2, 4), 0));
        assert(b.subrange(4, 8) =~= spec_u32_bytes(self.event@));
        assert(spec_le_u32(b, 4) == spec_le_u32(b.subrange(4, 8), 0));
        assert(b.subrange(8, 12) =~= spec_u32_bytes(self.window@));
        assert(spec_le_u32(b, 8) == spec_le_u32(b.subrange(8, 12), 0));
        assert(b.subrange(12, 16) =~= spec_u32_bytes(self.above_sibling.spec_raw()));
        assert(spec_le_u32(b, 12) == spec_le_u32(b.subrange(12, 16), 0));
        assert(b.subrange(16, 18) =~= spec_i16_bytes(self.x));
        assert(spec_le_u16(b, 16) == spec_le_u16(b.subrange(16, 18), 0));
        assert(b.subrange(18, 20) =~= spec_i16_bytes(self.y));
        assert(spec_le_u16(b, 18) == spec_le_u16(b.subrange(18, 20), 0));
        assert(b.subrange(20, 22) =~= spec_u16_bytes(self.width));
        assert(spec_le_u16(b, 20) == spec_le_u16(b.subrange(20, 22), 0));
        assert(b.subrange(22, 24) =~= spec_u16_bytes(self.height));
        assert(spec_le_u16(b, 22) == spec_le_u16(b.subrange(22, 24), 0));
        assert(b.subrange(24, 26) =~= spec_u16_bytes(self.border_width));
        assert(spec_le_u16(b, 24) == spec_le_u16(b.subrange(24, 26), 0));
        assert(x._pad@ =~= self._pad@);
        WindowId::lemma_view_injective(x.event, self.event);
        WindowId::lemma_view_injective(x.window, self.window);
        OrNone::<WindowId>::lemma_raw_injective(x.above_sibling, self.above_sibling);
        assert(x._pad == self._pad);
    }

    /// Decoding well-formed bytes and encoding the event gives the same bytes back.
    pub proof fn lemma_decode_encode(raw: Seq<u8>, x: ConfigureNotify)
        requires
            raw.len() == 32,
            Self::spec_valid(raw),
            x.decodes(raw),
            x.decodes_hidden(raw),
        ensures
            x.spec_to_bytes() == raw,
    {
        lemma_le_u16_bytes_roundtrip(raw, 2);
        lemma_le_u32_bytes_roundtrip(raw, 4);
        lemma_le_u32_bytes_roundtrip(raw, 8);
        lemma_le_u32_bytes_roundtrip(raw, 12);
        lemma_le_u16_bytes_roundtrip(raw, 16);
        lemma_le_u16_bytes_roundtrip(raw, 18);
        lemma_le_u16_bytes_roundtrip(raw, 20);
        lemma_le_u16_bytes_roundtrip(raw, 22);
        lemma_le_u16_bytes_roundtrip(raw, 24);
        lemma_u16_i16_pattern_roundtrip(spec_le_u16(raw, 16));
        lemma_u16_i16_pattern_roundtrip(spec_le_u16(raw, 18));
        assert(x.spec_to_bytes() =~= raw);
    }
}

/// Set of event kinds a client selects on a window.
#[derive(Debug, Clone, Copy, PartialEq, Eq, Structural, PartialOrd, Ord, Hash)]
pub struct EventType {
    pub value: u32,
}

impl EventType {
    /// The set whose mask is `value`; the associated constants are the single kinds.
    pub fn from_raw(value: u32) -> (r: Self)
        ensures
            r.value == value,
    {
        EventType { value }
    }

    /// The empty set.
    pub const EMPTY_MASK: u32 = 0;
    pub const KEY_PRESS: u32 = 0x00000001;
    pub const KEY_RELEASE: u32 = 0x00000002;
    pub const BUTTON_PRESS: u32 = 0x00000004;
    pub const BUTTON_RELEASE: u32 = 0x00000008;
    pub const ENTER_WINDOW: u32 = 0x00000010;
    pub const LEAVE_WINDOW: u32 = 0x00000020;
    pub const POINTER_MOTION: u32 = 0x00000040;
    pub const POINTER_MOTION_HINT: u32 = 0x00000080;
    pub const BUTTON1_MOTION: u32 = 0x00000100;
    pub const BUTTON2_MOTION: u32 = 0x00000200;
    pub const BUTTON3_MOTION: u32 = 0x00000400;
    pub const BUTTON4_MOTION: u32 = 0x00000800;
    pub const BUTTON5_MOTION: u32 = 0x00001000;
    pub const BUTTON_MOTION: u32 = 0x00002000;
    pub const KEYMAP_STATE: u32 = 0x00004000;
    pub const EXPOSURE: u32 = 0x00008000;
    pub const VISIBILITY_CHANGE: u32 = 0x00010000;
    pub const STRUCTURE_NOTIFY: u32 = 0x00020000;
    pub const RESIZE_REDIRECT: u32 = 0x00040000;
    pub const SUBSTRUCTURE_NOTIFY: u32 = 0x00080000;
    pub const SUBSTRUCTURE_REDIRECT: u32 = 0x00100000;
    pub const FOCUS_CHANGE: u32 = 0x00200000;
    pub const PROPERTY_CHANGE: u32 = 0x00400000;
    pub const COLORMAP_CHANGE: u32 = 0x00800000;
    pub const OWNER_GRAB_BUTTON: u32 = 0x01000000;

    /// Whether every kind in `flag` is in the set.
    pub fn has(self, flag: Self) -> (r: bool)
        ensures
            r == (self.value & flag.value == flag.value),
    {
        (self.value & flag.value) == flag.value
    }

    /// The raw mask.
    pub fn raw(self) -> (r: u32)
        ensures
            r == self.value,
    {
        self.value
    }

    /// The union of two sets.
    pub fn union(self, rhs: Self) -> (r: Self)
        ensures
            r.value == self.value | rhs.value,
    {
        EventType { value: self.value | rhs.value }
    }

    /// The intersection of two sets.
    pub fn intersection(self, rhs: Self) -> (r: Self)
        ensures
            r.value == self.value & rhs.value,
    {
        EventType { value: self.value & rhs.value }
    }
}

} // verus!
