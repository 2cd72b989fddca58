//! The RandR extension: types shared by its requests and replies.
//!
//! Written against version 1.6 of the extension, the only one supported.
use vstd::prelude::*;

use crate::bytes::{
    lemma_i16_pattern_roundtrip, lemma_u16_bytes_roundtrip, lemma_u32_bytes_roundtrip, push_i16,
    push_u16, push_u32, spec_i16_as_u16, spec_i16_bytes, spec_le_i16, spec_le_u16, spec_le_u32,
    spec_u16_bytes, spec_u32_bytes, ByteReader,
};
use crate::error::{eof_error, Error};
use crate::ids::{lemma_raw_is_view, AtomId, CrtcId, XId};
use crate::replies::{read_ids, spec_raws, spec_u32s};

verus! {

/// Name of the extension as the X server reports it.
pub const EXTENSION_NAME: [u8; 5] = [82, 65, 78, 68, 82];

/// The major version of the extension this library speaks.
pub const SUPPORTED_MAJOR: u32 = 1;

/// The minor version of the extension this library speaks.
pub const SUPPORTED_MINOR: u32 = 6;

/// The index of a screen size.
#[derive(Debug, Clone, Copy, PartialEq, Eq, Structural)]
pub struct SizeId {
    inner: u16,
}

impl View for SizeId {
    type V = u16;

    closed spec fn view(&self) -> u16 {
        self.inner
    }
}

impl SizeId {
    /// The size index `inner`.
    pub fn from_u16(inner: u16) -> (r: Self)
        ensures
            r@ == inner,
    {
        SizeId { inner }
    }

    /// The raw index.
    pub fn raw(self) -> (r: u16)
        ensures
            r == self@,
    {
        self.inner
    }

    /// Little-endian wire encoding.
    pub fn to_le_bytes(self) -> (r: Vec<u8>)
        ensures
            r@ == spec_u16_bytes(self@),
    {
        let mut out = Vec::new();
        push_u16(&mut out, self.inner);
        out
    }
}

/// A set of rotations and reflections.
#[derive(Debug, Clone, Copy, PartialEq, Eq, Structural, PartialOrd, Ord, Hash)]
pub struct PossibleRotation {
    pub value: u16,
}

impl PossibleRotation {
    /// The empty set.
    pub const EMPTY_MASK: u16 = 0;
    pub const ROTATE_0: u16 = 0x0001;
    pub const ROTATE_90: u16 = 0x0002;
    pub const ROTATE_180: u16 = 0x0004;
    pub const ROTATE_270: u16 = 0x0008;
    pub const REFLECT_X: u16 = 0x0010;
    pub const REFLECT_Y: u16 = 0x0020;

    /// The set whose mask is `value`; the associated constants are the single flags.
    pub fn from_raw(value: u16) -> (m: Self)
        ensures
            m.value == value,
    {
        PossibleRotation { value }
    }

    /// Whether every flag of `flag` is in the set.
    pub fn has(self, flag: Self) -> (b: bool)
        ensures
            b == (self.value & flag.value == flag.value),
    {
        (self.value & flag.value) == flag.value
    }

    /// The raw mask.
    pub fn raw(self) -> (v: u16)
        ensures
            v == self.value,
    {
        self.value
    }

    /// The union of two sets.
    pub fn union(self, rhs: Self) -> (m: Self)
        ensures
            m.value == self.value | rhs.value,
    {
        PossibleRotation { value: self.value | rhs.value }
    }

    /// The intersection of two sets.
    pub fn intersection(self, rhs: Self) -> (m: Self)
        ensures
            m.value == self.value & rhs.value,
    {
        PossibleRotation { value: self.value & rhs.value }
    }
}

/// One rotation or reflection.
#[derive(Debug, Clone, Copy, PartialEq, Eq, Structural, PartialOrd, Ord, Hash)]
pub enum Rotation {
    Rotate0,
    Rotate90,
    Rotate180,
    Rotate270,
    ReflectX,
    ReflectY,
}

impl Rotation {
    /// The variant encoded by `value`, if any.
    pub open spec fn spec_from_u16(value: u16) -> Option<Rotation> {
        if value == 0x0001 {
            Some(Rotation::Rotate0)
        } else if value == 0x0002 {
            Some(Rotation::Rotate90)
        } else if value == 0x0004 {
            Some(Rotation::Rotate180)
        } else if value == 0x0008 {
            Some(Rotation::Rotate270)
        } else if value == 0x0010 {
            Some(Rotation::ReflectX)
        } else if value == 0x0020 {
            Some(Rotation::ReflectY)
        } else {
            None
        }
    }

    /// The variant encoded by `value`, if any.
    pub fn from_u16(value: u16) -> (r: Option<Rotation>)
        ensures
            r == Self::spec_from_u16(value),
    {
        match value {
            0x0001 => Some(Rotation::Rotate0),
            0x0002 => Some(Rotation::Rotate90),
            0x0004 => Some(Rotation::Rotate180),
            0x0008 => Some(Rotation::Rotate270),
            0x0010 => Some(Rotation::ReflectX),
            0x0020 => Some(Rotation::ReflectY),
            _ => None,
        }
    }

    /// The wire value of the variant.
    pub open spec fn spec_to_u16(self) -> u16 {
        match self {
            Rotation::Rotate0 => 0x0001,
            Rotation::Rotate90 => 0x0002,
            Rotation::Rotate180 => 0x0004,
            Rotation::Rotate270 => 0x0008,
            Rotation::ReflectX => 0x0010,
            Rotation::ReflectY => 0x0020,
        }
    }

    /// The wire value of the variant.
    pub fn to_u16(self) -> (r: u16)
        ensures
            r == self.spec_to_u16(),
            Self::spec_from_u16(r) == Some(self),
    {
        match self {
            Rotation::Rotate0 => 0x0001,
            Rotation::Rotate90 => 0x0002,
            Rotation::Rotate180 => 0x0004,
            Rotation::Rotate270 => 0x0008,
            Rotation::ReflectX => 0x0010,
            Rotation::ReflectY => 0x0020,
        }
    }
}

/// Event select mask for the select input request.
#[derive(Debug, Clone, Copy, PartialEq, Eq, Structural, PartialOrd, Ord, Hash)]
pub struct SelectMask {
    pub value: u16,
}

impl SelectMask {
    /// The empty set.
    pub const EMPTY_MASK: u16 = 0;
    pub const SCREEN_CHANGE_NOTIFY_MASK: u16 = 0x0001;
    pub const CRTC_CHANGE_NOTIFY_MASK: u16 = 0x0002;
    pub const OUTPUT_CHANGE_NOTIFY_MASK: u16 = 0x0004;
    pub const OUTPUT_PROPERTY_NOTIFY_MASK: u16 = 0x0008;
    pub const PROVIDER_CHANGE_NOTIFY_MASK: u16 = 0x0010;
    pub const PROVIDER_PROPERTY_NOTIFY_MASK: u16 = 0x0020;
    pub const RESOURCE_CHANGE_NOTIFY_MASK: u16 = 0x0040;

    /// The set whose mask is `value`; the associated constants are the single flags.
    pub fn from_raw(value: u16) -> (m: Self)
        ensures
            m.value == value,
    {
        SelectMask { value }
    }

    /// Whether every flag of `flag` is in the set.
    pub fn has(self, flag: Self) -> (b: bool)
        ensures
            b == (self.value & flag.value == flag.value),
    {
        (self.value & flag.value) == flag.value
    }

    /// The raw mask.
    pub fn raw(self) -> (v: u16)
        ensures
            v == self.value,
    {
        self.value
    }

    /// The union of two sets.
    pub fn union(self, rhs: Self) -> (m: Self)
        ensures
            m.value == self.value | rhs.value,
    {
        SelectMask { value: self.value | rhs.value }
    }

    /// The intersection of two sets.
    pub fn intersection(self, rhs: Self) -> (m: Self)
        ensures
            m.value == self.value & rhs.value,
    {
        SelectMask { value: self.value & rhs.value }
    }
}

/// Return status for requests which depend on time.
#[derive(Debug, Clone, Copy, PartialEq, Eq, Structural, PartialOrd, Ord, Hash)]
pub enum ConfigStatus {
    Success,
    InvalidConfigTime,
    InvalidTime,
    Failed,
}

impl ConfigStatus {
    /// The variant encoded by `value`, if any.
    pub open spec fn spec_from_u8(value: u8) -> Option<ConfigStatus> {
        if value == 0x0 {
            Some(ConfigStatus::Success)
        } else if value == 0x1 {
            Some(ConfigStatus::InvalidConfigTime)
        } else if value == 0x2 {
            Some(ConfigStatus::InvalidTime)
        } else if value == 0x3 {
            Some(ConfigStatus::Failed)
        } else {
            None
        }
    }

    /// The variant encoded by `value`, if any.
    pub fn from_u8(value: u8) -> (r: Option<ConfigStatus>)
        ensures
            r == Self::spec_from_u8(value),
    {
        match value {
            0x0 => Some(ConfigStatus::Success),
            0x1 => Some(ConfigStatus::InvalidConfigTime),
            0x2 => Some(ConfigStatus::InvalidTime),
            0x3 => Some(ConfigStatus::Failed),
            _ => None,
        }
    }

    /// The wire value of the variant.
    pub open spec fn spec_to_u8(self) -> u8 {
        match self {
            ConfigStatus::Success => 0x0,
            ConfigStatus::InvalidConfigTime => 0x1,
            ConfigStatus::InvalidTime => 0x2,
            ConfigStatus::Failed => 0x3,
        }
    }

    /// The wire value of the variant.
    pub fn to_u8(self) -> (r: u8)
        ensures
            r == self.spec_to_u8(),
            Self::spec_from_u8(r) == Some(self),
    {
        match self {
            ConfigStatus::Success => 0x0,
            ConfigStatus::InvalidConfigTime => 0x1,
            ConfigStatus::InvalidTime => 0x2,
            ConfigStatus::Failed => 0x3,
        }
    }
}

/// Flags of an output mode.
#[derive(Debug, Clone, Copy, PartialEq, Eq, Structural, PartialOrd, Ord, Hash)]
pub struct ModeFlag {
    pub value: u32,
}

impl ModeFlag {
    /// The empty set.
    pub const EMPTY_MASK: u32 = 0;
    pub const HSYNC_POSITIVE: u32 = 0x00000001;
    pub const HSYNC_NEGATIVE: u32 = 0x00000002;
    pub const VSYNC_POSITIVE: u32 = 0x00000004;
    pub const VSYNC_NEGATIVE: u32 = 0x00000008;
    pub const INTERLACE: u32 = 0x00000010;
    pub const DOUBLE_SCAN: u32 = 0x00000020;
    pub const CSYNC: u32 = 0x00000040;
    pub const CSYNC_POSITIVE: u32 = 0x00000080;
    pub const CSYNC_NEGATIVE: u32 = 0x00000100;
    pub const HSKEW_PRESENT: u32 = 0x00000200;
    pub const BCAST: u32 = 0x00000400;
    pub const PIXEL_MULTIPLEX: u32 = 0x00000800;
    pub const DOUBLE_CLOCK: u32 = 0x00001000;
    pub const CLOCK_DIVIDE_BY_2: u32 = 0x00002000;

    /// The set whose mask is `value`; the associated constants are the single flags.
    pub fn from_raw(value: u32) -> (m: Self)
        ensures
            m.value == value,
    {
        ModeFlag { value }
    }

    /// Whether every flag of `flag` is in the set.
    pub fn has(self, flag: Self) -> (b: bool)
        ensures
            b == (self.value & flag.value == flag.value),
    {
        (self.value & flag.value) == flag.value
    }

    /// The raw mask.
    pub fn raw(self) -> (v: u32)
        ensures
            v == self.value,
    {
        self.value
    }

    /// The union of two sets.
    pub fn union(self, rhs: Self) -> (m: Self)
        ensures
            m.value == self.value | rhs.value,
    {
        ModeFlag { value: self.value | rhs.value }
    }

    /// The intersection of two sets.
    pub fn intersection(self, rhs: Self) -> (m: Self)
        ensures
            m.value == self.value & rhs.value,
    {
        ModeFlag { value: self.value & rhs.value }
    }
}

/// Whether an output is connected.
#[derive(Debug, Clone, Copy, PartialEq, Eq, Structural, PartialOrd, Ord, Hash)]
pub enum Connection {
    Connected,
    Disconnected,
    UnknownConnection,
}

impl Connection {
    /// The variant encoded by `value`, if any.
    pub open spec fn spec_from_u8(value: u8) -> Option<Connection> {
        if value == 0 {
            Some(Connection::Connected)
        } else if value == 1 {
            Some(Connection::Disconnected)
        } else if value == 2 {
            Some(Connection::UnknownConnection)
        } else {
            None
        }
    }

    /// The variant encoded by `value`, if any.
    pub fn from_u8(value: u8) -> (r: Option<Connection>)
        ensures
            r == Self::spec_from_u8(value),
    {
        match value {
            0 => Some(Connection::Connected),
            1 => Some(Connection::Disconnected),
            2 => Some(Connection::UnknownConnection),
            _ => None,
        }
    }

    /// The wire value of the variant.
    pub open spec fn spec_to_u8(self) -> u8 {
        match self {
            Connection::Connected => 0,
            Connection::Disconnected => 1,
            Connection::UnknownConnection => 2,
        }
    }

    /// The wire value of the variant.
    pub fn to_u8(self) -> (r: u8)
        ensures
            r == self.spec_to_u8(),
            Self::spec_from_u8(r) == Some(self),
    {
        match self {
            Connection::Connected => 0,
            Connection::Disconnected => 1,
            Connection::UnknownConnection => 2,
        }
    }
}

/// Capabilities of a provider.
#[derive(Debug, Clone, Copy, PartialEq, Eq, Structural, PartialOrd, Ord, Hash)]
pub struct ProviderCapability {
    pub value: u32,
}

impl ProviderCapability {
    /// The empty set.
    pub const EMPTY_MASK: u32 = 0;
    pub const SOURCE_OUTPUT: u32 = 0x00000001;
    pub const SINK_OUTPUT: u32 = 0x00000002;
    pub const SOURCE_OFFLOAD: u32 = 0x00000004;
    pub const SINK_OFFLOAD: u32 = 0x00000008;

    /// The set whose mask is `value`; the associated constants are the single flags.
    pub fn from_raw(value: u32) -> (m: Self)
        ensures
            m.value == value,
    {
        ProviderCapability { value }
    }

    /// Whether every flag of `flag` is in the set.
    pub fn has(self, flag: Self) -> (b: bool)
        ensures
            b == (self.value & flag.value == flag.value),
    {
        (self.value & flag.value) == flag.value
    }

    /// The raw mask.
    pub fn raw(self) -> (v: u32)
        ensures
            v == self.value,
    {
        self.value
    }

    /// The union of two sets.
    pub fn union(self, rhs: Self) -> (m: Self)
        ensures
            m.value == self.value | rhs.value,
    {
        ProviderCapability { value: self.value | rhs.value }
    }

    /// The intersection of two sets.
    pub fn intersection(self, rhs: Self) -> (m: Self)
        ensures
            m.value == self.value & rhs.value,
    {
        ProviderCapability { value: self.value & rhs.value }
    }
}

/// An output mode: the complete CRTC timings of a mode. If the dot clock is zero the timings
/// are unknown or unused; the name is sent separately.
#[derive(Debug, Clone, PartialEq, Eq)]
pub struct ModeInfo {
    pub id: u32,
    pub width_in_pixels: u16,
    pub height_in_pixels: u16,
    pub dot_closk: u32,
    pub h_sync_start: u16,
    pub h_sync_end: u16,
    pub h_total: u16,
    pub h_skew: u16,
    pub v_sync_start: u16,
    pub v_sync_end: u16,
    pub v_total: u16,
    pub name_length: u16,
    pub mode_flags: ModeFlag,
}

impl ModeInfo {
    /// Whether `self` holds the fields encoded at the front of `s`.
    pub open spec fn decodes(self, s: Seq<u8>) -> bool {
        &&& self.id == spec_le_u32(s, 0)
        &&& self.width_in_pixels == spec_le_u16(s, 4)
        &&& self.height_in_pixels == spec_le_u16(s, 6)
        &&& self.dot_closk == spec_le_u32(s, 8)
        &&& self.h_sync_start == spec_le_u16(s, 12)
        &&& self.h_sync_end == spec_le_u16(s, 14)
        &&& self.h_total == spec_le_u16(s, 16)
        &&& self.h_skew == spec_le_u16(s, 18)
        &&& self.v_sync_start == spec_le_u16(s, 20)
        &&& self.v_sync_end == spec_le_u16(s, 22)
        &&& self.v_total == spec_le_u16(s, 24)
        &&& self.name_length == spec_le_u16(s, 26)
        &&& self.mode_flags.value == spec_le_u32(s, 28)
    }

    /// Decodes the structure from the front of the input.
    pub fn from_le_bytes(conn: &mut ByteReader) -> (r: Result<Self, Error>)
        ensures
            ({
                let s = old(conn)@;
                if s.len() < 32 {
                    r == Err::<Self, Error>(eof_error()) && final(conn)@ == s
                } else {
                    r matches Ok(v) && v.decodes(s) && final(conn)@ == s.subrange(32, s.len() as int)
                }
            }),
    {
        proof {
            lemma_raw_is_view();
        }
        if conn.len() < 32 {
            return Err(Error::eof());
        }
        let id = conn.le_u32_ahead(0);
        let width_in_pixels = conn.le_u16_ahead(4);
        let height_in_pixels = conn.le_u16_ahead(6);
        let dot_closk = conn.le_u32_ahead(8);
        let h_sync_start = conn.le_u16_ahead(12);
        let h_sync_end = conn.le_u16_ahead(14);
        let h_total = conn.le_u16_ahead(16);
        let h_skew = conn.le_u16_ahead(18);
        let v_sync_start = conn.le_u16_ahead(20);
        let v_sync_end = conn.le_u16_ahead(22);
        let v_total = conn.le_u16_ahead(24);
        let name_length = conn.le_u16_ahead(26);
        let mode_flags = ModeFlag { value: conn.le_u32_ahead(28) };
        conn.advance(32);
        Ok(ModeInfo { id, width_in_pixels, height_in_pixels, dot_closk, h_sync_start, h_sync_end, h_total, h_skew, v_sync_start, v_sync_end, v_total, name_length, mode_flags })
    }
}

/// The little-endian bytes of 32-bit numbers, one after another.
pub open spec fn spec_u32s_bytes(values: Seq<u32>) -> Seq<u8>
    decreases values.len(),
{
    if values.len() == 0 {
        Seq::empty()
    } else {
        spec_u32s_bytes(values.drop_last()) + spec_u32_bytes(values.last())
    }
}

/// The bytes of the numbers are four per number, each number at four times its index.
pub proof fn lemma_u32s_bytes(values: Seq<u32>)
    ensures
        spec_u32s_bytes(values).len() == 4 * values.len(),
        forall|i: int|
            0 <= i < values.len() ==> #[trigger] spec_u32s_bytes(values).subrange(4 * i, 4 * i + 4)
                == spec_u32_bytes(values[i]),
    decreases values.len(),
{
    if values.len() > 0 {
        let init = values.drop_last();
        lemma_u32s_bytes(init);
        lemma_u32_bytes_roundtrip(values.last());
        let b = spec_u32s_bytes(values);
        assert forall|i: int| 0 <= i < values.len() implies #[trigger] b.subrange(4 * i, 4 * i + 4)
            == spec_u32_bytes(values[i]) by {
            if i < init.len() {
                assert(b.subrange(4 * i, 4 * i + 4) =~= spec_u32s_bytes(init).subrange(4 * i, 4 * i + 4));
                assert(init[i] == values[i]);
            } else {
                assert(b.subrange(4 * i, 4 * i + 4) =~= spec_u32_bytes(values.last()));
            }
        }
    }
}

/// Reading numbers back from their bytes, wherever the bytes stand, gives the numbers.
pub proof fn lemma_u32s_roundtrip(pre: Seq<u8>, values: Seq<u32>, rest: Seq<u8>)
    ensures
        spec_u32s(pre + spec_u32s_bytes(values) + rest, pre.len() as int, values.len() as int)
            == values,
{
    lemma_u32s_bytes(values);
    let b = spec_u32s_bytes(values);
    let all = pre + b + rest;
    assert forall|i: int| 0 <= i < values.len() implies #[trigger] spec_u32s(
        all,
        pre.len() as int,
        values.len() as int,
    )[i] == values[i] by {
        let at = pre.len() + 4 * i;
        assert(b.subrange(4 * i, 4 * i + 4) == spec_u32_bytes(values[i]));
        lemma_u32_bytes_roundtrip(values[i]);
        assert(all.subrange(at, at + 4) =~= b.subrange(4 * i, 4 * i + 4));
        assert(spec_le_u32(all, at) == spec_le_u32(all.subrange(at, at + 4), 0));
    }
    assert(spec_u32s(all, pre.len() as int, values.len() as int) =~= values);
}

/// A monitor: a rectangle of the screen, backed by CRTCs.
#[derive(Debug, Clone, PartialEq, Eq)]
pub struct MonitorInfo {
    pub name: AtomId,
    pub primary: bool,
    pub automatic: bool,
    pub x: i16,
    pub y: i16,
    pub width_in_pixels: u16,
    pub height_in_pixels: u16,
    pub width_in_millimeters: u32,
    pub height_in_millimeters: u32,
    pub crtcs: Vec<CrtcId>,
}

impl MonitorInfo {
    /// Bytes the structure takes at the front of `s`.
    pub open spec fn spec_len(s: Seq<u8>) -> int {
        24 + 4 * spec_le_u16(s, 6)
    }

    /// Whether `self` holds the fields encoded at the front of `s`.
    pub open spec fn decodes(&self, s: Seq<u8>) -> bool {
        &&& self.name@ == spec_le_u32(s, 0)
        &&& self.primary == (s[4] != 0)
        &&& self.automatic == (s[5] != 0)
        &&& self.x == spec_le_i16(s, 8)
        &&& self.y == spec_le_i16(s, 10)
        &&& self.width_in_pixels == spec_le_u16(s, 12)
        &&& self.height_in_pixels == spec_le_u16(s, 14)
        &&& self.width_in_millimeters == spec_le_u32(s, 16)
        &&& self.height_in_millimeters == spec_le_u32(s, 20)
        &&& spec_raws(self.crtcs@) == spec_u32s(s, 24, spec_le_u16(s, 6) as int)
    }

    /// The wire encoding; the CRTC count is sent in 16 bits.
    pub open spec fn spec_to_bytes(&self) -> Seq<u8> {
        spec_u32_bytes(self.name@) + seq![
            if self.primary { 1u8 } else { 0u8 },
            if self.automatic { 1u8 } else { 0u8 },
        ] + spec_u16_bytes(self.crtcs@.len() as u16) + spec_i16_bytes(self.x) + spec_i16_bytes(
            self.y,
        ) + spec_u16_bytes(self.width_in_pixels) + spec_u16_bytes(self.height_in_pixels)
            + spec_u32_bytes(self.width_in_millimeters) + spec_u32_bytes(
            self.height_in_millimeters,
        ) + spec_u32s_bytes(spec_raws(self.crtcs@))
    }

    /// Decodes the structure from the front of the input.
    pub fn from_le_bytes(conn: &mut ByteReader) -> (r: Result<Self, Error>)
        ensures
            ({
                let s = old(conn)@;
                if s.len() < 24 || s.len() < Self::spec_len(s) {
                    r == Err::<Self, Error>(eof_error()) && final(conn)@ == s
                } else {
                    r matches Ok(v) && v.decodes(s) && final(conn)@ == s.subrange(
                        Self::spec_len(s),
                        s.len() as int,
                    )
                }
            }),
    {
        proof {
            lemma_raw_is_view();
        }
        if conn.len() < 24 {
            return Err(Error::eof());
        }
        let ncrtcs = conn.le_u16_ahead(6) as usize;
        if conn.len() - 24 < 4 * ncrtcs {
            return Err(Error::eof());
        }
        let name = AtomId::unchecked_from(conn.le_u32_ahead(0));
        let primary = conn.byte(4) != 0;
        let automatic = conn.byte(5) != 0;
        let x = conn.le_i16_ahead(8);
        let y = conn.le_i16_ahead(10);
        let width_in_pixels = conn.le_u16_ahead(12);
        let height_in_pixels = conn.le_u16_ahead(14);
        let width_in_millimeters = conn.le_u32_ahead(16);
        let height_in_millimeters = conn.le_u32_ahead(20);
        let crtcs = read_ids(conn, 24, ncrtcs);
        conn.advance(24 + 4 * ncrtcs);
        Ok(Self {
            name,
            primary,
            automatic,
            x,
            y,
            width_in_pixels,
            height_in_pixels,
            width_in_millimeters,
            height_in_millimeters,
            crtcs,
        })
    }

    /// The wire encoding; the CRTC count is sent in 16 bits.
    pub fn to_le_bytes(&self) -> (r: Vec<u8>)
        ensures
            r@ == self.spec_to_bytes(),
    {
        proof {
            lemma_raw_is_view();
        }
        let mut out: Vec<u8> = Vec::new();
        push_u32(&mut out, self.name.raw());
        out.push(if self.primary { 1u8 } else { 0u8 });
        out.push(if self.automatic { 1u8 } else { 0u8 });
        push_u16(&mut out, self.crtcs.len() as u16);
        push_i16(&mut out, self.x);
        push_i16(&mut out, self.y);
        push_u16(&mut out, self.width_in_pixels);
        push_u16(&mut out, self.height_in_pixels);
        push_u32(&mut out, self.width_in_millimeters);
        push_u32(&mut out, self.height_in_millimeters);
        let ghost head = out@;
        let ghost raws = spec_raws(self.crtcs@);
        let mut i: usize = 0;
        assert(raws.take(0) =~= Seq::<u32>::empty());
        assert(head + spec_u32s_bytes(raws.take(0)) =~= head);
        while i < self.crtcs.len()
            invariant
                i <= self.crtcs@.len(),
                raws == spec_raws(self.crtcs@),
                out@ == head + spec_u32s_bytes(raws.take(i as int)),
            decreases self.crtcs@.len() - i,
        {
            push_u32(&mut out, self.crtcs[i].raw());
            proof {
                assert(raws.take(i + 1).drop_last() =~= raws.take(i as int));
                assert(raws[i as int] == self.crtcs@[i as int].spec_raw());
            }
            i = i + 1;
        }
        proof {
            assert(raws.take(i as int) =~= raws);
            assert(out@ =~= self.spec_to_bytes());
        }
        out
    }

    /// Decoding the encoding of a monitor, whatever follows it, gives the monitor back and
    /// takes exactly the bytes of the encoding, when its CRTC count fits in 16 bits.
    pub proof fn lemma_encode_decode(self, rest: Seq<u8>)
        requires
            self.crtcs@.len() <= u16::MAX,
        ensures
            self.decodes(self.spec_to_bytes() + rest),
            Self::spec_len(self.spec_to_bytes() + rest) == self.spec_to_bytes().len(),
    {
        let raws = spec_raws(self.crtcs@);
        let head = spec_u32_bytes(self.name@) + seq![
            if self.primary { 1u8 } else { 0u8 },
            if self.automatic { 1u8 } else { 0u8 },
        ] + spec_u16_bytes(self.crtcs@.len() as u16) + spec_i16_bytes(self.x) + spec_i16_bytes(
            self.y,
        ) + spec_u16_bytes(self.width_in_pixels) + spec_u16_bytes(self.height_in_pixels)
            + spec_u32_bytes(self.width_in_millimeters) + spec_u32_bytes(self.height_in_millimeters);
        let b = self.spec_to_bytes() + rest;
        assert(b =~= head + spec_u32s_bytes(raws) + rest);
        lemma_u32_bytes_roundtrip(self.name@);
        lemma_u16_bytes_roundtrip(self.crtcs@.len() as u16);
        lemma_u16_bytes_roundtrip(spec_i16_as_u16(self.x));
        lemma_u16_bytes_roundtrip(spec_i16_as_u16(self.y));
        lemma_i16_pattern_roundtrip(self.x);
        lemma_i16_pattern_roundtrip(self.y);
        lemma_u16_bytes_roundtrip(self.width_in_pixels);
        lemma_u16_bytes_roundtrip(self.height_in_pixels);
        lemma_u32_bytes_roundtrip(self.width_in_millimeters);
        lemma_u32_bytes_roundtrip(self.height_in_millimeters);
        assert(b.subrange(0, 4) =~= spec_u32_bytes(self.name@));
        assert(spec_le_u32(b, 0) == spec_le_u32(b.subrange(0, 4), 0));
        assert(b.subrange(6, 8) =~= spec_u16_bytes(self.crtcs@.len() as u16));
        assert(spec_le_u16(b, 6) == spec_le_u16(b.subrange(6, 8), 0));
        assert(b.subrange(8, 10) =~= spec_i16_bytes(self.x));
        assert(spec_le_u16(b, 8) == spec_le_u16(b.subrange(8, 10), 0));
        assert(b.subrange(10, 12) =~= spec_i16_bytes(self.y));
        assert(spec_le_u16(b, 10) == spec_le_u16(b.subrange(10, 12), 0));
        assert(b.subrange(12, 14) =~= spec_u16_bytes(self.width_in_pixels));
        assert(spec_le_u16(b, 12) == spec_le_u16(b.subrange(12, 14), 0));
        assert(b.subrange(14, 16) =~= spec_u16_bytes(self.height_in_pixels));
        assert(spec_le_u16(b, 14) == spec_le_u16(b.subrange(14, 16), 0));
        assert(b.subrange(16, 20) =~= spec_u32_bytes(self.width_in_millimeters));
        assert(spec_le_u32(b, 16) == spec_le_u32(b.subrange(16, 20), 0));
        assert(b.subrange(20, 24) =~= spec_u32_bytes(self.height_in_millimeters));
        assert(spec_le_u32(b, 20) == spec_le_u32(b.subrange(20, 24), 0));
        lemma_u32s_roundtrip(head, raws, rest);
        lemma_u32s_bytes(raws);
        assert(raws.len() == self.crtcs@.len());
    }
}

} // verus!
