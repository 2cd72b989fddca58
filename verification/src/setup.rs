//! Connection setup: the server's answer to the initial handshake.
use vstd::prelude::*;

use crate::bytes::{pad, push_u16, spec_le_u16, spec_le_u32, spec_pad, spec_u16_bytes, ByteReader};
use crate::ids::{lemma_raw_is_view, VisualId, WindowId, XId};
use crate::error::{eof_error, Error};
use crate::text::{decimal_chars, maybe_utf8, push_decimal, push_maybe_utf8, push_str, string_of_chars};

verus! {

/// The server refused the connection.
#[derive(Debug)]
pub struct InitializeConnectionResponseRefused {
    pub protocol_major_version: u16,
    pub protocol_minor_version: u16,
    pub reason: Vec<u8>,
}

impl InitializeConnectionResponseRefused {
    /// Bytes taken by the refusal whose reason is `n` bytes long (after the status byte).
    pub open spec fn spec_len(n: int) -> int {
        7 + n + spec_pad(n)
    }

    /// Whether the whole refusal lies within `s`.
    pub open spec fn complete(s: Seq<u8>) -> bool {
        s.len() >= 7 && s.len() >= Self::spec_len(s[0] as int)
    }

    /// Whether `self` holds the refusal encoded at the front of `s`.
    pub open spec fn decodes(&self, s: Seq<u8>) -> bool {
        &&& self.protocol_major_version == spec_le_u16(s, 1)
        &&& self.protocol_minor_version == spec_le_u16(s, 3)
        &&& self.reason@ == s.subrange(7, 7 + s[0])
    }

    /// Decodes a refusal; the status byte was already consumed.
    pub fn from_le_bytes(conn: &mut ByteReader) -> (r: Result<Self, Error>)
        ensures
            ({
                let s = old(conn)@;
                if Self::complete(s) {
                    r matches Ok(v) && v.decodes(s) && final(conn)@ == s.subrange(
                        Self::spec_len(s[0] as int),
                        s.len() as int,
                    )
                } else {
                    r matches Err(e) && e == eof_error() && final(conn)@ == s
                }
            }),
    {
        if conn.len() < 7 {
            return Err(Error::eof());
        }
        let reason_length = conn.byte(0) as usize;
        if conn.len() - 7 < reason_length + pad(reason_length) {
            return Err(Error::eof());
        }
        let protocol_major_version = conn.le_u16_ahead(1);
        let protocol_minor_version = conn.le_u16_ahead(3);
        let ghost s = conn@;
        conn.advance(7);
        let reason = conn.take_bytes(reason_length);
        assert(reason@ =~= s.subrange(7, 7 + s[0]));
        conn.advance(pad(reason_length));
        assert(conn@ =~= s.subrange(Self::spec_len(s[0] as int), s.len() as int));
        Ok(Self { protocol_major_version, protocol_minor_version, reason })
    }
}

/// How a visual maps pixel values to colors.
#[derive(Debug, Clone, Copy, PartialEq, Eq, Structural, PartialOrd, Ord, Hash)]
pub enum VisualClass {
    StaticGray,
    GrayScale,
    StaticColor,
    PseudoColor,
    TrueColor,
    DirectColor,
}

impl VisualClass {
    /// The variant encoded by `value`, if any.
    pub open spec fn spec_from_u8(value: u8) -> Option<VisualClass> {
        if value == 0 {
            Some(VisualClass::StaticGray)
        } else if value == 1 {
            Some(VisualClass::GrayScale)
        } else if value == 2 {
            Some(VisualClass::StaticColor)
        } else if value == 3 {
            Some(VisualClass::PseudoColor)
        } else if value == 4 {
            Some(VisualClass::TrueColor)
        } else if value == 5 {
            Some(VisualClass::DirectColor)
        } else {
            None
        }
    }

    /// The variant encoded by `value`, if any.
    pub fn from_u8(value: u8) -> (r: Option<VisualClass>)
        ensures
            r == Self::spec_from_u8(value),
    {
        match value {
            0 => Some(VisualClass::StaticGray),
            1 => Some(VisualClass::GrayScale),
            2 => Some(VisualClass::StaticColor),
            3 => Some(VisualClass::PseudoColor),
            4 => Some(VisualClass::TrueColor),
            5 => Some(VisualClass::DirectColor),
            _ => None,
        }
    }

    /// The wire value of the variant.
    pub open spec fn spec_to_u8(self) -> u8 {
        match self {
            VisualClass::StaticGray => 0,
            VisualClass::GrayScale => 1,
            VisualClass::StaticColor => 2,
            VisualClass::PseudoColor => 3,
            VisualClass::TrueColor => 4,
            VisualClass::DirectColor => 5,
        }
    }

    /// The wire value of the variant.
    pub fn to_u8(self) -> (r: u8)
        ensures
            r == self.spec_to_u8(),
            Self::spec_from_u8(r) == Some(self),
    {
        match self {
            VisualClass::StaticGray => 0,
            VisualClass::GrayScale => 1,
            VisualClass::StaticColor => 2,
            VisualClass::PseudoColor => 3,
            VisualClass::TrueColor => 4,
            VisualClass::DirectColor => 5,
        }
    }
}

/// When a screen keeps the contents of obscured windows.
#[derive(Debug, Clone, Copy, PartialEq, Eq, Structural, PartialOrd, Ord, Hash)]
pub enum BackingStore {
    NotUseful,
    WhenMapped,
    Always,
}

impl BackingStore {
    /// The variant encoded by `value`, if any.
    pub open spec fn spec_from_u8(value: u8) -> Option<BackingStore> {
        if value == 0 {
            Some(BackingStore::NotUseful)
        } else if value == 1 {
            Some(BackingStore::WhenMapped)
        } else if value == 2 {
            Some(BackingStore::Always)
        } else {
            None
        }
    }

    /// The variant encoded by `value`, if any.
    pub fn from_u8(value: u8) -> (r: Option<BackingStore>)
        ensures
            r == Self::spec_from_u8(value),
    {
        match value {
            0 => Some(BackingStore::NotUseful),
            1 => Some(BackingStore::WhenMapped),
            2 => Some(BackingStore::Always),
            _ => None,
        }
    }

    /// The wire value of the variant.
    pub open spec fn spec_to_u8(self) -> u8 {
        match self {
            BackingStore::NotUseful => 0,
            BackingStore::WhenMapped => 1,
            BackingStore::Always => 2,
        }
    }

    /// The wire value of the variant.
    pub fn to_u8(self) -> (r: u8)
        ensures
            r == self.spec_to_u8(),
            Self::spec_from_u8(r) == Some(self),
    {
        match self {
            BackingStore::NotUseful => 0,
            BackingStore::WhenMapped => 1,
            BackingStore::Always => 2,
        }
    }
}

/// Whether `t` is what is left of `s` after some of its front was consumed.
pub open spec fn is_suffix(t: Seq<u8>, s: Seq<u8>) -> bool {
    t.len() <= s.len() && t == s.subrange(s.len() - t.len(), s.len() as int)
}

/// The error decoding the visual at `p` stops at, if any.
pub open spec fn visual_error(s: Seq<u8>, p: int) -> Option<Error> {
    if s.len() < p + 5 {
        Some(eof_error())
    } else if VisualClass::spec_from_u8(s[p + 4]) is None {
        Some(Error::InvalidResponse("VisualClass"))
    } else if s.len() < p + 24 {
        Some(eof_error())
    } else {
        None
    }
}

/// A way a screen can show colors.
#[derive(Debug, Clone)]
pub struct Visual {
    pub id: VisualId,
    pub class: VisualClass,
    pub bits_per_rgb_value: u8,
    pub colormap_entries: u16,
    pub red_mask: u32,
    pub green_mask: u32,
    pub blue_mask: u32,
}

impl Visual {
    /// Whether `self` holds the visual encoded at the front of `s`.
    pub open spec fn decodes(&self, s: Seq<u8>) -> bool {
        &&& self.id@ == spec_le_u32(s, 0)
        &&& VisualClass::spec_from_u8(s[4]) == Some(self.class)
        &&& self.bits_per_rgb_value == s[5]
        &&& self.colormap_entries == spec_le_u16(s, 6)
        &&& self.red_mask == spec_le_u32(s, 8)
        &&& self.green_mask == spec_le_u32(s, 12)
        &&& self.blue_mask == spec_le_u32(s, 16)
    }

    /// Decodes a visual, 24 bytes, from the front of the input.
    pub fn from_le_bytes(conn: &mut ByteReader) -> (r: Result<Self, Error>)
        ensures
            ({
                let s = old(conn)@;
                match visual_error(s, 0) {
                    Some(e) => r == Err::<Self, Error>(e) && final(conn)@ == s,
                    None => r matches Ok(v) && v.decodes(s) && final(conn)@ == s.subrange(
                        24,
                        s.len() as int,
                    ),
                }
            }),
    {
        proof {
            lemma_raw_is_view();
        }
        if conn.len() < 5 {
            return Err(Error::eof());
        }
        let class = match VisualClass::from_u8(conn.byte(4)) {
            Some(c) => c,
            None => return Err(Error::InvalidResponse("VisualClass")),
        };
        if conn.len() < 24 {
            return Err(Error::eof());
        }
        let r = Self {
            id: VisualId::unchecked_from(conn.le_u32_ahead(0)),
            class,
            bits_per_rgb_value: conn.byte(5),
            colormap_entries: conn.le_u16_ahead(6),
            red_mask: conn.le_u32_ahead(8),
            green_mask: conn.le_u32_ahead(12),
            blue_mask: conn.le_u32_ahead(16),
        };
        conn.advance(24);
        Ok(r)
    }
}

/// The error decoding the `count` visuals from `at` on stops at, if any.
pub open spec fn visuals_error(s: Seq<u8>, at: int, count: nat) -> Option<Error>
    decreases count,
{
    if count == 0 {
        None
    } else {
        match visuals_error(s, at, (count - 1) as nat) {
            Some(e) => Some(e),
            None => visual_error(s, at + 24 * (count - 1)),
        }
    }
}

/// Once decoding the visuals fails, decoding more of them fails the same way.
proof fn lemma_visuals_error_stays(s: Seq<u8>, at: int, k: nat, count: nat)
    requires
        k <= count,
        visuals_error(s, at, k) is Some,
    ensures
        visuals_error(s, at, count) == visuals_error(s, at, k),
    decreases count,
{
    if k < count {
        lemma_visuals_error_stays(s, at, k, (count - 1) as nat);
    }
}

/// When the visuals decode without error, so do the first ones.
proof fn lemma_visuals_error_prefix(s: Seq<u8>, at: int, k: nat, count: nat)
    requires
        k <= count,
        visuals_error(s, at, count) is None,
    ensures
        visuals_error(s, at, k) is None,
    decreases count,
{
    if k < count {
        lemma_visuals_error_prefix(s, at, k, (count - 1) as nat);
    }
}

/// Where the depth structure at `p` ends: after its eight-byte header and its visuals.
pub open spec fn depth_end(s: Seq<u8>, p: int) -> int {
    p + 8 + 24 * spec_le_u16(s, p + 2)
}

/// The error decoding the depth structure at `p` stops at, if any.
pub open spec fn depth_error(s: Seq<u8>, p: int) -> Option<Error> {
    if s.len() < p + 8 {
        Some(eof_error())
    } else {
        visuals_error(s, p + 8, spec_le_u16(s, p + 2) as nat)
    }
}

/// A depth a screen supports, with its visuals.
#[derive(Debug, Clone)]
pub struct Depth {
    pub depth: u8,
    pub visuals: Vec<Visual>,
}

impl Depth {
    /// Whether `self` holds the depth encoded at the front of `s`.
    pub open spec fn decodes(&self, s: Seq<u8>) -> bool {
        &&& self.depth == s[0]
        &&& self.visuals@.len() == spec_le_u16(s, 2)
        &&& forall|i: int|
            0 <= i < spec_le_u16(s, 2) ==> (#[trigger] self.visuals@[i]).decodes(
                s.subrange(8 + 24 * i, s.len() as int),
            )
    }

    /// Decodes a depth from the front of the input; on an error, part of the input may have
    /// been consumed.
    pub fn from_le_bytes(conn: &mut ByteReader) -> (r: Result<Self, Error>)
        ensures
            ({
                let s = old(conn)@;
                match depth_error(s, 0) {
                    Some(e) => r == Err::<Self, Error>(e) && is_suffix(final(conn)@, s),
                    None => r matches Ok(v) && v.decodes(s) && final(conn)@ == s.subrange(
                        depth_end(s, 0),
                        s.len() as int,
                    ),
                }
            }),
    {
        let ghost s = conn@;
        if conn.len() < 8 {
            assert(s.subrange(0, s.len() as int) =~= s);
            return Err(Error::eof());
        }
        let depth = conn.byte(0);
        let count = conn.le_u16_ahead(2) as usize;
        conn.advance(8);
        let mut visuals: Vec<Visual> = Vec::new();
        let mut k: usize = 0;
        while k < count
            invariant
                k <= count,
                s == old(conn)@,
                count == spec_le_u16(s, 2),
                s.len() >= 8,
                visuals_error(s, 8, k as nat) is None,
                8 + 24 * k <= s.len(),
                conn@ == s.subrange(8 + 24 * k, s.len() as int),
                visuals@.len() == k,
                forall|j: int|
                    0 <= j < k ==> (#[trigger] visuals@[j]).decodes(
                        s.subrange(8 + 24 * j, s.len() as int),
                    ),
            decreases count - k,
        {
            let ghost kk = k as nat;
            let ghost p = 8 + 24 * k;
            assert(visuals_error(s, 8, kk + 1) == visual_error(s, p));
            assert(forall|i: int| 0 <= i < conn@.len() ==> conn@[i] == s[p + i]);
            assert(visual_error(conn@, 0) == visual_error(s, p));
            let visual = match Visual::from_le_bytes(conn) {
                Ok(v) => v,
                Err(e) => {
                    proof {
                        lemma_visuals_error_stays(s, 8, kk + 1, count as nat);
                        assert(conn@ =~= s.subrange(s.len() - conn@.len(), s.len() as int));
                    }
                    return Err(e);
                },
            };
            proof {
                assert(conn@ =~= s.subrange(8 + 24 * (k + 1), s.len() as int));
            }
            visuals.push(visual);
            k = k + 1;
        }
        Ok(Self { depth, visuals })
    }
}

/// Where the depth structure `i` of those from `at` on starts.
pub open spec fn depth_at(s: Seq<u8>, at: int, i: nat) -> int
    decreases i,
{
    if i == 0 {
        at
    } else {
        depth_end(s, depth_at(s, at, (i - 1) as nat))
    }
}

/// The error decoding the `count` depth structures from `at` on stops at, if any.
pub open spec fn depths_error(s: Seq<u8>, at: int, count: nat) -> Option<Error>
    decreases count,
{
    if count == 0 {
        None
    } else {
        match depths_error(s, at, (count - 1) as nat) {
            Some(e) => Some(e),
            None => depth_error(s, depth_at(s, at, (count - 1) as nat)),
        }
    }
}

/// Once decoding the depths fails, decoding more of them fails the same way.
proof fn lemma_depths_error_stays(s: Seq<u8>, at: int, k: nat, count: nat)
    requires
        k <= count,
        depths_error(s, at, k) is Some,
    ensures
        depths_error(s, at, count) == depths_error(s, at, k),
    decreases count,
{
    if k < count {
        lemma_depths_error_stays(s, at, k, (count - 1) as nat);
    }
}

/// The visuals of a depth structure decode the same from any suffix that starts at it.
proof fn lemma_depth_shift(s: Seq<u8>, p: int)
    requires
        0 <= p <= s.len(),
    ensures
        depth_error(s.subrange(p, s.len() as int), 0) == depth_error(s, p),
        s.len() >= p + 8 ==> depth_end(s.subrange(p, s.len() as int), 0) + p == depth_end(s, p),
{
    let t = s.subrange(p, s.len() as int);
    if s.len() >= p + 8 {
        assert(spec_le_u16(t, 2) == spec_le_u16(s, p + 2));
        lemma_visuals_shift(s, p, 8, spec_le_u16(s, p + 2) as nat);
    }
}

/// The visuals from `p + at` on decode the same from the suffix that starts at `p`.
proof fn lemma_visuals_shift(s: Seq<u8>, p: int, at: int, count: nat)
    requires
        0 <= p <= s.len(),
        0 <= at,
    ensures
        visuals_error(s.subrange(p, s.len() as int), at, count) == visuals_error(s, p + at, count),
    decreases count,
{
    if count > 0 {
        lemma_visuals_shift(s, p, at, (count - 1) as nat);
        let t = s.subrange(p, s.len() as int);
        let q = at + 24 * (count - 1);
        if t.len() >= q + 5 {
            assert(t[q + 4] == s[p + q + 4]);
        }
    }
}

/// The error decoding the screen structure at `p` stops at, if any.
pub open spec fn screen_error(s: Seq<u8>, p: int) -> Option<Error> {
    if s.len() < p + 37 {
        Some(eof_error())
    } else if BackingStore::spec_from_u8(s[p + 36]) is None {
        Some(Error::InvalidResponse("BackingStore"))
    } else if s.len() < p + 40 {
        Some(eof_error())
    } else {
        depths_error(s, p + 40, s[p + 39] as nat)
    }
}

/// Where the screen structure at `p` ends: after its forty-byte header and its depths.
pub open spec fn screen_end(s: Seq<u8>, p: int) -> int {
    depth_at(s, p + 40, s[p + 39] as nat)
}

/// A screen of the display.
#[derive(Debug, Clone)]
pub struct Screen {
    pub root: WindowId,
    pub default_colormat: u32,
    pub white_pixel: u32,
    pub black_pixel: u32,
    pub current_input_masks: u32,
    pub width_in_pixels: u16,
    pub height_in_pixels: u16,
    pub width_in_millimeters: u16,
    pub height_in_millimeters: u16,
    pub min_installed_maps: u16,
    pub max_installed_maps: u16,
    pub root_visual: u32,
    pub backing_stores: BackingStore,
    pub save_unders: bool,
    pub root_depth: u8,
    pub allowed_depths: Vec<Depth>,
}

impl Screen {
    /// Whether `self` holds the screen encoded at the front of `s`.
    pub open spec fn decodes(&self, s: Seq<u8>) -> bool {
        &&& self.root@ == spec_le_u32(s, 0)
        &&& self.default_colormat == spec_le_u32(s, 4)
        &&& self.white_pixel == spec_le_u32(s, 8)
        &&& self.black_pixel == spec_le_u32(s, 12)
        &&& self.current_input_masks == spec_le_u32(s, 16)
        &&& self.width_in_pixels == spec_le_u16(s, 20)
        &&& self.height_in_pixels == spec_le_u16(s, 22)
        &&& self.width_in_millimeters == spec_le_u16(s, 24)
        &&& self.height_in_millimeters == spec_le_u16(s, 26)
        &&& self.min_installed_maps == spec_le_u16(s, 28)
        &&& self.max_installed_maps == spec_le_u16(s, 30)
        &&& self.root_visual == spec_le_u32(s, 32)
        &&& BackingStore::spec_from_u8(s[36]) == Some(self.backing_stores)
        &&& self.save_unders == (s[37] == 1)
        &&& self.root_depth == s[38]
        &&& self.allowed_depths@.len() == s[39]
        &&& forall|i: int|
            0 <= i < s[39] ==> (#[trigger] self.allowed_depths@[i]).decodes(
                s.subrange(depth_at(s, 40, i as nat), s.len() as int),
            )
    }

    /// Decodes a screen from the front of the input; on an error, part of the input may
    /// have been consumed.
    pub fn from_le_bytes(conn: &mut ByteReader) -> (r: Result<Self, Error>)
        ensures
            ({
                let s = old(conn)@;
                match screen_error(s, 0) {
                    Some(e) => r == Err::<Self, Error>(e) && is_suffix(final(conn)@, s),
                    None => r matches Ok(v) && v.decodes(s) && final(conn)@ == s.subrange(
                        screen_end(s, 0),
                        s.len() as int,
                    ),
                }
            }),
    {
        proof {
            lemma_raw_is_view();
        }
        let ghost s = conn@;
        assert(s.subrange(0, s.len() as int) =~= s);
        if conn.len() < 37 {
            return Err(Error::eof());
        }
        let backing_stores = match BackingStore::from_u8(conn.byte(36)) {
            Some(b) => b,
            None => return Err(Error::InvalidResponse("BackingStore")),
        };
        if conn.len() < 40 {
            return Err(Error::eof());
        }
        let root = WindowId::unchecked_from(conn.le_u32_ahead(0));
        let default_colormat = conn.le_u32_ahead(4);
        let white_pixel = conn.le_u32_ahead(8);
        let black_pixel = conn.le_u32_ahead(12);
        let current_input_masks = conn.le_u32_ahead(16);
        let width_in_pixels = conn.le_u16_ahead(20);
        let height_in_pixels = conn.le_u16_ahead(22);
        let width_in_millimeters = conn.le_u16_ahead(24);
        let height_in_millimeters = conn.le_u16_ahead(26);
        let min_installed_maps = conn.le_u16_ahead(28);
        let max_installed_maps = conn.le_u16_ahead(30);
        let root_visual = conn.le_u32_ahead(32);
        let save_unders = conn.byte(37) == 1;
        let root_depth = conn.byte(38);
        let count = conn.byte(39) as usize;
        conn.advance(40);
        let mut allowed_depths: Vec<Depth> = Vec::new();
        let mut k: usize = 0;
        while k < count
            invariant
                k <= count,
                s == old(conn)@,
                s.len() >= 40,
                BackingStore::spec_from_u8(s[36]) == Some(backing_stores),
                count == s[39],
                depths_error(s, 40, k as nat) is None,
                40 <= depth_at(s, 40, k as nat) <= s.len(),
                conn@ == s.subrange(depth_at(s, 40, k as nat), s.len() as int),
                allowed_depths@.len() == k,
                forall|j: int|
                    0 <= j < k ==> (#[trigger] allowed_depths@[j]).decodes(
                        s.subrange(depth_at(s, 40, j as nat), s.len() as int),
                    ),
            decreases count - k,
        {
            let ghost kk = k as nat;
            let ghost p = depth_at(s, 40, kk);
            proof {
                lemma_depth_shift(s, p);
                assert(conn@ =~= s.subrange(p, s.len() as int));
            }
            assert(depths_error(s, 40, kk + 1) == depth_error(s, p));
            let ghost before = conn@;
            let depth = match Depth::from_le_bytes(conn) {
                Ok(v) => v,
                Err(e) => {
                    proof {
                        lemma_depths_error_stays(s, 40, kk + 1, count as nat);
                        let t = conn@;
                        assert(t =~= s.subrange(s.len() - t.len(), s.len() as int)) by {
                            assert(t == before.subrange(before.len() - t.len(), before.len() as int));
                        }
                    }
                    return Err(e);
                },
            };
            proof {
                assert(depth_at(s, 40, kk + 1) == depth_end(s, p));
                assert(conn@ =~= s.subrange(depth_at(s, 40, kk + 1), s.len() as int));
                assert(forall|j: int| 0 <= j < before.len() ==> before[j] == s[p + j]);
                assert(depth.decodes(s.subrange(p, s.len() as int)));
            }
            allowed_depths.push(depth);
            k = k + 1;
        }
        Ok(Self {
            root,
            default_colormat,
            white_pixel,
            black_pixel,
            current_input_masks,
            width_in_pixels,
            height_in_pixels,
            width_in_millimeters,
            height_in_millimeters,
            min_installed_maps,
            max_installed_maps,
            root_visual,
            backing_stores,
            save_unders,
            root_depth,
            allowed_depths,
        })
    }
}

/// A pixmap format the server supports.
#[derive(Debug)]
pub struct Format {
    pub depth: u8,
    pub bits_per_pixel: u8,
    pub scanline_pad: u8,
}

impl Format {
    /// Decodes a format, eight bytes, from the front of the input.
    pub fn from_le_bytes(conn: &mut ByteReader) -> (r: Result<Self, Error>)
        ensures
            ({
                let s = old(conn)@;
                if s.len() < 8 {
                    r == Err::<Self, Error>(eof_error()) && final(conn)@ == s
                } else {
                    r matches Ok(v) && v.depth == s[0] && v.bits_per_pixel == s[1]
                        && v.scanline_pad == s[2] && final(conn)@ == s.subrange(8, s.len() as int)
                }
            }),
    {
        if conn.len() < 8 {
            return Err(Error::eof());
        }
        let r = Format { depth: conn.byte(0), bits_per_pixel: conn.byte(1), scanline_pad: conn.byte(2) };
        conn.advance(8);
        Ok(r)
    }
}

/// The depth structures start one after another, each after the last.
proof fn lemma_depth_at_grows(s: Seq<u8>, at: int, i: nat)
    ensures
        at <= depth_at(s, at, i),
    decreases i,
{
    if i > 0 {
        lemma_depth_at_grows(s, at, (i - 1) as nat);
    }
}

/// When the visuals decode without error, they lie within `s`.
proof fn lemma_visuals_fit(s: Seq<u8>, at: int, count: nat)
    requires
        count > 0,
        visuals_error(s, at, count) is None,
    ensures
        s.len() >= at + 24 * count,
{
    assert(visuals_error(s, at, count) == match visuals_error(s, at, (count - 1) as nat) {
        Some(e) => Some(e),
        None => visual_error(s, at + 24 * (count - 1)),
    });
}

/// When a depth structure decodes without error, it lies within `s`.
proof fn lemma_depth_fits(s: Seq<u8>, p: int)
    requires
        depth_error(s, p) is None,
    ensures
        depth_end(s, p) <= s.len(),
        p + 8 <= s.len(),
{
    if spec_le_u16(s, p + 2) > 0 {
        lemma_visuals_fit(s, p + 8, spec_le_u16(s, p + 2) as nat);
    }
}

/// The depth structures from `p + at` on decode the same, and end at the same place, from
/// the suffix of `s` that starts at `p`.
proof fn lemma_depths_shift(s: Seq<u8>, p: int, at: int, count: nat)
    requires
        0 <= p <= s.len(),
        0 <= at,
        p + at <= s.len(),
    ensures
        depths_error(s.subrange(p, s.len() as int), at, count) == depths_error(s, p + at, count),
        depths_error(s, p + at, count) is None ==> depth_at(s.subrange(p, s.len() as int), at, count)
            + p == depth_at(s, p + at, count) && depth_at(s, p + at, count) <= s.len(),
    decreases count,
{
    let t = s.subrange(p, s.len() as int);
    if count > 0 {
        let c = (count - 1) as nat;
        lemma_depths_shift(s, p, at, c);
        if depths_error(s, p + at, c) is None {
            let q = depth_at(s, p + at, c);
            lemma_depth_at_grows(s, p + at, c);
            lemma_depth_shift(s, q);
            lemma_depth_shift(t, q - p);
            assert(t.subrange(q - p, t.len() as int) =~= s.subrange(q, s.len() as int));
            if depth_error(s, q) is None {
                lemma_depth_fits(s, q);
            }
        }
    }
}

/// The screen structure at `p` decodes the same, and ends at the same place, from the
/// suffix of `s` that starts at `p`.
proof fn lemma_screen_shift(s: Seq<u8>, p: int)
    requires
        0 <= p <= s.len(),
    ensures
        screen_error(s.subrange(p, s.len() as int), 0) == screen_error(s, p),
        screen_error(s, p) is None ==> screen_end(s.subrange(p, s.len() as int), 0) + p
            == screen_end(s, p) && screen_end(s, p) <= s.len(),
{
    let t = s.subrange(p, s.len() as int);
    if s.len() >= p + 40 {
        assert(t[36] == s[p + 36]);
        assert(t[39] == s[p + 39]);
        lemma_depths_shift(s, p, 40, s[p + 39] as nat);
    }
}

/// Where the screen structure `i` of those from `at` on starts.
pub open spec fn screen_at(s: Seq<u8>, at: int, i: nat) -> int
    decreases i,
{
    if i == 0 {
        at
    } else {
        screen_end(s, screen_at(s, at, (i - 1) as nat))
    }
}

/// The error decoding the `count` screen structures from `at` on stops at, if any.
pub open spec fn screens_error(s: Seq<u8>, at: int, count: nat) -> Option<Error>
    decreases count,
{
    if count == 0 {
        None
    } else {
        match screens_error(s, at, (count - 1) as nat) {
            Some(e) => Some(e),
            None => screen_error(s, screen_at(s, at, (count - 1) as nat)),
        }
    }
}

/// Once decoding the screens fails, decoding more of them fails the same way.
proof fn lemma_screens_error_stays(s: Seq<u8>, at: int, k: nat, count: nat)
    requires
        k <= count,
        screens_error(s, at, k) is Some,
    ensures
        screens_error(s, at, count) == screens_error(s, at, k),
    decreases count,
{
    if k < count {
        lemma_screens_error_stays(s, at, k, (count - 1) as nat);
    }
}

/// Where the pixmap formats of a connection setup reply start.
pub open spec fn formats_at(s: Seq<u8>) -> int {
    39 + spec_le_u16(s, 23) + spec_pad(spec_le_u16(s, 23) as int)
}

/// Where the screens of a connection setup reply start.
pub open spec fn screens_at(s: Seq<u8>) -> int {
    formats_at(s) + 8 * s[28]
}

/// The error decoding a connection setup reply stops at, if any.
pub open spec fn success_error(s: Seq<u8>) -> Option<Error> {
    if s.len() < 39 || s.len() < screens_at(s) {
        Some(eof_error())
    } else {
        screens_error(s, screens_at(s), s[27] as nat)
    }
}

/// The server accepted the connection: its parameters and screens.
#[derive(Debug)]
pub struct InitializeConnectionResponseSuccess {
    pub protocol_major_version: u16,
    pub protocol_minor_version: u16,
    pub release_number: u32,
    pub resource_id_base: u32,
    pub resource_id_mask: u32,
    pub motion_buffer_size: u32,
    pub maximum_request_length: u16,
    pub image_byte_order: u8,
    pub bitmap_format_byte_order: u8,
    pub bitmap_format_scanline_unit: u8,
    pub bitmap_format_scanline_pad: u8,
    pub min_keycode: u8,
    pub max_keycode: u8,
    pub vendor: Vec<u8>,
    pub pixmap_formats: Vec<Format>,
    pub screens: Vec<Screen>,
}

impl InitializeConnectionResponseSuccess {
    /// Whether `self` holds the reply encoded at the front of `s`.
    pub open spec fn decodes(&self, s: Seq<u8>) -> bool {
        &&& self.protocol_major_version == spec_le_u16(s, 1)
        &&& self.protocol_minor_version == spec_le_u16(s, 3)
        &&& self.release_number == spec_le_u32(s, 7)
        &&& self.resource_id_base == spec_le_u32(s, 11)
        &&& self.resource_id_mask == spec_le_u32(s, 15)
        &&& self.motion_buffer_size == spec_le_u32(s, 19)
        &&& self.maximum_request_length == spec_le_u16(s, 25)
        &&& self.image_byte_order == s[29]
        &&& self.bitmap_format_byte_order == s[30]
        &&& self.bitmap_format_scanline_unit == s[31]
        &&& self.bitmap_format_scanline_pad == s[32]
        &&& self.min_keycode == s[33]
        &&& self.max_keycode == s[34]
        &&& self.vendor@ == s.subrange(39, 39 + spec_le_u16(s, 23))
        &&& self.pixmap_formats@.len() == s[28]
        &&& forall|i: int|
            0 <= i < s[28] ==> {
                let f = #[trigger] self.pixmap_formats@[i];
                let q = formats_at(s) + 8 * i;
                f.depth == s[q] && f.bits_per_pixel == s[q + 1] && f.scanline_pad == s[q + 2]
            }
        &&& self.screens@.len() == s[27]
        &&& forall|i: int|
            0 <= i < s[27] ==> (#[trigger] self.screens@[i]).decodes(
                s.subrange(screen_at(s, screens_at(s), i as nat), s.len() as int),
            )
    }

    /// Decodes the reply; its status byte was already consumed. On an error, part of the
    /// input may have been consumed.
    pub fn from_le_bytes(conn: &mut ByteReader) -> (r: Result<Self, Error>)
        ensures
            ({
                let s = old(conn)@;
                match success_error(s) {
                    Some(e) => r == Err::<Self, Error>(e) && is_suffix(final(conn)@, s),
                    None => r matches Ok(v) && v.decodes(s) && final(conn)@ == s.subrange(
                        screen_at(s, screens_at(s), s[27] as nat),
                        s.len() as int,
                    ),
                }
            }),
    {
        let ghost s = conn@;
        assert(s.subrange(0, s.len() as int) =~= s);
        let available = conn.len();
        if available < 39 {
            return Err(Error::eof());
        }
        let vendor_length = conn.le_u16_ahead(23) as usize;
        let screens_length = conn.byte(27) as usize;
        let formats_length = conn.byte(28) as usize;
        if available - 39 < vendor_length + pad(vendor_length) {
            return Err(Error::eof());
        }
        let formats_start = 39 + vendor_length + pad(vendor_length);
        if (available - formats_start) / 8 < formats_length {
            return Err(Error::eof());
        }
        let mut pixmap_formats: Vec<Format> = Vec::new();
        let mut i: usize = 0;
        while i < formats_length
            invariant
                i <= formats_length,
                conn@ == s,
                formats_length == s[28],
                formats_start == formats_at(s),
                formats_start + 8 * formats_length <= s.len(),
                pixmap_formats@.len() == i,
                forall|j: int|
                    0 <= j < i ==> {
                        let f = #[trigger] pixmap_formats@[j];
                        let q = formats_at(s) + 8 * j;
                        f.depth == s[q] && f.bits_per_pixel == s[q + 1] && f.scanline_pad == s[q
                            + 2]
                    },
            decreases formats_length - i,
        {
            let q = formats_start + 8 * i;
            pixmap_formats.push(
                Format { depth: conn.byte(q), bits_per_pixel: conn.byte(q + 1), scanline_pad: conn.byte(q + 2) },
            );
            i = i + 1;
        }
        let r_protocol_major_version = conn.le_u16_ahead(1);
        let r_protocol_minor_version = conn.le_u16_ahead(3);
        let release_number = conn.le_u32_ahead(7);
        let resource_id_base = conn.le_u32_ahead(11);
        let resource_id_mask = conn.le_u32_ahead(15);
        let motion_buffer_size = conn.le_u32_ahead(19);
        let maximum_request_length = conn.le_u16_ahead(25);
        let image_byte_order = conn.byte(29);
        let bitmap_format_byte_order = conn.byte(30);
        let bitmap_format_scanline_unit = conn.byte(31);
        let bitmap_format_scanline_pad = conn.byte(32);
        let min_keycode = conn.byte(33);
        let max_keycode = conn.byte(34);
        let vendor = conn.copy_bytes(39, vendor_length);
        let screens_start = formats_start + 8 * formats_length;
        conn.advance(screens_start);
        let mut screens: Vec<Screen> = Vec::new();
        let mut k: usize = 0;
        while k < screens_length
            invariant
                k <= screens_length,
                s == old(conn)@,
                s.len() >= 39,
                screens_length == s[27],
                screens_start == screens_at(s),
                screens_start <= s.len(),
                screens_error(s, screens_start as int, k as nat) is None,
                screens_start <= screen_at(s, screens_start as int, k as nat) <= s.len(),
                conn@ == s.subrange(screen_at(s, screens_start as int, k as nat), s.len() as int),
                screens@.len() == k,
                forall|j: int|
                    0 <= j < k ==> (#[trigger] screens@[j]).decodes(
                        s.subrange(screen_at(s, screens_start as int, j as nat), s.len() as int),
                    ),
            decreases screens_length - k,
        {
            let ghost kk = k as nat;
            let ghost p = screen_at(s, screens_start as int, kk);
            proof {
                lemma_screen_shift(s, p);
            }
            assert(screens_error(s, screens_start as int, kk + 1) == screen_error(s, p));
            let ghost before = conn@;
            let screen = match Screen::from_le_bytes(conn) {
                Ok(v) => v,
                Err(e) => {
                    proof {
                        lemma_screens_error_stays(s, screens_start as int, kk + 1, screens_length as nat);
                        let t = conn@;
                        assert(t =~= s.subrange(s.len() - t.len(), s.len() as int)) by {
                            assert(t == before.subrange(before.len() - t.len(), before.len() as int));
                        }
                    }
                    return Err(e);
                },
            };
            proof {
                assert(screen_error(before, 0) is None);
                assert(screen_at(s, screens_start as int, kk + 1) == screen_end(s, p));
                lemma_depth_at_grows(s, p + 40, s[p + 39] as nat);
                assert(conn@ =~= s.subrange(screen_at(s, screens_start as int, kk + 1), s.len() as int));
            }
            screens.push(screen);
            k = k + 1;
        }
        Ok(Self {
            protocol_major_version: r_protocol_major_version,
            protocol_minor_version: r_protocol_minor_version,
            release_number,
            resource_id_base,
            resource_id_mask,
            motion_buffer_size,
            maximum_request_length,
            image_byte_order,
            bitmap_format_byte_order,
            bitmap_format_scanline_unit,
            bitmap_format_scanline_pad,
            min_keycode,
            max_keycode,
            vendor,
            pixmap_formats,
            screens,
        })
    }
}

/// The server's answer to the connection setup.
#[derive(Debug)]
pub enum InitializeConnectionResponse {
    Refused(InitializeConnectionResponseRefused),
    Success(InitializeConnectionResponseSuccess),
}

impl InitializeConnectionResponse {
    /// Decodes the answer from its status byte on. The status that asks for further
    /// authentication is not supported and must not come.
    pub fn from_le_bytes(conn: &mut ByteReader) -> (r: Result<Self, Error>)
        requires
            old(conn)@.len() >= 1 ==> old(conn)@[0] != 2,
        ensures
            ({
                let s = old(conn)@;
                let t = s.subrange(1, s.len() as int);
                if s.len() < 1 {
                    r == Err::<Self, Error>(eof_error()) && final(conn)@ == s
                } else if s[0] == 0 {
                    if InitializeConnectionResponseRefused::complete(t) {
                        r matches Ok(InitializeConnectionResponse::Refused(v)) && v.decodes(t)
                    } else {
                        r matches Err(e) && e == eof_error()
                    }
                } else if s[0] == 1 {
                    match success_error(t) {
                        Some(e) => r == Err::<Self, Error>(e),
                        None => r matches Ok(InitializeConnectionResponse::Success(v)) && v.decodes(
                            t,
                        ),
                    }
                } else {
                    r == Err::<Self, Error>(Error::InvalidResponse("InitializeConnectionResponse"))
                }
            }),
    {
        let response_code = match conn.read_u8() {
            Ok(code) => code,
            Err(e) => return Err(e),
        };
        if response_code == 0 {
            match InitializeConnectionResponseRefused::from_le_bytes(conn) {
                Ok(v) => Ok(InitializeConnectionResponse::Refused(v)),
                Err(e) => Err(e),
            }
        } else if response_code == 1 {
            match InitializeConnectionResponseSuccess::from_le_bytes(conn) {
                Ok(v) => Ok(InitializeConnectionResponse::Success(v)),
                Err(e) => Err(e),
            }
        } else {
            Err(Error::InvalidResponse("InitializeConnectionResponse"))
        }
    }
}

/// `n` zero bytes.
pub open spec fn zeros(n: int) -> Seq<u8> {
    Seq::new(n as nat, |i: int| 0u8)
}

/// The request that opens a connection: little-endian byte order, protocol version 11.0,
/// then the name and data of the authorization protocol, each padded to four bytes.
pub open spec fn spec_initialize_connection(name: Seq<u8>, data: Seq<u8>) -> Seq<u8> {
    seq![0x6cu8, 0] + spec_u16_bytes(11) + spec_u16_bytes(0) + spec_u16_bytes(name.len() as u16)
        + spec_u16_bytes(data.len() as u16) + seq![0u8, 0] + name + zeros(spec_pad(name.len() as int))
        + data + zeros(spec_pad(data.len() as int))
}

fn push_padded(out: &mut Vec<u8>, bytes: &[u8])
    ensures
        final(out)@ == old(out)@ + bytes@ + zeros(spec_pad(bytes@.len() as int)),
{
    let ghost start = out@;
    let mut i: usize = 0;
    while i < bytes.len()
        invariant
            i <= bytes@.len(),
            out@ == start + bytes@.subrange(0, i as int),
        decreases bytes@.len() - i,
    {
        out.push(bytes[i]);
        i = i + 1;
        assert(out@ =~= start + bytes@.subrange(0, i as int));
    }
    let p = pad(bytes.len());
    let mut k: usize = 0;
    assert(bytes@.subrange(0, bytes@.len() as int) =~= bytes@);
    while k < p
        invariant
            k <= p,
            p < 4,
            out@ == start + bytes@ + zeros(k as int),
        decreases p - k,
    {
        out.push(0);
        k = k + 1;
        assert(out@ =~= start + bytes@ + zeros(k as int));
    }
}

/// The bytes of the request that opens a connection, with the authorization protocol `name`
/// and its `data`.
pub fn initialize_connection_request(name: &[u8], data: &[u8]) -> (r: Vec<u8>)
    requires
        name@.len() <= u16::MAX,
        data@.len() <= u16::MAX,
    ensures
        r@ == spec_initialize_connection(name@, data@),
{
    let mut out: Vec<u8> = Vec::new();
    out.push(0x6c);
    out.push(0);
    push_u16(&mut out, 11);
    push_u16(&mut out, 0);
    push_u16(&mut out, name.len() as u16);
    push_u16(&mut out, data.len() as u16);
    out.push(0);
    out.push(0);
    push_padded(&mut out, name);
    push_padded(&mut out, data);
    assert(out@ =~= spec_initialize_connection(name@, data@));
    out
}

/// How a refusal reads: the protocol version the server speaks and its reason.
pub open spec fn refusal_text(r: InitializeConnectionResponseRefused) -> Seq<char> {
    "Initialize Connection Response Refused: Protocol: "@ + decimal_chars(
        r.protocol_major_version as nat,
    ) + "."@ + decimal_chars(r.protocol_minor_version as nat) + ". Reason: "@ + maybe_utf8(
        r.reason@,
    )
}

impl InitializeConnectionResponseRefused {
    /// The refusal as it is shown to the user.
    pub fn to_string(&self) -> (r: String)
        ensures
            r@ == refusal_text(*self),
    {
        let mut out: Vec<char> = Vec::new();
        push_str(&mut out, "Initialize Connection Response Refused: Protocol: ");
        push_decimal(&mut out, self.protocol_major_version as u64);
        push_str(&mut out, ".");
        push_decimal(&mut out, self.protocol_minor_version as u64);
        push_str(&mut out, ". Reason: ");
        push_maybe_utf8(&mut out, self.reason.as_slice());
        string_of_chars(&out)
    }
}

} // verus!
