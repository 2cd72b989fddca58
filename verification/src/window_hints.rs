//! Window manager hints (the `WM_HINTS` property), shared memory segment identifiers, and
//! images in the portable pixmap format.
use vstd::prelude::*;

use crate::bytes::{le_u32_at, spec_le_u32};
use crate::canvas::Vector2;
use crate::ids::{OrNone, PixmapId, ResourceId, WindowId, XId};
use crate::replies::GetProperty;

verus! {

/// The atom of the `WM_HINTS` property and of its type.
pub const WM_HINTS_ATOM: u32 = 35;

/// Which of the window manager hints are given.
#[derive(Debug, Clone, Copy, PartialEq, Eq, Structural, PartialOrd, Ord, Hash)]
pub struct WindowManagerHintsFlags {
    pub value: u32,
}

impl WindowManagerHintsFlags {
    pub const EMPTY_MASK: u32 = 0;
    /// User specified x, y
    pub const USER_SPECIFIED_POSITION: u32 = 0x001;
    /// User specified width, height
    pub const USER_SPECIFIED_SIZE: u32 = 0x002;
    /// Program specified position
    pub const PROGRAM_SPECIFIED_POSITION: u32 = 0x004;
    /// Program specified size
    pub const PROGRAM_SPECIFIED_SIZE: u32 = 0x008;
    /// Program specified minimum size
    pub const PROGRAM_SPECIFIED_MINSIZE: u32 = 0x010;
    /// Program specified maximum size
    pub const PROGRAM_SPECIFIED_MAXSIZE: u32 = 0x020;
    /// Program specified resize increments
    pub const PROGRAM_SPECIFIED_RESIZE_INCREMENTS: u32 = 0x040;
    /// Program specified min and max aspect ratios
    pub const PROGRAM_SPECIFIED_ASPECT: u32 = 0x080;
    /// Program specified base for incrementing
    pub const PROGRAM_SPECIFIED_BASESIZE: u32 = 0x100;
    /// Program specified window gravity
    pub const PROGRAM_SPECIFIED_WINDOW_GRAVITY: u32 = 0x200;

    /// Whether every flag of `flag` is set.
    pub fn has(self, flag: u32) -> (b: bool)
        ensures
            b == (self.value & flag == flag),
    {
        (self.value & flag) == flag
    }
}

/// The hints a client gives the window manager about a window.
#[derive(Debug, Clone, Copy)]
pub struct WindowManagerHints {
    pub flags: WindowManagerHintsFlags,
    pub input: bool,
    pub initial_state: i32,
    pub icon_pixmap: OrNone<PixmapId>,
    pub icon_window: OrNone<WindowId>,
    pub icon_x: i32,
    pub icon_y: i32,
    pub icon_mask: OrNone<ResourceId>,
    pub window_group: u32,
}

/// Whether the property reply holds window manager hints: of the `WM_HINTS` type, nine
/// 32-bit words, the second of which (the input hint) is 0 or 1.
pub open spec fn is_hints_reply(reply: GetProperty) -> bool {
    &&& reply.type_@ == WM_HINTS_ATOM
    &&& reply.length_of_value == 9
    &&& reply.value@.len() == 36
    &&& spec_le_u32(reply.value@, 4) <= 1
}

impl WindowManagerHints {
    /// The hints, each word of `raw` taken in order; words are little-endian.
    pub open spec fn decodes(self, raw: Seq<u8>) -> bool {
        &&& self.flags.value == spec_le_u32(raw, 0)
        &&& self.input == (spec_le_u32(raw, 4) == 1)
        &&& self.initial_state == spec_le_u32(raw, 8) as i32
        &&& self.icon_pixmap.spec_raw() == spec_le_u32(raw, 12)
        &&& self.icon_window.spec_raw() == spec_le_u32(raw, 16)
        &&& self.icon_x == spec_le_u32(raw, 20) as i32
        &&& self.icon_y == spec_le_u32(raw, 24) as i32
        &&& self.icon_mask.spec_raw() == spec_le_u32(raw, 28)
        &&& self.window_group == spec_le_u32(raw, 32)
    }

    /// The hints that a `GetProperty` reply for `WM_HINTS` holds.
    pub fn from_property_reply(reply: &GetProperty) -> (r: Self)
        requires
            is_hints_reply(*reply),
        ensures
            r.decodes(reply.value@),
    {
        let raw = reply.value.as_slice();
        let word = |i: usize| -> (w: u32)
            requires
                i + 4 <= raw@.len(),
            ensures
                w == spec_le_u32(raw@, i as int),
        { le_u32_at(raw, i) };
        WindowManagerHints {
            flags: WindowManagerHintsFlags { value: word(0) },
            input: word(4) == 1,
            initial_state: word(8) as i32,
            icon_pixmap: OrNone::new(PixmapId::unchecked_from(word(12))),
            icon_window: OrNone::new(WindowId::unchecked_from(word(16))),
            icon_x: word(20) as i32,
            icon_y: word(24) as i32,
            icon_mask: OrNone::new(ResourceId::unchecked_from(word(28))),
            window_group: word(32),
        }
    }
}

/// The identifier of a System V shared memory segment.
#[derive(Debug, Clone, Copy, PartialEq, Eq, Structural, PartialOrd, Ord, Hash)]
pub struct SharedMemoryId(i32);

impl SharedMemoryId {
    /// The segment identified by `id`.
    pub fn from_raw(id: i32) -> (r: Self)
        ensures
            r.inner_spec() == id,
    {
        SharedMemoryId(id)
    }

    /// The raw identifier.
    pub closed spec fn inner_spec(self) -> i32 {
        self.0
    }

    /// The raw identifier.
    pub fn inner(self) -> (r: i32)
        ensures
            r == self.inner_spec(),
    {
        self.0
    }
}

/// The decimal digits of `n`, most significant first, in ASCII.
pub open spec fn decimal(n: nat) -> Seq<u8>
    decreases n,
{
    if n < 10 {
        seq![(48 + n) as u8]
    } else {
        decimal(n / 10).push((48 + n % 10) as u8)
    }
}

fn push_decimal(out: &mut Vec<u8>, n: u32)
    ensures
        final(out)@ == old(out)@ + decimal(n as nat),
    decreases n,
{
    if n >= 10 {
        push_decimal(out, n / 10);
    }
    let digit = (48 + n % 10) as u8;
    out.push(digit);
    proof {
        if n >= 10 {
            assert(old(out)@ + decimal(n as nat) =~= old(out)@ + decimal((n / 10) as nat) + seq![digit]);
        } else {
            assert(old(out)@ + decimal(n as nat) =~= old(out)@ + seq![digit]);
        }
    }
}

/// The header of a binary portable pixmap of `w` by `h` pixels with 255 levels per channel.
pub open spec fn ppm_header(w: u32, h: u32) -> Seq<u8> {
    seq![80u8, 54, 10] + decimal(w as nat) + seq![32u8] + decimal(h as nat) + seq![10u8, 50, 53, 53, 10]
}

/// The red, green and blue bytes of the pixels of an image of 4-byte pixels stored blue,
/// green, red, alpha, row after row.
pub open spec fn ppm_pixels(img: Seq<u8>, w: u32, h: u32) -> Seq<u8> {
    Seq::new((w * h * 3) as nat, |i: int| img[(i / 3) * 4 + (2 - i % 3)])
}

/// The image `img` of `size` (4-byte pixels stored blue, green, red, alpha) as a binary
/// portable pixmap.
pub fn to_ppm(img: &[u8], size: Vector2<u32>) -> (r: Vec<u8>)
    requires
        size.x * size.y * 4 <= img@.len(),
    ensures
        r@ == ppm_header(size.x, size.y) + ppm_pixels(img@, size.x, size.y),
{
    // Asking for the length bounds it by `usize::MAX` in the proof.
    let _len = img.len();
    let mut out: Vec<u8> = Vec::new();
    out.push(80);
    out.push(54);
    out.push(10);
    push_decimal(&mut out, size.x);
    out.push(32);
    push_decimal(&mut out, size.y);
    out.push(10);
    out.push(50);
    out.push(53);
    out.push(53);
    out.push(10);
    let ghost header = out@;
    assert(header =~= ppm_header(size.x, size.y));
    let w = size.x as usize;
    let h = size.y as usize;
    let ghost px = ppm_pixels(img@, size.x, size.y);
    let mut y: usize = 0;
    while y < h
        invariant
            y <= h,
            w == size.x,
            h == size.y,
            size.x * size.y * 4 <= img@.len() <= usize::MAX,
            px == ppm_pixels(img@, size.x, size.y),
            out@ == header + px.take(y * w * 3),
        decreases h - y,
    {
        let mut x: usize = 0;
        while x < w
            invariant
                x <= w,
                y < h,
                w == size.x,
                h == size.y,
                size.x * size.y * 4 <= img@.len() <= usize::MAX,
                px == ppm_pixels(img@, size.x, size.y),
                out@ == header + px.take((y * w + x) * 3),
            decreases w - x,
        {
            proof {
                assert((y * w + x) < w * h) by (nonlinear_arith)
                    requires
                        x < w,
                        y < h,
                ;
                assert((y * w + x) * 4 + 3 < w * h * 4) by (nonlinear_arith)
                    requires
                        y * w + x < w * h,
                ;
            }
            let i = (y * w + x) * 4;
            out.push(img[i + 2]);
            out.push(img[i + 1]);
            out.push(img[i]);
            proof {
                let k = (y * w + x) * 3;
                assert(k + 3 <= w * h * 3) by (nonlinear_arith)
                    requires
                        y * w + x < w * h,
                        k == (y * w + x) * 3,
                ;
                assert(px[k] == img@[i as int + 2]);
                assert(px[k + 1] == img@[i as int + 1]);
                assert(px[k + 2] == img@[i as int]);
                assert(px.take(k + 3) =~= px.take(k).push(px[k]).push(px[k + 1]).push(px[k + 2]));
                assert(((y * w + (x + 1)) * 3) == k + 3) by (nonlinear_arith)
                    requires
                        k == (y * w + x) * 3,
                ;
            }
            x = x + 1;
        }
        proof {
            assert(((y + 1) * w * 3) == (y * w + w) * 3) by (nonlinear_arith);
        }
        y = y + 1;
    }
    proof {
        assert(px.take((h * w * 3) as int) =~= px) by {
            assert(h * w * 3 == w * h * 3) by (nonlinear_arith);
        }
    }
    out
}

} // verus!
