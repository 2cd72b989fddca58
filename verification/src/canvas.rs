//! A pixel canvas: vectors, colours, pointer state and a bitmap drawing surface.
//!
//! Pixels are stored row by row, four bytes each, in the order blue, green, red, alpha.
use vstd::prelude::*;

use crate::error::Error;
use vstd::arithmetic::div_mod::{lemma_fundamental_div_mod, lemma_fundamental_div_mod_converse};

verus! {

/// Bytes that one pixel takes in a canvas buffer.
pub const BYTES_PER_PIXEL: u32 = 4;

/// Why a bitmap that borrows its buffer refused an operation.
#[derive(Debug, Clone, Copy, PartialEq, Eq, Structural)]
pub enum SharedBitmapError {
    /// A borrowed buffer cannot change its size.
    TriedToResize,
}

/// Failures of a canvas.
#[derive(Debug)]
pub enum CanvasError {
    X11ProtocolError(Error),
    SharedBitmapError(SharedBitmapError),
}

/// A pair of coordinates or a size.
#[derive(Debug, Clone, Copy)]
pub struct Vector2<T> {
    pub x: T,
    pub y: T,
}

impl core::ops::Add for Vector2<i32> {
    type Output = Vector2<i32>;

    /// The coordinate-wise sum.
    fn add(self, rhs: Self) -> (r: Self::Output) {
        Vector2 { x: self.x + rhs.x, y: self.y + rhs.y }
    }
}

impl vstd::std_specs::ops::AddSpecImpl for Vector2<i32> {
    open spec fn obeys_add_spec() -> bool {
        true
    }

    open spec fn add_req(self, rhs: Self) -> bool {
        &&& i32::MIN <= self.x + rhs.x <= i32::MAX
        &&& i32::MIN <= self.y + rhs.y <= i32::MAX
    }

    open spec fn add_spec(self, rhs: Self) -> Self {
        Vector2 { x: (self.x + rhs.x) as i32, y: (self.y + rhs.y) as i32 }
    }
}

impl core::ops::Sub for Vector2<i32> {
    type Output = Vector2<i32>;

    /// The coordinate-wise difference.
    fn sub(self, rhs: Self) -> (r: Self::Output) {
        Vector2 { x: self.x - rhs.x, y: self.y - rhs.y }
    }
}

impl vstd::std_specs::ops::SubSpecImpl for Vector2<i32> {
    open spec fn obeys_sub_spec() -> bool {
        true
    }

    open spec fn sub_req(self, rhs: Self) -> bool {
        &&& i32::MIN <= self.x - rhs.x <= i32::MAX
        &&& i32::MIN <= self.y - rhs.y <= i32::MAX
    }

    open spec fn sub_spec(self, rhs: Self) -> Self {
        Vector2 { x: (self.x - rhs.x) as i32, y: (self.y - rhs.y) as i32 }
    }
}

impl core::ops::Add for Vector2<u32> {
    type Output = Vector2<u32>;

    /// The coordinate-wise sum.
    fn add(self, rhs: Self) -> (r: Self::Output) {
        Vector2 { x: self.x + rhs.x, y: self.y + rhs.y }
    }
}

impl vstd::std_specs::ops::AddSpecImpl for Vector2<u32> {
    open spec fn obeys_add_spec() -> bool {
        true
    }

    open spec fn add_req(self, rhs: Self) -> bool {
        &&& self.x + rhs.x <= u32::MAX
        &&& self.y + rhs.y <= u32::MAX
    }

    open spec fn add_spec(self, rhs: Self) -> Self {
        Vector2 { x: (self.x + rhs.x) as u32, y: (self.y + rhs.y) as u32 }
    }
}

impl core::ops::Sub for Vector2<u32> {
    type Output = Vector2<u32>;

    /// The coordinate-wise difference.
    fn sub(self, rhs: Self) -> (r: Self::Output) {
        Vector2 { x: self.x - rhs.x, y: self.y - rhs.y }
    }
}

impl vstd::std_specs::ops::SubSpecImpl for Vector2<u32> {
    open spec fn obeys_sub_spec() -> bool {
        true
    }

    open spec fn sub_req(self, rhs: Self) -> bool {
        &&& self.x >= rhs.x
        &&& self.y >= rhs.y
    }

    open spec fn sub_spec(self, rhs: Self) -> Self {
        Vector2 { x: (self.x - rhs.x) as u32, y: (self.y - rhs.y) as u32 }
    }
}

/// `value` limited to `lower..=upper`.
pub open spec fn clamp_int(value: int, lower: int, upper: int) -> int {
    if value < lower {
        lower
    } else if value > upper {
        upper
    } else {
        value
    }
}

impl Vector2<i32> {
    /// Both coordinates limited to the box spanned by the two bounds.
    pub fn clamp(self, lower_bound: Self, upper_bound: Self) -> (r: Self)
        requires
            lower_bound.x <= upper_bound.x,
            lower_bound.y <= upper_bound.y,
        ensures
            r.x == clamp_int(self.x as int, lower_bound.x as int, upper_bound.x as int),
            r.y == clamp_int(self.y as int, lower_bound.y as int, upper_bound.y as int),
    {
        let x = if self.x < lower_bound.x {
            lower_bound.x
        } else if self.x > upper_bound.x {
            upper_bound.x
        } else {
            self.x
        };
        let y = if self.y < lower_bound.y {
            lower_bound.y
        } else if self.y > upper_bound.y {
            upper_bound.y
        } else {
            self.y
        };
        Vector2 { x, y }
    }

    /// The coordinates reinterpreted as unsigned (two's complement).
    pub fn as_u32(self) -> (r: Vector2<u32>)
        ensures
            r.x == self.x as u32,
            r.y == self.y as u32,
    {
        Vector2 { x: self.x as u32, y: self.y as u32 }
    }

    /// The origin.
    pub fn zero() -> (r: Self)
        ensures
            r.x == 0,
            r.y == 0,
    {
        Vector2 { x: 0, y: 0 }
    }

    /// Negative coordinates replaced by zero.
    pub fn clamp_non_negative(self) -> (r: Self)
        ensures
            r.x == (if self.x < 0 { 0 } else { self.x }),
            r.y == (if self.y < 0 { 0 } else { self.y }),
    {
        let x = if self.x < 0 {
            0
        } else {
            self.x
        };
        let y = if self.y < 0 {
            0
        } else {
            self.y
        };
        Vector2 { x, y }
    }
}

impl Vector2<u32> {
    /// Both coordinates limited to the box spanned by the two bounds.
    pub fn clamp(self, lower_bound: Self, upper_bound: Self) -> (r: Self)
        requires
            lower_bound.x <= upper_bound.x,
            lower_bound.y <= upper_bound.y,
        ensures
            r.x == clamp_int(self.x as int, lower_bound.x as int, upper_bound.x as int),
            r.y == clamp_int(self.y as int, lower_bound.y as int, upper_bound.y as int),
    {
        let x = if self.x < lower_bound.x {
            lower_bound.x
        } else if self.x > upper_bound.x {
            upper_bound.x
        } else {
            self.x
        };
        let y = if self.y < lower_bound.y {
            lower_bound.y
        } else if self.y > upper_bound.y {
            upper_bound.y
        } else {
            self.y
        };
        Vector2 { x, y }
    }

    /// The coordinates reinterpreted as signed (two's complement).
    pub fn as_i32(self) -> (r: Vector2<i32>)
        ensures
            r.x == self.x as i32,
            r.y == self.y as i32,
    {
        Vector2 { x: self.x as i32, y: self.y as i32 }
    }

    /// The origin.
    pub fn zero() -> (r: Self)
        ensures
            r.x == 0,
            r.y == 0,
    {
        Vector2 { x: 0, y: 0 }
    }
}

/// A colour with alpha.
#[derive(Debug, Clone, Copy)]
pub struct Color {
    pub a: u8,
    pub r: u8,
    pub g: u8,
    pub b: u8,
}

/// One channel of `over` laid on `under` with opacity `alpha` out of 255.
pub open spec fn blend_channel(under: u8, over: u8, alpha: u8) -> u8 {
    let mixed = (under * (255 - alpha) + over * alpha) / 255;
    (if mixed < 255 {
        mixed
    } else {
        255
    }) as u8
}

fn blend_channel_exec(under: u8, over: u8, alpha: u8) -> (r: u8)
    ensures
        r == blend_channel(under, over, alpha),
{
    assert(under as u32 * (255 - alpha as u32) <= 255 * 255) by (nonlinear_arith)
        requires
            under <= 255,
            alpha <= 255,
    ;
    assert(over as u32 * alpha as u32 <= 255 * 255) by (nonlinear_arith)
        requires
            over <= 255,
            alpha <= 255,
    ;
    let mixed: u32 = (under as u32 * (255 - alpha as u32) + over as u32 * alpha as u32) / 255;
    if mixed < 255 {
        mixed as u8
    } else {
        255
    }
}

impl Color {
    /// The colour with the given alpha, red, green and blue.
    pub fn from_components(a: u8, r: u8, g: u8, b: u8) -> (c: Self)
        ensures
            c.a == a,
            c.r == r,
            c.g == g,
            c.b == b,
    {
        Self { a, r, g, b }
    }

    /// The colour written as `0xAARRGGBB`.
    pub fn from_raw(raw: u32) -> (c: Self)
        ensures
            c.a == raw / 0x100_0000,
            c.r == (raw / 0x1_0000) % 0x100,
            c.g == (raw / 0x100) % 0x100,
            c.b == raw % 0x100,
    {
        let a = (raw >> 24) as u8;
        let r = ((raw >> 16) & 0xff) as u8;
        let g = ((raw >> 8) & 0xff) as u8;
        let b = (raw & 0xff) as u8;
        assert((raw >> 24) as u8 == raw / 0x100_0000) by (bit_vector);
        assert(((raw >> 16) & 0xff) as u8 == (raw / 0x1_0000) % 0x100) by (bit_vector);
        assert(((raw >> 8) & 0xff) as u8 == (raw / 0x100) % 0x100) by (bit_vector);
        assert((raw & 0xff) as u8 == raw % 0x100) by (bit_vector);
        Self { a, r, g, b }
    }

    /// `c2` laid over `c1` with the opacity of `c2`; the result keeps the alpha of `c1`.
    pub fn blend(c1: Self, c2: Self) -> (c: Self)
        ensures
            c.r == blend_channel(c1.r, c2.r, c2.a),
            c.g == blend_channel(c1.g, c2.g, c2.a),
            c.b == blend_channel(c1.b, c2.b, c2.a),
            c.a == c1.a,
    {
        let r = blend_channel_exec(c1.r, c2.r, c2.a);
        let g = blend_channel_exec(c1.g, c2.g, c2.a);
        let b = blend_channel_exec(c1.b, c2.b, c2.a);
        Self { r, g, b, a: c1.a }
    }
}

/// Byte `channel` (0 blue, 1 green, 2 red, 3 alpha) of a colour as stored in a buffer.
pub open spec fn color_byte(color: Color, channel: int) -> u8 {
    if channel == 0 {
        color.b
    } else if channel == 1 {
        color.g
    } else if channel == 2 {
        color.r
    } else {
        color.a
    }
}

/// A button of a pointing device.
#[derive(Debug, Clone, Copy, PartialEq, Eq, Structural, PartialOrd, Ord)]
pub enum PointerButton {
    Left,
    Middle,
    Right,
    ScrollUp,
    ScrollDown,
}

impl PointerButton {
    /// The position of the button in a button mask.
    pub open spec fn spec_code(self) -> int {
        match self {
            PointerButton::Left => 0,
            PointerButton::Middle => 1,
            PointerButton::Right => 2,
            PointerButton::ScrollUp => 3,
            PointerButton::ScrollDown => 4,
        }
    }

    fn code(self) -> (r: usize)
        ensures
            r == self.spec_code(),
    {
        match self {
            PointerButton::Left => 0,
            PointerButton::Middle => 1,
            PointerButton::Right => 2,
            PointerButton::ScrollUp => 3,
            PointerButton::ScrollDown => 4,
        }
    }
}

/// The pressed flags after setting each button of `ops` pressed (`true`) or released
/// (`false`), in order, from `flags`.
pub open spec fn flags_after(flags: Seq<bool>, ops: Seq<(PointerButton, bool)>) -> Seq<bool>
    decreases ops.len(),
{
    if ops.len() == 0 {
        flags
    } else {
        flags_after(flags, ops.drop_last()).update(ops.last().0.spec_code(), ops.last().1)
    }
}

/// Whether the last of `ops` that names button `b` presses it; `false` where none names it.
pub open spec fn last_pressed(ops: Seq<(PointerButton, bool)>, b: PointerButton) -> bool
    decreases ops.len(),
{
    if ops.len() == 0 {
        false
    } else if ops.last().0 == b {
        ops.last().1
    } else {
        last_pressed(ops.drop_last(), b)
    }
}

/// From a mask with no button pressed, a button is pressed exactly when the last press or
/// release that names it was a press; presses and releases of other buttons do not change it.
pub proof fn lemma_mask_follows_last_call(ops: Seq<(PointerButton, bool)>, b: PointerButton)
    ensures
        flags_after(Seq::new(256, |k: int| false), ops)[b.spec_code()] == last_pressed(ops, b),
    decreases ops.len(),
{
    if ops.len() > 0 {
        lemma_mask_follows_last_call(ops.drop_last(), b);
        let before = flags_after(Seq::new(256, |k: int| false), ops.drop_last());
        lemma_flags_len(Seq::new(256, |k: int| false), ops.drop_last());
        assert(ops.last().0 != b ==> ops.last().0.spec_code() != b.spec_code());
    }
}

/// Setting flags keeps their number.
proof fn lemma_flags_len(flags: Seq<bool>, ops: Seq<(PointerButton, bool)>)
    requires
        flags.len() == 256,
    ensures
        flags_after(flags, ops).len() == flags.len(),
    decreases ops.len(),
{
    if ops.len() > 0 {
        lemma_flags_len(flags, ops.drop_last());
    }
}


proof fn lemma_bit_set(byte: u8, i: u8, j: u8)
    requires
        i < 8,
        j < 8,
    ensures
        ((byte | (1u8 << i)) >> j) & 1 == 1 <==> (i == j || (byte >> j) & 1 == 1),
{
    assert(((byte | (1u8 << i)) >> j) & 1 == 1 <==> (i == j || (byte >> j) & 1 == 1))
        by (bit_vector)
        requires
            i < 8,
            j < 8,
    ;
}

proof fn lemma_bit_clear(byte: u8, i: u8, j: u8)
    requires
        i < 8,
        j < 8,
    ensures
        ((byte & !(1u8 << i)) >> j) & 1 == 1 <==> (i != j && (byte >> j) & 1 == 1),
{
    assert(((byte & !(1u8 << i)) >> j) & 1 == 1 <==> (i != j && (byte >> j) & 1 == 1))
        by (bit_vector)
        requires
            i < 8,
            j < 8,
    ;
}

proof fn lemma_bit_get(byte: u8, i: u8)
    requires
        i < 8,
    ensures
        (byte & (1u8 << i) != 0) <==> ((byte >> i) & 1 == 1),
{
    assert((byte & (1u8 << i) != 0) <==> ((byte >> i) & 1 == 1)) by (bit_vector)
        requires
            i < 8,
    ;
}

/// A fixed set of `SIZE * 8` flags.
#[derive(Debug)]
struct BitArray<const SIZE: usize> {
    array: [u8; SIZE],
}

impl<const SIZE: usize> BitArray<SIZE> {
    spec fn bit(self, key: int) -> bool {
        (self.array@[key / 8] >> ((key % 8) as u8)) & 1 == 1
    }

    spec fn bits(self) -> Seq<bool> {
        Seq::new((SIZE * 8) as nat, |k: int| self.bit(k))
    }

    fn new(array: [u8; SIZE]) -> (r: Self)
        ensures
            r.array == array,
    {
        Self { array }
    }

    fn zeroed() -> (r: Self)
        ensures
            r.bits() == Seq::new((SIZE * 8) as nat, |k: int| false),
    {
        let r = Self::new([0u8; SIZE]);
        proof {
            assert forall|k: int| 0 <= k < SIZE * 8 implies !#[trigger] r.bit(k) by {
                let byte = r.array@[k / 8];
                let j = (k % 8) as u8;
                assert(byte == 0);
                assert((0u8 >> j) & 1 == 0) by (bit_vector);
            }
            assert(r.bits() =~= Seq::new((SIZE * 8) as nat, |k: int| false));
        }
        r
    }

    fn set(&mut self, key: usize)
        requires
            key < SIZE * 8,
        ensures
            final(self).bits() == old(self).bits().update(key as int, true),
    {
        let i = key / 8;
        let b = (key % 8) as u8;
        let old_byte = self.array[i];
        self.array[i] = old_byte | (1u8 << b);
        proof {
            assert forall|k: int| 0 <= k < SIZE * 8 implies #[trigger] self.bit(k) == (k == key
                || old(self).bit(k)) by {
                if k / 8 == i as int {
                    let j = (k % 8) as u8;
                    lemma_bit_set(old_byte, b, j);
                    assert((k == key) == (b == j));
                }
            }
            assert(self.bits() =~= old(self).bits().update(key as int, true));
        }
    }

    fn clear(&mut self, key: usize)
        requires
            key < SIZE * 8,
        ensures
            final(self).bits() == old(self).bits().update(key as int, false),
    {
        let i = key / 8;
        let b = (key % 8) as u8;
        let old_byte = self.array[i];
        self.array[i] = old_byte & !(1u8 << b);
        proof {
            assert forall|k: int| 0 <= k < SIZE * 8 implies #[trigger] self.bit(k) == (k != key
                && old(self).bit(k)) by {
                if k / 8 == i as int {
                    let j = (k % 8) as u8;
                    lemma_bit_clear(old_byte, b, j);
                    assert((k == key) == (b == j));
                }
            }
            assert(self.bits() =~= old(self).bits().update(key as int, false));
        }
    }

    fn get(&self, key: usize) -> (r: bool)
        requires
            key < SIZE * 8,
        ensures
            r == self.bits()[key as int],
    {
        let byte = self.array[key / 8];
        let b = (key % 8) as u8;
        proof {
            lemma_bit_get(byte, b);
        }
        (byte & (1u8 << b)) != 0
    }
}

/// The set of pressed buttons, one flag per button code.
#[derive(Debug)]
pub struct ButtonMask {
    buttons: BitArray<32>,
}

impl ButtonMask {
    /// One flag per button code.
    pub closed spec fn flags(self) -> Seq<bool> {
        self.buttons.bits()
    }

    fn new() -> (r: Self)
        ensures
            r.flags() == Seq::new(256, |k: int| false),
    {
        Self { buttons: BitArray::zeroed() }
    }

    fn set_pressed(&mut self, key: PointerButton)
        ensures
            final(self).flags() == old(self).flags().update(key.spec_code(), true),
    {
        self.buttons.set(key.code());
    }

    fn set_released(&mut self, key: PointerButton)
        ensures
            final(self).flags() == old(self).flags().update(key.spec_code(), false),
    {
        self.buttons.clear(key.code());
    }

    pub fn is_pressed(&self, key: PointerButton) -> (r: bool)
        ensures
            r == self.flags()[key.spec_code()],
    {
        self.buttons.get(key.code())
    }
}

/// What a pointer is: its position and, per button code (of 256), whether the button is
/// held and whether it was both pressed and released within the last frame.
pub struct PointerModel {
    pub position: Vector2<u32>,
    pub pressed: Seq<bool>,
    pub clicked: Seq<bool>,
}

/// The state of the pointing device.
#[derive(Debug)]
pub struct Pointer {
    pub position: Vector2<u32>,
    pressed_mask: ButtonMask,
    clicked_this_frame: ButtonMask,
}

impl View for Pointer {
    type V = PointerModel;

    closed spec fn view(&self) -> PointerModel {
        PointerModel {
            position: self.position,
            pressed: self.pressed_mask.flags(),
            clicked: self.clicked_this_frame.flags(),
        }
    }
}

/// A pointer at the origin with no button held.
pub open spec fn initial_pointer() -> PointerModel {
    PointerModel {
        position: Vector2 { x: 0, y: 0 },
        pressed: Seq::new(256, |k: int| false),
        clicked: Seq::new(256, |k: int| false),
    }
}

impl Pointer {
    /// Pointer state at `x = 0, y = 0` with no buttons pressed.
    fn new() -> (r: Self)
        ensures
            r@ == initial_pointer(),
    {
        Self {
            position: Vector2 { x: 0, y: 0 },
            pressed_mask: ButtonMask::new(),
            clicked_this_frame: ButtonMask::new(),
        }
    }

    fn set_pressed(&mut self, key: PointerButton)
        ensures
            final(self)@ == (PointerModel {
                pressed: old(self)@.pressed.update(key.spec_code(), true),
                ..old(self)@
            }),
    {
        self.pressed_mask.set_pressed(key);
    }

    fn set_released(&mut self, key: PointerButton)
        ensures
            final(self)@ == (PointerModel {
                pressed: old(self)@.pressed.update(key.spec_code(), false),
                ..old(self)@
            }),
    {
        self.pressed_mask.set_released(key);
    }

    /// Where the pointer is.
    pub fn position(&self) -> (r: Vector2<u32>)
        ensures
            r == self@.position,
    {
        self.position
    }

    /// Whether `key` is held.
    pub fn is_pressed(&self, key: PointerButton) -> (r: bool)
        ensures
            r == self@.pressed[key.spec_code()],
    {
        self.pressed_mask.is_pressed(key)
    }
}

/// Byte `i` of an image `width` pixels wide belongs to the pixel in column `x` of row `y`.
pub open spec fn byte_in_pixel(width: int, i: int, x: int, y: int) -> bool {
    i / 4 == width * y + x
}

/// The column of the pixel that byte `i` of an image `width` pixels wide belongs to.
pub open spec fn pixel_column(width: int, i: int) -> int {
    (i / 4) % width
}

/// The row of the pixel that byte `i` of an image `width` pixels wide belongs to.
pub open spec fn pixel_row(width: int, i: int) -> int {
    (i / 4) / width
}

/// A byte lies in a pixel of the image exactly when the pixel's column and row are the
/// byte's.
pub proof fn lemma_byte_in_pixel(width: int, i: int, x: int, y: int)
    requires
        0 <= x < width,
        0 <= y,
        0 <= i,
    ensures
        byte_in_pixel(width, i, x, y) <==> (pixel_column(width, i) == x && pixel_row(width, i)
            == y),
{
    if i / 4 == width * y + x {
        assert(i / 4 == y * width + x) by (nonlinear_arith)
            requires
                i / 4 == width * y + x,
        ;
        lemma_fundamental_div_mod_converse(i / 4, width, y, x);
    }
    lemma_fundamental_div_mod(i / 4, width);
}

/// A pixel inside an image `width` by `height` has its bytes before `width * height * 4`.
pub proof fn lemma_pixel_in_image(width: int, height: int, x: int, y: int)
    requires
        0 <= x < width,
        0 <= y < height,
    ensures
        width * y + x < width * height,
        0 <= width * y + x,
{
    assert(width * y + x < width * height) by (nonlinear_arith)
        requires
            0 <= x < width,
            0 <= y < height,
    ;
    assert(0 <= width * y) by (nonlinear_arith)
        requires
            0 <= x < width,
            0 <= y,
    ;
}

/// The buffer of a `new`-sized image that keeps the pixels of the `old`-sized image `buf`
/// where both overlap and is zero elsewhere.
pub open spec fn resized_buffer(buf: Seq<u8>, old: Vector2<u32>, new: Vector2<u32>) -> Seq<u8> {
    Seq::new(
        (new.x * new.y * 4) as nat,
        |i: int|
            {
                let x = pixel_column(new.x as int, i);
                let y = pixel_row(new.x as int, i);
                if x < old.x && y < old.y {
                    buf[(old.x * y + x) * 4 + i % 4]
                } else {
                    0u8
                }
            },
    )
}

/// A drawing surface held in memory.
pub struct BitmapBackend {
    size: Vector2<u32>,
    buf: Vec<u8>,
}

/// Whether a buffer holds exactly the pixels of an image of `size`, whose pixel count fits
/// in a `u32`.
pub open spec fn bitmap_wf(size: Vector2<u32>, buf: Seq<u8>) -> bool {
    &&& size.x * size.y <= u32::MAX
    &&& buf.len() == size.x * size.y * 4
}

impl BitmapBackend {
    /// The size of the image in pixels.
    pub closed spec fn spec_size(&self) -> Vector2<u32> {
        self.size
    }

    /// The bytes of the image.
    pub closed spec fn spec_buf(&self) -> Seq<u8> {
        self.buf@
    }

    /// An all-zero image of `size` pixels.
    pub fn new(size: Vector2<u32>) -> (r: Self)
        requires
            size.x * size.y <= u32::MAX,
            size.x * size.y * 4 <= usize::MAX,
        ensures
            r.spec_size() == size,
            r.spec_buf() == Seq::new((size.x * size.y * 4) as nat, |i: int| 0u8),
            bitmap_wf(r.spec_size(), r.spec_buf()),
    {
        let n = size.x as usize * size.y as usize * BYTES_PER_PIXEL as usize;
        let buf = vec![0u8; n];
        assert(buf@ =~= Seq::new((size.x * size.y * 4) as nat, |i: int| 0u8));
        Self { size, buf }
    }

    /// The size of the image in pixels.
    pub fn size(&self) -> (r: Vector2<u32>)
        ensures
            r == self.spec_size(),
    {
        self.size
    }

    /// The bytes of the image.
    pub fn buf(&self) -> (r: &[u8])
        ensures
            r@ == self.spec_buf(),
    {
        self.buf.as_slice()
    }

    /// The bytes of the image, to draw into.
    pub fn buf_mut(&mut self) -> (r: &mut [u8])
        ensures
            r@ == old(self).spec_buf(),
            final(r)@ == final(self).spec_buf(),
            final(self).spec_size() == old(self).spec_size(),
    {
        self.buf.as_mut_slice()
    }

    /// Change the image to `new_size` pixels, keeping the pixels that both sizes share.
    pub fn resize(&mut self, new_size: Vector2<u32>) -> (r: Result<(), CanvasError>)
        requires
            bitmap_wf(old(self).spec_size(), old(self).spec_buf()),
            new_size.x * new_size.y <= u32::MAX,
            new_size.x * new_size.y * 4 <= usize::MAX,
        ensures
            r is Ok,
            final(self).spec_size() == new_size,
            final(self).spec_buf() == resized_buffer(
                old(self).spec_buf(),
                old(self).spec_size(),
                new_size,
            ),
            bitmap_wf(final(self).spec_size(), final(self).spec_buf()),
    {
        let old_size = self.size;
        let ghost old_buf = self.buf@;
        let n = new_size.x as usize * new_size.y as usize * BYTES_PER_PIXEL as usize;
        let mut new_buf = vec![0u8; n];
        let max_y = if new_size.y < old_size.y {
            new_size.y
        } else {
            old_size.y
        };
        let max_x = if new_size.x < old_size.x {
            new_size.x
        } else {
            old_size.x
        };
        let ghost nx = new_size.x as int;
        let old_len = self.buf.len();
        let mut y: u32 = 0;
        while y < max_y
            invariant
                y <= max_y,
                max_y <= new_size.y,
                max_y <= old_size.y,
                max_x <= new_size.x,
                max_x <= old_size.x,
                nx == new_size.x,
                self.size == old_size,
                self.buf@ == old_buf,
                old_len == old_buf.len(),
                bitmap_wf(old_size, old_buf),
                new_size.x * new_size.y <= u32::MAX,
                new_buf@.len() == n,
                n == new_size.x * new_size.y * 4,
                forall|i: int|
                    0 <= i < n ==> #[trigger] new_buf@[i] == (if pixel_column(nx, i) < max_x
                        && pixel_row(nx, i) < y {
                        old_buf[(old_size.x * pixel_row(nx, i) + pixel_column(nx, i)) * 4 + i
                            % 4]
                    } else {
                        0u8
                    }),
            decreases max_y - y,
        {
            let mut x: u32 = 0;
            while x < max_x
                invariant
                    x <= max_x,
                    y < max_y,
                    max_y <= new_size.y,
                    max_y <= old_size.y,
                    max_x <= new_size.x,
                    max_x <= old_size.x,
                    nx == new_size.x,
                    self.size == old_size,
                    self.buf@ == old_buf,
                    old_len == old_buf.len(),
                    bitmap_wf(old_size, old_buf),
                    new_size.x * new_size.y <= u32::MAX,
                    new_buf@.len() == n,
                    n == new_size.x * new_size.y * 4,
                    forall|i: int|
                        0 <= i < n ==> #[trigger] new_buf@[i] == (if (pixel_column(nx, i) < max_x
                            && pixel_row(nx, i) < y) || (pixel_row(nx, i) == y && pixel_column(
                            nx,
                            i,
                        ) < x) {
                            old_buf[(old_size.x * pixel_row(nx, i) + pixel_column(nx, i)) * 4
                                + i % 4]
                        } else {
                            0u8
                        }),
                decreases max_x - x,
            {
                proof {
                    lemma_pixel_in_image(new_size.x as int, new_size.y as int, x as int, y as int);
                    lemma_pixel_in_image(old_size.x as int, old_size.y as int, x as int, y as int);
                }
                let new_offset = (new_size.x * y + x) as usize * BYTES_PER_PIXEL as usize;
                let old_offset = (old_size.x * y + x) as usize * BYTES_PER_PIXEL as usize;
                let ghost before = new_buf@;
                new_buf[new_offset] = self.buf[old_offset];
                new_buf[new_offset + 1] = self.buf[old_offset + 1];
                new_buf[new_offset + 2] = self.buf[old_offset + 2];
                new_buf[new_offset + 3] = self.buf[old_offset + 3];
                proof {
                    assert forall|i: int| 0 <= i < n implies #[trigger] new_buf@[i] == (if (
                    pixel_column(nx, i) < max_x && pixel_row(nx, i) < y) || (pixel_row(nx, i)
                        == y && pixel_column(nx, i) < x + 1) {
                        old_buf[(old_size.x * pixel_row(nx, i) + pixel_column(nx, i)) * 4 + i
                            % 4]
                    } else {
                        0u8
                    }) by {
                        lemma_byte_in_pixel(nx, i, x as int, y as int);
                        if new_offset <= i < new_offset + 4 {
                            assert(i / 4 == new_size.x * y + x);
                        } else {
                            assert(i / 4 != new_size.x * y + x);
                            assert(new_buf@[i] == before[i]);
                        }
                    }
                }
                x = x + 1;
            }
            y = y + 1;
        }
        proof {
            assert forall|i: int| 0 <= i < n implies #[trigger] new_buf@[i] == resized_buffer(
                old_buf,
                old_size,
                new_size,
            )[i] by {
                if nx > 0 {
                    lemma_fundamental_div_mod(i / 4, nx);
                    let px = pixel_column(nx, i);
                    let py = pixel_row(nx, i);
                    assert(0 <= px < nx);
                    assert(py < new_size.y) by (nonlinear_arith)
                        requires
                            0 <= i < nx * new_size.y * 4,
                            i / 4 == nx * py + px,
                            0 <= px < nx,
                            0 <= i / 4,
                    ;
                }
            }
            assert(new_buf@ =~= resized_buffer(old_buf, old_size, new_size));
        }
        self.size = new_size;
        self.buf = new_buf;
        Ok(())
    }
}

/// Where a canvas draws: a window of the X server, or an image in memory.
#[derive(Debug, Clone, Copy)]
pub enum BackendType {
    X11MitShm,
    Bitmap { size: Vector2<u32> },
}

/// Input that a window reports to its canvas.
#[derive(Debug, Clone, Copy)]
pub enum Event {
    Resize { new_size: Vector2<u32> },
    ButtonPress { button: PointerButton },
    ButtonRelease { button: PointerButton },
    PointerMotion { position: Vector2<u32> },
    Shutdown,
}

/// What a canvas is: the size and bytes of its image, its pointer, and whether the last
/// frame resized it or asked it to close.
pub struct CanvasModel {
    pub size: Vector2<u32>,
    pub buf: Seq<u8>,
    pub pointer: PointerModel,
    pub resized: bool,
    pub should_close: bool,
}

/// Whether the image of a canvas holds exactly its pixels and the flags of its pointer
/// cover every button code.
pub open spec fn canvas_wf(m: CanvasModel) -> bool {
    &&& bitmap_wf(m.size, m.buf)
    &&& m.pointer.pressed.len() == 256
    &&& m.pointer.clicked.len() == 256
}

/// The state at the start of a frame: a button both pressed and released during the last
/// frame is released now, and no resize has happened yet.
pub open spec fn frame_start(m: CanvasModel) -> CanvasModel {
    CanvasModel {
        resized: false,
        pointer: PointerModel {
            pressed: Seq::new(256, |n: int| m.pointer.pressed[n] && !(n < 255 && m.pointer.clicked[n])),
            clicked: Seq::new(256, |n: int| m.pointer.clicked[n] && !(n < 255)),
            ..m.pointer
        },
        ..m
    }
}

/// The effect of one event, given which buttons were pressed earlier in the same frame.
pub open spec fn apply_event(m: CanvasModel, pressed_now: Seq<bool>, e: Event) -> (
    CanvasModel,
    Seq<bool>,
) {
    match e {
        Event::Resize { new_size } => (
            CanvasModel {
                size: new_size,
                buf: resized_buffer(m.buf, m.size, new_size),
                resized: true,
                ..m
            },
            pressed_now,
        ),
        Event::ButtonPress { button } => (
            CanvasModel {
                pointer: PointerModel {
                    pressed: m.pointer.pressed.update(button.spec_code(), true),
                    ..m.pointer
                },
                ..m
            },
            pressed_now.update(button.spec_code(), true),
        ),
        Event::ButtonRelease { button } => if pressed_now[button.spec_code()] {
            (
                CanvasModel {
                    pointer: PointerModel {
                        clicked: m.pointer.clicked.update(button.spec_code(), true),
                        ..m.pointer
                    },
                    ..m
                },
                pressed_now,
            )
        } else {
            (
                CanvasModel {
                    pointer: PointerModel {
                        pressed: m.pointer.pressed.update(button.spec_code(), false),
                        ..m.pointer
                    },
                    ..m
                },
                pressed_now,
            )
        },
        Event::PointerMotion { position } => (
            CanvasModel { pointer: PointerModel { position, ..m.pointer }, ..m },
            pressed_now,
        ),
        Event::Shutdown => (CanvasModel { should_close: true, ..m }, pressed_now),
    }
}

/// The effect of the events, in order.
pub open spec fn apply_events(m: CanvasModel, pressed_now: Seq<bool>, events: Seq<Event>) -> (
    CanvasModel,
    Seq<bool>,
)
    decreases events.len(),
{
    if events.len() == 0 {
        (m, pressed_now)
    } else {
        let (m2, p2) = apply_events(m, pressed_now, events.drop_last());
        apply_event(m2, p2, events.last())
    }
}

/// The canvas after a frame that received `events`.
pub open spec fn after_events(m: CanvasModel, events: Seq<Event>) -> CanvasModel {
    apply_events(frame_start(m), Seq::new(256, |k: int| false), events).0
}

/// Whether the image of a resize to `size` can be held.
pub open spec fn size_fits(size: Vector2<u32>) -> bool {
    &&& size.x * size.y <= u32::MAX
    &&& size.x * size.y * 4 <= usize::MAX
}

/// Whether every resize among the events can be held.
pub open spec fn resizes_fit(events: Seq<Event>) -> bool {
    forall|i: int|
        0 <= i < events.len() ==> (#[trigger] events[i] matches Event::Resize { new_size }
            ==> size_fits(new_size))
}

/// A drawing surface with the state of the pointer over it.
pub struct Canvas {
    backend: BitmapBackend,
    pointer: Pointer,
    resized: bool,
    should_close: bool,
}

impl View for Canvas {
    type V = CanvasModel;

    closed spec fn view(&self) -> CanvasModel {
        CanvasModel {
            size: self.backend.size,
            buf: self.backend.buf@,
            pointer: self.pointer@,
            resized: self.resized,
            should_close: self.should_close,
        }
    }
}

impl Canvas {
    /// A canvas drawing on `backend`, with the pointer at the origin and nothing pressed.
    pub fn with_backend(backend: BitmapBackend) -> (r: Self)
        ensures
            r@ == (CanvasModel {
                size: backend.spec_size(),
                buf: backend.spec_buf(),
                pointer: initial_pointer(),
                resized: false,
                should_close: false,
            }),
    {
        let r = Self { backend, pointer: Pointer::new(), resized: false, should_close: false };
        r
    }

    /// The state of the pointer.
    pub fn pointer(&self) -> (r: &Pointer)
        ensures
            r@ == self@.pointer,
    {
        &self.pointer
    }

    /// Whether the last frame changed the size of the canvas.
    pub fn resized(&self) -> (r: bool)
        ensures
            r == self@.resized,
    {
        self.resized
    }

    /// Whether the window asked to be closed.
    pub fn should_close(&self) -> (r: bool)
        ensures
            r == self@.should_close,
    {
        self.should_close
    }

    /// The bytes of the image, to draw into.
    pub fn raw_buf_mut(&mut self) -> (r: &mut [u8])
        ensures
            r@ == old(self)@.buf,
            final(self)@ == (CanvasModel { buf: final(r)@, ..old(self)@ }),
    {
        self.backend.buf_mut()
    }

    /// The bytes of the image.
    pub fn raw_buf(&self) -> (r: &[u8])
        ensures
            r@ == self@.buf,
    {
        self.backend.buf()
    }

    /// The size of the image in pixels.
    pub fn window_size(&self) -> (r: Vector2<u32>)
        ensures
            r == self@.size,
    {
        self.backend.size()
    }

    /// Show what was drawn; an image in memory has nothing to do.
    pub fn flush(&mut self) -> (r: Result<(), CanvasError>)
        ensures
            r is Ok,
            final(self)@ == old(self)@,
    {
        Ok(())
    }

    /// Start a frame and apply the events that the window reported since the last one.
    pub fn process_events(&mut self, events: &Vec<Event>) -> (r: Result<(), CanvasError>)
        requires
            canvas_wf(old(self)@),
            resizes_fit(events@),
        ensures
            r is Ok,
            final(self)@ == after_events(old(self)@, events@),
            canvas_wf(final(self)@),
    {
        self.resized = false;
        let ghost start = self@;
        let ghost pressed0 = self.pointer.pressed_mask.flags();
        let ghost clicked0 = self.pointer.clicked_this_frame.flags();
        let mut n: u8 = 0;
        while n < 255
            invariant
                n <= 255,
                self@.size == start.size,
                self@.buf == start.buf,
                self@.pointer.position == start.pointer.position,
                self@.resized == false,
                self@.should_close == start.should_close,
                pressed0 == start.pointer.pressed,
                clicked0 == start.pointer.clicked,
                canvas_wf(start),
                self@.pointer.pressed == Seq::new(
                    256,
                    |k: int| pressed0[k] && !(k < n && clicked0[k]),
                ),
                self@.pointer.clicked == Seq::new(
                    256,
                    |k: int| clicked0[k] && !(k < n),
                ),
            decreases 255 - n,
        {
            if self.pointer.clicked_this_frame.buttons.get(n as usize) {
                self.pointer.pressed_mask.buttons.clear(n as usize);
                self.pointer.clicked_this_frame.buttons.clear(n as usize);
            }
            n = n + 1;
            assert(self@.pointer.pressed =~= Seq::new(
                256,
                |k: int| pressed0[k] && !(k < n && clicked0[k]),
            ));
            assert(self@.pointer.clicked =~= Seq::new(256, |k: int| clicked0[k] && !(k < n)));
        }
        assert(self@ =~= frame_start(start));
        let mut pressed_this_frame = ButtonMask::new();
        let ghost first = self@;
        let mut i: usize = 0;
        assert(events@.take(0) =~= Seq::<Event>::empty());
        while i < events.len()
            invariant
                i <= events@.len(),
                first == frame_start(start),
                canvas_wf(self@),
                pressed_this_frame.flags().len() == 256,
                resizes_fit(events@),
                (self@, pressed_this_frame.flags()) == apply_events(
                    first,
                    Seq::new(256, |k: int| false),
                    events@.take(i as int),
                ),
            decreases events@.len() - i,
        {
            assert(events@.take(i + 1).drop_last() =~= events@.take(i as int));
            let event = events[i];
            match event {
                Event::Resize { new_size } => {
                    assert(size_fits(new_size));
                    let _ = self.backend.resize(new_size);
                    self.resized = true;
                },
                Event::ButtonPress { button } => {
                    pressed_this_frame.set_pressed(button);
                    self.pointer.set_pressed(button);
                },
                Event::ButtonRelease { button } => {
                    if pressed_this_frame.is_pressed(button) {
                        self.pointer.clicked_this_frame.set_pressed(button);
                    } else {
                        self.pointer.set_released(button);
                    }
                },
                Event::PointerMotion { position } => {
                    self.pointer.position = position;
                },
                Event::Shutdown => {
                    self.should_close = true;
                },
            }
            i = i + 1;
        }
        assert(events@.take(events@.len() as int) =~= events@);
        Ok(())
    }
}

} // verus!
