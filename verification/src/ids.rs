//! Resource identifiers of the X11 protocol and their allocation.
use vstd::prelude::*;

use crate::bytes::{spec_u32_bytes, push_u32};

verus! {

/// A 32-bit identifier of a server-side resource.
#[derive(Debug, Clone, Copy, PartialEq, Eq, Hash)]
pub struct ResourceId {
    value: u32,
}

impl View for ResourceId {
    type V = u32;

    closed spec fn view(&self) -> u32 {
        self.value
    }
}

impl ResourceId {
    /// The raw identifier.
    pub fn value(self) -> (r: u32)
        ensures
            r == self@,
    {
        self.value
    }

    /// The identifier with raw value `value`.
    pub fn from_u32(value: u32) -> (r: ResourceId)
        ensures
            r@ == value,
    {
        ResourceId { value }
    }

    /// Two identifiers with the same raw value are the same identifier.
    pub proof fn lemma_view_injective(a: ResourceId, b: ResourceId)
        requires
            a@ == b@,
        ensures
            a == b,
    {
    }
}

/// An identifier type of the protocol: a 32-bit value, zero meaning "none" where allowed.
pub trait XId: Copy + Sized {
    /// The raw 32-bit value.
    spec fn spec_raw(&self) -> u32;

    /// The raw 32-bit value.
    fn raw(self) -> (r: u32)
        ensures
            r == self.spec_raw(),
    ;

    /// The identifier whose raw value is `value`.
    fn unchecked_from(value: u32) -> (r: Self)
        ensures
            r.spec_raw() == value,
    ;
}

impl XId for ResourceId {
    closed spec fn spec_raw(&self) -> u32 {
        self.value
    }

    fn raw(self) -> (r: u32) {
        self.value
    }

    fn unchecked_from(value: u32) -> (r: Self) {
        ResourceId { value }
    }
}

/// An identifier of a pixmap.
#[derive(Debug, Clone, Copy, PartialEq, Eq, Hash)]
pub struct PixmapId(ResourceId);

/// An identifier of a visual.
#[derive(Debug, Clone, Copy, PartialEq, Eq, Hash)]
pub struct VisualId(ResourceId);

/// An identifier of a font.
#[derive(Debug, Clone, Copy, PartialEq, Eq, Hash)]
pub struct FontId(ResourceId);

/// An identifier of a colormap.
#[derive(Debug, Clone, Copy, PartialEq, Eq, Hash)]
pub struct ColormapId(ResourceId);

/// An identifier of a cursor.
#[derive(Debug, Clone, Copy, PartialEq, Eq, Hash)]
pub struct CursorId(ResourceId);

/// An identifier of a window.
#[derive(Debug, Clone, Copy, PartialEq, Eq, Hash)]
pub struct WindowId(ResourceId);

/// An identifier of a graphics context.
#[derive(Debug, Clone, Copy, PartialEq, Eq, Hash)]
pub struct GContextId(ResourceId);

/// An identifier of an atom.
#[derive(Debug, Clone, Copy, PartialEq, Eq, Hash)]
pub struct AtomId(ResourceId);

/// An identifier of a CRTC (RandR extension).
#[derive(Debug, Clone, Copy, PartialEq, Eq, Hash)]
pub struct CrtcId(ResourceId);

/// An identifier of an output (RandR extension).
#[derive(Debug, Clone, Copy, PartialEq, Eq, Hash)]
pub struct OutputId(ResourceId);

/// An identifier of a shared memory segment (MIT-SHM extension).
#[derive(Debug, Clone, Copy, PartialEq, Eq, Hash)]
pub struct ShmSegId(ResourceId);

// Each identifier type offers the same small interface; it is written out for every type.
impl View for PixmapId {
    type V = u32;

    closed spec fn view(&self) -> u32 {
        self.0@
    }
}

impl XId for PixmapId {
    closed spec fn spec_raw(&self) -> u32 {
        self.0@
    }

    fn raw(self) -> (r: u32) {
        self.0.value
    }

    fn unchecked_from(value: u32) -> (r: Self) {
        PixmapId(ResourceId { value })
    }
}

impl PixmapId {
    /// The underlying resource identifier.
    pub fn id(self) -> (r: ResourceId)
        ensures
            r@ == self@,
    {
        self.0
    }

    /// Little-endian wire encoding.
    pub fn to_le_bytes(self) -> (r: Vec<u8>)
        ensures
            r@ == spec_u32_bytes(self@),
    {
        let mut out = Vec::new();
        push_u32(&mut out, self.0.value);
        out
    }

    /// The identifier wrapping `id`.
    pub fn from_id(id: ResourceId) -> (r: Self)
        ensures
            r@ == id@,
    {
        PixmapId(id)
    }
}

impl View for VisualId {
    type V = u32;

    closed spec fn view(&self) -> u32 {
        self.0@
    }
}

impl XId for VisualId {
    closed spec fn spec_raw(&self) -> u32 {
        self.0@
    }

    fn raw(self) -> (r: u32) {
        self.0.value
    }

    fn unchecked_from(value: u32) -> (r: Self) {
        VisualId(ResourceId { value })
    }
}

impl VisualId {
    /// The underlying resource identifier.
    pub fn id(self) -> (r: ResourceId)
        ensures
            r@ == self@,
    {
        self.0
    }

    /// The identifier wrapping `id`.
    pub fn from_id(id: ResourceId) -> (r: Self)
        ensures
            r@ == id@,
    {
        VisualId(id)
    }
}

impl View for FontId {
    type V = u32;

    closed spec fn view(&self) -> u32 {
        self.0@
    }
}

impl XId for FontId {
    closed spec fn spec_raw(&self) -> u32 {
        self.0@
    }

    fn raw(self) -> (r: u32) {
        self.0.value
    }

    fn unchecked_from(value: u32) -> (r: Self) {
        FontId(ResourceId { value })
    }
}

impl View for ColormapId {
    type V = u32;

    closed spec fn view(&self) -> u32 {
        self.0@
    }
}

impl XId for ColormapId {
    closed spec fn spec_raw(&self) -> u32 {
        self.0@
    }

    fn raw(self) -> (r: u32) {
        self.0.value
    }

    fn unchecked_from(value: u32) -> (r: Self) {
        ColormapId(ResourceId { value })
    }
}

impl View for CursorId {
    type V = u32;

    closed spec fn view(&self) -> u32 {
        self.0@
    }
}

impl XId for CursorId {
    closed spec fn spec_raw(&self) -> u32 {
        self.0@
    }

    fn raw(self) -> (r: u32) {
        self.0.value
    }

    fn unchecked_from(value: u32) -> (r: Self) {
        CursorId(ResourceId { value })
    }
}

impl View for WindowId {
    type V = u32;

    closed spec fn view(&self) -> u32 {
        self.0@
    }
}

impl XId for WindowId {
    closed spec fn spec_raw(&self) -> u32 {
        self.0@
    }

    fn raw(self) -> (r: u32) {
        self.0.value
    }

    fn unchecked_from(value: u32) -> (r: Self) {
        WindowId(ResourceId { value })
    }
}

impl WindowId {
    /// The underlying resource identifier.
    pub fn id(self) -> (r: ResourceId)
        ensures
            r@ == self@,
    {
        self.0
    }

    /// Little-endian wire encoding.
    pub fn to_le_bytes(self) -> (r: Vec<u8>)
        ensures
            r@ == spec_u32_bytes(self@),
    {
        let mut out = Vec::new();
        push_u32(&mut out, self.0.value);
        out
    }

    /// Two windows with the same raw value are the same window.
    pub proof fn lemma_view_injective(a: WindowId, b: WindowId)
        requires
            a@ == b@,
        ensures
            a == b,
    {
    }

    /// Whether two window identifiers are equal.
    pub fn same(self, other: WindowId) -> (r: bool)
        ensures
            r == (self == other),
    {
        self.0.value == other.0.value
    }
}

impl View for GContextId {
    type V = u32;

    closed spec fn view(&self) -> u32 {
        self.0@
    }
}

impl XId for GContextId {
    closed spec fn spec_raw(&self) -> u32 {
        self.0@
    }

    fn raw(self) -> (r: u32) {
        self.0.value
    }

    fn unchecked_from(value: u32) -> (r: Self) {
        GContextId(ResourceId { value })
    }
}

impl View for AtomId {
    type V = u32;

    closed spec fn view(&self) -> u32 {
        self.0@
    }
}

impl XId for AtomId {
    closed spec fn spec_raw(&self) -> u32 {
        self.0@
    }

    fn raw(self) -> (r: u32) {
        self.0.value
    }

    fn unchecked_from(value: u32) -> (r: Self) {
        AtomId(ResourceId { value })
    }
}

impl View for CrtcId {
    type V = u32;

    closed spec fn view(&self) -> u32 {
        self.0@
    }
}

impl XId for CrtcId {
    closed spec fn spec_raw(&self) -> u32 {
        self.0@
    }

    fn raw(self) -> (r: u32) {
        self.0.value
    }

    fn unchecked_from(value: u32) -> (r: Self) {
        CrtcId(ResourceId { value })
    }
}

impl View for OutputId {
    type V = u32;

    closed spec fn view(&self) -> u32 {
        self.0@
    }
}

impl XId for OutputId {
    closed spec fn spec_raw(&self) -> u32 {
        self.0@
    }

    fn raw(self) -> (r: u32) {
        self.0.value
    }

    fn unchecked_from(value: u32) -> (r: Self) {
        OutputId(ResourceId { value })
    }
}

impl View for ShmSegId {
    type V = u32;

    closed spec fn view(&self) -> u32 {
        self.0@
    }
}

impl XId for ShmSegId {
    closed spec fn spec_raw(&self) -> u32 {
        self.0@
    }

    fn raw(self) -> (r: u32) {
        self.0.value
    }

    fn unchecked_from(value: u32) -> (r: Self) {
        ShmSegId(ResourceId { value })
    }
}

/// The raw value of every identifier type is its view.
pub proof fn lemma_raw_is_view()
    ensures
        forall|w: ResourceId| #[trigger] w.spec_raw() == w@,
        forall|w: WindowId| #[trigger] w.spec_raw() == w@,
        forall|w: PixmapId| #[trigger] w.spec_raw() == w@,
        forall|w: VisualId| #[trigger] w.spec_raw() == w@,
        forall|w: ColormapId| #[trigger] w.spec_raw() == w@,
        forall|w: AtomId| #[trigger] w.spec_raw() == w@,
        forall|w: CrtcId| #[trigger] w.spec_raw() == w@,
        forall|w: OutputId| #[trigger] w.spec_raw() == w@,
        forall|w: ShmSegId| #[trigger] w.spec_raw() == w@,
        forall|w: GContextId| #[trigger] w.spec_raw() == w@,
        forall|w: FontId| #[trigger] w.spec_raw() == w@,
        forall|w: CursorId| #[trigger] w.spec_raw() == w@,
{
}

/// A server time in milliseconds; zero means "current time" in requests.
#[derive(Debug, Clone, Copy, PartialEq, Eq, Structural, PartialOrd, Ord, Hash)]
pub struct Timestamp {
    value: u32,
}

impl View for Timestamp {
    type V = u32;

    closed spec fn view(&self) -> u32 {
        self.value
    }
}

impl Timestamp {
    /// The time with raw value `value`.
    pub fn from_u32(value: u32) -> (r: Self)
        ensures
            r@ == value,
    {
        Timestamp { value }
    }

    /// The raw value.
    pub fn raw(self) -> (r: u32)
        ensures
            r == self@,
    {
        self.value
    }
}

/// A key code: the number the server gives a physical key.
#[derive(Debug, Clone, Copy, PartialEq, Eq, Structural, PartialOrd, Ord, Hash)]
pub struct KeyCode {
    value: u8,
}

impl View for KeyCode {
    type V = u8;

    closed spec fn view(&self) -> u8 {
        self.value
    }
}

impl KeyCode {
    /// The key code with raw value `value`.
    pub fn from_u8(value: u8) -> (r: Self)
        ensures
            r@ == value,
    {
        KeyCode { value }
    }

    /// The raw value.
    pub fn raw(self) -> (r: u8)
        ensures
            r == self@,
    {
        self.value
    }

    /// Two key codes with the same raw value are equal.
    pub proof fn lemma_view_injective(a: KeyCode, b: KeyCode)
        requires
            a@ == b@,
        ensures
            a == b,
    {
    }
}

/// An identifier that may be "none", encoded as zero.
#[derive(Debug, Clone, Copy, PartialEq, Eq, PartialOrd, Ord)]
pub struct OrNone<T>(T);

impl<T: XId> OrNone<T> {
    /// The raw 32-bit value, zero meaning none.
    pub closed spec fn spec_raw(&self) -> u32 {
        self.0.spec_raw()
    }

    /// The wrapped identifier, whatever its value.
    pub closed spec fn inner(&self) -> T {
        self.0
    }

    /// Wraps an identifier.
    pub fn new(inner: T) -> (r: Self)
        ensures
            r.inner() == inner,
            r.spec_raw() == inner.spec_raw(),
    {
        OrNone(inner)
    }

    /// The "none" value.
    pub fn none() -> (r: Self)
        ensures
            r.spec_raw() == 0,
    {
        OrNone(T::unchecked_from(0))
    }

    /// The identifier, or `None` where it is zero.
    pub fn value(self) -> (r: Option<T>)
        ensures
            self.spec_raw() == 0 ==> r is None,
            self.spec_raw() != 0 ==> r == Some(self.inner()),
    {
        if self.0.raw() == 0 {
            None
        } else {
            Some(self.0)
        }
    }

    /// Two wrapped window identifiers with the same raw value are equal.
    pub proof fn lemma_raw_injective(a: OrNone<WindowId>, b: OrNone<WindowId>)
        requires
            a.spec_raw() == b.spec_raw(),
        ensures
            a == b,
    {
    }

    /// The raw 32-bit value, zero meaning none.
    pub fn raw(self) -> (r: u32)
        ensures
            r == self.spec_raw(),
    {
        self.0.raw()
    }
}

/// Hands out fresh resource identifiers from the range the server assigned to this client.
#[derive(Debug, Clone, Copy)]
pub struct IdAllocator {
    id_base: u32,
    id_mask: u32,
    next_id: u32,
}

/// Number of zero bits below the lowest one bit (32 for zero).
pub open spec fn spec_trailing_zeros(v: u32) -> u32
    decreases 32 - 0int,
{
    spec_trailing_zeros_from(v, 0)
}

/// Number of zero bits from bit `i` up to the lowest one bit at or above `i`, plus `i`.
pub open spec fn spec_trailing_zeros_from(v: u32, i: u32) -> u32
    decreases 32 - i,
{
    if i >= 32 {
        32
    } else if (v >> i) & 1 == 1 {
        i
    } else {
        spec_trailing_zeros_from(v, (i + 1) as u32)
    }
}

/// Number of zero bits below the lowest one bit (32 for zero).
pub fn trailing_zeros(v: u32) -> (r: u32)
    ensures
        r == spec_trailing_zeros(v),
        r <= 32,
{
    let mut i: u32 = 0;
    while i < 32
        invariant
            i <= 32,
            spec_trailing_zeros_from(v, i) == spec_trailing_zeros(v),
        decreases 32 - i,
    {
        if (v >> i) & 1 == 1 {
            return i;
        }
        i = i + 1;
    }
    32
}

/// The identifier an allocator hands out for its `next`-th request.
pub open spec fn spec_allocated_part(id_mask: u32, next: u32) -> u32 {
    if spec_trailing_zeros(id_mask) < 32 {
        id_mask & ((next << spec_trailing_zeros(id_mask)) as u32)
    } else {
        0
    }
}

impl IdAllocator {
    /// The base value of the identifiers handed out.
    pub closed spec fn spec_base(&self) -> u32 {
        self.id_base
    }

    /// The bits of an identifier that the allocator may vary.
    pub closed spec fn spec_mask(&self) -> u32 {
        self.id_mask
    }

    /// The counter of the next allocation.
    pub closed spec fn spec_next(&self) -> u32 {
        self.next_id
    }

    /// An allocator for identifiers `id_base | x` where `x` is within `id_mask`.
    pub fn new(id_base: u32, id_mask: u32) -> (r: Self)
        ensures
            r.spec_base() == id_base,
            r.spec_mask() == id_mask,
            r.spec_next() == 1,
    {
        Self { id_base, id_mask, next_id: 1 }
    }

    /// A fresh identifier: the counter shifted onto the lowest bits of the mask, within the
    /// mask, on top of the base.
    pub fn allocate_id(&mut self) -> (r: ResourceId)
        requires
            old(self).spec_next() < u32::MAX,
            spec_allocated_part(old(self).spec_mask(), old(self).spec_next()) != 0,
        ensures
            r@ == old(self).spec_base() | spec_allocated_part(
                old(self).spec_mask(),
                old(self).spec_next(),
            ),
            final(self).spec_next() == old(self).spec_next() + 1,
            final(self).spec_base() == old(self).spec_base(),
            final(self).spec_mask() == old(self).spec_mask(),
    {
        let shift = trailing_zeros(self.id_mask);
        let new_part = if shift < 32 {
            self.id_mask & (self.next_id << shift)
        } else {
            0
        };
        self.next_id = self.next_id + 1;
        ResourceId { value: self.id_base | new_part }
    }

    /// Whether `allocate_id` can hand out one more identifier: the counter has room and
    /// still reaches a bit of the mask.
    pub fn can_allocate(&self) -> (r: bool)
        ensures
            r == (self.spec_next() < u32::MAX && spec_allocated_part(self.spec_mask(), self.spec_next())
                != 0),
    {
        if self.next_id == u32::MAX {
            return false;
        }
        let shift = trailing_zeros(self.id_mask);
        let new_part = if shift < 32 {
            self.id_mask & (self.next_id << shift)
        } else {
            0
        };
        new_part != 0
    }
}

/// Whether `mask` is one run of `n` one bits, the lowest at bit `t`.
pub open spec fn contiguous_mask(mask: u32, t: u32, n: u32) -> bool {
    &&& 1 <= n
    &&& n + t <= 32
    &&& mask == (0xffff_ffffu32 >> ((32 - n) as u32)) << t
}

/// The lowest one bit of a run starting at bit `t` is bit `t`.
proof fn lemma_run_trailing_zeros(mask: u32, t: u32, n: u32, i: u32)
    requires
        contiguous_mask(mask, t, n),
        i <= t,
    ensures
        spec_trailing_zeros_from(mask, i) == t,
    decreases t - i,
{
    let low = 0xffff_ffffu32 >> ((32 - n) as u32);
    assert(low & 1 == 1) by (bit_vector)
        requires
            1 <= n <= 32,
            low == 0xffff_ffffu32 >> ((32 - n) as u32),
    ;
    if i < t {
        assert((mask >> i) & 1 == 0) by (bit_vector)
            requires
                i < t,
                t < 32,
                mask == low << t,
        ;
        lemma_run_trailing_zeros(mask, t, n, (i + 1) as u32);
    } else {
        assert((mask >> t) & 1 == 1) by (bit_vector)
            requires
                t < 32,
                n + t <= 32,
                1 <= n,
                low & 1 == 1,
                mask == low << t,
        ;
    }
}

/// The identifiers an allocator hands out from a mask that is one run of one bits, and a base
/// outside it, all differ while each allocation up to the later one succeeds; each carries
/// the base outside the mask and is not zero inside it.
pub proof fn lemma_allocations_distinct(base: u32, mask: u32, t: u32, n: u32, i: u32, j: u32)
    requires
        contiguous_mask(mask, t, n),
        base & mask == 0,
        1 <= i < j,
        forall|k: u32| 1 <= k <= j ==> #[trigger] spec_allocated_part(mask, k) != 0,
    ensures
        (base | spec_allocated_part(mask, i)) != (base | spec_allocated_part(mask, j)),
        (base | spec_allocated_part(mask, i)) & !mask == base,
        (base | spec_allocated_part(mask, i)) & mask != 0,
{
    lemma_run_trailing_zeros(mask, t, n, 0);
    assert(spec_trailing_zeros(mask) == t);
    let low = 0xffff_ffffu32 >> ((32 - n) as u32);
    if j > low {
        let k = (low + 1) as u32;
        assert(low < 0xffff_ffffu32) by {
            if n == 32 {
                assert(low == 0xffff_ffffu32) by (bit_vector)
                    requires
                        n == 32,
                        low == 0xffff_ffffu32 >> ((32 - n) as u32),
                ;
            } else {
                assert(low < 0xffff_ffffu32) by (bit_vector)
                    requires
                        1 <= n < 32,
                        low == 0xffff_ffffu32 >> ((32 - n) as u32),
                ;
            }
        }
        assert(1 <= k <= j);
        assert(mask & (k << t) == 0) by (bit_vector)
            requires
                1 <= n,
                n + t <= 32,
                low == 0xffff_ffffu32 >> ((32 - n) as u32),
                mask == low << t,
                k == low + 1,
        ;
        assert(spec_allocated_part(mask, k) == 0);
        assert(false);
    }
    let pi = spec_allocated_part(mask, i);
    let pj = spec_allocated_part(mask, j);
    assert(pi == mask & (i << t));
    assert(pj == mask & (j << t));
    assert(pi != pj && (base | pi) != (base | pj) && (base | pi) & !mask == base && (base | pi)
        & mask != 0) by (bit_vector)
        requires
            1 <= n,
            n + t <= 32,
            low == 0xffff_ffffu32 >> ((32 - n) as u32),
            mask == low << t,
            base & mask == 0,
            1 <= i < j <= low,
            pi == mask & (i << t),
            pj == mask & (j << t),
    ;
}

} // verus!
