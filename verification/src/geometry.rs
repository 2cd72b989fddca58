//! Small protocol values: window classes and visuals, drawables, points, rectangles and the
//! sequence numbers that tie replies to requests.
use vstd::prelude::*;

use crate::bytes::{push_i16, push_u16, spec_i16_bytes, spec_u16_bytes, spec_u32_bytes};
use crate::ids::{PixmapId, VisualId, WindowId};
use core::marker::PhantomData;

verus! {

/// The class of a new window.
#[derive(Debug, Clone, Copy, PartialEq, Eq, Structural)]
pub enum WindowClass {
    CopyFromParent,
    InputOutput,
    InputOnly,
}

impl WindowClass {
    /// The number that encodes the class.
    pub open spec fn spec_value(self) -> u16 {
        match self {
            WindowClass::CopyFromParent => 0,
            WindowClass::InputOutput => 1,
            WindowClass::InputOnly => 2,
        }
    }

    /// The number that encodes the class.
    pub fn value(self) -> (r: u16)
        ensures
            r == self.spec_value(),
    {
        match self {
            WindowClass::CopyFromParent => 0,
            WindowClass::InputOutput => 1,
            WindowClass::InputOnly => 2,
        }
    }
}

/// The visual of a new window: its parent's, or a given one.
#[derive(Debug, Clone, Copy)]
pub enum WindowVisual {
    CopyFromParent,
    Id(VisualId),
}

impl WindowVisual {
    /// The number that encodes the visual; zero for the parent's.
    pub open spec fn spec_value(self) -> u32 {
        match self {
            WindowVisual::CopyFromParent => 0,
            WindowVisual::Id(vid) => vid@,
        }
    }

    /// The number that encodes the visual; zero for the parent's.
    pub fn value(self) -> (r: u32)
        ensures
            r == self.spec_value(),
    {
        match self {
            WindowVisual::CopyFromParent => 0,
            WindowVisual::Id(vid) => vid.id().value(),
        }
    }
}

/// Something that can be drawn on: a window or a pixmap.
#[derive(Debug, Clone, Copy)]
pub enum Drawable {
    Window(WindowId),
    Pixmap(PixmapId),
}

impl Drawable {
    /// The identifier of the window or pixmap.
    pub open spec fn spec_value(self) -> u32 {
        match self {
            Drawable::Window(window) => window@,
            Drawable::Pixmap(pixmap) => pixmap@,
        }
    }

    /// The identifier of the window or pixmap.
    pub fn value(self) -> (r: u32)
        ensures
            r == self.spec_value(),
    {
        match self {
            Drawable::Window(window) => window.id().value(),
            Drawable::Pixmap(pixmap) => pixmap.id().value(),
        }
    }

    /// Little-endian wire encoding of the identifier.
    pub fn to_le_bytes(self) -> (r: Vec<u8>)
        ensures
            r@ == spec_u32_bytes(self.spec_value()),
    {
        match self {
            Drawable::Window(window) => window.to_le_bytes(),
            Drawable::Pixmap(pixmap) => pixmap.to_le_bytes(),
        }
    }
}

/// A point of a window.
#[derive(Debug, Clone, Copy)]
pub struct Point {
    pub x: i16,
    pub y: i16,
}

impl Point {
    /// Wire encoding: `x` then `y`, little-endian.
    pub fn to_le_bytes(self) -> (r: Vec<u8>)
        ensures
            r@ == spec_i16_bytes(self.x) + spec_i16_bytes(self.y),
    {
        let mut out = Vec::new();
        push_i16(&mut out, self.x);
        push_i16(&mut out, self.y);
        assert(out@ =~= spec_i16_bytes(self.x) + spec_i16_bytes(self.y));
        out
    }
}

/// A rectangle of a window: its top left corner and its size.
#[derive(Debug, Clone, Copy)]
pub struct Rectangle {
    pub x: i16,
    pub y: i16,
    pub width: u16,
    pub height: u16,
}

impl Rectangle {
    /// Wire encoding: `x`, `y`, `width`, `height`, little-endian.
    pub fn to_le_bytes(self) -> (r: Vec<u8>)
        ensures
            r@ == spec_i16_bytes(self.x) + spec_i16_bytes(self.y) + spec_u16_bytes(self.width)
                + spec_u16_bytes(self.height),
    {
        let mut out = Vec::new();
        push_i16(&mut out, self.x);
        push_i16(&mut out, self.y);
        push_u16(&mut out, self.width);
        push_u16(&mut out, self.height);
        assert(out@ =~= spec_i16_bytes(self.x) + spec_i16_bytes(self.y) + spec_u16_bytes(
            self.width,
        ) + spec_u16_bytes(self.height));
        out
    }
}

/// The number of a request, counted by the connection, that its reply repeats.
#[derive(Debug, Clone, Copy, PartialEq, Eq, Structural, PartialOrd, Ord, Hash)]
pub struct SequenceNumber {
    value: u16,
}

impl View for SequenceNumber {
    type V = u16;

    closed spec fn view(&self) -> u16 {
        self.value
    }
}

impl SequenceNumber {
    /// The sequence number `value`.
    pub fn from_u16(value: u16) -> (r: Self)
        ensures
            r@ == value,
    {
        SequenceNumber { value }
    }

    /// The raw number.
    pub fn value(self) -> (r: u16)
        ensures
            r == self@,
    {
        self.value
    }

    /// The number of the request after this one; it wraps around after `u16::MAX`.
    pub fn next(self) -> (r: Self)
        ensures
            r@ == (if self@ == u16::MAX { 0 } else { self@ + 1 }),
    {
        SequenceNumber { value: self.value.wrapping_add(1) }
    }
}

/// A request that was sent and whose reply of type `Reply` is still to come.
#[derive(Debug)]
pub struct PendingReply<Reply> {
    sequence_number: SequenceNumber,
    reply_type: PhantomData<Reply>,
}

impl<Reply> PendingReply<Reply> {
    /// The sequence number of the request.
    pub closed spec fn spec_sequence_number(&self) -> SequenceNumber {
        self.sequence_number
    }

    /// A reply awaited for the request with `sequence_number`.
    pub fn new(sequence_number: SequenceNumber) -> (r: Self)
        ensures
            r.spec_sequence_number() == sequence_number,
    {
        PendingReply { sequence_number, reply_type: PhantomData }
    }

    /// The sequence number of the request.
    pub fn sequence_number(&self) -> (r: SequenceNumber)
        ensures
            r == self.spec_sequence_number(),
    {
        self.sequence_number
    }
}

} // verus!
