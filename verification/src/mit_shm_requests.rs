//! Requests of the MIT-SHM extension, as the bytes that follow the extension's major opcode.
use vstd::prelude::*;

use crate::bytes::{push_i16, push_u16, push_u32, spec_i16_bytes, spec_u16_bytes, spec_u32_bytes};
use crate::geometry::Drawable;
use crate::ids::{lemma_raw_is_view, GContextId, PixmapId, ShmSegId, XId};

verus! {

/// Name of the extension as the X server reports it.
pub const EXTENSION_NAME: [u8; 7] = [77, 73, 84, 45, 83, 72, 77];

/// Minor opcode of the query version request.
pub const QUERY_VERSION: u8 = 0;

/// Minor opcode of the attach request.
pub const ATTACH: u8 = 1;

/// Minor opcode of the detach request.
pub const DETACH: u8 = 2;

/// Minor opcode of the put image request.
pub const PUT_IMAGE: u8 = 3;

/// Minor opcode of the get image request.
pub const GET_IMAGE: u8 = 4;

/// Minor opcode of the create pixmap request.
pub const CREATE_PIXMAP: u8 = 5;

/// Minor opcode of the attach by file descriptor request.
pub const ATTACH_FD: u8 = 6;

/// Minor opcode of the create segment request.
pub const CREATE_SEGMENT: u8 = 7;

/// Ask which version of the extension the server speaks.
#[derive(Debug, Clone)]
pub struct QueryVersion;

impl QueryVersion {
    /// The request's bytes after the major opcode.
    pub open spec fn spec_to_bytes(&self) -> Seq<u8> {
        seq![QUERY_VERSION] + spec_u16_bytes(1)
    }

    /// The request's bytes after the major opcode.
    pub fn to_le_bytes(&self) -> (r: Vec<u8>)
        ensures
            r@ == self.spec_to_bytes(),
    {
        proof {
            lemma_raw_is_view();
        }
        let mut out: Vec<u8> = Vec::new();
        out.push(QUERY_VERSION);
        push_u16(&mut out, 1);
        assert(out@ =~= self.spec_to_bytes());
        out
    }
}

/// Attach a System V shared memory segment to the server.
#[derive(Debug, Clone)]
pub struct Attach {
    pub shmseg: ShmSegId,
    pub shmid: u32,
    pub read_only: bool,
}

impl Attach {
    /// The request's bytes after the major opcode.
    pub open spec fn spec_to_bytes(&self) -> Seq<u8> {
        seq![ATTACH] + spec_u16_bytes(4) + spec_u32_bytes(self.shmseg.spec_raw()) + spec_u32_bytes(self.shmid) + seq![if self.read_only { 1u8 } else { 0u8 }] + seq![0u8] + spec_u16_bytes(0)
    }

    /// The request's bytes after the major opcode.
    pub fn to_le_bytes(&self) -> (r: Vec<u8>)
        ensures
            r@ == self.spec_to_bytes(),
    {
        proof {
            lemma_raw_is_view();
        }
        let mut out: Vec<u8> = Vec::new();
        out.push(ATTACH);
        push_u16(&mut out, 4);
        push_u32(&mut out, self.shmseg.raw());
        push_u32(&mut out, self.shmid);
        out.push(if self.read_only { 1u8 } else { 0u8 });
        out.push(0u8);
        push_u16(&mut out, 0);
        assert(out@ =~= self.spec_to_bytes());
        out
    }
}

/// Detach a shared memory segment from the server.
#[derive(Debug, Clone)]
pub struct Detach {
    pub shmseg: ShmSegId,
}

impl Detach {
    /// The request's bytes after the major opcode.
    pub open spec fn spec_to_bytes(&self) -> Seq<u8> {
        seq![DETACH] + spec_u16_bytes(2) + spec_u32_bytes(self.shmseg.spec_raw())
    }

    /// The request's bytes after the major opcode.
    pub fn to_le_bytes(&self) -> (r: Vec<u8>)
        ensures
            r@ == self.spec_to_bytes(),
    {
        proof {
            lemma_raw_is_view();
        }
        let mut out: Vec<u8> = Vec::new();
        out.push(DETACH);
        push_u16(&mut out, 2);
        push_u32(&mut out, self.shmseg.raw());
        assert(out@ =~= self.spec_to_bytes());
        out
    }
}

/// Draw an image held in a shared memory segment.
#[derive(Debug, Clone)]
pub struct PutImage {
    pub drawable: Drawable,
    pub gc: GContextId,
    pub total_width: u16,
    pub total_height: u16,
    pub src_x: u16,
    pub src_y: u16,
    pub src_width: u16,
    pub src_height: u16,
    pub dst_x: i16,
    pub dst_y: i16,
    pub depth: u8,
    pub format: u8,
    pub send_event: u8,
    pub bpad: u8,
    pub shmseg: ShmSegId,
    pub offset: u32,
}

impl PutImage {
    /// The request's bytes after the major opcode.
    pub open spec fn spec_to_bytes(&self) -> Seq<u8> {
        seq![PUT_IMAGE] + spec_u16_bytes(10) + spec_u32_bytes(self.drawable.spec_value()) + spec_u32_bytes(self.gc.spec_raw()) + spec_u16_bytes(self.total_width) + spec_u16_bytes(self.total_height) + spec_u16_bytes(self.src_x) + spec_u16_bytes(self.src_y) + spec_u16_bytes(self.src_width) + spec_u16_bytes(self.src_height) + spec_i16_bytes(self.dst_x) + spec_i16_bytes(self.dst_y) + seq![self.depth] + seq![self.format] + seq![self.send_event] + seq![self.bpad] + spec_u32_bytes(self.shmseg.spec_raw()) + spec_u32_bytes(self.offset)
    }

    /// The request's bytes after the major opcode.
    pub fn to_le_bytes(&self) -> (r: Vec<u8>)
        ensures
            r@ == self.spec_to_bytes(),
    {
        proof {
            lemma_raw_is_view();
        }
        let mut out: Vec<u8> = Vec::new();
        out.push(PUT_IMAGE);
        push_u16(&mut out, 10);
        push_u32(&mut out, self.drawable.value());
        push_u32(&mut out, self.gc.raw());
        push_u16(&mut out, self.total_width);
        push_u16(&mut out, self.total_height);
        push_u16(&mut out, self.src_x);
        push_u16(&mut out, self.src_y);
        push_u16(&mut out, self.src_width);
        push_u16(&mut out, self.src_height);
        push_i16(&mut out, self.dst_x);
        push_i16(&mut out, self.dst_y);
        out.push(self.depth);
        out.push(self.format);
        out.push(self.send_event);
        out.push(self.bpad);
        push_u32(&mut out, self.shmseg.raw());
        push_u32(&mut out, self.offset);
        assert(out@ =~= self.spec_to_bytes());
        out
    }
}

/// Copy a rectangle of a drawable into a shared memory segment.
#[derive(Debug, Clone)]
pub struct GetImage {
    pub drawable: Drawable,
    pub x: i16,
    pub y: i16,
    pub width: u16,
    pub height: u16,
    pub plane_mask: u32,
    pub format: u8,
    pub shmseg: ShmSegId,
    pub offset: u32,
}

impl GetImage {
    /// The request's bytes after the major opcode.
    pub open spec fn spec_to_bytes(&self) -> Seq<u8> {
        seq![GET_IMAGE] + spec_u16_bytes(8) + spec_u32_bytes(self.drawable.spec_value()) + spec_i16_bytes(self.x) + spec_i16_bytes(self.y) + spec_u16_bytes(self.width) + spec_u16_bytes(self.height) + spec_u32_bytes(self.plane_mask) + seq![self.format] + seq![0u8] + seq![0u8] + seq![0u8] + spec_u32_bytes(self.shmseg.spec_raw()) + spec_u32_bytes(self.offset)
    }

    /// The request's bytes after the major opcode.
    pub fn to_le_bytes(&self) -> (r: Vec<u8>)
        ensures
            r@ == self.spec_to_bytes(),
    {
        proof {
            lemma_raw_is_view();
        }
        let mut out: Vec<u8> = Vec::new();
        out.push(GET_IMAGE);
        push_u16(&mut out, 8);
        push_u32(&mut out, self.drawable.value());
        push_i16(&mut out, self.x);
        push_i16(&mut out, self.y);
        push_u16(&mut out, self.width);
        push_u16(&mut out, self.height);
        push_u32(&mut out, self.plane_mask);
        out.push(self.format);
        out.push(0u8);
        out.push(0u8);
        out.push(0u8);
        push_u32(&mut out, self.shmseg.raw());
        push_u32(&mut out, self.offset);
        assert(out@ =~= self.spec_to_bytes());
        out
    }
}

/// Create a pixmap whose contents live in a shared memory segment.
#[derive(Debug, Clone)]
pub struct CreatePixmap {
    pub pid: PixmapId,
    pub drawable: Drawable,
    pub width: u16,
    pub height: u16,
    pub depth: u8,
    pub shmseg: ShmSegId,
    pub offset: u32,
}

impl CreatePixmap {
    /// The request's bytes after the major opcode: 27 of them, the 7 words its length field
    /// announces with the opcode; three unused bytes follow the depth.
    pub open spec fn spec_to_bytes(&self) -> Seq<u8> {
        seq![CREATE_PIXMAP] + spec_u16_bytes(7) + spec_u32_bytes(self.pid.spec_raw()) + spec_u32_bytes(self.drawable.spec_value()) + spec_u16_bytes(self.width) + spec_u16_bytes(self.height) + seq![self.depth] + seq![0u8, 0u8, 0u8] + spec_u32_bytes(self.shmseg.spec_raw()) + spec_u32_bytes(self.offset)
    }

    /// The request's bytes after the major opcode.
    pub fn to_le_bytes(&self) -> (r: Vec<u8>)
        ensures
            r@ == self.spec_to_bytes(),
    {
        proof {
            lemma_raw_is_view();
        }
        let mut out: Vec<u8> = Vec::new();
        out.push(CREATE_PIXMAP);
        push_u16(&mut out, 7);
        push_u32(&mut out, self.pid.raw());
        push_u32(&mut out, self.drawable.value());
        push_u16(&mut out, self.width);
        push_u16(&mut out, self.height);
        out.push(self.depth);
        out.push(0u8);
        out.push(0u8);
        out.push(0u8);
        push_u32(&mut out, self.shmseg.raw());
        push_u32(&mut out, self.offset);
        assert(out@ =~= self.spec_to_bytes());
        out
    }
}

/// Attach a shared memory segment passed as a file descriptor.
#[derive(Debug, Clone)]
pub struct AttachFd {
    pub shmseg: ShmSegId,
    pub read_only: bool,
}

impl AttachFd {
    /// The request's bytes after the major opcode.
    pub open spec fn spec_to_bytes(&self) -> Seq<u8> {
        seq![ATTACH_FD] + spec_u16_bytes(3) + spec_u32_bytes(self.shmseg.spec_raw()) + seq![if self.read_only { 1u8 } else { 0u8 }] + seq![0u8] + seq![16u8]
    }

    /// The request's bytes after the major opcode.
    pub fn to_le_bytes(&self) -> (r: Vec<u8>)
        ensures
            r@ == self.spec_to_bytes(),
    {
        proof {
            lemma_raw_is_view();
        }
        let mut out: Vec<u8> = Vec::new();
        out.push(ATTACH_FD);
        push_u16(&mut out, 3);
        push_u32(&mut out, self.shmseg.raw());
        out.push(if self.read_only { 1u8 } else { 0u8 });
        out.push(0u8);
        out.push(16u8);
        assert(out@ =~= self.spec_to_bytes());
        out
    }
}

/// Ask the server to create a shared memory segment.
#[derive(Debug, Clone)]
pub struct CreateSegment {
    pub shmseg: ShmSegId,
    pub size: u32,
    pub read_only: bool,
}

impl CreateSegment {
    /// The request's bytes after the major opcode.
    pub open spec fn spec_to_bytes(&self) -> Seq<u8> {
        seq![CREATE_SEGMENT] + spec_u16_bytes(4) + spec_u32_bytes(self.shmseg.spec_raw()) + spec_u32_bytes(self.size) + seq![if self.read_only { 1u8 } else { 0u8 }] + seq![0u8] + seq![16u8]
    }

    /// The request's bytes after the major opcode.
    pub fn to_le_bytes(&self) -> (r: Vec<u8>)
        ensures
            r@ == self.spec_to_bytes(),
    {
        proof {
            lemma_raw_is_view();
        }
        let mut out: Vec<u8> = Vec::new();
        out.push(CREATE_SEGMENT);
        push_u16(&mut out, 4);
        push_u32(&mut out, self.shmseg.raw());
        push_u32(&mut out, self.size);
        out.push(if self.read_only { 1u8 } else { 0u8 });
        out.push(0u8);
        out.push(16u8);
        assert(out@ =~= self.spec_to_bytes());
        out
    }
}

} // verus!
