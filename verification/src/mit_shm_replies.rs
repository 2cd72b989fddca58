//! Replies of the MIT-SHM extension.
use vstd::prelude::*;

use crate::bytes::{spec_le_u16, spec_le_u32, ByteReader};
use crate::error::{eof_error, Error};
use crate::ids::{lemma_raw_is_view, VisualId, XId};

verus! {

/// The version of the extension and whether it shares pixmaps.
#[derive(Debug, Clone, PartialEq, Eq)]
pub struct QueryVersion {
    pub shared_pixmaps: bool,
    pub major_version: u16,
    pub minor_version: u16,
    pub uid: u16,
    pub gid: u16,
    pub pixmap_format: u8,
}

impl QueryVersion {
    /// Whether `self` holds the fields encoded at the front of `s`.
    pub open spec fn decodes(self, s: Seq<u8>) -> bool {
        &&& self.shared_pixmaps == (s[0] != 0)
        &&& self.major_version == spec_le_u16(s, 7)
        &&& self.minor_version == spec_le_u16(s, 9)
        &&& self.uid == spec_le_u16(s, 11)
        &&& self.gid == spec_le_u16(s, 13)
        &&& self.pixmap_format == s[15]
    }

    /// Decodes the reply; its first byte was already consumed.
    pub fn from_le_bytes(conn: &mut ByteReader) -> (r: Result<Self, Error>)
        ensures
            ({
                let s = old(conn)@;
                if s.len() < 31 {
                    r == Err::<Self, Error>(eof_error()) && final(conn)@ == s
                } else {
                    r matches Ok(v) && v.decodes(s) && final(conn)@ == s.subrange(31, s.len() as int)
                }
            }),
    {
        proof {
            lemma_raw_is_view();
        }
        if conn.len() < 31 {
            return Err(Error::eof());
        }
        let shared_pixmaps = conn.byte(0) != 0;
        let major_version = conn.le_u16_ahead(7);
        let minor_version = conn.le_u16_ahead(9);
        let uid = conn.le_u16_ahead(11);
        let gid = conn.le_u16_ahead(13);
        let pixmap_format = conn.byte(15);
        conn.advance(31);
        Ok(QueryVersion { shared_pixmaps, major_version, minor_version, uid, gid, pixmap_format })
    }
}

/// An image written to a shared memory segment.
#[derive(Debug, Clone, PartialEq, Eq)]
pub struct GetImage {
    pub depth: u8,
    pub visual: VisualId,
    pub size: u32,
}

impl GetImage {
    /// Whether `self` holds the fields encoded at the front of `s`.
    pub open spec fn decodes(self, s: Seq<u8>) -> bool {
        &&& self.depth == s[0]
        &&& self.visual@ == spec_le_u32(s, 7)
        &&& self.size == spec_le_u32(s, 11)
    }

    /// Decodes the reply; its first byte was already consumed.
    pub fn from_le_bytes(conn: &mut ByteReader) -> (r: Result<Self, Error>)
        ensures
            ({
                let s = old(conn)@;
                if s.len() < 31 {
                    r == Err::<Self, Error>(eof_error()) && final(conn)@ == s
                } else {
                    r matches Ok(v) && v.decodes(s) && final(conn)@ == s.subrange(31, s.len() as int)
                }
            }),
    {
        proof {
            lemma_raw_is_view();
        }
        if conn.len() < 31 {
            return Err(Error::eof());
        }
        let depth = conn.byte(0);
        let visual = VisualId::unchecked_from(conn.le_u32_ahead(7));
        let size = conn.le_u32_ahead(11);
        conn.advance(31);
        Ok(GetImage { depth, visual, size })
    }
}

/// A shared memory segment created by the server, passed as file descriptors.
#[derive(Debug, Clone, PartialEq, Eq)]
pub struct CreateSegment {
    pub nfd: u8,
}

impl CreateSegment {
    /// Whether `self` holds the fields encoded at the front of `s`.
    pub open spec fn decodes(self, s: Seq<u8>) -> bool {
        &&& self.nfd == s[0]
    }

    /// Decodes the reply; its first byte was already consumed.
    pub fn from_le_bytes(conn: &mut ByteReader) -> (r: Result<Self, Error>)
        ensures
            ({
                let s = old(conn)@;
                if s.len() < 31 {
                    r == Err::<Self, Error>(eof_error()) && final(conn)@ == s
                } else {
                    r matches Ok(v) && v.decodes(s) && final(conn)@ == s.subrange(31, s.len() as int)
                }
            }),
    {
        proof {
            lemma_raw_is_view();
        }
        if conn.len() < 31 {
            return Err(Error::eof());
        }
        let nfd = conn.byte(0);
        conn.advance(31);
        Ok(CreateSegment { nfd })
    }
}

/// A decoded reply of the extension.
#[derive(Debug, Clone, PartialEq, Eq)]
pub enum SomeReply {
    QueryVersion(QueryVersion),
    GetImage(GetImage),
    CreateSegment(CreateSegment),
}

/// The kind of a reply of the extension, by the request that asked for it.
#[derive(Debug, Clone, Copy, PartialEq, Eq, Structural)]
pub enum ReplyType {
    QueryVersion,
    GetImage,
    CreateSegment,
}

} // verus!
