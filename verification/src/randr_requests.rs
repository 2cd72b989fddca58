//! Requests of the RandR extension, as the bytes that follow the extension's major opcode.
use vstd::prelude::*;

use crate::bytes::{push_u16, push_u32, spec_u16_bytes, spec_u32_bytes};
use crate::ids::{lemma_raw_is_view, CrtcId, Timestamp, WindowId, XId};
use crate::randr::{Rotation, SelectMask, SizeId};

verus! {

/// Minor opcode of the query version request.
pub const QUERY_VERSION: u8 = 0;

/// Minor opcode of the set screen configuration request.
pub const SET_SCREEN_CONFIG: u8 = 2;

/// Minor opcode of the select input request.
pub const SELECT_INPUT: u8 = 4;

/// Minor opcode of the CRTC information request.
pub const GET_CRTC_INFO: u8 = 20;

/// Minor opcode of the monitors request.
pub const GET_MONITORS: u8 = 42;

/// Ask which version of the extension the server speaks, telling it the client's.
#[derive(Debug)]
pub struct QueryVersion {
    pub major_version: u32,
    pub minor_version: u32,
}

impl QueryVersion {
    /// The request's bytes after the major opcode.
    pub open spec fn spec_to_bytes(&self) -> Seq<u8> {
        seq![QUERY_VERSION] + spec_u16_bytes(3) + spec_u32_bytes(self.major_version)
            + spec_u32_bytes(self.minor_version)
    }

    /// The request's bytes after the major opcode.
    pub fn to_le_bytes(&self) -> (r: Vec<u8>)
        ensures
            r@ == self.spec_to_bytes(),
    {
        let mut out: Vec<u8> = Vec::new();
        out.push(QUERY_VERSION);
        push_u16(&mut out, 3);
        push_u32(&mut out, self.major_version);
        push_u32(&mut out, self.minor_version);
        assert(out@ =~= self.spec_to_bytes());
        out
    }
}

/// Set the size, rotation and reflection of a screen.
#[derive(Debug)]
pub struct SetScreenConfig {
    pub window: WindowId,
    pub timestamp: Timestamp,
    pub config_timestamp: Timestamp,
    pub size_index: SizeId,
    pub rotation: Rotation,
}

impl SetScreenConfig {
    /// The request's bytes after the major opcode; the obsolete refresh rate is zero.
    pub open spec fn spec_to_bytes(&self) -> Seq<u8> {
        seq![SET_SCREEN_CONFIG] + spec_u16_bytes(6) + spec_u32_bytes(self.window@)
            + spec_u32_bytes(self.timestamp@) + spec_u32_bytes(self.config_timestamp@)
            + spec_u16_bytes(self.size_index@) + spec_u16_bytes(self.rotation.spec_to_u16())
            + spec_u16_bytes(0) + spec_u16_bytes(0)
    }

    /// The request's bytes after the major opcode.
    pub fn to_le_bytes(&self) -> (r: Vec<u8>)
        ensures
            r@ == self.spec_to_bytes(),
    {
        let mut out: Vec<u8> = Vec::new();
        out.push(SET_SCREEN_CONFIG);
        push_u16(&mut out, 6);
        push_u32(&mut out, self.window.id().value());
        push_u32(&mut out, self.timestamp.raw());
        push_u32(&mut out, self.config_timestamp.raw());
        push_u16(&mut out, self.size_index.raw());
        push_u16(&mut out, self.rotation.to_u16());
        push_u16(&mut out, 0);
        push_u16(&mut out, 0);
        assert(out@ =~= self.spec_to_bytes());
        out
    }
}

/// Choose which events of the extension a window receives.
pub struct SelectInput {
    pub window: WindowId,
    pub enable: SelectMask,
}

impl SelectInput {
    /// The request's bytes after the major opcode.
    pub open spec fn spec_to_bytes(&self) -> Seq<u8> {
        seq![SELECT_INPUT] + spec_u16_bytes(3) + spec_u32_bytes(self.window@) + spec_u16_bytes(
            self.enable.value,
        ) + spec_u16_bytes(0)
    }

    /// The request's bytes after the major opcode.
    pub fn to_le_bytes(&self) -> (r: Vec<u8>)
        ensures
            r@ == self.spec_to_bytes(),
    {
        let mut out: Vec<u8> = Vec::new();
        out.push(SELECT_INPUT);
        push_u16(&mut out, 3);
        push_u32(&mut out, self.window.id().value());
        push_u16(&mut out, self.enable.raw());
        push_u16(&mut out, 0);
        assert(out@ =~= self.spec_to_bytes());
        out
    }
}

/// Ask where a CRTC scans out, in which mode, to which outputs.
#[derive(Debug)]
pub struct GetCrtcInfo {
    pub crtc: CrtcId,
    pub timestamp: Timestamp,
}

impl GetCrtcInfo {
    /// The request's bytes after the major opcode.
    pub open spec fn spec_to_bytes(&self) -> Seq<u8> {
        seq![GET_CRTC_INFO] + spec_u16_bytes(3) + spec_u32_bytes(self.crtc@) + spec_u32_bytes(
            self.timestamp@,
        )
    }

    /// The request's bytes after the major opcode.
    pub fn to_le_bytes(&self) -> (r: Vec<u8>)
        ensures
            r@ == self.spec_to_bytes(),
    {
        let mut out: Vec<u8> = Vec::new();
        out.push(GET_CRTC_INFO);
        push_u16(&mut out, 3);
        proof {
            lemma_raw_is_view();
        }
        push_u32(&mut out, self.crtc.raw());
        push_u32(&mut out, self.timestamp.raw());
        assert(out@ =~= self.spec_to_bytes());
        out
    }
}

/// Ask for the monitors of a window's screen, or only the active ones.
#[derive(Debug)]
pub struct GetMonitors {
    pub window: WindowId,
    pub get_active: bool,
}

impl GetMonitors {
    /// The request's bytes after the major opcode: the length counts the flag's word too.
    pub open spec fn spec_to_bytes(&self) -> Seq<u8> {
        seq![GET_MONITORS] + spec_u16_bytes(3) + spec_u32_bytes(self.window@) + seq![
            if self.get_active { 1u8 } else { 0u8 },
            0u8,
            0u8,
            0u8,
        ]
    }

    /// The request's bytes after the major opcode.
    pub fn to_le_bytes(&self) -> (r: Vec<u8>)
        ensures
            r@ == self.spec_to_bytes(),
    {
        let mut out: Vec<u8> = Vec::new();
        out.push(GET_MONITORS);
        push_u16(&mut out, 3);
        push_u32(&mut out, self.window.id().value());
        out.push(if self.get_active { 1u8 } else { 0u8 });
        out.push(0u8);
        out.push(0u8);
        out.push(0u8);
        assert(out@ =~= self.spec_to_bytes());
        out
    }
}

} // verus!
