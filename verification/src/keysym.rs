//! Key symbols: the numbers X11 gives the characters and functions of keys.
use vstd::prelude::*;

use crate::bytes::{spec_le_u32, ByteReader};
use crate::error::{eof_error, Error};

verus! {

/// A key symbol, by its number.
#[derive(Debug, Clone, Copy, PartialEq, Eq, Structural, PartialOrd, Ord, Hash)]
pub struct KeySym {
    pub inner: u32,
}

#[allow(non_upper_case_globals)]
impl KeySym {
    pub const NO_SYMBOL: u32 = 0x00000000;
    pub const A: u32 = 0x0041;
    pub const Z: u32 = 0x005a;
    pub const a: u32 = 0x0061;
    pub const d: u32 = 0x0064;
    pub const f: u32 = 0x0066;
    pub const j: u32 = 0x006a;
    pub const k: u32 = 0x006b;
    pub const q: u32 = 0x0071;
    pub const r: u32 = 0x0072;
    pub const z: u32 = 0x007a;
    pub const Agrave: u32 = 0x00c0;
    pub const Odiaeresis: u32 = 0x00d6;
    pub const Ooblique: u32 = 0x00d8;
    pub const Thorn: u32 = 0x00de;
    pub const agrave: u32 = 0x00e0;
    pub const odiaeresis: u32 = 0x00f6;
    pub const oslash: u32 = 0x00f8;
    pub const thorn: u32 = 0x00fe;
    pub const Aogonek: u32 = 0x01a1;
    pub const Lstroke: u32 = 0x01a3;
    pub const Sacute: u32 = 0x01a6;
    pub const Scaron: u32 = 0x01a9;
    pub const Zacute: u32 = 0x01ac;
    pub const Zcaron: u32 = 0x01ae;
    pub const Zabovedot: u32 = 0x01af;
    pub const aogonek: u32 = 0x01b1;
    pub const lstroke: u32 = 0x01b3;
    pub const sacute: u32 = 0x01b6;
    pub const scaron: u32 = 0x01b9;
    pub const zacute: u32 = 0x01bc;
    pub const zcaron: u32 = 0x01be;
    pub const zabovedot: u32 = 0x01bf;
    pub const Racute: u32 = 0x01c0;
    pub const Tcedilla: u32 = 0x01de;
    pub const racute: u32 = 0x01e0;
    pub const tcedilla: u32 = 0x01fe;
    pub const Hstroke: u32 = 0x02a1;
    pub const Hcircumflex: u32 = 0x02a6;
    pub const Gbreve: u32 = 0x02ab;
    pub const Jcircumflex: u32 = 0x02ac;
    pub const hstroke: u32 = 0x02b1;
    pub const hcircumflex: u32 = 0x02b6;
    pub const gbreve: u32 = 0x02bb;
    pub const jcircumflex: u32 = 0x02bc;
    pub const Cabovedot: u32 = 0x02c5;
    pub const Scircumflex: u32 = 0x02de;
    pub const cabovedot: u32 = 0x02e5;
    pub const scircumflex: u32 = 0x02fe;
    pub const Rcedilla: u32 = 0x03a3;
    pub const Tslash: u32 = 0x03ac;
    pub const rcedilla: u32 = 0x03b3;
    pub const tslash: u32 = 0x03bc;
    pub const ENG: u32 = 0x03bd;
    pub const eng: u32 = 0x03bf;
    pub const Amacron: u32 = 0x03c0;
    pub const Umacron: u32 = 0x03de;
    pub const amacron: u32 = 0x03e0;
    pub const umacron: u32 = 0x03fe;
    pub const Serbian_dje: u32 = 0x06a1;
    pub const Serbian_dze: u32 = 0x06af;
    pub const Serbian_DJE: u32 = 0x06b1;
    pub const Serbian_DZE: u32 = 0x06bf;
    pub const Cyrillic_yu: u32 = 0x06c0;
    pub const Cyrillic_hardsign: u32 = 0x06df;
    pub const Cyrillic_YU: u32 = 0x06e0;
    pub const Cyrillic_HARDSIGN: u32 = 0x06ff;
    pub const Greek_ALPHAaccent: u32 = 0x07a1;
    pub const Greek_OMEGAaccent: u32 = 0x07ab;
    pub const Greek_alphaaccent: u32 = 0x07b1;
    pub const Greek_iotaaccentdieresis: u32 = 0x07b6;
    pub const Greek_upsilonaccentdieresis: u32 = 0x07ba;
    pub const Greek_omegaaccent: u32 = 0x07bb;
    pub const Greek_ALPHA: u32 = 0x07c1;
    pub const Greek_OMEGA: u32 = 0x07d9;
    pub const Greek_alpha: u32 = 0x07e1;
    pub const Greek_finalsmallsigma: u32 = 0x07f3;
    pub const Greek_omega: u32 = 0x07f9;
    pub const ISO_Lock: u32 = 0xfe01;
    pub const ISO_Level5_Lock: u32 = 0xfe13;
    pub const BackSpace: u32 = 0xff08;
    pub const Tab: u32 = 0xff09;
    pub const Linefeed: u32 = 0xff0a;
    pub const Clear: u32 = 0xff0b;
    pub const Return: u32 = 0xff0d;
    pub const Pause: u32 = 0xff13;
    pub const Scroll_Lock: u32 = 0xff14;
    pub const Sys_Req: u32 = 0xff15;
    pub const Escape: u32 = 0xff1b;
    pub const Multi_key: u32 = 0xff20;
    pub const Codeinput: u32 = 0xff37;
    pub const SingleCandidate: u32 = 0xff3c;
    pub const MultipleCandidate: u32 = 0xff3d;
    pub const PreviousCandidate: u32 = 0xff3e;
    pub const Home: u32 = 0xff50;
    pub const Left: u32 = 0xff51;
    pub const Up: u32 = 0xff52;
    pub const Right: u32 = 0xff53;
    pub const Down: u32 = 0xff54;
    pub const Prior: u32 = 0xff55;
    pub const Next: u32 = 0xff56;
    pub const End: u32 = 0xff57;
    pub const Begin: u32 = 0xff58;
    pub const Select: u32 = 0xff60;
    pub const Print: u32 = 0xff61;
    pub const Execute: u32 = 0xff62;
    pub const Insert: u32 = 0xff63;
    pub const Undo: u32 = 0xff65;
    pub const Redo: u32 = 0xff66;
    pub const Menu: u32 = 0xff67;
    pub const Find: u32 = 0xff68;
    pub const Cancel: u32 = 0xff69;
    pub const Help: u32 = 0xff6a;
    pub const Break: u32 = 0xff6b;
    pub const Mode_switch: u32 = 0xff7e;
    pub const Num_Lock: u32 = 0xff7f;
    pub const KP_Space: u32 = 0xff80;
    pub const KP_F1: u32 = 0xff91;
    pub const KP_F4: u32 = 0xff94;
    pub const KP_Equal: u32 = 0xffbd;
    pub const F1: u32 = 0xffbe;
    pub const F2: u32 = 0xffbf;
    pub const F3: u32 = 0xffc0;
    pub const F4: u32 = 0xffc1;
    pub const F5: u32 = 0xffc2;
    pub const F6: u32 = 0xffc3;
    pub const F7: u32 = 0xffc4;
    pub const F8: u32 = 0xffc5;
    pub const F9: u32 = 0xffc6;
    pub const F10: u32 = 0xffc7;
    pub const F11: u32 = 0xffc8;
    pub const F12: u32 = 0xffc9;
    pub const F13: u32 = 0xffca;
    pub const F14: u32 = 0xffcb;
    pub const F15: u32 = 0xffcc;
    pub const F16: u32 = 0xffcd;
    pub const F17: u32 = 0xffce;
    pub const F18: u32 = 0xffcf;
    pub const F19: u32 = 0xffd0;
    pub const F20: u32 = 0xffd1;
    pub const F21: u32 = 0xffd2;
    pub const F22: u32 = 0xffd3;
    pub const F23: u32 = 0xffd4;
    pub const F24: u32 = 0xffd5;
    pub const F25: u32 = 0xffd6;
    pub const F26: u32 = 0xffd7;
    pub const F27: u32 = 0xffd8;
    pub const F28: u32 = 0xffd9;
    pub const F29: u32 = 0xffda;
    pub const F30: u32 = 0xffdb;
    pub const F31: u32 = 0xffdc;
    pub const F32: u32 = 0xffdd;
    pub const F33: u32 = 0xffde;
    pub const F34: u32 = 0xffdf;
    pub const F35: u32 = 0xffe0;
    pub const Shift_L: u32 = 0xffe1;
    pub const Shift_R: u32 = 0xffe2;
    pub const Control_L: u32 = 0xffe3;
    pub const Control_R: u32 = 0xffe4;
    pub const Caps_Lock: u32 = 0xffe5;
    pub const Shift_Lock: u32 = 0xffe6;
    pub const Meta_L: u32 = 0xffe7;
    pub const Meta_R: u32 = 0xffe8;
    pub const Alt_L: u32 = 0xffe9;
    pub const Alt_R: u32 = 0xffea;
    pub const Super_L: u32 = 0xffeb;
    pub const Super_R: u32 = 0xffec;
    pub const Hyper_L: u32 = 0xffed;
    pub const Hyper_R: u32 = 0xffee;
    pub const Delete: u32 = 0xffff;
    pub const VOID_SYMBOL: u32 = 0x00ffffff;
    pub const Armenian_AYB: u32 = 0x1000531;
    pub const Armenian_fe: u32 = 0x1000586;

    /// The key symbol numbered `inner`.
    pub fn from_raw(inner: u32) -> (r: Self)
        ensures
            r.inner == inner,
    {
        Self { inner }
    }

    /// The wire encoding.
    pub fn to_le_bytes(self) -> (r: [u8; 4])
        ensures
            spec_le_u32(r@, 0) == self.inner,
    {
        let v = self.inner;
        let r = [(v & 0xff) as u8, ((v >> 8) & 0xff) as u8, ((v >> 16) & 0xff) as u8, (v >> 24) as u8];
        assert(spec_le_u32(r@, 0) == self.inner) by {
            assert(r@[0] == (v & 0xff) as u8 && r@[1] == ((v >> 8) & 0xff) as u8 && r@[2] == ((v >> 16) & 0xff) as u8 && r@[3] == (v >> 24) as u8);
            assert(((v & 0xff) as u8) as u32 + ((((v >> 8) & 0xff) as u8) as u32) * 0x100 + ((((v >> 16) & 0xff) as u8) as u32) * 0x1_0000 + (((v >> 24) as u8) as u32) * 0x100_0000 == v) by (bit_vector);
        }
        r
    }

    /// Decodes a key symbol from the front of the input.
    pub fn from_le_bytes(conn: &mut ByteReader) -> (r: Result<Self, Error>)
        ensures
            ({
                let s = old(conn)@;
                if s.len() < 4 {
                    r == Err::<Self, Error>(eof_error()) && final(conn)@ == s
                } else {
                    r == Ok::<Self, Error>(KeySym { inner: spec_le_u32(s, 0) }) && final(conn)@ == s.subrange(4, s.len() as int)
                }
            }),
    {
        let inner = conn.read_le_u32()?;
        Ok(Self { inner })
    }
}

} // verus!
