//! Replies of the RandR extension.
use vstd::prelude::*;

use crate::bytes::{spec_le_i16, spec_le_u16, spec_le_u32, ByteReader};
use crate::error::{eof_error, Error};
use crate::ids::{lemma_raw_is_view, OutputId, Timestamp, WindowId, XId};
use crate::randr::{ConfigStatus, MonitorInfo, PossibleRotation};
use crate::render::Subpixel;
use crate::replies::{read_ids, spec_raws, spec_u32s, XReply};

verus! {

/// The version of the extension the server speaks.
#[derive(Debug, Clone, Copy, PartialEq, Eq, Structural)]
pub struct QueryVersion {
    pub major_version: u32,
    pub minor_version: u32,
}

impl QueryVersion {
    /// Whether `self` holds the fields encoded at the front of `s`.
    pub open spec fn decodes(self, s: Seq<u8>) -> bool {
        &&& self.major_version == spec_le_u32(s, 7)
        &&& self.minor_version == spec_le_u32(s, 11)
    }

    /// Decodes the reply; its first byte was already consumed.
    pub fn from_le_bytes(conn: &mut ByteReader) -> (r: Result<Self, Error>)
        ensures
            ({
                let s = old(conn)@;
                if s.len() < 31 {
                    r == Err::<Self, Error>(eof_error()) && final(conn)@ == s
                } else {
                    r matches Ok(v) && v.decodes(s) && final(conn)@ == s.subrange(31, s.len() as int)
                }
            }),
    {
        proof {
            lemma_raw_is_view();
        }
        if conn.len() < 31 {
            return Err(Error::eof());
        }
        let major_version = conn.le_u32_ahead(7);
        let minor_version = conn.le_u32_ahead(11);
        conn.advance(31);
        Ok(QueryVersion { major_version, minor_version })
    }
}

/// Outcome of setting the screen configuration.
#[derive(Debug, Clone, PartialEq, Eq)]
pub struct SetScreenConfig {
    pub status: ConfigStatus,
    pub new_timestamp: Timestamp,
    pub new_configuration_timestamp: Timestamp,
    pub root: WindowId,
    pub subpixel_order: Subpixel,
}

impl SetScreenConfig {
    /// Whether `self` holds the fields encoded at the front of `s`.
    pub open spec fn decodes(self, s: Seq<u8>) -> bool {
        &&& ConfigStatus::spec_from_u8(s[0]) == Some(self.status)
        &&& self.new_timestamp@ == spec_le_u32(s, 7)
        &&& self.new_configuration_timestamp@ == spec_le_u32(s, 11)
        &&& self.root@ == spec_le_u32(s, 15)
        &&& Subpixel::spec_from_u16(spec_le_u16(s, 19)) == Some(self.subpixel_order)
    }

    /// The error decoding stops at, where an enumerated field holds an unknown value.
    pub open spec fn spec_invalid_enum(s: Seq<u8>) -> Option<Error> {
        if s.len() >= 1 && ConfigStatus::spec_from_u8(s[0]) is None {
            Some(Error::InvalidEnum("Self", s[0] as u64))
        } else if s.len() >= 21 && Subpixel::spec_from_u16(spec_le_u16(s, 19)) is None {
            Some(Error::InvalidEnum("Self", spec_le_u16(s, 19) as u64))
        } else {
            None
        }
    }

    /// Decodes the reply; its first byte was already consumed.
    pub fn from_le_bytes(conn: &mut ByteReader) -> (r: Result<Self, Error>)
        ensures
            ({
                let s = old(conn)@;
                if Self::spec_invalid_enum(s) is Some {
                    r == Err::<Self, Error>(Self::spec_invalid_enum(s)->0) && final(conn)@ == s
                } else if s.len() < 31 {
                    r == Err::<Self, Error>(eof_error()) && final(conn)@ == s
                } else {
                    r matches Ok(v) && v.decodes(s) && final(conn)@ == s.subrange(31, s.len() as int)
                }
            }),
    {
        proof {
            lemma_raw_is_view();
        }
        if conn.len() >= 1 && ConfigStatus::from_u8(conn.byte(0)).is_none() {
            return Err(Error::InvalidEnum("Self", conn.byte(0) as u64));
        }
        if conn.len() >= 21 && Subpixel::from_u16(conn.le_u16_ahead(19)).is_none() {
            return Err(Error::InvalidEnum("Self", conn.le_u16_ahead(19) as u64));
        }
        if conn.len() < 31 {
            return Err(Error::eof());
        }
        let status = match ConfigStatus::from_u8(conn.byte(0)) {
            Some(v) => v,
            None => return Err(Error::InvalidEnum("Self", conn.byte(0) as u64)),
        };
        let new_timestamp = Timestamp::from_u32(conn.le_u32_ahead(7));
        let new_configuration_timestamp = Timestamp::from_u32(conn.le_u32_ahead(11));
        let root = WindowId::unchecked_from(conn.le_u32_ahead(15));
        let subpixel_order = match Subpixel::from_u16(conn.le_u16_ahead(19)) {
            Some(v) => v,
            None => return Err(Error::InvalidEnum("Self", conn.le_u16_ahead(19) as u64)),
        };
        conn.advance(31);
        Ok(SetScreenConfig { status, new_timestamp, new_configuration_timestamp, root, subpixel_order })
    }
}

/// A size a screen can take, in pixels and millimeters.
#[derive(Debug, Clone, Copy, PartialEq, Eq, Structural)]
pub struct ScreenSize {
    pub width_in_pixels: u16,
    pub height_in_pixels: u16,
    pub width_in_millimeters: u16,
    pub height_in_millimeters: u16,
}

impl ScreenSize {
    /// Whether `self` holds the fields encoded at the front of `s`.
    pub open spec fn decodes(self, s: Seq<u8>) -> bool {
        &&& self.width_in_pixels == spec_le_u16(s, 0)
        &&& self.height_in_pixels == spec_le_u16(s, 2)
        &&& self.width_in_millimeters == spec_le_u16(s, 4)
        &&& self.height_in_millimeters == spec_le_u16(s, 6)
    }

    /// Decodes the structure from the front of the input.
    pub fn from_le_bytes(conn: &mut ByteReader) -> (r: Result<Self, Error>)
        ensures
            ({
                let s = old(conn)@;
                if s.len() < 8 {
                    r == Err::<Self, Error>(eof_error()) && final(conn)@ == s
                } else {
                    r matches Ok(v) && v.decodes(s) && final(conn)@ == s.subrange(8, s.len() as int)
                }
            }),
    {
        proof {
            lemma_raw_is_view();
        }
        if conn.len() < 8 {
            return Err(Error::eof());
        }
        let width_in_pixels = conn.le_u16_ahead(0);
        let height_in_pixels = conn.le_u16_ahead(2);
        let width_in_millimeters = conn.le_u16_ahead(4);
        let height_in_millimeters = conn.le_u16_ahead(6);
        conn.advance(8);
        Ok(ScreenSize { width_in_pixels, height_in_pixels, width_in_millimeters, height_in_millimeters })
    }
}

/// The CRTC information reply: where a CRTC scans out, in which mode and rotation, to which
/// outputs.
#[derive(Debug, Clone, PartialEq, Eq)]
pub struct GetCrtcInfo {
    pub status: u8,
    pub timestamp: Timestamp,
    pub x: i16,
    pub y: i16,
    pub width: u16,
    pub height: u16,
    pub mode: u32,
    pub current_rotation: u16,
    pub available_rotations: u16,
    pub outputs: Vec<OutputId>,
    pub possible_outputs: Vec<OutputId>,
}

impl GetCrtcInfo {
    /// Bytes the reply takes, not counting its first byte.
    pub open spec fn spec_len(s: Seq<u8>) -> int {
        31 + 4 * spec_le_u16(s, 27) + 4 * spec_le_u16(s, 29)
    }

    /// Whether `self` holds the fields encoded at the front of `s`.
    pub open spec fn decodes(&self, s: Seq<u8>) -> bool {
        &&& self.status == s[0]
        &&& self.timestamp@ == spec_le_u32(s, 7)
        &&& self.x == spec_le_i16(s, 11)
        &&& self.y == spec_le_i16(s, 13)
        &&& self.width == spec_le_u16(s, 15)
        &&& self.height == spec_le_u16(s, 17)
        &&& self.mode == spec_le_u32(s, 19)
        &&& self.current_rotation == spec_le_u16(s, 23)
        &&& self.available_rotations == spec_le_u16(s, 25)
        &&& spec_raws(self.outputs@) == spec_u32s(s, 31, spec_le_u16(s, 27) as int)
        &&& spec_raws(self.possible_outputs@) == spec_u32s(
            s,
            31 + 4 * spec_le_u16(s, 27),
            spec_le_u16(s, 29) as int,
        )
    }

    /// Decodes the reply; its first byte was already consumed.
    pub fn from_le_bytes(conn: &mut ByteReader) -> (r: Result<Self, Error>)
        ensures
            ({
                let s = old(conn)@;
                if s.len() < 31 || s.len() < Self::spec_len(s) {
                    r == Err::<Self, Error>(eof_error()) && final(conn)@ == s
                } else {
                    r matches Ok(v) && v.decodes(s) && final(conn)@ == s.subrange(
                        Self::spec_len(s),
                        s.len() as int,
                    )
                }
            }),
    {
        proof {
            lemma_raw_is_view();
        }
        if conn.len() < 31 {
            return Err(Error::eof());
        }
        let outputs_count = conn.le_u16_ahead(27) as usize;
        let possible_outputs_count = conn.le_u16_ahead(29) as usize;
        if conn.len() - 31 < 4 * outputs_count + 4 * possible_outputs_count {
            return Err(Error::eof());
        }
        let status = conn.byte(0);
        let timestamp = Timestamp::from_u32(conn.le_u32_ahead(7));
        let x = conn.le_i16_ahead(11);
        let y = conn.le_i16_ahead(13);
        let width = conn.le_u16_ahead(15);
        let height = conn.le_u16_ahead(17);
        let mode = conn.le_u32_ahead(19);
        let current_rotation = conn.le_u16_ahead(23);
        let available_rotations = conn.le_u16_ahead(25);
        let outputs = read_ids(conn, 31, outputs_count);
        let possible_outputs = read_ids(conn, 31 + 4 * outputs_count, possible_outputs_count);
        conn.advance(31 + 4 * outputs_count + 4 * possible_outputs_count);
        Ok(Self {
            status,
            timestamp,
            x,
            y,
            width,
            height,
            mode,
            current_rotation,
            available_rotations,
            outputs,
            possible_outputs,
        })
    }
}

/// `count` little-endian 16-bit numbers stored one after another from `s[offset]` on.
pub open spec fn spec_u16s(s: Seq<u8>, offset: int, count: int) -> Seq<u16> {
    Seq::new(count as nat, |i: int| spec_le_u16(s, offset + 2 * i))
}

fn read_u16s(conn: &ByteReader, offset: usize, count: usize) -> (r: Vec<u16>)
    requires
        offset + 2 * count <= conn@.len(),
    ensures
        r@ == spec_u16s(conn@, offset as int, count as int),
{
    let available = conn.len();
    let mut out: Vec<u16> = Vec::new();
    let mut i: usize = 0;
    while i < count
        invariant
            i <= count,
            available == conn@.len(),
            offset + 2 * count <= conn@.len(),
            out@ == spec_u16s(conn@, offset as int, i as int),
        decreases count - i,
    {
        out.push(conn.le_u16_ahead(offset + 2 * i));
        i = i + 1;
        assert(out@ =~= spec_u16s(conn@, offset as int, i as int));
    }
    out
}

/// The refresh rates of one screen size.
#[derive(Debug, Clone, PartialEq, Eq)]
pub struct Refresh {
    pub rates: Vec<u16>,
}

impl Refresh {
    /// Bytes the structure takes at the front of `s`.
    pub open spec fn spec_len(s: Seq<u8>) -> int {
        2 + 2 * spec_le_u16(s, 0)
    }

    /// Whether `self` holds the rates encoded at the front of `s`.
    pub open spec fn decodes(&self, s: Seq<u8>) -> bool {
        self.rates@ == spec_u16s(s, 2, spec_le_u16(s, 0) as int)
    }

    /// Decodes the structure from the front of the input.
    pub fn from_le_bytes(conn: &mut ByteReader) -> (r: Result<Self, Error>)
        ensures
            ({
                let s = old(conn)@;
                if s.len() < 2 || s.len() < Self::spec_len(s) {
                    r == Err::<Self, Error>(eof_error()) && final(conn)@ == s
                } else {
                    r matches Ok(v) && v.decodes(s) && final(conn)@ == s.subrange(
                        Self::spec_len(s),
                        s.len() as int,
                    )
                }
            }),
    {
        if conn.len() < 2 {
            return Err(Error::eof());
        }
        let n = conn.le_u16_ahead(0) as usize;
        if conn.len() - 2 < 2 * n {
            return Err(Error::eof());
        }
        let rates = read_u16s(conn, 2, n);
        conn.advance(2 + 2 * n);
        Ok(Self { rates })
    }
}

/// The kind of a reply of the extension, by the request that asked for it.
#[derive(Debug, Clone, Copy, PartialEq, Eq, Structural)]
pub enum ReplyType {
    QueryVersion,
    SetScreenConfig,
    GetScreenInfo,
    GetCrtcInfo,
    GetMonitors,
}

/// Where the refresh structure `i` of those from `at` on starts.
pub open spec fn refresh_at(s: Seq<u8>, at: int, i: nat) -> int
    decreases i,
{
    if i == 0 {
        at
    } else {
        let p = refresh_at(s, at, (i - 1) as nat);
        p + 2 + 2 * spec_le_u16(s, p)
    }
}

/// Whether the `count` refresh structures from `at` on all lie within `s`.
pub open spec fn refreshes_fit(s: Seq<u8>, at: int, count: nat) -> bool {
    forall|i: nat|
        i < count ==> #[trigger] refresh_at(s, at, i) + 2 <= s.len() && refresh_at(s, at, i) + 2
            + 2 * spec_le_u16(s, refresh_at(s, at, i)) <= s.len()
}

/// The refresh structures start one after another, each after the last.
pub proof fn lemma_refresh_at_grows(s: Seq<u8>, at: int, i: nat)
    ensures
        at <= refresh_at(s, at, i),
        refresh_at(s, at, i + 1) == refresh_at(s, at, i) + 2 + 2 * spec_le_u16(
            s,
            refresh_at(s, at, i),
        ),
    decreases i,
{
    if i > 0 {
        lemma_refresh_at_grows(s, at, (i - 1) as nat);
    }
}

/// The screen information reply: the sizes, rates and rotations a screen supports, and the
/// current ones.
#[derive(Debug, Clone, PartialEq, Eq)]
pub struct GetScreenInfo {
    /// Set of rotations and reflections supported by the screen
    pub supported_rotations: PossibleRotation,
    /// The root window of the screen
    pub root: WindowId,
    /// When the screen configuration information last changed
    pub timestamp: Timestamp,
    /// When the configuration was last set
    pub config_timestamp: Timestamp,
    /// The active size
    pub current_size: ScreenSize,
    pub current_rotation_and_reflection: PossibleRotation,
    pub current_rate: u16,
    pub screen_sizes: Vec<ScreenSize>,
    pub refresh_rates: Vec<Refresh>,
}

impl GetScreenInfo {
    /// The number of screen sizes.
    pub open spec fn spec_count(s: Seq<u8>) -> int {
        spec_le_u16(s, 19) as int
    }

    /// Where the refresh structures start.
    pub open spec fn spec_rates_at(s: Seq<u8>) -> int {
        31 + 8 * Self::spec_count(s)
    }

    /// Bytes the reply takes, not counting its first byte; two trailing bytes are taken too.
    pub open spec fn spec_len(s: Seq<u8>) -> int {
        refresh_at(s, Self::spec_rates_at(s), Self::spec_count(s) as nat) + 2
    }

    /// Whether the whole reply lies within `s`.
    pub open spec fn spec_complete(s: Seq<u8>) -> bool {
        &&& s.len() >= 31
        &&& Self::spec_rates_at(s) <= s.len()
        &&& refreshes_fit(s, Self::spec_rates_at(s), Self::spec_count(s) as nat)
        &&& Self::spec_len(s) <= s.len()
    }

    /// Whether `self` holds the fields encoded at the front of `s`.
    pub open spec fn decodes(&self, s: Seq<u8>) -> bool {
        &&& self.supported_rotations.value == s[0] as u16
        &&& self.root@ == spec_le_u32(s, 7)
        &&& self.timestamp@ == spec_le_u32(s, 11)
        &&& self.config_timestamp@ == spec_le_u32(s, 15)
        &&& self.current_rotation_and_reflection.value == spec_le_u16(s, 23)
        &&& self.current_rate == spec_le_u16(s, 25)
        &&& self.screen_sizes@.len() == Self::spec_count(s)
        &&& forall|i: int|
            0 <= i < Self::spec_count(s) ==> (#[trigger] self.screen_sizes@[i]).decodes(
                s.subrange(31 + 8 * i, s.len() as int),
            )
        &&& self.refresh_rates@.len() == Self::spec_count(s)
        &&& forall|i: int|
            0 <= i < Self::spec_count(s) ==> (#[trigger] self.refresh_rates@[i]).decodes(
                s.subrange(refresh_at(s, Self::spec_rates_at(s), i as nat), s.len() as int),
            )
        &&& self.current_size == self.screen_sizes@[spec_le_u16(s, 21) as int]
    }

    /// Decodes the reply; its first byte was already consumed. The current size index of a
    /// complete reply must name one of its sizes.
    pub fn from_le_bytes(conn: &mut ByteReader) -> (r: Result<Self, Error>)
        requires
            Self::spec_complete(old(conn)@) ==> spec_le_u16(old(conn)@, 21) < Self::spec_count(
                old(conn)@,
            ),
        ensures
            ({
                let s = old(conn)@;
                if !Self::spec_complete(s) {
                    r == Err::<Self, Error>(eof_error()) && final(conn)@ == s
                } else {
                    r matches Ok(v) && v.decodes(s) && final(conn)@ == s.subrange(
                        Self::spec_len(s),
                        s.len() as int,
                    )
                }
            }),
    {
        proof {
            lemma_raw_is_view();
        }
        let ghost s = conn@;
        let available = conn.len();
        if available < 31 {
            return Err(Error::eof());
        }
        let count = conn.le_u16_ahead(19) as usize;
        if (available - 31) / 8 < count {
            return Err(Error::eof());
        }
        let rates_at = 31 + 8 * count;
        let mut pos = rates_at;
        let mut i: usize = 0;
        while i < count
            invariant
                conn@ == s,
                available == s.len(),
                count == Self::spec_count(s),
                rates_at == Self::spec_rates_at(s),
                rates_at <= s.len(),
                i <= count,
                pos == refresh_at(s, rates_at as int, i as nat),
                pos <= s.len(),
                refreshes_fit(s, rates_at as int, i as nat),
            decreases count - i,
        {
            let ghost ii = i as nat;
            proof {
                lemma_refresh_at_grows(s, rates_at as int, ii);
            }
            if available - pos < 2 {
                proof {
                    assert(refresh_at(s, rates_at as int, ii) + 2 > s.len());
                }
                return Err(Error::eof());
            }
            let n = conn.le_u16_ahead(pos) as usize;
            if (available - pos - 2) / 2 < n {
                proof {
                    assert(refresh_at(s, rates_at as int, ii) + 2 + 2 * spec_le_u16(
                        s,
                        refresh_at(s, rates_at as int, ii),
                    ) > s.len());
                }
                return Err(Error::eof());
            }
            pos = pos + 2 + 2 * n;
            proof {
                assert forall|j: nat| j < ii + 1 implies #[trigger] refresh_at(s, rates_at as int, j) + 2
                    <= s.len() && refresh_at(s, rates_at as int, j) + 2 + 2 * spec_le_u16(
                    s,
                    refresh_at(s, rates_at as int, j),
                ) <= s.len() by {
                    if j < ii {
                        assert(refresh_at(s, rates_at as int, j) + 2 <= s.len());
                    }
                }
                assert(pos == refresh_at(s, rates_at as int, ii + 1));
            }
            i = i + 1;
        }
        if available - pos < 2 {
            return Err(Error::eof());
        }
        assert(pos == refresh_at(s, rates_at as int, count as nat));
        let supported_rotations = PossibleRotation { value: conn.byte(0) as u16 };
        let root = WindowId::unchecked_from(conn.le_u32_ahead(7));
        let timestamp = Timestamp::from_u32(conn.le_u32_ahead(11));
        let config_timestamp = Timestamp::from_u32(conn.le_u32_ahead(15));
        let current_size_index = conn.le_u16_ahead(21) as usize;
        let current_rotation_and_reflection = PossibleRotation { value: conn.le_u16_ahead(23) };
        let current_rate = conn.le_u16_ahead(25);
        conn.advance(31);
        let mut screen_sizes: Vec<ScreenSize> = Vec::new();
        let mut k: usize = 0;
        while k < count
            invariant
                k <= count,
                count == Self::spec_count(s),
                rates_at == 31 + 8 * count,
                rates_at <= s.len(),
                conn@ == s.subrange(31 + 8 * k, s.len() as int),
                screen_sizes@.len() == k,
                31 + 8 * count <= s.len(),
                forall|j: int|
                    0 <= j < k ==> (#[trigger] screen_sizes@[j]).decodes(
                        s.subrange(31 + 8 * j, s.len() as int),
                    ),
            decreases count - k,
        {
            assert(conn@.len() >= 8) by (nonlinear_arith)
                requires
                    conn@.len() == s.len() - (31 + 8 * k),
                    k < count,
                    31 + 8 * count <= s.len(),
            ;
            let size = ScreenSize::from_le_bytes(conn);
            let size = match size {
                Ok(v) => v,
                Err(e) => {
                    return Err(e);
                },
            };
            proof {
                assert(conn@ =~= s.subrange(31 + 8 * (k + 1), s.len() as int));
            }
            screen_sizes.push(size);
            k = k + 1;
        }
        let mut refresh_rates: Vec<Refresh> = Vec::new();
        let mut k: usize = 0;
        while k < count
            invariant
                k <= count,
                count == Self::spec_count(s),
                rates_at == Self::spec_rates_at(s),
                refreshes_fit(s, rates_at as int, count as nat),
                rates_at <= refresh_at(s, rates_at as int, k as nat) <= s.len(),
                rates_at >= 0,
                conn@ == s.subrange(refresh_at(s, rates_at as int, k as nat), s.len() as int),
                refresh_rates@.len() == k,
                forall|j: int|
                    0 <= j < k ==> (#[trigger] refresh_rates@[j]).decodes(
                        s.subrange(refresh_at(s, rates_at as int, j as nat), s.len() as int),
                    ),
            decreases count - k,
        {
            let ghost kk = k as nat;
            let ghost p = refresh_at(s, rates_at as int, kk);
            proof {
                lemma_refresh_at_grows(s, rates_at as int, kk);
            }
            assert(p + 2 <= s.len());
            assert(spec_le_u16(conn@, 0) == spec_le_u16(s, p));
            let rates = Refresh::from_le_bytes(conn);
            let rates = match rates {
                Ok(v) => v,
                Err(e) => {
                    return Err(e);
                },
            };
            proof {
                assert(conn@ =~= s.subrange(refresh_at(s, rates_at as int, kk + 1), s.len() as int));
            }
            refresh_rates.push(rates);
            k = k + 1;
        }
        conn.advance(2);
        assert(conn@ =~= s.subrange(Self::spec_len(s), s.len() as int));
        let current_size = screen_sizes[current_size_index];
        Ok(Self {
            supported_rotations,
            root,
            timestamp,
            config_timestamp,
            current_size,
            current_rotation_and_reflection,
            current_rate,
            screen_sizes,
            refresh_rates,
        })
    }
}

/// Where the monitor structure `i` of those from `at` on starts.
pub open spec fn monitor_at(s: Seq<u8>, at: int, i: nat) -> int
    decreases i,
{
    if i == 0 {
        at
    } else {
        let p = monitor_at(s, at, (i - 1) as nat);
        p + 24 + 4 * spec_le_u16(s, p + 6)
    }
}

/// Whether the `count` monitor structures from `at` on all lie within `s`.
pub open spec fn monitors_fit(s: Seq<u8>, at: int, count: nat) -> bool {
    forall|i: nat|
        i < count ==> #[trigger] monitor_at(s, at, i) + 24 <= s.len() && monitor_at(s, at, i) + 24
            + 4 * spec_le_u16(s, monitor_at(s, at, i) + 6) <= s.len()
}

/// The monitor structures start one after another, each after the last.
pub proof fn lemma_monitor_at_grows(s: Seq<u8>, at: int, i: nat)
    ensures
        at <= monitor_at(s, at, i),
        monitor_at(s, at, i + 1) == monitor_at(s, at, i) + 24 + 4 * spec_le_u16(
            s,
            monitor_at(s, at, i) + 6,
        ),
    decreases i,
{
    if i > 0 {
        lemma_monitor_at_grows(s, at, (i - 1) as nat);
    }
}

/// The monitors reply: the monitors of a screen.
#[derive(Debug, Clone, PartialEq, Eq)]
pub struct GetMonitors {
    pub timestamp: Timestamp,
    pub monitors: Vec<MonitorInfo>,
}

impl GetMonitors {
    /// The number of monitors.
    pub open spec fn spec_count(s: Seq<u8>) -> int {
        spec_le_u32(s, 11) as int
    }

    /// Bytes the reply takes, not counting its first byte.
    pub open spec fn spec_len(s: Seq<u8>) -> int {
        monitor_at(s, 31, Self::spec_count(s) as nat)
    }

    /// Whether the whole reply lies within `s`.
    pub open spec fn spec_complete(s: Seq<u8>) -> bool {
        &&& s.len() >= 31
        &&& monitors_fit(s, 31, Self::spec_count(s) as nat)
    }

    /// Whether `self` holds the fields encoded at the front of `s`.
    pub open spec fn decodes(&self, s: Seq<u8>) -> bool {
        &&& self.timestamp@ == spec_le_u32(s, 7)
        &&& self.monitors@.len() == Self::spec_count(s)
        &&& forall|i: int|
            0 <= i < Self::spec_count(s) ==> (#[trigger] self.monitors@[i]).decodes(
                s.subrange(monitor_at(s, 31, i as nat), s.len() as int),
            )
    }

    /// Decodes the reply; its first byte was already consumed.
    pub fn from_le_bytes(conn: &mut ByteReader) -> (r: Result<Self, Error>)
        ensures
            ({
                let s = old(conn)@;
                if !Self::spec_complete(s) {
                    r == Err::<Self, Error>(eof_error()) && final(conn)@ == s
                } else {
                    r matches Ok(v) && v.decodes(s) && final(conn)@ == s.subrange(
                        Self::spec_len(s),
                        s.len() as int,
                    )
                }
            }),
    {
        let ghost s = conn@;
        let available = conn.len();
        if available < 31 {
            return Err(Error::eof());
        }
        let count = conn.le_u32_ahead(11) as usize;
        let mut pos: usize = 31;
        let mut i: usize = 0;
        while i < count
            invariant
                conn@ == s,
                available == s.len(),
                s.len() >= 31,
                count == Self::spec_count(s),
                i <= count,
                pos == monitor_at(s, 31, i as nat),
                pos <= s.len(),
                monitors_fit(s, 31, i as nat),
            decreases count - i,
        {
            let ghost ii = i as nat;
            proof {
                lemma_monitor_at_grows(s, 31, ii);
            }
            if available - pos < 24 {
                proof {
                    assert(monitor_at(s, 31, ii) + 24 > s.len());
                }
                return Err(Error::eof());
            }
            let n = conn.le_u16_ahead(pos + 6) as usize;
            if (available - pos - 24) / 4 < n {
                proof {
                    assert(monitor_at(s, 31, ii) + 24 + 4 * spec_le_u16(s, monitor_at(s, 31, ii) + 6)
                        > s.len());
                }
                return Err(Error::eof());
            }
            pos = pos + 24 + 4 * n;
            proof {
                assert forall|j: nat| j < ii + 1 implies #[trigger] monitor_at(s, 31, j) + 24
                    <= s.len() && monitor_at(s, 31, j) + 24 + 4 * spec_le_u16(
                    s,
                    monitor_at(s, 31, j) + 6,
                ) <= s.len() by {
                    if j < ii {
                        assert(monitor_at(s, 31, j) + 24 <= s.len());
                    }
                }
                assert(pos == monitor_at(s, 31, ii + 1));
            }
            i = i + 1;
        }
        let timestamp = Timestamp::from_u32(conn.le_u32_ahead(7));
        conn.advance(31);
        let mut monitors: Vec<MonitorInfo> = Vec::new();
        let mut k: usize = 0;
        while k < count
            invariant
                k <= count,
                count == Self::spec_count(s),
                s.len() >= 31,
                monitors_fit(s, 31, count as nat),
                31 <= monitor_at(s, 31, k as nat) <= s.len(),
                conn@ == s.subrange(monitor_at(s, 31, k as nat), s.len() as int),
                monitors@.len() == k,
                forall|j: int|
                    0 <= j < k ==> (#[trigger] monitors@[j]).decodes(
                        s.subrange(monitor_at(s, 31, j as nat), s.len() as int),
                    ),
            decreases count - k,
        {
            let ghost kk = k as nat;
            let ghost p = monitor_at(s, 31, kk);
            proof {
                lemma_monitor_at_grows(s, 31, kk);
            }
            assert(p + 24 <= s.len());
            assert(spec_le_u16(conn@, 6) == spec_le_u16(s, p + 6));
            let monitor = MonitorInfo::from_le_bytes(conn);
            let monitor = match monitor {
                Ok(v) => v,
                Err(e) => {
                    return Err(e);
                },
            };
            proof {
                assert(conn@ =~= s.subrange(monitor_at(s, 31, kk + 1), s.len() as int));
            }
            monitors.push(monitor);
            k = k + 1;
        }
        assert(conn@ =~= s.subrange(Self::spec_len(s), s.len() as int));
        Ok(Self { timestamp, monitors })
    }
}

/// A decoded reply of the extension.
#[derive(Debug, Clone)]
pub enum SomeReply {
    QueryVersion(QueryVersion),
    SetScreenConfig(SetScreenConfig),
    GetScreenInfo(GetScreenInfo),
    GetCrtcInfo(GetCrtcInfo),
    GetMonitors(GetMonitors),
}

impl XReply for QueryVersion {
    open spec fn spec_from_reply(reply: crate::replies::SomeReply) -> Option<Self> {
        match reply {
            crate::replies::SomeReply::ExtensionRandr(SomeReply::QueryVersion(r)) => Some(r),
            _ => None,
        }
    }

    fn from_reply(reply: crate::replies::SomeReply) -> (r: Option<Self>) {
        match reply {
            crate::replies::SomeReply::ExtensionRandr(SomeReply::QueryVersion(r)) => Some(r),
            _ => None,
        }
    }
}

impl XReply for SetScreenConfig {
    open spec fn spec_from_reply(reply: crate::replies::SomeReply) -> Option<Self> {
        match reply {
            crate::replies::SomeReply::ExtensionRandr(SomeReply::SetScreenConfig(r)) => Some(r),
            _ => None,
        }
    }

    fn from_reply(reply: crate::replies::SomeReply) -> (r: Option<Self>) {
        match reply {
            crate::replies::SomeReply::ExtensionRandr(SomeReply::SetScreenConfig(r)) => Some(r),
            _ => None,
        }
    }
}

impl XReply for GetScreenInfo {
    open spec fn spec_from_reply(reply: crate::replies::SomeReply) -> Option<Self> {
        match reply {
            crate::replies::SomeReply::ExtensionRandr(SomeReply::GetScreenInfo(r)) => Some(r),
            _ => None,
        }
    }

    fn from_reply(reply: crate::replies::SomeReply) -> (r: Option<Self>) {
        match reply {
            crate::replies::SomeReply::ExtensionRandr(SomeReply::GetScreenInfo(r)) => Some(r),
            _ => None,
        }
    }
}

impl XReply for GetCrtcInfo {
    open spec fn spec_from_reply(reply: crate::replies::SomeReply) -> Option<Self> {
        match reply {
            crate::replies::SomeReply::ExtensionRandr(SomeReply::GetCrtcInfo(r)) => Some(r),
            _ => None,
        }
    }

    fn from_reply(reply: crate::replies::SomeReply) -> (r: Option<Self>) {
        match reply {
            crate::replies::SomeReply::ExtensionRandr(SomeReply::GetCrtcInfo(r)) => Some(r),
            _ => None,
        }
    }
}

impl XReply for GetMonitors {
    open spec fn spec_from_reply(reply: crate::replies::SomeReply) -> Option<Self> {
        match reply {
            crate::replies::SomeReply::ExtensionRandr(SomeReply::GetMonitors(r)) => Some(r),
            _ => None,
        }
    }

    fn from_reply(reply: crate::replies::SomeReply) -> (r: Option<Self>) {
        match reply {
            crate::replies::SomeReply::ExtensionRandr(SomeReply::GetMonitors(r)) => Some(r),
            _ => None,
        }
    }
}

} // verus!
