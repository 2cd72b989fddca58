//! The words of the `xrandr` command line: filters, reflections, rotations, sizes written
//! `WIDTHxHEIGHT`, and names of outputs and modes, which may be an identifier, an index or
//! a string.
use vstd::prelude::*;

use crate::display_var::{find_byte, find_from, parse_u32, spec_parse_u32};
use crate::ids::{OrNone, ResourceId, XId};
use vstd::std_specs::iter::IteratorSpec;
use vstd::string::StringSliceAdditionalSpecFns;
use vstd::utf8::encode_utf8;

verus! {

/// Whether the text `s` is `word`.
pub fn str_is(s: &str, word: &str) -> (r: bool)
    ensures
        r == (s@ == word@),
{
    proof {
        broadcast use vstd::string::group_string_axioms;
    }
    let mut a = s.chars();
    let mut b = word.chars();
    let ghost mut k: int = 0;
    loop
        invariant
            0 <= k <= s@.len(),
            k <= word@.len(),
            a.remaining() == s@.skip(k),
            b.remaining() == word@.skip(k),
            s@.take(k) == word@.take(k),
        decreases s@.len() - k,
    {
        let x = a.next();
        let y = b.next();
        proof {
            broadcast use vstd::string::next_postcondition;
        }
        match (x, y) {
            (None, None) => {
                assert(s@.take(k) =~= s@);
                assert(word@.take(k) =~= word@);
                return true;
            },
            (Some(c), Some(d)) => {
                if c != d {
                    assert(s@[k] != word@[k]);
                    return false;
                }
                proof {
                    assert(s@.take(k + 1) =~= s@.take(k).push(c));
                    assert(word@.take(k + 1) =~= word@.take(k).push(d));
                    assert(a.remaining() =~= s@.skip(k + 1));
                    assert(b.remaining() =~= word@.skip(k + 1));
                    k = k + 1;
                }
            },
            _ => {
                return false;
            },
        }
    }
}

/// A scaling filter.
#[derive(Debug, Clone, Copy, PartialEq, Eq, Structural)]
pub enum Filter {
    Bilinear,
    Nearest,
}

impl Filter {
    /// The filter named `s`: `bilinear` or `nearest`.
    pub fn parse(s: &str) -> (r: Option<Self>)
        ensures
            r == (if s@ == "bilinear"@ {
                Some(Filter::Bilinear)
            } else if s@ == "nearest"@ {
                Some(Filter::Nearest)
            } else {
                None
            }),
    {
        if str_is(s, "bilinear") {
            Some(Filter::Bilinear)
        } else if str_is(s, "nearest") {
            Some(Filter::Nearest)
        } else {
            None
        }
    }
}

/// A reflection of an output.
#[derive(Debug, Clone, Copy, PartialEq, Eq, Structural)]
pub enum Reflection {
    Normal,
    X,
    Y,
    XY,
}

impl Reflection {
    /// The reflection named `s`: `normal`, `x`, `y` or `xy`.
    pub fn parse(s: &str) -> (r: Option<Self>)
        ensures
            r == (if s@ == "normal"@ {
                Some(Reflection::Normal)
            } else if s@ == "x"@ {
                Some(Reflection::X)
            } else if s@ == "y"@ {
                Some(Reflection::Y)
            } else if s@ == "xy"@ {
                Some(Reflection::XY)
            } else {
                None
            }),
    {
        if str_is(s, "normal") {
            Some(Reflection::Normal)
        } else if str_is(s, "x") {
            Some(Reflection::X)
        } else if str_is(s, "y") {
            Some(Reflection::Y)
        } else if str_is(s, "xy") {
            Some(Reflection::XY)
        } else {
            None
        }
    }
}

/// A rotation of an output.
#[derive(Debug, Clone, Copy, PartialEq, Eq, Structural)]
pub enum Rotation {
    Normal,
    Inverted,
    Left,
    Right,
}

impl Rotation {
    /// The rotation named `s`, by its name or its number: `normal` or `0`, `inverted` or
    /// `1`, `left` or `2`, `right` or `3`.
    pub fn parse(s: &str) -> (r: Option<Self>)
        ensures
            r == (if s@ == "normal"@ || s@ == "0"@ {
                Some(Rotation::Normal)
            } else if s@ == "inverted"@ || s@ == "1"@ {
                Some(Rotation::Inverted)
            } else if s@ == "left"@ || s@ == "2"@ {
                Some(Rotation::Left)
            } else if s@ == "right"@ || s@ == "3"@ {
                Some(Rotation::Right)
            } else {
                None
            }),
    {
        if str_is(s, "normal") || str_is(s, "0") {
            Some(Rotation::Normal)
        } else if str_is(s, "inverted") || str_is(s, "1") {
            Some(Rotation::Inverted)
        } else if str_is(s, "left") || str_is(s, "2") {
            Some(Rotation::Left)
        } else if str_is(s, "right") || str_is(s, "3") {
            Some(Rotation::Right)
        } else {
            None
        }
    }
}

/// A width and a height.
#[derive(Debug, Clone, Copy, PartialEq, Eq, Structural)]
pub struct WidthHeight {
    pub width: u32,
    pub height: u32,
}

impl WidthHeight {
    /// `WIDTHxHEIGHT`, each a decimal number, split at the first `x`.
    pub fn parse(s: &str) -> (r: Option<Self>)
        ensures
            ({
                let b = s.spec_bytes();
                match find_from(b, 120, 0) {
                    None => r is None,
                    Some(i) => match (
                        spec_parse_u32(b.subrange(0, i)),
                        spec_parse_u32(b.subrange(i + 1, b.len() as int)),
                    ) {
                        (Some(w), Some(h)) => r == Some(WidthHeight { width: w, height: h }),
                        _ => r is None,
                    },
                }
            }),
    {
        let b = s.as_bytes();
        // Asking for the length bounds it by `usize::MAX` in the proof.
        let _len = b.len();
        let i = match find_byte(b, 120, 0) {
            Some(i) => i,
            None => return None,
        };
        let head = vstd::slice::slice_subrange(b, 0, i);
        let tail = vstd::slice::slice_subrange(b, i + 1, b.len());
        assert(head@ =~= b@.subrange(0, i as int));
        assert(tail@ =~= b@.subrange(i + 1, b@.len() as int));
        match (parse_u32(head), parse_u32(tail)) {
            (Some(width), Some(height)) => Some(WidthHeight { width, height }),
            _ => None,
        }
    }
}

/// Which readings of a name are allowed, or were made.
#[derive(Debug, Clone, Copy, PartialEq, Eq, Structural)]
pub struct NameKind {
    pub value: u8,
}

impl NameKind {
    pub const EMPTY_MASK: u8 = 0;
    pub const STRING: u8 = 1;
    pub const XID: u8 = 2;
    pub const INDEX: u8 = 4;
    pub const PREFERRED: u8 = 8;

    /// Whether every flag of `flag` is set.
    pub fn has(self, flag: u8) -> (b: bool)
        ensures
            b == (self.value & flag == flag),
    {
        (self.value & flag) == flag
    }
}

/// The value of the hexadecimal digit `b` (ASCII), where it is one.
pub open spec fn hex_byte(b: u8) -> Option<int> {
    if 48 <= b <= 57 {
        Some(b - 48)
    } else if 97 <= b <= 102 {
        Some(b - 97 + 10)
    } else if 65 <= b <= 70 {
        Some(b - 65 + 10)
    } else {
        None
    }
}

/// The value of the hexadecimal digits `d`, where all of them are digits.
pub open spec fn hex_bytes_value(d: Seq<u8>) -> Option<int>
    decreases d.len(),
{
    if d.len() == 0 {
        Some(0)
    } else {
        match (hex_bytes_value(d.drop_last()), hex_byte(d.last())) {
            (Some(v), Some(x)) => Some(v * 16 + x),
            _ => None,
        }
    }
}

/// A hexadecimal `u32` with an optional `+`, as `u32::from_str_radix(.., 16)` reads it.
pub open spec fn parse_hex_u32(b: Seq<u8>) -> Option<u32> {
    let d = if b.len() > 0 && b[0] == 43 {
        b.drop_first()
    } else {
        b
    };
    if b.len() == 0 || d.len() == 0 {
        None
    } else {
        match hex_bytes_value(d) {
            Some(v) => if v <= u32::MAX {
                Some(v as u32)
            } else {
                None
            },
            None => None,
        }
    }
}

/// A text without hexadecimal value where one of its bytes is no digit.
proof fn lemma_hex_bytes_none(d: Seq<u8>, n: int)
    requires
        0 < n <= d.len(),
        hex_byte(d[n - 1]) is None,
    ensures
        hex_bytes_value(d) is None,
    decreases d.len(),
{
    if n < d.len() {
        assert(d.drop_last()[n - 1] == d[n - 1]);
        lemma_hex_bytes_none(d.drop_last(), n);
    }
}

fn parse_hex(b: &[u8]) -> (r: Option<u32>)
    ensures
        r == parse_hex_u32(b@),
{
    if b.len() == 0 {
        return None;
    }
    let start: usize = if b[0] == 43 {
        1
    } else {
        0
    };
    let ghost d = if b@[0] == 43 {
        b@.drop_first()
    } else {
        b@
    };
    assert(d =~= b@.subrange(start as int, b@.len() as int));
    if start >= b.len() {
        return None;
    }
    let mut value: u64 = 0;
    let mut too_big = false;
    let ghost mut exact: int = 0;
    let mut i = start;
    assert(d.take(0) =~= Seq::<u8>::empty());
    while i < b.len()
        invariant
            start <= i <= b@.len(),
            b@.len() > 0,
            d.len() > 0,
            d == (if b@[0] == 43 {
                b@.drop_first()
            } else {
                b@
            }),
            d == b@.subrange(start as int, b@.len() as int),
            hex_bytes_value(d.take(i - start)) == Some(exact),
            exact >= 0,
            too_big ==> exact > u32::MAX,
            !too_big ==> value == exact && value <= u32::MAX,
        decreases b@.len() - i,
    {
        let c = b[i];
        assert(d.take(i + 1 - start).drop_last() =~= d.take(i - start));
        assert(d[i - start] == c);
        let x: u64 = if 48 <= c && c <= 57 {
            (c - 48) as u64
        } else if 97 <= c && c <= 102 {
            (c - 97 + 10) as u64
        } else if 65 <= c && c <= 70 {
            (c - 65 + 10) as u64
        } else {
            proof {
                lemma_hex_bytes_none(d, i + 1 - start);
            }
            return None;
        };
        proof {
            exact = exact * 16 + x;
        }
        if !too_big {
            value = value * 16 + x;
            if value > 0xffff_ffff {
                too_big = true;
            }
        }
        i = i + 1;
    }
    assert(d.take(b@.len() - start) =~= d);
    if too_big {
        None
    } else {
        Some(value as u32)
    }
}

/// The name of an output, a mode or a provider.
#[derive(Debug, Clone)]
pub struct Name {
    pub kind: NameKind,
    pub string: String,
    pub xid: OrNone<ResourceId>,
    pub index: u32,
}

/// The reading of `name` that `set` makes where `valid` allows it: an identifier written
/// `0x` and hexadecimal digits, else a decimal index, else the string itself; `None` where
/// none of the allowed readings applies.
pub enum NameReading {
    Xid(u32),
    Index(u32),
    Text,
}

/// The reading of the bytes `b` of a name under the allowed kinds `valid`.
pub open spec fn name_reading(b: Seq<u8>, valid: u8) -> Option<NameReading> {
    let xid = if valid & NameKind::XID == NameKind::XID && b.len() > 2 && b[0] == 48 && b[1] == 120 {
        parse_hex_u32(b.subrange(2, b.len() as int))
    } else {
        None
    };
    match xid {
        Some(x) => Some(NameReading::Xid(x)),
        None => {
            let index = if valid & NameKind::INDEX == NameKind::INDEX {
                spec_parse_u32(b)
            } else {
                None
            };
            match index {
                Some(i) => Some(NameReading::Index(i)),
                None => if valid & NameKind::STRING == NameKind::STRING {
                    Some(NameReading::Text)
                } else {
                    None
                },
            }
        },
    }
}

impl Name {
    /// The name with no reading.
    pub fn empty() -> (r: Self)
        ensures
            r.kind.value == NameKind::EMPTY_MASK,
            r.string@ == Seq::<char>::empty(),
            r.xid.spec_raw() == 0,
            r.index == 0,
    {
        Name {
            kind: NameKind { value: NameKind::EMPTY_MASK },
            string: String::new(),
            xid: OrNone::none(),
            index: 0,
        }
    }

    /// The name that is the identifier `xid`.
    pub fn new_xid(xid: OrNone<ResourceId>) -> (r: Self)
        ensures
            r.kind.value == NameKind::XID,
            r.string@ == Seq::<char>::empty(),
            r.xid == xid,
            r.index == 0,
    {
        let mut ret = Self::empty();
        ret.xid = xid;
        ret.kind = NameKind { value: ret.kind.value | NameKind::XID };
        assert(0u8 | 2u8 == 2u8) by (bit_vector);
        ret
    }

    /// Reads `name` in the first of the allowed ways that applies, recording the reading.
    pub fn set(&mut self, name: String, valid: NameKind)
        requires
            name_reading(encode_utf8(name@), valid.value) is Some,
            valid.value & NameKind::XID == NameKind::XID && encode_utf8(name@).len() > 2
                ==> vstd::utf8::is_char_boundary(encode_utf8(name@), 2),
        ensures
            match name_reading(encode_utf8(name@), valid.value) {
                Some(NameReading::Xid(x)) => final(self).xid.spec_raw() == x && final(self).kind.value
                    == old(self).kind.value | NameKind::XID && final(self).string@ == old(self).string@
                    && final(self).index == old(self).index,
                Some(NameReading::Index(i)) => final(self).index == i && final(self).kind.value
                    == old(self).kind.value | NameKind::INDEX && final(self).string@ == old(self).string@
                    && final(self).xid == old(self).xid,
                Some(NameReading::Text) => final(self).string@ == name@ && final(self).kind.value
                    == old(self).kind.value | NameKind::STRING && final(self).index == old(self).index
                    && final(self).xid == old(self).xid,
                None => false,
            },
    {
        let b = name.as_str().as_bytes();
        if valid.has(NameKind::XID) && b.len() > 2 && b[0] == 48 && b[1] == 120 {
            let rest = vstd::slice::slice_subrange(b, 2, b.len());
            match parse_hex(rest) {
                Some(xid) => {
                    self.xid = OrNone::new(ResourceId::unchecked_from(xid));
                    self.kind = NameKind { value: self.kind.value | NameKind::XID };
                    return;
                },
                None => {},
            }
        }
        if valid.has(NameKind::INDEX) {
            match parse_u32(b) {
                Some(index) => {
                    self.index = index;
                    self.kind = NameKind { value: self.kind.value | NameKind::INDEX };
                    return;
                },
                None => {},
            }
        }
        self.string = name;
        self.kind = NameKind { value: self.kind.value | NameKind::STRING };
    }

    /// The name `name`, read in the first of the allowed ways that applies.
    pub fn new(name: String, valid: NameKind) -> (r: Self)
        requires
            name_reading(encode_utf8(name@), valid.value) is Some,
            valid.value & NameKind::XID == NameKind::XID && encode_utf8(name@).len() > 2
                ==> vstd::utf8::is_char_boundary(encode_utf8(name@), 2),
        ensures
            match name_reading(encode_utf8(name@), valid.value) {
                Some(NameReading::Xid(x)) => r.xid.spec_raw() == x && r.kind.value == NameKind::XID,
                Some(NameReading::Index(i)) => r.index == i && r.kind.value == NameKind::INDEX,
                Some(NameReading::Text) => r.string@ == name@ && r.kind.value == NameKind::STRING,
                None => false,
            },
    {
        let mut ret = Self::empty();
        ret.set(name, valid);
        assert(0u8 | 1u8 == 1u8) by (bit_vector);
        assert(0u8 | 2u8 == 2u8) by (bit_vector);
        assert(0u8 | 4u8 == 4u8) by (bit_vector);
        ret
    }
}

/// Whether a server's RandR version is 1.5 or later, which the program needs.
pub fn has_randr_1_5(major_version: u32, minor_version: u32) -> (r: bool)
    ensures
        r == (major_version > 1 || (major_version == 1 && minor_version >= 5)),
{
    major_version > 1 || (major_version == 1 && minor_version >= 5)
}

} // verus!
