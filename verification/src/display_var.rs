//! The `DISPLAY` setting: which host, display and screen a client connects to.
use vstd::prelude::*;

use crate::error::Error;
use crate::text::{decimal_chars, push_decimal, push_str, string_of_chars};
use vstd::string::StringSliceAdditionalSpecFns;
use vstd::utf8::{
    encode_utf8, encode_utf8_valid_utf8, is_char_boundary_iff_is_leading_byte,
    is_leading_byte_width_1, valid_utf8,
};

verus! {

/// The first position at or after `i` where `s` holds `b`, if any.
pub open spec fn find_from(s: Seq<u8>, b: u8, i: int) -> Option<int>
    decreases s.len() - i,
{
    if i < 0 || i >= s.len() {
        None
    } else if s[i] == b {
        Some(i)
    } else {
        find_from(s, b, i + 1)
    }
}

pub(crate) fn find_byte(s: &[u8], b: u8, from: usize) -> (r: Option<usize>)
    requires
        from <= s@.len(),
    ensures
        match find_from(s@, b, from as int) {
            Some(i) => r == Some(i as usize),
            None => r is None,
        },
        r matches Some(k) ==> from <= k < s@.len() && s@[k as int] == b,
        find_from(s@, b, from as int) matches Some(k) ==> from <= k < s@.len(),
    decreases s@.len() - from,
{
    if from >= s.len() {
        return None;
    }
    if s[from] == b {
        Some(from)
    } else {
        find_byte(s, b, from + 1)
    }
}

/// The number the decimal digits `d` (ASCII) write.
pub open spec fn digits_value(d: Seq<u8>) -> int
    decreases d.len(),
{
    if d.len() == 0 {
        0
    } else {
        digits_value(d.drop_last()) * 10 + (d.last() - 48)
    }
}

/// Whether every byte of `d` is an ASCII decimal digit.
pub open spec fn all_digits(d: Seq<u8>) -> bool {
    forall|i: int| 0 <= i < d.len() ==> 48 <= #[trigger] d[i] <= 57
}

/// What parsing `b` as a `u32` gives: an optional `+` and then at least one decimal digit,
/// the number fitting 32 bits.
pub open spec fn spec_parse_u32(b: Seq<u8>) -> Option<u32> {
    let d = if b.len() > 0 && b[0] == 43 {
        b.drop_first()
    } else {
        b
    };
    if d.len() > 0 && all_digits(d) && digits_value(d) <= u32::MAX {
        Some(digits_value(d) as u32)
    } else {
        None
    }
}

/// Digits never write a negative number.
proof fn lemma_digits_value_nonneg(d: Seq<u8>)
    requires
        all_digits(d),
    ensures
        digits_value(d) >= 0,
    decreases d.len(),
{
    if d.len() > 0 {
        assert(all_digits(d.drop_last()));
        lemma_digits_value_nonneg(d.drop_last());
    }
}

/// Adding digits never makes the number smaller.
proof fn lemma_digits_value_grows(d: Seq<u8>, k: int)
    requires
        all_digits(d),
        0 <= k <= d.len(),
    ensures
        digits_value(d.take(k)) <= digits_value(d),
    decreases d.len() - k,
{
    if k < d.len() {
        lemma_digits_value_grows(d, k + 1);
        assert(d.take(k + 1).drop_last() =~= d.take(k));
        assert(d.take(k + 1).last() == d[k]);
        assert(all_digits(d.take(k)));
        lemma_digits_value_nonneg(d.take(k));
        assert(48 <= d[k]);
    } else {
        assert(d.take(k) =~= d);
    }
}

/// Parses a decimal `u32`, as `str::parse` does.
pub(crate) fn parse_u32(b: &[u8]) -> (r: Option<u32>)
    ensures
        r == spec_parse_u32(b@),
{
    let start: usize = if b.len() > 0 && b[0] == 43 {
        1
    } else {
        0
    };
    let ghost d = if b@.len() > 0 && b@[0] == 43 {
        b@.drop_first()
    } else {
        b@
    };
    assert(d =~= b@.subrange(start as int, b@.len() as int));
    if start >= b.len() {
        return None;
    }
    let mut value: u64 = 0;
    let mut i: usize = start;
    while i < b.len()
        invariant
            start <= i <= b@.len(),
            start < b@.len(),
            d == b@.subrange(start as int, b@.len() as int),
            d == (if b@.len() > 0 && b@[0] == 43 {
                b@.drop_first()
            } else {
                b@
            }),
            all_digits(d.take(i - start)),
            value == digits_value(d.take(i - start)),
            value <= u32::MAX,
        decreases b@.len() - i,
    {
        let c = b[i];
        if c < 48 || c > 57 {
            assert(d[i - start] == c);
            assert(!all_digits(d));
            return None;
        }
        let next = value * 10 + (c - 48) as u64;
        assert(d.take(i - start + 1).drop_last() =~= d.take(i - start));
        assert(d.take(i - start + 1).last() == c);
        assert(all_digits(d.take(i - start + 1)));
        assert(next == digits_value(d.take(i - start + 1)));
        if next > 0xffff_ffff {
            proof {
                if all_digits(d) {
                    lemma_digits_value_grows(d, i - start + 1);
                }
            }
            return None;
        }
        value = next;
        i = i + 1;
    }
    assert(d.take(i - start) =~= d);
    Some(value as u32)
}

/// The parts of a `DISPLAY` setting: host name, display number and screen.
#[derive(Debug)]
pub struct DisplayVar {
    pub hostname: String,
    pub display_sequence: u32,
    pub screen: Option<u32>,
}

impl DisplayVar {
    /// Whether `v` is the setting written by the bytes `b` that hold a colon at `i`: the
    /// host name is what precedes it.
    pub open spec fn named(v: DisplayVar, b: Seq<u8>, i: int) -> bool {
        encode_utf8(v.hostname@) == b.subrange(0, i)
    }

    /// Parses `host:display` or `host:display.screen`; the numbers are decimal.
    pub fn parse(s: &str) -> (r: Result<Self, Error>)
        ensures
            ({
                let b = s.spec_bytes();
                match find_from(b, 58, 0) {
                    None => r == Err::<Self, Error>(Error::InvalidDisplayEnv),
                    Some(i) => {
                        let rest = b.subrange(i + 1, b.len() as int);
                        match find_from(rest, 46, 0) {
                            Some(j) => match (
                                spec_parse_u32(rest.subrange(0, j)),
                                spec_parse_u32(rest.subrange(j + 1, rest.len() as int)),
                            ) {
                                (Some(d), Some(screen)) => r matches Ok(v) && Self::named(v, b, i)
                                    && v.display_sequence == d && v.screen == Some(screen),
                                _ => r == Err::<Self, Error>(Error::InvalidDisplayEnv),
                            },
                            None => match spec_parse_u32(rest) {
                                Some(d) => r matches Ok(v) && Self::named(v, b, i)
                                    && v.display_sequence == d && v.screen is None,
                                None => r == Err::<Self, Error>(Error::InvalidDisplayEnv),
                            },
                        }
                    },
                }
            }),
    {
        let bytes = s.as_bytes();
        let ghost b = s.spec_bytes();
        let i = match find_byte(bytes, 58, 0) {
            Some(i) => i,
            None => return Err(Error::InvalidDisplayEnv),
        };
        proof {
            encode_utf8_valid_utf8(s@);
            is_char_boundary_iff_is_leading_byte(b, i as int);
            assert(is_leading_byte_width_1(b[i as int]));
        }
        let (host, _) = s.split_at(i);
        let n = bytes.len();
        let rest = vstd::slice::slice_subrange(bytes, i + 1, n);
        assert(rest@ == b.subrange(i + 1, b.len() as int));
        let (display_sequence, screen) = match find_byte(rest, 46, 0) {
            Some(j) => {
                let first = vstd::slice::slice_subrange(rest, 0, j);
                let sequence = match parse_u32(first) {
                    Some(v) => v,
                    None => {
                        return Err(Error::InvalidDisplayEnv);
                    },
                };
                let screen = match parse_u32(vstd::slice::slice_subrange(rest, j + 1, rest.len())) {
                    Some(v) => v,
                    None => return Err(Error::InvalidDisplayEnv),
                };
                (sequence, Some(screen))
            },
            None => {
                let sequence = match parse_u32(rest) {
                    Some(v) => v,
                    None => return Err(Error::InvalidDisplayEnv),
                };
                (sequence, None)
            },
        };
        let hostname = host.to_owned();
        Ok(Self { hostname, display_sequence, screen })
    }
}

/// How a display reads: `host:display`, with `.screen` where a screen is named.
pub open spec fn display_text(v: DisplayVar) -> Seq<char> {
    let base = v.hostname@ + seq![':'] + decimal_chars(v.display_sequence as nat);
    match v.screen {
        Some(screen) => base + seq!['.'] + decimal_chars(screen as nat),
        None => base,
    }
}

impl DisplayVar {
    /// The display as `$DISPLAY` names it.
    pub fn to_string(&self) -> (r: String)
        ensures
            r@ == display_text(*self),
    {
        let mut out: Vec<char> = Vec::new();
        push_str(&mut out, self.hostname.as_str());
        out.push(':');
        push_decimal(&mut out, self.display_sequence as u64);
        if let Some(screen) = self.screen {
            out.push('.');
            push_decimal(&mut out, screen as u64);
        }
        proof {
            match self.screen {
                Some(screen) => {
                    assert(out@ =~= display_text(*self));
                },
                None => {
                    assert(out@ =~= display_text(*self));
                },
            }
        }
        string_of_chars(&out)
    }
}

} // verus!
