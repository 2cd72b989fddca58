//! The X authority file: the credentials a client shows the server, and the binary parsing
//! it needs.
use vstd::prelude::*;

use crate::bytes::{be_u16_at, spec_be_u16};

verus! {

/// Where a field that starts at `at` with its length as a big-endian 16-bit number ends.
pub open spec fn field_end(raw: Seq<u8>, at: int) -> int {
    at + 2 + spec_be_u16(raw, at)
}

/// The big-endian 16-bit number at the front of `raw`, and the bytes after it. `raw` must
/// hold two bytes.
pub fn u16_be(raw: &[u8]) -> (r: Option<(u16, &[u8])>)
    requires
        raw@.len() >= 2,
    ensures
        r matches Some((v, rest)) && v == spec_be_u16(raw@, 0) && rest@ == raw@.subrange(
            2,
            raw@.len() as int,
        ),
{
    let res = be_u16_at(raw, 0);
    let rest = vstd::slice::slice_subrange(raw, 2, raw.len());
    Some((res, rest))
}

/// A field sent as its length, big-endian in two bytes, then its bytes: the field and the
/// bytes after it, or `None` when `raw` ends within the field. `raw` must hold the length.
pub fn sized_u16_be_vec(raw: &[u8]) -> (r: Option<(Vec<u8>, &[u8])>)
    requires
        raw@.len() >= 2,
    ensures
        field_end(raw@, 0) <= raw@.len() ==> (r matches Some((elements, rest)) && elements@
            == raw@.subrange(2, field_end(raw@, 0)) && rest@ == raw@.subrange(
            field_end(raw@, 0),
            raw@.len() as int,
        )),
        field_end(raw@, 0) > raw@.len() ==> r is None,
{
    let ghost whole = raw@;
    let (len, body) = u16_be(raw)?;
    let len = len as usize;
    if len > body.len() {
        return None;
    }
    let elements = vstd::slice::slice_to_vec(vstd::slice::slice_subrange(body, 0, len));
    let rest = vstd::slice::slice_subrange(body, len, body.len());
    proof {
        assert(elements@ =~= whole.subrange(2, field_end(whole, 0)));
        assert(rest@ =~= whole.subrange(field_end(whole, 0), whole.len() as int));
    }
    Some((elements, rest))
}


/// Whether parsing `count` length-prefixed fields from `at` on finds each length it reaches
/// within `raw`.
pub open spec fn lengths_present(raw: Seq<u8>, at: int, count: nat) -> bool
    decreases count,
{
    count == 0 || (at + 2 <= raw.len() && (field_end(raw, at) <= raw.len() ==> lengths_present(
        raw,
        field_end(raw, at),
        (count - 1) as nat,
    )))
}

/// Whether parsing `count` length-prefixed fields from `at` on finds each length it reaches
/// within `raw`.
pub fn lengths_fit(raw: &[u8], at: usize, count: usize) -> (r: bool)
    requires
        at <= raw@.len(),
    ensures
        r == lengths_present(raw@, at as int, count as nat),
    decreases count,
{
    if count == 0 {
        return true;
    }
    if raw.len() - at < 2 {
        return false;
    }
    let len = be_u16_at(raw, at) as usize;
    if len > raw.len() - at - 2 {
        return true;
    }
    let end = at + 2 + len;
    lengths_fit(raw, end, count - 1)
}

/// The `count` length-prefixed fields from `at` on, and where the last one ends; `None`
/// when a field runs past the end of `raw`.
pub open spec fn spec_fields(raw: Seq<u8>, at: int, count: nat) -> Option<(Seq<Seq<u8>>, int)>
    decreases count,
{
    if count == 0 {
        Some((Seq::empty(), at))
    } else if field_end(raw, at) > raw.len() {
        None
    } else {
        match spec_fields(raw, field_end(raw, at), (count - 1) as nat) {
            Some((rest, end)) => Some((seq![raw.subrange(at + 2, field_end(raw, at))] + rest, end)),
            None => None,
        }
    }
}

/// An entry of the X authority file.
#[derive(Debug)]
pub struct XAuth {
    pub family: u16,
    pub address: Vec<u8>,
    pub seat: Vec<u8>,
    pub name: Vec<u8>,
    pub data: Vec<u8>,
}

impl XAuth {
    /// Whether `self` holds the family and the four fields of `raw`.
    pub open spec fn parsed_from(&self, raw: Seq<u8>, fields: Seq<Seq<u8>>) -> bool {
        &&& self.family == spec_be_u16(raw, 0)
        &&& self.address@ == fields[0]
        &&& self.seat@ == fields[1]
        &&& self.name@ == fields[2]
        &&& self.data@ == fields[3]
    }

    /// Parses an entry: the family, big-endian in two bytes, then the address, seat, name
    /// and data, each length-prefixed. `None` when a field runs past the end or bytes are
    /// left over. Every length the parser reaches must be in `raw`.
    pub fn from_bytes(raw: &[u8]) -> (r: Option<Self>)
        requires
            raw@.len() >= 2,
            lengths_present(raw@, 2, 4),
        ensures
            match spec_fields(raw@, 2, 4) {
                Some((fields, end)) => if end == raw@.len() {
                    r matches Some(x) && x.parsed_from(raw@, fields)
                } else {
                    r is None
                },
                None => r is None,
            },
    {
        let ghost s = raw@;
        proof {
            reveal_with_fuel(spec_fields, 5);
            reveal_with_fuel(lengths_present, 5);
        }
        let (family, raw) = u16_be(raw)?;
        let ghost p1 = 2int;
        assert(raw@ =~= s.subrange(p1, s.len() as int));
        let (address, raw) = sized_u16_be_vec(raw)?;
        let ghost p2 = field_end(s, p1);
        assert(raw@ =~= s.subrange(p2, s.len() as int));
        assert(address@ =~= s.subrange(p1 + 2, p2));
        let (seat, raw) = sized_u16_be_vec(raw)?;
        let ghost p3 = field_end(s, p2);
        assert(raw@ =~= s.subrange(p3, s.len() as int));
        assert(seat@ =~= s.subrange(p2 + 2, p3));
        let (name, raw) = sized_u16_be_vec(raw)?;
        let ghost p4 = field_end(s, p3);
        assert(raw@ =~= s.subrange(p4, s.len() as int));
        assert(name@ =~= s.subrange(p3 + 2, p4));
        let (data, raw) = sized_u16_be_vec(raw)?;
        let ghost p5 = field_end(s, p4);
        assert(raw@ =~= s.subrange(p5, s.len() as int));
        assert(data@ =~= s.subrange(p4 + 2, p5));
        if raw.is_empty() {
            Some(Self { family, address, seat, name, data })
        } else {
            None
        }
    }
}

} // verus!
