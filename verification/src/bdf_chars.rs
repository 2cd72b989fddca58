//! Characters of a BDF source text: which of them are blanks, digits and name characters,
//! and where each one starts in the UTF-8 encoding.
use vstd::prelude::*;

use vstd::std_specs::iter::IteratorSpec;
use vstd::string::StringSliceAdditionalSpecFns;
use vstd::utf8::{encode_scalar, encode_utf8, is_scalar};

verus! {

/// Unicode `White_Space`: the characters that separate the words of the source.
pub open spec fn spec_is_whitespace(c: char) -> bool {
    let v = c as u32;
    ||| 0x09 <= v <= 0x0D
    ||| v == 0x20
    ||| v == 0x85
    ||| v == 0xA0
    ||| v == 0x1680
    ||| 0x2000 <= v <= 0x200A
    ||| v == 0x2028
    ||| v == 0x2029
    ||| v == 0x202F
    ||| v == 0x205F
    ||| v == 0x3000
}

/// Whether `c` is a blank (Unicode `White_Space`).
pub fn is_whitespace(c: char) -> (r: bool)
    ensures
        r == spec_is_whitespace(c),
{
    let v = c as u32;
    (0x09 <= v && v <= 0x0D) || v == 0x20 || v == 0x85 || v == 0xA0 || v == 0x1680 || (0x2000
        <= v && v <= 0x200A) || v == 0x2028 || v == 0x2029 || v == 0x202F || v == 0x205F || v
        == 0x3000
}

/// A character that can be part of a keyword: anything but blanks and the double quote.
pub open spec fn spec_is_ident(c: char) -> bool {
    !spec_is_whitespace(c) && c != '"'
}

/// Whether `c` can be part of a keyword.
pub fn is_valid_ident_character(c: char) -> (r: bool)
    ensures
        r == spec_is_ident(c),
{
    !is_whitespace(c) && c != '"'
}

/// A decimal digit.
pub open spec fn spec_is_digit(c: char) -> bool {
    '0' <= c <= '9'
}

/// The value of the decimal digit `c`.
pub open spec fn spec_digit_value(c: char) -> int {
    c as u32 - '0' as u32
}

/// The number of bytes of the UTF-8 encoding of `c`.
pub open spec fn char_width(c: char) -> nat {
    let v = c as u32;
    if v <= 0x7F {
        1
    } else if v <= 0x7FF {
        2
    } else if v <= 0xFFFF {
        3
    } else {
        4
    }
}

/// The number of bytes of the UTF-8 encoding of `c`.
pub fn len_utf8(c: char) -> (r: usize)
    ensures
        r == char_width(c),
        r == encode_scalar(c as u32).len(),
{
    proof {
        vstd::utf8::char_is_scalar(c);
    }
    let v = c as u32;
    if v <= 0x7F {
        1
    } else if v <= 0x7FF {
        2
    } else if v <= 0xFFFF {
        3
    } else {
        4
    }
}

/// The UTF-8 encoding of `a + b` is that of `a` followed by that of `b`.
pub proof fn lemma_encode_concat(a: Seq<char>, b: Seq<char>)
    ensures
        encode_utf8(a + b) == encode_utf8(a) + encode_utf8(b),
    decreases a.len(),
{
    if a.len() == 0 {
        assert(a + b =~= b);
        assert(encode_utf8(a) =~= Seq::<u8>::empty());
        assert(encode_utf8(a) + encode_utf8(b) =~= encode_utf8(b));
    } else {
        assert((a + b).drop_first() =~= a.drop_first() + b);
        lemma_encode_concat(a.drop_first(), b);
        assert((a + b)[0] == a[0]);
        assert(encode_utf8(a + b) == encode_scalar(a[0] as u32) + encode_utf8(a.drop_first() + b));
        assert(encode_utf8(a) == encode_scalar(a[0] as u32) + encode_utf8(a.drop_first()));
        assert(encode_scalar(a[0] as u32) + (encode_utf8(a.drop_first()) + encode_utf8(b))
            =~= encode_scalar(a[0] as u32) + encode_utf8(a.drop_first()) + encode_utf8(b));
    }
}

/// The byte offset at which the character `i` of `chars` starts.
pub open spec fn byte_offset(chars: Seq<char>, i: int) -> nat {
    encode_utf8(chars.take(i)).len()
}

/// The characters of a text, each with the byte offset at which it starts.
pub open spec fn spec_char_indices(chars: Seq<char>) -> Seq<(usize, char)> {
    Seq::new(chars.len(), |i: int| (byte_offset(chars, i) as usize, chars[i]))
}

/// The characters of `source`, each with the byte offset at which it starts.
pub fn char_indices(source: &str) -> (r: Vec<(usize, char)>)
    ensures
        r@ == spec_char_indices(source@),
        forall|i: int| 0 <= i < source@.len() ==> byte_offset(source@, i) < usize::MAX,
{
    let bytes = source.as_bytes();
    let total = bytes.len();
    let ghost chars = source@;
    let mut out: Vec<(usize, char)> = Vec::new();
    let mut offset: usize = 0;
    let mut it = source.chars();
    let ghost mut i: int = 0;
    proof {
        broadcast use vstd::string::group_string_axioms;
        assert(chars.take(0) =~= Seq::<char>::empty());
    }
    loop
        invariant
            chars == source@,
            bytes@ == encode_utf8(chars),
            total == bytes@.len(),
            0 <= i <= chars.len(),
            it.remaining() == chars.skip(i),
            offset == byte_offset(chars, i),
            out@ =~= spec_char_indices(chars).take(i),
            forall|k: int| 0 <= k < i ==> byte_offset(chars, k) < usize::MAX,
        ensures
            i == chars.len(),
            out@ =~= spec_char_indices(chars),
            forall|k: int| 0 <= k < chars.len() ==> byte_offset(chars, k) < usize::MAX,
        decreases chars.len() - i,
    {
        let next = it.next();
        proof {
            broadcast use vstd::string::next_postcondition;
        }
        match next {
            None => {
                assert(chars.skip(i).len() == 0);
                assert(spec_char_indices(chars).take(i) =~= spec_char_indices(chars));
                break;
            },
            Some(c) => {
                assert(c == chars[i]);
                proof {
                    assert(chars.take(i + 1) =~= chars.take(i) + seq![c]);
                    lemma_encode_concat(chars.take(i), seq![c]);
                    assert(chars =~= chars.take(i + 1) + chars.skip(i + 1));
                    lemma_encode_concat(chars.take(i + 1), chars.skip(i + 1));
                    assert(encode_utf8(seq![c]) =~= encode_scalar(c as u32)) by {
                        assert(seq![c].drop_first() =~= Seq::<char>::empty());
                        assert(encode_utf8(Seq::<char>::empty()) =~= Seq::<u8>::empty());
                        assert(encode_scalar(c as u32) + Seq::<u8>::empty() =~= encode_scalar(c as u32));
                    }
                }
                let w = len_utf8(c);
                out.push((offset, c));
                offset = offset + w;
                proof {
                    assert(it.remaining() =~= chars.skip(i + 1));
                    i = i + 1;
                }
            },
        }
    }
    out
}

} // verus!
