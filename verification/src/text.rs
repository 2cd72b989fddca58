//! Building text: the characters of a string, a string of characters, and numbers and
//! byte strings written out as characters.
use vstd::prelude::*;

use crate::bdf_chars::{char_indices, lemma_encode_concat, spec_char_indices};
use crate::replies::string_from_utf8;
use vstd::utf8::{
    decode_utf8, encode_scalar, encode_utf8, encode_utf8_decode_utf8, encode_utf8_valid_utf8,
    last_continuation_byte, leading_byte_width_1, leading_byte_width_2, leading_byte_width_3,
    leading_byte_width_4, second_last_continuation_byte, third_last_continuation_byte,
    valid_utf8,
};

verus! {

/// The characters of `source`, in order.
pub fn chars_of(source: &str) -> (r: Vec<char>)
    ensures
        r@ == source@,
{
    let pairs = char_indices(source);
    let mut out: Vec<char> = Vec::new();
    let mut i: usize = 0;
    while i < pairs.len()
        invariant
            pairs@ == spec_char_indices(source@),
            i <= pairs@.len(),
            out@ == source@.take(i as int),
        decreases pairs@.len() - i,
    {
        out.push(pairs[i].1);
        i = i + 1;
        assert(out@ =~= source@.take(i as int));
    }
    assert(source@.take(pairs@.len() as int) =~= source@);
    out
}

/// Appends the UTF-8 encoding of `c`.
fn push_utf8(out: &mut Vec<u8>, c: char)
    ensures
        final(out)@ == old(out)@ + encode_scalar(c as u32),
{
    let v = c as u32;
    if v <= 0x7F {
        out.push((v & 0x7F) as u8);
        assert(encode_scalar(v) =~= seq![leading_byte_width_1(v)]);
    } else if v <= 0x7FF {
        out.push(0xC0 | ((v >> 6) & 0x1F) as u8);
        out.push(0x80 | (v & 0x3F) as u8);
        assert(encode_scalar(v) =~= seq![leading_byte_width_2(v), last_continuation_byte(v)]);
    } else if v <= 0xFFFF {
        out.push(0xE0 | ((v >> 12) & 0x0F) as u8);
        out.push(0x80 | ((v >> 6) & 0x3F) as u8);
        out.push(0x80 | (v & 0x3F) as u8);
        assert(encode_scalar(v) =~= seq![
            leading_byte_width_3(v),
            second_last_continuation_byte(v),
            last_continuation_byte(v),
        ]);
    } else {
        out.push(0xF0 | ((v >> 18) & 0x7) as u8);
        out.push(0x80 | ((v >> 12) & 0x3F) as u8);
        out.push(0x80 | ((v >> 6) & 0x3F) as u8);
        out.push(0x80 | (v & 0x3F) as u8);
        assert(encode_scalar(v) =~= seq![
            leading_byte_width_4(v),
            third_last_continuation_byte(v),
            second_last_continuation_byte(v),
            last_continuation_byte(v),
        ]);
    }
    assert(final(out)@ =~= old(out)@ + encode_scalar(v));
}

/// The text made of `chars`.
pub fn string_of_chars(chars: &Vec<char>) -> (r: String)
    ensures
        r@ == chars@,
{
    let mut bytes: Vec<u8> = Vec::new();
    let mut i: usize = 0;
    proof {
        assert(chars@.take(0) =~= Seq::<char>::empty());
        assert(encode_utf8(Seq::<char>::empty()) =~= Seq::<u8>::empty());
    }
    while i < chars.len()
        invariant
            i <= chars@.len(),
            bytes@ == encode_utf8(chars@.take(i as int)),
        decreases chars@.len() - i,
    {
        let c = chars[i];
        push_utf8(&mut bytes, c);
        proof {
            assert(chars@.take(i + 1) =~= chars@.take(i as int) + seq![c]);
            lemma_encode_concat(chars@.take(i as int), seq![c]);
            assert(encode_utf8(seq![c]) =~= encode_scalar(c as u32)) by {
                assert(seq![c].drop_first() =~= Seq::<char>::empty());
                assert(encode_utf8(Seq::<char>::empty()) =~= Seq::<u8>::empty());
                assert(encode_scalar(c as u32) + Seq::<u8>::empty() =~= encode_scalar(c as u32));
            }
        }
        i = i + 1;
    }
    proof {
        assert(chars@.take(chars@.len() as int) =~= chars@);
        encode_utf8_valid_utf8(chars@);
        encode_utf8_decode_utf8(chars@);
    }
    match string_from_utf8(bytes) {
        Some(text) => text,
        None => String::new(),
    }
}

/// Appends the characters of `s`.
pub fn push_str(out: &mut Vec<char>, s: &str)
    ensures
        final(out)@ == old(out)@ + s@,
{
    let mut chars = chars_of(s);
    out.append(&mut chars);
}

/// The decimal digits of `n`, most significant first.
pub open spec fn decimal_chars(n: nat) -> Seq<char>
    decreases n,
{
    if n < 10 {
        seq![(48 + n) as char]
    } else {
        decimal_chars(n / 10).push((48 + n % 10) as char)
    }
}

/// Appends the decimal digits of `n`.
pub fn push_decimal(out: &mut Vec<char>, n: u64)
    ensures
        final(out)@ == old(out)@ + decimal_chars(n as nat),
    decreases n,
{
    if n >= 10 {
        push_decimal(out, n / 10);
    }
    let digit = ((48 + n % 10) as u8) as char;
    out.push(digit);
    proof {
        if n >= 10 {
            assert(old(out)@ + decimal_chars(n as nat) =~= old(out)@ + decimal_chars((n / 10) as nat)
                + seq![digit]);
        } else {
            assert(old(out)@ + decimal_chars(n as nat) =~= old(out)@ + seq![digit]);
        }
    }
}

/// The bytes listed as the debugging form of a byte slice writes them: `[1, 2, 3]`.
pub open spec fn byte_list(bytes: Seq<u8>) -> Seq<char>
    decreases bytes.len(),
{
    if bytes.len() == 0 {
        seq!['[', ']']
    } else {
        byte_list_items(bytes).push(']')
    }
}

/// An opening bracket and the bytes in decimal, separated by a comma and a space.
pub open spec fn byte_list_items(bytes: Seq<u8>) -> Seq<char>
    decreases bytes.len(),
{
    if bytes.len() == 0 {
        seq!['[']
    } else if bytes.len() == 1 {
        seq!['['] + decimal_chars(bytes[0] as nat)
    } else {
        byte_list_items(bytes.drop_last()) + seq![',', ' '] + decimal_chars(bytes.last() as nat)
    }
}

/// Text received from the server: the characters it encodes if it is UTF-8, otherwise the
/// list of its bytes.
pub open spec fn maybe_utf8(bytes: Seq<u8>) -> Seq<char> {
    if valid_utf8(bytes) {
        decode_utf8(bytes)
    } else {
        byte_list(bytes)
    }
}

/// Appends the list of `bytes` in their debugging form.
fn push_byte_list(out: &mut Vec<char>, bytes: &[u8])
    ensures
        final(out)@ == old(out)@ + byte_list(bytes@),
{
    let ghost start = out@;
    out.push('[');
    let mut i: usize = 0;
    proof {
        assert(bytes@.take(0) =~= Seq::<u8>::empty());
        assert(out@ =~= start + byte_list_items(bytes@.take(0)));
    }
    while i < bytes.len()
        invariant
            i <= bytes@.len(),
            out@ == start + byte_list_items(bytes@.take(i as int)),
        decreases bytes@.len() - i,
    {
        if i > 0 {
            out.push(',');
            out.push(' ');
        }
        push_decimal(out, bytes[i] as u64);
        proof {
            let t = bytes@.take(i + 1);
            assert(t.drop_last() =~= bytes@.take(i as int));
            assert(t.last() == bytes@[i as int]);
            if i == 0 {
                assert(out@ =~= start + byte_list_items(t));
            } else {
                assert(out@ =~= start + byte_list_items(t));
            }
        }
        i = i + 1;
    }
    out.push(']');
    proof {
        assert(bytes@.take(bytes@.len() as int) =~= bytes@);
        assert(out@ =~= start + byte_list(bytes@));
    }
}

/// Text received from the server: the characters it encodes if it is UTF-8, otherwise the
/// list of its bytes.
pub fn display_maybe_utf8(buf: &[u8]) -> (r: String)
    ensures
        r@ == maybe_utf8(buf@),
{
    let mut out: Vec<char> = Vec::new();
    push_maybe_utf8(&mut out, buf);
    string_of_chars(&out)
}

/// Appends the text received from the server in `buf`.
pub fn push_maybe_utf8(out: &mut Vec<char>, buf: &[u8])
    ensures
        final(out)@ == old(out)@ + maybe_utf8(buf@),
{
    let mut copy: Vec<u8> = Vec::new();
    copy.extend_from_slice(buf);
    assert(copy@ =~= buf@);
    match string_from_utf8(copy) {
        Some(text) => push_str(out, text.as_str()),
        None => push_byte_list(out, buf),
    }
}

} // verus!
