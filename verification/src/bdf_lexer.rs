//! Splitting a BDF source text into tokens.
//!
//! Outside a glyph bitmap the tokens are keywords, quoted strings and decimal numbers.
//! After the keyword `BITMAP`, up to `ENDCHAR`, every word is a row of the bitmap, read as
//! a hexadecimal integer where it is one.
use vstd::prelude::*;

use crate::bdf::{Location, Span};
use crate::replies::string_from_utf8;
use vstd::string::StringSliceAdditionalSpecFns;
use vstd::utf8::{encode_utf8, encode_utf8_decode_utf8, encode_utf8_valid_utf8};
use crate::bdf_chars::{
    lemma_encode_concat, byte_offset, char_indices, is_valid_ident_character, is_whitespace, spec_char_indices,
    spec_digit_value, spec_is_digit, spec_is_ident, spec_is_whitespace,
};
use vstd::std_specs::iter::IteratorSpec;

verus! {

/// A value with the span of source text it came from.
#[derive(Debug, Clone, Copy, PartialEq, Eq, Structural, PartialOrd, Ord, Hash)]
pub struct Spanned<T> {
    pub span: Span,
    pub value: T,
}

/// Whether a quoted string was closed by a second quote.
#[derive(Debug, Clone, Copy, PartialEq, Eq, Structural, PartialOrd, Ord, Hash)]
pub enum StringValidity {
    Valid,
    Unclosed,
}

/// A value with the location it was found at.
#[derive(Debug, Clone, Copy, PartialEq, Eq, Structural, PartialOrd, Ord, Hash)]
pub struct Located<T> {
    pub location: Location,
    pub value: T,
}

/// A token. Texts are given by the positions of their first character and of the character
/// after their last one, counted in characters of the source.
#[derive(Debug, Clone, Copy, PartialEq, Eq, Structural, PartialOrd, Ord, Hash)]
pub enum Token {
    Keyword(usize, usize),
    String(usize, usize, StringValidity),
    Integer(i32),
    /// A decimal fraction, with its sign where it has one.
    Number(usize, usize),
}

/// What the lexer does next: stop at the end of the text, overflow an integer, or hand out a
/// token and move to a new position and mode.
pub enum LexStep {
    End,
    Overflow,
    Item(Spanned<Token>, usize, bool),
}

/// The characters of indexed text.
pub open spec fn chars_of(ix: Seq<(usize, char)>) -> Seq<char> {
    ix.map_values(|p: (usize, char)| p.1)
}

/// The location of character `i`.
pub open spec fn loc(ix: Seq<(usize, char)>, i: int) -> Location {
    Location { offset: ix[i].0 }
}

/// The first position at or after `p` that holds no blank.
pub open spec fn skip_ws(ix: Seq<(usize, char)>, p: int) -> int
    decreases ix.len() - p,
{
    if p >= ix.len() {
        ix.len() as int
    } else if spec_is_whitespace(ix[p].1) {
        skip_ws(ix, p + 1)
    } else {
        p
    }
}

/// The first position at or after `p` that holds no keyword character.
pub open spec fn ident_end(ix: Seq<(usize, char)>, p: int) -> int
    decreases ix.len() - p,
{
    if p >= ix.len() {
        ix.len() as int
    } else if spec_is_ident(ix[p].1) {
        ident_end(ix, p + 1)
    } else {
        p
    }
}

/// The first position at or after `p` that holds no decimal digit.
pub open spec fn digits_end(ix: Seq<(usize, char)>, p: int) -> int
    decreases ix.len() - p,
{
    if p >= ix.len() {
        ix.len() as int
    } else if spec_is_digit(ix[p].1) {
        digits_end(ix, p + 1)
    } else {
        p
    }
}

/// The first position at or after `p` that holds a double quote or a line feed.
pub open spec fn string_stop(ix: Seq<(usize, char)>, p: int) -> int
    decreases ix.len() - p,
{
    if p >= ix.len() {
        ix.len() as int
    } else if ix[p].1 == '"' || ix[p].1 == '\n' {
        p
    } else {
        string_stop(ix, p + 1)
    }
}

/// The value of the decimal digits at positions `from` to `to`, `to` excluded.
pub open spec fn decimal_value(ix: Seq<(usize, char)>, from: int, to: int) -> int
    decreases to - from,
{
    if to <= from {
        0
    } else {
        decimal_value(ix, from, to - 1) * 10 + spec_digit_value(ix[to - 1].1)
    }
}

/// The value of a hexadecimal digit, where `c` is one.
pub open spec fn hex_digit(c: char) -> Option<int> {
    if '0' <= c <= '9' {
        Some(c as u32 - '0' as u32)
    } else if 'a' <= c <= 'f' {
        Some(c as u32 - 'a' as u32 + 10)
    } else if 'A' <= c <= 'F' {
        Some(c as u32 - 'A' as u32 + 10)
    } else {
        None
    }
}

/// The value of the hexadecimal digits `d`, where all of them are digits.
pub open spec fn hex_value(d: Seq<char>) -> Option<int>
    decreases d.len(),
{
    if d.len() == 0 {
        Some(0)
    } else {
        match (hex_value(d.drop_last()), hex_digit(d.last())) {
            (Some(v), Some(x)) => Some(v * 16 + x),
            _ => None,
        }
    }
}

/// A hexadecimal `i32` with an optional sign, as `i32::from_str_radix(.., 16)` reads it:
/// `None` for an empty text, a lone sign, a character that is no digit or a value out of range.
pub open spec fn parse_hex_i32(t: Seq<char>) -> Option<i32> {
    if t.len() == 0 || (t.len() == 1 && (t[0] == '+' || t[0] == '-')) {
        None
    } else if t[0] == '-' {
        match hex_value(t.drop_first()) {
            Some(v) => if v <= 0x8000_0000 {
                Some((-v) as i32)
            } else {
                None
            },
            None => None,
        }
    } else {
        let digits = if t[0] == '+' {
            t.drop_first()
        } else {
            t
        };
        match hex_value(digits) {
            Some(v) => if v <= 0x7fff_ffff {
                Some(v as i32)
            } else {
                None
            },
            None => None,
        }
    }
}

/// A word at `q`, ending at the first character that cannot be part of one: its token,
/// span and the position after it.
pub open spec fn keyword_at(ix: Seq<(usize, char)>, q: int, bitmap: bool) -> LexStep {
    let e = ident_end(ix, q);
    LexStep::Item(
        Spanned { span: Span { start: loc(ix, q), end: loc(ix, e - 1) }, value: Token::Keyword(q as usize, e as usize) },
        e as usize,
        bitmap,
    )
}

/// A number whose text starts at `s` and whose digits start at `d` (`d == s + 1` where a
/// minus sign leads).
pub open spec fn number_at(ix: Seq<(usize, char)>, s: int, d: int) -> LexStep {
    let d1 = digits_end(ix, d);
    let v = decimal_value(ix, d, d1);
    if v > i32::MAX {
        LexStep::Overflow
    } else if d1 < ix.len() && ix[d1].1 == '.' {
        let d2 = digits_end(ix, d1 + 1);
        let last = if d2 > d1 + 1 {
            d2 - 1
        } else {
            d1 - 1
        };
        LexStep::Item(
            Spanned { span: Span { start: loc(ix, s), end: loc(ix, last) }, value: Token::Number(s as usize, (last + 1) as usize) },
            d2 as usize,
            false,
        )
    } else {
        let value = if d > s {
            (-v) as i32
        } else {
            v as i32
        };
        LexStep::Item(
            Spanned { span: Span { start: loc(ix, s), end: loc(ix, d1 - 1) }, value: Token::Integer(value) },
            d1 as usize,
            false,
        )
    }
}

/// A quoted string whose opening quote is at `q`.
pub open spec fn string_at(ix: Seq<(usize, char)>, q: int) -> LexStep {
    let k = string_stop(ix, q + 1);
    if k < ix.len() && ix[k].1 == '"' {
        LexStep::Item(
            Spanned { span: Span { start: loc(ix, q), end: loc(ix, k) }, value: Token::String((q + 1) as usize, k as usize, StringValidity::Valid) },
            (k + 1) as usize,
            false,
        )
    } else if k < ix.len() {
        LexStep::Item(
            Spanned { span: Span { start: loc(ix, q), end: loc(ix, k) }, value: Token::String((q + 1) as usize, (k + 1) as usize, StringValidity::Unclosed) },
            (k + 1) as usize,
            false,
        )
    } else {
        let end = if ix.len() > q + 1 {
            ix.len() - 1
        } else {
            q
        };
        LexStep::Item(
            Spanned { span: Span { start: loc(ix, q), end: loc(ix, end) }, value: Token::String((q + 1) as usize, ix.len() as usize, StringValidity::Unclosed) },
            ix.len() as usize,
            false,
        )
    }
}

/// The next step outside a bitmap, from position `p`.
pub open spec fn normal_step(ix: Seq<(usize, char)>, p: int) -> LexStep {
    let q = skip_ws(ix, p);
    if q >= ix.len() {
        LexStep::End
    } else {
        let c = ix[q].1;
        if c == '-' {
            if q + 1 < ix.len() && spec_is_digit(ix[q + 1].1) {
                number_at(ix, q, q + 1)
            } else {
                keyword_at(ix, q, false)
            }
        } else if c == '"' {
            string_at(ix, q)
        } else if spec_is_digit(c) {
            number_at(ix, q, q)
        } else {
            let e = ident_end(ix, q);
            keyword_at(ix, q, chars_of(ix).subrange(q, e) == "BITMAP"@)
        }
    }
}

/// The next step inside a bitmap, from position `p`: a word, which is `ENDCHAR`, a
/// hexadecimal row or another keyword. A double quote is taken as a one-character word
/// without moving past it.
pub open spec fn bitmap_step(ix: Seq<(usize, char)>, p: int) -> LexStep {
    let q = skip_ws(ix, p);
    if q >= ix.len() {
        LexStep::End
    } else {
        let e = ident_end(ix, q);
        let last = if e > q {
            e - 1
        } else {
            q
        };
        let text = chars_of(ix).subrange(q, last + 1);
        let span = Span { start: loc(ix, q), end: loc(ix, last) };
        if text == "ENDCHAR"@ {
            LexStep::Item(Spanned { span, value: Token::Keyword(q as usize, (last + 1) as usize) }, e as usize, false)
        } else {
            match parse_hex_i32(text) {
                Some(h) => LexStep::Item(Spanned { span, value: Token::Integer(h) }, e as usize, true),
                None => LexStep::Item(
                    Spanned { span, value: Token::Keyword(q as usize, (last + 1) as usize) },
                    e as usize,
                    true,
                ),
            }
        }
    }
}

/// The next step of the lexer at position `p`, in bitmap mode or not.
#[verifier::opaque]
pub open spec fn lex_step(ix: Seq<(usize, char)>, p: int, bitmap: bool) -> LexStep {
    if bitmap {
        bitmap_step(ix, p)
    } else {
        normal_step(ix, p)
    }
}


/// Every position from `p` up to `digits_end(ix, p)` holds a digit.
pub proof fn lemma_digits_run(ix: Seq<(usize, char)>, p: int, k: int)
    requires
        0 <= p <= k < digits_end(ix, p),
    ensures
        spec_is_digit(ix[k].1),
    decreases k - p,
{
    if p < k {
        lemma_digits_run(ix, p + 1, k);
    }
}

/// The value of a run of digits does not shrink as the run grows.
pub proof fn lemma_decimal_grows(ix: Seq<(usize, char)>, from: int, t1: int, t2: int)
    requires
        0 <= from <= t1 <= t2 <= ix.len(),
        forall|k: int| from <= k < t2 ==> #[trigger] spec_is_digit(ix[k].1),
    ensures
        0 <= decimal_value(ix, from, t1) <= decimal_value(ix, from, t2),
    decreases t2 - from,
{
    if t2 > from {
        if t1 < t2 {
            lemma_decimal_grows(ix, from, t1, t2 - 1);
        } else {
            lemma_decimal_grows(ix, from, t1 - 1, t2 - 1);
        }
        assert(spec_is_digit(ix[t2 - 1].1));
    }
}

/// A lexer over a source text.
pub struct Lexer<'src> {
    indices: Vec<(usize, char)>,
    source: &'src str,
    pos: usize,
    bitmap_mode: bool,
}

impl<'src> Lexer<'src> {
    /// The characters of the source, each with its byte offset.
    pub closed spec fn spec_indices(&self) -> Seq<(usize, char)> {
        self.indices@
    }

    /// The source text.
    pub closed spec fn spec_source(&self) -> &'src str {
        self.source
    }

    /// The position of the next character to read.
    pub closed spec fn spec_pos(&self) -> usize {
        self.pos
    }

    /// Whether the lexer is inside a bitmap.
    pub closed spec fn spec_bitmap(&self) -> bool {
        self.bitmap_mode
    }

    /// The step the lexer takes next.
    pub open spec fn spec_step(&self) -> LexStep {
        lex_step(self.spec_indices(), self.spec_pos() as int, self.spec_bitmap())
    }

    /// The indices are those of the source, and the position lies within it.
    pub closed spec fn wf(&self) -> bool {
        &&& self.indices@ == spec_char_indices(self.source@)
        &&& self.pos <= self.indices@.len()
        &&& self.indices@.len() <= usize::MAX
        &&& forall|i: int| 0 <= i < self.source@.len() ==> #[trigger] byte_offset(self.source@, i) < usize::MAX
    }

    /// The indexed characters are those of the source.
    pub proof fn lemma_chars(&self)
        requires
            self.wf(),
        ensures
            chars_of(self.spec_indices()) == self.spec_source()@,
            self.spec_indices().len() == self.spec_source()@.len(),
            self.spec_indices().len() <= usize::MAX,
            self.spec_pos() <= self.spec_indices().len(),
            forall|i: int| 0 <= i < self.spec_indices().len() ==> (#[trigger] self.spec_indices()[i]).1 == self.spec_source()@[i]
                && self.spec_indices()[i].0 == byte_offset(self.spec_source()@, i),
    {
        assert(chars_of(self.spec_indices()) =~= self.spec_source()@);
    }

    /// A lexer at the start of `source`.
    pub fn new(source: &'src str) -> (r: Self)
        ensures
            r.wf(),
            r.spec_source() == source,
            r.spec_indices() == spec_char_indices(source@),
            r.spec_pos() == 0,
            !r.spec_bitmap(),
    {
        let indices = char_indices(source);
        Self::with_iterator(indices, source)
    }

    /// A lexer at the start of `source`, given the characters of `source` with their byte
    /// offsets.
    pub fn with_iterator(indices: Vec<(usize, char)>, source: &'src str) -> (r: Self)
        requires
            indices@ == spec_char_indices(source@),
            forall|i: int| 0 <= i < source@.len() ==> #[trigger] byte_offset(source@, i) < usize::MAX,
        ensures
            r.wf(),
            r.spec_source() == source,
            r.spec_indices() == indices@,
            r.spec_pos() == 0,
            !r.spec_bitmap(),
    {
        // Asking for the length bounds it by `usize::MAX` in the proof.
        let _len = indices.len();
        Self { indices, source, pos: 0, bitmap_mode: false }
    }

    /// The lexer after one call of `next`: it moves past the next token, and nothing else
    /// changes.
    pub closed spec fn spec_advanced(self) -> Lexer<'src> {
        match self.spec_step() {
            LexStep::Item(_, p, b) => Lexer { pos: p, bitmap_mode: b, ..self },
            _ => self,
        }
    }

    /// The lexer after `n` calls of `next`.
    pub open spec fn spec_after(self, n: nat) -> Lexer<'src>
        decreases n,
    {
        if n == 0 {
            self
        } else {
            self.spec_after((n - 1) as nat).spec_advanced()
        }
    }

    /// However many tokens are read, the lexer reads the same text: `content` gives the
    /// source it was made with.
    pub proof fn lemma_content_kept(self, n: nat)
        ensures
            self.spec_after(n).spec_source() == self.spec_source(),
            self.spec_after(n).spec_indices() == self.spec_indices(),
        decreases n,
    {
        if n > 0 {
            self.lemma_content_kept((n - 1) as nat);
        }
    }

    /// The source text.
    pub fn content(&self) -> (r: &'src str)
        ensures
            r == self.spec_source(),
    {
        self.source
    }

    /// Whether the lexer is inside a bitmap.
    pub fn in_bitmap(&self) -> (r: bool)
        ensures
            r == self.spec_bitmap(),
    {
        self.bitmap_mode
    }

    fn skip_whitespace(&self, p: usize) -> (r: usize)
        requires
            p <= self.indices@.len(),
        ensures
            r == skip_ws(self.indices@, p as int),
            p <= r <= self.indices@.len(),
    {
        let mut k = p;
        while k < self.indices.len() && is_whitespace(self.indices[k].1)
            invariant
                p <= k <= self.indices@.len(),
                skip_ws(self.indices@, k as int) == skip_ws(self.indices@, p as int),
            decreases self.indices@.len() - k,
        {
            k = k + 1;
        }
        k
    }

    fn ident_end(&self, p: usize) -> (r: usize)
        requires
            p <= self.indices@.len(),
        ensures
            r == ident_end(self.indices@, p as int),
            p <= r <= self.indices@.len(),
    {
        let mut k = p;
        while k < self.indices.len() && is_valid_ident_character(self.indices[k].1)
            invariant
                p <= k <= self.indices@.len(),
                ident_end(self.indices@, k as int) == ident_end(self.indices@, p as int),
            decreases self.indices@.len() - k,
        {
            k = k + 1;
        }
        k
    }

    fn digits_end(&self, p: usize) -> (r: usize)
        requires
            p <= self.indices@.len(),
        ensures
            r == digits_end(self.indices@, p as int),
            p <= r <= self.indices@.len(),
    {
        let mut k = p;
        while k < self.indices.len() && '0' <= self.indices[k].1 && self.indices[k].1 <= '9'
            invariant
                p <= k <= self.indices@.len(),
                digits_end(self.indices@, k as int) == digits_end(self.indices@, p as int),
            decreases self.indices@.len() - k,
        {
            k = k + 1;
        }
        k
    }

    fn string_stop(&self, p: usize) -> (r: usize)
        requires
            p <= self.indices@.len(),
        ensures
            r == string_stop(self.indices@, p as int),
            p <= r <= self.indices@.len(),
    {
        let mut k = p;
        while k < self.indices.len() && self.indices[k].1 != '"' && self.indices[k].1 != '\n'
            invariant
                p <= k <= self.indices@.len(),
                string_stop(self.indices@, k as int) == string_stop(self.indices@, p as int),
            decreases self.indices@.len() - k,
        {
            k = k + 1;
        }
        k
    }

    /// The byte offset of character `i`, or the length of the text for `i` at its end.
    fn offset_of(&self, i: usize) -> (r: usize)
        requires
            self.wf(),
            i <= self.spec_indices().len(),
        ensures
            r == byte_offset(self.spec_source()@, i as int),
    {
        proof {
            self.lemma_chars();
        }
        if i < self.indices.len() {
            self.indices[i].0
        } else {
            let ghost chars = self.source@;
            assert(chars.take(i as int) =~= chars);
            self.source.as_bytes().len()
        }
    }

    /// The source text of the characters from `from` to `to`.
    pub fn text(&self, from: usize, to: usize) -> (r: String)
        requires
            self.wf(),
            from <= to <= self.spec_indices().len(),
        ensures
            r@ == chars_of(self.spec_indices()).subrange(from as int, to as int),
    {
        proof {
            self.lemma_chars();
        }
        let ghost chars = self.source@;
        let ghost sub = chars.subrange(from as int, to as int);
        let bytes = self.source.as_bytes();
        let a = self.offset_of(from);
        let b = self.offset_of(to);
        proof {
            assert(chars.take(to as int) =~= chars.take(from as int) + sub);
            lemma_encode_concat(chars.take(from as int), sub);
            assert(chars =~= chars.take(to as int) + chars.skip(to as int));
            lemma_encode_concat(chars.take(to as int), chars.skip(to as int));
            assert(bytes@.subrange(a as int, b as int) =~= encode_utf8(sub));
            encode_utf8_valid_utf8(sub);
            encode_utf8_decode_utf8(sub);
        }
        let mut out: Vec<u8> = Vec::new();
        let mut k = a;
        while k < b
            invariant
                a <= k <= b <= bytes@.len(),
                out@ == bytes@.subrange(a as int, k as int),
            decreases b - k,
        {
            out.push(bytes[k]);
            k = k + 1;
            assert(out@ =~= bytes@.subrange(a as int, k as int));
        }
        assert(out@ =~= encode_utf8(sub));
        match string_from_utf8(out) {
            Some(t) => t,
            None => String::new(),
        }
    }

    /// Whether the characters from `from` to `to` spell `word`.
    pub fn text_is(&self, from: usize, to: usize, word: &str) -> (r: bool)
        requires
            from <= to <= self.spec_indices().len(),
        ensures
            r == (chars_of(self.spec_indices()).subrange(from as int, to as int) == word@),
    {
        let ghost text = chars_of(self.indices@).subrange(from as int, to as int);
        let mut it = word.chars();
        let mut k = from;
        proof {
            broadcast use vstd::string::group_string_axioms;
        }
        loop
            invariant
                from <= k <= to <= self.indices@.len(),
                text == chars_of(self.indices@).subrange(from as int, to as int),
                k - from <= word@.len(),
                it.remaining() == word@.skip(k - from),
                text.take(k - from) == word@.take(k - from),
            decreases word@.len() - (k - from),
        {
            let n = it.next();
            proof {
                broadcast use vstd::string::next_postcondition;
            }
            match n {
                None => {
                    assert(word@.skip(k - from).len() == 0);
                    assert(word@.take(k - from) =~= word@);
                    if k == to {
                        assert(text.take(k - from) =~= text);
                    }
                    return k == to;
                },
                Some(c) => {
                    if k >= to {
                        return false;
                    }
                    if self.indices[k].1 != c {
                        assert(text[k - from] != word@[k - from]);
                        return false;
                    }
                    proof {
                        assert(text.take(k + 1 - from) =~= text.take(k - from).push(text[k - from]));
                        assert(word@.take(k + 1 - from) =~= word@.take(k - from).push(word@[k - from]));
                        assert(it.remaining() =~= word@.skip(k + 1 - from));
                    }
                    k = k + 1;
                },
            }
        }
    }

    fn hex_digit(c: char) -> (r: Option<u64>)
        ensures
            match hex_digit(c) {
                Some(v) => r == Some(v as u64),
                None => r is None,
            },
    {
        if '0' <= c && c <= '9' {
            Some((c as u32 - '0' as u32) as u64)
        } else if 'a' <= c && c <= 'f' {
            Some((c as u32 - 'a' as u32 + 10) as u64)
        } else if 'A' <= c && c <= 'F' {
            Some((c as u32 - 'A' as u32 + 10) as u64)
        } else {
            None
        }
    }

    /// The hexadecimal integer that the characters from `from` to `to` write, if they write one.
    fn parse_hex(&self, from: usize, to: usize) -> (r: Option<i32>)
        requires
            from <= to <= self.indices@.len(),
        ensures
            r == parse_hex_i32(chars_of(self.indices@).subrange(from as int, to as int)),
    {
        let ghost t = chars_of(self.indices@).subrange(from as int, to as int);
        if from == to {
            return None;
        }
        let first = self.indices[from].1;
        if to - from == 1 && (first == '+' || first == '-') {
            return None;
        }
        let negative = first == '-';
        let start = if first == '+' || first == '-' {
            from + 1
        } else {
            from
        };
        let limit: u64 = if negative {
            0x8000_0000
        } else {
            0x7fff_ffff
        };
        let ghost digits = chars_of(self.indices@).subrange(start as int, to as int);
        proof {
            if first == '+' || first == '-' {
                assert(digits =~= t.drop_first());
            } else {
                assert(digits =~= t);
            }
        }
        let mut v: u64 = 0;
        let mut too_big = false;
        let ghost mut exact: int = 0;
        let mut k = start;
        proof {
            assert(digits.take(0) =~= Seq::<char>::empty());
        }
        while k < to
            invariant
                start <= k <= to <= self.indices@.len(),
                t == chars_of(self.indices@).subrange(from as int, to as int),
                t.len() >= 1,
                !(t.len() == 1 && (t[0] == '+' || t[0] == '-')),
                negative == (t[0] == '-'),
                negative ==> limit == 0x8000_0000,
                !negative ==> limit == 0x7fff_ffff,
                (t[0] == '+' || t[0] == '-') ==> digits == t.drop_first(),
                !(t[0] == '+' || t[0] == '-') ==> digits == t,
                digits == chars_of(self.indices@).subrange(start as int, to as int),
                limit <= 0x8000_0000,
                hex_value(digits.take(k - start)) == Some(exact),
                exact >= 0,
                too_big ==> exact > limit,
                !too_big ==> v == exact && v <= limit,
            decreases to - k,
        {
            let c = self.indices[k].1;
            assert(c == digits[k - start]);
            assert(digits.take(k + 1 - start).drop_last() =~= digits.take(k - start));
            match Self::hex_digit(c) {
                None => {
                    proof {
                        lemma_hex_none(digits, k + 1 - start);
                    }
                    return None;
                },
                Some(x) => {
                    proof {
                        exact = exact * 16 + x;
                    }
                    if !too_big {
                        v = v * 16 + x;
                        if v > limit {
                            too_big = true;
                        }
                    }
                },
            }
            k = k + 1;
        }
        assert(digits.take(to - start) =~= digits);
        if too_big {
            return None;
        }
        if negative {
            Some((0i64 - v as i64) as i32)
        } else {
            Some(v as i32)
        }
    }

    /// The number whose text starts at `s` and whose digits start at `d`.
    fn number(&self, s: usize, d: usize) -> (r: (Spanned<Token>, usize))
        requires
            self.wf(),
            s <= d < self.indices@.len(),
            d == s || d == s + 1,
            spec_is_digit(self.indices@[d as int].1),
            !(number_at(self.indices@, s as int, d as int) is Overflow),
        ensures
            number_at(self.indices@, s as int, d as int) == LexStep::Item(r.0, r.1, false),
            r.1 <= self.indices@.len(),
    {
        let ghost ix = self.indices@;
        proof {
            lemma_scan_bounds(ix, d + 1);
            lemma_scan_bounds(ix, d as int);
        }
        let d1 = self.digits_end(d);
        proof {
            assert(digits_end(ix, d as int) == digits_end(ix, d + 1));
            assert forall|k: int| d <= k < d1 implies #[trigger] spec_is_digit(ix[k].1) by {
                lemma_digits_run(ix, d as int, k);
            }
        }
        let mut numerator: i32 = 0;
        let mut k = d;
        while k < d1
            invariant
                ix == self.indices@,
                d <= k <= d1 <= ix.len(),
                forall|j: int| d <= j < d1 ==> #[trigger] spec_is_digit(ix[j].1),
                decimal_value(ix, d as int, d1 as int) <= i32::MAX,
                numerator == decimal_value(ix, d as int, k as int),
            decreases d1 - k,
        {
            proof {
                lemma_decimal_grows(ix, d as int, k + 1, d1 as int);
                assert(spec_is_digit(ix[k as int].1));
            }
            let digit = (self.indices[k].1 as u32 - '0' as u32) as i32;
            numerator = numerator * 10 + digit;
            k = k + 1;
        }
        proof {
            lemma_decimal_grows(ix, d as int, d as int, d1 as int);
        }
        if d1 < self.indices.len() && self.indices[d1].1 == '.' {
            proof {
                lemma_scan_bounds(ix, d1 + 1);
            }
            let d2 = self.digits_end(d1 + 1);
            let last = if d2 > d1 + 1 {
                d2 - 1
            } else {
                d1 - 1
            };
            let span = Span {
                start: Location { offset: self.indices[s].0 },
                end: Location { offset: self.indices[last].0 },
            };
            (Spanned { span, value: Token::Number(s, last + 1) }, d2)
        } else {
            let value = if d > s {
                0 - numerator
            } else {
                numerator
            };
            let span = Span {
                start: Location { offset: self.indices[s].0 },
                end: Location { offset: self.indices[d1 - 1].0 },
            };
            (Spanned { span, value: Token::Integer(value) }, d1)
        }
    }

    /// The quoted string whose opening quote is at `q`.
    fn string(&self, q: usize) -> (r: (Spanned<Token>, usize))
        requires
            q < self.indices@.len(),
        ensures
            string_at(self.indices@, q as int) == LexStep::Item(r.0, r.1, false),
            r.1 <= self.indices@.len(),
    {
        // Asking for the length bounds it by `usize::MAX` in the proof.
        let _len = self.indices.len();
        let k = self.string_stop(q + 1);
        let start = Location { offset: self.indices[q].0 };
        if k < self.indices.len() && self.indices[k].1 == '"' {
            let span = Span { start, end: Location { offset: self.indices[k].0 } };
            (Spanned { span, value: Token::String(q + 1, k, StringValidity::Valid) }, k + 1)
        } else if k < self.indices.len() {
            let span = Span { start, end: Location { offset: self.indices[k].0 } };
            (Spanned { span, value: Token::String(q + 1, k + 1, StringValidity::Unclosed) }, k + 1)
        } else {
            let n = self.indices.len();
            let end = if n > q + 1 {
                n - 1
            } else {
                q
            };
            let span = Span { start, end: Location { offset: self.indices[end].0 } };
            (Spanned { span, value: Token::String(q + 1, n, StringValidity::Unclosed) }, n)
        }
    }

    /// Whether the number starting at `s`, with its digits at `d`, is too large for an `i32`.
    fn number_overflows(&self, s: usize, d: usize) -> (r: bool)
        requires
            self.wf(),
            s <= d < self.indices@.len(),
            spec_is_digit(self.indices@[d as int].1),
        ensures
            r == (number_at(self.indices@, s as int, d as int) is Overflow),
    {
        let ghost ix = self.indices@;
        proof {
            lemma_scan_bounds(ix, d as int);
        }
        let d1 = self.digits_end(d);
        proof {
            assert forall|k: int| d <= k < d1 implies #[trigger] spec_is_digit(ix[k].1) by {
                lemma_digits_run(ix, d as int, k);
            }
        }
        let mut value: u64 = 0;
        let mut k = d;
        while k < d1
            invariant
                ix == self.indices@,
                d <= k <= d1 <= ix.len(),
                forall|j: int| d <= j < d1 ==> #[trigger] spec_is_digit(ix[j].1),
                value == decimal_value(ix, d as int, k as int),
                value <= i32::MAX,
                d1 == digits_end(ix, d as int),
            decreases d1 - k,
        {
            proof {
                lemma_decimal_grows(ix, d as int, k as int, k + 1);
                assert(spec_is_digit(ix[k as int].1));
            }
            let digit = (self.indices[k].1 as u32 - '0' as u32) as u64;
            value = value * 10 + digit;
            k = k + 1;
            assert(value == decimal_value(ix, d as int, k as int));
            if value > 0x7fff_ffff {
                proof {
                    lemma_decimal_grows(ix, d as int, k as int, d1 as int);
                    assert(decimal_value(ix, d as int, d1 as int) > i32::MAX);
                    assert(digits_end(ix, d as int) == d1);
                }
                return true;
            }
        }
        false
    }

    /// Whether the next step of the lexer runs into a number too large for an `i32`.
    pub fn overflows(&self) -> (r: bool)
        requires
            self.wf(),
        ensures
            r == (self.spec_step() is Overflow),
    {
        reveal(lex_step);
        let ghost ix = self.indices@;
        if self.bitmap_mode {
            return false;
        }
        let q = self.skip_whitespace(self.pos);
        if q >= self.indices.len() {
            return false;
        }
        let c = self.indices[q].1;
        if c == '-' {
            if q + 1 < self.indices.len() && '0' <= self.indices[q + 1].1 && self.indices[q + 1].1 <= '9' {
                return self.number_overflows(q, q + 1);
            }
            return false;
        }
        if '0' <= c && c <= '9' {
            return self.number_overflows(q, q);
        }
        false
    }

    /// The position of the lexer, in characters.
    pub fn position(&self) -> (r: usize)
        ensures
            r == self.spec_pos(),
    {
        self.pos
    }

    /// The next token with the position and mode that follow it, without moving.
    fn step(&self) -> (r: (Option<Spanned<Token>>, usize, bool))
        requires
            self.wf(),
            !(self.spec_step() is Overflow),
        ensures
            r.1 <= self.spec_indices().len(),
            match self.spec_step() {
                LexStep::Item(t, p, b) => r.0 == Some(t) && r.1 == p && r.2 == b,
                _ => r.0 is None && r.1 == self.spec_pos() && r.2 == self.spec_bitmap(),
            },
    {
        reveal(lex_step);
        let ghost ix = self.indices@;
        let q = self.skip_whitespace(self.pos);
        if q >= self.indices.len() {
            return (None, self.pos, self.bitmap_mode);
        }
        proof {
            lemma_skip_ws_stops(ix, self.pos as int);
            lemma_scan_bounds(ix, q + 1);
        }
        let c = self.indices[q].1;
        if self.bitmap_mode {
            let e = self.ident_end(q);
            let last = if e > q {
                e - 1
            } else {
                q
            };
            let span = Span {
                start: Location { offset: self.indices[q].0 },
                end: Location { offset: self.indices[last].0 },
            };
            if self.text_is(q, last + 1, "ENDCHAR") {
                return (Some(Spanned { span, value: Token::Keyword(q, last + 1) }), e, false);
            }
            let token = match self.parse_hex(q, last + 1) {
                Some(h) => Token::Integer(h),
                None => Token::Keyword(q, last + 1),
            };
            return (Some(Spanned { span, value: token }), e, true);
        }
        if c == '-' {
            if q + 1 < self.indices.len() && '0' <= self.indices[q + 1].1 && self.indices[q + 1].1 <= '9' {
                let (t, p) = self.number(q, q + 1);
                return (Some(t), p, false);
            }
            let e = self.ident_end(q);
            assert(ident_end(ix, q as int) == ident_end(ix, q + 1));
            let span = Span {
                start: Location { offset: self.indices[q].0 },
                end: Location { offset: self.indices[e - 1].0 },
            };
            return (Some(Spanned { span, value: Token::Keyword(q, e) }), e, false);
        }
        if c == '"' {
            let (t, p) = self.string(q);
            return (Some(t), p, false);
        }
        if '0' <= c && c <= '9' {
            let (t, p) = self.number(q, q);
            return (Some(t), p, false);
        }
        let e = self.ident_end(q);
        assert(ident_end(ix, q as int) == ident_end(ix, q + 1)) by {
            assert(!spec_is_whitespace(c));
        }
        let span = Span {
            start: Location { offset: self.indices[q].0 },
            end: Location { offset: self.indices[e - 1].0 },
        };
        let bitmap = self.text_is(q, e, "BITMAP");
        (Some(Spanned { span, value: Token::Keyword(q, e) }), e, bitmap)
    }

    /// The next token, or `None` at the end of the source.
    pub fn next(&mut self) -> (r: Option<Spanned<Token>>)
        requires
            old(self).wf(),
            !(old(self).spec_step() is Overflow),
        ensures
            final(self).wf(),
            final(self).spec_source() == old(self).spec_source(),
            final(self).spec_indices() == old(self).spec_indices(),
            match old(self).spec_step() {
                LexStep::Item(t, p, b) => r == Some(t) && final(self).spec_pos() == p
                    && final(self).spec_bitmap() == b,
                _ => r is None && final(self).spec_pos() == old(self).spec_pos()
                    && final(self).spec_bitmap() == old(self).spec_bitmap(),
            },
            *final(self) == old(self).spec_advanced(),
    {
        let (t, p, b) = self.step();
        self.pos = p;
        self.bitmap_mode = b;
        t
    }

    /// The token that `next` would return, without moving.
    pub fn peek(&self) -> (r: Option<Spanned<Token>>)
        requires
            self.wf(),
            !(self.spec_step() is Overflow),
        ensures
            match self.spec_step() {
                LexStep::Item(t, _, _) => r == Some(t),
                _ => r is None,
            },
    {
        self.step().0
    }
}

/// Each scan stops at or after its start and within the text.
pub proof fn lemma_scan_bounds(ix: Seq<(usize, char)>, p: int)
    requires
        0 <= p <= ix.len(),
    ensures
        p <= skip_ws(ix, p) <= ix.len(),
        p <= ident_end(ix, p) <= ix.len(),
        p <= digits_end(ix, p) <= ix.len(),
        p <= string_stop(ix, p) <= ix.len(),
    decreases ix.len() - p,
{
    if p < ix.len() {
        lemma_scan_bounds(ix, p + 1);
    }
}

/// The texts of a token lie within a text of `n` characters.
pub open spec fn token_within(t: Token, n: int) -> bool {
    match t {
        Token::Keyword(f, e) => f <= e <= n,
        Token::String(f, e, _) => f <= e <= n,
        Token::Number(f, e) => f <= e <= n,
        Token::Integer(_) => true,
    }
}

/// A step never moves back, and it moves forward except where, inside a bitmap, it hands
/// out a lone double quote as a word.
pub proof fn lemma_step_progress(ix: Seq<(usize, char)>, p: int, b: bool)
    requires
        0 <= p <= ix.len() <= usize::MAX,
    ensures
        lex_step(ix, p, b) matches LexStep::Item(t, p2, _) ==> p <= p2 <= ix.len() && (p2 > p || (
        t.value matches Token::Keyword(f, e) && e == f + 1 && f < ix.len() && ix[f as int].1 == '"')),
        lex_step(ix, p, b) matches LexStep::Item(t, _, _) ==> token_within(t.value, ix.len() as int),
{
    reveal(lex_step);
    let q = skip_ws(ix, p);
    lemma_scan_bounds(ix, p);
    if q < ix.len() {
        lemma_skip_ws_stops(ix, p);
        lemma_scan_bounds(ix, q + 1);
        lemma_scan_bounds(ix, q);
        let e = ident_end(ix, q);
        if spec_is_ident(ix[q].1) {
            assert(e == ident_end(ix, q + 1));
        } else {
            assert(e == q);
        }
        if !b {
            let c = ix[q].1;
            if c == '-' && q + 1 < ix.len() && spec_is_digit(ix[q + 1].1) {
                lemma_scan_bounds(ix, q + 2);
                assert(digits_end(ix, q + 1) == digits_end(ix, q + 2));
                let d1 = digits_end(ix, q + 1);
                if d1 < ix.len() {
                    lemma_scan_bounds(ix, d1 + 1);
                }
            } else if c == '"' {
            } else if spec_is_digit(c) {
                assert(digits_end(ix, q) == digits_end(ix, q + 1));
                let d1 = digits_end(ix, q);
                if d1 < ix.len() {
                    lemma_scan_bounds(ix, d1 + 1);
                }
            }
        }
    }
}

/// Where the blanks end before the end of the text, a non-blank stands.
pub proof fn lemma_skip_ws_stops(ix: Seq<(usize, char)>, p: int)
    requires
        0 <= p <= ix.len(),
        skip_ws(ix, p) < ix.len(),
    ensures
        !spec_is_whitespace(ix[skip_ws(ix, p)].1),
    decreases ix.len() - p,
{
    if p < ix.len() && spec_is_whitespace(ix[p].1) {
        lemma_skip_ws_stops(ix, p + 1);
    }
}

/// A text with a character that is no hexadecimal digit has no hexadecimal value.
pub proof fn lemma_hex_none(d: Seq<char>, n: int)
    requires
        0 < n <= d.len(),
        hex_digit(d[n - 1]) is None,
    ensures
        hex_value(d) is None,
    decreases d.len(),
{
    if n < d.len() {
        assert(d.drop_last()[n - 1] == d[n - 1]);
        lemma_hex_none(d.drop_last(), n);
    }
}

} // verus!
