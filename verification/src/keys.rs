//! Key symbol tables: which key symbols a key code produces, and which key codes produce a
//! key symbol, after the rules of the classic Xlib and XCB key symbol lookup.
use vstd::prelude::*;

use crate::events::KeyPressRelease;
use crate::ids::KeyCode;
use crate::keysym::KeySym;
use crate::replies::{spec_keysym_values, GetKeyboardMapping};

verus! {

/// The lower and upper case forms of a key symbol, in that order. The Latin 1 to 4,
/// Cyrillic, Greek and Armenian blocks pair their letters; any other symbol is its own lower
/// and upper form.
pub open spec fn spec_convert_case(sym: u32) -> (u32, u32) {
    if sym >> 8 == 0 {
        if KeySym::A <= sym <= KeySym::Z {
            ((sym + (KeySym::a - KeySym::A)) as u32, sym)
        } else if KeySym::a <= sym <= KeySym::z {
            (sym, (sym - (KeySym::a - KeySym::A)) as u32)
        } else if KeySym::Agrave <= sym <= KeySym::Odiaeresis {
            ((sym + (KeySym::agrave - KeySym::Agrave)) as u32, sym)
        } else if KeySym::agrave <= sym <= KeySym::odiaeresis {
            (sym, (sym - (KeySym::agrave - KeySym::Agrave)) as u32)
        } else if KeySym::Ooblique <= sym <= KeySym::Thorn {
            ((sym + (KeySym::oslash - KeySym::Ooblique)) as u32, sym)
        } else if KeySym::oslash <= sym <= KeySym::thorn {
            (sym, (sym - (KeySym::oslash - KeySym::Ooblique)) as u32)
        } else {
            (sym, sym)
        }
    } else if sym >> 8 == 1 {
        if sym == KeySym::Aogonek {
            (KeySym::aogonek, sym)
        } else if KeySym::Lstroke <= sym <= KeySym::Sacute {
            ((sym + (KeySym::lstroke - KeySym::Lstroke)) as u32, sym)
        } else if KeySym::Scaron <= sym <= KeySym::Zacute {
            ((sym + (KeySym::scaron - KeySym::Scaron)) as u32, sym)
        } else if KeySym::Zcaron <= sym <= KeySym::Zabovedot {
            ((sym + (KeySym::zcaron - KeySym::Zcaron)) as u32, sym)
        } else if sym == KeySym::aogonek {
            (sym, KeySym::Aogonek)
        } else if KeySym::lstroke <= sym <= KeySym::sacute {
            (sym, (sym - (KeySym::lstroke - KeySym::Lstroke)) as u32)
        } else if KeySym::scaron <= sym <= KeySym::zacute {
            (sym, (sym - (KeySym::scaron - KeySym::Scaron)) as u32)
        } else if KeySym::zcaron <= sym <= KeySym::zabovedot {
            (sym, (sym - (KeySym::zcaron - KeySym::Zcaron)) as u32)
        } else if KeySym::Racute <= sym <= KeySym::Tcedilla {
            ((sym + (KeySym::racute - KeySym::Racute)) as u32, sym)
        } else if KeySym::racute <= sym <= KeySym::tcedilla {
            (sym, (sym - (KeySym::racute - KeySym::Racute)) as u32)
        } else {
            (sym, sym)
        }
    } else if sym >> 8 == 2 {
        if KeySym::Hstroke <= sym <= KeySym::Hcircumflex {
            ((sym + (KeySym::hstroke - KeySym::Hstroke)) as u32, sym)
        } else if KeySym::Gbreve <= sym <= KeySym::Jcircumflex {
            ((sym + (KeySym::gbreve - KeySym::Gbreve)) as u32, sym)
        } else if KeySym::hstroke <= sym <= KeySym::hcircumflex {
            (sym, (sym - (KeySym::hstroke - KeySym::Hstroke)) as u32)
        } else if KeySym::gbreve <= sym <= KeySym::jcircumflex {
            (sym, (sym - (KeySym::gbreve - KeySym::Gbreve)) as u32)
        } else if KeySym::Cabovedot <= sym <= KeySym::Scircumflex {
            ((sym + (KeySym::cabovedot - KeySym::Cabovedot)) as u32, sym)
        } else if KeySym::cabovedot <= sym <= KeySym::scircumflex {
            (sym, (sym - (KeySym::cabovedot - KeySym::Cabovedot)) as u32)
        } else {
            (sym, sym)
        }
    } else if sym >> 8 == 3 {
        if KeySym::Rcedilla <= sym <= KeySym::Tslash {
            ((sym + (KeySym::rcedilla - KeySym::Rcedilla)) as u32, sym)
        } else if KeySym::rcedilla <= sym <= KeySym::tslash {
            (sym, (sym - (KeySym::rcedilla - KeySym::Rcedilla)) as u32)
        } else if sym == KeySym::ENG {
            (KeySym::eng, sym)
        } else if sym == KeySym::eng {
            (sym, KeySym::ENG)
        } else if KeySym::Amacron <= sym <= KeySym::Umacron {
            ((sym + (KeySym::amacron - KeySym::Amacron)) as u32, sym)
        } else if KeySym::amacron <= sym <= KeySym::umacron {
            (sym, (sym - (KeySym::amacron - KeySym::Amacron)) as u32)
        } else {
            (sym, sym)
        }
    } else if sym >> 8 == 6 {
        if KeySym::Serbian_DJE <= sym <= KeySym::Serbian_DZE {
            ((sym - (KeySym::Serbian_DJE - KeySym::Serbian_dje)) as u32, sym)
        } else if KeySym::Serbian_dje <= sym <= KeySym::Serbian_dze {
            (sym, (sym + (KeySym::Serbian_DJE - KeySym::Serbian_dje)) as u32)
        } else if KeySym::Cyrillic_YU <= sym <= KeySym::Cyrillic_HARDSIGN {
            ((sym - (KeySym::Cyrillic_YU - KeySym::Cyrillic_yu)) as u32, sym)
        } else if KeySym::Cyrillic_yu <= sym <= KeySym::Cyrillic_hardsign {
            (sym, (sym + (KeySym::Cyrillic_YU - KeySym::Cyrillic_yu)) as u32)
        } else {
            (sym, sym)
        }
    } else if sym >> 8 == 7 {
        if KeySym::Greek_ALPHAaccent <= sym <= KeySym::Greek_OMEGAaccent {
            ((sym + (KeySym::Greek_alphaaccent - KeySym::Greek_ALPHAaccent)) as u32, sym)
        } else if KeySym::Greek_alphaaccent <= sym <= KeySym::Greek_omegaaccent && sym
            != KeySym::Greek_iotaaccentdieresis && sym != KeySym::Greek_upsilonaccentdieresis {
            (sym, (sym - (KeySym::Greek_alphaaccent - KeySym::Greek_ALPHAaccent)) as u32)
        } else if KeySym::Greek_ALPHA <= sym <= KeySym::Greek_OMEGA {
            ((sym + (KeySym::Greek_alpha - KeySym::Greek_ALPHA)) as u32, sym)
        } else if KeySym::Greek_alpha <= sym <= KeySym::Greek_omega && sym
            != KeySym::Greek_finalsmallsigma {
            (sym, (sym - (KeySym::Greek_alpha - KeySym::Greek_ALPHA)) as u32)
        } else {
            (sym, sym)
        }
    } else if sym >> 8 == 20 {
        if KeySym::Armenian_AYB <= sym <= KeySym::Armenian_fe {
            (sym | 1, sym & !1u32)
        } else {
            (sym, sym)
        }
    } else {
        (sym, sym)
    }
}

/// Case in the Latin-1 block: a lower case letter (a to z, a-grave to o-diaeresis, o-slash to
/// thorn) pairs with the capital 32 below it, a capital with the small letter 32 above it, and
/// every other symbol of the block is its own lower and upper form.
pub proof fn lemma_latin1_case(s: u32)
    requires
        s < 256,
    ensures
        ({
            let (l, u) = spec_convert_case(s);
            &&& (0x61 <= s <= 0x7a || 0xe0 <= s <= 0xf6 || 0xf8 <= s <= 0xfe) ==> l == s && u
                == s - 32 && u != l
            &&& (0x41 <= s <= 0x5a || 0xc0 <= s <= 0xd6 || 0xd8 <= s <= 0xde) ==> u == s && l
                == s + 32 && u != l
            &&& !(0x61 <= s <= 0x7a || 0xe0 <= s <= 0xf6 || 0xf8 <= s <= 0xfe || 0x41 <= s <= 0x5a
                || 0xc0 <= s <= 0xd6 || 0xd8 <= s <= 0xde) ==> l == s && u == s
        }),
{
    assert(s >> 8 == 0) by (bit_vector)
        requires
            s < 256,
    ;
}

/// In the Latin-1 block, both forms of a letter have the same case pair: converting the
/// lower form or the upper form gives back the pair.
pub proof fn lemma_latin1_case_pair(s: u32)
    requires
        s < 256,
    ensures
        ({
            let (l, u) = spec_convert_case(s);
            &&& spec_convert_case(l) == (l, u)
            &&& spec_convert_case(u) == (l, u)
        }),
{
    lemma_latin1_case(s);
    let (l, u) = spec_convert_case(s);
    assert(l < 256 && u < 256);
    lemma_latin1_case(l);
    lemma_latin1_case(u);
}

/// A shift by 8 is a division by 256.
proof fn lemma_shift8(x: u32)
    ensures
        x >> 8 == x / 256,
{
    assert(x >> 8 == x / 256) by (bit_vector);
}

/// Both forms of a letter convert to the same case pair: the lower form and the upper form
/// of any key symbol again give that lower and upper form. The three exceptions are capitals
/// whose small form the table leaves without a capital of its own: the Greek places 0x7a6 and
/// 0x7aa, whose small forms are iota and upsilon with accent and dieresis, and Greek capital
/// sigma, whose small form is the final sigma.
#[verifier::rlimit(100)]
pub proof fn lemma_case_pair(s: u32)
    requires
        s != 0x7a6,
        s != 0x7aa,
        s != 0x7d3,
    ensures
        ({
            let (l, u) = spec_convert_case(s);
            &&& spec_convert_case(l) == (l, u)
            &&& spec_convert_case(u) == (l, u)
        }),
{
    let (l, u) = spec_convert_case(s);
    lemma_shift8(s);
    lemma_shift8(l);
    lemma_shift8(u);
}

/// The lower and upper case forms of a key symbol.
struct ConvertedCase {
    lsym: KeySym,
    usym: KeySym,
}

fn convert_case(sym: KeySym) -> (r: ConvertedCase)
    ensures
        (r.lsym.inner, r.usym.inner) == spec_convert_case(sym.inner),
{
    let mut lower = sym.inner;
    let mut upper = sym.inner;
    let s = sym.inner;
    let block = s >> 8;
    if block == 0 {
        if s >= KeySym::A && s <= KeySym::Z {
            lower = lower + (KeySym::a - KeySym::A);
        } else if s >= KeySym::a && s <= KeySym::z {
            upper = upper - (KeySym::a - KeySym::A);
        } else if s >= KeySym::Agrave && s <= KeySym::Odiaeresis {
            lower = lower + (KeySym::agrave - KeySym::Agrave);
        } else if s >= KeySym::agrave && s <= KeySym::odiaeresis {
            upper = upper - (KeySym::agrave - KeySym::Agrave);
        } else if s >= KeySym::Ooblique && s <= KeySym::Thorn {
            lower = lower + (KeySym::oslash - KeySym::Ooblique);
        } else if s >= KeySym::oslash && s <= KeySym::thorn {
            upper = upper - (KeySym::oslash - KeySym::Ooblique);
        }
    } else if block == 1 {
        if s == KeySym::Aogonek {
            lower = KeySym::aogonek;
        } else if s >= KeySym::Lstroke && s <= KeySym::Sacute {
            lower = lower + (KeySym::lstroke - KeySym::Lstroke);
        } else if s >= KeySym::Scaron && s <= KeySym::Zacute {
            lower = lower + (KeySym::scaron - KeySym::Scaron);
        } else if s >= KeySym::Zcaron && s <= KeySym::Zabovedot {
            lower = lower + (KeySym::zcaron - KeySym::Zcaron);
        } else if s == KeySym::aogonek {
            upper = KeySym::Aogonek;
        } else if s >= KeySym::lstroke && s <= KeySym::sacute {
            upper = upper - (KeySym::lstroke - KeySym::Lstroke);
        } else if s >= KeySym::scaron && s <= KeySym::zacute {
            upper = upper - (KeySym::scaron - KeySym::Scaron);
        } else if s >= KeySym::zcaron && s <= KeySym::zabovedot {
            upper = upper - (KeySym::zcaron - KeySym::Zcaron);
        } else if s >= KeySym::Racute && s <= KeySym::Tcedilla {
            lower = lower + (KeySym::racute - KeySym::Racute);
        } else if s >= KeySym::racute && s <= KeySym::tcedilla {
            upper = upper - (KeySym::racute - KeySym::Racute);
        }
    } else if block == 2 {
        if s >= KeySym::Hstroke && s <= KeySym::Hcircumflex {
            lower = lower + (KeySym::hstroke - KeySym::Hstroke);
        } else if s >= KeySym::Gbreve && s <= KeySym::Jcircumflex {
            lower = lower + (KeySym::gbreve - KeySym::Gbreve);
        } else if s >= KeySym::hstroke && s <= KeySym::hcircumflex {
            upper = upper - (KeySym::hstroke - KeySym::Hstroke);
        } else if s >= KeySym::gbreve && s <= KeySym::jcircumflex {
            upper = upper - (KeySym::gbreve - KeySym::Gbreve);
        } else if s >= KeySym::Cabovedot && s <= KeySym::Scircumflex {
            lower = lower + (KeySym::cabovedot - KeySym::Cabovedot);
        } else if s >= KeySym::cabovedot && s <= KeySym::scircumflex {
            upper = upper - (KeySym::cabovedot - KeySym::Cabovedot);
        }
    } else if block == 3 {
        if s >= KeySym::Rcedilla && s <= KeySym::Tslash {
            lower = lower + (KeySym::rcedilla - KeySym::Rcedilla);
        } else if s >= KeySym::rcedilla && s <= KeySym::tslash {
            upper = upper - (KeySym::rcedilla - KeySym::Rcedilla);
        } else if s == KeySym::ENG {
            lower = KeySym::eng;
        } else if s == KeySym::eng {
            upper = KeySym::ENG;
        } else if s >= KeySym::Amacron && s <= KeySym::Umacron {
            lower = lower + (KeySym::amacron - KeySym::Amacron);
        } else if s >= KeySym::amacron && s <= KeySym::umacron {
            upper = upper - (KeySym::amacron - KeySym::Amacron);
        }
    } else if block == 6 {
        if s >= KeySym::Serbian_DJE && s <= KeySym::Serbian_DZE {
            lower = lower - (KeySym::Serbian_DJE - KeySym::Serbian_dje);
        } else if s >= KeySym::Serbian_dje && s <= KeySym::Serbian_dze {
            upper = upper + (KeySym::Serbian_DJE - KeySym::Serbian_dje);
        } else if s >= KeySym::Cyrillic_YU && s <= KeySym::Cyrillic_HARDSIGN {
            lower = lower - (KeySym::Cyrillic_YU - KeySym::Cyrillic_yu);
        } else if s >= KeySym::Cyrillic_yu && s <= KeySym::Cyrillic_hardsign {
            upper = upper + (KeySym::Cyrillic_YU - KeySym::Cyrillic_yu);
        }
    } else if block == 7 {
        if s >= KeySym::Greek_ALPHAaccent && s <= KeySym::Greek_OMEGAaccent {
            lower = lower + (KeySym::Greek_alphaaccent - KeySym::Greek_ALPHAaccent);
        } else if s >= KeySym::Greek_alphaaccent && s <= KeySym::Greek_omegaaccent && s
            != KeySym::Greek_iotaaccentdieresis && s != KeySym::Greek_upsilonaccentdieresis {
            upper = upper - (KeySym::Greek_alphaaccent - KeySym::Greek_ALPHAaccent);
        } else if s >= KeySym::Greek_ALPHA && s <= KeySym::Greek_OMEGA {
            lower = lower + (KeySym::Greek_alpha - KeySym::Greek_ALPHA);
        } else if s >= KeySym::Greek_alpha && s <= KeySym::Greek_omega && s
            != KeySym::Greek_finalsmallsigma {
            upper = upper - (KeySym::Greek_alpha - KeySym::Greek_ALPHA);
        }
    } else if block == 20 {
        if s >= KeySym::Armenian_AYB && s <= KeySym::Armenian_fe {
            lower = s | 1;
            upper = s & !1u32;
        }
    }
    ConvertedCase { lsym: KeySym::from_raw(lower), usym: KeySym::from_raw(upper) }
}


/// The number of key symbols a key code keeps for the third and fourth columns: trailing
/// `NO_SYMBOL` entries beyond the second are dropped.
pub open spec fn trimmed_width(keysyms: Seq<u32>, offset: int, per: int) -> int
    decreases per,
{
    if per > 2 && keysyms[offset + per - 1] == KeySym::NO_SYMBOL {
        trimmed_width(keysyms, offset, per - 1)
    } else {
        per
    }
}

/// The key symbol of column `col` for `keycode`, in a table of `per` symbols per key code
/// for the key codes `min..=max`. Columns 0 to 3 follow the group and case rules: a
/// missing upper case form is derived from the lower case one, and a key code with fewer
/// than three symbols serves columns 2 and 3 from columns 0 and 1.
pub open spec fn spec_get_keysym(
    keysyms: Seq<u32>,
    per: int,
    min: int,
    max: int,
    keycode: int,
    col: int,
) -> u32 {
    if (col >= per && col > 3) || keycode < min || keycode > max {
        KeySym::NO_SYMBOL
    } else {
        let offset = (keycode - min) * per;
        if col < 4 {
            let width = if col > 1 {
                trimmed_width(keysyms, offset, per)
            } else {
                per
            };
            let c = if col > 1 && width < 3 {
                col - 2
            } else {
                col
            };
            let odd = c - c % 2 + 1;
            if width <= odd || keysyms[offset + odd] == KeySym::NO_SYMBOL {
                let (lower, upper) = spec_convert_case(keysyms[offset + c - c % 2]);
                if c % 2 == 0 {
                    lower
                } else if upper == lower {
                    KeySym::NO_SYMBOL
                } else {
                    upper
                }
            } else {
                keysyms[offset + c]
            }
        } else {
            keysyms[offset + col]
        }
    }
}

/// A [`KeySym`] conversion table.
#[derive(Debug, Clone)]
pub struct KeySymbols {
    min_keycode: KeyCode,
    max_keycode: KeyCode,
    reply: GetKeyboardMapping,
}

impl KeySymbols {
    /// The lowest key code in the table.
    pub closed spec fn spec_min(&self) -> int {
        self.min_keycode@ as int
    }

    /// The highest key code in the table.
    pub closed spec fn spec_max(&self) -> int {
        self.max_keycode@ as int
    }

    /// The number of key symbols per key code.
    pub closed spec fn spec_per(&self) -> int {
        self.reply.keysyms_per_keycode as int
    }

    /// The key symbols, key code after key code.
    pub closed spec fn spec_keysyms(&self) -> Seq<u32> {
        spec_keysym_values(self.reply.keysyms@)
    }

    /// Whether the table holds `per` symbols, at least one, for each key code of its range.
    pub open spec fn wf(&self) -> bool {
        &&& self.spec_min() <= self.spec_max()
        &&& self.spec_per() >= 1
        &&& self.spec_keysyms().len() == (self.spec_max() - self.spec_min() + 1) * self.spec_per()
    }

    /// The key symbol of column `col` for `keycode`.
    pub open spec fn spec_lookup(&self, keycode: int, col: int) -> u32 {
        spec_get_keysym(
            self.spec_keysyms(),
            self.spec_per(),
            self.spec_min(),
            self.spec_max(),
            keycode,
            col,
        )
    }

    /// Whether some column of `keycode` holds `keysym`.
    pub open spec fn produces(&self, keycode: int, keysym: u32) -> bool {
        exists|j: int| 0 <= j < self.spec_per() && #[trigger] self.spec_lookup(keycode, j) == keysym
    }

    /// The table that the keyboard mapping `reply` gives for the key codes
    /// `min_keycode..=max_keycode`.
    pub fn new(min_keycode: KeyCode, max_keycode: KeyCode, reply: GetKeyboardMapping) -> (r: Self)
        ensures
            r.spec_min() == min_keycode@,
            r.spec_max() == max_keycode@,
            r.spec_per() == reply.keysyms_per_keycode,
            r.spec_keysyms() == spec_keysym_values(reply.keysyms@),
    {
        KeySymbols { min_keycode, max_keycode, reply }
    }

    /// Whether the table is well formed: as many symbols, at least one, for each key code of
    /// its range.
    pub fn is_wf(&self) -> (r: bool)
        ensures
            r == self.wf(),
    {
        let min = self.min_keycode.raw();
        let max = self.max_keycode.raw();
        let per = self.reply.keysyms_per_keycode;
        if min > max || per == 0 {
            return false;
        }
        let span: u64 = max as u64 - min as u64 + 1;
        let per64: u64 = per as u64;
        assert(span * per64 <= 256 * 255) by (nonlinear_arith)
            requires
                span <= 256,
                per64 <= 255,
        ;
        let count: u64 = span * per64;
        count == self.reply.keysyms.len() as u64
    }

    /// The key symbol of column `col` for `keycode`; `NO_SYMBOL` outside the table.
    pub fn get_keysym(&self, keycode: KeyCode, col: usize) -> (r: KeySym)
        requires
            self.wf(),
        ensures
            r.inner == self.spec_lookup(keycode@ as int, col as int),
    {
        let ghost ks = self.spec_keysyms();
        let ghost off = (keycode@ - self.spec_min()) * self.spec_per();
        let mut per = self.reply.keysyms_per_keycode;
        let mut col = col;
        let ghost col0 = col;
        if (col >= per as usize && col > 3) || keycode.raw() < self.min_keycode.raw() || keycode.raw()
            > self.max_keycode.raw() {
            return KeySym::from_raw(KeySym::NO_SYMBOL);
        }
        let rows = (keycode.raw() - self.min_keycode.raw()) as usize;
        assert(off + self.spec_per() <= ks.len()) by (nonlinear_arith)
            requires
                off == rows * self.spec_per(),
                0 <= rows <= self.spec_max() - self.spec_min(),
                ks.len() == (self.spec_max() - self.spec_min() + 1) * self.spec_per(),
                self.spec_per() >= 1,
        ;
        let total = self.reply.keysyms.len();
        assert(ks.len() == total);
        let offset = rows * per as usize;
        assert(forall|k: int|
            0 <= k < ks.len() ==> #[trigger] ks[k] == self.reply.keysyms@[k].inner);
        if col < 4 {
            if col > 1 {
                while per > 2 && self.reply.keysyms[offset + per as usize - 1].inner
                    == KeySym::NO_SYMBOL
                    invariant
                        2 <= per <= self.spec_per() || (per == self.spec_per() && per < 2),
                        offset == off,
                        off + self.spec_per() <= ks.len(),
                        ks == spec_keysym_values(self.reply.keysyms@),
                        ks.len() == self.reply.keysyms@.len(),
                        ks.len() == total,
                        trimmed_width(ks, off, per as int) == trimmed_width(
                            ks,
                            off,
                            self.spec_per(),
                        ),
                    decreases per,
                {
                    per = per - 1;
                }
                if per < 3 {
                    col = col - 2;
                }
            }
            let odd = col | 1;
            let even = col & !1usize;
            assert(odd == col - col % 2 + 1 && even == col - col % 2) by (bit_vector)
                requires
                    odd == col | 1,
                    even == col & !1usize,
                    col < 4,
            ;
            if per as usize <= odd || self.reply.keysyms[offset + odd].inner == KeySym::NO_SYMBOL {
                let cases = convert_case(self.reply.keysyms[offset + even]);
                if col & 1 == 0 {
                    assert(col % 2 == 0) by (bit_vector)
                        requires
                            col & 1 == 0,
                    ;
                    return cases.lsym;
                } else {
                    assert(col % 2 == 1) by (bit_vector)
                        requires
                            col & 1 != 0,
                    ;
                    if cases.usym.inner == cases.lsym.inner {
                        return KeySym::from_raw(KeySym::NO_SYMBOL);
                    } else {
                        return cases.usym;
                    }
                }
            }
        }
        self.reply.keysyms[offset + col]
    }

    /// All key codes that produce `keysym` in some column, in increasing order.
    pub fn get_keycodes(&self, keysym: KeySym) -> (r: Vec<KeyCode>)
        requires
            self.wf(),
        ensures
            forall|k: int|
                0 <= k < r@.len() ==> self.spec_min() <= (#[trigger] r@[k])@ <= self.spec_max()
                    && self.produces(r@[k]@ as int, keysym.inner),
            forall|k1: int, k2: int| 0 <= k1 < k2 < r@.len() ==> (#[trigger] r@[k1])@ < (#[trigger] r@[k2])@,
            forall|kc: int|
                self.spec_min() <= kc <= self.spec_max() && #[trigger] self.produces(kc, keysym.inner)
                    ==> exists|k: int| 0 <= k < r@.len() && r@[k]@ == kc,
    {
        let mut res: Vec<KeyCode> = Vec::new();
        let min = self.min_keycode.raw();
        let max = self.max_keycode.raw();
        let per = self.reply.keysyms_per_keycode;
        let mut i: u16 = min as u16;
        while i <= max as u16
            invariant
                self.wf(),
                min == self.spec_min(),
                max == self.spec_max(),
                per == self.spec_per(),
                min <= i <= max + 1,
                forall|k: int|
                    0 <= k < res@.len() ==> min <= (#[trigger] res@[k])@ < i && self.produces(
                        res@[k]@ as int,
                        keysym.inner,
                    ),
                forall|k1: int, k2: int|
                    0 <= k1 < k2 < res@.len() ==> (#[trigger] res@[k1])@ < (#[trigger] res@[k2])@,
                forall|kc: int|
                    min <= kc < i && #[trigger] self.produces(kc, keysym.inner) ==> exists|k: int|
                        0 <= k < res@.len() && res@[k]@ == kc,
            decreases max + 1 - i,
        {
            let code = KeyCode::from_u8(i as u8);
            let mut found = false;
            let mut j: u8 = 0;
            while j < per && !found
                invariant
                    self.wf(),
                    per == self.spec_per(),
                    code@ == i,
                    j <= per,
                    found ==> self.produces(i as int, keysym.inner),
                    !found ==> forall|jj: int| 0 <= jj < j ==> #[trigger] self.spec_lookup(i as int, jj) != keysym.inner,
                decreases per - j + (if found { 0int } else { 1int }),
            {
                let ks = self.get_keysym(code, j as usize);
                if ks.inner == keysym.inner {
                    found = true;
                } else {
                    j = j + 1;
                }
            }
            if found {
                let ghost before = res@;
                res.push(code);
                proof {
                    assert(res@[res@.len() - 1] == code);
                    assert forall|kc: int|
                        min <= kc < i + 1 && #[trigger] self.produces(kc, keysym.inner) implies exists|k: int|
                            0 <= k < res@.len() && res@[k]@ == kc by {
                        if kc < i {
                            let k = choose|k: int| 0 <= k < before.len() && before[k]@ == kc;
                            assert(res@[k] == before[k]);
                        } else {
                            assert(res@[res@.len() - 1]@ == kc);
                        }
                    }
                }
            } else {
                proof {
                    assert forall|kc: int|
                        min <= kc < i + 1 && #[trigger] self.produces(kc, keysym.inner) implies exists|k: int|
                            0 <= k < res@.len() && res@[k]@ == kc by {
                        if kc == i {
                            let jj = choose|jj: int| 0 <= jj < self.spec_per() && #[trigger] self.spec_lookup(kc, jj) == keysym.inner;
                            assert(self.spec_lookup(i as int, jj) != keysym.inner);
                        }
                    }
                }
            }
            i = i + 1;
        }
        res
    }

    /// The key symbol of column `col` for the key of a key event.
    pub fn key_event_lookup_keysym(&self, event: &KeyPressRelease, col: usize) -> (r: KeySym)
        requires
            self.wf(),
        ensures
            r.inner == self.spec_lookup(event.detail as int, col as int),
    {
        self.get_keysym(KeyCode::from_u8(event.detail), col)
    }

    /// Whether `keysym` is a key of the numeric keypad.
    pub fn is_keypad_key(keysym: KeySym) -> (r: bool)
        ensures
            r == (KeySym::KP_Space <= keysym.inner <= KeySym::KP_Equal),
    {
        keysym.inner >= KeySym::KP_Space && keysym.inner <= KeySym::KP_Equal
    }

    /// Whether `keysym` is a vendor's private keypad key.
    pub fn is_private_keypad_key(keysym: KeySym) -> (r: bool)
        ensures
            r == (0x11000000 <= keysym.inner <= 0x1100FFFF),
    {
        keysym.inner >= 0x11000000 && keysym.inner <= 0x1100FFFF
    }

    /// Whether `keysym` is a cursor movement key.
    pub fn is_cursor_key(keysym: KeySym) -> (r: bool)
        ensures
            r == (KeySym::Home <= keysym.inner <= KeySym::Select),
    {
        keysym.inner >= KeySym::Home && keysym.inner <= KeySym::Select
    }

    /// Whether `keysym` is one of the keypad function keys.
    pub fn is_pf_key(keysym: KeySym) -> (r: bool)
        ensures
            r == (KeySym::KP_F1 <= keysym.inner <= KeySym::KP_F4),
    {
        keysym.inner >= KeySym::KP_F1 && keysym.inner <= KeySym::KP_F4
    }

    /// Whether `keysym` is one of the function keys.
    pub fn is_function_key(keysym: KeySym) -> (r: bool)
        ensures
            r == (KeySym::F1 <= keysym.inner <= KeySym::F35),
    {
        keysym.inner >= KeySym::F1 && keysym.inner <= KeySym::F35
    }

    /// Whether `keysym` is a miscellaneous function key.
    pub fn is_misc_function_key(keysym: KeySym) -> (r: bool)
        ensures
            r == (KeySym::Select <= keysym.inner <= KeySym::Break),
    {
        keysym.inner >= KeySym::Select && keysym.inner <= KeySym::Break
    }

    /// Whether `keysym` is a modifier key.
    pub fn is_modifier_key(keysym: KeySym) -> (r: bool)
        ensures
            r == ((KeySym::Shift_L <= keysym.inner <= KeySym::Hyper_R) || (KeySym::ISO_Lock
                <= keysym.inner <= KeySym::ISO_Level5_Lock) || keysym.inner == KeySym::Mode_switch
                || keysym.inner == KeySym::Num_Lock),
    {
        (keysym.inner >= KeySym::Shift_L && keysym.inner <= KeySym::Hyper_R) || (keysym.inner
            >= KeySym::ISO_Lock && keysym.inner <= KeySym::ISO_Level5_Lock) || keysym.inner
            == KeySym::Mode_switch || keysym.inner == KeySym::Num_Lock
    }
}

} // verus!
