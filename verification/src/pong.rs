//! A game of pong: two pads moved by the players and a ball that bounces off them and off
//! the top and bottom of the window, drawn into an image of 4-byte pixels.
use vstd::prelude::*;

use crate::draw::{trunc_div, trunc_div_i32};
use crate::events::SomeEvent;
use crate::ids::{KeyCode, WindowId};
use crate::keys::KeySymbols;
use crate::keysym::KeySym;
use std::collections::HashMap;

verus! {

/// Whether `v` fits in an `i16`.
pub open spec fn fits_i16(v: int) -> bool {
    i16::MIN <= v <= i16::MAX
}

/// Which side a pad is on.
#[derive(Debug, Clone, Copy, PartialEq, Eq, Structural)]
pub enum Player {
    Left,
    Right,
}

/// Where a pad is moving.
#[derive(Debug, Clone, Copy, PartialEq, Eq, Structural)]
pub enum PadDirection {
    Down,
    Up,
    Still,
}

/// A pair of coordinates or a size.
#[derive(Debug, Clone, Copy, PartialEq, Eq, Structural)]
pub struct V2<T> {
    pub x: T,
    pub y: T,
}

/// A pad.
#[derive(Debug, Clone, Copy, PartialEq, Eq, Structural)]
pub struct Pad {
    pub position: V2<i16>,
    pub size: V2<u16>,
    pub direction: PadDirection,
    pub player: Player,
}

/// The vertical position of a pad after one step in its direction.
pub open spec fn pad_moved_y(p: Pad) -> int {
    match p.direction {
        PadDirection::Down => p.position.y + 15,
        PadDirection::Up => p.position.y - 15,
        PadDirection::Still => p.position.y as int,
    }
}

/// Whether a step of the pad can be computed in a window of size `w`.
pub open spec fn pad_update_fits(p: Pad, w: V2<u16>) -> bool {
    &&& fits_i16(pad_moved_y(p))
    &&& fits_i16((w.y as i16) - (p.size.y as i16))
    &&& match p.player {
        Player::Right => fits_i16((p.size.x as i16) * 7) && fits_i16(
            (w.x as i16) - trunc_div((p.size.x as i16) * 7, 5),
        ),
        Player::Left => fits_i16((p.size.x as i16) * 2),
    }
}

/// The pad after one step: moved by 15 in its direction, kept within the window, and placed
/// at its side.
pub open spec fn pad_after(p: Pad, w: V2<u16>) -> Pad {
    let y = pad_moved_y(p);
    let limit = (w.y as i16) - (p.size.y as i16);
    let y2 = if y < 0 {
        0
    } else if y > limit {
        limit
    } else {
        y
    };
    let x = match p.player {
        Player::Right => (w.x as i16) - trunc_div((p.size.x as i16) * 7, 5),
        Player::Left => trunc_div((p.size.x as i16) * 2, 5),
    };
    Pad { position: V2 { x: x as i16, y: y2 as i16 }, ..p }
}

impl Pad {
    /// One step of the pad in a window of size `window_size`.
    pub fn update(&mut self, window_size: V2<u16>)
        requires
            pad_update_fits(*old(self), window_size),
        ensures
            *final(self) == pad_after(*old(self), window_size),
    {
        let velocity: i16 = 15;
        match self.direction {
            PadDirection::Down => self.position.y = self.position.y + velocity,
            PadDirection::Up => self.position.y = self.position.y - velocity,
            PadDirection::Still => {},
        }
        let limit = window_size.y as i16 - self.size.y as i16;
        if self.position.y < 0 {
            self.position.y = 0;
        } else if self.position.y > limit {
            self.position.y = limit;
        }
        self.position.x = match self.player {
            Player::Right => {
                let q = trunc_div_i32((self.size.x as i16 * 7) as i32, 5);
                (window_size.x as i16 as i32 - q) as i16
            },
            Player::Left => trunc_div_i32((self.size.x as i16 * 2) as i32, 5) as i16,
        };
    }

    /// Whether a step of the pad can be computed in a window of size `window_size`.
    pub fn update_fits(&self, window_size: V2<u16>) -> (r: bool)
        ensures
            r == pad_update_fits(*self, window_size),
    {
        let y = self.position.y as i32;
        let moved = match self.direction {
            PadDirection::Down => y + 15,
            PadDirection::Up => y - 15,
            PadDirection::Still => y,
        };
        let limit = window_size.y as i16 as i32 - self.size.y as i16 as i32;
        let sx = self.size.x as i16 as i32;
        let side_fits = match self.player {
            Player::Right => {
                let seven = sx * 7;
                if seven < -32768 || seven > 32767 {
                    false
                } else {
                    let x = window_size.x as i16 as i32 - trunc_div_i32(seven, 5);
                    -32768 <= x && x <= 32767
                }
            },
            Player::Left => {
                let two = sx * 2;
                -32768 <= two && two <= 32767
            },
        };
        -32768 <= moved && moved <= 32767 && -32768 <= limit && limit <= 32767 && side_fits
    }

    /// Paints the pad in its player's colour.
    pub fn display(&self, canvas: &mut PongCanvas)
        requires
            rectangle_fits(old(canvas)@, self.size.x, self.size.y, self.position.x as u16, self.position.y as u16),
        ensures
            final(canvas)@ == painted(
                old(canvas)@,
                self.size.x,
                self.size.y,
                self.position.x as u16,
                self.position.y as u16,
                if self.player == Player::Left { 0x4eb4fau32 } else { 0xf92672u32 },
            ),
    {
        let color: u32 = match self.player {
            Player::Left => 0x4eb4fa,
            Player::Right => 0xf92672,
        };
        canvas.rectangle(self.size.x, self.size.y, self.position.x as u16, self.position.y as u16, color);
    }
}

/// The ball.
#[derive(Debug, Clone, Copy, PartialEq, Eq, Structural)]
pub struct Ball {
    pub position: V2<i16>,
    pub size: V2<u16>,
    pub direction: V2<i16>,
}

/// `v` negated, where it fits.
pub open spec fn flip(v: int) -> Option<int> {
    if fits_i16(-v) {
        Some(-v)
    } else {
        None
    }
}

/// The ball after bouncing, or not, off the left side at `offset` (0 where the pad is not
/// there, which stops the ball).
pub open spec fn bounce_left(px: int, dx: int, dy: int, offset: int) -> Option<(int, int, int)> {
    if px <= offset {
        let (dx1, dy1) = if offset == 0 {
            (0, 0)
        } else {
            (dx, dy)
        };
        match flip(dx1) {
            Some(dx2) => Some((offset, dx2, dy1)),
            None => None,
        }
    } else {
        Some((px, dx, dy))
    }
}

/// The ball after bouncing, or not, off the right side at `bound`; `offset` 0 stops it.
pub open spec fn bounce_right(px: int, dx: int, dy: int, bound: int, offset: int) -> Option<(int, int, int)> {
    if px >= bound {
        let (dx1, dy1) = if offset == 0 {
            (0, 0)
        } else {
            (dx, dy)
        };
        match flip(dx1) {
            Some(dx2) => Some((bound, dx2, dy1)),
            None => None,
        }
    } else {
        Some((px, dx, dy))
    }
}

/// The ball's vertical move in one step, for a window taller than the ball. Let `y` be its
/// height plus its vertical speed. Between the walls it goes to `y`; at or above the top it
/// stays at the top, at or below the bottom (the window's height less the ball's) it stays at
/// the bottom. At a wall its vertical speed turns round; elsewhere it keeps it. A ball that a
/// missing pad stopped stands still instead, and its horizontal speed is then zero.
pub proof fn lemma_ball_vertical(b: Ball, w: V2<u16>, lp: Pad, rp: Pad, r: Ball)
    requires
        ball_after(b, w, lp, rp) == Some(r),
        (w.y as i16) - (b.size.y as i16) > 0,
    ensures
        ({
            let y = b.position.y + b.direction.y;
            let bottom = (w.y as i16) - (b.size.y as i16);
            &&& y <= 0 ==> r.position.y == 0
            &&& 0 < y < bottom ==> r.position.y == y
            &&& y >= bottom ==> r.position.y == bottom
            &&& r.direction.x != 0 ==> r.direction.y == (if y <= 0 || y >= bottom {
                -b.direction.y
            } else {
                b.direction.y as int
            })
            &&& r.direction.y == 0 || r.direction.y == b.direction.y || r.direction.y
                == -b.direction.y
            &&& (y <= 0 || y >= bottom) && b.direction.x != 0 && r.direction.x != 0 ==> r.direction.y
                == -b.direction.y
        }),
{
}

/// Away from both sides, the ball moves on horizontally: if its moved place lies right of the
/// left wall and of the end of the left pad, and left of where it would meet the right wall
/// and the right pad, it goes there with its horizontal speed unchanged.
pub proof fn lemma_ball_horizontal(b: Ball, w: V2<u16>, lp: Pad, rp: Pad, r: Ball)
    requires
        ball_after(b, w, lp, rp) == Some(r),
        ({
            let x = b.position.x + b.direction.x;
            let edge = (w.x as i16) - (b.size.x as i16);
            &&& x > 0
            &&& x > lp.position.x + (lp.size.x as i16)
            &&& x < edge
            &&& x < edge - ((w.x as i16) - rp.position.x)
        }),
    ensures
        r.position.x == b.position.x + b.direction.x,
        r.direction.x == b.direction.x,
        r.size == b.size,
{
}

/// The ball turns round at the bottom wall: reaching it while moving down, it leaves it moving
/// up, unless a missing pad stopped it.
pub proof fn lemma_ball_bounces_off_bottom(b: Ball, w: V2<u16>, lp: Pad, rp: Pad, r: Ball)
    requires
        ball_after(b, w, lp, rp) == Some(r),
        (w.y as i16) - (b.size.y as i16) > 0,
        b.position.y + b.direction.y >= (w.y as i16) - (b.size.y as i16),
        b.direction.y > 0,
        r.direction.x != 0,
    ensures
        r.position.y == (w.y as i16) - (b.size.y as i16),
        r.direction.y == -b.direction.y,
        r.direction.y < 0,
{
    lemma_ball_vertical(b, w, lp, rp, r);
}

/// Whether `y` lies along pad `p`, or `None` where the end of the pad overflows.
pub open spec fn along_pad(y: int, p: Pad) -> Option<bool> {
    if y >= p.position.y {
        let end = p.position.y + (p.size.y as i16);
        if fits_i16(end) {
            Some(y <= end)
        } else {
            None
        }
    } else {
        Some(false)
    }
}

/// One step of the ball in a window of size `w` with the two pads, or `None` where a value
/// overflows an `i16`.
pub open spec fn ball_after(b: Ball, w: V2<u16>, lp: Pad, rp: Pad) -> Option<Ball> {
    let px = b.position.x + b.direction.x;
    let py = b.position.y + b.direction.y;
    let dx = b.direction.x as int;
    let dy = b.direction.y as int;
    if !fits_i16(px) || !fits_i16(py) {
        None
    } else {
        match along_pad(py, lp) {
            None => None,
            Some(in_left) => {
                let offset_l = if in_left {
                    lp.position.x + (lp.size.x as i16)
                } else {
                    0
                };
                if !fits_i16(offset_l) {
                    None
                } else {
                    match bounce_left(px, dx, dy, offset_l) {
                        None => None,
                        Some((px1, dx1, dy1)) => match along_pad(py, rp) {
                            None => None,
                            Some(in_right) => {
                                let offset_r = if in_right {
                                    (w.x as i16) - rp.position.x
                                } else {
                                    0
                                };
                                let b1 = (w.x as i16) - (b.size.x as i16);
                                let bound = b1 - offset_r;
                                if !fits_i16(offset_r) || !fits_i16(b1) || !fits_i16(bound) {
                                    None
                                } else {
                                    match bounce_right(px1, dx1, dy1, bound, offset_r) {
                                        None => None,
                                        Some((px2, dx2, dy2)) => {
                                            let (py3, dy3) = if py <= 0 {
                                                (0, -dy2)
                                            } else {
                                                (py, dy2)
                                            };
                                            let bottom = (w.y as i16) - (b.size.y as i16);
                                            if !fits_i16(dy3) || !fits_i16(bottom) {
                                                None
                                            } else {
                                                let (py4, dy4) = if py3 >= bottom {
                                                    (bottom, -dy3)
                                                } else {
                                                    (py3, dy3)
                                                };
                                                if !fits_i16(dy4) {
                                                    None
                                                } else {
                                                    Some(
                                                        Ball {
                                                            position: V2 { x: px2 as i16, y: py4 as i16 },
                                                            direction: V2 { x: dx2 as i16, y: dy4 as i16 },
                                                            ..b
                                                        },
                                                    )
                                                }
                                            }
                                        },
                                    }
                                }
                            },
                        },
                    }
                }
            },
        }
    }
}

/// The start of a round: a position and direction drawn from the number `r`, at least 50
/// away from the top left corner.
pub open spec fn ball_reset(b: Ball, w: V2<u16>, r: u32) -> Ball {
    let x = ((((r as int * 7) % 0x1_0000_0000) % 0x1_0000) % ((w.x - 50) as int)) as u16 as i16 + 50;
    let y = ((((r as int * 13) % 0x1_0000_0000) % 0x1_0000) % ((w.y - 50) as int)) as u16 as i16 + 50;
    let dx = if ((r as int * 17) % 0x1_0000_0000) % 2 == 0 {
        -5
    } else {
        5
    };
    let dy = if ((r as int * 19) % 0x1_0000_0000) % 2 == 0 {
        -5
    } else {
        5
    };
    Ball { position: V2 { x: x as i16, y: y as i16 }, direction: V2 { x: dx as i16, y: dy as i16 }, ..b }
}

/// Whether a new round can be computed from `r` in a window of size `w`.
pub open spec fn ball_reset_fits(w: V2<u16>, r: u32) -> bool {
    &&& w.x > 50
    &&& w.y > 50
    &&& fits_i16(((((r as int * 7) % 0x1_0000_0000) % 0x1_0000) % ((w.x - 50) as int)) as u16 as i16 + 50)
    &&& fits_i16(((((r as int * 13) % 0x1_0000_0000) % 0x1_0000) % ((w.y - 50) as int)) as u16 as i16 + 50)
}

/// Whether a new round can be computed from `r` in a window of size `window_size`.
pub fn reset_fits(window_size: V2<u16>, r: u32) -> (b: bool)
    ensures
        b == ball_reset_fits(window_size, r),
{
    if window_size.x <= 50 || window_size.y <= 50 {
        return false;
    }
    proof {
        assert(r.wrapping_mul(7) == (r as int * 7) % 0x1_0000_0000);
        assert(r.wrapping_mul(13) == (r as int * 13) % 0x1_0000_0000);
        assert((r.wrapping_mul(7) as u16) == (r.wrapping_mul(7) as int) % 0x1_0000) by (bit_vector);
        assert((r.wrapping_mul(13) as u16) == (r.wrapping_mul(13) as int) % 0x1_0000) by (bit_vector);
    }
    let rx = (r.wrapping_mul(7) as u16) % (window_size.x - 50);
    let ry = (r.wrapping_mul(13) as u16) % (window_size.y - 50);
    (rx as i16 as i32) + 50 <= 32767 && (ry as i16 as i32) + 50 <= 32767
}

fn flip_exec(v: i16) -> (r: i16)
    requires
        fits_i16(-v),
    ensures
        r == -v,
{
    0 - v
}

impl Ball {
    /// One step of the ball: it moves by its direction, bounces off the pads, stops where it
    /// passes a side that has no pad, and bounces off the top and bottom.
    pub fn update(&mut self, window_size: V2<u16>, left_pad: &Pad, right_pad: &Pad)
        requires
            ball_after(*old(self), window_size, *left_pad, *right_pad) is Some,
        ensures
            ball_after(*old(self), window_size, *left_pad, *right_pad) == Some(*final(self)),
    {
        self.position.x = self.position.x + self.direction.x;
        self.position.y = self.position.y + self.direction.y;

        let in_left = self.position.y >= left_pad.position.y && self.position.y <= left_pad.position.y
            + left_pad.size.y as i16;
        let offset = if in_left {
            left_pad.position.x + left_pad.size.x as i16
        } else {
            0
        };
        if self.position.x <= offset {
            if offset == 0 {
                self.direction.x = 0;
                self.direction.y = 0;
            }
            self.position.x = offset;
            self.direction.x = flip_exec(self.direction.x);
        }

        let in_right = self.position.y >= right_pad.position.y && self.position.y
            <= right_pad.position.y + right_pad.size.y as i16;
        let offset = if in_right {
            window_size.x as i16 - right_pad.position.x
        } else {
            0
        };
        let bound = window_size.x as i16 - self.size.x as i16 - offset;
        if self.position.x >= bound {
            if offset == 0 {
                self.direction.x = 0;
                self.direction.y = 0;
            }
            self.position.x = bound;
            self.direction.x = flip_exec(self.direction.x);
        }

        if self.position.y <= 0 {
            self.position.y = 0;
            self.direction.y = flip_exec(self.direction.y);
        }

        let bound = window_size.y as i16 - self.size.y as i16;
        if self.position.y >= bound {
            self.position.y = bound;
            self.direction.y = flip_exec(self.direction.y);
        }
    }

    /// Whether a step of the ball can be computed with the two pads in a window of size
    /// `window_size`.
    pub fn update_fits(&self, window_size: V2<u16>, left_pad: &Pad, right_pad: &Pad) -> (r: bool)
        ensures
            r == ball_after(*self, window_size, *left_pad, *right_pad) is Some,
    {
        let fits = |v: i32| -> (b: bool)
            ensures
                b == fits_i16(v as int),
            { -32768 <= v && v <= 32767 };
        let px = self.position.x as i32 + self.direction.x as i32;
        let py = self.position.y as i32 + self.direction.y as i32;
        let dx = self.direction.x as i32;
        let dy = self.direction.y as i32;
        if !fits(px) || !fits(py) {
            return false;
        }
        let in_left = if py >= left_pad.position.y as i32 {
            let end = left_pad.position.y as i32 + left_pad.size.y as i16 as i32;
            if !fits(end) {
                return false;
            }
            py <= end
        } else {
            false
        };
        let offset_l = if in_left {
            left_pad.position.x as i32 + left_pad.size.x as i16 as i32
        } else {
            0
        };
        if !fits(offset_l) {
            return false;
        }
        let (px1, dx1, dy1) = if px <= offset_l {
            let (dxa, dya) = if offset_l == 0 {
                (0, 0)
            } else {
                (dx, dy)
            };
            if !fits(0 - dxa) {
                return false;
            }
            (offset_l, 0 - dxa, dya)
        } else {
            (px, dx, dy)
        };
        let in_right = if py >= right_pad.position.y as i32 {
            let end = right_pad.position.y as i32 + right_pad.size.y as i16 as i32;
            if !fits(end) {
                return false;
            }
            py <= end
        } else {
            false
        };
        let offset_r = if in_right {
            window_size.x as i16 as i32 - right_pad.position.x as i32
        } else {
            0
        };
        if !fits(offset_r) {
            return false;
        }
        let b1 = window_size.x as i16 as i32 - self.size.x as i16 as i32;
        if !fits(b1) {
            return false;
        }
        let bound = b1 - offset_r;
        if !fits(bound) {
            return false;
        }
        let (px2, dx2, dy2) = if px1 >= bound {
            let (dxa, dya) = if offset_r == 0 {
                (0, 0)
            } else {
                (dx1, dy1)
            };
            if !fits(0 - dxa) {
                return false;
            }
            (bound, 0 - dxa, dya)
        } else {
            (px1, dx1, dy1)
        };
        let (py3, dy3) = if py <= 0 {
            (0, 0 - dy2)
        } else {
            (py, dy2)
        };
        let bottom = window_size.y as i16 as i32 - self.size.y as i16 as i32;
        if !fits(dy3) || !fits(bottom) {
            return false;
        }
        let dy4 = if py3 >= bottom {
            0 - dy3
        } else {
            dy3
        };
        fits(dy4)
    }

    /// Starts a round from the number `r`; the game draws it from the clock.
    pub fn reset(&mut self, window_size: V2<u16>, r: u32)
        requires
            ball_reset_fits(window_size, r),
        ensures
            *final(self) == ball_reset(*old(self), window_size, r),
    {
        let bound: u16 = 50;
        let rx = (r.wrapping_mul(7) as u16) % (window_size.x - bound);
        let ry = (r.wrapping_mul(13) as u16) % (window_size.y - bound);
        proof {
            assert(r.wrapping_mul(7) == (r as int * 7) % 0x1_0000_0000);
            assert(r.wrapping_mul(13) == (r as int * 13) % 0x1_0000_0000);
            assert((r.wrapping_mul(7) as u16) == (r.wrapping_mul(7) as int) % 0x1_0000) by (bit_vector);
            assert((r.wrapping_mul(13) as u16) == (r.wrapping_mul(13) as int) % 0x1_0000) by (bit_vector);
        }
        self.position.x = rx as i16 + bound as i16;
        self.position.y = ry as i16 + bound as i16;
        let base_velocity: i16 = 5;
        let v: [i16; 2] = [0 - base_velocity, base_velocity];
        proof {
            assert(r.wrapping_mul(17) == (r as int * 17) % 0x1_0000_0000);
            assert(r.wrapping_mul(19) == (r as int * 19) % 0x1_0000_0000);
        }
        self.direction.x = v[r.wrapping_mul(17) as usize % 2];
        self.direction.y = v[r.wrapping_mul(19) as usize % 2];
    }

    /// Paints the ball in white.
    pub fn display(&self, canvas: &mut PongCanvas)
        requires
            rectangle_fits(old(canvas)@, self.size.x, self.size.y, self.position.x as u16, self.position.y as u16),
        ensures
            final(canvas)@ == painted(
                old(canvas)@,
                self.size.x,
                self.size.y,
                self.position.x as u16,
                self.position.y as u16,
                0xffffffu32,
            ),
    {
        canvas.rectangle(self.size.x, self.size.y, self.position.x as u16, self.position.y as u16, 0xffffff);
    }
}

/// What a game image is: its width, height and bytes.
pub struct PongCanvasModel {
    pub width: u16,
    pub height: u16,
    pub data: Seq<u8>,
}

/// Whether a rectangle of `w` by `h` at `x`, `y` lies within the image.
pub open spec fn rectangle_fits(c: PongCanvasModel, w: u16, h: u16, x: u16, y: u16) -> bool {
    &&& x + w <= c.width
    &&& y + h <= c.height
    &&& c.data.len() == c.width * c.height * 4
}

/// Byte `k` (0 to 3) of the little-endian encoding of `color`.
pub open spec fn color_le_byte(color: u32, k: int) -> u8 {
    if k == 0 {
        (color % 256) as u8
    } else if k == 1 {
        ((color / 256) % 256) as u8
    } else if k == 2 {
        ((color / 65536) % 256) as u8
    } else {
        ((color / 16777216) % 256) as u8
    }
}

/// The image with the rectangle of `w` by `h` at `x`, `y` painted in `color`, each pixel
/// holding the little-endian bytes of the colour.
pub open spec fn painted(c: PongCanvasModel, w: u16, h: u16, x: u16, y: u16, color: u32) -> PongCanvasModel {
    PongCanvasModel {
        data: Seq::new(
            c.data.len(),
            |i: int|
                if in_rect(c.width as int, i, w, h, x, y) {
                    color_le_byte(color, i % 4)
                } else {
                    c.data[i]
                },
        ),
        ..c
    }
}

/// The image the game is drawn into.
pub struct PongCanvas {
    width: u16,
    height: u16,
    data: Vec<u8>,
}

impl View for PongCanvas {
    type V = PongCanvasModel;

    closed spec fn view(&self) -> PongCanvasModel {
        PongCanvasModel { width: self.width, height: self.height, data: self.data@ }
    }
}

impl PongCanvas {
    /// A black image of `width` by `height` pixels.
    pub fn new(width: u16, height: u16) -> (r: Self)
        requires
            width * height * 4 <= usize::MAX,
        ensures
            r@.width == width,
            r@.height == height,
            r@.data == Seq::new((width * height * 4) as nat, |i: int| 0u8),
    {
        let n = width as usize * height as usize * 4;
        let mut data: Vec<u8> = Vec::new();
        let mut i: usize = 0;
        while i < n
            invariant
                i <= n,
                n == width * height * 4,
                data@ == Seq::new(i as nat, |k: int| 0u8),
            decreases n - i,
        {
            data.push(0);
            i = i + 1;
            assert(data@ =~= Seq::new(i as nat, |k: int| 0u8));
        }
        Self { width, height, data }
    }

    /// Whether a rectangle of `w` by `h` at `x`, `y` lies within the image.
    pub fn fits(&self, w: u16, h: u16, x: u16, y: u16) -> (r: bool)
        ensures
            r == rectangle_fits(self@, w, h, x, y),
    {
        let wd = self.width as u64;
        let ht = self.height as u64;
        assert(wd * ht <= 0xffff * 0xffff) by (nonlinear_arith)
            requires
                wd <= 0xffff,
                ht <= 0xffff,
        ;
        let area = wd * ht;
        x as u32 + w as u32 <= self.width as u32 && y as u32 + h as u32 <= self.height as u32
            && self.data.len() as u64 == area * 4
    }

    /// The bytes of the image.
    pub fn data(&self) -> (r: &[u8])
        ensures
            r@ == self@.data,
    {
        self.data.as_slice()
    }

    /// Paints the rectangle of `width` by `height` at `start_x`, `start_y` in `color`.
    pub fn rectangle(&mut self, width: u16, height: u16, start_x: u16, start_y: u16, color: u32)
        requires
            rectangle_fits(old(self)@, width, height, start_x, start_y),
        ensures
            final(self)@ == painted(old(self)@, width, height, start_x, start_y, color),
    {
        let ghost c0 = self@;
        // Asking for the length bounds it by `usize::MAX` in the proof.
        let _len = self.data.len();
        let b0 = (color % 256) as u8;
        let b1 = ((color / 256) % 256) as u8;
        let b2 = ((color / 65536) % 256) as u8;
        let b3 = ((color / 16777216) % 256) as u8;
        let ghost w = c0.width as int;
        let mut y = start_y;
        while y < start_y + height
            invariant
                start_y <= y <= start_y + height,
                rectangle_fits(c0, width, height, start_x, start_y),
                c0.data.len() <= usize::MAX,
                w == c0.width,
                self.width == c0.width,
                self.height == c0.height,
                self.data@.len() == c0.data.len(),
                b0 == color_le_byte(color, 0),
                b1 == color_le_byte(color, 1),
                b2 == color_le_byte(color, 2),
                b3 == color_le_byte(color, 3),
                forall|i: int|
                    0 <= i < c0.data.len() ==> #[trigger] self.data@[i] == (if in_rect(w, i, width, height, start_x, start_y)
                        && (i / 4) / w < y {
                        color_le_byte(color, i % 4)
                    } else {
                        c0.data[i]
                    }),
            decreases start_y + height - y,
        {
            let mut x = start_x;
            while x < start_x + width
                invariant
                    start_y <= y < start_y + height,
                    start_x <= x <= start_x + width,
                    rectangle_fits(c0, width, height, start_x, start_y),
                    c0.data.len() <= usize::MAX,
                    w == c0.width,
                    self.width == c0.width,
                    self.height == c0.height,
                    self.data@.len() == c0.data.len(),
                    b0 == color_le_byte(color, 0),
                    b1 == color_le_byte(color, 1),
                    b2 == color_le_byte(color, 2),
                    b3 == color_le_byte(color, 3),
                    forall|i: int|
                        0 <= i < c0.data.len() ==> #[trigger] self.data@[i] == (if in_rect(w, i, width, height, start_x, start_y)
                            && ((i / 4) / w < y || ((i / 4) / w == y && (i / 4) % w < x)) {
                            color_le_byte(color, i % 4)
                        } else {
                            c0.data[i]
                        }),
                decreases start_x + width - x,
            {
                proof {
                    lemma_pixel_index(w, c0.height as int, x as int, y as int);
                }
                let index = (y as usize * self.width as usize + x as usize) * 4;
                self.data.set(index, b0);
                self.data.set(index + 1, b1);
                self.data.set(index + 2, b2);
                self.data.set(index + 3, b3);
                proof {
                    assert forall|i: int| 0 <= i < c0.data.len() implies #[trigger] self.data@[i] == (if in_rect(w, i, width, height, start_x, start_y)
                        && ((i / 4) / w < y || ((i / 4) / w == y && (i / 4) % w < x + 1)) {
                        color_le_byte(color, i % 4)
                    } else {
                        c0.data[i]
                    }) by {
                        lemma_index_pixel(w, i, x as int, y as int);
                        if index <= i < index + 4 {
                            assert(i / 4 == y * w + x);
                        }
                    }
                }
                x = x + 1;
            }
            y = y + 1;
        }
        proof {
            let target = painted(c0, width, height, start_x, start_y, color);
            assert forall|i: int| 0 <= i < c0.data.len() implies #[trigger] self.data@[i] == target.data[i] by {
                lemma_row_below(w, c0.height as int, i);
            }
            assert(self.data@ =~= target.data);
        }
    }
}

/// Byte `i` of an image `w` wide lies in the rectangle of `width` by `height` at
/// `start_x`, `start_y`.
pub open spec fn in_rect(w: int, i: int, width: u16, height: u16, start_x: u16, start_y: u16) -> bool {
    let px = (i / 4) % w;
    let py = (i / 4) / w;
    start_x <= px < start_x + width && start_y <= py < start_y + height
}

/// The pixel at column `x` of row `y` of an image `w` wide and `h` high starts at byte
/// `(y * w + x) * 4`, within the image.
proof fn lemma_pixel_index(w: int, h: int, x: int, y: int)
    requires
        0 <= x < w,
        0 <= y < h,
    ensures
        0 <= (y * w + x) * 4,
        (y * w + x) * 4 + 3 < w * h * 4,
        forall|k: int| 0 <= k < 4 ==> #[trigger] (((y * w + x) * 4 + k) / 4) == y * w + x && ((y * w + x) * 4 + k) % 4 == k,
        (y * w + x) / w == y,
        (y * w + x) % w == x,
{
    assert(y * w + x < w * h) by (nonlinear_arith)
        requires
            0 <= x < w,
            0 <= y < h,
    ;
    assert(0 <= y * w) by (nonlinear_arith)
        requires
            0 <= y,
            0 <= w,
    ;
    vstd::arithmetic::div_mod::lemma_fundamental_div_mod_converse(y * w + x, w, y, x);
}

/// Byte `i` lies in the pixel at column `x` of row `y` exactly when its index says so.
proof fn lemma_index_pixel(w: int, i: int, x: int, y: int)
    requires
        0 <= x < w,
        0 <= y,
        0 <= i,
    ensures
        (i / 4 == y * w + x) <==> ((i / 4) / w == y && (i / 4) % w == x),
{
    if (i / 4) / w == y && (i / 4) % w == x {
        vstd::arithmetic::div_mod::lemma_fundamental_div_mod(i / 4, w);
    }
    if i / 4 == y * w + x {
        vstd::arithmetic::div_mod::lemma_fundamental_div_mod_converse(i / 4, w, y, x);
    }
}

/// A byte of an image `w` wide and `h` high lies in a row above `h`.
proof fn lemma_row_below(w: int, h: int, i: int)
    requires
        0 <= i < w * h * 4,
        0 < w,
    ensures
        (i / 4) / w < h,
{
    assert(i / 4 < w * h);
    vstd::arithmetic::div_mod::lemma_multiply_divide_lt(i / 4, w, h);
}

/// `m` with each of the key codes `codes`, in order, bound to `a`.
pub open spec fn bind_all(m: Map<u8, KeyAction>, codes: Seq<KeyCode>, a: KeyAction) -> Map<u8, KeyAction>
    decreases codes.len(),
{
    if codes.len() == 0 {
        m
    } else {
        bind_all(m, codes.drop_last(), a).insert(codes.last()@, a)
    }
}

/// A key code is bound after `bind_all` where it was bound before or is among the codes,
/// and then to `a`.
pub proof fn lemma_bind_all(m: Map<u8, KeyAction>, codes: Seq<KeyCode>, a: KeyAction, k: u8)
    ensures
        bind_all(m, codes, a).contains_key(k) == (m.contains_key(k) || exists|j: int|
            0 <= j < codes.len() && (#[trigger] codes[j])@ == k),
        (exists|j: int| 0 <= j < codes.len() && (#[trigger] codes[j])@ == k) ==> bind_all(m, codes, a)[k] == a,
        !(exists|j: int| 0 <= j < codes.len() && (#[trigger] codes[j])@ == k) && m.contains_key(k)
            ==> bind_all(m, codes, a)[k] == m[k],
    decreases codes.len(),
{
    if codes.len() > 0 {
        let rest = codes.drop_last();
        lemma_bind_all(m, rest, a, k);
        if codes.last()@ == k {
            assert(codes[codes.len() - 1]@ == k);
        } else {
            if exists|j: int| 0 <= j < codes.len() && (#[trigger] codes[j])@ == k {
                let j = choose|j: int| 0 <= j < codes.len() && (#[trigger] codes[j])@ == k;
                assert(rest[j]@ == k);
            }
            if exists|j: int| 0 <= j < rest.len() && (#[trigger] rest[j])@ == k {
                let j = choose|j: int| 0 <= j < rest.len() && (#[trigger] rest[j])@ == k;
                assert(codes[j]@ == k);
            }
        }
    }
}

/// The binding of key code `k` after binding `action` to the codes that produce `sym`:
/// such codes hold `action`, the others keep what they had.
pub open spec fn rebound(
    before: Map<u8, KeyAction>,
    after: Map<u8, KeyAction>,
    ks: KeySymbols,
    sym: u32,
    action: KeyAction,
    k: u8,
) -> bool {
    if ks.spec_min() <= k as int <= ks.spec_max() && ks.produces(k as int, sym) {
        after.contains_key(k) && after[k] == action
    } else {
        after.contains_key(k) == before.contains_key(k) && (before.contains_key(k) ==> after[k] == before[k])
    }
}

/// Whether binding `sym` gives key code `k` a new action: `k` is a code of the table that
/// produces `sym`.
pub open spec fn binds_code(ks: KeySymbols, sym: u32, k: u8) -> bool {
    ks.spec_min() <= k as int <= ks.spec_max() && ks.produces(k as int, sym)
}

/// The bindings `before` after binding `action` to every key code of `ks` that produces
/// `sym`.
pub open spec fn bind_symbol(
    before: Map<u8, KeyAction>,
    ks: KeySymbols,
    sym: u32,
    action: KeyAction,
) -> Map<u8, KeyAction> {
    Map::new(
        |k: u8| binds_code(ks, sym, k) || before.contains_key(k),
        |k: u8|
            if binds_code(ks, sym, k) {
                action
            } else {
                before[k]
            },
    )
}

/// The controls of the game: d and f move the left pad down and up, j and k the right pad,
/// r restarts and q quits, bound in that order to every key code that produces them.
pub open spec fn pong_controls(ks: KeySymbols) -> Map<u8, KeyAction> {
    let m0 = Map::<u8, KeyAction>::empty();
    let m1 = bind_symbol(m0, ks, KeySym::d, KeyAction::LeftDown);
    let m2 = bind_symbol(m1, ks, KeySym::f, KeyAction::LeftUp);
    let m3 = bind_symbol(m2, ks, KeySym::j, KeyAction::RightDown);
    let m4 = bind_symbol(m3, ks, KeySym::k, KeyAction::RightUp);
    let m5 = bind_symbol(m4, ks, KeySym::r, KeyAction::Restart);
    bind_symbol(m5, ks, KeySym::q, KeyAction::Quit)
}

/// Bindings related by `rebound` at every key code are the bindings of `bind_symbol`.
pub proof fn lemma_rebound_is_bind_symbol(
    before: Map<u8, KeyAction>,
    after: Map<u8, KeyAction>,
    ks: KeySymbols,
    sym: u32,
    action: KeyAction,
)
    requires
        forall|k: u8| #[trigger] rebound(before, after, ks, sym, action, k),
    ensures
        after == bind_symbol(before, ks, sym, action),
{
    let b = bind_symbol(before, ks, sym, action);
    assert forall|k: u8| #[trigger] after.contains_key(k) <==> b.dom().contains(k) by {
        assert(rebound(before, after, ks, sym, action, k));
    }
    assert forall|k: u8| after.contains_key(k) implies #[trigger] after[k] == b[k] by {
        assert(rebound(before, after, ks, sym, action, k));
    }
    assert(after =~= b);
}

/// What a key does in the game.
#[derive(Debug, Clone, Copy, PartialEq, Eq, Structural)]
pub enum KeyAction {
    LeftUp,
    LeftDown,
    RightUp,
    RightDown,
    Restart,
    Quit,
}

/// The actions bound to key codes.
pub struct KeyBindings {
    bindings: HashMap<u8, KeyAction>,
    key_symbols: KeySymbols,
}

impl KeyBindings {
    /// The key codes bound, each with its action.
    pub closed spec fn spec_bindings(&self) -> Map<u8, KeyAction> {
        self.bindings@
    }

    /// The key symbol table.
    pub closed spec fn spec_key_symbols(&self) -> KeySymbols {
        self.key_symbols
    }

    /// No action bound yet, over the key symbol table `key_symbols`.
    pub fn new(key_symbols: KeySymbols) -> (r: Self)
        ensures
            r.spec_bindings() == Map::<u8, KeyAction>::empty(),
            r.spec_key_symbols() == key_symbols,
    {
        Self { bindings: HashMap::new(), key_symbols }
    }

    /// Binds `action` to every key code that produces `key_sym`.
    pub fn add_binding(&mut self, key_sym: KeySym, action: KeyAction)
        requires
            old(self).spec_key_symbols().wf(),
        ensures
            final(self).spec_key_symbols() == old(self).spec_key_symbols(),
            forall|k: u8|
                #[trigger] rebound(
                    old(self).spec_bindings(),
                    final(self).spec_bindings(),
                    old(self).spec_key_symbols(),
                    key_sym.inner,
                    action,
                    k,
                ),
    {
        broadcast use vstd::std_specs::hash::group_hash_axioms;

        let key_codes = self.key_symbols.get_keycodes(key_sym);
        let ghost ks = self.key_symbols;
        let ghost before = self.bindings@;
        let mut i: usize = 0;
        assert(key_codes@.take(0) =~= Seq::<KeyCode>::empty());
        while i < key_codes.len()
            invariant
                i <= key_codes@.len(),
                self.key_symbols == ks,
                ks == old(self).spec_key_symbols(),
                before == old(self).spec_bindings(),
                self.bindings@ == bind_all(before, key_codes@.take(i as int), action),
                forall|k: int|
                    0 <= k < key_codes@.len() ==> ks.spec_min() <= (#[trigger] key_codes@[k])@ <= ks.spec_max()
                        && ks.produces(key_codes@[k]@ as int, key_sym.inner),
                forall|kc: int|
                    ks.spec_min() <= kc <= ks.spec_max() && #[trigger] ks.produces(kc, key_sym.inner)
                        ==> exists|k: int| 0 <= k < key_codes@.len() && key_codes@[k]@ == kc,
            decreases key_codes@.len() - i,
        {
            let code = key_codes[i].raw();
            self.bindings.insert(code, action);
            assert(key_codes@.take(i + 1).drop_last() =~= key_codes@.take(i as int));
            i = i + 1;
        }
        proof {
            assert(key_codes@.take(i as int) =~= key_codes@);
            assert forall|k: u8|
                #[trigger] rebound(before, self.spec_bindings(), ks, key_sym.inner, action, k) by {
                lemma_bind_all(before, key_codes@, action, k);
                if ks.spec_min() <= k as int <= ks.spec_max() && ks.produces(k as int, key_sym.inner) {
                    assert(ks.produces(k as int, key_sym.inner));
                } else if exists|j: int| 0 <= j < key_codes@.len() && (#[trigger] key_codes@[j])@ == k {
                    let j = choose|j: int| 0 <= j < key_codes@.len() && (#[trigger] key_codes@[j])@ == k;
                    assert(ks.spec_min() <= (key_codes@[j])@ <= ks.spec_max());
                }
            }
        }
    }

    /// The action bound to `key_code`, if any.
    pub fn get_action(&self, key_code: KeyCode) -> (r: Option<KeyAction>)
        ensures
            r == (if self.spec_bindings().contains_key(key_code@) {
                Some(self.spec_bindings()[key_code@])
            } else {
                None
            }),
    {
        broadcast use vstd::std_specs::hash::group_hash_axioms;

        match self.bindings.get(&key_code.raw()) {
            Some(a) => Some(*a),
            None => None,
        }
    }
}

/// A pad never leaves the window: after a step it lies between the top and the bottom.
pub proof fn lemma_pad_stays_inside(p: Pad, w: V2<u16>)
    requires
        pad_update_fits(p, w),
        (w.y as i16) - (p.size.y as i16) >= 0,
    ensures
        0 <= pad_after(p, w).position.y <= (w.y as i16) - (p.size.y as i16),
{
}

/// The ball never leaves the window vertically: after a step it lies between the top and
/// the bottom.
pub proof fn lemma_ball_stays_inside(b: Ball, w: V2<u16>, lp: Pad, rp: Pad)
    requires
        ball_after(b, w, lp, rp) is Some,
        (w.y as i16) - (b.size.y as i16) >= 0,
    ensures
        0 <= ball_after(b, w, lp, rp)->0.position.y <= (w.y as i16) - (b.size.y as i16),
{
}

/// What the game does after a key: go on, start a new round, or quit.
#[derive(Debug, Clone, Copy, PartialEq, Eq, Structural)]
pub enum KeyOutcome {
    Continue,
    Restart,
    Quit,
}

/// A pressed key: the pads start moving, or the game restarts or quits.
pub fn key_pressed(action: KeyAction, left_pad: &mut Pad, right_pad: &mut Pad) -> (r: KeyOutcome)
    ensures
        r == (match action {
            KeyAction::Quit => KeyOutcome::Quit,
            KeyAction::Restart => KeyOutcome::Restart,
            _ => KeyOutcome::Continue,
        }),
        final(left_pad).direction == (match action {
            KeyAction::LeftDown => PadDirection::Down,
            KeyAction::LeftUp => PadDirection::Up,
            _ => old(left_pad).direction,
        }),
        final(right_pad).direction == (match action {
            KeyAction::RightDown => PadDirection::Down,
            KeyAction::RightUp => PadDirection::Up,
            _ => old(right_pad).direction,
        }),
        (Pad { direction: old(left_pad).direction, ..*final(left_pad) }) == *old(left_pad),
        (Pad { direction: old(right_pad).direction, ..*final(right_pad) }) == *old(right_pad),
{
    match action {
        KeyAction::Quit => KeyOutcome::Quit,
        KeyAction::RightDown => {
            right_pad.direction = PadDirection::Down;
            KeyOutcome::Continue
        },
        KeyAction::RightUp => {
            right_pad.direction = PadDirection::Up;
            KeyOutcome::Continue
        },
        KeyAction::LeftDown => {
            left_pad.direction = PadDirection::Down;
            KeyOutcome::Continue
        },
        KeyAction::LeftUp => {
            left_pad.direction = PadDirection::Up;
            KeyOutcome::Continue
        },
        KeyAction::Restart => KeyOutcome::Restart,
    }
}

/// A released key: the pad it moved stops.
pub fn key_released(action: KeyAction, left_pad: &mut Pad, right_pad: &mut Pad)
    ensures
        final(left_pad).direction == (match action {
            KeyAction::LeftDown | KeyAction::LeftUp => PadDirection::Still,
            _ => old(left_pad).direction,
        }),
        final(right_pad).direction == (match action {
            KeyAction::RightDown | KeyAction::RightUp => PadDirection::Still,
            _ => old(right_pad).direction,
        }),
        (Pad { direction: old(left_pad).direction, ..*final(left_pad) }) == *old(left_pad),
        (Pad { direction: old(right_pad).direction, ..*final(right_pad) }) == *old(right_pad),
{
    match action {
        KeyAction::RightDown => right_pad.direction = PadDirection::Still,
        KeyAction::RightUp => right_pad.direction = PadDirection::Still,
        KeyAction::LeftDown => left_pad.direction = PadDirection::Still,
        KeyAction::LeftUp => left_pad.direction = PadDirection::Still,
        _ => {},
    }
}

/// The number of rows of a `width` wide image that one image request of
/// `maximum_request_length` bytes carries.
pub open spec fn chunk_rows(width: u16, maximum_request_length: u16) -> int {
    (maximum_request_length - 24) / (width as int)
}

/// The bands, first row and number of rows, that rows `line` onwards of an image `height`
/// rows high are sent in, `c` rows at a time, the last band holding what is left.
pub open spec fn chunks_from(line: int, height: int, c: int) -> Seq<(u16, u16)>
    decreases height + c - line,
{
    if line >= height || c <= 0 {
        Seq::empty()
    } else {
        seq![(line as u16, (if line + c > height { height - line } else { c }) as u16)] + chunks_from(line + c, height, c)
    }
}

/// The bands an image of `width` by `height` is sent in.
pub open spec fn spec_chunks(width: u16, height: u16, maximum_request_length: u16) -> Seq<(u16, u16)> {
    chunks_from(0, height as int, chunk_rows(width, maximum_request_length))
}

/// Whether the bands can be computed: a request holds the header and at least one row, and
/// counting rows does not overflow.
pub open spec fn chunks_fit(width: u16, height: u16, maximum_request_length: u16) -> bool {
    &&& width > 0
    &&& maximum_request_length >= 24
    &&& 1 <= chunk_rows(width, maximum_request_length) <= u16::MAX
    &&& height + 2 * chunk_rows(width, maximum_request_length) <= u16::MAX
}

impl PongCanvas {
    /// Whether the image can be sent in bands of requests of at most `maximum_request_length`
    /// bytes.
    pub fn can_chunk(&self, maximum_request_length: u16) -> (r: bool)
        ensures
            r == chunks_fit(self@.width, self@.height, maximum_request_length),
    {
        if self.width == 0 || maximum_request_length < 24 {
            return false;
        }
        let rows = (maximum_request_length as u32 - 24) / self.width as u32;
        rows >= 1 && rows <= 0xffff && self.height as u32 + 2 * rows <= 0xffff
    }

    /// The bands, first row and number of rows, in which the image is sent to the server.
    pub fn chunks(&self, maximum_request_length: u16) -> (r: Vec<(u16, u16)>)
        requires
            chunks_fit(self@.width, self@.height, maximum_request_length),
        ensures
            r@ == spec_chunks(self@.width, self@.height, maximum_request_length),
    {
        let chunk_size = ((maximum_request_length as usize - 24) / self.width as usize) as u16;
        let ghost c = chunk_rows(self.width, maximum_request_length);
        let ghost h = self.height as int;
        let mut out: Vec<(u16, u16)> = Vec::new();
        let mut line: u16 = 0;
        assert(out@ + chunks_from(0, h, c) =~= chunks_from(0, h, c));
        while line < self.height
            invariant
                chunk_size == c,
                1 <= c,
                h == self.height,
                h + 2 * c <= u16::MAX,
                line < h + c,
                out@ + chunks_from(line as int, h, c) == chunks_from(0, h, c),
            decreases h + c - line,
        {
            let rows = if line + chunk_size > self.height {
                self.height - line
            } else {
                chunk_size
            };
            let ghost before = out@;
            out.push((line, rows));
            proof {
                assert(chunks_from(line as int, h, c) == seq![(line, rows)] + chunks_from(line + c, h, c));
                assert(out@ + chunks_from(line + c, h, c) =~= before + chunks_from(line as int, h, c));
            }
            line = line + chunk_size;
        }
        assert(chunks_from(line as int, h, c) =~= Seq::<(u16, u16)>::empty());
        assert(out@ =~= chunks_from(0, h, c));
        out
    }
}

/// The key bindings of the game over the key symbol table `key_symbols`.
pub fn pong_key_bindings(key_symbols: KeySymbols) -> (r: KeyBindings)
    requires
        key_symbols.wf(),
    ensures
        r.spec_key_symbols() == key_symbols,
        r.spec_bindings() == pong_controls(key_symbols),
{
    let ghost ks = key_symbols;
    let mut bindings = KeyBindings::new(key_symbols);
    let ghost m0 = bindings.spec_bindings();
    bindings.add_binding(KeySym::from_raw(KeySym::d), KeyAction::LeftDown);
    proof { lemma_rebound_is_bind_symbol(m0, bindings.spec_bindings(), ks, KeySym::d, KeyAction::LeftDown); }
    let ghost m1 = bindings.spec_bindings();
    bindings.add_binding(KeySym::from_raw(KeySym::f), KeyAction::LeftUp);
    proof { lemma_rebound_is_bind_symbol(m1, bindings.spec_bindings(), ks, KeySym::f, KeyAction::LeftUp); }
    let ghost m2 = bindings.spec_bindings();
    bindings.add_binding(KeySym::from_raw(KeySym::j), KeyAction::RightDown);
    proof { lemma_rebound_is_bind_symbol(m2, bindings.spec_bindings(), ks, KeySym::j, KeyAction::RightDown); }
    let ghost m3 = bindings.spec_bindings();
    bindings.add_binding(KeySym::from_raw(KeySym::k), KeyAction::RightUp);
    proof { lemma_rebound_is_bind_symbol(m3, bindings.spec_bindings(), ks, KeySym::k, KeyAction::RightUp); }
    let ghost m4 = bindings.spec_bindings();
    bindings.add_binding(KeySym::from_raw(KeySym::r), KeyAction::Restart);
    proof { lemma_rebound_is_bind_symbol(m4, bindings.spec_bindings(), ks, KeySym::r, KeyAction::Restart); }
    let ghost m5 = bindings.spec_bindings();
    bindings.add_binding(KeySym::from_raw(KeySym::q), KeyAction::Quit);
    proof { lemma_rebound_is_bind_symbol(m5, bindings.spec_bindings(), ks, KeySym::q, KeyAction::Quit); }
    bindings
}

/// The action bound to key code `code`, if any.
pub open spec fn action_of(bindings: Map<u8, KeyAction>, code: u8) -> Option<KeyAction> {
    if bindings.contains_key(code) {
        Some(bindings[code])
    } else {
        None
    }
}

/// The direction of the left pad after `action` is pressed, from `d`.
pub open spec fn left_pressed(action: KeyAction, d: PadDirection) -> PadDirection {
    match action {
        KeyAction::LeftDown => PadDirection::Down,
        KeyAction::LeftUp => PadDirection::Up,
        _ => d,
    }
}

/// The direction of the right pad after `action` is pressed, from `d`.
pub open spec fn right_pressed(action: KeyAction, d: PadDirection) -> PadDirection {
    match action {
        KeyAction::RightDown => PadDirection::Down,
        KeyAction::RightUp => PadDirection::Up,
        _ => d,
    }
}

/// The direction of the left pad after `action` is released, from `d`.
pub open spec fn left_released(action: KeyAction, d: PadDirection) -> PadDirection {
    match action {
        KeyAction::LeftDown | KeyAction::LeftUp => PadDirection::Still,
        _ => d,
    }
}

/// The direction of the right pad after `action` is released, from `d`.
pub open spec fn right_released(action: KeyAction, d: PadDirection) -> PadDirection {
    match action {
        KeyAction::RightDown | KeyAction::RightUp => PadDirection::Still,
        _ => d,
    }
}

/// What the game does after an event.
#[derive(Debug, Clone, Copy, PartialEq, Eq, Structural)]
pub enum PongEvent {
    /// Keep playing.
    Continue,
    /// Start a new round.
    Restart,
    /// Stop the game.
    Quit,
    /// The window took this size.
    Resize(u16, u16),
}

/// The event's effect on the game shown in `window`: a bound key pressed moves a pad,
/// restarts or quits, a bound key released stops its pad, and a configure event of the window
/// gives its new size; anything else is ignored.
pub fn pong_event(
    event: &SomeEvent,
    bindings: &KeyBindings,
    window: WindowId,
    left_pad: &mut Pad,
    right_pad: &mut Pad,
) -> (r: PongEvent)
    ensures
        (Pad { direction: old(left_pad).direction, ..*final(left_pad) }) == *old(left_pad),
        (Pad { direction: old(right_pad).direction, ..*final(right_pad) }) == *old(right_pad),
        match *event {
            SomeEvent::KeyPress(e) => match action_of(bindings.spec_bindings(), e.detail) {
                Some(a) => {
                    &&& r == (match a {
                        KeyAction::Quit => PongEvent::Quit,
                        KeyAction::Restart => PongEvent::Restart,
                        _ => PongEvent::Continue,
                    })
                    &&& final(left_pad).direction == left_pressed(a, old(left_pad).direction)
                    &&& final(right_pad).direction == right_pressed(a, old(right_pad).direction)
                },
                None => {
                    &&& r == PongEvent::Continue
                    &&& *final(left_pad) == *old(left_pad)
                    &&& *final(right_pad) == *old(right_pad)
                },
            },
            SomeEvent::KeyRelease(e) => match action_of(bindings.spec_bindings(), e.detail) {
                Some(a) => {
                    &&& r == PongEvent::Continue
                    &&& final(left_pad).direction == left_released(a, old(left_pad).direction)
                    &&& final(right_pad).direction == right_released(a, old(right_pad).direction)
                },
                None => {
                    &&& r == PongEvent::Continue
                    &&& *final(left_pad) == *old(left_pad)
                    &&& *final(right_pad) == *old(right_pad)
                },
            },
            SomeEvent::ConfigureNotify(e) => {
                &&& *final(left_pad) == *old(left_pad)
                &&& *final(right_pad) == *old(right_pad)
                &&& r == (if e.spec_event_window() == window {
                    PongEvent::Resize(e.spec_width(), e.spec_height())
                } else {
                    PongEvent::Continue
                })
            },
            _ => {
                &&& r == PongEvent::Continue
                &&& *final(left_pad) == *old(left_pad)
                &&& *final(right_pad) == *old(right_pad)
            },
        },
{
    match event {
        SomeEvent::KeyPress(e) => match bindings.get_action(KeyCode::from_u8(e.detail)) {
            Some(action) => match key_pressed(action, left_pad, right_pad) {
                KeyOutcome::Quit => PongEvent::Quit,
                KeyOutcome::Restart => PongEvent::Restart,
                KeyOutcome::Continue => PongEvent::Continue,
            },
            None => PongEvent::Continue,
        },
        SomeEvent::KeyRelease(e) => {
            match bindings.get_action(KeyCode::from_u8(e.detail)) {
                Some(action) => key_released(action, left_pad, right_pad),
                None => {},
            }
            PongEvent::Continue
        },
        SomeEvent::ConfigureNotify(e) => {
            if e.event_window().same(window) {
                PongEvent::Resize(e.window_width(), e.window_height())
            } else {
                PongEvent::Continue
            }
        },
        _ => PongEvent::Continue,
    }
}

} // verus!
