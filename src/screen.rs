//! The buffers of the 8 by 8 LED controller: a working buffer that games draw
//! into, and the buffer that is uploaded, turned to follow gravity so that the
//! picture stays upright.

use vstd::prelude::*;

use crate::face::{with_cleared, with_set};
use crate::geometry::Gd;

verus! {

/// Whether the pixel at column `x`, row `y` of `rows` is lit.
pub open spec fn lit(rows: Seq<u8>, x: int, y: int) -> bool {
    (rows[y] >> (7 - x) as u8) & 1u8 == 1u8
}

/// The source pixel shown at `(x, y)` when gravity points `gd`: the picture is
/// turned so that its bottom faces down.
pub open spec fn source_of(gd: Gd, x: int, y: int) -> (int, int) {
    match gd {
        Gd::Up => (7 - x, 7 - y),
        Gd::Right => (7 - y, x),
        Gd::Left => (y, 7 - x),
        _ => (x, y),
    }
}

proof fn lemma_bit_set(b: u8, k: u8, l: u8)
    requires
        k < 8,
        l < 8,
    ensures
        ((b | (1u8 << (7 - k) as u8)) >> (7 - l) as u8) & 1u8 == 1u8 <==> ((b >> (7 - l) as u8) & 1u8 == 1u8 || k == l),
{
    assert(((b | (1u8 << (7 - k) as u8)) >> (7 - l) as u8) & 1u8 == 1u8 <==> ((b >> (7 - l) as u8) & 1u8 == 1u8 || k == l)) by (bit_vector)
        requires k < 8, l < 8;
}

proof fn lemma_zero_dark(l: u8)
    requires
        l < 8,
    ensures
        (0u8 >> (7 - l) as u8) & 1u8 == 0u8,
{
    assert((0u8 >> (7 - l) as u8) & 1u8 == 0u8) by (bit_vector)
        requires l < 8;
}

/// The working buffer, the buffer to upload, and the direction of gravity.
#[derive(Debug)]
pub struct LedControl {
    pub buf_work: [u8; 8],
    pub buf: [u8; 8],
    pub gd: Gd,
}

impl LedControl {
    /// Dark buffers, gravity down (the upright position).
    pub fn new() -> (r: LedControl)
        ensures
            r.buf_work@ == seq![0u8, 0u8, 0u8, 0u8, 0u8, 0u8, 0u8, 0u8],
            r.buf@ == seq![0u8, 0u8, 0u8, 0u8, 0u8, 0u8, 0u8, 0u8],
            r.gd == Gd::Down,
    {
        let r = LedControl { buf_work: [0u8; 8], buf: [0u8; 8], gd: Gd::Down };
        assert(r.buf@ =~= seq![0u8, 0u8, 0u8, 0u8, 0u8, 0u8, 0u8, 0u8]);
        assert(r.buf_work@ =~= seq![0u8, 0u8, 0u8, 0u8, 0u8, 0u8, 0u8, 0u8]);
        r
    }

    /// Darkens the working buffer.
    pub fn clear_work(&mut self)
        ensures
            final(self).buf_work@ == seq![0u8, 0u8, 0u8, 0u8, 0u8, 0u8, 0u8, 0u8],
            final(self).buf == old(self).buf,
            final(self).gd == old(self).gd,
    {
        self.buf_work = [0u8; 8];
        assert(self.buf_work@ =~= seq![0u8, 0u8, 0u8, 0u8, 0u8, 0u8, 0u8, 0u8]);
    }

    /// Darkens the buffer to upload.
    pub fn clear(&mut self)
        ensures
            final(self).buf@ == seq![0u8, 0u8, 0u8, 0u8, 0u8, 0u8, 0u8, 0u8],
            final(self).buf_work == old(self).buf_work,
            final(self).gd == old(self).gd,
    {
        self.buf = [0u8; 8];
        assert(self.buf@ =~= seq![0u8, 0u8, 0u8, 0u8, 0u8, 0u8, 0u8, 0u8]);
    }

    /// Lights or darkens one pixel of the working buffer; nothing off the display.
    pub fn set_led_work(&mut self, x: u8, y: u8, on: bool)
        ensures
            final(self).buf_work@ == if on { with_set(old(self).buf_work@, x, y) } else { with_cleared(old(self).buf_work@, x, y) },
            final(self).buf == old(self).buf,
            final(self).gd == old(self).gd,
    {
        if x > 7 || y > 7 {
            return;
        }
        let row = if on { self.buf_work[y as usize] | (1u8 << (7 - x)) } else { self.buf_work[y as usize] & !(1u8 << (7 - x)) };
        self.buf_work[y as usize] = row;
        assert(self.buf_work@ =~= if on { with_set(old(self).buf_work@, x, y) } else { with_cleared(old(self).buf_work@, x, y) });
    }

    /// Lights or darkens one pixel of the buffer to upload; nothing off the display.
    pub fn set_led(&mut self, x: u8, y: u8, on: bool)
        ensures
            final(self).buf@ == if on { with_set(old(self).buf@, x, y) } else { with_cleared(old(self).buf@, x, y) },
            final(self).buf_work == old(self).buf_work,
            final(self).gd == old(self).gd,
    {
        if x > 7 || y > 7 {
            return;
        }
        let row = if on { self.buf[y as usize] | (1u8 << (7 - x)) } else { self.buf[y as usize] & !(1u8 << (7 - x)) };
        self.buf[y as usize] = row;
        assert(self.buf@ =~= if on { with_set(old(self).buf@, x, y) } else { with_cleared(old(self).buf@, x, y) });
    }

    /// 1 when the pixel at `(x, y)` of `view` is lit, 0 when it is dark or off
    /// the display.
    pub fn get_led_state_work(&self, x: u8, y: u8, view: [u8; 8]) -> (r: u8)
        ensures
            r == if x <= 7 && y <= 7 && lit(view@, x as int, y as int) { 1u8 } else { 0u8 },
    {
        if x > 7 || y > 7 {
            return 0;
        }
        if (view[y as usize] >> (7 - x)) & 1 == 1 { 1 } else { 0 }
    }

    /// Copies a picture into the working buffer.
    pub fn bitmap_work(&mut self, buf: [u8; 8])
        ensures
            final(self).buf_work == buf,
            final(self).buf == old(self).buf,
            final(self).gd == old(self).gd,
    {
        self.buf_work = buf;
    }

    /// Writes a picture into the buffer to upload, turned so that it stays
    /// upright for the current direction of gravity; with no direction the
    /// buffer keeps what it shows.
    pub fn bitmap(&mut self, buf: [u8; 8])
        ensures
            final(self).buf_work == old(self).buf_work,
            final(self).gd == old(self).gd,
            old(self).gd == Gd::Flat ==> final(self).buf == old(self).buf,
            old(self).gd != Gd::Flat ==> forall|x: int, y: int| 0 <= x < 8 && 0 <= y < 8 ==>
                (#[trigger] lit(final(self).buf@, x, y) <==> lit(buf@, source_of(old(self).gd, x, y).0, source_of(old(self).gd, x, y).1)),
    {
        if self.gd == Gd::Flat {
            return;
        }
        let gd = self.gd;
        let mut out = [0u8; 8];
        let mut y: u8 = 0;
        while y < 8
            invariant
                y <= 8,
                gd != Gd::Flat,
                forall|i: int, j: int| 0 <= i < 8 && 0 <= j < y ==> (#[trigger] lit(out@, i, j) <==> lit(buf@, source_of(gd, i, j).0, source_of(gd, i, j).1)),
                forall|j: int| y <= j < 8 ==> out@[j] == 0u8,
            decreases 8 - y,
        {
            proof {
                assert forall|i: int| 0 <= i < 8 implies !#[trigger] lit(out@, i, y as int) by {
                    lemma_zero_dark(i as u8);
                }
            }
            let mut x: u8 = 0;
            while x < 8
                invariant
                    x <= 8,
                    y < 8,
                    gd != Gd::Flat,
                    forall|i: int, j: int| 0 <= i < 8 && 0 <= j < y ==> (#[trigger] lit(out@, i, j) <==> lit(buf@, source_of(gd, i, j).0, source_of(gd, i, j).1)),
                    forall|i: int| 0 <= i < x ==> (#[trigger] lit(out@, i, y as int) <==> lit(buf@, source_of(gd, i, y as int).0, source_of(gd, i, y as int).1)),
                    forall|i: int| x <= i < 8 ==> !#[trigger] lit(out@, i, y as int),
                    forall|j: int| y < j < 8 ==> out@[j] == 0u8,
                decreases 8 - x,
            {
                let (sx, sy): (u8, u8) = match gd {
                    Gd::Up => (7 - x, 7 - y),
                    Gd::Right => (7 - y, x),
                    Gd::Left => (y, 7 - x),
                    _ => (x, y),
                };
                let on = (buf[sy as usize] >> (7 - sx)) & 1 == 1;
                let ghost before = out@;
                if on {
                    out[y as usize] = out[y as usize] | (1u8 << (7 - x));
                }
                proof {
                    assert forall|i: int| 0 <= i < 8 implies (#[trigger] lit(out@, i, y as int) <==> (if i == x { on } else { lit(before, i, y as int) })) by {
                        if on {
                            lemma_bit_set(before[y as int], x, i as u8);
                        }
                    }
                    assert forall|i: int, j: int| 0 <= i < 8 && 0 <= j < y implies (#[trigger] lit(out@, i, j) <==> lit(buf@, source_of(gd, i, j).0, source_of(gd, i, j).1)) by {
                        assert(out@[j] == before[j]);
                        assert(lit(before, i, j) == lit(out@, i, j));
                    }
                }
                x = x + 1;
            }
            y = y + 1;
        }
        self.buf = out;
    }

    /// Scrolls the buffer to upload one pixel in direction `gd`; what scrolls
    /// off is lost and dark pixels come in.
    pub fn roll(&mut self, gd: Gd)
        ensures
            final(self).buf_work == old(self).buf_work,
            final(self).gd == old(self).gd,
            final(self).buf@ == match gd {
                Gd::Up => old(self).buf@.subrange(1, 8).push(0u8),
                Gd::Down => seq![0u8] + old(self).buf@.subrange(0, 7),
                Gd::Right => old(self).buf@.map_values(|r: u8| r >> 1u8),
                Gd::Left => old(self).buf@.map_values(|r: u8| (r << 1u8) as u8),
                Gd::Flat => old(self).buf@,
            },
    {
        let b = self.buf;
        let out: [u8; 8] = match gd {
            Gd::Up => [b[1], b[2], b[3], b[4], b[5], b[6], b[7], 0],
            Gd::Down => [0, b[0], b[1], b[2], b[3], b[4], b[5], b[6]],
            Gd::Right => [b[0] >> 1, b[1] >> 1, b[2] >> 1, b[3] >> 1, b[4] >> 1, b[5] >> 1, b[6] >> 1, b[7] >> 1],
            Gd::Left => [b[0] << 1, b[1] << 1, b[2] << 1, b[3] << 1, b[4] << 1, b[5] << 1, b[6] << 1, b[7] << 1],
            Gd::Flat => b,
        };
        self.buf = out;
        assert(self.buf@ =~= match gd {
            Gd::Up => old(self).buf@.subrange(1, 8).push(0u8),
            Gd::Down => seq![0u8] + old(self).buf@.subrange(0, 7),
            Gd::Right => old(self).buf@.map_values(|r: u8| r >> 1u8),
            Gd::Left => old(self).buf@.map_values(|r: u8| (r << 1u8) as u8),
            Gd::Flat => old(self).buf@,
        });
    }
}

} // verus!
