//! Facial expressions drawn on the 8 by 8 display: one byte per row, the most
//! significant bit at the left, row 0 at the top.

use vstd::prelude::*;

use crate::rng::CubeRng;

verus! {

/// The bit of a row byte that holds column `x`.
pub open spec fn col_bit(x: u8) -> u8 {
    (1u8 << (7 - x) as u8) as u8
}

/// `rows` with the pixel at column `x`, row `y` lit; unchanged off the display.
pub open spec fn with_set(rows: Seq<u8>, x: u8, y: u8) -> Seq<u8> {
    if x <= 7 && y <= 7 {
        rows.update(y as int, rows[y as int] | col_bit(x))
    } else {
        rows
    }
}

/// `rows` with the pixel at column `x`, row `y` dark; unchanged off the display.
pub open spec fn with_cleared(rows: Seq<u8>, x: u8, y: u8) -> Seq<u8> {
    if x <= 7 && y <= 7 {
        rows.update(y as int, rows[y as int] & !col_bit(x))
    } else {
        rows
    }
}

/// `rows` with every pixel of `pts` lit, in order.
pub open spec fn with_points(rows: Seq<u8>, pts: Seq<(u8, u8)>) -> Seq<u8>
    decreases pts.len(),
{
    if pts.len() == 0 {
        rows
    } else {
        with_set(with_points(rows, pts.drop_last()), pts.last().0, pts.last().1)
    }
}

/// A dark display.
pub open spec fn blank() -> Seq<u8> {
    seq![0u8, 0u8, 0u8, 0u8, 0u8, 0u8, 0u8, 0u8]
}

/// Blank eyes: two 2 by 2 blocks, four columns apart, whose lower-left corner
/// is at column `x`, `y` rows above the bottom row.
pub open spec fn slack_eyes_points(x: u8, y: u8) -> Seq<(u8, u8)> {
    let top = (6 - y) as u8;
    let bottom = (7 - y) as u8;
    seq![(x, bottom), (x, top), ((x + 1) as u8, bottom), ((x + 1) as u8, top),
        ((x + 4) as u8, bottom), ((x + 4) as u8, top), ((x + 5) as u8, bottom), ((x + 5) as u8, top)]
}

pub open spec fn close_eyes_points() -> Seq<(u8, u8)> {
    seq![(0u8, 3u8), (1, 3), (2, 3), (5, 3), (6, 3), (7, 3)]
}

pub open spec fn laugh_eyes_points() -> Seq<(u8, u8)> {
    seq![(0u8, 3u8), (1, 2), (2, 3), (5, 3), (6, 2), (7, 3)]
}

pub open spec fn angry_eyes_points() -> Seq<(u8, u8)> {
    seq![(1u8, 1u8), (1, 3), (2, 2), (3, 3), (4, 3), (5, 2), (6, 1), (6, 3)]
}

pub open spec fn slightly_closed_eyes_points() -> Seq<(u8, u8)> {
    seq![(1u8, 4u8), (1, 3), (2, 3), (0, 3), (6, 4), (5, 3), (6, 3), (7, 3)]
}

pub open spec fn slack_mouth_points() -> Seq<(u8, u8)> {
    seq![(3u8, 5u8), (4, 5)]
}

pub open spec fn powerless_mouth_points() -> Seq<(u8, u8)> {
    seq![(2u8, 6u8), (3, 6), (4, 6), (5, 6)]
}

pub open spec fn pout_mouth_points() -> Seq<(u8, u8)> {
    seq![(3u8, 6u8), (3, 5), (4, 6), (4, 5)]
}

pub open spec fn terrify_mouth_points() -> Seq<(u8, u8)> {
    seq![(2u8, 6u8), (2, 5), (3, 7), (3, 4), (4, 7), (4, 4), (5, 6), (5, 5)]
}

pub open spec fn laugh_mouth_points() -> Seq<(u8, u8)> {
    seq![(3u8, 6u8), (4, 6), (2, 5), (5, 5)]
}

pub open spec fn angry_mouth_points() -> Seq<(u8, u8)> {
    seq![(3u8, 5u8), (4, 5), (2, 6), (5, 6)]
}


/// One frame of an animation: what the display shows, how long, and the tone
/// (in Hz, 0 for none) played for 50 ms as it appears.
#[derive(Debug, Clone, Copy)]
pub struct AnimFrame {
    pub rows: [u8; 8],
    pub wait_ms: u64,
    pub tone_hz: u64,
}

/// A frame as rows, wait and tone.
pub open spec fn frame_view(f: AnimFrame) -> (Seq<u8>, u64, u64) {
    (f.rows@, f.wait_ms, f.tone_hz)
}

/// The frames of `fs` as rows, waits and tones.
pub open spec fn frames_view(fs: Seq<AnimFrame>) -> Seq<(Seq<u8>, u64, u64)> {
    fs.map_values(|f: AnimFrame| frame_view(f))
}

/// A dark display with the given eyes and mouth.
pub open spec fn face_rows(eyes: Seq<(u8, u8)>, mouth: Seq<(u8, u8)>) -> Seq<u8> {
    with_points(with_points(blank(), eyes), mouth)
}

/// One blink with eyes at `(x, y)`: closed eyes for 80 ms, then open eyes for
/// 500 ms with a 6 kHz tick, both with a laughing mouth.
pub open spec fn blink_frames(x: u8, y: u8) -> Seq<(Seq<u8>, u64, u64)> {
    seq![(face_rows(close_eyes_points(), laugh_mouth_points()), 80u64, 0u64),
        (face_rows(slack_eyes_points(x, y), laugh_mouth_points()), 500u64, 6000u64)]
}

/// `s` repeated `n` times.
pub open spec fn repeated<A>(s: Seq<A>, n: nat) -> Seq<A>
    decreases n,
{
    if n == 0 {
        seq![]
    } else {
        repeated(s, (n - 1) as nat) + s
    }
}

proof fn lemma_repeated_len<A>(s: Seq<A>, n: nat)
    ensures
        repeated(s, n).len() == n * s.len(),
    decreases n,
{
    if n > 0 {
        lemma_repeated_len(s, (n - 1) as nat);
        let m = (n - 1) as nat;
        assert(m * s.len() + s.len() == n * s.len()) by (nonlinear_arith)
            requires m + 1 == n;
    } else {
        assert(0 * s.len() == 0);
    }
}

/// The opening of the falling-asleep animation: looking around, then a smile.
pub open spec fn dormancy_opening() -> Seq<(Seq<u8>, u64, u64)> {
    seq![(face_rows(slack_eyes_points(1, 4), slack_mouth_points()), 500u64, 0u64),
        (face_rows(slack_eyes_points(0, 4), slack_mouth_points()), 400u64, 6000u64),
        (face_rows(slack_eyes_points(1, 4), slack_mouth_points()), 10u64, 0u64),
        (face_rows(slack_eyes_points(2, 4), slack_mouth_points()), 500u64, 6000u64),
        (face_rows(slack_eyes_points(1, 4), slack_mouth_points()), 500u64, 0u64),
        (face_rows(slack_eyes_points(1, 4), laugh_mouth_points()), 1000u64, 0u64)]
}

/// The waking animation: closed eyes for 100 ms with an 8 kHz tick, then open
/// eyes for 700 ms, twice.
pub open spec fn wakeup_frames() -> Seq<(Seq<u8>, u64, u64)> {
    repeated(seq![(face_rows(close_eyes_points(), slack_mouth_points()), 100u64, 8000u64),
        (face_rows(slack_eyes_points(1, 4), slack_mouth_points()), 700u64, 0u64)], 2)
}

/// The new-record animation: three terrified blinks, then a long stare and a smile.
pub open spec fn break_record_frames() -> Seq<(Seq<u8>, u64, u64)> {
    repeated(seq![(face_rows(slack_eyes_points(1, 4), terrify_mouth_points()), 500u64, 0u64),
        (face_rows(close_eyes_points(), terrify_mouth_points()), 100u64, 8000u64)], 3)
        + seq![(face_rows(slack_eyes_points(1, 4), terrify_mouth_points()), 700u64, 0u64),
        (face_rows(slack_eyes_points(1, 4), laugh_mouth_points()), 1000u64, 0u64)]
}

/// The face shown on the display.
#[derive(Debug, Clone, Copy)]
pub struct Face {
    pub data: [u8; 8],
}

impl Face {
    /// A dark face.
    pub fn new() -> (r: Face)
        ensures
            r.data@ == blank(),
    {
        let r = Face { data: [0u8; 8] };
        assert(r.data@ =~= blank());
        r
    }

    /// Lights the pixel at column `x`, row `y` (row 0 at the top); does nothing
    /// off the display.
    pub fn set_work(&mut self, x: u8, y: u8)
        ensures
            final(self).data@ == with_set(old(self).data@, x, y),
    {
        if x > 7 || y > 7 {
            return;
        }
        let row = self.data[y as usize] | (1u8 << (7 - x));
        self.data[y as usize] = row;
        assert(self.data@ =~= with_set(old(self).data@, x, y));
    }

    /// Darkens the pixel at column `x`, row `y` (row 0 at the top); does nothing
    /// off the display.
    pub fn clear_work(&mut self, x: u8, y: u8)
        ensures
            final(self).data@ == with_cleared(old(self).data@, x, y),
    {
        if x > 7 || y > 7 {
            return;
        }
        let row = self.data[y as usize] & !(1u8 << (7 - x));
        self.data[y as usize] = row;
        assert(self.data@ =~= with_cleared(old(self).data@, x, y));
    }

    /// Lights (`state` 1) or darkens (`state` 0) the pixel at column `x`, `y`
    /// rows above the bottom row; any other state, or a pixel off the display,
    /// changes nothing.
    pub fn work(&mut self, x: u8, y: u8, state: u8)
        ensures
            final(self).data@ == if y > 7 {
                old(self).data@
            } else if state == 1 {
                with_set(old(self).data@, x, (7 - y) as u8)
            } else if state == 0 {
                with_cleared(old(self).data@, x, (7 - y) as u8)
            } else {
                old(self).data@
            },
    {
        if x > 7 || y > 7 {
            return;
        }
        if state == 1 {
            self.set_work(x, 7 - y);
        } else if state == 0 {
            self.clear_work(x, 7 - y);
        }
    }

    /// Darkens the whole display.
    pub fn clear(&mut self)
        ensures
            final(self).data@ == blank(),
    {
        self.data = [0u8; 8];
        assert(self.data@ =~= blank());
    }

    /// Lights every pixel of `pts`, in order.
    fn light(&mut self, pts: &[(u8, u8)])
        ensures
            final(self).data@ == with_points(old(self).data@, pts@),
    {
        let mut i: usize = 0;
        while i < pts.len()
            invariant
                i <= pts@.len(),
                self.data@ == with_points(old(self).data@, pts@.subrange(0, i as int)),
            decreases pts@.len() - i,
        {
            proof {
                assert(pts@.subrange(0, i + 1).drop_last() =~= pts@.subrange(0, i as int));
            }
            let p = pts[i];
            self.set_work(p.0, p.1);
            i = i + 1;
        }
        assert(pts@.subrange(0, pts@.len() as int) =~= pts@);
    }

    /// Blank eyes whose lower-left corner is at column `x`, `y` rows above the
    /// bottom row.
    pub fn slack_eyes(&mut self, x: u8, y: u8)
        requires
            x <= 250,
            y <= 6,
        ensures
            final(self).data@ == with_points(old(self).data@, slack_eyes_points(x, y)),
    {
        let pts = [(x, 7 - y), (x, 6 - y), (x + 1, 7 - y), (x + 1, 6 - y), (x + 4, 7 - y), (x + 4, 6 - y), (x + 5, 7 - y), (x + 5, 6 - y)];
        assert(pts@ =~= slack_eyes_points(x, y));
        self.light(&pts);
    }

    /// Closed eyes: two flat lines.
    pub fn close_eyes(&mut self)
        ensures
            final(self).data@ == with_points(old(self).data@, close_eyes_points()),
    {
        let pts = [(0u8, 3u8), (1, 3), (2, 3), (5, 3), (6, 3), (7, 3)];
        assert(pts@ =~= close_eyes_points());
        self.light(&pts);
    }

    /// Laughing eyes: two arches.
    pub fn laugh_eyes(&mut self)
        ensures
            final(self).data@ == with_points(old(self).data@, laugh_eyes_points()),
    {
        let pts = [(0u8, 3u8), (1, 2), (2, 3), (5, 3), (6, 2), (7, 3)];
        assert(pts@ =~= laugh_eyes_points());
        self.light(&pts);
    }

    /// Angry eyes: slanted towards the middle.
    pub fn angry_eyes(&mut self)
        ensures
            final(self).data@ == with_points(old(self).data@, angry_eyes_points()),
    {
        let pts = [(1u8, 1u8), (1, 3), (2, 2), (3, 3), (4, 3), (5, 2), (6, 1), (6, 3)];
        assert(pts@ =~= angry_eyes_points());
        self.light(&pts);
    }

    /// Half-closed eyes.
    pub fn slightly_closed_eyes(&mut self)
        ensures
            final(self).data@ == with_points(old(self).data@, slightly_closed_eyes_points()),
    {
        let pts = [(1u8, 4u8), (1, 3), (2, 3), (0, 3), (6, 4), (5, 3), (6, 3), (7, 3)];
        assert(pts@ =~= slightly_closed_eyes_points());
        self.light(&pts);
    }

    /// A small blank mouth.
    pub fn slack_mouth(&mut self)
        ensures
            final(self).data@ == with_points(old(self).data@, slack_mouth_points()),
    {
        let pts = [(3u8, 5u8), (4, 5)];
        assert(pts@ =~= slack_mouth_points());
        self.light(&pts);
    }

    /// A flat, resigned mouth.
    pub fn powerless_mouth(&mut self)
        ensures
            final(self).data@ == with_points(old(self).data@, powerless_mouth_points()),
    {
        let pts = [(2u8, 6u8), (3, 6), (4, 6), (5, 6)];
        assert(pts@ =~= powerless_mouth_points());
        self.light(&pts);
    }

    /// A pouting mouth.
    pub fn pout_mouth(&mut self)
        ensures
            final(self).data@ == with_points(old(self).data@, pout_mouth_points()),
    {
        let pts = [(3u8, 6u8), (3, 5), (4, 6), (4, 5)];
        assert(pts@ =~= pout_mouth_points());
        self.light(&pts);
    }

    /// A terrified, wide open mouth.
    pub fn terrify_mouth(&mut self)
        ensures
            final(self).data@ == with_points(old(self).data@, terrify_mouth_points()),
    {
        let pts = [(2u8, 6u8), (2, 5), (3, 7), (3, 4), (4, 7), (4, 4), (5, 6), (5, 5)];
        assert(pts@ =~= terrify_mouth_points());
        self.light(&pts);
    }

    /// A laughing mouth.
    pub fn laugh_mouth(&mut self)
        ensures
            final(self).data@ == with_points(old(self).data@, laugh_mouth_points()),
    {
        let pts = [(3u8, 6u8), (4, 6), (2, 5), (5, 5)];
        assert(pts@ =~= laugh_mouth_points());
        self.light(&pts);
    }

    /// An angry mouth.
    pub fn angry_mouth(&mut self)
        ensures
            final(self).data@ == with_points(old(self).data@, angry_mouth_points()),
    {
        let pts = [(3u8, 5u8), (4, 5), (2, 6), (5, 6)];
        assert(pts@ =~= angry_mouth_points());
        self.light(&pts);
    }

    /// A blank face: blank eyes at `(x, y)` and a small mouth, on a dark display.
    pub fn slack_face(&mut self, x: u8, y: u8)
        requires
            x <= 250,
            y <= 6,
        ensures
            final(self).data@ == with_points(with_points(blank(), slack_eyes_points(x, y)), slack_mouth_points()),
    {
        self.clear();
        self.slack_eyes(x, y);
        self.slack_mouth();
    }

    /// A pouting face: blank eyes at `(x, y)` and a pouting mouth, on a dark display.
    pub fn pout_face(&mut self, x: u8, y: u8)
        requires
            x <= 250,
            y <= 6,
        ensures
            final(self).data@ == with_points(with_points(blank(), slack_eyes_points(x, y)), pout_mouth_points()),
    {
        self.clear();
        self.slack_eyes(x, y);
        self.pout_mouth();
    }

    /// The face shown when the device wakes: it ends on blank eyes at `(1, 4)`
    /// and a small mouth.
    pub fn rouse_face(&mut self)
        ensures
            final(self).data@ == with_points(with_points(blank(), slack_eyes_points(1, 4)), slack_mouth_points()),
    {
        self.clear();
        self.close_eyes();
        self.slack_mouth();
        self.clear();
        self.slack_eyes(1, 4);
        self.slack_mouth();
    }

    /// Appends the face on display as a frame.
    fn push_frame(&self, out: &mut Vec<AnimFrame>, wait_ms: u64, tone_hz: u64)
        ensures
            final(out)@ == old(out)@.push(AnimFrame { rows: self.data, wait_ms, tone_hz }),
            frames_view(final(out)@) == frames_view(old(out)@).push((self.data@, wait_ms, tone_hz)),
    {
        out.push(AnimFrame { rows: self.data, wait_ms, tone_hz });
        assert(frames_view(out@) =~= frames_view(old(out)@).push((self.data@, wait_ms, tone_hz)));
    }

    /// Appends one blink with eyes at `(x, y)` to `out`.
    pub fn blink_animate(&mut self, x: u8, y: u8, out: &mut Vec<AnimFrame>)
        requires
            x <= 250,
            y <= 6,
        ensures
            frames_view(final(out)@) == frames_view(old(out)@) + blink_frames(x, y),
            final(self).data@ == face_rows(slack_eyes_points(x, y), laugh_mouth_points()),
    {
        self.clear();
        self.close_eyes();
        self.laugh_mouth();
        self.push_frame(out, 80, 0);
        self.clear();
        self.slack_eyes(x, y);
        self.laugh_mouth();
        self.push_frame(out, 500, 6000);
        assert(frames_view(out@) =~= frames_view(old(out)@) + blink_frames(x, y));
    }

    /// Appends `n` blinks with eyes at `(1, 4)` to `out`.
    fn blinks(&mut self, n: usize, out: &mut Vec<AnimFrame>)
        ensures
            frames_view(final(out)@) == frames_view(old(out)@) + repeated(blink_frames(1, 4), n as nat),
    {
        let mut i: usize = 0;
        while i < n
            invariant
                i <= n,
                frames_view(out@) == frames_view(old(out)@) + repeated(blink_frames(1, 4), i as nat),
            decreases n - i,
        {
            self.blink_animate(1, 4, out);
            assert(frames_view(out@) =~= frames_view(old(out)@) + repeated(blink_frames(1, 4), (i + 1) as nat));
            i = i + 1;
        }
    }


    /// Appends six rounds of a blank face for 100 ms and a pouting face for
    /// 200 ms, each with a tone drawn from `rng` between 3 and 9 kHz.
    fn chatter(&mut self, rng: &mut CubeRng, out: &mut Vec<AnimFrame>)
        ensures
            final(out)@.len() == old(out)@.len() + 12,
            final(out)@.subrange(0, old(out)@.len() as int) == old(out)@,
            forall|k: int| 0 <= k < 6 ==> {
                &&& (#[trigger] final(out)@[old(out)@.len() + 2 * k]).rows@ == face_rows(slack_eyes_points(1, 4), slack_mouth_points())
                &&& final(out)@[old(out)@.len() + 2 * k].wait_ms == 100
                &&& 3000 <= final(out)@[old(out)@.len() + 2 * k].tone_hz <= 9000
                &&& final(out)@[old(out)@.len() + 2 * k + 1].rows@ == face_rows(slack_eyes_points(1, 4), pout_mouth_points())
                &&& final(out)@[old(out)@.len() + 2 * k + 1].wait_ms == 200
                &&& 3000 <= final(out)@[old(out)@.len() + 2 * k + 1].tone_hz <= 9000
            },
    {
        let ghost n = out@.len() as int;
        let mut k: usize = 0;
        while k < 6
            invariant
                k <= 6,
                n == old(out)@.len(),
                out@.len() == n + 2 * k,
                out@.subrange(0, n) == old(out)@,
                forall|j: int| 0 <= j < k ==> {
                    &&& (#[trigger] out@[n + 2 * j]).rows@ == face_rows(slack_eyes_points(1, 4), slack_mouth_points())
                    &&& out@[n + 2 * j].wait_ms == 100
                    &&& 3000 <= out@[n + 2 * j].tone_hz <= 9000
                    &&& out@[n + 2 * j + 1].rows@ == face_rows(slack_eyes_points(1, 4), pout_mouth_points())
                    &&& out@[n + 2 * j + 1].wait_ms == 200
                    &&& 3000 <= out@[n + 2 * j + 1].tone_hz <= 9000
                },
            decreases 6 - k,
        {
            let ghost before = out@;
            let t1 = rng.random_range(3000, 9001) as u64;
            self.slack_face(1, 4);
            self.push_frame(out, 100, t1);
            let t2 = rng.random_range(3000, 9001) as u64;
            self.pout_face(1, 4);
            self.push_frame(out, 200, t2);
            proof {
                assert(out@.subrange(0, n) =~= before.subrange(0, n));
                assert forall|j: int| 0 <= j < k implies #[trigger] out@[n + 2 * j] == before[n + 2 * j] && out@[n + 2 * j + 1] == before[n + 2 * j + 1] by {}
            }
            k = k + 1;
        }
    }

    /// The falling-asleep animation: looking around and smiling, nine blinks,
    /// six rounds of a blank and a pouting face with tones drawn from `rng`
    /// between 3 and 9 kHz, and four more blinks.
    pub fn dormancy_animate(&mut self, rng: &mut CubeRng) -> (r: Vec<AnimFrame>)
        ensures
            r@.len() == 6 + 18 + 12 + 8,
            frames_view(r@).subrange(0, 6) == dormancy_opening(),
            frames_view(r@).subrange(6, 24) == repeated(blink_frames(1, 4), 9),
            forall|k: int| 0 <= k < 6 ==> {
                &&& (#[trigger] r@[24 + 2 * k]).rows@ == face_rows(slack_eyes_points(1, 4), slack_mouth_points())
                &&& r@[24 + 2 * k].wait_ms == 100
                &&& 3000 <= r@[24 + 2 * k].tone_hz <= 9000
                &&& r@[25 + 2 * k].rows@ == face_rows(slack_eyes_points(1, 4), pout_mouth_points())
                &&& r@[25 + 2 * k].wait_ms == 200
                &&& 3000 <= r@[25 + 2 * k].tone_hz <= 9000
            },
            frames_view(r@).subrange(36, 44) == repeated(blink_frames(1, 4), 4),
    {
        let mut out: Vec<AnimFrame> = Vec::new();
        self.slack_face(1, 4);
        self.push_frame(&mut out, 500, 0);
        self.slack_face(0, 4);
        self.push_frame(&mut out, 400, 6000);
        self.slack_face(1, 4);
        self.push_frame(&mut out, 10, 0);
        self.slack_face(2, 4);
        self.push_frame(&mut out, 500, 6000);
        self.slack_face(1, 4);
        self.push_frame(&mut out, 500, 0);
        self.clear();
        self.slack_eyes(1, 4);
        self.laugh_mouth();
        self.push_frame(&mut out, 1000, 0);
        assert(frames_view(out@) =~= dormancy_opening());
        self.blinks(9, &mut out);
        proof {
            reveal_with_fuel(repeated, 10);
        }
        let ghost blinked = out@;
        proof {
            lemma_repeated_len(blink_frames(1, 4), 9);
            assert(frames_view(blinked).len() == 24);
        }
        assert(frames_view(blinked).subrange(0, 6) =~= dormancy_opening());
        assert(frames_view(blinked).subrange(6, 24) =~= repeated(blink_frames(1, 4), 9));
        self.chatter(rng, &mut out);
        let ghost mid = out@;
        self.blinks(4, &mut out);
        proof {
            assert(mid.subrange(0, 24) == blinked);
            lemma_repeated_len(blink_frames(1, 4), 4);
            assert(frames_view(out@).subrange(0, 36) =~= frames_view(mid));
            assert(frames_view(out@).subrange(36, 44) =~= repeated(blink_frames(1, 4), 4));
            assert(frames_view(out@).subrange(0, 6) =~= frames_view(blinked).subrange(0, 6));
            assert(frames_view(out@).subrange(6, 24) =~= frames_view(blinked).subrange(6, 24));
            assert forall|k: int| 0 <= k < 6 implies #[trigger] frame_view(out@[24 + 2 * k]) == frame_view(mid[24 + 2 * k]) && frame_view(out@[25 + 2 * k]) == frame_view(mid[25 + 2 * k]) by {
                assert(frames_view(out@)[24 + 2 * k] == frames_view(mid)[24 + 2 * k]);
                assert(frames_view(out@)[25 + 2 * k] == frames_view(mid)[25 + 2 * k]);
            }
            assert forall|k: int| 0 <= k < 6 implies {
                &&& (#[trigger] out@[24 + 2 * k]).rows@ == face_rows(slack_eyes_points(1, 4), slack_mouth_points())
                &&& out@[24 + 2 * k].wait_ms == 100
                &&& 3000 <= out@[24 + 2 * k].tone_hz <= 9000
                &&& out@[25 + 2 * k].rows@ == face_rows(slack_eyes_points(1, 4), pout_mouth_points())
                &&& out@[25 + 2 * k].wait_ms == 200
                &&& 3000 <= out@[25 + 2 * k].tone_hz <= 9000
            } by {
                assert(blinked.len() + 2 * k == 24 + 2 * k);
                assert(mid[blinked.len() + 2 * k].rows@ == face_rows(slack_eyes_points(1, 4), slack_mouth_points()));
                assert(frame_view(out@[24 + 2 * k]) == frame_view(mid[24 + 2 * k]));
                assert(frame_view(out@[25 + 2 * k]) == frame_view(mid[25 + 2 * k]));
            }
        }
        out
    }

    /// The waking animation.
    pub fn wakeup_animate(&mut self) -> (r: Vec<AnimFrame>)
        ensures
            frames_view(r@) == wakeup_frames(),
    {
        let mut out: Vec<AnimFrame> = Vec::new();
        let mut i: usize = 0;
        let ghost unit = seq![(face_rows(close_eyes_points(), slack_mouth_points()), 100u64, 8000u64),
            (face_rows(slack_eyes_points(1, 4), slack_mouth_points()), 700u64, 0u64)];
        while i < 2
            invariant
                i <= 2,
                unit == seq![(face_rows(close_eyes_points(), slack_mouth_points()), 100u64, 8000u64),
                    (face_rows(slack_eyes_points(1, 4), slack_mouth_points()), 700u64, 0u64)],
                frames_view(out@) == repeated(unit, i as nat),
            decreases 2 - i,
        {
            self.clear();
            self.close_eyes();
            self.slack_mouth();
            self.push_frame(&mut out, 100, 8000);
            self.clear();
            self.slack_eyes(1, 4);
            self.slack_mouth();
            self.push_frame(&mut out, 700, 0);
            assert(frames_view(out@) =~= repeated(unit, (i + 1) as nat));
            i = i + 1;
        }
        out
    }

    /// The new-record animation.
    pub fn break_record_animate(&mut self) -> (r: Vec<AnimFrame>)
        ensures
            frames_view(r@) == break_record_frames(),
    {
        let mut out: Vec<AnimFrame> = Vec::new();
        let mut i: usize = 0;
        let ghost unit = seq![(face_rows(slack_eyes_points(1, 4), terrify_mouth_points()), 500u64, 0u64),
            (face_rows(close_eyes_points(), terrify_mouth_points()), 100u64, 8000u64)];
        while i < 3
            invariant
                i <= 3,
                unit == seq![(face_rows(slack_eyes_points(1, 4), terrify_mouth_points()), 500u64, 0u64),
                    (face_rows(close_eyes_points(), terrify_mouth_points()), 100u64, 8000u64)],
                frames_view(out@) == repeated(unit, i as nat),
            decreases 3 - i,
        {
            self.clear();
            self.slack_eyes(1, 4);
            self.terrify_mouth();
            self.push_frame(&mut out, 500, 0);
            self.clear();
            self.close_eyes();
            self.terrify_mouth();
            self.push_frame(&mut out, 100, 8000);
            assert(frames_view(out@) =~= repeated(unit, (i + 1) as nat));
            i = i + 1;
        }
        self.clear();
        self.slack_eyes(1, 4);
        self.terrify_mouth();
        self.push_frame(&mut out, 700, 0);
        self.clear();
        self.slack_eyes(1, 4);
        self.laugh_mouth();
        self.push_frame(&mut out, 1000, 0);
        assert(frames_view(out@) =~= break_record_frames());
        out
    }
}

} // verus!
