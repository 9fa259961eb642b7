//! The hourglass timer: the top half of the display is full of sand; every
//! step the lowest grain of a random column falls four rows.

use vstd::prelude::*;

use crate::geometry::Point;
use crate::rng::{random_of, CubeRng};

verus! {

/// Rows a grain falls.
pub const FALL: i32 = 4;

/// Milliseconds between two falling grains.
pub const GRAIN_MS: u64 = 1000;

/// What one step of the hourglass did.
#[derive(Debug, Clone, Copy, PartialEq, Eq, Structural)]
pub enum TimerEvent {
    /// No sand is left.
    Done,
    /// The chosen column had no sand left and is no longer chosen.
    Exhausted(i32),
    /// A grain fell from one point to the other.
    Drop(Point, Point),
}

/// The grains still at the top and the columns still chosen from.
#[derive(Debug)]
pub struct Timers {
    pub pixels: Vec<Point>,
    pub columns: Vec<i32>,
}

/// Grain `i` is the lowest of column `rx`.
pub open spec fn lowest_in(pixels: Seq<Point>, rx: i32, i: int) -> bool {
    &&& 0 <= i < pixels.len()
    &&& pixels[i].x == rx
    &&& forall|j: int| 0 <= j < pixels.len() && pixels[j].x == rx ==> pixels[j].y <= pixels[i].y
}

impl Timers {
    /// The grains lie in the top half of the display, at most eight columns.
    pub open spec fn wf(&self) -> bool {
        &&& self.columns@.len() <= 8
        &&& forall|i: int| 0 <= i < self.pixels@.len() ==> {
            let p = #[trigger] self.pixels@[i];
            0 <= p.x < 8 && 0 <= p.y < FALL
        }
    }

    /// A full hourglass: the top four rows, row by row, and all eight columns.
    pub fn new() -> (r: Timers)
        ensures
            r.wf(),
            r.pixels@.len() == 32,
            forall|i: int| 0 <= i < 32 ==> #[trigger] r.pixels@[i] == (Point { x: (i % 8) as i32, y: (i / 8) as i32 }),
            r.columns@ == seq![0i32, 1, 2, 3, 4, 5, 6, 7],
    {
        let mut pixels: Vec<Point> = Vec::new();
        let mut y: i32 = 0;
        while y < FALL
            invariant
                0 <= y <= FALL,
                pixels@.len() == 8 * y,
                forall|i: int| 0 <= i < pixels@.len() ==> #[trigger] pixels@[i] == (Point { x: (i % 8) as i32, y: (i / 8) as i32 }),
            decreases FALL - y,
        {
            let mut x: i32 = 0;
            while x < 8
                invariant
                    0 <= x <= 8,
                    0 <= y < FALL,
                    pixels@.len() == 8 * y + x,
                    forall|i: int| 0 <= i < pixels@.len() ==> #[trigger] pixels@[i] == (Point { x: (i % 8) as i32, y: (i / 8) as i32 }),
                decreases 8 - x,
            {
                proof {
                    let n = 8 * y + x;
                    assert(n % 8 == x && n / 8 == y) by (nonlinear_arith)
                        requires n == 8 * y + x, 0 <= x < 8, 0 <= y;
                }
                pixels.push(Point { x, y });
                x = x + 1;
            }
            y = y + 1;
        }
        let columns = vec![0i32, 1, 2, 3, 4, 5, 6, 7];
        assert(columns@ =~= seq![0i32, 1, 2, 3, 4, 5, 6, 7]);
        Timers { pixels, columns }
    }

    /// The index of the lowest grain of column `rx`, if it has any.
    pub fn last(&self, rx: i32) -> (r: Option<usize>)
        ensures
            r is Some ==> lowest_in(self.pixels@, rx, r->Some_0 as int),
            r is None <==> forall|j: int| 0 <= j < self.pixels@.len() ==> self.pixels@[j].x != rx,
    {
        let mut best: Option<usize> = None;
        let mut i: usize = 0;
        while i < self.pixels.len()
            invariant
                i <= self.pixels@.len(),
                best is None ==> forall|j: int| 0 <= j < i ==> self.pixels@[j].x != rx,
                best is Some ==> {
                    let b = best->Some_0 as int;
                    &&& 0 <= b < i
                    &&& self.pixels@[b].x == rx
                    &&& forall|j: int| 0 <= j < i && self.pixels@[j].x == rx ==> self.pixels@[j].y <= self.pixels@[b].y
                },
            decreases self.pixels@.len() - i,
        {
            let p = self.pixels[i];
            if p.x == rx {
                match best {
                    Some(b) => {
                        if p.y > self.pixels[b].y {
                            best = Some(i);
                        }
                    },
                    None => best = Some(i),
                }
            }
            i = i + 1;
        }
        best
    }

    /// One step: with sand left, a column is drawn from `rng`; its lowest grain
    /// leaves the top and falls `FALL` rows, or, when the column is empty, the
    /// column is dropped from the choice.
    pub fn step(&mut self, rng: &mut CubeRng) -> (r: TimerEvent)
        requires
            old(self).wf(),
        ensures
            final(self).wf(),
            old(self).pixels@.len() == 0 || old(self).columns@.len() == 0 ==> r == TimerEvent::Done && final(self).pixels == old(self).pixels,
            old(self).pixels@.len() > 0 && old(self).columns@.len() > 0 ==> {
                let k = random_of(old(rng).0, 0, old(self).columns@.len() as u32) as int;
                let rx = old(self).columns@[k];
                match r {
                    TimerEvent::Exhausted(c) => {
                        &&& c == rx
                        &&& forall|j: int| 0 <= j < old(self).pixels@.len() ==> old(self).pixels@[j].x != rx
                        &&& final(self).columns@ == old(self).columns@.remove(k)
                        &&& final(self).pixels == old(self).pixels
                    },
                    TimerEvent::Drop(from, to) => {
                        &&& exists|i: int|
                            lowest_in(old(self).pixels@, rx, i) && from == old(self).pixels@[i]
                                && final(self).pixels@ == old(self).pixels@.remove(i)
                        &&& to == (Point { x: from.x, y: (from.y + FALL) as i32 })
                        &&& final(self).columns == old(self).columns
                    },
                    TimerEvent::Done => false,
                }
            },
    {
        if self.pixels.len() == 0 || self.columns.len() == 0 {
            return TimerEvent::Done;
        }
        let k = rng.random(0, self.columns.len() as u32) as usize;
        let rx = self.columns[k];
        match self.last(rx) {
            None => {
                self.columns.remove(k);
                TimerEvent::Exhausted(rx)
            },
            Some(i) => {
                let ghost before = self.pixels@;
                let from = self.pixels.remove(i);
                assert(lowest_in(before, rx, i as int));
                assert forall|j: int| 0 <= j < self.pixels@.len() implies {
                    let p = #[trigger] self.pixels@[j];
                    0 <= p.x < 8 && 0 <= p.y < FALL
                } by {
                    if j < i {
                        assert(self.pixels@[j] == before[j]);
                    } else {
                        assert(self.pixels@[j] == before[j + 1]);
                    }
                }
                TimerEvent::Drop(from, Point { x: from.x, y: from.y + FALL })
            },
        }
    }
}

} // verus!
