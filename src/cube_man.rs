//! The climbing game: platforms scroll up the 8 by 8 display, the cube man
//! walks left and right, rides platforms and falls between them; each kind of
//! platform has its own effect.

use vstd::prelude::*;

use crate::geometry::{Gd, Point};
use crate::rng::{lcg_next, range_of, CubeRng};

verus! {

/// Side of the square field, in LEDs.
pub const FIELD: i32 = 8;

/// Number of platform rows kept on the field.
pub const FLOOR_ROWS: usize = 8;

/// Milliseconds between two ticks.
pub const CUBE_MAN_TICK_MS: u64 = 230;

/// Milliseconds a fragile platform holds before it breaks.
pub const FRAGILE_MS: u64 = 500;

/// Colour of the cube man (CSS orange red).
pub const CUBE_MAN_COLOR: u32 = 0xFF4500;

/// Way a conveyor turns.
#[derive(Debug, Clone, Copy, PartialEq, Eq, Structural)]
pub enum ConveyorDir {
    /// Carries to the right.
    Clockwise,
    /// Carries to the left.
    Counterclockwise,
}

/// The effect of a platform.
#[derive(Debug, Clone, Copy, PartialEq, Eq, Structural)]
pub enum FloorType {
    /// No effect.
    Normal,
    /// Breaks under the man after the given number of milliseconds.
    Fragile(u64),
    /// Carries the man one unit per tick while he does not walk.
    Conveyor(ConveyorDir),
    /// Throws the man up by the given height.
    Spring(u8),
}

/// The colour a platform of this kind is drawn in.
pub open spec fn floor_color(kind: FloorType) -> u32 {
    match kind {
        FloorType::Normal => 0xFFFFFF,
        FloorType::Fragile(_) => 0xFF0000,
        FloorType::Conveyor(_) => 0x00FF00,
        FloorType::Spring(_) => 0xFFFF00,
    }
}

/// A platform: its kind and the points it covers.
#[derive(Debug)]
pub struct Floor {
    pub kind: FloorType,
    pub data: Vec<Point>,
}

/// `f` holds up a man standing at `p`: a point of `f` lies one row below `p`,
/// and `p` lies between the leftmost and the rightmost point of `f`.
pub open spec fn supports(kind_points: Seq<Point>, p: Point) -> bool {
    &&& exists|i: int| 0 <= i < kind_points.len() && (#[trigger] kind_points[i]).y == p.y + 1
    &&& exists|i: int| 0 <= i < kind_points.len() && (#[trigger] kind_points[i]).x <= p.x
    &&& exists|i: int| 0 <= i < kind_points.len() && (#[trigger] kind_points[i]).x >= p.x
}

/// The index of the first platform that holds up a man at `p`, if any.
pub open spec fn first_support(floors: Seq<Option<Floor>>, p: Point) -> Option<int>
    decreases floors.len(),
{
    if floors.len() == 0 {
        None
    } else {
        match first_support(floors.drop_last(), p) {
            Some(i) => Some(i),
            None => match floors.last() {
                Some(f) => if supports(f.data@, p) {
                    Some(floors.len() - 1)
                } else {
                    None
                },
                None => None,
            },
        }
    }
}

/// Where the man at `p` ends up after landing on a platform of kind `kind`
/// while the tilt is `gd`: a conveyor carries him one unit along its
/// direction unless he walks or would leave the field, a spring throws him up.
pub open spec fn effect_pos(p: Point, kind: FloorType, gd: Gd) -> Point {
    match kind {
        FloorType::Conveyor(cd) => if gd == Gd::Left || gd == Gd::Right {
            p
        } else {
            match cd {
                ConveyorDir::Clockwise => if p.x + 1 < FIELD {
                    Point { x: (p.x + 1) as i32, y: p.y }
                } else {
                    p
                },
                ConveyorDir::Counterclockwise => if p.x - 1 >= 0 {
                    Point { x: (p.x - 1) as i32, y: p.y }
                } else {
                    p
                },
            }
        },
        FloorType::Spring(h) => Point { x: p.x, y: (p.y - h) as i32 },
        _ => p,
    }
}

/// The colour a platform of this kind is drawn in.
pub fn color_of(kind: FloorType) -> (r: u32)
    ensures
        r == floor_color(kind),
{
    match kind {
        FloorType::Normal => 0xFFFFFF,
        FloorType::Fragile(_) => 0xFF0000,
        FloorType::Conveyor(_) => 0x00FF00,
        FloorType::Spring(_) => 0xFFFF00,
    }
}

/// Whether the platform holds up a man at `p`.
fn holds_up(f: &Floor, p: Point) -> (r: bool)
    requires
        p.y < i32::MAX,
    ensures
        r == supports(f.data@, p),
{
    let mut below = false;
    let mut left = false;
    let mut right = false;
    let mut i: usize = 0;
    while i < f.data.len()
        invariant
            p.y < i32::MAX,
            i <= f.data@.len(),
            below == exists|j: int| 0 <= j < i && (#[trigger] f.data@[j]).y == p.y + 1,
            left == exists|j: int| 0 <= j < i && (#[trigger] f.data@[j]).x <= p.x,
            right == exists|j: int| 0 <= j < i && (#[trigger] f.data@[j]).x >= p.x,
        decreases f.data@.len() - i,
    {
        let q = f.data[i];
        if q.y == p.y + 1 {
            below = true;
        }
        if q.x <= p.x {
            left = true;
        }
        if q.x >= p.x {
            right = true;
        }
        proof {
            assert(f.data@[i as int] == q);
        }
        i = i + 1;
    }
    below && left && right
}

/// The index of the first platform holding up a man at `p`.
fn find_support(floors: &Vec<Option<Floor>>, p: Point) -> (r: Option<usize>)
    requires
        p.y < i32::MAX,
    ensures
        r is Some <==> first_support(floors@, p) is Some,
        r is Some ==> r->Some_0 as int == first_support(floors@, p)->Some_0,
{
    let mut i: usize = 0;
    while i < floors.len()
        invariant
            p.y < i32::MAX,
            i <= floors@.len(),
            first_support(floors@.subrange(0, i as int), p) is None,
        decreases floors@.len() - i,
    {
        proof {
            assert(floors@.subrange(0, i + 1).drop_last() =~= floors@.subrange(0, i as int));
        }
        let found = match &floors[i] {
            Some(f) => holds_up(f, p),
            None => false,
        };
        if found {
            proof {
                lemma_first_support_prefix(floors@, p, i as int + 1);
            }
            return Some(i);
        }
        i = i + 1;
    }
    proof {
        assert(floors@.subrange(0, floors@.len() as int) =~= floors@);
    }
    None
}

/// The first support is a slot that holds a platform holding up the man.
proof fn lemma_first_support_valid(floors: Seq<Option<Floor>>, p: Point)
    requires
        first_support(floors, p) is Some,
    ensures
        0 <= first_support(floors, p)->Some_0 < floors.len(),
        floors[first_support(floors, p)->Some_0] is Some,
        supports(floors[first_support(floors, p)->Some_0]->Some_0.data@, p),
    decreases floors.len(),
{
    if first_support(floors.drop_last(), p) is Some {
        lemma_first_support_valid(floors.drop_last(), p);
    }
}

/// A support found in a prefix is the first support of the whole list.
proof fn lemma_first_support_prefix(floors: Seq<Option<Floor>>, p: Point, n: int)
    requires
        0 <= n <= floors.len(),
        first_support(floors.subrange(0, n), p) is Some,
    ensures
        first_support(floors, p) == first_support(floors.subrange(0, n), p),
    decreases floors.len() - n,
{
    if n < floors.len() {
        assert(floors.subrange(0, n + 1).drop_last() =~= floors.subrange(0, n));
        lemma_first_support_prefix(floors, p, n + 1);
    } else {
        assert(floors.subrange(0, n) =~= floors);
    }
}

/// A platform as its kind and points.
pub open spec fn floor_view(f: Option<Floor>) -> Option<(FloorType, Seq<Point>)> {
    match f {
        Some(fl) => Some((fl.kind, fl.data@)),
        None => None,
    }
}

/// `pts` moved one row up.
pub open spec fn raised(pts: Seq<Point>) -> Seq<Point> {
    pts.map_values(|q: Point| Point { x: q.x, y: (q.y - 1) as i32 })
}

/// A platform view moved one row up.
pub open spec fn raised_view(f: Option<(FloorType, Seq<Point>)>) -> Option<(FloorType, Seq<Point>)> {
    match f {
        Some(v) => Some((v.0, raised(v.1))),
        None => None,
    }
}

/// The kind of platform generated at a depth: normal near the top, fragile
/// further down, conveyors below depth 150.
pub open spec fn level_kind(level: usize) -> FloorType {
    if level <= 5 {
        FloorType::Normal
    } else if level <= 150 {
        FloorType::Fragile(FRAGILE_MS)
    } else {
        FloorType::Conveyor(ConveyorDir::Clockwise)
    }
}

/// `pts` is a row of `n` points starting at column 0 on row `y`.
pub open spec fn platform_row(pts: Seq<Point>, n: int, y: i32) -> bool {
    &&& pts.len() == n
    &&& forall|i: int| 0 <= i < n ==> #[trigger] pts[i] == Point { x: i as i32, y }
}

/// Every point of the platform in slot `i` lies in columns `[0, 8)` on row `i`.
pub open spec fn floors_rowed(floors: Seq<Option<Floor>>) -> bool {
    forall|i: int, j: int|
        0 <= i < floors.len() && floors[i] is Some && 0 <= j < floors[i]->Some_0.data@.len() ==> {
            let q = #[trigger] floors[i]->Some_0.data@[j];
            0 <= q.x < FIELD && q.y == i
        }
}

/// The pixels of a platform slot: its points in its colour.
pub open spec fn slot_pixels(f: Option<Floor>) -> Seq<(Point, u32)> {
    match f {
        Some(fl) => fl.data@.map_values(|p: Point| (p, floor_color(fl.kind))),
        None => seq![],
    }
}

/// The pixels of all platforms, slot by slot.
pub open spec fn floor_pixels(floors: Seq<Option<Floor>>) -> Seq<(Point, u32)>
    decreases floors.len(),
{
    if floors.len() == 0 {
        seq![]
    } else {
        floor_pixels(floors.drop_last()) + slot_pixels(floors.last())
    }
}

/// Draws platforms.
#[derive(Debug)]
pub struct FloorGen;

impl FloorGen {
    /// The empty field: a row of `FLOOR_ROWS` empty slots.
    pub fn init() -> (r: Vec<Option<Floor>>)
        ensures
            r@.len() == FLOOR_ROWS,
            forall|i: int| 0 <= i < FLOOR_ROWS ==> #[trigger] r@[i] is None,
    {
        let mut floors: Vec<Option<Floor>> = Vec::new();
        let mut i: usize = 0;
        while i < FLOOR_ROWS
            invariant
                i <= FLOOR_ROWS,
                floors@.len() == i,
                forall|j: int| 0 <= j < i ==> #[trigger] floors@[j] is None,
            decreases FLOOR_ROWS - i,
        {
            floors.push(None);
            i = i + 1;
        }
        floors
    }

    /// A platform on row `y`, or none: three draws in ten give a platform of
    /// three to five points starting at column 0, of the kind `level_kind`
    /// gives for `level`.
    pub fn floor(level: usize, y: i32, rng: &mut CubeRng) -> (r: Option<Floor>)
        ensures
            (r is None) == (range_of(old(rng).0, 1, 11) < 7),
            r is Some ==> {
                let f = r->Some_0;
                &&& f.kind == level_kind(level)
                &&& platform_row(f.data@, range_of(lcg_next(old(rng).0), 3, 6) as int, y)
            },
    {
        let per = rng.random_range(1, 11);
        if per < 7 {
            return None;
        }
        let len = rng.random_range(3, 6);
        let mut data: Vec<Point> = Vec::new();
        let mut i: usize = 0;
        while i < len
            invariant
                i <= len,
                len < 6,
                platform_row(data@, i as int, y),
            decreases len - i,
        {
            data.push(Point { x: i as i32, y });
            i = i + 1;
        }
        let kind = if level <= 5 {
            FloorType::Normal
        } else if level <= 150 {
            FloorType::Fragile(FRAGILE_MS)
        } else {
            FloorType::Conveyor(ConveyorDir::Clockwise)
        };
        Some(Floor { kind, data })
    }
}

/// The climbing man.
#[derive(Debug, Clone, Copy, PartialEq, Eq)]
pub struct CubeMan {
    pub pos: Point,
    pub color: u32,
}

/// `p` moved one column in the walking direction of `gd`; other tilts leave it.
pub open spec fn walked(p: Point, gd: Gd) -> Point {
    match gd {
        Gd::Right => Point { x: (p.x + 1) as i32, y: p.y },
        Gd::Left => Point { x: (p.x - 1) as i32, y: p.y },
        _ => p,
    }
}

impl CubeMan {
    pub fn new(pos: Point) -> (r: CubeMan)
        ensures
            r.pos == pos,
            r.color == CUBE_MAN_COLOR,
    {
        CubeMan { pos, color: CUBE_MAN_COLOR }
    }

    /// Where the man would be after walking in direction `gd`.
    pub fn next_pos(&self, gd: Gd) -> (r: Point)
        requires
            i32::MIN < self.pos.x < i32::MAX,
        ensures
            r == walked(self.pos, gd),
    {
        match gd {
            Gd::Right => Point { x: self.pos.x + 1, y: self.pos.y },
            Gd::Left => Point { x: self.pos.x - 1, y: self.pos.y },
            _ => self.pos,
        }
    }
}

/// What one tick did to the man.
#[derive(Debug, Clone, Copy, PartialEq, Eq, Structural)]
pub enum ManEvent {
    /// He left the field at the top or the bottom: the game is over.
    Ended,
    /// He walked into the side of the field and stayed.
    Blocked,
    /// He stands on nothing and fell one row.
    Fell,
    /// He rides a platform of this kind up one row.
    Landed(FloorType),
}

/// A climbing session.
#[derive(Debug)]
pub struct CubeManGame {
    pub man: CubeMan,
    pub floors: Vec<Option<Floor>>,
    pub depth: usize,
    pub score: u8,
    pub highest: u8,
    pub game_over: bool,
    /// Milliseconds between two ticks.
    pub waiting_time: u64,
}

impl CubeManGame {
    /// The session's invariant: `FLOOR_ROWS` platform slots on the field, and a
    /// man inside its columns, no more than a spring's throw above it and at
    /// most one row below it.
    pub open spec fn wf(&self) -> bool {
        &&& self.floors@.len() == FLOOR_ROWS
        &&& floors_rowed(self.floors@)
        &&& 0 <= self.man.pos.x < FIELD
        &&& -512 <= self.man.pos.y <= FIELD
    }

    /// A new session: an empty field with the man in its top-left corner.
    pub fn new() -> (r: CubeManGame)
        ensures
            r.wf(),
            r.man.pos == (Point { x: 0, y: 0 }),
            r.depth == 0,
            r.score == 0,
            r.highest == 0,
            !r.game_over,
            r.waiting_time == CUBE_MAN_TICK_MS,
            forall|i: int| 0 <= i < FLOOR_ROWS ==> #[trigger] r.floors@[i] is None,
    {
        CubeManGame {
            man: CubeMan::new(Point { x: 0, y: 0 }),
            floors: FloorGen::init(),
            depth: 0,
            score: 0,
            highest: 0,
            game_over: false,
            waiting_time: CUBE_MAN_TICK_MS,
        }
    }

    /// Scrolls the field one row up: the top slot leaves, every platform rises
    /// one row, and `fresh` enters at the bottom.
    pub fn scroll(&mut self, fresh: Option<Floor>)
        requires
            old(self).wf(),
            fresh is Some ==> forall|j: int| 0 <= j < fresh->Some_0.data@.len() ==> {
                let q = #[trigger] fresh->Some_0.data@[j];
                0 <= q.x < FIELD && q.y == FIELD
            },
        ensures
            final(self).man == old(self).man,
            final(self).depth == old(self).depth,
            final(self).game_over == old(self).game_over,
            final(self).score == old(self).score,
            final(self).highest == old(self).highest,
            final(self).waiting_time == old(self).waiting_time,
            final(self).floors@.len() == FLOOR_ROWS,
            forall|i: int| 0 <= i < FLOOR_ROWS - 1 ==> #[trigger] floor_view(final(self).floors@[i]) == raised_view(floor_view(old(self).floors@[i + 1])),
            floor_view(final(self).floors@[FLOOR_ROWS - 1]) == raised_view(floor_view(fresh)),
            floors_rowed(final(self).floors@),
    {
        let mut old_floors: Vec<Option<Floor>> = Vec::new();
        std::mem::swap(&mut old_floors, &mut self.floors);
        let ghost before = old_floors@;
        old_floors.push(fresh);
        let ghost src = old_floors@;
        assert forall|i: int, j: int|
            0 <= i < src.len() && src[i] is Some && 0 <= j < src[i]->Some_0.data@.len() implies {
                let q = #[trigger] src[i]->Some_0.data@[j];
                0 <= q.x < FIELD && q.y == i
            } by {
            if i < FLOOR_ROWS {
                assert(src[i] == before[i]);
            }
        }
        let mut out: Vec<Option<Floor>> = Vec::new();
        let mut i: usize = 1;
        while i < old_floors.len()
            invariant
                1 <= i <= src.len(),
                src.len() == FLOOR_ROWS + 1,
                old_floors@ == src,
                out@.len() == i - 1,
                floors_rowed(src),
                forall|k: int| 0 <= k < i - 1 ==> #[trigger] floor_view(out@[k]) == raised_view(floor_view(src[k + 1])),
                floors_rowed(out@),
            decreases src.len() - i,
        {
            let next = match &old_floors[i] {
                Some(f) => {
                    proof {
                        assert(src[i as int] == Some(*f));
                    }
                    let mut pts: Vec<Point> = Vec::new();
                    let mut j: usize = 0;
                    while j < f.data.len()
                        invariant
                            j <= f.data@.len(),
                            pts@ =~= raised(f.data@.subrange(0, j as int)),
                            forall|l: int| 0 <= l < f.data@.len() ==> {
                                let q = #[trigger] f.data@[l];
                                0 <= q.x < FIELD && q.y == i
                            },
                        decreases f.data@.len() - j,
                    {
                        let q = f.data[j];
                        pts.push(Point { x: q.x, y: q.y - 1 });
                        j = j + 1;
                    }
                    proof {
                        assert(f.data@.subrange(0, f.data@.len() as int) =~= f.data@);
                    }
                    Some(Floor { kind: f.kind, data: pts })
                },
                None => None,
            };
            out.push(next);
            i = i + 1;
        }
        self.floors = out;
    }

    /// One move of the man on the field as it stands: he walks in direction
    /// `gd` (only left and right walk). Leaving the field at the top or the
    /// bottom ends the game; walking into its side is refused; otherwise he
    /// walks, and then either rides the first platform that holds him up one
    /// row, with that platform's effect, or falls one row. A fragile platform
    /// breaks under him.
    pub fn resolve_man(&mut self, gd: Gd) -> (r: ManEvent)
        requires
            old(self).wf(),
            !old(self).game_over,
        ensures
            final(self).wf(),
            final(self).depth == old(self).depth,
            final(self).score == old(self).score,
            final(self).highest == old(self).highest,
            final(self).waiting_time == old(self).waiting_time,
            final(self).man.color == old(self).man.color,
            ({
                let np = walked(old(self).man.pos, gd);
                if np.y < 0 || np.y >= FIELD {
                    &&& r == ManEvent::Ended
                    &&& final(self).game_over
                    &&& final(self).man == old(self).man
                    &&& final(self).floors == old(self).floors
                } else if np.x < 0 || np.x >= FIELD {
                    &&& r == ManEvent::Blocked
                    &&& *final(self) == *old(self)
                } else {
                    &&& !final(self).game_over
                    &&& match first_support(old(self).floors@, np) {
                        Some(i) => {
                            let kind = old(self).floors@[i]->Some_0.kind;
                            &&& r == ManEvent::Landed(kind)
                            &&& final(self).man.pos == effect_pos(Point { x: np.x, y: (np.y - 1) as i32 }, kind, gd)
                            &&& final(self).floors@ == if kind is Fragile {
                                old(self).floors@.update(i, None)
                            } else {
                                old(self).floors@
                            }
                        },
                        None => {
                            &&& r == ManEvent::Fell
                            &&& final(self).man.pos == (Point { x: np.x, y: (np.y + 1) as i32 })
                            &&& final(self).floors == old(self).floors
                        },
                    }
                }
            }),
    {
        let np = self.man.next_pos(gd);
        if np.y < 0 || np.y >= FIELD {
            self.game_over = true;
            return ManEvent::Ended;
        }
        if np.x < 0 || np.x >= FIELD {
            return ManEvent::Blocked;
        }
        match find_support(&self.floors, np) {
            Some(i) => {
                proof {
                    lemma_first_support_valid(self.floors@, np);
                }
                let kind = match &self.floors[i] {
                    Some(f) => f.kind,
                    None => FloorType::Normal,
                };
                let up = Point { x: np.x, y: np.y - 1 };
                let pos = match kind {
                    FloorType::Conveyor(cd) => {
                        if gd == Gd::Left || gd == Gd::Right {
                            up
                        } else {
                            match cd {
                                ConveyorDir::Clockwise => if up.x + 1 < FIELD {
                                    Point { x: up.x + 1, y: up.y }
                                } else {
                                    up
                                },
                                ConveyorDir::Counterclockwise => if up.x - 1 >= 0 {
                                    Point { x: up.x - 1, y: up.y }
                                } else {
                                    up
                                },
                            }
                        }
                    },
                    FloorType::Spring(h) => Point { x: up.x, y: up.y - h as i32 },
                    _ => up,
                };
                self.man.pos = pos;
                match kind {
                    FloorType::Fragile(_) => {
                        self.floors.set(i, None);
                    },
                    _ => {},
                }
                ManEvent::Landed(kind)
            },
            None => {
                self.man.pos = Point { x: np.x, y: np.y + 1 };
                ManEvent::Fell
            },
        }
    }

    /// One tick: a platform (or none) drawn from `rng` for the current depth
    /// enters at the bottom as the field scrolls up one row (`scroll`), then
    /// the man moves on the scrolled field as `resolve_man` says, and the depth
    /// grows by one.
    pub fn tick(&mut self, gd: Gd, rng: &mut CubeRng) -> (r: ManEvent)
        requires
            old(self).wf(),
            !old(self).game_over,
        ensures
            final(self).wf(),
            final(self).depth == if old(self).depth < usize::MAX { old(self).depth + 1 } else { old(self).depth as int },
            final(self).game_over == (r == ManEvent::Ended),
            ({
                let np = walked(old(self).man.pos, gd);
                &&& (r == ManEvent::Ended) == (np.y < 0 || np.y >= FIELD)
                &&& (r == ManEvent::Blocked) == (0 <= np.y < FIELD && (np.x < 0 || np.x >= FIELD))
                &&& (r == ManEvent::Ended || r == ManEvent::Blocked) ==> final(self).man == old(self).man
                &&& r == ManEvent::Fell ==> final(self).man.pos == (Point { x: np.x, y: (np.y + 1) as i32 })
                &&& forall|kind: FloorType| r == ManEvent::Landed(kind) ==> final(self).man.pos == effect_pos(Point { x: np.x, y: (np.y - 1) as i32 }, kind, gd)
            }),
    {
        let fresh = FloorGen::floor(self.depth, FIELD, rng);
        self.scroll(fresh);
        let r = self.resolve_man(gd);
        if self.depth < usize::MAX {
            self.depth = self.depth + 1;
        }
        r
    }

    /// What the display shows: every platform point in its platform's colour,
    /// slot by slot, then the man.
    pub fn frame(&self) -> (r: Vec<(Point, u32)>)
        ensures
            r@ == floor_pixels(self.floors@).push((self.man.pos, self.man.color)),
    {
        let mut pixels: Vec<(Point, u32)> = Vec::new();
        let mut i: usize = 0;
        while i < self.floors.len()
            invariant
                i <= self.floors@.len(),
                pixels@ == floor_pixels(self.floors@.subrange(0, i as int)),
            decreases self.floors@.len() - i,
        {
            proof {
                assert(self.floors@.subrange(0, i + 1).drop_last() =~= self.floors@.subrange(0, i as int));
            }
            let ghost prefix = pixels@;
            match &self.floors[i] {
                Some(f) => {
                    let color = color_of(f.kind);
                    let mut j: usize = 0;
                    while j < f.data.len()
                        invariant
                            j <= f.data@.len(),
                            color == floor_color(f.kind),
                            pixels@ == prefix + f.data@.subrange(0, j as int).map_values(|p: Point| (p, floor_color(f.kind))),
                        decreases f.data@.len() - j,
                    {
                        pixels.push((f.data[j], color));
                        assert(pixels@ =~= prefix + f.data@.subrange(0, j + 1).map_values(|p: Point| (p, floor_color(f.kind))));
                        j = j + 1;
                    }
                    assert(f.data@.subrange(0, f.data@.len() as int) =~= f.data@);
                },
                None => {
                    assert(pixels@ =~= prefix + seq![]);
                },
            }
            i = i + 1;
        }
        assert(self.floors@.subrange(0, self.floors@.len() as int) =~= self.floors@);
        pixels.push((self.man.pos, self.man.color));
        pixels
    }
}


} // verus!
