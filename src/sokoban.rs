//! Box pushing: a level in the XSB text notation, the push rule and the end
//! condition.

use vstd::prelude::*;
use vstd::string::StringSliceAdditionalSpecFns;

use crate::geometry::{shifted, Gd, Point};
use crate::map::{axis_origin, lemma_window_cells_on_map, local, on_map, to_local, window_after, window_cells, MapCell, TileMap, Vision};
use crate::movement::{any_at, interior, is_interior, occupied, resolve_step, step_outcome, BoundsPolicy, Player, Step};

verus! {

/// Colour of a wall (white).
pub const SOKOBAN_WALL_COLOR: u32 = 0xFFFFFF;

/// Colour of a goal (CSS green).
pub const SOKOBAN_GOAL_COLOR: u32 = 0x008000;

/// Colour of a box (CSS blue).
pub const BOX_COLOR: u32 = 0x0000FF;

/// Colour of a box standing on a goal (CSS cyan).
pub const BOX_ON_GOAL_COLOR: u32 = 0x00FFFF;

/// Colour of the player standing on a goal (CSS yellow).
pub const PLAYER_ON_GOAL_COLOR: u32 = 0xFFFF00;

/// Colour of the player (CSS red).
pub const MAN_COLOR: u32 = 0xFF0000;

/// Milliseconds between two moves.
pub const SOKOBAN_TICK_MS: u64 = 300;

/// The built-in level: `#` wall, `-` floor, `$` box, `.` goal, `*` box on a
/// goal, `@` player, `+` player on a goal.
pub const LEVEL: &'static str = "
########
#--#---#
#-$----#
#--*.*-#
#-$@*--#
###$*--#
-#--*--#
-#-#.--#
-#--.--#
-#######
";

/// What a cell of a level is.
#[derive(Debug, Clone, Copy, PartialEq, Eq, Structural)]
pub enum TargetType {
    Man,
    Box,
    Wall,
    Goal,
    Floor,
}

/// A blank that is skipped before the first line of a level.
pub open spec fn is_blank(c: u8) -> bool {
    c == 32 || c == 9 || c == 10 || c == 13
}

/// The number of blanks that open `b`.
pub open spec fn lead(b: Seq<u8>) -> nat
    decreases b.len(),
{
    if b.len() > 0 && is_blank(b[0]) {
        1 + lead(b.subrange(1, b.len() as int))
    } else {
        0
    }
}

/// The level text proper: `b` without its leading blanks.
pub open spec fn trimmed(b: Seq<u8>) -> Seq<u8> {
    b.subrange(lead(b) as int, b.len() as int)
}

/// The position, as (column, line), of the `n`-th byte of the text `t`.
pub open spec fn text_pos(t: Seq<u8>, n: nat) -> (int, int)
    decreases n,
{
    if n == 0 {
        (0, 0)
    } else {
        let p = text_pos(t, (n - 1) as nat);
        if t[n - 1] == 10 {
            (0, p.1 + 1)
        } else {
            (p.0 + 1, p.1)
        }
    }
}

/// A cell at the position of the `i`-th byte of `t`.
pub open spec fn cell_at(t: Seq<u8>, i: nat, color: u32, tag: TargetType) -> MapCell<TargetType> {
    MapCell { pos: Point { x: text_pos(t, i).0 as i32, y: text_pos(t, i).1 as i32 }, color, tag }
}

/// The walls (`#`) among the first `n` bytes of `t`, in text order.
pub open spec fn xsb_walls(t: Seq<u8>, n: nat) -> Seq<MapCell<TargetType>>
    decreases n,
{
    if n == 0 {
        seq![]
    } else {
        let prev = xsb_walls(t, (n - 1) as nat);
        if t[n - 1] == 35 {
            prev.push(cell_at(t, (n - 1) as nat, SOKOBAN_WALL_COLOR, TargetType::Wall))
        } else {
            prev
        }
    }
}

/// The boxes (`$`, `*`) among the first `n` bytes of `t`, in text order.
pub open spec fn xsb_boxes(t: Seq<u8>, n: nat) -> Seq<MapCell<TargetType>>
    decreases n,
{
    if n == 0 {
        seq![]
    } else {
        let prev = xsb_boxes(t, (n - 1) as nat);
        if t[n - 1] == 36 || t[n - 1] == 42 {
            prev.push(cell_at(t, (n - 1) as nat, BOX_COLOR, TargetType::Box))
        } else {
            prev
        }
    }
}

/// The goals (`.`, `*`, `+`) among the first `n` bytes of `t`, in text order.
pub open spec fn xsb_goals(t: Seq<u8>, n: nat) -> Seq<MapCell<TargetType>>
    decreases n,
{
    if n == 0 {
        seq![]
    } else {
        let prev = xsb_goals(t, (n - 1) as nat);
        if t[n - 1] == 46 || t[n - 1] == 42 || t[n - 1] == 43 {
            prev.push(cell_at(t, (n - 1) as nat, SOKOBAN_GOAL_COLOR, TargetType::Goal))
        } else {
            prev
        }
    }
}

/// The player (the last `@` or `+`) among the first `n` bytes of `t`; the
/// origin when there is none.
pub open spec fn xsb_player(t: Seq<u8>, n: nat) -> Point
    decreases n,
{
    if n == 0 {
        Point { x: 0, y: 0 }
    } else if t[n - 1] == 64 || t[n - 1] == 43 {
        cell_at(t, (n - 1) as nat, MAN_COLOR, TargetType::Man).pos
    } else {
        xsb_player(t, (n - 1) as nat)
    }
}

/// One more than the largest x of `cells`; 0 for none.
pub open spec fn extent_x(cells: Seq<MapCell<TargetType>>) -> int
    decreases cells.len(),
{
    if cells.len() == 0 {
        0
    } else {
        let e = extent_x(cells.drop_last());
        if cells.last().pos.x + 1 > e {
            cells.last().pos.x + 1
        } else {
            e
        }
    }
}

/// One more than the largest y of `cells`; 0 for none.
pub open spec fn extent_y(cells: Seq<MapCell<TargetType>>) -> int
    decreases cells.len(),
{
    if cells.len() == 0 {
        0
    } else {
        let e = extent_y(cells.drop_last());
        if cells.last().pos.y + 1 > e {
            cells.last().pos.y + 1
        } else {
            e
        }
    }
}

/// A level: its walls on a map sized to them, where the player starts, the
/// boxes (which move) and the goals.
#[derive(Debug)]
pub struct SokobanMap {
    pub map: TileMap<TargetType>,
    pub player: MapCell<TargetType>,
    pub boxs: Vec<MapCell<TargetType>>,
    pub goals: Vec<MapCell<TargetType>>,
}

/// Positions reached while reading `n` bytes stay below `n` on each axis.
proof fn lemma_text_pos_bound(t: Seq<u8>, n: nat)
    requires
        n <= t.len(),
    ensures
        0 <= text_pos(t, n).0 <= n,
        0 <= text_pos(t, n).1 <= n,
    decreases n,
{
    if n > 0 {
        lemma_text_pos_bound(t, (n - 1) as nat);
    }
}

/// Cells read from `n` bytes lie below their extents.
proof fn lemma_extent_bounds(cells: Seq<MapCell<TargetType>>)
    requires
        forall|i: int| 0 <= i < cells.len() ==> #[trigger] cells[i].pos.x >= 0 && cells[i].pos.y >= 0,
    ensures
        extent_x(cells) >= 0,
        extent_y(cells) >= 0,
        forall|i: int| 0 <= i < cells.len() ==> #[trigger] cells[i].pos.x < extent_x(cells) && cells[i].pos.y < extent_y(cells),
    decreases cells.len(),
{
    if cells.len() > 0 {
        let rest = cells.drop_last();
        assert forall|i: int| 0 <= i < rest.len() implies #[trigger] rest[i].pos.x >= 0 && rest[i].pos.y >= 0 by {
            assert(rest[i] == cells[i]);
        }
        lemma_extent_bounds(rest);
        assert forall|i: int| 0 <= i < cells.len() implies #[trigger] cells[i].pos.x < extent_x(cells) && cells[i].pos.y < extent_y(cells) by {
            if i < rest.len() {
                assert(rest[i] == cells[i]);
            }
        }
    }
}

/// Every cell read from `n` bytes of `t` sits at a position reached in them.
proof fn lemma_xsb_walls_pos(t: Seq<u8>, n: nat)
    requires
        n <= t.len(),
        t.len() < i32::MAX,
    ensures
        forall|i: int| 0 <= i < xsb_walls(t, n).len() ==> 0 <= #[trigger] xsb_walls(t, n)[i].pos.x <= n && 0 <= xsb_walls(t, n)[i].pos.y <= n,
    decreases n,
{
    if n > 0 {
        lemma_xsb_walls_pos(t, (n - 1) as nat);
        lemma_text_pos_bound(t, (n - 1) as nat);
        let prev = xsb_walls(t, (n - 1) as nat);
        assert forall|i: int| 0 <= i < xsb_walls(t, n).len() implies 0 <= #[trigger] xsb_walls(t, n)[i].pos.x <= n && 0 <= xsb_walls(t, n)[i].pos.y <= n by {
            if i < prev.len() {
                assert(xsb_walls(t, n)[i] == prev[i]);
            }
        }
    }
}

/// Every goal read from `n` bytes of `t` sits at non-negative coordinates.
proof fn lemma_xsb_goals_pos(t: Seq<u8>, n: nat)
    requires
        n <= t.len(),
        t.len() < i32::MAX,
    ensures
        forall|i: int| 0 <= i < xsb_goals(t, n).len() ==> 0 <= #[trigger] xsb_goals(t, n)[i].pos.x && 0 <= xsb_goals(t, n)[i].pos.y,
    decreases n,
{
    if n > 0 {
        lemma_xsb_goals_pos(t, (n - 1) as nat);
        lemma_text_pos_bound(t, (n - 1) as nat);
        let prev = xsb_goals(t, (n - 1) as nat);
        assert forall|i: int| 0 <= i < xsb_goals(t, n).len() implies 0 <= #[trigger] xsb_goals(t, n)[i].pos.x && 0 <= xsb_goals(t, n)[i].pos.y by {
            if i < prev.len() {
                assert(xsb_goals(t, n)[i] == prev[i]);
            }
        }
    }
}

impl SokobanMap {
    /// Reads a level in XSB notation: after the leading blanks, one line per
    /// map row and one byte per column; `#` wall, `$` box, `.` goal, `*` box on
    /// a goal, `@` player, `+` player on a goal, anything else floor. The map
    /// is as wide and as high as its walls reach.
    pub fn from_xsb(xsb: &str) -> (r: SokobanMap)
        requires
            xsb.spec_bytes().len() < i32::MAX,
        ensures
            ({
                let t = trimmed(xsb.spec_bytes());
                &&& r.map.data@ == xsb_walls(t, t.len())
                &&& r.boxs@ == xsb_boxes(t, t.len())
                &&& r.goals@ == xsb_goals(t, t.len())
                &&& r.player.pos == xsb_player(t, t.len())
                &&& r.map.width == extent_x(xsb_walls(t, t.len()))
                &&& r.map.height == extent_y(xsb_walls(t, t.len()))
                &&& r.map.wf()
                &&& forall|i: int| 0 <= i < r.goals@.len() ==> 0 <= #[trigger] r.goals@[i].pos.x && 0 <= r.goals@[i].pos.y
            }),
    {
        let b = xsb.as_bytes();
        let n = b.len();
        let mut s: usize = 0;
        assert(b@.subrange(0, n as int) =~= b@);
        while s < n && (b[s] == 32 || b[s] == 9 || b[s] == 10 || b[s] == 13)
            invariant
                s <= n,
                n == b@.len(),
                lead(b@) == s + lead(b@.subrange(s as int, n as int)),
            decreases n - s,
        {
            assert(b@.subrange(s as int, n as int).subrange(1, n - s) =~= b@.subrange(s + 1, n as int));
            s = s + 1;
        }
        assert(lead(b@.subrange(s as int, n as int)) == 0);
        let ghost t = b@.subrange(s as int, n as int);
        let mut walls: Vec<MapCell<TargetType>> = Vec::new();
        let mut boxs: Vec<MapCell<TargetType>> = Vec::new();
        let mut goals: Vec<MapCell<TargetType>> = Vec::new();
        let mut player = Point { x: 0, y: 0 };
        let mut width: i32 = 0;
        let mut height: i32 = 0;
        let mut x: i32 = 0;
        let mut y: i32 = 0;
        let mut i: usize = s;
        while i < n
            invariant
                s <= i <= n,
                n == b@.len(),
                n < i32::MAX,
                t == b@.subrange(s as int, n as int),
                (x as int, y as int) == text_pos(t, (i - s) as nat),
                walls@ == xsb_walls(t, (i - s) as nat),
                boxs@ == xsb_boxes(t, (i - s) as nat),
                goals@ == xsb_goals(t, (i - s) as nat),
                player == xsb_player(t, (i - s) as nat),
                width == extent_x(walls@),
                height == extent_y(walls@),
            decreases n - i,
        {
            proof {
                lemma_text_pos_bound(t, (i - s) as nat);
                lemma_xsb_walls_pos(t, (i - s) as nat);
                lemma_extent_bounds(walls@);
            }
            let c = b[i];
            let pos = Point { x, y };
            if c == 35 {
                let ghost before = walls@;
                walls.push(MapCell { pos, color: SOKOBAN_WALL_COLOR, tag: TargetType::Wall });
                assert(walls@.drop_last() =~= before);
                if x + 1 > width {
                    width = x + 1;
                }
                if y + 1 > height {
                    height = y + 1;
                }
            }
            if c == 36 || c == 42 {
                boxs.push(MapCell { pos, color: BOX_COLOR, tag: TargetType::Box });
            }
            if c == 46 || c == 42 || c == 43 {
                goals.push(MapCell { pos, color: SOKOBAN_GOAL_COLOR, tag: TargetType::Goal });
            }
            if c == 64 || c == 43 {
                player = pos;
            }
            if c == 10 {
                x = 0;
                y = y + 1;
            } else {
                x = x + 1;
            }
            i = i + 1;
        }
        proof {
            lemma_xsb_walls_pos(t, t.len());
            lemma_xsb_goals_pos(t, t.len());
            lemma_extent_bounds(walls@);
        }
        let map = TileMap { width: width as usize, height: height as usize, data: walls };
        SokobanMap { map, player: MapCell { pos: player, color: MAN_COLOR, tag: TargetType::Man }, boxs, goals }
    }
}

/// Every box stands on a goal.
pub open spec fn all_on_goals(boxes: Seq<MapCell<TargetType>>, goals: Seq<MapCell<TargetType>>) -> bool {
    forall|i: int| 0 <= i < boxes.len() ==> occupied(goals, #[trigger] boxes[i].pos)
}

/// No two cells share a position.
pub open spec fn distinct_cells(cells: Seq<MapCell<TargetType>>) -> bool {
    forall|i: int, j: int| 0 <= i < cells.len() && 0 <= j < cells.len() && i != j ==> #[trigger] cells[i].pos != #[trigger] cells[j].pos
}

/// Every cell lies strictly inside the map.
pub open spec fn all_interior(cells: Seq<MapCell<TargetType>>, width: usize, height: usize) -> bool {
    forall|i: int| 0 <= i < cells.len() ==> interior(#[trigger] cells[i].pos, width, height)
}

/// A parsed level can be played: the map is at least 3 by 3, and the player
/// and every box stand strictly inside it, the boxes on distinct positions.
pub open spec fn playable(walls: Seq<MapCell<TargetType>>, boxes: Seq<MapCell<TargetType>>, player: Point) -> bool {
    let w = extent_x(walls);
    let h = extent_y(walls);
    &&& w >= 3
    &&& h >= 3
    &&& interior(player, w as usize, h as usize)
    &&& all_interior(boxes, w as usize, h as usize)
    &&& distinct_cells(boxes)
}

/// The outcome of a move in direction `gd` from `pos`: the bounds and wall
/// checks of every map game, and then, when the target holds a box, the push
/// rule: the cell beyond the box must lie inside the map and hold neither a
/// wall nor another box, or the whole move is refused.
pub open spec fn push_outcome(
    pos: Point,
    gd: Gd,
    width: usize,
    height: usize,
    walls: Seq<MapCell<TargetType>>,
    boxes: Seq<MapCell<TargetType>>,
) -> Step {
    match step_outcome(pos, gd, width, height, walls, BoundsPolicy::Block) {
        Step::Open(next) => {
            let beyond = shifted(next, gd);
            if occupied(boxes, next) && (!interior(beyond, width, height) || occupied(walls, beyond)
                || occupied(boxes, beyond)) {
                Step::Blocked
            } else {
                Step::Open(next)
            }
        },
        o => o,
    }
}

/// The boxes after a push in direction `gd` onto `next`: the box at `next`
/// moves one unit on, every other box stays.
pub open spec fn pushed_boxes(boxes: Seq<MapCell<TargetType>>, next: Point, gd: Gd) -> Seq<MapCell<TargetType>> {
    boxes.map_values(|b: MapCell<TargetType>| if b.pos == next {
        MapCell { pos: shifted(next, gd), color: b.color, tag: b.tag }
    } else {
        b
    })
}

/// Pushing is all or nothing: a move onto a box whose far side is a wall,
/// another box or the outer ring is refused, so neither the player nor any box
/// moves; a move onto a box whose far side is free moves the player and that box
/// one unit each in the direction of the push, and no other box.
pub proof fn push_consistency(
    pos: Point,
    gd: Gd,
    width: usize,
    height: usize,
    walls: Seq<MapCell<TargetType>>,
    boxes: Seq<MapCell<TargetType>>,
)
    requires
        gd != Gd::Flat,
        interior(shifted(pos, gd), width, height),
        !occupied(walls, shifted(pos, gd)),
        occupied(boxes, shifted(pos, gd)),
    ensures
        ({
            let next = shifted(pos, gd);
            let beyond = shifted(next, gd);
            &&& (occupied(walls, beyond) || occupied(boxes, beyond)) ==> push_outcome(pos, gd, width, height, walls, boxes) == Step::Blocked
            &&& (interior(beyond, width, height) && !occupied(walls, beyond) && !occupied(boxes, beyond)) ==> {
                &&& push_outcome(pos, gd, width, height, walls, boxes) == Step::Open(next)
                &&& pushed_boxes(boxes, next, gd).len() == boxes.len()
                &&& forall|j: int| 0 <= j < boxes.len() ==> #[trigger] pushed_boxes(boxes, next, gd)[j].pos == if boxes[j].pos == next { beyond } else { boxes[j].pos }
            }
        }),
{
}

/// The index of the box at `p`, if any.
fn box_index(boxes: &Vec<MapCell<TargetType>>, p: Point) -> (r: Option<usize>)
    ensures
        r is Some ==> r->Some_0 < boxes@.len() && boxes@[r->Some_0 as int].pos == p,
        r is None ==> !occupied(boxes@, p),
{
    let mut i: usize = 0;
    while i < boxes.len()
        invariant
            i <= boxes@.len(),
            forall|j: int| 0 <= j < i ==> (#[trigger] boxes@[j]).pos != p,
        decreases boxes@.len() - i,
    {
        if boxes[i].pos == p {
            return Some(i);
        }
        i = i + 1;
    }
    None
}

/// Whether every box stands on a goal.
pub fn boxes_on_goals(boxes: &Vec<MapCell<TargetType>>, goals: &Vec<MapCell<TargetType>>) -> (r: bool)
    ensures
        r == all_on_goals(boxes@, goals@),
{
    let mut i: usize = 0;
    while i < boxes.len()
        invariant
            i <= boxes@.len(),
            forall|j: int| 0 <= j < i ==> occupied(goals@, #[trigger] boxes@[j].pos),
        decreases boxes@.len() - i,
    {
        if !any_at(goals, boxes[i].pos) {
            return false;
        }
        i = i + 1;
    }
    true
}

/// Whether the parsed level can be played.
fn check_playable(m: &SokobanMap) -> (r: bool)
    requires
        m.map.width == extent_x(m.map.data@),
        m.map.height == extent_y(m.map.data@),
    ensures
        r == playable(m.map.data@, m.boxs@, m.player.pos),
{
    let w = m.map.width;
    let h = m.map.height;
    if w < 3 || h < 3 || !is_interior(m.player.pos, w, h) {
        return false;
    }
    let mut i: usize = 0;
    while i < m.boxs.len()
        invariant
            w == m.map.width,
            h == m.map.height,
            w == extent_x(m.map.data@),
            h == extent_y(m.map.data@),
            w >= 3,
            h >= 3,
            interior(m.player.pos, w, h),
            i <= m.boxs@.len(),
            forall|j: int| 0 <= j < i ==> interior(#[trigger] m.boxs@[j].pos, w, h),
            forall|j: int, k: int| 0 <= j < i && 0 <= k < m.boxs@.len() && j != k ==> #[trigger] m.boxs@[j].pos != #[trigger] m.boxs@[k].pos,
        decreases m.boxs@.len() - i,
    {
        if !is_interior(m.boxs[i].pos, w, h) {
            return false;
        }
        let mut k: usize = 0;
        while k < m.boxs.len()
            invariant
                i < m.boxs@.len(),
                k <= m.boxs@.len(),
                forall|l: int| 0 <= l < k && l != i ==> #[trigger] m.boxs@[l].pos != m.boxs@[i as int].pos,
            decreases m.boxs@.len() - k,
        {
            if k != i && m.boxs[k].pos == m.boxs[i].pos {
                return false;
            }
            k = k + 1;
        }
        i = i + 1;
    }
    true
}

/// What a session made from the level `xsb` holds, as `from_level` makes it.
pub open spec fn level_session(xsb: &str, r: Option<Sokoban>) -> bool {
    {
        let t = trimmed(xsb.spec_bytes());
        &&& r is Some <==> (xsb.spec_bytes().len() < i32::MAX && playable(xsb_walls(t, t.len()), xsb_boxes(t, t.len()), xsb_player(t, t.len())))
        &&& r is Some ==> {
            let g = r->Some_0;
            &&& g.wf()
            &&& !g.game_over
            &&& g.waiting_time == SOKOBAN_TICK_MS
            &&& g.map.map.data@ == xsb_walls(t, t.len())
            &&& g.map.boxs@ == xsb_boxes(t, t.len())
            &&& g.map.goals@ == xsb_goals(t, t.len())
            &&& g.player.pos == xsb_player(t, t.len())
            &&& g.vision.pos.x == axis_origin(g.player.pos.x as int, g.map.map.width as int, 8)
            &&& g.vision.pos.y == axis_origin(g.player.pos.y as int, g.map.map.height as int, 8)
            &&& g.vision.data@ == window_cells(g.map.map.data@, g.vision.pos, 8, 8)
        }
    }
}

/// A box-pushing session: the level, the player, the viewport over the map.
#[derive(Debug)]
pub struct Sokoban {
    pub map: SokobanMap,
    pub player: Player,
    pub vision: Vision<8, 8, TargetType>,
    /// Milliseconds between two moves.
    pub waiting_time: u64,
    pub game_over: bool,
}

impl Sokoban {
    /// The session's invariant: a map of sane size whose walls lie on it, the
    /// player and the boxes strictly inside, no two boxes together, goals at
    /// non-negative coordinates, and a viewport that fits the map and shows
    /// exactly the map's cells inside its window.
    pub open spec fn wf(&self) -> bool {
        let w = self.map.map.width;
        let h = self.map.map.height;
        &&& 3 <= w <= i32::MAX
        &&& 3 <= h <= i32::MAX
        &&& self.map.map.wf()
        &&& interior(self.player.pos, w, h)
        &&& all_interior(self.map.boxs@, w, h)
        &&& distinct_cells(self.map.boxs@)
        &&& forall|i: int| 0 <= i < self.map.goals@.len() ==> 0 <= #[trigger] self.map.goals@[i].pos.x && 0 <= self.map.goals@[i].pos.y
        &&& self.vision.fits(w, h)
        &&& forall|i: int| 0 <= i < self.vision.data@.len() ==> on_map(#[trigger] self.vision.data@[i].pos, w, h)
        &&& self.vision.data@ == window_cells(self.map.map.data@, self.vision.pos, 8, 8)
    }

    /// A session on the level `xsb` (see `SokobanMap::from_xsb`); `None` when
    /// the text is too long for `i32` coordinates or the level is not playable.
    pub fn from_level(xsb: &str) -> (r: Option<Sokoban>)
        ensures
            level_session(xsb, r),
    {
        if xsb.as_bytes().len() >= 0x7fff_ffff {
            return None;
        }
        let map = SokobanMap::from_xsb(xsb);
        if !check_playable(&map) {
            return None;
        }
        let w = map.map.width;
        let h = map.map.height;
        let player = Player::new(map.player.pos);
        let mut vision: Vision<8, 8, TargetType> = Vision::new(w, h, player.pos);
        vision.update_data(&map.map);
        proof {
            lemma_window_cells_on_map(map.map.data@, vision.pos, 8, 8, w, h);
        }
        Some(Sokoban { map, player, vision, waiting_time: SOKOBAN_TICK_MS, game_over: false })
    }

    /// A session on the built-in level.
    pub fn new() -> (r: Option<Sokoban>)
        ensures
            level_session(LEVEL, r),
    {
        Sokoban::from_level(LEVEL)
    }

    /// One move of the player in direction `gd`, pushing a box when it stands in
    /// the way. A refused move changes nothing at all; otherwise the player and
    /// the pushed box each move one unit, the viewport follows where it still
    /// fits, and the game is over once every box stands on a goal.
    pub fn tick(&mut self, gd: Gd) -> (r: Step)
        requires
            old(self).wf(),
        ensures
            final(self).wf(),
            r == push_outcome(old(self).player.pos, gd, old(self).map.map.width, old(self).map.map.height, old(self).map.map.data@, old(self).map.boxs@),
            !(r is Open) ==> *final(self) == *old(self),
            r is Open ==> {
                &&& final(self).player.pos == r->Open_0
                &&& final(self).player.color == old(self).player.color
                &&& final(self).map.boxs@ == pushed_boxes(old(self).map.boxs@, r->Open_0, gd)
                &&& final(self).map.map == old(self).map.map
                &&& final(self).map.goals == old(self).map.goals
                &&& final(self).waiting_time == old(self).waiting_time
                &&& final(self).vision.pos == window_after(old(self).vision.pos, gd, old(self).map.map.width, old(self).map.map.height, 8, 8)
                &&& final(self).game_over == all_on_goals(final(self).map.boxs@, old(self).map.goals@)
            },
    {
        let w = self.map.map.width;
        let h = self.map.map.height;
        let r = resolve_step(self.player.pos, gd, w, h, &self.map.map.data, BoundsPolicy::Block);
        let next = match r {
            Step::Open(p) => p,
            _ => return r,
        };
        let ghost old_boxes = self.map.boxs@;
        match box_index(&self.map.boxs, next) {
            Some(idx) => {
                let beyond = next.step(gd);
                if !is_interior(beyond, w, h) || any_at(&self.map.map.data, beyond) || any_at(&self.map.boxs, beyond) {
                    return Step::Blocked;
                }
                let b = self.map.boxs[idx];
                self.map.boxs.set(idx, MapCell { pos: beyond, color: b.color, tag: b.tag });
                proof {
                    assert forall|j: int| 0 <= j < old_boxes.len() implies (old_boxes[j].pos == next <==> j == idx) by {
                        if j != idx && old_boxes[j].pos == next {
                            assert(old_boxes[j].pos != old_boxes[idx as int].pos);
                        }
                    }
                    assert(self.map.boxs@ =~= pushed_boxes(old_boxes, next, gd));
                    assert forall|i: int, j: int| 0 <= i < self.map.boxs@.len() && 0 <= j < self.map.boxs@.len() && i != j implies #[trigger] self.map.boxs@[i].pos != #[trigger] self.map.boxs@[j].pos by {
                        if i == idx {
                            assert(old_boxes[j].pos != beyond);
                        } else if j == idx {
                            assert(old_boxes[i].pos != beyond);
                        } else {
                            assert(old_boxes[i].pos != old_boxes[j].pos);
                        }
                    }
                }
            },
            None => {
                proof {
                    assert(self.map.boxs@ =~= pushed_boxes(old_boxes, next, gd));
                }
            },
        }
        self.player.advance(gd);
        self.vision.update(gd, &self.map.map);
        proof {
            lemma_window_cells_on_map(self.map.map.data@, self.vision.pos, 8, 8, w, h);
        }
        self.game_over = boxes_on_goals(&self.map.boxs, &self.map.goals);
        r
    }

    /// What the display shows, in display-local coordinates: the visible walls
    /// in map order, then every goal, then every box (cyan on a goal), then the
    /// player (yellow on a goal).
    pub fn frame(&self) -> (r: Vec<(Point, u32)>)
        requires
            self.wf(),
        ensures
            ({
                let nw = self.vision.data@.len() as int;
                let ng = self.map.goals@.len() as int;
                let nb = self.map.boxs@.len() as int;
                &&& r@.len() == nw + ng + nb + 1
                &&& forall|i: int| 0 <= i < nw ==> #[trigger] r@[i] == (local(self.vision.data@[i].pos, self.vision.pos), self.vision.data@[i].color)
                &&& forall|i: int| 0 <= i < ng ==> #[trigger] r@[nw + i] == (local(self.map.goals@[i].pos, self.vision.pos), self.map.goals@[i].color)
                &&& forall|i: int| 0 <= i < nb ==> #[trigger] r@[nw + ng + i] == (local(self.map.boxs@[i].pos, self.vision.pos),
                    if occupied(self.map.goals@, self.map.boxs@[i].pos) { BOX_ON_GOAL_COLOR } else { self.map.boxs@[i].color })
                &&& r@[nw + ng + nb] == (local(self.player.pos, self.vision.pos),
                    if occupied(self.map.goals@, self.player.pos) { PLAYER_ON_GOAL_COLOR } else { self.player.color })
            }),
    {
        let vp = self.vision.pos;
        let ghost nw = self.vision.data@.len() as int;
        let ghost ng = self.map.goals@.len() as int;
        let mut pixels: Vec<(Point, u32)> = Vec::new();
        let mut i: usize = 0;
        while i < self.vision.data.len()
            invariant
                self.wf(),
                vp == self.vision.pos,
                i <= self.vision.data@.len(),
                pixels@.len() == i,
                forall|j: int| 0 <= j < i ==> #[trigger] pixels@[j] == (local(self.vision.data@[j].pos, vp), self.vision.data@[j].color),
            decreases self.vision.data@.len() - i,
        {
            let c = self.vision.data[i];
            assert(on_map(self.vision.data@[i as int].pos, self.map.map.width, self.map.map.height));
            pixels.push((to_local(c.pos, vp), c.color));
            i = i + 1;
        }
        let mut i: usize = 0;
        while i < self.map.goals.len()
            invariant
                self.wf(),
                vp == self.vision.pos,
                nw == self.vision.data@.len(),
                i <= self.map.goals@.len(),
                pixels@.len() == nw + i,
                forall|j: int| 0 <= j < nw ==> #[trigger] pixels@[j] == (local(self.vision.data@[j].pos, vp), self.vision.data@[j].color),
                forall|j: int| 0 <= j < i ==> #[trigger] pixels@[nw + j] == (local(self.map.goals@[j].pos, vp), self.map.goals@[j].color),
            decreases self.map.goals@.len() - i,
        {
            let c = self.map.goals[i];
            pixels.push((to_local(c.pos, vp), c.color));
            i = i + 1;
        }
        let mut i: usize = 0;
        while i < self.map.boxs.len()
            invariant
                self.wf(),
                vp == self.vision.pos,
                nw == self.vision.data@.len(),
                ng == self.map.goals@.len(),
                i <= self.map.boxs@.len(),
                pixels@.len() == nw + ng + i,
                forall|j: int| 0 <= j < nw ==> #[trigger] pixels@[j] == (local(self.vision.data@[j].pos, vp), self.vision.data@[j].color),
                forall|j: int| 0 <= j < ng ==> #[trigger] pixels@[nw + j] == (local(self.map.goals@[j].pos, vp), self.map.goals@[j].color),
                forall|j: int| 0 <= j < i ==> #[trigger] pixels@[nw + ng + j] == (local(self.map.boxs@[j].pos, vp),
                    if occupied(self.map.goals@, self.map.boxs@[j].pos) { BOX_ON_GOAL_COLOR } else { self.map.boxs@[j].color }),
            decreases self.map.boxs@.len() - i,
        {
            let c = self.map.boxs[i];
            assert(interior(self.map.boxs@[i as int].pos, self.map.map.width, self.map.map.height));
            let color = if any_at(&self.map.goals, c.pos) { BOX_ON_GOAL_COLOR } else { c.color };
            pixels.push((to_local(c.pos, vp), color));
            i = i + 1;
        }
        let color = if any_at(&self.map.goals, self.player.pos) { PLAYER_ON_GOAL_COLOR } else { self.player.color };
        pixels.push((to_local(self.player.pos, vp), color));
        pixels
    }
}

} // verus!
