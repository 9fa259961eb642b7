//! The maze game: walk from a random start to a random goal through a
//! generated maze, with the display scrolling over it.

use vstd::prelude::*;

use crate::geometry::{Gd, Point};
use crate::map::{axis_origin, lemma_window_cells_on_map, local, on_map, to_local, window_after, window_cells, MapCell, TileMap, Vision};
use crate::maze::{carved, shaped, valid_dims, Maze as MazeGrid, TILE_WALL};
use crate::movement::{any_at, interior, occupied, resolve_step, step_outcome, BoundsPolicy, Player, Step};
use crate::rng::CubeRng;

verus! {

/// Colour of the maze walls (white).
pub const WALL_COLOR: u32 = 0xFFFFFF;

/// Colour of the goal (CSS green).
pub const GOAL_COLOR: u32 = 0x008000;

/// Milliseconds between two moves.
pub const MAZE_TICK_MS: u64 = 300;

/// Random draws made for a free cell before falling back to a scan.
pub const PLACE_RETRIES: u32 = 64;

/// `p` can hold the player or the goal: inside the map, off every wall, and
/// not the excluded position.
pub open spec fn placeable(walls: Seq<MapCell<()>>, width: usize, height: usize, avoid: Option<Point>, p: Point) -> bool {
    interior(p, width, height) && !occupied(walls, p) && avoid != Some(p)
}

/// The tile at `(x, y)` of `g` lies strictly inside the maze and is open.
pub open spec fn open_tile(g: Seq<Seq<u8>>, w: usize, h: usize, x: int, y: int) -> bool {
    1 <= x <= w - 2 && 1 <= y <= h - 2 && g[y][x] != TILE_WALL
}

/// `g` has two different open tiles inside its outer ring.
pub open spec fn two_open_tiles(g: Seq<Seq<u8>>, w: usize, h: usize) -> bool {
    exists|x1: int, y1: int, x2: int, y2: int|
        open_tile(g, w, h, x1, y1) && open_tile(g, w, h, x2, y2) && (x1 != x2 || y1 != y2)
}

/// The maze's wall layer, with its start and goal.
#[derive(Debug)]
pub struct MazeMap {
    pub map: TileMap<()>,
    pub color: u32,
    pub spos: Point,
    pub epos: Point,
    pub color_epos: u32,
}

/// The wall tiles of `maze` as white map cells, row by row.
fn wall_cells(maze: &MazeGrid) -> (r: Vec<MapCell<()>>)
    requires
        shaped(maze.grid(), maze.width as int, maze.height as int),
        maze.width <= i32::MAX,
        maze.height <= i32::MAX,
    ensures
        forall|i: int| 0 <= i < r@.len() ==> on_map(#[trigger] r@[i].pos, maze.width, maze.height),
        forall|p: Point|
            on_map(p, maze.width, maze.height) ==> (#[trigger] occupied(r@, p) <==> maze.grid()[p.y as int][p.x as int] == TILE_WALL),
{
    let w = maze.width;
    let h = maze.height;
    let mut cells: Vec<MapCell<()>> = Vec::new();
    let mut y: usize = 0;
    while y < h
        invariant
            y <= h,
            w == maze.width,
            h == maze.height,
            w <= i32::MAX,
            h <= i32::MAX,
            shaped(maze.grid(), w as int, h as int),
            forall|i: int| 0 <= i < cells@.len() ==> on_map(#[trigger] cells@[i].pos, w, h) && maze.grid()[cells@[i].pos.y as int][cells@[i].pos.x as int] == TILE_WALL,
            forall|p: Point| on_map(p, w, h) && p.y < y && maze.grid()[p.y as int][p.x as int] == TILE_WALL ==> #[trigger] occupied(cells@, p),
        decreases h - y,
    {
        assert(maze.grid()[y as int].len() == w);
        let row = &maze.data[y];
        let mut x: usize = 0;
        while x < w
            invariant
                x <= w,
                y < h,
                w == maze.width,
                h == maze.height,
                w <= i32::MAX,
                h <= i32::MAX,
                shaped(maze.grid(), w as int, h as int),
                row@ == maze.grid()[y as int],
                row@.len() == w,
                forall|i: int| 0 <= i < cells@.len() ==> on_map(#[trigger] cells@[i].pos, w, h) && maze.grid()[cells@[i].pos.y as int][cells@[i].pos.x as int] == TILE_WALL,
                forall|p: Point| on_map(p, w, h) && (p.y < y || (p.y == y && p.x < x)) && maze.grid()[p.y as int][p.x as int] == TILE_WALL ==> #[trigger] occupied(cells@, p),
            decreases w - x,
        {
            if row[x] == TILE_WALL {
                let ghost before = cells@;
                let c = MapCell { pos: Point { x: x as i32, y: y as i32 }, color: WALL_COLOR, tag: () };
                cells.push(c);
                assert forall|p: Point| on_map(p, w, h) && (p.y < y || (p.y == y && p.x < x + 1)) && maze.grid()[p.y as int][p.x as int] == TILE_WALL implies #[trigger] occupied(cells@, p) by {
                    if p.y == y && p.x == x {
                        assert(cells@[before.len() as int].pos == p);
                    } else {
                        assert(occupied(before, p));
                        let i = choose|i: int| 0 <= i < before.len() && (#[trigger] before[i]).pos == p;
                        assert(cells@[i] == before[i]);
                    }
                }
            }
            x = x + 1;
        }
        y = y + 1;
    }
    proof {
        assert forall|p: Point| on_map(p, w, h) implies (#[trigger] occupied(cells@, p) <==> maze.grid()[p.y as int][p.x as int] == TILE_WALL) by {
            if occupied(cells@, p) {
                let i = choose|i: int| 0 <= i < cells@.len() && (#[trigger] cells@[i]).pos == p;
                assert(maze.grid()[cells@[i].pos.y as int][cells@[i].pos.x as int] == TILE_WALL);
            }
        }
    }
    cells
}

/// Whether `p` can hold the player or the goal.
fn can_place(walls: &Vec<MapCell<()>>, width: usize, height: usize, avoid: Option<Point>, p: Point) -> (r: bool)
    ensures
        r == placeable(walls@, width, height, avoid, p),
{
    let not_avoided = match avoid {
        Some(a) => a != p,
        None => true,
    };
    crate::movement::is_interior(p, width, height) && !any_at(walls, p) && not_avoided
}

/// A position that can hold the player or the goal: first by up to
/// `PLACE_RETRIES` random draws inside the outer ring, then by scanning the
/// rows for the first such position. `None` exactly when there is none.
pub fn pick_free(walls: &Vec<MapCell<()>>, width: usize, height: usize, avoid: Option<Point>, rng: &mut CubeRng) -> (r: Option<Point>)
    requires
        3 <= width <= i32::MAX,
        3 <= height <= i32::MAX,
    ensures
        r is Some ==> placeable(walls@, width, height, avoid, r->Some_0),
        r is None <==> !exists|p: Point| placeable(walls@, width, height, avoid, p),
{
    let mut tries: u32 = 0;
    while tries < PLACE_RETRIES
        invariant
            3 <= width <= i32::MAX,
            3 <= height <= i32::MAX,
        decreases PLACE_RETRIES - tries,
    {
        let x = rng.random_range(1, width - 1) as i32;
        let y = rng.random_range(1, height - 1) as i32;
        let p = Point { x, y };
        if can_place(walls, width, height, avoid, p) {
            return Some(p);
        }
        tries = tries + 1;
    }
    let mut y: i32 = 1;
    while (y as u64) + 1 < height as u64
        invariant
            1 <= y,
            3 <= width <= i32::MAX,
            3 <= height <= i32::MAX,
            (y as u64) < height as u64,
            forall|q: Point| interior(q, width, height) && q.y < y ==> !#[trigger] placeable(walls@, width, height, avoid, q),
        decreases height - y,
    {
        let mut x: i32 = 1;
        while (x as u64) + 1 < width as u64
            invariant
                1 <= x,
                1 <= y,
                (y as u64) + 1 < height as u64,
                3 <= width <= i32::MAX,
                3 <= height <= i32::MAX,
                (x as u64) < width as u64,
                forall|q: Point| interior(q, width, height) && (q.y < y || (q.y == y && q.x < x)) ==> !#[trigger] placeable(walls@, width, height, avoid, q),
            decreases width - x,
        {
            let p = Point { x, y };
            if can_place(walls, width, height, avoid, p) {
                return Some(p);
            }
            x = x + 1;
        }
        y = y + 1;
    }
    None
}

impl MazeMap {
    /// The wall layer of a maze generated by `rng`; the size must be odd and at
    /// least 5 each way. Start and goal are left at the origin.
    pub fn new(width: usize, height: usize, rng: &mut CubeRng) -> (r: Option<MazeMap>)
        requires
            width <= i32::MAX,
            height <= i32::MAX,
        ensures
            r is Some <==> valid_dims(width, height),
            r is Some ==> {
                let m = r->Some_0;
                &&& m.map.width == width
                &&& m.map.height == height
                &&& m.map.wf()
                &&& forall|p: Point|
                    on_map(p, width, height) ==> (#[trigger] occupied(m.map.data@, p) <==> carved(width, height, old(rng).0)[p.y as int][p.x as int] == TILE_WALL)
            },
    {
        let maze = match MazeGrid::new(width, height) {
            Ok(m) => m,
            Err(_) => return None,
        };
        let maze = maze.generate(rng);
        let data = wall_cells(&maze);
        let map = TileMap { width, height, data };
        Some(MazeMap { map, color: WALL_COLOR, spos: Point { x: 0, y: 0 }, epos: Point { x: 0, y: 0 }, color_epos: GOAL_COLOR })
    }
}

/// Side of the square display, in LEDs.
pub const VIEW: usize = 8;

/// A maze session: the wall layer with start and goal, the player, and the
/// viewport over the map.
#[derive(Debug)]
pub struct Maze {
    pub map: MazeMap,
    pub player: Player,
    pub vision: Vision<8, 8, ()>,
    /// Milliseconds between two moves.
    pub waiting_time: u64,
    pub game_over: bool,
}

impl Maze {
    /// The session's invariant: a map of sane size whose cells lie on it, player
    /// and goal off the outer ring, and a viewport that fits the map and shows
    /// exactly the map's cells inside its window.
    pub open spec fn wf(&self) -> bool {
        let w = self.map.map.width;
        let h = self.map.map.height;
        &&& 3 <= w <= i32::MAX
        &&& 3 <= h <= i32::MAX
        &&& self.map.map.wf()
        &&& interior(self.player.pos, w, h)
        &&& interior(self.map.epos, w, h)
        &&& self.vision.fits(w, h)
        &&& forall|i: int| 0 <= i < self.vision.data@.len() ==> on_map(#[trigger] self.vision.data@[i].pos, w, h)
        &&& self.vision.data@ == window_cells(self.map.map.data@, self.vision.pos, 8, 8)
    }

    /// A new session on a `width` by `height` maze generated by `rng`, with the
    /// player and the goal on two different open tiles drawn from `rng`. `None`
    /// when the size is not odd and at least 5 each way, or when the maze has no
    /// two open tiles off its outer ring.
    pub fn new(width: usize, height: usize, rng: &mut CubeRng) -> (r: Option<Maze>)
        requires
            width <= i32::MAX,
            height <= i32::MAX,
        ensures
            !valid_dims(width, height) ==> r is None,
            valid_dims(width, height) ==> (r is Some <==> two_open_tiles(carved(width, height, old(rng).0), width, height)),
            r is Some ==> {
                let m = r->Some_0;
                &&& m.wf()
                &&& m.map.map.width == width
                &&& m.map.map.height == height
                &&& !m.game_over
                &&& m.waiting_time == MAZE_TICK_MS
                &&& m.map.spos == m.player.pos
                &&& placeable(m.map.map.data@, width, height, None, m.player.pos)
                &&& placeable(m.map.map.data@, width, height, Some(m.player.pos), m.map.epos)
                &&& m.vision.pos.x == axis_origin(m.player.pos.x as int, width as int, 8)
                &&& m.vision.pos.y == axis_origin(m.player.pos.y as int, height as int, 8)
                &&& m.vision.data@ == window_cells(m.map.map.data@, m.vision.pos, 8, 8)
            },
    {
        let ghost seed = rng.0;
        let mut map = match MazeMap::new(width, height, rng) {
            Some(m) => m,
            None => return None,
        };
        let ghost g = carved(width, height, seed);
        let ghost walls = map.map.data@;
        assert forall|p: Point| #[trigger] placeable(walls, width, height, None, p) <==> open_tile(g, width, height, p.x as int, p.y as int) by {
            if interior(p, width, height) {
                assert(on_map(p, width, height));
            }
        }
        let start = match pick_free(&map.map.data, width, height, None, rng) {
            Some(p) => p,
            None => {
                proof {
                    if two_open_tiles(g, width, height) {
                        let (x1, y1, x2, y2) = choose|x1: int, y1: int, x2: int, y2: int|
                            open_tile(g, width, height, x1, y1) && open_tile(g, width, height, x2, y2) && (x1 != x2 || y1 != y2);
                        assert(placeable(walls, width, height, None, Point { x: x1 as i32, y: y1 as i32 }));
                    }
                }
                return None;
            },
        };
        let end = match pick_free(&map.map.data, width, height, Some(start), rng) {
            Some(p) => p,
            None => {
                proof {
                    if two_open_tiles(g, width, height) {
                        let (x1, y1, x2, y2) = choose|x1: int, y1: int, x2: int, y2: int|
                            open_tile(g, width, height, x1, y1) && open_tile(g, width, height, x2, y2) && (x1 != x2 || y1 != y2);
                        let p1 = Point { x: x1 as i32, y: y1 as i32 };
                        let p2 = Point { x: x2 as i32, y: y2 as i32 };
                        assert(placeable(walls, width, height, None, p1));
                        assert(placeable(walls, width, height, None, p2));
                        if p1 != start {
                            assert(placeable(walls, width, height, Some(start), p1));
                        } else {
                            assert(placeable(walls, width, height, Some(start), p2));
                        }
                    }
                }
                return None;
            },
        };
        proof {
            assert(placeable(walls, width, height, None, start));
            assert(placeable(walls, width, height, None, end));
            assert(open_tile(g, width, height, start.x as int, start.y as int));
            assert(open_tile(g, width, height, end.x as int, end.y as int));
        }
        map.spos = start;
        map.epos = end;
        let player = Player::new(start);
        let mut vision: Vision<8, 8, ()> = Vision::new(width, height, start);
        vision.update_data(&map.map);
        proof {
            lemma_window_cells_on_map(map.map.data@, vision.pos, 8, 8, width, height);
        }
        Some(Maze { map, player, vision, waiting_time: MAZE_TICK_MS, game_over: false })
    }

    /// One move of the player in direction `gd`. A move off the interior or
    /// into a wall changes nothing; otherwise the player steps, the viewport
    /// follows where it still fits, and reaching the goal ends the game.
    pub fn tick(&mut self, gd: Gd) -> (r: Step)
        requires
            old(self).wf(),
        ensures
            final(self).wf(),
            r == step_outcome(old(self).player.pos, gd, old(self).map.map.width, old(self).map.map.height, old(self).map.map.data@, BoundsPolicy::Block),
            !(r is Open) ==> *final(self) == *old(self),
            r is Open ==> {
                &&& final(self).player.pos == r->Open_0
                &&& final(self).player.color == old(self).player.color
                &&& final(self).map == old(self).map
                &&& final(self).waiting_time == old(self).waiting_time
                &&& final(self).vision.pos == window_after(old(self).vision.pos, gd, old(self).map.map.width, old(self).map.map.height, 8, 8)
                &&& final(self).game_over == (old(self).game_over || r->Open_0 == old(self).map.epos)
            },
    {
        let w = self.map.map.width;
        let h = self.map.map.height;
        let r = resolve_step(self.player.pos, gd, w, h, &self.map.map.data, BoundsPolicy::Block);
        match r {
            Step::Open(next) => {
                self.player.advance(gd);
                self.vision.update(gd, &self.map.map);
                proof {
                    lemma_window_cells_on_map(self.map.map.data@, self.vision.pos, 8, 8, w, h);
                }
                if self.player.pos == self.map.epos {
                    self.game_over = true;
                }
            },
            _ => {},
        }
        r
    }

    /// What the display shows, in display-local coordinates: the visible walls
    /// in map order, then the goal, then the player.
    pub fn frame(&self) -> (r: Vec<(Point, u32)>)
        requires
            self.wf(),
        ensures
            r@.len() == self.vision.data@.len() + 2,
            forall|i: int| 0 <= i < self.vision.data@.len() ==> #[trigger] r@[i] == (local(self.vision.data@[i].pos, self.vision.pos), self.vision.data@[i].color),
            r@[self.vision.data@.len() as int] == (local(self.map.epos, self.vision.pos), self.map.color_epos),
            r@[self.vision.data@.len() as int + 1] == (local(self.player.pos, self.vision.pos), self.player.color),
    {
        let vp = self.vision.pos;
        let mut pixels: Vec<(Point, u32)> = Vec::new();
        let mut i: usize = 0;
        while i < self.vision.data.len()
            invariant
                self.wf(),
                vp == self.vision.pos,
                i <= self.vision.data@.len(),
                pixels@.len() == i,
                forall|j: int| 0 <= j < i ==> #[trigger] pixels@[j] == (local(self.vision.data@[j].pos, vp), self.vision.data@[j].color),
            decreases self.vision.data@.len() - i,
        {
            let c = self.vision.data[i];
            assert(on_map(self.vision.data@[i as int].pos, self.map.map.width, self.map.map.height));
            pixels.push((to_local(c.pos, vp), c.color));
            i = i + 1;
        }
        pixels.push((to_local(self.map.epos, vp), self.map.color_epos));
        pixels.push((to_local(self.player.pos, vp), self.player.color));
        pixels
    }
}

} // verus!
