//! Maze generation: recursive backtracking carved on a half-resolution grid,
//! run with an explicit stack. A generated maze is addressed `data[y][x]`,
//! with `0` for floor and `1` for wall.

use vstd::prelude::*;

use crate::rng::CubeRng;

verus! {

/// A tile that can be walked on.
pub const TILE_FLOOR: u8 = 0;

/// A tile that blocks.
pub const TILE_WALL: u8 = 1;

/// Why a maze could not be set up.
#[derive(Debug, PartialEq, Eq, Structural)]
pub enum MazeGenerationError {
    /// Width and height must be odd numbers of at least 5.
    InvalidDimensions,
}

/// A grid position `(x, y)`.
pub type Coord = (usize, usize);

/// A pending carve: the wall tile to open (`.0`) on the way to the cell (`.1`).
pub type Carve = (Coord, Coord);

/// Dimensions the carving works on: odd and at least 5 each way.
pub open spec fn valid_dims(width: usize, height: usize) -> bool {
    width >= 5 && height >= 5 && width % 2 == 1 && height % 2 == 1
}

/// The rows of a grid as sequences of tiles.
pub open spec fn rows_view(v: Seq<Vec<u8>>) -> Seq<Seq<u8>> {
    v.map_values(|r: Vec<u8>| r@)
}

/// `g` has `h` rows of `w` tiles each.
pub open spec fn shaped(g: Seq<Seq<u8>>, w: int, h: int) -> bool {
    &&& g.len() == h
    &&& forall|y: int| 0 <= y < h ==> #[trigger] g[y].len() == w
}

/// A grid of `h` rows of `w` walls.
pub open spec fn all_walls(w: usize, h: usize) -> Seq<Seq<u8>> {
    Seq::new(h as nat, |y: int| Seq::new(w as nat, |x: int| TILE_WALL))
}

/// The tile at `(x, y)` lies in the grid and is floor.
pub open spec fn is_floor(g: Seq<Seq<u8>>, x: int, y: int) -> bool {
    &&& 0 <= y < g.len()
    &&& 0 <= x < g[y].len()
    &&& g[y][x] == TILE_FLOOR
}

/// `a` and `b` are one unit apart along one axis.
pub open spec fn adjacent(a: (int, int), b: (int, int)) -> bool {
    (a.0 == b.0 && (a.1 - b.1 == 1 || b.1 - a.1 == 1)) || (a.1 == b.1 && (a.0 - b.0 == 1 || b.0
        - a.0 == 1))
}

/// `path` is a non-empty walk over floor tiles, one unit per step.
pub open spec fn is_walk(g: Seq<Seq<u8>>, path: Seq<(int, int)>) -> bool {
    &&& path.len() > 0
    &&& forall|i: int| 0 <= i < path.len() ==> is_floor(g, #[trigger] path[i].0, path[i].1)
    &&& forall|i: int| 0 <= i < path.len() - 1 ==> adjacent(#[trigger] path[i], path[i + 1])
}

/// Some walk over floor leads from `a` to `b`.
pub open spec fn connected(g: Seq<Seq<u8>>, a: (int, int), b: (int, int)) -> bool {
    exists|path: Seq<(int, int)>| is_walk(g, path) && path[0] == a && path.last() == b
}

/// Every floor tile of `g` is reachable from the start cell `(1, 1)`.
pub open spec fn fully_connected(g: Seq<Seq<u8>>) -> bool {
    forall|x: int, y: int| is_floor(g, x, y) ==> connected(g, (1, 1), (x, y))
}

/// `g` with the tile at `c` turned to floor.
pub open spec fn set_floor(g: Seq<Seq<u8>>, c: Coord) -> Seq<Seq<u8>> {
    g.update(c.1 as int, g[c.1 as int].update(c.0 as int, TILE_FLOOR))
}

/// The carve that direction `d` (0 north, 1 east, 2 south, 3 west) offers from
/// cell `c`: the wall one step away and the cell two steps away, when that cell
/// lies inside a `w` by `h` grid.
pub open spec fn dir_target(w: usize, h: usize, c: Coord, d: u8) -> Option<Carve> {
    if d == 0 {
        if c.1 >= 2 {
            Some(((c.0, (c.1 - 1) as usize), (c.0, (c.1 - 2) as usize)))
        } else {
            None
        }
    } else if d == 1 {
        if c.0 + 2 < w {
            Some((((c.0 + 1) as usize, c.1), ((c.0 + 2) as usize, c.1)))
        } else {
            None
        }
    } else if d == 2 {
        if c.1 + 2 < h {
            Some(((c.0, (c.1 + 1) as usize), (c.0, (c.1 + 2) as usize)))
        } else {
            None
        }
    } else if d == 3 {
        if c.0 >= 2 {
            Some((((c.0 - 1) as usize, c.1), ((c.0 - 2) as usize, c.1)))
        } else {
            None
        }
    } else {
        None
    }
}

/// The stack after offering, from cell `c`, the first `n` directions of `order`,
/// each pushed when its target cell is still a wall.
pub open spec fn pushes(
    w: usize,
    h: usize,
    g: Seq<Seq<u8>>,
    c: Coord,
    order: Seq<u8>,
    stack: Seq<Carve>,
    n: nat,
) -> Seq<Carve>
    decreases n,
{
    if n == 0 {
        stack
    } else {
        let prev = pushes(w, h, g, c, order, stack, (n - 1) as nat);
        match dir_target(w, h, c, order[n - 1]) {
            Some(t) => if g[t.1.1 as int][t.1.0 as int] == TILE_WALL {
                prev.push(t)
            } else {
                prev
            },
            None => prev,
        }
    }
}

/// What the carving works on: the grid, the pending carves and the generator's state.
pub struct CarveState {
    pub grid: Seq<Seq<u8>>,
    pub stack: Seq<Carve>,
    pub seed: u64,
}

/// The order in which rand's shuffle leaves `items` when the generator starts in
/// `state`, and the state it leaves the generator in.
pub uninterp spec fn shuffled(items: Seq<u8>, state: u64) -> (Seq<u8>, u64);

/// The four direction codes before shuffling.
pub open spec fn dir_codes() -> Seq<u8> {
    seq![0u8, 1u8, 2u8, 3u8]
}

/// One round of carving: pop a carve; if its cell is still a wall, open the
/// wall and the cell, shuffle the directions and push every carve that leads
/// to a cell that is still a wall.
pub open spec fn carve_step(w: usize, h: usize, s: CarveState) -> CarveState {
    if s.stack.len() == 0 {
        s
    } else {
        let e = s.stack.last();
        let rest = s.stack.drop_last();
        if s.grid[e.1.1 as int][e.1.0 as int] == TILE_WALL {
            let g = set_floor(set_floor(s.grid, e.0), e.1);
            let sh = shuffled(dir_codes(), s.seed);
            CarveState { grid: g, stack: pushes(w, h, g, e.1, sh.0, rest, 4), seed: sh.1 }
        } else {
            CarveState { grid: s.grid, stack: rest, seed: s.seed }
        }
    }
}

/// The state after `n` rounds.
pub open spec fn carve_iter(w: usize, h: usize, s: CarveState, n: nat) -> CarveState
    decreases n,
{
    if n == 0 {
        s
    } else {
        carve_step(w, h, carve_iter(w, h, s, (n - 1) as nat))
    }
}

/// Where carving starts: all walls, one carve at the start cell `(1, 1)`.
pub open spec fn carve_start(w: usize, h: usize, seed: u64) -> CarveState {
    CarveState { grid: all_walls(w, h), stack: seq![((1usize, 1usize), (1usize, 1usize))], seed }
}

/// Carving from `carve_start(w, h, seed)` has run out of carves after `n` rounds.
pub open spec fn carve_done(w: usize, h: usize, seed: u64, n: nat) -> bool {
    carve_iter(w, h, carve_start(w, h, seed), n).stack.len() == 0
}

/// The maze that carving yields for the given dimensions and seed.
pub open spec fn carved(w: usize, h: usize, seed: u64) -> Seq<Seq<u8>> {
    carve_iter(w, h, carve_start(w, h, seed), choose|n: nat| carve_done(w, h, seed, n)).grid
}

/// Once the carves run out, further rounds change nothing.
proof fn lemma_carve_stable(w: usize, h: usize, s: CarveState, n: nat, m: nat)
    requires
        carve_iter(w, h, s, n).stack.len() == 0,
        n <= m,
    ensures
        carve_iter(w, h, s, m) == carve_iter(w, h, s, n),
    decreases m,
{
    if m > n {
        lemma_carve_stable(w, h, s, n, (m - 1) as nat);
    }
}

/// The number of walls in a row.
pub open spec fn row_walls(r: Seq<u8>) -> nat
    decreases r.len(),
{
    if r.len() == 0 {
        0
    } else {
        row_walls(r.drop_last()) + if r.last() != TILE_FLOOR {
            1nat
        } else {
            0nat
        }
    }
}

/// The number of walls in a grid.
pub open spec fn grid_walls(g: Seq<Seq<u8>>) -> nat
    decreases g.len(),
{
    if g.len() == 0 {
        0
    } else {
        grid_walls(g.drop_last()) + row_walls(g.last())
    }
}

proof fn lemma_row_walls_update(r: Seq<u8>, i: int, v: u8)
    requires
        0 <= i < r.len(),
    ensures
        row_walls(r.update(i, v)) + (if r[i] != TILE_FLOOR { 1int } else { 0int }) == row_walls(r)
            + (if v != TILE_FLOOR { 1int } else { 0int }),
    decreases r.len(),
{
    let u = r.update(i, v);
    if i < r.len() - 1 {
        lemma_row_walls_update(r.drop_last(), i, v);
        assert(u.drop_last() =~= r.drop_last().update(i, v));
    } else {
        assert(u.drop_last() =~= r.drop_last());
    }
}

proof fn lemma_grid_walls_update(g: Seq<Seq<u8>>, y: int, r: Seq<u8>)
    requires
        0 <= y < g.len(),
    ensures
        grid_walls(g.update(y, r)) + row_walls(g[y]) == grid_walls(g) + row_walls(r),
    decreases g.len(),
{
    let u = g.update(y, r);
    if y < g.len() - 1 {
        lemma_grid_walls_update(g.drop_last(), y, r);
        assert(u.drop_last() =~= g.drop_last().update(y, r));
    } else {
        assert(u.drop_last() =~= g.drop_last());
    }
}

/// Turning a tile to floor removes one wall if it was a wall, none otherwise.
proof fn lemma_set_floor_walls(g: Seq<Seq<u8>>, c: Coord)
    requires
        c.1 < g.len(),
        c.0 < g[c.1 as int].len(),
    ensures
        grid_walls(set_floor(g, c)) + (if g[c.1 as int][c.0 as int] != TILE_FLOOR {
            1int
        } else {
            0int
        }) == grid_walls(g),
{
    let row = g[c.1 as int];
    lemma_row_walls_update(row, c.0 as int, TILE_FLOOR);
    lemma_grid_walls_update(g, c.1 as int, row.update(c.0 as int, TILE_FLOOR));
}

/// A coordinate as a pair of integers.
pub open spec fn ic(c: Coord) -> (int, int) {
    (c.0 as int, c.1 as int)
}

/// Where a pending carve comes from: it is the initial carve at the start
/// cell, or it opens a wall next to the cell behind it, which is already floor.
spec fn carve_rooted(g: Seq<Seq<u8>>, e: Carve) -> bool {
    ||| (e.0 == (1usize, 1usize) && e.1 == (1usize, 1usize))
    ||| (adjacent(ic(e.0), ic(e.1)) && is_floor(
        g,
        2 * (e.0.0 as int) - (e.1.0 as int),
        2 * (e.0.1 as int) - (e.1.1 as int),
    ))
}

/// The tile at `p` lies in the grid and is floor (`is_floor` on a pair).
spec fn floor_tile(g: Seq<Seq<u8>>, p: (int, int)) -> bool {
    &&& 0 <= p.1 < g.len()
    &&& 0 <= p.0 < g[p.1].len()
    &&& g[p.1][p.0] == TILE_FLOOR
}

/// Every floor tile has a rank.
spec fn ranked(g: Seq<Seq<u8>>, rank: Map<(int, int), nat>) -> bool {
    forall|x: int, y: int| is_floor(g, x, y) ==> #[trigger] rank.contains_key((x, y))
}

/// Every floor tile but the start has a floor neighbour of lower rank as its parent.
spec fn parented(
    g: Seq<Seq<u8>>,
    parent: Map<(int, int), (int, int)>,
    rank: Map<(int, int), nat>,
) -> bool {
    forall|x: int, y: int|
        is_floor(g, x, y) && (x, y) != (1int, 1int) ==> {
            &&& #[trigger] parent.contains_key((x, y))
            &&& adjacent(parent[(x, y)], (x, y))
            &&& floor_tile(g, parent[(x, y)])
            &&& rank[parent[(x, y)]] < rank[(x, y)]
        }
}

/// Turning `c` to floor adds exactly `c` to the floor tiles and keeps the shape.
proof fn lemma_set_floor_tiles(g: Seq<Seq<u8>>, w: usize, h: usize, c: Coord)
    requires
        shaped(g, w as int, h as int),
        c.0 < w,
        c.1 < h,
    ensures
        shaped(set_floor(g, c), w as int, h as int),
        forall|x: int, y: int|
            #[trigger] is_floor(set_floor(g, c), x, y) == (is_floor(g, x, y) || (x == c.0 && y
                == c.1)),
{
    let g2 = set_floor(g, c);
    assert forall|y: int| 0 <= y < h implies #[trigger] g2[y].len() == w by {
        assert(g[y].len() == w);
    }
    assert forall|x: int, y: int|
        #[trigger] is_floor(g2, x, y) == (is_floor(g, x, y) || (x == c.0 && y == c.1)) by {
        if 0 <= y < h {
            assert(g[y].len() == w);
        }
    }
}

/// A floor tile reached through parents of falling rank is connected to the start.
proof fn lemma_reach(
    g: Seq<Seq<u8>>,
    parent: Map<(int, int), (int, int)>,
    rank: Map<(int, int), nat>,
    x: int,
    y: int,
)
    requires
        ranked(g, rank),
        parented(g, parent, rank),
        is_floor(g, 1, 1),
        is_floor(g, x, y),
    ensures
        connected(g, (1, 1), (x, y)),
    decreases rank[(x, y)],
{
    if x == 1 && y == 1 {
        let path = seq![(1int, 1int)];
        assert(is_walk(g, path) && path[0] == (1int, 1int) && path.last() == (x, y));
    } else {
        assert(parent.contains_key((x, y)));
        let q = parent[(x, y)];
        lemma_reach(g, parent, rank, q.0, q.1);
        let path = choose|path: Seq<(int, int)>|
            is_walk(g, path) && path[0] == (1int, 1int) && path.last() == q;
        let p2 = path.push((x, y));
        assert forall|i: int| 0 <= i < p2.len() - 1 implies adjacent(#[trigger] p2[i], p2[i + 1]) by {
            if i < path.len() - 1 {
                assert(adjacent(path[i], path[i + 1]));
            }
        }
        assert forall|i: int| 0 <= i < p2.len() implies is_floor(g, #[trigger] p2[i].0, p2[i].1) by {
            if i < path.len() {
                assert(is_floor(g, path[i].0, path[i].1));
            }
        }
        assert(is_walk(g, p2) && p2[0] == (1int, 1int) && p2.last() == (x, y));
    }
}

/// Relies on rand's `SliceRandom::shuffle`: it permutes the slice in place, and
/// both the order it leaves and the generator state it leaves depend only on
/// the slice and the generator's state when called.
#[verifier::external_body]
fn shuffle_dirs(dirs: &mut [u8; 4], rng: &mut CubeRng)
    ensures
        (final(dirs)@, final(rng).0) == shuffled(old(dirs)@, old(rng).0),
        final(dirs)@.to_multiset() == old(dirs)@.to_multiset(),
{
    rand::seq::SliceRandom::shuffle(&mut dirs[..], rng)
}

/// The carve that direction `d` offers from cell `c`.
fn target(w: usize, h: usize, c: Coord, d: u8) -> (r: Option<Carve>)
    requires
        c.0 < w,
        c.1 < h,
    ensures
        r == dir_target(w, h, c, d),
{
    if d == 0 {
        if c.1 >= 2 {
            Some(((c.0, c.1 - 1), (c.0, c.1 - 2)))
        } else {
            None
        }
    } else if d == 1 {
        if w - c.0 > 2 {
            Some(((c.0 + 1, c.1), (c.0 + 2, c.1)))
        } else {
            None
        }
    } else if d == 2 {
        if h - c.1 > 2 {
            Some(((c.0, c.1 + 1), (c.0, c.1 + 2)))
        } else {
            None
        }
    } else if d == 3 {
        if c.0 >= 2 {
            Some(((c.0 - 1, c.1), (c.0 - 2, c.1)))
        } else {
            None
        }
    } else {
        None
    }
}

/// The tile at `c`.
fn tile_at(grid: &Vec<Vec<u8>>, w: usize, h: usize, c: Coord) -> (r: u8)
    requires
        shaped(rows_view(grid@), w as int, h as int),
        c.0 < w,
        c.1 < h,
    ensures
        r == rows_view(grid@)[c.1 as int][c.0 as int],
{
    assert(rows_view(grid@)[c.1 as int].len() == w);
    grid[c.1][c.0]
}

/// Turns the tile at `c` to floor.
fn open_tile(grid: &mut Vec<Vec<u8>>, w: usize, h: usize, c: Coord)
    requires
        shaped(rows_view(old(grid)@), w as int, h as int),
        c.0 < w,
        c.1 < h,
    ensures
        rows_view(final(grid)@) == set_floor(rows_view(old(grid)@), c),
        shaped(rows_view(final(grid)@), w as int, h as int),
{
    assert(rows_view(grid@)[c.1 as int].len() == w);
    let mut row = grid[c.1].clone();
    row.set(c.0, TILE_FLOOR);
    grid.set(c.1, row);
    assert(rows_view(grid@) =~= set_floor(rows_view(old(grid)@), c));
}

/// A grid of `h` rows of `w` walls.
fn wall_grid(w: usize, h: usize) -> (r: Vec<Vec<u8>>)
    ensures
        rows_view(r@) == all_walls(w, h),
{
    let mut grid: Vec<Vec<u8>> = Vec::new();
    let mut y: usize = 0;
    while y < h
        invariant
            y <= h,
            rows_view(grid@) =~= all_walls(w, y),
        decreases h - y,
    {
        let mut row: Vec<u8> = Vec::new();
        let mut x: usize = 0;
        while x < w
            invariant
                x <= w,
                row@ =~= Seq::new(x as nat, |i: int| TILE_WALL),
            decreases w - x,
        {
            row.push(TILE_WALL);
            x = x + 1;
        }
        let ghost before = grid@;
        grid.push(row);
        assert(rows_view(grid@) =~= rows_view(before).push(row@));
        y = y + 1;
    }
    grid
}

/// A maze of `height` rows of `width` tiles, addressed `data[y][x]`.
#[derive(Debug, PartialEq)]
pub struct Maze {
    /// Number of tiles per row: odd and at least 5.
    pub width: usize,
    /// Number of rows: odd and at least 5.
    pub height: usize,
    /// The tiles, row by row: `0` floor, `1` wall.
    pub data: Vec<Vec<u8>>,
}

impl Maze {
    /// The tiles as a grid of rows.
    pub open spec fn grid(&self) -> Seq<Seq<u8>> {
        rows_view(self.data@)
    }

    /// An all-wall maze of the given size; the size must be odd and at least 5
    /// each way.
    pub fn new(width: usize, height: usize) -> (r: Result<Self, MazeGenerationError>)
        ensures
            valid_dims(width, height) <==> r is Ok,
            r is Ok ==> r->Ok_0.width == width && r->Ok_0.height == height && r->Ok_0.grid()
                == all_walls(width, height),
            r is Err ==> r->Err_0 == MazeGenerationError::InvalidDimensions,
    {
        if width < 5 || width % 2 == 0 || height < 5 || height % 2 == 0 {
            return Err(MazeGenerationError::InvalidDimensions);
        }
        Ok(Maze { width, height, data: wall_grid(width, height) })
    }

    /// Iterates over the rows, top to bottom.
    pub fn iter(&self) -> (r: core::slice::Iter<'_, Vec<u8>>)
        ensures
            vstd::std_specs::slice::into_iter_elts(r) == self.data@,
    {
        broadcast use vstd::std_specs::slice::axiom_spec_slice_iter;
        self.data.as_slice().iter()
    }

    /// Carves the maze, starting from all walls, with directions shuffled by `rng`.
    /// The result depends on the dimensions and the generator's state alone, and
    /// every floor tile is reachable from `(1, 1)` over floor.
    pub fn generate(self, rng: &mut CubeRng) -> (r: Self)
        requires
            valid_dims(self.width, self.height),
        ensures
            r.width == self.width,
            r.height == self.height,
            r.grid() == carved(self.width, self.height, old(rng).0),
            shaped(r.grid(), r.width as int, r.height as int),
            is_floor(r.grid(), 1, 1),
            fully_connected(r.grid()),
    {
        let w = self.width;
        let h = self.height;
        let ghost seed0 = rng.0;
        let ghost s0 = carve_start(w, h, seed0);
        let mut grid = wall_grid(w, h);
        let mut stack: Vec<Carve> = Vec::new();
        stack.push(((1, 1), (1, 1)));
        let ghost mut k: nat = 0;
        let ghost mut parent: Map<(int, int), (int, int)> = Map::empty();
        let ghost mut rank: Map<(int, int), nat> = Map::empty();
        assert(stack@ =~= s0.stack);
        assert forall|x: int, y: int| !is_floor(rows_view(grid@), x, y) by {
            if 0 <= y < h && 0 <= x < w {
                assert(rows_view(grid@)[y][x] == TILE_WALL);
            }
        }
        while stack.len() > 0
            invariant
                shaped(rows_view(grid@), w as int, h as int),
                forall|i: int|
                    0 <= i < stack@.len() ==> {
                        let e = #[trigger] stack@[i];
                        e.0.0 < w && e.0.1 < h && e.1.0 < w && e.1.1 < h
                    },
                (CarveState { grid: rows_view(grid@), stack: stack@, seed: rng.0 }) == carve_iter(
                    w,
                    h,
                    s0,
                    k,
                ),
                forall|i: int| 0 <= i < stack@.len() ==> carve_rooted(rows_view(grid@), #[trigger] stack@[i]),
                ranked(rows_view(grid@), rank),
                parented(rows_view(grid@), parent, rank),
                is_floor(rows_view(grid@), 1, 1) || forall|x: int, y: int| !is_floor(rows_view(grid@), x, y),
                s0 == carve_start(w, h, seed0),
                k == 0 ==> stack@ == s0.stack && rows_view(grid@) == s0.grid,
                k > 0 ==> is_floor(rows_view(grid@), 1, 1),
            decreases grid_walls(rows_view(grid@)), stack@.len(),
        {
            let ghost before = CarveState { grid: rows_view(grid@), stack: stack@, seed: rng.0 };
            let e = stack.pop().unwrap();
            assert(e == before.stack[before.stack.len() - 1]);
            let path = e.0;
            let cell = e.1;
            proof {
                if k == 0 {
                    assert(before.stack == s0.stack);
                    assert(s0.stack[0] == ((1usize, 1usize), (1usize, 1usize)));
                    assert(all_walls(w, h)[1][1] == TILE_WALL);
                }
            }
            if tile_at(&grid, w, h, cell) == TILE_WALL {
                let ghost g0 = rows_view(grid@);
                open_tile(&mut grid, w, h, path);
                proof {
                    lemma_set_floor_walls(g0, path);
                }
                let ghost g1 = rows_view(grid@);
                open_tile(&mut grid, w, h, cell);
                proof {
                    lemma_set_floor_walls(g1, cell);
                }
                let ghost g2 = rows_view(grid@);
                let ghost rest = stack@;
                let ghost parent0 = parent;
                proof {
                    lemma_set_floor_tiles(g0, w, h, path);
                    lemma_set_floor_tiles(g1, w, h, cell);
                    assert(carve_rooted(g0, e));
                    if path == (1usize, 1usize) && cell == (1usize, 1usize) {
                        rank = rank.insert((1, 1), 0);
                    } else {
                        let q = (2 * (path.0 as int) - (cell.0 as int), 2 * (path.1 as int) - (cell.1 as int));
                        assert(is_floor(g0, q.0, q.1));
                        assert(rank.contains_key(q));
                        if !is_floor(g0, path.0 as int, path.1 as int) {
                            parent = parent.insert(ic(path), q);
                            rank = rank.insert(ic(path), rank[q] + 1);
                        }
                        assert(rank.contains_key(ic(path)));
                        parent = parent.insert(ic(cell), ic(path));
                        rank = rank.insert(ic(cell), rank[ic(path)] + 1);
                    }
                    assert(is_floor(g2, 1, 1));
                    assert forall|x: int, y: int| is_floor(g2, x, y) implies #[trigger] rank.contains_key((x, y)) by {
                        if is_floor(g0, x, y) {
                            assert(rank.contains_key((x, y)));
                        }
                    }
                    assert forall|x: int, y: int|
                        is_floor(g2, x, y) && (x, y) != (1int, 1int) implies {
                            &&& #[trigger] parent.contains_key((x, y))
                            &&& adjacent(parent[(x, y)], (x, y))
                            &&& floor_tile(g2, parent[(x, y)])
                            &&& rank[parent[(x, y)]] < rank[(x, y)]
                        } by {
                        if is_floor(g0, x, y) {
                            assert(parent0.contains_key((x, y)));
                            let q0 = parent0[(x, y)];
                            assert(floor_tile(g0, q0));
                            assert(is_floor(g0, q0.0, q0.1));
                            assert(is_floor(g2, q0.0, q0.1));
                        }
                    }
                    assert forall|j: int| 0 <= j < rest.len() implies carve_rooted(g2, #[trigger] rest[j]) by {
                        assert(carve_rooted(g0, before.stack[j]));
                    }
                }
                let mut dirs: [u8; 4] = [0, 1, 2, 3];
                assert(dirs@ =~= dir_codes());
                shuffle_dirs(&mut dirs, rng);
                let mut i: usize = 0;
                while i < 4
                    invariant
                        i <= 4,
                        rows_view(grid@) == g2,
                        shaped(g2, w as int, h as int),
                        cell.0 < w,
                        cell.1 < h,
                        stack@ == pushes(w, h, g2, cell, dirs@, rest, i as nat),
                        is_floor(g2, cell.0 as int, cell.1 as int),
                        forall|j: int| 0 <= j < stack@.len() ==> carve_rooted(g2, #[trigger] stack@[j]),
                        forall|j: int|
                            0 <= j < stack@.len() ==> {
                                let e = #[trigger] stack@[j];
                                e.0.0 < w && e.0.1 < h && e.1.0 < w && e.1.1 < h
                            },
                    decreases 4 - i,
                {
                    match target(w, h, cell, dirs[i]) {
                        Some(t) => {
                            if tile_at(&grid, w, h, t.1) == TILE_WALL {
                                stack.push(t);
                            }
                        },
                        None => {},
                    }
                    i = i + 1;
                }
            }
            proof {
                k = k + 1;
            }
        }
        proof {
            lemma_done_is_carved(w, h, seed0, k);
            let g = rows_view(grid@);
            assert(k > 0);
            assert forall|x: int, y: int| is_floor(g, x, y) implies connected(g, (1, 1), (x, y)) by {
                lemma_reach(g, parent, rank, x, y);
            }
        }
        Maze { width: w, height: h, data: grid }
    }
}

/// Generation is deterministic: two mazes generated with the same dimensions
/// from generators in the same state hold the same tiles.
pub proof fn generation_is_deterministic(a: Maze, b: Maze, width: usize, height: usize, seed: u64)
    requires
        a.grid() == carved(width, height, seed),
        b.grid() == carved(width, height, seed),
    ensures
        a.grid() == b.grid(),
{
}

/// The grid after any number of rounds that end with no carves left is `carved`.
proof fn lemma_done_is_carved(w: usize, h: usize, seed: u64, k: nat)
    requires
        carve_done(w, h, seed, k),
    ensures
        carve_iter(w, h, carve_start(w, h, seed), k).grid == carved(w, h, seed),
{
    let n = choose|n: nat| carve_done(w, h, seed, n);
    let s = carve_start(w, h, seed);
    if n <= k {
        lemma_carve_stable(w, h, s, n, k);
    } else {
        lemma_carve_stable(w, h, s, k, n);
    }
}

} // verus!
