//! The logical map and the viewport ("vision") that scrolls over it.

use vstd::prelude::*;

use crate::geometry::{shifted, steppable, Gd, Point};

verus! {

/// A map cell: a position, the colour it is drawn in (`0xRRGGBB`) and a tag
/// saying what it is.
#[derive(Debug, Clone, Copy, PartialEq, Eq)]
pub struct MapCell<T> {
    pub pos: Point,
    pub color: u32,
    pub tag: T,
}

/// A rectangular map of `width` by `height` units and the cells placed on it.
#[derive(Debug)]
pub struct TileMap<T> {
    pub width: usize,
    pub height: usize,
    pub data: Vec<MapCell<T>>,
}

/// `p` lies on a `width` by `height` map.
pub open spec fn on_map(p: Point, width: usize, height: usize) -> bool {
    0 <= p.x < width && 0 <= p.y < height
}

impl<T> TileMap<T> {
    /// Every cell lies on the map, and both sides fit in `i32` coordinates.
    pub open spec fn wf(&self) -> bool {
        &&& self.width <= i32::MAX
        &&& self.height <= i32::MAX
        &&& forall|i: int|
            0 <= i < self.data@.len() ==> on_map(#[trigger] self.data@[i].pos, self.width, self.height)
    }

    /// An empty map of the given size.
    pub fn new(width: usize, height: usize) -> (r: Self)
        ensures
            r.width == width,
            r.height == height,
            r.data@.len() == 0,
    {
        TileMap { width, height, data: Vec::new() }
    }
}

/// Where a window of `view_len` units starts along one axis of `map_len` units,
/// for an actor at `actor`: three units before the actor, pinned to 0 when the
/// map is shorter than the window or the actor is near the start, and pinned so
/// that the window ends with the map when the actor is near the end.
pub open spec fn axis_origin(actor: int, map_len: int, view_len: int) -> int {
    if map_len < view_len || actor - 3 <= 0 {
        0
    } else if actor - 3 >= map_len - view_len {
        map_len - view_len
    } else {
        actor - 3
    }
}

/// A window starting at `c` along an axis of `map_len` units stays on the map:
/// it starts at 0 when the map is shorter than the window, and otherwise lies in
/// `[0, map_len - view_len]`.
pub open spec fn axis_fits(c: int, map_len: int, view_len: int) -> bool {
    if map_len < view_len {
        c == 0
    } else {
        0 <= c <= map_len - view_len
    }
}

/// A `view_w` by `view_h` window at `pos` fits a `map_w` by `map_h` map.
pub open spec fn window_fits(pos: Point, map_w: usize, map_h: usize, view_w: usize, view_h: usize) -> bool {
    axis_fits(pos.x as int, map_w as int, view_w as int) && axis_fits(pos.y as int, map_h as int, view_h as int)
}

/// `p` lies inside a `view_w` by `view_h` window whose top-left corner is `pos`.
pub open spec fn in_window(p: Point, pos: Point, view_w: usize, view_h: usize) -> bool {
    pos.x <= p.x < pos.x + view_w && pos.y <= p.y < pos.y + view_h
}

/// The cells of `data` inside the window at `pos`, in map order.
pub open spec fn window_cells<T>(data: Seq<MapCell<T>>, pos: Point, view_w: usize, view_h: usize) -> Seq<MapCell<T>> {
    data.filter(|c: MapCell<T>| in_window(c.pos, pos, view_w, view_h))
}

/// Where the window at `pos` is after one `update` in direction `d`: moved one
/// unit when the moved window still fits the map, left in place otherwise.
pub open spec fn window_after(pos: Point, d: Gd, map_w: usize, map_h: usize, view_w: usize, view_h: usize) -> Point {
    if window_fits(shifted(pos, d), map_w, map_h, view_w, view_h) {
        shifted(pos, d)
    } else {
        pos
    }
}

/// Where the window at `pos` is after one `update` for each direction of `moves`.
pub open spec fn window_after_all(pos: Point, moves: Seq<Gd>, map_w: usize, map_h: usize, view_w: usize, view_h: usize) -> Point
    decreases moves.len(),
{
    if moves.len() == 0 {
        pos
    } else {
        window_after(window_after_all(pos, moves.drop_last(), map_w, map_h, view_w, view_h), moves.last(), map_w, map_h, view_w, view_h)
    }
}

/// `p` in display-local coordinates of a window whose top-left corner is `origin`.
pub open spec fn local(p: Point, origin: Point) -> Point {
    Point { x: (p.x - origin.x) as i32, y: (p.y - origin.y) as i32 }
}

/// Translates a map position into the display-local coordinates of a window at
/// `origin`; both lie at non-negative coordinates.
pub fn to_local(p: Point, origin: Point) -> (r: Point)
    requires
        p.x >= 0,
        p.y >= 0,
        origin.x >= 0,
        origin.y >= 0,
    ensures
        r == local(p, origin),
{
    Point { x: p.x - origin.x, y: p.y - origin.y }
}

/// A `W` by `H` viewport over a map: its top-left corner in map coordinates and
/// the map cells it currently shows.
#[derive(Debug)]
pub struct Vision<const W: usize, const H: usize, T> {
    pub pos: Point,
    pub data: Vec<MapCell<T>>,
}

/// The start of the window along one axis, computed without overflow.
fn origin_on_axis(actor: i32, map_len: usize, view_len: usize) -> (r: i32)
    requires
        map_len <= i32::MAX,
    ensures
        r == axis_origin(actor as int, map_len as int, view_len as int),
{
    let a = actor as i64;
    if map_len < view_len || a - 3 <= 0 {
        0
    } else if a - 3 >= (map_len - view_len) as i64 {
        (map_len - view_len) as i32
    } else {
        (a - 3) as i32
    }
}

/// Whether a window starting at `c` fits an axis, computed without overflow.
fn fits_on_axis(c: i32, map_len: usize, view_len: usize) -> (r: bool)
    requires
        map_len <= i32::MAX,
    ensures
        r == axis_fits(c as int, map_len as int, view_len as int),
{
    if map_len < view_len {
        c == 0
    } else {
        0 <= c && (c as i64) <= (map_len - view_len) as i64
    }
}

/// Whether `p` lies in the window at `pos`, computed without overflow.
fn inside_window(p: Point, pos: Point, view_w: usize, view_h: usize) -> (r: bool)
    ensures
        r == in_window(p, pos, view_w, view_h),
{
    let dx = p.x as i64 - pos.x as i64;
    let dy = p.y as i64 - pos.y as i64;
    dx >= 0 && (dx as u64) < view_w as u64 && dy >= 0 && (dy as u64) < view_h as u64
}

impl<const W: usize, const H: usize, T: Copy> Vision<W, H, T> {
    /// The viewport fits the map.
    pub open spec fn fits(&self, map_w: usize, map_h: usize) -> bool {
        window_fits(self.pos, map_w, map_h, W, H)
    }

    /// A viewport for a `width` by `height` map, placed by `axis_origin` around
    /// the actor at `player`; it shows nothing until `update_data`.
    pub fn new(width: usize, height: usize, player: Point) -> (r: Self)
        requires
            width <= i32::MAX,
            height <= i32::MAX,
        ensures
            r.pos.x == axis_origin(player.x as int, width as int, W as int),
            r.pos.y == axis_origin(player.y as int, height as int, H as int),
            r.fits(width, height),
            r.data@.len() == 0,
    {
        let x = origin_on_axis(player.x, width, W);
        let y = origin_on_axis(player.y, height, H);
        Vision { pos: Point { x, y }, data: Vec::new() }
    }

    /// The top-left corner moved one unit in direction `gd`; the viewport itself
    /// does not change.
    pub fn next_pos(&self, gd: Gd) -> (r: Point)
        requires
            steppable(self.pos),
        ensures
            r == shifted(self.pos, gd),
    {
        self.pos.step(gd)
    }

    /// Moves the top-left corner one unit in direction `gd`, without checks.
    pub fn advance(&mut self, gd: Gd)
        requires
            steppable(old(self).pos),
        ensures
            final(self).pos == shifted(old(self).pos, gd),
            final(self).data == old(self).data,
    {
        self.pos = self.next_pos(gd);
    }

    /// Recomputes the shown cells: exactly the map's cells inside the window, in
    /// map order.
    pub fn update_data(&mut self, map: &TileMap<T>)
        ensures
            final(self).pos == old(self).pos,
            final(self).data@ == window_cells(map.data@, old(self).pos, W, H),
    {
        let pos = self.pos;
        let mut shown: Vec<MapCell<T>> = Vec::new();
        let mut i: usize = 0;
        while i < map.data.len()
            invariant
                i <= map.data@.len(),
                shown@ == window_cells(map.data@.subrange(0, i as int), pos, W, H),
            decreases map.data@.len() - i,
        {
            let c = map.data[i];
            proof {
                reveal(Seq::filter);
                assert(map.data@.subrange(0, i + 1).drop_last() =~= map.data@.subrange(0, i as int));
            }
            if inside_window(c.pos, pos, W, H) {
                shown.push(c);
            }
            i = i + 1;
        }
        assert(map.data@.subrange(0, map.data@.len() as int) =~= map.data@);
        self.data = shown;
    }

    /// Moves the viewport one unit in direction `gd` and recomputes the shown
    /// cells, unless the moved window would not fit the map; then nothing changes.
    pub fn update(&mut self, gd: Gd, map: &TileMap<T>)
        requires
            map.wf(),
            old(self).fits(map.width, map.height),
            W >= 1,
            H >= 1,
        ensures
            final(self).pos == window_after(old(self).pos, gd, map.width, map.height, W, H),
            final(self).fits(map.width, map.height),
            window_fits(shifted(old(self).pos, gd), map.width, map.height, W, H) ==> final(self).data@
                == window_cells(map.data@, final(self).pos, W, H),
            !window_fits(shifted(old(self).pos, gd), map.width, map.height, W, H) ==> final(self).data
                == old(self).data,
    {
        let next = self.next_pos(gd);
        if !(fits_on_axis(next.x, map.width, W) && fits_on_axis(next.y, map.height, H)) {
            return;
        }
        self.advance(gd);
        self.update_data(map);
    }
}

/// The viewport stays on the map: from a window that fits, any sequence of
/// `update` calls leaves a window that fits, whose top-left corner lies in
/// `[0, max(0, map_w - W)] x [0, max(0, map_h - H)]`, and whose shown cells all
/// lie on the map.
pub proof fn viewport_stays_on_map<T>(map: TileMap<T>, start: Point, moves: Seq<Gd>, view_w: usize, view_h: usize)
    requires
        map.wf(),
        window_fits(start, map.width, map.height, view_w, view_h),
    ensures
        window_fits(window_after_all(start, moves, map.width, map.height, view_w, view_h), map.width, map.height, view_w, view_h),
        ({
            let p = window_after_all(start, moves, map.width, map.height, view_w, view_h);
            &&& 0 <= p.x <= if map.width >= view_w { map.width - view_w } else { 0 }
            &&& 0 <= p.y <= if map.height >= view_h { map.height - view_h } else { 0 }
            &&& forall|i: int| 0 <= i < window_cells(map.data@, p, view_w, view_h).len()
                ==> on_map(#[trigger] window_cells(map.data@, p, view_w, view_h)[i].pos, map.width, map.height)
        }),
    decreases moves.len(),
{
    if moves.len() > 0 {
        viewport_stays_on_map(map, start, moves.drop_last(), view_w, view_h);
    }
    let p = window_after_all(start, moves, map.width, map.height, view_w, view_h);
    lemma_window_cells_on_map(map.data@, p, view_w, view_h, map.width, map.height);
}

/// The shown cells of a window are among the map's cells, so they lie on the map.
pub proof fn lemma_window_cells_on_map<T>(data: Seq<MapCell<T>>, pos: Point, view_w: usize, view_h: usize, width: usize, height: usize)
    requires
        forall|i: int| 0 <= i < data.len() ==> on_map(#[trigger] data[i].pos, width, height),
    ensures
        forall|i: int| 0 <= i < window_cells(data, pos, view_w, view_h).len()
            ==> on_map(#[trigger] window_cells(data, pos, view_w, view_h)[i].pos, width, height),
    decreases data.len(),
{
    reveal(Seq::filter);
    if data.len() > 0 {
        let rest = data.drop_last();
        assert forall|i: int| 0 <= i < rest.len() implies on_map(#[trigger] rest[i].pos, width, height) by {
            assert(rest[i] == data[i]);
        }
        lemma_window_cells_on_map(rest, pos, view_w, view_h, width, height);
        let sub = window_cells(rest, pos, view_w, view_h);
        let all = window_cells(data, pos, view_w, view_h);
        assert(on_map(data[data.len() - 1].pos, width, height));
        assert forall|i: int| 0 <= i < all.len() implies on_map(#[trigger] all[i].pos, width, height) by {
            if i < sub.len() {
                assert(all[i] == sub[i]);
            } else {
                assert(all[i] == data.last());
            }
        }
    }
}

} // verus!
