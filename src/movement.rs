//! Movement resolution shared by the map games: the actor, the bounds rule and
//! the wall check.

use vstd::prelude::*;

use crate::geometry::{shifted, steppable, Gd, Point};
use crate::map::MapCell;

verus! {

/// Colour of the player (CSS red).
pub const PLAYER_COLOR: u32 = 0xFF0000;

/// The actor a player moves around the map.
#[derive(Debug, Clone, Copy, PartialEq, Eq)]
pub struct Player {
    pub pos: Point,
    pub color: u32,
}

impl Player {
    /// A player at `pos`, drawn red.
    pub fn new(pos: Point) -> (r: Player)
        ensures
            r.pos == pos,
            r.color == PLAYER_COLOR,
    {
        Player { pos, color: PLAYER_COLOR }
    }

    /// Where the player would be after one step in direction `gd`.
    pub fn next_pos(&self, gd: Gd) -> (r: Point)
        requires
            steppable(self.pos),
        ensures
            r == shifted(self.pos, gd),
    {
        self.pos.step(gd)
    }

    /// Takes one step in direction `gd`; tells whether there was a direction to
    /// step in.
    pub fn advance(&mut self, gd: Gd) -> (moved: bool)
        requires
            steppable(old(self).pos),
        ensures
            final(self).pos == shifted(old(self).pos, gd),
            final(self).color == old(self).color,
            moved == (gd != Gd::Flat),
    {
        self.pos = self.next_pos(gd);
        gd != Gd::Flat
    }
}

/// `p` lies strictly inside a `width` by `height` map, off its outer ring:
/// in `[1, width - 2] x [1, height - 2]`.
pub open spec fn interior(p: Point, width: usize, height: usize) -> bool {
    1 <= p.x <= width - 2 && 1 <= p.y <= height - 2
}

/// Some cell of `cells` lies at `p`.
pub open spec fn occupied<T>(cells: Seq<MapCell<T>>, p: Point) -> bool {
    exists|i: int| 0 <= i < cells.len() && (#[trigger] cells[i]).pos == p
}

/// Whether `p` lies strictly inside the map.
pub fn is_interior(p: Point, width: usize, height: usize) -> (r: bool)
    ensures
        r == interior(p, width, height),
{
    p.x >= 1 && p.y >= 1 && (p.x as u64) + 2 <= width as u64 && (p.y as u64) + 2 <= height as u64
}

/// Whether some cell of `cells` lies at `p`.
pub fn any_at<T>(cells: &Vec<MapCell<T>>, p: Point) -> (r: bool)
    ensures
        r == occupied(cells@, p),
{
    let mut i: usize = 0;
    while i < cells.len()
        invariant
            i <= cells@.len(),
            forall|j: int| 0 <= j < i ==> (#[trigger] cells@[j]).pos != p,
        decreases cells@.len() - i,
    {
        if cells[i].pos == p {
            return true;
        }
        i = i + 1;
    }
    false
}

/// What to make of a step that leaves the map's interior.
#[derive(Debug, Clone, Copy, PartialEq, Eq, Structural)]
pub enum BoundsPolicy {
    /// The step is refused; the actor stays.
    Block,
    /// The step ends the game.
    EndGame,
}

/// The outcome of one attempted step.
#[derive(Debug, Clone, Copy, PartialEq, Eq, Structural)]
pub enum Step {
    /// No direction: nothing was attempted.
    Idle,
    /// The step was refused; nothing moves.
    Blocked,
    /// The step left the map under `BoundsPolicy::EndGame`.
    Ended,
    /// The target is free.
    Open(Point),
}

/// The outcome of a step in direction `gd` from `pos`, checked first against
/// the interior of the map and then against the walls.
pub open spec fn step_outcome<T>(
    pos: Point,
    gd: Gd,
    width: usize,
    height: usize,
    walls: Seq<MapCell<T>>,
    policy: BoundsPolicy,
) -> Step {
    let next = shifted(pos, gd);
    if gd == Gd::Flat {
        Step::Idle
    } else if !interior(next, width, height) {
        if policy == BoundsPolicy::Block {
            Step::Blocked
        } else {
            Step::Ended
        }
    } else if occupied(walls, next) {
        Step::Blocked
    } else {
        Step::Open(next)
    }
}

/// A step into a wall, or out of the map's interior when the bounds policy
/// blocks, is refused: the actor stays where it is.
pub proof fn rejected_step_is_blocked<T>(pos: Point, gd: Gd, width: usize, height: usize, walls: Seq<MapCell<T>>)
    requires
        gd != Gd::Flat,
        !interior(shifted(pos, gd), width, height) || occupied(walls, shifted(pos, gd)),
    ensures
        step_outcome(pos, gd, width, height, walls, BoundsPolicy::Block) == Step::Blocked,
{
}

/// Resolves a step in direction `gd` from `pos`: the bounds check comes first,
/// then the wall check.
pub fn resolve_step<T>(
    pos: Point,
    gd: Gd,
    width: usize,
    height: usize,
    walls: &Vec<MapCell<T>>,
    policy: BoundsPolicy,
) -> (r: Step)
    requires
        steppable(pos),
    ensures
        r == step_outcome(pos, gd, width, height, walls@, policy),
{
    if gd == Gd::Flat {
        return Step::Idle;
    }
    let next = pos.step(gd);
    if !is_interior(next, width, height) {
        return match policy {
            BoundsPolicy::Block => Step::Blocked,
            BoundsPolicy::EndGame => Step::Ended,
        };
    }
    if any_at(walls, next) {
        Step::Blocked
    } else {
        Step::Open(next)
    }
}

} // verus!
