//! The menu: tilting left or right cycles through the screens, tilting to the
//! front enters the screen shown.

use vstd::prelude::*;

use crate::geometry::Ad;
use crate::rng::{range_of, CubeRng};
use crate::ui::Ui;

verus! {

/// What the menu asks the device to do after one tilt reading.
#[derive(Debug, Clone, Copy, PartialEq, Eq, Structural)]
pub enum MenuAction {
    /// Show the icon of the current screen.
    Show(Ui),
    /// Start the current screen.
    Enter(Ui),
    /// The selection moved: show the new screen's icon and give the select sound.
    Select(Ui),
}

/// The menu state: the screens and the index of the one shown.
#[derive(Debug)]
pub struct Menu {
    pub uis: [Ui; 9],
    pub current: usize,
}

impl Menu {
    /// The menu on its first screen.
    pub fn new() -> (r: Menu)
        ensures
            r.current == 0,
            r.uis@ == seq![Ui::Timer, Ui::Dice, Ui::Snake, Ui::BaGua, Ui::Maze, Ui::CubeMan, Ui::Sokoban, Ui::DodgeCube, Ui::Sound],
    {
        Menu { uis: Ui::uis(), current: 0 }
    }

    /// Reacts to one tilt reading: to the right selects the next screen and to
    /// the left the previous one, wrapping around; to the front enters the
    /// current screen; anything else shows it again.
    pub fn step(&mut self, ad: Ad) -> (r: MenuAction)
        requires
            old(self).current < 9,
        ensures
            final(self).uis == old(self).uis,
            final(self).current < 9,
            final(self).current == match ad {
                Ad::Right => (old(self).current + 1) % 9,
                Ad::Left => (old(self).current + 8) % 9,
                _ => old(self).current as int,
            },
            r == match ad {
                Ad::Front => MenuAction::Enter(old(self).uis@[old(self).current as int]),
                Ad::Right | Ad::Left => MenuAction::Select(final(self).uis@[final(self).current as int]),
                _ => MenuAction::Show(old(self).uis@[old(self).current as int]),
            },
    {
        match ad {
            Ad::Front => MenuAction::Enter(self.uis[self.current]),
            Ad::Right => {
                self.current = if self.current + 1 >= 9 { 0 } else { self.current + 1 };
                MenuAction::Select(self.uis[self.current])
            },
            Ad::Left => {
                self.current = if self.current == 0 { 8 } else { self.current - 1 };
                MenuAction::Select(self.uis[self.current])
            },
            _ => MenuAction::Show(self.uis[self.current]),
        }
    }
}

/// The side of a maze drawn from `rng`: an odd number from 19 to 33.
pub fn maze_size(rng: &mut CubeRng) -> (r: usize)
    ensures
        19 <= r <= 33,
        r % 2 == 1,
        r == if range_of(old(rng).0, 19, 34) % 2 == 0 { range_of(old(rng).0, 19, 34) + 1 } else { range_of(old(rng).0, 19, 34) as int },
{
    let n = rng.random_range(19, 34);
    if n % 2 == 0 { n + 1 } else { n }
}

} // verus!
