//! The menu screens and their 8 by 8 icons.

use vstd::prelude::*;

verus! {

/// A menu screen.
#[derive(Debug, Clone, Copy, PartialEq, Eq, Structural)]
pub enum Ui {
    Timer,
    Dice,
    Snake,
    BaGua,
    Maze,
    CubeMan,
    Sokoban,
    DodgeCube,
    Sound,
}

/// The icon of a screen, one byte per row, most significant bit at the left.
pub open spec fn icon(u: Ui) -> Seq<u8> {
    match u {
        Ui::Maze => seq![0b00000000u8, 0b01010110, 0b01011010, 0b01000010, 0b00111010, 0b00100010, 0b01101110, 0b00000000],
        Ui::Snake => seq![0b00000000u8, 0b01110100, 0b01000000, 0b01111110, 0b00000010, 0b00011110, 0b00010000, 0b00000000],
        Ui::BaGua => seq![0b00000000u8, 0b01100110, 0b00000000, 0b01100110, 0b00000000, 0b01111110, 0b00000000, 0b00000000],
        Ui::Dice => seq![0b00000000u8, 0b01100110, 0b01100110, 0b00011000, 0b00011000, 0b01100110, 0b01100110, 0b00000000],
        Ui::Timer => seq![0b00000000u8, 0b01111110, 0b00111100, 0b00011000, 0b00011000, 0b00111100, 0b01111110, 0b00000000],
        Ui::CubeMan => seq![0b00000000u8, 0b00011100, 0b00000000, 0b00001111, 0b00000000, 0b11110000, 0b00000000, 0b00111110],
        Ui::Sokoban => seq![0b01100110u8, 0b10111101, 0b10000001, 0b10111101, 0b10000001, 0b11011011, 0b01000010, 0b01111110],
        Ui::DodgeCube => seq![0b11111111u8, 0b10101101, 0b11101101, 0b10001101, 0b10101101, 0b10111110, 0b00000000, 0b00010000],
        Ui::Sound => seq![0b00000000u8, 0b00011000, 0b00001100, 0b00001010, 0b00011000, 0b00111000, 0b00110000, 0b00000000],
    }
}

impl Ui {
    /// The screens in menu order.
    pub fn uis() -> (r: [Ui; 9])
        ensures
            r@ == seq![Ui::Timer, Ui::Dice, Ui::Snake, Ui::BaGua, Ui::Maze, Ui::CubeMan, Ui::Sokoban, Ui::DodgeCube, Ui::Sound],
    {
        let r = [Ui::Timer, Ui::Dice, Ui::Snake, Ui::BaGua, Ui::Maze, Ui::CubeMan, Ui::Sokoban, Ui::DodgeCube, Ui::Sound];
        assert(r@ =~= seq![Ui::Timer, Ui::Dice, Ui::Snake, Ui::BaGua, Ui::Maze, Ui::CubeMan, Ui::Sokoban, Ui::DodgeCube, Ui::Sound]);
        r
    }

    /// The icon of this screen.
    pub fn ui(&self) -> (r: [u8; 8])
        ensures
            r@ == icon(*self),
    {
        let r = match self {
            Ui::Maze => [0b00000000u8, 0b01010110, 0b01011010, 0b01000010, 0b00111010, 0b00100010, 0b01101110, 0b00000000],
            Ui::Snake => [0b00000000u8, 0b01110100, 0b01000000, 0b01111110, 0b00000010, 0b00011110, 0b00010000, 0b00000000],
            Ui::BaGua => [0b00000000u8, 0b01100110, 0b00000000, 0b01100110, 0b00000000, 0b01111110, 0b00000000, 0b00000000],
            Ui::Dice => [0b00000000u8, 0b01100110, 0b01100110, 0b00011000, 0b00011000, 0b01100110, 0b01100110, 0b00000000],
            Ui::Timer => [0b00000000u8, 0b01111110, 0b00111100, 0b00011000, 0b00011000, 0b00111100, 0b01111110, 0b00000000],
            Ui::CubeMan => [0b00000000u8, 0b00011100, 0b00000000, 0b00001111, 0b00000000, 0b11110000, 0b00000000, 0b00111110],
            Ui::Sokoban => [0b01100110u8, 0b10111101, 0b10000001, 0b10111101, 0b10000001, 0b11011011, 0b01000010, 0b01111110],
            Ui::DodgeCube => [0b11111111u8, 0b10101101, 0b11101101, 0b10001101, 0b10101101, 0b10111110, 0b00000000, 0b00010000],
            Ui::Sound => [0b00000000u8, 0b00011000, 0b00001100, 0b00001010, 0b00011000, 0b00111000, 0b00110000, 0b00000000],
        };
        assert(r@ =~= icon(*self));
        r
    }
}

} // verus!
