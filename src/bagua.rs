//! The eight trigrams and the dice faces, as 8 by 8 bitmaps.

use vstd::prelude::*;

use crate::rng::{random_of, CubeRng};

verus! {

/// A trigram.
#[derive(Debug, Clone, Copy, PartialEq, Eq, Structural)]
pub enum BaGua {
    Qian,
    Kun,
    Zhen,
    Gen,
    Li,
    Kan,
    Dui,
    Xun,
}

/// A solid trigram line.
pub const SOLID: u8 = 0b11111111;

/// A broken trigram line.
pub const BROKEN: u8 = 0b11100111;

/// The lines, top to bottom (`true` solid), of trigram number `num` (1 to 8:
/// Qian, Kun, Zhen, Gen, Li, Kan, Dui, Xun).
pub open spec fn trigram_lines(num: u8) -> Option<(bool, bool, bool)> {
    if num == 1 {
        Some((true, true, true))
    } else if num == 2 {
        Some((false, false, false))
    } else if num == 3 {
        Some((false, false, true))
    } else if num == 4 {
        Some((true, false, false))
    } else if num == 5 {
        Some((true, false, true))
    } else if num == 6 {
        Some((false, true, false))
    } else if num == 7 {
        Some((false, true, true))
    } else if num == 8 {
        Some((true, true, false))
    } else {
        None
    }
}

/// The byte of a line.
pub open spec fn line_byte(solid: bool) -> u8 {
    if solid { SOLID } else { BROKEN }
}

/// The bitmap of trigram number `num`: each line two rows high with a dark
/// row between lines; a dark display for any other number.
pub open spec fn trigram_rows(num: u8) -> Seq<u8> {
    match trigram_lines(num) {
        Some(l) => seq![line_byte(l.0), line_byte(l.0), 0u8, line_byte(l.1), line_byte(l.1), 0u8, line_byte(l.2), line_byte(l.2)],
        None => seq![0u8, 0u8, 0u8, 0u8, 0u8, 0u8, 0u8, 0u8],
    }
}

/// The byte of a line.
fn line(solid: bool) -> (r: u8)
    ensures
        r == line_byte(solid),
{
    if solid { SOLID } else { BROKEN }
}

impl BaGua {
    /// The bitmap of trigram number `num` (1 to 8).
    pub fn bagua(num: u8) -> (r: [u8; 8])
        ensures
            r@ == trigram_rows(num),
    {
        let lines = if num == 1 {
            Some((true, true, true))
        } else if num == 2 {
            Some((false, false, false))
        } else if num == 3 {
            Some((false, false, true))
        } else if num == 4 {
            Some((true, false, false))
        } else if num == 5 {
            Some((true, false, true))
        } else if num == 6 {
            Some((false, true, false))
        } else if num == 7 {
            Some((false, true, true))
        } else if num == 8 {
            Some((true, true, false))
        } else {
            None
        };
        let r = match lines {
            Some(l) => {
                let a = line(l.0);
                let b = line(l.1);
                let c = line(l.2);
                [a, a, 0, b, b, 0, c, c]
            },
            None => [0u8; 8],
        };
        assert(r@ =~= trigram_rows(num));
        r
    }

    /// The bitmap of a trigram drawn from `rng`, each of the eight alike likely.
    pub fn random(rng: &mut CubeRng) -> (r: [u8; 8])
        ensures
            r@ == trigram_rows(random_of(old(rng).0, 1, 9) as u8),
    {
        let num = rng.random(1, 9) as u8;
        BaGua::bagua(num)
    }
}

/// The dice.
#[derive(Debug, Clone, Copy)]
pub struct Dice;

/// The face of the die showing `num` (1 to 6); a dark display for any other number.
pub open spec fn die_rows(num: u8) -> Seq<u8> {
    if num == 1 {
        seq![0b00000000u8, 0b00011000, 0b00111100, 0b01111110, 0b01111110, 0b00111100, 0b00011000, 0b00000000]
    } else if num == 2 {
        seq![0b00000110u8, 0b00001111, 0b00001111, 0b00000110, 0b01100000, 0b11110000, 0b11110000, 0b01100000]
    } else if num == 3 {
        seq![0b00011000u8, 0b00111100, 0b00111100, 0b00011000, 0b11000011, 0b11100111, 0b11100111, 0b11100111]
    } else if num == 4 {
        seq![0b11100111u8, 0b11100111, 0b11100111, 0b00000000, 0b00000000, 0b11100111, 0b11100111, 0b11100111]
    } else if num == 5 {
        seq![0b11100111u8, 0b11100111, 0b11011011, 0b00111100, 0b00111100, 0b11011011, 0b11100111, 0b11100111]
    } else if num == 6 {
        seq![0b11100111u8, 0b11100111, 0b00000000, 0b11100111, 0b11100111, 0b00000000, 0b11100111, 0b11100111]
    } else {
        seq![0u8, 0u8, 0u8, 0u8, 0u8, 0u8, 0u8, 0u8]
    }
}

impl Dice {
    /// The face of the die showing `num`.
    pub fn dice(num: u8) -> (r: [u8; 8])
        ensures
            r@ == die_rows(num),
    {
        let r = if num == 1 {
            [0b00000000u8, 0b00011000, 0b00111100, 0b01111110, 0b01111110, 0b00111100, 0b00011000, 0b00000000]
        } else if num == 2 {
            [0b00000110u8, 0b00001111, 0b00001111, 0b00000110, 0b01100000, 0b11110000, 0b11110000, 0b01100000]
        } else if num == 3 {
            [0b00011000u8, 0b00111100, 0b00111100, 0b00011000, 0b11000011, 0b11100111, 0b11100111, 0b11100111]
        } else if num == 4 {
            [0b11100111u8, 0b11100111, 0b11100111, 0b00000000, 0b00000000, 0b11100111, 0b11100111, 0b11100111]
        } else if num == 5 {
            [0b11100111u8, 0b11100111, 0b11011011, 0b00111100, 0b00111100, 0b11011011, 0b11100111, 0b11100111]
        } else if num == 6 {
            [0b11100111u8, 0b11100111, 0b00000000, 0b11100111, 0b11100111, 0b00000000, 0b11100111, 0b11100111]
        } else {
            [0u8; 8]
        };
        assert(r@ =~= die_rows(num));
        r
    }

    /// A face drawn from `rng`, each of the six alike likely.
    pub fn random(rng: &mut CubeRng) -> (r: [u8; 8])
        ensures
            r@ == die_rows(random_of(old(rng).0, 1, 7) as u8),
    {
        let num = rng.random(1, 7) as u8;
        Dice::dice(num)
    }
}

} // verus!
