//! How the pixels of a rectangular LED matrix map to the positions of its LEDs
//! on the strip, row by row, with either axis possibly mirrored.

use core::marker::PhantomData;

use vstd::prelude::*;

use crate::geometry::Point;

verus! {

/// Neither axis is mirrored.
pub struct NoInvert;

/// The x axis is mirrored.
pub struct InvertX;

/// The y axis is mirrored.
pub struct InvertY;

/// Both axes are mirrored.
pub struct InvertXY;

/// A rectangular matrix of `width` by `height` LEDs wired row by row.
pub struct Rectangular<I> {
    pub width: u32,
    pub height: u32,
    pub invert_x: bool,
    pub invert_y: bool,
    pub invert_axis: PhantomData<I>,
}

/// The matrix is not empty, each side fits `i32`, and every LED has an index.
pub open spec fn layout_ok(width: u32, height: u32) -> bool {
    &&& 0 < width <= i32::MAX
    &&& 0 < height <= i32::MAX
    &&& width as int * height as int <= usize::MAX
}

/// The strip index of the pixel at `p`, after mirroring; `None` off the matrix.
pub open spec fn strip_index(width: u32, height: u32, invert_x: bool, invert_y: bool, p: Point) -> Option<int> {
    let x = if invert_x { width - 1 - p.x } else { p.x as int };
    let y = if invert_y { height - 1 - p.y } else { p.y as int };
    if 0 <= x < width && 0 <= y < height {
        Some(y * width + x)
    } else {
        None
    }
}

impl<I> Rectangular<I> {
    fn new_common(width: u32, height: u32, invert_x: bool, invert_y: bool) -> (r: Self)
        ensures
            r.width == width,
            r.height == height,
            r.invert_x == invert_x,
            r.invert_y == invert_y,
    {
        Rectangular { width, height, invert_x, invert_y, invert_axis: PhantomData }
    }

    /// The strip index of the pixel at `p`; `None` off the matrix.
    pub fn map(&self, p: Point) -> (r: Option<usize>)
        requires
            layout_ok(self.width, self.height),
        ensures
            match strip_index(self.width, self.height, self.invert_x, self.invert_y, p) {
                Some(i) => r == Some(i as usize),
                None => r is None,
            },
    {
        let x: i64 = if self.invert_x { self.width as i64 - 1 - p.x as i64 } else { p.x as i64 };
        let y: i64 = if self.invert_y { self.height as i64 - 1 - p.y as i64 } else { p.y as i64 };
        if x >= 0 && y >= 0 && x < self.width as i64 && y < self.height as i64 {
            let w = self.width as u64;
            let h = self.height as u64;
            let ux = x as u64;
            let uy = y as u64;
            proof {
                assert(uy * w + ux < w * h) by (nonlinear_arith)
                    requires ux < w, uy < h;
                assert(uy * w + ux <= u64::MAX) by (nonlinear_arith)
                    requires ux < w, uy < h, w <= i32::MAX, h <= i32::MAX;
            }
            Some((uy * w + ux) as usize)
        } else {
            None
        }
    }
}

impl Rectangular<NoInvert> {
    /// A matrix wired in reading order.
    pub fn new(width: u32, height: u32) -> (r: Self)
        ensures
            r.width == width && r.height == height && !r.invert_x && !r.invert_y,
    {
        Self::new_common(width, height, false, false)
    }
}

impl Rectangular<InvertX> {
    /// A matrix whose rows run right to left.
    pub fn new_invert_x(width: u32, height: u32) -> (r: Self)
        ensures
            r.width == width && r.height == height && r.invert_x && !r.invert_y,
    {
        Self::new_common(width, height, true, false)
    }
}

impl Rectangular<InvertY> {
    /// A matrix whose rows run bottom to top.
    pub fn new_invert_y(width: u32, height: u32) -> (r: Self)
        ensures
            r.width == width && r.height == height && !r.invert_x && r.invert_y,
    {
        Self::new_common(width, height, false, true)
    }
}

impl Rectangular<InvertXY> {
    /// A matrix turned half around.
    pub fn new_invert_xy(width: u32, height: u32) -> (r: Self)
        ensures
            r.width == width && r.height == height && r.invert_x && r.invert_y,
    {
        Self::new_common(width, height, true, true)
    }
}

} // verus!
