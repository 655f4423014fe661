//! The pixel grid that a render fills.

use vstd::prelude::*;
use crate::color::Color;

verus! {

/// A grid of `height` rows of `width` colours. Row 0 is the top of the image.
#[derive(Debug, PartialEq, Eq)]
pub struct Canvas {
    pub height: usize,
    pub width: usize,
    pub pixels: Vec<Vec<Color>>,
}

impl View for Canvas {
    type V = Seq<Seq<Color>>;

    /// The rows of the grid, each as a sequence of colours.
    open spec fn view(&self) -> Seq<Seq<Color>> {
        self.pixels@.map_values(|row: Vec<Color>| row@)
    }
}

impl Canvas {
    /// The grid has exactly the declared number of rows and columns.
    pub open spec fn wf(&self) -> bool {
        &&& self@.len() == self.height
        &&& forall|y: int| 0 <= y < self@.len() ==> (#[trigger] self@[y]).len() == self.width
    }

    /// The grid holds a pixel in column `x` of row `y`. On a well-formed
    /// canvas these are the positions within the declared width and height.
    pub open spec fn holds(&self, x: int, y: int) -> bool {
        0 <= y < self@.len() && 0 <= x < self@[y].len()
    }

    /// A canvas of the given size with every pixel black.
    pub fn init(width: usize, height: usize) -> (canvas: Canvas)
        ensures
            canvas.wf(),
            canvas.width == width,
            canvas.height == height,
            forall|x: int, y: int| canvas.holds(x, y) ==> canvas@[y][x] == Color::black(),
    {
        let mut pixels: Vec<Vec<Color>> = Vec::new();
        let mut y: usize = 0;
        while y < height
            invariant
                y <= height,
                pixels@.len() == y,
                forall|j: int| 0 <= j < y ==> (#[trigger] pixels@[j])@.len() == width,
                forall|i: int, j: int|
                    0 <= i < width && 0 <= j < y ==> pixels@[j]@[i] == Color::black(),
            decreases height - y,
        {
            let mut row: Vec<Color> = Vec::new();
            let mut x: usize = 0;
            while x < width
                invariant
                    x <= width,
                    row@.len() == x,
                    forall|i: int| 0 <= i < x ==> row@[i] == Color::black(),
                decreases width - x,
            {
                row.push(Color::black());
                x += 1;
            }
            pixels.push(row);
            y += 1;
        }
        Canvas { height, width, pixels }
    }

    /// The pixel in column `x` of row `y`.
    pub fn pixel_at(&self, x: usize, y: usize) -> (color: &Color)
        requires
            self.holds(x as int, y as int),
        ensures
            *color == self@[y as int][x as int],
    {
        &self.pixels[y][x]
    }

    /// Sets the pixel in column `x` of row `y` and leaves everything else as it was.
    pub fn write_pixel(&mut self, x: usize, y: usize, color: Color)
        requires
            old(self).holds(x as int, y as int),
        ensures
            final(self).width == old(self).width,
            final(self).height == old(self).height,
            final(self)@ == old(self)@.update(y as int, old(self)@[y as int].update(x as int, color)),
            old(self).wf() ==> final(self).wf(),
    {
        self.pixels[y][x] = color;
        assert(self@ =~= old(self)@.update(y as int, old(self)@[y as int].update(x as int, color)));
    }
}

} // verus!
