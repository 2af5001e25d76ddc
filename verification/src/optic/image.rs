//! The pixel raster, and the render that fills it pixel by pixel.
//!
//! Axes: `x` runs to the right and `y` runs down, so rows are counted from the
//! top and columns from the left; `z` points into the scene.

use crate::error::RayTracingError;
use crate::optic::color::channel;
use crate::optic::color::Color;
use crate::optic::trace::background_color;
use vstd::prelude::*;

verus! {

/// The width of the raster that [`Grid::default`] makes.
pub const GRID_WIDTH: usize = 1920;

/// The height of the raster that [`Grid::default`] makes.
pub const GRID_HEIGHT: usize = 1080;

/// The seed of the stream of random directions of a render.
pub const SAMPLING_SEED: u64 = 51468412518;

/// The colour of a path that meets nothing: black.
pub fn get_background_color() -> (r: Result<Color, RayTracingError>)
    ensures
        r == Ok::<Color, RayTracingError>(background_color()),
{
    Ok(Color::black())
}

/// A raster of colours, stored row by row from the top.
#[derive(Debug)]
pub struct Grid {
    pub width: usize,
    pub height: usize,
    pub colors: Vec<Vec<Color>>,
}

impl Grid {
    /// The raster has `height` rows of `width` pixels each.
    pub open spec fn wf(&self) -> bool {
        &&& self.colors.len() == self.height
        &&& forall|row: int|
            0 <= row < self.height ==> (#[trigger] self.colors[row]).len() == self.width
    }

    /// The colour of the pixel in row `row` and column `column`.
    pub open spec fn pixel(&self, row: int, column: int) -> Color {
        self.colors[row][column]
    }

    /// The rows of the raster, from the top.
    pub open spec fn rows(&self) -> Seq<Seq<Color>> {
        Seq::new(self.colors.len() as nat, |row: int| self.colors[row]@)
    }

    /// Whether every pixel is black.
    pub open spec fn is_black(&self) -> bool {
        forall|row: int, column: int|
            0 <= row < self.height && 0 <= column < self.width ==> #[trigger] self.pixel(
                row,
                column,
            ) == Color::black()
    }

    /// The raster as bytes: pixel after pixel in row-major order, and for each
    /// pixel its red, green and blue channel.
    pub open spec fn rgb_bytes(&self) -> Seq<u8> {
        Seq::new(
            (3 * (self.height * self.width)) as nat,
            |i: int|
                channel(
                    self.pixel((i / 3) / (self.width as int), (i / 3) % (self.width as int)),
                    i % 3,
                ),
        )
    }

    /// A black raster of the given size.
    pub fn new(width: usize, height: usize) -> (grid: Grid)
        ensures
            grid.wf(),
            grid.width == width,
            grid.height == height,
            grid.is_black(),
    {
        let mut colors: Vec<Vec<Color>> = Vec::new();
        let mut row: usize = 0;
        while row < height
            invariant
                row <= height,
                colors.len() == row,
                forall|r: int| 0 <= r < row ==> (#[trigger] colors[r]).len() == width,
                forall|r: int, c: int|
                    0 <= r < row && 0 <= c < width ==> (#[trigger] colors[r][c]) == Color::black(),
            decreases height - row,
        {
            let mut line: Vec<Color> = Vec::new();
            let mut column: usize = 0;
            while column < width
                invariant
                    column <= width,
                    line.len() == column,
                    forall|c: int| 0 <= c < column ==> (#[trigger] line[c]) == Color::black(),
                decreases width - column,
            {
                line.push(Color::black());
                column = column + 1;
            }
            colors.push(line);
            row = row + 1;
        }
        Grid { width, height, colors }
    }

    /// Whether the raster has `height` rows of `width` pixels each.
    pub fn is_rectangular(&self) -> (rectangular: bool)
        ensures
            rectangular == self.wf(),
    {
        if self.colors.len() != self.height {
            return false;
        }
        let mut row: usize = 0;
        while row < self.height
            invariant
                row <= self.height,
                self.colors.len() == self.height,
                forall|r: int| 0 <= r < row ==> (#[trigger] self.colors[r]).len() == self.width,
            decreases self.height - row,
        {
            if self.colors[row].len() != self.width {
                return false;
            }
            row = row + 1;
        }
        true
    }

    pub fn width(&self) -> (width: usize)
        ensures
            width == self.width,
    {
        self.width
    }

    pub fn height(&self) -> (height: usize)
        ensures
            height == self.height,
    {
        self.height
    }

    /// The colour of one pixel.
    pub fn get_pixel(&self, row: usize, column: usize) -> (color: Color)
        requires
            self.wf(),
            row < self.height,
            column < self.width,
        ensures
            color == self.pixel(row as int, column as int),
    {
        self.colors[row][column]
    }

    /// Colours one pixel and leaves every other pixel as it was.
    pub fn set_pixel(&mut self, row: usize, column: usize, color: Color)
        requires
            old(self).wf(),
            row < old(self).height,
            column < old(self).width,
        ensures
            final(self).wf(),
            final(self).width == old(self).width,
            final(self).height == old(self).height,
            final(self).rows() == old(self).rows().update(
                row as int,
                old(self).rows()[row as int].update(column as int, color),
            ),
            final(self).pixel(row as int, column as int) == color,
            forall|r: int, c: int|
                0 <= r < old(self).height && 0 <= c < old(self).width && (r != row || c != column)
                    ==> final(self).pixel(r, c) == old(self).pixel(r, c),
    {
        self.colors[row][column] = color;
        assert(self.rows() =~= old(self).rows().update(
            row as int,
            old(self).rows()[row as int].update(column as int, color),
        ));
    }

    /// The raster as the bytes that an image encoder takes: three bytes for
    /// each pixel, rows from the top, pixels from the left.
    pub fn export_image(&self) -> (bytes: Vec<u8>)
        requires
            self.wf(),
        ensures
            bytes@ == self.rgb_bytes(),
    {
        let mut bytes: Vec<u8> = Vec::new();
        let mut row: usize = 0;
        while row < self.height
            invariant
                self.wf(),
                row <= self.height,
                bytes.len() == 3 * (row * self.width),
                forall|i: int| 0 <= i < bytes.len() ==> bytes[i] == self.rgb_bytes()[i],
            decreases self.height - row,
        {
            let mut column: usize = 0;
            while column < self.width
                invariant
                    self.wf(),
                    row < self.height,
                    column <= self.width,
                    bytes.len() == 3 * (row * self.width + column),
                    forall|i: int| 0 <= i < bytes.len() ==> bytes[i] == self.rgb_bytes()[i],
                decreases self.width - column,
            {
                let color = self.colors[row][column];
                proof {
                    let place = row * self.width + column;
                    pixel_place_is_unique(row as int, column as int, self.width as int);
                    assert(place < self.height * self.width) by (nonlinear_arith)
                        requires
                            place == row * self.width + column,
                            row < self.height,
                            column < self.width,
                    ;
                    assert((3 * place) / 3 == place && (3 * place) % 3 == 0);
                    assert((3 * place + 1) / 3 == place && (3 * place + 1) % 3 == 1);
                    assert((3 * place + 2) / 3 == place && (3 * place + 2) % 3 == 2);
                }
                bytes.push(color.r);
                bytes.push(color.g);
                bytes.push(color.b);
                column = column + 1;
            }
            assert(row * self.width + self.width == (row + 1) * self.width) by (nonlinear_arith);
            row = row + 1;
        }
        bytes
    }
}

/// In a raster of `width` columns the pixel in row `row` and column `column`
/// is the one at place `row * width + column`, and no other.
pub proof fn pixel_place_is_unique(row: int, column: int, width: int)
    requires
        0 <= row,
        0 <= column < width,
    ensures
        (row * width + column) / width == row,
        (row * width + column) % width == column,
{
    vstd::arithmetic::div_mod::lemma_fundamental_div_mod_converse(
        row * width + column,
        width,
        row,
        column,
    );
}

impl Default for Grid {
    /// A black raster of 1920 by 1080 pixels.
    fn default() -> (grid: Grid)
        ensures
            grid.wf(),
            grid.width == GRID_WIDTH,
            grid.height == GRID_HEIGHT,
            grid.is_black(),
    {
        Grid::new(GRID_WIDTH, GRID_HEIGHT)
    }
}

} // verus!
