//! The render of a whole raster, as a state machine.
//!
//! Pixels are rendered one after the other, row by row from the top and from
//! left to right within a row. Each pixel is traced by a
//! [`PixelTrace`](crate::optic::trace::PixelTrace) and written once, when its
//! last sample is summed. As for a single pixel, the caller owns the geometry:
//! it asks [`Render::next_cast`] which ray is wanted and for which pixel, casts
//! it, and reports what the ray met to [`Render::record`].

use crate::optic::color::Color;
use crate::optic::image::Grid;
use crate::optic::image::pixel_place_is_unique;
use crate::optic::trace::is_path;
use crate::optic::trace::mean_gathered;
use crate::optic::trace::path_is_under_way_until_its_end;
use crate::optic::trace::record_makes_progress;
use crate::optic::trace::total_gathered;
use crate::optic::trace::total_is_the_true_sum;
use crate::optic::trace::trace_sums_the_light_of_a_path;
use crate::optic::trace::BounceEvent;
use crate::optic::trace::Cast;
use crate::optic::trace::PixelTrace;
use vstd::prelude::*;

verus! {

/// A render under way: the raster, the pixel being traced, and its trace.
#[derive(Debug)]
pub struct Render {
    /// The raster. The pixels before the cursor are final.
    grid: Grid,
    /// The row of the pixel being traced; the height of the raster once the
    /// render has finished.
    row: usize,
    /// The column of the pixel being traced.
    column: usize,
    /// The trace of the pixel being traced.
    pixel: PixelTrace,
}

/// The ray that a render wants cast next.
#[derive(Clone, Copy, Debug)]
pub struct PixelCast {
    /// The row of the pixel that the ray is cast for.
    pub row: usize,
    /// The column of the pixel that the ray is cast for.
    pub column: usize,
    /// The ray.
    pub cast: Cast,
}

/// What a render is, with the raster as the sequence of its rows.
pub struct RenderModel {
    pub width: usize,
    pub height: usize,
    pub rows: Seq<Seq<Color>>,
    pub row: usize,
    pub column: usize,
    pub pixel: PixelTrace,
}

/// A raster of black rows.
pub open spec fn black_rows(width: usize, height: usize) -> Seq<Seq<Color>> {
    Seq::new(height as nat, |row: int| Seq::new(width as nat, |column: int| Color::black()))
}

impl RenderModel {
    /// What a render keeps true of itself: the raster is rectangular, the
    /// cursor is on a pixel whose trace wants a ray, or past the last row.
    pub open spec fn wf(self) -> bool {
        &&& self.rows.len() == self.height
        &&& forall|row: int| 0 <= row < self.height ==> (#[trigger] self.rows[row]).len() == self.width
        &&& self.pixel.wf()
        &&& if self.row < self.height {
            self.column < self.width && !self.pixel.finished()
        } else {
            self.row == self.height && self.column == 0
        }
    }

    /// The start of a render of `samples` samples a pixel into the raster
    /// `rows`. With no sample to take, no ray allowed or no pixel to trace,
    /// the render has finished before it starts; with no sample to take or no
    /// ray allowed, every pixel is black.
    pub open spec fn start(
        rows: Seq<Seq<Color>>,
        width: usize,
        height: usize,
        samples: usize,
        budget: u64,
    ) -> RenderModel {
        RenderModel {
            width,
            height,
            rows: if samples == 0 || budget == 0 {
                black_rows(width, height)
            } else {
                rows
            },
            row: if samples == 0 || budget == 0 || width == 0 {
                height
            } else {
                0
            },
            column: 0,
            pixel: PixelTrace::spec_new(samples, budget),
        }
    }

    /// Whether every pixel has been written.
    pub open spec fn finished(self) -> bool {
        self.row >= self.height
    }

    /// The ray wanted next, if any: the one that the trace of the pixel under
    /// the cursor wants.
    pub open spec fn next_cast(self) -> Option<PixelCast> {
        if self.finished() {
            None
        } else {
            match self.pixel.next_cast() {
                Some(cast) => Some(PixelCast { row: self.row, column: self.column, cast }),
                None => None,
            }
        }
    }

    /// The render once `event` is taken in. The trace of the pixel under the
    /// cursor takes the event; if that was the end of its last sample, the
    /// pixel is written with the colour of the trace, the cursor moves on to
    /// the next pixel in row-major order, and a new trace starts. A finished
    /// render takes nothing in.
    pub open spec fn record(self, event: BounceEvent) -> RenderModel {
        let pixel = self.pixel.spec_record(event);
        if self.finished() {
            self
        } else if !pixel.finished() {
            RenderModel { pixel, ..self }
        } else {
            self.with_pixel(pixel.color())
        }
    }

    /// The render once the events of `events` are taken in, in order.
    pub open spec fn after(self, events: Seq<BounceEvent>) -> RenderModel
        decreases events.len(),
    {
        if events.len() == 0 {
            self
        } else {
            self.after(events.drop_last()).record(events.last())
        }
    }

    /// The render once the events of every path of `paths` are taken in, path
    /// after path.
    pub open spec fn after_paths(self, paths: Seq<Seq<BounceEvent>>) -> RenderModel
        decreases paths.len(),
    {
        if paths.len() == 0 {
            self
        } else {
            self.after_paths(paths.drop_last()).after(paths.last())
        }
    }

    /// The render once the paths of every pixel of `pixels` are taken in,
    /// pixel after pixel.
    pub open spec fn after_pixels(self, pixels: Seq<Seq<Seq<BounceEvent>>>) -> RenderModel
        decreases pixels.len(),
    {
        if pixels.len() == 0 {
            self
        } else {
            self.after_pixels(pixels.drop_last()).after_paths(pixels.last())
        }
    }

    /// The render with the pixel under the cursor written and the cursor on
    /// the next pixel, in row-major order, with a new trace.
    pub open spec fn with_pixel(self, color: Color) -> RenderModel {
        let last_of_row = self.column + 1 >= self.width;
        RenderModel {
            rows: self.rows.update(
                self.row as int,
                self.rows[self.row as int].update(self.column as int, color),
            ),
            row: if last_of_row {
                (self.row + 1) as usize
            } else {
                self.row
            },
            column: if last_of_row {
                0
            } else {
                (self.column + 1) as usize
            },
            pixel: PixelTrace::spec_new(self.pixel.samples, self.pixel.budget),
            ..self
        }
    }

    /// The number of pixels that come after the one under the cursor.
    pub open spec fn pixels_after_cursor(self) -> int {
        (self.height - self.row) * self.width - self.column - 1
    }

    /// An upper bound on the number of rays still to be cast.
    pub open spec fn casts_left(self) -> int {
        if self.finished() {
            0
        } else {
            self.pixels_after_cursor() * (self.pixel.samples * self.pixel.budget)
                + self.pixel.casts_left()
        }
    }
}

impl View for Render {
    type V = RenderModel;

    closed spec fn view(&self) -> RenderModel {
        RenderModel {
            width: self.grid.width,
            height: self.grid.height,
            rows: self.grid.rows(),
            row: self.row,
            column: self.column,
            pixel: self.pixel,
        }
    }
}

impl Grid {
    /// Starts a render into this raster: `number_of_points_per_pixel` samples
    /// for each pixel, each allowed `number_of_bounces` rays, the one from the
    /// eye included.
    pub fn make_image(self, number_of_points_per_pixel: usize, number_of_bounces: u64) -> (render:
        Render)
        requires
            self.wf(),
        ensures
            render@ == RenderModel::start(
                self.rows(),
                self.width,
                self.height,
                number_of_points_per_pixel,
                number_of_bounces,
            ),
            render@.wf(),
    {
        let pixel = PixelTrace::new(number_of_points_per_pixel, number_of_bounces);
        if number_of_points_per_pixel == 0 || number_of_bounces == 0 {
            let grid = Grid::new(self.width, self.height);
            assert(grid.rows() =~= black_rows(self.width, self.height)) by {
                assert forall|row: int| 0 <= row < grid.height implies #[trigger] grid.rows()[row]
                    =~= black_rows(self.width, self.height)[row] by {
                    assert forall|column: int| 0 <= column < grid.width implies grid.rows()[row][column]
                        == Color::black() by {
                        assert(grid.pixel(row, column) == Color::black());
                    }
                }
            }
            let row = grid.height;
            Render { grid, row, column: 0, pixel }
        } else if self.width == 0 || self.height == 0 {
            let row = self.height;
            Render { grid: self, row, column: 0, pixel }
        } else {
            Render { grid: self, row: 0, column: 0, pixel }
        }
    }
}

impl Render {
    #[verifier::type_invariant]
    spec fn well_formed(self) -> bool {
        self@.wf()
    }

    /// Whether every pixel has been written.
    pub fn finished(&self) -> (done: bool)
        ensures
            done == self@.finished(),
            self@.wf(),
    {
        proof {
            use_type_invariant(self);
        }
        self.row >= self.grid.height
    }

    /// The ray to cast next and the pixel it is cast for, or `None` once the
    /// render has finished.
    pub fn next_cast(&self) -> (wanted: Option<PixelCast>)
        ensures
            wanted == self@.next_cast(),
            self@.wf(),
    {
        proof {
            use_type_invariant(self);
        }
        if self.row >= self.grid.height {
            None
        } else {
            match self.pixel.next_cast() {
                Some(cast) => Some(PixelCast { row: self.row, column: self.column, cast }),
                None => None,
            }
        }
    }

    /// The throughput of the path in flight.
    pub fn throughput(&self) -> (filter: Color)
        ensures
            filter == self@.pixel.path.throughput,
    {
        self.pixel.throughput()
    }

    /// Takes in what the ray asked for by [`Render::next_cast`] met, and hands
    /// the render on. Once the render has finished, no ray is wanted and the
    /// event is dropped.
    pub fn record(self, event: BounceEvent) -> (next: Render)
        ensures
            next@ == self@.record(event),
            next@.wf(),
    {
        proof {
            use_type_invariant(&self);
            grid_is_its_rows(&self.grid);
        }
        if self.row >= self.grid.height {
            return self;
        }
        let Render { grid, row, column, pixel } = self;
        let mut grid = grid;
        let mut pixel = pixel;
        pixel.record(event);
        if pixel.finished() {
            grid.set_pixel(row, column, pixel.color());
            proof {
                grid_is_its_rows(&grid);
            }
            let fresh = PixelTrace::new(pixel.samples, pixel.budget);
            if column + 1 >= grid.width {
                Render { grid, row: row + 1, column: 0, pixel: fresh }
            } else {
                Render { grid, row, column: column + 1, pixel: fresh }
            }
        } else {
            Render { grid, row, column, pixel }
        }
    }

    /// Hands out the raster. It is complete once the render has finished.
    pub fn into_grid(self) -> (grid: Grid)
        ensures
            grid.wf(),
            grid.width == self@.width,
            grid.height == self@.height,
            grid.rows() == self@.rows,
    {
        proof {
            use_type_invariant(&self);
            grid_is_its_rows(&self.grid);
        }
        self.grid
    }
}

/// A raster is rectangular exactly when the sequence of its rows is, and a
/// pixel of the raster is the same pixel of its rows.
pub proof fn grid_is_its_rows(grid: &Grid)
    ensures
        grid.rows().len() == grid.colors.len(),
        grid.wf() <==> (grid.rows().len() == grid.height && forall|row: int|
            0 <= row < grid.height ==> (#[trigger] grid.rows()[row]).len() == grid.width),
        forall|row: int, column: int|
            0 <= row < grid.colors.len() ==> grid.rows()[row][column] == #[trigger] grid.pixel(
                row,
                column,
            ),
{
    if grid.rows().len() == grid.height && (forall|row: int|
        0 <= row < grid.height ==> (#[trigger] grid.rows()[row]).len() == grid.width) {
        assert forall|row: int| 0 <= row < grid.height implies (#[trigger] grid.colors[row]).len()
            == grid.width by {
            assert(grid.rows()[row].len() == grid.width);
        }
    }
    if grid.wf() {
        assert forall|row: int| 0 <= row < grid.height implies (#[trigger] grid.rows()[row]).len()
            == grid.width by {
            assert(grid.colors[row].len() == grid.width);
        }
    }
}

/// Every recorded event brings the render strictly closer to its end: a
/// caller that casts while a ray is wanted casts at most
/// `width * height * samples * budget` rays.
pub proof fn render_makes_progress(render: RenderModel, event: BounceEvent)
    requires
        render.wf(),
        !render.finished(),
    ensures
        render.record(event).wf(),
        0 <= render.record(event).casts_left() < render.casts_left(),
{
    let after = render.record(event);
    let per_pixel = render.pixel.samples * render.pixel.budget;
    record_makes_progress(render.pixel, event);
    let traced = render.pixel.spec_record(event);
    let rest = render.pixels_after_cursor();
    assert(rest >= 0) by (nonlinear_arith)
        requires
            rest == (render.height - render.row) * render.width - render.column - 1,
            render.row < render.height,
            render.column < render.width,
    ;
    assert(rest * per_pixel >= 0) by (nonlinear_arith)
        requires
            rest >= 0,
            per_pixel >= 0,
    ;
    if traced.finished() {
        let fresh = PixelTrace::spec_new(render.pixel.samples, render.pixel.budget);
        assert(fresh.casts_left() == per_pixel);
        assert(fresh.wf() && !fresh.finished());
        if render.column + 1 >= render.width {
            assert(rest == (render.height - render.row - 1) * render.width) by (nonlinear_arith)
                requires
                    rest == (render.height - render.row) * render.width - render.column - 1,
                    render.column + 1 == render.width,
            ;
            if render.row + 1 < render.height {
                assert(after.pixels_after_cursor() == rest - 1);
                assert((rest - 1) * per_pixel + per_pixel == rest * per_pixel) by (nonlinear_arith);
            }
        } else {
            assert(after.pixels_after_cursor() == rest - 1);
            assert((rest - 1) * per_pixel + per_pixel == rest * per_pixel) by (nonlinear_arith);
        }
    }
}

/// A pixel is written once: an event changes no pixel but the one under the
/// cursor, and changes that one only when it ends the pixel's last sample, to
/// the mean of the samples. The size of the raster never changes.
pub proof fn render_writes_one_pixel(render: RenderModel, event: BounceEvent, row: int, column: int)
    requires
        render.wf(),
        !render.finished(),
        0 <= row < render.height,
        0 <= column < render.width,
    ensures
        render.record(event).width == render.width,
        render.record(event).height == render.height,
        row != render.row || column != render.column ==> render.record(event).rows[row][column]
            == render.rows[row][column],
        !render.pixel.spec_record(event).finished() ==> render.record(event).rows == render.rows,
        render.pixel.spec_record(event).finished() ==> render.record(event).rows[render.row as int][render.column as int]
            == render.pixel.spec_record(event).color(),
{
}

/// A render wants a ray exactly as long as it has not finished, and always for
/// the pixel under the cursor.
pub proof fn cast_wanted_until_render_finished(render: RenderModel)
    requires
        render.wf(),
    ensures
        render.next_cast() is None <==> render.finished(),
        render.next_cast() matches Some(wanted) ==> wanted.row == render.row && wanted.column
            == render.column && wanted.row < render.height && wanted.column < render.width,
{
}

/// Whether `paths` is what the samples of one pixel meet: one path for each
/// sample.
pub open spec fn is_pixel(paths: Seq<Seq<BounceEvent>>, samples: usize, budget: u64) -> bool {
    &&& paths.len() == samples
    &&& forall|k: int| 0 <= k < paths.len() ==> is_path(#[trigger] paths[k], budget)
}

/// The colour of a pixel whose samples meet `paths`: the mean of what the
/// paths gather, for each channel the sum over the paths divided by their
/// number.
pub open spec fn pixel_mean(paths: Seq<Seq<BounceEvent>>) -> Color {
    mean_gathered(paths)
}

proof fn render_follows_path(render: RenderModel, events: Seq<BounceEvent>, taken: int)
    requires
        render.wf(),
        !render.finished(),
        render.pixel.path.bounces == 0,
        is_path(events, render.pixel.budget),
        0 <= taken <= events.len(),
        taken == events.len() ==> render.pixel.done + 1 < render.pixel.samples,
    ensures
        render.after(events.take(taken)) == (RenderModel {
            pixel: render.pixel.after(events.take(taken)),
            ..render
        }),
    decreases taken,
{
    if taken > 0 {
        render_follows_path(render, events, taken - 1);
        let prefix = events.take(taken);
        assert(prefix.drop_last() == events.take(taken - 1));
        assert(prefix.last() == events[taken - 1]);
        path_is_under_way_until_its_end(render.pixel, events, taken - 1);
        if taken < events.len() {
            path_is_under_way_until_its_end(render.pixel, events, taken);
        } else {
            assert(events.take(taken) == events);
            trace_sums_the_light_of_a_path(render.pixel, events);
        }
    }
}

proof fn render_follows_pixel(render: RenderModel, paths: Seq<Seq<BounceEvent>>, taken: int)
    requires
        render.wf(),
        !render.finished(),
        render.pixel == PixelTrace::spec_new(render.pixel.samples, render.pixel.budget),
        is_pixel(paths, render.pixel.samples, render.pixel.budget),
        0 <= taken < paths.len(),
    ensures
        render.after_paths(paths.take(taken)) == (RenderModel {
            pixel: PixelTrace {
                done: taken as usize,
                total: total_gathered(paths.take(taken)),
                ..render.pixel
            },
            ..render
        }),
    decreases taken,
{
    if taken > 0 {
        render_follows_pixel(render, paths, taken - 1);
        let prefix = paths.take(taken);
        assert(prefix.drop_last() == paths.take(taken - 1));
        assert(prefix.last() == paths[taken - 1]);
        total_is_the_true_sum(paths.take(taken - 1));
        let before = render.after_paths(paths.take(taken - 1));
        let events = paths[taken - 1];
        render_follows_path(before, events, events.len() as int);
        assert(events.take(events.len() as int) == events);
        trace_sums_the_light_of_a_path(before.pixel, events);
    }
}

/// A render writes each pixel with the mean of what its samples gather: from
/// the start of a pixel, taking in one path for each sample writes the pixel
/// under the cursor with the mean of the light gathered by the paths, moves
/// the cursor on, and changes nothing else.
pub proof fn render_writes_the_mean_of_a_pixel(render: RenderModel, paths: Seq<Seq<BounceEvent>>)
    requires
        render.wf(),
        !render.finished(),
        render.pixel == PixelTrace::spec_new(render.pixel.samples, render.pixel.budget),
        is_pixel(paths, render.pixel.samples, render.pixel.budget),
    ensures
        render.after_paths(paths) == render.with_pixel(pixel_mean(paths)),
        render.after_paths(paths).wf(),
{
    let taken = paths.len() - 1;
    render_follows_pixel(render, paths, taken);
    assert(paths.drop_last() == paths.take(taken));
    total_is_the_true_sum(paths.take(taken));
    let before = render.after_paths(paths.take(taken));
    let events = paths.last();
    let short = events.len() - 1;
    render_follows_path(before, events, short);
    assert(events.drop_last() == events.take(short));
    trace_sums_the_light_of_a_path(before.pixel, events);
    path_is_under_way_until_its_end(before.pixel, events, short);
    let last = before.after(events.take(short));
    assert(last.pixel.spec_record(events.last()) == before.pixel.after(events));
    assert(total_gathered(paths) == total_gathered(paths.drop_last()).with(
        crate::optic::trace::gathered(events),
    ));
    total_is_the_true_sum(paths);
}

/// Whether `pixels` is what a whole render meets: the paths of every pixel of
/// a raster of `width` by `height` pixels, in row-major order.
pub open spec fn is_image(
    pixels: Seq<Seq<Seq<BounceEvent>>>,
    width: usize,
    height: usize,
    samples: usize,
    budget: u64,
) -> bool {
    &&& pixels.len() == height * width
    &&& forall|i: int| 0 <= i < pixels.len() ==> is_pixel(#[trigger] pixels[i], samples, budget)
}

/// Whether `rows` is a raster of `width` by `height` pixels.
pub open spec fn is_raster(rows: Seq<Seq<Color>>, width: usize, height: usize) -> bool {
    &&& rows.len() == height
    &&& forall|row: int| 0 <= row < height ==> (#[trigger] rows[row]).len() == width
}

proof fn place_is_within_raster(place: int, width: int, height: int)
    requires
        0 <= place < height * width,
        0 < width,
    ensures
        0 <= place / width < height,
        0 <= place % width < width,
        place == (place / width) * width + place % width,
{
    vstd::arithmetic::div_mod::lemma_fundamental_div_mod(place, width);
    vstd::arithmetic::div_mod::lemma_mod_bound(place, width);
    let row = place / width;
    assert(row >= 0 && row < height) by (nonlinear_arith)
        requires
            place == width * row + place % width,
            0 <= place % width < width,
            0 <= place < height * width,
            0 < width,
    ;
    assert(width * row == row * width) by (nonlinear_arith);
}

proof fn render_follows_image(
    rows: Seq<Seq<Color>>,
    width: usize,
    height: usize,
    samples: usize,
    budget: u64,
    pixels: Seq<Seq<Seq<BounceEvent>>>,
    taken: int,
)
    requires
        samples > 0,
        width > 0,
        is_raster(rows, width, height),
        is_image(pixels, width, height, samples, budget),
        0 <= taken <= pixels.len(),
    ensures
        ({
            let render = RenderModel::start(rows, width, height, samples, budget).after_pixels(
                pixels.take(taken),
            );
            &&& render.wf()
            &&& render.width == width
            &&& render.height == height
            &&& render.pixel == PixelTrace::spec_new(samples, budget)
            &&& taken < pixels.len() ==> render.row == taken / (width as int) && render.column
                == taken % (width as int)
            &&& taken == pixels.len() ==> render.finished()
            &&& forall|i: int|
                0 <= i < taken ==> render.rows[i / (width as int)][i % (width as int)]
                    == pixel_mean(#[trigger] pixels[i])
        }),
    decreases taken,
{
    let start = RenderModel::start(rows, width, height, samples, budget);
    let w = width as int;
    let h = height as int;
    if taken == 0 {
        assert(pixels.take(0).len() == 0);
        if 0 < pixels.len() {
            assert(is_pixel(pixels[0], samples, budget));
            assert(is_path(pixels[0][0], budget));
            assert(h > 0) by (nonlinear_arith)
                requires
                    0 < h * w,
                    w > 0,
            ;
        } else {
            assert(h == 0) by (nonlinear_arith)
                requires
                    0 == h * w,
                    w > 0,
                    h >= 0,
            ;
        }
    } else {
        let t = taken - 1;
        render_follows_image(rows, width, height, samples, budget, pixels, t);
        let prefix = pixels.take(taken);
        assert(prefix.drop_last() == pixels.take(t));
        assert(prefix.last() == pixels[t]);
        let before = start.after_pixels(pixels.take(t));
        let after = start.after_pixels(prefix);
        place_is_within_raster(t, w, h);
        assert(is_pixel(pixels[t], samples, budget));
        render_writes_the_mean_of_a_pixel(before, pixels[t]);
        assert(after == before.with_pixel(pixel_mean(pixels[t])));
        let row = before.row as int;
        let column = before.column as int;
        assert(taken == row * w + column + 1);
        if column + 1 >= w {
            assert(taken == (row + 1) * w) by (nonlinear_arith)
                requires
                    taken == row * w + column + 1,
                    column + 1 == w,
            ;
            if taken < pixels.len() {
                pixel_place_is_unique(row + 1, 0, w);
            } else {
                assert(row + 1 == h) by (nonlinear_arith)
                    requires
                        (row + 1) * w == h * w,
                        w > 0,
                ;
            }
        } else {
            pixel_place_is_unique(row, column + 1, w);
            assert((row + 1) * w == row * w + w) by (nonlinear_arith);
            assert((row + 1) * w <= h * w) by (nonlinear_arith)
                requires
                    row + 1 <= h,
                    w > 0,
            ;
        }
        assert forall|i: int| 0 <= i < taken implies after.rows[i / w][i % w] == pixel_mean(
            #[trigger] pixels[i],
        ) by {
            place_is_within_raster(i, w, h);
            if i < t {
                assert(before.rows[i / w][i % w] == pixel_mean(pixels[i]));
                if i / w == row {
                    assert(i % w != column);
                }
            }
        }
    }
}

/// The raster that a render leaves is, pixel by pixel, the mean of what the
/// samples of the pixel gathered: a render that takes in, in row-major order,
/// one path for each sample of each pixel has finished, and the pixel in row
/// `r` and column `c` holds the mean of the light gathered by the paths of the
/// pixel at place `r * width + c`.
pub proof fn render_is_the_mean_of_every_pixel(
    rows: Seq<Seq<Color>>,
    width: usize,
    height: usize,
    samples: usize,
    budget: u64,
    pixels: Seq<Seq<Seq<BounceEvent>>>,
)
    requires
        samples > 0,
        is_raster(rows, width, height),
        is_image(pixels, width, height, samples, budget),
    ensures
        ({
            let render = RenderModel::start(rows, width, height, samples, budget).after_pixels(
                pixels,
            );
            &&& render.wf()
            &&& render.finished()
            &&& forall|row: int, column: int|
                0 <= row < height && 0 <= column < width ==> #[trigger] render.rows[row][column]
                    == pixel_mean(pixels[row * width + column])
        }),
{
    let start = RenderModel::start(rows, width, height, samples, budget);
    if width == 0 {
        assert(pixels.len() == 0) by (nonlinear_arith)
            requires
                pixels.len() == height * width,
                width == 0,
        ;
    } else {
        render_follows_image(rows, width, height, samples, budget, pixels, pixels.len() as int);
        assert(pixels.take(pixels.len() as int) == pixels);
        let render = start.after_pixels(pixels);
        assert forall|row: int, column: int|
            0 <= row < height && 0 <= column < width implies #[trigger] render.rows[row][column]
            == pixel_mean(pixels[row * width + column]) by {
            let place = row * width + column;
            pixel_place_is_unique(row, column, width as int);
            assert(0 <= place < height * width) by (nonlinear_arith)
                requires
                    place == row * width + column,
                    0 <= row < height,
                    0 <= column < width,
            ;
            assert(render.rows[place / (width as int)][place % (width as int)] == pixel_mean(
                pixels[place],
            ));
        }
    }
}

proof fn render_without_samples_stays(
    render: RenderModel,
    pixels: Seq<Seq<Seq<BounceEvent>>>,
    taken: int,
)
    requires
        forall|i: int| 0 <= i < pixels.len() ==> (#[trigger] pixels[i]).len() == 0,
        0 <= taken <= pixels.len(),
    ensures
        render.after_pixels(pixels.take(taken)) == render,
    decreases taken,
{
    if taken > 0 {
        render_without_samples_stays(render, pixels, taken - 1);
        let prefix = pixels.take(taken);
        assert(prefix.drop_last() == pixels.take(taken - 1));
        assert(prefix.last() == pixels[taken - 1]);
    }
}

/// A raster depends on nothing but the size, the counts and what the rays
/// met: two renders of rasters of one size, with the same number of samples
/// and the same budget, that take in the same events leave the same raster,
/// pixel for pixel, whatever the rasters held before.
pub proof fn equal_renders_leave_equal_rasters(
    first: Seq<Seq<Color>>,
    second: Seq<Seq<Color>>,
    width: usize,
    height: usize,
    samples: usize,
    budget: u64,
    pixels: Seq<Seq<Seq<BounceEvent>>>,
)
    requires
        is_raster(first, width, height),
        is_raster(second, width, height),
        is_image(pixels, width, height, samples, budget),
    ensures
        RenderModel::start(first, width, height, samples, budget).after_pixels(pixels).rows
            == RenderModel::start(second, width, height, samples, budget).after_pixels(pixels).rows,
        RenderModel::start(first, width, height, samples, budget).after_pixels(pixels).finished(),
{
    let a = RenderModel::start(first, width, height, samples, budget).after_pixels(pixels);
    let b = RenderModel::start(second, width, height, samples, budget).after_pixels(pixels);
    if samples == 0 {
        assert forall|i: int| 0 <= i < pixels.len() implies (#[trigger] pixels[i]).len() == 0 by {
            assert(is_pixel(pixels[i], samples, budget));
        }
        render_without_samples_stays(
            RenderModel::start(first, width, height, samples, budget),
            pixels,
            pixels.len() as int,
        );
        render_without_samples_stays(
            RenderModel::start(second, width, height, samples, budget),
            pixels,
            pixels.len() as int,
        );
        assert(pixels.take(pixels.len() as int) == pixels);
    } else {
        render_is_the_mean_of_every_pixel(first, width, height, samples, budget, pixels);
        render_is_the_mean_of_every_pixel(second, width, height, samples, budget, pixels);
        render_keeps_its_size(first, width, height, samples, budget, pixels);
        render_keeps_its_size(second, width, height, samples, budget, pixels);
        assert(a.rows =~= b.rows) by {
            assert forall|row: int| 0 <= row < height implies #[trigger] a.rows[row] =~= b.rows[row] by {
                assert forall|column: int| 0 <= column < width implies a.rows[row][column]
                    == b.rows[row][column] by {
                    assert(a.rows[row][column] == pixel_mean(pixels[row * width + column]));
                    assert(b.rows[row][column] == pixel_mean(pixels[row * width + column]));
                }
            }
        }
    }
}

proof fn render_keeps_its_size(
    rows: Seq<Seq<Color>>,
    width: usize,
    height: usize,
    samples: usize,
    budget: u64,
    pixels: Seq<Seq<Seq<BounceEvent>>>,
)
    requires
        samples > 0,
        is_raster(rows, width, height),
        is_image(pixels, width, height, samples, budget),
    ensures
        is_raster(
            RenderModel::start(rows, width, height, samples, budget).after_pixels(pixels).rows,
            width,
            height,
        ),
{
    if width == 0 {
        assert(pixels.len() == 0) by (nonlinear_arith)
            requires
                pixels.len() == height * width,
                width == 0,
        ;
    } else {
        render_follows_image(rows, width, height, samples, budget, pixels, pixels.len() as int);
        assert(pixels.take(pixels.len() as int) == pixels);
    }
}

} // verus!
