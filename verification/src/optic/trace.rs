//! The bounce loop of one pixel, as a state machine.
//!
//! A pixel is sampled a fixed number of times. Each sample is a path: a ray
//! leaves the eye, and at every surface it strikes it gathers the light that
//! the surface emits and is sent on in a new direction, until it leaves the
//! scene, its bounce budget is spent, or nothing it could still gather would
//! show. The budget is the number of rays that a sample may cast, the one from
//! the eye included: with a budget of zero no ray is cast and the pixel stays
//! black.
//!
//! The machine owns every decision and every colour of that loop. Its caller
//! owns the geometry: it asks [`PixelTrace::next_cast`] which ray is wanted,
//! casts it, and reports what the ray met to [`PixelTrace::record`].

use crate::optic::color::channel;
use crate::optic::color::wide_sums_are_exact;
use crate::optic::color::Color;
use crate::optic::color::LightSum;
use vstd::prelude::*;

verus! {

/// The light of a path that meets nothing at all.
pub open spec fn background_color() -> Color {
    Color::black()
}

/// What a cast ray met.
#[derive(Clone, Copy, Debug)]
pub enum BounceEvent {
    /// Nothing: the ray left the scene.
    Escaped,
    /// The surface of an object.
    Struck {
        /// The place of the object in the scene.
        object: usize,
        /// The light that the surface emits: its emission colour scaled by its
        /// emission strength.
        emitted: Color,
        /// What the surface's diffusion coefficients leave of the throughput
        /// that the path had on arrival.
        throughput: Color,
    },
}

/// The ray that the machine wants cast next.
#[derive(Clone, Copy, Debug)]
pub struct Cast {
    /// Whether the ray leaves the eye. Any other ray leaves the point that the
    /// previous ray of the path struck, in a freshly drawn direction.
    pub primary: bool,
    /// The object that the ray leaves, which it must not strike again.
    pub ignore: Option<usize>,
}

/// One sample on its way through the scene.
#[derive(Clone, Copy, Debug)]
pub struct Path {
    /// The light gathered so far.
    pub light: Color,
    /// The filter that every surface struck so far has laid over the light
    /// still to be gathered.
    pub throughput: Color,
    /// The object struck last.
    pub last_hit: Option<usize>,
    /// The number of surfaces struck so far.
    pub bounces: u64,
}

impl Path {
    /// A path that has not left the eye yet: no light, a clear filter.
    pub open spec fn start() -> Path {
        Path { light: Color::black(), throughput: Color::white(), last_hit: None, bounces: 0 }
    }

    /// The light of the path once `event` is taken in. A strike adds the
    /// emitted light as seen through the throughput on arrival. An escape adds
    /// the background, and only where the path struck nothing before.
    pub open spec fn light_after(self, event: BounceEvent) -> Color {
        match event {
            BounceEvent::Escaped => if self.bounces == 0 {
                self.light.plus(background_color())
            } else {
                self.light
            },
            BounceEvent::Struck { emitted, .. } => self.light.plus(emitted.times(self.throughput)),
        }
    }

    /// Whether `event` is the last of the path: the ray escaped, or the
    /// surface left a black throughput, or the ray that struck was the last
    /// of the `budget` rays that a sample may cast.
    pub open spec fn ends_with(self, event: BounceEvent, budget: u64) -> bool {
        match event {
            BounceEvent::Escaped => true,
            BounceEvent::Struck { throughput, .. } => throughput == Color::black() || self.bounces
                + 1 >= budget,
        }
    }

    /// The path after a strike that does not end it.
    pub open spec fn bounced(self, event: BounceEvent) -> Path
        recommends
            event is Struck,
    {
        Path {
            light: self.light_after(event),
            throughput: event->throughput,
            last_hit: Some(event->object),
            bounces: (self.bounces + 1) as u64,
        }
    }
}

/// The samples of one pixel: those already summed, and the one in flight.
#[derive(Clone, Copy, Debug)]
pub struct PixelTrace {
    /// The number of samples that make the pixel.
    pub samples: usize,
    /// The number of rays that a sample may cast, the one from the eye
    /// included.
    pub budget: u64,
    /// The number of samples summed so far.
    pub done: usize,
    /// The sum of the light of the samples summed so far, channel by
    /// channel. It does not stop at 255 as a colour does.
    pub total: LightSum,
    /// The sample in flight.
    pub path: Path,
}

impl PixelTrace {
    /// What the machine keeps true of itself.
    pub open spec fn wf(self) -> bool {
        &&& self.done <= self.samples
        &&& self.path.bounces == 0 || self.path.bounces < self.budget
        &&& self.path.bounces == 0 <==> self.path.last_hit is None
        &&& self.path.bounces == 0 ==> self.path == Path::start()
        &&& self.done == self.samples ==> self.path == Path::start()
        &&& self.total.sums_at_most(self.done as int)
    }

    /// A pixel of which nothing has been sampled yet.
    pub open spec fn spec_new(samples: usize, budget: u64) -> PixelTrace {
        PixelTrace { samples, budget, done: 0, total: LightSum::dark(), path: Path::start() }
    }

    /// Whether no ray is wanted any more: every sample has been summed, or
    /// the budget allows no ray at all.
    pub open spec fn spec_finished(&self) -> bool {
        self.done >= self.samples || self.budget == 0
    }

    /// The ray wanted next, if any.
    pub open spec fn spec_next_cast(&self) -> Option<Cast> {
        if self.spec_finished() {
            None
        } else {
            Some(Cast { primary: self.path.bounces == 0, ignore: self.path.last_hit })
        }
    }

    /// The machine once `event` is taken in. An event that ends the path adds
    /// the path's light to the total and readies the next sample; any other
    /// sends the path on. A finished machine takes nothing in.
    pub open spec fn spec_record(self, event: BounceEvent) -> PixelTrace {
        if self.finished() {
            self
        } else if self.path.ends_with(event, self.budget) {
            PixelTrace {
                done: (self.done + 1) as usize,
                total: self.total.with(self.path.light_after(event)),
                path: Path::start(),
                ..self
            }
        } else {
            PixelTrace { path: self.path.bounced(event), ..self }
        }
    }

    /// The colour of the pixel: the mean of its samples, channel by channel.
    pub open spec fn spec_color(&self) -> Color {
        self.total.mean(self.samples)
    }

    /// An upper bound on the number of rays still to be cast.
    pub open spec fn casts_left(self) -> int {
        (self.samples - self.done) * self.budget - self.path.bounces
    }

    /// Starts the pixel: `number_of_points_per_pixel` samples, each allowed
    /// `number_of_bounces` rays, the one from the eye included.
    pub fn new(number_of_points_per_pixel: usize, number_of_bounces: u64) -> (trace: PixelTrace)
        ensures
            trace == PixelTrace::spec_new(number_of_points_per_pixel, number_of_bounces),
            trace.wf(),
    {
        PixelTrace {
            samples: number_of_points_per_pixel,
            budget: number_of_bounces,
            done: 0,
            total: LightSum::dark(),
            path: Path {
                light: Color::black(),
                throughput: Color::white(),
                last_hit: None,
                bounces: 0,
            },
        }
    }

    #[verifier::when_used_as_spec(spec_finished)]
    pub fn finished(&self) -> (done: bool)
        ensures
            done == self.spec_finished(),
    {
        self.done >= self.samples || self.budget == 0
    }

    /// The ray to cast next, or `None` once every sample has been summed. The
    /// first ray of a path leaves the eye and ignores nothing; every other ray
    /// ignores the object that the path struck last.
    #[verifier::when_used_as_spec(spec_next_cast)]
    pub fn next_cast(&self) -> (cast: Option<Cast>)
        ensures
            cast == self.spec_next_cast(),
    {
        if self.done >= self.samples || self.budget == 0 {
            None
        } else {
            Some(Cast { primary: self.path.bounces == 0, ignore: self.path.last_hit })
        }
    }

    /// The throughput of the path in flight: what the caller filters through
    /// the diffusion coefficients of the surface that the next ray strikes.
    pub fn throughput(&self) -> (filter: Color)
        ensures
            filter == self.path.throughput,
    {
        self.path.throughput
    }

    /// Takes in what the ray asked for by [`PixelTrace::next_cast`] met. Once
    /// the machine has finished, no ray is wanted and the event is dropped.
    pub fn record(&mut self, event: BounceEvent)
        ensures
            *final(self) == old(self).spec_record(event),
            old(self).wf() ==> final(self).wf(),
    {
        if self.done >= self.samples || self.budget == 0 {
            return ;
        }
        let first: bool = self.path.bounces == 0;
        match event {
            BounceEvent::Escaped => {
                let light = if first {
                    self.path.light + Color::black()
                } else {
                    self.path.light
                };
                self.close_path(light);
            },
            BounceEvent::Struck { object, emitted, throughput } => {
                let light = self.path.light + emitted * self.path.throughput;
                if throughput == Color::black() || self.path.bounces >= self.budget - 1 {
                    self.close_path(light);
                } else {
                    self.path = Path {
                        light,
                        throughput,
                        last_hit: Some(object),
                        bounces: self.path.bounces + 1,
                    };
                }
            },
        }
    }

    fn close_path(&mut self, light: Color)
        requires
            old(self).done < old(self).samples,
        ensures
            *final(self) == (PixelTrace {
                done: (old(self).done + 1) as usize,
                total: old(self).total.with(light),
                path: Path::start(),
                ..*old(self)
            }),
    {
        self.total = self.total.with(light);
        self.done = self.done + 1;
        self.path = Path {
            light: Color::black(),
            throughput: Color::white(),
            last_hit: None,
            bounces: 0,
        };
    }

    /// The colour of the pixel: the running total divided by the number of
    /// samples. It is final once the machine has finished.
    #[verifier::when_used_as_spec(spec_color)]
    pub fn color(&self) -> (mean: Color)
        ensures
            mean == self.spec_color(),
    {
        self.total.mean(self.samples)
    }
}

/// Every recorded event brings the pixel strictly closer to its end: a caller
/// that casts while a ray is wanted casts at most `samples * budget` rays,
/// and none once that bound has reached zero.
pub proof fn record_makes_progress(trace: PixelTrace, event: BounceEvent)
    requires
        trace.wf(),
        !trace.finished(),
    ensures
        0 <= trace.spec_record(event).casts_left() < trace.casts_left(),
        trace.spec_record(event).wf(),
{
    let after = trace.spec_record(event);
    wide_sums_are_exact(trace.total, trace.path.light_after(event), trace.done, trace.samples);
    let left = trace.samples - trace.done;
    let width = trace.budget as int;
    assert(left * width == (left - 1) * width + width) by (nonlinear_arith);
    assert((left - 1) * width >= 0) by (nonlinear_arith)
        requires
            left >= 1,
            width >= 1,
    ;
}

/// A finished pixel wants no ray, and an unfinished one always does.
pub proof fn cast_wanted_until_finished(trace: PixelTrace)
    ensures
        trace.next_cast() is None <==> trace.finished(),
        trace.next_cast() matches Some(cast) ==> (cast.primary <==> trace.path.bounces == 0),
        trace.wf() ==> (trace.next_cast() matches Some(cast) ==> (cast.primary <==> cast.ignore
            is None)),
{
}

/// Light is only ever gathered, never lost: neither the light of the path in
/// flight nor the running total of the pixel gets smaller in any channel, and
/// what a strike adds to the path is dominated both by the light that the
/// surface emits and by the throughput that the path arrived with.
pub proof fn light_only_grows(trace: PixelTrace, event: BounceEvent)
    ensures
        trace.path.light.dominated_by(trace.path.light_after(event)),
        trace.total.r <= trace.spec_record(event).total.r,
        trace.total.g <= trace.spec_record(event).total.g,
        trace.total.b <= trace.spec_record(event).total.b,
        event matches BounceEvent::Struck { emitted, .. } ==> {
            let gain = emitted.times(trace.path.throughput);
            &&& trace.path.light_after(event) == trace.path.light.plus(gain)
            &&& gain.dominated_by(emitted)
            &&& gain.dominated_by(trace.path.throughput)
        },
{
    if let BounceEvent::Struck { emitted, .. } = event {
        crate::optic::color::filter_only_darkens(emitted, trace.path.throughput);
    }
}

/// A path that meets nothing shows the background; a path that escapes after
/// a strike keeps exactly the light it had.
pub proof fn escape_ends_the_path(trace: PixelTrace)
    requires
        trace.wf(),
        !trace.finished(),
    ensures
        trace.spec_record(BounceEvent::Escaped).done == trace.done + 1,
        trace.path.bounces == 0 ==> trace.spec_record(BounceEvent::Escaped).total
            == trace.total.with(trace.path.light.plus(background_color())),
        trace.path.bounces > 0 ==> trace.spec_record(BounceEvent::Escaped).total
            == trace.total.with(trace.path.light),
{
}

/// Whether `events` is what one path meets, from the eye to its end: every
/// event but the last is a strike that sends the path on, and the last one
/// ends it, by an escape, by a black throughput, or as the strike after the
/// last ray that the budget allows.
pub open spec fn is_path(events: Seq<BounceEvent>, budget: u64) -> bool {
    &&& 1 <= events.len() <= budget
    &&& forall|k: int|
        0 <= k < events.len() - 1 ==> (#[trigger] events[k]) is Struck && events[k]->throughput
            != Color::black()
    &&& events.last() is Struck && events.last()->throughput != Color::black() ==> events.len()
        == budget
}

/// The throughput with which a path arrives at its next surface after the
/// events of `events`: white from the eye, and then what the surface struck
/// last has left.
pub open spec fn arriving(events: Seq<BounceEvent>) -> Color {
    if events.len() == 0 || events.last() is Escaped {
        Color::white()
    } else {
        events.last()->throughput
    }
}

/// The light that a path gathers from the events of `events`: at every strike
/// the emitted light, seen through the throughput that the path arrives with;
/// and the background where the first event is an escape.
pub open spec fn gathered(events: Seq<BounceEvent>) -> Color
    decreases events.len(),
{
    if events.len() == 0 {
        Color::black()
    } else {
        let before = events.drop_last();
        match events.last() {
            BounceEvent::Escaped => if before.len() == 0 {
                gathered(before).plus(background_color())
            } else {
                gathered(before)
            },
            BounceEvent::Struck { emitted, .. } => gathered(before).plus(
                emitted.times(arriving(before)),
            ),
        }
    }
}

impl PixelTrace {
    /// The machine once the events of `events` are taken in, in order.
    pub open spec fn after(self, events: Seq<BounceEvent>) -> PixelTrace
        decreases events.len(),
    {
        if events.len() == 0 {
            self
        } else {
            self.after(events.drop_last()).spec_record(events.last())
        }
    }

    /// The machine once the events of every path of `paths` are taken in, path
    /// after path.
    pub open spec fn after_paths(self, paths: Seq<Seq<BounceEvent>>) -> PixelTrace
        decreases paths.len(),
    {
        if paths.len() == 0 {
            self
        } else {
            self.after_paths(paths.drop_last()).after(paths.last())
        }
    }
}

/// The running total of a trace that has summed the light that each path of
/// `paths` gathers.
pub open spec fn total_gathered(paths: Seq<Seq<BounceEvent>>) -> LightSum
    decreases paths.len(),
{
    if paths.len() == 0 {
        LightSum::dark()
    } else {
        total_gathered(paths.drop_last()).with(gathered(paths.last()))
    }
}

/// The sum, over the paths of `paths`, of one channel of the light that each
/// path gathers: red for 0, green for 1, blue for anything else.
pub open spec fn gathered_sum(paths: Seq<Seq<BounceEvent>>, index: int) -> int
    decreases paths.len(),
{
    if paths.len() == 0 {
        0
    } else {
        gathered_sum(paths.drop_last(), index) + channel(gathered(paths.last()), index)
    }
}

/// The mean of the light that the paths of `paths` gather: for each channel
/// the sum over the paths divided by their number, rounded down.
pub open spec fn mean_gathered(paths: Seq<Seq<BounceEvent>>) -> Color {
    if paths.len() == 0 {
        Color::black()
    } else {
        Color {
            r: (gathered_sum(paths, 0) / (paths.len() as int)) as u8,
            g: (gathered_sum(paths, 1) / (paths.len() as int)) as u8,
            b: (gathered_sum(paths, 2) / (paths.len() as int)) as u8,
        }
    }
}

/// The running total is the true sum: for as many paths as can be counted,
/// every channel of the total is the sum of that channel over the paths, no
/// channel exceeds 255 for each path, and the mean that the total gives is
/// the true mean.
pub proof fn total_is_the_true_sum(paths: Seq<Seq<BounceEvent>>)
    requires
        paths.len() <= usize::MAX,
    ensures
        total_gathered(paths).r == gathered_sum(paths, 0),
        total_gathered(paths).g == gathered_sum(paths, 1),
        total_gathered(paths).b == gathered_sum(paths, 2),
        total_gathered(paths).sums_at_most(paths.len() as int),
        0 <= gathered_sum(paths, 0) <= 255 * paths.len(),
        0 <= gathered_sum(paths, 1) <= 255 * paths.len(),
        0 <= gathered_sum(paths, 2) <= 255 * paths.len(),
        total_gathered(paths).mean(paths.len() as usize) == mean_gathered(paths),
    decreases paths.len(),
{
    if paths.len() > 0 {
        let before = paths.drop_last();
        total_is_the_true_sum(before);
        wide_sums_are_exact(
            total_gathered(before),
            gathered(paths.last()),
            before.len() as usize,
            paths.len() as usize,
        );
    }
}

/// Until a path ends, nothing is summed: after any number of the events of a
/// path short of all of them, the machine differs from the one at the start
/// of the path only by the path in flight, which holds the light gathered so
/// far, the throughput left by the surface struck last, and that surface.
pub proof fn path_is_under_way_until_its_end(
    trace: PixelTrace,
    events: Seq<BounceEvent>,
    taken: int,
)
    requires
        trace.wf(),
        !trace.finished(),
        trace.path.bounces == 0,
        is_path(events, trace.budget),
        0 <= taken < events.len(),
    ensures
        trace.after(events.take(taken)) == (PixelTrace {
            path: if taken == 0 {
                Path::start()
            } else {
                Path {
                    light: gathered(events.take(taken)),
                    throughput: arriving(events.take(taken)),
                    last_hit: Some(events[taken - 1]->object),
                    bounces: taken as u64,
                }
            },
            ..trace
        }),
        taken == 0 ==> gathered(events.take(taken)) == Color::black() && arriving(
            events.take(taken),
        ) == Color::white(),
    decreases taken,
{
    let prefix = events.take(taken);
    if taken > 0 {
        path_is_under_way_until_its_end(trace, events, taken - 1);
        assert(prefix.drop_last() == events.take(taken - 1));
        assert(prefix.last() == events[taken - 1]);
        assert(events[taken - 1] is Struck);
        crate::optic::color::sum_is_order_free(
            Color::black(),
            events[0]->emitted.times(Color::white()),
            Color::black(),
        );
    }
}

/// A pixel trace sums exactly what its paths gather: taking in all that one
/// path meets, from the eye to its end, counts one more sample, adds to the
/// running total the light that the path gathered, and leaves the machine at
/// the start of the next path.
pub proof fn trace_sums_the_light_of_a_path(trace: PixelTrace, events: Seq<BounceEvent>)
    requires
        trace.wf(),
        !trace.finished(),
        trace.path.bounces == 0,
        is_path(events, trace.budget),
    ensures
        trace.after(events) == (PixelTrace {
            done: (trace.done + 1) as usize,
            total: trace.total.with(gathered(events)),
            path: Path::start(),
            ..trace
        }),
        trace.after(events).wf(),
{
    let taken = events.len() - 1;
    wide_sums_are_exact(trace.total, gathered(events), trace.done, trace.samples);
    path_is_under_way_until_its_end(trace, events, taken);
    assert(events.drop_last() == events.take(taken));
    crate::optic::color::sum_is_order_free(Color::black(), Color::black(), Color::black());
}

/// The colour of a pixel is the mean of what its samples gather: a new trace
/// that takes in one path for each of its samples has finished, every channel
/// of its running total is the sum of that channel over the light gathered by
/// the paths, with nothing cut off, and every channel of its colour is that
/// sum divided by the number of samples.
pub proof fn pixel_is_the_mean_of_its_paths(
    samples: usize,
    budget: u64,
    paths: Seq<Seq<BounceEvent>>,
)
    requires
        paths.len() == samples,
        forall|k: int| 0 <= k < paths.len() ==> is_path(#[trigger] paths[k], budget),
    ensures
        PixelTrace::spec_new(samples, budget).after_paths(paths).finished(),
        PixelTrace::spec_new(samples, budget).after_paths(paths).total.r == gathered_sum(paths, 0),
        PixelTrace::spec_new(samples, budget).after_paths(paths).total.g == gathered_sum(paths, 1),
        PixelTrace::spec_new(samples, budget).after_paths(paths).total.b == gathered_sum(paths, 2),
        PixelTrace::spec_new(samples, budget).after_paths(paths).color() == mean_gathered(paths),
        samples > 0 ==> {
            let color = PixelTrace::spec_new(samples, budget).after_paths(paths).color();
            &&& color.r == gathered_sum(paths, 0) / (samples as int)
            &&& color.g == gathered_sum(paths, 1) / (samples as int)
            &&& color.b == gathered_sum(paths, 2) / (samples as int)
        },
{
    paths_are_summed_in_order(samples, budget, paths, paths.len() as int);
    assert(paths.take(paths.len() as int) == paths);
    total_is_the_true_sum(paths);
    if samples > 0 {
        let k = samples as int;
        assert(0 <= gathered_sum(paths, 0) / k <= 255 && 0 <= gathered_sum(paths, 1) / k <= 255
            && 0 <= gathered_sum(paths, 2) / k <= 255) by (nonlinear_arith)
            requires
                k > 0,
                0 <= gathered_sum(paths, 0) <= 255 * k,
                0 <= gathered_sum(paths, 1) <= 255 * k,
                0 <= gathered_sum(paths, 2) <= 255 * k,
        ;
    }
}

/// Path after path, a new trace counts the paths it has taken in and holds
/// the sum of what they gathered.
pub proof fn paths_are_summed_in_order(
    samples: usize,
    budget: u64,
    paths: Seq<Seq<BounceEvent>>,
    taken: int,
)
    requires
        paths.len() == samples,
        forall|k: int| 0 <= k < paths.len() ==> is_path(#[trigger] paths[k], budget),
        0 <= taken <= paths.len(),
    ensures
        PixelTrace::spec_new(samples, budget).after_paths(paths.take(taken)) == (PixelTrace {
            done: taken as usize,
            total: total_gathered(paths.take(taken)),
            ..PixelTrace::spec_new(samples, budget)
        }),
    decreases taken,
{
    if taken > 0 {
        paths_are_summed_in_order(samples, budget, paths, taken - 1);
        let prefix = paths.take(taken);
        assert(prefix.drop_last() == paths.take(taken - 1));
        assert(prefix.last() == paths[taken - 1]);
        total_is_the_true_sum(paths.take(taken - 1));
        let before = PixelTrace::spec_new(samples, budget).after_paths(paths.take(taken - 1));
        trace_sums_the_light_of_a_path(before, paths[taken - 1]);
    }
}

/// Whether the surfaces of a path only take light away: every event but the
/// last is a strike, and every strike leaves a throughput that is dominated
/// by the one that the path arrived with.
pub open spec fn only_darkens(events: Seq<BounceEvent>) -> bool {
    &&& forall|k: int| 0 <= k < events.len() - 1 ==> (#[trigger] events[k]) is Struck
    &&& forall|k: int|
        0 <= k < events.len() && (#[trigger] events[k]) is Struck ==> events[k]->throughput.dominated_by(
            arriving(events.take(k)),
        )
}

/// Whether a path sees light only through the surface it struck first: that
/// surface emits nothing, and so does every other surface but the last.
pub open spec fn lit_at_its_end_only(events: Seq<BounceEvent>) -> bool {
    forall|k: int|
        0 <= k < events.len() - 1 ==> (#[trigger] events[k]) is Struck && events[k]->emitted
            == Color::black()
}

proof fn filtered_path_under_way(events: Seq<BounceEvent>, taken: int)
    requires
        only_darkens(events),
        lit_at_its_end_only(events),
        1 <= taken < events.len(),
    ensures
        gathered(events.take(taken)) == Color::black(),
        arriving(events.take(taken)).dominated_by(events[0]->throughput),
    decreases taken,
{
    let prefix = events.take(taken);
    assert(prefix.drop_last() == events.take(taken - 1));
    assert(prefix.last() == events[taken - 1]);
    assert(events[taken - 1] is Struck);
    crate::optic::color::filter_only_darkens(Color::black(), arriving(events.take(taken - 1)));
    crate::optic::color::sum_is_order_free(Color::black(), Color::black(), Color::black());
    if taken > 1 {
        filtered_path_under_way(events, taken - 1);
    } else {
        assert(events.take(0).len() == 0);
        crate::optic::color::filter_only_darkens(Color::black(), Color::white());
    }
}

/// A diffuse surface under a light shows no more than its own colour of the
/// light: where a path is lit at its end only and its surfaces only darken,
/// the light that it gathers is dominated by the throughput that the surface
/// struck first has left, and by the light emitted at its end. A surface that
/// lets through no green and no blue therefore shows none, whatever it is lit
/// by and however often the path bounces.
pub proof fn path_shows_no_more_than_its_first_filter(events: Seq<BounceEvent>)
    requires
        events.len() >= 2,
        only_darkens(events),
        lit_at_its_end_only(events),
    ensures
        gathered(events).dominated_by(events[0]->throughput),
        events.last() matches BounceEvent::Struck { emitted, .. } ==> gathered(events).dominated_by(
            emitted,
        ),
        events.last() is Escaped ==> gathered(events) == Color::black(),
        events[0]->throughput.g == 0 ==> gathered(events).g == 0,
        events[0]->throughput.b == 0 ==> gathered(events).b == 0,
{
    let short = events.len() - 1;
    filtered_path_under_way(events, short);
    assert(events.drop_last() == events.take(short));
    crate::optic::color::sum_is_order_free(Color::black(), Color::black(), Color::black());
    if let BounceEvent::Struck { emitted, .. } = events.last() {
        crate::optic::color::filter_only_darkens(emitted, arriving(events.take(short)));
        crate::optic::color::sum_is_order_free(
            Color::black(),
            emitted.times(arriving(events.take(short))),
            Color::black(),
        );
    }
}

/// A pixel shows no channel that none of its paths gathered: where a channel
/// is zero in the light of every path, it is zero in the colour of the pixel.
pub proof fn pixel_shows_no_channel_that_no_path_gathered(
    samples: usize,
    budget: u64,
    paths: Seq<Seq<BounceEvent>>,
    index: int,
)
    requires
        paths.len() == samples,
        forall|k: int| 0 <= k < paths.len() ==> is_path(#[trigger] paths[k], budget),
        forall|k: int| 0 <= k < paths.len() ==> channel(gathered(#[trigger] paths[k]), index) == 0,
    ensures
        channel(PixelTrace::spec_new(samples, budget).after_paths(paths).color(), index) == 0,
{
    pixel_is_the_mean_of_its_paths(samples, budget, paths);
    no_light_sums_to_none(paths, 0, paths.len() as int);
    no_light_sums_to_none(paths, 1, paths.len() as int);
    no_light_sums_to_none(paths, 2, paths.len() as int);
    assert(paths.take(paths.len() as int) == paths);
}

proof fn no_light_sums_to_none(paths: Seq<Seq<BounceEvent>>, index: int, taken: int)
    requires
        0 <= taken <= paths.len(),
    ensures
        (forall|k: int| 0 <= k < paths.len() ==> channel(gathered(#[trigger] paths[k]), index) == 0)
            ==> gathered_sum(paths.take(taken), index) == 0,
    decreases taken,
{
    if taken > 0 {
        no_light_sums_to_none(paths, index, taken - 1);
        let prefix = paths.take(taken);
        assert(prefix.drop_last() == paths.take(taken - 1));
        assert(prefix.last() == paths[taken - 1]);
    }
}

} // verus!
