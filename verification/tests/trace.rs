use ray_tracing_3d::optic::color::Color;
use ray_tracing_3d::optic::image::get_background_color;
use ray_tracing_3d::optic::image::Grid;
use ray_tracing_3d::optic::image::GRID_HEIGHT;
use ray_tracing_3d::optic::image::GRID_WIDTH;
use ray_tracing_3d::optic::trace::BounceEvent;
use ray_tracing_3d::optic::trace::PixelTrace;

fn struck(object: usize, emitted: Color, throughput: Color) -> BounceEvent {
    BounceEvent::Struck { object, emitted, throughput }
}

#[test]
fn background_is_black() {
    assert_eq!(get_background_color().unwrap(), Color::black());
}

#[test]
fn a_new_trace_wants_a_primary_ray() {
    let trace = PixelTrace::new(3, 2);
    assert!(!trace.finished());
    let cast = trace.next_cast().unwrap();
    assert!(cast.primary);
    assert_eq!(cast.ignore, None);
    assert_eq!(trace.throughput(), Color::white());
}

#[test]
fn a_trace_without_samples_has_finished_and_is_black() {
    let trace = PixelTrace::new(0, 5);
    assert!(trace.finished());
    assert!(trace.next_cast().is_none());
    assert_eq!(trace.color(), Color::black());
}

#[test]
fn a_path_that_meets_nothing_shows_the_background() {
    let mut trace = PixelTrace::new(1, 3);
    trace.record(BounceEvent::Escaped);
    assert!(trace.finished());
    assert_eq!(trace.color(), get_background_color().unwrap());
}

#[test]
fn diffuse_red_sphere_lit_by_a_white_light_is_red() {
    let mut trace = PixelTrace::new(1, 2);
    trace.record(struck(0, Color::black(), Color::red()));
    let cast = trace.next_cast().unwrap();
    assert!(!cast.primary);
    assert_eq!(cast.ignore, Some(0));
    assert_eq!(trace.throughput(), Color::red());
    trace.record(struck(1, Color::white(), Color::black()));
    assert!(trace.finished());
    assert_eq!(trace.color(), Color::red());
}

#[test]
fn light_seen_through_a_red_filter_has_no_green_and_no_blue() {
    let mut trace = PixelTrace::new(1, 4);
    trace.record(struck(0, Color::black(), Color::new(180, 0, 0)));
    trace.record(struck(1, Color::new(200, 220, 240), Color::new(90, 0, 0)));
    trace.record(BounceEvent::Escaped);
    assert!(trace.finished());
    // 200 * 180 / 255 = 141.17
    assert_eq!(trace.color(), Color::new(141, 0, 0));
}

#[test]
fn a_path_that_escapes_after_a_strike_keeps_its_light() {
    let mut trace = PixelTrace::new(1, 5);
    trace.record(struck(2, Color::new(10, 20, 30), Color::white()));
    assert!(!trace.finished());
    trace.record(BounceEvent::Escaped);
    assert!(trace.finished());
    assert_eq!(trace.color(), Color::new(10, 20, 30));
}

#[test]
fn a_black_throughput_ends_the_path() {
    let mut trace = PixelTrace::new(2, 10);
    trace.record(struck(0, Color::new(9, 9, 9), Color::black()));
    let cast = trace.next_cast().unwrap();
    assert!(cast.primary);
    assert_eq!(cast.ignore, None);
    assert_eq!(trace.throughput(), Color::white());
}

#[test]
fn the_bounce_budget_ends_the_path() {
    let mut trace = PixelTrace::new(1, 3);
    trace.record(struck(0, Color::new(1, 1, 1), Color::white()));
    assert!(!trace.finished());
    trace.record(struck(1, Color::new(2, 2, 2), Color::white()));
    assert!(!trace.finished());
    trace.record(struck(0, Color::new(4, 4, 4), Color::white()));
    assert!(trace.finished());
    assert_eq!(trace.color(), Color::new(7, 7, 7));
}

#[test]
fn a_sample_casts_as_many_rays_as_the_budget_allows() {
    for budget in 1..6u64 {
        let mut trace = PixelTrace::new(1, budget);
        let mut casts = 0;
        while trace.next_cast().is_some() {
            trace.record(struck(0, Color::new(1, 1, 1), Color::white()));
            casts += 1;
        }
        assert_eq!(casts, budget);
    }
}

#[test]
fn with_a_budget_of_one_only_the_surface_that_the_eye_sees_counts() {
    let mut trace = PixelTrace::new(1, 1);
    assert!(trace.next_cast().unwrap().primary);
    trace.record(struck(0, Color::new(5, 6, 7), Color::white()));
    assert!(trace.finished());
    assert_eq!(trace.color(), Color::new(5, 6, 7));
}

#[test]
fn with_a_budget_of_zero_no_ray_is_wanted_and_the_pixel_is_black() {
    let mut trace = PixelTrace::new(4, 0);
    assert!(trace.finished());
    assert!(trace.next_cast().is_none());
    trace.record(struck(0, Color::white(), Color::white()));
    assert!(trace.next_cast().is_none());
    assert_eq!(trace.color(), Color::black());
}

#[test]
fn the_largest_bounce_budget_does_not_overflow() {
    let mut trace = PixelTrace::new(1, u64::MAX);
    for _ in 0..1000 {
        trace.record(struck(0, Color::new(1, 0, 0), Color::white()));
    }
    assert!(!trace.finished());
    trace.record(BounceEvent::Escaped);
    assert_eq!(trace.color(), Color::new(255, 0, 0));
}

#[test]
fn the_pixel_is_the_mean_of_its_samples() {
    let mut trace = PixelTrace::new(3, 1);
    trace.record(struck(0, Color::new(30, 0, 90), Color::white()));
    trace.record(struck(0, Color::new(60, 0, 90), Color::white()));
    assert!(!trace.finished());
    trace.record(BounceEvent::Escaped);
    assert!(trace.finished());
    assert_eq!(trace.color(), Color::new(30, 0, 60));
}

#[test]
fn the_running_total_does_not_saturate() {
    let mut trace = PixelTrace::new(2, 1);
    trace.record(struck(0, Color::new(200, 0, 0), Color::white()));
    trace.record(struck(0, Color::new(200, 0, 0), Color::white()));
    assert_eq!(trace.color(), Color::new(200, 0, 0));
}

#[test]
fn many_samples_of_one_light_show_that_light() {
    for samples in [1usize, 2, 7, 100, 1000] {
        let mut trace = PixelTrace::new(samples, 2);
        while trace.next_cast().is_some() {
            trace.record(struck(0, Color::black(), Color::red()));
            trace.record(struck(1, Color::white(), Color::black()));
        }
        assert_eq!(trace.color(), Color::red());
    }
}

#[test]
fn a_render_without_samples_is_black_and_has_finished() {
    let mut grid = Grid::new(3, 2);
    grid.set_pixel(1, 2, Color::white());
    let render = grid.make_image(0, 4);
    assert!(render.finished());
    assert!(render.next_cast().is_none());
    let grid = render.into_grid();
    assert_eq!(grid.get_pixel(1, 2), Color::black());
    assert_eq!((grid.width(), grid.height()), (3, 2));
}

#[test]
fn a_render_without_rays_is_black_and_has_finished() {
    let mut grid = Grid::new(3, 2);
    grid.set_pixel(0, 1, Color::white());
    let render = grid.make_image(5, 0);
    assert!(render.finished());
    assert!(render.next_cast().is_none());
    let render = render.record(struck(0, Color::white(), Color::white()));
    assert!(render.finished());
    let grid = render.into_grid();
    for row in 0..2 {
        for column in 0..3 {
            assert_eq!(grid.get_pixel(row, column), Color::black());
        }
    }
}

#[test]
fn what_a_raster_held_before_does_not_show_after_a_render() {
    let mut painted = Grid::new(3, 2);
    painted.set_pixel(0, 0, Color::white());
    painted.set_pixel(1, 2, Color::new(1, 2, 3));
    let mut rasters = Vec::new();
    for grid in [Grid::new(3, 2), painted] {
        let mut render = grid.make_image(2, 2);
        let mut shade: u8 = 0;
        while render.next_cast().is_some() {
            shade = shade.wrapping_add(37);
            render = render.record(struck(0, Color::new(shade, 0, shade), Color::new(9, 9, 9)));
        }
        rasters.push(render.into_grid().export_image());
    }
    assert_eq!(rasters[0], rasters[1]);
    assert_eq!(rasters[0].len(), 18);
}

#[test]
fn a_render_of_no_pixel_has_finished() {
    assert!(Grid::new(0, 4).make_image(2, 2).finished());
    assert!(Grid::new(4, 0).make_image(2, 2).finished());
}

#[test]
fn a_render_walks_the_raster_row_by_row() {
    let mut render = Grid::new(3, 2).make_image(1, 1);
    let mut visited = Vec::new();
    let mut shade: u8 = 0;
    while let Some(wanted) = render.next_cast() {
        assert!(wanted.cast.primary);
        visited.push((wanted.row, wanted.column));
        shade += 10;
        render = render.record(struck(0, Color::new(shade, 0, 0), Color::white()));
    }
    assert_eq!(visited, vec![(0, 0), (0, 1), (0, 2), (1, 0), (1, 1), (1, 2)]);
    assert!(render.finished());
    let grid = render.into_grid();
    assert_eq!(grid.get_pixel(0, 0), Color::new(10, 0, 0));
    assert_eq!(grid.get_pixel(0, 2), Color::new(30, 0, 0));
    assert_eq!(grid.get_pixel(1, 0), Color::new(40, 0, 0));
    assert_eq!(grid.get_pixel(1, 2), Color::new(60, 0, 0));
}

#[test]
fn a_render_writes_a_pixel_when_its_last_sample_ends() {
    let mut render = Grid::new(2, 1).make_image(2, 2);
    render = render.record(struck(0, Color::black(), Color::red()));
    assert_eq!(render.throughput(), Color::red());
    let wanted = render.next_cast().unwrap();
    assert_eq!((wanted.row, wanted.column), (0, 0));
    assert_eq!(wanted.cast.ignore, Some(0));
    render = render.record(struck(1, Color::white(), Color::black()));
    assert_eq!(render.next_cast().unwrap().column, 0);
    render = render.record(BounceEvent::Escaped);
    let wanted = render.next_cast().unwrap();
    assert_eq!((wanted.row, wanted.column), (0, 1));
    assert!(wanted.cast.primary);
    render = render.record(BounceEvent::Escaped);
    render = render.record(BounceEvent::Escaped);
    assert!(render.finished());
    let grid = render.into_grid();
    assert_eq!(grid.get_pixel(0, 0), Color::new(127, 0, 0));
    assert_eq!(grid.get_pixel(0, 1), Color::black());
}

#[test]
fn a_render_ends_within_its_bound_on_casts() {
    let (width, height, samples, bounces) = (4usize, 3usize, 2usize, 3u64);
    let mut render = Grid::new(width, height).make_image(samples, bounces);
    let mut casts = 0usize;
    while render.next_cast().is_some() {
        render = render.record(struck(casts % 2, Color::new(1, 1, 1), Color::white()));
        casts += 1;
    }
    assert_eq!(casts, width * height * samples * bounces as usize);
}

#[test]
fn default_grid_is_black_and_full_size() {
    let grid = Grid::default();
    assert_eq!((grid.width(), grid.height()), (GRID_WIDTH, GRID_HEIGHT));
    assert_eq!((GRID_WIDTH, GRID_HEIGHT), (1920, 1080));
    assert!(grid.is_rectangular());
    assert_eq!(grid.get_pixel(0, 0), Color::black());
    assert_eq!(grid.get_pixel(1079, 1919), Color::black());
}

#[test]
fn set_pixel_changes_one_pixel() {
    let mut grid = Grid::new(3, 3);
    grid.set_pixel(1, 2, Color::new(1, 2, 3));
    for row in 0..3 {
        for column in 0..3 {
            let expected = if (row, column) == (1, 2) { Color::new(1, 2, 3) } else { Color::black() };
            assert_eq!(grid.get_pixel(row, column), expected);
        }
    }
}

#[test]
fn is_rectangular_sees_a_short_row() {
    let mut grid = Grid::new(3, 2);
    assert!(grid.is_rectangular());
    grid.colors[1].pop();
    assert!(!grid.is_rectangular());
    grid.colors.pop();
    assert!(!grid.is_rectangular());
}

#[test]
fn export_image_is_row_major_rgb() {
    let mut grid = Grid::new(2, 2);
    grid.set_pixel(0, 0, Color::new(1, 2, 3));
    grid.set_pixel(0, 1, Color::new(4, 5, 6));
    grid.set_pixel(1, 0, Color::new(7, 8, 9));
    grid.set_pixel(1, 1, Color::new(10, 11, 12));
    assert_eq!(grid.export_image(), vec![1, 2, 3, 4, 5, 6, 7, 8, 9, 10, 11, 12]);
}

#[test]
fn export_image_of_an_empty_raster_is_empty() {
    assert!(Grid::new(0, 3).export_image().is_empty());
    assert!(Grid::new(3, 0).export_image().is_empty());
}
