use lighting_controller::animations::trigger::{
    GlobalParameters, Mode as TriggerMode, Parameters as TriggerParameters, TriggerCollection,
};
use lighting_controller::animations::{background, foreground};
use lighting_controller::animations::{
    Animation, AnimationParameters, AnimationType, Direction, RainbowDir,
};
use lighting_controller::colors::Rgb;
use lighting_controller::utility::{
    convert_ms_to_frames, convert_ns_to_frames, default_translation_array, get_random_offset,
    shift_offset, Progression,
};

fn bg_params<'a>(mode: background::Mode, rainbow: &'a [Rgb]) -> background::Parameters<'a> {
    background::Parameters {
        mode,
        rainbow,
        rainbow_dir: RainbowDir::Forward,
        direction: Direction::Positive,
        duration_ns: 66_666_667, // 4 frames at 60 Hz
        subdivisions: 0,
    }
}

fn fg_params<'a>(mode: foreground::Mode, rainbow: &'a [Rgb]) -> foreground::Parameters<'a> {
    foreground::Parameters {
        mode,
        rainbow,
        rainbow_dir: RainbowDir::Forward,
        direction: Direction::Positive,
        duration_ns: 66_666_667,
        step_time_ns: 0, // mono step progression: the marquee holds still
        subdivisions: 0,
        pixels_per_pixel_group: 1,
    }
}

fn trig_params<'a>(rainbow: &'a [Rgb], duration_ns: u64) -> GlobalParameters<'a> {
    GlobalParameters {
        fade_rainbow: rainbow,
        fade_rainbow_dir: RainbowDir::Forward,
        incremental_rainbow: rainbow,
        incremental_rainbow_dir: RainbowDir::Forward,
        duration_ns,
    }
}

#[test]
fn conversions_truncate() {
    assert_eq!(convert_ns_to_frames(1_000_000_000, 60), 60);
    assert_eq!(convert_ns_to_frames(66_666_667, 60), 4);
    assert_eq!(convert_ns_to_frames(16_666_666, 60), 0);
    assert_eq!(convert_ms_to_frames(500, 60), 30);
    assert_eq!(convert_ms_to_frames(999, 1), 0);
}

#[test]
fn default_translation_array_counts_up_from_start() {
    let t = default_translation_array(5, 2);
    assert_eq!(t, vec![2, 3, 4, 5, 6]);
    let empty = default_translation_array(0, 9);
    assert!(empty.is_empty());
}

#[test]
fn shift_offset_zero_total_is_unchanged() {
    let frames = Progression::new(0);
    assert_eq!(shift_offset(123, frames, Direction::Positive), 123);
    assert_eq!(shift_offset(123, frames, Direction::Negative), 123);
    assert_eq!(shift_offset(123, frames, Direction::Stopped), 123);
}

#[test]
fn shift_offset_scales_the_completed_fraction() {
    let frames = Progression {
        current: 1,
        total: 4,
        is_forward: true,
    };
    assert_eq!(shift_offset(10, frames, Direction::Positive), 10 + 16383);
    assert_eq!(shift_offset(10, frames, Direction::Negative), 10 + 49151);
    assert_eq!(shift_offset(10, frames, Direction::Stopped), 10);
}

#[test]
fn shift_offset_wraps_at_the_16_bit_range() {
    let frames = Progression {
        current: 1,
        total: 4,
        is_forward: true,
    };
    // 65000 + 16383 = 81383, and 81383 mod 65536 = 15847
    assert_eq!(shift_offset(65000, frames, Direction::Positive), 15847);
}

#[test]
fn solid_background_paints_every_pixel() {
    let x = [Rgb::new(40, 0, 0)];
    let y = [Rgb::new(0, 40, 0)];
    let t = [Rgb::new(0, 0, 40)];
    let params = AnimationParameters {
        bg: bg_params(background::Mode::Solid, &x),
        fg: fg_params(foreground::Mode::NoForeground, &y),
        trigger: trig_params(&t, 0),
    };
    let mut a = Animation::new(params, 60, 5);
    a.update();
    for i in 0..5 {
        assert_eq!(a.segment()[i], Rgb::new(40, 0, 0));
    }
}

#[test]
fn layering_foreground_subset_over_background() {
    let x = [Rgb::new(40, 0, 0)];
    let y = [Rgb::new(0, 40, 0)];
    let t = [Rgb::new(0, 0, 40)];
    let params = AnimationParameters {
        bg: bg_params(background::Mode::Solid, &x),
        fg: fg_params(foreground::Mode::MarqueeSolid, &y),
        trigger: trig_params(&t, 0),
    };
    let mut a = Animation::new(params, 60, 6);
    a.update();
    for i in 0..6 {
        if i % 2 == 0 {
            assert_eq!(a.segment()[i], Rgb::new(0, 40, 0), "marquee pixels show the foreground");
        } else {
            assert_eq!(a.segment()[i], Rgb::new(40, 0, 0), "the rest shows the background");
        }
    }
}

#[test]
fn solid_fade_background_blends_frame_by_frame() {
    let colors = [Rgb::new(0, 0, 0), Rgb::new(200, 100, 40)];
    let y = [Rgb::new(0, 40, 0)];
    let params = AnimationParameters {
        bg: bg_params(background::Mode::SolidFade, &colors),
        fg: fg_params(foreground::Mode::NoForeground, &y),
        trigger: trig_params(&y, 0),
    };
    let mut a = Animation::new(params, 60, 3);
    a.update();
    assert_eq!(a.segment()[0], Rgb::new(0, 0, 0), "frame 0 shows the current color");
    a.update();
    assert_eq!(a.segment()[0], Rgb::new(50, 25, 10), "frame 1 of 4 is a quarter of the way");
    a.update();
    assert_eq!(a.segment()[0], Rgb::new(100, 50, 20));
}

#[test]
fn fill_rainbow_background_spreads_the_table() {
    let colors = [Rgb::new(1, 0, 0), Rgb::new(0, 1, 0), Rgb::new(0, 0, 1)];
    let y = [Rgb::new(9, 9, 9)];
    let params = AnimationParameters {
        bg: bg_params(background::Mode::FillRainbow, &colors),
        fg: fg_params(foreground::Mode::NoForeground, &y),
        trigger: trig_params(&y, 0),
    };
    let mut a = Animation::new(params, 60, 4);
    a.update();
    assert_eq!(a.segment()[0], colors[0]);
    assert_eq!(a.segment()[1], colors[1]);
    assert_eq!(a.segment()[2], colors[2]);
    assert_eq!(a.segment()[3], colors[0], "the fill wraps around the table");
}

#[test]
fn fill_rainbow_honors_the_phase_offset() {
    let colors = [Rgb::new(1, 0, 0), Rgb::new(0, 1, 0), Rgb::new(0, 0, 1)];
    let y = [Rgb::new(9, 9, 9)];
    let params = AnimationParameters {
        bg: bg_params(background::Mode::FillRainbow, &colors),
        fg: fg_params(foreground::Mode::NoForeground, &y),
        trigger: trig_params(&y, 0),
    };
    let mut a = Animation::new(params, 60, 3);
    // half the 16-bit range over a three-color table rotates it one place
    a.set_offset(AnimationType::Background, 0x8000);
    a.update();
    assert_eq!(a.segment()[0], colors[1]);
    assert_eq!(a.segment()[1], colors[2]);
    assert_eq!(a.segment()[2], colors[0]);
}

#[test]
fn trigger_flag_routes_to_the_background_layer() {
    let x = [Rgb::new(40, 0, 0)];
    let params = AnimationParameters {
        bg: bg_params(background::Mode::Solid, &x),
        fg: fg_params(foreground::Mode::NoForeground, &x),
        trigger: trig_params(&x, 0),
    };
    let mut a = Animation::new(params, 60, 2);
    let event = TriggerParameters {
        mode: TriggerMode::Background,
        duration_ns: 0,
        starting_offset: 0,
    };
    a.trigger(&event, 60);
    assert!(a.bg_state.has_been_triggered);
    assert!(!a.fg_state.has_been_triggered);
    let nothing = TriggerParameters {
        mode: TriggerMode::NoTrigger,
        duration_ns: 0,
        starting_offset: 0,
    };
    a.trigger(&nothing, 60);
    assert!(a.triggers.slots.iter().all(|s| s.is_none()));
}

#[test]
fn pool_capacity_is_bounded_and_freed_slots_are_reused() {
    let colors = [Rgb::new(7, 0, 0), Rgb::new(0, 7, 0)];
    let globals = trig_params(&colors, 0);
    let mut pool: TriggerCollection<3> = TriggerCollection::new(&globals, 60);
    let event = TriggerParameters {
        mode: TriggerMode::Flash,
        duration_ns: 33_333_334, // 2 frames at 60 Hz
        starting_offset: 0,
    };
    for _ in 0..5 {
        pool.add_trigger(&event, 60);
    }
    assert_eq!(pool.slots.len(), 3, "the pool never grows past its capacity");
    assert!(pool.slots.iter().all(|s| s.is_some()), "a full pool rejects new triggers");

    let mut segment = vec![Rgb::new(0, 0, 0); 4];
    pool.update(&mut segment);
    pool.update(&mut segment);
    assert!(
        pool.slots.iter().all(|s| s.is_none()),
        "a slot whose cycle completed is freed"
    );
    pool.add_trigger(&event, 60);
    assert!(pool.slots[0].is_some(), "a freed slot is available to a later trigger");
}

#[test]
fn flash_trigger_paints_the_whole_segment() {
    let colors = [Rgb::new(7, 1, 2)];
    let globals = trig_params(&colors, 0);
    let mut pool: TriggerCollection<2> = TriggerCollection::new(&globals, 60);
    let event = TriggerParameters {
        mode: TriggerMode::Flash,
        duration_ns: 33_333_334,
        starting_offset: 0,
    };
    pool.add_trigger(&event, 60);
    let mut segment = vec![Rgb::new(0, 0, 0); 3];
    pool.update(&mut segment);
    assert!(segment.iter().all(|c| *c == Rgb::new(7, 1, 2)));
}

#[test]
fn color_pulse_trigger_lights_the_offset_pixel() {
    let colors = [Rgb::new(9, 9, 0)];
    let globals = trig_params(&colors, 0);
    let mut pool: TriggerCollection<2> = TriggerCollection::new(&globals, 60);
    let event = TriggerParameters {
        mode: TriggerMode::ColorPulse,
        duration_ns: 33_333_334,
        starting_offset: 0x8000, // half way along the strip
    };
    pool.add_trigger(&event, 60);
    let mut segment = vec![Rgb::new(0, 0, 0); 8];
    pool.update(&mut segment);
    for i in 0..8 {
        if i == 4 {
            assert_eq!(segment[i], Rgb::new(9, 9, 0));
        } else {
            assert_eq!(segment[i], Rgb::new(0, 0, 0));
        }
    }
}

#[test]
fn pool_triggers_paint_on_top_of_the_layers() {
    let x = [Rgb::new(40, 0, 0)];
    let t = [Rgb::new(0, 0, 99)];
    let params = AnimationParameters {
        bg: bg_params(background::Mode::Solid, &x),
        fg: fg_params(foreground::Mode::NoForeground, &x),
        trigger: trig_params(&t, 0),
    };
    let mut a = Animation::new(params, 60, 4);
    let event = TriggerParameters {
        mode: TriggerMode::Flash,
        duration_ns: 33_333_334,
        starting_offset: 0,
    };
    a.trigger(&event, 60);
    a.update();
    for i in 0..4 {
        assert_eq!(a.segment()[i], Rgb::new(0, 0, 99), "the trigger overlay wins");
    }
}

#[test]
fn marquee_marches_when_its_step_cycle_completes() {
    let x = [Rgb::new(40, 0, 0)];
    let y = [Rgb::new(0, 40, 0)];
    let mut fg = fg_params(foreground::Mode::MarqueeSolid, &y);
    fg.step_time_ns = 33_333_334; // 2 frames at 60 Hz
    let params = AnimationParameters {
        bg: bg_params(background::Mode::Solid, &x),
        fg,
        trigger: trig_params(&y, 0),
    };
    let mut a = Animation::new(params, 60, 4);
    a.update(); // paints at phase 0, step counter 0 -> 1
    assert_eq!(a.segment()[0], Rgb::new(0, 40, 0));
    assert_eq!(a.segment()[1], Rgb::new(40, 0, 0));
    a.update(); // still phase 0; the step cycle completes afterwards
    a.update(); // now the march has moved one position
    assert_eq!(a.segment()[0], Rgb::new(40, 0, 0), "the marquee moved");
    assert_eq!(a.segment()[1], Rgb::new(0, 40, 0));
}

#[test]
fn builders_configure_each_layer() {
    let x = [Rgb::new(1, 0, 0)];
    let y = [Rgb::new(0, 1, 0), Rgb::new(0, 2, 0)];
    let params = AnimationParameters {
        bg: bg_params(background::Mode::Solid, &x),
        fg: fg_params(foreground::Mode::NoForeground, &x),
        trigger: trig_params(&x, 0),
    };
    let a = Animation::new(params, 60, 4)
        .set_translation_array(vec![4, 5, 6, 7])
        .set_bg_direction(Direction::Negative)
        .set_bg_duration_ns(1_000_000_000, 60)
        .set_bg_mode(background::Mode::SolidFade)
        .set_bg_rainbow(&y, RainbowDir::Backward)
        .set_bg_subdivisions(2)
        .set_fg_direction(Direction::Stopped)
        .set_fg_duration_ns(500_000_000, 60)
        .set_fg_mode(foreground::Mode::MarqueeSolid)
        .set_fg_rainbow(&y, RainbowDir::Forward)
        .set_fg_pixels_per_pixel_group(3)
        .set_fg_step_time_ns(250_000_000, 60)
        .set_fg_subdivisions(1)
        .set_trig_duration_ns(2_000_000_000, 60)
        .set_trig_fade_rainbow(&y, RainbowDir::Forward)
        .set_trig_incremental_rainbow(&y, RainbowDir::Backward);
    assert_eq!(a.translation_array, vec![4, 5, 6, 7]);
    assert!(matches!(a.bg_state.direction, Direction::Negative));
    assert_eq!(a.bg_state.frames.total, 60);
    assert!(matches!(a.bg_state.mode, background::Mode::SolidFade));
    assert!(matches!(a.bg_state.rainbow.backer.rainbow_dir, RainbowDir::Backward));
    assert_eq!(a.bg_state.subdivisions, 2);
    assert!(matches!(a.fg_state.direction, Direction::Stopped));
    assert_eq!(a.fg_state.frames.total, 30);
    assert!(matches!(a.fg_state.mode, foreground::Mode::MarqueeSolid));
    assert_eq!(a.fg_state.pixels_per_pixel_group, 3);
    assert_eq!(a.fg_state.step_frames.total, 15);
    assert_eq!(a.fg_state.subdivisions, 1);
    assert_eq!(a.triggers.rainbows.frames.total, 120);
    assert!(matches!(
        a.triggers.rainbows.incremental_rainbow.backer.rainbow_dir,
        RainbowDir::Backward
    ));
}

#[test]
fn random_offset_is_deterministic_for_one_seed() {
    let mut rng1 = fastrand::Rng::with_seed(42);
    let mut rng2 = fastrand::Rng::with_seed(42);
    let a = get_random_offset(&mut rng1);
    let b = get_random_offset(&mut rng2);
    assert_eq!(a, b);
    let _ = get_random_offset(&mut rng1);
}
