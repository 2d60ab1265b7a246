use lighting_controller::animations::trigger::{
    GlobalParameters, Mode as TriggerMode, Parameters as TriggerParameters,
};
use lighting_controller::animations::{background, foreground};
use lighting_controller::animations::{
    Animation, AnimationParameters, AnimationType, Direction, RainbowDir,
};
use lighting_controller::colors::Rgb;
use lighting_controller::{LightingController, LogicalStrip};

fn solid_animation<'a>(color_table: &'a [Rgb], n_led: usize) -> Animation<'a> {
    let params = AnimationParameters {
        bg: background::Parameters {
            mode: background::Mode::Solid,
            rainbow: color_table,
            rainbow_dir: RainbowDir::Forward,
            direction: Direction::Positive,
            duration_ns: 0,
            subdivisions: 0,
        },
        fg: foreground::Parameters {
            mode: foreground::Mode::NoForeground,
            rainbow: color_table,
            rainbow_dir: RainbowDir::Forward,
            direction: Direction::Positive,
            duration_ns: 0,
            step_time_ns: 0,
            subdivisions: 0,
            pixels_per_pixel_group: 1,
        },
        trigger: GlobalParameters {
            fade_rainbow: color_table,
            fade_rainbow_dir: RainbowDir::Forward,
            incremental_rainbow: color_table,
            incremental_rainbow_dir: RainbowDir::Forward,
            duration_ns: 0,
        },
    };
    Animation::new(params, 60, n_led)
}

#[test]
fn strip_reads_writes_and_fills() {
    let mut strip = LogicalStrip::new(vec![Rgb::new(0, 0, 0); 4]);
    strip.set_color_at_index(2, Rgb::new(1, 2, 3));
    assert_eq!(strip.get_color_at_index(2), Rgb::new(1, 2, 3));
    assert_eq!(strip.get_color_at_index(0), Rgb::new(0, 0, 0));
    strip.set_strip_to_solid_color(Rgb::new(9, 9, 9));
    for i in 0..4 {
        assert_eq!(strip.get_color_at_index(i), Rgb::new(9, 9, 9));
    }
}

#[test]
fn update_flushes_through_the_translation_arrays() {
    let x = [Rgb::new(40, 0, 0)];
    let animation = solid_animation(&x, 3).set_translation_array(vec![5, 6, 7]);
    let mut controller = LightingController::new(vec![animation], 60);
    let mut strip = LogicalStrip::new(vec![Rgb::new(0, 0, 0); 9]);
    controller.update(&mut strip);
    for i in 0..9 {
        let expected = if (5..8).contains(&i) {
            Rgb::new(40, 0, 0)
        } else {
            Rgb::new(0, 0, 0)
        };
        assert_eq!(strip.get_color_at_index(i), expected);
    }
}

#[test]
fn overlapping_animations_resolve_last_write_wins() {
    let x = [Rgb::new(40, 0, 0)];
    let y = [Rgb::new(0, 40, 0)];
    let first = solid_animation(&x, 4); // physical indices 0..4
    let second = solid_animation(&y, 4).set_translation_array(vec![2, 3, 4, 5]);
    let mut controller = LightingController::new(vec![first, second], 60);
    let mut strip = LogicalStrip::new(vec![Rgb::new(0, 0, 0); 8]);
    controller.update(&mut strip);
    assert_eq!(strip.get_color_at_index(0), Rgb::new(40, 0, 0));
    assert_eq!(strip.get_color_at_index(1), Rgb::new(40, 0, 0));
    for i in 2..6 {
        assert_eq!(
            strip.get_color_at_index(i),
            Rgb::new(0, 40, 0),
            "the later animation wins at overlapping indices"
        );
    }
    assert_eq!(strip.get_color_at_index(6), Rgb::new(0, 0, 0));
}

#[test]
fn controller_dispatches_triggers_by_index() {
    let x = [Rgb::new(40, 0, 0)];
    let first = solid_animation(&x, 2);
    let second = solid_animation(&x, 2);
    let mut controller = LightingController::new(vec![first, second], 60);
    let event = TriggerParameters {
        mode: TriggerMode::Foreground,
        duration_ns: 0,
        starting_offset: 0,
    };
    controller.trigger(1, &event);
    assert!(!controller.animations[0].fg_state.has_been_triggered);
    assert!(controller.animations[1].fg_state.has_been_triggered);
}

#[test]
fn controller_dispatches_offsets_by_index() {
    let x = [Rgb::new(40, 0, 0)];
    let first = solid_animation(&x, 2);
    let second = solid_animation(&x, 2);
    let mut controller = LightingController::new(vec![first, second], 60);
    controller.set_offset(0, AnimationType::Background, 700);
    controller.set_offset(1, AnimationType::Foreground, 900);
    controller.set_offset(1, AnimationType::Trigger, 111);
    assert_eq!(controller.animations[0].bg_state.offset, 700);
    assert_eq!(controller.animations[0].fg_state.offset, 0);
    assert_eq!(controller.animations[1].fg_state.offset, 900);
    assert_eq!(controller.animations[1].bg_state.offset, 0);
}

#[test]
fn replace_animation_swaps_one_slot() {
    let x = [Rgb::new(40, 0, 0)];
    let y = [Rgb::new(0, 40, 0)];
    let first = solid_animation(&x, 2);
    let mut controller = LightingController::new(vec![first], 60);
    let replacement = solid_animation(&y, 2);
    controller.replace_animation(0, replacement);
    let mut strip = LogicalStrip::new(vec![Rgb::new(0, 0, 0); 2]);
    controller.update(&mut strip);
    assert_eq!(strip.get_color_at_index(0), Rgb::new(0, 40, 0));
}
