use lighting_controller::animations::RainbowDir;
use lighting_controller::colors::{color_lerp, dark_pattern, ManipulatableColor, Rgb};
use lighting_controller::utility::{
    FadeRainbow, MarchingRainbow, MarchingRainbowMut, Progression, ReversibleRainbow,
    StatefulRainbow, TimedRainbows,
};

#[test]
fn lerp_midpoint_is_half_way() {
    let black = Rgb::new(0, 0, 0);
    let white = Rgb::new(255, 255, 255);
    let mid = color_lerp(5, 0, 10, black, white);
    assert_eq!(mid, Rgb::new(127, 127, 127));
}

#[test]
fn lerp_handles_nonzero_range_start_and_descending_channels() {
    let start = Rgb::new(200, 10, 40);
    let end = Rgb::new(100, 30, 40);
    let c = color_lerp(15, 10, 20, start, end);
    assert_eq!(c, Rgb::new(150, 20, 40));
}

#[test]
fn lerp_endpoints_are_exact() {
    let start = Rgb::new(3, 250, 77);
    let end = Rgb::new(251, 0, 78);
    assert_eq!(color_lerp(0, 0, 7, start, end), start);
    assert_eq!(color_lerp(7, 0, 7, start, end), end);
}

#[test]
fn lerp_with_uses_the_progression_reading() {
    let start = Rgb::new(0, 0, 0);
    let end = Rgb::new(100, 200, 40);
    let mut factor = Progression::new(4);
    factor.increment();
    assert_eq!(start.lerp_with(end, factor), Rgb::new(25, 50, 10));
}

#[test]
fn set_color_overwrites_all_channels() {
    let mut c = Rgb::new(1, 2, 3);
    c.set_color(Rgb::new(9, 8, 7));
    assert_eq!(c, Rgb::new(9, 8, 7));
}

#[test]
fn fade_starts_at_current_color_and_approaches_next() {
    let colors = [Rgb::new(0, 0, 0), Rgb::new(100, 200, 40)];
    let mut timed = TimedRainbows {
        fade_rainbow: StatefulRainbow::new(&colors, RainbowDir::Forward),
        incremental_rainbow: StatefulRainbow::new(&colors, RainbowDir::Forward),
        frames: Progression::new(4),
    };
    assert_eq!(
        timed.calculate_fade_color(),
        timed.fade_rainbow.current_color(),
        "at frame 0 the fade shows the current color exactly"
    );
    let mut previous = Rgb::new(0, 0, 0);
    for f in 0..4 {
        timed.frames.set_current(f);
        let c = timed.calculate_fade_color();
        assert!(c.r >= previous.r && c.g >= previous.g && c.b >= previous.b);
        assert!(c.r <= 100 && c.g <= 200 && c.b <= 40);
        previous = c;
    }
    timed.frames.set_current(2);
    assert_eq!(timed.calculate_fade_color(), Rgb::new(50, 100, 20));
}

#[test]
fn fade_with_zero_total_returns_current_color() {
    let colors = [Rgb::new(10, 20, 30), Rgb::new(200, 200, 200)];
    let timed = TimedRainbows {
        fade_rainbow: StatefulRainbow::new(&colors, RainbowDir::Forward),
        incremental_rainbow: StatefulRainbow::new(&colors, RainbowDir::Forward),
        frames: Progression::new(0),
    };
    assert_eq!(timed.calculate_fade_color(), Rgb::new(10, 20, 30));
}

#[test]
fn backward_rainbow_mirrors_indexing() {
    let a = Rgb::new(1, 0, 0);
    let b = Rgb::new(0, 1, 0);
    let c = Rgb::new(0, 0, 1);
    let colors = [a, b, c];
    let rainbow = ReversibleRainbow {
        backer: &colors,
        rainbow_dir: RainbowDir::Backward,
    };
    assert_eq!(rainbow.index(0), c);
    assert_eq!(rainbow.index(1), b);
    assert_eq!(rainbow.index(2), a);
    assert_eq!(rainbow.len(), 3);
    assert!(!rainbow.is_empty());
}

#[test]
fn forward_rainbow_indexes_in_storage_order() {
    let colors = [Rgb::new(5, 0, 0), Rgb::new(0, 5, 0)];
    let rainbow = ReversibleRainbow {
        backer: &colors,
        rainbow_dir: RainbowDir::Forward,
    };
    assert_eq!(rainbow.index(0), Rgb::new(5, 0, 0));
    assert_eq!(rainbow.index(1), Rgb::new(0, 5, 0));
}

#[test]
fn stateful_rainbow_cycles_and_peeks() {
    let colors = [Rgb::new(1, 1, 1), Rgb::new(2, 2, 2), Rgb::new(3, 3, 3)];
    let mut sr = StatefulRainbow::new(&colors, RainbowDir::Forward);
    assert_eq!(sr.current_color(), Rgb::new(1, 1, 1));
    assert_eq!(sr.peek_next_color(), Rgb::new(2, 2, 2));
    assert_eq!(sr.peek_last_color(), Rgb::new(3, 3, 3));
    sr.increment();
    assert_eq!(sr.current_color(), Rgb::new(2, 2, 2));
    sr.increment();
    sr.increment();
    assert_eq!(sr.current_color(), Rgb::new(1, 1, 1), "the cursor wraps");
    sr.decrement();
    assert_eq!(sr.current_color(), Rgb::new(3, 3, 3));
    sr.reset();
    assert_eq!(sr.current_color(), Rgb::new(1, 1, 1));
}

#[test]
fn empty_rainbow_reads_black() {
    let colors: [Rgb; 0] = [];
    let sr = StatefulRainbow::new(&colors, RainbowDir::Forward);
    assert_eq!(sr.current_color(), Rgb::new(0, 0, 0));
    assert_eq!(sr.peek_next_color(), Rgb::new(0, 0, 0));
}

#[test]
fn advancing_the_march_steps_the_color_and_restarts_the_timer() {
    let colors = [Rgb::new(1, 1, 1), Rgb::new(2, 2, 2)];
    let mut timed = TimedRainbows {
        fade_rainbow: StatefulRainbow::new(&colors, RainbowDir::Forward),
        incremental_rainbow: StatefulRainbow::new(&colors, RainbowDir::Forward),
        frames: Progression::new(5),
    };
    timed.frames.set_current(3);
    assert_eq!(MarchingRainbow::current_rainbow_color(&timed), Rgb::new(1, 1, 1));
    timed.advance_rainbow_color();
    assert_eq!(MarchingRainbow::current_rainbow_color(&timed), Rgb::new(2, 2, 2));
    assert!(timed.frames.is_first_frame(), "the frame count restarts with the new color");
    assert_eq!(
        FadeRainbow::current_fade_color(&timed),
        Rgb::new(1, 1, 1),
        "the fade table's own cursor has not moved"
    );
}

#[test]
fn dark_pattern_alternates_half_and_quarter() {
    let base = Rgb::new(100, 60, 20);
    let pattern = dark_pattern(base);
    assert_eq!(pattern.len(), 6);
    for i in 0..3 {
        assert_eq!(pattern[2 * i], Rgb::new(50, 30, 10));
        assert_eq!(pattern[2 * i + 1], Rgb::new(25, 15, 5));
    }
}
