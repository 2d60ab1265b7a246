use lighting_controller::utility::Progression;

#[test]
fn full_cycle_wraps_once() {
    let mut p = Progression::new(5);
    let mut wraps: u32 = 0;
    for step in 0..5 {
        let wrapped = p.checked_increment();
        if wrapped {
            wraps += 1;
            assert_eq!(step, 4, "the wrap must come on the last step of the cycle");
        }
    }
    assert_eq!(wraps, 1);
    assert_eq!(p.get_current(), 0);
}

#[test]
fn two_full_cycles_wrap_twice() {
    let mut p = Progression::new(3);
    let mut wraps: u32 = 0;
    for _ in 0..6 {
        if p.checked_increment() {
            wraps += 1;
        }
    }
    assert_eq!(wraps, 2);
    assert_eq!(p.get_current(), 0);
}

#[test]
fn mono_zero_total_reads_zero() {
    let mut p = Progression::new(0);
    assert_eq!(p.get_current(), 0);
    p.increment();
    p.decrement();
    p.set_current(7);
    assert!(!p.checked_increment());
    assert!(!p.checked_decrement());
    p.reverse_direction();
    assert_eq!(p.get_current(), 0);
}

#[test]
fn mono_one_total_reads_zero() {
    let mut p = Progression::new(1);
    p.increment();
    p.increment();
    p.set_current(3);
    p.reverse_direction();
    assert_eq!(p.get_current(), 0);
}

#[test]
fn reverse_keeps_raw_position_and_mirrors_reading() {
    let mut p = Progression::new(5);
    p.increment();
    assert_eq!(p.current, 1);
    assert_eq!(p.get_current(), 1);
    p.reverse_direction();
    assert_eq!(p.current, 1, "the raw position must not move");
    assert_eq!(p.get_current(), 3, "total - 1 - raw = 5 - 1 - 1");
}

#[test]
fn set_current_wraps_modulo_total() {
    let mut p = Progression::new(4);
    p.set_current(6);
    assert_eq!(p.get_current(), 2);
    p.set_current(4);
    assert_eq!(p.get_current(), 0);
}

#[test]
fn decrement_wraps_to_last_position() {
    let mut p = Progression::new(4);
    let wrapped = p.checked_decrement();
    assert!(wrapped);
    assert_eq!(p.get_current(), 3);
    assert!(!p.checked_decrement());
    assert_eq!(p.get_current(), 2);
}

#[test]
fn peeks_do_not_move_the_position() {
    let mut p = Progression::new(3);
    p.increment();
    assert_eq!(p.peek_next(), 2);
    assert_eq!(p.peek_prev(), 0);
    assert_eq!(p.get_current(), 1);
    p.set_current(2);
    assert_eq!(p.peek_next(), 0, "peeking past the end wraps to 0");
}

#[test]
fn reset_returns_to_start_and_keeps_direction() {
    let mut p = Progression::new(5);
    p.increment();
    p.reverse_direction();
    p.reset();
    assert!(p.is_first_frame());
    assert!(!p.is_forward);
    assert_eq!(p.get_current(), 4, "backward reading of raw 0");
}
