use stepper_lib::controller::{PinMode, StepperState, PIN_ERR};

fn driving() -> StepperState {
    StepperState::new(17, 27, PinMode::Output, PinMode::Output)
}

#[test]
fn new_starts_at_zero_turning_right() {
    let s = driving();
    assert_eq!(s.pin_dir, 17);
    assert_eq!(s.pin_step, 27);
    assert_eq!(s.pin_mes, PIN_ERR);
    assert_eq!(s.pin_mes, 0xFF);
    assert_eq!(s.get_pin_dir(), 17);
    assert_eq!(s.get_pin_step(), 27);
    assert_eq!(s.get_pin_mes(), PIN_ERR);
    assert_eq!(s.get_pos(), 0);
    assert!(s.get_dir());
    assert_eq!(s.dir_pin(), PinMode::Output);
    assert_eq!(s.step_pin(), PinMode::Output);
}

#[test]
fn step_counts_in_the_current_direction() {
    let mut s = driving();
    assert!(s.step());
    assert!(s.step());
    assert_eq!(s.get_pos(), 2);
    assert!(s.set_dir(false));
    assert!(!s.get_dir());
    for _ in 0..5 {
        assert!(s.step());
    }
    assert_eq!(s.get_pos(), -3);
}

#[test]
fn turning_back_undoes_a_step() {
    let mut s = driving();
    s.step();
    s.set_dir(false);
    s.step();
    assert_eq!(s.get_pos(), 0);
}

#[test]
fn missing_step_pin_does_not_move() {
    let mut s = StepperState::new(17, 27, PinMode::Output, PinMode::Missing);
    assert!(!s.step());
    assert_eq!(s.get_pos(), 0);
    let mut t = StepperState::new(17, 27, PinMode::Output, PinMode::Input);
    assert!(!t.step());
    assert_eq!(t.get_pos(), 0);
}

#[test]
fn missing_dir_pin_keeps_direction() {
    let mut s = StepperState::new(17, 27, PinMode::Missing, PinMode::Output);
    assert!(!s.set_dir(false));
    assert!(s.get_dir());
    s.step();
    assert_eq!(s.get_pos(), 1);
}

#[test]
fn last_direction_wins() {
    let mut s = driving();
    s.set_dir(false);
    s.set_dir(true);
    assert!(s.get_dir());
}

#[test]
fn can_step_is_true_in_range() {
    let s = driving();
    assert!(s.can_step());
    let t = StepperState::new(1, 2, PinMode::Missing, PinMode::Missing);
    assert!(t.can_step());
}

#[test]
fn stop_takes_no_steps() {
    let mut s = driving();
    s.step();
    assert_eq!(s.stop(), 0);
    assert_eq!(s.get_pos(), 1);
    assert!(s.get_dir());
}

#[test]
fn rel_steps_of_positive_position() {
    let mut s = driving();
    for _ in 0..7 {
        s.step();
    }
    assert_eq!(s.rel_steps(3), 1);
    assert_eq!(s.rel_steps(7), 0);
    assert_eq!(s.rel_steps(200), 7);
}

#[test]
fn rel_steps_keeps_the_sign_of_the_position() {
    let mut s = driving();
    s.set_dir(false);
    for _ in 0..5 {
        s.step();
    }
    assert_eq!(s.get_pos(), -5);
    assert_eq!(s.rel_steps(3), -2);
    assert_eq!(s.rel_steps(5), 0);
}

#[test]
fn rel_steps_with_a_count_beyond_i64() {
    let mut s = driving();
    for _ in 0..7 {
        s.step();
    }
    // u64::MAX is -1 as an i64, and every position is a multiple of it
    assert_eq!(s.rel_steps(u64::MAX), 0);
    // 2^63 + 2 is -(2^63 - 2) as an i64
    assert_eq!(s.rel_steps((1u64 << 63) + 2), 7);
}
