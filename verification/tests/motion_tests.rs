use stepper_lib::motion::{
    acceleration_curve, movement, steps_schedule, accel_limit, all_valid, drive_start, reversed, steps_plan, Acceleration, DriveStart, Sign,
    StepsPlan,
};

#[test]
fn acceleration_runs_up_to_its_limit() {
    let mut a = Acceleration::new(3);
    assert_eq!(a.limit(), 3);
    let mut numbers = vec![];
    while let Some(i) = a.next_index() {
        numbers.push(i);
        assert!(a.record(false));
    }
    assert_eq!(numbers, vec![1, 2, 3]);
    assert_eq!(a.taken(), 3);
    assert_eq!(a.next_index(), None);
}

#[test]
fn acceleration_stops_at_target_speed() {
    let mut a = Acceleration::new(10);
    assert_eq!(a.next_index(), Some(1));
    assert!(a.record(false));
    assert_eq!(a.next_index(), Some(2));
    assert!(!a.record(true));
    assert_eq!(a.next_index(), None);
    assert_eq!(a.taken(), 1);
}

#[test]
fn acceleration_with_no_steps() {
    let a = Acceleration::new(0);
    assert_eq!(a.next_index(), None);
    assert_eq!(a.taken(), 0);
}

#[test]
fn accel_limit_is_half() {
    assert_eq!(accel_limit(7), 3);
    assert_eq!(accel_limit(8), 4);
    assert_eq!(accel_limit(0), 0);
    assert_eq!(accel_limit(1), 0);
}

fn total(p: &StepsPlan) -> u64 {
    p.accel + p.cruise + if p.odd_step { 1 } else { 0 } + p.cruise + p.decel
}

#[test]
fn plan_of_an_odd_count() {
    let p = steps_plan(7, 2);
    assert_eq!(
        p,
        StepsPlan { accel: 2, cruise: 1, odd_step: true, odd_step_from_curve: true, decel: 2 }
    );
    assert_eq!(total(&p), 7);
}

#[test]
fn plan_of_an_even_count_without_acceleration() {
    let p = steps_plan(10, 0);
    assert_eq!(
        p,
        StepsPlan { accel: 0, cruise: 5, odd_step: false, odd_step_from_curve: false, decel: 0 }
    );
    assert_eq!(total(&p), 10);
}

#[test]
fn plan_with_full_acceleration() {
    let p = steps_plan(9, 4);
    assert_eq!(p.cruise, 0);
    assert!(p.odd_step);
    assert_eq!(total(&p), 9);
}

#[test]
fn drive_start_by_sign() {
    assert_eq!(drive_start(Sign::Zero), DriveStart::Finished);
    assert_eq!(drive_start(Sign::Positive), DriveStart::Turn(true));
    assert_eq!(drive_start(Sign::Negative), DriveStart::Turn(false));
    assert_eq!(drive_start(Sign::Unordered), DriveStart::Keep);
}

#[test]
fn reversed_curve() {
    assert_eq!(reversed(&vec![0.5f32, 0.25, 0.125]), vec![0.125f32, 0.25, 0.5]);
    assert_eq!(reversed(&vec![3u64, 1, 2, 9]), vec![9u64, 2, 1, 3]);
    let empty: Vec<u8> = vec![];
    assert_eq!(reversed(&empty), empty);
    let v = vec![1i32, 2, 3];
    assert_eq!(reversed(&reversed(&v)), v);
}

#[test]
fn all_valid_is_the_conjunction() {
    assert!(all_valid(&[]));
    assert!(all_valid(&[true, true, true]));
    assert!(!all_valid(&[true, false, true]));
    assert!(!all_valid(&[false]));
}

#[test]
fn acceleration_curve_stops_at_target_speed() {
    let curve = acceleration_curve(5, |i: u64| (i * 10, i >= 3));
    assert_eq!(curve, vec![10, 20]);
}

#[test]
fn acceleration_curve_stops_at_its_limit() {
    let curve = acceleration_curve(3, |i: u64| (1.0f32 / i as f32, false));
    assert_eq!(curve, vec![1.0f32, 0.5, 1.0 / 3.0]);
    let none = acceleration_curve(0, |i: u64| (i, false));
    assert!(none.is_empty());
}

#[test]
fn steps_schedule_of_nine_steps() {
    let (curve, plan) = steps_schedule(9, |i: u64| (i, i >= 3));
    assert_eq!(curve, vec![1, 2]);
    assert_eq!(
        plan,
        StepsPlan { accel: 2, cruise: 2, odd_step: true, odd_step_from_curve: true, decel: 2 }
    );
    assert_eq!(total(&plan), 9);
}

#[test]
fn movement_of_nine_steps() {
    let (curve, times) = movement(9, |i: u64| (100 / i, i >= 3), 10u64);
    assert_eq!(curve, vec![100, 50]);
    assert_eq!(times, vec![100, 50, 10, 10, 50, 10, 10, 100, 50]);
    assert_eq!(times.len(), 9);
}

#[test]
fn movement_without_acceleration() {
    let (curve, times) = movement(5, |i: u64| (i, true), 7u64);
    assert!(curve.is_empty());
    assert_eq!(times, vec![7, 7, 7, 7, 7]);
}

#[test]
fn slower_acceleration_is_a_prefix() {
    let slow = acceleration_curve(5, |i: u64| (100 / i, 100 / i < 40));
    let fast = acceleration_curve(6, |i: u64| (100 / i, 100 / i < 20));
    assert_eq!(slow, vec![100, 50]);
    assert_eq!(fast, vec![100, 50, 33, 25, 20]);
    assert_eq!(&fast[..slow.len()], &slow[..]);
}
