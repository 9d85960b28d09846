use mcfg::counter::StepCounter;

#[test]
fn test_start_at_zero() {
    let mut counter = StepCounter::from_zero();
    assert_eq!(counter.step(), 0);
}

#[test]
fn test_start_at_one() {
    let mut counter = StepCounter::from_one();
    assert_eq!(counter.step(), 1);
}

#[test]
fn test_start_at_ninety_nine() {
    let mut counter = StepCounter::from(99);
    assert_eq!(counter.step(), 99);
}

#[test]
fn test_just_steps() {
    let mut counter = StepCounter::from_zero();
    assert_eq!(counter.step(), 0);
    assert_eq!(counter.step(), 1);
    assert_eq!(counter.step(), 2);
    assert_eq!(counter.step(), 3);
    assert_eq!(counter.step(), 4);
    assert_eq!(counter.step(), 5);
    assert_eq!(counter.step(), 6);
    assert_eq!(counter.step(), 7);
    assert_eq!(counter.step(), 8);
    assert_eq!(counter.step(), 9);
}

#[test]
fn test_skip_steps() {
    let mut counter = StepCounter::from_zero();
    assert_eq!(counter.step(), 0);
    assert_eq!(counter.step(), 1);
    assert_eq!(counter.steps(5), Some(6));
    assert_eq!(counter.step(), 7);
    assert_eq!(counter.step(), 8);
    assert_eq!(counter.steps(10), Some(18));
    assert_eq!(counter.step(), 19);
    assert_eq!(counter.steps(0), None);
    assert_eq!(counter.step(), 20);
    assert_eq!(counter.step(), 21);
}

#[test]
fn default_counter_starts_at_one() {
    let mut counter = StepCounter::default();
    assert_eq!(counter.step(), 1);
}
