use lumol::control::{Alternator, Control};

/// A control that records how many times it ran, and adds one to the system.
struct Counter {
    runs: u32,
}

impl Control<u32> for Counter {
    fn control(&mut self, system: &mut u32) {
        self.runs += 1;
        *system += 1;
    }
}

#[test]
fn alternator_runs_every_third_call() {
    let mut alternator = Alternator::new(3, Counter { runs: 0 });
    let mut system: u32 = 0;
    let mut ran = Vec::new();
    for _ in 0..9 {
        ran.push(alternator.step(&mut system));
    }
    assert_eq!(ran, vec![false, false, true, false, false, true, false, false, true]);
    assert_eq!(system, 3);
    assert_eq!(alternator.as_ref().runs, 3);
}

#[test]
fn alternator_other_calls_leave_system_unchanged() {
    let mut alternator = Alternator::new(4, Counter { runs: 0 });
    let mut system: u32 = 10;
    for call in 1..=12u32 {
        let before = system;
        alternator.control(&mut system);
        if call % 4 == 0 {
            assert_eq!(system, before + 1);
        } else {
            assert_eq!(system, before);
        }
    }
    assert_eq!(alternator.into_inner().runs, 3);
}

#[test]
fn alternator_with_period_one_runs_every_call() {
    let mut alternator = Alternator::new(1, Counter { runs: 0 });
    let mut system: u32 = 0;
    for _ in 0..5 {
        assert!(alternator.step(&mut system));
    }
    assert_eq!(system, 5);
}

#[test]
fn alternator_can_run_counts_calls() {
    let mut alternator = Alternator::new(2, Counter { runs: 0 });
    assert!(!alternator.can_run());
    assert!(alternator.can_run());
    assert!(!alternator.can_run());
    assert!(alternator.can_run());
    assert_eq!(alternator.as_ref().runs, 0);
}

#[test]
fn alternator_default_setup_and_finish_do_nothing() {
    let mut alternator = Alternator::new(2, Counter { runs: 0 });
    let system: u32 = 7;
    alternator.setup(&system);
    alternator.finish(&system);
    assert_eq!(alternator.as_ref().runs, 0);
}

#[test]
fn alternator_control_counts_runs_over_many_calls() {
    let mut alternator = Alternator::new(5, Counter { runs: 0 });
    let mut system: u32 = 0;
    for call in 1..=23u32 {
        alternator.control(&mut system);
        assert_eq!(system, call / 5);
    }
    assert_eq!(alternator.as_ref().runs, 4);
}

#[test]
fn alternator_with_period_one_has_inner_effect() {
    let mut plain = Counter { runs: 0 };
    let mut alternator = Alternator::new(1, Counter { runs: 0 });
    let mut a: u32 = 40;
    let mut b: u32 = 40;
    for _ in 0..6 {
        plain.control(&mut a);
        alternator.control(&mut b);
        assert_eq!(a, b);
    }
    assert_eq!(alternator.as_ref().runs, plain.runs);
}
