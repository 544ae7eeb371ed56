use networktables::sequence_numbers::SEQUENCE_NUMBER_DIVIDING_POINT;
use networktables::SequenceNumber;
use std::cmp::Ordering;

/// A small generator of well-mixed numbers, so that each run checks the same
/// sample.
struct Sample {
    state: u64,
}

impl Sample {
    fn new(seed: u64) -> Sample {
        Sample { state: seed }
    }

    fn next_u16(&mut self) -> u16 {
        self.state = self
            .state
            .wrapping_mul(6364136223846793005u64)
            .wrapping_add(1442695040888963407u64);
        (self.state >> 33) as u16
    }
}

#[test]
fn sequence_number_equality() {
    let mut sample = Sample::new(1);
    for _ in 0..100 {
        let n: u16 = sample.next_u16();
        assert_eq!(SequenceNumber(n), SequenceNumber(n));
    }
}

#[test]
fn sequence_number_greater() {
    let mut sample = Sample::new(2);
    for _ in 0..100 {
        let n: u16 = sample.next_u16();
        let i: u16 = sample.next_u16() % (SEQUENCE_NUMBER_DIVIDING_POINT - 1) + 1;
        assert!(SequenceNumber(n) < SequenceNumber(n.wrapping_add(i)));
    }
}

#[test]
fn every_number_equals_itself() {
    for n in 0..=65535u16 {
        assert!(SequenceNumber(n) == SequenceNumber(n));
        assert_eq!(SequenceNumber(n).cmp(&SequenceNumber(n)), Ordering::Equal);
    }
}

#[test]
fn nearest_and_farthest_follower_are_greater() {
    for n in 0..=65535u16 {
        assert!(SequenceNumber(n) < SequenceNumber(n.wrapping_add(1)));
        assert!(SequenceNumber(n) < SequenceNumber(n.wrapping_add(32767)));
        assert!(SequenceNumber(n.wrapping_add(1)) > SequenceNumber(n));
        assert!(SequenceNumber(n.wrapping_add(32767)) > SequenceNumber(n));
    }
}

#[test]
fn order_wraps_around() {
    assert!(SequenceNumber(65535) < SequenceNumber(0));
    assert!(SequenceNumber(65000) < SequenceNumber(10));
    assert!(SequenceNumber(10) > SequenceNumber(65000));
    assert_eq!(SequenceNumber(65535).cmp(&SequenceNumber(0)), Ordering::Less);
    assert_eq!(SequenceNumber(0).cmp(&SequenceNumber(65535)), Ordering::Greater);
    assert_eq!(
        SequenceNumber(1).partial_cmp(&SequenceNumber(2)),
        Some(Ordering::Less)
    );
    assert!(SequenceNumber(5) != SequenceNumber(6));
    assert!(SequenceNumber(7) >= SequenceNumber(7));
    assert!(SequenceNumber(7) <= SequenceNumber(7));
}

#[test]
fn opposite_numbers_are_greater_both_ways() {
    assert_eq!(SequenceNumber(0).cmp(&SequenceNumber(32768)), Ordering::Greater);
    assert_eq!(SequenceNumber(32768).cmp(&SequenceNumber(0)), Ordering::Greater);
    assert_eq!(SequenceNumber(100).cmp(&SequenceNumber(32868)), Ordering::Greater);
    assert_eq!(SequenceNumber(32868).cmp(&SequenceNumber(100)), Ordering::Greater);
    assert_eq!(SequenceNumber(0).cmp(&SequenceNumber(32767)), Ordering::Less);
    assert_eq!(SequenceNumber(0).cmp(&SequenceNumber(32769)), Ordering::Greater);
}

#[test]
fn increment_wraps_after_65535() {
    let mut s = SequenceNumber(65535);
    s.increment();
    assert_eq!(s.as_u16(), 0);
    assert_eq!(s, SequenceNumber(0));
}

#[test]
fn increment_steps_by_one() {
    let mut s = SequenceNumber(0);
    s.increment();
    assert_eq!(s.as_u16(), 1);
    let mut t = SequenceNumber(41);
    let before = t;
    t.increment();
    assert_eq!(t.as_u16(), 42);
    assert!(before < t);
}
