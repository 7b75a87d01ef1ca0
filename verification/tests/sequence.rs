use prolock::sequence::Sequence;

#[test]
fn test_sequence() {
    let mut sequence = Sequence::new();
    assert_eq!(sequence.previous(), 0);

    assert_eq!(sequence.next(), 1);

    sequence.continue_after(5);
    assert_eq!(sequence.next(), 6);
    sequence.continue_after(15);
    sequence.continue_after(7);
    sequence.continue_after(0);
    assert_eq!(sequence.next(), 16);
}

#[test]
fn sequence_from_highest_starts_after_the_largest_value() {
    let mut sequence = Sequence::from_highest(&[3, 17, 9]);
    assert_eq!(sequence.previous(), 17);
    assert_eq!(sequence.next(), 18);
    let empty = Sequence::from_highest(&[]);
    assert_eq!(empty.previous(), 0);
}

#[test]
fn sequence_from_value() {
    let mut sequence = Sequence::from(41);
    assert!(sequence.can_continue());
    assert_eq!(sequence.next(), 42);
    let last = Sequence::from(u64::MAX);
    assert!(!last.can_continue());
}
