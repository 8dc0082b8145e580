use falling_sand::cadence::Cadence;

#[test]
fn a_cadence_needs_a_divisor() {
    assert!(Cadence::new(0).is_none());
    assert!(Cadence::new(1).is_some());
    assert!(Cadence::new(u32::MAX).is_some());
}

#[test]
fn the_usual_cadence_is_one_tick_in_five_cycles() {
    let mut cadence = Cadence::default();
    assert_eq!(cadence.divisor(), 5);
    assert_eq!(cadence.phase(), 0);
    let mut due = Vec::new();
    for _ in 0..12 {
        due.push(cadence.advance());
    }
    assert_eq!(
        due,
        vec![true, false, false, false, false, true, false, false, false, false, true, false]
    );
    assert_eq!(cadence.divisor(), 5);
    assert_eq!(cadence.phase(), 2);
}

#[test]
fn a_tick_is_due_on_the_multiples_of_the_divisor() {
    for divisor in 1..9u32 {
        let mut cadence = Cadence::new(divisor).expect("a divisor above zero");
        for cycle in 0..50u32 {
            assert_eq!(cadence.phase(), cycle % divisor);
            assert_eq!(cadence.advance(), cycle % divisor == 0);
        }
    }
}

#[test]
fn a_divisor_of_one_ticks_on_every_cycle() {
    let mut cadence = Cadence::new(1).expect("a divisor above zero");
    for _ in 0..10 {
        assert!(cadence.advance());
        assert_eq!(cadence.phase(), 0);
    }
}

#[test]
fn the_largest_divisor_counts_without_overflow() {
    let mut cadence = Cadence::new(u32::MAX).expect("a divisor above zero");
    assert!(cadence.advance());
    for _ in 0..1000 {
        assert!(!cadence.advance());
    }
    assert_eq!(cadence.phase(), 1001);
    assert_eq!(cadence.divisor(), u32::MAX);
}
